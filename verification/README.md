# scrapstation

The verified engine of ScrapStation, a configuration-driven game browser and
downloader: each site is described by a source configuration, and the engine
detects file hosts, follows link-resolution paths, extracts listings and game
details from HTML and JSON, tracks downloads and the game library, and paces
requests.

Layout:

- `src/` — the library, written in Verus. Every function states its contract
  (`requires`/`ensures`) over mathematical models (`Seq`, `Map`, spec
  functions) and is proved. Calls into `regex`, `url`, `urlencoding`,
  `base64`, `serde_json`, `scraper`, `jsonpath-rust`, `chrono`, `fastrand`
  and std go through small trusted wrappers, each documenting what it claims.
  - `config/` — the source configuration model (hosts, paths, settings).
  - `engine/` — host detection, extraction, transformation, navigation
    paths, link resolution, download and library tracking, WebView decisions.
  - `auth/`, `api/`, `settings.rs`, `utils/` — authentication state, the
    decisions behind the application's commands, user settings, rate pacing.
- `tests/` — ordinary Rust tests of the library.
- `app/` — the command-line program around it: file system, clock, sleeping
  and the floating-point executable scoring.
