use scrapstation::api::library::{
    counts_as_fixed, cover_file_names, extraction_outcome, extraction_start, is_disk_full_error, recovered_game,
    recovered_title, repair_games, repair_patch, FolderScan,
};
use scrapstation::api::download::{classify_resume_response, range_header, resume_offset, ResumeResponse};
use scrapstation::api::storage::drive_label;
use scrapstation::auth::webview_auth::{auth_navigation, clear_auth_state, has_auth_webview, mark_authenticated, AuthWebviews};
use scrapstation::config::paths::{AggregateConfig, ExtractAllStep, ForEachConfig, MetaExtraction, PathCondition};
use scrapstation::dict::Dict;
use scrapstation::engine::host_resolution::DownloadManager;
use scrapstation::engine::library_tracker::{
    generate_library_game_id, ExeType, GameExecutable, LibraryGame, LibraryGameStatus,
};
use scrapstation::engine::navigator::{
    after_handler, after_step, extract_all_items, path_start_check, stop_for_timeout, NavigationContext, PathAction, StepResult,
};
use scrapstation::engine::webview_downloader::{
    capture_step, choose_file_name, fallback_done, fallback_failure, fallback_step, invalid_url_outcome, CaptureAction,
    FallbackAction, FileNameChoice,
};
use scrapstation::json::is_jsonpath_evaluable;
use scrapstation::settings::UserSettings;
use scrapstation::utils::rate_limiter::{AdaptiveRateLimiter, LoadLevel};

fn t(s: &str) -> String {
    s.to_string()
}

fn exe(path: &str, score: f32, kind: ExeType) -> GameExecutable {
    GameExecutable { path: t(path), name: t(path), score_bits: score.to_bits(), exe_type: kind }
}

fn game(status: LibraryGameStatus) -> LibraryGame {
    LibraryGame {
        id: t("g1"),
        source_slug: t("src"),
        source_game_id: t("1"),
        title: t("Game"),
        cover_url: None,
        cover_path: None,
        install_path: t("/lib/game"),
        install_size: 0,
        status,
        installed_at: 5,
        last_played: None,
        total_playtime: 0,
        executables: Vec::new(),
        primary_exe: None,
        archive_password: Some(t("stored")),
        download_ids: Vec::new(),
    }
}

#[test]
fn drive_labels_take_the_last_two_components() {
    assert_eq!(drive_label("a/b"), "a › b");
    assert_eq!(drive_label("x/a/b"), "a › b");
    assert_eq!(drive_label("games"), "games");
}

#[test]
fn disk_full_errors_are_recognised() {
    assert!(is_disk_full_error("IO error: No space left on device"));
    assert!(is_disk_full_error("There is not enough space on the disk."));
    assert!(is_disk_full_error("STORAGE FULL"));
    assert!(!is_disk_full_error("Wrong password"));
}

#[test]
fn extraction_start_guards_and_picks_the_password() {
    assert_eq!(extraction_start(LibraryGameStatus::Extracting, Some(t("p")), None), None);
    assert_eq!(extraction_start(LibraryGameStatus::Ready, Some(t("p")), Some(t("s"))), Some(Some(t("p"))));
    assert_eq!(extraction_start(LibraryGameStatus::Corrupted, None, Some(t("s"))), Some(Some(t("s"))));
    assert_eq!(extraction_start(LibraryGameStatus::Downloading, None, None), Some(None));
}

#[test]
fn extraction_outcomes() {
    let (g, r) = extraction_outcome(game(LibraryGameStatus::Extracting), Err(t("No space left on device")), Vec::new(), 0);
    assert_eq!(g.status, LibraryGameStatus::Corrupted);
    assert_eq!(r, Err(t("disk_space: No space left on device")));
    let (_, r) = extraction_outcome(game(LibraryGameStatus::Extracting), Err(t("Wrong password")), Vec::new(), 0);
    assert_eq!(r, Err(t("Wrong password")));
    let (g, r) = extraction_outcome(game(LibraryGameStatus::Extracting), Ok(0), Vec::new(), 0);
    assert_eq!(g.status, LibraryGameStatus::Corrupted);
    assert_eq!(r, Err(t("disk_space: Not enough disk space — no files were extracted.")));
    let exes = vec![
        exe("setup.exe", 0.9, ExeType::Installer),
        exe("game.exe", 0.8, ExeType::Main),
        exe("tool.exe", 0.3, ExeType::Tool),
    ];
    let (g, r) = extraction_outcome(game(LibraryGameStatus::Extracting), Ok(12), exes, 4096);
    assert_eq!(r, Ok(()));
    assert_eq!(g.status, LibraryGameStatus::Ready);
    assert_eq!(g.install_size, 4096);
    assert_eq!(g.executables.len(), 3);
    assert_eq!(g.primary_exe, Some(t("game.exe")));
}

#[test]
fn recovered_games() {
    assert_eq!(recovered_title("my-cool-game"), "My Cool Game");
    assert_eq!(recovered_title("solo"), "Solo");
    assert_eq!(recovered_title("a--b"), "A  B");
    let exes = vec![exe("run.exe", 0.5, ExeType::Main), exe("redist.exe", 0.9, ExeType::Redistributable)];
    let g = recovered_game("my-game", "/lib/my-game/game", Some(t("/covers/my-game.jpg")), exes, 77, 1000);
    assert_eq!(g.id, generate_library_game_id("recovered", "my-game"));
    assert!(g.id.starts_with("recovered_"));
    assert_eq!(g.source_slug, "recovered");
    assert_eq!(g.source_game_id, "my-game");
    assert_eq!(g.title, "My Game");
    assert_eq!(g.install_path, "/lib/my-game/game");
    assert_eq!(g.status, LibraryGameStatus::Ready);
    assert_eq!(g.installed_at, 1000);
    assert_eq!(g.install_size, 77);
    assert_eq!(g.primary_exe, Some(t("run.exe")));
    assert_eq!(g.cover_path, Some(t("/covers/my-game.jpg")));
}

#[test]
fn repair_patches() {
    let g = game(LibraryGameStatus::Ready);
    let p = repair_patch(&g, false, Some(t("/c/game.png")), vec![exe("game.exe", 0.5, ExeType::Main)]);
    assert_eq!(p.0, Some(t("/c/game.png")));
    assert_eq!(p.1.as_ref().map(|v| v.len()), Some(1));
    assert!(counts_as_fixed(&p));
    let mut ok = game(LibraryGameStatus::Ready);
    ok.cover_path = Some(t("/c/game.jpg"));
    ok.executables = vec![exe("game.exe", 0.5, ExeType::Main)];
    ok.primary_exe = Some(t("game.exe"));
    let p = repair_patch(&ok, true, Some(t("/c/other.jpg")), vec![exe("x.exe", 0.5, ExeType::Main)]);
    assert!(p.0.is_none() && p.1.is_none());
    assert!(!counts_as_fixed(&p));
    let p = repair_patch(&g, false, None, Vec::new());
    assert!(!counts_as_fixed(&p));
    assert_eq!(cover_file_names("slug"), vec![t("slug.jpg"), t("slug.png"), t("slug.webp")]);
}

#[test]
fn rate_limiter_paces_requests() {
    let mut rl = AdaptiveRateLimiter::new(30, 500, 10);
    assert_eq!(rl.calculate_delay(0), 800);
    assert_eq!(rl.calculate_delay(4), 2000);
    assert_eq!(rl.calculate_delay(42), 6000);
    assert_eq!(rl.get_load_level(2), LoadLevel::Idle);
    assert_eq!(rl.get_load_level(3), LoadLevel::Low);
    assert_eq!(rl.get_load_level(9), LoadLevel::Critical);
    assert_eq!(rl.get_load_level(9).as_str(), "CRITICAL");
    assert_eq!(rl.delay_with_jitter(0), 800);
    assert_eq!(rl.delay_with_jitter(25), 1000);
    assert_eq!(rl.delay_with_jitter(-25), 600);
    let d = rl.next_delay_ms();
    assert!((600..=1000).contains(&d));
    let s = 1_000_000_000u64;
    for i in 0..20u64 {
        rl.record(i * s);
    }
    assert_eq!(rl.recent_requests(), 15);
    assert_eq!(rl.burst_wait_ns(19 * s), Some(30 * s - 14 * s + 500_000_000));
    rl.prune(40 * s);
    assert_eq!(rl.recent_requests(), 10);
    assert_eq!(rl.burst_wait_ns(40 * s), None);
    rl.prune(50 * s);
    assert_eq!(rl.recent_requests(), 0);
    let strict = AdaptiveRateLimiter::new(1, 3000, 2);
    assert_eq!(strict.delay_with_jitter(-25), 3000);
}

#[test]
fn settings_are_read_back() {
    let mut s = UserSettings::new();
    assert!(s.get_setting("src", "cookies").is_none());
    s.set_setting("src", "cookies", serde_json::Value::String(t("a=b")));
    s.set_setting("src", "quality", serde_json::Value::Bool(true));
    s.set_setting("other", "quality", serde_json::Value::Bool(false));
    assert_eq!(s.get_setting("src", "cookies"), Some(serde_json::Value::String(t("a=b"))));
    assert_eq!(s.get_source_settings("src").len(), 2);
    s.clear_setting("src", "cookies");
    assert!(s.get_setting("src", "cookies").is_none());
    assert_eq!(s.get_setting("src", "quality"), Some(serde_json::Value::Bool(true)));
    s.clear_source_settings("src");
    assert!(s.get_setting("src", "quality").is_none());
    assert_eq!(s.get_setting("other", "quality"), Some(serde_json::Value::Bool(false)));
    let mut values: Dict<serde_json::Value> = Dict::new();
    values.insert(t("k"), serde_json::Value::Null);
    s.set_source_settings("other", values);
    assert!(s.get_setting("other", "quality").is_none());
    assert_eq!(s.get_setting("other", "k"), Some(serde_json::Value::Null));
}

#[test]
fn auth_state_follows_the_last_call() {
    let mut w = AuthWebviews::new();
    mark_authenticated(&mut w, "a");
    mark_authenticated(&mut w, "b");
    clear_auth_state(&mut w, "a");
    mark_authenticated(&mut w, "a");
    clear_auth_state(&mut w, "b");
    assert!(has_auth_webview(&w, "a"));
    assert!(!has_auth_webview(&w, "b"));
    assert!(!has_auth_webview(&w, "c"));
}

#[test]
fn unevaluable_jsonpath_indexes_are_refused() {
    assert!(is_jsonpath_evaluable("$.data[0].link"));
    assert!(is_jsonpath_evaluable("$[0:2:1]"));
    assert!(is_jsonpath_evaluable("$[1,2]"));
    assert!(!is_jsonpath_evaluable("$[0:2:0]"));
    assert!(!is_jsonpath_evaluable("$[-1, 2]"));
    assert!(!is_jsonpath_evaluable("$[1.5,2]"));
    assert!(!is_jsonpath_evaluable("$[12345678901234567890]"));
    assert!(is_jsonpath_evaluable("$[9223372036854775807]"));
    assert!(!is_jsonpath_evaluable("$[9223372036854775808]"));
    let r = DownloadManager::extract_with_jsonpath("[1,2,3]", &Some(t("$[0:2:0]")));
    assert_eq!(r, Err(t("Unsupported JSONPath '$[0:2:0]': an index that cannot be evaluated")));
    assert_eq!(DownloadManager::extract_with_jsonpath("[1,2,3]", &Some(t("$[0:2:1]"))), Ok(t("1")));
}

#[test]
fn file_names_with_a_colon_keep_their_extension() {
    match choose_file_name(Some("C:.zip"), None, Some("application/x-rar-compressed")) {
        FileNameChoice::Keep => {},
        other => panic!("unexpected {:?}", other),
    }
    match choose_file_name(Some("archive"), None, Some("application/zip")) {
        FileNameChoice::Rename(n) => assert_eq!(n, "archive.zip"),
        other => panic!("unexpected {:?}", other),
    }
}

#[test]
fn warnings_and_results_leave_the_rest() {
    let mut ctx = NavigationContext::new(t("https://h/p"), t("src"), None, Dict::new());
    ctx.depth = 3;
    ctx.last_status = 200;
    ctx.warn(t("careful"));
    assert_eq!(ctx.warnings, vec![t("careful")]);
    assert_eq!(ctx.depth, 3);
    assert_eq!(ctx.last_status, 200);
}

#[test]
fn extract_all_picks_filtered_items_with_metadata() {
    let mut ctx = NavigationContext::new(t("https://h/p"), t("src"), None, Dict::new());
    ctx.response_body = t(r#"<ul><li><a href="https://x/1">One</a><span class="s">1 GB</span></li>
        <li><a href="/rel">Rel</a></li><li><a href="https://x/2">Two</a><span class="s">2 GB</span></li>
        <li><a>none</a></li></ul>"#);
    let mut meta: Dict<MetaExtraction> = Dict::new();
    meta.insert(t("size"), MetaExtraction { selector: Some(t("span.s")), attribute: None, regex: None, value: None });
    meta.insert(t("kind"), MetaExtraction { selector: None, attribute: None, regex: None, value: Some(t("file")) });
    let step = ExtractAllStep {
        selector: t("li"),
        attribute: t("data-x"),
        limit: None,
        filter: None,
        foreach: ForEachConfig { match_rules: None, path: None, default: None },
        aggregate: AggregateConfig::default(),
        extract_meta: Dict::new(),
    };
    assert_eq!(extract_all_items(&step, &ctx).unwrap().len(), 0);
    let step = ExtractAllStep {
        selector: t("a"),
        attribute: t("href"),
        limit: None,
        filter: Some(PathCondition::StartsWith(t("https://"))),
        foreach: ForEachConfig { match_rules: None, path: None, default: None },
        aggregate: AggregateConfig::default(),
        extract_meta: meta,
    };
    let items = extract_all_items(&step, &ctx).unwrap();
    assert_eq!(items.len(), 2);
    assert_eq!(items[0].0, "https://x/1");
    assert_eq!(items[1].0, "https://x/2");
    assert_eq!(items[0].1.get("kind"), Some(&t("file")));
    let bad = ExtractAllStep {
        selector: t("a[["),
        attribute: t("href"),
        limit: Some(0),
        filter: None,
        foreach: ForEachConfig { match_rules: None, path: None, default: None },
        aggregate: AggregateConfig::default(),
        extract_meta: Dict::new(),
    };
    assert_eq!(extract_all_items(&bad, &ctx).unwrap_err(), "Invalid selector: a[[");
}

fn link(url: &str) -> scrapstation::config::paths::ResolvedLink {
    scrapstation::config::paths::ResolvedLink {
        url: t(url),
        label: None,
        host: None,
        size: None,
        browser_only: false,
        browser_only_reason: None,
        metadata: Dict::new(),
        resolution_path: Vec::new(),
    }
}

#[test]
fn path_steps_are_settled() {
    let mut ctx = NavigationContext::new(t("https://h/p"), t("src"), None, Dict::new());
    assert!(path_start_check(&ctx, false).is_ok());
    assert_eq!(path_start_check(&ctx, true), Err(t("Navigation timeout exceeded")));
    ctx.depth = 11;
    assert_eq!(path_start_check(&ctx, false), Err(t("Maximum depth 10 exceeded")));
    ctx.depth = 0;
    assert!(matches!(after_step(&mut ctx, 0, Ok(StepResult::Continue), false), PathAction::NextStep));
    assert!(matches!(after_step(&mut ctx, 1, Ok(StepResult::ReturnMultiple(vec![link("https://a"), link("https://b")])), false), PathAction::NextStep));
    assert!(matches!(after_step(&mut ctx, 2, Ok(StepResult::Return(link("https://c"))), false), PathAction::Stop));
    let urls: Vec<String> = ctx.results.iter().map(|l| l.url.clone()).collect();
    assert_eq!(urls, vec![t("https://a"), t("https://b"), t("https://c")]);
    assert!(matches!(after_step(&mut ctx, 3, Ok(StepResult::Error(t("boom"))), false), PathAction::Fail(m) if m == "boom"));
    assert!(matches!(after_step(&mut ctx, 3, Ok(StepResult::Error(t("boom"))), true), PathAction::HandleError));
    assert!(matches!(after_step(&mut ctx, 4, Err(t("bad")), false), PathAction::NextStep));
    assert_eq!(ctx.warnings.last(), Some(&t("Step 4 failed: bad")));
    assert!(stop_for_timeout(&mut ctx, true));
    assert_eq!(ctx.warnings.last(), Some(&t("Timeout during step execution")));
    assert!(!stop_for_timeout(&mut ctx, false));
    assert!(after_handler(&mut ctx, Ok(true), true));
    assert!(!after_handler(&mut ctx, Ok(false), true));
    assert!(!after_handler(&mut ctx, Err(t("x")), true));
    assert_eq!(ctx.warnings.last(), Some(&t("Error handler failed: x")));
    let n = ctx.warnings.len();
    assert!(!after_handler(&mut ctx, Err(t("y")), false));
    assert_eq!(ctx.warnings.len(), n);
}

#[test]
fn webview_downloads_refuse_invalid_urls() {
    assert!(invalid_url_outcome("https://host/file.zip").is_none());
    let o = invalid_url_outcome("not a url").unwrap();
    assert!(!o.success);
    assert_eq!(o.error, Some(t("Invalid URL 'not a url': relative URL without a base")));
}

#[test]
fn login_windows_check_after_coming_back() {
    let close = vec![t("example.com")];
    assert_eq!(auth_navigation(false, Some("www.Example.com"), &close), (false, false));
    assert_eq!(auth_navigation(false, Some("accounts.google.com"), &close), (true, false));
    assert_eq!(auth_navigation(true, Some("forum.example.com"), &close), (true, true));
    assert_eq!(auth_navigation(false, None, &close), (true, false));
}

#[test]
fn resumed_downloads_pick_up_where_they_stopped() {
    use_resume();
}

fn use_resume() {
    assert_eq!(resume_offset(500, true, Some(500)), 500);
    assert_eq!(resume_offset(500, true, Some(400)), 0);
    assert_eq!(resume_offset(500, false, Some(500)), 0);
    assert_eq!(resume_offset(500, true, None), 0);
    assert_eq!(resume_offset(0, true, Some(0)), 0);
    assert_eq!(range_header(1234), "bytes=1234-");
    assert_eq!(classify_resume_response(206, Some(100), 50, 999), ResumeResponse::Partial { total: 150 });
    assert_eq!(classify_resume_response(206, None, 50, 999), ResumeResponse::Partial { total: 999 });
    assert_eq!(classify_resume_response(200, Some(5_000), 50, 2_000_000), ResumeResponse::Suspicious);
    assert_eq!(classify_resume_response(200, Some(5_000_000), 50, 2_000_000), ResumeResponse::Whole { total: 5_000_000 });
    assert_eq!(classify_resume_response(200, None, 0, 2_000_000), ResumeResponse::Whole { total: 0 });
    assert_eq!(classify_resume_response(403, Some(10), 0, 0), ResumeResponse::HttpError { status: 403 });
}

fn scan(folder: &str, cover: Option<&str>, exes: Vec<GameExecutable>) -> FolderScan {
    FolderScan {
        folder: t(folder),
        game_path: format!("/lib/{}/game", folder),
        cover: cover.map(t),
        executables: exes,
        install_size: 10,
    }
}

#[test]
fn library_repair_patches_adds_and_counts() {
    let mut known = game(LibraryGameStatus::Ready);
    known.install_path = t("/lib/game-a/game");
    let mut other = game(LibraryGameStatus::Ready);
    other.id = t("g2");
    other.install_path = t("/elsewhere/b");
    let mut fine = game(LibraryGameStatus::Ready);
    fine.id = t("g3");
    fine.install_path = t("/elsewhere/c");
    fine.cover_path = Some(t("/c/c.jpg"));
    let mut games = vec![known, other, fine];
    let paths: Vec<String> = games.iter().map(|g| g.install_path.clone()).collect();
    let exists = vec![false, false, true];
    let slug = vec![None, Some(t("/c/b.png")), Some(t("/c/c2.png"))];
    let scans = vec![
        scan("game-a", Some("/c/game-a.jpg"), vec![exe("a.exe", 0.7, ExeType::Main)]),
        scan("new-one", None, vec![exe("n.exe", 0.4, ExeType::Main)]),
    ];
    let n = repair_games(&mut games, &paths, &exists, scans, &slug, 42);
    assert_eq!(n, 3);
    assert_eq!(games.len(), 4);
    assert_eq!(games[0].cover_path, Some(t("/c/game-a.jpg")));
    assert_eq!(games[0].primary_exe, Some(t("a.exe")));
    assert_eq!(games[1].cover_path, Some(t("/c/b.png")));
    assert_eq!(games[2].cover_path, Some(t("/c/c.jpg")));
    assert_eq!(games[3].title, "New One");
    assert_eq!(games[3].source_slug, "recovered");
    assert_eq!(games[3].installed_at, 42);
    assert_eq!(games[3].primary_exe, Some(t("n.exe")));
}

#[test]
fn webview_waits_are_stepped() {
    use_steps();
}

fn use_steps() {
    let ms = 1_000_000u128;
    assert_eq!(capture_step(60_001 * ms, 0, 60_000, true, true), CaptureAction::TimedOut);
    assert_eq!(capture_step(60_000 * ms, 0, 60_000, true, true), CaptureAction::Captured);
    assert_eq!(capture_step(10 * ms, 5_000 * ms, 60_000, false, true), CaptureAction::Click);
    assert_eq!(capture_step(10 * ms, 4_999 * ms, 60_000, false, true), CaptureAction::Wait);
    assert_eq!(capture_step(10 * ms, 9_000 * ms, 60_000, false, false), CaptureAction::Wait);
    assert_eq!(fallback_step(600_001 * ms, true, true, true), FallbackAction::TimedOut);
    assert_eq!(fallback_step(5 * ms, true, true, true), FallbackAction::Done);
    assert_eq!(fallback_step(5 * ms, true, true, false), FallbackAction::Failed);
    assert_eq!(fallback_step(5 * ms, true, false, true), FallbackAction::Wait);
    assert_eq!(fallback_failure(t("u"), true).error, Some(t("Fallback download timeout")));
    assert_eq!(fallback_failure(t("u"), false).error, Some(t("WebView download failed")));
    let d = fallback_done(t("u"), t("/d/f.zip"), Some(3));
    assert!(d.success && d.file_size == Some(3));
}
