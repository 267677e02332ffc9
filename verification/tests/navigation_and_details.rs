use scrapstation::api::download::{check_match, determine_path_from_resolution};
use scrapstation::api::storage::{
    detected_is_new, drive_label, fix_paths_report, known_library_locations, label_from_components, normalize_path,
};
use scrapstation::auth::cookie_utils::{cookies_to_string, has_session_cookie};
use scrapstation::auth::domain_utils::is_matching_domain;
use scrapstation::config::paths::{NavigationPath, PathCondition, PathOrRef, WaitStep};
use scrapstation::dict::Dict;
use scrapstation::engine::detail_extractor::{
    apply_transform, extract_badge_value, extract_by_selector, extract_download_buttons, extract_dynamic_field,
    extract_sections_from_html, extract_text_content,
};
use scrapstation::engine::navigator::{
    evaluate_condition, is_web_url, json_path_value, wait_duration, NavigationContext, PathTarget,
};
use scrapstation::engine::webview_downloader::{
    capture_timeout_ms, captured_file_name, choose_file_name, ext_from_content_type,
    filename_from_content_disposition, probe_outcome, transfer_outcome, FileNameChoice,
};
use scrapstation::engine::webview_scripts::{build_click_script, build_wait_script, escape_quotes};
use scrapstation::types::detail_section::{
    BadgeConfig, ButtonMatchRule, ButtonResolutionConfig, DetailSection, DownloadButtonConfig,
    DownloadButtonsConfig, FieldData, FieldExtraction, MatchCondition, SectionData, SelectorConfig,
    TextContentConfig,
};

fn t(s: &str) -> String {
    s.to_string()
}

fn path(steps_name: &str) -> NavigationPath {
    NavigationPath { name: Some(t(steps_name)), steps: Vec::new(), on_error: None, max_depth: 10, timeout_ms: 30000 }
}

#[test]
fn context_interpolation_and_limits() {
    let mut ctx = NavigationContext::new(t("https://h/p"), t("src"), None, Dict::new());
    ctx.current_value = Some(t("V"));
    ctx.vars.insert(t("id"), t("9"));
    ctx.metadata.insert(t("size"), t("1 GB"));
    assert_eq!(ctx.interpolate("{url}?v={value}&id={id}&s={meta.size}&x={x}"), "https://h/p?v=V&id=9&s=1 GB&x={x}");
    assert!(!ctx.is_too_deep());
    assert!(!ctx.is_timed_out_after(30_000_000_000));
    assert!(ctx.is_timed_out_after(30_000_000_001));
    let ctx = ctx.with_max_depth(0).with_timeout(5);
    assert_eq!(ctx.max_depth, 0);
    assert_eq!(ctx.timeout_ms, 5);
}

#[test]
fn path_conditions() {
    let mut ctx = NavigationContext::new(t("https://files.example.com/d/1"), t("src"), None, Dict::new());
    ctx.last_status = 302;
    ctx.current_value = Some(t(""));
    assert!(evaluate_condition(&PathCondition::StatusRedirect, &ctx));
    assert!(!evaluate_condition(&PathCondition::StatusSuccess, &ctx));
    assert!(evaluate_condition(&PathCondition::IsEmpty, &ctx));
    assert!(evaluate_condition(&PathCondition::HostContains(t("example")), &ctx));
    assert!(evaluate_condition(&PathCondition::Not(Box::new(PathCondition::Never)), &ctx));
    assert!(!evaluate_condition(&PathCondition::And(vec![PathCondition::Always, PathCondition::Never]), &ctx));
    assert!(evaluate_condition(&PathCondition::StatusRange { min: 300, max: 399 }, &ctx));
}

#[test]
fn json_paths_and_waits() {
    let doc = r#"{"a":{"b":[{"c":"x"},{"c":5}]}}"#;
    assert_eq!(json_path_value(doc, "a.b[1].c"), Ok(t("5")));
    assert_eq!(json_path_value(doc, "a.b[0].c"), Ok(t("x")));
    let ctx = NavigationContext::new(t("u"), t("s"), None, Dict::new());
    assert_eq!(wait_duration(&WaitStep { ms: None, seconds: Some(2), var: None }, &ctx), Ok(2000));
    assert_eq!(wait_duration(&WaitStep { ms: None, seconds: None, var: Some(t("w")) }, &ctx), Err(t("Variable not found: w")));
    assert!(is_web_url("https://x"));
    assert!(!is_web_url("ftp://x"));
}

#[test]
fn button_resolution_paths() {
    let mut paths = Dict::new();
    paths.insert(t("gofile"), path("gofile"));
    paths.insert(t("generic"), path("generic"));
    let cfg = ButtonResolutionConfig {
        match_rules: Some(vec![
            ButtonMatchRule { when: MatchCondition::HostEquals(t("gofile.io")), resolver: Some(t("gofile")), path: None },
            ButtonMatchRule { when: MatchCondition::Contains(t("mega")), resolver: Some(t("missing")), path: None },
            ButtonMatchRule { when: MatchCondition::Always, resolver: None, path: None },
        ]),
        default: Some(t("generic")),
        steps: None,
        fallback: None,
    };
    match determine_path_from_resolution("https://gofile.io/d/x", &cfg, &paths) {
        Ok(PathTarget::Path(p)) => assert_eq!(p.name, Some(t("gofile"))),
        _ => panic!("gofile resolver"),
    }
    assert_eq!(
        determine_path_from_resolution("https://mega.nz/x", &cfg, &paths).err(),
        Some(t("Resolver 'missing' not found"))
    );
    match determine_path_from_resolution("https://other/x", &cfg, &paths) {
        Ok(PathTarget::Path(p)) => assert_eq!(p.name, Some(t("generic"))),
        _ => panic!("default resolver"),
    }
    let none = ButtonResolutionConfig { match_rules: None, default: None, steps: None, fallback: None };
    assert_eq!(determine_path_from_resolution("u", &none, &paths).err(), Some(t("No matching path found for URL")));
    let referenced = ButtonResolutionConfig {
        match_rules: Some(vec![ButtonMatchRule {
            when: MatchCondition::EndsWith(t(".zip")),
            resolver: None,
            path: Some(PathOrRef::Inline(Vec::new())),
        }]),
        default: None,
        steps: None,
        fallback: None,
    };
    assert!(matches!(determine_path_from_resolution("a.zip", &referenced, &paths), Ok(PathTarget::Steps(_))));
    assert!(check_match(&MatchCondition::Matches(t("^a+$")), "aaa"));
    assert!(!check_match(&MatchCondition::Matches(t("(")), "("));
}

const DETAIL: &str = r#"<html><body>
<h1 class="title">  My Game </h1>
<div class="hero" data-bg="/bg.jpg"></div>
<ul><li class="info">Version: 1.2</li><li class="info">Rating: 87</li></ul>
<div class="desc">
  Line one

  Line two
</div>
<a class="dl" href="https://gofile.io/d/1"> GoFile </a>
<a class="dl" href="">Empty</a>
<a class="dl" href="https://mega.nz/x">Mega mirror</a>
</body></html>"#;

fn badge(contains: Option<&str>, after: Option<&str>, number: bool) -> BadgeConfig {
    BadgeConfig {
        label: t("L"),
        icon: t("i"),
        selector: t("li.info"),
        contains: contains.map(t),
        extract_after: after.map(t),
        extract_number: Some(number),
        suffix: Some(t("%")),
        style: t("s"),
    }
}

#[test]
fn detail_values() {
    let title = SelectorConfig { selector: t("h1.title"), attribute: None };
    assert_eq!(extract_by_selector(DETAIL, &title), Some(t("My Game")));
    let bg = SelectorConfig { selector: t("div.hero"), attribute: Some(t("data-bg")) };
    assert_eq!(extract_by_selector(DETAIL, &bg), Some(t("/bg.jpg")));
    assert_eq!(extract_by_selector(DETAIL, &SelectorConfig { selector: t("table"), attribute: None }), None);
    assert_eq!(extract_badge_value(DETAIL, &badge(Some("Version"), Some("Version:"), false)), Some(t("1.2")));
    assert_eq!(extract_badge_value(DETAIL, &badge(Some("Rating"), None, true)), Some(t("87%")));
    assert_eq!(extract_badge_value(DETAIL, &badge(Some("Nope"), None, false)), None);
    let text = TextContentConfig { selector: t("div.desc"), extract: t("text"), max_length: Some(12) };
    assert_eq!(extract_text_content(DETAIL, &text), Some(t("Line one\nLin...")));
    assert_eq!(apply_transform(" <b>X</b> ", "strip_html"), "X");
    assert_eq!(apply_transform("aB", "lowercase"), "ab");
    assert_eq!(apply_transform("aB", "other"), "aB");
}

fn button(selector: &str, contains: Option<&str>) -> DownloadButtonConfig {
    DownloadButtonConfig {
        label: t("Download"),
        selector: t(selector),
        icon: t("dl"),
        style: t("primary"),
        action: t("open_link"),
        resolve_link: None,
        use_text_as_label: Some(true),
        contains_text: contains.map(t),
        smart_download: Some(true),
        supported: None,
        warning: None,
        resolver: None,
        resolution: None,
        path: None,
    }
}

#[test]
fn detail_buttons_and_fields() {
    let cfg = DownloadButtonsConfig { buttons: vec![button("a.dl", None), button("a.dl", Some("Mega")), button("[[", None)] };
    let buttons = extract_download_buttons(DETAIL, &cfg);
    let got: Vec<(&str, &str)> = buttons.iter().map(|b| (b.label.as_str(), b.url.as_str())).collect();
    assert_eq!(
        got,
        vec![("GoFile", "https://gofile.io/d/1"), ("Mega mirror", "https://mega.nz/x"), ("Mega mirror", "https://mega.nz/x")]
    );
    assert!(buttons.iter().all(|b| b.action == "smart_download" && b.supported));
    let many = FieldExtraction {
        selector: t("li.info"),
        extract: t("text"),
        attribute: None,
        multiple: true,
        pattern: Some(t(":\\s*(.+)$")),
        transform: Some(t("uppercase")),
        default: None,
    };
    match extract_dynamic_field(DETAIL, &many) {
        Some(FieldData::Many(v)) => assert_eq!(v, vec![t("1.2"), t("87")]),
        _ => panic!("many values"),
    }
    let link = FieldExtraction {
        selector: t("a.dl"),
        extract: t("attribute"),
        attribute: None,
        multiple: false,
        pattern: None,
        transform: None,
        default: None,
    };
    match extract_dynamic_field(DETAIL, &link) {
        Some(FieldData::Single(v)) => assert_eq!(v, "https://gofile.io/d/1"),
        _ => panic!("single value"),
    }
}

#[test]
fn detail_sections_in_display_order() {
    let sections = vec![
        DetailSection::TextContent {
            order: 5,
            title: t("About"),
            icon: t("info"),
            config: TextContentConfig { selector: t("div.desc"), extract: t("text"), max_length: None },
        },
        DetailSection::TextContent {
            order: 1,
            title: t("Missing"),
            icon: t("x"),
            config: TextContentConfig { selector: t("table"), extract: t("text"), max_length: None },
        },
        DetailSection::DownloadButtons {
            order: 5,
            title: t("Downloads"),
            icon: t("dl"),
            config: DownloadButtonsConfig { buttons: vec![button("a.dl", Some("GoFile"))] },
        },
        DetailSection::DownloadButtons {
            order: 2,
            title: t("First"),
            icon: t("dl"),
            config: DownloadButtonsConfig { buttons: vec![] },
        },
    ];
    let out = extract_sections_from_html(DETAIL, &sections).unwrap();
    let got: Vec<(u32, &str)> = out.iter().map(|s| (s.order, s.title.as_deref().unwrap())).collect();
    assert_eq!(got, vec![(2, "First"), (5, "About"), (5, "Downloads")]);
    match &out[1].data {
        SectionData::TextContent { content } => assert_eq!(content, "Line one\nLine two"),
        _ => panic!("text section"),
    }
}

#[test]
fn webview_download_naming() {
    assert_eq!(
        filename_from_content_disposition("Attachment; FILENAME*=UTF-8''Big%20Game.rar"),
        Some(t("Big Game.rar"))
    );
    assert_eq!(filename_from_content_disposition("attachment; filename=\"x.zip\""), Some(t("x.zip")));
    assert_eq!(filename_from_content_disposition("attachment"), None);
    assert_eq!(filename_from_content_disposition("İnline; Filename=\"ŞİR.zip\""), Some(t("ŞİR.zip")));
    assert_eq!(ext_from_content_type("Application/X-7z-Compressed; charset=binary"), Some(t("7z")));
    assert_eq!(ext_from_content_type("text/html"), None);
    assert!(matches!(choose_file_name(Some("abc123"), None, Some("application/zip")), FileNameChoice::Rename(n) if n == "abc123.zip"));
    assert!(matches!(choose_file_name(Some("a.bin"), None, Some("application/zip")), FileNameChoice::Keep));
    assert!(matches!(choose_file_name(None, Some("attachment; filename=z.7z"), None), FileNameChoice::Rename(n) if n == "z.7z"));
    assert_eq!(captured_file_name(Some("My%20File.zip")), "My File.zip");
    assert_eq!(captured_file_name(None), "download");
    assert_eq!(capture_timeout_ms(5000), 60000);
    assert_eq!(capture_timeout_ms(90000), 90000);
}

#[test]
fn webview_download_outcomes() {
    let ok = transfer_outcome(t("u"), Ok((t("/d/f.zip"), 10))).unwrap();
    assert!(ok.success);
    assert_eq!(ok.file_size, Some(10));
    let paused = transfer_outcome(t("u"), Err(t("PAUSED"))).unwrap();
    assert_eq!(paused.error, Some(t("Download paused")));
    let cancelled = transfer_outcome(t("u"), Err(t("CANCELLED"))).unwrap();
    assert_eq!(cancelled.error, Some(t("Download cancelled")));
    assert!(transfer_outcome(t("u"), Err(t("HTTP error: 403"))).is_none());
    assert_eq!(probe_outcome(t("u"), t(""), Some(5)).cookies, None);
    assert_eq!(probe_outcome(t("u"), t("a=1"), None).cookies, Some(t("a=1")));
}

#[test]
fn webview_scripts_fill_templates() {
    assert_eq!(escape_quotes("a'b"), "a\\'b");
    let s = build_click_script("button[title='Go']", "ev-1");
    assert!(s.contains("document.querySelector('button[title=\\'Go\\']')"));
    assert!(s.contains("window.__TAURI__.event.emit('ev-1'"));
    let w = build_wait_script(1500, "#x");
    assert!(w.contains("setTimeout(() => resolve(false), 1500)"));
    assert!(w.contains("document.querySelector('#x')"));
}

#[test]
fn cookies_and_domains() {
    let cookies = vec![(t("sid"), t("1")), (t("lang"), t("en"))];
    assert_eq!(cookies_to_string(&cookies), "sid=1; lang=en");
    assert!(has_session_cookie("sid=1; lang=en", "sid"));
    assert!(!has_session_cookie("lang=en", "sid"));
    assert!(is_matching_domain("WWW.Example.com", &[t("example.com")]));
    assert!(is_matching_domain("cdn.example.com", &[t("other.org"), t("example.com")]));
    assert!(!is_matching_domain("badexample.com", &[t("example.com")]));
}

#[test]
fn library_locations() {
    assert_eq!(normalize_path("C:\\Games\\Lib\\", true), "c:\\games\\lib");
    assert_eq!(normalize_path("/a/b//", false), "/a/b");
    let extras = vec![t("/mnt/games/Library"), t("/home/u/Lib/"), t("/data/lib")];
    let locs = known_library_locations("/home/u/Lib", "/appdata/Library", true, &extras, false);
    let got: Vec<(&str, bool, bool)> = locs.iter().map(|l| (l.path.as_str(), l.is_current, l.removable)).collect();
    assert_eq!(
        got,
        vec![
            ("/home/u/Lib", true, false),
            ("/appdata/Library", false, false),
            ("/mnt/games/Library", false, true),
            ("/data/lib", false, true),
        ]
    );
    assert_eq!(locs[0].label, "Current (custom)");
    assert_eq!(locs[1].label, "Default (AppData)");
    assert_eq!(locs[2].label, "games › Library");
    let same = known_library_locations("/a/Library/", "/a/Library", false, &vec![], false);
    assert_eq!(same.len(), 1);
    assert_eq!(same[0].label, "Default (AppData)");
    assert!(detected_is_new("D:\\ScrapStation\\Library", "/x", "/y", &extras, true));
    assert!(!detected_is_new("/data/lib/", "/x", "/y", &extras, false));
    assert_eq!(label_from_components(&vec![t("only")], "only"), "only");
    assert_eq!(drive_label("/one"), "/ › one");
    let r = fix_paths_report(2, 0);
    assert_eq!(r.message, "Fixed 2 total path reference(s).");
    assert_eq!(r.details, vec![t("Fixed 2 download path(s)."), t("Library paths are already correct.")]);
    assert_eq!(fix_paths_report(0, 0).message, "All paths are already correct — nothing to fix.");
}
