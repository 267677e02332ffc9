use scrapstation::config::hosts::{
    DownloadErrorType, DownloadMethod, ErrorCondition, HostConfig, HostDisplay, HostResolver, HostsConfig,
};
use scrapstation::config::link_resolution::{ExtractionMethodType, ResolutionStep};
use scrapstation::config::transformations::Transformation;
use scrapstation::dict::Dict;
use scrapstation::engine::host_resolution::{
    fetched, resolution_failed, resolution_step, start_resolution, transfer_result, DownloadManager, SmartPlan,
    StepAction,
};

fn t(s: &str) -> String {
    s.to_string()
}

#[test]
fn jsonpath_extraction() {
    let doc = r#"{"data":{"link":"https://cdn/x.zip","size":12,"list":[]}}"#;
    assert_eq!(DownloadManager::extract_with_jsonpath(doc, &Some(t("$.data.link"))), Ok(t("https://cdn/x.zip")));
    assert_eq!(DownloadManager::extract_with_jsonpath(doc, &Some(t("$.data.size"))), Ok(t("12")));
    assert_eq!(DownloadManager::extract_with_jsonpath(doc, &Some(t("$.data.missing"))), Err(t("No match for JSONPath: $.data.missing")));
    assert!(DownloadManager::extract_with_jsonpath("{", &Some(t("$.a"))).unwrap_err().starts_with("Invalid JSON: "));
    assert!(DownloadManager::extract_with_jsonpath(doc, &Some(t("$$["))).unwrap_err().starts_with("Invalid JSONPath '$$[': "));
    assert_eq!(DownloadManager::extract_with_jsonpath(doc, &None), Err(t("JSONPath extraction requires 'pattern'")));
}

#[test]
fn regex_and_selector_extraction() {
    let page = r#"<a id="dl" href="https://cdn/f.rar">Download now</a> token=abc123;"#;
    assert_eq!(DownloadManager::extract_with_regex(page, &Some(t("token=(\\w+)")), &None), Ok(t("abc123")));
    assert_eq!(DownloadManager::extract_with_regex(page, &Some(t("token=(\\w+)")), &Some(2)), Err(t("Regex group 2 not found")));
    assert_eq!(DownloadManager::extract_with_regex(page, &Some(t("zzz")), &None), Err(t("No match for pattern: zzz")));
    assert_eq!(DownloadManager::extract_with_selector(page, &Some(t("#dl")), &Some(t("href"))), Ok(t("https://cdn/f.rar")));
    assert_eq!(DownloadManager::extract_with_selector(page, &Some(t("#dl")), &Some(t("title"))), Err(t("Attribute 'title' not found")));
    assert_eq!(DownloadManager::extract_with_selector(page, &Some(t("#none")), &None), Err(t("Selector '#none' not found")));
    let empty_text = DownloadManager::extract_value("", "https://h/file/XYZ", &ExtractionMethodType::Regex, &Some(t("file/(\\w+)")), &None, &None, &None, &None);
    assert_eq!(empty_text, Ok(t("XYZ")));
    let fb = DownloadManager::extract_value("", "u", &ExtractionMethodType::Text, &None, &None, &None, &None, &Some(t("fallback")));
    assert_eq!(fb, Ok(t("fallback")));
    let none = DownloadManager::extract_value("", "u", &ExtractionMethodType::Text, &None, &None, &None, &None, &None);
    assert_eq!(none, Err(t("Extraction returned empty result")));
    let xp = DownloadManager::extract_value("x", "u", &ExtractionMethodType::XPath, &None, &None, &None, &None, &None);
    assert_eq!(xp, Err(t("XPath extraction not supported")));
}

#[test]
fn resolver_transformations() {
    let mut vars = Dict::new();
    vars.insert(t("id"), t("42"));
    let ts = vec![
        Transformation::Template { template: t("https://api/{id}") },
        Transformation::Append { text: t("/dl") },
        Transformation::StripPrefix { prefix: t("https://") },
        Transformation::Uppercase,
        Transformation::Capitalize,
    ];
    assert_eq!(DownloadManager::apply_transformations("ignored", &ts, &vars), Ok(t("API/42/DL")));
    let bad = vec![Transformation::Replace { pattern: t("("), replacement: t(""), regex: true }];
    assert!(DownloadManager::apply_transformations("x", &bad, &vars).unwrap_err().starts_with("Invalid regex: "));
}

#[test]
fn error_signs_on_pages() {
    let signs = vec![
        ErrorCondition { pattern: None, selector: Some(t(".err")), contains: Some(t("premium")), error_type: t("Premium"), message: t("Premium only") },
        ErrorCondition { pattern: Some(t("(?i)file not found")), selector: None, contains: None, error_type: t("404"), message: t("Gone") },
    ];
    let e = DownloadManager::error_on_page("<div class='err'>File Not Found</div>", &signs).unwrap();
    assert_eq!(e.error_type, DownloadErrorType::FileNotFound);
    assert_eq!(e.message, "Gone");
    let p = DownloadManager::error_on_page("<p class='err'>premium users only</p>", &signs).unwrap();
    assert_eq!(p.error_type, DownloadErrorType::PremiumOnly);
    assert!(DownloadManager::error_on_page("<p>all good</p>", &signs).is_none());
}

fn host(browser_only: bool, resolver: Option<HostResolver>) -> HostConfig {
    HostConfig {
        patterns: vec![t("files.test")],
        display: HostDisplay { label: t("Files"), icon: None, color: None },
        browser_only,
        browser_only_reason: None,
        download_method: DownloadMethod::Direct,
        webview_config: None,
        resolver,
        error_conditions: Vec::new(),
    }
}

#[test]
fn smart_download_plans() {
    let mut hosts = Dict::new();
    hosts.insert(t("files"), host(true, None));
    let cfg = HostsConfig { hosts };
    match DownloadManager::plan_smart_download("https://files.test/a", Some(&cfg)) {
        SmartPlan::BrowserOnly(r) => {
            assert!(!r.success);
            assert_eq!(r.fallback_url, Some(t("https://files.test/a")));
            let e = r.error.unwrap();
            assert_eq!(e.error_type, DownloadErrorType::BrowserRequired);
            assert_eq!(e.message, "This host requires a browser");
        },
        _ => panic!("browser-only host"),
    }
    assert!(matches!(DownloadManager::plan_smart_download("https://other.test/a", Some(&cfg)), SmartPlan::Direct));
    let resolving = host(false, Some(HostResolver { steps: Vec::new(), headers: None, requires_auth: false }));
    assert!(matches!(DownloadManager::plan_for_host("u", Some(&resolving)), SmartPlan::Resolve { .. }));
    assert!(DownloadManager::resolver_for_probe(Some(&resolving)).is_some());
    assert!(DownloadManager::resolver_for_probe(Some(&host(true, None))).is_none());
}

#[test]
fn resolver_steps_run_in_turn() {
    let mut ctx = start_resolution("https://files.test/d/abc");
    assert_eq!(ctx.variables.get("url"), Some(&t("https://files.test/d/abc")));
    let fetch = ResolutionStep::Fetch { follow_redirects: true, headers: None, timeout_ms: None };
    let mut defaults = Dict::new();
    defaults.insert(t("Referer"), t("https://files.test"));
    match resolution_step(&fetch, &mut ctx, &Some(defaults)).unwrap() {
        StepAction::Fetch { url, headers } => {
            assert_eq!(url, "https://files.test/d/abc");
            assert_eq!(headers.unwrap().get("Referer"), Some(&t("https://files.test")));
        },
        _ => panic!("fetch step"),
    }
    fetched(&mut ctx, t("https://files.test/d/abc"), t(r#"<a class="go" href="https://cdn/abc.zip">go</a>"#));
    let extract = ResolutionStep::Extract {
        method: ExtractionMethodType::Selector,
        pattern: None,
        group: None,
        selector: Some(t("a.go")),
        attribute: Some(t("href")),
        fallback: None,
    };
    assert!(matches!(resolution_step(&extract, &mut ctx, &None), Ok(StepAction::Done)));
    assert_eq!(ctx.current_url, "https://cdn/abc.zip");
    assert_eq!(ctx.variables.get("value"), Some(&t("https://cdn/abc.zip")));
    let transform = ResolutionStep::Transform { transformations: vec![Transformation::Append { text: t("?dl=1") }] };
    assert!(matches!(resolution_step(&transform, &mut ctx, &None), Ok(StepAction::Done)));
    assert_eq!(ctx.current_url, "https://cdn/abc.zip?dl=1");
    assert!(matches!(resolution_step(&ResolutionStep::Wait { duration_ms: 5 }, &mut ctx, &None), Ok(StepAction::Wait { duration_ms: 5 })));
    let failing = ResolutionStep::Extract {
        method: ExtractionMethodType::Regex, pattern: Some(t("nomatch(\\d)")), group: None, selector: None, attribute: None, fallback: None,
    };
    assert_eq!(resolution_step(&failing, &mut ctx, &None).unwrap_err(), "No match for pattern: nomatch(\\d)");
    assert_eq!(ctx.current_url, "https://cdn/abc.zip?dl=1");
}

#[test]
fn smart_download_results() {
    let ok = transfer_result(t("https://cdn/x"), Ok((t("/d/x.zip"), 3)));
    assert!(ok.success && ok.fallback_url.is_none());
    let bad = transfer_result(t("https://cdn/x"), Err(t("HTTP 500")));
    assert_eq!(bad.fallback_url, Some(t("https://cdn/x")));
    assert_eq!(bad.error.unwrap().error_type, DownloadErrorType::NetworkError);
    let rf = resolution_failed(t("u"), t("boom"));
    assert_eq!(rf.error.unwrap().message, "boom");
}
