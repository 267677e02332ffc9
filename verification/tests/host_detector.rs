use scrapstation::engine::host_detector::{
    capitalize_label, create_auto_detected_host, detect_host, detect_host_with_config, domain_to_label,
    matches_host,
};
use scrapstation::config::hosts::{DownloadErrorType, DownloadMethod, HostConfig, HostDisplay, HostsConfig};
use scrapstation::dict::Dict;

#[test]
fn test_domain_to_label() {
    assert_eq!(domain_to_label("gofile.io"), "GoFile");
    assert_eq!(domain_to_label("mega.nz"), "MEGA");
    assert_eq!(domain_to_label("www.mediafire.com"), "MediaFire");
    assert_eq!(domain_to_label("pixeldrain.com"), "PixelDrain");
    assert_eq!(domain_to_label("example.com"), "Example");
}

#[test]
fn test_matches_host() {
    assert!(matches_host("gofile.io", &["gofile.io".to_string()]));
    assert!(matches_host("www.gofile.io", &["gofile.io".to_string()]));
    assert!(!matches_host("notgofile.io", &["gofile.io".to_string()]));
}

fn host(patterns: &[&str], label: &str, browser_only: bool) -> HostConfig {
    HostConfig {
        patterns: patterns.iter().map(|p| p.to_string()).collect(),
        display: HostDisplay { label: label.to_string(), icon: Some("cloud".to_string()), color: None },
        browser_only,
        browser_only_reason: None,
        download_method: DownloadMethod::Direct,
        webview_config: None,
        resolver: None,
        error_conditions: Vec::new(),
    }
}

#[test]
fn domain_label_strips_prefixes_and_capitalizes() {
    assert_eq!(domain_to_label("dl.example.org"), "Example");
    assert_eq!(domain_to_label("download.files.net"), "Files");
    assert_eq!(domain_to_label("localhost"), "Localhost");
    assert_eq!(capitalize_label(""), "");
    assert_eq!(capitalize_label("ßtraße"), "SStraße");
}

#[test]
fn regex_patterns_are_used_when_special_chars_appear() {
    assert!(matches_host("cdn7.example.com", &["^cdn[0-9]+\\.example\\.com$".to_string()]));
    assert!(!matches_host("cdn.example.com", &["^cdn[0-9]+\\.example\\.com$".to_string()]));
    assert!(!matches_host("anything", &["(".to_string()]));
}

#[test]
fn detect_host_prefers_first_configured_match() {
    let mut hosts = Dict::new();
    hosts.insert("gofile".to_string(), host(&["gofile.io"], "GoFile", false));
    hosts.insert("other".to_string(), host(&["io"], "Other", true));
    let cfg = HostsConfig { hosts };
    let h = detect_host("https://WWW.GoFile.io/d/abc", Some(&cfg));
    assert_eq!(h.host_id, "gofile");
    assert_eq!(h.label, "GoFile");
    assert_eq!(h.icon.as_deref(), Some("cloud"));
    assert!(!h.supports_direct_download);
    let (d, c) = detect_host_with_config("https://gofile.io/x", Some(&cfg));
    assert_eq!(d.host_id, "gofile");
    assert!(c.is_some());
}

#[test]
fn detect_host_unknown_and_auto() {
    let h = detect_host("not a url", None);
    assert_eq!(h.host_id, "unknown");
    assert_eq!(h.label, "Download");
    let a = detect_host("https://files.example.com/a.zip", None);
    assert_eq!(a.host_id, "auto:files.example.com");
    assert_eq!(a.label, "Files");
    let auto = create_auto_detected_host("mega.nz");
    assert_eq!(auto.host_id, "auto:mega.nz");
    assert_eq!(auto.label, "MEGA");
    let (_, c) = detect_host_with_config("https://files.example.com/a.zip", None);
    assert!(c.is_none());
}

#[test]
fn error_type_words() {
    assert_eq!(DownloadErrorType::from("CAPTCHA"), DownloadErrorType::CaptchaRequired);
    assert_eq!(DownloadErrorType::from("404"), DownloadErrorType::FileNotFound);
    assert_eq!(DownloadErrorType::from("Rate_Limit"), DownloadErrorType::RateLimited);
    assert_eq!(DownloadErrorType::from("whatever"), DownloadErrorType::Unknown);
}
