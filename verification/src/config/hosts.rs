//! File-hoster configuration and the results of host detection.
use vstd::prelude::*;
use crate::dict::Dict;
use crate::config::link_resolution::ResolutionStep;
use crate::text::str_eq;
use crate::unicode::{lowercase, to_lower};

verus! {

/// The hosts section of a source: host id to host configuration.
#[derive(Debug, Clone)]
pub struct HostsConfig {
    pub hosts: Dict<HostConfig>,
}

impl Default for HostsConfig {
    /// No hosts.
    fn default() -> (r: Self)
        ensures
            r.hosts.view().len() == 0,
    {
        HostsConfig { hosts: Dict::new() }
    }
}

/// Configuration of one file-hosting service.
#[derive(Debug, Clone)]
pub struct HostConfig {
    /// Domain names (matched with their subdomains) or regular expressions.
    pub patterns: Vec<String>,
    pub display: HostDisplay,
    pub browser_only: bool,
    pub browser_only_reason: Option<String>,
    pub download_method: DownloadMethod,
    pub webview_config: Option<WebViewDownloadConfig>,
    pub resolver: Option<HostResolver>,
    pub error_conditions: Vec<ErrorCondition>,
}

/// How a host's files are downloaded.
#[derive(Debug, Clone, Copy, PartialEq, Eq, Structural)]
pub enum DownloadMethod {
    Direct,
    Webview,
    Api,
}

impl Default for DownloadMethod {
    /// `Direct`.
    fn default() -> (r: Self)
        ensures
            r == DownloadMethod::Direct,
    {
        DownloadMethod::Direct
    }
}

/// WebView settings for hosts that need JavaScript.
#[derive(Debug, Clone)]
pub struct WebViewDownloadConfig {
    pub wait_for: Option<String>,
    pub wait_timeout_ms: u64,
    pub click: Option<String>,
    pub intercept_download: bool,
    pub pre_script: Option<String>,
    pub extract_url_script: Option<String>,
    pub download_url_pattern: Option<String>,
}

/// The wait for a WebView element when none is configured: 30 seconds.
pub fn default_wait_timeout() -> (r: u64)
    ensures
        r == 30000,
{
    30000
}

/// How a host is shown.
#[derive(Debug, Clone)]
pub struct HostDisplay {
    pub label: String,
    pub icon: Option<String>,
    pub color: Option<String>,
}

/// Steps that turn a host page into a direct download URL.
#[derive(Debug, Clone)]
pub struct HostResolver {
    pub steps: Vec<ResolutionStep>,
    pub headers: Option<Dict<String>>,
    pub requires_auth: bool,
}

/// A sign that a download failed.
#[derive(Debug, Clone)]
pub struct ErrorCondition {
    pub pattern: Option<String>,
    pub selector: Option<String>,
    pub contains: Option<String>,
    pub error_type: String,
    pub message: String,
}

/// The result of host detection.
#[derive(Debug, Clone)]
pub struct DetectedHost {
    pub host_id: String,
    pub label: String,
    pub icon: Option<String>,
    pub color: Option<String>,
    pub supports_direct_download: bool,
    pub browser_only_reason: Option<String>,
}

/// The result of a smart download attempt.
#[derive(Debug, Clone)]
pub struct SmartDownloadResult {
    pub success: bool,
    pub file_path: Option<String>,
    pub file_size: Option<u64>,
    pub error: Option<DownloadError>,
    pub fallback_url: Option<String>,
}

/// Why a download failed.
#[derive(Debug, Clone)]
pub struct DownloadError {
    pub error_type: DownloadErrorType,
    pub message: String,
    pub recoverable: bool,
}

/// Kinds of download failure.
#[derive(Debug, Clone, Copy, PartialEq, Eq, Structural)]
pub enum DownloadErrorType {
    CaptchaRequired,
    PremiumOnly,
    GeoBlocked,
    RateLimited,
    NetworkError,
    ResolutionFailed,
    UnsupportedHost,
    FileNotFound,
    BrowserRequired,
    Unknown,
}

/// The error kind named by a (lower-case) configuration word.
pub open spec fn error_type_named(s: Seq<char>) -> DownloadErrorType {
    if s == "captcha_required"@ || s == "captcha"@ {
        DownloadErrorType::CaptchaRequired
    } else if s == "premium_only"@ || s == "premium"@ {
        DownloadErrorType::PremiumOnly
    } else if s == "geo_blocked"@ || s == "geo"@ {
        DownloadErrorType::GeoBlocked
    } else if s == "rate_limited"@ || s == "rate_limit"@ {
        DownloadErrorType::RateLimited
    } else if s == "network_error"@ || s == "network"@ {
        DownloadErrorType::NetworkError
    } else if s == "resolution_failed"@ || s == "resolution"@ {
        DownloadErrorType::ResolutionFailed
    } else if s == "unsupported_host"@ || s == "unsupported"@ {
        DownloadErrorType::UnsupportedHost
    } else if s == "file_not_found"@ || s == "not_found"@ || s == "404"@ {
        DownloadErrorType::FileNotFound
    } else if s == "browser_required"@ || s == "browser"@ {
        DownloadErrorType::BrowserRequired
    } else {
        DownloadErrorType::Unknown
    }
}

impl From<&str> for DownloadErrorType {
    /// The error kind named by `s`, compared without regard to case.
    fn from(s: &str) -> (r: Self) {
        let l = to_lower(s);
        let w = l.as_str();
        if str_eq(w, "captcha_required") || str_eq(w, "captcha") {
            DownloadErrorType::CaptchaRequired
        } else if str_eq(w, "premium_only") || str_eq(w, "premium") {
            DownloadErrorType::PremiumOnly
        } else if str_eq(w, "geo_blocked") || str_eq(w, "geo") {
            DownloadErrorType::GeoBlocked
        } else if str_eq(w, "rate_limited") || str_eq(w, "rate_limit") {
            DownloadErrorType::RateLimited
        } else if str_eq(w, "network_error") || str_eq(w, "network") {
            DownloadErrorType::NetworkError
        } else if str_eq(w, "resolution_failed") || str_eq(w, "resolution") {
            DownloadErrorType::ResolutionFailed
        } else if str_eq(w, "unsupported_host") || str_eq(w, "unsupported") {
            DownloadErrorType::UnsupportedHost
        } else if str_eq(w, "file_not_found") || str_eq(w, "not_found") || str_eq(w, "404") {
            DownloadErrorType::FileNotFound
        } else if str_eq(w, "browser_required") || str_eq(w, "browser") {
            DownloadErrorType::BrowserRequired
        } else {
            DownloadErrorType::Unknown
        }
    }
}

impl vstd::std_specs::convert::FromSpecImpl<&str> for DownloadErrorType {
    open spec fn obeys_from_spec() -> bool {
        true
    }

    open spec fn from_spec(s: &str) -> Self {
        error_type_named(lowercase(s@))
    }
}

} // verus!
