//! Per-source authentication: cookies, domains and the scripts injected into
//! login windows.
pub mod cookie_utils;
pub mod domain_utils;
pub mod scripts;
pub mod webview_auth;
