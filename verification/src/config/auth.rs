//! Authentication section of a source.
use vstd::prelude::*;

verus! {

/// How users log in to a source.
#[derive(Debug, Clone)]
pub struct AuthConfig {
    pub sso: Vec<SsoProvider>,
    pub login: Option<AuthEndpoint>,
    pub register: Option<AuthEndpoint>,
    pub logout: Option<LogoutConfig>,
    pub session_cookie: Option<String>,
    pub close_on_domains: Vec<String>,
}

/// A single-sign-on provider.
#[derive(Debug, Clone)]
pub struct SsoProvider {
    pub id: String,
    pub label: String,
    pub icon: Option<String>,
    pub color: Option<String>,
    pub auth_url: String,
    pub success_cookie: Option<String>,
}

/// A login or registration endpoint.
#[derive(Debug, Clone)]
pub struct AuthEndpoint {
    pub endpoint: String,
    pub method: String,
    pub content_type: Option<String>,
    pub ajax: bool,
    pub fields: Vec<AuthField>,
    pub body: Option<String>,
    pub success_cookies: Vec<String>,
    pub success_json: Option<JsonSuccessCheck>,
}

/// The method of an endpoint when none is configured: `POST`.
pub fn default_post() -> (r: String)
    ensures
        r@ == "POST"@,
{
    String::from_str("POST")
}

/// A form field of an endpoint.
#[derive(Debug, Clone)]
pub struct AuthField {
    pub id: String,
    pub label: String,
    pub field_type: String,
    pub required: bool,
    pub placeholder: Option<String>,
}

/// The type of a form field when none is configured: `text`.
pub fn default_text() -> (r: String)
    ensures
        r@ == "text"@,
{
    String::from_str("text")
}

/// A JSON field whose value shows a successful login.
#[derive(Debug, Clone)]
pub struct JsonSuccessCheck {
    pub field: String,
    pub value: String,
}

/// How to log out.
#[derive(Debug, Clone)]
pub struct LogoutConfig {
    pub endpoint: Option<String>,
    pub clear_cookies: bool,
}

} // verus!
