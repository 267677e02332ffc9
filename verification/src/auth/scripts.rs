//! JavaScript injected into authentication windows.
use vstd::prelude::*;
use crate::text::concat;

verus! {

/// A fixed part of the generated script.
pub const LOGIN_SCRIPT_HEAD: &'static str = "\n        (function() {\n            if (window.__AUTH_MONITOR_ACTIVE) return;\n            window.__AUTH_MONITOR_ACTIVE = true;\n\n            const SOURCE_ID = '";

/// A fixed part of the generated script.
pub const LOGIN_SCRIPT_AFTER_SOURCE: &'static str = "';\n            const SESSION_COOKIE = '";

/// A fixed part of the generated script.
pub const LOGIN_SCRIPT_AFTER_COOKIE: &'static str = "';\n            const BASE_HOST = '";

/// A fixed part of the generated script.
pub const LOGIN_SCRIPT_TAIL: &'static str = "';\n\n            function tryNotifySuccess() {\n                if (window.__TAURI__ && window.__TAURI__.event) {\n                    window.__TAURI__.event.emit('webview-login-success', {\n                        source_id: SOURCE_ID,\n                        cookies: document.cookie\n                    }).catch(() => {});\n                }\n            }\n\n            function checkAuth() {\n                const currentHost = window.location.hostname.toLowerCase();\n                const baseHostLower = BASE_HOST.toLowerCase();\n                const isOnBaseHost = currentHost === baseHostLower ||\n                                     currentHost === 'www.' + baseHostLower ||\n                                     currentHost.endsWith('.' + baseHostLower);\n\n                const hasAuth = SESSION_COOKIE\n                    ? document.cookie.includes(SESSION_COOKIE + '=')\n                    : document.cookie.length > 0;\n\n                if (isOnBaseHost && hasAuth) {\n                    tryNotifySuccess();\n                    return true;\n                }\n                return false;\n            }\n\n            if (document.readyState === 'complete') {\n                checkAuth();\n            } else {\n                window.addEventListener('load', checkAuth);\n            }\n\n            let checks = 0;\n            const interval = setInterval(() => {\n                checks++;\n                if (checkAuth() || checks > 30) {\n                    clearInterval(interval);\n                }\n            }, 1000);\n        })();\n    ";

/// A fixed part of the generated script.
pub const FETCH_SCRIPT_HEAD: &'static str = "\n        (async function() {\n            const REQUEST_ID = '";

/// A fixed part of the generated script.
pub const FETCH_SCRIPT_AFTER_REQUEST: &'static str = "';\n            try {\n                const response = await fetch('";

/// A fixed part of the generated script.
pub const FETCH_SCRIPT_TAIL: &'static str = "', {\n                    method: 'GET',\n                    credentials: 'include',\n                    headers: {\n                        'Accept': 'text/html,application/xhtml+xml,application/xml;q=0.9,*/*;q=0.8',\n                        'Accept-Language': navigator.language || 'en-US,en;q=0.9'\n                    }\n                });\n\n                const body = await response.text();\n\n                if (window.__TAURI__ && window.__TAURI__.event) {\n                    window.__TAURI__.event.emit('webview-fetch-result', {\n                        request_id: REQUEST_ID,\n                        success: response.ok,\n                        status: response.status,\n                        body: body\n                    });\n                }\n            } catch (error) {\n                if (window.__TAURI__ && window.__TAURI__.event) {\n                    window.__TAURI__.event.emit('webview-fetch-result', {\n                        request_id: REQUEST_ID,\n                        success: false,\n                        status: 0,\n                        body: '',\n                        error: error.message\n                    });\n                }\n            }\n        })();\n    ";

/// Script that watches a login window and reports the session once the page
/// is on the source's host and the session cookie is present.
pub fn get_login_detection_script(source_id: &str, session_cookie: &str, base_host: &str) -> (r: String)
    ensures
        r@ == LOGIN_SCRIPT_HEAD@ + source_id@ + LOGIN_SCRIPT_AFTER_SOURCE@ + session_cookie@
            + LOGIN_SCRIPT_AFTER_COOKIE@ + base_host@ + LOGIN_SCRIPT_TAIL@,
{
    let a = concat(LOGIN_SCRIPT_HEAD, source_id);
    let b = concat(a.as_str(), LOGIN_SCRIPT_AFTER_SOURCE);
    let c = concat(b.as_str(), session_cookie);
    let d = concat(c.as_str(), LOGIN_SCRIPT_AFTER_COOKIE);
    let e = concat(d.as_str(), base_host);
    concat(e.as_str(), LOGIN_SCRIPT_TAIL)
}

/// Script that fetches `url` with the window's credentials and reports the
/// response under `request_id`.
pub fn get_fetch_script(request_id: &str, url: &str) -> (r: String)
    ensures
        r@ == FETCH_SCRIPT_HEAD@ + request_id@ + FETCH_SCRIPT_AFTER_REQUEST@ + url@ + FETCH_SCRIPT_TAIL@,
{
    let a = concat(FETCH_SCRIPT_HEAD, request_id);
    let b = concat(a.as_str(), FETCH_SCRIPT_AFTER_REQUEST);
    let c = concat(b.as_str(), url);
    concat(c.as_str(), FETCH_SCRIPT_TAIL)
}

} // verus!
