//! The scripts injected into a download WebView: templates with the
//! configuration's values filled in.
use vstd::prelude::*;
use crate::text::{replace_all, str_replace, concat, to_decimal, dec_of};

verus! {

/// Part 0 of the extract script template.
pub const EXTRACT_SCRIPT_0: &'static str = r##"
                (async function() {
                    try {
                        const url = await (async function() { "##;

/// Part 1 of the extract script template.
pub const EXTRACT_SCRIPT_1: &'static str = r##" })();
                        if (url) {
                            window.__TAURI__.event.emit('"##;

/// Part 2 of the extract script template.
pub const EXTRACT_SCRIPT_2: &'static str = r##"', { url: url });
                        }
                    } catch(e) {
                        console.error('Extraction failed:', e);
                    }
                })();
                "##;

/// Part 0 of the click script template.
pub const CLICK_SCRIPT_0: &'static str = r##"
                (function() {
                    const el = document.querySelector('"##;

/// Part 1 of the click script template.
pub const CLICK_SCRIPT_1: &'static str = r##"');
                    if (el) {
                        // If it has an href, capture it before clicking
                        if (el.href && !el.href.startsWith('javascript:')) {
                            window.__TAURI__.event.emit('"##;

/// Part 2 of the click script template.
pub const CLICK_SCRIPT_2: &'static str = r##"', { url: el.href });
                        }
                        el.click();
                    } else {
                        console.error('Element not found:', '"##;

/// Part 3 of the click script template.
pub const CLICK_SCRIPT_3: &'static str = r##"');
                    }
                })();
                "##;

/// Part 0 of the retry click script template.
pub const RETRY_CLICK_SCRIPT_0: &'static str = r##"
                        (function() {
                            // Try multiple download button selectors
                            const selectors = ['"##;

/// Part 1 of the retry click script template.
pub const RETRY_CLICK_SCRIPT_1: &'static str = r##"', 'a[href*="download"]', 'button[class*="download"]', '#downloadButton', '.download-btn', 'a.btn-download'];
                            for (const sel of selectors) {
                                const el = document.querySelector(sel);
                                if (el && el.offsetParent !== null) { // Check if visible
                                    console.log('[CrackStation] Clicking:', sel);
                                    if (el.href && !el.href.startsWith('javascript:')) {
                                        window.__TAURI__.event.emit('"##;

/// Part 2 of the retry click script template.
pub const RETRY_CLICK_SCRIPT_2: &'static str = r##"', { url: el.href });
                                    }
                                    el.click();
                                    break;
                                }
                            }
                        })();
                        "##;

/// Part 0 of the capture script template.
pub const CAPTURE_SCRIPT_0: &'static str = r##"
            (function() {
                console.log('[CrackStation] Download capture script injected');

                // Pattern to match download URLs
                const urlPattern = '"##;

/// Part 1 of the capture script template.
pub const CAPTURE_SCRIPT_1: &'static str = r##"';
                const patternRegex = urlPattern ? new RegExp(urlPattern) : null;

                // Function to check if URL is a download URL
                function isDownloadUrl(url) {
                    if (!url) return false;
                    if (patternRegex && patternRegex.test(url)) return true;
                    // Common download patterns
                    if (url.includes('/download') || url.includes('dl=') || url.includes('.torrent')) return true;
                    if (url.match(/\.(zip|rar|7z|exe|iso|torrent|bin)(\?|$)/i)) return true;
                    return false;
                }

                const emitUrl = function(url) {
                    const full = url.startsWith('/') ? window.location.origin + url : url;
                    console.log('[CrackStation] Emitting download URL:', full);
                    window.__TAURI__.event.emit('"##;

/// Part 2 of the capture script template.
pub const CAPTURE_SCRIPT_2: &'static str = r##"', { url: full });
                };

                // Override XMLHttpRequest — intercept both the request URL and the
                // response (HX-Redirect header, responseURL after HTTP redirects,
                // or a URL found in the response body).
                const originalXHROpen = XMLHttpRequest.prototype.open;
                XMLHttpRequest.prototype.open = function(method, url) {
                    const urlStr = typeof url === 'string' ? url : (url || '').toString();
                    if (isDownloadUrl(urlStr)) {
                        console.log('[CrackStation] XHR download request intercepted:', urlStr);
                        this.addEventListener('load', function() {
                            // Priority 1: HTMX redirect header
                            try {
                                const hxRedirect = this.getResponseHeader('HX-Redirect');
                                if (hxRedirect) { emitUrl(hxRedirect); return; }
                            } catch(e) {}
                            // Priority 2: HTTP redirect — responseURL differs from request URL
                            const absReq = urlStr.startsWith('/') ? window.location.origin + urlStr : urlStr;
                            if (this.responseURL && this.responseURL !== absReq) {
                                emitUrl(this.responseURL); return;
                            }
                            // Priority 3: URL embedded in response body
                            try {
                                const m = this.responseText && this.responseText.match(/(https?:\/\/[^\s"'<>]{20,})/);
                                if (m) { emitUrl(m[1]); return; }
                            } catch(e) {}
                            // Fallback: emit the request URL itself so the download manager
                            // can try a direct fetch (may work for simple hosters)
                            emitUrl(urlStr);
                        });
                    }
                    return originalXHROpen.apply(this, arguments);
                };

                // Override fetch to catch fetch-based download URLs
                const originalFetch = window.fetch;
                window.fetch = function(url, options) {
                    const urlStr = typeof url === 'string' ? url : (url && url.url) || '';
                    if (isDownloadUrl(urlStr)) {
                        console.log('[CrackStation] Fetch download URL detected:', urlStr);
                        return originalFetch.apply(this, arguments).then(function(resp) {
                            const hxRedirect = resp.headers.get('HX-Redirect');
                            if (hxRedirect) { emitUrl(hxRedirect); }
                            else if (resp.redirected) { emitUrl(resp.url); }
                            else { emitUrl(urlStr); }
                            return resp;
                        });
                    }
                    return originalFetch.apply(this, arguments);
                };

                // Monitor for clicks on download links
                document.addEventListener('click', function(e) {
                    const link = e.target.closest('a');
                    if (link && link.href && isDownloadUrl(link.href)) {
                        console.log('[CrackStation] Click download URL detected:', link.href);
                        window.__TAURI__.event.emit('"##;

/// Part 3 of the capture script template.
pub const CAPTURE_SCRIPT_3: &'static str = r##"', { url: link.href });
                    }
                }, true);

                // Monitor for dynamic content
                const observer = new MutationObserver(function(mutations) {
                    mutations.forEach(function(mutation) {
                        mutation.addedNodes.forEach(function(node) {
                            if (node.querySelectorAll) {
                                const links = node.querySelectorAll('a[href]');
                                links.forEach(function(link) {
                                    if (isDownloadUrl(link.href)) {
                                        console.log('[CrackStation] Dynamic download link found:', link.href);
                                        window.__TAURI__.event.emit('"##;

/// Part 4 of the capture script template.
pub const CAPTURE_SCRIPT_4: &'static str = r##"', { url: link.href });
                                    }
                                });
                            }
                        });
                    });
                });

                observer.observe(document.body, { childList: true, subtree: true });

                console.log('[CrackStation] Download monitoring active');
            })();
            "##;

/// Part 0 of the wait script template.
pub const WAIT_SCRIPT_0: &'static str = r##"
            (function() {
                return new Promise((resolve) => {
                    const timeout = setTimeout(() => resolve(false), "##;

/// Part 1 of the wait script template.
pub const WAIT_SCRIPT_1: &'static str = r##");
                    const check = () => {
                        if (document.querySelector('"##;

/// Part 2 of the wait script template.
pub const WAIT_SCRIPT_2: &'static str = r##"')) {
                            clearTimeout(timeout);
                            resolve(true);
                        } else {
                            requestAnimationFrame(check);
                        }
                    };
                    check();
                });
            })();
            "##;

/// A value put between single quotes in a script: each `'` escaped.
pub open spec fn quote_escaped(s: Seq<char>) -> Seq<char> {
    replace_all(s, "'"@, "\\'"@)
}

/// `s` with each `'` escaped.
pub fn escape_quotes(s: &str) -> (r: String)
    ensures
        r@ == quote_escaped(s@),
{
    str_replace(s, "'", "\\'")
}

/// The script that runs a configured extraction and reports the URL it yields.
pub open spec fn extract_script_text(script: Seq<char>, event: Seq<char>) -> Seq<char> {
    EXTRACT_SCRIPT_0@ + script + EXTRACT_SCRIPT_1@ + event + EXTRACT_SCRIPT_2@
}

/// The script that runs a configured extraction and reports the URL it yields.
pub fn build_extract_script(script: &str, event: &str) -> (r: String)
    ensures
        r@ == extract_script_text(script@, event@),
{
    let a = concat(EXTRACT_SCRIPT_0, script);
    let b = concat(a.as_str(), EXTRACT_SCRIPT_1);
    let c = concat(b.as_str(), event);
    concat(c.as_str(), EXTRACT_SCRIPT_2)
}

/// The script that clicks the configured element, reporting its link first.
pub open spec fn click_script_text(selector: Seq<char>, event: Seq<char>) -> Seq<char> {
    let sel = quote_escaped(selector);
    CLICK_SCRIPT_0@ + sel + CLICK_SCRIPT_1@ + event + CLICK_SCRIPT_2@ + sel + CLICK_SCRIPT_3@
}

/// The script that clicks the configured element, reporting its link first.
pub fn build_click_script(selector: &str, event: &str) -> (r: String)
    ensures
        r@ == click_script_text(selector@, event@),
{
    let sel = escape_quotes(selector);
    let a = concat(CLICK_SCRIPT_0, sel.as_str());
    let b = concat(a.as_str(), CLICK_SCRIPT_1);
    let c = concat(b.as_str(), event);
    let d = concat(c.as_str(), CLICK_SCRIPT_2);
    let e = concat(d.as_str(), sel.as_str());
    concat(e.as_str(), CLICK_SCRIPT_3)
}

/// The script that tries the configured element and common download buttons
/// again, clicking the first visible one.
pub open spec fn retry_click_script_text(selector: Seq<char>, event: Seq<char>) -> Seq<char> {
    RETRY_CLICK_SCRIPT_0@ + quote_escaped(selector) + RETRY_CLICK_SCRIPT_1@ + event + RETRY_CLICK_SCRIPT_2@
}

/// The script that tries the configured element and common download buttons
/// again, clicking the first visible one.
pub fn build_retry_click_script(selector: &str, event: &str) -> (r: String)
    ensures
        r@ == retry_click_script_text(selector@, event@),
{
    let sel = escape_quotes(selector);
    let a = concat(RETRY_CLICK_SCRIPT_0, sel.as_str());
    let b = concat(a.as_str(), RETRY_CLICK_SCRIPT_1);
    let c = concat(b.as_str(), event);
    concat(c.as_str(), RETRY_CLICK_SCRIPT_2)
}

/// The script that watches requests, clicks and new links for download URLs
/// and reports them; `pattern` is the configured URL pattern (empty when none).
pub open spec fn capture_script_text(pattern: Seq<char>, event: Seq<char>) -> Seq<char> {
    CAPTURE_SCRIPT_0@ + pattern + CAPTURE_SCRIPT_1@ + event + CAPTURE_SCRIPT_2@ + event
        + CAPTURE_SCRIPT_3@ + event + CAPTURE_SCRIPT_4@
}

/// The script that watches requests, clicks and new links for download URLs
/// and reports them under `event`.
pub fn build_capture_script(event: &str, url_pattern: &Option<String>) -> (r: String)
    ensures
        r@ == capture_script_text(match url_pattern { Some(p) => p@, None => Seq::empty() }, event@),
{
    let pattern: &str = match url_pattern {
        Some(p) => p.as_str(),
        None => "",
    };
    proof { reveal_strlit(""); }
    let a = concat(CAPTURE_SCRIPT_0, pattern);
    let b = concat(a.as_str(), CAPTURE_SCRIPT_1);
    let c = concat(b.as_str(), event);
    let d = concat(c.as_str(), CAPTURE_SCRIPT_2);
    let e = concat(d.as_str(), event);
    let f = concat(e.as_str(), CAPTURE_SCRIPT_3);
    let g = concat(f.as_str(), event);
    concat(g.as_str(), CAPTURE_SCRIPT_4)
}

/// The script that waits up to `timeout_ms` for an element to appear.
pub open spec fn wait_script_text(timeout_ms: u64, selector: Seq<char>) -> Seq<char> {
    WAIT_SCRIPT_0@ + dec_of(timeout_ms as nat) + WAIT_SCRIPT_1@ + quote_escaped(selector) + WAIT_SCRIPT_2@
}

/// The script that waits up to `timeout_ms` for an element to appear.
pub fn build_wait_script(timeout_ms: u64, selector: &str) -> (r: String)
    ensures
        r@ == wait_script_text(timeout_ms, selector@),
{
    let n = to_decimal(timeout_ms as u128);
    let sel = escape_quotes(selector);
    let a = concat(WAIT_SCRIPT_0, n.as_str());
    let b = concat(a.as_str(), WAIT_SCRIPT_1);
    let c = concat(b.as_str(), sel.as_str());
    concat(c.as_str(), WAIT_SCRIPT_2)
}

} // verus!
