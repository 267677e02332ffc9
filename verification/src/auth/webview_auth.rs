//! Results of WebView logins and fetches, and the record of which sources
//! have an authenticated WebView session.
use vstd::prelude::*;
use crate::dict::{Dict, lookup, inserted, index_of_key, lemma_take_put};

verus! {

/// Marker stored in settings while a source authenticates through a WebView.
pub const WEBVIEW_AUTH_MARKER: &'static str = "WEBVIEW_AUTH_ACTIVE";

/// The outcome of a login.
#[derive(Debug, Clone)]
pub struct AuthResult {
    pub success: bool,
    pub cookies: Option<String>,
    pub username: Option<String>,
    pub error: Option<String>,
    pub source_id: String,
}

/// The outcome of a fetch made from inside a WebView.
#[derive(Debug, Clone)]
pub struct FetchResult {
    pub success: bool,
    pub status: u16,
    pub body: String,
    pub error: Option<String>,
}

/// Which sources have an authenticated WebView session.
pub struct AuthWebviews {
    pub sessions: Dict<bool>,
}

/// Whether the record marks `source_id` as authenticated.
pub open spec fn is_marked(sessions: Seq<(Seq<char>, bool)>, source_id: Seq<char>) -> bool {
    lookup(sessions, source_id) == Some(true)
}

impl AuthWebviews {
    /// No source authenticated.
    pub fn new() -> (r: Self)
        ensures
            r.sessions.view().len() == 0,
    {
        AuthWebviews { sessions: Dict::new() }
    }
}

/// Whether `source_id` has an authenticated WebView session.
pub fn has_auth_webview(webviews: &AuthWebviews, source_id: &str) -> (b: bool)
    ensures
        b == is_marked(webviews.sessions.view(), source_id@),
{
    match webviews.sessions.get(source_id) {
        Some(v) => *v,
        None => false,
    }
}

/// Whether `source_id` is already authenticated (the same record as `has_auth_webview`).
pub fn is_already_authenticated(webviews: &AuthWebviews, source_id: &str) -> (b: bool)
    ensures
        b == is_marked(webviews.sessions.view(), source_id@),
{
    has_auth_webview(webviews, source_id)
}

/// Record `source_id` as authenticated.
pub fn mark_authenticated(webviews: &mut AuthWebviews, source_id: &str)
    ensures
        final(webviews).sessions.view() == inserted(old(webviews).sessions.view(), source_id@, true),
{
    webviews.sessions.insert(String::from_str(source_id), true);
}

/// Forget whatever the record holds for `source_id`.
pub fn clear_auth_state(webviews: &mut AuthWebviews, source_id: &str)
    ensures
        lookup(final(webviews).sessions.view(), source_id@) is None,
        match index_of_key(old(webviews).sessions.view(), source_id@) {
            Some(i) => final(webviews).sessions.view() == old(webviews).sessions.view().remove(i),
            None => final(webviews).sessions.view() == old(webviews).sessions.view(),
        },
{
    webviews.sessions.assert_unique();
    let ghost before = webviews.sessions.view();
    webviews.sessions.remove(source_id);
    proof {
        if let Some(i) = index_of_key(before, source_id@) {
            lemma_take_put(before, i, (source_id@, true));
        }
    }
}

/// A source marked authenticated reads as authenticated, and once its state
/// is cleared it no longer does; other sources are left as they were.
pub proof fn law_mark_then_clear(sessions: Seq<(Seq<char>, bool)>, id: Seq<char>, other: Seq<char>)
    requires
        crate::dict::keys_unique(sessions),
        other != id,
    ensures
        is_marked(inserted(sessions, id, true), id),
        is_marked(inserted(sessions, id, true), other) == is_marked(sessions, other),
        ({
            let marked = inserted(sessions, id, true);
            let cleared = match index_of_key(marked, id) {
                Some(i) => marked.remove(i),
                None => marked,
            };
            !is_marked(cleared, id) && is_marked(cleared, other) == is_marked(sessions, other)
        }),
{
    crate::dict::law_lookup_inserted(sessions, id, true, id);
    crate::dict::law_lookup_inserted(sessions, id, true, other);
    crate::dict::law_lookup_removed(inserted(sessions, id, true), id, other);
}

/// The record after one call: `(true, id)` marks `id` authenticated
/// (`mark_authenticated`), `(false, id)` clears it (`clear_auth_state`).
pub open spec fn after_call(sessions: Seq<(Seq<char>, bool)>, call: (bool, Seq<char>)) -> Seq<(Seq<char>, bool)> {
    if call.0 {
        inserted(sessions, call.1, true)
    } else {
        match index_of_key(sessions, call.1) {
            Some(i) => sessions.remove(i),
            None => sessions,
        }
    }
}

/// The record after the calls in order.
pub open spec fn after_calls(sessions: Seq<(Seq<char>, bool)>, calls: Seq<(bool, Seq<char>)>) -> Seq<(Seq<char>, bool)>
    decreases calls.len(),
{
    if calls.len() == 0 { sessions } else { after_call(after_calls(sessions, calls.drop_last()), calls.last()) }
}

/// Whether the last of the calls about `id` was a mark (`None` when no call was about it).
pub open spec fn last_call_marks(calls: Seq<(bool, Seq<char>)>, id: Seq<char>) -> Option<bool>
    decreases calls.len(),
{
    if calls.len() == 0 {
        None
    } else if calls.last().1 == id {
        Some(calls.last().0)
    } else {
        last_call_marks(calls.drop_last(), id)
    }
}

/// After any sequence of marks and clears, a source reads as authenticated
/// exactly when the last call about it was a mark; a source no call was
/// about reads as before (so, from the empty record, as not authenticated).
pub proof fn law_last_call_decides(sessions: Seq<(Seq<char>, bool)>, calls: Seq<(bool, Seq<char>)>, id: Seq<char>)
    requires
        crate::dict::keys_unique(sessions),
    ensures
        crate::dict::keys_unique(after_calls(sessions, calls)),
        is_marked(after_calls(sessions, calls), id) == (match last_call_marks(calls, id) {
            Some(m) => m,
            None => is_marked(sessions, id),
        }),
    decreases calls.len(),
{
    if calls.len() > 0 {
        let before = after_calls(sessions, calls.drop_last());
        law_last_call_decides(sessions, calls.drop_last(), id);
        let c = calls.last();
        if c.0 {
            crate::dict::law_lookup_inserted(before, c.1, true, id);
        } else {
            crate::dict::law_lookup_removed(before, c.1, id);
        }
    }
}

/// Whether a host is one of the domains that end a login.
pub open spec fn closes_login(host: Seq<char>, close_domains: Seq<Seq<char>>) -> bool {
    exists|i: int| 0 <= i < close_domains.len()
        && #[trigger] crate::auth::domain_utils::host_matches_domain(host, close_domains[i])
}

/// What a login window does when it navigates to a URL with host `host`
/// (`None` for a URL without one, read as the empty host): whether it has
/// now been outside the closing domains, and whether to check for a finished
/// login (back on a closing domain after having left them).
pub fn auth_navigation(visited_external: bool, host: Option<&str>, close_domains: &[String]) -> (r: (bool, bool))
    ensures
        ({
            let h = match host { Some(h) => crate::unicode::lowercase(h@), None => Seq::<char>::empty() };
            let closing = closes_login(h, crate::text::views(close_domains@));
            &&& r.0 == (visited_external || !closing)
            &&& r.1 == (closing && r.0)
        }),
{
    let h = match host {
        Some(h) => crate::unicode::to_lower(h),
        None => String::new(),
    };
    let closing = crate::auth::domain_utils::is_matching_domain(h.as_str(), close_domains);
    let visited = visited_external || !closing;
    (visited, closing && visited)
}

} // verus!
