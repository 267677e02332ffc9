//! Cookie strings.
use vstd::prelude::*;
use crate::text::{concat, concat3, contains, join, views, str_contains, str_join};

verus! {

/// Whether a `name=value; ...` cookie string shows a session: with no session
/// cookie named, any cookie counts; otherwise `name=` must occur.
pub open spec fn has_session(cookies: Seq<char>, session_cookie: Seq<char>) -> bool {
    if session_cookie.len() == 0 {
        cookies.len() != 0
    } else {
        contains(cookies, session_cookie + "="@)
    }
}

/// Check if a cookie string contains the required session cookie.
pub fn has_session_cookie(cookie_string: &str, session_cookie: &str) -> (b: bool)
    ensures
        b == has_session(cookie_string@, session_cookie@),
{
    if session_cookie.is_empty() {
        !cookie_string.is_empty()
    } else {
        let needle = concat(session_cookie, "=");
        str_contains(cookie_string, needle.as_str())
    }
}

/// `name=value` for one cookie.
pub open spec fn cookie_pair(c: (String, String)) -> Seq<char> {
    c.0@ + "="@ + c.1@
}

/// Convert cookies, given as (name, value) pairs, to `name=value; name2=value2`.
pub fn cookies_to_string(cookies: &[(String, String)]) -> (r: String)
    ensures
        r@ == join(cookies@.map_values(|c: (String, String)| cookie_pair(c)), "; "@),
{
    let mut parts: Vec<String> = Vec::new();
    let mut i: usize = 0;
    while i < cookies.len()
        invariant
            i <= cookies.len(),
            views(parts@) == cookies@.take(i as int).map_values(|c: (String, String)| cookie_pair(c)),
        decreases cookies.len() - i,
    {
        let p = concat3(cookies[i].0.as_str(), "=", cookies[i].1.as_str());
        let ghost old_parts = views(parts@);
        proof { crate::text::lemma_views_push(parts@, p); }
        parts.push(p);
        i = i + 1;
        proof {
            let m = cookies@.take(i as int).map_values(|c: (String, String)| cookie_pair(c));
            assert(m.last() == cookie_pair(cookies@[i - 1]));
            assert(m.drop_last() =~= cookies@.take(i - 1).map_values(|c: (String, String)| cookie_pair(c)));
            assert(views(parts@) =~= m);
        }
    }
    assert(cookies@.take(i as int) =~= cookies@);
    str_join(parts.as_slice(), "; ")
}

} // verus!
