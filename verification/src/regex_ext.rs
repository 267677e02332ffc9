//! Regular expressions, evaluated by the `regex` crate.
use vstd::prelude::*;

verus! {

/// Whether `regex::Regex::new` accepts the pattern.
pub uninterp spec fn regex_valid(pattern: Seq<char>) -> bool;

/// The text of the error `regex::Regex::new` reports for an invalid pattern.
pub uninterp spec fn regex_error(pattern: Seq<char>) -> Seq<char>;

/// What `Regex::is_match` returns for a valid pattern and a text.
pub uninterp spec fn regex_matches(pattern: Seq<char>, text: Seq<char>) -> bool;

/// What `Regex::replace_all` returns for a valid pattern, a text and a replacement.
pub uninterp spec fn regex_replaced(pattern: Seq<char>, text: Seq<char>, rep: Seq<char>) -> Seq<char>;

/// The groups of the leftmost match of `Regex::captures` (group 0 is the whole
/// match), or `None` when the text has no match.
pub uninterp spec fn regex_groups(pattern: Seq<char>, text: Seq<char>) -> Option<Seq<Option<Seq<char>>>>;

/// The texts of the successive non-overlapping matches of `Regex::find_iter`.
pub uninterp spec fn regex_found(pattern: Seq<char>, text: Seq<char>) -> Seq<Seq<char>>;

/// The views of a sequence of optional strings.
pub open spec fn opt_views(v: Seq<Option<String>>) -> Seq<Option<Seq<char>>> {
    v.map_values(|o: Option<String>| match o { Some(s) => Some(s@), None => None })
}

/// Wraps `Regex::new` and `Regex::is_match`: `None` when the pattern is
/// rejected, else whether the text matches.
#[verifier::external_body]
pub fn regex_is_match(pattern: &str, text: &str) -> (r: Option<bool>)
    ensures
        r is None <==> !regex_valid(pattern@),
        r matches Some(b) ==> b == regex_matches(pattern@, text@),
{
    regex::Regex::new(pattern).ok().map(|re| re.is_match(text))
}

/// Wraps `Regex::new` and `Regex::replace_all`: the error text when the
/// pattern is rejected, else the text with every match replaced.
#[verifier::external_body]
pub fn regex_replace_all(pattern: &str, text: &str, rep: &str) -> (r: Result<String, String>)
    ensures
        r is Err <==> !regex_valid(pattern@),
        r matches Err(e) ==> e@ == regex_error(pattern@),
        r matches Ok(s) ==> s@ == regex_replaced(pattern@, text@, rep@),
{
    match regex::Regex::new(pattern) {
        Ok(re) => Ok(re.replace_all(text, rep).to_string()),
        Err(e) => Err(e.to_string()),
    }
}

/// Wraps `Regex::new` and `Regex::captures`: the error text when the pattern
/// is rejected, `None` when nothing matches, else every group of the leftmost
/// match (`None` for a group that did not take part).
#[verifier::external_body]
pub fn regex_captures(pattern: &str, text: &str) -> (r: Result<Option<Vec<Option<String>>>, String>)
    ensures
        r is Err <==> !regex_valid(pattern@),
        r matches Err(e) ==> e@ == regex_error(pattern@),
        r matches Ok(None) ==> regex_groups(pattern@, text@) is None,
        r matches Ok(Some(g)) ==> regex_groups(pattern@, text@) == Some(opt_views(g@)),
{
    match regex::Regex::new(pattern) {
        Ok(re) => Ok(re.captures(text).map(|c| c.iter().map(|m| m.map(|m| m.as_str().to_string())).collect())),
        Err(e) => Err(e.to_string()),
    }
}

/// Wraps `Regex::new` and `Regex::find_iter`: the error text when the pattern
/// is rejected, else the texts of all matches in order.
#[verifier::external_body]
pub fn regex_find_all(pattern: &str, text: &str) -> (r: Result<Vec<String>, String>)
    ensures
        r is Err <==> !regex_valid(pattern@),
        r matches Err(e) ==> e@ == regex_error(pattern@),
        r matches Ok(v) ==> v@.map_values(|s: String| s@) == regex_found(pattern@, text@),
{
    match regex::Regex::new(pattern) {
        Ok(re) => Ok(re.find_iter(text).map(|m| m.as_str().to_string()).collect()),
        Err(e) => Err(e.to_string()),
    }
}

/// The pattern of an HTML tag, `<[^>]+>`.
pub open spec fn tag_pattern() -> Seq<char> {
    "<[^>]+>"@
}

/// Wraps `Regex::new(r"<[^>]+>")` (a pattern the crate accepts) and
/// `Regex::replace_all` with an empty replacement: every HTML tag removed.
#[verifier::external_body]
pub fn remove_html_tags(text: &str) -> (r: String)
    ensures
        r@ == regex_replaced(tag_pattern(), text@, ""@),
{
    regex::Regex::new(r"<[^>]+>").unwrap().replace_all(text, "").to_string()
}

/// The pattern of an HTML tag, possibly empty (`<>` too).
pub open spec fn loose_tag_pattern() -> Seq<char> {
    "<[^>]*>"@
}

/// Wraps `Regex::new(r"<[^>]*>")` (a pattern the crate accepts) and
/// `Regex::replace_all` with an empty replacement: every tag, `<>` included,
/// removed.
#[verifier::external_body]
pub fn remove_loose_tags(text: &str) -> (r: String)
    ensures
        r@ == regex_replaced(loose_tag_pattern(), text@, ""@),
{
    regex::Regex::new(r"<[^>]*>").unwrap().replace_all(text, "").to_string()
}

} // verus!
