//! URL parsing and percent-encoding, done by the `url` and `urlencoding` crates.
use vstd::prelude::*;
use base64::Engine;

verus! {

/// The host of a URL as `url::Url::parse` and `Url::host_str` give it, or
/// `None` when the text does not parse or the URL has no host.
pub uninterp spec fn url_host(s: Seq<char>) -> Option<Seq<char>>;

/// The path of a URL as `url::Url::parse` and `Url::path` give it, or `None`
/// when the text does not parse.
pub uninterp spec fn url_path(s: Seq<char>) -> Option<Seq<char>>;

/// What `urlencoding::encode` returns.
pub uninterp spec fn url_encoded(s: Seq<char>) -> Seq<char>;

/// What `urlencoding::decode` returns: the decoded text, or the text of the
/// UTF-8 error when the decoded bytes are not UTF-8.
pub uninterp spec fn url_decoded(s: Seq<char>) -> Result<Seq<char>, Seq<char>>;

/// The text (`Display`) of the error `url::Url::parse` gives for a text, or
/// `None` when the text parses.
pub uninterp spec fn url_error(s: Seq<char>) -> Option<Seq<char>>;

/// Wraps `Url::parse`: the text of its error, if any; the result is named
/// `url_error` of the argument.
#[verifier::external_body]
pub fn url_parse_error(s: &str) -> (r: Option<String>)
    ensures
        match r {
            Some(e) => url_error(s@) == Some(e@),
            None => url_error(s@) is None,
        },
{
    url::Url::parse(s).err().map(|e| e.to_string())
}

/// Wraps `Url::parse` and `Url::host_str`.
#[verifier::external_body]
pub fn host_of_url(s: &str) -> (r: Option<String>)
    ensures
        r matches Some(h) ==> url_host(s@) == Some(h@),
        r is None ==> url_host(s@) is None,
{
    url::Url::parse(s).ok().and_then(|u| u.host_str().map(|h| h.to_string()))
}

/// Wraps `Url::parse` and `Url::path`.
#[verifier::external_body]
pub fn path_of_url(s: &str) -> (r: Option<String>)
    ensures
        r matches Some(p) ==> url_path(s@) == Some(p@),
        r is None ==> url_path(s@) is None,
{
    url::Url::parse(s).ok().map(|u| u.path().to_string())
}

/// Wraps `urlencoding::encode`.
#[verifier::external_body]
pub fn encode(s: &str) -> (r: String)
    ensures
        r@ == url_encoded(s@),
{
    urlencoding::encode(s).to_string()
}

/// Wraps `urlencoding::decode`.
#[verifier::external_body]
pub fn decode(s: &str) -> (r: Result<String, String>)
    ensures
        match r {
            Ok(d) => url_decoded(s@) == Ok::<Seq<char>, Seq<char>>(d@),
            Err(e) => url_decoded(s@) == Err::<Seq<char>, Seq<char>>(e@),
        },
{
    urlencoding::decode(s).map(|d| d.to_string()).map_err(|e| e.to_string())
}

/// What `base64::engine::general_purpose::STANDARD.decode` returns: the
/// bytes, or the text of the decoding error.
pub uninterp spec fn base64_decoded(s: Seq<char>) -> Result<Seq<u8>, Seq<char>>;

/// Wraps `STANDARD.decode` of the `base64` crate.
#[verifier::external_body]
pub fn base64_decode(s: &str) -> (r: Result<Vec<u8>, String>)
    ensures
        match r {
            Ok(b) => base64_decoded(s@) == Ok::<Seq<u8>, Seq<char>>(b@),
            Err(e) => base64_decoded(s@) == Err::<Seq<u8>, Seq<char>>(e@),
        },
{
    base64::engine::general_purpose::STANDARD.decode(s).map_err(|e| e.to_string())
}

/// What `String::from_utf8` returns: the text, or the text of the error.
pub uninterp spec fn utf8_decoded(b: Seq<u8>) -> Result<Seq<char>, Seq<char>>;

/// Wraps `String::from_utf8`.
#[verifier::external_body]
pub fn from_utf8(b: Vec<u8>) -> (r: Result<String, String>)
    ensures
        match r {
            Ok(s) => utf8_decoded(b@) == Ok::<Seq<char>, Seq<char>>(s@),
            Err(e) => utf8_decoded(b@) == Err::<Seq<char>, Seq<char>>(e@),
        },
{
    String::from_utf8(b).map_err(|e| e.to_string())
}

} // verus!
