//! The decisions of downloads that go through a WebView: the name a download
//! is saved under, the cookie header sent with it, and what is reported once
//! the WebView and the transfer have done their part.
use vstd::prelude::*;
use crate::text::{
    contains, occurs_at, index_of, before_char, trim, join, is_first_occurrence, lemma_first_occurrence_is_index_of,
    chars_of, find, slice_to_vec, string_from_chars, str_before_char, str_trim, concat, concat3, str_eq,
};
use crate::unicode::{lowercase, to_lower};
use crate::url_ext::{url_decoded, decode, url_error, url_parse_error};

verus! {

/// What a WebView download reports.
#[derive(Debug, Clone)]
pub struct WebViewDownloadResult {
    pub success: bool,
    pub download_url: Option<String>,
    /// Where the file was saved, when the download ran.
    pub file_path: Option<String>,
    /// The file's size in bytes.
    pub file_size: Option<u64>,
    pub error: Option<String>,
    /// The WebView session's cookie header (size probes only), for the real
    /// download to reuse.
    pub cookies: Option<String>,
}

/// Progress of a download, as sent to the interface.
#[derive(Debug, Clone)]
pub struct DownloadProgressEvent {
    pub id: String,
    pub downloaded_bytes: u64,
    pub total_bytes: u64,
    /// Bytes per second.
    pub speed: u64,
}

/// The shortest time (ms) to wait for a download URL to be captured.
pub const MIN_CAPTURE_WAIT_MS: u64 = 60000;

/// How long to wait for a download URL: the configured wait, at least a minute.
pub fn capture_timeout_ms(wait_timeout_ms: u64) -> (r: u64)
    ensures
        r == if wait_timeout_ms > MIN_CAPTURE_WAIT_MS { wait_timeout_ms } else { MIN_CAPTURE_WAIT_MS },
{
    if wait_timeout_ms > MIN_CAPTURE_WAIT_MS { wait_timeout_ms } else { MIN_CAPTURE_WAIT_MS }
}

/// The name a captured download is saved under: the last segment of its
/// URL's path (`download` when there is none), percent-decoded when that
/// succeeds.
pub open spec fn captured_name(last_segment: Option<Seq<char>>) -> Seq<char> {
    let f = match last_segment { Some(s) => s, None => "download"@ };
    match url_decoded(f) {
        Ok(d) => d,
        Err(_) => f,
    }
}

/// The name a captured download is saved under.
pub fn captured_file_name(last_segment: Option<&str>) -> (r: String)
    ensures
        r@ == captured_name(match last_segment { Some(s) => Some(s@), None => None }),
{
    let f: &str = match last_segment {
        Some(s) => s,
        None => "download",
    };
    match decode(f) {
        Ok(d) => d,
        Err(_) => String::from_str(f),
    }
}

/// `s` without leading and trailing double quotes.
pub open spec fn trim_quotes(s: Seq<char>) -> Seq<char>
    decreases s.len(),
{
    if s.len() > 0 && s[0] == '"' {
        trim_quotes(s.drop_first())
    } else if s.len() > 0 && s.last() == '"' {
        trim_quotes(s.drop_last())
    } else {
        s
    }
}

/// The value of a `Content-Disposition` parameter: up to the next `;`,
/// trimmed of white space and quotes.
pub open spec fn disposition_value(rest: Seq<char>) -> Seq<char> {
    trim_quotes(trim(before_char(rest, ';')))
}

/// A character with ASCII capitals lower-cased (`char::to_ascii_lowercase`).
pub open spec fn fold_char(c: char) -> char {
    if 'A' <= c && c <= 'Z' { (((c as u32) + 32) as u8) as char } else { c }
}

/// A text with ASCII capitals lower-cased, every character keeping its place.
pub open spec fn ascii_folded(h: Seq<char>) -> Seq<char> {
    h.map_values(|c: char| fold_char(c))
}

/// The file name a `Content-Disposition` header gives: the RFC 5987 form
/// `filename*=charset''name` (percent-decoded when that succeeds) first, then
/// the plain `filename=` form. The parameter names are found without regard
/// to ASCII case.
pub open spec fn disposition_name(h: Seq<char>) -> Option<Seq<char>> {
    let l = ascii_folded(h);
    let star = if contains(l, "filename*="@) {
        let rest = h.skip(index_of(l, "filename*="@) + 10);
        let value = if contains(rest, "''"@) { rest.skip(index_of(rest, "''"@) + 2) } else { rest };
        let v = disposition_value(value);
        if v.len() > 0 {
            Some(match url_decoded(v) { Ok(d) => d, Err(_) => v })
        } else {
            None
        }
    } else {
        None
    };
    match star {
        Some(n) => Some(n),
        None => if contains(l, "filename="@) {
            let v = disposition_value(h.skip(index_of(l, "filename="@) + 9));
            if v.len() > 0 { Some(v) } else { None }
        } else {
            None
        },
    }
}

/// The characters of `h` with ASCII capitals lower-cased.
fn fold_ascii(h: &Vec<char>) -> (r: Vec<char>)
    ensures
        r@ == ascii_folded(h@),
{
    let mut r: Vec<char> = Vec::new();
    let mut i: usize = 0;
    while i < h.len()
        invariant
            i <= h.len(),
            r@.len() == i,
            forall|j: int| 0 <= j < i ==> #[trigger] r@[j] == fold_char(h@[j]),
        decreases h.len() - i,
    {
        let c = h[i];
        if 'A' <= c && c <= 'Z' {
            r.push((((c as u32) + 32) as u8) as char);
        } else {
            r.push(c);
        }
        i = i + 1;
    }
    assert(r@ =~= ascii_folded(h@));
    r
}

/// `s` without leading and trailing double quotes.
fn strip_quotes(s: &str) -> (r: String)
    ensures
        r@ == trim_quotes(s@),
{
    let v = chars_of(s);
    let mut lo: usize = 0;
    let mut hi: usize = v.len();
    assert(v@.subrange(0, v.len() as int) =~= v@);
    while lo < hi && (v[lo] == '"' || v[hi - 1] == '"')
        invariant
            lo <= hi <= v.len(),
            trim_quotes(s@) == trim_quotes(v@.subrange(lo as int, hi as int)),
            v@ == s@,
        decreases hi - lo,
    {
        let ghost t = v@.subrange(lo as int, hi as int);
        if v[lo] == '"' {
            assert(t.drop_first() =~= v@.subrange(lo + 1, hi as int));
            lo = lo + 1;
        } else {
            assert(t.drop_last() =~= v@.subrange(lo as int, hi - 1));
            hi = hi - 1;
        }
    }
    let out = slice_to_vec(v.as_slice(), lo, hi);
    string_from_chars(out)
}

/// The characters of `h` after the first occurrence of `p` in its ASCII-folded
/// form `l` (of the same length), when there is one.
fn after_in_lower(h: &Vec<char>, l: &Vec<char>, p: &str) -> (r: Option<String>)
    requires
        l@.len() == h@.len(),
    ensures
        match r {
            Some(t) => contains(l@, p@) && t@ == h@.skip(index_of(l@, p@) + p@.len()),
            None => !contains(l@, p@),
        },
{
    let pv = chars_of(p);
    match find(l.as_slice(), pv.as_slice()) {
        Some(i) => {
            proof { lemma_first_occurrence_is_index_of(l@, pv@, i as int); }
            let n = pv.len();
            let hl = h.len();
            assert(occurs_at(l@, pv@, i as int));
            assert(i + n <= hl);
            let t = slice_to_vec(h.as_slice(), i + n, hl);
            assert(t@ =~= h@.skip(i + p@.len()));
            Some(string_from_chars(t))
        },
        None => None,
    }
}

/// The file name a `Content-Disposition` header gives.
pub fn filename_from_content_disposition(header: &str) -> (r: Option<String>)
    ensures
        match r {
            Some(n) => disposition_name(header@) == Some(n@),
            None => disposition_name(header@) is None,
        },
{
    let h = chars_of(header);
    let l = fold_ascii(&h);
    proof {
        reveal_strlit("filename*=");
        reveal_strlit("filename=");
        reveal_strlit("''");
    }
    if let Some(rest) = after_in_lower(&h, &l, "filename*=") {
        let value = match crate::text::str_after_first(rest.as_str(), "''") {
            Some(v) => v,
            None => rest,
        };
        let v = strip_quotes(str_trim(str_before_char(value.as_str(), ';').as_str()).as_str());
        if !crate::text::str_is_empty(v.as_str()) {
            return Some(match decode(v.as_str()) {
                Ok(d) => d,
                Err(_) => v,
            });
        }
    }
    if let Some(rest) = after_in_lower(&h, &l, "filename=") {
        let v = strip_quotes(str_trim(str_before_char(rest.as_str(), ';').as_str()).as_str());
        if !crate::text::str_is_empty(v.as_str()) {
            return Some(v);
        }
    }
    None
}

/// The archive extension a `Content-Type` names: its media type (before any
/// `;`, trimmed, lower-cased) looked up among the archive types.
pub open spec fn content_type_ext(ct: Seq<char>) -> Option<Seq<char>> {
    let t = lowercase(trim(before_char(ct, ';')));
    if t == "application/x-rar-compressed"@ || t == "application/vnd.rar"@ || t == "application/rar"@ {
        Some("rar"@)
    } else if t == "application/x-7z-compressed"@ {
        Some("7z"@)
    } else if t == "application/zip"@ || t == "application/x-zip-compressed"@ {
        Some("zip"@)
    } else if t == "application/gzip"@ || t == "application/x-gzip"@ {
        Some("gz"@)
    } else if t == "application/x-tar"@ {
        Some("tar"@)
    } else {
        None
    }
}

/// The archive extension a `Content-Type` header names.
pub fn ext_from_content_type(content_type: &str) -> (r: Option<String>)
    ensures
        match r {
            Some(e) => content_type_ext(content_type@) == Some(e@),
            None => content_type_ext(content_type@) is None,
        },
{
    let t = to_lower(str_trim(str_before_char(content_type, ';').as_str()).as_str());
    let t = t.as_str();
    if str_eq(t, "application/x-rar-compressed") || str_eq(t, "application/vnd.rar") || str_eq(t, "application/rar") {
        Some(String::from_str("rar"))
    } else if str_eq(t, "application/x-7z-compressed") {
        Some(String::from_str("7z"))
    } else if str_eq(t, "application/zip") || str_eq(t, "application/x-zip-compressed") {
        Some(String::from_str("zip"))
    } else if str_eq(t, "application/gzip") || str_eq(t, "application/x-gzip") {
        Some(String::from_str("gz"))
    } else if str_eq(t, "application/x-tar") {
        Some(String::from_str("tar"))
    } else {
        None
    }
}

/// Whether a file name has an extension in the sense of `Path::extension`:
/// a dot after its first character.
pub open spec fn has_ext(name: Seq<char>) -> bool {
    exists|i: int| 0 < i < name.len() && name[i] == '.'
}

/// Whether a file name has an extension, as `Path::extension` reads the file
/// name of a path: a dot after its first character (a name that only starts
/// with a dot has none).
fn file_name_has_extension(name: &str) -> (b: bool)
    ensures
        b == has_ext(name@),
{
    let v = chars_of(name);
    let mut i: usize = 1;
    while i < v.len()
        invariant
            v@ == name@,
            1 <= i <= v@.len() || v@.len() == 0,
            forall|j: int| 0 < j < i && j < v@.len() ==> v@[j] != '.',
        decreases v@.len() - i,
    {
        if v[i] == '.' {
            return true;
        }
        i = i + 1;
    }
    false
}

/// How a download's file name is settled once the response's headers are in.
#[derive(Debug)]
pub enum FileNameChoice {
    /// Save under this name, in the same folder.
    Rename(String),
    /// Keep the planned destination.
    Keep,
}

/// The file name a download is saved under: the one the `Content-Disposition`
/// header gives; else, when the planned name (`download` when there is none)
/// has no extension and the `Content-Type` names an archive type, the planned
/// name with that extension; else the planned destination unchanged.
pub fn choose_file_name(current: Option<&str>, disposition: Option<&str>, content_type: Option<&str>) -> (r: FileNameChoice)
    ensures
        ({
            let cd = match disposition { Some(d) => disposition_name(d@), None => None };
            let cur = match current { Some(c) => c@, None => "download"@ };
            match cd {
                Some(n) => r matches FileNameChoice::Rename(m) && m@ == n,
                None => if !has_ext(cur) {
                    match content_type {
                        Some(ct) => match content_type_ext(ct@) {
                            Some(e) => r matches FileNameChoice::Rename(m) && m@ == cur + "."@ + e,
                            None => r matches FileNameChoice::Keep,
                        },
                        None => r matches FileNameChoice::Keep,
                    }
                } else {
                    r matches FileNameChoice::Keep
                },
            }
        }),
{
    if let Some(d) = disposition {
        if let Some(n) = filename_from_content_disposition(d) {
            return FileNameChoice::Rename(n);
        }
    }
    let cur: &str = match current {
        Some(c) => c,
        None => "download",
    };
    if !file_name_has_extension(cur) {
        if let Some(ct) = content_type {
            if let Some(e) = ext_from_content_type(ct) {
                return FileNameChoice::Rename(concat3(cur, ".", e.as_str()));
            }
        }
    }
    FileNameChoice::Keep
}

/// The error a transfer reports when it was paused.
pub const PAUSED: &'static str = "PAUSED";

/// The error a transfer reports when it was cancelled.
pub const CANCELLED: &'static str = "CANCELLED";

/// What a WebView download reports once the transfer with the WebView's
/// cookies has ended: success with the saved file and its size, a pause or a
/// cancellation; `None` for any other failure, after which the WebView itself
/// downloads the file.
pub fn transfer_outcome(download_url: String, transfer: Result<(String, u64), String>) -> (r: Option<WebViewDownloadResult>)
    ensures
        match transfer {
            Ok((path, size)) => r matches Some(res) && res.success && res.download_url == Some(download_url)
                && res.file_path == Some(path) && res.file_size == Some(size) && res.error is None && res.cookies is None,
            Err(e) => if e@ == PAUSED@ {
                r matches Some(res) && !res.success && res.download_url == Some(download_url) && res.file_path is None
                    && res.file_size is None && res.cookies is None && (res.error matches Some(m) && m@ == "Download paused"@)
            } else if e@ == CANCELLED@ {
                r matches Some(res) && !res.success && res.download_url == Some(download_url) && res.file_path is None
                    && res.file_size is None && res.cookies is None && (res.error matches Some(m) && m@ == "Download cancelled"@)
            } else {
                r is None
            },
        },
{
    match transfer {
        Ok((path, size)) => Some(WebViewDownloadResult {
            success: true,
            download_url: Some(download_url),
            file_path: Some(path),
            file_size: Some(size),
            error: None,
            cookies: None,
        }),
        Err(e) => {
            if str_eq(e.as_str(), PAUSED) {
                Some(WebViewDownloadResult {
                    success: false,
                    download_url: Some(download_url),
                    file_path: None,
                    file_size: None,
                    error: Some(String::from_str("Download paused")),
                    cookies: None,
                })
            } else if str_eq(e.as_str(), CANCELLED) {
                Some(WebViewDownloadResult {
                    success: false,
                    download_url: Some(download_url),
                    file_path: None,
                    file_size: None,
                    error: Some(String::from_str("Download cancelled")),
                    cookies: None,
                })
            } else {
                None
            }
        },
    }
}

/// What a size probe through a WebView reports: the captured URL, the size
/// the server gave, and the session's cookie header when there is one.
pub fn probe_outcome(download_url: String, cookie_header: String, file_size: Option<u64>) -> (r: WebViewDownloadResult)
    ensures
        r.success,
        r.download_url == Some(download_url),
        r.file_path is None,
        r.file_size == file_size,
        r.error is None,
        r.cookies == (if cookie_header@.len() == 0 { None } else { Some(cookie_header) }),
{
    let empty = crate::text::str_is_empty(cookie_header.as_str());
    WebViewDownloadResult {
        success: true,
        download_url: Some(download_url),
        file_path: None,
        file_size,
        error: None,
        cookies: if empty { None } else { Some(cookie_header) },
    }
}

/// A failed WebView download: what went wrong, and the URL captured so far.
pub fn failed_outcome(captured_url: Option<String>, message: String) -> (r: WebViewDownloadResult)
    ensures
        !r.success,
        r.download_url == captured_url,
        r.file_path is None,
        r.file_size is None,
        r.error == Some(message),
        r.cookies is None,
{
    WebViewDownloadResult {
        success: false,
        download_url: captured_url,
        file_path: None,
        file_size: None,
        error: Some(message),
        cookies: None,
    }
}

/// The outcome of a WebView download of a text that does not parse as a URL:
/// a failure naming the text and the parse error; `None` when it parses.
pub fn invalid_url_outcome(url: &str) -> (r: Option<WebViewDownloadResult>)
    ensures
        match url_error(url@) {
            Some(e) => r matches Some(o) && !o.success && o.download_url is None && o.file_path is None
                && o.file_size is None && o.cookies is None
                && (o.error matches Some(m) && m@ == "Invalid URL '"@ + url@ + "': "@ + e),
            None => r is None,
        },
{
    match url_parse_error(url) {
        Some(e) => {
            let head = concat3("Invalid URL '", url, "': ");
            Some(failed_outcome(None, concat(head.as_str(), e.as_str())))
        },
        None => None,
    }
}

/// How often the download buttons are clicked again while a URL is awaited,
/// in milliseconds (for hosts whose button appears after a countdown).
pub const CLICK_RETRY_MS: u64 = 5000;

/// What the wait for a captured download URL does at a poll.
#[derive(Debug, Clone, Copy, PartialEq, Eq, Structural)]
pub enum CaptureAction {
    /// The wait took longer than allowed: stop without a URL.
    TimedOut,
    /// A URL was captured: go on with it.
    Captured,
    /// Click the download buttons again (and restart the click clock), then wait.
    Click,
    /// Wait for the next poll.
    Wait,
}

/// The wait for a captured download URL at a poll, `elapsed_ns` after it
/// began and `since_click_ns` after the last click: past the time limit
/// (`capture_timeout_ms`) it stops; with a URL it goes on; with a button to
/// click, it clicks again every five seconds; otherwise it waits.
pub fn capture_step(elapsed_ns: u128, since_click_ns: u128, timeout_ms: u64, has_url: bool, has_click: bool) -> (a: CaptureAction)
    ensures
        a == (if elapsed_ns > timeout_ms * NANOS_PER_MS {
            CaptureAction::TimedOut
        } else if has_url {
            CaptureAction::Captured
        } else if has_click && since_click_ns >= CLICK_RETRY_MS * NANOS_PER_MS {
            CaptureAction::Click
        } else {
            CaptureAction::Wait
        }),
{
    if elapsed_ns > (timeout_ms as u128) * (NANOS_PER_MS as u128) {
        CaptureAction::TimedOut
    } else if has_url {
        CaptureAction::Captured
    } else if has_click && since_click_ns >= (CLICK_RETRY_MS as u128) * (NANOS_PER_MS as u128) {
        CaptureAction::Click
    } else {
        CaptureAction::Wait
    }
}

/// How long a download in a visible WebView may take, in milliseconds.
pub const FALLBACK_TIMEOUT_MS: u64 = 600_000;

/// Nanoseconds in a millisecond.
pub const NANOS_PER_MS: u64 = 1_000_000;

/// What the wait for a download in a visible WebView does at a poll.
#[derive(Debug, Clone, Copy, PartialEq, Eq, Structural)]
pub enum FallbackAction {
    /// Ten minutes passed: stop.
    TimedOut,
    /// The download finished well.
    Done,
    /// The download finished badly.
    Failed,
    /// Wait for the next poll.
    Wait,
}

/// The wait for a download in a visible WebView at a poll, `elapsed_ns`
/// after it began: past ten minutes it stops; once the download started and
/// its file is known, it ends as the download did; otherwise it waits.
pub fn fallback_step(elapsed_ns: u128, started: bool, finished: bool, success: bool) -> (a: FallbackAction)
    ensures
        a == (if elapsed_ns > FALLBACK_TIMEOUT_MS * NANOS_PER_MS {
            FallbackAction::TimedOut
        } else if started && finished {
            if success { FallbackAction::Done } else { FallbackAction::Failed }
        } else {
            FallbackAction::Wait
        }),
{
    if elapsed_ns > (FALLBACK_TIMEOUT_MS as u128) * (NANOS_PER_MS as u128) {
        FallbackAction::TimedOut
    } else if started && finished {
        if success { FallbackAction::Done } else { FallbackAction::Failed }
    } else {
        FallbackAction::Wait
    }
}

/// What a download in a visible WebView of `download_url` reports when the
/// wait ends badly: `WebView download failed`, or `Fallback download timeout`.
pub fn fallback_failure(download_url: String, timed_out: bool) -> (r: WebViewDownloadResult)
    ensures
        !r.success,
        r.download_url == Some(download_url),
        r.file_path is None,
        r.file_size is None,
        r.cookies is None,
        r.error matches Some(m) && m@ == (if timed_out { "Fallback download timeout"@ } else { "WebView download failed"@ }),
{
    let m = if timed_out { "Fallback download timeout".to_string() } else { "WebView download failed".to_string() };
    failed_outcome(Some(download_url), m)
}

/// What a download in a visible WebView of `download_url` reports when it
/// finished well: the file and, when it could be read, its size.
pub fn fallback_done(download_url: String, file_path: String, file_size: Option<u64>) -> (r: WebViewDownloadResult)
    ensures
        r.success,
        r.download_url == Some(download_url),
        r.file_path == Some(file_path),
        r.file_size == file_size,
        r.error is None,
        r.cookies is None,
{
    WebViewDownloadResult {
        success: true,
        download_url: Some(download_url),
        file_path: Some(file_path),
        file_size,
        error: None,
        cookies: None,
    }
}

} // verus!
