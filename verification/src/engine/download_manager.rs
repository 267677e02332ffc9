//! The computing half of the download manager: request headers, variable
//! substitution, file names from responses, free file names, and how an I/O
//! failure is reported. The transfers themselves run in the application.
use vstd::prelude::*;
use crate::dict::{Dict, inserted, placeholders_filled, text_entries};
use crate::text::{
    contains, contains_any, any_occurs, replace_all, trim, before_char, after_first, split, dec_of, dec_digit,
    str_after_first, str_has_char, str_before_char, str_trim, str_replace, str_contains, concat,
    concat3, str_split, to_decimal, views, chars_of, str_eq,
};
use crate::unicode::{lowercase, to_lower};
use crate::url_ext::{url_decoded, url_path, decode, path_of_url};

verus! {

/// Download result for streaming downloads.
#[derive(Debug)]
pub struct StreamingDownloadResult {
    pub file_path: String,
    pub file_size: u64,
    pub actual_filename: String,
}

/// Where a paused download stopped.
#[derive(Debug)]
pub struct DownloadPausedInfo {
    pub file_path: String,
    pub downloaded_bytes: u64,
    pub total_bytes: u64,
    pub actual_filename: String,
}

/// How a streaming download ended when it did not complete.
#[derive(Debug)]
pub enum StreamingDownloadError {
    Paused(DownloadPausedInfo),
    Cancelled,
    Error(String),
}

/// The operating-system family, which decides what raw error codes mean.
#[derive(Debug, Clone, Copy, PartialEq, Eq, Structural)]
pub enum Platform {
    Windows,
    Unix,
    Other,
}

/// What the library reads of an I/O error: whether its kind is
/// `StorageFull`, its raw OS code, and its text.
#[derive(Debug, Clone)]
pub struct IoFailure {
    pub storage_full: bool,
    pub raw_os_error: Option<i32>,
    pub text: String,
}

/// Phrases of error texts that mean the disk is full.
pub open spec fn disk_full_phrases() -> Seq<Seq<char>> {
    seq!["no space left"@, "disk is full"@, "not enough space"@, "there is not enough space"@,
        "insufficient"@]
}

/// Whether a raw OS error code means the disk is full on the platform
/// (Windows: `ERROR_DISK_FULL` 112, `ERROR_HANDLE_DISK_FULL` 39; Unix: `ENOSPC` 28).
pub open spec fn disk_full_code(code: i32, p: Platform) -> bool {
    match p {
        Platform::Windows => code == 112 || code == 39,
        Platform::Unix => code == 28,
        Platform::Other => false,
    }
}

/// Whether an I/O failure means the disk is full.
pub open spec fn disk_full(e: IoFailure, p: Platform) -> bool {
    ||| e.storage_full
    ||| (e.raw_os_error matches Some(c) && disk_full_code(c, p))
    ||| contains_any(lowercase(e.text@), disk_full_phrases())
}

/// The message of a download that ran out of disk space.
pub open spec fn disk_space_message() -> Seq<char> {
    "disk_space: Not enough disk space. Free up space on the destination drive and retry."@
}

/// Whether an I/O failure means the disk is full.
pub fn is_disk_full(e: &IoFailure, platform: Platform) -> (b: bool)
    ensures
        b == disk_full(*e, platform),
{
    if e.storage_full {
        return true;
    }
    if let Some(code) = e.raw_os_error {
        match platform {
            Platform::Windows => {
                if code == 112 || code == 39 {
                    return true;
                }
            },
            Platform::Unix => {
                if code == 28 {
                    return true;
                }
            },
            Platform::Other => {},
        }
    }
    let lower = to_lower(e.text.as_str());
    let phrases = vec!["no space left", "disk is full", "not enough space", "there is not enough space",
        "insufficient"];
    assert(phrases@.map_values(|p: &str| p@) =~= disk_full_phrases());
    any_occurs(lower.as_str(), phrases.as_slice())
}

/// An I/O failure as a download error: the disk-space message when the disk
/// is full, else the context and the error's text.
pub fn streaming_io_error(e: IoFailure, context: &str, platform: Platform) -> (r: StreamingDownloadError)
    ensures
        r matches StreamingDownloadError::Error(m) && m@ == (if disk_full(e, platform) {
            disk_space_message()
        } else {
            context@ + ": "@ + e.text@
        }),
{
    if is_disk_full(&e, platform) {
        StreamingDownloadError::Error(
            "disk_space: Not enough disk space. Free up space on the destination drive and retry.".to_string(),
        )
    } else {
        StreamingDownloadError::Error(concat3(context, ": ", e.text.as_str()))
    }
}

/// The entries of `base` after storing each entry of `over` in turn.
pub open spec fn merged_entries(base: Seq<(Seq<char>, String)>, over: Seq<(Seq<char>, String)>) -> Seq<(Seq<char>, String)>
    decreases over.len(),
{
    if over.len() == 0 {
        base
    } else {
        let m = merged_entries(base, over.drop_last());
        inserted(m, over.last().0, over.last().1)
    }
}

/// Merge default headers with a step's own: the step's headers win.
pub fn merge_headers(base: &Option<Dict<String>>, override_headers: &Option<Dict<String>>) -> (r: Option<Dict<String>>)
    ensures
        match (base, override_headers) {
            (None, None) => r is None,
            (Some(b), None) => r matches Some(m) && m.view() == b.view(),
            (None, Some(o)) => r matches Some(m) && m.view() == o.view(),
            (Some(b), Some(o)) => r matches Some(m) && m.view() == merged_entries(b.view(), o.view()),
        },
{
    match (base, override_headers) {
        (None, None) => None,
        (Some(b), None) => Some(crate::dict::copy_texts(b)),
        (None, Some(o)) => Some(crate::dict::copy_texts(o)),
        (Some(b), Some(o)) => {
            let mut merged = crate::dict::copy_texts(b);
            let n = o.len();
            let mut i: usize = 0;
            while i < n
                invariant
                    i <= n,
                    n == o.view().len(),
                    merged.view() == merged_entries(b.view(), o.view().take(i as int)),
                decreases n - i,
            {
                let k = o.key_at(i).clone();
                let v = o.value_at(i).clone();
                proof {
                    assert(o.view().take(i + 1).drop_last() =~= o.view().take(i as int));
                }
                merged.insert(k, v);
                i = i + 1;
            }
            assert(o.view().take(n as int) =~= o.view());
            Some(merged)
        },
    }
}

/// Substitute `{variable}` placeholders, one variable after the other in the
/// order the variables were stored.
pub fn substitute_variables(template: &str, variables: &Dict<String>) -> (r: String)
    ensures
        r@ == placeholders_filled(template@, text_entries(variables.view()), Seq::empty()),
{
    let r = crate::dict::fill_placeholders(template, variables, "");
    proof {
        reveal_strlit("");
        assert(""@ =~= Seq::<char>::empty());
    }
    r
}

/// The file name a `Content-Disposition` header value gives: the encoded
/// `filename*=` form, then the quoted `filename="..."`, then a bare
/// `filename=`.
pub open spec fn disposition_filename(v: Seq<char>) -> Option<Seq<char>> {
    let encoded = match after_first(v, "filename*="@) {
        Some(rest) => match after_first(rest, "''"@) {
            Some(f) => match url_decoded(trim(before_char(f, ';'))) {
                Ok(d) => Some(d),
                Err(_) => None,
            },
            None => None,
        },
        None => None,
    };
    if encoded is Some {
        encoded
    } else {
        match after_first(v, "filename=\""@) {
            Some(rest) if rest.contains('"') => Some(before_char(rest, '"')),
            _ => match after_first(v, "filename="@) {
                Some(rest) if trim(before_char(rest, ';')).len() > 0 => Some(trim(before_char(rest, ';'))),
                _ => None,
            },
        }
    }
}

/// The file name a `Content-Disposition` header value gives, if any.
pub fn extract_filename_from_content_disposition(value: &str) -> (r: Option<String>)
    ensures
        match r {
            Some(f) => disposition_filename(value@) == Some(f@),
            None => disposition_filename(value@) is None,
        },
{
    if let Some(rest) = str_after_first(value, "filename*=") {
        if let Some(f) = str_after_first(rest.as_str(), "''") {
            let name = str_trim(str_before_char(f.as_str(), ';').as_str());
            if let Ok(decoded) = decode(name.as_str()) {
                return Some(decoded);
            }
        }
    }
    if let Some(rest) = str_after_first(value, "filename=\"") {
        if str_has_char(rest.as_str(), '"') {
            return Some(str_before_char(rest.as_str(), '"'));
        }
    }
    if let Some(rest) = str_after_first(value, "filename=") {
        let name = str_trim(str_before_char(rest.as_str(), ';').as_str());
        if !crate::text::str_is_empty(name.as_str()) {
            return Some(name);
        }
    }
    None
}

/// The file name a URL ends with: the last segment of its path, when it
/// holds a dot, percent-decoded.
pub open spec fn url_filename(url: Seq<char>) -> Option<Seq<char>> {
    match url_path(url) {
        Some(p) => {
            let last = split(p, "/"@).last();
            if last.len() == 0 || !last.contains('.') {
                None
            } else {
                match url_decoded(last) {
                    Ok(d) => Some(d),
                    Err(_) => None,
                }
            }
        },
        None => None,
    }
}

/// The file name a URL ends with, if any.
pub fn extract_filename_from_url(url: &str) -> (r: Option<String>)
    ensures
        match r {
            Some(f) => url_filename(url@) == Some(f@),
            None => url_filename(url@) is None,
        },
{
    let path = match path_of_url(url) {
        Some(p) => p,
        None => return None,
    };
    let segments = str_split(path.as_str(), "/");
    proof { crate::text::lemma_split_nonempty(path@, "/"@); }
    let last = &segments[segments.len() - 1];
    if crate::text::str_is_empty(last.as_str()) || !str_has_char(last.as_str(), '.') {
        return None;
    }
    match decode(last.as_str()) {
        Ok(d) => Some(d),
        Err(_) => None,
    }
}

/// The index of the last `c` in `s`, or -1.
pub open spec fn last_index_of(s: Seq<char>, c: char) -> int
    decreases s.len(),
{
    if s.len() == 0 {
        -1
    } else if s.last() == c {
        s.len() - 1
    } else {
        last_index_of(s.drop_last(), c)
    }
}

/// A file name split as `Path::file_stem` and `Path::extension` split it: at
/// the last dot, unless that dot starts the name. A name that is empty or
/// `..` has no stem and counts as `download`.
pub open spec fn stem_and_extension(n: Seq<char>) -> (Seq<char>, Seq<char>) {
    if n.len() == 0 || n == ".."@ {
        ("download"@, Seq::empty())
    } else {
        let i = last_index_of(n, '.');
        if i <= 0 { (n, Seq::empty()) } else { (n.take(i), n.skip(i + 1)) }
    }
}

/// The `c`-th alternative name for a taken file: `stem (c).ext`.
pub open spec fn numbered_name(stem: Seq<char>, ext: Seq<char>, c: nat) -> Seq<char> {
    stem + " ("@ + dec_of(c) + ")"@ + (if ext.len() == 0 { Seq::<char>::empty() } else { "."@ + ext })
}

proof fn lemma_dec_len(n: nat)
    ensures
        dec_of(n).len() >= 1,
        n < 10 ==> dec_of(n).len() == 1,
        n >= 10 ==> dec_of(n).len() >= 2,
    decreases n,
{
    if n >= 10 {
        lemma_dec_len(n / 10);
    }
}

proof fn lemma_digit_injective(a: nat, b: nat)
    requires
        a < 10,
        b < 10,
        dec_digit(a) == dec_digit(b),
    ensures
        a == b,
{
    assert(dec_digit(a) as u32 == (a + 48) as u32);
    assert(dec_digit(b) as u32 == (b + 48) as u32);
    assert((a + 48) as u32 == a + 48);
    assert((b + 48) as u32 == b + 48);
}

proof fn lemma_dec_injective(n: nat, m: nat)
    requires
        dec_of(n) == dec_of(m),
    ensures
        n == m,
    decreases n,
{
    lemma_dec_len(n);
    lemma_dec_len(m);
    if n < 10 && m < 10 {
        let dn = dec_digit(n);
        let dm = dec_digit(m);
        assert(dec_of(n) == seq![dn]);
        assert(dec_of(m) == seq![dm]);
        assert(seq![dn][0] == dn);
        assert(seq![dm][0] == dm);
        lemma_digit_injective(n, m);
    } else if n >= 10 && m >= 10 {
        assert(dec_of(n).last() == dec_digit(n % 10));
        assert(dec_of(m).last() == dec_digit(m % 10));
        lemma_digit_injective(n % 10, m % 10);
        assert(dec_of(n).drop_last() =~= dec_of(n / 10));
        assert(dec_of(m).drop_last() =~= dec_of(m / 10));
        lemma_dec_injective(n / 10, m / 10);
    }
}

proof fn lemma_numbered_injective(stem: Seq<char>, ext: Seq<char>, a: nat, b: nat)
    requires
        numbered_name(stem, ext, a) == numbered_name(stem, ext, b),
    ensures
        a == b,
{
    reveal_strlit(" (");
    reveal_strlit(")");
    let na = numbered_name(stem, ext, a);
    let nb = numbered_name(stem, ext, b);
    let lo: int = stem.len() as int + 2;
    let tail: Seq<char> = if ext.len() == 0 { Seq::<char>::empty() } else { "."@ + ext };
    assert(na.len() == stem.len() + 2 + dec_of(a).len() + 1 + tail.len());
    assert(nb.len() == stem.len() + 2 + dec_of(b).len() + 1 + tail.len());
    assert(dec_of(a).len() == dec_of(b).len());
    assert(na.subrange(lo, lo + dec_of(a).len()) =~= dec_of(a));
    assert(nb.subrange(lo, lo + dec_of(b).len()) =~= dec_of(b));
    lemma_dec_injective(a, b);
}

/// While every numbered name up to `c` is taken, `c` is at most one more
/// than the number of taken names.
proof fn lemma_taken_bound(stem: Seq<char>, ext: Seq<char>, taken: Seq<Seq<char>>, c: int)
    requires
        c >= 1,
        forall|d: int| 1 <= d < c ==> taken.contains(#[trigger] numbered_name(stem, ext, d as nat)),
    ensures
        c - 1 <= taken.len(),
{
    let x = vstd::set_lib::set_int_range(1, c);
    vstd::set_lib::lemma_int_range(1, c);
    let f = |d: int| numbered_name(stem, ext, d as nat);
    assert(vstd::relations::injective_on(f, x)) by {
        assert forall|a: int, b: int| x.contains(a) && x.contains(b) && #[trigger] f(a) == #[trigger] f(b) implies a == b by {
            lemma_numbered_injective(stem, ext, a as nat, b as nat);
        }
    }
    let y = x.map(f);
    vstd::set_lib::lemma_map_size(x, y, f);
    assert(y.subset_of(taken.to_set())) by {
        assert forall|s: Seq<char>| y.contains(s) implies taken.to_set().contains(s) by {
            let d = choose|d: int| x.contains(d) && f(d) == s;
            assert(taken.contains(numbered_name(stem, ext, d as nat)));
        }
    }
    taken.lemma_cardinality_of_set();
    vstd::set_lib::lemma_len_subset(y, taken.to_set());
}

/// Whether `n` is among `names`.
fn has_name(names: &[String], n: &str) -> (b: bool)
    ensures
        b == views(names@).contains(n@),
{
    let mut i: usize = 0;
    while i < names.len()
        invariant
            i <= names.len(),
            forall|j: int| 0 <= j < i ==> names@[j]@ != n@,
        decreases names.len() - i,
    {
        if str_eq(names[i].as_str(), n) {
            assert(views(names@)[i as int] == n@);
            return true;
        }
        i = i + 1;
    }
    assert forall|j: int| 0 <= j < views(names@).len() implies views(names@)[j] != n@ by {
        assert(views(names@)[j] == names@[j]@);
    }
    false
}

/// The stem and extension of a file name.
pub fn split_file_name(name: &str) -> (r: (String, String))
    ensures
        (r.0@, r.1@) == stem_and_extension(name@),
{
    let v = chars_of(name);
    if v.len() == 0 || str_eq(name, "..") {
        return ("download".to_string(), String::new());
    }
    let mut i = v.len();
    assert(v@.take(i as int) =~= v@);
    while i > 0 && v[i - 1] != '.'
        invariant
            i <= v.len(),
            v@ == name@,
            last_index_of(name@, '.') == last_index_of(v@.take(i as int), '.'),
        decreases i,
    {
        assert(v@.take(i as int).drop_last() =~= v@.take(i - 1));
        i = i - 1;
    }
    if i == 0 {
        assert(v@.take(0) =~= Seq::<char>::empty());
    } else {
        assert(v@.take(i as int).last() == '.');
    }
    if i <= 1 {
        (name.to_string(), String::new())
    } else {
        let stem = crate::text::string_from_chars(crate::text::slice_to_vec(v.as_slice(), 0, i - 1));
        let ext = crate::text::string_from_chars(crate::text::slice_to_vec(v.as_slice(), i, v.len()));
        (stem, ext)
    }
}

/// The `c`-th alternative name for a taken file.
fn numbered(stem: &str, ext: &str, c: u128) -> (r: String)
    ensures
        r@ == numbered_name(stem@, ext@, c as nat),
{
    let num = to_decimal(c);
    let head = concat3(stem, " (", num.as_str());
    let head = concat(head.as_str(), ")");
    if crate::text::str_is_empty(ext) {
        assert(head@ + Seq::<char>::empty() =~= head@);
        head
    } else {
        let tail = concat(".", ext);
        concat(head.as_str(), tail.as_str())
    }
}

/// A free name for a file to be saved beside files named `taken`: the name
/// itself when free, else `stem (c).ext` for the least `c >= 1` that is free.
pub fn ensure_unique_path(name: &str, taken: &[String]) -> (r: String)
    ensures
        !views(taken@).contains(name@) ==> r@ == name@,
        views(taken@).contains(name@) ==> exists|c: nat| {
            &&& c >= 1
            &&& r@ == #[trigger] numbered_name(stem_and_extension(name@).0, stem_and_extension(name@).1, c)
            &&& !views(taken@).contains(r@)
            &&& forall|d: nat| 1 <= d < c ==> views(taken@).contains(
                #[trigger] numbered_name(stem_and_extension(name@).0, stem_and_extension(name@).1, d))
        },
{
    if !has_name(taken, name) {
        return name.to_string();
    }
    let (stem, ext) = split_file_name(name);
    let ghost tv = views(taken@);
    let mut c: u128 = 1;
    loop
        invariant
            c >= 1,
            c <= taken.len() + 1,
            tv == views(taken@),
            tv.contains(name@),
            tv.len() == taken@.len(),
            (stem@, ext@) == stem_and_extension(name@),
            forall|d: nat| 1 <= d < c ==> tv.contains(#[trigger] numbered_name(stem@, ext@, d)),
        decreases taken.len() + 1 - c,
    {
        let candidate = numbered(stem.as_str(), ext.as_str(), c);
        if !has_name(taken, candidate.as_str()) {
            assert(numbered_name(stem_and_extension(name@).0, stem_and_extension(name@).1, c as nat) == candidate@);
            return candidate;
        }
        proof {
            assert forall|d: int| 1 <= d < c + 1 implies tv.contains(#[trigger] numbered_name(stem@, ext@, d as nat)) by {
                if d < c {
                    assert(tv.contains(numbered_name(stem@, ext@, d as nat)));
                }
            }
            lemma_taken_bound(stem@, ext@, tv, c + 1);
        }
        c = c + 1;
    }
}

} // verus!
