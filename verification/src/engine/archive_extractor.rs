//! Archive naming rules: which format a file is by its name, whether it is
//! one volume of a multi-part set, and which sibling files belong to that set.
//! Reading directories and unpacking archives happen in the application.
use vstd::prelude::*;
use crate::text::{
    has_prefix, has_suffix, contains, index_of, trim_end_by, trim_suffixes, chars_of,
    str_ends_with, str_contains, str_eq, find, matches_at, strip_suffixes, string_from_chars,
    slice_to_vec, concat, views,
};
use crate::unicode::{lowercase, to_lower, ascii_digit, is_ascii_digit};
use crate::engine::natord::{sort_naturally, naturally_sorted};

verus! {

/// Archive format types.
#[derive(Debug, Clone, Copy, PartialEq, Eq, Structural)]
pub enum ArchiveFormat {
    SevenZip,
    Rar,
    Zip,
    Unknown,
}

/// Multi-part archive naming schemes.
#[derive(Debug, Clone, Copy, PartialEq, Eq, Structural)]
pub enum MultiPartPattern {
    /// `.part1.rar`, `.part2.rar`
    RarPart,
    /// `.rar`, `.r00`, `.r01`
    RarVolume,
    /// `.7z.001`, `.7z.002`
    SevenZipPart,
    /// `.zip.001`, `.z01`
    ZipSplit,
    /// Not part of a multi-part set.
    Single,
}

/// Extraction progress event.
#[derive(Debug, Clone)]
pub struct ExtractionProgress {
    pub game_id: String,
    pub current_file: String,
    pub files_done: u32,
    pub files_total: u32,
    pub bytes_done: u64,
    pub bytes_total: u64,
    pub current_archive: u32,
    pub total_archives: u32,
}

/// Extraction result.
#[derive(Debug, Clone)]
pub struct ExtractionResult {
    pub success: bool,
    pub files_extracted: u32,
    pub total_size: u64,
    pub destination: String,
    pub error: Option<String>,
}

/// Extraction error types.
#[derive(Debug)]
pub enum ExtractionError {
    UnsupportedFormat(String),
    PasswordRequired,
    WrongPassword,
    CorruptedArchive(String),
    IoError(String),
    MultiPartMissing(String),
}

/// The text an extraction error is shown as.
pub open spec fn error_text(e: ExtractionError) -> Seq<char> {
    match e {
        ExtractionError::UnsupportedFormat(s) => "Unsupported format: "@ + s@,
        ExtractionError::PasswordRequired => "Password required"@,
        ExtractionError::WrongPassword => "Wrong password"@,
        ExtractionError::CorruptedArchive(s) => "Corrupted archive: "@ + s@,
        ExtractionError::IoError(s) => "IO error: "@ + s@,
        ExtractionError::MultiPartMissing(s) => "Missing part: "@ + s@,
    }
}

impl ExtractionError {
    /// The error as text.
    pub fn message(&self) -> (r: String)
        ensures
            r@ == error_text(*self),
    {
        match self {
            ExtractionError::UnsupportedFormat(s) => concat("Unsupported format: ", s.as_str()),
            ExtractionError::PasswordRequired => "Password required".to_string(),
            ExtractionError::WrongPassword => "Wrong password".to_string(),
            ExtractionError::CorruptedArchive(s) => concat("Corrupted archive: ", s.as_str()),
            ExtractionError::IoError(s) => concat("IO error: ", s.as_str()),
            ExtractionError::MultiPartMissing(s) => concat("Missing part: ", s.as_str()),
        }
    }
}

/// The format a lower-cased file name announces.
pub open spec fn format_of(l: Seq<char>) -> ArchiveFormat {
    if has_suffix(l, ".7z"@) || contains(l, ".7z."@) {
        ArchiveFormat::SevenZip
    } else if has_suffix(l, ".rar"@) || (contains(l, ".part"@) && contains(l, ".rar"@)) {
        ArchiveFormat::Rar
    } else if has_suffix(l, ".r00"@) || has_suffix(l, ".r01"@) {
        ArchiveFormat::Rar
    } else if has_suffix(l, ".zip"@) || contains(l, ".zip."@) || has_suffix(l, ".z01"@) {
        ArchiveFormat::Zip
    } else {
        ArchiveFormat::Unknown
    }
}

/// The multi-part scheme a lower-cased file name follows.
pub open spec fn pattern_of(l: Seq<char>) -> MultiPartPattern {
    if contains(l, ".part"@) && has_suffix(l, ".rar"@) {
        MultiPartPattern::RarPart
    } else if has_suffix(l, ".r00"@) || has_suffix(l, ".r01"@) {
        MultiPartPattern::RarVolume
    } else if contains(l, ".7z."@) && l.len() > 0 && ascii_digit(l.last()) {
        MultiPartPattern::SevenZipPart
    } else if contains(l, ".zip."@) || has_suffix(l, ".z01"@) || has_suffix(l, ".z02"@) {
        MultiPartPattern::ZipSplit
    } else {
        MultiPartPattern::Single
    }
}

/// Characters stripped from the end of a `.rar`/`.rNN` name to get its set's base.
pub open spec fn volume_char(c: char) -> bool {
    c == '.' || ascii_digit(c) || c == 'r'
}

/// Characters stripped from the end of a split zip name before its extension.
pub open spec fn split_char(c: char) -> bool {
    ascii_digit(c) || c == '.'
}

/// `f` cut before position `n` (the whole of `f` when it is shorter).
pub open spec fn cut(f: Seq<char>, n: int) -> Seq<char> {
    if n <= f.len() { f.take(n) } else { f }
}

/// The prefix that every other part of the set of `f` starts with: lower-cased
/// for the schemes that compare without case, as written for `.7z.NNN`.
/// `None` when `f` is no part of a multi-part set.
pub open spec fn part_key(f: Seq<char>) -> Option<Seq<char>> {
    let l = lowercase(f);
    match pattern_of(l) {
        MultiPartPattern::RarPart => if contains(l, ".part"@) {
            Some(lowercase(cut(f, index_of(l, ".part"@))))
        } else {
            None
        },
        MultiPartPattern::RarVolume => Some(lowercase(trim_end_by(f, |c: char| volume_char(c)))),
        MultiPartPattern::SevenZipPart => if contains(l, ".7z."@) {
            Some(cut(f, index_of(l, ".7z."@) + 3))
        } else {
            None
        },
        MultiPartPattern::ZipSplit => Some(
            lowercase(trim_suffixes(trim_suffixes(trim_end_by(f, |c: char| split_char(c)), ".zip"@), ".z"@)),
        ),
        MultiPartPattern::Single => None,
    }
}

/// The last (up to) three characters of `s` are all volume characters.
pub open spec fn volume_tail(s: Seq<char>) -> bool {
    forall|i: int| s.len() - 3 <= i < s.len() && 0 <= i ==> volume_char(#[trigger] s[i])
}

/// Whether entry name `e` passes the scheme's test against `key`.
pub open spec fn entry_passes(p: MultiPartPattern, key: Seq<char>, e: Seq<char>) -> bool {
    let le = lowercase(e);
    match p {
        MultiPartPattern::RarPart => has_prefix(le, key) && contains(le, ".part"@) && has_suffix(le, ".rar"@),
        MultiPartPattern::RarVolume => has_prefix(le, key) && (has_suffix(le, ".rar"@) || volume_tail(le)),
        MultiPartPattern::SevenZipPart => has_prefix(e, key),
        MultiPartPattern::ZipSplit => has_prefix(le, key),
        MultiPartPattern::Single => false,
    }
}

/// Whether the file named `e`, beside `f`, is another part of the set of `f`.
pub open spec fn is_part_of(f: Seq<char>, e: Seq<char>) -> bool {
    e != f && match part_key(f) {
        Some(key) => entry_passes(pattern_of(lowercase(f)), key, e),
        None => false,
    }
}

proof fn lemma_trim_end_step(s: Seq<char>, n: int, pred: spec_fn(char) -> bool)
    requires
        0 < n <= s.len(),
        pred(s[n - 1]),
    ensures
        trim_end_by(s.take(n), pred) == trim_end_by(s.take(n - 1), pred),
{
    assert(s.take(n).drop_last() =~= s.take(n - 1));
}

/// The length of `s` once trailing volume characters are removed.
fn trim_volume_chars(s: &[char]) -> (r: usize)
    ensures
        r <= s.len(),
        trim_end_by(s@, |c: char| volume_char(c)) == s@.take(r as int),
{
    let ghost pred = |c: char| volume_char(c);
    let mut n = s.len();
    assert(s@.take(n as int) =~= s@);
    while n > 0 && (s[n - 1] == '.' || is_ascii_digit(s[n - 1]) || s[n - 1] == 'r')
        invariant
            n <= s.len(),
            pred == (|c: char| volume_char(c)),
            trim_end_by(s@, pred) == trim_end_by(s@.take(n as int), pred),
        decreases n,
    {
        proof { lemma_trim_end_step(s@, n as int, pred); }
        n = n - 1;
    }
    n
}

/// The length of `s` once trailing digits and dots are removed.
fn trim_split_chars(s: &[char]) -> (r: usize)
    ensures
        r <= s.len(),
        trim_end_by(s@, |c: char| split_char(c)) == s@.take(r as int),
{
    let ghost pred = |c: char| split_char(c);
    let mut n = s.len();
    assert(s@.take(n as int) =~= s@);
    while n > 0 && (is_ascii_digit(s[n - 1]) || s[n - 1] == '.')
        invariant
            n <= s.len(),
            pred == (|c: char| split_char(c)),
            trim_end_by(s@, pred) == trim_end_by(s@.take(n as int), pred),
        decreases n,
    {
        proof { lemma_trim_end_step(s@, n as int, pred); }
        n = n - 1;
    }
    n
}

/// The first `n` characters of `s` as a string (all of it when shorter).
fn cut_string(s: &[char], n: usize) -> (r: String)
    ensures
        r@ == cut(s@, n as int),
{
    if n <= s.len() {
        string_from_chars(slice_to_vec(s, 0, n))
    } else {
        proof { assert(s@.subrange(0, s@.len() as int) =~= s@); }
        string_from_chars(slice_to_vec(s, 0, s.len()))
    }
}

/// Whether the last (up to) three characters of `s` are volume characters.
fn has_volume_tail(s: &[char]) -> (b: bool)
    ensures
        b == volume_tail(s@),
{
    let lo: usize = if s.len() >= 3 { s.len() - 3 } else { 0 };
    let mut i = lo;
    while i < s.len()
        invariant
            lo <= i <= s.len(),
            lo == (if s.len() >= 3 { s.len() - 3 } else { 0 }),
            forall|j: int| lo <= j < i ==> volume_char(#[trigger] s@[j]),
        decreases s.len() - i,
    {
        if !(s[i] == '.' || is_ascii_digit(s[i]) || s[i] == 'r') {
            return false;
        }
        i = i + 1;
    }
    true
}

/// Unit type that owns the naming rules of archives.
pub struct ArchiveExtractor {}

impl ArchiveExtractor {
    /// The archive format a file name announces, without regard to case.
    pub fn detect_format(file_name: &str) -> (r: ArchiveFormat)
        ensures
            r == format_of(lowercase(file_name@)),
    {
        let lower = to_lower(file_name);
        let l = lower.as_str();
        if str_ends_with(l, ".7z") || str_contains(l, ".7z.") {
            ArchiveFormat::SevenZip
        } else if str_ends_with(l, ".rar") || (str_contains(l, ".part") && str_contains(l, ".rar")) {
            ArchiveFormat::Rar
        } else if str_ends_with(l, ".r00") || str_ends_with(l, ".r01") {
            ArchiveFormat::Rar
        } else if str_ends_with(l, ".zip") || str_contains(l, ".zip.") || str_ends_with(l, ".z01") {
            ArchiveFormat::Zip
        } else {
            ArchiveFormat::Unknown
        }
    }

    /// The multi-part scheme a file name follows, without regard to case.
    pub fn detect_multi_part_pattern(filename: &str) -> (r: MultiPartPattern)
        ensures
            r == pattern_of(lowercase(filename@)),
    {
        let lower = to_lower(filename);
        let l = lower.as_str();
        let lv = chars_of(l);
        if str_contains(l, ".part") && str_ends_with(l, ".rar") {
            MultiPartPattern::RarPart
        } else if str_ends_with(l, ".r00") || str_ends_with(l, ".r01") {
            MultiPartPattern::RarVolume
        } else if str_contains(l, ".7z.") && lv.len() > 0 && is_ascii_digit(lv[lv.len() - 1]) {
            MultiPartPattern::SevenZipPart
        } else if str_contains(l, ".zip.") || str_ends_with(l, ".z01") || str_ends_with(l, ".z02") {
            MultiPartPattern::ZipSplit
        } else {
            MultiPartPattern::Single
        }
    }

    /// Whether a file name is one part of a multi-part archive.
    pub fn is_multi_part(filename: &str) -> (b: bool)
        ensures
            b == (pattern_of(lowercase(filename@)) != MultiPartPattern::Single),
    {
        let p = Self::detect_multi_part_pattern(filename);
        !matches!(p, MultiPartPattern::Single)
    }

    /// The key every other part of the set of `first` starts with.
    fn part_key_of(first: &str) -> (r: Option<String>)
        ensures
            match r {
                Some(k) => part_key(first@) == Some(k@),
                None => part_key(first@) is None,
            },
    {
        let fv = chars_of(first);
        let lower = to_lower(first);
        let lv = chars_of(lower.as_str());
        let pattern = Self::detect_multi_part_pattern(first);
        match pattern {
            MultiPartPattern::RarPart => {
                let pat = chars_of(".part");
                match find(lv.as_slice(), pat.as_slice()) {
                    Some(b) => {
                        proof { crate::text::lemma_first_occurrence_is_index_of(lv@, pat@, b as int); }
                        let base = cut_string(fv.as_slice(), b);
                        Some(to_lower(base.as_str()))
                    },
                    None => None,
                }
            },
            MultiPartPattern::RarVolume => {
                let n = trim_volume_chars(fv.as_slice());
                let base = string_from_chars(slice_to_vec(fv.as_slice(), 0, n));
                Some(to_lower(base.as_str()))
            },
            MultiPartPattern::SevenZipPart => {
                let pat = chars_of(".7z.");
                match find(lv.as_slice(), pat.as_slice()) {
                    Some(b) => {
                        proof { crate::text::lemma_first_occurrence_is_index_of(lv@, pat@, b as int); }
                        proof { reveal_strlit(".7z."); }
                        assert(b + 4 <= lv.len());
                        Some(cut_string(fv.as_slice(), b + 3))
                    },
                    None => None,
                }
            },
            MultiPartPattern::ZipSplit => {
                let n1 = trim_split_chars(fv.as_slice());
                let zip = chars_of(".zip");
                let n2 = strip_suffixes(fv.as_slice(), n1, zip.as_slice());
                let z = chars_of(".z");
                let n3 = strip_suffixes(fv.as_slice(), n2, z.as_slice());
                proof {
                    assert(fv@.take(n1 as int) == trim_end_by(fv@, |c: char| split_char(c)));
                }
                let base = string_from_chars(slice_to_vec(fv.as_slice(), 0, n3));
                Some(to_lower(base.as_str()))
            },
            MultiPartPattern::Single => None,
        }
    }

    /// Whether `entry` passes the scheme's test against `key`.
    fn entry_passes_test(p: MultiPartPattern, key: &str, entry: &str) -> (b: bool)
        ensures
            b == entry_passes(p, key@, entry@),
    {
        let lower = to_lower(entry);
        let le = lower.as_str();
        let kv = chars_of(key);
        match p {
            MultiPartPattern::RarPart => {
                crate::text::str_starts_with(le, key) && str_contains(le, ".part") && str_ends_with(le, ".rar")
            },
            MultiPartPattern::RarVolume => {
                let lv = chars_of(le);
                crate::text::str_starts_with(le, key) && (str_ends_with(le, ".rar") || has_volume_tail(lv.as_slice()))
            },
            MultiPartPattern::SevenZipPart => crate::text::str_starts_with(entry, key),
            MultiPartPattern::ZipSplit => crate::text::str_starts_with(le, key),
            MultiPartPattern::Single => false,
        }
    }

    /// Every part of the multi-part set that `first` belongs to, among the
    /// names of the files beside it: `first` itself and each other entry that
    /// the set's naming scheme admits, in natural order.
    pub fn find_all_parts(first: String, entry_names: Vec<String>) -> (r: Vec<String>)
        ensures
            naturally_sorted(views(r@)),
            r@.to_multiset() == (seq![first] + entry_names@.filter(|e: String| is_part_of(first@, e@))).to_multiset(),
    {
        let ghost f = first@;
        let ghost pred = |e: String| is_part_of(f, e@);
        let key = Self::part_key_of(first.as_str());
        let pattern = Self::detect_multi_part_pattern(first.as_str());
        let mut parts: Vec<String> = Vec::new();
        let mut kept: Vec<String> = Vec::new();
        let n = entry_names.len();
        let mut i: usize = 0;
        assert(entry_names@.take(0) =~= Seq::<String>::empty());
        assert(entry_names@.take(0).filter(pred) =~= Seq::<String>::empty());
        while i < n
            invariant
                i <= n,
                n == entry_names@.len(),
                f == first@,
                pred == (|e: String| is_part_of(f, e@)),
                pattern == pattern_of(lowercase(f)),
                match key {
                    Some(k) => part_key(f) == Some(k@),
                    None => part_key(f) is None,
                },
                kept@ == entry_names@.take(i as int).filter(pred),
            decreases n - i,
        {
            let ghost pre = entry_names@.take(i as int);
            proof {
                assert(entry_names@.take(i + 1) =~= pre.push(entry_names@[i as int]));
                pre.lemma_filter_push(entry_names@[i as int], pred);
            }
            let e = &entry_names[i];
            let admitted = match &key {
                Some(k) => !str_eq(e.as_str(), first.as_str()) && Self::entry_passes_test(pattern, k.as_str(), e.as_str()),
                None => false,
            };
            assert(admitted == pred(entry_names@[i as int]));
            if admitted {
                kept.push(e.clone());
            }
            i = i + 1;
        }
        proof {
            assert(entry_names@.take(n as int) =~= entry_names@);
            assert(pred =~= (|e: String| is_part_of(first@, e@)));
        }
        let ghost first_v = first;
        parts.push(first);
        parts.append(&mut kept);
        assert(parts@ =~= seq![first_v] + entry_names@.filter(pred));
        sort_naturally(parts)
    }
}

/// A name ending in `p` has `p`'s last character last.
proof fn lemma_suffix_last(l: Seq<char>, p: Seq<char>)
    requires
        has_suffix(l, p),
        p.len() > 0,
    ensures
        l.len() > 0,
        l[l.len() - 1] == p[p.len() - 1],
{
    assert(l.subrange(l.len() - p.len(), l.len() as int)[p.len() - 1] == l[l.len() - 1]);
}

/// Archive formats follow the file name's extension (lower-cased): a `.7z`
/// name is 7-Zip; a `.rar` name (not of a `.7z.` split set) is RAR; a `.zip`
/// name (of neither kind) is ZIP; and a name without any archive extension
/// or part marker is unknown.
pub proof fn law_format_by_extension(l: Seq<char>)
    ensures
        has_suffix(l, ".7z"@) ==> format_of(l) == ArchiveFormat::SevenZip,
        has_suffix(l, ".rar"@) && !contains(l, ".7z."@) ==> format_of(l) == ArchiveFormat::Rar,
        has_suffix(l, ".r00"@) && !contains(l, ".7z."@) ==> format_of(l) == ArchiveFormat::Rar,
        has_suffix(l, ".zip"@) && !contains(l, ".7z."@) && !(contains(l, ".part"@) && contains(l, ".rar"@))
            ==> format_of(l) == ArchiveFormat::Zip,
        format_of(l) == ArchiveFormat::Unknown ==> !has_suffix(l, ".rar"@) && !has_suffix(l, ".zip"@)
            && !has_suffix(l, ".7z"@),
{
    reveal_strlit(".7z");
    reveal_strlit(".rar");
    reveal_strlit(".r00");
    reveal_strlit(".r01");
    reveal_strlit(".zip");
    if has_suffix(l, ".7z"@) {
        lemma_suffix_last(l, ".7z"@);
    }
    if has_suffix(l, ".rar"@) {
        lemma_suffix_last(l, ".rar"@);
    }
    if has_suffix(l, ".r00"@) {
        lemma_suffix_last(l, ".r00"@);
    }
    if has_suffix(l, ".r01"@) {
        lemma_suffix_last(l, ".r01"@);
    }
    if has_suffix(l, ".zip"@) {
        lemma_suffix_last(l, ".zip"@);
    }
}

/// A `.partN.rar` name belongs to a RAR part set, and a `.r00` name to a RAR
/// volume set; a plain name with no part marker of any kind is a single archive.
pub proof fn law_part_sets(l: Seq<char>)
    ensures
        contains(l, ".part"@) && has_suffix(l, ".rar"@) ==> pattern_of(l) == MultiPartPattern::RarPart,
        !contains(l, ".part"@) && has_suffix(l, ".r00"@) ==> pattern_of(l) == MultiPartPattern::RarVolume,
        !contains(l, ".part"@) && !contains(l, ".7z."@) && !contains(l, ".zip."@) && !has_suffix(l, ".r00"@)
            && !has_suffix(l, ".r01"@) && !has_suffix(l, ".z01"@) && !has_suffix(l, ".z02"@)
            ==> pattern_of(l) == MultiPartPattern::Single,
{
}

} // verus!
