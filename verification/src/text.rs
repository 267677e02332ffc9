//! A small verified text toolkit: the string operations the rest of the
//! library is built from, each stated over the `Seq<char>` view of a string.
use vstd::prelude::*;
use vstd::string::StrSliceExecFns;

verus! {

// ---------------------------------------------------------------------------
// Specifications
// ---------------------------------------------------------------------------

/// `p` occurs in `s` starting at index `i`.
pub open spec fn occurs_at(s: Seq<char>, p: Seq<char>, i: int) -> bool {
    0 <= i && i + p.len() <= s.len() && s.subrange(i, i + p.len()) == p
}

/// `p` is a prefix of `s`.
pub open spec fn has_prefix(s: Seq<char>, p: Seq<char>) -> bool {
    occurs_at(s, p, 0)
}

/// `p` is a suffix of `s`.
pub open spec fn has_suffix(s: Seq<char>, p: Seq<char>) -> bool {
    p.len() <= s.len() && occurs_at(s, p, s.len() - p.len())
}

/// `p` occurs somewhere in `s` (the empty pattern occurs everywhere).
pub open spec fn contains(s: Seq<char>, p: Seq<char>) -> bool {
    exists|i: int| #[trigger] occurs_at(s, p, i)
}

/// `i` is the first index at which `p` occurs in `s`.
pub open spec fn is_first_occurrence(s: Seq<char>, p: Seq<char>, i: int) -> bool {
    occurs_at(s, p, i) && forall|j: int| 0 <= j < i ==> !#[trigger] occurs_at(s, p, j)
}

/// The string `s` with every non-overlapping occurrence of `p`, scanned from
/// the left, replaced by `r`. An empty pattern matches before every character
/// and at the end.
pub open spec fn replace_all(s: Seq<char>, p: Seq<char>, r: Seq<char>) -> Seq<char>
    decreases s.len(),
{
    if s.len() == 0 {
        if p.len() == 0 { r } else { Seq::empty() }
    } else if p.len() > 0 && has_prefix(s, p) {
        r + replace_all(s.skip(p.len() as int), p, r)
    } else if p.len() == 0 {
        r + seq![s[0]] + replace_all(s.drop_first(), p, r)
    } else {
        seq![s[0]] + replace_all(s.drop_first(), p, r)
    }
}


/// Characters with the Unicode `White_Space` property (what `char::is_whitespace`
/// and hence `str::trim` and `str::split_whitespace` use).
pub open spec fn is_ws(c: char) -> bool {
    ||| c == ' '
    ||| c == '\t'
    ||| c == '\n'
    ||| c == '\u{0B}'
    ||| c == '\u{0C}'
    ||| c == '\r'
    ||| c == '\u{85}'
    ||| c == '\u{A0}'
    ||| c == '\u{1680}'
    ||| ('\u{2000}' <= c && c <= '\u{200A}')
    ||| c == '\u{2028}'
    ||| c == '\u{2029}'
    ||| c == '\u{202F}'
    ||| c == '\u{205F}'
    ||| c == '\u{3000}'
}

/// `s` without its leading white space.
pub open spec fn trim_start(s: Seq<char>) -> Seq<char>
    decreases s.len(),
{
    if s.len() > 0 && is_ws(s[0]) { trim_start(s.drop_first()) } else { s }
}

/// `s` without its trailing white space.
pub open spec fn trim_end(s: Seq<char>) -> Seq<char>
    decreases s.len(),
{
    if s.len() > 0 && is_ws(s.last()) { trim_end(s.drop_last()) } else { s }
}

/// `s` without leading and trailing white space.
pub open spec fn trim(s: Seq<char>) -> Seq<char> {
    trim_end(trim_start(s))
}

/// The white-space separated words of `s`, where `cur` is the word being read.
pub open spec fn words_from(s: Seq<char>, cur: Seq<char>) -> Seq<Seq<char>>
    decreases s.len(),
{
    if s.len() == 0 {
        if cur.len() == 0 { Seq::empty() } else { seq![cur] }
    } else if is_ws(s[0]) {
        (if cur.len() == 0 { Seq::empty() } else { seq![cur] }) + words_from(s.drop_first(), Seq::empty())
    } else {
        words_from(s.drop_first(), cur.push(s[0]))
    }
}

/// The maximal runs of non-white-space characters of `s` (`str::split_whitespace`).
pub open spec fn words(s: Seq<char>) -> Seq<Seq<char>> {
    words_from(s, Seq::empty())
}

/// The pieces of `s` between the non-overlapping occurrences of the non-empty
/// separator `sep`, where `cur` is the piece being read.
pub open spec fn split_from(s: Seq<char>, sep: Seq<char>, cur: Seq<char>) -> Seq<Seq<char>>
    decreases s.len(),
{
    if s.len() == 0 {
        seq![cur]
    } else if sep.len() > 0 && has_prefix(s, sep) {
        seq![cur] + split_from(s.skip(sep.len() as int), sep, Seq::empty())
    } else {
        split_from(s.drop_first(), sep, cur.push(s[0]))
    }
}

/// The single characters of `s`, each as a string.
pub open spec fn singles(s: Seq<char>) -> Seq<Seq<char>> {
    Seq::new(s.len(), |i: int| seq![s[i]])
}

/// `str::split` with a string separator: an empty separator yields an empty
/// piece, every character, and an empty piece.
pub open spec fn split(s: Seq<char>, sep: Seq<char>) -> Seq<Seq<char>> {
    if sep.len() == 0 {
        seq![Seq::<char>::empty()] + singles(s) + seq![Seq::<char>::empty()]
    } else {
        split_from(s, sep, Seq::empty())
    }
}

/// The parts joined with `sep` between consecutive parts.
pub open spec fn join(parts: Seq<Seq<char>>, sep: Seq<char>) -> Seq<char>
    decreases parts.len(),
{
    if parts.len() == 0 {
        Seq::empty()
    } else if parts.len() == 1 {
        parts[0]
    } else {
        join(parts.drop_last(), sep) + sep + parts.last()
    }
}

/// The views of a sequence of strings.
pub open spec fn views(v: Seq<String>) -> Seq<Seq<char>> {
    v.map_values(|s: String| s@)
}

// ---------------------------------------------------------------------------
// Conversions between strings and character vectors
// ---------------------------------------------------------------------------

/// The characters of a string, in order.
pub fn chars_of(s: &str) -> (r: Vec<char>)
    ensures
        r@ == s@,
{
    let mut r: Vec<char> = Vec::new();
    for c in it: s.chars()
        invariant
            r@ == it.seq().take(it.index() as int),
            it.seq() == s@,
    {
        r.push(c);
    }
    r
}

/// Wraps `String::from_iter`: the string made of the given characters, in order.
#[verifier::external_body]
pub fn string_from_chars(v: Vec<char>) -> (s: String)
    ensures
        s@ == v@,
{
    String::from_iter(v)
}

/// Appends every element of `r` to `out`.
pub fn push_all(out: &mut Vec<char>, r: &[char])
    ensures
        final(out)@ == old(out)@ + r@,
{
    let ghost start = out@;
    let mut k: usize = 0;
    while k < r.len()
        invariant
            0 <= k <= r.len(),
            out@ == start + r@.take(k as int),
        decreases r.len() - k,
    {
        out.push(r[k]);
        k = k + 1;
        assert(r@.take(k as int) == r@.take(k - 1).push(r@[k - 1]));
    }
    assert(r@.take(r.len() as int) == r@);
}

// ---------------------------------------------------------------------------
// Searching
// ---------------------------------------------------------------------------

/// Whether `p` occurs in `s` at index `i`.
pub fn matches_at(s: &[char], p: &[char], i: usize) -> (b: bool)
    ensures
        b == occurs_at(s@, p@, i as int),
{
    if i > s.len() || p.len() > s.len() - i {
        return false;
    }
    let mut k: usize = 0;
    while k < p.len()
        invariant
            0 <= k <= p.len(),
            i + p.len() <= s.len(),
            forall|j: int| 0 <= j < k ==> s@[i + j] == p@[j],
        decreases p.len() - k,
    {
        if s[i + k] != p[k] {
            assert(s@.subrange(i as int, i + p.len())[k as int] != p@[k as int]);
            return false;
        }
        k = k + 1;
    }
    assert(s@.subrange(i as int, i + p.len()) =~= p@);
    true
}

/// The first index at or after `from` where `p` occurs in `s`.
pub fn find_from(s: &[char], p: &[char], from: usize) -> (r: Option<usize>)
    ensures
        match r {
            Some(i) => from <= i && occurs_at(s@, p@, i as int)
                && forall|j: int| from <= j < i ==> !#[trigger] occurs_at(s@, p@, j),
            None => forall|j: int| from <= j ==> !#[trigger] occurs_at(s@, p@, j),
        },
{
    if p.len() > s.len() {
        return None;
    }
    let last = s.len() - p.len();
    if from > last {
        return None;
    }
    let mut i = from;
    loop
        invariant
            from <= i <= last,
            last + p.len() == s.len(),
            forall|j: int| from <= j < i ==> !#[trigger] occurs_at(s@, p@, j),
        decreases last - i,
    {
        if matches_at(s, p, i) {
            return Some(i);
        }
        if i == last {
            return None;
        }
        i = i + 1;
    }
}

/// The first index where `p` occurs in `s`.
pub fn find(s: &[char], p: &[char]) -> (r: Option<usize>)
    ensures
        match r {
            Some(i) => is_first_occurrence(s@, p@, i as int),
            None => !contains(s@, p@),
        },
{
    let r = find_from(s, p, 0);
    match r {
        Some(i) => {},
        None => {
            assert forall|j: int| !#[trigger] occurs_at(s@, p@, j) by {
                if j >= 0 {
                }
            }
        },
    }
    r
}

/// Wraps nothing: whether `p` occurs in `s`.
pub fn str_contains(s: &str, p: &str) -> (b: bool)
    ensures
        b == contains(s@, p@),
{
    let sv = chars_of(s);
    let pv = chars_of(p);
    find(sv.as_slice(), pv.as_slice()).is_some()
}

/// Whether `s` starts with `p`.
pub fn str_starts_with(s: &str, p: &str) -> (b: bool)
    ensures
        b == has_prefix(s@, p@),
{
    let sv = chars_of(s);
    let pv = chars_of(p);
    matches_at(sv.as_slice(), pv.as_slice(), 0)
}

/// Whether `s` ends with `p`.
pub fn str_ends_with(s: &str, p: &str) -> (b: bool)
    ensures
        b == has_suffix(s@, p@),
{
    let sv = chars_of(s);
    let pv = chars_of(p);
    if pv.len() > sv.len() {
        return false;
    }
    matches_at(sv.as_slice(), pv.as_slice(), sv.len() - pv.len())
}


/// Whether `c` is white space (`char::is_whitespace`).
pub fn is_whitespace(c: char) -> (b: bool)
    ensures
        b == is_ws(c),
{
    c == ' ' || c == '\t' || c == '\n' || c == '\u{0B}' || c == '\u{0C}' || c == '\r'
        || c == '\u{85}' || c == '\u{A0}' || c == '\u{1680}' || ('\u{2000}' <= c && c <= '\u{200A}')
        || c == '\u{2028}' || c == '\u{2029}' || c == '\u{202F}' || c == '\u{205F}' || c == '\u{3000}'
}

/// A copy of the characters `s[lo..hi]`.
pub fn slice_to_vec(s: &[char], lo: usize, hi: usize) -> (r: Vec<char>)
    requires
        lo <= hi <= s.len(),
    ensures
        r@ == s@.subrange(lo as int, hi as int),
{
    let mut r: Vec<char> = Vec::new();
    let mut k = lo;
    while k < hi
        invariant
            lo <= k <= hi <= s.len(),
            r@ == s@.subrange(lo as int, k as int),
        decreases hi - k,
    {
        r.push(s[k]);
        k = k + 1;
        assert(r@ =~= s@.subrange(lo as int, k as int));
    }
    r
}

proof fn lemma_trim_start_skip(s: Seq<char>, i: int)
    requires
        0 <= i <= s.len(),
        forall|j: int| 0 <= j < i ==> is_ws(s[j]),
    ensures
        trim_start(s) == trim_start(s.skip(i)),
    decreases i,
{
    if i > 0 {
        assert(s.drop_first().skip(i - 1) =~= s.skip(i));
        lemma_trim_start_skip(s.drop_first(), i - 1);
    } else {
        assert(s.skip(0) =~= s);
    }
}

proof fn lemma_trim_end_take(s: Seq<char>, k: int)
    requires
        0 <= k <= s.len(),
        forall|j: int| k <= j < s.len() ==> is_ws(s[j]),
    ensures
        trim_end(s) == trim_end(s.take(k)),
    decreases s.len() - k,
{
    if k < s.len() {
        assert(s.drop_last().take(k) =~= s.take(k));
        lemma_trim_end_take(s.drop_last(), k);
    } else {
        assert(s.take(k) =~= s);
    }
}

/// The bounds `(lo, hi)` with `trim(s) == s[lo..hi]`.
pub fn trim_bounds(s: &[char]) -> (r: (usize, usize))
    ensures
        r.0 <= r.1 <= s.len(),
        trim(s@) == s@.subrange(r.0 as int, r.1 as int),
{
    let mut lo: usize = 0;
    while lo < s.len() && is_whitespace(s[lo])
        invariant
            lo <= s.len(),
            forall|j: int| 0 <= j < lo ==> is_ws(s@[j]),
        decreases s.len() - lo,
    {
        lo = lo + 1;
    }
    proof {
        lemma_trim_start_skip(s@, lo as int);
    }
    let mut hi: usize = s.len();
    while hi > lo && is_whitespace(s[hi - 1])
        invariant
            lo <= hi <= s.len(),
            forall|j: int| hi <= j < s.len() ==> is_ws(s@[j]),
        decreases hi,
    {
        hi = hi - 1;
    }
    proof {
        let t = s@.skip(lo as int);
        assert(lo == s.len() || !is_ws(s@[lo as int]));
        assert(trim_start(t) == t);
        assert forall|j: int| hi - lo <= j < t.len() implies is_ws(t[j]) by {
            assert(t[j] == s@[lo + j]);
        }
        lemma_trim_end_take(t, hi - lo);
        let u = t.take(hi - lo);
        assert(u =~= s@.subrange(lo as int, hi as int));
        if hi > lo {
            assert(u.last() == s@[hi - 1]);
        }
        assert(trim_end(u) == u);
    }
    (lo, hi)
}

/// `str::trim`: `s` without leading and trailing white space.
pub fn str_trim(s: &str) -> (r: String)
    ensures
        r@ == trim(s@),
{
    let v = chars_of(s);
    let (lo, hi) = trim_bounds(v.as_slice());
    string_from_chars(slice_to_vec(v.as_slice(), lo, hi))
}

proof fn lemma_skip_drop_first(s: Seq<char>, i: int)
    requires
        0 <= i < s.len(),
    ensures
        s.skip(i).drop_first() == s.skip(i + 1),
        s.skip(i)[0] == s[i],
{
    assert(s.skip(i).drop_first() =~= s.skip(i + 1));
}

proof fn lemma_skip_skip(s: Seq<char>, i: int, n: int)
    requires
        0 <= i,
        0 <= n,
        i + n <= s.len(),
    ensures
        s.skip(i).skip(n) == s.skip(i + n),
{
    assert(s.skip(i).skip(n) =~= s.skip(i + n));
}

proof fn lemma_occurs_skip(s: Seq<char>, p: Seq<char>, i: int)
    requires
        0 <= i <= s.len(),
    ensures
        has_prefix(s.skip(i), p) == occurs_at(s, p, i),
{
    if i + p.len() <= s.len() {
        assert(s.skip(i).subrange(0, p.len() as int) =~= s.subrange(i, i + p.len()));
    }
}

/// `str::replace`: every non-overlapping occurrence of `p` replaced by `r`.
pub fn replace_chars(s: &[char], p: &[char], r: &[char]) -> (out: Vec<char>)
    ensures
        out@ == replace_all(s@, p@, r@),
{
    let mut out: Vec<char> = Vec::new();
    let mut i: usize = 0;
    assert(s@.skip(0) =~= s@);
    assert(out@ + replace_all(s@, p@, r@) =~= replace_all(s@, p@, r@));
    while i < s.len()
        invariant
            i <= s.len(),
            replace_all(s@, p@, r@) == out@ + replace_all(s@.skip(i as int), p@, r@),
        decreases s.len() - i,
    {
        let ghost rest = s@.skip(i as int);
        let ghost old_out = out@;
        proof {
            lemma_occurs_skip(s@, p@, i as int);
            lemma_skip_drop_first(s@, i as int);
        }
        if p.len() > 0 && matches_at(s, p, i) {
            push_all(&mut out, r);
            proof {
                lemma_skip_skip(s@, i as int, p.len() as int);
            }
            i = i + p.len();
            assert(out@ + replace_all(s@.skip(i as int), p@, r@) =~= old_out + replace_all(rest, p@, r@));
        } else if p.len() == 0 {
            push_all(&mut out, r);
            out.push(s[i]);
            i = i + 1;
            assert(out@ + replace_all(s@.skip(i as int), p@, r@) =~= old_out + replace_all(rest, p@, r@));
        } else {
            out.push(s[i]);
            i = i + 1;
            assert(out@ + replace_all(s@.skip(i as int), p@, r@) =~= old_out + replace_all(rest, p@, r@));
        }
    }
    assert(s@.skip(i as int) =~= Seq::<char>::empty());
    if p.len() == 0 {
        push_all(&mut out, r);
    }
    assert(out@ =~= replace_all(s@, p@, r@));
    out
}

/// `str::replace` on strings.
pub fn str_replace(s: &str, p: &str, r: &str) -> (out: String)
    ensures
        out@ == replace_all(s@, p@, r@),
{
    let sv = chars_of(s);
    let pv = chars_of(p);
    let rv = chars_of(r);
    string_from_chars(replace_chars(sv.as_slice(), pv.as_slice(), rv.as_slice()))
}

/// Concatenation of two strings.
pub fn concat(a: &str, b: &str) -> (r: String)
    ensures
        r@ == a@ + b@,
{
    let mut v = chars_of(a);
    let bv = chars_of(b);
    push_all(&mut v, bv.as_slice());
    string_from_chars(v)
}

/// Concatenation of three strings.
pub fn concat3(a: &str, b: &str, c: &str) -> (r: String)
    ensures
        r@ == a@ + b@ + c@,
{
    let ab = concat(a, b);
    concat(ab.as_str(), c)
}

pub proof fn lemma_views_push(v: Seq<String>, x: String)
    ensures
        views(v.push(x)) == views(v).push(x@),
{
    assert(views(v.push(x)) =~= views(v).push(x@));
}

/// `str::split_whitespace`: the maximal runs of non-white-space characters.
pub fn str_words(s: &str) -> (r: Vec<String>)
    ensures
        views(r@) == words(s@),
{
    let sv = chars_of(s);
    let mut out: Vec<String> = Vec::new();
    let mut cur: Vec<char> = Vec::new();
    let mut i: usize = 0;
    assert(sv@.skip(0) =~= sv@);
    assert(views(out@) =~= Seq::<Seq<char>>::empty());
    while i < sv.len()
        invariant
            i <= sv.len(),
            sv@ == s@,
            words(s@) == views(out@) + words_from(sv@.skip(i as int), cur@),
        decreases sv.len() - i,
    {
        let ghost rest = sv@.skip(i as int);
        let ghost old_out = views(out@);
        let ghost old_cur = cur@;
        proof {
            lemma_skip_drop_first(sv@, i as int);
        }
        let c = sv[i];
        if is_whitespace(c) {
            if cur.len() > 0 {
                let w = string_from_chars(cur);
                proof { lemma_views_push(out@, w); }
                out.push(w);
                cur = Vec::new();
                assert(words_from(rest, old_cur) == seq![old_cur] + words_from(sv@.skip(i + 1), Seq::empty()));
                assert(views(out@) == old_out.push(old_cur));
                assert(cur@ == Seq::<char>::empty());
                let ghost w2 = words_from(sv@.skip(i + 1), Seq::empty());
                assert(old_out.push(old_cur) + w2 =~= old_out + (seq![old_cur] + w2));
            } else {
                assert(old_cur =~= Seq::<char>::empty());
                assert(words_from(rest, old_cur) =~= words_from(sv@.skip(i + 1), Seq::empty()));
            }
        } else {
            cur.push(c);
        }
        i = i + 1;
    }
    assert(sv@.skip(i as int) =~= Seq::<char>::empty());
    if cur.len() > 0 {
        let ghost old_out = views(out@);
        let w = string_from_chars(cur);
        proof { lemma_views_push(out@, w); }
        out.push(w);
        assert(views(out@) =~= old_out + seq![w@]);
    } else {
        assert(views(out@) =~= views(out@) + Seq::<Seq<char>>::empty());
    }
    out
}

/// `str::split` with a string separator.
pub fn str_split(s: &str, sep: &str) -> (r: Vec<String>)
    ensures
        views(r@) == split(s@, sep@),
{
    let sv = chars_of(s);
    let pv = chars_of(sep);
    let mut out: Vec<String> = Vec::new();
    if pv.len() == 0 {
        let e = string_from_chars(Vec::new());
        proof { lemma_views_push(out@, e); }
        out.push(e);
        let mut i: usize = 0;
        while i < sv.len()
            invariant
                i <= sv.len(),
                sv@ == s@,
                views(out@) == seq![Seq::<char>::empty()] + singles(s@).take(i as int),
            decreases sv.len() - i,
        {
            let mut one: Vec<char> = Vec::new();
            one.push(sv[i]);
            let w = string_from_chars(one);
            proof { lemma_views_push(out@, w); }
            out.push(w);
            i = i + 1;
            assert(singles(s@).take(i as int) =~= singles(s@).take(i - 1).push(seq![s@[i - 1]]));
        }
        assert(singles(s@).take(i as int) =~= singles(s@));
        let e2 = string_from_chars(Vec::new());
        proof { lemma_views_push(out@, e2); }
        out.push(e2);
        return out;
    }
    let mut cur: Vec<char> = Vec::new();
    let mut i: usize = 0;
    assert(sv@.skip(0) =~= sv@);
    assert(views(out@) =~= Seq::<Seq<char>>::empty());
    while i < sv.len()
        invariant
            i <= sv.len(),
            sv@ == s@,
            pv@ == sep@,
            pv.len() > 0,
            split_from(s@, sep@, Seq::empty()) == views(out@) + split_from(sv@.skip(i as int), sep@, cur@),
        decreases sv.len() - i,
    {
        let ghost rest = sv@.skip(i as int);
        let ghost old_out = views(out@);
        let ghost old_cur = cur@;
        proof {
            lemma_skip_drop_first(sv@, i as int);
            lemma_occurs_skip(sv@, pv@, i as int);
        }
        if matches_at(sv.as_slice(), pv.as_slice(), i) {
            let w = string_from_chars(cur);
            proof {
                lemma_views_push(out@, w);
                lemma_skip_skip(sv@, i as int, pv.len() as int);
            }
            out.push(w);
            cur = Vec::new();
            i = i + pv.len();
            assert(views(out@) + split_from(sv@.skip(i as int), sep@, cur@) =~= old_out + split_from(rest, sep@, old_cur));
        } else {
            cur.push(sv[i]);
            i = i + 1;
        }
    }
    assert(sv@.skip(i as int) =~= Seq::<char>::empty());
    let ghost old_out = views(out@);
    let w = string_from_chars(cur);
    proof { lemma_views_push(out@, w); }
    out.push(w);
    assert(views(out@) =~= old_out + seq![w@]);
    out
}

/// `[T]::join` on strings: the parts with `sep` between consecutive parts.
pub fn str_join(parts: &[String], sep: &str) -> (r: String)
    ensures
        r@ == join(views(parts@), sep@),
{
    let sp = chars_of(sep);
    let mut out: Vec<char> = Vec::new();
    let mut i: usize = 0;
    while i < parts.len()
        invariant
            i <= parts.len(),
            sp@ == sep@,
            out@ == join(views(parts@).take(i as int), sep@),
        decreases parts.len() - i,
    {
        let ghost before = views(parts@).take(i as int);
        if i > 0 {
            push_all(&mut out, sp.as_slice());
        }
        let pc = chars_of(parts[i].as_str());
        push_all(&mut out, pc.as_slice());
        i = i + 1;
        proof {
            let now = views(parts@).take(i as int);
            assert(now.drop_last() =~= before);
            assert(now.last() == parts@[i - 1]@);
            if i == 1 {
                assert(out@ =~= join(now, sep@));
            }
        }
    }
    assert(views(parts@).take(i as int) =~= views(parts@));
    string_from_chars(out)
}

/// Whether two strings are equal.
pub fn str_eq(a: &str, b: &str) -> (r: bool)
    ensures
        r == (a@ == b@),
{
    let av = chars_of(a);
    let bv = chars_of(b);
    if av.len() != bv.len() {
        return false;
    }
    let m = matches_at(av.as_slice(), bv.as_slice(), 0);
    assert(av@.subrange(0, bv@.len() as int) =~= av@);
    m
}

/// `s` without its first `n` characters.
pub fn str_skip(s: &str, n: usize) -> (r: String)
    requires
        n <= s@.len(),
    ensures
        r@ == s@.skip(n as int),
{
    let v = chars_of(s);
    let out = slice_to_vec(v.as_slice(), n, v.len());
    assert(out@ =~= s@.skip(n as int));
    string_from_chars(out)
}

/// The characters of `s` before the first occurrence of `c`
/// (`s.split(c).next()`).
pub open spec fn before_char(s: Seq<char>, c: char) -> Seq<char>
    decreases s.len(),
{
    if s.len() == 0 {
        Seq::empty()
    } else if s[0] == c {
        Seq::empty()
    } else {
        seq![s[0]] + before_char(s.drop_first(), c)
    }
}

/// The characters of `s` before the first occurrence of `c`.
pub fn str_before_char(s: &str, c: char) -> (r: String)
    ensures
        r@ == before_char(s@, c),
{
    let v = chars_of(s);
    let mut i: usize = 0;
    proof {
        assert(v@.skip(0) =~= v@);
        assert(v@.take(0) + v@ =~= v@);
    }
    while i < v.len() && v[i] != c
        invariant
            i <= v.len(),
            v@ == s@,
            before_char(s@, c) == v@.take(i as int) + before_char(v@.skip(i as int), c),
        decreases v.len() - i,
    {
        proof {
            lemma_skip_drop_first(v@, i as int);
            assert(v@.take(i + 1) =~= v@.take(i as int).push(v@[i as int]));
        }
        i = i + 1;
    }
    proof {
        if i < v.len() {
            assert(v@.skip(i as int)[0] == c);
        }
        assert(v@.take(i as int) + Seq::<char>::empty() =~= v@.take(i as int));
    }
    let out = slice_to_vec(v.as_slice(), 0, i);
    assert(out@ =~= v@.take(i as int));
    string_from_chars(out)
}

/// A copy of an optional string.
pub fn clone_opt(o: &Option<String>) -> (r: Option<String>)
    ensures
        r == *o,
{
    match o {
        Some(s) => Some(s.clone()),
        None => None,
    }
}

/// The decimal digit of `d < 10`.
pub open spec fn dec_digit(d: nat) -> char {
    ((d + 48) as u32) as char
}

/// `n` in decimal without leading zeros (`{}` on an unsigned integer).
pub open spec fn dec_of(n: nat) -> Seq<char>
    decreases n,
{
    if n < 10 { seq![dec_digit(n)] } else { dec_of(n / 10).push(dec_digit(n % 10)) }
}

fn dec_char(d: u128) -> (c: char)
    requires
        d < 10,
    ensures
        c == dec_digit(d as nat),
{
    let table = ['0', '1', '2', '3', '4', '5', '6', '7', '8', '9'];
    let c = table[d as usize];
    assert(c == dec_digit(d as nat)) by {
        assert(('0' as u32) == 48);
    }
    c
}

/// Format `n` in decimal.
pub fn to_decimal(n: u128) -> (r: String)
    ensures
        r@ == dec_of(n as nat),
{
    let mut digits: Vec<char> = Vec::new();
    let mut m = n;
    while m >= 10
        invariant
            dec_of(n as nat) == dec_of(m as nat) + digits@.reverse(),
        decreases m,
    {
        let c = dec_char(m % 10);
        let ghost old_digits = digits@;
        digits.push(c);
        proof {
            assert(dec_of(m as nat) == dec_of((m / 10) as nat).push(dec_digit((m % 10) as nat)));
            assert(digits@.reverse() =~= seq![c] + old_digits.reverse());
            assert(dec_of((m / 10) as nat).push(c) + old_digits.reverse()
                =~= dec_of((m / 10) as nat) + (seq![c] + old_digits.reverse()));
        }
        m = m / 10;
    }
    let mut out: Vec<char> = Vec::new();
    out.push(dec_char(m));
    let mut k = digits.len();
    while k > 0
        invariant
            k <= digits.len(),
            out@ == seq![dec_digit(m as nat)] + digits@.subrange(k as int, digits@.len() as int).reverse(),
        decreases k,
    {
        k = k - 1;
        out.push(digits[k]);
        proof {
            let tail = digits@.subrange(k + 1, digits@.len() as int);
            assert(digits@.subrange(k as int, digits@.len() as int) =~= seq![digits@[k as int]] + tail);
            assert(digits@.subrange(k as int, digits@.len() as int).reverse() =~= tail.reverse().push(digits@[k as int]));
        }
    }
    proof {
        assert(digits@.subrange(0, digits@.len() as int) =~= digits@);
        assert(dec_of(m as nat) == seq![dec_digit(m as nat)]);
    }
    string_from_chars(out)
}

/// `s` without its first `n` characters.
pub open spec fn drop_n(s: Seq<char>, n: usize) -> Seq<char> {
    s.skip(n as int)
}

/// `s` with its trailing characters that satisfy `keep_out` removed
/// (`str::trim_end_matches` with a character predicate).
pub open spec fn trim_end_by(s: Seq<char>, keep_out: spec_fn(char) -> bool) -> Seq<char>
    decreases s.len(),
{
    if s.len() > 0 && keep_out(s.last()) {
        trim_end_by(s.drop_last(), keep_out)
    } else {
        s
    }
}

/// `s` with every trailing repetition of the non-empty pattern `p` removed
/// (`str::trim_end_matches` with a string pattern).
pub open spec fn trim_suffixes(s: Seq<char>, p: Seq<char>) -> Seq<char>
    decreases s.len(),
{
    if p.len() > 0 && has_suffix(s, p) {
        trim_suffixes(s.subrange(0, s.len() - p.len()), p)
    } else {
        s
    }
}

/// The length that `s[..n]` keeps once trailing repetitions of `p` are
/// removed: `trim_suffixes(s[..n], p)` is `s[..r]`.
pub fn strip_suffixes(s: &[char], n: usize, p: &[char]) -> (r: usize)
    requires
        n <= s.len(),
    ensures
        r <= n,
        trim_suffixes(s@.take(n as int), p@) == s@.take(r as int),
{
    let mut m = n;
    if p.len() == 0 {
        return m;
    }
    while m >= p.len() && matches_at(s, p, m - p.len())
        invariant
            m <= n <= s.len(),
            p.len() > 0,
            trim_suffixes(s@.take(n as int), p@) == trim_suffixes(s@.take(m as int), p@),
        decreases m,
    {
        let ghost t = s@.take(m as int);
        assert(t.subrange(m - p.len(), m as int) =~= s@.subrange(m - p.len(), m as int));
        assert(has_suffix(t, p@));
        assert(t.subrange(0, t.len() - p.len()) =~= s@.take(m - p.len()));
        m = m - p.len();
    }
    proof {
        let t = s@.take(m as int);
        if m >= p.len() && has_suffix(t, p@) {
            assert(t.subrange(m - p.len(), m as int) =~= s@.subrange(m - p.len(), m as int));
        }
    }
    m
}

/// The index of the first occurrence of `p` in `s` (meaningful when
/// `contains(s, p)`).
pub open spec fn index_of(s: Seq<char>, p: Seq<char>) -> int {
    choose|i: int| is_first_occurrence(s, p, i)
}

/// The first occurrence is unique, so `find` returns `index_of`.
pub proof fn lemma_first_occurrence_is_index_of(s: Seq<char>, p: Seq<char>, i: int)
    requires
        is_first_occurrence(s, p, i),
    ensures
        index_of(s, p) == i,
        contains(s, p),
{
    let j = index_of(s, p);
    assert(is_first_occurrence(s, p, j));
    if j < i {
        assert(!occurs_at(s, p, j));
    } else if i < j {
        assert(!occurs_at(s, p, i));
    }
}

/// What follows the first occurrence of `p` in `s`, if `p` occurs.
pub open spec fn after_first(s: Seq<char>, p: Seq<char>) -> Option<Seq<char>> {
    if contains(s, p) {
        Some(s.skip(index_of(s, p) + p.len()))
    } else {
        None
    }
}

/// What follows the first occurrence of `p` in `s`, if `p` occurs.
pub fn str_after_first(s: &str, p: &str) -> (r: Option<String>)
    ensures
        match r {
            Some(t) => after_first(s@, p@) == Some(t@),
            None => after_first(s@, p@) is None,
        },
{
    let sv = chars_of(s);
    let pv = chars_of(p);
    match find(sv.as_slice(), pv.as_slice()) {
        Some(i) => {
            proof { lemma_first_occurrence_is_index_of(sv@, pv@, i as int); }
            assert(occurs_at(sv@, pv@, i as int));
            let lp = pv.len();
            let ls = sv.len();
            assert(i + lp <= ls);
            let t = slice_to_vec(sv.as_slice(), i + lp, ls);
            assert(t@ =~= s@.skip(i + p@.len()));
            Some(string_from_chars(t))
        },
        None => None,
    }
}

/// Whether `c` occurs in `s`.
pub fn str_has_char(s: &str, c: char) -> (b: bool)
    ensures
        b == s@.contains(c),
{
    let v = chars_of(s);
    let mut i: usize = 0;
    while i < v.len()
        invariant
            i <= v.len(),
            v@ == s@,
            forall|j: int| 0 <= j < i ==> v@[j] != c,
        decreases v.len() - i,
    {
        if v[i] == c {
            assert(s@[i as int] == c);
            return true;
        }
        i = i + 1;
    }
    false
}

/// Some pattern of `pats` occurs in `s`.
pub open spec fn contains_any(s: Seq<char>, pats: Seq<Seq<char>>) -> bool {
    exists|i: int| 0 <= i < pats.len() && contains(s, #[trigger] pats[i])
}

/// Whether some pattern occurs in `s`.
pub fn any_occurs(s: &str, pats: &[&str]) -> (b: bool)
    ensures
        b == contains_any(s@, pats@.map_values(|p: &str| p@)),
{
    let ghost ps = pats@.map_values(|p: &str| p@);
    let mut i: usize = 0;
    while i < pats.len()
        invariant
            i <= pats.len(),
            ps == pats@.map_values(|p: &str| p@),
            forall|j: int| 0 <= j < i ==> !contains(s@, #[trigger] ps[j]),
        decreases pats.len() - i,
    {
        if str_contains(s, pats[i]) {
            assert(contains(s@, ps[i as int]));
            return true;
        }
        i = i + 1;
    }
    false
}

/// Whether `s` has no characters.
pub fn str_is_empty(s: &str) -> (b: bool)
    ensures
        b == (s@.len() == 0),
{
    s.unicode_len() == 0
}

proof fn lemma_split_from_nonempty(s: Seq<char>, sep: Seq<char>, cur: Seq<char>)
    ensures
        split_from(s, sep, cur).len() > 0,
    decreases s.len(),
{
    if s.len() == 0 {
    } else if sep.len() > 0 && has_prefix(s, sep) {
        lemma_split_from_nonempty(s.skip(sep.len() as int), sep, Seq::empty());
    } else {
        lemma_split_from_nonempty(s.drop_first(), sep, cur.push(s[0]));
    }
}

/// Splitting always yields at least one piece.
pub proof fn lemma_split_nonempty(s: Seq<char>, sep: Seq<char>)
    ensures
        split(s, sep).len() > 0,
{
    if sep.len() > 0 {
        lemma_split_from_nonempty(s, sep, Seq::empty());
    }
}

/// The number of bytes of `c` in UTF-8.
pub open spec fn utf8_len(c: char) -> nat {
    if (c as u32) < 0x80 { 1 } else if (c as u32) < 0x800 { 2 } else if (c as u32) < 0x10000 { 3 } else { 4 }
}

/// The number of bytes of `s` in UTF-8 (`str::len`).
pub open spec fn byte_len(s: Seq<char>) -> nat
    decreases s.len(),
{
    if s.len() == 0 { 0 } else { byte_len(s.drop_last()) + utf8_len(s.last()) }
}

/// The number of bytes of `c` in UTF-8.
pub fn char_byte_len(c: char) -> (n: usize)
    ensures
        n == utf8_len(c),
{
    let v = c as u32;
    if v < 0x80 { 1 } else if v < 0x800 { 2 } else if v < 0x10000 { 3 } else { 4 }
}

pub proof fn lemma_byte_len_prefix(s: Seq<char>, i: int)
    requires
        0 <= i <= s.len(),
    ensures
        byte_len(s.take(i)) <= byte_len(s),
    decreases s.len(),
{
    if i < s.len() {
        lemma_byte_len_prefix(s.drop_last(), i);
        assert(s.drop_last().take(i) =~= s.take(i));
    } else {
        assert(s.take(i) =~= s);
    }
}

/// Whether `s` is at least three bytes long in UTF-8.
pub fn at_least_three_bytes(s: &str) -> (b: bool)
    ensures
        b == (byte_len(s@) >= 3),
{
    let v = chars_of(s);
    let mut n: usize = 0;
    let mut i: usize = 0;
    while i < v.len()
        invariant
            i <= v.len(),
            v@ == s@,
            n == byte_len(v@.take(i as int)),
            n < 3,
        decreases v.len() - i,
    {
        assert(v@.take(i + 1).drop_last() =~= v@.take(i as int));
        n = n + char_byte_len(v[i]);
        i = i + 1;
        if n >= 3 {
            proof { lemma_byte_len_prefix(v@, i as int); }
            return true;
        }
    }
    assert(v@.take(v.len() as int) =~= v@);
    false
}

/// The number of characters of `v` that make up its first `max` bytes in
/// UTF-8, if `max` falls on a character boundary.
pub open spec fn chars_in_bytes(v: Seq<char>, max: nat) -> Option<nat>
    decreases v.len(),
{
    if max == 0 {
        Some(0)
    } else if v.len() == 0 {
        None
    } else if utf8_len(v[0]) > max {
        None
    } else {
        match chars_in_bytes(v.drop_first(), (max - utf8_len(v[0])) as nat) {
            Some(k) => Some(k + 1),
            None => None,
        }
    }
}

/// The number of characters of `s` that make up its first `max` bytes, if
/// `max` falls on a character boundary.
pub fn byte_boundary(s: &str, max: usize) -> (r: Option<usize>)
    ensures
        match r {
            Some(k) => chars_in_bytes(s@, max as nat) == Some(k as nat),
            None => chars_in_bytes(s@, max as nat) is None,
        },
{
    let v = chars_of(s);
    let mut i: usize = 0;
    let mut left = max;
    assert(v@.skip(0) =~= s@);
    while left > 0 && i < v.len() && char_byte_len(v[i]) <= left
        invariant
            i <= v.len(),
            v@ == s@,
            left <= max,
            chars_in_bytes(s@, max as nat) == match chars_in_bytes(v@.skip(i as int), left as nat) {
                Some(k) => Some((k + i) as nat),
                None => None::<nat>,
            },
        decreases v.len() - i,
    {
        proof {
            assert(v@.skip(i as int).drop_first() =~= v@.skip(i + 1));
            assert(v@.skip(i as int)[0] == v@[i as int]);
        }
        left = left - char_byte_len(v[i]);
        i = i + 1;
    }
    if left == 0 {
        Some(i)
    } else {
        proof {
            if i < v.len() {
                assert(v@.skip(i as int)[0] == v@[i as int]);
            } else {
                assert(v@.skip(i as int).len() == 0);
            }
        }
        None
    }
}

/// Whether `s` is longer than `max` bytes in UTF-8.
pub fn byte_len_exceeds(s: &str, max: usize) -> (b: bool)
    ensures
        b == (byte_len(s@) > max),
{
    let v = chars_of(s);
    let mut n: u128 = 0;
    let mut i: usize = 0;
    while i < v.len()
        invariant
            i <= v.len(),
            v@ == s@,
            n == byte_len(v@.take(i as int)),
            n <= max,
        decreases v.len() - i,
    {
        assert(v@.take(i + 1).drop_last() =~= v@.take(i as int));
        n = n + char_byte_len(v[i]) as u128;
        i = i + 1;
        if n > max as u128 {
            proof { lemma_byte_len_prefix(v@, i as int); }
            return true;
        }
    }
    assert(v@.take(v.len() as int) =~= v@);
    false
}

/// A character count found for a byte count is at most the length.
pub proof fn lemma_chars_in_bytes_bound(v: Seq<char>, max: nat)
    ensures
        chars_in_bytes(v, max) matches Some(k) ==> k <= v.len(),
    decreases v.len(),
{
    if max != 0 && v.len() != 0 && utf8_len(v[0]) <= max {
        lemma_chars_in_bytes_bound(v.drop_first(), (max - utf8_len(v[0])) as nat);
    }
}

/// Every character of `d` is an ASCII digit.
pub open spec fn all_ascii_digits(d: Seq<char>) -> bool {
    forall|i: int| 0 <= i < d.len() ==> crate::unicode::ascii_digit(#[trigger] d[i])
}

/// What `str::parse::<usize>` gives: an optional `+` and at least one ASCII
/// digit, with a value that fits.
pub open spec fn parsed_usize(s: Seq<char>) -> Option<nat> {
    let d = if s.len() > 0 && s[0] == '+' { s.drop_first() } else { s };
    if d.len() > 0 && all_ascii_digits(d) && crate::unicode::digits_value(d) <= usize::MAX {
        Some(crate::unicode::digits_value(d))
    } else {
        None
    }
}

/// `str::parse::<usize>`.
pub fn parse_usize(s: &str) -> (r: Option<usize>)
    ensures
        match r {
            Some(n) => parsed_usize(s@) == Some(n as nat),
            None => parsed_usize(s@) is None,
        },
{
    let v = chars_of(s);
    let start: usize = if v.len() > 0 && v[0] == '+' { 1 } else { 0 };
    let ghost d = if s@.len() > 0 && s@[0] == '+' { s@.drop_first() } else { s@ };
    assert(d =~= v@.skip(start as int));
    if start >= v.len() {
        return None;
    }
    let mut k = start;
    let mut n: usize = 0;
    let mut ov = false;
    while k < v.len()
        invariant
            start <= k <= v.len(),
            v@ == s@,
            d == v@.skip(start as int),
            d == (if s@.len() > 0 && s@[0] == '+' { s@.drop_first() } else { s@ }),
            forall|m: int| start <= m < k ==> crate::unicode::ascii_digit(#[trigger] v@[m]),
            !ov ==> n == crate::unicode::digits_value(v@.subrange(start as int, k as int)),
            ov ==> crate::unicode::digits_value(v@.subrange(start as int, k as int)) > usize::MAX,
        decreases v.len() - k,
    {
        if !crate::unicode::is_ascii_digit(v[k]) {
            assert(d[k - start] == v@[k as int]);
            assert(!crate::unicode::ascii_digit(d[k - start]));
            assert(!all_ascii_digits(d));
            return None;
        }
        let dv = crate::unicode::digit_value(v[k]);
        proof {
            let pre = v@.subrange(start as int, k as int);
            let nxt = v@.subrange(start as int, k + 1);
            assert(nxt.drop_last() =~= pre);
            assert(nxt.last() == v@[k as int]);
        }
        if !ov {
            match n.checked_mul(10) {
                Some(m) => match m.checked_add(dv as usize) {
                    Some(x) => { n = x; },
                    None => { ov = true; },
                },
                None => { ov = true; },
            }
        }
        k = k + 1;
    }
    assert(v@.subrange(start as int, v.len() as int) =~= d);
    if ov {
        None
    } else {
        Some(n)
    }
}

/// `s` with every leading repetition of the non-empty pattern `p` removed
/// (`str::trim_start_matches` with a string pattern).
pub open spec fn trim_prefixes(s: Seq<char>, p: Seq<char>) -> Seq<char>
    decreases s.len(),
{
    if p.len() > 0 && has_prefix(s, p) {
        trim_prefixes(s.skip(p.len() as int), p)
    } else {
        s
    }
}

/// `str::trim_start_matches` with a string pattern.
pub fn str_trim_prefixes(s: &str, p: &str) -> (r: String)
    ensures
        r@ == (if p@.len() == 0 { s@ } else { trim_prefixes(s@, p@) }),
{
    let v = chars_of(s);
    let pv = chars_of(p);
    if pv.len() == 0 {
        return s.to_string();
    }
    let mut i: usize = 0;
    assert(v@.skip(0) =~= v@);
    while pv.len() <= v.len() - i && matches_at(v.as_slice(), pv.as_slice(), i)
        invariant
            i <= v.len(),
            v@ == s@,
            pv@ == p@,
            pv.len() > 0,
            trim_prefixes(s@, p@) == trim_prefixes(v@.skip(i as int), p@),
        decreases v.len() - i,
    {
        let ghost t = v@.skip(i as int);
        assert(t.subrange(0, pv.len() as int) =~= v@.subrange(i as int, i + pv.len()));
        assert(t.skip(pv.len() as int) =~= v@.skip(i + pv.len()));
        i = i + pv.len();
    }
    proof {
        let t = v@.skip(i as int);
        if has_prefix(t, p@) {
            assert(t.subrange(0, pv.len() as int) =~= v@.subrange(i as int, i + pv.len()));
        }
    }
    let out = slice_to_vec(v.as_slice(), i, v.len());
    assert(out@ =~= v@.skip(i as int));
    string_from_chars(out)
}

/// What `str::parse::<u64>` gives: an optional `+` and at least one ASCII
/// digit, with a value that fits.
pub open spec fn parsed_u64(s: Seq<char>) -> Option<nat> {
    let d = if s.len() > 0 && s[0] == '+' { s.drop_first() } else { s };
    if d.len() > 0 && all_ascii_digits(d) && crate::unicode::digits_value(d) <= u64::MAX {
        Some(crate::unicode::digits_value(d))
    } else {
        None
    }
}

/// `str::parse::<u64>`.
pub fn parse_u64(s: &str) -> (r: Option<u64>)
    ensures
        match r {
            Some(n) => parsed_u64(s@) == Some(n as nat),
            None => parsed_u64(s@) is None,
        },
{
    let v = chars_of(s);
    let start: usize = if v.len() > 0 && v[0] == '+' { 1 } else { 0 };
    let ghost d = if s@.len() > 0 && s@[0] == '+' { s@.drop_first() } else { s@ };
    assert(d =~= v@.skip(start as int));
    if start >= v.len() {
        return None;
    }
    let mut k = start;
    let mut n: u64 = 0;
    let mut ov = false;
    while k < v.len()
        invariant
            start <= k <= v.len(),
            v@ == s@,
            d == v@.skip(start as int),
            d == (if s@.len() > 0 && s@[0] == '+' { s@.drop_first() } else { s@ }),
            forall|m: int| start <= m < k ==> crate::unicode::ascii_digit(#[trigger] v@[m]),
            !ov ==> n == crate::unicode::digits_value(v@.subrange(start as int, k as int)),
            ov ==> crate::unicode::digits_value(v@.subrange(start as int, k as int)) > u64::MAX,
        decreases v.len() - k,
    {
        if !crate::unicode::is_ascii_digit(v[k]) {
            assert(d[k - start] == v@[k as int]);
            assert(!crate::unicode::ascii_digit(d[k - start]));
            assert(!all_ascii_digits(d));
            return None;
        }
        let dv = crate::unicode::digit_value(v[k]);
        proof {
            let pre = v@.subrange(start as int, k as int);
            let nxt = v@.subrange(start as int, k + 1);
            assert(nxt.drop_last() =~= pre);
            assert(nxt.last() == v@[k as int]);
        }
        if !ov {
            match n.checked_mul(10) {
                Some(m) => match m.checked_add(dv) {
                    Some(x) => { n = x; },
                    None => { ov = true; },
                },
                None => { ov = true; },
            }
        }
        k = k + 1;
    }
    assert(v@.subrange(start as int, v.len() as int) =~= d);
    if ov {
        None
    } else {
        Some(n)
    }
}

} // verus!
