//! Unicode case mapping and character classes, taken from std.
use vstd::prelude::*;

verus! {

/// What `str::to_lowercase` returns for a string (Unicode lower-case mapping).
pub uninterp spec fn lowercase(s: Seq<char>) -> Seq<char>;

/// What `str::to_uppercase` returns for a string (Unicode upper-case mapping).
pub uninterp spec fn uppercase(s: Seq<char>) -> Seq<char>;

/// The characters `char::to_uppercase` yields for a character.
pub uninterp spec fn char_uppercase(c: char) -> Seq<char>;

/// What `char::is_alphanumeric` returns (Unicode `Alphabetic` or `Numeric`).
pub uninterp spec fn alphanumeric(c: char) -> bool;

/// Wraps `str::to_lowercase`; the result is named `lowercase` of the argument.
#[verifier::external_body]
pub fn to_lower(s: &str) -> (r: String)
    ensures
        r@ == lowercase(s@),
{
    s.to_lowercase()
}

/// Wraps `str::to_uppercase`; the result is named `uppercase` of the argument.
#[verifier::external_body]
pub fn to_upper(s: &str) -> (r: String)
    ensures
        r@ == uppercase(s@),
{
    s.to_uppercase()
}

/// Wraps `char::to_uppercase`, collected into a string; the result is named
/// `char_uppercase` of the argument.
#[verifier::external_body]
pub fn upper_of_char(c: char) -> (r: String)
    ensures
        r@ == char_uppercase(c),
{
    c.to_uppercase().collect::<String>()
}

/// What `char::is_numeric` says of a character (Unicode numeric categories).
pub uninterp spec fn numeric(c: char) -> bool;

/// Wraps `char::is_numeric`; the result is named `numeric` of the argument.
#[verifier::external_body]
pub fn is_numeric(c: char) -> (b: bool)
    ensures
        b == numeric(c),
{
    c.is_numeric()
}

/// Wraps `char::is_alphanumeric`; the result is named `alphanumeric` of the argument.
#[verifier::external_body]
pub fn is_alphanumeric(c: char) -> (b: bool)
    ensures
        b == alphanumeric(c),
{
    c.is_alphanumeric()
}

/// ASCII letters and digits (`char::is_ascii_alphanumeric`).
pub open spec fn ascii_alnum(c: char) -> bool {
    ('a' <= c && c <= 'z') || ('A' <= c && c <= 'Z') || ('0' <= c && c <= '9')
}

/// ASCII digits (`char::is_ascii_digit`).
pub open spec fn ascii_digit(c: char) -> bool {
    '0' <= c && c <= '9'
}

/// `char::is_ascii_alphanumeric`.
pub fn is_ascii_alphanumeric(c: char) -> (b: bool)
    ensures
        b == ascii_alnum(c),
{
    ('a' <= c && c <= 'z') || ('A' <= c && c <= 'Z') || ('0' <= c && c <= '9')
}

/// `char::is_ascii_digit`.
pub fn is_ascii_digit(c: char) -> (b: bool)
    ensures
        b == ascii_digit(c),
{
    '0' <= c && c <= '9'
}

/// The code point of `char::to_ascii_lowercase(c)`.
pub open spec fn ascii_lower_code(c: char) -> u32 {
    if 'A' <= c && c <= 'Z' { ((c as u32) + 32) as u32 } else { c as u32 }
}

/// The code point of `char::to_ascii_lowercase(c)`.
pub fn ascii_lower_code_of(c: char) -> (r: u32)
    ensures
        r == ascii_lower_code(c),
{
    if 'A' <= c && c <= 'Z' {
        (c as u32) + 32
    } else {
        c as u32
    }
}

/// The value of an ASCII digit.
pub open spec fn digit_val(c: char) -> nat {
    ((c as u32) - 48) as nat
}

/// The value of an ASCII digit.
pub fn digit_value(c: char) -> (v: u64)
    requires
        ascii_digit(c),
    ensures
        v == digit_val(c),
        v < 10,
{
    assert(('0' as u32) == 48 && ('9' as u32) == 57);
    ((c as u32) - 48) as u64
}

/// The leading run of ASCII digits of `s`.
pub open spec fn digit_run(s: Seq<char>) -> Seq<char>
    decreases s.len(),
{
    if s.len() > 0 && ascii_digit(s[0]) { seq![s[0]] + digit_run(s.drop_first()) } else { Seq::empty() }
}

/// The value of a string of ASCII digits.
pub open spec fn digits_value(s: Seq<char>) -> nat
    decreases s.len(),
{
    if s.len() == 0 { 0 } else { digits_value(s.drop_last()) * 10 + digit_val(s.last()) }
}

/// What `str::parse::<u64>` gives a non-empty digit run, with 0 on overflow.
pub open spec fn run_value(s: Seq<char>) -> int {
    if digits_value(s) <= u64::MAX { digits_value(s) as int } else { 0 }
}

/// The digit run is the longest all-digit prefix.
pub proof fn lemma_digit_run(s: Seq<char>)
    ensures
        digit_run(s).len() <= s.len(),
        digit_run(s) == s.take(digit_run(s).len() as int),
        forall|i: int| 0 <= i < digit_run(s).len() ==> ascii_digit(#[trigger] s[i]),
        digit_run(s).len() < s.len() ==> !ascii_digit(s[digit_run(s).len() as int]),
        s.len() > 0 && ascii_digit(s[0]) ==> digit_run(s).len() >= 1,
    decreases s.len(),
{
    if s.len() > 0 && ascii_digit(s[0]) {
        lemma_digit_run(s.drop_first());
        let r = digit_run(s.drop_first());
        assert(digit_run(s) =~= s.take(r.len() as int + 1)) by {
            assert(r =~= s.drop_first().take(r.len() as int));
        }
        assert forall|i: int| 0 <= i < digit_run(s).len() implies ascii_digit(#[trigger] s[i]) by {
            if i > 0 {
                assert(s[i] == s.drop_first()[i - 1]);
            }
        }
        if digit_run(s).len() < s.len() {
            assert(s[digit_run(s).len() as int] == s.drop_first()[r.len() as int]);
        }
    } else {
        assert(s.take(0) =~= Seq::<char>::empty());
    }
}

/// `s` after its leading run of ASCII digits.
pub open spec fn after_digit_run(s: Seq<char>) -> Seq<char> {
    s.skip(digit_run(s).len() as int)
}

/// The code point of `c` lower-cased in ASCII, as an integer.
pub open spec fn lower_code(c: char) -> int {
    ascii_lower_code(c) as int
}

} // verus!
