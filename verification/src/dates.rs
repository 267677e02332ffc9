//! Calendar dates, parsed and formatted by the `chrono` crate.
use vstd::prelude::*;
use std::fmt::Write;

verus! {

/// What `NaiveDate::parse_from_str(raw, input)` and then formatting the date
/// with `output` give: `Some(None)` when the text does not parse as a date in
/// that format, `None` when the output format cannot be written for a date
/// (an invalid specifier, or a time field), else the formatted date.
pub uninterp spec fn date_reformatted(raw: Seq<char>, input: Seq<char>, output: Seq<char>) -> Option<Option<Seq<char>>>;

/// Wraps `chrono::NaiveDate::parse_from_str` and `NaiveDate::format`, writing
/// the formatted date into a string.
#[verifier::external_body]
pub fn reformat_date(raw: &str, input: &str, output: &str) -> (r: Option<Option<String>>)
    ensures
        match r {
            Some(Some(s)) => date_reformatted(raw@, input@, output@) == Some(Some(s@)),
            Some(None) => date_reformatted(raw@, input@, output@) == Some(None::<Seq<char>>),
            None => date_reformatted(raw@, input@, output@) is None,
        },
{
    match chrono::NaiveDate::parse_from_str(raw, input) {
        Ok(d) => {
            let mut s = String::new();
            match write!(s, "{}", d.format(output)) {
                Ok(()) => Some(Some(s)),
                Err(_) => None,
            }
        },
        Err(_) => Some(None),
    }
}

} // verus!
