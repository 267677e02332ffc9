//! Metadata and custom fields derived from the fields of a scraped item:
//! strings found after patterns or between markers, keyword lists, dates,
//! flags and computed fields.
use vstd::prelude::*;
use crate::config::extraction::{MetadataExtractor, ExtractionMethod, ListExtractionMethod, KeywordMatch};
use crate::config::source::{SourceConfig, CustomFieldExtractor, FieldSource};
use crate::config::transformations::{Transformation, Condition};
use crate::dict::{Dict, text_entries, get_text, inserted};
use crate::text::{
    contains, words, join, split, trim, replace_all, after_first, index_of, views,
    str_after_first, str_words, str_join, str_split, str_trim, str_replace, str_contains, str_is_empty,
    chars_of, find, slice_to_vec, string_from_chars, concat, concat3,
};
use crate::regex_ext::{regex_valid, regex_error, regex_matches, regex_replaced, regex_groups, regex_found,
    regex_is_match, regex_replace_all, regex_captures, regex_find_all};
use crate::dates::{date_reformatted, reformat_date};
use crate::engine::tags::{field_or_empty, condition_holds, check_condition, fields_filled};

verus! {

/// The values of an item's fields, in the item's order.
pub open spec fn field_values(item: Seq<(Seq<char>, Seq<char>)>) -> Seq<Seq<char>> {
    item.map_values(|p: (Seq<char>, Seq<char>)| p.1)
}

/// The text an extraction reads: the named field (empty when missing), or
/// every field's value joined by spaces.
pub open spec fn source_text(item: Seq<(Seq<char>, Seq<char>)>, field: Option<String>) -> Seq<char> {
    match field {
        Some(f) => field_or_empty(item, f@),
        None => join(field_values(item), " "@),
    }
}

/// The first white-space separated word of `s` (empty when there is none).
pub open spec fn first_word(s: Seq<char>) -> Seq<char> {
    if words(s).len() > 0 { words(s)[0] } else { Seq::empty() }
}

/// The word right after the first occurrence of `p` in `s`.
pub open spec fn word_after(s: Seq<char>, p: Seq<char>) -> Seq<char> {
    match after_first(s, p) {
        Some(rest) => first_word(rest),
        None => Seq::empty(),
    }
}

/// What lies between the first `start` in `s` and the first `end` after it.
pub open spec fn between(s: Seq<char>, start: Seq<char>, end: Seq<char>) -> Seq<char> {
    match after_first(s, start) {
        Some(rest) => if contains(rest, end) { rest.take(index_of(rest, end)) } else { Seq::empty() },
        None => Seq::empty(),
    }
}

/// The string an extraction method finds in an item.
pub open spec fn extracted_string(item: Seq<(Seq<char>, Seq<char>)>, m: ExtractionMethod) -> Result<Seq<char>, Seq<char>> {
    match m {
        ExtractionMethod::Pattern { pattern, in_field } => Ok(word_after(source_text(item, in_field), pattern@)),
        ExtractionMethod::Regex { pattern, in_field, group } => if !regex_valid(pattern@) {
            Err("Invalid regex '"@ + pattern@ + "': "@ + regex_error(pattern@))
        } else {
            match regex_groups(pattern@, source_text(item, in_field)) {
                Some(gs) => Ok(if group < gs.len() && gs[group as int] is Some { gs[group as int]->0 } else { Seq::empty() }),
                None => Ok(Seq::empty()),
            }
        },
        ExtractionMethod::NextWord { after_pattern, in_field } => Ok(word_after(source_text(item, in_field), after_pattern@)),
        ExtractionMethod::Between { start, end, in_field } => Ok(between(source_text(item, in_field), start@, end@)),
        ExtractionMethod::FromField { field } => Ok(field_or_empty(item, field@)),
        ExtractionMethod::JsonPath { .. } => Ok(Seq::empty()),
        ExtractionMethod::Custom { .. } => Ok(Seq::empty()),
    }
}

/// Whether a keyword matches a text.
pub open spec fn keyword_hits(k: KeywordMatch, s: Seq<char>) -> bool {
    if k.regex {
        regex_valid(k.pattern@) && regex_matches(k.pattern@, s)
    } else {
        contains(s, k.pattern@)
    }
}

/// The values of the keywords that match `s`, in order.
pub open spec fn keyword_values(ks: Seq<KeywordMatch>, s: Seq<char>) -> Seq<Seq<char>>
    decreases ks.len(),
{
    if ks.len() == 0 {
        Seq::empty()
    } else {
        let pre = keyword_values(ks.drop_last(), s);
        if keyword_hits(ks.last(), s) { pre.push(ks.last().value@) } else { pre }
    }
}

/// The list a list-extraction method finds in an item.
pub open spec fn extracted_list(item: Seq<(Seq<char>, Seq<char>)>, m: ListExtractionMethod) -> Result<Seq<Seq<char>>, Seq<char>> {
    match m {
        ListExtractionMethod::Keywords { in_field, keywords } => Ok(keyword_values(keywords@, source_text(item, in_field))),
        ListExtractionMethod::Split { in_field, delimiter } => Ok(
            split(field_or_empty(item, in_field@), delimiter@).map_values(|p: Seq<char>| trim(p)),
        ),
        ListExtractionMethod::Regex { in_field, pattern } => if !regex_valid(pattern@) {
            Err("Invalid regex: "@ + regex_error(pattern@))
        } else {
            Ok(regex_found(pattern@, source_text(item, in_field)))
        },
        ListExtractionMethod::Custom { .. } => Ok(Seq::empty()),
    }
}

/// One of the few transformations metadata and custom fields honour
/// (replace, trim, default); the others leave the value as it is.
pub open spec fn string_transformed(v: Seq<char>, t: Transformation) -> Result<Seq<char>, Seq<char>> {
    match t {
        Transformation::Replace { pattern, replacement, regex } => if regex {
            if regex_valid(pattern@) {
                Ok(regex_replaced(pattern@, v, replacement@))
            } else {
                Err("Invalid regex: "@ + regex_error(pattern@))
            }
        } else {
            Ok(replace_all(v, pattern@, replacement@))
        },
        Transformation::Trim => Ok(trim(v)),
        Transformation::Default { value } => Ok(if v.len() == 0 { value@ } else { v }),
        _ => Ok(v),
    }
}

/// Those transformations applied in turn, stopping at the first error.
pub open spec fn string_chain(v: Seq<char>, ts: Seq<Transformation>) -> Result<Seq<char>, Seq<char>>
    decreases ts.len(),
{
    if ts.len() == 0 {
        Ok(v)
    } else {
        match string_chain(v, ts.drop_last()) {
            Ok(w) => string_transformed(w, ts.last()),
            Err(e) => Err(e),
        }
    }
}

/// The text of the fields of `item`, or of the named field.
pub fn get_source_field(item: &Dict<String>, field: &Option<String>) -> (r: Result<String, String>)
    ensures
        r matches Ok(s) && s@ == source_text(text_entries(item.view()), *field),
{
    match field {
        Some(f) => match get_text(item, f.as_str()) {
            Some(v) => Ok(v.clone()),
            None => Ok(String::new()),
        },
        None => {
            let ghost te = text_entries(item.view());
            let mut vals: Vec<String> = Vec::new();
            let n = item.len();
            let mut i: usize = 0;
            while i < n
                invariant
                    i <= n,
                    n == item.view().len(),
                    te == text_entries(item.view()),
                    views(vals@) == field_values(te).take(i as int),
                decreases n - i,
            {
                let v = item.value_at(i).clone();
                proof {
                    crate::text::lemma_views_push(vals@, v);
                    assert(field_values(te).take(i + 1) =~= field_values(te).take(i as int).push(v@));
                }
                vals.push(v);
                i = i + 1;
            }
            assert(field_values(te).take(n as int) =~= field_values(te));
            Ok(str_join(vals.as_slice(), " "))
        },
    }
}

/// The first word of `s`.
fn first_word_of(s: &str) -> (r: String)
    ensures
        r@ == first_word(s@),
{
    let ws = str_words(s);
    if ws.len() > 0 {
        assert(views(ws@)[0] == ws@[0]@);
        ws[0].clone()
    } else {
        String::new()
    }
}

/// The word right after the first occurrence of `p` in `s`.
fn word_after_pattern(s: &str, p: &str) -> (r: String)
    ensures
        r@ == word_after(s@, p@),
{
    match str_after_first(s, p) {
        Some(rest) => first_word_of(rest.as_str()),
        None => String::new(),
    }
}

/// The string an extraction method finds in an item.
pub fn extract_string(item: &Dict<String>, method: &ExtractionMethod) -> (r: Result<String, String>)
    ensures
        match r {
            Ok(s) => extracted_string(text_entries(item.view()), *method) == Ok::<Seq<char>, Seq<char>>(s@),
            Err(e) => extracted_string(text_entries(item.view()), *method) == Err::<Seq<char>, Seq<char>>(e@),
        },
{
    match method {
        ExtractionMethod::Pattern { pattern, in_field } => {
            let source = match get_source_field(item, in_field) {
                Ok(s) => s,
                Err(e) => return Err(e),
            };
            Ok(word_after_pattern(source.as_str(), pattern.as_str()))
        },
        ExtractionMethod::Regex { pattern, in_field, group } => {
            let source = match get_source_field(item, in_field) {
                Ok(s) => s,
                Err(e) => return Err(e),
            };
            match regex_captures(pattern.as_str(), source.as_str()) {
                Err(e) => {
                    let head = concat3("Invalid regex '", pattern.as_str(), "': ");
                    Err(concat(head.as_str(), e.as_str()))
                },
                Ok(None) => Ok(String::new()),
                Ok(Some(gs)) => {
                    if *group < gs.len() {
                        match &gs[*group] {
                            Some(m) => Ok(m.clone()),
                            None => Ok(String::new()),
                        }
                    } else {
                        Ok(String::new())
                    }
                },
            }
        },
        ExtractionMethod::NextWord { after_pattern, in_field } => {
            let source = match get_source_field(item, in_field) {
                Ok(s) => s,
                Err(e) => return Err(e),
            };
            Ok(word_after_pattern(source.as_str(), after_pattern.as_str()))
        },
        ExtractionMethod::Between { start, end, in_field } => {
            let source = match get_source_field(item, in_field) {
                Ok(s) => s,
                Err(e) => return Err(e),
            };
            match str_after_first(source.as_str(), start.as_str()) {
                Some(rest) => {
                    let rv = chars_of(rest.as_str());
                    let ev = chars_of(end.as_str());
                    match find(rv.as_slice(), ev.as_slice()) {
                        Some(k) => {
                            proof { crate::text::lemma_first_occurrence_is_index_of(rv@, ev@, k as int); }
                            let out = slice_to_vec(rv.as_slice(), 0, k);
                            assert(out@ =~= rest@.take(k as int));
                            Ok(string_from_chars(out))
                        },
                        None => Ok(String::new()),
                    }
                },
                None => Ok(String::new()),
            }
        },
        ExtractionMethod::FromField { field } => match get_text(item, field.as_str()) {
            Some(v) => Ok(v.clone()),
            None => Ok(String::new()),
        },
        ExtractionMethod::JsonPath { .. } => Ok(String::new()),
        ExtractionMethod::Custom { .. } => Ok(String::new()),
    }
}

/// The list a list-extraction method finds in an item.
pub fn extract_list(item: &Dict<String>, method: &ListExtractionMethod) -> (r: Result<Vec<String>, String>)
    ensures
        match r {
            Ok(v) => extracted_list(text_entries(item.view()), *method) == Ok::<Seq<Seq<char>>, Seq<char>>(views(v@)),
            Err(e) => extracted_list(text_entries(item.view()), *method) == Err::<Seq<Seq<char>>, Seq<char>>(e@),
        },
{
    match method {
        ListExtractionMethod::Keywords { in_field, keywords } => {
            let source = match get_source_field(item, in_field) {
                Ok(s) => s,
                Err(e) => return Err(e),
            };
            let mut results: Vec<String> = Vec::new();
            let mut i: usize = 0;
            while i < keywords.len()
                invariant
                    i <= keywords.len(),
                    views(results@) == keyword_values(keywords@.take(i as int), source@),
                decreases keywords.len() - i,
            {
                proof {
                    assert(keywords@.take(i + 1).drop_last() =~= keywords@.take(i as int));
                    assert(keywords@.take(0) =~= Seq::<KeywordMatch>::empty());
                }
                let k = &keywords[i];
                let hit = if k.regex {
                    match regex_is_match(k.pattern.as_str(), source.as_str()) {
                        Some(m) => m,
                        None => false,
                    }
                } else {
                    str_contains(source.as_str(), k.pattern.as_str())
                };
                if hit {
                    let v = k.value.clone();
                    proof { crate::text::lemma_views_push(results@, v); }
                    results.push(v);
                }
                i = i + 1;
            }
            assert(keywords@.take(keywords.len() as int) =~= keywords@);
            assert(views(results@) == keyword_values(keywords@, source_text(text_entries(item.view()), *in_field)));
            Ok(results)
        },
        ListExtractionMethod::Split { in_field, delimiter } => {
            let source = match get_text(item, in_field.as_str()) {
                Some(v) => v.clone(),
                None => String::new(),
            };
            let parts = str_split(source.as_str(), delimiter.as_str());
            let ghost pv = views(parts@);
            let mut out: Vec<String> = Vec::new();
            let mut i: usize = 0;
            while i < parts.len()
                invariant
                    i <= parts.len(),
                    pv == views(parts@),
                    views(out@) == pv.take(i as int).map_values(|p: Seq<char>| trim(p)),
                decreases parts.len() - i,
            {
                let t = str_trim(parts[i].as_str());
                proof {
                    crate::text::lemma_views_push(out@, t);
                    assert(pv.take(i + 1).map_values(|p: Seq<char>| trim(p))
                        =~= pv.take(i as int).map_values(|p: Seq<char>| trim(p)).push(trim(pv[i as int])));
                }
                out.push(t);
                i = i + 1;
            }
            assert(pv.take(parts.len() as int) =~= pv);
            assert(source@ == field_or_empty(text_entries(item.view()), in_field@));
            assert(views(out@) == split(field_or_empty(text_entries(item.view()), in_field@), delimiter@).map_values(|p: Seq<char>| trim(p)));
            Ok(out)
        },
        ListExtractionMethod::Regex { in_field, pattern } => {
            let source = match get_source_field(item, in_field) {
                Ok(s) => s,
                Err(e) => return Err(e),
            };
            match regex_find_all(pattern.as_str(), source.as_str()) {
                Ok(v) => {
                    assert(views(v@) =~= v@.map_values(|s: String| s@));
                    Ok(v)
                },
                Err(e) => Err(concat("Invalid regex: ", e.as_str())),
            }
        },
        ListExtractionMethod::Custom { .. } => {
            let v: Vec<String> = Vec::new();
            assert(views(v@) =~= Seq::<Seq<char>>::empty());
            Ok(v)
        },
    }
}

/// Apply one of the transformations metadata honours.
pub fn apply_string_transform(value: String, transform: &Transformation, _item: &Dict<String>) -> (r: Result<String, String>)
    ensures
        match r {
            Ok(s) => string_transformed(value@, *transform) == Ok::<Seq<char>, Seq<char>>(s@),
            Err(e) => string_transformed(value@, *transform) == Err::<Seq<char>, Seq<char>>(e@),
        },
{
    match transform {
        Transformation::Replace { pattern, replacement, regex } => {
            if *regex {
                match regex_replace_all(pattern.as_str(), value.as_str(), replacement.as_str()) {
                    Ok(s) => Ok(s),
                    Err(e) => Err(concat("Invalid regex: ", e.as_str())),
                }
            } else {
                Ok(str_replace(value.as_str(), pattern.as_str(), replacement.as_str()))
            }
        },
        Transformation::Trim => Ok(str_trim(value.as_str())),
        Transformation::Default { value: default } => {
            if str_is_empty(value.as_str()) {
                Ok(default.clone())
            } else {
                Ok(value)
            }
        },
        _ => Ok(value),
    }
}

/// Apply the metadata transformations in turn, stopping at the first error.
pub fn apply_string_chain(value: String, transforms: &[Transformation], item: &Dict<String>) -> (r: Result<String, String>)
    ensures
        match r {
            Ok(s) => string_chain(value@, transforms@) == Ok::<Seq<char>, Seq<char>>(s@),
            Err(e) => string_chain(value@, transforms@) == Err::<Seq<char>, Seq<char>>(e@),
        },
{
    let ghost v0 = value@;
    let mut current = value;
    let mut i: usize = 0;
    assert(transforms@.take(0) =~= Seq::<Transformation>::empty());
    while i < transforms.len()
        invariant
            i <= transforms.len(),
            v0 == value@,
            string_chain(v0, transforms@.take(i as int)) == Ok::<Seq<char>, Seq<char>>(current@),
        decreases transforms.len() - i,
    {
        proof {
            assert(transforms@.take(i + 1).drop_last() =~= transforms@.take(i as int));
        }
        match apply_string_transform(current, &transforms[i], item) {
            Ok(s) => {
                current = s;
            },
            Err(e) => {
                proof { lemma_string_chain_stops(v0, transforms@, i as int); }
                return Err(e);
            },
        }
        i = i + 1;
    }
    assert(transforms@.take(transforms.len() as int) =~= transforms@);
    Ok(current)
}

proof fn lemma_string_chain_stops(v: Seq<char>, ts: Seq<Transformation>, i: int)
    requires
        0 <= i < ts.len(),
        string_chain(v, ts.take(i + 1)) is Err,
    ensures
        string_chain(v, ts) == string_chain(v, ts.take(i + 1)),
    decreases ts.len() - i,
{
    if i + 1 < ts.len() {
        assert(ts.drop_last().take(i + 1) =~= ts.take(i + 1));
        lemma_string_chain_stops(v, ts.drop_last(), i);
    } else {
        assert(ts.take(i + 1) =~= ts);
    }
}

/// The input format dates are read in when none is configured.
pub open spec fn default_input_format() -> Seq<char> {
    "%d.%m.%Y"@
}

/// The output format dates are written in when none is configured.
pub open spec fn default_output_format() -> Seq<char> {
    "%d %b %Y"@
}

/// A date read in one format and written in another (by default day.month.year
/// in, "day abbreviated-month year" out): `Some(None)` when it does not parse,
/// `None` when the output format cannot be written for a date.
pub fn format_date(date_str: &str, input_format: Option<&str>, output_format: Option<&str>) -> (r: Option<Option<String>>)
    ensures
        ({
            let i = match input_format { Some(f) => f@, None => default_input_format() };
            let o = match output_format { Some(f) => f@, None => default_output_format() };
            match r {
                Some(Some(s)) => date_reformatted(date_str@, i, o) == Some(Some(s@)),
                Some(None) => date_reformatted(date_str@, i, o) == Some(None::<Seq<char>>),
                None => date_reformatted(date_str@, i, o) is None,
            }
        }),
{
    let input_fmt = match input_format {
        Some(f) => f,
        None => "%d.%m.%Y",
    };
    let output_fmt = match output_format {
        Some(f) => f,
        None => "%d %b %Y",
    };
    reformat_date(date_str, input_fmt, output_fmt)
}

/// What a metadata extractor gives: a value to store (or nothing), or, for a
/// number, the text to read as a floating-point number and the fallback.
#[derive(Debug)]
pub enum FieldValue {
    Value(Option<String>),
    Number { text: String, fallback: Option<String> },
}

/// The outcome of a metadata extractor on an item: `None` when a date cannot
/// be written in its output format.
pub open spec fn metadata_outcome(item: Seq<(Seq<char>, Seq<char>)>, x: MetadataExtractor) -> Option<Result<Option<Seq<char>>, Seq<char>>> {
    match x {
        MetadataExtractor::Boolean { condition } => Some(Ok(Some(match condition {
            Some(c) => if condition_holds(item, c) { "true"@ } else { "false"@ },
            None => "false"@,
        }))),
        MetadataExtractor::String { extraction, transformations, fallback } => {
            let raw = match extraction {
                Some(m) => extracted_string(item, m),
                None => Ok(Seq::empty()),
            };
            match raw {
                Err(e) => Some(Err(e)),
                Ok(v) => match string_chain(v, match transformations { Some(ts) => ts@, None => Seq::empty() }) {
                    Err(e) => Some(Err(e)),
                    Ok(w) => Some(Ok(if w.len() == 0 {
                        match fallback { Some(f) => Some(f@), None => None }
                    } else {
                        Some(w)
                    })),
                },
            }
        },
        MetadataExtractor::Date { extraction, input_format, output_format, fallback } => {
            let raw = match extraction {
                Some(m) => extracted_string(item, m),
                None => Ok(Seq::empty()),
            };
            match raw {
                Err(e) => Some(Err(e)),
                Ok(v) => if v.len() == 0 {
                    Some(Ok(match fallback { Some(f) => Some(f@), None => None }))
                } else {
                    let i = match input_format { Some(f) => f@, None => default_input_format() };
                    let o = match output_format { Some(f) => f@, None => default_output_format() };
                    match date_reformatted(v, i, o) {
                        None => None,
                        Some(Some(s)) => Some(Ok(Some(s))),
                        Some(None) => Some(Ok(Some(match fallback { Some(f) => f@, None => v }))),
                    }
                },
            }
        },
        MetadataExtractor::List { extraction, join_with } => {
            let vals = match extraction {
                Some(m) => extracted_list(item, m),
                None => Ok(Seq::empty()),
            };
            match vals {
                Err(e) => Some(Err(e)),
                Ok(vs) => Some(Ok(if vs.len() == 0 {
                    None
                } else {
                    Some(join(vs, match join_with { Some(j) => j@, None => ", "@ }))
                })),
            }
        },
        MetadataExtractor::Number { .. } => Some(Ok(None)),
        MetadataExtractor::Custom { .. } => Some(Ok(None)),
    }
}

/// Derive one metadata field from an item. A number extractor yields the text
/// to read as a number (reading it is floating-point work left to the caller);
/// `None` when a date cannot be written in its output format.
pub fn extract_metadata_field(item: &Dict<String>, extractor: &MetadataExtractor) -> (r: Option<Result<FieldValue, String>>)
    ensures
        match extractor {
            MetadataExtractor::Number { extraction, fallback } => match r {
                Some(Ok(FieldValue::Number { text, fallback: f })) => f == *fallback && match extraction {
                    Some(m) => extracted_string(text_entries(item.view()), *m) == Ok::<Seq<char>, Seq<char>>(text@),
                    None => text@.len() == 0,
                },
                Some(Err(e)) => extraction matches Some(m)
                    && extracted_string(text_entries(item.view()), *m) == Err::<Seq<char>, Seq<char>>(e@),
                _ => false,
            },
            _ => match r {
                Some(Ok(FieldValue::Value(v))) => metadata_outcome(text_entries(item.view()), *extractor)
                    == Some(Ok::<Option<Seq<char>>, Seq<char>>(match v { Some(s) => Some(s@), None => None })),
                Some(Ok(FieldValue::Number { .. })) => false,
                Some(Err(e)) => metadata_outcome(text_entries(item.view()), *extractor) == Some(Err::<Option<Seq<char>>, Seq<char>>(e@)),
                None => metadata_outcome(text_entries(item.view()), *extractor) is None,
            },
        },
{
    match extractor {
        MetadataExtractor::Boolean { condition } => {
            match condition {
                Some(c) => {
                    if check_condition(item, c) {
                        Some(Ok(FieldValue::Value(Some("true".to_string()))))
                    } else {
                        Some(Ok(FieldValue::Value(Some("false".to_string()))))
                    }
                },
                None => Some(Ok(FieldValue::Value(Some("false".to_string())))),
            }
        },
        MetadataExtractor::String { extraction, transformations, fallback } => {
            let value = match extraction {
                Some(m) => match extract_string(item, m) {
                    Ok(s) => s,
                    Err(e) => return Some(Err(e)),
                },
                None => String::new(),
            };
            let empty: Vec<Transformation> = Vec::new();
            let ts = match transformations {
                Some(t) => t.as_slice(),
                None => empty.as_slice(),
            };
            match apply_string_chain(value, ts, item) {
                Err(e) => Some(Err(e)),
                Ok(w) => {
                    if str_is_empty(w.as_str()) {
                        Some(Ok(FieldValue::Value(crate::text::clone_opt(fallback))))
                    } else {
                        Some(Ok(FieldValue::Value(Some(w))))
                    }
                },
            }
        },
        MetadataExtractor::Date { extraction, input_format, output_format, fallback } => {
            let raw = match extraction {
                Some(m) => match extract_string(item, m) {
                    Ok(s) => s,
                    Err(e) => return Some(Err(e)),
                },
                None => String::new(),
            };
            if str_is_empty(raw.as_str()) {
                return Some(Ok(FieldValue::Value(crate::text::clone_opt(fallback))));
            }
            let i = match input_format {
                Some(f) => Some(f.as_str()),
                None => None,
            };
            let o = match output_format {
                Some(f) => Some(f.as_str()),
                None => None,
            };
            match format_date(raw.as_str(), i, o) {
                None => None,
                Some(Some(s)) => Some(Ok(FieldValue::Value(Some(s)))),
                Some(None) => match fallback {
                    Some(f) => Some(Ok(FieldValue::Value(Some(f.clone())))),
                    None => Some(Ok(FieldValue::Value(Some(raw)))),
                },
            }
        },
        MetadataExtractor::List { extraction, join_with } => {
            let values = match extraction {
                Some(m) => match extract_list(item, m) {
                    Ok(v) => v,
                    Err(e) => return Some(Err(e)),
                },
                None => Vec::new(),
            };
            if values.len() == 0 {
                Some(Ok(FieldValue::Value(None)))
            } else {
                let sep = match join_with {
                    Some(j) => j.as_str(),
                    None => ", ",
                };
                Some(Ok(FieldValue::Value(Some(str_join(values.as_slice(), sep)))))
            }
        },
        MetadataExtractor::Number { extraction, fallback } => {
            let text = match extraction {
                Some(m) => match extract_string(item, m) {
                    Ok(s) => s,
                    Err(e) => return Some(Err(e)),
                },
                None => String::new(),
            };
            Some(Ok(FieldValue::Number { text, fallback: crate::text::clone_opt(fallback) }))
        },
        MetadataExtractor::Custom { .. } => Some(Ok(FieldValue::Value(None))),
    }
}

/// The value a custom field takes on an item, if its condition holds.
pub open spec fn custom_value(item: Seq<(Seq<char>, Seq<char>)>, x: CustomFieldExtractor) -> Result<Option<Seq<char>>, Seq<char>> {
    if (match x.condition { Some(c) => !condition_holds(item, c), None => false }) {
        Ok(None)
    } else {
        let v = match x.source {
            FieldSource::Static(text) => text@,
            FieldSource::FromField { field } => field_or_empty(item, field@),
            FieldSource::Computed { template, fields } => fields_filled(template@, item, fields@),
            FieldSource::Json { value } => value@,
        };
        match string_chain(v, match x.transformations { Some(ts) => ts@, None => Seq::empty() }) {
            Ok(w) => Ok(Some(w)),
            Err(e) => Err(e),
        }
    }
}

/// The value a custom field takes on an item, if its condition holds.
pub fn extract_custom_field(item: &Dict<String>, extractor: &CustomFieldExtractor) -> (r: Result<Option<String>, String>)
    ensures
        match r {
            Ok(v) => custom_value(text_entries(item.view()), *extractor)
                == Ok::<Option<Seq<char>>, Seq<char>>(match v { Some(s) => Some(s@), None => None }),
            Err(e) => custom_value(text_entries(item.view()), *extractor) == Err::<Option<Seq<char>>, Seq<char>>(e@),
        },
{
    let ghost te = text_entries(item.view());
    if let Some(condition) = &extractor.condition {
        if !check_condition(item, condition) {
            return Ok(None);
        }
    }
    let value = match &extractor.source {
        FieldSource::Static(text) => text.clone(),
        FieldSource::FromField { field } => match get_text(item, field.as_str()) {
            Some(v) => v.clone(),
            None => String::new(),
        },
        FieldSource::Computed { template, fields } => {
            let mut result = template.clone();
            let mut i: usize = 0;
            while i < fields.len()
                invariant
                    i <= fields.len(),
                    te == text_entries(item.view()),
                    result@ == fields_filled(template@, te, fields@.take(i as int)),
                decreases fields.len() - i,
            {
                proof {
                    assert(fields@.take(i + 1).drop_last() =~= fields@.take(i as int));
                    assert(fields@.take(0) =~= Seq::<String>::empty());
                }
                let placeholder = concat3("{", fields[i].as_str(), "}");
                let field_value = match get_text(item, fields[i].as_str()) {
                    Some(v) => v.clone(),
                    None => String::new(),
                };
                result = str_replace(result.as_str(), placeholder.as_str(), field_value.as_str());
                i = i + 1;
            }
            assert(fields@.take(fields.len() as int) =~= fields@);
            result
        },
        FieldSource::Json { value } => value.clone(),
    };
    let empty: Vec<Transformation> = Vec::new();
    let ts = match &extractor.transformations {
        Some(t) => t.as_slice(),
        None => empty.as_slice(),
    };
    match apply_string_chain(value, ts, item) {
        Ok(w) => Ok(Some(w)),
        Err(e) => Err(e),
    }
}

/// The item after each custom field in turn has been derived and stored.
pub open spec fn customized(item: Seq<(Seq<char>, String)>, fields: Seq<(Seq<char>, CustomFieldExtractor)>) -> Result<Seq<(Seq<char>, Seq<char>)>, Seq<char>>
    decreases fields.len(),
{
    if fields.len() == 0 {
        Ok(text_entries(item))
    } else {
        match customized(item, fields.drop_last()) {
            Ok(cur) => match custom_value(cur, fields.last().1) {
                Ok(Some(v)) => Ok(inserted(cur, fields.last().0, v)),
                Ok(None) => Ok(cur),
                Err(e) => Err(e),
            },
            Err(e) => Err(e),
        }
    }
}

proof fn lemma_customized_stops(item: Seq<(Seq<char>, String)>, fields: Seq<(Seq<char>, CustomFieldExtractor)>, i: int)
    requires
        0 <= i < fields.len(),
        customized(item, fields.take(i + 1)) is Err,
    ensures
        customized(item, fields) == customized(item, fields.take(i + 1)),
    decreases fields.len() - i,
{
    if i + 1 < fields.len() {
        assert(fields.drop_last().take(i + 1) =~= fields.take(i + 1));
        lemma_customized_stops(item, fields.drop_last(), i);
    } else {
        assert(fields.take(i + 1) =~= fields);
    }
}

/// Derive and store each configured custom field in turn.
pub fn apply_custom_fields(input: Dict<String>, config: &SourceConfig) -> (r: Result<Dict<String>, String>)
    ensures
        ({
            let fields = match config.custom_fields {
                Some(c) => c.view(),
                None => Seq::empty(),
            };
            match r {
                Ok(d) => customized(input.view(), fields) == Ok::<Seq<(Seq<char>, Seq<char>)>, Seq<char>>(text_entries(d.view())),
                Err(e) => customized(input.view(), fields) == Err::<Seq<(Seq<char>, Seq<char>)>, Seq<char>>(e@),
            }
        }),
{
    let ghost orig = input.view();
    let mut item = input;
    match &config.custom_fields {
        None => Ok(item),
        Some(custom_fields) => {
            let ghost fields = custom_fields.view();
            let n = custom_fields.len();
            let mut i: usize = 0;
            assert(fields.take(0) =~= Seq::<(Seq<char>, CustomFieldExtractor)>::empty());
            while i < n
                invariant
                    i <= n,
                    n == fields.len(),
                    fields == custom_fields.view(),
                    orig == input.view(),
                    config.custom_fields == Some(*custom_fields),
                    customized(orig, fields.take(i as int)) == Ok::<Seq<(Seq<char>, Seq<char>)>, Seq<char>>(text_entries(item.view())),
                decreases n - i,
            {
                proof {
                    assert(fields.take(i + 1).drop_last() =~= fields.take(i as int));
                    assert(fields.take(i + 1).last() == fields[i as int]);
                }
                let name = custom_fields.key_at(i);
                match extract_custom_field(&item, custom_fields.value_at(i)) {
                    Ok(Some(v)) => {
                        item.assert_unique();
                        proof { crate::dict::lemma_text_entries_inserted(item.view(), name@, v); }
                        item.insert(name.clone(), v);
                    },
                    Ok(None) => {},
                    Err(e) => {
                        assert(customized(orig, fields.take(i + 1)) == Err::<Seq<(Seq<char>, Seq<char>)>, Seq<char>>(e@));
                        proof { lemma_customized_stops(orig, fields, i as int); }
                        return Err(e);
                    },
                }
                i = i + 1;
            }
            assert(fields.take(n as int) =~= fields);
            Ok(item)
        },
    }
}

} // verus!
