//! Transformation chains applied to the fields of scraped items, and the
//! normalisation of the URLs they hold.
use vstd::prelude::*;
use crate::config::source::SourceConfig;
use crate::config::transformations::{Transformation, UrlRule};
use crate::dict::{Dict, text_entries, text_lookup, inserted, placeholders_filled, get_text, keys_unique};
use crate::text::{
    byte_len, chars_in_bytes, trim, replace_all, has_prefix, has_suffix, words, join, split, before_char,
    str_trim, str_replace, str_starts_with, str_ends_with, str_words, str_join, str_split, str_before_char,
    str_is_empty, concat, chars_of, string_from_chars, slice_to_vec, byte_boundary,
};
use crate::unicode::{lowercase, uppercase, char_uppercase, to_lower, to_upper, upper_of_char};
use crate::regex_ext::{regex_valid, regex_error, regex_replaced, regex_groups, regex_replace_all, regex_captures,
    remove_html_tags, tag_pattern};

verus! {

/// One normalisation rule applied to a URL.
pub open spec fn rule_applied(r: Seq<char>, rule: UrlRule) -> Seq<char> {
    match rule {
        UrlRule::PrependProtocol(p) => if has_prefix(r, "//"@) { p@ + r } else { r },
        UrlRule::PrependDomain(d) => if has_prefix(r, "/"@) && !has_prefix(r, "//"@) { d@ + r } else { r },
        UrlRule::RemoveQueryParams => before_char(r, '?'),
        UrlRule::RemoveFragment => before_char(r, '#'),
    }
}

/// The rules applied one after the other.
pub open spec fn rules_applied(r: Seq<char>, rules: Seq<UrlRule>) -> Seq<char>
    decreases rules.len(),
{
    if rules.len() == 0 {
        r
    } else {
        rule_applied(rules_applied(r, rules.drop_last()), rules.last())
    }
}

/// A URL trimmed, passed through the rules, and then made absolute: a
/// protocol-relative URL gets `https:`, a root-relative one the base URL.
pub open spec fn normalized(url: Seq<char>, base: Seq<char>, rules: Seq<UrlRule>) -> Seq<char> {
    let r = rules_applied(trim(url), rules);
    if !has_prefix(r, "http"@) && r.len() > 0 {
        if has_prefix(r, "//"@) {
            "https:"@ + r
        } else if has_prefix(r, "/"@) {
            base + r
        } else {
            r
        }
    } else {
        r
    }
}

/// Whether a truncation would cut `v` inside a character (where a byte slice
/// of the string panics).
pub open spec fn truncate_panics(v: Seq<char>, t: Transformation) -> bool {
    match t {
        Transformation::Truncate { max_length, suffix } => byte_len(v) > max_length
            && chars_in_bytes(v, max_length as nat) is None,
        _ => false,
    }
}

/// The message of a rejected regular expression.
pub open spec fn invalid_regex(pattern: Seq<char>) -> Seq<char> {
    "Invalid regex: "@ + regex_error(pattern)
}

/// The result of one transformation of value `v` of an item whose fields are
/// `item`, with `base` as the source's base URL.
pub open spec fn transformed(v: Seq<char>, t: Transformation, item: Seq<(Seq<char>, Seq<char>)>, base: Seq<char>) -> Result<Seq<char>, Seq<char>> {
    match t {
        Transformation::Replace { pattern, replacement, regex } => if regex {
            if regex_valid(pattern@) {
                Ok(regex_replaced(pattern@, v, replacement@))
            } else {
                Err(invalid_regex(pattern@))
            }
        } else {
            Ok(replace_all(v, pattern@, replacement@))
        },
        Transformation::Trim => Ok(trim(v)),
        Transformation::Lowercase => Ok(lowercase(v)),
        Transformation::Uppercase => Ok(uppercase(v)),
        Transformation::Capitalize => Ok(if v.len() == 0 { v } else { char_uppercase(v[0]) + v.drop_first() }),
        Transformation::CollapseWhitespace => Ok(join(words(v), " "@)),
        Transformation::Truncate { max_length, suffix } => Ok(
            if byte_len(v) > max_length {
                match chars_in_bytes(v, max_length as nat) {
                    Some(k) => v.take(k as int) + suffix@,
                    None => v,
                }
            } else {
                v
            },
        ),
        Transformation::RemoveHtml => Ok(regex_replaced(tag_pattern(), v, ""@)),
        Transformation::StripPrefix { prefix } => Ok(
            if has_prefix(v, prefix@) { v.skip(prefix@.len() as int) } else { v },
        ),
        Transformation::StripSuffix { suffix } => Ok(
            if has_suffix(v, suffix@) { v.take(v.len() - suffix@.len()) } else { v },
        ),
        Transformation::UrlNormalize { base_url, rules } => Ok(
            normalized(v, match base_url { Some(b) => b@, None => base }, rules@),
        ),
        Transformation::Template { template } => Ok(placeholders_filled(template@, item, Seq::empty())),
        Transformation::Extract { pattern, group } => if !regex_valid(pattern@) {
            Err(invalid_regex(pattern@))
        } else {
            match regex_groups(pattern@, v) {
                Some(gs) => if group < gs.len() && gs[group as int] is Some {
                    Ok(gs[group as int]->0)
                } else {
                    Ok(v)
                },
                None => Ok(v),
            }
        },
        Transformation::Split { delimiter, index, join: joiner } => {
            let parts = split(v, delimiter@);
            match index {
                Some(i) => Ok(if i < parts.len() { parts[i as int] } else { v }),
                None => match joiner {
                    Some(j) => Ok(join(parts, j@)),
                    None => Ok(v),
                },
            }
        },
        Transformation::Append { text } => Ok(v + text@),
        Transformation::Prepend { text } => Ok(text@ + v),
        Transformation::Default { value } => Ok(if v.len() == 0 { value@ } else { v }),
        Transformation::Custom { .. } => Ok(v),
    }
}

/// The result of a chain of transformations, or `None` when a truncation in
/// the chain would cut a character.
pub open spec fn chain_result(v: Seq<char>, ts: Seq<Transformation>, item: Seq<(Seq<char>, Seq<char>)>, base: Seq<char>) -> Option<Result<Seq<char>, Seq<char>>>
    decreases ts.len(),
{
    if ts.len() == 0 {
        Some(Ok(v))
    } else {
        match chain_result(v, ts.drop_last(), item, base) {
            Some(Ok(w)) => if truncate_panics(w, ts.last()) {
                None
            } else {
                Some(transformed(w, ts.last(), item, base))
            },
            other => other,
        }
    }
}

/// Normalise a scraped URL with the rules, then make it absolute.
pub fn normalize_url(url: &str, base_url: &str, rules: &[UrlRule]) -> (r: String)
    ensures
        r@ == normalized(url@, base_url@, rules@),
{
    let mut result = str_trim(url);
    let mut i: usize = 0;
    while i < rules.len()
        invariant
            i <= rules.len(),
            result@ == rules_applied(trim(url@), rules@.take(i as int)),
        decreases rules.len() - i,
    {
        proof {
            assert(rules@.take(i + 1).drop_last() =~= rules@.take(i as int));
            assert(rules@.take(0) =~= Seq::<UrlRule>::empty());
        }
        result = match &rules[i] {
            UrlRule::PrependProtocol(protocol) => {
                if str_starts_with(result.as_str(), "//") {
                    concat(protocol.as_str(), result.as_str())
                } else {
                    result
                }
            },
            UrlRule::PrependDomain(domain) => {
                if str_starts_with(result.as_str(), "/") && !str_starts_with(result.as_str(), "//") {
                    concat(domain.as_str(), result.as_str())
                } else {
                    result
                }
            },
            UrlRule::RemoveQueryParams => str_before_char(result.as_str(), '?'),
            UrlRule::RemoveFragment => str_before_char(result.as_str(), '#'),
        };
        i = i + 1;
    }
    assert(rules@.take(rules.len() as int) =~= rules@);
    if !str_starts_with(result.as_str(), "http") && !str_is_empty(result.as_str()) {
        if str_starts_with(result.as_str(), "//") {
            concat("https:", result.as_str())
        } else if str_starts_with(result.as_str(), "/") {
            concat(base_url, result.as_str())
        } else {
            result
        }
    } else {
        result
    }
}

/// Fill a template's `{field}` placeholders from an item, one field after the
/// other in the item's order.
pub fn apply_template(template: &str, item: &Dict<String>) -> (r: String)
    ensures
        r@ == placeholders_filled(template@, text_entries(item.view()), Seq::empty()),
{
    let r = crate::dict::fill_placeholders(template, item, "");
    proof {
        reveal_strlit("");
        assert(""@ =~= Seq::<char>::empty());
    }
    r
}

/// Whether a truncation would cut `value` inside a character.
pub fn would_cut_char(value: &str, t: &Transformation) -> (b: bool)
    ensures
        b == truncate_panics(value@, *t),
{
    match t {
        Transformation::Truncate { max_length, suffix } => {
            exceeds_bytes(value, *max_length) && byte_boundary(value, *max_length).is_none()
        },
        _ => false,
    }
}

/// Whether `s` is longer than `max` bytes.
fn exceeds_bytes(s: &str, max: usize) -> (b: bool)
    ensures
        b == (byte_len(s@) > max),
{
    crate::text::byte_len_exceeds(s, max)
}

/// Apply one transformation to a value.
pub fn apply_single_transform(value: String, transform: &Transformation, item: &Dict<String>, base_url: &str) -> (r: Result<String, String>)
    requires
        !truncate_panics(value@, *transform),
    ensures
        match r {
            Ok(s) => transformed(value@, *transform, text_entries(item.view()), base_url@) == Ok::<Seq<char>, Seq<char>>(s@),
            Err(e) => transformed(value@, *transform, text_entries(item.view()), base_url@) == Err::<Seq<char>, Seq<char>>(e@),
        },
{
    match transform {
        Transformation::Replace { pattern, replacement, regex } => {
            if *regex {
                match regex_replace_all(pattern.as_str(), value.as_str(), replacement.as_str()) {
                    Ok(s) => Ok(s),
                    Err(e) => Err(concat("Invalid regex: ", e.as_str())),
                }
            } else {
                Ok(str_replace(value.as_str(), pattern.as_str(), replacement.as_str()))
            }
        },
        Transformation::Trim => Ok(str_trim(value.as_str())),
        Transformation::Lowercase => Ok(to_lower(value.as_str())),
        Transformation::Uppercase => Ok(to_upper(value.as_str())),
        Transformation::Capitalize => {
            let v = chars_of(value.as_str());
            if v.len() == 0 {
                Ok(value)
            } else {
                let first = upper_of_char(v[0]);
                let rest = string_from_chars(slice_to_vec(v.as_slice(), 1, v.len()));
                assert(rest@ =~= value@.drop_first());
                Ok(concat(first.as_str(), rest.as_str()))
            }
        },
        Transformation::CollapseWhitespace => {
            let ws = str_words(value.as_str());
            Ok(str_join(ws.as_slice(), " "))
        },
        Transformation::Truncate { max_length, suffix } => {
            if exceeds_bytes(value.as_str(), *max_length) {
                match byte_boundary(value.as_str(), *max_length) {
                    Some(k) => {
                        let v = chars_of(value.as_str());
                        proof { crate::text::lemma_chars_in_bytes_bound(value@, *max_length as nat); }
                        let head = string_from_chars(slice_to_vec(v.as_slice(), 0, k));
                        Ok(concat(head.as_str(), suffix.as_str()))
                    },
                    None => Ok(value),
                }
            } else {
                Ok(value)
            }
        },
        Transformation::RemoveHtml => Ok(remove_html_tags(value.as_str())),
        Transformation::StripPrefix { prefix } => {
            if str_starts_with(value.as_str(), prefix.as_str()) {
                let v = chars_of(value.as_str());
                let p = chars_of(prefix.as_str());
                Ok(string_from_chars(slice_to_vec(v.as_slice(), p.len(), v.len())))
            } else {
                Ok(value)
            }
        },
        Transformation::StripSuffix { suffix } => {
            if str_ends_with(value.as_str(), suffix.as_str()) {
                let v = chars_of(value.as_str());
                let p = chars_of(suffix.as_str());
                Ok(string_from_chars(slice_to_vec(v.as_slice(), 0, v.len() - p.len())))
            } else {
                Ok(value)
            }
        },
        Transformation::UrlNormalize { base_url: own_base, rules } => {
            let base = match own_base {
                Some(b) => b.as_str(),
                None => base_url,
            };
            Ok(normalize_url(value.as_str(), base, rules.as_slice()))
        },
        Transformation::Template { template } => Ok(apply_template(template.as_str(), item)),
        Transformation::Extract { pattern, group } => {
            match regex_captures(pattern.as_str(), value.as_str()) {
                Err(e) => Err(concat("Invalid regex: ", e.as_str())),
                Ok(None) => Ok(value),
                Ok(Some(gs)) => {
                    if *group < gs.len() {
                        match &gs[*group] {
                            Some(m) => Ok(m.clone()),
                            None => Ok(value),
                        }
                    } else {
                        Ok(value)
                    }
                },
            }
        },
        Transformation::Split { delimiter, index, join: joiner } => {
            let parts = str_split(value.as_str(), delimiter.as_str());
            match index {
                Some(i) => {
                    if *i < parts.len() {
                        Ok(parts[*i].clone())
                    } else {
                        Ok(value)
                    }
                },
                None => match joiner {
                    Some(j) => Ok(str_join(parts.as_slice(), j.as_str())),
                    None => Ok(value),
                },
            }
        },
        Transformation::Append { text } => Ok(concat(value.as_str(), text.as_str())),
        Transformation::Prepend { text } => Ok(concat(text.as_str(), value.as_str())),
        Transformation::Default { value: default } => {
            if str_is_empty(value.as_str()) {
                Ok(default.clone())
            } else {
                Ok(value)
            }
        },
        Transformation::Custom { .. } => Ok(value),
    }
}

/// Apply a chain of transformations to a value; `None` when a truncation in
/// the chain would cut a character.
pub fn apply_transform_chain(value: String, transforms: &[Transformation], item: &Dict<String>, base_url: &str) -> (r: Option<Result<String, String>>)
    ensures
        match r {
            Some(Ok(s)) => chain_result(value@, transforms@, text_entries(item.view()), base_url@) == Some(Ok::<Seq<char>, Seq<char>>(s@)),
            Some(Err(e)) => chain_result(value@, transforms@, text_entries(item.view()), base_url@) == Some(Err::<Seq<char>, Seq<char>>(e@)),
            None => chain_result(value@, transforms@, text_entries(item.view()), base_url@) is None,
        },
{
    let ghost te = text_entries(item.view());
    let ghost v0 = value@;
    let mut current = value;
    let mut i: usize = 0;
    assert(transforms@.take(0) =~= Seq::<Transformation>::empty());
    while i < transforms.len()
        invariant
            i <= transforms.len(),
            te == text_entries(item.view()),
            v0 == value@,
            chain_result(v0, transforms@.take(i as int), te, base_url@) == Some(Ok::<Seq<char>, Seq<char>>(current@)),
        decreases transforms.len() - i,
    {
        proof {
            assert(transforms@.take(i + 1).drop_last() =~= transforms@.take(i as int));
        }
        proof {
            assert(transforms@.take(i + 1).last() == transforms@[i as int]);
        }
        if would_cut_char(current.as_str(), &transforms[i]) {
            assert(chain_result(v0, transforms@.take(i + 1), te, base_url@) is None);
            proof { lemma_chain_stops(v0, transforms@, i as int, te, base_url@); }
            return None;
        }
        match apply_single_transform(current, &transforms[i], item, base_url) {
            Ok(s) => {
                current = s;
            },
            Err(e) => {
                assert(chain_result(v0, transforms@.take(i + 1), te, base_url@) == Some(Err::<Seq<char>, Seq<char>>(e@)));
                proof { lemma_chain_stops(v0, transforms@, i as int, te, base_url@); }
                return Some(Err(e));
            },
        }
        i = i + 1;
    }
    assert(transforms@.take(transforms.len() as int) =~= transforms@);
    Some(Ok(current))
}

/// Once a chain has stopped (by an error or a cut character) at step `i`,
/// later steps change nothing.
proof fn lemma_chain_stops(v: Seq<char>, ts: Seq<Transformation>, i: int, item: Seq<(Seq<char>, Seq<char>)>, base: Seq<char>)
    requires
        0 <= i < ts.len(),
        !(chain_result(v, ts.take(i + 1), item, base) matches Some(Ok(_))),
    ensures
        chain_result(v, ts, item, base) == chain_result(v, ts.take(i + 1), item, base),
    decreases ts.len() - i,
{
    if i + 1 < ts.len() {
        assert(ts.drop_last().take(i + 1) =~= ts.take(i + 1));
        lemma_chain_stops(v, ts.drop_last(), i, item, base);
    } else {
        assert(ts.take(i + 1) =~= ts);
    }
}

/// The item after running each configured field's chain in turn on the field's
/// value (fields the item lacks are skipped); `None` when a truncation would cut
/// a character.
pub open spec fn item_transformed(item: Seq<(Seq<char>, String)>, fields: Seq<(Seq<char>, Vec<Transformation>)>, base: Seq<char>) -> Option<Result<Seq<(Seq<char>, Seq<char>)>, Seq<char>>>
    decreases fields.len(),
{
    if fields.len() == 0 {
        Some(Ok(text_entries(item)))
    } else {
        match item_transformed(item, fields.drop_last(), base) {
            Some(Ok(cur)) => {
                let (name, ts) = fields.last();
                match crate::dict::lookup(cur, name) {
                    Some(v) => match chain_result(v, ts@, cur, base) {
                        Some(Ok(w)) => Some(Ok(inserted(cur, name, w))),
                        Some(Err(e)) => Some(Err(e)),
                        None => None,
                    },
                    None => Some(Ok(cur)),
                }
            },
            other => other,
        }
    }
}

proof fn lemma_item_stops(item: Seq<(Seq<char>, String)>, fields: Seq<(Seq<char>, Vec<Transformation>)>, i: int, base: Seq<char>)
    requires
        0 <= i < fields.len(),
        !(item_transformed(item, fields.take(i + 1), base) matches Some(Ok(_))),
    ensures
        item_transformed(item, fields, base) == item_transformed(item, fields.take(i + 1), base),
    decreases fields.len() - i,
{
    if i + 1 < fields.len() {
        assert(fields.drop_last().take(i + 1) =~= fields.take(i + 1));
        lemma_item_stops(item, fields.drop_last(), i, base);
    } else {
        assert(fields.take(i + 1) =~= fields);
    }
}

/// Run each configured field's transformation chain on the item, in the
/// configuration's order; `None` when a truncation would cut a character.
pub fn apply_transformations(input: Dict<String>, config: &SourceConfig) -> (r: Option<Result<Dict<String>, String>>)
    ensures
        ({
            let fields = match config.transformations {
                Some(t) => t.view(),
                None => Seq::empty(),
            };
            match r {
                Some(Ok(d)) => item_transformed(input.view(), fields, config.base_url@) == Some(Ok::<Seq<(Seq<char>, Seq<char>)>, Seq<char>>(text_entries(d.view()))),
                Some(Err(e)) => item_transformed(input.view(), fields, config.base_url@) == Some(Err::<Seq<(Seq<char>, Seq<char>)>, Seq<char>>(e@)),
                None => item_transformed(input.view(), fields, config.base_url@) is None,
            }
        }),
{
    let ghost orig = input.view();
    let mut item = input;
    match &config.transformations {
        None => {
            return Some(Ok(item));
        },
        Some(transformations) => {
            let ghost fields = transformations.view();
            let n = transformations.len();
            let mut i: usize = 0;
            assert(fields.take(0) =~= Seq::<(Seq<char>, Vec<Transformation>)>::empty());
            while i < n
                invariant
                    i <= n,
                    n == fields.len(),
                    fields == transformations.view(),
                    orig == input.view(),
                    config.transformations == Some(*transformations),
                    item_transformed(orig, fields.take(i as int), config.base_url@)
                        == Some(Ok::<Seq<(Seq<char>, Seq<char>)>, Seq<char>>(text_entries(item.view()))),
                decreases n - i,
            {
                proof {
                    assert(fields.take(i + 1).drop_last() =~= fields.take(i as int));
                    assert(fields.take(i + 1).last() == fields[i as int]);
                }
                let field_name = transformations.key_at(i);
                let transforms = transformations.value_at(i);
                let found = match get_text(&item, field_name.as_str()) {
                    Some(v) => Some(v.clone()),
                    None => None,
                };
                match found {
                    Some(v) => {
                        match apply_transform_chain(v, transforms.as_slice(), &item, config.base_url.as_str()) {
                            Some(Ok(w)) => {
                                item.assert_unique();
                                proof {
                                    crate::dict::lemma_text_entries_inserted(item.view(), field_name@, w);
                                }
                                item.insert(field_name.clone(), w);
                            },
                            Some(Err(e)) => {
                                assert(item_transformed(orig, fields.take(i + 1), config.base_url@)
                                    == Some(Err::<Seq<(Seq<char>, Seq<char>)>, Seq<char>>(e@)));
                                proof { lemma_item_stops(orig, fields, i as int, config.base_url@); }
                                return Some(Err(e));
                            },
                            None => {
                                assert(item_transformed(orig, fields.take(i + 1), config.base_url@) is None);
                                proof { lemma_item_stops(orig, fields, i as int, config.base_url@); }
                                return None;
                            },
                        }
                    },
                    None => {},
                }
                i = i + 1;
            }
            assert(fields.take(n as int) =~= fields);
            Some(Ok(item))
        },
    }
}

/// The lower-case transformation gives the Unicode lower-case form of the
/// value (`str::to_lowercase`), whatever the value, item and base URL.
pub proof fn law_lowercase_transform(v: Seq<char>, item: Seq<(Seq<char>, Seq<char>)>, base: Seq<char>)
    ensures
        transformed(v, Transformation::Lowercase, item, base) == Ok::<Seq<char>, Seq<char>>(lowercase(v)),
        transformed(v, Transformation::Uppercase, item, base) == Ok::<Seq<char>, Seq<char>>(uppercase(v)),
{
}

/// Stripping a prefix from a value that starts with it leaves the rest, and
/// stripping a suffix from a value that ends with it leaves what comes
/// before; a value without them is kept. Appending and prepending put the
/// text after and before the value; a default replaces only an empty value.
pub proof fn law_affix_transforms(rest: Seq<char>, a: String, item: Seq<(Seq<char>, Seq<char>)>, base: Seq<char>)
    ensures
        transformed(a@ + rest, Transformation::StripPrefix { prefix: a }, item, base) == Ok::<Seq<char>, Seq<char>>(rest),
        transformed(rest + a@, Transformation::StripSuffix { suffix: a }, item, base) == Ok::<Seq<char>, Seq<char>>(rest),
        !has_prefix(rest, a@) ==> transformed(rest, Transformation::StripPrefix { prefix: a }, item, base) == Ok::<Seq<char>, Seq<char>>(rest),
        transformed(rest, Transformation::Append { text: a }, item, base) == Ok::<Seq<char>, Seq<char>>(rest + a@),
        transformed(rest, Transformation::Prepend { text: a }, item, base) == Ok::<Seq<char>, Seq<char>>(a@ + rest),
        rest.len() > 0 ==> transformed(rest, Transformation::Default { value: a }, item, base) == Ok::<Seq<char>, Seq<char>>(rest),
        transformed(Seq::empty(), Transformation::Default { value: a }, item, base) == Ok::<Seq<char>, Seq<char>>(a@),
        transformed(rest, Transformation::Trim, item, base) == Ok::<Seq<char>, Seq<char>>(trim(rest)),
{
    let v = a@ + rest;
    assert(v.subrange(0, a@.len() as int) =~= a@);
    assert(v.skip(a@.len() as int) =~= rest);
    let w = rest + a@;
    assert(w.subrange(w.len() - a@.len(), w.len() as int) =~= a@);
    assert(w.take(w.len() - a@.len()) =~= rest);
}

} // verus!
