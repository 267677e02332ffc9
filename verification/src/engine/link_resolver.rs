//! Link resolution: the steps that turn a scraped link into a direct one. The
//! library decides each step; fetching pages and waiting are the application's,
//! which hands the fetched content back.
use vstd::prelude::*;
use crate::config::link_resolution::{LinkResolutionConfig, LinkResolver, ResolutionStep, ExtractionMethodType};
use crate::config::transformations::Transformation;
use crate::dict::{Dict, text_entries, text_lookup, get_text, inserted};
use crate::text::{replace_all, trim, has_prefix, has_suffix, str_replace, str_trim, str_starts_with, str_ends_with,
    str_is_empty, concat, concat3, chars_of, string_from_chars, slice_to_vec, to_decimal, dec_of, views};
use crate::unicode::{lowercase, uppercase, to_lower, to_upper};
use crate::regex_ext::{regex_valid, regex_error, regex_replaced, regex_groups, regex_replace_all, regex_captures};
use crate::html::{html_picked, html_pick, element_view};

verus! {

/// Unit type that owns the link-resolution rules.
pub struct LinkResolverEngine {}

/// What a regular-expression extraction gives: the group (1 unless
/// configured) of the first match.
pub open spec fn regex_extracted(content: Seq<char>, pattern: Option<String>, group: Option<usize>) -> Result<Seq<char>, Seq<char>> {
    match pattern {
        None => Err("Regex extraction requires 'pattern' parameter"@),
        Some(p) => if !regex_valid(p@) {
            Err("Invalid regex '"@ + p@ + "': "@ + regex_error(p@))
        } else {
            let g: nat = match group { Some(g) => g as nat, None => 1 };
            match regex_groups(p@, content) {
                Some(gs) => if g < gs.len() && gs[g as int] is Some {
                    Ok(gs[g as int]->0)
                } else {
                    Err("Regex group "@ + dec_of(g) + " not found"@)
                },
                None => Err("No match found for pattern: "@ + p@),
            }
        },
    }
}

/// What a selector extraction gives: the attribute (or the text) of the first
/// element the selector picks, then the regular expression's group when a
/// pattern is set.
pub open spec fn selector_extracted(content: Seq<char>, selector: Option<String>, attribute: Option<String>, pattern: Option<String>, group: Option<usize>) -> Result<Seq<char>, Seq<char>> {
    match selector {
        None => Err("Selector extraction requires 'selector' parameter"@),
        Some(sel) => {
            let names = match attribute { Some(a) => seq![a@], None => Seq::empty() };
            match html_picked(content, sel@, names, Seq::empty()) {
                Err(e) => Err("Invalid CSS selector '"@ + sel@ + "': "@ + e),
                Ok(v) => if v.len() == 0 {
                    Err("Selector '"@ + sel@ + "' not found in content"@)
                } else {
                    let value: Result<Seq<char>, Seq<char>> = match attribute {
                        Some(a) => if v[0].0.1.len() > 0 && v[0].0.1[0] is Some {
                            Ok(v[0].0.1[0]->0)
                        } else {
                            Err("Attribute '"@ + a@ + "' not found on element"@)
                        },
                        None => Ok(v[0].0.0),
                    };
                    match value {
                        Err(e) => Err(e),
                        Ok(x) => match pattern {
                            Some(p) => regex_extracted(x, Some(p), group),
                            None => Ok(x),
                        },
                    }
                },
            }
        },
    }
}

/// What an extract step gives for the fetched content.
pub open spec fn step_extracted(content: Seq<char>, method: ExtractionMethodType, pattern: Option<String>, group: Option<usize>, selector: Option<String>, attribute: Option<String>, fallback: Option<String>) -> Result<Seq<char>, Seq<char>> {
    let raw: Result<Seq<char>, Seq<char>> = match method {
        ExtractionMethodType::Regex => regex_extracted(content, pattern, group),
        ExtractionMethodType::Selector => selector_extracted(content, selector, attribute, pattern, group),
        ExtractionMethodType::Text => Ok(content),
        ExtractionMethodType::JsonPath => Err("JsonPath extraction not yet implemented"@),
        ExtractionMethodType::XPath => Err("XPath extraction not yet implemented"@),
    };
    match raw {
        Err(e) => Err(e),
        Ok(r) => if r.len() == 0 {
            match fallback {
                Some(f) => Ok(f@),
                None => Err("Extraction returned empty result and no fallback provided"@),
            }
        } else {
            Ok(r)
        },
    }
}

/// One transformation as link resolution applies it (replace, trim, case,
/// prefix and suffix; the others leave the value as it is).
pub open spec fn link_transformed(v: Seq<char>, t: Transformation) -> Result<Seq<char>, Seq<char>> {
    match t {
        Transformation::Replace { pattern, replacement, regex } => if regex {
            if regex_valid(pattern@) {
                Ok(regex_replaced(pattern@, v, replacement@))
            } else {
                Err("Invalid regex: "@ + regex_error(pattern@))
            }
        } else {
            Ok(replace_all(v, pattern@, replacement@))
        },
        Transformation::Trim => Ok(trim(v)),
        Transformation::Lowercase => Ok(lowercase(v)),
        Transformation::Uppercase => Ok(uppercase(v)),
        Transformation::StripPrefix { prefix } => Ok(if has_prefix(v, prefix@) { v.skip(prefix@.len() as int) } else { v }),
        Transformation::StripSuffix { suffix } => Ok(if has_suffix(v, suffix@) { v.take(v.len() - suffix@.len()) } else { v }),
        _ => Ok(v),
    }
}

/// Those transformations applied in turn, stopping at the first error.
pub open spec fn link_chain(v: Seq<char>, ts: Seq<Transformation>) -> Result<Seq<char>, Seq<char>>
    decreases ts.len(),
{
    if ts.len() == 0 {
        Ok(v)
    } else {
        match link_chain(v, ts.drop_last()) {
            Ok(w) => link_transformed(w, ts.last()),
            Err(e) => Err(e),
        }
    }
}

proof fn lemma_link_chain_stops(v: Seq<char>, ts: Seq<Transformation>, i: int)
    requires
        0 <= i < ts.len(),
        link_chain(v, ts.take(i + 1)) is Err,
    ensures
        link_chain(v, ts) == link_chain(v, ts.take(i + 1)),
    decreases ts.len() - i,
{
    if i + 1 < ts.len() {
        assert(ts.drop_last().take(i + 1) =~= ts.take(i + 1));
        lemma_link_chain_stops(v, ts.drop_last(), i);
    } else {
        assert(ts.take(i + 1) =~= ts);
    }
}

/// Apply one transformation as link resolution does.
fn link_transform(value: String, t: &Transformation) -> (r: Result<String, String>)
    ensures
        match r {
            Ok(s) => link_transformed(value@, *t) == Ok::<Seq<char>, Seq<char>>(s@),
            Err(e) => link_transformed(value@, *t) == Err::<Seq<char>, Seq<char>>(e@),
        },
{
    match t {
        Transformation::Replace { pattern, replacement, regex } => {
            if *regex {
                match regex_replace_all(pattern.as_str(), value.as_str(), replacement.as_str()) {
                    Ok(s) => Ok(s),
                    Err(e) => Err(concat("Invalid regex: ", e.as_str())),
                }
            } else {
                Ok(str_replace(value.as_str(), pattern.as_str(), replacement.as_str()))
            }
        },
        Transformation::Trim => Ok(str_trim(value.as_str())),
        Transformation::Lowercase => Ok(to_lower(value.as_str())),
        Transformation::Uppercase => Ok(to_upper(value.as_str())),
        Transformation::StripPrefix { prefix } => {
            if str_starts_with(value.as_str(), prefix.as_str()) {
                let v = chars_of(value.as_str());
                let p = chars_of(prefix.as_str());
                Ok(string_from_chars(slice_to_vec(v.as_slice(), p.len(), v.len())))
            } else {
                Ok(value)
            }
        },
        Transformation::StripSuffix { suffix } => {
            if str_ends_with(value.as_str(), suffix.as_str()) {
                let v = chars_of(value.as_str());
                let p = chars_of(suffix.as_str());
                let keep = v.len() - p.len();
                Ok(string_from_chars(slice_to_vec(v.as_slice(), 0, keep)))
            } else {
                Ok(value)
            }
        },
        _ => Ok(value),
    }
}

impl LinkResolverEngine {
    /// The group (1 unless configured) of the first match of the pattern.
    pub fn extract_with_regex(content: &str, pattern: &Option<String>, group: &Option<usize>) -> (r: Result<String, String>)
        ensures
            match r {
                Ok(s) => regex_extracted(content@, *pattern, *group) == Ok::<Seq<char>, Seq<char>>(s@),
                Err(e) => regex_extracted(content@, *pattern, *group) == Err::<Seq<char>, Seq<char>>(e@),
            },
    {
        let pat = match pattern {
            Some(p) => p,
            None => return Err("Regex extraction requires 'pattern' parameter".to_string()),
        };
        match regex_captures(pat.as_str(), content) {
            Err(e) => {
                let head = concat3("Invalid regex '", pat.as_str(), "': ");
                Err(concat(head.as_str(), e.as_str()))
            },
            Ok(None) => Err(concat("No match found for pattern: ", pat.as_str())),
            Ok(Some(gs)) => {
                let grp: usize = match group {
                    Some(g) => *g,
                    None => 1,
                };
                if grp < gs.len() {
                    match &gs[grp] {
                        Some(m) => return Ok(m.clone()),
                        None => {},
                    }
                }
                let num = to_decimal(grp as u128);
                Err(concat3("Regex group ", num.as_str(), " not found"))
            },
        }
    }

    /// The attribute (or text) of the first element the selector picks, then
    /// the pattern's group when a pattern is set.
    pub fn extract_with_selector(
        content: &str,
        selector: &Option<String>,
        attribute: &Option<String>,
        pattern: &Option<String>,
        group: &Option<usize>,
    ) -> (r: Result<String, String>)
        ensures
            match r {
                Ok(s) => selector_extracted(content@, *selector, *attribute, *pattern, *group) == Ok::<Seq<char>, Seq<char>>(s@),
                Err(e) => selector_extracted(content@, *selector, *attribute, *pattern, *group) == Err::<Seq<char>, Seq<char>>(e@),
            },
    {
        let sel = match selector {
            Some(s) => s,
            None => return Err("Selector extraction requires 'selector' parameter".to_string()),
        };
        let names: Vec<String> = match attribute {
            Some(a) => vec![a.clone()],
            None => Vec::new(),
        };
        assert(views(names@) =~= (match *attribute { Some(a) => seq![a@], None => Seq::<Seq<char>>::empty() }));
        let none: Vec<String> = Vec::new();
        assert(views(none@) =~= Seq::<Seq<char>>::empty());
        let picked = match html_pick(content, sel.as_str(), names.as_slice(), none.as_slice()) {
            Err(e) => {
                let head = concat3("Invalid CSS selector '", sel.as_str(), "': ");
                return Err(concat(head.as_str(), e.as_str()));
            },
            Ok(v) => v,
        };
        if picked.len() == 0 {
            return Err(concat3("Selector '", sel.as_str(), "' not found in content"));
        }
        let mut picked = picked;
        let first = picked.remove(0);
        assert(element_view(first.element) == crate::html::picked_view(first).0);
        let el = first.element;
        let value = match attribute {
            Some(a) => {
                let mut attrs = el.attrs;
                let found = if attrs.len() > 0 {
                    attrs.remove(0)
                } else {
                    None
                };
                match found {
                    Some(v) => v,
                    None => return Err(concat3("Attribute '", a.as_str(), "' not found on element")),
                }
            },
            None => el.text,
        };
        match pattern {
            Some(p) => {
                let pp = Some(p.clone());
                Self::extract_with_regex(value.as_str(), &pp, group)
            },
            None => Ok(value),
        }
    }

    /// What an extract step gives for the fetched content (the fallback when
    /// it finds nothing).
    pub fn extract_step(
        content: &str,
        method: &ExtractionMethodType,
        pattern: &Option<String>,
        group: &Option<usize>,
        selector: &Option<String>,
        attribute: &Option<String>,
        fallback: &Option<String>,
    ) -> (r: Result<String, String>)
        ensures
            match r {
                Ok(s) => step_extracted(content@, *method, *pattern, *group, *selector, *attribute, *fallback) == Ok::<Seq<char>, Seq<char>>(s@),
                Err(e) => step_extracted(content@, *method, *pattern, *group, *selector, *attribute, *fallback) == Err::<Seq<char>, Seq<char>>(e@),
            },
    {
        let result = match method {
            ExtractionMethodType::Regex => match Self::extract_with_regex(content, pattern, group) {
                Ok(s) => s,
                Err(e) => return Err(e),
            },
            ExtractionMethodType::Selector => match Self::extract_with_selector(content, selector, attribute, pattern, group) {
                Ok(s) => s,
                Err(e) => return Err(e),
            },
            ExtractionMethodType::Text => content.to_string(),
            ExtractionMethodType::JsonPath => return Err("JsonPath extraction not yet implemented".to_string()),
            ExtractionMethodType::XPath => return Err("XPath extraction not yet implemented".to_string()),
        };
        if str_is_empty(result.as_str()) {
            return match fallback {
                Some(fb) => Ok(fb.clone()),
                None => Err("Extraction returned empty result and no fallback provided".to_string()),
            };
        }
        Ok(result)
    }

    /// Run the transformations of a transform step on a value.
    pub fn transform_step(value: String, transformations: &[Transformation]) -> (r: Result<String, String>)
        ensures
            match r {
                Ok(s) => link_chain(value@, transformations@) == Ok::<Seq<char>, Seq<char>>(s@),
                Err(e) => link_chain(value@, transformations@) == Err::<Seq<char>, Seq<char>>(e@),
            },
    {
        let ghost v0 = value@;
        let mut current = value;
        let mut i: usize = 0;
        assert(transformations@.take(0) =~= Seq::<Transformation>::empty());
        while i < transformations.len()
            invariant
                i <= transformations.len(),
                v0 == value@,
                link_chain(v0, transformations@.take(i as int)) == Ok::<Seq<char>, Seq<char>>(current@),
            decreases transformations.len() - i,
        {
            proof {
                assert(transformations@.take(i + 1).drop_last() =~= transformations@.take(i as int));
            }
            match link_transform(current, &transformations[i]) {
                Ok(s) => {
                    current = s;
                },
                Err(e) => {
                    proof { lemma_link_chain_stops(v0, transformations@, i as int); }
                    return Err(e);
                },
            }
            i = i + 1;
        }
        assert(transformations@.take(transformations.len() as int) =~= transformations@);
        Ok(current)
    }
}

/// What a resolution step asks of the application, or what it computed.
#[derive(Debug)]
pub enum LinkStepOutcome {
    /// Fetch this URL; the value stays the URL and the response becomes the content.
    Fetch(String),
    /// Wait this many milliseconds; the value then becomes empty.
    Wait(u64),
    /// The step computed this new value.
    Value(String),
    /// The step failed.
    Failed(String),
}

/// What a resolution step does with the current value and the last fetched
/// content.
pub fn link_step(value: String, step: &ResolutionStep, content: &str) -> (r: LinkStepOutcome)
    ensures
        match step {
            ResolutionStep::Fetch { .. } => r matches LinkStepOutcome::Fetch(u) && u@ == value@,
            ResolutionStep::Wait { duration_ms } => r matches LinkStepOutcome::Wait(ms) && ms == duration_ms,
            ResolutionStep::Extract { method, pattern, group, selector, attribute, fallback } =>
                match step_extracted(content@, *method, *pattern, *group, *selector, *attribute, *fallback) {
                    Ok(s) => r matches LinkStepOutcome::Value(v) && v@ == s,
                    Err(e) => r matches LinkStepOutcome::Failed(m) && m@ == e,
                },
            ResolutionStep::Transform { transformations } => match link_chain(value@, transformations@) {
                Ok(s) => r matches LinkStepOutcome::Value(v) && v@ == s,
                Err(e) => r matches LinkStepOutcome::Failed(m) && m@ == e,
            },
            ResolutionStep::Custom { .. } => r matches LinkStepOutcome::Value(v) && v@ == value@,
        },
{
    match step {
        ResolutionStep::Fetch { .. } => LinkStepOutcome::Fetch(value),
        ResolutionStep::Wait { duration_ms } => LinkStepOutcome::Wait(*duration_ms),
        ResolutionStep::Extract { method, pattern, group, selector, attribute, fallback } => {
            match LinkResolverEngine::extract_step(content, method, pattern, group, selector, attribute, fallback) {
                Ok(s) => LinkStepOutcome::Value(s),
                Err(e) => LinkStepOutcome::Failed(e),
            }
        },
        ResolutionStep::Transform { transformations } => {
            match LinkResolverEngine::transform_step(value, transformations.as_slice()) {
                Ok(s) => LinkStepOutcome::Value(s),
                Err(e) => LinkStepOutcome::Failed(e),
            }
        },
        ResolutionStep::Custom { .. } => LinkStepOutcome::Value(value),
    }
}

/// Store a resolved link (and its metadata, in order) in an item.
pub fn store_resolved(item: &mut Dict<String>, output_field: &str, url: String, metadata: &Dict<String>)
    ensures
        final(item).view() == crate::dict::inserted_all(
            crate::dict::inserted(old(item).view(), output_field@, url), metadata.view()),
{
    item.insert(output_field.to_string(), url);
    let ghost base = item.view();
    let n = metadata.len();
    let mut i: usize = 0;
    assert(metadata.view().take(0) =~= Seq::<(Seq<char>, String)>::empty());
    while i < n
        invariant
            i <= n,
            n == metadata.view().len(),
            item.view() == crate::dict::inserted_all(base, metadata.view().take(i as int)),
        decreases n - i,
    {
        proof {
            assert(metadata.view().take(i + 1).drop_last() =~= metadata.view().take(i as int));
        }
        item.insert(metadata.key_at(i).clone(), metadata.value_at(i).clone());
        i = i + 1;
    }
    assert(metadata.view().take(n as int) =~= metadata.view());
}

} // verus!
