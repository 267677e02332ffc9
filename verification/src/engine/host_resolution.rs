//! The download manager's decisions: which strategy a link's host calls for,
//! the resolver steps that turn a host link into a direct one (the
//! application fetches pages and waits, the library decides every step), the
//! error signs checked on a page, and what a smart download reports.
use vstd::prelude::*;
use crate::config::hosts::{HostsConfig, HostConfig, HostResolver, ErrorCondition, DownloadError, DownloadErrorType,
    SmartDownloadResult, error_type_named};
use crate::config::link_resolution::{ResolutionStep, ExtractionMethodType};
use crate::config::transformations::Transformation;
use crate::dict::{Dict, inserted, lookup, placeholders_filled, text_entries, text_lookup, get_text};
use crate::engine::download_manager::{merge_headers, substitute_variables, merged_entries};
use crate::engine::host_detector::{detect_host_with_config, first_host_match};
use crate::url_ext::url_host;
use crate::html::{html_picked, html_pick, element_view, picked_view, Picked};
use crate::json::{JsonKind, jsonpath_found, jsonpath_find, jsonpath_evaluable, is_jsonpath_evaluable};
use crate::regex_ext::{regex_valid, regex_error, regex_groups, regex_captures, regex_replaced, regex_replace_all,
    regex_matches, regex_is_match};
use crate::text::{
    contains, has_prefix, has_suffix, replace_all, trim, dec_of, views, concat, concat3, to_decimal, str_trim,
    str_replace, str_starts_with, str_ends_with, str_is_empty, str_contains, chars_of, slice_to_vec,
    string_from_chars,
};
use crate::unicode::{lowercase, uppercase, to_lower, to_upper};

verus! {

/// What a regular-expression extraction gives: the group (1 unless
/// configured) of the first match.
pub open spec fn regex_value(content: Seq<char>, pattern: Option<String>, group: Option<usize>) -> Result<Seq<char>, Seq<char>> {
    match pattern {
        None => Err("Regex extraction requires 'pattern'"@),
        Some(p) => if !regex_valid(p@) {
            Err("Invalid regex '"@ + p@ + "': "@ + regex_error(p@))
        } else {
            let g: nat = match group { Some(g) => g as nat, None => 1 };
            match regex_groups(p@, content) {
                Some(gs) => if g < gs.len() && gs[g as int] is Some {
                    Ok(gs[g as int]->0)
                } else {
                    Err("Regex group "@ + dec_of(g) + " not found"@)
                },
                None => Err("No match for pattern: "@ + p@),
            }
        },
    }
}

/// What a selector extraction gives: the attribute (or the whole text) of
/// the first element the selector picks.
pub open spec fn selector_value(content: Seq<char>, selector: Option<String>, attribute: Option<String>) -> Result<Seq<char>, Seq<char>> {
    match selector {
        None => Err("Selector extraction requires 'selector'"@),
        Some(sel) => {
            let names = match attribute { Some(a) => seq![a@], None => Seq::empty() };
            match html_picked(content, sel@, names, Seq::empty()) {
                Err(e) => Err("Invalid CSS selector '"@ + sel@ + "': "@ + e),
                Ok(ps) => if ps.len() == 0 {
                    Err("Selector '"@ + sel@ + "' not found"@)
                } else {
                    let el = ps[0].0;
                    match attribute {
                        Some(a) => match (if el.1.len() > 0 { el.1[0] } else { None }) {
                            Some(v) => Ok(v),
                            None => Err("Attribute '"@ + a@ + "' not found"@),
                        },
                        None => Ok(el.0),
                    }
                },
            }
        },
    }
}

/// `s` without leading and trailing double quotes.
pub open spec fn unquoted(s: Seq<char>) -> Seq<char>
    decreases s.len(),
{
    if s.len() > 0 && s[0] == '"' {
        unquoted(s.drop_first())
    } else if s.len() > 0 && s.last() == '"' {
        unquoted(s.drop_last())
    } else {
        s
    }
}

/// The text of a found JSON value: a string's contents, else its JSON text
/// without surrounding quotes.
pub open spec fn found_text(leaf: (JsonKind, Seq<char>, nat)) -> Seq<char> {
    if leaf.0 == JsonKind::Str { leaf.1 } else { unquoted(leaf.1) }
}

/// What a JSONPath extraction gives: the first match's text; the text of
/// what was found otherwise (an empty array as `[]`); an error when only
/// missing values matched. A path with an index the JSONPath crate cannot
/// evaluate is refused.
pub open spec fn jsonpath_value(content: Seq<char>, path: Option<String>) -> Result<Seq<char>, Seq<char>> {
    match path {
        None => Err("JSONPath extraction requires 'pattern'"@),
        Some(p) => if !jsonpath_evaluable(p@) {
            Err("Unsupported JSONPath '"@ + p@ + "': "@ + "an index that cannot be evaluated"@)
        } else {
            match jsonpath_found(content, p@) {
            Err((true, e)) => Err("Invalid JSON: "@ + e),
            Err((false, e)) => Err("Invalid JSONPath '"@ + p@ + "': "@ + e),
            Ok((found, first)) => if found.0 == JsonKind::Array && found.2 > 0 && first is Some {
                Ok(found_text(first->0))
            } else if found.0 == JsonKind::Null {
                Err("No match for JSONPath: "@ + p@)
            } else {
                Ok(found_text(found))
            },
            }
        },
    }
}

/// What an extract step gives (the regular expression reads the URL when no
/// page was fetched); an empty result is replaced by the fallback, or is an
/// error without one.
pub open spec fn extracted_value(
    content: Seq<char>,
    url: Seq<char>,
    method: ExtractionMethodType,
    pattern: Option<String>,
    group: Option<usize>,
    selector: Option<String>,
    attribute: Option<String>,
    fallback: Option<String>,
) -> Result<Seq<char>, Seq<char>> {
    let raw = match method {
        ExtractionMethodType::Regex => regex_value(if content.len() == 0 { url } else { content }, pattern, group),
        ExtractionMethodType::Selector => selector_value(content, selector, attribute),
        ExtractionMethodType::JsonPath => jsonpath_value(content, pattern),
        ExtractionMethodType::Text => Ok(content),
        ExtractionMethodType::XPath => Err("XPath extraction not supported"@),
    };
    match raw {
        Err(e) => Err(e),
        Ok(v) => if v.len() == 0 {
            match fallback {
                Some(f) => Ok(f@),
                None => Err("Extraction returned empty result"@),
            }
        } else {
            Ok(v)
        },
    }
}

/// One transformation of a host resolver (the others leave the value).
pub open spec fn resolver_transformed(v: Seq<char>, t: Transformation, vars: Seq<(Seq<char>, Seq<char>)>) -> Result<Seq<char>, Seq<char>> {
    match t {
        Transformation::Template { template } => Ok(placeholders_filled(template@, vars, Seq::empty())),
        Transformation::Replace { pattern, replacement, regex } => if regex {
            if regex_valid(pattern@) {
                Ok(regex_replaced(pattern@, v, replacement@))
            } else {
                Err("Invalid regex: "@ + regex_error(pattern@))
            }
        } else {
            Ok(replace_all(v, pattern@, replacement@))
        },
        Transformation::Trim => Ok(trim(v)),
        Transformation::Lowercase => Ok(lowercase(v)),
        Transformation::Uppercase => Ok(uppercase(v)),
        Transformation::StripPrefix { prefix } => Ok(if has_prefix(v, prefix@) { v.skip(prefix@.len() as int) } else { v }),
        Transformation::StripSuffix { suffix } => Ok(if has_suffix(v, suffix@) { v.take(v.len() - suffix@.len()) } else { v }),
        Transformation::Append { text } => Ok(v + text@),
        Transformation::Prepend { text } => Ok(text@ + v),
        Transformation::Default { value } => Ok(if v.len() == 0 { value@ } else { v }),
        _ => Ok(v),
    }
}

/// The transformations of a host resolver applied in turn; the first error
/// stops them.
pub open spec fn resolver_chain(v: Seq<char>, ts: Seq<Transformation>, vars: Seq<(Seq<char>, Seq<char>)>) -> Result<Seq<char>, Seq<char>>
    decreases ts.len(),
{
    if ts.len() == 0 {
        Ok(v)
    } else {
        match resolver_chain(v, ts.drop_last(), vars) {
            Ok(w) => resolver_transformed(w, ts.last(), vars),
            Err(e) => Err(e),
        }
    }
}

proof fn lemma_chain_stops(v: Seq<char>, ts: Seq<Transformation>, vars: Seq<(Seq<char>, Seq<char>)>, i: int)
    requires
        0 <= i < ts.len(),
        resolver_chain(v, ts.take(i + 1), vars) is Err,
    ensures
        resolver_chain(v, ts, vars) == resolver_chain(v, ts.take(i + 1), vars),
    decreases ts.len() - i,
{
    if i + 1 < ts.len() {
        assert(ts.drop_last().take(i + 1) =~= ts.take(i + 1));
        lemma_chain_stops(v, ts.drop_last(), vars, i);
    } else {
        assert(ts.take(i + 1) =~= ts);
    }
}

/// The state of a host resolver while it runs.
#[derive(Debug)]
pub struct ResolutionContext {
    pub current_url: String,
    pub current_content: String,
    pub variables: Dict<String>,
}

/// What the application does for a resolver step.
#[derive(Debug)]
pub enum StepAction {
    /// Fetch this URL with these headers, then hand the page to `fetched`.
    Fetch { url: String, headers: Option<Dict<String>> },
    /// Wait this many milliseconds.
    Wait { duration_ms: u64 },
    /// Nothing to do outside.
    Done,
}

/// Whether an error sign shows on a page.
pub open spec fn sign_shows(content: Seq<char>, c: ErrorCondition) -> bool {
    match c.pattern {
        Some(p) => regex_valid(p@) && regex_matches(p@, content),
        None => match c.selector {
            Some(sel) => match html_picked(content, sel@, Seq::empty(), Seq::empty()) {
                Ok(ps) => ps.len() > 0 && match c.contains {
                    Some(k) => contains(ps[0].0.0, k@),
                    None => true,
                },
                Err(_) => false,
            },
            None => false,
        },
    }
}

/// The index of the first error sign that shows on the page.
pub open spec fn first_sign(content: Seq<char>, cs: Seq<ErrorCondition>) -> Option<int>
    decreases cs.len(),
{
    if cs.len() == 0 {
        None
    } else if sign_shows(content, cs[0]) {
        Some(0)
    } else {
        match first_sign(content, cs.drop_first()) {
            Some(i) => Some(i + 1),
            None => None,
        }
    }
}

/// The error an error sign reports.
pub open spec fn sign_error(e: DownloadError, c: ErrorCondition) -> bool {
    e.error_type == error_type_named(lowercase(c.error_type@)) && e.message == c.message && e.recoverable
}

/// The unit type that owns the download manager's rules.
pub struct DownloadManager {}

/// How a smart download proceeds for a link.
#[derive(Debug)]
pub enum SmartPlan<'a> {
    /// The host needs a browser: report this and stop.
    BrowserOnly(SmartDownloadResult),
    /// Resolve the link with the host's resolver, check the error signs on
    /// the direct link's page, then download.
    Resolve { resolver: &'a HostResolver, signs: &'a Vec<ErrorCondition> },
    /// Download the link as it is.
    Direct,
}

impl DownloadManager {
    /// The group (1 unless configured) of the first match of the pattern.
    pub fn extract_with_regex(content: &str, pattern: &Option<String>, group: &Option<usize>) -> (r: Result<String, String>)
        ensures
            match r {
                Ok(s) => regex_value(content@, *pattern, *group) == Ok::<Seq<char>, Seq<char>>(s@),
                Err(e) => regex_value(content@, *pattern, *group) == Err::<Seq<char>, Seq<char>>(e@),
            },
    {
        let pat = match pattern {
            Some(p) => p,
            None => return Err(String::from_str("Regex extraction requires 'pattern'")),
        };
        match regex_captures(pat.as_str(), content) {
            Err(e) => {
                let head = concat3("Invalid regex '", pat.as_str(), "': ");
                Err(concat(head.as_str(), e.as_str()))
            },
            Ok(None) => Err(concat("No match for pattern: ", pat.as_str())),
            Ok(Some(gs)) => {
                let grp: usize = match group {
                    Some(g) => *g,
                    None => 1,
                };
                if grp < gs.len() {
                    match &gs[grp] {
                        Some(m) => return Ok(m.clone()),
                        None => {},
                    }
                }
                let num = to_decimal(grp as u128);
                Err(concat3("Regex group ", num.as_str(), " not found"))
            },
        }
    }

    /// The attribute (or the whole text) of the first element the selector picks.
    pub fn extract_with_selector(content: &str, selector: &Option<String>, attribute: &Option<String>) -> (r: Result<String, String>)
        ensures
            match r {
                Ok(s) => selector_value(content@, *selector, *attribute) == Ok::<Seq<char>, Seq<char>>(s@),
                Err(e) => selector_value(content@, *selector, *attribute) == Err::<Seq<char>, Seq<char>>(e@),
            },
    {
        let sel = match selector {
            Some(s) => s,
            None => return Err(String::from_str("Selector extraction requires 'selector'")),
        };
        let mut names: Vec<String> = Vec::new();
        if let Some(a) = attribute {
            names.push(a.clone());
        }
        assert(views(names@) =~= (match *attribute { Some(a) => seq![a@], None => Seq::<Seq<char>>::empty() }));
        let none: Vec<String> = Vec::new();
        assert(views(none@) =~= Seq::<Seq<char>>::empty());
        let picked = match html_pick(content, sel.as_str(), names.as_slice(), none.as_slice()) {
            Err(e) => {
                let head = concat3("Invalid CSS selector '", sel.as_str(), "': ");
                return Err(concat(head.as_str(), e.as_str()));
            },
            Ok(v) => v,
        };
        if picked.len() == 0 {
            return Err(concat3("Selector '", sel.as_str(), "' not found"));
        }
        assert(element_view(picked@[0].element) == picked_view(picked@[0]).0);
        let el = &picked[0].element;
        match attribute {
            Some(a) => {
                if el.attrs.len() > 0 {
                    if let Some(v) = &el.attrs[0] {
                        return Ok(v.clone());
                    }
                }
                Err(concat3("Attribute '", a.as_str(), "' not found"))
            },
            None => Ok(el.text.clone()),
        }
    }

    /// The first match of a JSONPath in a JSON page, as text.
    pub fn extract_with_jsonpath(content: &str, path: &Option<String>) -> (r: Result<String, String>)
        ensures
            match r {
                Ok(s) => jsonpath_value(content@, *path) == Ok::<Seq<char>, Seq<char>>(s@),
                Err(e) => jsonpath_value(content@, *path) == Err::<Seq<char>, Seq<char>>(e@),
            },
    {
        let p = match path {
            Some(p) => p,
            None => return Err(String::from_str("JSONPath extraction requires 'pattern'")),
        };
        if !is_jsonpath_evaluable(p.as_str()) {
            let head = concat3("Unsupported JSONPath '", p.as_str(), "': ");
            return Err(concat(head.as_str(), "an index that cannot be evaluated"));
        }
        match jsonpath_find(content, p.as_str()) {
            Err((true, e)) => Err(concat("Invalid JSON: ", e.as_str())),
            Err((false, e)) => {
                let head = concat3("Invalid JSONPath '", p.as_str(), "': ");
                Err(concat(head.as_str(), e.as_str()))
            },
            Ok((found, first)) => {
                if found.kind == JsonKind::Array && found.len > 0 {
                    if let Some(f) = first {
                        return Ok(text_of_found(f.kind, f.text.as_str()));
                    }
                }
                if found.kind == JsonKind::Null {
                    Err(concat("No match for JSONPath: ", p.as_str()))
                } else {
                    Ok(text_of_found(found.kind, found.text.as_str()))
                }
            },
        }
    }

    /// What an extract step gives for the fetched page and current URL.
    pub fn extract_value(
        content: &str,
        url: &str,
        method: &ExtractionMethodType,
        pattern: &Option<String>,
        group: &Option<usize>,
        selector: &Option<String>,
        attribute: &Option<String>,
        fallback: &Option<String>,
    ) -> (r: Result<String, String>)
        ensures
            match r {
                Ok(s) => extracted_value(content@, url@, *method, *pattern, *group, *selector, *attribute, *fallback)
                    == Ok::<Seq<char>, Seq<char>>(s@),
                Err(e) => extracted_value(content@, url@, *method, *pattern, *group, *selector, *attribute, *fallback)
                    == Err::<Seq<char>, Seq<char>>(e@),
            },
    {
        let raw = match method {
            ExtractionMethodType::Regex => {
                let source = if str_is_empty(content) { url } else { content };
                Self::extract_with_regex(source, pattern, group)
            },
            ExtractionMethodType::Selector => Self::extract_with_selector(content, selector, attribute),
            ExtractionMethodType::JsonPath => Self::extract_with_jsonpath(content, pattern),
            ExtractionMethodType::Text => Ok(String::from_str(content)),
            ExtractionMethodType::XPath => Err(String::from_str("XPath extraction not supported")),
        };
        match raw {
            Err(e) => Err(e),
            Ok(v) => if str_is_empty(v.as_str()) {
                match fallback {
                    Some(f) => Ok(f.clone()),
                    None => Err(String::from_str("Extraction returned empty result")),
                }
            } else {
                Ok(v)
            },
        }
    }

    /// The transformations of a host resolver applied in turn to a value.
    pub fn apply_transformations(value: &str, transformations: &[Transformation], variables: &Dict<String>) -> (r: Result<String, String>)
        ensures
            match r {
                Ok(s) => resolver_chain(value@, transformations@, text_entries(variables.view())) == Ok::<Seq<char>, Seq<char>>(s@),
                Err(e) => resolver_chain(value@, transformations@, text_entries(variables.view())) == Err::<Seq<char>, Seq<char>>(e@),
            },
    {
        let ghost vars = text_entries(variables.view());
        let mut current = String::from_str(value);
        let mut i: usize = 0;
        assert(transformations@.take(0) =~= Seq::<Transformation>::empty());
        while i < transformations.len()
            invariant
                i <= transformations.len(),
                vars == text_entries(variables.view()),
                resolver_chain(value@, transformations@.take(i as int), vars) == Ok::<Seq<char>, Seq<char>>(current@),
            decreases transformations.len() - i,
        {
            proof {
                assert(transformations@.take(i + 1).drop_last() =~= transformations@.take(i as int));
                assert(transformations@.take(i + 1).last() == transformations@[i as int]);
            }
            match resolver_transform(current.as_str(), &transformations[i], variables) {
                Ok(next) => current = next,
                Err(e) => {
                    proof { lemma_chain_stops(value@, transformations@, vars, i as int); }
                    return Err(e);
                },
            }
            i = i + 1;
        }
        assert(transformations@.take(i as int) =~= transformations@);
        Ok(current)
    }

    /// The first error sign that shows on the page of a resolved link, as the
    /// error it reports.
    pub fn error_on_page(content: &str, conditions: &Vec<ErrorCondition>) -> (r: Option<DownloadError>)
        ensures
            match first_sign(content@, conditions@) {
                Some(i) => r matches Some(e) && sign_error(e, conditions@[i]),
                None => r is None,
            },
    {
        let mut i: usize = 0;
        assert(conditions@.skip(0) =~= conditions@);
        while i < conditions.len()
            invariant
                i <= conditions.len(),
                first_sign(content@, conditions@) == match first_sign(content@, conditions@.skip(i as int)) {
                    Some(j) => Some(j + i),
                    None => None::<int>,
                },
            decreases conditions.len() - i,
        {
            proof {
                assert(conditions@.skip(i as int)[0] == conditions@[i as int]);
                assert(conditions@.skip(i as int).drop_first() =~= conditions@.skip(i + 1));
            }
            let c = &conditions[i];
            if sign_on_page(content, c) {
                let kind = DownloadErrorType::from(c.error_type.as_str());
                return Some(DownloadError { error_type: kind, message: c.message.clone(), recoverable: true });
            }
            i = i + 1;
        }
        assert(conditions@.skip(i as int) =~= Seq::<ErrorCondition>::empty());
        None
    }

    /// How a smart download of a link proceeds once its host's configuration
    /// is known: a browser-only host is reported (with the link as the
    /// fallback) and stops there; a host with a resolver resolves the link;
    /// anything else is downloaded directly.
    pub fn plan_for_host<'a>(url: &str, host_config: Option<&'a HostConfig>) -> (r: SmartPlan<'a>)
        ensures
            match host_config {
                Some(c) => if c.browser_only {
                    r matches SmartPlan::BrowserOnly(res) && browser_only_result(res, url@, *c)
                } else {
                    match c.resolver {
                        Some(res) => r matches SmartPlan::Resolve { resolver, signs }
                            && *resolver == res && *signs == c.error_conditions,
                        None => r is Direct,
                    }
                },
                None => r is Direct,
            },
    {
        match host_config {
            Some(config) => {
                if config.browser_only {
                    let reason = match &config.browser_only_reason {
                        Some(r) => r.clone(),
                        None => String::from_str("This host requires a browser"),
                    };
                    return SmartPlan::BrowserOnly(SmartDownloadResult {
                        success: false,
                        file_path: None,
                        file_size: None,
                        error: Some(DownloadError { error_type: DownloadErrorType::BrowserRequired, message: reason, recoverable: true }),
                        fallback_url: Some(String::from_str(url)),
                    });
                }
                match &config.resolver {
                    Some(resolver) => SmartPlan::Resolve { resolver, signs: &config.error_conditions },
                    None => SmartPlan::Direct,
                }
            },
            None => SmartPlan::Direct,
        }
    }

    /// How a smart download of `url` proceeds: its host is detected among the
    /// configured ones, then planned as `plan_for_host` says.
    pub fn plan_smart_download<'a>(url: &str, hosts_config: Option<&'a HostsConfig>) -> (r: SmartPlan<'a>)
        ensures
            planned(r, url@, host_config_for(url@, match hosts_config { Some(c) => Some(*c), None => None })),
    {
        let (_, host_config) = detect_host_with_config(url, hosts_config);
        Self::plan_for_host(url, host_config)
    }

    /// The link to probe for a download's size: the host's resolver resolves
    /// it unless the host needs a browser or has none (then the link itself).
    pub fn resolver_for_probe<'a>(host_config: Option<&'a HostConfig>) -> (r: Option<&'a HostResolver>)
        ensures
            r == match host_config {
                Some(c) => if c.browser_only { None } else { match c.resolver { Some(res) => Some(&res), None => None } },
                None => None,
            },
    {
        match host_config {
            Some(c) => if c.browser_only { None } else {
                match &c.resolver {
                    Some(res) => Some(res),
                    None => None,
                }
            },
            None => None,
        }
    }
}

/// What a smart download reports for a browser-only host.
pub open spec fn browser_only_result(res: SmartDownloadResult, url: Seq<char>, c: HostConfig) -> bool {
    &&& !res.success
    &&& res.file_path is None
    &&& res.file_size is None
    &&& res.fallback_url matches Some(f) && f@ == url
    &&& res.error matches Some(e) && e.error_type == DownloadErrorType::BrowserRequired && e.recoverable
        && e.message@ == match c.browser_only_reason { Some(m) => m@, None => "This host requires a browser"@ }
}

/// Whether a smart download's report is consistent: it succeeded exactly
/// when it has no error, has a file and its size, and has no fallback link;
/// and a failure is one the user can recover from.
pub open spec fn consistent_result(r: SmartDownloadResult) -> bool {
    &&& r.success == r.error is None
    &&& r.success == r.file_path is Some
    &&& r.success == r.file_size is Some
    &&& r.success == r.fallback_url is None
    &&& (r.error matches Some(e) ==> e.recoverable)
}

/// Every report a smart download gives is consistent: the one for a
/// browser-only host, the one for an error sign, and (as the `ensures` of
/// `resolution_failed` and `transfer_result` say) the others.
pub proof fn law_smart_reports_consistent(res: SmartDownloadResult, url: Seq<char>, c: HostConfig, sign: ErrorCondition, signed: SmartDownloadResult)
    requires
        browser_only_result(res, url, c),
        !signed.success && signed.file_path is None && signed.file_size is None && signed.fallback_url is Some,
        signed.error matches Some(e) && sign_error(e, sign),
    ensures
        consistent_result(res),
        consistent_result(signed),
{
}

/// The configuration of the host of `url`, as host detection finds it
/// (made-up and unknown hosts have none).
pub open spec fn host_config_for(url: Seq<char>, hc: Option<HostsConfig>) -> Option<HostConfig> {
    match url_host(url) {
        None => None,
        Some(raw) => match hc {
            Some(c) => match first_host_match(c.hosts.view(), lowercase(raw)) {
                Some(i) => if has_prefix(c.hosts.view()[i].0, "auto:"@) || c.hosts.view()[i].0 == "unknown"@ {
                    None
                } else {
                    Some(c.hosts.view()[i].1)
                },
                None => None,
            },
            None => None,
        },
    }
}

/// Whether `r` is the plan for a host with configuration `h`.
pub open spec fn planned<'a>(r: SmartPlan<'a>, url: Seq<char>, h: Option<HostConfig>) -> bool {
    match h {
        Some(c) => if c.browser_only {
            r matches SmartPlan::BrowserOnly(res) && browser_only_result(res, url, c)
        } else {
            match c.resolver {
                Some(res) => r matches SmartPlan::Resolve { resolver, signs } && *resolver == res && *signs == c.error_conditions,
                None => r is Direct,
            }
        },
        None => r is Direct,
    }
}

/// The text of a found JSON value.
fn text_of_found(kind: JsonKind, text: &str) -> (r: String)
    ensures
        r@ == found_text((kind, text@, 0nat)),
{
    if kind == JsonKind::Str {
        String::from_str(text)
    } else {
        strip_quotes(text)
    }
}

/// `s` without leading and trailing double quotes.
fn strip_quotes(s: &str) -> (r: String)
    ensures
        r@ == unquoted(s@),
{
    let v = chars_of(s);
    let mut lo: usize = 0;
    let mut hi: usize = v.len();
    assert(v@.subrange(0, v.len() as int) =~= v@);
    while lo < hi && (v[lo] == '"' || v[hi - 1] == '"')
        invariant
            lo <= hi <= v.len(),
            unquoted(s@) == unquoted(v@.subrange(lo as int, hi as int)),
            v@ == s@,
        decreases hi - lo,
    {
        let ghost t = v@.subrange(lo as int, hi as int);
        if v[lo] == '"' {
            assert(t.drop_first() =~= v@.subrange(lo + 1, hi as int));
            lo = lo + 1;
        } else {
            assert(t.drop_last() =~= v@.subrange(lo as int, hi - 1));
            hi = hi - 1;
        }
    }
    string_from_chars(slice_to_vec(v.as_slice(), lo, hi))
}

/// One transformation of a host resolver.
fn resolver_transform(v: &str, t: &Transformation, variables: &Dict<String>) -> (r: Result<String, String>)
    ensures
        match r {
            Ok(s) => resolver_transformed(v@, *t, text_entries(variables.view())) == Ok::<Seq<char>, Seq<char>>(s@),
            Err(e) => resolver_transformed(v@, *t, text_entries(variables.view())) == Err::<Seq<char>, Seq<char>>(e@),
        },
{
    match t {
        Transformation::Template { template } => Ok(substitute_variables(template.as_str(), variables)),
        Transformation::Replace { pattern, replacement, regex } => if *regex {
            match regex_replace_all(pattern.as_str(), v, replacement.as_str()) {
                Ok(s) => Ok(s),
                Err(e) => Err(concat("Invalid regex: ", e.as_str())),
            }
        } else {
            Ok(str_replace(v, pattern.as_str(), replacement.as_str()))
        },
        Transformation::Trim => Ok(str_trim(v)),
        Transformation::Lowercase => Ok(to_lower(v)),
        Transformation::Uppercase => Ok(to_upper(v)),
        Transformation::StripPrefix { prefix } => if str_starts_with(v, prefix.as_str()) {
            let cv = chars_of(v);
            let n = chars_of(prefix.as_str()).len();
            let out = string_from_chars(slice_to_vec(cv.as_slice(), n, cv.len()));
            assert(out@ =~= v@.skip(prefix@.len() as int));
            Ok(out)
        } else {
            Ok(String::from_str(v))
        },
        Transformation::StripSuffix { suffix } => if str_ends_with(v, suffix.as_str()) {
            let cv = chars_of(v);
            let n = chars_of(suffix.as_str()).len();
            let out = string_from_chars(slice_to_vec(cv.as_slice(), 0, cv.len() - n));
            assert(out@ =~= v@.take(v@.len() - suffix@.len()));
            Ok(out)
        } else {
            Ok(String::from_str(v))
        },
        Transformation::Append { text } => Ok(concat(v, text.as_str())),
        Transformation::Prepend { text } => Ok(concat(text.as_str(), v)),
        Transformation::Default { value } => if str_is_empty(v) { Ok(value.clone()) } else { Ok(String::from_str(v)) },
        _ => Ok(String::from_str(v)),
    }
}

/// Whether an error sign shows on a page.
fn sign_on_page(content: &str, c: &ErrorCondition) -> (b: bool)
    ensures
        b == sign_shows(content@, *c),
{
    match &c.pattern {
        Some(p) => match regex_is_match(p.as_str(), content) {
            Some(m) => m,
            None => false,
        },
        None => match &c.selector {
            Some(sel) => {
                let none: Vec<String> = Vec::new();
                assert(views(none@) =~= Seq::<Seq<char>>::empty());
                match html_pick(content, sel.as_str(), none.as_slice(), none.as_slice()) {
                    Ok(ps) => {
                        if ps.len() == 0 {
                            return false;
                        }
                        assert(element_view(ps@[0].element) == picked_view(ps@[0]).0);
                        match &c.contains {
                            Some(k) => str_contains(ps[0].element.text.as_str(), k.as_str()),
                            None => true,
                        }
                    },
                    Err(_) => false,
                }
            },
            None => false,
        },
    }
}

/// The variables of a resolver as texts.
pub open spec fn vars_of(ctx: ResolutionContext) -> Seq<(Seq<char>, Seq<char>)> {
    text_entries(ctx.variables.view())
}

/// The resolver's starting state for `url`: the link as the current URL, no
/// page yet, and the link as the variables `url` and `value`.
pub fn start_resolution(url: &str) -> (r: ResolutionContext)
    ensures
        r.current_url@ == url@,
        r.current_content@.len() == 0,
        vars_of(r) == inserted(inserted(Seq::<(Seq<char>, Seq<char>)>::empty(), "url"@, url@), "value"@, url@),
{
    let mut variables: Dict<String> = Dict::new();
    variables.assert_unique();
    let u = String::from_str(url);
    proof { crate::dict::lemma_text_entries_inserted(variables.view(), "url"@, u); }
    let ghost e0 = variables.view();
    variables.insert(String::from_str("url"), u);
    assert(text_entries(e0) =~= Seq::<(Seq<char>, Seq<char>)>::empty());
    variables.assert_unique();
    let v = String::from_str(url);
    proof { crate::dict::lemma_text_entries_inserted(variables.view(), "value"@, v); }
    variables.insert(String::from_str("value"), v);
    ResolutionContext { current_url: String::from_str(url), current_content: String::new(), variables }
}

/// Take in the page a fetch step asked for.
pub fn fetched(ctx: &mut ResolutionContext, url: String, content: String)
    ensures
        final(ctx).current_url == url,
        final(ctx).current_content == content,
        final(ctx).variables == old(ctx).variables,
{
    ctx.current_url = url;
    ctx.current_content = content;
}

/// The value a transform step starts from: the variable `value`, else the
/// current URL.
pub open spec fn transform_input(ctx: ResolutionContext) -> Seq<char> {
    match text_lookup(ctx.variables.view(), "value"@) {
        Some(v) => v,
        None => ctx.current_url@,
    }
}

/// Decide one resolver step. A fetch asks for the current URL with the
/// variables filled in and the headers merged (the step's win); an extract
/// or transform step computes the next URL, which also becomes the variable
/// `value`; a wait asks for a pause; other steps do nothing.
pub fn resolution_step(step: &ResolutionStep, ctx: &mut ResolutionContext, default_headers: &Option<Dict<String>>) -> (r: Result<StepAction, String>)
    ensures
        match step {
            ResolutionStep::Fetch { headers, .. } => *final(ctx) == *old(ctx) && (r matches Ok(StepAction::Fetch { url, headers: h })
                && url@ == placeholders_filled(old(ctx).current_url@, vars_of(*old(ctx)), Seq::empty())
                && match (*default_headers, *headers) {
                    (None, None) => h is None,
                    (Some(b), None) => h matches Some(m) && m.view() == b.view(),
                    (None, Some(o)) => h matches Some(m) && m.view() == o.view(),
                    (Some(b), Some(o)) => h matches Some(m) && m.view() == merged_entries(b.view(), o.view()),
                }),
            ResolutionStep::Extract { method, pattern, group, selector, attribute, fallback } => match extracted_value(
                old(ctx).current_content@, old(ctx).current_url@, *method, *pattern, *group, *selector, *attribute, *fallback) {
                Ok(v) => r matches Ok(StepAction::Done) && final(ctx).current_url@ == v
                    && final(ctx).current_content == old(ctx).current_content
                    && vars_of(*final(ctx)) == inserted(vars_of(*old(ctx)), "value"@, v),
                Err(e) => *final(ctx) == *old(ctx) && (r matches Err(m) && m@ == e),
            },
            ResolutionStep::Transform { transformations } => match resolver_chain(transform_input(*old(ctx)), transformations@, vars_of(*old(ctx))) {
                Ok(v) => r matches Ok(StepAction::Done) && final(ctx).current_url@ == v
                    && final(ctx).current_content == old(ctx).current_content
                    && vars_of(*final(ctx)) == inserted(vars_of(*old(ctx)), "value"@, v),
                Err(e) => *final(ctx) == *old(ctx) && (r matches Err(m) && m@ == e),
            },
            ResolutionStep::Wait { duration_ms } => *final(ctx) == *old(ctx)
                && (r matches Ok(StepAction::Wait { duration_ms: d }) && d == *duration_ms),
            ResolutionStep::Custom { .. } => r matches Ok(StepAction::Done) && *final(ctx) == *old(ctx),
        },
{
    match step {
        ResolutionStep::Fetch { headers, .. } => {
            let merged = merge_headers(default_headers, headers);
            let url = substitute_variables(ctx.current_url.as_str(), &ctx.variables);
            Ok(StepAction::Fetch { url, headers: merged })
        },
        ResolutionStep::Extract { method, pattern, group, selector, attribute, fallback } => {
            let extracted = DownloadManager::extract_value(ctx.current_content.as_str(), ctx.current_url.as_str(),
                method, pattern, group, selector, attribute, fallback);
            match extracted {
                Ok(v) => {
                    ctx.variables.assert_unique();
                    let v2 = v.clone();
                    proof { crate::dict::lemma_text_entries_inserted(ctx.variables.view(), "value"@, v2); }
                    ctx.variables.insert(String::from_str("value"), v2);
                    ctx.current_url = v;
                    Ok(StepAction::Done)
                },
                Err(e) => Err(e),
            }
        },
        ResolutionStep::Transform { transformations } => {
            let value = match get_text(&ctx.variables, "value") {
                Some(v) => v.clone(),
                None => ctx.current_url.clone(),
            };
            match DownloadManager::apply_transformations(value.as_str(), transformations.as_slice(), &ctx.variables) {
                Ok(v) => {
                    ctx.variables.assert_unique();
                    let v2 = v.clone();
                    proof { crate::dict::lemma_text_entries_inserted(ctx.variables.view(), "value"@, v2); }
                    ctx.variables.insert(String::from_str("value"), v2);
                    ctx.current_url = v;
                    Ok(StepAction::Done)
                },
                Err(e) => Err(e),
            }
        },
        ResolutionStep::Wait { duration_ms } => Ok(StepAction::Wait { duration_ms: *duration_ms }),
        ResolutionStep::Custom { .. } => Ok(StepAction::Done),
    }
}

/// What a smart download reports when the host's resolver failed: the
/// error, with the link as the fallback.
pub fn resolution_failed(url: String, message: String) -> (r: SmartDownloadResult)
    ensures
        !r.success && r.file_path is None && r.file_size is None,
        r.fallback_url == Some(url),
        r.error matches Some(e) && e.error_type == DownloadErrorType::ResolutionFailed && e.message == message && e.recoverable,
        consistent_result(r),
{
    SmartDownloadResult {
        success: false,
        file_path: None,
        file_size: None,
        error: Some(DownloadError { error_type: DownloadErrorType::ResolutionFailed, message, recoverable: true }),
        fallback_url: Some(url),
    }
}

/// What a smart download reports when an error sign shows on the resolved
/// link's page: that error, with the link as the fallback.
pub fn sign_found(url: String, error: DownloadError) -> (r: SmartDownloadResult)
    ensures
        !r.success && r.file_path is None && r.file_size is None,
        r.fallback_url == Some(url),
        r.error == Some(error),
        error.recoverable ==> consistent_result(r),
{
    SmartDownloadResult { success: false, file_path: None, file_size: None, error: Some(error), fallback_url: Some(url) }
}

/// What a smart download reports once the transfer of `target` (the resolved
/// link, or the link itself) has ended: the file and its size, or a network
/// error with `target` as the fallback.
pub fn transfer_result(target: String, transfer: Result<(String, u64), String>) -> (r: SmartDownloadResult)
    ensures
        match transfer {
            Ok((path, size)) => r.success && r.file_path == Some(path) && r.file_size == Some(size)
                && r.error is None && r.fallback_url is None,
            Err(m) => !r.success && r.file_path is None && r.file_size is None && r.fallback_url == Some(target)
                && (r.error matches Some(e) && e.error_type == DownloadErrorType::NetworkError && e.message == m && e.recoverable),
        },
        consistent_result(r),
{
    match transfer {
        Ok((path, size)) => SmartDownloadResult {
            success: true,
            file_path: Some(path),
            file_size: Some(size),
            error: None,
            fallback_url: None,
        },
        Err(m) => SmartDownloadResult {
            success: false,
            file_path: None,
            file_size: None,
            error: Some(DownloadError { error_type: DownloadErrorType::NetworkError, message: m, recoverable: true }),
            fallback_url: Some(target),
        },
    }
}

} // verus!
