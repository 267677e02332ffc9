//! The navigation engine's state and decisions: the context a navigation path
//! runs in, placeholder interpolation, conditions, value transformations, and
//! the links a path returns. Fetching pages and waiting happen in the
//! application, which hands the responses back.
use vstd::prelude::*;
use crate::config::paths::{
    NavigationPath, PathStep, PathCondition, ResolvedLink, ReturnStep, PathOrRef, ErrorHandler,
    ExtractStep, ExtractAllStep, MetaExtraction, PathExtractionMethod, PathTransformation, TransformStep, SetVarStep, LogStep, ForEachConfig, MatchRule, WaitStep, DetectHostStep,
};
use crate::dict::{Dict, text_entries, text_lookup, get_text, placeholders_filled, lookup};
use crate::text::{
    contains, has_prefix, has_suffix, replace_all, str_contains, str_starts_with, str_ends_with, str_eq,
    str_replace, str_is_empty, concat, views, clone_opt, chars_of, string_from_chars, slice_to_vec, trim,
};
use crate::unicode::{lowercase, to_lower};
use crate::regex_ext::{regex_valid, regex_matches, regex_is_match, regex_error, regex_groups, regex_captures,
    regex_replaced, regex_replace_all};
use crate::url_ext::{url_host, host_of_url, url_encoded, url_decoded, base64_decoded, utf8_decoded, encode,
    decode, base64_decode, from_utf8};
use crate::html::{html_picked, html_pick, HtmlElement, Picked, picked_view};
use crate::json::{JsonStep, JsonLeaf, JsonKind, json_queried, json_query, query_view, leaf_view, json_strings_text,
    strings_to_json};
use crate::text::{split, trim_prefixes, index_of, parsed_usize, dec_of, utf8_len};

verus! {

/// `std::time::Instant`, held opaquely.
#[verifier::external_type_specification]
#[verifier::external_body]
pub struct ExInstant(std::time::Instant);

/// Wraps `Instant::now`. Nothing is promised of the reading.
#[verifier::external_body]
fn instant_now() -> (r: std::time::Instant) {
    std::time::Instant::now()
}

/// Wraps `Instant::elapsed` and `Duration::as_nanos`: the nanoseconds since
/// `start`. Nothing is promised of the reading.
#[verifier::external_body]
fn nanos_since(start: &std::time::Instant) -> (r: u128) {
    start.elapsed().as_nanos()
}

/// The state a navigation path runs in.
#[derive(Debug)]
pub struct NavigationContext {
    /// Current URL being processed.
    pub current_url: String,
    /// Current value (result of the last extraction).
    pub current_value: Option<String>,
    /// Response body of the last fetch.
    pub response_body: String,
    /// Last HTTP status code.
    pub last_status: u16,
    /// Last response headers (names in lower case).
    pub last_headers: Dict<String>,
    /// Cookie header to send.
    pub cookies: Option<String>,
    /// User-defined variables.
    pub vars: Dict<String>,
    /// Extracted metadata.
    pub metadata: Dict<String>,
    /// The URLs navigated through.
    pub navigation_stack: Vec<String>,
    /// Current depth.
    pub depth: usize,
    /// Maximum allowed depth.
    pub max_depth: usize,
    /// When the navigation started.
    pub start_time: std::time::Instant,
    /// How long it may take, in milliseconds.
    pub timeout_ms: u64,
    /// Source ID for auth/cookies lookup.
    pub source_id: String,
    /// Named paths available for reference.
    pub paths: Dict<NavigationPath>,
    /// Accumulated results.
    pub results: Vec<ResolvedLink>,
    /// Warnings encountered.
    pub warnings: Vec<String>,
}

/// `t` with `{url}`, `{value}` (when there is a value), each `{var}` and each
/// `{meta.key}` replaced, in that order.
pub open spec fn interpolated(t: Seq<char>, url: Seq<char>, value: Option<String>, vars: Seq<(Seq<char>, String)>, meta: Seq<(Seq<char>, String)>) -> Seq<char> {
    let a = replace_all(t, "{url}"@, url);
    let b = match value {
        Some(v) => replace_all(a, "{value}"@, v@),
        None => a,
    };
    let c = placeholders_filled(b, text_entries(vars), Seq::empty());
    placeholders_filled(c, text_entries(meta), "meta."@)
}

impl NavigationContext {
    /// `t` interpolated in this context.
    pub open spec fn interp(self, t: Seq<char>) -> Seq<char> {
        interpolated(t, self.current_url@, self.current_value, self.vars.view(), self.metadata.view())
    }

    /// A fresh context at `initial_url`: no value, no response, depth 0 of at
    /// most 10, thirty seconds to run.
    pub fn new(initial_url: String, source_id: String, cookies: Option<String>, paths: Dict<NavigationPath>) -> (r: Self)
        ensures
            r.current_url == initial_url,
            r.current_value is None,
            r.response_body@.len() == 0,
            r.last_status == 0,
            r.last_headers.view().len() == 0,
            r.cookies == cookies,
            r.vars.view().len() == 0,
            r.metadata.view().len() == 0,
            r.navigation_stack@.len() == 0,
            r.depth == 0,
            r.max_depth == 10,
            r.timeout_ms == 30000,
            r.source_id == source_id,
            r.paths == paths,
            r.results@.len() == 0,
            r.warnings@.len() == 0,
    {
        NavigationContext {
            current_url: initial_url,
            current_value: None,
            response_body: String::new(),
            last_status: 0,
            last_headers: Dict::new(),
            cookies,
            vars: Dict::new(),
            metadata: Dict::new(),
            navigation_stack: Vec::new(),
            depth: 0,
            max_depth: 10,
            start_time: instant_now(),
            timeout_ms: 30000,
            source_id,
            paths,
            results: Vec::new(),
            warnings: Vec::new(),
        }
    }

    /// The same context with another time limit (milliseconds).
    pub fn with_timeout(self, timeout_ms: u64) -> (r: Self)
        ensures
            r == (NavigationContext { timeout_ms, ..self }),
    {
        let mut s = self;
        s.timeout_ms = timeout_ms;
        s
    }

    /// The same context with another depth limit.
    pub fn with_max_depth(self, max_depth: usize) -> (r: Self)
        ensures
            r == (NavigationContext { max_depth, ..self }),
    {
        let mut s = self;
        s.max_depth = max_depth;
        s
    }

    /// Whether `elapsed_nanos` since the start exceed the time limit.
    pub fn is_timed_out_after(&self, elapsed_nanos: u128) -> (b: bool)
        ensures
            b == (elapsed_nanos > self.timeout_ms * 1_000_000),
    {
        elapsed_nanos > (self.timeout_ms as u128) * 1_000_000
    }

    /// Whether the time limit has passed (as the clock reads now).
    pub fn is_timed_out(&self) -> (b: bool) {
        let elapsed = nanos_since(&self.start_time);
        self.is_timed_out_after(elapsed)
    }

    /// Whether the navigation went deeper than allowed.
    pub fn is_too_deep(&self) -> (b: bool)
        ensures
            b == (self.depth > self.max_depth),
    {
        self.depth > self.max_depth
    }

    /// Fill `{url}`, `{value}`, `{var}` and `{meta.key}` placeholders.
    pub fn interpolate(&self, template: &str) -> (r: String)
        ensures
            r@ == self.interp(template@),
    {
        let mut result = str_replace(template, "{url}", self.current_url.as_str());
        if let Some(val) = &self.current_value {
            result = str_replace(result.as_str(), "{value}", val.as_str());
        }
        let with_vars = crate::dict::fill_placeholders(result.as_str(), &self.vars, "");
        proof {
            reveal_strlit("");
            assert(""@ =~= Seq::<char>::empty());
        }
        crate::dict::fill_placeholders(with_vars.as_str(), &self.metadata, "meta.")
    }

    /// Record a warning.
    pub fn warn(&mut self, message: String)
        ensures
            final(self).warnings@ == old(self).warnings@.push(message),
            *final(self) == (NavigationContext { warnings: final(self).warnings, ..*old(self) }),
    {
        self.warnings.push(message);
    }

    /// Add a resolved link to the results.
    pub fn add_result(&mut self, link: ResolvedLink)
        ensures
            final(self).results@ == old(self).results@.push(link),
            *final(self) == (NavigationContext { results: final(self).results, ..*old(self) }),
    {
        self.results.push(link);
    }
}

/// The text under `name` in a header or variable map.
pub open spec fn entry_text(e: Seq<(Seq<char>, String)>, name: Seq<char>) -> Option<Seq<char>> {
    text_lookup(e, name)
}

/// Whether a condition holds when the URL is `url` and the value `value`, the
/// rest of the state being that of `ctx`.
pub open spec fn condition_holds(c: PathCondition, url: Seq<char>, value: Option<Seq<char>>, ctx: NavigationContext) -> bool
    decreases c, 0nat,
{
    match c {
        PathCondition::Contains(s) => contains(url, s@),
        PathCondition::StartsWith(s) => has_prefix(url, s@),
        PathCondition::EndsWith(s) => has_suffix(url, s@),
        PathCondition::Matches(p) => regex_valid(p@) && regex_matches(p@, url),
        PathCondition::Equals(s) => url == s@,
        PathCondition::IsEmpty => match value { Some(v) => v.len() == 0, None => true },
        PathCondition::NotEmpty => match value { Some(v) => v.len() > 0, None => false },
        PathCondition::Status(code) => ctx.last_status == code,
        PathCondition::StatusRange { min, max } => min <= ctx.last_status <= max,
        PathCondition::StatusSuccess => 200 <= ctx.last_status < 300,
        PathCondition::StatusRedirect => 300 <= ctx.last_status < 400,
        PathCondition::StatusError => ctx.last_status >= 400,
        PathCondition::HasHeader(n) => entry_text(ctx.last_headers.view(), lowercase(n@)) is Some,
        PathCondition::HeaderEquals { name, value: v } => entry_text(ctx.last_headers.view(), lowercase(name@)) == Some(v@),
        PathCondition::HeaderContains { name, value: v } => match entry_text(ctx.last_headers.view(), lowercase(name@)) {
            Some(h) => contains(h, v@),
            None => false,
        },
        PathCondition::ContentType(t) => match entry_text(ctx.last_headers.view(), "content-type"@) {
            Some(h) => contains(h, t@),
            None => false,
        },
        PathCondition::ResponseContains(s) => contains(ctx.response_body@, s@),
        PathCondition::ResponseMatches(p) => regex_valid(p@) && regex_matches(p@, ctx.response_body@),
        PathCondition::SelectorExists(sel) => match html_picked(ctx.response_body@, sel@, Seq::empty(), Seq::empty()) {
            Ok(found) => found.len() > 0,
            Err(_) => false,
        },
        PathCondition::SelectorCount { selector, min, max } => match html_picked(ctx.response_body@, selector@, Seq::empty(), Seq::empty()) {
            Ok(found) => (match min { Some(m) => found.len() >= m, None => true })
                && (match max { Some(m) => found.len() <= m, None => true }),
            Err(_) => false,
        },
        PathCondition::VarEquals { var, value: v } => entry_text(ctx.vars.view(), var@) == Some(v@),
        PathCondition::VarContains { var, value: v } => match entry_text(ctx.vars.view(), var@) {
            Some(x) => contains(x, v@),
            None => false,
        },
        PathCondition::VarExists(var) => entry_text(ctx.vars.view(), var@) is Some,
        PathCondition::VarMatches { var, pattern } => match entry_text(ctx.vars.view(), var@) {
            Some(x) => regex_valid(pattern@) && regex_matches(pattern@, x),
            None => false,
        },
        PathCondition::UrlContains(s) => contains(url, s@),
        PathCondition::UrlMatches(p) => regex_valid(p@) && regex_matches(p@, url),
        PathCondition::HostEquals(h) => url_host(url) == Some(h@),
        PathCondition::HostContains(s) => match url_host(url) {
            Some(h) => contains(h, s@),
            None => false,
        },
        PathCondition::And(cs) => all_conditions(cs@, cs@.len() as int, url, value, ctx),
        PathCondition::Or(cs) => any_condition(cs@, cs@.len() as int, url, value, ctx),
        PathCondition::Not(inner) => !condition_holds(*inner, url, value, ctx),
        PathCondition::Always => true,
        PathCondition::Never => false,
    }
}

/// Whether the first `n` conditions all hold.
pub open spec fn all_conditions(cs: Seq<PathCondition>, n: int, url: Seq<char>, value: Option<Seq<char>>, ctx: NavigationContext) -> bool
    decreases cs, n,
{
    if n <= 0 || n > cs.len() {
        true
    } else {
        all_conditions(cs, n - 1, url, value, ctx) && condition_holds(cs[n - 1], url, value, ctx)
    }
}

/// Whether one of the first `n` conditions holds.
pub open spec fn any_condition(cs: Seq<PathCondition>, n: int, url: Seq<char>, value: Option<Seq<char>>, ctx: NavigationContext) -> bool
    decreases cs, n,
{
    if n <= 0 || n > cs.len() {
        false
    } else {
        any_condition(cs, n - 1, url, value, ctx) || condition_holds(cs[n - 1], url, value, ctx)
    }
}

proof fn lemma_all_fails(cs: Seq<PathCondition>, i: int, n: int, url: Seq<char>, value: Option<Seq<char>>, ctx: NavigationContext)
    requires
        0 <= i < n <= cs.len(),
        !condition_holds(cs[i], url, value, ctx),
    ensures
        !all_conditions(cs, n, url, value, ctx),
    decreases n,
{
    if n > i + 1 {
        lemma_all_fails(cs, i, n - 1, url, value, ctx);
    }
}

proof fn lemma_any_found(cs: Seq<PathCondition>, i: int, n: int, url: Seq<char>, value: Option<Seq<char>>, ctx: NavigationContext)
    requires
        0 <= i < n <= cs.len(),
        condition_holds(cs[i], url, value, ctx),
    ensures
        any_condition(cs, n, url, value, ctx),
    decreases n,
{
    if n > i + 1 {
        lemma_any_found(cs, i, n - 1, url, value, ctx);
    }
}

/// The text under `name` (lower-cased) among the last response's headers.
fn header_value<'a>(ctx: &'a NavigationContext, name: &str) -> (r: Option<&'a String>)
    ensures
        match r {
            Some(v) => entry_text(ctx.last_headers.view(), lowercase(name@)) == Some(v@),
            None => entry_text(ctx.last_headers.view(), lowercase(name@)) is None,
        },
{
    let lower = to_lower(name);
    get_text(&ctx.last_headers, lower.as_str())
}

/// The number of elements a selector matches in the last response, or `None`
/// for a selector the crate rejects.
fn selector_matches(ctx: &NavigationContext, selector: &str) -> (r: Option<usize>)
    ensures
        match r {
            Some(n) => html_picked(ctx.response_body@, selector@, Seq::empty(), Seq::empty()) matches Ok(found) && found.len() == n,
            None => html_picked(ctx.response_body@, selector@, Seq::empty(), Seq::empty()) is Err,
        },
{
    let none: Vec<String> = Vec::new();
    assert(views(none@) =~= Seq::<Seq<char>>::empty());
    match html_pick(ctx.response_body.as_str(), selector, none.as_slice(), none.as_slice()) {
        Ok(v) => Some(v.len()),
        Err(_) => None,
    }
}

/// Whether a regular expression is accepted and matches.
fn regex_holds(pattern: &str, text: &str) -> (b: bool)
    ensures
        b == (regex_valid(pattern@) && regex_matches(pattern@, text@)),
{
    match regex_is_match(pattern, text) {
        Some(m) => m,
        None => false,
    }
}

/// Whether a condition holds with URL `url` and value `value` in the state of `ctx`.
pub fn condition_holds_with(condition: &PathCondition, url: &str, value: &Option<String>, ctx: &NavigationContext) -> (b: bool)
    ensures
        b == condition_holds(*condition, url@, opt_text(*value), *ctx),
    decreases condition,
{
    match condition {
        PathCondition::Contains(s) => str_contains(url, s.as_str()),
        PathCondition::StartsWith(s) => str_starts_with(url, s.as_str()),
        PathCondition::EndsWith(s) => str_ends_with(url, s.as_str()),
        PathCondition::Matches(p) => regex_holds(p.as_str(), url),
        PathCondition::Equals(s) => str_eq(url, s.as_str()),
        PathCondition::IsEmpty => match value {
            Some(v) => str_is_empty(v.as_str()),
            None => true,
        },
        PathCondition::NotEmpty => match value {
            Some(v) => !str_is_empty(v.as_str()),
            None => false,
        },
        PathCondition::Status(code) => ctx.last_status == *code,
        PathCondition::StatusRange { min, max } => ctx.last_status >= *min && ctx.last_status <= *max,
        PathCondition::StatusSuccess => ctx.last_status >= 200 && ctx.last_status < 300,
        PathCondition::StatusRedirect => ctx.last_status >= 300 && ctx.last_status < 400,
        PathCondition::StatusError => ctx.last_status >= 400,
        PathCondition::HasHeader(n) => header_value(ctx, n.as_str()).is_some(),
        PathCondition::HeaderEquals { name, value: v } => match header_value(ctx, name.as_str()) {
            Some(h) => str_eq(h.as_str(), v.as_str()),
            None => false,
        },
        PathCondition::HeaderContains { name, value: v } => match header_value(ctx, name.as_str()) {
            Some(h) => str_contains(h.as_str(), v.as_str()),
            None => false,
        },
        PathCondition::ContentType(t) => match get_text(&ctx.last_headers, "content-type") {
            Some(h) => str_contains(h.as_str(), t.as_str()),
            None => false,
        },
        PathCondition::ResponseContains(s) => str_contains(ctx.response_body.as_str(), s.as_str()),
        PathCondition::ResponseMatches(p) => regex_holds(p.as_str(), ctx.response_body.as_str()),
        PathCondition::SelectorExists(sel) => match selector_matches(ctx, sel.as_str()) {
            Some(n) => n > 0,
            None => false,
        },
        PathCondition::SelectorCount { selector, min, max } => match selector_matches(ctx, selector.as_str()) {
            Some(n) => {
                let min_ok = match min {
                    Some(m) => n >= *m,
                    None => true,
                };
                let max_ok = match max {
                    Some(m) => n <= *m,
                    None => true,
                };
                min_ok && max_ok
            },
            None => false,
        },
        PathCondition::VarEquals { var, value: v } => match get_text(&ctx.vars, var.as_str()) {
            Some(x) => str_eq(x.as_str(), v.as_str()),
            None => false,
        },
        PathCondition::VarContains { var, value: v } => match get_text(&ctx.vars, var.as_str()) {
            Some(x) => str_contains(x.as_str(), v.as_str()),
            None => false,
        },
        PathCondition::VarExists(var) => get_text(&ctx.vars, var.as_str()).is_some(),
        PathCondition::VarMatches { var, pattern } => match get_text(&ctx.vars, var.as_str()) {
            Some(x) => regex_holds(pattern.as_str(), x.as_str()),
            None => false,
        },
        PathCondition::UrlContains(s) => str_contains(url, s.as_str()),
        PathCondition::UrlMatches(p) => regex_holds(p.as_str(), url),
        PathCondition::HostEquals(h) => match host_of_url(url) {
            Some(host) => str_eq(host.as_str(), h.as_str()),
            None => false,
        },
        PathCondition::HostContains(s) => match host_of_url(url) {
            Some(host) => str_contains(host.as_str(), s.as_str()),
            None => false,
        },
        PathCondition::And(cs) => {
            let mut i: usize = 0;
            while i < cs.len()
                invariant
                    i <= cs.len(),
                    all_conditions(cs@, i as int, url@, opt_text(*value), *ctx),
                    condition_holds(*condition, url@, opt_text(*value), *ctx) == all_conditions(cs@, cs@.len() as int, url@, opt_text(*value), *ctx),
                    decreases_to!(*condition => *cs),
                decreases cs.len() - i,
            {
                assert(decreases_to!(*cs => cs@));
                assert(decreases_to!(cs@ => cs@[i as int]));
                if !condition_holds_with(&cs[i], url, value, ctx) {
                    proof { lemma_all_fails(cs@, i as int, cs@.len() as int, url@, opt_text(*value), *ctx); }
                    return false;
                }
                i = i + 1;
            }
            true
        },
        PathCondition::Or(cs) => {
            let mut i: usize = 0;
            while i < cs.len()
                invariant
                    i <= cs.len(),
                    !any_condition(cs@, i as int, url@, opt_text(*value), *ctx),
                    condition_holds(*condition, url@, opt_text(*value), *ctx) == any_condition(cs@, cs@.len() as int, url@, opt_text(*value), *ctx),
                    decreases_to!(*condition => *cs),
                decreases cs.len() - i,
            {
                assert(decreases_to!(*cs => cs@));
                assert(decreases_to!(cs@ => cs@[i as int]));
                if condition_holds_with(&cs[i], url, value, ctx) {
                    proof { lemma_any_found(cs@, i as int, cs@.len() as int, url@, opt_text(*value), *ctx); }
                    return true;
                }
                i = i + 1;
            }
            false
        },
        PathCondition::Not(inner) => !condition_holds_with(inner, url, value, ctx),
        PathCondition::Always => true,
        PathCondition::Never => false,
    }
}

/// Whether a condition holds in the current state.
pub fn evaluate_condition(condition: &PathCondition, ctx: &NavigationContext) -> (b: bool)
    ensures
        b == condition_holds(*condition, ctx.current_url@, opt_text(ctx.current_value), *ctx),
{
    condition_holds_with(condition, ctx.current_url.as_str(), &ctx.current_value, ctx)
}

// ---------------------------------------------------------------------------
// Simple JSON paths: `$.field.sub`, `$.list[0].field`, `$.list[*]`
// ---------------------------------------------------------------------------

/// The value reached by following `steps` in the JSON text, if any.
pub open spec fn json_at(text: Seq<char>, steps: Seq<(bool, Seq<char>, nat)>) -> Option<(JsonKind, Seq<char>, nat)> {
    match json_queried(text, seq![steps]) {
        Ok(v) => if v.len() == 1 { v[0] } else { None },
        Err(_) => None,
    }
}

/// A key step.
pub open spec fn key_step(k: Seq<char>) -> (bool, Seq<char>, nat) {
    (true, k, 0)
}

/// An index step.
pub open spec fn index_step(n: nat) -> (bool, Seq<char>, nat) {
    (false, Seq::empty(), n)
}

/// The parts of a simple JSON path.
pub open spec fn json_path_parts(path: Seq<char>) -> Seq<Seq<char>> {
    split(trim_prefixes(path, "$."@), "."@)
}

/// A part `field[index]` can be cut without slicing inside a character: its
/// first `[` is not its last character, and its last character is one byte.
pub open spec fn part_ok(p: Seq<char>) -> bool {
    contains(p, "["@) ==> index_of(p, "["@) + 1 < p.len() && utf8_len(p.last()) == 1
}

/// Every part of the path can be cut.
pub open spec fn json_path_ok(path: Seq<char>) -> bool {
    forall|i: int| 0 <= i < json_path_parts(path).len() ==> part_ok(#[trigger] json_path_parts(path)[i])
}

/// Following the remaining parts from the value reached by `done`: the text of
/// the value found, or the error met.
pub open spec fn path_walk(text: Seq<char>, parts: Seq<Seq<char>>, done: Seq<(bool, Seq<char>, nat)>) -> Result<Seq<char>, Seq<char>>
    decreases parts.len(),
{
    if parts.len() == 0 {
        match json_at(text, done) {
            Some(l) => Ok(l.1),
            None => Ok(Seq::empty()),
        }
    } else {
        let p = parts[0];
        if contains(p, "["@) {
            let b = index_of(p, "["@);
            let field = p.take(b);
            let idx = p.subrange(b + 1, p.len() - 1);
            let d1 = if field.len() > 0 { done.push(key_step(field)) } else { done };
            if field.len() > 0 && json_at(text, d1) is None {
                Err("Field not found: "@ + field)
            } else if idx == "*"@ {
                match json_at(text, d1) {
                    Some(l) => Ok(l.1),
                    None => Ok(Seq::empty()),
                }
            } else {
                match parsed_usize(idx) {
                    None => Err("Invalid array index"@),
                    Some(n) => {
                        let d2 = d1.push(index_step(n));
                        if json_at(text, d2) is None {
                            Err("Array index out of bounds: "@ + dec_of(n))
                        } else {
                            path_walk(text, parts.drop_first(), d2)
                        }
                    },
                }
            }
        } else {
            let d1 = done.push(key_step(p));
            if json_at(text, d1) is None {
                Err("Field not found: "@ + p)
            } else {
                path_walk(text, parts.drop_first(), d1)
            }
        }
    }
}

/// The text of the value a simple JSON path reaches in a JSON text.
pub open spec fn json_path_text(text: Seq<char>, path: Seq<char>) -> Result<Seq<char>, Seq<char>> {
    match json_queried(text, Seq::empty()) {
        Err(e) => Err("Invalid JSON: "@ + e),
        Ok(_) => path_walk(text, json_path_parts(path), Seq::empty()),
    }
}

/// The value `steps` reach in the JSON text.
fn value_at(text: &str, steps: &Vec<JsonStep>) -> (r: Option<JsonLeaf>)
    ensures
        match r {
            Some(l) => json_at(text@, query_view(*steps)) == Some(leaf_view(l)),
            None => json_at(text@, query_view(*steps)) is None,
        },
{
    let copy = steps.clone();
    assert(query_view(copy) =~= query_view(*steps)) by {
        assert forall|i: int| 0 <= i < steps@.len() implies #[trigger] copy@[i] == steps@[i] by {
            assert(cloned::<JsonStep>(steps@[i], copy@[i]));
        }
    }
    let qs = vec![copy];
    assert(qs@.map_values(|q: Vec<JsonStep>| query_view(q)) =~= seq![query_view(*steps)]);
    match json_query(text, qs.as_slice()) {
        Ok(v) => {
            if v.len() == 1 {
                let mut v = v;
                v.remove(0)
            } else {
                None
            }
        },
        Err(_) => None,
    }
}

/// The text of the value a simple JSON path reaches in a JSON text: a string
/// value's contents, any other value's compact JSON.
pub fn json_path_value(text: &str, path: &str) -> (r: Result<String, String>)
    requires
        json_path_ok(path@),
    ensures
        match r {
            Ok(s) => json_path_text(text@, path@) == Ok::<Seq<char>, Seq<char>>(s@),
            Err(e) => json_path_text(text@, path@) == Err::<Seq<char>, Seq<char>>(e@),
        },
{
    let none: Vec<Vec<JsonStep>> = Vec::new();
    assert(none@.map_values(|q: Vec<JsonStep>| query_view(q)) =~= Seq::<Seq<(bool, Seq<char>, nat)>>::empty());
    match json_query(text, none.as_slice()) {
        Err(e) => return Err(concat("Invalid JSON: ", e.as_str())),
        Ok(_) => {},
    }
    proof { reveal_strlit("$."); reveal_strlit("["); }
    let trimmed = crate::text::str_trim_prefixes(path, "$.");
    let parts = crate::text::str_split(trimmed.as_str(), ".");
    let ghost pv = views(parts@);
    assert(pv == json_path_parts(path@));
    let mut done: Vec<JsonStep> = Vec::new();
    let mut i: usize = 0;
    assert(pv.skip(0) =~= pv);
    assert(query_view(done) =~= Seq::<(bool, Seq<char>, nat)>::empty());
    while i < parts.len()
        invariant
            i <= parts.len(),
            pv == views(parts@),
            pv == json_path_parts(path@),
            json_path_ok(path@),
            json_path_text(text@, path@) == path_walk(text@, pv.skip(i as int), query_view(done)),
        decreases parts.len() - i,
    {
        let ghost rest = pv.skip(i as int);
        assert(rest[0] == pv[i as int]);
        assert(rest.drop_first() =~= pv.skip(i + 1));
        assert(part_ok(pv[i as int]));
        let part = parts[i].as_str();
        let cv = chars_of(part);
        assert(pv[i as int] == cv@);
        let bracket = chars_of("[");
        match crate::text::find(cv.as_slice(), bracket.as_slice()) {
            Some(b) => {
                proof { crate::text::lemma_first_occurrence_is_index_of(cv@, bracket@, b as int); }
                assert(bracket@ == "["@);
                assert(contains(cv@, "["@));
                assert(index_of(cv@, "["@) == b);
                assert(b + 1 < cv@.len());
                let field = string_from_chars(slice_to_vec(cv.as_slice(), 0, b));
                let n = cv.len();
                let lo = b + 1;
                let hi = n - 1;
                let idx = string_from_chars(slice_to_vec(cv.as_slice(), lo, hi));
                assert(field@ =~= cv@.take(b as int));
                if !str_is_empty(field.as_str()) {
                    let ghost before = query_view(done);
                    done.push(JsonStep::Key(field.clone()));
                    assert(query_view(done) =~= before.push(key_step(field@)));
                    if value_at(text, &done).is_none() {
                        return Err(concat("Field not found: ", field.as_str()));
                    }
                }
                if str_eq(idx.as_str(), "*") {
                    return match value_at(text, &done) {
                        Some(l) => Ok(l.text),
                        None => Ok(String::new()),
                    };
                }
                match crate::text::parse_usize(idx.as_str()) {
                    None => return Err("Invalid array index".to_string()),
                    Some(n) => {
                        let ghost before = query_view(done);
                        done.push(JsonStep::Index(n));
                        assert(query_view(done) =~= before.push(index_step(n as nat)));
                        if value_at(text, &done).is_none() {
                            let num = crate::text::to_decimal(n as u128);
                            return Err(concat("Array index out of bounds: ", num.as_str()));
                        }
                    },
                }
            },
            None => {
                let ghost before = query_view(done);
                done.push(JsonStep::Key(parts[i].clone()));
                assert(query_view(done) =~= before.push(key_step(pv[i as int])));
                if value_at(text, &done).is_none() {
                    return Err(concat("Field not found: ", part));
                }
            },
        }
        i = i + 1;
    }
    assert(pv.skip(parts.len() as int) =~= Seq::<Seq<char>>::empty());
    match value_at(text, &done) {
        Some(l) => Ok(l.text),
        None => Ok(String::new()),
    }
}

// ---------------------------------------------------------------------------
// Steps that only compute
// ---------------------------------------------------------------------------

/// What a step tells the path runner.
#[derive(Debug)]
pub enum StepResult {
    Continue,
    Return(ResolvedLink),
    ReturnMultiple(Vec<ResolvedLink>),
    Error(String),
}

/// The entries of `meta` after storing each return-step entry, its value
/// interpolated, in turn.
pub open spec fn meta_with(meta: Seq<(Seq<char>, String)>, extra: Seq<(Seq<char>, String)>, ctx: NavigationContext) -> Seq<(Seq<char>, Seq<char>)>
    decreases extra.len(),
{
    if extra.len() == 0 {
        text_entries(meta)
    } else {
        crate::dict::inserted(meta_with(meta, extra.drop_last(), ctx), extra.last().0, ctx.interp(extra.last().1@))
    }
}

/// The URL a return step returns.
pub open spec fn returned_url(config: ReturnStep, ctx: NavigationContext) -> Seq<char> {
    if config.current {
        match ctx.current_value { Some(v) => v@, None => ctx.current_url@ }
    } else {
        match config.value { Some(v) => ctx.interp(v@), None => ctx.current_url@ }
    }
}

/// The optional text of a metadata entry.
pub open spec fn meta_text(ctx: NavigationContext, k: Seq<char>) -> Option<Seq<char>> {
    text_lookup(ctx.metadata.view(), k)
}

/// A copy of the optional text stored under `k`.
fn text_copy(d: &Dict<String>, k: &str) -> (r: Option<String>)
    ensures
        match r {
            Some(s) => text_lookup(d.view(), k@) == Some(s@),
            None => text_lookup(d.view(), k@) is None,
        },
{
    match get_text(d, k) {
        Some(v) => Some(v.clone()),
        None => None,
    }
}

/// The view of an optional string.
pub open spec fn opt_text(o: Option<String>) -> Option<Seq<char>> {
    match o { Some(s) => Some(s@), None => None }
}

/// End the path: with an error when the step has one, else with a link to
/// the current value, the given value or the current URL, carrying the
/// label, host and size from the metadata and the step's own metadata.
pub fn step_return(config: &ReturnStep, ctx: &NavigationContext) -> (r: StepResult)
    ensures
        match config.error {
            Some(e) => r matches StepResult::Error(m) && m@ == ctx.interp(e@),
            None => r matches StepResult::Return(link) && {
                &&& link.url@ == returned_url(*config, *ctx)
                &&& opt_text(link.label) == meta_text(*ctx, "label"@)
                &&& opt_text(link.host) == meta_text(*ctx, "host"@)
                &&& opt_text(link.size) == meta_text(*ctx, "size"@)
                &&& link.browser_only == config.browser_only
                &&& link.browser_only_reason == config.reason
                &&& text_entries(link.metadata.view()) == meta_with(ctx.metadata.view(), config.metadata.view(), *ctx)
                &&& link.resolution_path@ == ctx.navigation_stack@
            },
        },
{
    if let Some(error) = &config.error {
        return StepResult::Error(ctx.interpolate(error.as_str()));
    }
    let url = if config.current {
        match &ctx.current_value {
            Some(v) => v.clone(),
            None => ctx.current_url.clone(),
        }
    } else {
        match &config.value {
            Some(v) => ctx.interpolate(v.as_str()),
            None => ctx.current_url.clone(),
        }
    };
    let mut meta = crate::dict::copy_texts(&ctx.metadata);
    let n = config.metadata.len();
    let mut i: usize = 0;
    assert(config.metadata.view().take(0) =~= Seq::<(Seq<char>, String)>::empty());
    while i < n
        invariant
            i <= n,
            n == config.metadata.view().len(),
            text_entries(meta.view()) == meta_with(ctx.metadata.view(), config.metadata.view().take(i as int), *ctx),
        decreases n - i,
    {
        proof {
            assert(config.metadata.view().take(i + 1).drop_last() =~= config.metadata.view().take(i as int));
        }
        let v = ctx.interpolate(config.metadata.value_at(i).as_str());
        meta.assert_unique();
        proof { crate::dict::lemma_text_entries_inserted(meta.view(), config.metadata.view()[i as int].0, v); }
        meta.insert(config.metadata.key_at(i).clone(), v);
        i = i + 1;
    }
    assert(config.metadata.view().take(n as int) =~= config.metadata.view());
    StepResult::Return(ResolvedLink {
        url,
        label: text_copy(&ctx.metadata, "label"),
        host: text_copy(&ctx.metadata, "host"),
        size: text_copy(&ctx.metadata, "size"),
        browser_only: config.browser_only,
        browser_only_reason: clone_opt(&config.reason),
        metadata: meta,
        resolution_path: crate::dict::copy_strings(&ctx.navigation_stack),
    })
}

/// The name a path reference points to: without its leading `paths.`.
pub open spec fn referenced_name(r: Seq<char>) -> Seq<char> {
    trim_prefixes(r, "paths."@)
}

/// The steps a path reference stands for: the inline steps, the steps of an
/// inline path, or those of the named path.
pub fn resolve_path_ref<'a>(path_ref: &'a PathOrRef, paths: &'a Dict<NavigationPath>) -> (r: Result<&'a Vec<PathStep>, String>)
    ensures
        match path_ref {
            PathOrRef::Inline(steps) => r == Ok::<&Vec<PathStep>, String>(steps),
            PathOrRef::InlineFull(p) => r == Ok::<&Vec<PathStep>, String>(&p.steps),
            PathOrRef::Reference(u) => match lookup(paths.view(), referenced_name(u.path_ref@)) {
                Some(p) => r matches Ok(s) && *s == p.steps,
                None => r matches Err(e) && e@ == "Path not found: "@ + referenced_name(u.path_ref@),
            },
        },
{
    match path_ref {
        PathOrRef::Inline(steps) => Ok(steps),
        PathOrRef::InlineFull(path) => Ok(&path.steps),
        PathOrRef::Reference(use_step) => {
            proof { reveal_strlit("paths."); }
            let name = crate::text::str_trim_prefixes(use_step.path_ref.as_str(), "paths.");
            match paths.get(name.as_str()) {
                Some(p) => Ok(&p.steps),
                None => Err(concat("Path not found: ", name.as_str())),
            }
        },
    }
}

/// What a path reference resolves to for the download commands: inline steps
/// (run as a simple path) or a whole path.
#[derive(Debug)]
pub enum PathTarget<'a> {
    Steps(&'a Vec<PathStep>),
    Path(&'a NavigationPath),
}

/// The path a reference stands for, as the download commands resolve it.
pub fn path_ref_to_path<'a>(path_ref: &'a PathOrRef, paths: &'a Dict<NavigationPath>) -> (r: Result<PathTarget<'a>, String>)
    ensures
        match path_ref {
            PathOrRef::Inline(steps) => r matches Ok(PathTarget::Steps(s)) && s == steps,
            PathOrRef::InlineFull(p) => r matches Ok(PathTarget::Path(q)) && *q == **p,
            PathOrRef::Reference(u) => match lookup(paths.view(), referenced_name(u.path_ref@)) {
                Some(p) => r matches Ok(PathTarget::Path(q)) && *q == p,
                None => r matches Err(e) && e@ == "Path '"@ + referenced_name(u.path_ref@) + "' not found"@,
            },
        },
{
    match path_ref {
        PathOrRef::Inline(steps) => Ok(PathTarget::Steps(steps)),
        PathOrRef::InlineFull(path) => Ok(PathTarget::Path(&**path)),
        PathOrRef::Reference(use_step) => {
            proof { reveal_strlit("paths."); }
            let name = crate::text::str_trim_prefixes(use_step.path_ref.as_str(), "paths.");
            match paths.get(name.as_str()) {
                Some(p) => Ok(PathTarget::Path(p)),
                None => Err(crate::text::concat3("Path '", name.as_str(), "' not found")),
            }
        },
    }
}

/// The result a path ends with when no step returned one: a link to the
/// current value, with the size from the metadata.
pub fn implicit_result(ctx: &NavigationContext) -> (r: Option<ResolvedLink>)
    ensures
        ctx.results@.len() == 0 && ctx.current_value is Some <==> r is Some,
        r matches Some(link) ==> {
            &&& link.url == ctx.current_value->0
            &&& link.label is None
            &&& link.host is None
            &&& opt_text(link.size) == meta_text(*ctx, "size"@)
            &&& !link.browser_only
            &&& link.browser_only_reason is None
            &&& link.metadata.view() == ctx.metadata.view()
            &&& link.resolution_path@ == ctx.navigation_stack@
        },
{
    if ctx.results.len() == 0 {
        if let Some(v) = &ctx.current_value {
            return Some(ResolvedLink {
                url: v.clone(),
                label: None,
                host: None,
                size: text_copy(&ctx.metadata, "size"),
                browser_only: false,
                browser_only_reason: None,
                metadata: crate::dict::copy_texts(&ctx.metadata),
                resolution_path: crate::dict::copy_strings(&ctx.navigation_stack),
            });
        }
    }
    None
}

/// Why a path cannot start: the time limit passed, or the context is deeper
/// than allowed.
pub open spec fn start_refusal(timed_out: bool, ctx: NavigationContext) -> Option<Seq<char>> {
    if timed_out {
        Some("Navigation timeout exceeded"@)
    } else if ctx.depth > ctx.max_depth {
        Some("Maximum depth "@ + crate::text::dec_of(ctx.max_depth as nat) + " exceeded"@)
    } else {
        None
    }
}

/// Whether a path may start, given whether the time limit has passed
/// (`NavigationContext::is_timed_out`): the error that stops it, if any.
pub fn path_start_check(ctx: &NavigationContext, timed_out: bool) -> (r: Result<(), String>)
    ensures
        match start_refusal(timed_out, *ctx) {
            Some(m) => r matches Err(e) && e@ == m,
            None => r is Ok,
        },
{
    if timed_out {
        return Err("Navigation timeout exceeded".to_string());
    }
    if ctx.is_too_deep() {
        let n = crate::text::to_decimal(ctx.max_depth as u128);
        return Err(crate::text::concat3("Maximum depth ", n.as_str(), " exceeded"));
    }
    Ok(())
}

/// What a path does after one of its steps.
#[derive(Debug)]
pub enum PathAction {
    /// Go on with the next step.
    NextStep,
    /// Stop running steps (the path returned).
    Stop,
    /// Run the path's error handlers, in turn, until one handles the error.
    HandleError,
    /// The path fails with this error.
    Fail(String),
}

/// The results of a context after appending `links`.
pub open spec fn appended(results: Seq<ResolvedLink>, links: Seq<ResolvedLink>) -> Seq<ResolvedLink> {
    results + links
}

/// Settles a step of a path run in `ctx`, given what the step gave (`Err` for
/// a step that failed outright) and whether the path has error handlers: a
/// returned link is added and the path stops; several links are added and
/// the path goes on; a step error goes to the handlers, or fails the path
/// without any; a failed step is warned of (`Step i failed: e`) and goes to
/// the handlers when there are any, else the path goes on.
pub fn after_step(ctx: &mut NavigationContext, index: usize, outcome: Result<StepResult, String>, has_handlers: bool) -> (r: PathAction)
    ensures
        match outcome {
            Ok(StepResult::Continue) => r is NextStep && *final(ctx) == *old(ctx),
            Ok(StepResult::Return(link)) => r is Stop
                && *final(ctx) == (NavigationContext { results: final(ctx).results, ..*old(ctx) })
                && final(ctx).results@ == old(ctx).results@.push(link),
            Ok(StepResult::ReturnMultiple(links)) => r is NextStep
                && *final(ctx) == (NavigationContext { results: final(ctx).results, ..*old(ctx) })
                && final(ctx).results@ == appended(old(ctx).results@, links@),
            Ok(StepResult::Error(m)) => *final(ctx) == *old(ctx)
                && (if has_handlers { r is HandleError } else { r matches PathAction::Fail(e) && e == m }),
            Err(e) => (if has_handlers { r is HandleError } else { r is NextStep })
                && *final(ctx) == (NavigationContext { warnings: final(ctx).warnings, ..*old(ctx) })
                && final(ctx).warnings@.len() == old(ctx).warnings@.len() + 1
                && final(ctx).warnings@.take(old(ctx).warnings@.len() as int) == old(ctx).warnings@
                && final(ctx).warnings@.last()@ == "Step "@ + crate::text::dec_of(index as nat) + " failed: "@ + e@,
        },
{
    match outcome {
        Ok(StepResult::Continue) => PathAction::NextStep,
        Ok(StepResult::Return(link)) => {
            ctx.add_result(link);
            PathAction::Stop
        },
        Ok(StepResult::ReturnMultiple(links)) => {
            let ghost start = ctx.results@;
            let mut i: usize = 0;
            let mut links = links;
            let ghost all = links@;
            let total = links.len();
            while links.len() > 0
                invariant
                    i + links@.len() == all.len(),
                    all.len() == total,
                    links@ == all.subrange(i as int, all.len() as int),
                    ctx.results@ == start + all.subrange(0, i as int),
                    *ctx == (NavigationContext { results: ctx.results, ..*old(ctx) }),
                    start == old(ctx).results@,
                decreases links@.len(),
            {
                let link = links.remove(0);
                proof {
                    assert(link == all[i as int]);
                    assert(links@ =~= all.subrange(i + 1, all.len() as int));
                }
                ctx.add_result(link);
                proof {
                    assert(ctx.results@ =~= start + all.subrange(0, i + 1));
                }
                i = i + 1;
            }
            assert(all.subrange(0, i as int) =~= all);
            PathAction::NextStep
        },
        Ok(StepResult::Error(m)) => {
            if has_handlers {
                PathAction::HandleError
            } else {
                PathAction::Fail(m)
            }
        },
        Err(e) => {
            let n = crate::text::to_decimal(index as u128);
            let head = crate::text::concat3("Step ", n.as_str(), " failed: ");
            ctx.warn(crate::text::concat(head.as_str(), e.as_str()));
            if has_handlers {
                PathAction::HandleError
            } else {
                PathAction::NextStep
            }
        },
    }
}

/// Checks the time limit before a step: when it has passed, the warning
/// `Timeout during step execution` is recorded and the path stops (`true`).
pub fn stop_for_timeout(ctx: &mut NavigationContext, timed_out: bool) -> (stop: bool)
    ensures
        stop == timed_out,
        timed_out ==> final(ctx).warnings@ == old(ctx).warnings@.push(final(ctx).warnings@.last())
            && final(ctx).warnings@.last()@ == "Timeout during step execution"@
            && *final(ctx) == (NavigationContext { warnings: final(ctx).warnings, ..*old(ctx) }),
        !timed_out ==> *final(ctx) == *old(ctx),
{
    if timed_out {
        ctx.warn("Timeout during step execution".to_string());
        true
    } else {
        false
    }
}

/// Settles one error handler's result: whether the handlers stop (the error
/// was handled). When the step reported an error (`step_error`), a handler
/// that failed is warned of (`Error handler failed: e`); when the step failed
/// outright, a failed handler is passed over in silence.
pub fn after_handler(ctx: &mut NavigationContext, result: Result<bool, String>, step_error: bool) -> (stop: bool)
    ensures
        stop == (result == Ok::<bool, String>(true)),
        match result {
            Err(e) if step_error => final(ctx).warnings@ == old(ctx).warnings@.push(final(ctx).warnings@.last())
                && final(ctx).warnings@.last()@ == "Error handler failed: "@ + e@
                && *final(ctx) == (NavigationContext { warnings: final(ctx).warnings, ..*old(ctx) }),
            _ => *final(ctx) == *old(ctx),
        },
{
    match result {
        Ok(handled) => handled,
        Err(e) => {
            if step_error {
                ctx.warn(crate::text::concat("Error handler failed: ", e.as_str()));
            }
            false
        },
    }
}

/// Whether a value looks like an absolute web URL.
pub open spec fn looks_like_url(v: Seq<char>) -> bool {
    has_prefix(v, "http://"@) || has_prefix(v, "https://"@)
}

/// Whether a value looks like an absolute web URL.
pub fn is_web_url(v: &str) -> (b: bool)
    ensures
        b == looks_like_url(v@),
{
    str_starts_with(v, "http://") || str_starts_with(v, "https://")
}

/// The pattern an extraction step uses: its pattern, else its selector, else
/// its regular expression.
pub open spec fn extraction_pattern(c: ExtractStep) -> Option<String> {
    match c.pattern {
        Some(p) => Some(p),
        None => match c.selector {
            Some(s) => Some(s),
            None => c.regex,
        },
    }
}

/// The first requested attribute of the first picked element, if any.
pub open spec fn first_attr(v: Seq<(crate::html::ElementView, Seq<Option<Seq<crate::html::ElementView>>>)>) -> Option<Seq<char>> {
    if v.len() > 0 && v[0].0.1.len() > 0 { v[0].0.1[0] } else { None }
}

/// Whether an extraction step can run without slicing inside a character.
pub open spec fn extraction_ok(c: ExtractStep) -> bool {
    c.method == PathExtractionMethod::JsonPath ==> match extraction_pattern(c) {
        Some(p) => json_path_ok(p@),
        None => true,
    }
}

/// What an extraction step finds in `source` (the current response or URL).
pub open spec fn extraction_result(c: ExtractStep, source: Seq<char>, ctx: NavigationContext) -> Result<Option<Seq<char>>, Seq<char>> {
    match extraction_pattern(c) {
        None => Err("No extraction pattern specified"@),
        Some(pat) => {
            let p = pat@;
            match c.method {
                PathExtractionMethod::Regex => if !regex_valid(p) {
                    Err("Invalid regex: "@ + regex_error(p))
                } else {
                    match regex_groups(p, source) {
                        Some(gs) => {
                            let last = if gs.len() > 0 { gs.len() - 1 } else { 0 };
                            let g: int = if c.group < last { c.group as int } else { last };
                            Ok(if 0 <= g < gs.len() { gs[g] } else { None })
                        },
                        None => Ok(None),
                    }
                },
                PathExtractionMethod::Selector => {
                    let names = match c.attribute { Some(a) => seq![a@], None => Seq::empty() };
                    match html_picked(source, p, names, Seq::empty()) {
                        Err(_) => Err("Invalid selector: "@ + p),
                        Ok(v) => if v.len() == 0 {
                            Ok(None)
                        } else {
                            match c.attribute {
                                Some(a) => Ok(first_attr(v)),
                                None => Ok(Some(trim(v[0].0.0))),
                            }
                        },
                    }
                },
                PathExtractionMethod::Header => Ok(text_lookup(ctx.last_headers.view(), p)),
                PathExtractionMethod::JsonPath => match json_path_text(source, p) {
                    Ok(t) => Ok(Some(t)),
                    Err(e) => Err(e),
                },
                PathExtractionMethod::Text => Ok(Some(trim(source))),
                PathExtractionMethod::Attribute => {
                    let a = match c.attribute { Some(a) => a@, None => "href"@ };
                    match html_picked(source, p, seq![a], Seq::empty()) {
                        Err(_) => Err("Invalid selector: "@ + p),
                        Ok(v) => Ok(first_attr(v)),
                    }
                },
                PathExtractionMethod::XPath => Err("XPath extraction not yet implemented"@),
            }
        },
    }
}

/// The first element a selector picks from `source`, asking for `attr_names`;
/// the error names the selector when the crate rejects it.
pub fn pick_first(source: &str, selector: &str, attr_names: Vec<String>) -> (r: Result<Option<HtmlElement>, String>)
    ensures
        match r {
            Ok(Some(e)) => html_picked(source@, selector@, views(attr_names@), Seq::empty()) matches Ok(v)
                && v.len() > 0 && v[0].0 == crate::html::element_view(e),
            Ok(None) => html_picked(source@, selector@, views(attr_names@), Seq::empty()) matches Ok(v) && v.len() == 0,
            Err(m) => html_picked(source@, selector@, views(attr_names@), Seq::empty()) is Err
                && m@ == "Invalid selector: "@ + selector@,
        },
{
    let none: Vec<String> = Vec::new();
    assert(views(none@) =~= Seq::<Seq<char>>::empty());
    match html_pick(source, selector, attr_names.as_slice(), none.as_slice()) {
        Err(_) => Err(concat("Invalid selector: ", selector)),
        Ok(v) => {
            if v.len() == 0 {
                Ok(None)
            } else {
                let mut v = v;
                let first = v.remove(0);
                Ok(Some(first.element))
            }
        },
    }
}

/// The first requested attribute of an element.
fn first_attr_of(e: HtmlElement) -> (r: Option<String>)
    ensures
        opt_text(r) == (if e.attrs@.len() > 0 { crate::regex_ext::opt_views(e.attrs@)[0] } else { None }),
{
    let mut attrs = e.attrs;
    if attrs.len() > 0 {
        attrs.remove(0)
    } else {
        None
    }
}

/// What an extraction step finds in `source`.
pub fn do_extraction(config: &ExtractStep, source: &str, ctx: &NavigationContext) -> (r: Result<Option<String>, String>)
    requires
        extraction_ok(*config),
    ensures
        match r {
            Ok(v) => extraction_result(*config, source@, *ctx) == Ok::<Option<Seq<char>>, Seq<char>>(opt_text(v)),
            Err(e) => extraction_result(*config, source@, *ctx) == Err::<Option<Seq<char>>, Seq<char>>(e@),
        },
{
    let pattern = match &config.pattern {
        Some(p) => p,
        None => match &config.selector {
            Some(s) => s,
            None => match &config.regex {
                Some(x) => x,
                None => return Err("No extraction pattern specified".to_string()),
            },
        },
    };
    assert(extraction_pattern(*config) == Some(*pattern));
    match config.method {
        PathExtractionMethod::Regex => {
            match regex_captures(pattern.as_str(), source) {
                Err(e) => Err(concat("Invalid regex: ", e.as_str())),
                Ok(None) => Ok(None),
                Ok(Some(gs)) => {
                    let last = if gs.len() > 0 { gs.len() - 1 } else { 0 };
                    let g = if config.group < last { config.group } else { last };
                    if g < gs.len() {
                        assert(crate::regex_ext::opt_views(gs@)[g as int] == opt_text(gs@[g as int]));
                        Ok(clone_opt(&gs[g]))
                    } else {
                        Ok(None)
                    }
                },
            }
        },
        PathExtractionMethod::Selector => {
            let names = match &config.attribute {
                Some(a) => vec![a.clone()],
                None => Vec::new(),
            };
            assert(views(names@) =~= (match config.attribute { Some(a) => seq![a@], None => Seq::<Seq<char>>::empty() }));
            match pick_first(source, pattern.as_str(), names) {
                Err(m) => Err(m),
                Ok(None) => Ok(None),
                Ok(Some(e)) => match &config.attribute {
                    Some(_) => Ok(first_attr_of(e)),
                    None => Ok(Some(crate::text::str_trim(e.text.as_str()))),
                },
            }
        },
        PathExtractionMethod::Header => Ok(text_copy(&ctx.last_headers, pattern.as_str())),
        PathExtractionMethod::JsonPath => match json_path_value(source, pattern.as_str()) {
            Ok(t) => Ok(Some(t)),
            Err(e) => Err(e),
        },
        PathExtractionMethod::Text => Ok(Some(crate::text::str_trim(source))),
        PathExtractionMethod::Attribute => {
            let a = match &config.attribute {
                Some(a) => a.clone(),
                None => "href".to_string(),
            };
            let ghost av = a@;
            let names = vec![a];
            assert(views(names@) =~= seq![av]);
            match pick_first(source, pattern.as_str(), names) {
                Err(m) => Err(m),
                Ok(None) => Ok(None),
                Ok(Some(e)) => Ok(first_attr_of(e)),
            }
        },
        PathExtractionMethod::XPath => Err("XPath extraction not yet implemented".to_string()),
    }
}

/// The text of element `i` of the JSON array in `text` (empty if missing).
pub open spec fn element_text(text: Seq<char>, i: int) -> Seq<char> {
    match json_at(text, seq![index_step(i as nat)]) {
        Some(l) => l.1,
        None => Seq::empty(),
    }
}

/// Whether a transformation can run without slicing inside a character.
pub open spec fn transformation_ok(t: PathTransformation) -> bool {
    match t {
        PathTransformation::JsonExtract { path } => json_path_ok(path@),
        _ => true,
    }
}

/// What a path transformation makes of `value` in the state of `ctx`.
pub open spec fn transform_result(t: PathTransformation, value: Seq<char>, ctx: NavigationContext) -> Result<Seq<char>, Seq<char>> {
    match t {
        PathTransformation::Replace { pattern, replacement } => if regex_valid(pattern@) {
            Ok(regex_replaced(pattern@, value, replacement@))
        } else {
            Err("Invalid regex: "@ + regex_error(pattern@))
        },
        PathTransformation::Template { template } => Ok(replace_all(ctx.interp(template@), "{value}"@, value)),
        PathTransformation::Prepend { value: p } => Ok(ctx.interp(p@) + value),
        PathTransformation::Append { value: a } => Ok(value + ctx.interp(a@)),
        PathTransformation::Trim => Ok(trim(value)),
        PathTransformation::UrlEncode => Ok(url_encoded(value)),
        PathTransformation::UrlDecode => match url_decoded(value) {
            Ok(d) => Ok(d),
            Err(e) => Err("URL decode failed: "@ + e),
        },
        PathTransformation::Base64Decode => match base64_decoded(value) {
            Err(e) => Err("Base64 decode failed: "@ + e),
            Ok(bytes) => match utf8_decoded(bytes) {
                Ok(t) => Ok(t),
                Err(e) => Err("UTF-8 decode failed: "@ + e),
            },
        },
        PathTransformation::JsonExtract { path } => json_path_text(value, path@),
        PathTransformation::Join { separator } => match json_queried(value, seq![Seq::empty()]) {
            Err(e) => Err("Invalid JSON: "@ + e),
            Ok(found) => if found.len() == 1 {
                match found[0] {
                    Some(l) => if l.0 == JsonKind::Array {
                        Ok(crate::text::join(Seq::new(l.2, |i: int| element_text(value, i)), separator@))
                    } else {
                        Ok(value)
                    },
                    None => Ok(value),
                }
            } else {
                Ok(value)
            },
        },
        PathTransformation::Split { separator, index } => {
            let parts = split(value, separator@);
            match index {
                Some(i) => Ok(if i < parts.len() { parts[i as int] } else { Seq::empty() }),
                None => Ok(json_strings_text(parts)),
            }
        },
    }
}

/// The texts of the elements of the JSON array in `text`, `n` of them.
fn element_texts(text: &str, n: usize) -> (r: Vec<String>)
    ensures
        views(r@) == Seq::new(n as nat, |i: int| element_text(text@, i)),
{
    let mut out: Vec<String> = Vec::new();
    let mut i: usize = 0;
    while i < n
        invariant
            i <= n,
            views(out@) == Seq::new(i as nat, |k: int| element_text(text@, k)),
        decreases n - i,
    {
        let steps = vec![JsonStep::Index(i)];
        assert(query_view(steps) =~= seq![index_step(i as nat)]);
        let t = match value_at(text, &steps) {
            Some(l) => l.text,
            None => String::new(),
        };
        proof { crate::text::lemma_views_push(out@, t); }
        out.push(t);
        assert(views(out@) =~= Seq::new((i + 1) as nat, |k: int| element_text(text@, k)));
        i = i + 1;
    }
    out
}

/// Apply one path transformation to a value.
pub fn apply_transformation(transform: &PathTransformation, value: &str, ctx: &NavigationContext) -> (r: Result<String, String>)
    requires
        transformation_ok(*transform),
    ensures
        match r {
            Ok(s) => transform_result(*transform, value@, *ctx) == Ok::<Seq<char>, Seq<char>>(s@),
            Err(e) => transform_result(*transform, value@, *ctx) == Err::<Seq<char>, Seq<char>>(e@),
        },
{
    match transform {
        PathTransformation::Replace { pattern, replacement } => {
            match regex_replace_all(pattern.as_str(), value, replacement.as_str()) {
                Ok(s) => Ok(s),
                Err(e) => Err(concat("Invalid regex: ", e.as_str())),
            }
        },
        PathTransformation::Template { template } => {
            let t = ctx.interpolate(template.as_str());
            Ok(str_replace(t.as_str(), "{value}", value))
        },
        PathTransformation::Prepend { value: prefix } => {
            let p = ctx.interpolate(prefix.as_str());
            Ok(concat(p.as_str(), value))
        },
        PathTransformation::Append { value: suffix } => {
            let a = ctx.interpolate(suffix.as_str());
            Ok(concat(value, a.as_str()))
        },
        PathTransformation::Trim => Ok(crate::text::str_trim(value)),
        PathTransformation::UrlEncode => Ok(encode(value)),
        PathTransformation::UrlDecode => match decode(value) {
            Ok(d) => Ok(d),
            Err(e) => Err(concat("URL decode failed: ", e.as_str())),
        },
        PathTransformation::Base64Decode => match base64_decode(value) {
            Err(e) => Err(concat("Base64 decode failed: ", e.as_str())),
            Ok(bytes) => match from_utf8(bytes) {
                Ok(t) => Ok(t),
                Err(e) => Err(concat("UTF-8 decode failed: ", e.as_str())),
            },
        },
        PathTransformation::JsonExtract { path } => json_path_value(value, path.as_str()),
        PathTransformation::Join { separator } => {
            let root: Vec<JsonStep> = Vec::new();
            let qs = vec![root];
            assert(query_view(qs@[0]) =~= Seq::<(bool, Seq<char>, nat)>::empty());
            assert(qs@.map_values(|q: Vec<JsonStep>| query_view(q)) =~= seq![Seq::<(bool, Seq<char>, nat)>::empty()]);
            match json_query(value, qs.as_slice()) {
                Err(e) => Err(concat("Invalid JSON: ", e.as_str())),
                Ok(found) => {
                    if found.len() == 1 {
                        match &found[0] {
                            Some(l) => {
                                if l.kind == JsonKind::Array {
                                    let texts = element_texts(value, l.len);
                                    Ok(crate::text::str_join(texts.as_slice(), separator.as_str()))
                                } else {
                                    Ok(value.to_string())
                                }
                            },
                            None => Ok(value.to_string()),
                        }
                    } else {
                        Ok(value.to_string())
                    }
                },
            }
        },
        PathTransformation::Split { separator, index } => {
            let parts = crate::text::str_split(value, separator.as_str());
            match index {
                Some(i) => {
                    if *i < parts.len() {
                        Ok(parts[*i].clone())
                    } else {
                        Ok(String::new())
                    }
                },
                None => Ok(strings_to_json(parts.as_slice())),
            }
        },
    }
}

/// The current value after an extraction found `value`: it becomes the
/// current value, the current URL when it looks like one, and the variable
/// named by `store_as`.
pub open spec fn extracted_into(old_ctx: NavigationContext, new_ctx: NavigationContext, value: Seq<char>, store_as: Option<String>) -> bool {
    &&& opt_text(new_ctx.current_value) == Some(value)
    &&& new_ctx.current_url@ == (if looks_like_url(value) { value } else { old_ctx.current_url@ })
    &&& text_entries(new_ctx.vars.view()) == (match store_as {
        Some(n) => crate::dict::inserted(text_entries(old_ctx.vars.view()), n@, value),
        None => text_entries(old_ctx.vars.view()),
    })
}

/// Run an extraction step: the value found becomes the current value (and
/// the current URL when it looks like one, and the variable `store_as`); with
/// nothing found the interpolated fallback becomes the current value, and
/// without a fallback the step fails.
pub fn step_extract(config: &ExtractStep, ctx: &mut NavigationContext) -> (r: Result<StepResult, String>)
    requires
        extraction_ok(*config),
    ensures
        ({
            let source = if config.from_url { old(ctx).current_url@ } else { old(ctx).response_body@ };
            match extraction_result(*config, source, *old(ctx)) {
                Err(e) => r matches Err(m) && m@ == e,
                Ok(Some(v)) => r matches Ok(StepResult::Continue) && extracted_into(*old(ctx), *final(ctx), v, config.store_as),
                Ok(None) => match config.fallback {
                    Some(f) => r matches Ok(StepResult::Continue) && opt_text(final(ctx).current_value) == Some(old(ctx).interp(f@))
                        && final(ctx).current_url == old(ctx).current_url && final(ctx).vars == old(ctx).vars,
                    None => r matches Err(m) && m@ == "Extraction failed and no fallback provided"@,
                },
            }
        }),
        final(ctx).response_body == old(ctx).response_body,
        final(ctx).metadata == old(ctx).metadata,
        final(ctx).last_headers == old(ctx).last_headers,
        final(ctx).results == old(ctx).results,
{
    let result = if config.from_url {
        do_extraction(config, ctx.current_url.as_str(), ctx)
    } else {
        do_extraction(config, ctx.response_body.as_str(), ctx)
    };
    let result = match result {
        Ok(v) => v,
        Err(e) => return Err(e),
    };
    match result {
        Some(value) => {
            ctx.current_value = Some(value.clone());
            if is_web_url(value.as_str()) {
                ctx.current_url = value.clone();
            }
            if let Some(var_name) = &config.store_as {
                ctx.vars.assert_unique();
                proof { crate::dict::lemma_text_entries_inserted(ctx.vars.view(), var_name@, value); }
                ctx.vars.insert(var_name.clone(), value);
            }
        },
        None => {
            match &config.fallback {
                Some(fallback) => {
                    let v = ctx.interpolate(fallback.as_str());
                    ctx.current_value = Some(v);
                },
                None => return Err("Extraction failed and no fallback provided".to_string()),
            }
        },
    }
    Ok(StepResult::Continue)
}

/// The attribute names an `extract_all` step asks of each element: its own
/// attribute first, then each metadata entry's attribute (empty when none).
pub open spec fn extract_all_attrs(config: ExtractAllStep) -> Seq<Seq<char>> {
    seq![config.attribute@] + config.extract_meta.view().map_values(|e: (Seq<char>, MetaExtraction)| match e.1.attribute {
        Some(a) => a@,
        None => Seq::<char>::empty(),
    })
}

/// The selectors an `extract_all` step runs below each element: one per
/// metadata entry (empty when the entry has none).
pub open spec fn extract_all_inner(config: ExtractAllStep) -> Seq<Seq<char>> {
    config.extract_meta.view().map_values(|e: (Seq<char>, MetaExtraction)| match e.1.selector {
        Some(s) => s@,
        None => Seq::<char>::empty(),
    })
}

/// The value metadata entry `i` takes for a picked element: its static value;
/// else the first element its selector matches below the picked one, read as
/// the entry's attribute or as trimmed text; else nothing.
pub open spec fn meta_value(m: MetaExtraction, i: int, p: (crate::html::ElementView, Seq<Option<Seq<crate::html::ElementView>>>)) -> Option<Seq<char>> {
    match m.value {
        Some(v) => Some(v@),
        None => match m.selector {
            None => None,
            Some(_) => if 0 <= i < p.1.len() {
                match p.1[i] {
                    Some(els) => if els.len() == 0 {
                        None
                    } else {
                        match m.attribute {
                            Some(_) => if i + 1 < els[0].1.len() { els[0].1[i + 1] } else { None },
                            None => Some(trim(els[0].0)),
                        }
                    },
                    None => None,
                }
            } else {
                None
            },
        },
    }
}

/// The metadata the first `n` entries give a picked element, each value
/// stored under its entry's name.
pub open spec fn meta_values(ms: Seq<(Seq<char>, MetaExtraction)>, n: int, p: (crate::html::ElementView, Seq<Option<Seq<crate::html::ElementView>>>)) -> Seq<(Seq<char>, Seq<char>)>
    decreases n,
{
    if n <= 0 || n > ms.len() {
        Seq::empty()
    } else {
        let rest = meta_values(ms, n - 1, p);
        match meta_value(ms[n - 1].1, n - 1, p) {
            Some(v) => crate::dict::inserted(rest, ms[n - 1].0, v),
            None => rest,
        }
    }
}

/// Whether a value read from an element passes the step's filter (evaluated
/// with the value as both current URL and current value).
pub open spec fn passes_filter(config: ExtractAllStep, v: Seq<char>, ctx: NavigationContext) -> bool {
    match config.filter {
        Some(f) => condition_holds(f, v, Some(v), ctx),
        None => true,
    }
}

/// The items the first `n` picked elements give: each element carrying the
/// step's attribute and passing its filter, with its metadata.
pub open spec fn picked_items(config: ExtractAllStep, ps: Seq<(crate::html::ElementView, Seq<Option<Seq<crate::html::ElementView>>>)>, n: int, ctx: NavigationContext) -> Seq<(Seq<char>, Seq<(Seq<char>, Seq<char>)>)>
    decreases n,
{
    if n <= 0 || n > ps.len() {
        Seq::empty()
    } else {
        let rest = picked_items(config, ps, n - 1, ctx);
        let p = ps[n - 1];
        if p.0.1.len() > 0 && p.0.1[0] is Some && passes_filter(config, p.0.1[0]->0, ctx) {
            rest.push((p.0.1[0]->0, meta_values(config.extract_meta.view(), config.extract_meta.view().len() as int, p)))
        } else {
            rest
        }
    }
}

/// How many items an `extract_all` step keeps: all, or its limit (at least one).
pub open spec fn item_cap(limit: Option<usize>, found: nat) -> nat {
    match limit {
        Some(l) => if found <= l || found <= 1 { found } else if l == 0 { 1 } else { l as nat },
        None => found,
    }
}

/// Fewer elements give no more items, and their items come first.
proof fn lemma_picked_prefix(config: ExtractAllStep, ps: Seq<(crate::html::ElementView, Seq<Option<Seq<crate::html::ElementView>>>)>, n: int, m: int, ctx: NavigationContext)
    requires
        0 <= n <= m <= ps.len(),
    ensures
        picked_items(config, ps, n, ctx).len() <= picked_items(config, ps, m, ctx).len(),
        picked_items(config, ps, m, ctx).subrange(0, picked_items(config, ps, n, ctx).len() as int) == picked_items(config, ps, n, ctx),
    decreases m - n,
{
    if n < m {
        lemma_picked_prefix(config, ps, n, m - 1, ctx);
        let a = picked_items(config, ps, n, ctx);
        let b = picked_items(config, ps, m - 1, ctx);
        let c = picked_items(config, ps, m, ctx);
        assert(c.subrange(0, a.len() as int) =~= a) by {
            assert(b.subrange(0, a.len() as int) == a);
            assert forall|i: int| 0 <= i < a.len() implies #[trigger] c[i] == a[i] by {
                assert(b[i] == a[i]);
            }
        }
    }
}

/// The metadata a picked element gives under the entries `ms`.
fn picked_meta(ms: &Dict<MetaExtraction>, p: &Picked) -> (r: Dict<String>)
    ensures
        text_entries(r.view()) == meta_values(ms.view(), ms.view().len() as int, picked_view(*p)),
{
    let ghost pv = picked_view(*p);
    let mut meta: Dict<String> = Dict::new();
    assert(text_entries(meta.view()) =~= Seq::<(Seq<char>, Seq<char>)>::empty());
    let n = ms.len();
    let mut j: usize = 0;
    while j < n
        invariant
            n == ms.view().len(),
            j <= n,
            pv == picked_view(*p),
            text_entries(meta.view()) == meta_values(ms.view(), j as int, pv),
        decreases n - j,
    {
        let m = ms.value_at(j);
        let value: Option<String> = match &m.value {
            Some(v) => Some(v.clone()),
            None => match &m.selector {
                None => None,
                Some(_) => if j < p.inner.len() {
                    match &p.inner[j] {
                        Some(els) => if els.len() == 0 {
                            None
                        } else {
                            assert(pv.1[j as int] == Some(crate::html::elements_view(els@)));
                            match &m.attribute {
                                Some(_) => if j + 1 < els[0].attrs.len() {
                                    clone_opt(&els[0].attrs[j + 1])
                                } else {
                                    None
                                },
                                None => Some(crate::text::str_trim(els[0].text.as_str())),
                            }
                        },
                        None => None,
                    }
                } else {
                    None
                },
            },
        };
        assert(opt_text(value) == meta_value(*m, j as int, pv));
        if let Some(v) = value {
            meta.assert_unique();
            proof { crate::dict::lemma_text_entries_inserted(meta.view(), ms.view()[j as int].0, v); }
            meta.insert(ms.key_at(j).clone(), v);
        }
        j = j + 1;
    }
    meta
}

/// The items an `extract_all` step picks from the current response: for each
/// element its selector matches, in document order, the value of the step's
/// attribute, when the element has it and the value passes the filter, with
/// the metadata read from the element; with a limit, no more items than it
/// (but at least one). The error names the selector when the crate rejects it.
pub fn extract_all_items(config: &ExtractAllStep, ctx: &NavigationContext) -> (r: Result<Vec<(String, Dict<String>)>, String>)
    ensures
        match html_picked(ctx.response_body@, config.selector@, extract_all_attrs(*config), extract_all_inner(*config)) {
            Err(_) => r matches Err(m) && m@ == "Invalid selector: "@ + config.selector@,
            Ok(ps) => r matches Ok(items) && {
                let all = picked_items(*config, ps, ps.len() as int, *ctx);
                &&& items@.len() == item_cap(config.limit, all.len())
                &&& forall|i: int| 0 <= i < items@.len() ==> (#[trigger] items@[i]).0@ == all[i].0
                    && text_entries(items@[i].1.view()) == all[i].1
            },
        },
{
    let ms = &config.extract_meta;
    let n = ms.len();
    let mut attr_names: Vec<String> = vec![config.attribute.clone()];
    let mut inner: Vec<String> = Vec::new();
    let mut j: usize = 0;
    while j < n
        invariant
            n == ms.view().len(),
            ms.view() == config.extract_meta.view(),
            j <= n,
            attr_names@.len() == j + 1,
            inner@.len() == j,
            attr_names@[0]@ == config.attribute@,
            forall|k: int| 0 <= k < j ==> (#[trigger] attr_names@[k + 1])@ == extract_all_attrs(*config)[k + 1],
            forall|k: int| 0 <= k < j ==> (#[trigger] inner@[k])@ == extract_all_inner(*config)[k],
        decreases n - j,
    {
        let m = ms.value_at(j);
        match &m.attribute {
            Some(a) => attr_names.push(a.clone()),
            None => attr_names.push(String::new()),
        }
        match &m.selector {
            Some(s) => inner.push(s.clone()),
            None => inner.push(String::new()),
        }
        assert(extract_all_attrs(*config)[j + 1] == (match m.attribute { Some(a) => a@, None => Seq::<char>::empty() }));
        assert(extract_all_inner(*config)[j as int] == (match m.selector { Some(s) => s@, None => Seq::<char>::empty() }));
        j = j + 1;
    }
    assert(views(attr_names@) =~= extract_all_attrs(*config)) by {
        assert forall|k: int| 0 <= k < attr_names@.len() implies views(attr_names@)[k] == extract_all_attrs(*config)[k] by {
            if k > 0 {
                assert(attr_names@[(k - 1) + 1]@ == extract_all_attrs(*config)[(k - 1) + 1]);
            }
        }
    }
    assert(views(inner@) =~= extract_all_inner(*config)) by {
        assert forall|k: int| 0 <= k < inner@.len() implies views(inner@)[k] == extract_all_inner(*config)[k] by {
            assert(inner@[k]@ == extract_all_inner(*config)[k]);
        }
    }
    let ps = match html_pick(ctx.response_body.as_str(), config.selector.as_str(), attr_names.as_slice(), inner.as_slice()) {
        Err(_) => return Err(concat("Invalid selector: ", config.selector.as_str())),
        Ok(ps) => ps,
    };
    let ghost psv = ps@.map_values(|p: Picked| picked_view(p));
    let mut items: Vec<(String, Dict<String>)> = Vec::new();
    let mut done = false;
    let mut i: usize = 0;
    while i < ps.len() && !done
        invariant
            i <= ps@.len(),
            ms.view() == config.extract_meta.view(),
            psv == ps@.map_values(|p: Picked| picked_view(p)),
            items@.len() == picked_items(*config, psv, i as int, *ctx).len(),
            forall|k: int| 0 <= k < items@.len() ==> (#[trigger] items@[k]).0@ == picked_items(*config, psv, i as int, *ctx)[k].0
                && text_entries(items@[k].1.view()) == picked_items(*config, psv, i as int, *ctx)[k].1,
            done ==> (config.limit matches Some(l) && items@.len() == (if l == 0 { 1 } else { l as int })),
            !done ==> (config.limit matches Some(l) ==> (items@.len() == 0 || items@.len() < l)),
        decreases ps@.len() - i,
    {
        let p = &ps[i];
        let ghost pv = psv[i as int];
        assert(pv == picked_view(*p));
        let ghost before = picked_items(*config, psv, i as int, *ctx);
        if p.element.attrs.len() > 0 {
            match &p.element.attrs[0] {
                Some(value) => {
                    assert(pv.0.1[0] == Some(value@));
                    let keep = match &config.filter {
                        Some(f) => {
                            let v = Some(value.clone());
                            condition_holds_with(f, value.as_str(), &v, ctx)
                        },
                        None => true,
                    };
                    assert(keep == passes_filter(*config, value@, *ctx));
                    if keep {
                        let meta = picked_meta(ms, p);
                        items.push((value.clone(), meta));
                        assert(picked_items(*config, psv, i + 1, *ctx) == before.push((value@, meta_values(ms.view(), ms.view().len() as int, pv))));
                        match config.limit {
                            Some(l) => if items.len() >= l {
                                done = true;
                            },
                            None => {},
                        }
                    }
                },
                None => {},
            }
        }
        i = i + 1;
    }
    proof {
        let all = picked_items(*config, psv, psv.len() as int, *ctx);
        lemma_picked_prefix(*config, psv, i as int, psv.len() as int, *ctx);
        let part = picked_items(*config, psv, i as int, *ctx);
        assert forall|k: int| 0 <= k < items@.len() implies (#[trigger] items@[k]).0@ == all[k].0
            && text_entries(items@[k].1.view()) == all[k].1 by {
            assert(all.subrange(0, part.len() as int)[k] == part[k]);
        }
    }
    Ok(items)
}

/// A chain of path transformations applied in turn, stopping at the first error.
pub open spec fn transform_chain(ts: Seq<PathTransformation>, v: Seq<char>, ctx: NavigationContext) -> Result<Seq<char>, Seq<char>>
    decreases ts.len(),
{
    if ts.len() == 0 {
        Ok(v)
    } else {
        match transform_chain(ts.drop_last(), v, ctx) {
            Ok(w) => transform_result(ts.last(), w, ctx),
            Err(e) => Err(e),
        }
    }
}

proof fn lemma_transform_chain_stops(ts: Seq<PathTransformation>, i: int, v: Seq<char>, ctx: NavigationContext)
    requires
        0 <= i < ts.len(),
        transform_chain(ts.take(i + 1), v, ctx) is Err,
    ensures
        transform_chain(ts, v, ctx) == transform_chain(ts.take(i + 1), v, ctx),
    decreases ts.len() - i,
{
    if i + 1 < ts.len() {
        assert(ts.drop_last().take(i + 1) =~= ts.take(i + 1));
        lemma_transform_chain_stops(ts.drop_last(), i, v, ctx);
    } else {
        assert(ts.take(i + 1) =~= ts);
    }
}

/// Run a transform step on the current value (empty when there is none); the
/// result becomes the current value, and the current URL when it looks like one.
pub fn step_transform(config: &TransformStep, ctx: &mut NavigationContext) -> (r: Result<StepResult, String>)
    requires
        forall|i: int| 0 <= i < config.transformations@.len() ==> transformation_ok(#[trigger] config.transformations@[i]),
    ensures
        ({
            let v0 = match old(ctx).current_value { Some(v) => v@, None => Seq::empty() };
            match transform_chain(config.transformations@, v0, *old(ctx)) {
                Err(e) => r matches Err(m) && m@ == e,
                Ok(w) => r matches Ok(StepResult::Continue) && opt_text(final(ctx).current_value) == Some(w)
                    && final(ctx).current_url@ == (if looks_like_url(w) { w } else { old(ctx).current_url@ }),
            }
        }),
        final(ctx).vars == old(ctx).vars,
        final(ctx).metadata == old(ctx).metadata,
        final(ctx).response_body == old(ctx).response_body,
        final(ctx).results == old(ctx).results,
{
    let ghost c0 = *ctx;
    let mut value = match &ctx.current_value {
        Some(v) => v.clone(),
        None => String::new(),
    };
    let ghost v0 = value@;
    let ts = &config.transformations;
    let mut i: usize = 0;
    assert(ts@.take(0) =~= Seq::<PathTransformation>::empty());
    while i < ts.len()
        invariant
            i <= ts.len(),
            *ctx == c0,
            c0 == *old(ctx),
            ts == &config.transformations,
            v0 == (match old(ctx).current_value { Some(v) => v@, None => Seq::<char>::empty() }),
            forall|k: int| 0 <= k < ts@.len() ==> transformation_ok(#[trigger] ts@[k]),
            transform_chain(ts@.take(i as int), v0, c0) == Ok::<Seq<char>, Seq<char>>(value@),
        decreases ts.len() - i,
    {
        proof {
            assert(ts@.take(i + 1).drop_last() =~= ts@.take(i as int));
        }
        match apply_transformation(&ts[i], value.as_str(), ctx) {
            Ok(w) => {
                value = w;
            },
            Err(e) => {
                assert(transform_chain(ts@.take(i + 1), v0, c0) == Err::<Seq<char>, Seq<char>>(e@));
                proof { lemma_transform_chain_stops(ts@, i as int, v0, c0); }
                return Err(e);
            },
        }
        i = i + 1;
    }
    assert(ts@.take(ts.len() as int) =~= ts@);
    ctx.current_value = Some(value.clone());
    if is_web_url(value.as_str()) {
        ctx.current_url = value;
    }
    Ok(StepResult::Continue)
}

/// Set a variable: to what an extraction from the response finds (empty when
/// nothing), or to the interpolated value.
pub fn step_set_var(config: &SetVarStep, ctx: &mut NavigationContext) -> (r: Result<StepResult, String>)
    requires
        config.extract matches Some(x) ==> extraction_ok(x),
    ensures
        ({
            let value: Result<Seq<char>, Seq<char>> = match config.extract {
                Some(x) => match extraction_result(x, old(ctx).response_body@, *old(ctx)) {
                    Ok(Some(v)) => Ok(v),
                    Ok(None) => Ok(Seq::empty()),
                    Err(e) => Err(e),
                },
                None => Ok(old(ctx).interp(config.value@)),
            };
            match value {
                Err(e) => r matches Err(m) && m@ == e,
                Ok(v) => r matches Ok(StepResult::Continue)
                    && text_entries(final(ctx).vars.view()) == crate::dict::inserted(text_entries(old(ctx).vars.view()), config.name@, v),
            }
        }),
        final(ctx).current_url == old(ctx).current_url,
        final(ctx).current_value == old(ctx).current_value,
        final(ctx).metadata == old(ctx).metadata,
        final(ctx).results == old(ctx).results,
{
    let value = match &config.extract {
        Some(x) => match do_extraction(x, ctx.response_body.as_str(), ctx) {
            Ok(Some(v)) => v,
            Ok(None) => String::new(),
            Err(e) => return Err(e),
        },
        None => ctx.interpolate(config.value.as_str()),
    };
    ctx.vars.assert_unique();
    proof { crate::dict::lemma_text_entries_inserted(ctx.vars.view(), config.name@, value); }
    ctx.vars.insert(config.name.clone(), value);
    Ok(StepResult::Continue)
}

/// The message a log step writes: its text interpolated.
pub fn step_log_message(config: &LogStep, ctx: &NavigationContext) -> (r: String)
    ensures
        r@ == ctx.interp(config.message@),
{
    ctx.interpolate(config.message.as_str())
}

/// The steps a path reference stands for (`None` when the named path is missing).
pub open spec fn resolved_steps(pr: PathOrRef, paths: Seq<(Seq<char>, NavigationPath)>) -> Option<Vec<PathStep>> {
    match pr {
        PathOrRef::Inline(steps) => Some(steps),
        PathOrRef::InlineFull(p) => Some(p.steps),
        PathOrRef::Reference(u) => match lookup(paths, referenced_name(u.path_ref@)) {
            Some(p) => Some(p.steps),
            None => None,
        },
    }
}

/// The path of the first rule whose condition holds for `url`.
pub open spec fn rule_pick(rules: Seq<MatchRule>, url: Seq<char>, ctx: NavigationContext) -> Option<PathOrRef>
    decreases rules.len(),
{
    if rules.len() == 0 {
        None
    } else if condition_holds(rules[0].when, url, opt_text(ctx.current_value), ctx) {
        Some(rules[0].path)
    } else {
        rule_pick(rules.drop_first(), url, ctx)
    }
}

/// The path reference chosen for an extracted `url`: the first matching rule's,
/// else the default, else the single path.
pub open spec fn chosen_ref(foreach: ForEachConfig, url: Seq<char>, ctx: NavigationContext) -> Option<PathOrRef> {
    let picked = match foreach.match_rules {
        Some(rules) => rule_pick(rules@, url, ctx),
        None => None,
    };
    match picked {
        Some(p) => Some(p),
        None => match foreach.default {
            Some(d) => Some(d),
            None => foreach.path,
        },
    }
}

/// The steps to run for an extracted `url` (`None` when nothing is configured).
pub fn select_path_for_url<'a>(url: &str, foreach: &'a ForEachConfig, ctx: &'a NavigationContext) -> (r: Result<Option<&'a Vec<PathStep>>, String>)
    ensures
        match chosen_ref(*foreach, url@, *ctx) {
            None => r matches Ok(None),
            Some(pr) => match resolved_steps(pr, ctx.paths.view()) {
                Some(steps) => r matches Ok(Some(s)) && *s == steps,
                None => r matches Err(e) && pr matches PathOrRef::Reference(u)
                    && e@ == "Path not found: "@ + referenced_name(u.path_ref@),
            },
        },
{
    if let Some(rules) = &foreach.match_rules {
        let mut i: usize = 0;
        assert(rules@.skip(0) =~= rules@);
        while i < rules.len()
            invariant
                i <= rules.len(),
                foreach.match_rules == Some(*rules),
                rule_pick(rules@, url@, *ctx) == rule_pick(rules@.skip(i as int), url@, *ctx),
            decreases rules.len() - i,
        {
            proof {
                assert(rules@.skip(i as int)[0] == rules@[i as int]);
                assert(rules@.skip(i as int).drop_first() =~= rules@.skip(i + 1));
            }
            if condition_holds_with(&rules[i].when, url, &ctx.current_value, ctx) {
                return match resolve_path_ref(&rules[i].path, &ctx.paths) {
                    Ok(s) => Ok(Some(s)),
                    Err(e) => Err(e),
                };
            }
            i = i + 1;
        }
        assert(rules@.skip(rules.len() as int) =~= Seq::<MatchRule>::empty());
    }
    if let Some(default) = &foreach.default {
        return match resolve_path_ref(default, &ctx.paths) {
            Ok(s) => Ok(Some(s)),
            Err(e) => Err(e),
        };
    }
    if let Some(path) = &foreach.path {
        return match resolve_path_ref(path, &ctx.paths) {
            Ok(s) => Ok(Some(s)),
            Err(e) => Err(e),
        };
    }
    Ok(None)
}

/// How long a wait step waits (milliseconds): its milliseconds, else its
/// seconds, else the number held by its variable, else nothing.
pub open spec fn wait_ms(config: WaitStep, ctx: NavigationContext) -> Result<nat, Seq<char>> {
    match config.ms {
        Some(ms) => Ok(ms as nat),
        None => match config.seconds {
            Some(secs) => Ok((secs * 1000) as nat),
            None => match config.var {
                Some(var) => match entry_text(ctx.vars.view(), var@) {
                    None => Err("Variable not found: "@ + var@),
                    Some(v) => match crate::text::parsed_u64(v) {
                        Some(n) => Ok(n),
                        None => Err("Invalid wait duration"@),
                    },
                },
                None => Ok(0),
            },
        },
    }
}

/// How long a wait step waits, in milliseconds (the waiting itself is the
/// application's).
pub fn wait_duration(config: &WaitStep, ctx: &NavigationContext) -> (r: Result<u64, String>)
    requires
        config.ms is None ==> (config.seconds matches Some(secs) ==> secs * 1000 <= u64::MAX),
    ensures
        match r {
            Ok(ms) => wait_ms(*config, *ctx) == Ok::<nat, Seq<char>>(ms as nat),
            Err(e) => wait_ms(*config, *ctx) == Err::<nat, Seq<char>>(e@),
        },
{
    if let Some(ms) = config.ms {
        return Ok(ms);
    }
    if let Some(secs) = config.seconds {
        return Ok(secs * 1000);
    }
    if let Some(var) = &config.var {
        return match get_text(&ctx.vars, var.as_str()) {
            None => Err(concat("Variable not found: ", var.as_str())),
            Some(v) => match crate::text::parse_u64(v.as_str()) {
                Some(n) => Ok(n),
                None => Err("Invalid wait duration".to_string()),
            },
        };
    }
    Ok(0)
}

/// What the host detection step does.
#[derive(Debug)]
pub enum HostChoice<'a> {
    /// Run the path of a host pattern found in the URL, recording the pattern
    /// as the `host` metadata.
    Matched(&'a String, &'a PathOrRef),
    /// Run the default path.
    Default(&'a PathOrRef),
    /// Return the current URL.
    Keep,
}

/// The index of the first host pattern (in the step's order) that occurs in
/// the lower-cased URL.
pub open spec fn first_host(hosts: Seq<(Seq<char>, PathOrRef)>, url_lower: Seq<char>, n: int) -> Option<int>
    decreases n,
{
    if n <= 0 || n > hosts.len() {
        None
    } else {
        match first_host(hosts, url_lower, n - 1) {
            Some(i) => Some(i),
            None => if contains(url_lower, hosts[n - 1].0) { Some(n - 1) } else { None },
        }
    }
}

/// Choose what a host detection step runs for the current URL.
pub fn detect_host_choice<'a>(config: &'a DetectHostStep, ctx: &NavigationContext) -> (r: HostChoice<'a>)
    ensures
        match first_host(config.hosts.view(), lowercase(ctx.current_url@), config.hosts.view().len() as int) {
            Some(i) => r matches HostChoice::Matched(k, p) && k@ == config.hosts.view()[i].0 && *p == config.hosts.view()[i].1,
            None => match config.default {
                Some(d) => r matches HostChoice::Default(p) && *p == d,
                None => r matches HostChoice::Keep,
            },
        },
{
    let url = to_lower(ctx.current_url.as_str());
    let n = config.hosts.len();
    let mut i: usize = 0;
    while i < n
        invariant
            i <= n,
            n == config.hosts.view().len(),
            url@ == lowercase(ctx.current_url@),
            first_host(config.hosts.view(), url@, i as int) is None,
        decreases n - i,
    {
        if str_contains(url.as_str(), config.hosts.key_at(i).as_str()) {
            proof { lemma_first_host_stays(config.hosts.view(), url@, i as int + 1, n as int); }
            return HostChoice::Matched(config.hosts.key_at(i), config.hosts.value_at(i));
        }
        i = i + 1;
    }
    match &config.default {
        Some(d) => HostChoice::Default(d),
        None => HostChoice::Keep,
    }
}

proof fn lemma_first_host_stays(hosts: Seq<(Seq<char>, PathOrRef)>, url: Seq<char>, m: int, n: int)
    requires
        0 < m <= n <= hosts.len(),
        first_host(hosts, url, m) is Some,
    ensures
        first_host(hosts, url, n) == first_host(hosts, url, m),
    decreases n - m,
{
    if n > m {
        lemma_first_host_stays(hosts, url, m, n - 1);
    }
}

/// What an error handler decided.
#[derive(Debug)]
pub enum HandlerOutcome {
    /// Run the named path (then the error counts as handled).
    RunPath,
    /// Not handled: warn with this message and try the next handler.
    NotHandled(String),
    /// Handled by returning this link.
    ReturnLink(ResolvedLink),
    /// Fail the navigation with this message.
    Fail(String),
    /// Handled: carry on.
    Handled,
}

/// What an error handler does in the current state (running a named path is
/// the application's).
pub fn handle_error_outcome(handler: &ErrorHandler, ctx: &NavigationContext) -> (r: HandlerOutcome)
    ensures
        match handler {
            ErrorHandler::Use(_) => r matches HandlerOutcome::RunPath,
            ErrorHandler::Retry { max_attempts, .. } => r matches HandlerOutcome::NotHandled(m)
                && m@ == "Retry not yet implemented (would retry "@ + dec_of(*max_attempts as nat) + " times)"@,
            ErrorHandler::ReturnOriginal => r matches HandlerOutcome::ReturnLink(link) && {
                &&& link.url@ == (if ctx.navigation_stack@.len() > 0 { ctx.navigation_stack@[0]@ } else { ctx.current_url@ })
                &&& link.label is None && link.host is None && link.size is None
                &&& !link.browser_only && link.browser_only_reason is None
                &&& link.metadata.view().len() == 0
                &&& link.resolution_path@.len() == 0
            },
            ErrorHandler::ReturnError { message } => r matches HandlerOutcome::Fail(m) && m@ == ctx.interp(message@),
            ErrorHandler::Continue => r matches HandlerOutcome::Handled,
        },
{
    match handler {
        ErrorHandler::Use(_) => HandlerOutcome::RunPath,
        ErrorHandler::Retry { max_attempts, .. } => {
            let n = crate::text::to_decimal(*max_attempts as u128);
            let head = concat("Retry not yet implemented (would retry ", n.as_str());
            HandlerOutcome::NotHandled(concat(head.as_str(), " times)"))
        },
        ErrorHandler::ReturnOriginal => {
            let url = if ctx.navigation_stack.len() > 0 {
                ctx.navigation_stack[0].clone()
            } else {
                ctx.current_url.clone()
            };
            HandlerOutcome::ReturnLink(ResolvedLink {
                url,
                label: None,
                host: None,
                size: None,
                browser_only: false,
                browser_only_reason: None,
                metadata: Dict::new(),
                resolution_path: Vec::new(),
            })
        },
        ErrorHandler::ReturnError { message } => HandlerOutcome::Fail(ctx.interpolate(message.as_str())),
        ErrorHandler::Continue => HandlerOutcome::Handled,
    }
}

/// Appending keeps the value in front and puts the interpolated suffix after
/// it; prepending puts the interpolated prefix in front of the value.
pub proof fn law_append_prepend(value: Seq<char>, s: String, ctx: NavigationContext)
    ensures
        ({
            let r = transform_result(PathTransformation::Append { value: s }, value, ctx);
            &&& r is Ok
            &&& r->Ok_0.len() == value.len() + ctx.interp(s@).len()
            &&& r->Ok_0.subrange(0, value.len() as int) == value
            &&& r->Ok_0.subrange(value.len() as int, r->Ok_0.len() as int) == ctx.interp(s@)
        }),
        ({
            let r = transform_result(PathTransformation::Prepend { value: s }, value, ctx);
            let p = ctx.interp(s@);
            &&& r is Ok
            &&& r->Ok_0.len() == p.len() + value.len()
            &&& r->Ok_0.subrange(0, p.len() as int) == p
            &&& r->Ok_0.subrange(p.len() as int, r->Ok_0.len() as int) == value
        }),
{
    let p = ctx.interp(s@);
    assert((value + p).subrange(0, value.len() as int) =~= value);
    assert((value + p).subrange(value.len() as int, (value + p).len() as int) =~= p);
    assert((p + value).subrange(0, p.len() as int) =~= p);
    assert((p + value).subrange(p.len() as int, (p + value).len() as int) =~= value);
}

} // verus!
