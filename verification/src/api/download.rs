//! The decisions of the download commands: which navigation path resolves a
//! button's link, and what a size probe and an install preflight report.
use vstd::prelude::*;
use crate::dict::{Dict, lookup};
use crate::config::paths::{NavigationPath, PathOrRef, PathStep};
use crate::engine::navigator::{PathTarget, path_ref_to_path, referenced_name};
use crate::regex_ext::{regex_valid, regex_matches, regex_is_match};
use crate::text::{contains, has_prefix, has_suffix, str_contains, str_starts_with, str_ends_with, str_eq, concat3};
use crate::types::detail_section::{ButtonResolutionConfig, ButtonMatchRule, MatchCondition};
use crate::url_ext::{url_host, host_of_url};

verus! {

/// What probing a download's size found.
#[derive(Debug, Clone)]
pub struct ProbeResult {
    /// The archive's size in bytes (0 when unknown).
    pub size: u64,
    /// The direct download URL once the source and the host are resolved.
    pub resolved_url: String,
    /// Cookies taken from a WebView session, for hosts that need one.
    pub cookies: Option<String>,
}

/// What an install needs and has before it starts.
#[derive(Debug, Clone)]
pub struct InstallPreflight {
    /// The archive's size in bytes (0 when unknown).
    pub download_size_bytes: u64,
    /// Where the archive is downloaded to.
    pub download_path: String,
    /// Where the game is installed.
    pub install_path: String,
    /// Free bytes on the download drive (0 when unknown).
    pub available_bytes: u64,
}

/// Whether a button's match condition holds for `url`.
pub open spec fn match_holds(c: MatchCondition, url: Seq<char>) -> bool {
    match c {
        MatchCondition::Contains(s) => contains(url, s@),
        MatchCondition::Matches(p) => regex_valid(p@) && regex_matches(p@, url),
        MatchCondition::StartsWith(s) => has_prefix(url, s@),
        MatchCondition::EndsWith(s) => has_suffix(url, s@),
        MatchCondition::HostEquals(h) => url_host(url) == Some(h@),
        MatchCondition::HostContains(s) => match url_host(url) {
            Some(h) => contains(h, s@),
            None => false,
        },
        MatchCondition::Always => true,
    }
}

/// Whether a button's match condition holds for `url`.
pub fn check_match(c: &MatchCondition, url: &str) -> (b: bool)
    ensures
        b == match_holds(*c, url@),
{
    match c {
        MatchCondition::Contains(s) => str_contains(url, s.as_str()),
        MatchCondition::Matches(p) => match regex_is_match(p.as_str(), url) {
            Some(m) => m,
            None => false,
        },
        MatchCondition::StartsWith(s) => str_starts_with(url, s.as_str()),
        MatchCondition::EndsWith(s) => str_ends_with(url, s.as_str()),
        MatchCondition::HostEquals(h) => match host_of_url(url) {
            Some(host) => str_eq(host.as_str(), h.as_str()),
            None => false,
        },
        MatchCondition::HostContains(s) => match host_of_url(url) {
            Some(host) => str_contains(host.as_str(), s.as_str()),
            None => false,
        },
        MatchCondition::Always => true,
    }
}

/// Whether a rule decides: its condition holds and it names a resolver or a
/// path.
pub open spec fn rule_decides(r: ButtonMatchRule, url: Seq<char>) -> bool {
    match_holds(r.when, url) && (r.resolver is Some || r.path is Some)
}

/// The index of the first rule that decides for `url`.
pub open spec fn first_deciding(rules: Seq<ButtonMatchRule>, url: Seq<char>) -> Option<int>
    decreases rules.len(),
{
    if rules.len() == 0 {
        None
    } else if rule_decides(rules[0], url) {
        Some(0)
    } else {
        match first_deciding(rules.drop_first(), url) {
            Some(i) => Some(i + 1),
            None => None,
        }
    }
}

/// The path a resolution configuration picks for a button's URL: the first
/// rule whose condition holds and that names a resolver (looked up among the
/// paths) or a path; else the default resolver; else the inline steps.
pub fn determine_path_from_resolution<'a>(
    url: &str,
    resolution: &'a ButtonResolutionConfig,
    paths: &'a Dict<NavigationPath>,
) -> (r: Result<PathTarget<'a>, String>)
    ensures
        ({
            let rules = match resolution.match_rules { Some(rs) => rs@, None => Seq::empty() };
            match first_deciding(rules, url@) {
                Some(i) => {
                    let rule = rules[i];
                    match rule.resolver {
                        Some(name) => match lookup(paths.view(), name@) {
                            Some(p) => r matches Ok(PathTarget::Path(q)) && *q == p,
                            None => r matches Err(e) && e@ == "Resolver '"@ + name@ + "' not found"@,
                        },
                        None => match rule.path.unwrap() {
                            PathOrRef::Inline(steps) => r matches Ok(PathTarget::Steps(s)) && *s == steps,
                            PathOrRef::InlineFull(p) => r matches Ok(PathTarget::Path(q)) && *q == *p,
                            PathOrRef::Reference(u) => match lookup(paths.view(), referenced_name(u.path_ref@)) {
                                Some(p) => r matches Ok(PathTarget::Path(q)) && *q == p,
                                None => r matches Err(e) && e@ == "Path '"@ + referenced_name(u.path_ref@) + "' not found"@,
                            },
                        },
                    }
                },
                None => match resolution.default {
                    Some(name) => match lookup(paths.view(), name@) {
                        Some(p) => r matches Ok(PathTarget::Path(q)) && *q == p,
                        None => r matches Err(e) && e@ == "Default resolver '"@ + name@ + "' not found"@,
                    },
                    None => match resolution.steps {
                        Some(steps) => r matches Ok(PathTarget::Steps(s)) && *s == steps,
                        None => r matches Err(e) && e@ == "No matching path found for URL"@,
                    },
                },
            }
        }),
{
    if let Some(rules) = &resolution.match_rules {
        let mut i: usize = 0;
        assert(rules@.skip(0) =~= rules@);
        while i < rules.len()
            invariant
                i <= rules.len(),
                resolution.match_rules == Some(*rules),
                first_deciding(rules@, url@) == match first_deciding(rules@.skip(i as int), url@) {
                    Some(j) => Some(j + i),
                    None => None::<int>,
                },
            decreases rules.len() - i,
        {
            proof {
                assert(rules@.skip(i as int)[0] == rules@[i as int]);
                assert(rules@.skip(i as int).drop_first() =~= rules@.skip(i + 1));
            }
            let rule = &rules[i];
            if check_match(&rule.when, url) {
                if let Some(name) = &rule.resolver {
                    return match paths.get(name.as_str()) {
                        Some(p) => Ok(PathTarget::Path(p)),
                        None => Err(concat3("Resolver '", name.as_str(), "' not found")),
                    };
                }
                if let Some(path_ref) = &rule.path {
                    return path_ref_to_path(path_ref, paths);
                }
            }
            i = i + 1;
        }
        assert(rules@.skip(i as int) =~= Seq::<ButtonMatchRule>::empty());
    }
    if let Some(name) = &resolution.default {
        return match paths.get(name.as_str()) {
            Some(p) => Ok(PathTarget::Path(p)),
            None => Err(concat3("Default resolver '", name.as_str(), "' not found")),
        };
    }
    if let Some(steps) = &resolution.steps {
        return Ok(PathTarget::Steps(steps));
    }
    Err(String::from_str("No matching path found for URL"))
}

/// Where a resumed download restarts: at the bytes already downloaded when
/// the download can resume and the partial file (`file_size`, `None` when it
/// is missing) holds exactly that many; otherwise from the start.
pub fn resume_offset(downloaded_bytes: u64, is_resumable: bool, file_size: Option<u64>) -> (r: u64)
    ensures
        r == (if downloaded_bytes > 0 && is_resumable && file_size == Some(downloaded_bytes) { downloaded_bytes } else { 0 }),
{
    if downloaded_bytes > 0 && is_resumable {
        match file_size {
            Some(n) => if n == downloaded_bytes { downloaded_bytes } else { 0 },
            None => 0,
        }
    } else {
        0
    }
}

/// The `Range` header that asks for the bytes from `offset` on.
pub fn range_header(offset: u64) -> (r: String)
    ensures
        r@ == "bytes="@ + crate::text::dec_of(offset as nat) + "-"@,
{
    let n = crate::text::to_decimal(offset as u128);
    concat3("bytes=", n.as_str(), "-")
}

/// How the response to a resumed download is taken.
#[derive(Debug, Clone, Copy, PartialEq, Eq, Structural)]
pub enum ResumeResponse {
    /// The server sent the rest (206): append, the download's total size given.
    Partial { total: u64 },
    /// The server sent the whole file: start over, with this size (0 when unknown).
    Whole { total: u64 },
    /// A tiny answer where a large file was expected: an error page, most
    /// likely because the login expired.
    Suspicious,
    /// Any other status: an HTTP error.
    HttpError { status: u16 },
}

/// What the tracker records when a resumed download got an error page.
pub const RESUME_EXPIRED_TRACKED: &'static str = "Resume failed - authentication may have expired";

/// What a resumed download reports when it got an error page.
pub const RESUME_EXPIRED: &'static str = "Resume failed - authentication may have expired. Try starting a new download.";

/// How the response to a resumed download (status, announced length,
/// offset asked for, expected total) is taken: 206 continues at the offset
/// (the total being the length plus the offset, else the expected total);
/// another 2xx starts over, unless it announces under 100 000 bytes where
/// more than 1 000 000 were expected; anything else is an HTTP error.
pub fn classify_resume_response(status: u16, content_length: Option<u64>, resume_from: u64, expected_total: u64) -> (r: ResumeResponse)
    requires
        content_length matches Some(l) ==> l + resume_from <= u64::MAX,
    ensures
        r == (if status == 206 {
            ResumeResponse::Partial { total: match content_length { Some(l) => (l + resume_from) as u64, None => expected_total } }
        } else if 200 <= status < 300 {
            let cl: u64 = match content_length { Some(l) => l, None => 0 };
            if expected_total > 0 && cl > 0 && cl < 100_000 && expected_total > 1_000_000 {
                ResumeResponse::Suspicious
            } else {
                ResumeResponse::Whole { total: cl }
            }
        } else {
            ResumeResponse::HttpError { status }
        }),
{
    if status == 206 {
        let total = match content_length {
            Some(l) => l + resume_from,
            None => expected_total,
        };
        ResumeResponse::Partial { total }
    } else if 200 <= status && status < 300 {
        let cl: u64 = match content_length { Some(l) => l, None => 0 };
        if expected_total > 0 && cl > 0 && cl < 100_000 && expected_total > 1_000_000 {
            ResumeResponse::Suspicious
        } else {
            ResumeResponse::Whole { total: cl }
        }
    } else {
        ResumeResponse::HttpError { status }
    }
}

} // verus!
