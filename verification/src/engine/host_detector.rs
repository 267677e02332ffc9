//! Recognising the file hoster behind a download URL.
use vstd::prelude::*;
use crate::config::hosts::{DetectedHost, HostConfig, HostsConfig, DownloadErrorType};
use crate::dict::Dict;
use crate::regex_ext::{regex_is_match, regex_valid, regex_matches};
use crate::text::{
    chars_of, has_prefix, has_suffix, views, str_eq, str_ends_with, str_skip, str_starts_with,
    before_char, str_before_char, concat, clone_opt,
};
use crate::unicode::{lowercase, uppercase, to_lower, to_upper};
use crate::url_ext::{url_host, host_of_url};

verus! {

/// A host pattern is read as a regular expression when it holds `*`, `^`, `$` or `(`.
pub open spec fn looks_like_regex(p: Seq<char>) -> bool {
    p.contains('*') || p.contains('^') || p.contains('$') || p.contains('(')
}

/// Whether a (lower-case) domain matches one host pattern: a regular
/// expression must compile and match; a plain domain matches itself and its
/// subdomains.
pub open spec fn pattern_matches(domain: Seq<char>, p: Seq<char>) -> bool {
    if looks_like_regex(p) {
        regex_valid(p) && regex_matches(p, domain)
    } else {
        domain == p || has_suffix(domain, seq!['.'] + p)
    }
}

/// Whether a domain matches any of the patterns.
pub open spec fn matches_any(domain: Seq<char>, patterns: Seq<Seq<char>>) -> bool {
    exists|i: int| 0 <= i < patterns.len() && #[trigger] pattern_matches(domain, patterns[i])
}

fn has_char(v: &[char], c: char) -> (b: bool)
    ensures
        b == v@.contains(c),
{
    let mut i: usize = 0;
    while i < v.len()
        invariant
            i <= v.len(),
            forall|j: int| 0 <= j < i ==> v@[j] != c,
        decreases v.len() - i,
    {
        if v[i] == c {
            assert(v@[i as int] == c);
            return true;
        }
        i = i + 1;
    }
    false
}

/// Whether `domain` matches one pattern.
pub fn matches_pattern(domain: &str, pattern: &str) -> (b: bool)
    ensures
        b == pattern_matches(domain@, pattern@),
{
    let pv = chars_of(pattern);
    if has_char(pv.as_slice(), '*') || has_char(pv.as_slice(), '^') || has_char(pv.as_slice(), '$')
        || has_char(pv.as_slice(), '(') {
        match regex_is_match(pattern, domain) {
            Some(b) => b,
            None => false,
        }
    } else {
        let mut dotted: Vec<char> = Vec::new();
        dotted.push('.');
        crate::text::push_all(&mut dotted, pv.as_slice());
        let dotted_s = crate::text::string_from_chars(dotted);
        assert(dotted_s@ =~= seq!['.'] + pattern@);
        str_eq(domain, pattern) || str_ends_with(domain, dotted_s.as_str())
    }
}

/// Whether a domain matches any of the patterns (domain names match
/// themselves and their subdomains; other patterns are regular expressions).
pub fn matches_host(domain: &str, patterns: &[String]) -> (b: bool)
    ensures
        b == matches_any(domain@, views(patterns@)),
{
    let mut i: usize = 0;
    while i < patterns.len()
        invariant
            i <= patterns.len(),
            forall|j: int| 0 <= j < i ==> !#[trigger] pattern_matches(domain@, views(patterns@)[j]),
        decreases patterns.len() - i,
    {
        if matches_pattern(domain, patterns[i].as_str()) {
            assert(pattern_matches(domain@, views(patterns@)[i as int]));
            return true;
        }
        i = i + 1;
    }
    false
}

/// The domain without a leading `www.`, `dl.` or `download.` (the first that applies).
pub open spec fn strip_host_prefix(d: Seq<char>) -> Seq<char> {
    if has_prefix(d, "www."@) {
        d.skip("www."@.len() as int)
    } else if has_prefix(d, "dl."@) {
        d.skip("dl."@.len() as int)
    } else if has_prefix(d, "download."@) {
        d.skip("download."@.len() as int)
    } else {
        d
    }
}

/// Display names of well-known hosters, keyed by the main part of their domain.
pub open spec fn known_label(m: Seq<char>) -> Option<Seq<char>> {
    if m == "gofile"@ {
        Some("GoFile"@)
    } else if m == "mega"@ {
        Some("MEGA"@)
    } else if m == "mediafire"@ {
        Some("MediaFire"@)
    } else if m == "pixeldrain"@ {
        Some("PixelDrain"@)
    } else {
        None
    }
}

/// The first character upper-cased (by Unicode rules), the rest unchanged.
pub open spec fn capitalized(s: Seq<char>) -> Seq<char> {
    if s.len() == 0 { s } else { uppercase(seq![s[0]]) + s.drop_first() }
}

/// The label shown for a domain: the part before the first dot, after a
/// `www.`, `dl.` or `download.` prefix is dropped, under its well-known
/// display name or else capitalised.
pub open spec fn label_for_domain(d: Seq<char>) -> Seq<char> {
    let m = before_char(strip_host_prefix(d), '.');
    match known_label(m) {
        Some(l) => l,
        None => capitalized(m),
    }
}

/// Capitalise a label: first character upper-cased, the rest kept as is.
pub fn capitalize_label(s: &str) -> (r: String)
    ensures
        r@ == capitalized(s@),
{
    let v = chars_of(s);
    if v.len() == 0 {
        return String::from_str(s);
    }
    let mut first: Vec<char> = Vec::new();
    first.push(v[0]);
    let first_s = crate::text::string_from_chars(first);
    let upper = to_upper(first_s.as_str());
    let rest = str_skip(s, 1);
    assert(first_s@ =~= seq![s@[0]]);
    concat(upper.as_str(), rest.as_str())
}

fn strip_prefix_str(d: &str) -> (r: String)
    ensures
        r@ == strip_host_prefix(d@),
{
    let www = "www.";
    let dl = "dl.";
    let download = "download.";
    if str_starts_with(d, www) {
        str_skip(d, chars_of(www).len())
    } else if str_starts_with(d, dl) {
        str_skip(d, chars_of(dl).len())
    } else if str_starts_with(d, download) {
        str_skip(d, chars_of(download).len())
    } else {
        String::from_str(d)
    }
}

/// Convert a domain to a display label, e.g. `gofile.io` to `GoFile` and
/// `example.com` to `Example`.
pub fn domain_to_label(domain: &str) -> (r: String)
    ensures
        r@ == label_for_domain(domain@),
{
    let stripped = strip_prefix_str(domain);
    let m = str_before_char(stripped.as_str(), '.');
    if str_eq(m.as_str(), "gofile") {
        String::from_str("GoFile")
    } else if str_eq(m.as_str(), "mega") {
        String::from_str("MEGA")
    } else if str_eq(m.as_str(), "mediafire") {
        String::from_str("MediaFire")
    } else if str_eq(m.as_str(), "pixeldrain") {
        String::from_str("PixelDrain")
    } else {
        capitalize_label(m.as_str())
    }
}

/// The host made up for a domain that no configuration names.
pub fn create_auto_detected_host(domain: &str) -> (h: DetectedHost)
    ensures
        h.host_id@ == "auto:"@ + domain@,
        h.label@ == label_for_domain(domain@),
        h.icon is None,
        h.color is None,
        !h.supports_direct_download,
        h.browser_only_reason is None,
{
    DetectedHost {
        host_id: concat("auto:", domain),
        label: domain_to_label(domain),
        icon: None,
        color: None,
        supports_direct_download: false,
        browser_only_reason: None,
    }
}

/// The label of a URL's host, when the URL has one.
pub fn extract_domain_label(url: &str) -> (r: Option<String>)
    ensures
        match url_host(url@) {
            Some(h) => r matches Some(l) && l@ == label_for_domain(h),
            None => r is None,
        },
{
    match host_of_url(url) {
        Some(h) => Some(domain_to_label(h.as_str())),
        None => None,
    }
}

/// The host reported for a URL without a host.
pub fn create_unknown_host(url: &str) -> (h: DetectedHost)
    ensures
        h.host_id@ == "unknown"@,
        h.label@ == (match url_host(url@) {
            Some(d) => label_for_domain(d),
            None => "Download"@,
        }),
        h.icon is None,
        h.color is None,
        !h.supports_direct_download,
        h.browser_only_reason is None,
{
    let label = match extract_domain_label(url) {
        Some(l) => l,
        None => String::from_str("Download"),
    };
    DetectedHost {
        host_id: String::from_str("unknown"),
        label,
        icon: None,
        color: None,
        supports_direct_download: false,
        browser_only_reason: None,
    }
}

/// `i` is the first entry whose patterns match domain `d`.
pub open spec fn is_first_host_match(e: Seq<(Seq<char>, HostConfig)>, d: Seq<char>, i: int) -> bool {
    &&& 0 <= i < e.len()
    &&& matches_any(d, views(e[i].1.patterns@))
    &&& forall|j: int| 0 <= j < i ==> !matches_any(d, views(#[trigger] e[j].1.patterns@))
}

/// The first configured host whose patterns match domain `d`.
pub open spec fn first_host_match(e: Seq<(Seq<char>, HostConfig)>, d: Seq<char>) -> Option<int> {
    if exists|i: int| is_first_host_match(e, d, i) {
        Some(choose|i: int| is_first_host_match(e, d, i))
    } else {
        None
    }
}

/// `h` describes the configured host `id` with configuration `c`.
pub open spec fn describes_config(h: DetectedHost, id: Seq<char>, c: HostConfig) -> bool {
    &&& h.host_id@ == id
    &&& h.label@ == c.display.label@
    &&& h.icon == c.display.icon
    &&& h.color == c.display.color
    &&& h.supports_direct_download == (!c.browser_only && c.resolver is Some)
    &&& h.browser_only_reason == c.browser_only_reason
}

/// `h` is the made-up host of domain `d`.
pub open spec fn describes_auto(h: DetectedHost, d: Seq<char>) -> bool {
    &&& h.host_id@ == "auto:"@ + d
    &&& h.label@ == label_for_domain(d)
    &&& h.icon is None
    &&& h.color is None
    &&& !h.supports_direct_download
    &&& h.browser_only_reason is None
}

proof fn lemma_first_match_unique(e: Seq<(Seq<char>, HostConfig)>, d: Seq<char>, i: int)
    requires
        is_first_host_match(e, d, i),
    ensures
        first_host_match(e, d) == Some(i),
{
    let k = choose|k: int| is_first_host_match(e, d, k);
    if k < i {
        assert(!matches_any(d, views(e[k].1.patterns@)));
    } else if i < k {
        assert(!matches_any(d, views(e[i].1.patterns@)));
    }
}

/// Detect the host of a URL: a URL without a host is `unknown`; otherwise the
/// first configured host (in the configuration's order) whose patterns match
/// the lower-cased domain, else a host made up from the domain.
pub fn detect_host(url: &str, hosts_config: Option<&HostsConfig>) -> (h: DetectedHost)
    ensures
        match url_host(url@) {
            None => h.host_id@ == "unknown"@ && h.label@ == "Download"@ && h.icon is None
                && h.color is None && !h.supports_direct_download && h.browser_only_reason is None,
            Some(raw) => match hosts_config {
                Some(c) => match first_host_match(c.hosts.view(), lowercase(raw)) {
                    Some(i) => describes_config(h, c.hosts.view()[i].0, c.hosts.view()[i].1),
                    None => describes_auto(h, lowercase(raw)),
                },
                None => describes_auto(h, lowercase(raw)),
            },
        },
{
    let raw = match host_of_url(url) {
        Some(r) => r,
        None => {
            return create_unknown_host(url);
        },
    };
    let domain = to_lower(raw.as_str());
    if let Some(config) = hosts_config {
        let n = config.hosts.len();
        let mut i: usize = 0;
        while i < n
            invariant
                i <= n,
                n == config.hosts.view().len(),
                url_host(url@) == Some(raw@),
                domain@ == lowercase(raw@),
                hosts_config == Some(config),
                forall|j: int| 0 <= j < i ==> !matches_any(domain@, views(#[trigger] config.hosts.view()[j].1.patterns@)),
            decreases n - i,
        {
            let host_config = config.hosts.value_at(i);
            if matches_host(domain.as_str(), host_config.patterns.as_slice()) {
                proof {
                    lemma_first_match_unique(config.hosts.view(), domain@, i as int);
                }
                return DetectedHost {
                    host_id: config.hosts.key_at(i).clone(),
                    label: host_config.display.label.clone(),
                    icon: clone_opt(&host_config.display.icon),
                    color: clone_opt(&host_config.display.color),
                    supports_direct_download: !host_config.browser_only && host_config.resolver.is_some(),
                    browser_only_reason: clone_opt(&host_config.browser_only_reason),
                };
            }
            i = i + 1;
        }
        proof {
            assert(!exists|k: int| is_first_host_match(config.hosts.view(), domain@, k));
        }
    }
    create_auto_detected_host(domain.as_str())
}

/// The configuration of the host with id `host_id`.
pub fn get_host_config<'a>(host_id: &str, hosts_config: Option<&'a HostsConfig>) -> (r: Option<&'a HostConfig>)
    ensures
        match hosts_config {
            None => r is None,
            Some(c) => match r {
                Some(hc) => crate::dict::lookup(c.hosts.view(), host_id@) == Some(*hc),
                None => crate::dict::lookup(c.hosts.view(), host_id@) is None,
            },
        },
{
    match hosts_config {
        Some(c) => c.hosts.get(host_id),
        None => None,
    }
}

/// Detect a URL's host and fetch its configuration; made-up and unknown hosts
/// have none.
pub fn detect_host_with_config<'a>(url: &str, hosts_config: Option<&'a HostsConfig>) -> (r: (DetectedHost, Option<&'a HostConfig>))
    ensures
        match url_host(url@) {
            None => r.0.host_id@ == "unknown"@ && r.1 is None,
            Some(raw) => match hosts_config {
                Some(c) => match first_host_match(c.hosts.view(), lowercase(raw)) {
                    Some(i) => describes_config(r.0, c.hosts.view()[i].0, c.hosts.view()[i].1)
                        && r.1 == (if has_prefix(c.hosts.view()[i].0, "auto:"@) || c.hosts.view()[i].0 == "unknown"@ {
                            None
                        } else {
                            Some(&c.hosts.view()[i].1)
                        }),
                    None => describes_auto(r.0, lowercase(raw)) && r.1 is None,
                },
                None => describes_auto(r.0, lowercase(raw)) && r.1 is None,
            },
        },
{
    let detected = detect_host(url, hosts_config);
    proof {
        if let Some(raw) = url_host(url@) {
            let d = lowercase(raw);
            assert(("auto:"@ + d).subrange(0, "auto:"@.len() as int) =~= "auto:"@);
        }
    }
    if let Some(c) = hosts_config {
        c.hosts.assert_unique();
        proof {
            if let Some(raw) = url_host(url@) {
                if let Some(i) = first_host_match(c.hosts.view(), lowercase(raw)) {
                    crate::dict::lemma_index_of_own_key(c.hosts.view(), i);
                } else {
                    let d = lowercase(raw);
                    assert(("auto:"@ + d).subrange(0, "auto:"@.len() as int) =~= "auto:"@);
                }
            }
        }
    }
    let auto = str_starts_with(detected.host_id.as_str(), "auto:");
    let unknown = str_eq(detected.host_id.as_str(), "unknown");
    let config = if auto || unknown {
        None
    } else {
        get_host_config(detected.host_id.as_str(), hosts_config)
    };
    (detected, config)
}

} // verus!
