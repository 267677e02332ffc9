//! Matching hosts against configured domains.
use vstd::prelude::*;
use crate::text::{concat, has_suffix, str_eq, str_ends_with, views};
use crate::unicode::{lowercase, to_lower};

verus! {

/// Whether a host names `domain`, its `www.` form, or one of its subdomains,
/// both compared in lower case.
pub open spec fn host_matches_domain(host: Seq<char>, domain: Seq<char>) -> bool {
    let h = lowercase(host);
    let d = lowercase(domain);
    h == d || h == "www."@ + d || has_suffix(h, "."@ + d)
}

/// Check if a host matches any domain in the list (including `www.` and subdomains).
pub fn is_matching_domain(host: &str, domains: &[String]) -> (b: bool)
    ensures
        b == exists|i: int| 0 <= i < domains@.len() && #[trigger] host_matches_domain(host@, views(domains@)[i]),
{
    let host_lower = to_lower(host);
    let mut i: usize = 0;
    while i < domains.len()
        invariant
            i <= domains.len(),
            host_lower@ == lowercase(host@),
            forall|j: int| 0 <= j < i ==> !#[trigger] host_matches_domain(host@, views(domains@)[j]),
        decreases domains.len() - i,
    {
        let d = to_lower(domains[i].as_str());
        let www = concat("www.", d.as_str());
        let dotted = concat(".", d.as_str());
        if str_eq(host_lower.as_str(), d.as_str()) || str_eq(host_lower.as_str(), www.as_str())
            || str_ends_with(host_lower.as_str(), dotted.as_str()) {
            assert(host_matches_domain(host@, views(domains@)[i as int]));
            return true;
        }
        i = i + 1;
    }
    false
}

} // verus!
