//! Link-resolution configuration: the steps that turn a scraped link into a
//! direct one.
use vstd::prelude::*;
use crate::dict::Dict;
use crate::config::transformations::Transformation;
use crate::config::extraction::MetadataExtractor;

verus! {

/// Link resolution for the fields of an item.
#[derive(Debug)]
pub struct LinkResolutionConfig {
    pub enabled: bool,
    pub resolvers: Dict<LinkResolver>,
}

/// Resolution is on unless configured off.
pub fn default_true() -> (r: bool)
    ensures
        r,
{
    true
}

/// How one field's link is resolved.
#[derive(Debug)]
pub struct LinkResolver {
    pub source_field: String,
    pub steps: Vec<ResolutionStep>,
    pub _metadata: Option<Dict<MetadataExtractor>>,
    pub _timeout_ms: Option<u64>,
}

/// A step of link resolution.
#[derive(Debug, Clone)]
pub enum ResolutionStep {
    Fetch { follow_redirects: bool, headers: Option<Dict<String>>, timeout_ms: Option<u64> },
    Extract {
        method: ExtractionMethodType,
        pattern: Option<String>,
        group: Option<usize>,
        selector: Option<String>,
        attribute: Option<String>,
        fallback: Option<String>,
    },
    Transform { transformations: Vec<Transformation> },
    Wait { duration_ms: u64 },
    Custom { _name: String, _params: Dict<serde_json::Value> },
}

/// How an `Extract` step reads its value.
#[derive(Debug, Clone, Copy, PartialEq, Eq, Structural)]
pub enum ExtractionMethodType {
    Regex,
    Selector,
    JsonPath,
    XPath,
    Text,
}

} // verus!
