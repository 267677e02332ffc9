//! Value transformations and field conditions.
use vstd::prelude::*;
use crate::dict::Dict;

verus! {

/// One step of a transformation chain applied to a scraped value.
#[derive(Debug, Clone)]
pub enum Transformation {
    Replace { pattern: String, replacement: String, regex: bool },
    Trim,
    Lowercase,
    Uppercase,
    Capitalize,
    CollapseWhitespace,
    Truncate { max_length: usize, suffix: String },
    RemoveHtml,
    StripPrefix { prefix: String },
    StripSuffix { suffix: String },
    UrlNormalize { base_url: Option<String>, rules: Vec<UrlRule> },
    Template { template: String },
    Extract { pattern: String, group: usize },
    Split { delimiter: String, index: Option<usize>, join: Option<String> },
    Append { text: String },
    Prepend { text: String },
    Default { value: String },
    Custom { _name: String, _params: Dict<serde_json::Value> },
}

/// The suffix a truncation appends when none is configured: `"..."`.
pub fn default_suffix() -> (r: String)
    ensures
        r@ == "..."@,
{
    String::from_str("...")
}

/// A rule of URL normalisation.
#[derive(Debug, Clone)]
pub enum UrlRule {
    PrependProtocol(String),
    PrependDomain(String),
    RemoveQueryParams,
    RemoveFragment,
}

/// A condition on the fields of a scraped item.
#[derive(Debug)]
pub enum Condition {
    Contains { field: String, contains: String },
    Regex { field: String, pattern: String },
    Equals { field: String, equals: String },
    NotEmpty { field: String },
    And { conditions: Vec<Condition> },
    Or { conditions: Vec<Condition> },
}

} // verus!
