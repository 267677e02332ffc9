//! Metadata extraction configuration.
use vstd::prelude::*;
use crate::dict::Dict;
use crate::config::transformations::{Transformation, Condition};

verus! {

/// How one metadata field is derived from an item.
#[derive(Debug)]
pub enum MetadataExtractor {
    Boolean { condition: Option<Condition> },
    String {
        extraction: Option<ExtractionMethod>,
        transformations: Option<Vec<Transformation>>,
        fallback: Option<String>,
    },
    Date {
        extraction: Option<ExtractionMethod>,
        input_format: Option<String>,
        output_format: Option<String>,
        fallback: Option<String>,
    },
    List { extraction: Option<ListExtractionMethod>, join_with: Option<String> },
    /// `fallback` is the configured number in its canonical decimal text.
    Number { extraction: Option<ExtractionMethod>, fallback: Option<String> },
    Custom { _config: Dict<serde_json::Value> },
}

/// How a single string is extracted.
#[derive(Debug, Clone)]
pub enum ExtractionMethod {
    Pattern { pattern: String, in_field: Option<String> },
    Regex { pattern: String, in_field: Option<String>, group: usize },
    NextWord { after_pattern: String, in_field: Option<String> },
    Between { start: String, end: String, in_field: Option<String> },
    FromField { field: String },
    JsonPath { path: String },
    Custom { _name: String, _params: Dict<serde_json::Value> },
}

/// How a list of strings is extracted.
#[derive(Debug, Clone)]
pub enum ListExtractionMethod {
    Keywords { in_field: Option<String>, keywords: Vec<KeywordMatch> },
    Split { in_field: String, delimiter: String },
    Regex { in_field: Option<String>, pattern: String },
    Custom { _name: String, _params: Dict<serde_json::Value> },
}

/// A keyword (or regular expression) and the value it contributes.
#[derive(Debug, Clone)]
pub struct KeywordMatch {
    pub pattern: String,
    pub value: String,
    pub regex: bool,
}

} // verus!
