//! Tag configuration.
use vstd::prelude::*;
use crate::config::transformations::Condition;

verus! {

/// A tag shown on game cards when its condition holds.
#[derive(Debug)]
pub struct TagConfig {
    pub label: String,
    pub condition: Option<Condition>,
    pub color: Option<String>,
    pub background: Option<String>,
    pub icon: Option<String>,
    pub priority: i32,
    pub style: Option<TagStyle>,
    pub value_from: Option<ValueExtraction>,
}

/// How a tag is drawn.
#[derive(Debug, Clone, Copy, PartialEq, Eq, Structural)]
pub enum TagStyle {
    Badge,
    Chip,
    Outline,
    Solid,
    Glow,
}

/// Where a tag's label comes from.
#[derive(Debug, Clone)]
pub enum ValueExtraction {
    Static(String),
    FromField { field: String, prefix: Option<String>, suffix: Option<String> },
    Template { template: String, fields: Vec<String> },
}

} // verus!
