//! Configuration of the sections of a game's detail page.
use vstd::prelude::*;
use crate::dict::Dict;
use crate::config::paths::{PathStep, PathOrRef};

verus! {

/// A section of a detail page, in display order.
#[derive(Debug)]
pub enum DetailSection {
    Hero { order: u32, config: HeroConfig },
    Video { order: u32, title: String, icon: String, config: VideoConfig },
    TextContent { order: u32, title: String, icon: String, config: TextContentConfig },
    MetadataGrid { order: u32, title: String, icon: String, config: MetadataGridConfig },
    NumberedSteps { order: u32, title: String, icon: String, config: NumberedStepsConfig },
    AlertBox { order: u32, title: String, icon: String, style: String, config: AlertBoxConfig },
    DownloadButtons { order: u32, title: String, icon: String, config: DownloadButtonsConfig },
    /// A section described entirely by configuration.
    Dynamic { order: u32, title: String, icon: String, style: Option<String>, config: DynamicSectionConfig },
}

/// The banner at the top of a detail page.
#[derive(Debug, Clone)]
pub struct HeroConfig {
    pub background_image: SelectorConfig,
    pub title: SelectorConfig,
    pub subtitle: Option<SelectorConfig>,
    pub badges: Vec<BadgeConfig>,
}

/// A badge of the banner.
#[derive(Debug, Clone)]
pub struct BadgeConfig {
    pub label: String,
    pub icon: String,
    pub selector: String,
    pub contains: Option<String>,
    pub extract_after: Option<String>,
    pub extract_number: Option<bool>,
    pub suffix: Option<String>,
    pub style: String,
}

/// A CSS selector and optionally the attribute to read.
#[derive(Debug, Clone)]
pub struct SelectorConfig {
    pub selector: String,
    pub attribute: Option<String>,
}

/// An embedded video.
#[derive(Debug, Clone)]
pub struct VideoConfig {
    pub selector: String,
    pub attribute: String,
    pub transform: Option<String>,
}

/// A block of text.
#[derive(Debug, Clone)]
pub struct TextContentConfig {
    pub selector: String,
    pub extract: String,
    pub max_length: Option<usize>,
}

/// A grid of metadata items.
#[derive(Debug, Clone)]
pub struct MetadataGridConfig {
    pub items: Vec<MetadataItem>,
}

/// One item of a metadata grid.
#[derive(Debug, Clone)]
pub struct MetadataItem {
    pub label: String,
    pub icon: String,
    pub selector: String,
    pub contains: Option<String>,
    pub extract_after: Option<String>,
    pub attribute: Option<String>,
    pub render_as: Option<String>,
    pub style: Option<String>,
}

/// Numbered installation steps.
#[derive(Debug, Clone)]
pub struct NumberedStepsConfig {
    pub selector: String,
    pub extract_method: String,
    pub start_after: Option<String>,
    pub end_before: Option<String>,
}

/// An alert box: scraped from a container, or given as static items.
#[derive(Debug, Clone)]
pub struct AlertBoxConfig {
    pub selector: Option<String>,
    pub parent_contains: Option<String>,
    pub items_selector: Option<String>,
    pub items: Option<Vec<String>>,
}

/// The download buttons of a page.
#[derive(Debug)]
pub struct DownloadButtonsConfig {
    pub buttons: Vec<DownloadButtonConfig>,
}

/// One download button.
#[derive(Debug)]
pub struct DownloadButtonConfig {
    pub label: String,
    pub selector: String,
    pub icon: String,
    pub style: String,
    pub action: String,
    pub resolve_link: Option<bool>,
    /// Use the element's text as the label.
    pub use_text_as_label: Option<bool>,
    /// Only elements whose text contains this.
    pub contains_text: Option<String>,
    /// Detect the host and download with fallback.
    pub smart_download: Option<bool>,
    /// `false` shows the button locked.
    pub supported: Option<bool>,
    /// Shown before the download proceeds.
    pub warning: Option<String>,
    /// A named resolver of the source.
    pub resolver: Option<String>,
    pub resolution: Option<ButtonResolutionConfig>,
    pub path: Option<Vec<PathStep>>,
}

/// The action of a button when none is configured: `open_link`.
pub fn default_button_action() -> (r: String)
    ensures
        r@ == "open_link"@,
{
    String::from_str("open_link")
}

/// How a button's link is resolved.
#[derive(Debug)]
pub struct ButtonResolutionConfig {
    pub match_rules: Option<Vec<ButtonMatchRule>>,
    pub default: Option<String>,
    pub steps: Option<Vec<PathStep>>,
    pub fallback: Option<Vec<FallbackEntry>>,
}

/// A resolver chosen by the button's URL.
#[derive(Debug)]
pub struct ButtonMatchRule {
    pub when: MatchCondition,
    pub resolver: Option<String>,
    pub path: Option<PathOrRef>,
}

/// A condition on a button's URL.
#[derive(Debug, Clone)]
pub enum MatchCondition {
    Contains(String),
    Matches(String),
    StartsWith(String),
    EndsWith(String),
    HostEquals(String),
    HostContains(String),
    Always,
}

/// An entry of a fallback chain.
#[derive(Debug, Clone)]
pub enum FallbackEntry {
    TryResolver(String),
    ReturnOriginal,
    Error(String),
}

/// A section extracted from a page, ready for display.
#[derive(Debug)]
pub struct ExtractedSection {
    pub section_type: String,
    pub order: u32,
    pub title: Option<String>,
    pub icon: Option<String>,
    pub style: Option<String>,
    pub data: SectionData,
}

/// What a section shows (the application renders it as JSON).
#[derive(Debug)]
pub enum SectionData {
    Hero { background_image: Option<String>, title: String, subtitle: Option<String>, badges: Vec<Badge> },
    Video { url: String },
    TextContent { content: String },
    MetadataGrid { items: Vec<GridItem> },
    NumberedSteps { steps: Vec<Step> },
    AlertBox { style: String, items: Vec<String> },
    DownloadButtons { buttons: Vec<Button> },
    /// The extracted fields, the renderer's name and the styling hints.
    Dynamic { fields: Vec<(String, FieldData)>, renderer: String, style: Option<DynamicStyle> },
}

/// A badge of a banner.
#[derive(Debug)]
pub struct Badge {
    pub label: String,
    pub icon: String,
    pub value: String,
    pub style: String,
}

/// An item of a metadata grid.
#[derive(Debug)]
pub struct GridItem {
    pub label: String,
    pub icon: String,
    pub value: String,
    pub render_as: Option<String>,
    pub style: Option<String>,
}

/// A numbered installation step.
#[derive(Debug)]
pub struct Step {
    pub step_number: usize,
    pub instruction: String,
}

/// A download button found on a page.
#[derive(Debug)]
pub struct Button {
    pub label: String,
    pub url: String,
    pub icon: String,
    pub style: String,
    pub action: String,
    pub resolve_link: Option<bool>,
    pub smart_download: Option<bool>,
    pub resolver: Option<String>,
    pub supported: bool,
    pub warning: Option<String>,
}

/// The value of a dynamic field: one text, or the texts of several elements.
#[derive(Debug)]
pub enum FieldData {
    Single(String),
    Many(Vec<String>),
}

/// A section described entirely by configuration.
#[derive(Debug, Clone)]
pub struct DynamicSectionConfig {
    pub renderer: String,
    pub fields: Dict<FieldExtraction>,
    pub style: Option<DynamicStyle>,
}

/// One field of a dynamic section.
#[derive(Debug, Clone)]
pub struct FieldExtraction {
    pub selector: String,
    pub extract: String,
    pub attribute: Option<String>,
    pub multiple: bool,
    pub pattern: Option<String>,
    pub transform: Option<String>,
    pub default: Option<String>,
}

/// What a dynamic field extracts when none is configured: `text`.
pub fn default_extract_type() -> (r: String)
    ensures
        r@ == "text"@,
{
    String::from_str("text")
}

/// Styling hints of a dynamic section.
#[derive(Debug, Clone)]
pub struct DynamicStyle {
    pub variant: Option<String>,
    pub columns: Option<u32>,
    pub compact: Option<bool>,
}

} // verus!
