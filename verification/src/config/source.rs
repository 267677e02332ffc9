//! The top-level source configuration.
use vstd::prelude::*;
use crate::dict::Dict;
use crate::config::paths::NavigationPath;
use crate::config::transformations::{Transformation, Condition};
use crate::config::extraction::MetadataExtractor;
use crate::config::tags::TagConfig;
use crate::config::settings::{SettingSection, SettingDefinition};
use crate::config::link_resolution::LinkResolutionConfig;
use crate::config::hosts::HostsConfig;

verus! {

/// The icon of a source that names none.
pub const DEFAULT_ICON: &'static str = "globe";

/// The accent colour of a source that names none.
pub const DEFAULT_COLOR: &'static str = "#00e5ff";

/// A source: one site described in YAML.
#[derive(Debug)]
pub struct SourceConfig {
    pub name: String,
    pub id: String,
    pub source_type: SourceType,
    pub base_url: String,
    pub description: Option<String>,
    pub ui: Option<UIMetadata>,
    pub urls: UrlConfig,
    pub rate_limit: Option<RateLimitConfig>,
    pub selectors: Option<Dict<PageSelectors>>,
    pub json_paths: Option<JsonPathsConfig>,
    pub attributes: Option<Dict<Vec<String>>>,
    pub transformations: Option<Dict<Vec<Transformation>>>,
    pub metadata_extraction: Option<Dict<MetadataExtractor>>,
    pub custom_fields: Option<Dict<CustomFieldExtractor>>,
    pub tags: Option<Dict<TagConfig>>,
    pub default_values: Option<Dict<String>>,
    pub field_mapping: Option<FieldMapping>,
    pub link_resolution: Option<LinkResolutionConfig>,
    pub setting_sections: Option<Vec<SettingSection>>,
    pub settings: Option<Vec<SettingDefinition>>,
    pub hosts: Option<HostsConfig>,
    pub auth: Option<AuthConfig>,
    pub paths: Option<Dict<NavigationPath>>,
    pub extra: Dict<serde_json::Value>,
}

/// Source-level authentication switches.
#[derive(Debug, Clone, Copy)]
pub struct AuthConfig {
    /// Authenticated requests must go through a WebView (sites behind
    /// JavaScript challenges).
    pub requires_webview_fetch: bool,
}

impl Default for AuthConfig {
    /// Requests need no WebView.
    fn default() -> (r: Self)
        ensures
            !r.requires_webview_fetch,
    {
        AuthConfig { requires_webview_fetch: false }
    }
}

/// How a source's listings are read.
#[derive(Debug, Clone, Copy, PartialEq, Eq, Structural)]
pub enum SourceType {
    HtmlScraper,
    JsonApi,
    GraphqlApi,
    XmlApi,
    Custom,
}

/// How a source is shown.
#[derive(Debug, Clone)]
pub struct UIMetadata {
    pub icon: String,
    pub color: String,
}

/// The icon used when a source's `ui` section names none.
pub fn default_icon() -> (r: String)
    ensures
        r@ == DEFAULT_ICON@,
{
    String::from_str(DEFAULT_ICON)
}

/// The colour used when a source's `ui` section names none.
pub fn default_color() -> (r: String)
    ensures
        r@ == DEFAULT_COLOR@,
{
    String::from_str(DEFAULT_COLOR)
}

/// The URLs of a source.
#[derive(Debug, Clone)]
pub struct UrlConfig {
    pub main: Option<String>,
    pub page: Option<String>,
    pub search: Option<String>,
    /// Milliseconds to wait after typing stops before searching.
    pub search_debounce_ms: Option<u64>,
    /// Characters needed before a search is made.
    pub search_min_chars: Option<u32>,
    pub _detail: Option<String>,
    pub _extra: Dict<String>,
}

impl Default for UrlConfig {
    /// No URLs.
    fn default() -> (r: Self)
        ensures
            r.main is None,
            r.page is None,
            r.search is None,
            r.search_debounce_ms is None,
            r.search_min_chars is None,
            r._detail is None,
            r._extra.view().len() == 0,
    {
        UrlConfig {
            main: None,
            page: None,
            search: None,
            search_debounce_ms: None,
            search_min_chars: None,
            _detail: None,
            _extra: Dict::new(),
        }
    }
}

/// Request throttling of a source.
#[derive(Debug, Clone, Copy)]
pub struct RateLimitConfig {
    pub enabled: bool,
    pub window_seconds: u64,
    pub min_delay_ms: u64,
    pub burst_threshold: usize,
    pub _adaptive: bool,
}

/// The throttling window when none is configured (seconds).
pub fn default_window_seconds() -> (r: u64)
    ensures
        r == 10,
{
    10
}

/// The least delay between requests when none is configured (ms).
pub fn default_min_delay_ms() -> (r: u64)
    ensures
        r == 500,
{
    500
}

/// The requests allowed in a burst when none is configured.
pub fn default_burst_threshold() -> (r: usize)
    ensures
        r == 5,
{
    5
}

/// Selectors of a listing page.
#[derive(Debug, Clone)]
pub struct PageSelectors {
    pub container: String,
    pub fields: Dict<FieldSelector>,
}

/// How one field of a listing item is selected.
#[derive(Debug, Clone)]
pub enum FieldSelector {
    Simple(String),
    WithAttribute { selector: String, attribute: Option<String>, multiple: bool },
    Static { value: String },
}

/// JSON paths of a JSON API listing.
#[derive(Debug, Clone)]
pub struct JsonPathsConfig {
    pub items: String,
    pub fields: Dict<String>,
}

/// Which item fields hold the card's title, cover, etc.
#[derive(Debug, Clone)]
pub struct FieldMapping {
    pub title: Option<String>,
    pub description: Option<String>,
    pub cover_url: Option<String>,
    pub game_url: Option<String>,
    pub genre: Option<String>,
    pub author: Option<String>,
    pub custom: Dict<String>,
}

impl Default for FieldMapping {
    /// No fields mapped.
    fn default() -> (r: Self)
        ensures
            r.title is None,
            r.description is None,
            r.cover_url is None,
            r.game_url is None,
            r.genre is None,
            r.author is None,
            r.custom.view().len() == 0,
    {
        FieldMapping {
            title: None,
            description: None,
            cover_url: None,
            game_url: None,
            genre: None,
            author: None,
            custom: Dict::new(),
        }
    }
}

/// A field computed for each item.
#[derive(Debug)]
pub struct CustomFieldExtractor {
    pub source: FieldSource,
    pub transformations: Option<Vec<Transformation>>,
    pub condition: Option<Condition>,
}

/// Where a custom field's value comes from.
#[derive(Debug, Clone)]
pub enum FieldSource {
    Static(String),
    FromField { field: String },
    Computed { template: String, fields: Vec<String> },
    /// A JSON value, held as its compact JSON text.
    Json { value: String },
}

} // verus!
