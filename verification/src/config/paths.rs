//! Navigation paths: trees of steps that resolve a link.
use vstd::prelude::*;
use crate::dict::Dict;

verus! {

/// A navigation path: a sequence of steps that resolves a link.
#[derive(Debug)]
pub struct NavigationPath {
    pub name: Option<String>,
    pub steps: Vec<PathStep>,
    pub on_error: Option<Vec<ErrorHandler>>,
    pub max_depth: usize,
    pub timeout_ms: u64,
}

/// The nesting depth a path may reach when none is configured.
pub fn default_max_depth() -> (r: usize)
    ensures
        r == 10,
{
    10
}

/// The time a whole path may take when none is configured (ms).
pub fn default_timeout_ms() -> (r: u64)
    ensures
        r == 30000,
{
    30000
}

impl NavigationPath {
    /// A path of the given steps with the default limits and no error handlers.
    pub fn simple(steps: Vec<PathStep>) -> (p: Self)
        ensures
            p.name is None,
            p.steps@ == steps@,
            p.on_error is None,
            p.max_depth == 10,
            p.timeout_ms == 30000,
    {
        NavigationPath {
            name: None,
            steps,
            on_error: None,
            max_depth: default_max_depth(),
            timeout_ms: default_timeout_ms(),
        }
    }
}

/// A single step of a navigation path.
#[derive(Debug)]
pub enum PathStep {
    Fetch(FetchStep),
    Extract(ExtractStep),
    Transform(TransformStep),
    Wait(WaitStep),
    Return(ReturnStep),
    ExtractAll(ExtractAllStep),
    Branch(BranchStep),
    Loop(LoopStep),
    Try(TryStep),
    Use(UsePathStep),
    WebView(WebViewStep),
    DetectHost(DetectHostStep),
    SetVar(SetVarStep),
    Log(LogStep),
}

/// Fetch a URL.
#[derive(Debug, Clone)]
pub struct FetchStep {
    pub url: Option<String>,
    pub method: String,
    pub headers: Dict<String>,
    pub body: Option<String>,
    pub follow_redirects: bool,
    pub timeout_ms: Option<u64>,
    pub store_as: Option<String>,
}

/// The HTTP method of a fetch when none is configured: `GET`.
pub fn default_method() -> (r: String)
    ensures
        r@ == "GET"@,
{
    String::from_str("GET")
}

/// Redirects are followed unless configured otherwise.
pub fn default_true() -> (r: bool)
    ensures
        r,
{
    true
}

impl Default for FetchStep {
    /// A fetch of the current URL with `GET`, no headers, and redirects followed.
    fn default() -> (r: Self)
        ensures
            r.url is None,
            r.method@ == "GET"@,
            r.headers.view().len() == 0,
            r.body is None,
            r.follow_redirects,
            r.timeout_ms is None,
            r.store_as is None,
    {
        FetchStep {
            url: None,
            method: default_method(),
            headers: Dict::new(),
            body: None,
            follow_redirects: default_true(),
            timeout_ms: None,
            store_as: None,
        }
    }
}

/// Extract a value from the response or URL.
#[derive(Debug, Clone)]
pub struct ExtractStep {
    pub method: PathExtractionMethod,
    pub pattern: Option<String>,
    pub selector: Option<String>,
    pub regex: Option<String>,
    pub attribute: Option<String>,
    pub group: usize,
    pub store_as: Option<String>,
    pub fallback: Option<String>,
    pub from_url: bool,
}

/// The regex group extracted when none is configured.
pub fn default_group() -> (r: usize)
    ensures
        r == 1,
{
    1
}

/// How an extract step reads its value.
#[derive(Debug, Clone, Copy, PartialEq, Eq, Structural)]
pub enum PathExtractionMethod {
    Regex,
    Selector,
    JsonPath,
    XPath,
    Header,
    Text,
    Attribute,
}

impl Default for PathExtractionMethod {
    /// `Regex`.
    fn default() -> (r: Self)
        ensures
            r == PathExtractionMethod::Regex,
    {
        PathExtractionMethod::Regex
    }
}

/// Transform the current value.
#[derive(Debug, Clone)]
pub struct TransformStep {
    pub transformations: Vec<PathTransformation>,
}

/// A transformation of the current value.
#[derive(Debug, Clone)]
pub enum PathTransformation {
    Replace { pattern: String, replacement: String },
    Template { template: String },
    Prepend { value: String },
    Append { value: String },
    Trim,
    UrlEncode,
    UrlDecode,
    Base64Decode,
    JsonExtract { path: String },
    Join { separator: String },
    Split { separator: String, index: Option<usize> },
}

/// Wait for a while.
#[derive(Debug, Clone)]
pub struct WaitStep {
    pub ms: Option<u64>,
    pub seconds: Option<u64>,
    pub var: Option<String>,
}

/// Return a result.
#[derive(Debug, Clone)]
pub struct ReturnStep {
    pub value: Option<String>,
    pub current: bool,
    pub error: Option<String>,
    pub browser_only: bool,
    pub reason: Option<String>,
    pub metadata: Dict<String>,
}

impl Default for ReturnStep {
    /// Return the current URL, with nothing else set.
    fn default() -> (r: Self)
        ensures
            r.value is None,
            !r.current,
            r.error is None,
            !r.browser_only,
            r.reason is None,
            r.metadata.view().len() == 0,
    {
        ReturnStep { value: None, current: false, error: None, browser_only: false, reason: None, metadata: Dict::new() }
    }
}

/// Extract many links and process each.
#[derive(Debug)]
pub struct ExtractAllStep {
    pub selector: String,
    pub attribute: String,
    pub limit: Option<usize>,
    pub filter: Option<PathCondition>,
    pub foreach: ForEachConfig,
    pub aggregate: AggregateConfig,
    pub extract_meta: Dict<MetaExtraction>,
}

/// The attribute read by `extract_all` when none is configured: `href`.
pub fn default_href() -> (r: String)
    ensures
        r@ == "href"@,
{
    String::from_str("href")
}

/// Metadata read from each extracted element.
#[derive(Debug, Clone)]
pub struct MetaExtraction {
    pub selector: Option<String>,
    pub attribute: Option<String>,
    pub regex: Option<String>,
    pub value: Option<String>,
}

/// Which path processes each extracted link.
#[derive(Debug)]
pub struct ForEachConfig {
    pub match_rules: Option<Vec<MatchRule>>,
    pub path: Option<PathOrRef>,
    pub default: Option<PathOrRef>,
}

/// A path chosen when a condition holds.
#[derive(Debug)]
pub struct MatchRule {
    pub when: PathCondition,
    pub path: PathOrRef,
}

/// A path given inline or by name.
#[derive(Debug)]
pub enum PathOrRef {
    Reference(UsePathStep),
    Inline(Vec<PathStep>),
    InlineFull(Box<NavigationPath>),
}

/// How the results of `extract_all` are combined.
#[derive(Debug)]
pub struct AggregateConfig {
    pub mode: AggregateMode,
    pub limit: Option<usize>,
    pub sort_by: Option<String>,
    pub group_by: Option<String>,
    pub filter: Option<PathCondition>,
}

impl Default for AggregateConfig {
    /// All results, unlimited, unsorted, ungrouped, unfiltered.
    fn default() -> (r: Self)
        ensures
            r.mode == AggregateMode::All,
            r.limit is None,
            r.sort_by is None,
            r.group_by is None,
            r.filter is None,
    {
        AggregateConfig { mode: AggregateMode::All, limit: None, sort_by: None, group_by: None, filter: None }
    }
}

/// Aggregation modes.
#[derive(Debug, Clone, Copy, PartialEq, Eq, Structural)]
pub enum AggregateMode {
    All,
    FirstSuccess,
    Priority,
    Fastest,
    Parallel,
}

impl Default for AggregateMode {
    /// `All`.
    fn default() -> (r: Self)
        ensures
            r == AggregateMode::All,
    {
        AggregateMode::All
    }
}

/// Conditional branching.
#[derive(Debug)]
pub struct BranchStep {
    pub condition: PathCondition,
    pub then: Vec<PathStep>,
    pub else_steps: Option<Vec<PathStep>>,
}

/// Repeat steps while a condition holds or until one does.
#[derive(Debug)]
pub struct LoopStep {
    pub while_cond: Option<PathCondition>,
    pub until: Option<PathCondition>,
    pub max: usize,
    pub steps: Vec<PathStep>,
}

/// The iterations a loop may make when none is configured.
pub fn default_max_iterations() -> (r: usize)
    ensures
        r == 10,
{
    10
}

/// Try alternative paths in turn.
#[derive(Debug)]
pub struct TryStep {
    pub attempts: Vec<PathOrRef>,
    pub on_all_fail: Option<Box<PathStep>>,
}

/// A condition on the navigation state.
#[derive(Debug)]
pub enum PathCondition {
    Contains(String),
    StartsWith(String),
    EndsWith(String),
    Matches(String),
    Equals(String),
    IsEmpty,
    NotEmpty,
    Status(u16),
    StatusRange { min: u16, max: u16 },
    StatusSuccess,
    StatusRedirect,
    StatusError,
    HasHeader(String),
    HeaderEquals { name: String, value: String },
    HeaderContains { name: String, value: String },
    ContentType(String),
    ResponseContains(String),
    ResponseMatches(String),
    SelectorExists(String),
    SelectorCount { selector: String, min: Option<usize>, max: Option<usize> },
    VarEquals { var: String, value: String },
    VarContains { var: String, value: String },
    VarExists(String),
    VarMatches { var: String, pattern: String },
    UrlContains(String),
    UrlMatches(String),
    HostEquals(String),
    HostContains(String),
    And(Vec<PathCondition>),
    Or(Vec<PathCondition>),
    Not(Box<PathCondition>),
    Always,
    Never,
}

/// Run a named path.
#[derive(Debug, Clone)]
pub struct UsePathStep {
    pub path_ref: String,
    pub with: Dict<String>,
}

/// Navigate inside a WebView.
#[derive(Debug, Clone)]
pub struct WebViewStep {
    pub wait_for: Option<String>,
    pub timeout_ms: u64,
    pub click: Option<String>,
    pub execute_js: Option<String>,
    pub intercept: Option<InterceptConfig>,
    pub extract: Option<ExtractStep>,
}

/// The wait of a WebView step when none is configured (ms).
pub fn default_webview_timeout() -> (r: u64)
    ensures
        r == 15000,
{
    15000
}

/// Intercept a request made inside a WebView.
#[derive(Debug, Clone)]
pub struct InterceptConfig {
    pub pattern: String,
    pub intercept_type: InterceptType,
}

/// What a WebView interception catches.
#[derive(Debug, Clone, Copy, PartialEq, Eq, Structural)]
pub enum InterceptType {
    Download,
    Navigation,
    Request,
}

impl Default for InterceptType {
    /// `Download`.
    fn default() -> (r: Self)
        ensures
            r == InterceptType::Download,
    {
        InterceptType::Download
    }
}

/// Pick a path by the URL's host.
#[derive(Debug)]
pub struct DetectHostStep {
    pub hosts: Dict<PathOrRef>,
    pub default: Option<PathOrRef>,
}

/// Set a variable.
#[derive(Debug, Clone)]
pub struct SetVarStep {
    pub name: String,
    pub value: String,
    pub extract: Option<ExtractStep>,
}

/// Log a message.
#[derive(Debug, Clone)]
pub struct LogStep {
    pub message: String,
    pub level: LogLevel,
}

/// Log levels.
#[derive(Debug, Clone, Copy, PartialEq, Eq, Structural)]
pub enum LogLevel {
    Debug,
    Info,
    Warn,
    Error,
}

impl Default for LogLevel {
    /// `Debug`.
    fn default() -> (r: Self)
        ensures
            r == LogLevel::Debug,
    {
        LogLevel::Debug
    }
}

/// What to do when a step fails.
#[derive(Debug, Clone)]
pub enum ErrorHandler {
    Use(UsePathStep),
    Retry { max_attempts: usize, delay_ms: u64 },
    ReturnOriginal,
    ReturnError { message: String },
    Continue,
}

/// A resolved link.
#[derive(Debug, Clone)]
pub struct ResolvedLink {
    pub url: String,
    pub label: Option<String>,
    pub host: Option<String>,
    pub size: Option<String>,
    pub browser_only: bool,
    pub browser_only_reason: Option<String>,
    pub metadata: Dict<String>,
    pub resolution_path: Vec<String>,
}

/// All links a resolution produced.
#[derive(Debug, Clone)]
pub struct ResolutionResult {
    pub links: Vec<ResolvedLink>,
    pub groups: Option<Dict<Vec<ResolvedLink>>>,
    pub warnings: Vec<String>,
    pub duration_ms: u64,
}

/// Named paths of a source.
#[derive(Debug)]
pub struct PathsConfig {
    pub paths: Dict<NavigationPath>,
}

impl Default for PathsConfig {
    /// No paths.
    fn default() -> (r: Self)
        ensures
            r.paths.view().len() == 0,
    {
        PathsConfig { paths: Dict::new() }
    }
}

} // verus!
