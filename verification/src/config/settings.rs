//! Per-source settings panels.
use vstd::prelude::*;
use crate::config::auth::AuthConfig;
use crate::dict::Dict;

verus! {

/// A section of a source's settings panel.
#[derive(Debug, Clone)]
pub struct SettingSection {
    pub id: String,
    pub title: String,
    pub icon: Option<String>,
    pub description: Option<String>,
    pub components: Vec<SettingComponent>,
}

/// A component of a settings section.
#[derive(Debug, Clone)]
pub enum SettingComponent {
    ButtonGroup { show_when: Option<VisibilityCondition>, hide_when: Option<VisibilityCondition>, buttons: Vec<ButtonConfig> },
    Button { show_when: Option<VisibilityCondition>, hide_when: Option<VisibilityCondition>, config: ButtonConfig },
    Toggle {
        id: String,
        label: String,
        description: Option<String>,
        default: Option<bool>,
        store_as: String,
        show_when: Option<VisibilityCondition>,
        hide_when: Option<VisibilityCondition>,
    },
    Input {
        id: String,
        label: String,
        description: Option<String>,
        placeholder: Option<String>,
        secret: bool,
        default: Option<String>,
        store_as: String,
        show_when: Option<VisibilityCondition>,
        hide_when: Option<VisibilityCondition>,
    },
    Select {
        id: String,
        label: String,
        description: Option<String>,
        options: Vec<SelectOption>,
        default: Option<String>,
        store_as: String,
        show_when: Option<VisibilityCondition>,
        hide_when: Option<VisibilityCondition>,
    },
    StatusCard {
        variant: Option<String>,
        icon: Option<String>,
        text: String,
        show_when: Option<VisibilityCondition>,
        hide_when: Option<VisibilityCondition>,
    },
    Text { content: String, variant: Option<String>, show_when: Option<VisibilityCondition>, hide_when: Option<VisibilityCondition> },
    Divider { show_when: Option<VisibilityCondition>, hide_when: Option<VisibilityCondition> },
}

/// A button of a settings panel.
#[derive(Debug, Clone)]
pub struct ButtonConfig {
    pub label: String,
    pub icon: Option<String>,
    pub color: Option<String>,
    pub variant: Option<String>,
    pub action: ActionType,
    pub action_config: Option<ActionConfig>,
}

/// What a settings button does.
#[derive(Debug, Clone, Copy, PartialEq, Eq, Structural)]
pub enum ActionType {
    OpenWebview,
    HttpRequest,
    StoreValue,
    ClearStorage,
    OpenExternal,
    Custom,
}

/// Parameters of a button's action.
#[derive(Debug, Clone)]
pub struct ActionConfig {
    pub url: Option<String>,
    pub wait_for_cookie: Option<String>,
    pub close_on_domains: Option<Vec<String>>,
    pub store_cookies_as: Option<String>,
    pub method: Option<String>,
    pub body: Option<String>,
    pub headers: Option<Dict<String>>,
    pub key: Option<String>,
    pub value: Option<serde_json::Value>,
    pub keys: Option<Vec<String>>,
    pub clear_webview: Option<bool>,
    pub link: Option<String>,
}

/// When a component is shown, by a stored setting.
#[derive(Debug, Clone)]
pub struct VisibilityCondition {
    pub key: String,
    pub exists: Option<bool>,
    pub equals: Option<serde_json::Value>,
    pub contains: Option<String>,
}

/// A single setting of a source.
#[derive(Debug, Clone)]
pub struct SettingDefinition {
    pub id: String,
    pub setting_type: SettingType,
    pub label: String,
    pub description: Option<String>,
    pub placeholder: Option<String>,
    pub default: Option<serde_json::Value>,
    pub required: bool,
    pub secret: bool,
    pub options: Option<Vec<SelectOption>>,
    pub config: Option<AuthConfig>,
}

/// The kind of a setting.
#[derive(Debug, Clone, Copy, PartialEq, Eq, Structural)]
pub enum SettingType {
    Text,
    Textarea,
    Toggle,
    Select,
    Number,
    Password,
    Auth,
}

/// An option of a select setting.
#[derive(Debug, Clone)]
pub struct SelectOption {
    pub value: String,
    pub label: String,
}

} // verus!
