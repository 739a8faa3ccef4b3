//! The settings model: loaded once at startup, mutated only by an
//! explicit save, read at the start of each operation that needs it.

use vstd::prelude::*;

verus! {

/// The default system prompt, as its model-level character sequence.
pub open spec fn spec_default_system_prompt() -> Seq<char> {
    "You are Eigen, a helpful AI assistant.\n\nRules:\n- Use Markdown for formatting.\n- Use LaTeX ($...$ / $$...$$) for math.\n- If you don't know, say \"I don't know\"."@
}

/// The default system prompt.
pub fn get_default_system_prompt() -> (r: &'static str)
    ensures
        r@ == spec_default_system_prompt(),
{
    "You are Eigen, a helpful AI assistant.\n\nRules:\n- Use Markdown for formatting.\n- Use LaTeX ($...$ / $$...$$) for math.\n- If you don't know, say \"I don't know\"."
}

/// How the UI looks.
pub struct AppearanceSettings {
    pub theme: String,
    pub accent_color: String,
    pub font_size: String,
}

impl AppearanceSettings {
    /// Whether this value holds the defaults.
    pub open spec fn is_default(&self) -> bool {
        &&& self.theme@ == "dark"@
        &&& self.accent_color@ == "#3b82f6"@
        &&& self.font_size@ == "medium"@
    }
}

impl Default for AppearanceSettings {
    fn default() -> (r: Self)
        ensures
            r.is_default(),
    {
        AppearanceSettings {
            theme: "dark".to_owned(),
            accent_color: "#3b82f6".to_owned(),
            font_size: "medium".to_owned(),
        }
    }
}

/// What a new chat starts from.
pub struct DefaultSettings {
    pub model_id: Option<String>,
    pub system_prompt: String,
}

impl DefaultSettings {
    /// Whether this value holds the defaults.
    pub open spec fn is_default(&self) -> bool {
        &&& self.model_id is None
        &&& self.system_prompt@ == spec_default_system_prompt()
    }
}

impl Default for DefaultSettings {
    fn default() -> (r: Self)
        ensures
            r.is_default(),
    {
        DefaultSettings { model_id: None, system_prompt: get_default_system_prompt().to_owned() }
    }
}

/// How generation behaves.
pub struct BehaviorSettings {
    pub send_on_enter: bool,
    pub streaming_enabled: bool,
    pub context_length: u32,
    pub max_tokens: u32,
}

impl BehaviorSettings {
    /// Whether this value holds the defaults.
    pub open spec fn is_default(&self) -> bool {
        &&& self.send_on_enter
        &&& self.streaming_enabled
        &&& self.context_length == 8192u32
        &&& self.max_tokens == 8192u32
    }
}

impl Default for BehaviorSettings {
    fn default() -> (r: Self)
        ensures
            r.is_default(),
    {
        BehaviorSettings {
            send_on_enter: true,
            streaming_enabled: true,
            context_length: 8192,
            max_tokens: 8192,
        }
    }
}

/// Which tools the model may call.
pub struct ToolSettings {
    pub enabled_tools: Vec<String>,
}

impl ToolSettings {
    /// Whether this value holds the defaults.
    pub open spec fn is_default(&self) -> bool {
        self.enabled_tools@.len() == 0
    }
}

impl Default for ToolSettings {
    fn default() -> (r: Self)
        ensures
            r.is_default(),
    {
        ToolSettings { enabled_tools: Vec::new() }
    }
}

/// All settings together.
pub struct AppSettings {
    pub version: u32,
    pub appearance: AppearanceSettings,
    pub defaults: DefaultSettings,
    pub behavior: BehaviorSettings,
    pub tools: ToolSettings,
}

impl AppSettings {
    /// Whether this value holds the defaults.
    pub open spec fn is_default(&self) -> bool {
        &&& self.version == 1u32
        &&& self.appearance.is_default()
        &&& self.defaults.is_default()
        &&& self.behavior.is_default()
        &&& self.tools.is_default()
    }
}

impl Default for AppSettings {
    fn default() -> (r: Self)
        ensures
            r.is_default(),
    {
        AppSettings {
            version: 1,
            appearance: AppearanceSettings::default(),
            defaults: DefaultSettings::default(),
            behavior: BehaviorSettings::default(),
            tools: ToolSettings::default(),
        }
    }
}

/// The settings a fresh installation starts from.
pub fn get_default_settings() -> (r: AppSettings)
    ensures
        r.is_default(),
{
    AppSettings::default()
}

} // verus!
