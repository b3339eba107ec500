//! The settings document and the records it holds.
use vstd::prelude::*;

verus! {

/// One step of an execution plan.
#[derive(Debug, Clone)]
pub struct Action {
    pub action_type: String,
    pub target: Option<String>,
    pub position: Option<String>,
    pub monitor_index: Option<i32>,
    pub volume_change: Option<i32>,
    pub second_app: Option<String>,
    pub monitor_action: Option<String>,
}

/// A named sequence of actions.
#[derive(Debug, Clone)]
pub struct ExecutionPlan {
    pub name: String,
    pub actions: Vec<Action>,
    pub run_on_startup: Option<bool>,
}

/// A browser profile reachable through a shortcut.
#[derive(Debug, Clone)]
pub struct ChromeProfile {
    pub name: String,
    pub shortcut_path: String,
}

/// A user-registered application.
#[derive(Debug, Clone)]
pub struct CustomApp {
    pub name: String,
    pub exe_path: String,
}

/// The whole settings document.
#[derive(Debug)]
pub struct Settings {
    pub wake_phrase: String,
    pub execution_plans: Vec<ExecutionPlan>,
    pub chrome_profiles: Vec<ChromeProfile>,
    pub custom_apps: Vec<CustomApp>,
    pub llm_provider: String,
    pub llm_model: Option<String>,
    pub openai_api_key: Option<String>,
    pub openai_base_url: Option<String>,
}

/// The status reported by the assistant's health endpoint.
#[derive(Debug)]
pub struct HealthStatus {
    pub status: String,
    pub message: String,
    pub timestamp: String,
}

/// The language-model provider used when the settings name none.
pub fn default_llm_provider() -> (r: String)
    ensures
        r@ == "ollama"@,
{
    "ollama".to_owned()
}

impl Default for Settings {
    fn default() -> (s: Settings)
        ensures
            s.wake_phrase@ == "ola jarvis"@,
            s.execution_plans@.len() == 0,
            s.chrome_profiles@.len() == 0,
            s.custom_apps@.len() == 0,
            s.llm_provider@ == "ollama"@,
            s.llm_model is None,
            s.openai_api_key is None,
            s.openai_base_url is None,
    {
        Settings {
            wake_phrase: "ola jarvis".to_owned(),
            execution_plans: Vec::new(),
            chrome_profiles: Vec::new(),
            custom_apps: Vec::new(),
            llm_provider: default_llm_provider(),
            llm_model: None,
            openai_api_key: None,
            openai_base_url: None,
        }
    }
}

} // verus!
