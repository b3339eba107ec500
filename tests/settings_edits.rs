use os_assistant::models::{default_llm_provider, ChromeProfile, CustomApp, ExecutionPlan, Settings};
use os_assistant::settings::{
    add_chrome_profile, add_custom_app, add_execution_plan, remove_chrome_profile, remove_execution_plan,
    update_chrome_profile, update_custom_app, update_execution_plan,
};

fn plan(name: &str) -> ExecutionPlan {
    ExecutionPlan { name: name.to_string(), actions: Vec::new(), run_on_startup: None }
}

#[test]
fn default_settings() {
    let s = Settings::default();
    assert_eq!(s.wake_phrase, "ola jarvis");
    assert_eq!(s.llm_provider, "ollama");
    assert!(s.execution_plans.is_empty() && s.chrome_profiles.is_empty() && s.custom_apps.is_empty());
    assert!(s.llm_model.is_none() && s.openai_api_key.is_none() && s.openai_base_url.is_none());
    assert_eq!(default_llm_provider(), "ollama");
}

#[test]
fn plans_add_update_remove() {
    let mut s = Settings::default();
    add_execution_plan(&mut s, plan("a"));
    add_execution_plan(&mut s, plan("b"));
    assert_eq!(s.execution_plans.len(), 2);
    assert!(update_execution_plan(&mut s, 1, plan("c")).is_ok());
    assert_eq!(s.execution_plans[1].name, "c");
    assert_eq!(update_execution_plan(&mut s, 2, plan("d")), Err("Execution plan index out of bounds".to_string()));
    assert!(remove_execution_plan(&mut s, 0).is_ok());
    assert_eq!(s.execution_plans.len(), 1);
    assert_eq!(s.execution_plans[0].name, "c");
    assert_eq!(remove_execution_plan(&mut s, 1), Err("Execution plan index out of bounds".to_string()));
    assert_eq!(s.execution_plans.len(), 1);
}

#[test]
fn apps_add_update() {
    let mut s = Settings::default();
    add_custom_app(&mut s, CustomApp { name: "ed".to_string(), exe_path: "C:/ed.exe".to_string() });
    assert!(update_custom_app(&mut s, 0, CustomApp { name: "vi".to_string(), exe_path: "C:/vi.exe".to_string() }).is_ok());
    assert_eq!(s.custom_apps[0].name, "vi");
    assert_eq!(
        update_custom_app(&mut s, 3, CustomApp { name: "x".to_string(), exe_path: "y".to_string() }),
        Err("Custom app index out of bounds".to_string())
    );
}

#[test]
fn profiles_add_update_remove() {
    let mut s = Settings::default();
    add_chrome_profile(&mut s, ChromeProfile { name: "work".to_string(), shortcut_path: "w.lnk".to_string() });
    assert!(update_chrome_profile(&mut s, 0, ChromeProfile { name: "home".to_string(), shortcut_path: "h.lnk".to_string() }).is_ok());
    assert_eq!(s.chrome_profiles[0].shortcut_path, "h.lnk");
    assert_eq!(
        update_chrome_profile(&mut s, 1, ChromeProfile { name: "z".to_string(), shortcut_path: "z".to_string() }),
        Err("Chrome profile index out of bounds".to_string())
    );
    assert!(remove_chrome_profile(&mut s, 0).is_ok());
    assert!(s.chrome_profiles.is_empty());
    assert_eq!(remove_chrome_profile(&mut s, 0), Err("Chrome profile index out of bounds".to_string()));
}
