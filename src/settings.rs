//! Edits of the lists in the settings document. Loading and storing the
//! document is left to the caller; each edit works on the loaded value.
use vstd::prelude::*;
use crate::models::{ChromeProfile, CustomApp, ExecutionPlan, Settings};

verus! {

/// `a` and `b` agree on every field that is not a list.
pub open spec fn same_scalars(a: Settings, b: Settings) -> bool {
    &&& a.wake_phrase == b.wake_phrase
    &&& a.llm_provider == b.llm_provider
    &&& a.llm_model == b.llm_model
    &&& a.openai_api_key == b.openai_api_key
    &&& a.openai_base_url == b.openai_base_url
}

/// Appends an execution plan.
pub fn add_execution_plan(settings: &mut Settings, plan: ExecutionPlan)
    ensures
        final(settings).execution_plans@ == old(settings).execution_plans@.push(plan),
        final(settings).chrome_profiles == old(settings).chrome_profiles,
        final(settings).custom_apps == old(settings).custom_apps,
        same_scalars(*final(settings), *old(settings)),
{
    settings.execution_plans.push(plan);
}

/// Replaces the execution plan at `index`; fails, changing nothing, when
/// there is none.
pub fn update_execution_plan(settings: &mut Settings, index: usize, plan: ExecutionPlan) -> (r: Result<(), String>)
    ensures
        r is Ok <==> index < old(settings).execution_plans@.len(),
        r is Ok ==> final(settings).execution_plans@ == old(settings).execution_plans@.update(index as int, plan),
        r is Err ==> *final(settings) == *old(settings),
        r matches Err(m) ==> m@ == "Execution plan index out of bounds"@,
        final(settings).chrome_profiles == old(settings).chrome_profiles,
        final(settings).custom_apps == old(settings).custom_apps,
        same_scalars(*final(settings), *old(settings)),
{
    if index < settings.execution_plans.len() {
        settings.execution_plans.set(index, plan);
        Ok(())
    } else {
        Err("Execution plan index out of bounds".to_owned())
    }
}

/// Removes the execution plan at `index`; fails, changing nothing, when
/// there is none.
pub fn remove_execution_plan(settings: &mut Settings, index: usize) -> (r: Result<(), String>)
    ensures
        r is Ok <==> index < old(settings).execution_plans@.len(),
        r is Ok ==> final(settings).execution_plans@ == old(settings).execution_plans@.remove(index as int),
        r is Err ==> *final(settings) == *old(settings),
        r matches Err(m) ==> m@ == "Execution plan index out of bounds"@,
        final(settings).chrome_profiles == old(settings).chrome_profiles,
        final(settings).custom_apps == old(settings).custom_apps,
        same_scalars(*final(settings), *old(settings)),
{
    if index < settings.execution_plans.len() {
        settings.execution_plans.remove(index);
        Ok(())
    } else {
        Err("Execution plan index out of bounds".to_owned())
    }
}

/// Appends a custom application.
pub fn add_custom_app(settings: &mut Settings, app: CustomApp)
    ensures
        final(settings).custom_apps@ == old(settings).custom_apps@.push(app),
        final(settings).execution_plans == old(settings).execution_plans,
        final(settings).chrome_profiles == old(settings).chrome_profiles,
        same_scalars(*final(settings), *old(settings)),
{
    settings.custom_apps.push(app);
}

/// Replaces the custom application at `index`; fails, changing nothing,
/// when there is none.
pub fn update_custom_app(settings: &mut Settings, index: usize, app: CustomApp) -> (r: Result<(), String>)
    ensures
        r is Ok <==> index < old(settings).custom_apps@.len(),
        r is Ok ==> final(settings).custom_apps@ == old(settings).custom_apps@.update(index as int, app),
        r is Err ==> *final(settings) == *old(settings),
        r matches Err(m) ==> m@ == "Custom app index out of bounds"@,
        final(settings).execution_plans == old(settings).execution_plans,
        final(settings).chrome_profiles == old(settings).chrome_profiles,
        same_scalars(*final(settings), *old(settings)),
{
    if index < settings.custom_apps.len() {
        settings.custom_apps.set(index, app);
        Ok(())
    } else {
        Err("Custom app index out of bounds".to_owned())
    }
}

/// Appends a browser profile.
pub fn add_chrome_profile(settings: &mut Settings, profile: ChromeProfile)
    ensures
        final(settings).chrome_profiles@ == old(settings).chrome_profiles@.push(profile),
        final(settings).execution_plans == old(settings).execution_plans,
        final(settings).custom_apps == old(settings).custom_apps,
        same_scalars(*final(settings), *old(settings)),
{
    settings.chrome_profiles.push(profile);
}

/// Replaces the browser profile at `index`; fails, changing nothing, when
/// there is none.
pub fn update_chrome_profile(settings: &mut Settings, index: usize, profile: ChromeProfile) -> (r: Result<(), String>)
    ensures
        r is Ok <==> index < old(settings).chrome_profiles@.len(),
        r is Ok ==> final(settings).chrome_profiles@ == old(settings).chrome_profiles@.update(index as int, profile),
        r is Err ==> *final(settings) == *old(settings),
        r matches Err(m) ==> m@ == "Chrome profile index out of bounds"@,
        final(settings).execution_plans == old(settings).execution_plans,
        final(settings).custom_apps == old(settings).custom_apps,
        same_scalars(*final(settings), *old(settings)),
{
    if index < settings.chrome_profiles.len() {
        settings.chrome_profiles.set(index, profile);
        Ok(())
    } else {
        Err("Chrome profile index out of bounds".to_owned())
    }
}

/// Removes the browser profile at `index`; fails, changing nothing, when
/// there is none.
pub fn remove_chrome_profile(settings: &mut Settings, index: usize) -> (r: Result<(), String>)
    ensures
        r is Ok <==> index < old(settings).chrome_profiles@.len(),
        r is Ok ==> final(settings).chrome_profiles@ == old(settings).chrome_profiles@.remove(index as int),
        r is Err ==> *final(settings) == *old(settings),
        r matches Err(m) ==> m@ == "Chrome profile index out of bounds"@,
        final(settings).execution_plans == old(settings).execution_plans,
        final(settings).custom_apps == old(settings).custom_apps,
        same_scalars(*final(settings), *old(settings)),
{
    if index < settings.chrome_profiles.len() {
        settings.chrome_profiles.remove(index);
        Ok(())
    } else {
        Err("Chrome profile index out of bounds".to_owned())
    }
}

} // verus!
