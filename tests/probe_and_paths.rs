use os_assistant::auth::{AuthCache, AuthData};
use os_assistant::health::{health_from_fields, health_from_response, http_body};
use os_assistant::models::HealthStatus;
use os_assistant::paths::{first_existing, is_sidecar_name, resolve_log_path, LogLocation};

#[test]
fn body_of_http_response() {
    let r = "HTTP/1.1 200 OK\r\nContent-Type: application/json\r\n\r\n{\"a\":1}";
    assert_eq!(http_body(r), Some("{\"a\":1}".to_string()));
    assert_eq!(http_body("no separator here"), None);
    assert_eq!(http_body("h\r\n\r\nbody\r\n\r\ntrailer"), Some("body".to_string()));
    assert_eq!(http_body("h\r\n\r\n"), Some(String::new()));
}

#[test]
fn health_from_full_response() {
    let r = "HTTP/1.1 200 OK\r\n\r\n{\"status\":\"ok\",\"message\":\"running\",\"timestamp\":\"123\"}";
    let h = health_from_response(r).ok().unwrap();
    assert_eq!(h.status, "ok");
    assert_eq!(h.message, "running");
    assert_eq!(h.timestamp, "123");
}

#[test]
fn health_missing_members_take_defaults() {
    let h = health_from_response("HTTP/1.1 200 OK\r\n\r\n{\"status\":5}").ok().unwrap();
    assert_eq!(h.status, "unknown");
    assert_eq!(h.message, "");
    assert_eq!(h.timestamp, "");
}

#[test]
fn health_errors() {
    assert_eq!(health_from_response("garbage").err(), Some("Invalid HTTP response format".to_string()));
    let e = health_from_response("HTTP/1.1 200 OK\r\n\r\nnot json").err().unwrap();
    assert!(e.starts_with("Failed to parse JSON response: "));
    assert!(e.len() > "Failed to parse JSON response: ".len());
}

#[test]
fn health_fields_and_offline() {
    let h = health_from_fields(Some("ok".to_string()), None, Some("t".to_string()));
    assert_eq!((h.status.as_str(), h.message.as_str(), h.timestamp.as_str()), ("ok", "", "t"));
    let o = HealthStatus::offline("99".to_string());
    assert_eq!(o.status, "offline");
    assert_eq!(o.message, "OS Assistant not started");
    assert_eq!(o.timestamp, "99");
}

#[test]
fn log_location_choice() {
    assert_eq!(resolve_log_path(false, true, true), None);
    assert_eq!(resolve_log_path(true, true, true), Some(LogLocation::LogsDir));
    assert_eq!(resolve_log_path(true, false, true), Some(LogLocation::BaseDir));
    assert_eq!(resolve_log_path(true, false, false), Some(LogLocation::LogsDir));
}

#[test]
fn first_existing_candidate() {
    assert_eq!(first_existing(&vec![false, true, true]), Some(1));
    assert_eq!(first_existing(&vec![false, false]), None);
    assert_eq!(first_existing(&vec![]), None);
}

#[test]
fn sidecar_names() {
    assert!(is_sidecar_name("main-x86_64-pc-windows-msvc.exe"));
    assert!(!is_sidecar_name("main.exe"));
    assert!(!is_sidecar_name("main-x"));
    assert!(!is_sidecar_name("other-main-.exe"));
}

#[test]
fn auth_cache_record() {
    let d = AuthData { access_token: "tok".to_string(), subscription_status: "active".to_string(), user_id: "u1".to_string() };
    let c = AuthCache::validated(d, "2024-01-01T00:00:00+00:00".to_string());
    assert_eq!(c.access_token, "tok");
    assert_eq!(c.subscription_status, "active");
    assert_eq!(c.user_id, "u1");
    assert_eq!(c.last_validated, "2024-01-01T00:00:00+00:00");
}
