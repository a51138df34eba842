use astrcode::http_auth::{bearer_authorized, collect_allowed_origins_from_extra};

fn origin_strings(extra: Option<&str>) -> Vec<String> {
    collect_allowed_origins_from_extra(extra)
}

#[test]
fn default_allowed_origins_are_web_dev_hosts_only() {
    let origins = origin_strings(None);

    assert!(origins.contains(&"http://localhost:5173".to_string()));
    assert!(origins.contains(&"http://127.0.0.1:5173".to_string()));
    assert!(!origins.contains(&"http://tauri.localhost".to_string()));
    assert!(!origins.contains(&"https://tauri.localhost".to_string()));
}

#[test]
fn explicit_allowed_origins_are_appended() {
    let origins = origin_strings(Some("https://example.test, bad\norigin, https://admin.example.test"));

    assert!(origins.contains(&"https://example.test".to_string()));
    assert!(origins.contains(&"https://admin.example.test".to_string()));
    assert!(!origins.contains(&"bad\norigin".to_string()));
}

#[test]
fn origins_keep_order_and_trim_entries() {
    let origins = origin_strings(Some(" https://a.test ,,https://b.test\t"));
    assert_eq!(
        origins,
        vec![
            "http://localhost:5173".to_string(),
            "http://localhost:3000".to_string(),
            "http://127.0.0.1:5173".to_string(),
            "http://127.0.0.1:3000".to_string(),
            "https://a.test".to_string(),
            String::new(),
            "https://b.test".to_string(),
        ]
    );
    assert_eq!(origin_strings(None).len(), 4);
}

#[test]
fn control_characters_are_not_header_values() {
    let origins = origin_strings(Some("a\u{7f}b,ok,x\u{1}"));
    assert_eq!(origins[4..].to_vec(), vec!["ok".to_string()]);
    let origins = origin_strings(Some("tab\tinside,caf\u{e9}"));
    assert_eq!(origins[4..].to_vec(), vec!["tab\tinside".to_string(), "caf\u{e9}".to_string()]);
}

#[test]
fn bearer_must_match_exactly() {
    assert!(bearer_authorized(Some("Bearer abc"), "Bearer abc"));
    assert!(!bearer_authorized(Some("Bearer abd"), "Bearer abc"));
    assert!(!bearer_authorized(Some("bearer abc"), "Bearer abc"));
    assert!(!bearer_authorized(None, "Bearer abc"));
}
