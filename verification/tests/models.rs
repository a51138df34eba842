use astrcode::models::{available_models, model_test_result, ModelProfile};

fn profile(name: &str, kind: &str, models: &[&str]) -> ModelProfile {
    ModelProfile {
        name: name.to_string(),
        provider_kind: kind.to_string(),
        model_ids: models.iter().map(|m| m.to_string()).collect(),
    }
}

#[test]
fn models_are_listed_profile_by_profile() {
    let profiles = vec![
        profile("work", "hosted", &["fast-1", "fast-2"]),
        profile("empty", "local", &[]),
        profile("home", "vendor", &["large"]),
    ];
    let listed: Vec<(String, String, String)> = available_models(&profiles)
        .into_iter()
        .map(|m| (m.profile_name, m.model_id, m.provider_kind))
        .collect();
    let expected: Vec<(String, String, String)> = vec![
        ("work", "fast-1", "hosted"),
        ("work", "fast-2", "hosted"),
        ("home", "large", "vendor"),
    ]
    .into_iter()
    .map(|(a, b, c)| (a.to_string(), b.to_string(), c.to_string()))
    .collect();
    assert_eq!(listed, expected);
}

#[test]
fn model_test_reports_duration_or_error() {
    let ok = model_test_result(Ok(412));
    assert!(ok.success);
    assert_eq!(ok.message, "ok (412ms)");
    let failed = model_test_result(Err("401 unauthorized".into()));
    assert!(!failed.success);
    assert_eq!(failed.message, "401 unauthorized");
}
