use notice::domain::TrafficWidgetStatus;
use notice::pet::{
    normalize_base_url, pet_config, pet_payload_key, pet_state_from_traffic, plan_pet_sync, sent_message,
    stored_base_url, test_sent_message, PetSync,
};

fn status(color: &str, pending_approvals: i64, latest_event_title: Option<&str>) -> TrafficWidgetStatus {
    TrafficWidgetStatus {
        enabled: true,
        always_on_top: true,
        color: color.to_string(),
        label: String::new(),
        detail: String::new(),
        active_sessions: 0,
        pending_approvals,
        today_failures: 0,
        latest_event_title: latest_event_title.map(ToOwned::to_owned),
        manual_override: None,
    }
}

#[test]
fn maps_traffic_status_to_pet_state_priority() {
    assert_eq!(pet_state_from_traffic(&status("red", 0, None)), "failed");
    assert_eq!(pet_state_from_traffic(&status("yellow", 0, None)), "waiting");
    assert_eq!(pet_state_from_traffic(&status("running", 0, None)), "running");
    assert_eq!(
        pet_state_from_traffic(&status("green", 0, Some("Codex task finished"))),
        "complete"
    );
    assert_eq!(pet_state_from_traffic(&status("green", 0, None)), "ready");
}

#[test]
fn pending_approvals_make_the_pet_wait() {
    assert_eq!(pet_state_from_traffic(&status("running", 2, None)), "waiting");
    assert_eq!(pet_state_from_traffic(&status("red", 2, None)), "failed");
}

#[test]
fn normalizes_pet_url() {
    assert_eq!(
        normalize_base_url(Some("192.168.1.23/")),
        Some("http://192.168.1.23".to_string())
    );
    assert_eq!(
        normalize_base_url(Some("http://192.168.1.23/")),
        Some("http://192.168.1.23".to_string())
    );
    assert_eq!(normalize_base_url(Some("  ")), None);
}

#[test]
fn normalizes_more_urls() {
    assert_eq!(normalize_base_url(None), None);
    assert_eq!(normalize_base_url(Some(" https://pet.local// ")), Some("https://pet.local".to_string()));
    assert_eq!(normalize_base_url(Some("///")), None);
    assert_eq!(stored_base_url(Some("pet")), "http://pet");
    assert_eq!(stored_base_url(Some("")), "");
}

#[test]
fn pet_settings_from_storage() {
    let c = pet_config(Some("true"), Some("http://p".to_string()), None);
    assert!(c.enabled);
    assert_eq!(c.base_url.as_deref(), Some("http://p"));
    assert!(!pet_config(None, None, None).enabled);
}

#[test]
fn sync_skips_unchanged_payload() {
    assert_eq!(pet_payload_key("running", "5h 88%", "7d 41%"), "running|5h 88%|7d 41%");
    assert_eq!(
        plan_pet_sync(true, Some("http://127.0.0.1:1"), "running", "5h 88%", "7d 41%", Some("running|5h 88%|7d 41%")),
        PetSync::Unchanged
    );
    assert_eq!(
        plan_pet_sync(true, Some("127.0.0.1:1/"), "failed", "", "", Some("running||")),
        PetSync::Send { base_url: "http://127.0.0.1:1".to_string(), payload: "failed||".to_string() }
    );
    assert_eq!(plan_pet_sync(false, Some("x"), "ready", "", "", None), PetSync::Disabled);
    assert_eq!(
        plan_pet_sync(true, None, "ready", "", "", None),
        PetSync::Unconfigured("Pet sync is enabled but no Mochi URL is configured".to_string())
    );
}

#[test]
fn sent_messages() {
    assert_eq!(sent_message("ready", "http://p"), "Sent ready to http://p");
    assert_eq!(test_sent_message("http://p"), "Test sent ready to http://p");
}

#[test]
fn normalizing_a_pet_address_twice_changes_nothing() {
    for raw in ["192.168.1.23//", " https://pet.local/ ", "http://10.0.0.2"] {
        let once = normalize_base_url(Some(raw)).unwrap();
        assert_eq!(normalize_base_url(Some(&once)), Some(once.clone()));
        assert!(!once.ends_with('/'));
    }
}
