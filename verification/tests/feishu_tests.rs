use notice::channels::feishu::{
    delivery_error, delivery_step, feishu_message, feishu_payload, feishu_sign, is_duplicate, mask_webhook,
    new_delivery, DeliveryOutcome, DeliveryStep, MAX_ATTEMPTS,
};
use notice::domain::{NoticeEvent, NoticeEventType, NoticeLevel, Provider};
use notice::json::{json_get, JsonValue};

#[test]
fn masks_webhook_url() {
    let masked = mask_webhook("https://open.feishu.cn/open-apis/bot/v2/hook/abcdef");
    assert!(masked.starts_with("https://"));
    assert!(masked.contains("<redacted>"));
    assert!(!masked.contains("abcdef"));
}

#[test]
fn masks_webhook_url_exactly() {
    assert_eq!(
        mask_webhook("https://open.feishu.cn/open-apis/bot/v2/hook/abcdef"),
        "https://open.feishu.cn/open-apis/bot/v2/hook/<redacted>"
    );
    assert_eq!(mask_webhook("short"), "<configured>");
    assert_eq!(mask_webhook("exactly12chr"), "<configured>");
    assert_eq!(mask_webhook("https://example.com/x"), "https://...<redacted>");
}

fn event(project: Option<&str>, content: &str) -> NoticeEvent {
    NoticeEvent {
        id: "e1".to_string(),
        version: 1,
        provider: Provider::Codex,
        event_type: NoticeEventType::TaskFinish,
        session_id: None,
        run_id: None,
        dedupe_key: None,
        title: "Codex task finished".to_string(),
        content: content.to_string(),
        level: NoticeLevel::Success,
        project: project.map(|p| p.to_string()),
        cwd: None,
        command: None,
        exit_code: None,
        duration_ms: None,
        timestamp: 0,
        received_at: 0,
        raw_payload: None,
    }
}

#[test]
fn message_names_project_and_redacts() {
    assert_eq!(
        feishu_message(&event(Some("demo"), "done")),
        "Codex task finished\n\n项目：demo\n\ndone"
    );
    assert_eq!(
        feishu_message(&event(None, "token=abc")),
        "Codex task finished\n\n项目：unknown\n\ntoken=<redacted>"
    );
}

#[test]
fn signs_with_hmac_sha256_base64() {
    assert_eq!(feishu_sign("1700000000", "abc"), "VIS10b0EBvzzSdFnuk4tznEmK5wHaruvf/WnViv2yR4=");
}

fn text_of(v: Option<&JsonValue>) -> Option<String> {
    match v {
        Some(JsonValue::Str(s)) => Some(s.clone()),
        _ => None,
    }
}

#[test]
fn payload_has_text_and_optional_signature() {
    let p = feishu_payload("hello".to_string(), None);
    assert_eq!(text_of(json_get(&p, "msg_type")), Some("text".to_string()));
    let content = json_get(&p, "content").unwrap();
    assert_eq!(text_of(json_get(content, "text")), Some("hello".to_string()));
    assert!(json_get(&p, "sign").is_none());
    match &p {
        JsonValue::Object(f) => assert_eq!(f.len(), 2),
        _ => panic!("not an object"),
    }

    let p = feishu_payload("hi".to_string(), Some(("17".to_string(), "sig".to_string())));
    assert_eq!(text_of(json_get(&p, "timestamp")), Some("17".to_string()));
    assert_eq!(text_of(json_get(&p, "sign")), Some("sig".to_string()));
    match &p {
        JsonValue::Object(f) => assert_eq!(f.len(), 4),
        _ => panic!("not an object"),
    }
}

#[test]
fn delivery_retries_three_times_then_gives_up() {
    let mut state = new_delivery();
    assert_eq!(delivery_step(&mut state, DeliveryOutcome::Failed("HTTP 500".to_string())), DeliveryStep::Retry(200));
    assert_eq!(delivery_step(&mut state, DeliveryOutcome::Failed("timeout".to_string())), DeliveryStep::Retry(400));
    assert_eq!(delivery_step(&mut state, DeliveryOutcome::Failed("HTTP 502".to_string())), DeliveryStep::GiveUp(600));
    assert_eq!(state.attempt, MAX_ATTEMPTS);
    assert_eq!(delivery_error(&state), "HTTP 502");
}

#[test]
fn delivery_records_the_successful_attempt() {
    let mut state = new_delivery();
    assert_eq!(delivery_step(&mut state, DeliveryOutcome::Failed("x".to_string())), DeliveryStep::Retry(200));
    assert_eq!(delivery_step(&mut state, DeliveryOutcome::Delivered), DeliveryStep::RecordSent(2));
}

#[test]
fn delivery_error_without_attempt_is_generic() {
    assert_eq!(delivery_error(&new_delivery()), "Feishu delivery failed");
}

#[test]
fn only_keyed_recent_deliveries_are_duplicates() {
    assert!(is_duplicate(Some("k"), true));
    assert!(!is_duplicate(Some("k"), false));
    assert!(!is_duplicate(None, true));
}

#[test]
fn recent_deliveries_are_five_minutes() {
    assert_eq!(notice::channels::feishu::recent_delivery_since(1_000_000_000_000), 1_000_000_000_000 - 300_000_000_000);
}

#[test]
fn only_non_empty_secrets_sign() {
    assert_eq!(notice::channels::feishu::signing_secret(Some("s".to_string())), Some("s".to_string()));
    assert_eq!(notice::channels::feishu::signing_secret(Some(String::new())), None);
    assert_eq!(notice::channels::feishu::signing_secret(None), None);
}
