use notice::json::{json_get, JsonValue};
use notice::domain::{NoticeEvent, NoticeEventType, NoticeLevel, Provider};
use notice::rules::aggregator::{decide, AggregationDecision};
use notice::rules::redaction::{redact, redact_key_value};
use notice::rules::risk::{classify_command, RiskLevel};

fn event(event_type: NoticeEventType) -> NoticeEvent {
    NoticeEvent {
        id: "test".to_string(),
        version: 1,
        provider: Provider::Codex,
        event_type,
        session_id: None,
        run_id: None,
        dedupe_key: None,
        title: "title".to_string(),
        content: "content".to_string(),
        level: NoticeLevel::Info,
        project: None,
        cwd: None,
        command: None,
        exit_code: None,
        duration_ms: None,
        timestamp: 0,
        received_at: 0,
        raw_payload: None,
    }
}

#[test]
fn stop_like_finish_notifies() {
    assert!(matches!(
        decide(&event(NoticeEventType::TaskFinish), 0),
        AggregationDecision::NotifyNow(_)
    ));
}

#[test]
fn five_failures_notify() {
    assert!(matches!(
        decide(&event(NoticeEventType::TaskFail), 5),
        AggregationDecision::NotifyNow(_)
    ));
}

#[test]
fn aggregation_decisions_by_type() {
    assert_eq!(decide(&event(NoticeEventType::UserConfirm), 0), AggregationDecision::NotifyNow("title".to_string()));
    assert_eq!(
        decide(&event(NoticeEventType::TaskFail), 7),
        AggregationDecision::NotifyNow("Continuous failures detected".to_string())
    );
    assert_eq!(decide(&event(NoticeEventType::TaskFail), 4), AggregationDecision::Aggregate);
    assert_eq!(decide(&event(NoticeEventType::TaskStart), 9), AggregationDecision::Record);
    assert_eq!(decide(&event(NoticeEventType::Warning), 0), AggregationDecision::Aggregate);
    assert_eq!(decide(&event(NoticeEventType::Error), 0), AggregationDecision::Aggregate);
}

#[test]
fn redacts_known_secret_keys() {
    let text = "token=abc\napikey: xyz\npassword = letmein\nauthorization: bearer value";
    let redacted = redact(text);
    assert!(!redacted.contains("abc"));
    assert!(!redacted.contains("xyz"));
    assert!(!redacted.contains("letmein"));
    assert!(!redacted.contains("bearer value"));
    assert!(redacted.contains("<redacted>"));
}

#[test]
fn redaction_keeps_lines_and_final_break() {
    assert_eq!(
        redact("token=abc\napikey: xyz\npassword = letmein\nauthorization: bearer value"),
        "token=<redacted>\napikey=<redacted>\npassword=<redacted>\nauthorization=<redacted>"
    );
    assert_eq!(redact("MY_SECRET : s\nplain\n"), "MY_SECRET=<redacted>\nplain\n");
    assert_eq!(redact("token is missing"), "token is missing");
    assert_eq!(redact(""), "");
}

#[test]
fn redact_key_value_only_touches_the_key() {
    assert_eq!(redact_key_value("a token=1\nb", "token"), "a token=<redacted>\nb");
    assert_eq!(redact_key_value("password=1", "token"), "password=1");
}

#[test]
fn rm_root_is_critical() {
    let risk = classify_command("rm -rf /");
    assert_eq!(risk.level, RiskLevel::Critical);
}

#[test]
fn ordinary_delete_is_not_blocking() {
    let risk = classify_command("echo delete button label");
    assert_eq!(risk.level, RiskLevel::Medium);
}

#[test]
fn risk_levels_ignore_case_and_spacing() {
    assert_eq!(classify_command("SUDO   RM -r x").level, RiskLevel::Critical);
    assert_eq!(classify_command("chmod 777 file").level, RiskLevel::High);
    assert_eq!(classify_command("git   clean -fd").level, RiskLevel::Medium);
    assert_eq!(classify_command("docker system prune -a").level, RiskLevel::Medium);
    assert_eq!(classify_command("rm -rf build").level, RiskLevel::High);
    assert_eq!(classify_command("delete from t").level, RiskLevel::Medium);
    assert_eq!(classify_command("ls -la").level, RiskLevel::NoRisk);
}

#[test]
fn raw_payload_strings_are_redacted() {
    let payload = JsonValue::Object(vec![
        ("env".to_string(), JsonValue::Array(vec![JsonValue::Str("APIKEY: k".to_string()), JsonValue::Int(7)])),
        ("password".to_string(), JsonValue::Str("password=hunter2".to_string())),
        ("ratio".to_string(), JsonValue::OtherNumber("0.5".to_string())),
    ]);
    let r = notice::rules::redaction::redact_json(&payload);
    match json_get(&r, "env") {
        Some(JsonValue::Array(items)) => {
            assert!(matches!(&items[0], JsonValue::Str(s) if s == "APIKEY=<redacted>"));
            assert!(matches!(&items[1], JsonValue::Int(7)));
        }
        _ => panic!("env missing"),
    }
    assert!(matches!(json_get(&r, "password"), Some(JsonValue::Str(s)) if s == "password=<redacted>"));
    assert!(matches!(json_get(&r, "ratio"), Some(JsonValue::OtherNumber(t)) if t == "0.5"));
}

#[test]
fn secret_value_never_reaches_output() {
    for key in ["token", "apikey", "secret", "password", "authorization"] {
        let first = redact(&format!("{key}=abc123"));
        let second = redact(&format!("{key}=a very different value: token=zzz"));
        assert_eq!(first, format!("{key}=<redacted>"));
        assert_eq!(first, second);
    }
}

#[test]
fn redacting_twice_changes_nothing() {
    let input = "user=me\nTOKEN: abc\nsecretive talk\npassword = x token=y\nsecretoken=1\n";
    let once = redact(input);
    assert_eq!(once, "user=me\nTOKEN=<redacted>\nsecretive talk\npassword=<redacted>\nsecretoken=<redacted>\n");
    assert_eq!(redact(&once), once);
}

#[test]
fn raw_payload_member_names_are_redacted() {
    let payload = JsonValue::Object(vec![
        ("token=abc".to_string(), JsonValue::Int(1)),
        ("cwd".to_string(), JsonValue::Str("/tmp".to_string())),
    ]);
    let r = notice::rules::redaction::redact_json(&payload);
    match r {
        JsonValue::Object(fields) => {
            assert_eq!(fields.len(), 2);
            assert_eq!(fields[0].0, "token=<redacted>");
            assert!(matches!(fields[0].1, JsonValue::Int(1)));
            assert_eq!(fields[1].0, "cwd");
        }
        _ => panic!("not an object"),
    }
}
