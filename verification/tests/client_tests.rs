use notice::hook_client::{
    client_reply, continue_reply, is_critical_payload, request_timeout_secs, token_file_arg, token_from_file,
    ClientReply, ServerAnswer,
};
use notice::json::{json_get, JsonValue};

fn obj(fields: Vec<(&str, JsonValue)>) -> JsonValue {
    JsonValue::Object(fields.into_iter().map(|(k, v)| (k.to_string(), v)).collect())
}

#[test]
fn critical_payloads() {
    let p = obj(vec![("tool_input", obj(vec![("command", JsonValue::Str("DROP TABLE users".to_string()))]))]);
    assert!(is_critical_payload(&p));
    assert_eq!(request_timeout_secs(true), 30);
    let p = obj(vec![("command", JsonValue::Str("ls".to_string()))]);
    assert!(!is_critical_payload(&p));
    assert_eq!(request_timeout_secs(false), 2);
    assert!(!is_critical_payload(&JsonValue::Null));
}

#[test]
fn token_sources() {
    let args: Vec<String> = vec!["notice-hook".into(), "--token-file".into(), "/t".into()];
    assert_eq!(token_file_arg(&args), Some(2));
    let args: Vec<String> = vec!["notice-hook".into(), "--token-file".into()];
    assert_eq!(token_file_arg(&args), None);
    assert_eq!(token_from_file("  abc\n"), "abc");
}

fn reason(r: &ClientReply) -> (bool, Option<String>) {
    match r {
        ClientReply::Continue { should_continue, reason } => (*should_continue, reason.clone()),
        ClientReply::Forward(_) => panic!("forwarded"),
    }
}

#[test]
fn replies() {
    match client_reply(false, ServerAnswer::Answered { success: true, body: "{\"continue\":true}".to_string() }) {
        ClientReply::Forward(b) => assert_eq!(b, "{\"continue\":true}"),
        _ => panic!("not forwarded"),
    }
    assert_eq!(
        reason(&client_reply(true, ServerAnswer::Answered { success: true, body: " ".to_string() })),
        (false, Some("Notice rejected or failed to process critical command".to_string()))
    );
    assert_eq!(reason(&client_reply(false, ServerAnswer::Answered { success: false, body: "x".to_string() })), (true, None));
    assert_eq!(
        reason(&client_reply(true, ServerAnswer::Unreachable)),
        (false, Some("Notice unavailable for critical command".to_string()))
    );
    assert_eq!(
        reason(&client_reply(false, ServerAnswer::ClientFailed)),
        (true, Some("Notice hook client failed".to_string()))
    );
}

#[test]
fn continue_reply_json() {
    let v = continue_reply(true, None);
    assert!(matches!(json_get(&v, "continue"), Some(JsonValue::Bool(true))));
    assert!(matches!(json_get(&v, "suppressOutput"), Some(JsonValue::Bool(true))));
    assert!(json_get(&v, "stopReason").is_none());
    let v = continue_reply(false, Some("why".to_string()));
    assert!(matches!(json_get(&v, "suppressOutput"), Some(JsonValue::Bool(false))));
    assert!(matches!(json_get(&v, "stopReason"), Some(JsonValue::Str(s)) if s == "why"));
}
