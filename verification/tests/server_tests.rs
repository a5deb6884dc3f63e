use notice::domain::{NoticeEventType, NoticeLevel, Provider};
use notice::json::JsonValue;
use notice::server::{
    approval_response, approval_timeout_response, authorized, continue_response, event_from_payload, extract_command,
    failed_open_response, hook_event_name, new_pending_approval, payload_exit_code, payload_project,
    payload_session_id, plan_hook, resumes_after_approval, should_notify_feishu, unauthorized_response, HookPlan,
};

fn obj(fields: Vec<(&str, JsonValue)>) -> JsonValue {
    JsonValue::Object(fields.into_iter().map(|(k, v)| (k.to_string(), v)).collect())
}

fn s(v: &str) -> JsonValue {
    JsonValue::Str(v.to_string())
}

#[test]
fn feishu_notifies_for_user_approval() {
    assert!(should_notify_feishu(
        "PermissionRequest",
        &NoticeEventType::UserConfirm,
        &NoticeLevel::Warning,
        false,
    ));
}

#[test]
fn feishu_notifies_for_successful_session_stop() {
    assert!(should_notify_feishu(
        "Stop",
        &NoticeEventType::TaskFinish,
        &NoticeLevel::Success,
        false,
    ));
}

#[test]
fn feishu_skips_failed_or_incomplete_session_stop() {
    assert!(!should_notify_feishu(
        "Stop",
        &NoticeEventType::TaskFinish,
        &NoticeLevel::Success,
        true,
    ));
    assert!(!should_notify_feishu(
        "PostToolUse",
        &NoticeEventType::TaskFail,
        &NoticeLevel::Error,
        true,
    ));
}

#[test]
fn feishu_skips_tool_noise() {
    assert!(!should_notify_feishu("PostToolUse", &NoticeEventType::TaskStart, &NoticeLevel::Info, false));
    assert!(!should_notify_feishu("SessionStart", &NoticeEventType::TaskStart, &NoticeLevel::Success, false));
}

#[test]
fn payload_fields_are_read_with_fallbacks() {
    let p = obj(vec![
        ("hookEventName", s("Stop")),
        ("sessionId", s("abc")),
        ("cwd", s("/tmp/demo")),
        ("toolInput", obj(vec![("command", s("ls"))])),
        ("exit_code", JsonValue::Int(2)),
    ]);
    assert_eq!(hook_event_name(&p), "Stop");
    assert_eq!(payload_session_id(&p).as_deref(), Some("abc"));
    assert_eq!(payload_project(&p).as_deref(), Some("/tmp/demo"));
    assert_eq!(extract_command(&p).as_deref(), Some("ls"));
    assert_eq!(payload_exit_code(&p), Some(2));
    assert_eq!(hook_event_name(&obj(vec![])), "PostToolUse");
    let nested = obj(vec![("tool_response", obj(vec![("exit_code", JsonValue::Int(0))])), ("exit_code", JsonValue::Int(3))]);
    assert_eq!(payload_exit_code(&nested), Some(0));
}

#[test]
fn user_prompt_submit_records_task_start() {
    let p = obj(vec![("hook_event_name", s("UserPromptSubmit")), ("session_id", s("session-1")), ("cwd", s("/tmp/demo"))]);
    assert_eq!(
        plan_hook(&p),
        HookPlan::Record {
            event_type: NoticeEventType::TaskStart,
            level: NoticeLevel::Info,
            title: "Codex task started".to_string()
        }
    );
}

#[test]
fn successful_tool_use_is_activity_and_failures_are_recorded() {
    let ok = obj(vec![("hook_event_name", s("PostToolUse")), ("tool_response", obj(vec![("exit_code", JsonValue::Int(0))]))]);
    assert_eq!(plan_hook(&ok), HookPlan::Activity);
    let failed = obj(vec![("hook_event_name", s("PostToolUse")), ("tool_response", obj(vec![("exit_code", JsonValue::Int(1))]))]);
    assert_eq!(
        plan_hook(&failed),
        HookPlan::Record { event_type: NoticeEventType::TaskFail, level: NoticeLevel::Error, title: "Codex tool failed".to_string() }
    );
    let safe = obj(vec![("hook_event_name", s("PreToolUse")), ("tool_input", obj(vec![("command", s("ls"))]))]);
    assert_eq!(plan_hook(&safe), HookPlan::Activity);
}

#[test]
fn critical_pre_tool_use_waits_for_approval() {
    let p = obj(vec![("hook_event_name", s("PreToolUse")), ("tool_input", obj(vec![("command", s("sudo rm -rf /tmp/demo"))]))]);
    assert_eq!(
        plan_hook(&p),
        HookPlan::Approval { command: "sudo rm -rf /tmp/demo".to_string(), rule: "critical-destructive-command".to_string() }
    );
}

#[test]
fn other_hooks_are_plans() {
    let title = |name: &str| match plan_hook(&obj(vec![("hook_event_name", s(name))])) {
        HookPlan::Record { title, .. } => title,
        other => panic!("unexpected {other:?}"),
    };
    assert_eq!(title("SessionStart"), "Codex session started");
    assert_eq!(title("PermissionRequest"), "Codex needs confirmation");
    assert_eq!(title("Stop"), "Codex task finished");
    assert_eq!(title("Notification"), "Codex event received");
}

#[test]
fn event_from_payload_fills_every_field() {
    let p = obj(vec![
        ("session_id", s("s1")),
        ("run_id", s("r1")),
        ("project", s("proj")),
        ("cwd", s("/w")),
        ("duration_ms", JsonValue::Int(12)),
        ("tool_input", obj(vec![("command", s("export TOKEN=abc"))])),
    ]);
    let e = event_from_payload("PreToolUse", &p, Some("echo token=abc".to_string()), NoticeEventType::UserConfirm, NoticeLevel::Warning, "High-risk command detected", "id-1".to_string(), 42);
    assert_eq!(e.id, "id-1");
    assert_eq!(e.version, 1);
    assert_eq!(e.provider, Provider::Codex);
    assert_eq!(e.session_id.as_deref(), Some("s1"));
    assert_eq!(e.run_id.as_deref(), Some("r1"));
    assert_eq!(e.dedupe_key.as_deref(), Some("codex:PreToolUse:s1"));
    assert_eq!(e.command.as_deref(), Some("echo token=<redacted>"));
    assert_eq!(e.content, "echo token=<redacted>");
    assert_eq!(e.project.as_deref(), Some("proj"));
    assert_eq!(e.cwd.as_deref(), Some("/w"));
    assert_eq!(e.duration_ms, Some(12));
    assert_eq!(e.exit_code, None);
    assert_eq!(e.timestamp, 42);
    let raw = e.raw_payload.as_ref().unwrap();
    let input = notice::json::json_get(raw, "tool_input").unwrap();
    assert!(matches!(notice::json::json_get(input, "command"), Some(JsonValue::Str(c)) if c == "export TOKEN=<redacted>"));
    assert!(matches!(notice::json::json_get(raw, "session_id"), Some(JsonValue::Str(c)) if c == "s1"));
    assert!(matches!(notice::json::json_get(raw, "duration_ms"), Some(JsonValue::Int(12))));

    let e = event_from_payload("Stop", &obj(vec![]), None, NoticeEventType::TaskFinish, NoticeLevel::Success, "Codex task finished", "id-2".to_string(), 1);
    assert_eq!(e.content, "Stop received from Codex");
    assert_eq!(e.dedupe_key.as_deref(), Some("codex:Stop:unknown"));
    assert_eq!(e.project, None);
}

#[test]
fn token_must_match() {
    assert!(authorized(Some("t"), "t"));
    assert!(!authorized(Some("x"), "t"));
    assert!(!authorized(None, "t"));
}

#[test]
fn responses() {
    let r = continue_response();
    assert!(r.should_continue && r.stop_reason.is_none() && r.suppress_output == Some(true));
    let r = unauthorized_response();
    assert!(!r.should_continue);
    assert_eq!(r.stop_reason.as_deref(), Some("Notice token rejected"));
    let r = failed_open_response("db locked");
    assert!(r.should_continue);
    assert_eq!(r.stop_reason.as_deref(), Some("Notice failed open: db locked"));
    assert_eq!(r.suppress_output, Some(false));
    let r = approval_timeout_response();
    assert_eq!(r.stop_reason.as_deref(), Some("Notice approval timed out"));
}

#[test]
fn approval_answers() {
    assert!(approval_response(Some("approved")).unwrap().should_continue);
    let r = approval_response(Some("rejected")).unwrap();
    assert!(!r.should_continue);
    assert_eq!(r.stop_reason.as_deref(), Some("Rejected in Notice"));
    assert!(approval_response(Some("pending")).is_none());
    assert!(approval_response(None).is_none());
}

#[test]
fn activity_resumes_only_after_confirmation() {
    assert!(resumes_after_approval(Some("USER_CONFIRM")));
    assert!(!resumes_after_approval(Some("TASK_START")));
    assert!(!resumes_after_approval(None));
}

#[test]
fn pending_approval_expires_after_timeout() {
    let a = new_pending_approval("a1".to_string(), "rm -rf /", Some("p".to_string()), "critical", "critical-destructive-command", 1_000, 30);
    assert_eq!(a.status, "pending");
    assert_eq!(a.created_at, 1_000);
    assert_eq!(a.expires_at, 1_000 + 30_000_000_000);
    assert_eq!(a.rule, "critical-destructive-command");
}

fn notifies(payload: &JsonValue, failures: bool) -> bool {
    match plan_hook(payload) {
        HookPlan::Approval { .. } => true,
        HookPlan::Activity => false,
        HookPlan::Record { event_type, level, .. } => should_notify_feishu(&hook_event_name(payload), &event_type, &level, failures),
    }
}

#[test]
fn policy_notifies_only_approvals_and_clean_stops() {
    let named = |name: &str| obj(vec![("hook_event_name", s(name))]);
    assert!(notifies(&named("PermissionRequest"), true));
    assert!(notifies(&named("Stop"), false));
    assert!(!notifies(&named("Stop"), true));
    assert!(!notifies(&named("SessionStart"), false));
    assert!(!notifies(&named("UserPromptSubmit"), false));
    assert!(!notifies(&named("Notification"), false));
    let failed = obj(vec![("hook_event_name", s("PostToolUse")), ("exit_code", JsonValue::Int(1))]);
    assert!(!notifies(&failed, false));
    let critical = obj(vec![("hook_event_name", s("PreToolUse")), ("command", s("diskutil eraseDisk x"))]);
    assert!(notifies(&critical, false));
    let safe = obj(vec![("hook_event_name", s("PreToolUse")), ("command", s("ls"))]);
    assert!(!notifies(&safe, false));
}

#[test]
fn approved_commands_resume_the_task() {
    let resumed = notice::server::event_after_answer(&continue_response());
    assert_eq!(resumed, Some((NoticeEventType::TaskStart, NoticeLevel::Info, "Codex task resumed")));
    assert_eq!(notice::server::event_after_answer(&approval_timeout_response()), None);
}
