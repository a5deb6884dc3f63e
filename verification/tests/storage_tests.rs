use notice::domain::{NoticeEventType, NoticeLevel, Pagination, Provider};
use notice::storage::{
    bool_setting, dashboard_since, dashboard_summary, event_type_from_column, level_from_column, page_window,
    provider_from_column, row_to_event, search_pattern, session_state_counts, session_window_start, touch_action,
    traffic_widget_status, EventRow, SessionRow, SessionStateCounts, TouchAction,
};

const NOW: i64 = 1_800_000_000_000_000_000;
const SEC: i64 = 1_000_000_000;

fn row(key: &str, title: &str, event_type: &str, level: &str, at: i64) -> SessionRow {
    SessionRow {
        session_key: key.to_string(),
        title: title.to_string(),
        event_type: event_type.to_string(),
        level: level.to_string(),
        received_at: at,
    }
}

fn light(rows: Vec<SessionRow>, pending: i64, latest_title: Option<&str>) -> (String, String, String) {
    let counts = session_state_counts(&rows, NOW);
    let s = traffic_widget_status(true, true, pending, latest_title.map(|t| t.to_string()), counts);
    (s.color, s.label, s.detail)
}

#[test]
fn traffic_status_defaults_to_green_ready() {
    let (color, label, detail) = light(vec![], 0, None);
    assert_eq!(color, "green");
    assert_eq!(label, "Ready");
    assert_eq!(detail, "Notice is watching for Codex activity");
}

#[test]
fn traffic_status_turns_yellow_for_pending_approval_or_confirmation() {
    let (color, label, detail) = light(vec![], 1, None);
    assert_eq!((color.as_str(), label.as_str(), detail.as_str()), ("yellow", "Waiting", "1 approval(s) pending"));
    let rows = vec![row("s", "Codex needs confirmation", "USER_CONFIRM", "warning", NOW - SEC)];
    let (color, _, detail) = light(rows, 1, None);
    assert_eq!(color, "yellow");
    assert_eq!(detail, "2 approval(s) pending");
}

#[test]
fn traffic_status_turns_red_for_failures() {
    let rows = vec![row("s", "Codex tool failed", "TASK_FAIL", "error", NOW - SEC)];
    let (color, label, detail) = light(rows, 3, None);
    assert_eq!(color, "red");
    assert_eq!(label, "Needs attention");
    assert_eq!(detail, "1 Codex session(s) failed");
}

#[test]
fn traffic_status_keeps_failure_after_stop_until_new_work() {
    let rows = vec![
        row("s", "Codex tool failed", "TASK_FAIL", "error", NOW - 3 * SEC),
        row("s", "Codex task finished", "TASK_FINISH", "success", NOW - 2 * SEC),
    ];
    let (color, label, _) = light(rows, 0, Some("Codex task finished"));
    assert_eq!(color, "red");
    assert_eq!(label, "Needs attention");
}

#[test]
fn traffic_status_returns_to_running_after_failure_gets_new_work() {
    let rows = vec![
        row("s", "Codex tool failed", "TASK_FAIL", "error", NOW - 3 * SEC),
        row("s", "Codex task started", "TASK_START", "info", NOW - SEC),
    ];
    let (color, label, detail) = light(rows, 0, None);
    assert_eq!(color, "running");
    assert_eq!(label, "Running");
    assert_eq!(detail, "1 Codex session(s) running");
}

#[test]
fn traffic_status_turns_green_complete_for_successful_stop() {
    let rows = vec![
        row("s", "Codex task started", "TASK_START", "info", NOW - 3 * SEC),
        row("s", "Codex task finished", "TASK_FINISH", "success", NOW - SEC),
    ];
    let (color, label, detail) = light(rows, 0, Some("Codex task finished"));
    assert_eq!(color, "green");
    assert_eq!(label, "Complete");
    assert_eq!(detail, "All tracked Codex tasks are complete");
}

#[test]
fn traffic_status_expires_stale_active_session() {
    let rows = vec![row("s", "Codex task started", "TASK_START", "info", NOW - 601 * SEC)];
    assert_eq!(light(rows, 0, None).0, "green");
    let rows = vec![row("s", "Codex task started", "TASK_START", "info", NOW - 600 * SEC)];
    assert_eq!(light(rows, 0, None).0, "running");
}

#[test]
fn traffic_status_returns_to_running_after_approval_resumes() {
    let rows = vec![
        row("s", "Codex needs confirmation", "USER_CONFIRM", "warning", NOW - 3 * SEC),
        row("s", "Codex task resumed", "TASK_START", "info", NOW - SEC),
    ];
    let (color, label, _) = light(rows, 0, None);
    assert_eq!(color, "running");
    assert_eq!(label, "Running");
}

#[test]
fn session_counts_are_per_session() {
    let rows = vec![
        row("a", "Codex tool failed", "TASK_FAIL", "error", NOW - 5 * SEC),
        row("b", "Codex task started", "TASK_START", "info", NOW - 4 * SEC),
        row("c", "Codex needs confirmation", "USER_CONFIRM", "warning", NOW - 3 * SEC),
        row("b", "Codex task activity", "TASK_START", "info", NOW - 2 * SEC),
        row("d", "Codex task started", "TASK_START", "info", NOW - SEC),
    ];
    let c = session_state_counts(&rows, NOW);
    assert_eq!((c.failed, c.waiting, c.active), (1, 1, 2));
}

#[test]
fn widget_reports_counts_and_finish_title_only() {
    let counts = SessionStateCounts { failed: 0, waiting: 0, active: 0 };
    let s = traffic_widget_status(false, true, 0, Some("Codex task started".to_string()), counts);
    assert!(!s.enabled);
    assert!(s.always_on_top);
    assert!(s.latest_event_title.is_none());
    assert_eq!(s.label, "Ready");
    assert!(s.manual_override.is_none());
}

#[test]
fn stored_names_read_back() {
    for p in [Provider::Codex, Provider::Webhook] {
        assert_eq!(provider_from_column(p.as_str()), p);
    }
    for t in [
        NoticeEventType::TaskStart,
        NoticeEventType::TaskFinish,
        NoticeEventType::TaskFail,
        NoticeEventType::UserConfirm,
        NoticeEventType::Warning,
        NoticeEventType::Error,
    ] {
        assert_eq!(event_type_from_column(t.as_str()), t);
    }
    for l in [NoticeLevel::Info, NoticeLevel::Success, NoticeLevel::Warning, NoticeLevel::Error] {
        assert_eq!(level_from_column(l.as_str()), l);
    }
    assert_eq!(provider_from_column("other"), Provider::Codex);
    assert_eq!(event_type_from_column("other"), NoticeEventType::Error);
    assert_eq!(level_from_column("other"), NoticeLevel::Info);
}

#[test]
fn row_becomes_event() {
    let e = row_to_event(EventRow {
        id: "i".to_string(),
        version: 1,
        provider: "webhook".to_string(),
        event_type: "TASK_FINISH".to_string(),
        session_id: Some("s".to_string()),
        run_id: None,
        dedupe_key: Some("k".to_string()),
        title: "t".to_string(),
        content: "c".to_string(),
        level: "success".to_string(),
        project: None,
        cwd: None,
        command: None,
        exit_code: Some(0),
        duration_ms: None,
        timestamp: 5,
        received_at: 6,
        raw_payload: None,
    });
    assert_eq!(e.provider, Provider::Webhook);
    assert_eq!(e.event_type, NoticeEventType::TaskFinish);
    assert_eq!(e.level, NoticeLevel::Success);
    assert_eq!(e.session_id.as_deref(), Some("s"));
    assert_eq!((e.timestamp, e.received_at), (5, 6));
}

#[test]
fn pages_are_clamped() {
    assert_eq!(page_window(Pagination { page: 1, page_size: 20 }), (20, 0));
    assert_eq!(page_window(Pagination { page: 3, page_size: 20 }), (20, 40));
    assert_eq!(page_window(Pagination { page: 0, page_size: 0 }), (1, 0));
    assert_eq!(page_window(Pagination { page: 2, page_size: 1000 }), (500, 1000));
}

#[test]
fn search_and_settings() {
    assert_eq!(search_pattern(Some("rm")).as_deref(), Some("%rm%"));
    assert_eq!(search_pattern(Some("")), None);
    assert_eq!(search_pattern(None), None);
    assert!(bool_setting(Some("true"), false));
    assert!(!bool_setting(Some("yes"), true));
    assert!(bool_setting(None, true));
}

#[test]
fn touch_refreshes_ongoing_work_only() {
    assert_eq!(touch_action(None, Some(("e".to_string(), "TASK_START".to_string()))), TouchAction::Insert);
    assert_eq!(touch_action(Some("s"), None), TouchAction::Insert);
    assert_eq!(touch_action(Some("s"), Some(("e".to_string(), "TASK_FAIL".to_string()))), TouchAction::Insert);
    assert_eq!(touch_action(Some("s"), Some(("e".to_string(), "USER_CONFIRM".to_string()))), TouchAction::Insert);
    assert_eq!(touch_action(Some("s"), Some(("e".to_string(), "TASK_START".to_string()))), TouchAction::Refresh("e".to_string()));
}

#[test]
fn dashboard_counts_today() {
    let day = 86_400 * SEC;
    assert_eq!(dashboard_since(3 * day + 5), 3 * day);
    assert_eq!(dashboard_since(-5), -day);
    let d = dashboard_summary(5, 2, 1, 1, Some("latest".to_string()));
    assert_eq!(d.service_status, "running");
    assert_eq!(d.today_total, 5);
    assert_eq!(d.recent_summary.as_deref(), Some("latest"));
    assert_eq!(session_window_start(NOW), NOW - 1_800 * SEC);
}

#[test]
fn stored_event_reads_back_unchanged() {
    let e = notice::domain::NoticeEvent {
        id: "ev-1".to_string(),
        version: 2,
        provider: Provider::Webhook,
        event_type: NoticeEventType::UserConfirm,
        session_id: Some("s".to_string()),
        run_id: Some("r".to_string()),
        dedupe_key: Some("codex:PreToolUse:s".to_string()),
        title: "Approval needed".to_string(),
        content: "rm -rf build".to_string(),
        level: NoticeLevel::Warning,
        project: Some("demo".to_string()),
        cwd: Some("/tmp/demo".to_string()),
        command: Some("rm -rf build".to_string()),
        exit_code: Some(3),
        duration_ms: Some(1500),
        timestamp: NOW,
        received_at: NOW + SEC,
        raw_payload: Some(notice::json::JsonValue::Int(7)),
    };
    let row = notice::storage::event_to_row(e);
    assert_eq!(row.provider, "webhook");
    assert_eq!(row.event_type, "USER_CONFIRM");
    assert_eq!(row.level, "warning");
    let back = row_to_event(row);
    assert_eq!(back.id, "ev-1");
    assert_eq!(back.version, 2);
    assert_eq!(back.provider, Provider::Webhook);
    assert_eq!(back.event_type, NoticeEventType::UserConfirm);
    assert_eq!(back.level, NoticeLevel::Warning);
    assert_eq!(back.session_id.as_deref(), Some("s"));
    assert_eq!(back.run_id.as_deref(), Some("r"));
    assert_eq!(back.dedupe_key.as_deref(), Some("codex:PreToolUse:s"));
    assert_eq!(back.title, "Approval needed");
    assert_eq!(back.content, "rm -rf build");
    assert_eq!(back.project.as_deref(), Some("demo"));
    assert_eq!(back.cwd.as_deref(), Some("/tmp/demo"));
    assert_eq!(back.command.as_deref(), Some("rm -rf build"));
    assert_eq!(back.exit_code, Some(3));
    assert_eq!(back.duration_ms, Some(1500));
    assert_eq!(back.timestamp, NOW);
    assert_eq!(back.received_at, NOW + SEC);
    assert!(matches!(back.raw_payload, Some(notice::json::JsonValue::Int(7))));
}
