//! Handling of Codex hook payloads: what a payload says, which event it records, whether
//! it waits for approval, and which responses the hook receives.
use vstd::prelude::*;
use vstd::string::*;
use crate::domain::{event_type_text, HookResponse, NoticeEvent, NoticeEventType, NoticeLevel, Provider};
use crate::json::{as_int, as_text, get, get_either, get_in, json_get, JsonValue};
use crate::rules::redaction::{redact, redact_json, redact_text, redacted_json};
use crate::rules::risk::{classify_command, risk_level_of, rule_name, RiskLevel};
use crate::text::{chars_of, opt_view, str_eq};
use crate::domain::{level_text, PendingApproval};
use crate::storage::{class_of, snapshot_of, SessionClass, SessionRow};

verus! {

/// Whether an event is sent to Feishu: every confirmation request, and a successful `Stop`
/// of a session without failures.
pub open spec fn notify_feishu(event_name: Seq<char>, event_type: NoticeEventType, level: NoticeLevel, session_has_failures: bool) -> bool {
    event_type == NoticeEventType::UserConfirm || (event_name == "Stop"@ && level == NoticeLevel::Success && !session_has_failures)
}

pub fn should_notify_feishu(
    event_name: &str,
    event_type: &NoticeEventType,
    level: &NoticeLevel,
    session_has_failures: bool,
) -> (r: bool)
    ensures
        r == notify_feishu(event_name@, *event_type, *level, session_has_failures),
{
    let is_confirm = match event_type {
        NoticeEventType::UserConfirm => true,
        _ => false,
    };
    if is_confirm {
        return true;
    }
    let is_success = match level {
        NoticeLevel::Success => true,
        _ => false,
    };
    let name = chars_of(event_name);
    str_eq(&name, "Stop") && is_success && !session_has_failures
}

fn text_of(v: Option<&JsonValue>) -> (r: Option<String>)
    ensures
        match r {
            Some(s) => as_text(opt_deref(v)) == Some(s@),
            None => as_text(opt_deref(v)) is None,
        },
{
    match v {
        Some(JsonValue::Str(s)) => Some(s.clone()),
        _ => None,
    }
}

pub open spec fn opt_deref(v: Option<&JsonValue>) -> Option<JsonValue> {
    match v {
        Some(x) => Some(*x),
        None => None,
    }
}

fn int_of(v: Option<&JsonValue>) -> (r: Option<i64>)
    ensures
        r == as_int(opt_deref(v)),
{
    match v {
        Some(JsonValue::Int(n)) => Some(*n),
        _ => None,
    }
}

fn get_either_exec<'a>(v: &'a JsonValue, key: &str, alt: &str) -> (r: Option<&'a JsonValue>)
    ensures
        opt_deref(r) == get_either(*v, key@, alt@),
{
    match json_get(v, key) {
        Some(x) => Some(x),
        None => json_get(v, alt),
    }
}

fn get_in_exec<'a>(v: &'a JsonValue, outer: &str, inner: &str) -> (r: Option<&'a JsonValue>)
    ensures
        opt_deref(r) == get_in(*v, outer@, inner@),
{
    match json_get(v, outer) {
        Some(o) => json_get(o, inner),
        None => None,
    }
}

/// The hook event name: `hook_event_name`, else `hookEventName`, as text; `PostToolUse`
/// when the member is absent or not text.
pub open spec fn event_name_of(payload: JsonValue) -> Seq<char> {
    match as_text(get_either(payload, "hook_event_name"@, "hookEventName"@)) {
        Some(n) => n,
        None => "PostToolUse"@,
    }
}

pub fn hook_event_name(payload: &JsonValue) -> (r: String)
    ensures
        r@ == event_name_of(*payload),
{
    match text_of(get_either_exec(payload, "hook_event_name", "hookEventName")) {
        Some(n) => n,
        None => String::from_str("PostToolUse"),
    }
}

/// The command of a payload: `tool_input.command`, else `toolInput.command`, else
/// `command`, the first present one, as text.
pub open spec fn command_of(payload: JsonValue) -> Option<Seq<char>> {
    let found = match get_in(payload, "tool_input"@, "command"@) {
        Some(c) => Some(c),
        None => match get_in(payload, "toolInput"@, "command"@) {
            Some(c) => Some(c),
            None => get(payload, "command"@),
        },
    };
    as_text(found)
}

pub fn extract_command(payload: &JsonValue) -> (r: Option<String>)
    ensures
        match r {
            Some(c) => command_of(*payload) == Some(c@),
            None => command_of(*payload) is None,
        },
{
    let found = match get_in_exec(payload, "tool_input", "command") {
        Some(c) => Some(c),
        None => match get_in_exec(payload, "toolInput", "command") {
            Some(c) => Some(c),
            None => json_get(payload, "command"),
        },
    };
    text_of(found)
}

/// The project: `project`, else `cwd`, as text.
pub open spec fn project_of(payload: JsonValue) -> Option<Seq<char>> {
    as_text(get_either(payload, "project"@, "cwd"@))
}

pub fn payload_project(payload: &JsonValue) -> (r: Option<String>)
    ensures
        match r {
            Some(p) => project_of(*payload) == Some(p@),
            None => project_of(*payload) is None,
        },
{
    text_of(get_either_exec(payload, "project", "cwd"))
}

/// The session: `session_id`, else `sessionId`, as text.
pub open spec fn session_of(payload: JsonValue) -> Option<Seq<char>> {
    as_text(get_either(payload, "session_id"@, "sessionId"@))
}

pub fn payload_session_id(payload: &JsonValue) -> (r: Option<String>)
    ensures
        match r {
            Some(p) => session_of(*payload) == Some(p@),
            None => session_of(*payload) is None,
        },
{
    text_of(get_either_exec(payload, "session_id", "sessionId"))
}

/// The exit code: `tool_response.exit_code`, else `exit_code`, the first present one, as
/// an integer.
pub open spec fn exit_code_of(payload: JsonValue) -> Option<i64> {
    match get_in(payload, "tool_response"@, "exit_code"@) {
        Some(c) => as_int(Some(c)),
        None => as_int(get(payload, "exit_code"@)),
    }
}

pub fn payload_exit_code(payload: &JsonValue) -> (r: Option<i64>)
    ensures
        r == exit_code_of(*payload),
{
    match get_in_exec(payload, "tool_response", "exit_code") {
        Some(c) => int_of(Some(c)),
        None => int_of(json_get(payload, "exit_code")),
    }
}


/// The run: `run_id`, else `runId`, as text.
pub open spec fn run_of(payload: JsonValue) -> Option<Seq<char>> {
    as_text(get_either(payload, "run_id"@, "runId"@))
}

/// The duration: `duration_ms`, else `durationMs`, as an integer.
pub open spec fn duration_of(payload: JsonValue) -> Option<i64> {
    as_int(get_either(payload, "duration_ms"@, "durationMs"@))
}

/// The key under which notifications of the same hook in the same session are merged:
/// `codex:<event name>:<session_id or unknown>`.
pub open spec fn dedupe_key_of(event_name: Seq<char>, payload: JsonValue) -> Seq<char> {
    "codex:"@ + event_name + ":"@ + match as_text(get(payload, "session_id"@)) {
        Some(s) => s,
        None => "unknown"@,
    }
}

/// The content of an event: the redacted command, or `<event name> received from Codex`,
/// redacted (again).
pub open spec fn content_of(event_name: Seq<char>, command: Option<Seq<char>>) -> Seq<char> {
    redact_text(match command {
        Some(c) => redact_text(c),
        None => event_name + " received from Codex"@,
    })
}

/// The event recorded for a payload, with the given kind and title, identity `id` and
/// arrival time `now`.
pub open spec fn event_fields(
    e: NoticeEvent,
    event_name: Seq<char>,
    payload: JsonValue,
    command: Option<Seq<char>>,
    event_type: NoticeEventType,
    level: NoticeLevel,
    title: Seq<char>,
    id: Seq<char>,
    now: i64,
) -> bool {
    &&& e.id@ == id
    &&& e.version == 1
    &&& e.provider == Provider::Codex
    &&& e.event_type == event_type
    &&& e.level == level
    &&& e.title@ == title
    &&& opt_view(e.command) == match command {
        Some(c) => Some(redact_text(c)),
        None => None,
    }
    &&& e.content@ == content_of(event_name, command)
    &&& opt_view(e.session_id) == session_of(payload)
    &&& opt_view(e.run_id) == run_of(payload)
    &&& opt_view(e.dedupe_key) == Some(dedupe_key_of(event_name, payload))
    &&& opt_view(e.project) == project_of(payload)
    &&& opt_view(e.cwd) == as_text(get(payload, "cwd"@))
    &&& e.exit_code == exit_code_of(payload)
    &&& e.duration_ms == duration_of(payload)
    &&& e.timestamp == now
    &&& e.received_at == now
    &&& (e.raw_payload matches Some(raw) && redacted_json(payload, raw))
}

/// Builds the event for a payload (see `event_fields`); the payload, its string values
/// and member names redacted, is kept as the raw payload of the event.
pub fn event_from_payload(
    event_name: &str,
    payload: &JsonValue,
    command: Option<String>,
    event_type: NoticeEventType,
    level: NoticeLevel,
    title: &str,
    id: String,
    now: i64,
) -> (r: NoticeEvent)
    ensures
        event_fields(r, event_name@, *payload, opt_view(command), event_type, level, title@, id@, now),
{
    let command = match command {
        Some(c) => Some(redact(c.as_str())),
        None => None,
    };
    let raw_content = match &command {
        Some(c) => c.clone(),
        None => {
            let mut s = String::from_str(event_name);
            s.append(" received from Codex");
            s
        },
    };
    let content = redact(raw_content.as_str());
    let session_id = payload_session_id(payload);
    let run_id = text_of(get_either_exec(payload, "run_id", "runId"));
    let mut dedupe = String::from_str("codex:");
    dedupe.append(event_name);
    dedupe.append(":");
    match text_of(json_get(payload, "session_id")) {
        Some(s) => dedupe.append(s.as_str()),
        None => dedupe.append("unknown"),
    }
    let project = payload_project(payload);
    let cwd = text_of(json_get(payload, "cwd"));
    let exit_code = payload_exit_code(payload);
    let duration_ms = int_of(get_either_exec(payload, "duration_ms", "durationMs"));
    let raw_payload = redact_json(payload);
    NoticeEvent {
        id,
        version: 1,
        provider: Provider::Codex,
        event_type,
        session_id,
        run_id,
        dedupe_key: Some(dedupe),
        title: String::from_str(title),
        content,
        level,
        project,
        cwd,
        command,
        exit_code,
        duration_ms,
        timestamp: now,
        received_at: now,
        raw_payload: Some(raw_payload),
    }
}

/// What handling a payload comes to.
#[derive(Debug, Clone, PartialEq, Eq)]
pub enum HookPlan {
    /// A critical command before it runs: hold it for the user's approval.
    Approval { command: String, rule: String },
    /// Routine tool activity: refresh the session, record nothing new.
    Activity,
    /// Record an event of this kind and title.
    Record { event_type: NoticeEventType, level: NoticeLevel, title: String },
}

/// The plan for a payload: a `PreToolUse` whose command the rules rate critical waits for
/// approval; `SessionStart` and `UserPromptSubmit` record a start, `PermissionRequest` a
/// confirmation request, `Stop` a finish; a `PostToolUse` that exited with a nonzero code
/// records a failure, any other `PostToolUse` and any other `PreToolUse` is activity;
/// other hooks record a warning.
pub open spec fn plan_holds(p: HookPlan, payload: JsonValue) -> bool {
    let name = event_name_of(payload);
    if name == "PreToolUse"@ && (command_of(payload) matches Some(c) && risk_level_of(c) == RiskLevel::Critical) {
        p matches HookPlan::Approval { command, rule } && Some(command@) == command_of(payload)
            && rule@ == rule_name(RiskLevel::Critical)
    } else if name == "SessionStart"@ {
        p matches HookPlan::Record { event_type, level, title } && event_type == NoticeEventType::TaskStart
            && level == NoticeLevel::Info && title@ == "Codex session started"@
    } else if name == "UserPromptSubmit"@ {
        p matches HookPlan::Record { event_type, level, title } && event_type == NoticeEventType::TaskStart
            && level == NoticeLevel::Info && title@ == "Codex task started"@
    } else if name == "PermissionRequest"@ {
        p matches HookPlan::Record { event_type, level, title } && event_type == NoticeEventType::UserConfirm
            && level == NoticeLevel::Warning && title@ == "Codex needs confirmation"@
    } else if name == "Stop"@ {
        p matches HookPlan::Record { event_type, level, title } && event_type == NoticeEventType::TaskFinish
            && level == NoticeLevel::Success && title@ == "Codex task finished"@
    } else if name == "PostToolUse"@ {
        if exit_code_of(payload) matches Some(code) && code != 0 {
            p matches HookPlan::Record { event_type, level, title } && event_type == NoticeEventType::TaskFail
                && level == NoticeLevel::Error && title@ == "Codex tool failed"@
        } else {
            p == HookPlan::Activity
        }
    } else if name == "PreToolUse"@ {
        p == HookPlan::Activity
    } else {
        p matches HookPlan::Record { event_type, level, title } && event_type == NoticeEventType::Warning
            && level == NoticeLevel::Info && title@ == "Codex event received"@
    }
}

/// Whether handling a payload by `plan` sends a Feishu notification: a held command always
/// does, activity never does, a recorded event when `notify_feishu` says so.
pub open spec fn plan_notifies(plan: HookPlan, event_name: Seq<char>, session_has_failures: bool) -> bool {
    match plan {
        HookPlan::Approval { .. } => true,
        HookPlan::Activity => false,
        HookPlan::Record { event_type, level, .. } => notify_feishu(event_name, event_type, level, session_has_failures),
    }
}

/// The notification policy: Feishu hears only of what needs the user's approval (a
/// permission request, or a command the rules rate critical before it runs) and of a
/// session that stopped without failures; tool activity, failures and every other hook
/// stay local.
pub proof fn law_feishu_policy(plan: HookPlan, payload: JsonValue, session_has_failures: bool)
    requires
        plan_holds(plan, payload),
    ensures
        plan_notifies(plan, event_name_of(payload), session_has_failures) <==> {
            let name = event_name_of(payload);
            ||| name == "PermissionRequest"@
            ||| (name == "PreToolUse"@ && (command_of(payload) matches Some(c) && risk_level_of(c) == RiskLevel::Critical))
            ||| (name == "Stop"@ && !session_has_failures)
        },
{
    reveal_strlit("PermissionRequest");
    reveal_strlit("PreToolUse");
    reveal_strlit("Stop");
    reveal_strlit("SessionStart");
    reveal_strlit("UserPromptSubmit");
    reveal_strlit("PostToolUse");
    assert("PermissionRequest"@.len() == 17 && "PreToolUse"@.len() == 10 && "Stop"@.len() == 4);
    assert("SessionStart"@.len() == 12 && "UserPromptSubmit"@.len() == 16 && "PostToolUse"@.len() == 11);
    assert("PreToolUse"@[1] != "PostToolUse"@[1]);
}

/// A permission request asks the user to confirm and is no failure: its plan records a
/// confirmation request at level warning, and once that event is stored as the latest of
/// its session, the session waits for the user (the light turns yellow), and is not
/// counted as failed.
pub proof fn law_permission_request_waits(
    plan: HookPlan,
    payload: JsonValue,
    rows: Seq<SessionRow>,
    row: SessionRow,
    cutoff: int,
)
    requires
        plan_holds(plan, payload),
        event_name_of(payload) == "PermissionRequest"@,
        plan matches HookPlan::Record { event_type, level, title } && row.event_type@ == event_type_text(event_type)
            && row.level@ == level_text(level) && row.title@ == title@,
    ensures
        plan matches HookPlan::Record { event_type, level, title } && event_type == NoticeEventType::UserConfirm
            && level == NoticeLevel::Warning && title@ == "Codex needs confirmation"@,
        class_of(snapshot_of(rows.push(row), row.session_key@), cutoff) == SessionClass::Waiting,
{
    reveal_strlit("PermissionRequest");
    reveal_strlit("PreToolUse");
    reveal_strlit("SessionStart");
    reveal_strlit("UserPromptSubmit");
    assert("SessionStart"@.len() == 12 && "UserPromptSubmit"@.len() == 16);
    reveal_strlit("USER_CONFIRM");
    reveal_strlit("TASK_FAIL");
    reveal_strlit("warning");
    reveal_strlit("error");
    assert("PermissionRequest"@.len() == 17 && "PreToolUse"@.len() == 10);
    assert("USER_CONFIRM"@.len() == 12 && "TASK_FAIL"@.len() == 9);
    assert("warning"@.len() == 7 && "error"@.len() == 5);
    reveal_strlit("Codex task finished");
    reveal_strlit("Codex needs confirmation");
    assert("Codex task finished"@.len() == 19 && "Codex needs confirmation"@.len() == 24);
    assert(rows.push(row).drop_last() =~= rows);
    assert(rows.push(row).last() == row);
}

/// What the event that a plan records does to its session once it is stored as the
/// session's latest row: a start (`SessionStart` or `UserPromptSubmit`) that arrives within
/// the activity window makes the session run; a tool that failed (`PostToolUse` with a
/// nonzero exit code) makes it fail; a finish (`Stop`) keeps a failed session failed and
/// leaves one that neither failed nor waits idle.
pub proof fn law_recorded_event_moves_session(
    plan: HookPlan,
    payload: JsonValue,
    rows: Seq<SessionRow>,
    row: SessionRow,
    cutoff: int,
)
    requires
        plan_holds(plan, payload),
        plan matches HookPlan::Record { event_type, level, title } && row.event_type@ == event_type_text(event_type)
            && row.level@ == level_text(level) && row.title@ == title@,
    ensures
        ({
            let name = event_name_of(payload);
            name == "SessionStart"@ || name == "UserPromptSubmit"@
        }) && row.received_at >= cutoff ==> class_of(snapshot_of(rows.push(row), row.session_key@), cutoff)
            == SessionClass::Active,
        event_name_of(payload) == "PostToolUse"@ ==> class_of(snapshot_of(rows.push(row), row.session_key@), cutoff)
            == SessionClass::Failed,
        event_name_of(payload) == "Stop"@ && class_of(snapshot_of(rows, row.session_key@), cutoff)
            == SessionClass::Failed ==> class_of(snapshot_of(rows.push(row), row.session_key@), cutoff)
            == SessionClass::Failed,
        event_name_of(payload) == "Stop"@ && class_of(snapshot_of(rows, row.session_key@), cutoff) != SessionClass::Failed
            && class_of(snapshot_of(rows, row.session_key@), cutoff) != SessionClass::Waiting ==> class_of(
            snapshot_of(rows.push(row), row.session_key@),
            cutoff,
        ) == SessionClass::Idle,
{
    reveal_strlit("PermissionRequest");
    reveal_strlit("PreToolUse");
    reveal_strlit("PostToolUse");
    reveal_strlit("Stop");
    reveal_strlit("SessionStart");
    reveal_strlit("UserPromptSubmit");
    assert("PermissionRequest"@.len() == 17 && "PreToolUse"@.len() == 10 && "Stop"@.len() == 4);
    assert("SessionStart"@.len() == 12 && "UserPromptSubmit"@.len() == 16 && "PostToolUse"@.len() == 11);
    assert("PreToolUse"@[1] != "PostToolUse"@[1]);
    reveal_strlit("USER_CONFIRM");
    reveal_strlit("TASK_FAIL");
    reveal_strlit("TASK_START");
    reveal_strlit("TASK_FINISH");
    reveal_strlit("info");
    reveal_strlit("success");
    reveal_strlit("error");
    assert("USER_CONFIRM"@.len() == 12 && "TASK_FAIL"@.len() == 9 && "TASK_START"@.len() == 10);
    assert("TASK_FINISH"@.len() == 11 && "info"@.len() == 4 && "success"@.len() == 7 && "error"@.len() == 5);
    reveal_strlit("Codex task finished");
    reveal_strlit("Codex session started");
    reveal_strlit("Codex task started");
    reveal_strlit("Codex tool failed");
    assert("Codex task finished"@.len() == 19 && "Codex session started"@.len() == 21);
    assert("Codex task started"@.len() == 18 && "Codex tool failed"@.len() == 17);
    assert("Codex task started"@[11] != "Codex task finished"@[11]);
    assert(rows.push(row).drop_last() =~= rows);
    assert(rows.push(row).last() == row);
}

fn record(event_type: NoticeEventType, level: NoticeLevel, title: &str) -> (r: HookPlan)
    ensures
        r matches HookPlan::Record { event_type: t, level: l, title: s } && t == event_type && l == level && s@ == title@,
{
    HookPlan::Record { event_type, level, title: String::from_str(title) }
}

/// Decides how a payload is handled (see `plan_holds`).
pub fn plan_hook(payload: &JsonValue) -> (r: HookPlan)
    ensures
        plan_holds(r, *payload),
        event_name_of(*payload) == "PermissionRequest"@ ==> (r matches HookPlan::Record { event_type, level, title }
            && event_type == NoticeEventType::UserConfirm && level == NoticeLevel::Warning
            && title@ == "Codex needs confirmation"@),
{
    proof {
        reveal_strlit("PermissionRequest");
        reveal_strlit("PreToolUse");
        reveal_strlit("SessionStart");
        reveal_strlit("UserPromptSubmit");
        assert("PermissionRequest"@.len() == 17 && "PreToolUse"@.len() == 10);
        assert("SessionStart"@.len() == 12 && "UserPromptSubmit"@.len() == 16);
    }
    let name_s = hook_event_name(payload);
    let name = chars_of(name_s.as_str());
    let command = extract_command(payload);
    if str_eq(&name, "PreToolUse") {
        if let Some(c) = command {
            let risk = classify_command(c.as_str());
            if let RiskLevel::Critical = risk.level {
                return HookPlan::Approval { command: c, rule: risk.rule };
            }
        }
    }
    if str_eq(&name, "SessionStart") {
        record(NoticeEventType::TaskStart, NoticeLevel::Info, "Codex session started")
    } else if str_eq(&name, "UserPromptSubmit") {
        record(NoticeEventType::TaskStart, NoticeLevel::Info, "Codex task started")
    } else if str_eq(&name, "PermissionRequest") {
        record(NoticeEventType::UserConfirm, NoticeLevel::Warning, "Codex needs confirmation")
    } else if str_eq(&name, "Stop") {
        record(NoticeEventType::TaskFinish, NoticeLevel::Success, "Codex task finished")
    } else if str_eq(&name, "PostToolUse") {
        let code = match payload_exit_code(payload) {
            Some(c) => c,
            None => 0,
        };
        if code == 0 {
            HookPlan::Activity
        } else {
            record(NoticeEventType::TaskFail, NoticeLevel::Error, "Codex tool failed")
        }
    } else if str_eq(&name, "PreToolUse") {
        HookPlan::Activity
    } else {
        record(NoticeEventType::Warning, NoticeLevel::Info, "Codex event received")
    }
}

/// The answer that lets Codex go on quietly.
pub fn continue_response() -> (r: HookResponse)
    ensures
        r.should_continue,
        r.stop_reason is None,
        r.suppress_output == Some(true),
{
    HookResponse { should_continue: true, stop_reason: None, suppress_output: Some(true) }
}

/// The answer to a request without the right token.
pub fn unauthorized_response() -> (r: HookResponse)
    ensures
        !r.should_continue,
        r.stop_reason matches Some(s) && s@ == "Notice token rejected"@,
        r.suppress_output == Some(true),
{
    HookResponse {
        should_continue: false,
        stop_reason: Some(String::from_str("Notice token rejected")),
        suppress_output: Some(true),
    }
}

/// The answer when handling failed: Codex goes on, and is told why.
pub fn failed_open_response(error: &str) -> (r: HookResponse)
    ensures
        r.should_continue,
        r.stop_reason matches Some(s) && s@ == "Notice failed open: "@ + error@,
        r.suppress_output == Some(false),
{
    let mut reason = String::from_str("Notice failed open: ");
    reason.append(error);
    HookResponse { should_continue: true, stop_reason: Some(reason), suppress_output: Some(false) }
}

/// A request is accepted only when its `X-Notice-Token` header equals the local token.
pub fn authorized(header: Option<&str>, token: &str) -> (r: bool)
    ensures
        r == (header matches Some(h) && h@ == token@),
{
    match header {
        Some(h) => {
            let hc = chars_of(h);
            str_eq(&hc, token)
        },
        None => false,
    }
}

/// How many times the approval status is checked before the request times out.
pub const APPROVAL_POLLS: u32 = 120;

/// How long a pending approval stays open, in seconds.
pub const APPROVAL_TIMEOUT_SECS: i64 = 30;

/// The answer for a checked approval status: go on when approved, stop when rejected, keep
/// waiting otherwise.
pub fn approval_response(status: Option<&str>) -> (r: Option<HookResponse>)
    ensures
        match status {
            Some(s) if s@ == "approved"@ => r matches Some(h) && h.should_continue && h.stop_reason is None && h.suppress_output == Some(true),
            Some(s) if s@ == "rejected"@ => r matches Some(h) && !h.should_continue && (h.stop_reason matches Some(m) && m@ == "Rejected in Notice"@) && h.suppress_output == Some(false),
            _ => r is None,
        },
{
    match status {
        Some(s) => {
            let c = chars_of(s);
            if str_eq(&c, "approved") {
                Some(continue_response())
            } else if str_eq(&c, "rejected") {
                Some(HookResponse {
                    should_continue: false,
                    stop_reason: Some(String::from_str("Rejected in Notice")),
                    suppress_output: Some(false),
                })
            } else {
                None
            }
        },
        None => None,
    }
}

/// The event recorded once a held command is answered: an answer that lets Codex go on
/// records that the task resumed; a refusal or a timeout records nothing more.
pub fn event_after_answer(response: &HookResponse) -> (r: Option<(NoticeEventType, NoticeLevel, &'static str)>)
    ensures
        response.should_continue ==> (r matches Some((t, l, title)) && t == NoticeEventType::TaskStart
            && l == NoticeLevel::Info && title@ == "Codex task resumed"@),
        !response.should_continue ==> r is None,
{
    if response.should_continue {
        Some((NoticeEventType::TaskStart, NoticeLevel::Info, "Codex task resumed"))
    } else {
        None
    }
}

/// The answer when nobody decided in time; the approval is then stored as `timed_out`.
pub fn approval_timeout_response() -> (r: HookResponse)
    ensures
        !r.should_continue,
        r.stop_reason matches Some(s) && s@ == "Notice approval timed out"@,
        r.suppress_output == Some(false),
{
    HookResponse {
        should_continue: false,
        stop_reason: Some(String::from_str("Notice approval timed out")),
        suppress_output: Some(false),
    }
}

/// Activity resumes a session when its latest event other than a finish is a confirmation
/// request.
pub fn resumes_after_approval(latest_event_type: Option<&str>) -> (r: bool)
    ensures
        r == (latest_event_type matches Some(t) && t@ == event_type_text(NoticeEventType::UserConfirm)),
{
    match latest_event_type {
        Some(t) => {
            let c = chars_of(t);
            str_eq(&c, "USER_CONFIRM")
        },
        None => false,
    }
}

/// The pending approval for a critical command: the redacted command, its project, the
/// risk level and rule, pending from `now` until `timeout_secs` later.
pub fn new_pending_approval(
    id: String,
    command: &str,
    project: Option<String>,
    risk_level: &str,
    rule: &str,
    now: i64,
    timeout_secs: i64,
) -> (r: PendingApproval)
    requires
        i64::MIN <= timeout_secs * 1_000_000_000 <= i64::MAX,
        i64::MIN <= now + timeout_secs * 1_000_000_000 <= i64::MAX,
    ensures
        r.id == id,
        r.command@ == command@,
        r.project == project,
        r.risk_level@ == risk_level@,
        r.rule@ == rule@,
        r.status@ == "pending"@,
        r.created_at == now,
        r.expires_at == now + timeout_secs * 1_000_000_000,
{
    let span = timeout_secs * 1_000_000_000;
    PendingApproval {
        id,
        command: String::from_str(command),
        project,
        risk_level: String::from_str(risk_level),
        rule: String::from_str(rule),
        status: String::from_str("pending"),
        created_at: now,
        expires_at: now + span,
    }
}

} // verus!
