//! The decisions behind the event store: how stored rows read back, which page of events
//! is fetched, how tool activity refreshes a session, and how the traffic light is derived
//! from the recent sessions. The database itself is driven by the application.
use vstd::prelude::*;
use vstd::string::*;
use crate::domain::{event_type_text, level_text, provider_text, DashboardSummary, NoticeEvent, NoticeEventType, NoticeLevel, Pagination, Provider, TrafficWidgetStatus};
use crate::json::JsonValue;
use crate::number::{int_text, push_int};
use crate::text::{chars_of, str_eq};

verus! {

/// How long a session without new events still counts as running.
pub const ACTIVE_SESSION_TTL_SECONDS: i64 = 600;

/// Nanoseconds per second.
pub const NANOS_PER_SECOND: i64 = 1_000_000_000;

/// The title of the event a `Stop` hook records.
pub open spec fn finished_title() -> Seq<char> {
    "Codex task finished"@
}

/// The value of a boolean setting: `true` exactly when stored as `"true"`, the default
/// when absent.
pub open spec fn bool_setting_value(value: Option<Seq<char>>, default_value: bool) -> bool {
    match value {
        Some(v) => v == "true"@,
        None => default_value,
    }
}

/// Reads a boolean setting from its stored text.
pub fn bool_setting(value: Option<&str>, default_value: bool) -> (r: bool)
    ensures
        r == bool_setting_value(
            match value {
                Some(v) => Some(v@),
                None => None,
            },
            default_value,
        ),
{
    match value {
        Some(v) => {
            let c = chars_of(v);
            str_eq(&c, "true")
        },
        None => default_value,
    }
}

/// The provider named by a stored column; anything but `webhook` reads as Codex.
pub open spec fn provider_from_text(s: Seq<char>) -> Provider {
    if s == "webhook"@ {
        Provider::Webhook
    } else {
        Provider::Codex
    }
}

/// The event type named by a stored column; unknown names read as `Error`.
pub open spec fn event_type_from_text(s: Seq<char>) -> NoticeEventType {
    if s == "TASK_START"@ {
        NoticeEventType::TaskStart
    } else if s == "TASK_FINISH"@ {
        NoticeEventType::TaskFinish
    } else if s == "TASK_FAIL"@ {
        NoticeEventType::TaskFail
    } else if s == "USER_CONFIRM"@ {
        NoticeEventType::UserConfirm
    } else if s == "WARNING"@ {
        NoticeEventType::Warning
    } else {
        NoticeEventType::Error
    }
}

/// The level named by a stored column; unknown names read as `Info`.
pub open spec fn level_from_text(s: Seq<char>) -> NoticeLevel {
    if s == "success"@ {
        NoticeLevel::Success
    } else if s == "warning"@ {
        NoticeLevel::Warning
    } else if s == "error"@ {
        NoticeLevel::Error
    } else {
        NoticeLevel::Info
    }
}

/// What is stored for a provider, an event type or a level reads back as the same value.
pub proof fn law_stored_names_read_back(p: Provider, t: NoticeEventType, l: NoticeLevel)
    ensures
        provider_from_text(provider_text(p)) == p,
        event_type_from_text(event_type_text(t)) == t,
        level_from_text(level_text(l)) == l,
{
    reveal_strlit("codex");
    reveal_strlit("webhook");
    reveal_strlit("TASK_START");
    reveal_strlit("TASK_FINISH");
    reveal_strlit("TASK_FAIL");
    reveal_strlit("USER_CONFIRM");
    reveal_strlit("WARNING");
    reveal_strlit("ERROR");
    reveal_strlit("info");
    reveal_strlit("success");
    reveal_strlit("warning");
    reveal_strlit("error");
    assert("codex"@.len() != "webhook"@.len());
    assert("TASK_START"@.len() == 10 && "TASK_FINISH"@.len() == 11 && "TASK_FAIL"@.len() == 9);
    assert("USER_CONFIRM"@.len() == 12 && "WARNING"@.len() == 7 && "ERROR"@.len() == 5);
    assert("info"@.len() == 4 && "success"@.len() == 7 && "warning"@.len() == 7 && "error"@.len() == 5);
    assert("success"@[0] != "warning"@[0]);
    match t {
        NoticeEventType::TaskStart => {},
        NoticeEventType::TaskFinish => {},
        NoticeEventType::TaskFail => {},
        NoticeEventType::UserConfirm => {},
        NoticeEventType::Warning => {},
        NoticeEventType::Error => {},
    }
    match l {
        NoticeLevel::Info => {},
        NoticeLevel::Success => {},
        NoticeLevel::Warning => {},
        NoticeLevel::Error => {},
    }
}

pub fn provider_from_column(s: &str) -> (r: Provider)
    ensures
        r == provider_from_text(s@),
{
    let c = chars_of(s);
    if str_eq(&c, "webhook") {
        Provider::Webhook
    } else {
        Provider::Codex
    }
}

pub fn event_type_from_column(s: &str) -> (r: NoticeEventType)
    ensures
        r == event_type_from_text(s@),
{
    let c = chars_of(s);
    if str_eq(&c, "TASK_START") {
        NoticeEventType::TaskStart
    } else if str_eq(&c, "TASK_FINISH") {
        NoticeEventType::TaskFinish
    } else if str_eq(&c, "TASK_FAIL") {
        NoticeEventType::TaskFail
    } else if str_eq(&c, "USER_CONFIRM") {
        NoticeEventType::UserConfirm
    } else if str_eq(&c, "WARNING") {
        NoticeEventType::Warning
    } else {
        NoticeEventType::Error
    }
}

pub fn level_from_column(s: &str) -> (r: NoticeLevel)
    ensures
        r == level_from_text(s@),
{
    let c = chars_of(s);
    if str_eq(&c, "success") {
        NoticeLevel::Success
    } else if str_eq(&c, "warning") {
        NoticeLevel::Warning
    } else if str_eq(&c, "error") {
        NoticeLevel::Error
    } else {
        NoticeLevel::Info
    }
}

/// One stored event as read from the database, its names still text.
#[derive(Debug)]
pub struct EventRow {
    pub id: String,
    pub version: i64,
    pub provider: String,
    pub event_type: String,
    pub session_id: Option<String>,
    pub run_id: Option<String>,
    pub dedupe_key: Option<String>,
    pub title: String,
    pub content: String,
    pub level: String,
    pub project: Option<String>,
    pub cwd: Option<String>,
    pub command: Option<String>,
    pub exit_code: Option<i64>,
    pub duration_ms: Option<i64>,
    pub timestamp: i64,
    pub received_at: i64,
    pub raw_payload: Option<JsonValue>,
}

/// `r` is the event that `row` reads back as: the names read with the `_from_text`
/// functions, every other field kept.
pub open spec fn read_back(row: EventRow, r: NoticeEvent) -> bool {
    &&& r.provider == provider_from_text(row.provider@)
    &&& r.event_type == event_type_from_text(row.event_type@)
    &&& r.level == level_from_text(row.level@)
    &&& r.id == row.id
    &&& r.version == row.version
    &&& r.session_id == row.session_id
    &&& r.run_id == row.run_id
    &&& r.dedupe_key == row.dedupe_key
    &&& r.title == row.title
    &&& r.content == row.content
    &&& r.project == row.project
    &&& r.cwd == row.cwd
    &&& r.command == row.command
    &&& r.exit_code == row.exit_code
    &&& r.duration_ms == row.duration_ms
    &&& r.timestamp == row.timestamp
    &&& r.received_at == row.received_at
    &&& r.raw_payload == row.raw_payload
}

/// `row` is what is stored for `e`: the names as their stored text, every other field kept.
pub open spec fn stored_row(e: NoticeEvent, row: EventRow) -> bool {
    &&& row.provider@ == provider_text(e.provider)
    &&& row.event_type@ == event_type_text(e.event_type)
    &&& row.level@ == level_text(e.level)
    &&& row.id == e.id
    &&& row.version == e.version
    &&& row.session_id == e.session_id
    &&& row.run_id == e.run_id
    &&& row.dedupe_key == e.dedupe_key
    &&& row.title == e.title
    &&& row.content == e.content
    &&& row.project == e.project
    &&& row.cwd == e.cwd
    &&& row.command == e.command
    &&& row.exit_code == e.exit_code
    &&& row.duration_ms == e.duration_ms
    &&& row.timestamp == e.timestamp
    &&& row.received_at == e.received_at
    &&& row.raw_payload == e.raw_payload
}

/// The row stored for an event (see `stored_row`).
pub fn event_to_row(e: NoticeEvent) -> (row: EventRow)
    ensures
        stored_row(e, row),
{
    let provider = String::from_str(e.provider.as_str());
    let event_type = String::from_str(e.event_type.as_str());
    let level = String::from_str(e.level.as_str());
    EventRow {
        id: e.id,
        version: e.version,
        provider,
        event_type,
        session_id: e.session_id,
        run_id: e.run_id,
        dedupe_key: e.dedupe_key,
        title: e.title,
        content: e.content,
        level,
        project: e.project,
        cwd: e.cwd,
        command: e.command,
        exit_code: e.exit_code,
        duration_ms: e.duration_ms,
        timestamp: e.timestamp,
        received_at: e.received_at,
        raw_payload: e.raw_payload,
    }
}

/// Turns a stored row back into an event (see `read_back`).
pub fn row_to_event(row: EventRow) -> (r: NoticeEvent)
    ensures
        read_back(row, r),
{
    let provider = provider_from_column(row.provider.as_str());
    let event_type = event_type_from_column(row.event_type.as_str());
    let level = level_from_column(row.level.as_str());
    NoticeEvent {
        id: row.id,
        version: row.version,
        provider,
        event_type,
        session_id: row.session_id,
        run_id: row.run_id,
        dedupe_key: row.dedupe_key,
        title: row.title,
        content: row.content,
        level,
        project: row.project,
        cwd: row.cwd,
        command: row.command,
        exit_code: row.exit_code,
        duration_ms: row.duration_ms,
        timestamp: row.timestamp,
        received_at: row.received_at,
        raw_payload: row.raw_payload,
    }
}

/// An event stored and read back is the same event, in every field.
pub proof fn law_event_row_round_trip(e: NoticeEvent, row: EventRow, back: NoticeEvent)
    requires
        stored_row(e, row),
        read_back(row, back),
    ensures
        back == e,
{
    law_stored_names_read_back(e.provider, e.event_type, e.level);
}

pub open spec fn max_int(a: int, b: int) -> int {
    if a >= b { a } else { b }
}

pub open spec fn clamp_int(v: int, lo: int, hi: int) -> int {
    if v < lo { lo } else if v > hi { hi } else { v }
}

/// The number of events fetched for a page: the page size clamped to `1..=500`.
pub open spec fn page_limit(p: Pagination) -> int {
    clamp_int(p.page_size as int, 1, 500)
}

/// The number of events skipped: pages before this one (counting from page 1) times the
/// page size (at least 1), and never negative.
pub open spec fn page_offset(p: Pagination) -> int {
    max_int((max_int(p.page as int, 1) - 1) * max_int(p.page_size as int, 1), 0)
}

/// The limit and offset of the query for a page. The offset must fit an `i64`.
pub fn page_window(p: Pagination) -> (r: (i64, i64))
    requires
        (max_int(p.page as int, 1) - 1) * max_int(p.page_size as int, 1) <= i64::MAX,
    ensures
        r.0 == page_limit(p),
        r.1 == page_offset(p),
{
    let limit = if p.page_size < 1 {
        1
    } else if p.page_size > 500 {
        500
    } else {
        p.page_size
    };
    let page = if p.page >= 1 { p.page } else { 1 };
    let size = if p.page_size >= 1 { p.page_size } else { 1 };
    let pages_before = page - 1;
    assert(0 <= pages_before * size <= i64::MAX) by (nonlinear_arith)
        requires
            pages_before >= 0,
            size >= 1,
            pages_before * size <= i64::MAX,
    ;
    let offset = pages_before * size;
    (limit, offset)
}

/// The `LIKE` pattern of a search: the text between `%` signs; no pattern for an absent or
/// empty search.
pub fn search_pattern(search: Option<&str>) -> (r: Option<String>)
    ensures
        match search {
            Some(s) if s@.len() > 0 => r matches Some(p) && p@ == seq!['%'] + s@ + seq!['%'],
            _ => r is None,
        },
{
    match search {
        Some(s) => {
            if s.is_empty() {
                None
            } else {
                let mut p = String::new();
                crate::text::push_char(&mut p, '%');
                p.append(s);
                crate::text::push_char(&mut p, '%');
                assert(p@ =~= seq!['%'] + s@ + seq!['%']);
                Some(p)
            }
        },
        None => None,
    }
}

/// How tool activity is recorded for a session.
#[derive(Debug, Clone, PartialEq, Eq)]
pub enum TouchAction {
    /// Store the activity as a new event.
    Insert,
    /// Move the stored event with this id to the current time.
    Refresh(String),
}

/// Activity without a session, in a session without earlier events, or after a failure or
/// a confirmation request is stored as a new event; otherwise the session's latest event
/// (other than a finish) is moved to the current time.
pub fn touch_action(session_id: Option<&str>, latest: Option<(String, String)>) -> (r: TouchAction)
    ensures
        match (session_id, latest) {
            (Some(_), Some((id, t))) => if t@ == "TASK_FAIL"@ || t@ == "USER_CONFIRM"@ {
                r == TouchAction::Insert
            } else {
                r == TouchAction::Refresh(id)
            },
            _ => r == TouchAction::Insert,
        },
{
    match session_id {
        None => TouchAction::Insert,
        Some(_) => match latest {
            None => TouchAction::Insert,
            Some((id, event_type)) => {
                let t = chars_of(event_type.as_str());
                if str_eq(&t, "TASK_FAIL") || str_eq(&t, "USER_CONFIRM") {
                    TouchAction::Insert
                } else {
                    TouchAction::Refresh(id)
                }
            },
        },
    }
}

/// The start of the UTC day holding `now` (nanoseconds since the epoch).
pub open spec fn day_start(now: int) -> int {
    now - now % 86_400_000_000_000
}

/// The first instant counted in today's dashboard numbers; the day must start within the
/// `i64` range.
pub fn dashboard_since(now: i64) -> (r: i64)
    requires
        now >= i64::MIN + 86_400_000_000_000,
    ensures
        r == day_start(now as int),
{
    let day: i64 = 86_400_000_000_000;
    let rem = now % day;
    if rem < 0 {
        assert(now as int % 86_400_000_000_000 == rem + day);
        now - rem - day
    } else {
        assert(now as int % 86_400_000_000_000 == rem);
        now - rem
    }
}

/// The dashboard summary built from today's counts and the latest event's content.
pub fn dashboard_summary(total: i64, success: i64, failure: i64, confirmations: i64, recent_summary: Option<String>) -> (r: DashboardSummary)
    ensures
        r.service_status@ == "running"@,
        r.today_total == total,
        r.today_success == success,
        r.today_failure == failure,
        r.today_confirmations == confirmations,
        r.recent_summary == recent_summary,
{
    DashboardSummary {
        service_status: String::from_str("running"),
        today_total: total,
        today_success: success,
        today_failure: failure,
        today_confirmations: confirmations,
        recent_summary,
    }
}


/// A recent event as the session counting reads it, `session_key` being the session id
/// or, for events without one, the event id.
#[derive(Debug, Clone)]
pub struct SessionRow {
    pub session_key: String,
    pub title: String,
    pub event_type: String,
    pub level: String,
    pub received_at: i64,
}

/// The latest state of one session: the latest title, the type and level of the latest
/// event that is not a finish, and when the latest event arrived.
pub type SnapshotView = (Seq<char>, Seq<char>, Seq<char>, Option<i64>);

/// The snapshot of session `key` after the events `rows`, taken in order.
pub open spec fn snapshot_of(rows: Seq<SessionRow>, key: Seq<char>) -> SnapshotView
    decreases rows.len(),
{
    if rows.len() == 0 {
        (seq![], seq![], seq![], None)
    } else {
        let prev = snapshot_of(rows.drop_last(), key);
        let r = rows.last();
        if r.session_key@ != key {
            prev
        } else if r.title@ != finished_title() {
            (r.title@, r.event_type@, r.level@, Some(r.received_at))
        } else {
            (r.title@, prev.1, prev.2, Some(r.received_at))
        }
    }
}

/// The sessions of `rows`, each once, in order of first appearance.
pub open spec fn distinct_keys(rows: Seq<SessionRow>) -> Seq<Seq<char>>
    decreases rows.len(),
{
    if rows.len() == 0 {
        seq![]
    } else {
        let ks = distinct_keys(rows.drop_last());
        if ks.contains(rows.last().session_key@) {
            ks
        } else {
            ks.push(rows.last().session_key@)
        }
    }
}

/// The state the traffic light gives a session.
#[derive(Debug, Clone, Copy, PartialEq, Eq, Structural)]
pub enum SessionClass {
    Failed,
    Waiting,
    Active,
    Idle,
}

/// A session failed when its latest non-finish event is a failure or an error; it waits
/// when that event is a confirmation request; it is active when its latest event is not a
/// finish and arrived at or after `cutoff`.
pub open spec fn class_of(s: SnapshotView, cutoff: int) -> SessionClass {
    if s.1 == "TASK_FAIL"@ || s.2 == "error"@ {
        SessionClass::Failed
    } else if s.1 == "USER_CONFIRM"@ {
        SessionClass::Waiting
    } else if s.0 != finished_title() && (s.3 matches Some(t) && t >= cutoff) {
        SessionClass::Active
    } else {
        SessionClass::Idle
    }
}

/// The number of sessions among `keys` in class `c`.
pub open spec fn count_class(keys: Seq<Seq<char>>, rows: Seq<SessionRow>, cutoff: int, c: SessionClass) -> nat
    decreases keys.len(),
{
    if keys.len() == 0 {
        0
    } else {
        count_class(keys.drop_last(), rows, cutoff, c) + if class_of(snapshot_of(rows, keys.last()), cutoff) == c {
            1nat
        } else {
            0nat
        }
    }
}

/// The number of sessions of `rows` in class `c` at time `now`.
pub open spec fn sessions_in(rows: Seq<SessionRow>, now: int, c: SessionClass) -> nat {
    count_class(distinct_keys(rows), rows, now - ACTIVE_SESSION_TTL_SECONDS * NANOS_PER_SECOND, c)
}

/// An event changes the snapshot of its own session only.
pub proof fn law_other_sessions_unchanged(rows: Seq<SessionRow>, row: SessionRow, key: Seq<char>)
    requires
        row.session_key@ != key,
    ensures
        snapshot_of(rows.push(row), key) == snapshot_of(rows, key),
{
    assert(rows.push(row).drop_last() =~= rows);
}

/// A finish does not clear a failure: a failed session stays failed until new work arrives.
pub proof fn law_finish_keeps_failure(rows: Seq<SessionRow>, finish: SessionRow, cutoff: int)
    requires
        finish.title@ == finished_title(),
        class_of(snapshot_of(rows, finish.session_key@), cutoff) == SessionClass::Failed,
    ensures
        class_of(snapshot_of(rows.push(finish), finish.session_key@), cutoff) == SessionClass::Failed,
{
    assert(rows.push(finish).drop_last() =~= rows);
}

/// New work in a session (an event that is neither a finish, a failure, an error nor a
/// confirmation request) arriving within the activity window makes it run again, whatever
/// came before.
pub proof fn law_new_work_runs(rows: Seq<SessionRow>, work: SessionRow, cutoff: int)
    requires
        work.title@ != finished_title(),
        work.event_type@ != "TASK_FAIL"@,
        work.event_type@ != "USER_CONFIRM"@,
        work.level@ != "error"@,
        work.received_at >= cutoff,
    ensures
        class_of(snapshot_of(rows.push(work), work.session_key@), cutoff) == SessionClass::Active,
{
    assert(rows.push(work).drop_last() =~= rows);
}

/// A finish of a session that neither failed nor waits leaves it idle: it no longer runs.
pub proof fn law_finish_completes(rows: Seq<SessionRow>, finish: SessionRow, cutoff: int)
    requires
        finish.title@ == finished_title(),
        class_of(snapshot_of(rows, finish.session_key@), cutoff) != SessionClass::Failed,
        class_of(snapshot_of(rows, finish.session_key@), cutoff) != SessionClass::Waiting,
    ensures
        class_of(snapshot_of(rows.push(finish), finish.session_key@), cutoff) == SessionClass::Idle,
{
    assert(rows.push(finish).drop_last() =~= rows);
}

/// A session whose latest event arrived before the activity window does not run.
pub proof fn law_stale_session_not_running(rows: Seq<SessionRow>, key: Seq<char>, cutoff: int)
    requires
        snapshot_of(rows, key).3 matches Some(t) && t < cutoff,
    ensures
        class_of(snapshot_of(rows, key), cutoff) != SessionClass::Active,
{
}

/// How many recent sessions failed, wait, or run.
#[derive(Debug, Clone, Copy)]
pub struct SessionStateCounts {
    pub failed: i64,
    pub waiting: i64,
    pub active: usize,
}

struct SessionSnapshot {
    key: String,
    latest_title: String,
    latest_non_stop_event_type: String,
    latest_non_stop_level: String,
    latest_received_at: Option<i64>,
}

spec fn snap_view(s: SessionSnapshot) -> SnapshotView {
    (s.latest_title@, s.latest_non_stop_event_type@, s.latest_non_stop_level@, s.latest_received_at)
}

proof fn lemma_distinct_keys(rows: Seq<SessionRow>)
    ensures
        forall|i: int, j: int|
            0 <= i < j < distinct_keys(rows).len() ==> distinct_keys(rows)[i] != distinct_keys(rows)[j],
        forall|k: Seq<char>| !distinct_keys(rows).contains(k) ==> snapshot_of(rows, k) == (Seq::<char>::empty(), Seq::<char>::empty(), Seq::<char>::empty(), None::<i64>),
        distinct_keys(rows).len() <= rows.len(),
    decreases rows.len(),
{
    if rows.len() > 0 {
        lemma_distinct_keys(rows.drop_last());
        let ks = distinct_keys(rows.drop_last());
        assert forall|k: Seq<char>| !distinct_keys(rows).contains(k) implies snapshot_of(rows, k) == (Seq::<char>::empty(), Seq::<char>::empty(), Seq::<char>::empty(), None::<i64>) by {
            if ks.contains(k) {
                let w = choose|w: int| 0 <= w < ks.len() && ks[w] == k;
                assert(distinct_keys(rows)[w] == k);
                assert(false);
            }
            if rows.last().session_key@ == k {
                if !ks.contains(k) {
                    assert(distinct_keys(rows)[distinct_keys(rows).len() - 1] == k);
                }
                assert(false);
            }
            assert(!ks.contains(k));
            assert(snapshot_of(rows.drop_last(), k) == (Seq::<char>::empty(), Seq::<char>::empty(), Seq::<char>::empty(), None::<i64>));
        }
    }
}

proof fn lemma_count_push(keys: Seq<Seq<char>>, rows: Seq<SessionRow>, cutoff: int, c: SessionClass, k: Seq<char>)
    ensures
        count_class(keys.push(k), rows, cutoff, c) == count_class(keys, rows, cutoff, c) + if class_of(snapshot_of(rows, k), cutoff) == c { 1nat } else { 0nat },
{
    assert(keys.push(k).drop_last() =~= keys);
}

proof fn lemma_count_le(keys: Seq<Seq<char>>, rows: Seq<SessionRow>, cutoff: int, c: SessionClass)
    ensures
        count_class(keys, rows, cutoff, c) <= keys.len(),
    decreases keys.len(),
{
    if keys.len() > 0 {
        lemma_count_le(keys.drop_last(), rows, cutoff, c);
    }
}

fn classify_snapshot(s: &SessionSnapshot, cutoff: i64) -> (r: SessionClass)
    ensures
        r == class_of(snap_view(*s), cutoff as int),
{
    let t = chars_of(s.latest_non_stop_event_type.as_str());
    let l = chars_of(s.latest_non_stop_level.as_str());
    let title = chars_of(s.latest_title.as_str());
    if str_eq(&t, "TASK_FAIL") || str_eq(&l, "error") {
        SessionClass::Failed
    } else if str_eq(&t, "USER_CONFIRM") {
        SessionClass::Waiting
    } else if !str_eq(&title, "Codex task finished") && match s.latest_received_at {
        Some(at) => at >= cutoff,
        None => false,
    } {
        SessionClass::Active
    } else {
        SessionClass::Idle
    }
}

fn is_finished_title(t: &String) -> (r: bool)
    ensures
        r == (t@ == finished_title()),
{
    let c = chars_of(t.as_str());
    str_eq(&c, "Codex task finished")
}

/// The window of recent events the session counting reads: the 30 minutes before `now`.
pub fn session_window_start(now: i64) -> (r: i64)
    requires
        now >= i64::MIN + 1_800_000_000_000,
    ensures
        r == now - 1_800_000_000_000,
{
    now - 1_800_000_000_000
}

/// Counts the sessions of the recent events `rows` (oldest first) that failed, wait for a
/// confirmation, or run (see `class_of`); a session is active only if its latest event
/// arrived within `ACTIVE_SESSION_TTL_SECONDS` of `now`.
pub fn session_state_counts(rows: &Vec<SessionRow>, now: i64) -> (r: SessionStateCounts)
    requires
        now >= i64::MIN + ACTIVE_SESSION_TTL_SECONDS * NANOS_PER_SECOND,
        rows.len() <= i64::MAX,
    ensures
        r.failed == sessions_in(rows@, now as int, SessionClass::Failed),
        r.waiting == sessions_in(rows@, now as int, SessionClass::Waiting),
        r.active == sessions_in(rows@, now as int, SessionClass::Active),
{
    let mut snaps: Vec<SessionSnapshot> = Vec::new();
    let mut i: usize = 0;
    while i < rows.len()
        invariant
            i <= rows.len(),
            snaps.len() == distinct_keys(rows@.subrange(0, i as int)).len(),
            forall|j: int| 0 <= j < snaps.len() ==> (#[trigger] snaps@[j]).key@ == distinct_keys(rows@.subrange(0, i as int))[j]
                && snap_view(snaps@[j]) == snapshot_of(rows@.subrange(0, i as int), snaps@[j].key@),
        decreases rows.len() - i,
    {
        let ghost pre = rows@.subrange(0, i as int);
        let ghost post = rows@.subrange(0, i + 1);
        assert(post.drop_last() =~= pre);
        assert(post.last() == rows@[i as int]);
        proof {
            lemma_distinct_keys(pre);
        }
        let row = &rows[i];
        let mut p: usize = 0;
        while p < snaps.len() && !(snaps[p].key == row.session_key)
            invariant
                p <= snaps.len(),
                forall|q: int| 0 <= q < p ==> snaps@[q].key@ != row.session_key@,
            decreases snaps.len() - p,
        {
            p = p + 1;
        }
        let finished = is_finished_title(&row.title);
        if p < snaps.len() {
            let ghost k = row.session_key@;
            assert(distinct_keys(pre)[p as int] == k);
            assert(distinct_keys(pre).contains(k));
            assert(distinct_keys(post) == distinct_keys(pre));
            let snap = if finished {
                SessionSnapshot {
                    key: row.session_key.clone(),
                    latest_title: row.title.clone(),
                    latest_non_stop_event_type: snaps[p].latest_non_stop_event_type.clone(),
                    latest_non_stop_level: snaps[p].latest_non_stop_level.clone(),
                    latest_received_at: Some(row.received_at),
                }
            } else {
                SessionSnapshot {
                    key: row.session_key.clone(),
                    latest_title: row.title.clone(),
                    latest_non_stop_event_type: row.event_type.clone(),
                    latest_non_stop_level: row.level.clone(),
                    latest_received_at: Some(row.received_at),
                }
            };
            snaps.set(p, snap);
            assert forall|j: int| 0 <= j < snaps.len() implies (#[trigger] snaps@[j]).key@ == distinct_keys(post)[j]
                && snap_view(snaps@[j]) == snapshot_of(post, snaps@[j].key@) by {
                if j != p {
                    assert(distinct_keys(pre)[j] != distinct_keys(pre)[p as int]);
                }
            }
        } else {
            let ghost k = row.session_key@;
            assert(!distinct_keys(pre).contains(k)) by {
                if distinct_keys(pre).contains(k) {
                    let w = choose|w: int| 0 <= w < distinct_keys(pre).len() && distinct_keys(pre)[w] == k;
                    assert(snaps@[w].key@ == k);
                }
            }
            assert(distinct_keys(post) == distinct_keys(pre).push(k));
            let snap = SessionSnapshot {
                key: row.session_key.clone(),
                latest_title: row.title.clone(),
                latest_non_stop_event_type: if finished { String::new() } else { row.event_type.clone() },
                latest_non_stop_level: if finished { String::new() } else { row.level.clone() },
                latest_received_at: Some(row.received_at),
            };
            snaps.push(snap);
            assert forall|j: int| 0 <= j < snaps.len() implies (#[trigger] snaps@[j]).key@ == distinct_keys(post)[j]
                && snap_view(snaps@[j]) == snapshot_of(post, snaps@[j].key@) by {
                if j < snaps.len() - 1 {
                    assert(distinct_keys(pre).contains(distinct_keys(pre)[j]));
                    assert(distinct_keys(pre)[j] != k);
                    assert(snapshot_of(post, distinct_keys(pre)[j]) == snapshot_of(pre, distinct_keys(pre)[j]));
                } else {
                    assert(snapshot_of(pre, k) == (Seq::<char>::empty(), Seq::<char>::empty(), Seq::<char>::empty(), None::<i64>));
                }
            }
        }
        i = i + 1;
    }
    let ghost all = rows@.subrange(0, rows.len() as int);
    assert(all =~= rows@);
    proof {
        lemma_distinct_keys(rows@);
    }
    let cutoff = now - ACTIVE_SESSION_TTL_SECONDS * NANOS_PER_SECOND;
    let ghost keys = distinct_keys(rows@);
    let mut failed: i64 = 0;
    let mut waiting: i64 = 0;
    let mut active: usize = 0;
    let mut j: usize = 0;
    while j < snaps.len()
        invariant
            j <= snaps.len(),
            snaps.len() == keys.len(),
            keys == distinct_keys(rows@),
            forall|q: int| 0 <= q < snaps.len() ==> (#[trigger] snaps@[q]).key@ == keys[q]
                && snap_view(snaps@[q]) == snapshot_of(rows@, snaps@[q].key@),
            failed == count_class(keys.subrange(0, j as int), rows@, cutoff as int, SessionClass::Failed),
            waiting == count_class(keys.subrange(0, j as int), rows@, cutoff as int, SessionClass::Waiting),
            active == count_class(keys.subrange(0, j as int), rows@, cutoff as int, SessionClass::Active),
            snaps.len() <= i64::MAX,
        decreases snaps.len() - j,
    {
        proof {
            assert(keys.subrange(0, j + 1) =~= keys.subrange(0, j as int).push(keys[j as int]));
            lemma_count_push(keys.subrange(0, j as int), rows@, cutoff as int, SessionClass::Failed, keys[j as int]);
            lemma_count_push(keys.subrange(0, j as int), rows@, cutoff as int, SessionClass::Waiting, keys[j as int]);
            lemma_count_push(keys.subrange(0, j as int), rows@, cutoff as int, SessionClass::Active, keys[j as int]);
            lemma_count_le(keys.subrange(0, j as int), rows@, cutoff as int, SessionClass::Failed);
            lemma_count_le(keys.subrange(0, j as int), rows@, cutoff as int, SessionClass::Waiting);
            lemma_count_le(keys.subrange(0, j as int), rows@, cutoff as int, SessionClass::Active);
        }
        let c = classify_snapshot(&snaps[j], cutoff);
        match c {
            SessionClass::Failed => {
                failed = failed + 1;
            },
            SessionClass::Waiting => {
                waiting = waiting + 1;
            },
            SessionClass::Active => {
                active = active + 1;
            },
            SessionClass::Idle => {},
        }
        j = j + 1;
    }
    assert(keys.subrange(0, snaps.len() as int) =~= keys);
    SessionStateCounts { failed, waiting, active }
}


/// The color, label and detail of the traffic light: red when a session failed, yellow
/// when approvals or confirmations are pending, running when a session is active, green
/// otherwise ("Complete" after a finish was the latest event, "Ready" before).
pub open spec fn traffic_light(failed: int, waiting: int, active: int, complete: bool) -> (Seq<char>, Seq<char>, Seq<char>) {
    if failed > 0 {
        ("red"@, "Needs attention"@, int_text(failed) + " Codex session(s) failed"@)
    } else if waiting > 0 {
        ("yellow"@, "Waiting"@, int_text(waiting) + " approval(s) pending"@)
    } else if active > 0 {
        ("running"@, "Running"@, int_text(active) + " Codex session(s) running"@)
    } else if complete {
        ("green"@, "Complete"@, "All tracked Codex tasks are complete"@)
    } else {
        ("green"@, "Ready"@, "Notice is watching for Codex activity"@)
    }
}

/// The light's order of priority: red exactly when a session failed; with none failed,
/// yellow ("Waiting", with the number waiting) whenever an approval or a session waits,
/// however many sessions run; running exactly when none failed or waits and one is
/// active; green exactly when none failed, waits or runs.
pub proof fn law_light_priority(failed: int, waiting: int, active: int, complete: bool)
    ensures
        (traffic_light(failed, waiting, active, complete).0 == "red"@) == (failed > 0),
        failed <= 0 && waiting > 0 ==> traffic_light(failed, waiting, active, complete) == (
            "yellow"@,
            "Waiting"@,
            int_text(waiting) + " approval(s) pending"@,
        ),
        (traffic_light(failed, waiting, active, complete).0 == "yellow"@) == (failed <= 0 && waiting > 0),
        (traffic_light(failed, waiting, active, complete).0 == "running"@) == (failed <= 0 && waiting <= 0
            && active > 0),
        (traffic_light(failed, waiting, active, complete).0 == "green"@) == (failed <= 0 && waiting <= 0
            && active <= 0),
{
    reveal_strlit("red");
    reveal_strlit("yellow");
    reveal_strlit("running");
    reveal_strlit("green");
    assert("red"@.len() == 3 && "yellow"@.len() == 6 && "running"@.len() == 7 && "green"@.len() == 5);
}

/// The widget status from its two settings, the number of pending approvals, the title of
/// the latest event and the session counts. Pending approvals and waiting sessions are
/// added; the latest title is reported only when it is a finish.
pub fn traffic_widget_status(
    enabled: bool,
    always_on_top: bool,
    pending_approvals: i64,
    latest_title: Option<String>,
    counts: SessionStateCounts,
) -> (r: TrafficWidgetStatus)
    requires
        i64::MIN <= pending_approvals + counts.waiting <= i64::MAX,
        counts.active <= i64::MAX,
    ensures
        r.enabled == enabled,
        r.always_on_top == always_on_top,
        r.pending_approvals == pending_approvals + counts.waiting,
        r.today_failures == counts.failed,
        r.active_sessions == counts.active as i64,
        match latest_title {
            Some(t) if t@ == finished_title() => r.latest_event_title == Some(t),
            _ => r.latest_event_title is None,
        },
        (r.color@, r.label@, r.detail@) == traffic_light(
            counts.failed as int,
            pending_approvals + counts.waiting,
            counts.active as int,
            r.latest_event_title is Some,
        ),
        r.manual_override is None,
        (r.color@ == "red"@) == (counts.failed > 0),
        counts.failed <= 0 && pending_approvals + counts.waiting > 0 ==> r.color@ == "yellow"@
            && r.label@ == "Waiting"@,
        r.color@ == "running"@ ==> counts.failed <= 0 && pending_approvals + counts.waiting <= 0
            && counts.active > 0,
{
    let latest_event_title = match latest_title {
        Some(t) => if is_finished_title(&t) {
            Some(t)
        } else {
            None
        },
        None => None,
    };
    let waiting = pending_approvals + counts.waiting;
    let failed = counts.failed;
    let active = counts.active as i64;
    let mut detail = String::new();
    let (color, label) = if failed > 0 {
        push_int(&mut detail, failed);
        detail.append(" Codex session(s) failed");
        ("red", "Needs attention")
    } else if waiting > 0 {
        push_int(&mut detail, waiting);
        detail.append(" approval(s) pending");
        ("yellow", "Waiting")
    } else if active > 0 {
        push_int(&mut detail, active);
        detail.append(" Codex session(s) running");
        ("running", "Running")
    } else if latest_event_title.is_some() {
        detail.append("All tracked Codex tasks are complete");
        ("green", "Complete")
    } else {
        detail.append("Notice is watching for Codex activity");
        ("green", "Ready")
    };
    proof {
        law_light_priority(failed as int, waiting as int, active as int, latest_event_title is Some);
    }
    TrafficWidgetStatus {
        enabled,
        always_on_top,
        color: String::from_str(color),
        label: String::from_str(label),
        detail,
        active_sessions: active,
        pending_approvals: waiting,
        today_failures: failed,
        latest_event_title,
        manual_override: None,
    }
}

} // verus!
