//! The event model and the records the other modules exchange.
//!
//! Points in time are `i64` nanoseconds since the Unix epoch (UTC).
use vstd::prelude::*;
use crate::json::JsonValue;

verus! {

/// Where an event came from.
#[derive(Debug, Clone, Copy, PartialEq, Eq, Structural)]
pub enum Provider {
    Codex,
    Webhook,
}

pub open spec fn provider_text(p: Provider) -> Seq<char> {
    match p {
        Provider::Codex => "codex"@,
        Provider::Webhook => "webhook"@,
    }
}

impl Provider {
    /// The stored name of the provider.
    pub fn as_str(&self) -> (r: &'static str)
        ensures
            r@ == provider_text(*self),
    {
        match self {
            Provider::Codex => "codex",
            Provider::Webhook => "webhook",
        }
    }
}

/// What happened.
#[derive(Debug, Clone, Copy, PartialEq, Eq, Structural)]
pub enum NoticeEventType {
    TaskStart,
    TaskFinish,
    TaskFail,
    UserConfirm,
    Warning,
    Error,
}

pub open spec fn event_type_text(t: NoticeEventType) -> Seq<char> {
    match t {
        NoticeEventType::TaskStart => "TASK_START"@,
        NoticeEventType::TaskFinish => "TASK_FINISH"@,
        NoticeEventType::TaskFail => "TASK_FAIL"@,
        NoticeEventType::UserConfirm => "USER_CONFIRM"@,
        NoticeEventType::Warning => "WARNING"@,
        NoticeEventType::Error => "ERROR"@,
    }
}

impl NoticeEventType {
    /// The stored name of the event type.
    pub fn as_str(&self) -> (r: &'static str)
        ensures
            r@ == event_type_text(*self),
    {
        match self {
            NoticeEventType::TaskStart => "TASK_START",
            NoticeEventType::TaskFinish => "TASK_FINISH",
            NoticeEventType::TaskFail => "TASK_FAIL",
            NoticeEventType::UserConfirm => "USER_CONFIRM",
            NoticeEventType::Warning => "WARNING",
            NoticeEventType::Error => "ERROR",
        }
    }
}

/// How an event is shown.
#[derive(Debug, Clone, Copy, PartialEq, Eq, Structural)]
pub enum NoticeLevel {
    Info,
    Success,
    Warning,
    Error,
}

pub open spec fn level_text(l: NoticeLevel) -> Seq<char> {
    match l {
        NoticeLevel::Info => "info"@,
        NoticeLevel::Success => "success"@,
        NoticeLevel::Warning => "warning"@,
        NoticeLevel::Error => "error"@,
    }
}

impl NoticeLevel {
    /// The stored name of the level.
    pub fn as_str(&self) -> (r: &'static str)
        ensures
            r@ == level_text(*self),
    {
        match self {
            NoticeLevel::Info => "info",
            NoticeLevel::Success => "success",
            NoticeLevel::Warning => "warning",
            NoticeLevel::Error => "error",
        }
    }
}

/// One recorded event.
#[derive(Debug)]
pub struct NoticeEvent {
    pub id: String,
    pub version: i64,
    pub provider: Provider,
    pub event_type: NoticeEventType,
    pub session_id: Option<String>,
    pub run_id: Option<String>,
    pub dedupe_key: Option<String>,
    pub title: String,
    pub content: String,
    pub level: NoticeLevel,
    pub project: Option<String>,
    pub cwd: Option<String>,
    pub command: Option<String>,
    pub exit_code: Option<i64>,
    pub duration_ms: Option<i64>,
    pub timestamp: i64,
    pub received_at: i64,
    pub raw_payload: Option<JsonValue>,
}

/// Today's counts for the dashboard.
#[derive(Debug, Clone)]
pub struct DashboardSummary {
    pub service_status: String,
    pub today_total: i64,
    pub today_success: i64,
    pub today_failure: i64,
    pub today_confirmations: i64,
    pub recent_summary: Option<String>,
}

/// The filter of the event list.
#[derive(Debug, Clone)]
pub struct EventFilter {
    pub search: Option<String>,
    pub level: Option<String>,
    pub project: Option<String>,
}

/// The page of the event list.
#[derive(Debug, Clone, Copy)]
pub struct Pagination {
    pub page: i64,
    pub page_size: i64,
}

/// The notification channel as the settings page shows it.
#[derive(Debug, Clone)]
pub struct ChannelConfig {
    pub webhook_masked: Option<String>,
    pub has_webhook: bool,
    pub has_sign_secret: bool,
    pub enabled: bool,
    pub last_status: Option<String>,
}

/// Whether the Codex hooks are installed.
#[derive(Debug, Clone)]
pub struct HookStatus {
    pub installed: bool,
    pub config_path: String,
    pub managed_block_hash: Option<String>,
    pub backup_path: Option<String>,
    pub message: String,
}

/// What installing the hooks would write.
#[derive(Debug, Clone)]
pub struct HookPreview {
    pub config_path: String,
    pub will_create_config: bool,
    pub preview: String,
}

/// A risky command waiting for the user's decision.
#[derive(Debug, Clone)]
pub struct PendingApproval {
    pub id: String,
    pub command: String,
    pub project: Option<String>,
    pub risk_level: String,
    pub rule: String,
    pub status: String,
    pub created_at: i64,
    pub expires_at: i64,
}

/// What the traffic-light widget shows.
#[derive(Debug, Clone)]
pub struct TrafficWidgetStatus {
    pub enabled: bool,
    pub always_on_top: bool,
    pub color: String,
    pub label: String,
    pub detail: String,
    pub active_sessions: i64,
    pub pending_approvals: i64,
    pub today_failures: i64,
    pub latest_event_title: Option<String>,
    pub manual_override: Option<String>,
}

/// Settings of the desk pet that mirrors the widget.
#[derive(Debug, Clone)]
pub struct PetConfig {
    pub enabled: bool,
    pub base_url: Option<String>,
    pub last_status: Option<String>,
}

/// Settings of the voice input device.
#[derive(Debug, Clone)]
pub struct MochiVoiceConfig {
    pub enabled: bool,
    pub serial_port: String,
    pub asr_url: String,
    pub last_status: Option<String>,
}

/// The answer a Codex hook receives.
#[derive(Debug, Clone)]
pub struct HookResponse {
    pub should_continue: bool,
    pub stop_reason: Option<String>,
    pub suppress_output: Option<bool>,
}

} // verus!
