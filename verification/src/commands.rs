//! The decisions behind the settings page: locale, approval answers, the Feishu channel
//! settings and the test notification.
use vstd::prelude::*;
use vstd::string::*;
use vstd::utf8::{encode_utf8, is_char_boundary};
use crate::channels::feishu::{mask_webhook, masked_webhook};
use crate::domain::{ChannelConfig, NoticeEvent, NoticeEventType, NoticeLevel, Provider};
use crate::number::{int_text, push_int};
use crate::storage::{bool_setting, bool_setting_value};
use crate::text::{chars_of, find_first, opt_view, str_eq, string_of, trim, trim_chars};

verus! {

/// The locales the interface offers: `zh-CN`, and `en` for anything else.
pub open spec fn locale_text(locale: Seq<char>) -> Seq<char> {
    if locale == "zh-CN"@ {
        "zh-CN"@
    } else {
        "en"@
    }
}

/// The locale stored for a requested one.
pub fn normalize_locale(locale: &str) -> (r: &'static str)
    ensures
        r@ == locale_text(locale@),
{
    let c = chars_of(locale);
    if str_eq(&c, "zh-CN") {
        "zh-CN"
    } else {
        "en"
    }
}

/// The interface locale read from the setting: the stored one, else `en`.
pub open spec fn stored_locale(stored: Option<Seq<char>>) -> Seq<char> {
    match stored {
        Some(v) => v,
        None => "en"@,
    }
}

/// The interface locale: the stored one, else `en` (see `stored_locale`).
pub fn app_locale(stored: Option<String>) -> (r: String)
    ensures
        r@ == stored_locale(opt_view(stored)),
{
    match stored {
        Some(v) => v,
        None => String::from_str("en"),
    }
}

/// Setting a locale and reading it back gives `zh-CN` for `zh-CN` and `en` for anything
/// else; before any locale is set, the reading is `en`.
pub proof fn law_locale_round_trip(requested: Seq<char>)
    ensures
        stored_locale(Some(locale_text(requested)))
            == (if requested == "zh-CN"@ { "zh-CN"@ } else { "en"@ }),
        stored_locale(None) == "en"@,
{
}

/// The status an approval gets from the user's answer: `approved`, or `rejected` for
/// any other answer.
pub fn approval_decision(decision: &str) -> (r: &'static str)
    ensures
        r@ == (if decision@ == "approved"@ { "approved"@ } else { "rejected"@ }),
{
    let c = chars_of(decision);
    if str_eq(&c, "approved") {
        "approved"
    } else {
        "rejected"
    }
}

/// How a switch is stored.
pub fn flag_text(value: bool) -> (r: &'static str)
    ensures
        r@ == (if value { "true"@ } else { "false"@ }),
{
    if value {
        "true"
    } else {
        "false"
    }
}

pub open spec fn str_view(o: Option<&str>) -> Option<Seq<char>> {
    match o {
        Some(s) => Some(s@),
        None => None,
    }
}

/// The channel settings from the stored masked webhook, signing flag, switch and last
/// status: a webhook is configured when its masked form is stored; the signing secret
/// when its flag reads `true`; the channel is on unless its switch reads otherwise.
pub fn channel_config(
    webhook_masked: Option<String>,
    has_sign_secret: Option<&str>,
    enabled: Option<&str>,
    last_status: Option<String>,
) -> (r: ChannelConfig)
    ensures
        opt_view(r.webhook_masked) == opt_view(webhook_masked),
        r.has_webhook == webhook_masked is Some,
        r.has_sign_secret == bool_setting_value(str_view(has_sign_secret), false),
        r.enabled == bool_setting_value(str_view(enabled), true),
        opt_view(r.last_status) == opt_view(last_status),
{
    let has_webhook = webhook_masked.is_some();
    ChannelConfig {
        webhook_masked,
        has_webhook,
        has_sign_secret: bool_setting(has_sign_secret, false),
        enabled: bool_setting(enabled, true),
        last_status,
    }
}

/// What saving the Feishu settings writes: the trimmed webhook with its masked form, and
/// the trimmed signing secret, each when one was given.
#[derive(Debug)]
pub struct FeishuConfigUpdate {
    pub webhook: Option<(String, String)>,
    pub sign_secret: Option<String>,
}

/// The error when no webhook is given and none is stored.
pub open spec fn missing_webhook_message() -> Seq<char> {
    "请输入飞书 Webhook URL"@
}

/// A webhook address that `mask_webhook` accepts.
pub open spec fn maskable(u: Seq<char>) -> bool {
    find_first(u, "/hook/"@) is None && encode_utf8(u).len() > 12 ==> is_char_boundary(encode_utf8(u), 8)
}

/// What saving the Feishu settings writes, given whether a webhook is stored already.
pub fn plan_feishu_config(webhook_url: &str, sign_secret: Option<&str>, has_webhook: bool) -> (r: Result<
    FeishuConfigUpdate,
    String,
>)
    requires
        maskable(trim(webhook_url@)),
    ensures
        match r {
            Err(e) => trim(webhook_url@).len() == 0 && !has_webhook && e@ == missing_webhook_message(),
            Ok(u) => {
                &&& !(trim(webhook_url@).len() == 0 && !has_webhook)
                &&& if trim(webhook_url@).len() == 0 {
                    u.webhook is None
                } else {
                    u.webhook matches Some((url, masked)) && url@ == trim(webhook_url@) && masked@
                        == masked_webhook(trim(webhook_url@))
                }
                &&& match sign_secret {
                    Some(s) => if trim(s@).len() > 0 {
                        u.sign_secret matches Some(t) && t@ == trim(s@)
                    } else {
                        u.sign_secret is None
                    },
                    None => u.sign_secret is None,
                }
            },
        },
{
    let w = chars_of(webhook_url);
    let tw = trim_chars(&w);
    if tw.len() == 0 && !has_webhook {
        return Err(String::from_str("请输入飞书 Webhook URL"));
    }
    let webhook = if tw.len() > 0 {
        let url = string_of(&tw);
        let masked = mask_webhook(url.as_str());
        Some((url, masked))
    } else {
        None
    };
    let secret = match sign_secret {
        Some(s) => {
            let sc = chars_of(s);
            let ts = trim_chars(&sc);
            if ts.len() > 0 {
                Some(string_of(&ts))
            } else {
                None
            }
        },
        None => None,
    };
    Ok(FeishuConfigUpdate { webhook, sign_secret: secret })
}

/// The status recorded when a test is asked for while the channel is off.
pub const FEISHU_DISABLED_STATUS: &'static str = "Feishu notifications are disabled";

/// What a request to test the Feishu channel does.
#[derive(Debug, PartialEq, Eq)]
pub enum FeishuTest {
    /// The channel is off: store this status as the last one and report it.
    Disabled(String),
    /// Record the test notification, send it, and store and report the delivery status.
    Send,
}

/// A test is sent only while the channel is on.
pub fn plan_feishu_test(enabled: bool) -> (r: FeishuTest)
    ensures
        enabled ==> r == FeishuTest::Send,
        !enabled ==> (r matches FeishuTest::Disabled(s) && s@ == FEISHU_DISABLED_STATUS@),
{
    if enabled {
        FeishuTest::Send
    } else {
        FeishuTest::Disabled(String::from_str(FEISHU_DISABLED_STATUS))
    }
}

/// The last status stored when an event reaches the Feishu step while the channel is off.
pub const FEISHU_SKIPPED_STATUS: &'static str = "disabled";

/// The dedupe key of a test notification sent at `secs` seconds since the epoch.
pub open spec fn test_dedupe_key(secs: i64) -> Seq<char> {
    "test-"@ + int_text(secs as int)
}

/// The test notification: a successful finish from the webhook provider, titled
/// `Notice test notification`, for the project `Notice`, stamped `now` (`now_secs` in
/// whole seconds).
pub fn test_notification(id: String, now: i64, now_secs: i64) -> (e: NoticeEvent)
    ensures
        e.id@ == id@,
        e.version == 1,
        e.provider == Provider::Webhook,
        e.event_type == NoticeEventType::TaskFinish,
        e.level == NoticeLevel::Success,
        e.session_id is None,
        e.run_id is None,
        e.dedupe_key matches Some(k) && k@ == test_dedupe_key(now_secs),
        e.title@ == "Notice test notification"@,
        e.content@ == "Feishu channel is configured correctly."@,
        e.project matches Some(p) && p@ == "Notice"@,
        e.cwd is None,
        e.command is None,
        e.exit_code is None,
        e.duration_ms is None,
        e.timestamp == now,
        e.received_at == now,
        e.raw_payload is None,
{
    let mut key = String::from_str("test-");
    push_int(&mut key, now_secs);
    NoticeEvent {
        id,
        version: 1,
        provider: Provider::Webhook,
        event_type: NoticeEventType::TaskFinish,
        session_id: None,
        run_id: None,
        dedupe_key: Some(key),
        title: String::from_str("Notice test notification"),
        content: String::from_str("Feishu channel is configured correctly."),
        level: NoticeLevel::Success,
        project: Some(String::from_str("Notice")),
        cwd: None,
        command: None,
        exit_code: None,
        duration_ms: None,
        timestamp: now,
        received_at: now,
        raw_payload: None,
    }
}

} // verus!
