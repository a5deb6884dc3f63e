use notice::app_state::RuntimeConfig;
use notice::commands::{
    app_locale, approval_decision, channel_config, flag_text, normalize_locale, plan_feishu_config,
    test_notification, FEISHU_DISABLED_STATUS,
};
use notice::domain::{NoticeEventType, NoticeLevel, Provider};

#[test]
fn channel_config_reads_masked_settings_without_secret_lookup() {
    let config = channel_config(
        Some("https://open.feishu.cn/...abcd".to_string()),
        Some("true"),
        None,
        Some("ok".to_string()),
    );

    assert!(config.has_webhook);
    assert_eq!(config.webhook_masked.as_deref(), Some("https://open.feishu.cn/...abcd"));
    assert!(config.has_sign_secret);
    assert!(config.enabled);
    assert_eq!(config.last_status.as_deref(), Some("ok"));
}

#[test]
fn channel_config_defaults() {
    let config = channel_config(None, None, Some("false"), None);
    assert!(!config.has_webhook);
    assert!(!config.has_sign_secret);
    assert!(!config.enabled);
}

#[test]
fn locales() {
    assert_eq!(normalize_locale("zh-CN"), "zh-CN");
    assert_eq!(normalize_locale("fr"), "en");
    assert_eq!(app_locale(None), "en");
    assert_eq!(app_locale(Some("zh-CN".to_string())), "zh-CN");
}

#[test]
fn approval_answers_and_flags() {
    assert_eq!(approval_decision("approved"), "approved");
    assert_eq!(approval_decision("maybe"), "rejected");
    assert_eq!(flag_text(true), "true");
    assert_eq!(flag_text(false), "false");
}

#[test]
fn saving_feishu_settings() {
    assert_eq!(plan_feishu_config("  ", None, false).unwrap_err(), "请输入飞书 Webhook URL");
    let u = plan_feishu_config("  ", Some("  "), true).unwrap();
    assert!(u.webhook.is_none());
    assert!(u.sign_secret.is_none());
    let u = plan_feishu_config(" https://open.feishu.cn/open-apis/bot/v2/hook/abc ", Some(" s3 "), false).unwrap();
    assert_eq!(
        u.webhook,
        Some((
            "https://open.feishu.cn/open-apis/bot/v2/hook/abc".to_string(),
            "https://open.feishu.cn/open-apis/bot/v2/hook/<redacted>".to_string()
        ))
    );
    assert_eq!(u.sign_secret.as_deref(), Some("s3"));
}

#[test]
fn test_notification_event() {
    let e = test_notification("id".to_string(), 5, 1_700_000_000);
    assert_eq!(e.provider, Provider::Webhook);
    assert_eq!(e.event_type, NoticeEventType::TaskFinish);
    assert_eq!(e.level, NoticeLevel::Success);
    assert_eq!(e.dedupe_key.as_deref(), Some("test-1700000000"));
    assert_eq!(e.title, "Notice test notification");
    assert_eq!(e.content, "Feishu channel is configured correctly.");
    assert_eq!(e.project.as_deref(), Some("Notice"));
    assert_eq!(e.timestamp, 5);
    assert_eq!(FEISHU_DISABLED_STATUS, "Feishu notifications are disabled");
}

#[test]
fn runtime_keys() {
    let c = RuntimeConfig::standard();
    assert_eq!(c.token_key, "notice-local-token");
    assert_eq!(c.webhook_key, "notice-feishu-webhook");
    assert_eq!(c.sign_secret_key, "notice-feishu-sign-secret");
    let d = RuntimeConfig::default();
    assert!(d.token_key.is_empty() && d.webhook_key.is_empty() && d.sign_secret_key.is_empty());
}

#[test]
fn feishu_test_only_while_enabled() {
    assert_eq!(notice::commands::plan_feishu_test(true), notice::commands::FeishuTest::Send);
    assert_eq!(
        notice::commands::plan_feishu_test(false),
        notice::commands::FeishuTest::Disabled("Feishu notifications are disabled".to_string())
    );
}

#[test]
fn locale_reads_back_as_set() {
    assert_eq!(app_locale(Some(normalize_locale("zh-CN").to_string())), "zh-CN");
    assert_eq!(app_locale(Some(normalize_locale("fr").to_string())), "en");
    assert_eq!(app_locale(Some(normalize_locale("zh-cn").to_string())), "en");
}
