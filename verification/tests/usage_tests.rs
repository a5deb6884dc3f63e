use notice::codex_usage::{
    invalidate_cache, is_general_limit_stale, select_quota_item, select_usage_source, QuotaItem, UsageCache,
    UsageCandidates, UsageKey, UsageSource,
};

/// A transcript reading as the tests know it: its limit, when it was taken, and its
/// remaining percentages.
struct Reading {
    limit_id: &'static str,
    at: i64,
    primary_remaining: f64,
    secondary_remaining: f64,
}

const SEC: i64 = 1_000_000_000;

fn key(r: &Reading) -> UsageKey {
    UsageKey { limit_id: r.limit_id.to_string(), updated_at: r.at }
}

fn latest(readings: &[Reading]) -> Option<usize> {
    let mut candidates = UsageCandidates::new();
    for (i, r) in readings.iter().enumerate() {
        candidates.record(key(r), i);
    }
    candidates.into_latest()
}

// 2026-06-16T14:35:03.253Z and 2026-06-16T14:36:24.973Z
const T_CODEX: i64 = 1_781_620_503_253_000_000;
const T_MODEL: i64 = 1_781_620_584_973_000_000;

#[test]
fn prefers_general_codex_limit_over_newer_model_limit() {
    let readings = [
        Reading { limit_id: "codex_bengalfox", at: T_MODEL, primary_remaining: 100.0, secondary_remaining: 100.0 },
        Reading { limit_id: "codex", at: T_CODEX, primary_remaining: 96.0, secondary_remaining: 41.0 },
    ];
    let status = &readings[latest(&readings).unwrap()];
    assert_eq!(status.limit_id, "codex");
    assert_eq!(status.primary_remaining, 96.0);
    assert_eq!(status.secondary_remaining, 41.0);
}

#[test]
fn uses_latest_model_limit_when_general_limit_is_stale() {
    // 2026-06-16T15:37:53.132Z
    let t_late: i64 = 1_781_624_273_132_000_000;
    let readings = [
        Reading { limit_id: "codex", at: T_CODEX, primary_remaining: 96.0, secondary_remaining: 41.0 },
        Reading { limit_id: "codex_bengalfox", at: t_late, primary_remaining: 100.0, secondary_remaining: 100.0 },
    ];
    let status = &readings[latest(&readings).unwrap()];
    assert_eq!(status.limit_id, "codex_bengalfox");
    assert_eq!(status.primary_remaining, 100.0);
}

#[test]
fn falls_back_to_latest_model_limit_when_general_limit_is_absent() {
    let readings = [
        Reading { limit_id: "codex_bengalfox", at: 1_781_620_853_682_000_000, primary_remaining: 99.0, secondary_remaining: 98.0 },
        Reading { limit_id: "codex_bengalfox", at: 1_781_620_884_973_000_000, primary_remaining: 97.0, secondary_remaining: 96.0 },
    ];
    let status = &readings[latest(&readings).unwrap()];
    assert_eq!(status.limit_id, "codex_bengalfox");
    assert_eq!(status.primary_remaining, 97.0);
}

#[test]
fn no_readings_no_status() {
    assert_eq!(latest(&[]), None);
}

#[test]
fn staleness_is_two_minutes() {
    let a = UsageKey { limit_id: "codex".to_string(), updated_at: 0 };
    let b = UsageKey { limit_id: "x".to_string(), updated_at: 120 * SEC };
    let c = UsageKey { limit_id: "x".to_string(), updated_at: 120 * SEC + 1 };
    assert!(!is_general_limit_stale(&a, &b));
    assert!(is_general_limit_stale(&a, &c));
}

fn item(account: Option<&str>, at: Option<i64>) -> QuotaItem {
    QuotaItem { account_key: account.map(|a| a.to_string()), updated_at: at }
}

#[test]
fn parses_codexmate_quota_store() {
    // Items as the quota store lists them: the newest usable one is shown.
    let remaining = [(85.0, 40.0), (96.0, 0.0)];
    let items = vec![item(None, Some(1_781_624_584)), item(None, Some(1_781_620_000))];
    let i = select_quota_item(&items, None).unwrap();
    assert_eq!(i, 0);
    assert_eq!(remaining[i].0, 85.0);
    assert_eq!(remaining[i].1, 40.0);
}

#[test]
fn prefers_codexmate_active_account_key_over_newer_quota_item() {
    let remaining = [(85.0, 40.0), (10.0, 10.0)];
    let items = vec![item(Some("active"), Some(1_781_624_584)), item(Some("other"), Some(1_781_624_999))];
    let i = select_quota_item(&items, Some("active")).unwrap();
    assert_eq!(remaining[i].0, 85.0);
    assert_eq!(remaining[i].1, 40.0);
}

#[test]
fn quota_selection_falls_back_and_skips_unusable_items() {
    let items = vec![item(Some("a"), None), item(Some("b"), Some(5)), item(None, Some(5))];
    assert_eq!(select_quota_item(&items, Some("a")), Some(2));
    assert_eq!(select_quota_item(&items, Some("b")), Some(1));
    assert_eq!(select_quota_item(&vec![item(None, None)], None), None);
}

#[test]
fn source_selection() {
    let mate = UsageKey { limit_id: "codex".to_string(), updated_at: 0 };
    let general_newer = UsageKey { limit_id: "codex".to_string(), updated_at: 121 * SEC };
    let model_newer = UsageKey { limit_id: "m".to_string(), updated_at: 500 * SEC };
    assert_eq!(select_usage_source(Some(&mate), Some(&general_newer)), UsageSource::Transcript);
    assert_eq!(select_usage_source(Some(&mate), Some(&model_newer)), UsageSource::CodexMate);
    assert_eq!(select_usage_source(None, Some(&model_newer)), UsageSource::Transcript);
    assert_eq!(select_usage_source(None, None), UsageSource::Neither);
}

#[test]
fn invalidate_cache_clears_cached_usage() {
    let mut cache: UsageCache<Option<u32>> = UsageCache::new();
    cache.store(0, None);

    assert!(cache.cached_value(0).is_some());
    invalidate_cache(&mut cache);
    assert!(cache.cached_value(0).is_none());
}

#[test]
fn cache_expires_after_five_seconds() {
    let mut cache: UsageCache<u32> = UsageCache::new();
    cache.store(10, 1);
    assert_eq!(cache.cached_value(10 + 5 * SEC), Some(&1));
    assert_eq!(cache.cached_value(10 + 5 * SEC + 1), None);
}

#[test]
fn only_rate_limit_lines_are_read() {
    assert!(notice::codex_usage::may_hold_usage("{\"payload\":{\"rate_limits\":{}}}"));
    assert!(!notice::codex_usage::may_hold_usage("{\"payload\":{\"rate_limits_x\":{}}}"));
    assert!(!notice::codex_usage::may_hold_usage("rate_limits"));
}

#[test]
fn account_reading_time_falls_back_in_order() {
    assert_eq!(notice::codex_usage::account_reading_time(Some(30), Some(20), Some(10), true, false), Some(30));
    assert_eq!(notice::codex_usage::account_reading_time(None, Some(20), Some(10), false, true), Some(20));
    assert_eq!(notice::codex_usage::account_reading_time(None, None, Some(10), true, true), Some(10));
    assert_eq!(notice::codex_usage::account_reading_time(None, None, None, true, true), None);
    assert_eq!(notice::codex_usage::account_reading_time(Some(30), Some(20), Some(10), false, false), None);
}
