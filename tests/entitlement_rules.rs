use telegram_bot_rust::config::AppConfig;
use telegram_bot_rust::entitlement::{
    are_max_mode_models_available, authorize, get_user_limits, is_model_available, normalize_expired,
    resolve_level, set_model_failed_in_cache, usage_after, Cache, LevelDecision, RequestKind, User, USER_CACHE_CAPACITY,
    USER_CACHE_TTL,
};
use telegram_bot_rust::health::ModelStatusInfo;

fn config() -> AppConfig {
    AppConfig::with_defaults(
        "t".to_string(),
        "k".to_string(),
        "u".to_string(),
        "d".to_string(),
        vec![42],
        "s".to_string(),
        "s".to_string(),
        Vec::new(),
        ".text".to_string(),
        ".image".to_string(),
    )
}

fn user(level: i32, end: Option<i64>, bonus: bool) -> User {
    User {
        user_id: 7,
        username: Some("alice".to_string()),
        subscription_level: level,
        subscription_end: end,
        is_blocked: false,
        is_verified: true,
        has_rewarded_bonus: bonus,
        last_used_model: None,
        last_used_image_model: None,
        user_instruction: None,
        user_temperature: None,
        created_at: 0,
    }
}

#[test]
fn expired_tier_reads_free_and_stays_free() {
    let mut u = user(2, Some(1_000), false);
    let first = resolve_level(false, Some(&u), 2_000);
    assert_eq!(first, LevelDecision { level: 0, expired: true });
    normalize_expired(&mut u, 2_000);
    assert_eq!(u.subscription_level, 0);
    assert_eq!(u.subscription_end, Some(2_000));
    let second = resolve_level(false, Some(&u), 3_000);
    assert_eq!(second, LevelDecision { level: 0, expired: false });
}

#[test]
fn paid_tier_without_end_is_written_back() {
    let mut u = user(1, None, false);
    assert_eq!(resolve_level(false, Some(&u), 500), LevelDecision { level: 0, expired: true });
    normalize_expired(&mut u, 500);
    assert_eq!(resolve_level(false, Some(&u), 900), LevelDecision { level: 0, expired: false });
}

#[test]
fn level_rules() {
    assert_eq!(resolve_level(false, Some(&user(2, Some(5_000), false)), 2_000), LevelDecision { level: 2, expired: false });
    assert_eq!(resolve_level(false, Some(&user(2, None, false)), 2_000), LevelDecision { level: 0, expired: true });
    assert_eq!(resolve_level(false, None, 2_000), LevelDecision { level: 0, expired: false });
    assert_eq!(resolve_level(true, None, 2_000), LevelDecision { level: 3, expired: false });
}

#[test]
fn free_quota_allows_exactly_three() {
    let cfg = config();
    let limits = get_user_limits(&cfg, 7, 0, Some(&user(0, None, false)));
    assert_eq!(limits.daily, 3);
    let mut used: i64 = 0;
    for _ in 0..3 {
        assert!(authorize(limits, RequestKind::Normal, used));
        used = usage_after(limits, RequestKind::Normal, used, true);
    }
    assert_eq!(used, 3);
    assert!(!authorize(limits, RequestKind::Normal, used));
    assert_eq!(usage_after(limits, RequestKind::Normal, used, true), 3);
    assert_eq!(usage_after(limits, RequestKind::Normal, 1, false), 1);
}

#[test]
fn limits_by_tier_bonus_and_admin() {
    let cfg = config();
    let bonus = get_user_limits(&cfg, 7, 0, Some(&user(0, None, true)));
    assert_eq!((bonus.daily, bonus.max_mode), (7, 0));
    let max = get_user_limits(&cfg, 7, 3, Some(&user(3, Some(10), true)));
    assert_eq!((max.daily, max.max_mode), (100, 5));
    let admin = get_user_limits(&cfg, 42, 0, None);
    assert_eq!((admin.daily, admin.max_mode), (i32::MAX, i32::MAX));
    let unknown = get_user_limits(&cfg, 7, 9, None);
    assert_eq!((unknown.daily, unknown.max_mode), (0, 0));
    assert!(!authorize(bonus, RequestKind::Enhanced, 0));
    assert!(authorize(max, RequestKind::Enhanced, 4));
    assert!(!authorize(max, RequestKind::Enhanced, 5));
}

#[test]
fn cache_get_set_invalidate() {
    let mut cache = Cache::new();
    assert!(cache.get_user_details(7, 100).is_none());
    cache.set_user_details(7, user(1, Some(9), false), 100);
    assert_eq!(cache.get_user_details(7, 100).unwrap().subscription_level, 1);
    assert!(cache.get_user_details(7, 100 + USER_CACHE_TTL - 1).is_some());
    assert!(cache.get_user_details(7, 100 + USER_CACHE_TTL).is_none());
    cache.invalidate_user_cache(7);
    assert!(cache.get_user_details(7, 100).is_none());
    cache.invalidate_user_cache(8);
}

#[test]
fn full_cache_starts_over() {
    let mut cache = Cache::new();
    for id in 0..USER_CACHE_CAPACITY as i64 {
        cache.set_user_details(id, user(0, None, false), 0);
    }
    assert!(cache.get_user_details(0, 1).is_some());
    cache.set_user_details(5, user(1, None, false), 1);
    assert!(cache.get_user_details(0, 1).is_some());
    cache.set_user_details(-1, user(2, None, false), 1);
    assert!(cache.get_user_details(0, 1).is_none());
    assert!(cache.get_user_details(5, 1).is_none());
    assert_eq!(cache.get_user_details(-1, 1).unwrap().subscription_level, 2);
}

#[test]
fn availability_from_statuses() {
    let cfg = config();
    let mut cache = Cache::new();
    assert!(is_model_available("grok-3", &cache));
    assert!(are_max_mode_models_available(&cfg, &cache));
    cache.set_model_statuses(
        vec![
            ModelStatusInfo { model: "grok-3".to_string(), status: "OK".to_string() },
            ModelStatusInfo { model: "gpt-4.1".to_string(), status: "Timeout".to_string() },
        ],
        "report".to_string(),
    );
    assert!(is_model_available("grok-3", &cache));
    assert!(!is_model_available("gpt-4.1", &cache));
    assert!(!are_max_mode_models_available(&cfg, &cache));
    set_model_failed_in_cache("grok-3", &mut cache);
    assert!(!is_model_available("grok-3", &cache));
    set_model_failed_in_cache("o4-mini", &mut cache);
    assert!(!is_model_available("o4-mini", &cache));
    assert_eq!(cache.last_report().map(|s| s.as_str()), Some("report"));
}
