use std::collections::HashSet;

use rategate::context::RequestContext;
use rategate::rate_limit_config::ConfigError;
use rategate::rate_limit_config::PathRateLimits;
use rategate::rate_limit_config::RateLimitConfig;
use rategate::rate_limit_config::RateLimitLine;
use rategate::rate_limit_config::Route;
use rategate::rate_limit_config::Slice;
use rategate::store::MemoryStore;
use rategate::template::extract_keys;
use rategate::template::substitute;

const NOW: u64 = 1_700_000_000_000;

fn line(slice: Slice, quota: u32, burst: Option<u32>) -> RateLimitLine {
    RateLimitLine { slice, quota, burst }
}

fn dummy_config() -> RateLimitConfig {
    RateLimitConfig {
        limits: vec![
            (
                "global".to_string(),
                vec![
                    line(Slice::Seconds(1), 10, None),
                    line(Slice::Minutes(10), 100, None),
                    line(Slice::Days(1), 500, None),
                ],
            ),
            (
                "guild/{guild_id}".to_string(),
                vec![
                    line(Slice::Seconds(1), 3, None),
                    line(Slice::Minutes(1), 10, None),
                    line(Slice::Hours(1), 30, None),
                ],
            ),
            ("channel/{channel_id}".to_string(), vec![line(Slice::Seconds(5), 1, None)]),
            (
                "user/{user_id}".to_string(),
                vec![
                    line(Slice::Seconds(15), 2, None),
                    line(Slice::Minutes(1), 10, None),
                    line(Slice::Hours(6), 60, None),
                ],
            ),
            (
                "guild/{guild_id}/channel/{channel_id}".to_string(),
                vec![line(Slice::Seconds(1), 1, None)],
            ),
        ],
    }
}

fn get_route_by_name<'a>(name: &str, limits: &'a PathRateLimits) -> &'a Route {
    let routes = limits
        .route_limits
        .iter()
        .filter(|route| route.template == name)
        .collect::<Vec<_>>();

    assert_eq!(routes.len(), 1);

    routes[0]
}

fn verify_keys(route: &Route, keys: &[&str]) {
    // check that all expected keys are present, using a set
    let mut set = HashSet::new();
    for key in &route.required_keys {
        set.insert(key.clone());
    }

    assert_eq!(set.len(), keys.len());
    for key in keys {
        let key = key.to_string();
        assert!(set.contains(&key));
    }
}

fn context_of(pairs: &[(&str, &str)]) -> RequestContext {
    let mut ctx = RequestContext::new();
    for (k, v) in pairs {
        ctx.insert(k.to_string(), v.to_string());
    }
    ctx
}

#[test]
fn test_rate_limit_config() {
    let config = dummy_config();
    let limits = PathRateLimits::from_config(&config).unwrap();

    let global = get_route_by_name("global", &limits);
    let guild = get_route_by_name("guild/{guild_id}", &limits);
    let channel = get_route_by_name("channel/{channel_id}", &limits);
    let user = get_route_by_name("user/{user_id}", &limits);
    let combined = get_route_by_name("guild/{guild_id}/channel/{channel_id}", &limits);

    // check all keys are present and no extra keys are present
    verify_keys(global, &[]);
    verify_keys(guild, &["guild_id"]);
    verify_keys(channel, &["channel_id"]);
    verify_keys(user, &["user_id"]);
    verify_keys(combined, &["guild_id", "channel_id"]);
}

#[test]
fn test_enum_variants() {
    let config = dummy_config();
    let (name, global) = &config.limits[0];
    assert_eq!(name, "global");

    let r1 = &global[0];
    let r2 = &global[1];
    let r3 = &global[2];

    assert!(matches!(r1.slice, Slice::Seconds(_)));
    assert!(matches!(r2.slice, Slice::Minutes(_)));
    assert!(matches!(r3.slice, Slice::Days(_)));
}

#[test]
fn coordinator_commits_all_tiers_on_success() {
    let limits = PathRateLimits::from_config(&dummy_config()).unwrap();
    let mut store = MemoryStore::new();
    // a pre-existing row for the one-second global tier
    store.upsert("global".to_string(), 1000, 0);

    let ctx = context_of(&[]);
    assert!(limits.check_route_with_context(&ctx, &mut store, NOW));

    // with the default burst, one admission books exactly one window
    assert_eq!(store.lookup("global", 1000), Some(NOW + 1000));
    assert_eq!(store.lookup("global", 600_000), Some(NOW + 600_000));
    assert_eq!(store.lookup("global", 86_400_000), Some(NOW + 86_400_000));
}

#[test]
fn coordinator_rejection_leaves_store_unchanged() {
    let limits = PathRateLimits::from_config(&dummy_config()).unwrap();
    let mut store = MemoryStore::new();
    // this cursor makes the one-second global tier reject
    let far_future = NOW + 100 * 86_400_000;
    store.upsert("global".to_string(), 1000, far_future);
    // this one would be allowed
    store.upsert("global".to_string(), 600_000, 0);

    let ctx = context_of(&[]);
    assert!(!limits.check_route_with_context(&ctx, &mut store, NOW));

    // nothing was written, not even for tiers that had admitted
    assert_eq!(store.lookup("global", 1000), Some(far_future));
    assert_eq!(store.lookup("global", 600_000), Some(0));
    assert_eq!(store.lookup("global", 86_400_000), None);
}

#[test]
fn unmatched_routes_are_not_evaluated() {
    let limits = PathRateLimits::from_config(&dummy_config()).unwrap();
    let mut store = MemoryStore::new();

    let ctx = context_of(&[("guild_id", "g1")]);
    assert!(limits.check_route_with_context(&ctx, &mut store, NOW));

    // matched routes left their rows
    assert_eq!(store.lookup("global", 1000), Some(NOW + 1000));
    // one second split over a quota of three leaves 333 ms per unit
    assert_eq!(store.lookup("guild/g1", 1000), Some(NOW + 999));
    assert_eq!(store.lookup("guild/g1", 60_000), Some(NOW + 60_000));
    assert_eq!(store.lookup("guild/g1", 3_600_000), Some(NOW + 3_600_000));
    // routes whose keys are missing never touched the store
    assert_eq!(store.lookup("channel/c1", 5000), None);
    assert_eq!(store.lookup("user/u1", 15_000), None);
    assert_eq!(store.lookup("guild/g1/channel/c1", 1000), None);
}

#[test]
fn repeated_admissions_consume_quota() {
    let limits = PathRateLimits::from_config(&dummy_config()).unwrap();
    let mut store = MemoryStore::new();

    // the channel route has quota 1 and no burst: one admission per 5 s
    let ctx = context_of(&[("channel_id", "c9")]);
    assert!(limits.check_route_with_context(&ctx, &mut store, NOW));
    assert!(!limits.check_route_with_context(&ctx, &mut store, NOW));
}

#[test]
fn plan_stages_without_writing() {
    let limits = PathRateLimits::from_config(&dummy_config()).unwrap();
    let mut store = MemoryStore::new();
    store.upsert("global".to_string(), 1000, 0);

    let ctx = context_of(&[]);
    let batch = limits.plan(&ctx, &store, NOW).unwrap();
    // one upsert per global tier, nothing written yet
    assert_eq!(batch.len(), 3);
    assert_eq!(store.lookup("global", 1000), Some(0));
    assert_eq!(store.lookup("global", 600_000), None);

    // a rejecting snapshot plans nothing
    store.upsert("global".to_string(), 1000, NOW + 100 * 86_400_000);
    assert!(limits.plan(&ctx, &store, NOW).is_none());
}

#[test]
fn clocked_entry_point_commits() {
    let limits = PathRateLimits::from_config(&dummy_config()).unwrap();
    let mut store = MemoryStore::new();

    let ctx = context_of(&[]);
    assert_eq!(limits.check_now(&ctx, &mut store), Ok(true));
}

#[test]
fn template_keys_are_extracted_in_order() {
    let keys = extract_keys("guild/{guild_id}/channel/{channel_id}");
    assert_eq!(keys, vec!["guild_id".to_string(), "channel_id".to_string()]);

    assert_eq!(extract_keys("global"), Vec::<String>::new());
    assert_eq!(extract_keys("{a}{b}"), vec!["a".to_string(), "b".to_string()]);
    // braces that do not form a placeholder are ordinary characters
    assert_eq!(extract_keys("{}"), Vec::<String>::new());
    assert_eq!(extract_keys("{unclosed"), Vec::<String>::new());
    assert_eq!(extract_keys("x{{ab}y"), vec!["ab".to_string()]);
}

#[test]
fn template_substitution_is_verbatim() {
    let ctx = context_of(&[("guild_id", "123"), ("channel_id", "abc")]);
    let path = substitute("guild/{guild_id}/channel/{channel_id}", &ctx);
    assert_eq!(path, "guild/123/channel/abc");

    assert_eq!(substitute("global", &ctx), "global");
    assert_eq!(substitute("{guild_id}{guild_id}", &ctx), "123123");
}

#[test]
fn context_last_binding_wins() {
    let mut ctx = RequestContext::new();
    ctx.insert("k".to_string(), "one".to_string());
    assert_eq!(ctx.get("k"), Some(&"one".to_string()));
    ctx.insert("k".to_string(), "two".to_string());
    assert_eq!(ctx.get("k"), Some(&"two".to_string()));
    assert!(ctx.contains_key("k"));
    assert!(!ctx.contains_key("missing"));
    assert_eq!(ctx.get("missing"), None);
}

#[test]
fn store_upsert_and_commit() {
    let mut store = MemoryStore::new();
    assert_eq!(store.lookup("p", 1000), None);

    store.upsert("p".to_string(), 1000, 5);
    assert_eq!(store.lookup("p", 1000), Some(5));

    // same path, other window: a separate row
    store.upsert("p".to_string(), 2000, 7);
    assert_eq!(store.lookup("p", 1000), Some(5));
    assert_eq!(store.lookup("p", 2000), Some(7));

    // an update overwrites
    store.upsert("p".to_string(), 1000, 9);
    assert_eq!(store.lookup("p", 1000), Some(9));
}

#[test]
fn find_by_path_returns_each_window_once() {
    let mut store = MemoryStore::new();
    store.upsert("p".to_string(), 1000, 5);
    store.upsert("p".to_string(), 2000, 7);
    store.upsert("q".to_string(), 1000, 1);
    // an update shadows the earlier cursor
    store.upsert("p".to_string(), 1000, 9);

    let mut rows = store.find_by_path("p");
    rows.sort();
    assert_eq!(rows, vec![(1000, 9), (2000, 7)]);

    assert_eq!(store.find_by_path("q"), vec![(1000, 1)]);
    assert_eq!(store.find_by_path("none"), Vec::<(u64, u64)>::new());
}

#[test]
fn config_rejects_zero_window() {
    let config = RateLimitConfig {
        limits: vec![("global".to_string(), vec![line(Slice::Seconds(0), 10, None)])],
    };
    assert_eq!(PathRateLimits::from_config(&config).unwrap_err(), ConfigError::ZeroWindow);
}

#[test]
fn config_rejects_window_out_of_range() {
    let config = RateLimitConfig {
        limits: vec![(
            "global".to_string(),
            vec![line(Slice::Days(300_000_000_000), 10, None)],
        )],
    };
    assert_eq!(PathRateLimits::from_config(&config).unwrap_err(), ConfigError::WindowOutOfRange);
}

#[test]
fn config_rejects_zero_quota() {
    let config = RateLimitConfig {
        limits: vec![("global".to_string(), vec![line(Slice::Seconds(1), 0, None)])],
    };
    assert_eq!(PathRateLimits::from_config(&config).unwrap_err(), ConfigError::ZeroQuota);
}

#[test]
fn config_rejects_quota_finer_than_a_millisecond() {
    let config = RateLimitConfig {
        limits: vec![("global".to_string(), vec![line(Slice::Seconds(1), 2000, None)])],
    };
    assert_eq!(
        PathRateLimits::from_config(&config).unwrap_err(),
        ConfigError::QuotaFinerThanMillisecond
    );
}

#[test]
fn config_rejects_zero_burst() {
    let config = RateLimitConfig {
        limits: vec![("global".to_string(), vec![line(Slice::Seconds(1), 10, Some(0))])],
    };
    assert_eq!(PathRateLimits::from_config(&config).unwrap_err(), ConfigError::ZeroBurst);
}

#[test]
fn config_rejects_burst_out_of_range() {
    let config = RateLimitConfig {
        limits: vec![(
            "wide".to_string(),
            vec![line(Slice::Days(100_000), 1, Some(3_000_000))],
        )],
    };
    assert_eq!(PathRateLimits::from_config(&config).unwrap_err(), ConfigError::BurstOutOfRange);
}

#[test]
fn config_reports_first_error_in_declaration_order() {
    let config = RateLimitConfig {
        limits: vec![
            ("ok".to_string(), vec![line(Slice::Seconds(1), 10, None)]),
            ("bad-quota".to_string(), vec![line(Slice::Seconds(1), 0, None)]),
            ("bad-window".to_string(), vec![line(Slice::Seconds(0), 10, None)]),
        ],
    };
    assert_eq!(PathRateLimits::from_config(&config).unwrap_err(), ConfigError::ZeroQuota);
}
