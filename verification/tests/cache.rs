use energy_kpi::cache::Cache;
use energy_kpi::cache::KPI_CACHE_TTL_SECONDS;
use energy_kpi::cache::cache_key;
use energy_kpi::interval::parse_interval;
use energy_kpi::kpi::TimeRange;
use energy_kpi::kpi::self_consumption_result;
use energy_kpi::quantity::MICRO;

fn window() -> TimeRange {
    TimeRange {
        from_micros: 0,
        to_micros: 3_600_000_000,
    }
}

#[test]
fn test_cache_ttl_constant() {
    assert_eq!(KPI_CACHE_TTL_SECONDS, 300);
}

#[test]
fn test_cache_key_layout() {
    let interval = parse_interval("1hour").unwrap();
    let key = cache_key("self_consumption", window(), &interval, None);
    assert_eq!(key, "self_consumption|0|3600000000|1hour");
    let key = cache_key("scope_two_emissions", window(), &interval, Some("IPCC"));
    assert_eq!(key, "scope_two_emissions|0|3600000000|1hour|IPCC");
}

#[test]
fn test_cache_key_negative_timestamp() {
    let interval = parse_interval("30min").unwrap();
    let range = TimeRange {
        from_micros: -5,
        to_micros: 12,
    };
    let key = cache_key("autarky", range, &interval, None);
    assert_eq!(key, "autarky|-5|12|30min");
}

#[test]
fn test_cache_key_normalizes_interval() {
    // two spellings of the same count and unit share one entry
    let a = parse_interval("030min").unwrap();
    let b = parse_interval("30min").unwrap();
    assert_eq!(
        cache_key("autarky", window(), &a, None),
        cache_key("autarky", window(), &b, None)
    );
}

#[test]
fn test_cache_key_distinguishes_parameters() {
    let hour = parse_interval("1hour").unwrap();
    let halfhour = parse_interval("30min").unwrap();
    let keys = [
        cache_key("autarky", window(), &hour, None),
        cache_key("self_consumption", window(), &hour, None),
        cache_key("autarky", window(), &halfhour, None),
        cache_key(
            "autarky",
            TimeRange {
                from_micros: 1,
                to_micros: 3_600_000_000,
            },
            &hour,
            None,
        ),
        cache_key("autarky", window(), &hour, Some("IPCC")),
    ];
    for i in 0..keys.len() {
        for j in 0..keys.len() {
            if i != j {
                assert_ne!(keys[i], keys[j]);
            }
        }
    }
}

#[test]
fn test_cache_round_trip() {
    let mut cache = Cache::new();
    cache.set("some_key", "some_payload", KPI_CACHE_TTL_SECONDS, 1000);
    // within the TTL window the warm entry returns exactly what was set
    assert_eq!(cache.get("some_key", 1000).as_deref(), Some("some_payload"));
    assert_eq!(cache.get("some_key", 1299).as_deref(), Some("some_payload"));
    // at and after expiry the entry is a miss
    assert_eq!(cache.get("some_key", 1300), None);
    assert_eq!(cache.get("some_key", 9999), None);
    // unknown keys are a miss
    assert_eq!(cache.get("other_key", 1000), None);
}

#[test]
fn test_cache_overwrite() {
    let mut cache = Cache::new();
    cache.set("k", "first", 300, 0);
    cache.set("k", "second", 300, 10);
    assert_eq!(cache.get("k", 20).as_deref(), Some("second"));
}

#[test]
fn test_cache_zero_ttl_never_expires() {
    let mut cache = Cache::new();
    cache.set("k", "v", 0, 0);
    assert_eq!(cache.get("k", u64::MAX).as_deref(), Some("v"));
}

#[test]
fn test_cache_transparency() {
    // a warm hit and a fresh computation with identical parameters
    // yield bit-identical payloads
    let fresh = self_consumption_result(Some(100 * MICRO), Some(50 * MICRO), window());
    let payload = format!(
        "{}:{}:{}:{}",
        fresh.name, fresh.value, fresh.from_timestamp, fresh.to_timestamp
    );
    let interval = parse_interval("1hour").unwrap();
    let key = cache_key("self_consumption", window(), &interval, None);
    let mut cache = Cache::new();
    cache.set(&key, &payload, KPI_CACHE_TTL_SECONDS, 0);
    let warm = cache.get(&key, 100).unwrap();
    let recomputed = self_consumption_result(Some(100 * MICRO), Some(50 * MICRO), window());
    let recomputed_payload = format!(
        "{}:{}:{}:{}",
        recomputed.name, recomputed.value, recomputed.from_timestamp, recomputed.to_timestamp
    );
    assert_eq!(warm, recomputed_payload);
    assert_eq!(fresh, recomputed);
}
