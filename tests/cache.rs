use weather_cache::key::{bucket_timestamp, CacheKey, WeatherApiType, WeatherLang, WeatherUnits};
use weather_cache::payload::PreparedTemp;
use weather_cache::service::CacheService;
use weather_cache::store::{RuntimeCache, HOUR};

fn key(city: &str, bucket_ts: u64) -> CacheKey {
    CacheKey {
        city: city.to_string(),
        api_type: WeatherApiType::Current,
        units: WeatherUnits::Metric,
        lang: WeatherLang::En,
        bucket_ts,
    }
}

fn temp(t: f32) -> PreparedTemp {
    PreparedTemp::new(
        t.to_bits(),
        (t + 3.0).to_bits(),
        (t - 4.0).to_bits(),
        55.0f32.to_bits(),
        1013.0f32.to_bits(),
        4.5f32.to_bits(),
    )
}

#[test]
fn set_then_get_round_trip() {
    let mut c = RuntimeCache::new();
    let v = temp(12.5);
    c.set(key("moscow", 7200), v);
    assert_eq!(c.get(&key("moscow", 7200)), Some(v));
    assert_eq!(f32::from_bits(c.get(&key("moscow", 7200)).unwrap().temp), 12.5);
}

#[test]
fn set_overwrites() {
    let mut c = RuntimeCache::new();
    c.set(key("moscow", 7200), temp(1.0));
    c.set(key("moscow", 7200), temp(2.0));
    assert_eq!(c.len(), 1);
    assert_eq!(c.get(&key("moscow", 7200)), Some(temp(2.0)));
}

#[test]
fn del_then_get_is_empty() {
    let mut c = RuntimeCache::new();
    c.set(key("moscow", 7200), temp(1.0));
    c.set(key("spb", 7200), temp(2.0));
    c.del(&key("moscow", 7200));
    assert_eq!(c.get(&key("moscow", 7200)), None);
    assert_eq!(c.get(&key("spb", 7200)), Some(temp(2.0)));
    assert_eq!(c.len(), 1);
}

#[test]
fn del_of_absent_key_is_noop() {
    let mut c = RuntimeCache::new();
    c.set(key("moscow", 7200), temp(1.0));
    c.del(&key("oslo", 7200));
    assert_eq!(c.len(), 1);
}

#[test]
fn get_aprx_on_empty_store() {
    let c = RuntimeCache::new();
    assert_eq!(c.get_aprx(&key("moscow", 1000)), None);
    assert_eq!(c.get_aprx(&key("", 0)), None);
    assert_eq!(c.len(), 0);
}

#[test]
fn get_aprx_moscow_window() {
    let mut c = RuntimeCache::new();
    assert_eq!(c.bucket_width(), 3600);
    let v = temp(-5.0);
    c.set(key("moscow", 1000), v);
    assert_eq!(c.get_aprx(&key("moscow", 1500)), Some(v));
    assert_eq!(c.get_aprx(&key("moscow", 9000)), None);
    assert_eq!(c.get_aprx(&key("spb", 1500)), None);
}

#[test]
fn get_aprx_window_edges() {
    let mut c = RuntimeCache::new();
    let v = temp(3.0);
    c.set(key("moscow", 1000), v);
    // older by one second less than two bucket widths: fresh
    assert_eq!(c.get_aprx(&key("moscow", 1000 + 2 * HOUR - 1)), Some(v));
    // older by exactly two bucket widths: stale
    assert_eq!(c.get_aprx(&key("moscow", 1000 + 2 * HOUR)), None);
    // stored entry newer than the query: matched
    assert_eq!(c.get_aprx(&key("moscow", 0)), Some(v));
}

#[test]
fn get_aprx_bounds_newer_entries() {
    let mut c = RuntimeCache::new();
    let v = temp(6.0);
    c.set(key("moscow", 100000), v);
    assert_eq!(c.get_aprx(&key("moscow", 0)), None);
    assert_eq!(c.get_aprx(&key("moscow", 100000 - 2 * HOUR)), None);
    assert_eq!(c.get_aprx(&key("moscow", 100000 - 2 * HOUR + 1)), Some(v));
    assert_eq!(c.get_aprx(&key("moscow", 100000 + 2 * HOUR - 1)), Some(v));
}

#[test]
fn get_aprx_near_largest_timestamp() {
    let mut c = RuntimeCache::new();
    let v = temp(2.0);
    c.set(key("oslo", u64::MAX), v);
    assert_eq!(c.get_aprx(&key("oslo", u64::MAX - 1)), Some(v));
    assert_eq!(c.get_aprx(&key("oslo", 0)), None);
    c.set(key("oslo", 0), temp(1.0));
    assert_eq!(c.get_aprx(&key("oslo", u64::MAX - 10)), Some(v));
}

#[test]
fn get_aprx_other_parameters_same_city() {
    let mut c = RuntimeCache::new();
    let v = temp(8.0);
    let mut k = key("moscow", 1000);
    k.lang = WeatherLang::Ru;
    c.set(k, v);
    assert_eq!(c.get_aprx(&key("moscow", 1000)), Some(v));
}

#[test]
fn get_aprx_prefers_exact_then_nearest() {
    let mut c = RuntimeCache::new();
    c.set(key("oslo", 0), temp(1.0));
    c.set(key("oslo", 3600), temp(2.0));
    c.set(key("oslo", 5000), temp(3.0));
    assert_eq!(c.get_aprx(&key("oslo", 3600)), Some(temp(2.0)));
    assert_eq!(c.get_aprx(&key("oslo", 4000)), Some(temp(2.0)));
    assert_eq!(c.get_aprx(&key("oslo", 4500)), Some(temp(3.0)));
}

#[test]
fn get_aprx_equally_near_takes_earliest_stored() {
    let mut c = RuntimeCache::new();
    c.set(key("oslo", 2000), temp(1.0));
    c.set(key("oslo", 4000), temp(2.0));
    assert_eq!(c.get_aprx(&key("oslo", 3000)), Some(temp(1.0)));
}

#[test]
fn should_refresh_policy() {
    let mut c = RuntimeCache::new();
    let ts: u64 = 1_700_000_123;
    let k = CacheKey::new(
        "moscow".to_string(),
        WeatherApiType::Current,
        WeatherUnits::Metric,
        WeatherLang::En,
        ts,
        HOUR,
    );
    assert!(!c.should_refresh(&k, ts + 10 * HOUR));
    c.set(k.clone(), temp(0.0));
    assert!(!c.should_refresh(&k, ts));
    assert!(!c.should_refresh(&k, k.bucket_ts + 2 * HOUR - 1));
    assert!(c.should_refresh(&k, k.bucket_ts + 2 * HOUR));
    assert!(c.should_refresh(&k, ts + 5 * HOUR));
    assert!(!c.should_refresh(&k, 0));
}

#[test]
fn writes_under_different_keys_do_not_interfere() {
    let mut a = RuntimeCache::new();
    let mut b = RuntimeCache::new();
    a.set(key("oslo", 100), temp(1.0));
    a.set(key("bergen", 100), temp(2.0));
    b.set(key("bergen", 100), temp(2.0));
    b.set(key("oslo", 100), temp(1.0));
    for c in [&a, &b] {
        assert_eq!(c.get(&key("oslo", 100)), Some(temp(1.0)));
        assert_eq!(c.get(&key("bergen", 100)), Some(temp(2.0)));
        assert_eq!(c.len(), 2);
    }
}

#[test]
fn oslo_miss_then_fetch_then_hit() {
    let mut c = CacheService::new(RuntimeCache::new());
    assert_eq!(c.get_aprx(&key("oslo", 100)), None);
    let fetched = temp(7.25);
    c.set(key("oslo", 100), fetched);
    assert_eq!(c.get_aprx(&key("oslo", 200)), Some(fetched));
    assert_eq!(c.len(), 1);
    assert_eq!(c.get(&key("oslo", 100)), Some(fetched));
    assert!(!c.should_refresh(&key("oslo", 100), 105));
    c.del(&key("oslo", 100));
    assert_eq!(c.get_aprx(&key("oslo", 200)), None);
}

#[test]
fn custom_bucket_width() {
    let mut c = RuntimeCache::with_bucket_width(60);
    assert_eq!(c.bucket_width(), 60);
    c.set(key("oslo", 0), temp(1.0));
    assert_eq!(c.get_aprx(&key("oslo", 119)), Some(temp(1.0)));
    assert_eq!(c.get_aprx(&key("oslo", 120)), None);
    assert!(c.should_refresh(&key("oslo", 0), 120));
    assert!(!c.should_refresh(&key("oslo", 0), 119));
}

#[test]
fn bucket_timestamp_values() {
    assert_eq!(bucket_timestamp(0, 3600), 0);
    assert_eq!(bucket_timestamp(3599, 3600), 0);
    assert_eq!(bucket_timestamp(3600, 3600), 3600);
    assert_eq!(bucket_timestamp(7201, 7200), 7200);
    assert_eq!(bucket_timestamp(u64::MAX, 1), u64::MAX);
    assert_eq!(bucket_timestamp(u64::MAX, 10), 18446744073709551610);
}

#[test]
fn keys_in_different_buckets_differ() {
    let a = CacheKey::new("oslo".to_string(), WeatherApiType::Current, WeatherUnits::Metric, WeatherLang::En, 3599, 3600);
    let b = CacheKey::new("oslo".to_string(), WeatherApiType::Current, WeatherUnits::Metric, WeatherLang::En, 3600, 3600);
    let c = CacheKey::new("oslo".to_string(), WeatherApiType::Current, WeatherUnits::Metric, WeatherLang::En, 7199, 3600);
    assert_ne!(a, b);
    assert_eq!(b, c);
    assert_eq!(b.bucket_ts, 3600);
}

#[test]
fn key_text_forms() {
    assert_eq!(key("moscow", 7200).to_string(), "moscow-current-metric-en-7200");
    assert_eq!(key("oslo", 0).to_string(), "oslo-current-metric-en-0");
    let mut k = key("spb", u64::MAX);
    k.lang = WeatherLang::Ru;
    assert_eq!(k.to_string(), "spb-current-metric-ru-18446744073709551615");
    assert_eq!(WeatherLang::En.to_string(), "en");
    assert_eq!(WeatherLang::Ru.to_string(), "ru");
    assert_eq!(WeatherApiType::Current.to_string(), "current");
    assert_eq!(WeatherUnits::Metric.to_string(), "metric");
}
