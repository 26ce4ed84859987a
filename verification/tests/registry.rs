use rustunnel::http_registry::{now_ms, reaper_period_secs, HttpRegistry};

#[test]
fn lookup_after_register() {
    let mut r = HttpRegistry::new();
    assert_eq!(r.lookup("abc"), None);
    r.register_with_uuid(7, 2, "abc".to_string(), 1_000);
    assert_eq!(r.lookup("abc"), Some((7, 2)));
    assert_eq!(r.lookup("abd"), None);
}

#[test]
fn register_replaces_same_uuid_and_keeps_others() {
    let mut r = HttpRegistry::new();
    r.register_with_uuid(1, 0, "a".to_string(), 10);
    r.register_with_uuid(1, 1, "b".to_string(), 10);
    r.register_with_uuid(2, 5, "a".to_string(), 20);
    assert_eq!(r.lookup("a"), Some((2, 5)));
    assert_eq!(r.lookup("b"), Some((1, 1)));
}

#[test]
fn deregister_session_removes_only_that_session() {
    let mut r = HttpRegistry::new();
    r.register_with_uuid(1, 0, "a".to_string(), 10);
    r.register_with_uuid(2, 0, "b".to_string(), 10);
    r.register_with_uuid(1, 3, "c".to_string(), 10);
    r.deregister_session(1);
    assert_eq!(r.lookup("a"), None);
    assert_eq!(r.lookup("c"), None);
    assert_eq!(r.lookup("b"), Some((2, 0)));
}

#[test]
fn reap_removes_exactly_the_idle() {
    let mut r = HttpRegistry::new();
    r.register_with_uuid(1, 0, "old".to_string(), 1_000);
    r.register_with_uuid(1, 1, "fresh".to_string(), 5_000);
    r.register_with_uuid(1, 2, "edge".to_string(), 3_000);
    // timeout 2 s: idle >= 2000 ms goes
    r.reap_idle(5_000, 2);
    assert_eq!(r.lookup("old"), None);
    assert_eq!(r.lookup("edge"), None);
    assert_eq!(r.lookup("fresh"), Some((1, 1)));
}

#[test]
fn touch_keeps_an_endpoint_alive() {
    let mut r = HttpRegistry::new();
    r.register_with_uuid(4, 1, "u".to_string(), 0);
    r.touch("u", 9_000);
    r.touch("missing", 9_000);
    r.reap_idle(10_000, 5);
    assert_eq!(r.lookup("u"), Some((4, 1)));
    assert_eq!(r.lookup("missing"), None);
    r.reap_idle(20_000, 5);
    assert_eq!(r.lookup("u"), None);
}

#[test]
fn stamp_in_the_future_counts_as_not_idle() {
    let mut r = HttpRegistry::new();
    r.register_with_uuid(1, 0, "f".to_string(), 50_000);
    r.reap_idle(10_000, 1);
    assert_eq!(r.lookup("f"), Some((1, 0)));
}

#[test]
fn register_endpoints_routes_each_uuid() {
    let mut r = HttpRegistry::new();
    let entries = vec![(0u8, "x".to_string()), (2u8, "y".to_string())];
    r.register_endpoints(9, &entries, 100);
    assert_eq!(r.lookup("x"), Some((9, 0)));
    assert_eq!(r.lookup("y"), Some((9, 2)));
}

#[test]
fn reaper_period() {
    assert_eq!(reaper_period_secs(300), 150);
    assert_eq!(reaper_period_secs(21), 10);
    assert_eq!(reaper_period_secs(0), 10);
    assert_eq!(reaper_period_secs(22), 11);
}

#[test]
fn clock_reads_after_2020() {
    assert!(now_ms() > 1_577_836_800_000);
}

#[test]
fn epoch_stamps() {
    assert_eq!(rustunnel::http_registry::epoch_ms(None), 0);
    assert_eq!(rustunnel::http_registry::epoch_ms(Some(1_700_000_000_123)), 1_700_000_000_123);
    assert_eq!(rustunnel::http_registry::epoch_ms(Some((1u128 << 64) + 5)), 5);
}

#[test]
fn reaper_removes_within_one_period() {
    // timeout 300 s, period 150 s, last activity at t0 = 1_000 ms, sweeps from 0
    let mut r = HttpRegistry::new();
    r.register_with_uuid(1, 0, "u".to_string(), 1_000);
    let period_ms = reaper_period_secs(300) * 1000;
    let mut removed_at = None;
    for k in 0..10u64 {
        let now = k * period_ms;
        r.reap_idle(now, 300);
        if r.lookup("u").is_none() {
            removed_at = Some(now);
            break;
        }
        assert!(now < 1_000 + 300_000);
    }
    let at = removed_at.unwrap();
    assert!(at >= 1_000 + 300_000 && at < 1_000 + 300_000 + period_ms);
}
