use fast_lane::cache::{CacheEntry, IpCache};
use fast_lane::clock::Clock;

#[test]
fn entry_new_at_sets_expiry() {
    let e = CacheEntry::new_at("1.2.3.4".to_string(), 50, 1000, 5000);
    assert_eq!(e.ip, "1.2.3.4");
    assert_eq!(e.latency, 50);
    assert_eq!(e.expires_at(), 6000);
    assert!(!e.is_expired_at(5999));
    assert!(e.is_expired_at(6000));
    assert!(e.is_expired_at(7000));
}

#[test]
fn entry_expiry_past_the_clock_range() {
    let e = CacheEntry::new_at("1.2.3.4".to_string(), 1, u64::MAX, 10);
    assert_eq!(e.expires_at(), u64::MAX as u128 + 10);
    assert!(!e.is_expired_at(u64::MAX));
}

#[test]
fn entry_with_clock_is_fresh_then_expired() {
    let e = CacheEntry::new("9.9.9.9".to_string(), 7, 60_000);
    assert!(!e.is_expired());
    let gone = CacheEntry::new("9.9.9.9".to_string(), 7, 0);
    assert!(gone.is_expired());
}

#[test]
fn clock_counts_from_its_start() {
    let c = Clock::start();
    let a = c.millis();
    let b = c.millis();
    assert!(a < 60_000);
    assert!(b >= a);
}

#[test]
fn entry_time_line_starts_at_creation() {
    let e = CacheEntry::new("1.1.1.1".to_string(), 1, 500);
    assert_eq!(e.created_at, 0);
    assert_eq!(e.expires_at, 500);
    assert!(e.current_time() < 500);
    let f = CacheEntry::new_at("1.1.1.1".to_string(), 1, 500, 1000);
    assert_eq!(f.created_at, 1000);
    assert!(f.current_time() >= 1000);
    assert!(!f.is_expired());
}

#[test]
fn get_after_set_within_ttl() {
    let mut c = IpCache::new(300_000);
    c.set_at("github.com".to_string(), "20.27.177.113".to_string(), 120, 1_000);
    assert_eq!(c.get_at("github.com", 1_000), Some("20.27.177.113".to_string()));
    assert_eq!(c.get_at("github.com", 300_999), Some("20.27.177.113".to_string()));
    assert_eq!(c.get_at("example.com", 2_000), None);
}

#[test]
fn get_after_expiry_removes_entry() {
    let mut c = IpCache::new(1_000);
    c.put_at("httpbin.org", "39.144.137.220", 50, 0);
    assert_eq!(c.stats_at(0).total, 1);
    assert_eq!(c.get_at("httpbin.org", 1_000), None);
    assert_eq!(c.stats_at(0).total, 0);
}

#[test]
fn get_entry_returns_whole_entry() {
    let mut c = IpCache::new(10);
    c.put_at("crates.io", "1.1.1.1", 33, 100);
    let e = c.get_entry_at("crates.io", 105).unwrap();
    assert_eq!(e.ip, "1.1.1.1");
    assert_eq!(e.latency, 33);
    assert_eq!(e.expires_at(), 110);
    assert!(c.get_entry_at("crates.io", 110).is_none());
}

#[test]
fn set_replaces_previous_entry() {
    let mut c = IpCache::new(100);
    c.put_at("a.com", "1.1.1.1", 1, 0);
    c.put_at("a.com", "2.2.2.2", 2, 0);
    assert_eq!(c.get_at("a.com", 50), Some("2.2.2.2".to_string()));
    assert_eq!(c.stats_at(0).total, 1);
}

#[test]
fn set_keeps_other_domains() {
    let mut c = IpCache::new(100);
    c.put_at("a.com", "1.1.1.1", 1, 0);
    c.put_at("b.com", "2.2.2.2", 2, 0);
    assert_eq!(c.get_at("a.com", 10), Some("1.1.1.1".to_string()));
    assert_eq!(c.get_at("b.com", 10), Some("2.2.2.2".to_string()));
}

#[test]
fn remove_drops_entry() {
    let mut c = IpCache::new(100);
    c.put_at("a.com", "1.1.1.1", 1, 0);
    c.remove("a.com");
    assert_eq!(c.get_at("a.com", 1), None);
    c.remove("missing.com");
    assert_eq!(c.stats_at(1).total, 0);
}

#[test]
fn stats_count_active_and_total() {
    let mut c = IpCache::new(100);
    c.put_at("a.com", "1.1.1.1", 1, 0);
    c.put_at("b.com", "2.2.2.2", 2, 50);
    c.put_at("c.com", "3.3.3.3", 3, 200);
    let s = c.stats_at(120);
    assert_eq!(s.total, 3);
    assert_eq!(s.active, 2);
    let s = c.stats_at(400);
    assert_eq!(s.total, 3);
    assert_eq!(s.active, 0);
}

#[test]
fn clear_empties_cache() {
    let mut c = IpCache::new(100);
    c.put_at("a.com", "1.1.1.1", 1, 0);
    c.put_at("b.com", "2.2.2.2", 2, 0);
    c.clear();
    let s = c.stats_at(0);
    assert_eq!(s.total, 0);
    assert_eq!(s.active, 0);
    assert_eq!(c.get_at("a.com", 0), None);
}

#[test]
fn clock_methods_store_and_serve() {
    let mut c = IpCache::new(600_000);
    c.set("github.com".to_string(), "20.27.177.113".to_string(), 120);
    c.put("crates.io", "1.2.3.4", 9);
    assert_eq!(c.get("github.com"), Some("20.27.177.113".to_string()));
    assert_eq!(c.get_entry("crates.io").map(|e| e.latency), Some(9));
    let s = c.stats();
    assert_eq!(s.total, 2);
    assert_eq!(s.active, 2);
    assert_eq!(c.ttl_millis(), 600_000);
}

#[test]
fn zero_ttl_entries_are_never_served() {
    let mut c = IpCache::new(0);
    c.put("a.com", "1.1.1.1", 1);
    assert_eq!(c.get("a.com"), None);
    assert_eq!(c.stats().total, 0);
}

#[test]
fn cache_time_never_goes_back() {
    let mut c = IpCache::new(1000);
    let t1 = c.now();
    let t2 = c.now();
    assert!(t2 >= t1);
    assert!(c.current_time() >= t2);
    let e = CacheEntry::new_at("1.1.1.1".to_string(), 3, 10, 20);
    assert_eq!(e.expires_at, 30);
}

#[test]
fn longest_lifetime_outlasts_every_time() {
    let mut c = IpCache::new(u64::MAX);
    c.set_at("a.com".to_string(), "1.1.1.1".to_string(), 5, 1_000);
    assert_eq!(c.get_at("a.com", u64::MAX), Some("1.1.1.1".to_string()));
    let s = c.stats_at(u64::MAX);
    assert_eq!((s.total, s.active), (1, 1));
}
