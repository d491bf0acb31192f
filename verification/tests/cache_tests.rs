use podbringer::cache::{TtlCache, DEFAULT_TTL};
use podbringer::Error;

#[test]
fn lookup_hits_within_the_ttl_window() {
    let mut cache: TtlCache<String> = TtlCache::new(DEFAULT_TTL);
    cache.store("k", String::from("value"), 1_000);
    assert_eq!(cache.lookup("k", 1_000), Some(&String::from("value")));
    assert_eq!(cache.lookup("k", 1_000 + DEFAULT_TTL - 1), Some(&String::from("value")));
}

#[test]
fn lookup_misses_after_the_ttl() {
    let mut cache: TtlCache<String> = TtlCache::new(DEFAULT_TTL);
    cache.store("k", String::from("value"), 1_000);
    assert_eq!(cache.lookup("k", 1_000 + DEFAULT_TTL), None);
    assert_eq!(cache.lookup("other", 1_000), None);
}

#[test]
fn store_replaces_what_a_key_held() {
    let mut cache: TtlCache<String> = TtlCache::new(60);
    cache.store("k", String::from("old"), 0);
    cache.store("k", String::from("new"), 10);
    assert_eq!(cache.lookup("k", 20), Some(&String::from("new")));
    // the newer store refreshed the clock too
    assert_eq!(cache.lookup("k", 65), Some(&String::from("new")));
    assert_eq!(cache.lookup("k", 70), None);
}

#[test]
fn second_call_within_ttl_does_not_recompute() {
    let mut cache: TtlCache<String> = TtlCache::new(DEFAULT_TTL);
    let (r, invoked) = cache.get_or_compute("k", 0, || Ok(String::from("resolved")));
    assert!(invoked);
    assert_eq!(r.unwrap(), "resolved");

    // identical key within the window: answered from the cache
    let (r, invoked) = cache.get_or_compute("k", 100, || {
        panic!("the computation must not run on a fresh hit")
    });
    assert!(!invoked);
    assert_eq!(r.unwrap(), "resolved");
}

#[test]
fn call_after_expiry_recomputes() {
    let mut cache: TtlCache<String> = TtlCache::new(DEFAULT_TTL);
    let (_, invoked) = cache.get_or_compute("k", 0, || Ok(String::from("first")));
    assert!(invoked);
    let (r, invoked) = cache.get_or_compute("k", DEFAULT_TTL, || Ok(String::from("second")));
    assert!(invoked);
    assert_eq!(r.unwrap(), "second");
}

#[test]
fn failures_are_never_cached() {
    let mut cache: TtlCache<String> = TtlCache::new(DEFAULT_TTL);
    let (r, invoked) = cache.get_or_compute("k", 0, || {
        Err(Error::Request(String::from("connection reset")))
    });
    assert!(invoked);
    assert!(r.is_err());

    // the same key immediately afterwards: attempted again, and a
    // success is then stored
    let (r, invoked) = cache.get_or_compute("k", 1, || Ok(String::from("ok now")));
    assert!(invoked);
    assert_eq!(r.unwrap(), "ok now");

    let (r, invoked) = cache.get_or_compute("k", 2, || Err(Error::NoRedirectUrlFound));
    assert!(!invoked);
    assert_eq!(r.unwrap(), "ok now");
}

#[test]
fn key_spaces_are_independent() {
    let mut cache: TtlCache<String> = TtlCache::new(DEFAULT_TTL);
    cache.store("a", String::from("1"), 0);
    cache.store("b", String::from("2"), 0);
    assert_eq!(cache.lookup("a", 1), Some(&String::from("1")));
    assert_eq!(cache.lookup("b", 1), Some(&String::from("2")));
}
