use vault_config::cache::{CacheState, ConfigError, RefreshAction, RefreshPolicy};

/// A stand-in for the secret store: one whole document and counts of the calls made.
struct FakeStore {
    document: Vec<(String, String)>,
    reads: usize,
    writes: usize,
    up: bool,
}

impl FakeStore {
    fn new(pairs: &[(&str, &str)]) -> FakeStore {
        FakeStore {
            document: pairs.iter().map(|(k, v)| (k.to_string(), v.to_string())).collect(),
            reads: 0,
            writes: 0,
            up: true,
        }
    }

    /// Runs the refresh check at `now` and performs whatever it asks for.
    fn check(&mut self, cache: &mut CacheState, now: u64, policy: RefreshPolicy) {
        match cache.decide(now, policy) {
            RefreshAction::Idle => {}
            RefreshAction::Write(pairs) => {
                self.writes += 1;
                if self.up {
                    self.document = pairs;
                    cache.finish_write(Ok(()));
                } else {
                    cache.finish_write(Err(ConfigError::StoreUnavailable));
                }
            }
            RefreshAction::Fetch => {
                self.reads += 1;
                if self.up {
                    cache.finish_fetch(Ok(self.document.clone()));
                } else {
                    cache.finish_fetch(Err(ConfigError::StoreUnavailable));
                }
            }
        }
    }
}

#[test]
fn scenario_two_fetches_across_expiry() {
    let mut store = FakeStore::new(&[("token", "T1")]);
    let mut cache = CacheState::new(0, 50);
    store.check(&mut cache, 0, RefreshPolicy::OnAccess);
    assert_eq!(cache.get_string("token"), Ok("T1".to_string()));
    assert_eq!(store.reads, 1);
    store.check(&mut cache, 60, RefreshPolicy::OnAccess);
    assert_eq!(cache.get_string("token"), Ok("T1".to_string()));
    assert_eq!(store.reads, 2);
    assert_eq!(store.writes, 0);
}

#[test]
fn first_access_refreshes_exactly_once() {
    let mut store = FakeStore::new(&[("prefix", "!")]);
    let mut cache = CacheState::new(1000, 60_000);
    assert!(cache.is_stale(1000));
    store.check(&mut cache, 1005, RefreshPolicy::OnAccess);
    assert_eq!(store.reads, 1);
    assert_eq!(cache.expires_at(), 61_000);
    assert_eq!(cache.get_string("prefix"), Ok("!".to_string()));
}

#[test]
fn fresh_reads_make_no_calls() {
    let mut store = FakeStore::new(&[("presence", "online")]);
    let mut cache = CacheState::new(0, 100);
    store.check(&mut cache, 0, RefreshPolicy::OnAccess);
    let first = cache.get_string("presence");
    for now in [1u64, 50, 99] {
        store.check(&mut cache, now, RefreshPolicy::OnAccess);
        assert_eq!(cache.get_string("presence"), first);
    }
    assert_eq!(store.reads, 1);
    assert_eq!(store.writes, 0);
}

#[test]
fn set_is_written_before_any_read() {
    let mut store = FakeStore::new(&[("level", "info")]);
    let mut cache = CacheState::new(0, 100);
    store.check(&mut cache, 0, RefreshPolicy::OnAccess);
    cache.set_string("level", "debug");
    assert!(cache.is_dirty());
    match cache.decide(150, RefreshPolicy::OnAccess) {
        RefreshAction::Write(pairs) => {
            assert_eq!(pairs, vec![("level".to_string(), "debug".to_string())]);
        }
        _ => panic!("expected a write"),
    }
    store.check(&mut cache, 150, RefreshPolicy::OnAccess);
    assert_eq!(store.writes, 1);
    assert_eq!(store.reads, 1);
    assert!(!cache.is_dirty());
    assert_eq!(store.document, vec![("level".to_string(), "debug".to_string())]);
}

#[test]
fn round_trip_integer() {
    let mut store = FakeStore::new(&[]);
    let mut cache = CacheState::new(0, 10);
    cache.set_i64("shards", -42);
    store.check(&mut cache, 0, RefreshPolicy::Background);
    assert_eq!(store.writes, 1);
    store.check(&mut cache, 0, RefreshPolicy::Background);
    assert_eq!(store.reads, 1);
    assert_eq!(cache.get_i64("shards"), Ok(-42));
    assert_eq!(store.document, vec![("shards".to_string(), "-42".to_string())]);
}

#[test]
fn round_trip_boolean() {
    let mut store = FakeStore::new(&[]);
    let mut cache = CacheState::new(0, 10);
    cache.set_bool("enabled", true);
    store.check(&mut cache, 0, RefreshPolicy::Background);
    store.check(&mut cache, 0, RefreshPolicy::Background);
    assert_eq!(cache.get_bool("enabled"), Ok(true));
    assert_eq!(store.writes, 1);
    assert_eq!(store.reads, 1);
}

#[test]
fn round_trip_string() {
    let mut store = FakeStore::new(&[]);
    let mut cache = CacheState::new(0, 10);
    cache.set_string("token", "abc:def");
    store.check(&mut cache, 0, RefreshPolicy::Background);
    store.check(&mut cache, 0, RefreshPolicy::Background);
    assert_eq!(cache.get_string("token"), Ok("abc:def".to_string()));
}

#[test]
fn missing_key_is_reported() {
    let cache = CacheState::new(0, 10);
    assert_eq!(
        cache.get_string("missing"),
        Err(ConfigError::KeyNotFound("missing".to_string()))
    );
    assert_eq!(cache.get_i64("missing"), Err(ConfigError::KeyNotFound("missing".to_string())));
    assert_eq!(cache.get_bool("missing"), Err(ConfigError::KeyNotFound("missing".to_string())));
}

#[test]
fn unparsable_value_is_reported() {
    let mut cache = CacheState::new(0, 10);
    cache.set_string("k", "abc");
    assert_eq!(
        cache.get_i64("k"),
        Err(ConfigError::ParseError("k".to_string(), "abc".to_string()))
    );
    assert_eq!(
        cache.get_bool("k"),
        Err(ConfigError::ParseError("k".to_string(), "abc".to_string()))
    );
}

#[test]
fn fetch_replaces_the_whole_document() {
    let mut store = FakeStore::new(&[("a", "1"), ("b", "2")]);
    let mut cache = CacheState::new(0, 10);
    store.check(&mut cache, 0, RefreshPolicy::OnAccess);
    store.document = vec![("c".to_string(), "3".to_string())];
    store.check(&mut cache, 10, RefreshPolicy::OnAccess);
    assert_eq!(cache.get_string("a"), Err(ConfigError::KeyNotFound("a".to_string())));
    assert_eq!(cache.get_string("b"), Err(ConfigError::KeyNotFound("b".to_string())));
    assert_eq!(cache.get_i64("c"), Ok(3));
}

#[test]
fn failed_fetch_keeps_the_last_document() {
    let mut store = FakeStore::new(&[("a", "1")]);
    let mut cache = CacheState::new(0, 10);
    store.check(&mut cache, 0, RefreshPolicy::OnAccess);
    store.up = false;
    store.check(&mut cache, 20, RefreshPolicy::OnAccess);
    assert_eq!(cache.get_i64("a"), Ok(1));
    assert_eq!(cache.expires_at(), 10);
    assert!(cache.is_stale(20));
    store.check(&mut cache, 21, RefreshPolicy::OnAccess);
    assert_eq!(store.reads, 3);
}

#[test]
fn failed_write_keeps_the_change() {
    let mut store = FakeStore::new(&[("a", "1")]);
    let mut cache = CacheState::new(0, 10);
    cache.set_string("a", "2");
    store.up = false;
    store.check(&mut cache, 0, RefreshPolicy::OnAccess);
    assert!(cache.is_dirty());
    assert_eq!(cache.expires_at(), 0);
    assert_eq!(cache.get_string("a"), Ok("2".to_string()));
    store.up = true;
    store.check(&mut cache, 1, RefreshPolicy::OnAccess);
    assert!(!cache.is_dirty());
    assert_eq!(store.writes, 2);
    assert_eq!(store.document, vec![("a".to_string(), "2".to_string())]);
}

#[test]
fn background_tick_runs_even_when_fresh() {
    let cache = CacheState::new(0, 1000);
    let mut store = FakeStore::new(&[]);
    let mut cache = cache;
    store.check(&mut cache, 0, RefreshPolicy::OnAccess);
    assert!(matches!(cache.decide(5, RefreshPolicy::OnAccess), RefreshAction::Idle));
    assert!(matches!(cache.decide(5, RefreshPolicy::Background), RefreshAction::Fetch));
}

#[test]
fn expiry_advances_by_the_interval_and_saturates() {
    let mut cache = CacheState::new(100, 30);
    cache.finish_fetch(Ok(vec![]));
    assert_eq!(cache.expires_at(), 130);
    assert_eq!(cache.interval(), 30);
    let mut late = CacheState::new(u64::MAX - 5, 30);
    late.finish_write(Ok(()));
    assert_eq!(late.expires_at(), u64::MAX);
}

#[test]
fn repeated_set_keeps_one_entry_per_key() {
    let mut cache = CacheState::new(0, 10);
    cache.set_i64("n", 1);
    cache.set_i64("n", 2);
    cache.set_string("m", "x");
    match cache.decide(0, RefreshPolicy::OnAccess) {
        RefreshAction::Write(pairs) => assert_eq!(
            pairs,
            vec![("n".to_string(), "2".to_string()), ("m".to_string(), "x".to_string())]
        ),
        _ => panic!("expected a write"),
    }
}
