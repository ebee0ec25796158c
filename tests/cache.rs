use mine_stats::codec::{encode_fields, Field};
use mine_stats::cache::{cache_key, list_keys, CacheKind, CacheLookup, CacheStatus, CacheStore, TIMEOUT_SECS};
use mine_stats::github::stats::{Rank, UserGithubStats};
use mine_stats::github::top_langs::{Lang, TopLangs};
use mine_stats::utils::SystemTimeWrapper;

fn at(secs: u64) -> SystemTimeWrapper {
    SystemTimeWrapper { secs, nanos: 0 }
}

fn stats(login: &str, stars: i64, created: SystemTimeWrapper) -> UserGithubStats {
    UserGithubStats {
        login: login.to_string(),
        name: login.to_string(),
        stars,
        commits: 1,
        repos: 2,
        prs: 3,
        issues: 4,
        contribs: 5,
        followers: 6,
        rank: Rank::default(),
        create_at: created,
    }
}

#[test]
fn key_is_kind_and_key_joined() {
    assert_eq!(cache_key(CacheKind::UserGithubStats, "octocat"), "UserGithubStats__octocat");
    assert_eq!(cache_key(CacheKind::TopLangs, "octocat"), "TopLangs__octocat");
}

#[test]
fn listed_keys_include_stored_stats_key() {
    let mut cache = CacheStore::new();
    cache.store_stats("octocat", &stats("octocat", 1, at(0)));
    let keys = list_keys(&cache);
    assert_eq!(keys.len(), 1);
    assert!(keys.contains(&"UserGithubStats__octocat".to_string()));
}

#[test]
fn fetch_happens_once_within_timeout() {
    let mut cache = CacheStore::new();
    let mut fetches = 0;
    let created = at(1_000);
    for now in [1_000u64, 1_500, 1_000 + TIMEOUT_SECS] {
        match cache.cached_stats("alice", at(now), TIMEOUT_SECS) {
            Ok(s) => assert_eq!(s.stars, 10),
            Err(_) => {
                fetches += 1;
                cache.store_stats("alice", &stats("alice", 10, created));
            }
        }
    }
    assert_eq!(fetches, 1);
}

#[test]
fn stale_entry_is_fetched_again() {
    let mut cache = CacheStore::new();
    assert_eq!(cache.cached_stats("alice", at(0), TIMEOUT_SECS).err(), Some(CacheStatus::Miss));
    cache.store_stats("alice", &stats("alice", 10, at(0)));
    assert!(cache.cached_stats("alice", at(TIMEOUT_SECS), TIMEOUT_SECS).is_ok());
    let later = SystemTimeWrapper { secs: TIMEOUT_SECS, nanos: 1 };
    assert_eq!(cache.cached_stats("alice", later, TIMEOUT_SECS).err(), Some(CacheStatus::Update));
    cache.store_stats("alice", &stats("alice", 11, later));
    assert_eq!(cache.cached_stats("alice", later, TIMEOUT_SECS).unwrap().stars, 11);
}

#[test]
fn kinds_do_not_share_entries() {
    let mut cache = CacheStore::new();
    cache.store_stats("alice", &stats("alice", 10, at(0)));
    assert_eq!(cache.cached_langs("alice", at(0), TIMEOUT_SECS).err(), Some(CacheStatus::Miss));
    let mut langs = TopLangs::new(at(0));
    langs
        .add_language(Lang { name: "Go".to_string(), color: None, size: 7 })
        .unwrap();
    cache.store_langs("alice", &langs);
    assert_eq!(cache.cached_stats("alice", at(0), TIMEOUT_SECS).unwrap().stars, 10);
    assert_eq!(cache.cached_langs("alice", at(0), TIMEOUT_SECS).unwrap().langs()[0].size, 7);
    assert_eq!(list_keys(&cache).len(), 2);
}

#[test]
fn raw_store_overwrites_one_entry() {
    let mut cache = CacheStore::new();
    cache.set(CacheKind::TopLangs, "bob", vec![1, 2]);
    cache.set(CacheKind::TopLangs, "bob", vec![3]);
    assert_eq!(cache.get(CacheKind::TopLangs, "bob"), Some(vec![3]));
    assert_eq!(cache.get(CacheKind::UserGithubStats, "bob"), None);
    assert_eq!(cache.list_keys(), vec!["TopLangs__bob".to_string()]);
}

#[test]
fn unreadable_entry_is_replaced() {
    let mut cache = CacheStore::new();
    cache.set(CacheKind::UserGithubStats, "bob", vec![]);
    assert!(matches!(cache.lookup(CacheKind::UserGithubStats, "bob", at(0), TIMEOUT_SECS), CacheLookup::Update));
    assert_eq!(cache.cached_stats("bob", at(0), TIMEOUT_SECS).err(), Some(CacheStatus::Update));
}

#[test]
fn clock_before_creation_counts_as_fresh() {
    let created = at(100);
    assert!(!created.older_than(at(50), 0));
    assert!(created.older_than(SystemTimeWrapper { secs: 100, nanos: 1 }, 0));
    assert!(!created.older_than(at(160), 60));
    assert!(created.older_than(SystemTimeWrapper { secs: 160, nanos: 1 }, 60));
}

#[test]
fn timestamp_carries_whole_seconds() {
    let t = SystemTimeWrapper::new(5, 2_500_000_000).unwrap();
    assert_eq!(t, SystemTimeWrapper { secs: 7, nanos: 500_000_000 });
    assert!(SystemTimeWrapper::new(u64::MAX, 1_000_000_000).is_none());
}

#[test]
fn entry_with_only_a_timestamp_is_replaced() {

    let mut cache = CacheStore::new();
    cache.set(CacheKind::UserGithubStats, "bob", encode_fields(&vec![Field::U64(0), Field::U64(0)]));
    assert!(matches!(cache.lookup(CacheKind::UserGithubStats, "bob", at(0), TIMEOUT_SECS), CacheLookup::Get(_)));
    assert_eq!(cache.cached_stats("bob", at(0), TIMEOUT_SECS).err(), Some(CacheStatus::Update));
}
