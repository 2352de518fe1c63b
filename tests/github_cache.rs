use enerby_dev::github_api::GitHubRepoInfo;
use enerby_dev::github_cache::{
    get_cached_repo, global_cache, set_cached_repo, CacheEntry, GitHubCache, DEFAULT_TTL_SECONDS,
};

fn create_test_repo(name: &str) -> GitHubRepoInfo {
    GitHubRepoInfo {
        name: name.to_string(),
        full_name: format!("owner/{}", name),
        description: Some("Test repo".to_string()),
        homepage: Some("https://example.com".to_string()),
        language: Some("Rust".to_string()),
        stargazers_count: 10,
        forks_count: 2,
        fork: false,
        archived: false,
        topics: vec!["test".to_string()],
        html_url: format!("https://github.com/owner/{}", name),
    }
}

#[test]
fn test_cache_entry_new() {
    let repo = create_test_repo("test");
    let entry = CacheEntry::new(repo.clone(), 3600);
    assert_eq!(entry.data.name, "test");
    assert_eq!(entry.ttl_seconds, 3600);
    assert!(entry.cached_at > 0);
}

#[test]
fn test_cache_entry_with_default_ttl() {
    let repo = create_test_repo("test");
    let entry = CacheEntry::with_default_ttl(repo);
    assert_eq!(entry.ttl_seconds, DEFAULT_TTL_SECONDS);
}

#[test]
fn test_cache_entry_not_expired() {
    let repo = create_test_repo("test");
    let entry = CacheEntry::new(repo, 3600);
    assert!(!entry.is_expired());
}

#[test]
fn test_cache_entry_expired() {
    let repo = create_test_repo("test");
    let mut entry = CacheEntry::new(repo, 1);
    entry.cached_at = entry.cached_at.saturating_sub(10);
    assert!(entry.is_expired());
}

#[test]
fn test_cache_entry_age() {
    let repo = create_test_repo("test");
    let entry = CacheEntry::new(repo, 3600);
    assert!(entry.age_seconds() < 2);
}

#[test]
fn test_cache_entry_remaining_ttl() {
    let repo = create_test_repo("test");
    let entry = CacheEntry::new(repo, 3600);
    let remaining = entry.remaining_ttl();
    assert!(remaining > 3590 && remaining <= 3600);
}

#[test]
fn expiry_boundary_for_several_lifetimes() {
    for ttl in [1u64, 2, 60, 3600] {
        let now = 1_000_000u64;
        let old = CacheEntry::new_at(create_test_repo("t"), ttl, now - ttl - 1);
        assert!(old.is_expired_at(now));
        let fresh = CacheEntry::new_at(create_test_repo("t"), ttl, now);
        assert!(!fresh.is_expired_at(now));
        let edge = CacheEntry::new_at(create_test_repo("t"), ttl, now - ttl);
        assert!(!edge.is_expired_at(now));
    }
}

#[test]
fn entry_age_and_remaining_at_given_times() {
    let entry = CacheEntry::new_at(create_test_repo("t"), 100, 1_000);
    assert_eq!(entry.age_seconds_at(1_040), 40);
    assert_eq!(entry.age_seconds_at(900), 0);
    assert_eq!(entry.remaining_ttl_at(1_040), 60);
    assert_eq!(entry.remaining_ttl_at(1_100), 0);
    assert_eq!(entry.remaining_ttl_at(5_000), 0);
    let huge = CacheEntry::new_at(create_test_repo("t"), u64::MAX, u64::MAX);
    assert_eq!(huge.remaining_ttl_at(0), u64::MAX);
    assert!(!huge.is_expired_at(u64::MAX));
}

#[test]
fn test_cache_new() {
    let cache = GitHubCache::new();
    assert!(cache.is_empty());
    assert_eq!(cache.len(), 0);
}

#[test]
fn test_cache_with_custom_ttl() {
    let cache = GitHubCache::with_ttl(7200);
    assert_eq!(cache.default_ttl(), 7200);
}

#[test]
fn test_cache_set_get() {
    let mut cache = GitHubCache::new();
    let repo = create_test_repo("myrepo");
    cache.set("owner", "myrepo", repo.clone());
    let cached = cache.get("owner", "myrepo");
    assert!(cached.is_some());
    assert_eq!(cached.unwrap().name, "myrepo");
}

#[test]
fn test_cache_case_insensitive() {
    let mut cache = GitHubCache::new();
    let repo = create_test_repo("MyRepo");
    cache.set("Owner", "MyRepo", repo);
    assert!(cache.get("owner", "myrepo").is_some());
    assert!(cache.get("OWNER", "MYREPO").is_some());
}

#[test]
fn set_mixed_case_then_get_lower_case_returns_the_data() {
    let mut cache = GitHubCache::new();
    cache.set_at("Owner", "Repo", create_test_repo("x"), 500);
    let got = cache.get_at("owner", "repo", 500).unwrap();
    assert_eq!(got.name, "x");
    assert_eq!(cache.len(), 1);
}

#[test]
fn test_cache_get_nonexistent() {
    let cache = GitHubCache::new();
    assert!(cache.get("owner", "nonexistent").is_none());
}

#[test]
fn test_cache_get_with_stale() {
    let mut cache = GitHubCache::new();
    let repo = create_test_repo("test");
    cache.set("owner", "test", repo);
    let result = cache.get_with_stale("owner", "test");
    assert!(result.is_some());
    let (data, is_stale) = result.unwrap();
    assert_eq!(data.name, "test");
    assert!(!is_stale);
}

#[test]
fn stale_entries_are_returned_only_with_staleness() {
    let mut cache = GitHubCache::new();
    cache.set_with_ttl_at("owner", "old", create_test_repo("old"), 10, 100);
    assert!(cache.get_at("owner", "old", 111).is_none());
    let (data, stale) = cache.get_with_stale_at("owner", "old", 111).unwrap();
    assert_eq!(data.name, "old");
    assert!(stale);
    let (_, stale_then) = cache.get_with_stale_at("owner", "old", 110).unwrap();
    assert!(!stale_then);
    assert!(cache.get_with_stale_at("owner", "missing", 111).is_none());
}

#[test]
fn test_cache_remove() {
    let mut cache = GitHubCache::new();
    let repo = create_test_repo("test");
    cache.set("owner", "test", repo);
    assert!(cache.get("owner", "test").is_some());
    let removed = cache.remove("owner", "test");
    assert!(removed.is_some());
    assert!(cache.get("owner", "test").is_none());
}

#[test]
fn remove_of_a_missing_key_changes_nothing() {
    let mut cache = GitHubCache::new();
    cache.set_at("owner", "a", create_test_repo("a"), 1);
    assert!(cache.remove("owner", "b").is_none());
    assert_eq!(cache.len(), 1);
    assert_eq!(cache.remove("OWNER", "A").unwrap().name, "a");
    assert!(cache.is_empty());
}

#[test]
fn test_cache_clear() {
    let mut cache = GitHubCache::new();
    cache.set("owner", "repo1", create_test_repo("repo1"));
    cache.set("owner", "repo2", create_test_repo("repo2"));
    assert_eq!(cache.len(), 2);
    cache.clear();
    assert!(cache.is_empty());
}

#[test]
fn set_twice_keeps_one_entry_and_the_last_data() {
    let mut cache = GitHubCache::new();
    cache.set_at("owner", "r", create_test_repo("first"), 1);
    cache.set_at("Owner", "R", create_test_repo("second"), 2);
    assert_eq!(cache.len(), 1);
    assert_eq!(cache.get_at("owner", "r", 2).unwrap().name, "second");
    assert_eq!(cache.entry("owner", "r").unwrap().cached_at, 2);
}

#[test]
fn test_cache_len_valid() {
    let mut cache = GitHubCache::new();
    cache.set("owner", "repo1", create_test_repo("repo1"));
    cache.set_with_ttl("owner", "repo2", create_test_repo("repo2"), 1);
    cache.backdate("owner", "repo2", 10);
    assert_eq!(cache.len(), 2);
    assert_eq!(cache.len_valid(), 1);
}

#[test]
fn test_cache_cleanup_expired() {
    let mut cache = GitHubCache::new();
    cache.set("owner", "fresh", create_test_repo("fresh"));
    cache.set_with_ttl("owner", "stale", create_test_repo("stale"), 1);
    cache.backdate("owner", "stale", 10);
    assert_eq!(cache.len(), 2);
    cache.cleanup_expired();
    assert_eq!(cache.len(), 1);
    assert!(cache.get("owner", "fresh").is_some());
}

#[test]
fn cleanup_at_a_given_time() {
    let mut cache = GitHubCache::with_ttl(10);
    cache.set_at("o", "a", create_test_repo("a"), 0);
    cache.set_at("o", "b", create_test_repo("b"), 5);
    cache.set_at("o", "c", create_test_repo("c"), 20);
    assert_eq!(cache.len_valid_at(12), 2);
    cache.cleanup_expired_at(12);
    assert_eq!(cache.len(), 2);
    assert!(!cache.has_any("o", "a"));
    assert!(cache.has_any("o", "b"));
    assert!(cache.has_any("o", "c"));
}

#[test]
fn test_cache_has_fresh_and_has_any() {
    let mut cache = GitHubCache::new();
    cache.set_with_ttl("owner", "test", create_test_repo("test"), 1);
    assert!(cache.has_fresh("owner", "test"));
    assert!(cache.has_any("owner", "test"));
    cache.backdate("owner", "test", 10);
    assert!(!cache.has_fresh("owner", "test"));
    assert!(cache.has_any("owner", "test"));
}

#[test]
fn backdate_saturates_at_zero() {
    let mut cache = GitHubCache::new();
    cache.set_at("o", "r", create_test_repo("r"), 5);
    cache.backdate("o", "r", 10);
    assert_eq!(cache.entry("o", "r").unwrap().cached_at, 0);
    cache.backdate("o", "missing", 10);
    assert_eq!(cache.len(), 1);
}

#[test]
fn test_cache_load_or_empty_invalid() {
    let loaded = GitHubCache::load_or_empty("invalid json");
    assert!(loaded.is_empty());
}

#[test]
fn test_cache_merge() {
    let mut cache1 = GitHubCache::new();
    cache1.set("owner", "repo1", create_test_repo("repo1"));
    let mut cache2 = GitHubCache::new();
    cache2.set("owner", "repo2", create_test_repo("repo2"));
    cache1.merge(cache2);
    assert!(cache1.get("owner", "repo1").is_some());
    assert!(cache1.get("owner", "repo2").is_some());
}

fn cache_with(name: &str, at: u64) -> GitHubCache {
    let mut cache = GitHubCache::new();
    cache.set_at("owner", "k", create_test_repo(name), at);
    cache
}

#[test]
fn merge_keeps_the_newer_entry_in_either_order() {
    let mut a = cache_with("a", 100);
    a.merge(cache_with("b", 200));
    assert_eq!(a.entry("owner", "k").unwrap().cached_at, 200);
    assert_eq!(a.entry("owner", "k").unwrap().data.name, "b");

    let mut b = cache_with("b", 200);
    b.merge(cache_with("a", 100));
    assert_eq!(b.entry("owner", "k").unwrap().cached_at, 200);
    assert_eq!(b.entry("owner", "k").unwrap().data.name, "b");
}

#[test]
fn merge_tie_keeps_the_receivers_entry() {
    let mut a = cache_with("mine", 100);
    a.merge(cache_with("theirs", 100));
    assert_eq!(a.entry("owner", "k").unwrap().data.name, "mine");
    assert_eq!(a.len(), 1);
}

#[test]
fn test_cache_populate_from_static() {
    let mut cache = GitHubCache::new();
    cache.populate_from_static();
    assert!(cache.len() >= 4);
    assert!(cache.get("enerBydev", "enerby.dev").is_some());
}

#[test]
fn test_global_cache_get() {
    let cache = global_cache();
    let repo = get_cached_repo(&cache, "enerBydev", "enerby.dev");
    assert!(repo.is_some());
    assert_eq!(repo.unwrap().homepage, Some("https://enerby.dev".to_string()));
}

#[test]
fn set_cached_repo_stores_under_the_lower_cased_key() {
    let mut cache = GitHubCache::new();
    set_cached_repo(&mut cache, "Someone", "Thing", create_test_repo("thing"));
    assert_eq!(get_cached_repo(&cache, "someone", "thing").unwrap().name, "thing");
}

#[test]
fn test_cache_to_json() {
    let mut cache = GitHubCache::new();
    cache.set("owner", "test", create_test_repo("test"));
    let json = cache.to_json();
    assert!(json.is_ok());
    let json_str = json.unwrap();
    assert!(json_str.contains("owner/test"));
    assert!(json_str.contains("\"name\": \"test\""));
}

#[test]
fn test_cache_from_json() {
    let mut original = GitHubCache::new();
    original.set("owner", "test", create_test_repo("test"));
    let json = original.to_json().unwrap();
    let restored = GitHubCache::from_json(&json);
    assert!(restored.is_ok());
    let restored = restored.unwrap();
    assert!(restored.get("owner", "test").is_some());
}

#[test]
fn test_cache_load_or_empty_valid() {
    let mut original = GitHubCache::new();
    original.set("owner", "test", create_test_repo("test"));
    let json = original.to_json().unwrap();
    let loaded = GitHubCache::load_or_empty(&json);
    assert!(loaded.get("owner", "test").is_some());
}

#[test]
fn json_round_trip_keeps_every_field() {
    let mut original = GitHubCache::with_ttl(42);
    let mut repo = create_test_repo("full");
    repo.description = None;
    repo.fork = true;
    repo.topics = vec!["a".to_string(), "b".to_string()];
    original.set_with_ttl_at("Owner", "Full", repo, 7, 1234);
    let restored = GitHubCache::from_json(&original.to_json().unwrap()).unwrap();
    assert_eq!(restored.default_ttl(), 42);
    let entry = restored.entry("owner", "full").unwrap();
    assert_eq!(entry.cached_at, 1234);
    assert_eq!(entry.ttl_seconds, 7);
    assert_eq!(entry.data.description, None);
    assert!(entry.data.fork);
    assert_eq!(entry.data.topics, vec!["a", "b"]);
    assert_eq!(entry.data.stargazers_count, 10);
}

#[test]
fn json_with_defaults_and_bad_shapes() {
    let minimal = r#"{"entries": {"o/r": {"data": {"name": "r", "full_name": "o/r", "html_url": "https://github.com/o/r"}, "cached_at": 5, "ttl_seconds": 6}}}"#;
    let cache = GitHubCache::from_json(minimal).unwrap();
    assert_eq!(cache.default_ttl(), DEFAULT_TTL_SECONDS);
    let e = cache.entry("o", "r").unwrap();
    assert_eq!(e.data.homepage, None);
    assert_eq!(e.data.forks_count, 0);
    assert!(e.data.topics.is_empty());
    assert!(GitHubCache::from_json(r#"{"entries": {"o/r": {"cached_at": 5, "ttl_seconds": 6}}}"#).is_err());
    assert!(GitHubCache::from_json(r#"{"default_ttl": 5}"#).is_err());
    assert!(GitHubCache::from_json("[1, 2]").is_err());
    assert!(GitHubCache::from_json("not json").is_err());
    assert_eq!(GitHubCache::load_or_empty("").default_ttl(), DEFAULT_TTL_SECONDS);
}

#[test]
fn json_that_is_not_a_cache_loads_empty() {
    for text in ["[]", "{}", "null", "{\"entries\": []}", "{\"entries\": {}, \"default_ttl\": -1}"] {
        let loaded = GitHubCache::load_or_empty(text);
        assert!(loaded.is_empty());
        assert_eq!(loaded.default_ttl(), DEFAULT_TTL_SECONDS);
    }
    let empty_ok = GitHubCache::from_json("{\"entries\": {}, \"default_ttl\": 9}").unwrap();
    assert!(empty_ok.is_empty());
    assert_eq!(empty_ok.default_ttl(), 9);
}
