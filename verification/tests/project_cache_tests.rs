use backlog_mcp::ids::ProjectIdOrKey;
use backlog_mcp::project_cache::{
    entry_expired, formatting_rule_named, CacheConfig, Project, ProjectCacheManager,
    TextFormattingRule,
};
use std::sync::{Arc, Mutex};
use std::time::{Duration, Instant};

fn create_test_project(id: u32, key: &str) -> Project {
    Project {
        id,
        project_key: key.to_string(),
        name: format!("Test Project {id}"),
        chart_enabled: false,
        subtasking_enabled: false,
        project_leader_can_edit_project_leader: false,
        use_wiki: false,
        use_file_sharing: false,
        use_wiki_tree_view: false,
        use_original_image_size_at_wiki: false,
        text_formatting_rule: TextFormattingRule::Markdown,
        archived: false,
        display_order: 0,
        use_dev_attributes: false,
    }
}

#[test]
fn test_cache_and_retrieve_by_id() {
    let mut cache = ProjectCacheManager::new();
    let project = create_test_project(123, "TEST_PROJ");
    let project_id = project.id;
    cache.cache_project(project);
    let cached = cache.get_from_cache_by_id(project_id);
    assert!(cached.is_some());
    assert_eq!(cached.unwrap().id, project_id);
}

#[test]
fn test_cache_and_retrieve_by_key() {
    let mut cache = ProjectCacheManager::new();
    let project = create_test_project(456, "ANOTHER_PROJ");
    let project_key = project.project_key.clone();
    cache.cache_project(project);
    let cached = cache.get_from_cache_by_key(&project_key);
    assert!(cached.is_some());
    assert_eq!(cached.unwrap().project_key, project_key);
}

#[test]
fn test_bidirectional_cache() {
    let mut cache = ProjectCacheManager::new();
    let project = create_test_project(789, "BIDIRECT_PROJ");
    let project_id = project.id;
    let project_key = project.project_key.clone();
    cache.cache_project(project);
    let by_id = cache.get_from_cache_by_id(project_id);
    let by_key = cache.get_from_cache_by_key(&project_key);
    assert!(by_id.is_some());
    assert!(by_key.is_some());
    assert_eq!(by_id.unwrap().id, by_key.unwrap().id);
}

#[test]
fn test_get_by_id_with_api_call() {
    // The cache misses, the project is fetched, stored, and then found.
    let mut cache = ProjectCacheManager::new();
    assert!(cache.resolve_cached(&ProjectIdOrKey::Id(999)).is_none());
    let fetched = create_test_project(999, "API_PROJ");
    let project = cache.store_fetched(fetched);
    assert_eq!(project.id, 999);
    assert_eq!(project.project_key.as_str(), "API_PROJ");
    let cached = cache.get_from_cache_by_id(999);
    assert!(cached.is_some());
    assert_eq!(cached.unwrap().id, 999);
}

#[test]
fn test_get_by_key_with_api_call() {
    let mut cache = ProjectCacheManager::new();
    let key = ProjectIdOrKey::Key("KEY_PROJ".to_string());
    assert!(cache.resolve_cached(&key).is_none());
    let project = cache.store_fetched(create_test_project(1234, "KEY_PROJ"));
    assert_eq!(project.project_key, "KEY_PROJ");
    assert_eq!(project.id, 1234);
    let cached = cache.get_from_cache_by_key("KEY_PROJ");
    assert!(cached.is_some());
    assert_eq!(cached.unwrap().project_key, "KEY_PROJ");
}

#[test]
fn test_cache_not_found() {
    let mut cache = ProjectCacheManager::new();
    assert!(cache.get_from_cache_by_id(99999).is_none());
    assert!(cache.get_from_cache_by_key("NOTFOUND").is_none());
}

#[test]
fn test_resolve_project_id_or_key() {
    let mut cache = ProjectCacheManager::new();
    cache.cache_project(create_test_project(5555, "RESOLVE_PROJ"));
    let result = cache.resolve_cached(&ProjectIdOrKey::Id(5555));
    assert!(result.is_some());
    assert_eq!(result.unwrap().id, 5555);
    let result = cache.resolve_cached(&ProjectIdOrKey::Key("RESOLVE_PROJ".to_string()));
    assert!(result.is_some());
    assert_eq!(result.unwrap().project_key.as_str(), "RESOLVE_PROJ");
    let result =
        cache.resolve_cached(&ProjectIdOrKey::EitherIdOrKey(5555, "RESOLVE_PROJ".to_string()));
    assert!(result.is_some());
    assert_eq!(result.unwrap().id, 5555);
}

#[test]
fn test_concurrent_access() {
    // The cache is shared behind a lock; every holder's store is kept.
    let cache = Arc::new(Mutex::new(ProjectCacheManager::new()));
    let holders: Vec<_> = (0..10u32).map(|i| (i, cache.clone())).collect();
    for (i, holder) in holders {
        let project = create_test_project(i, &format!("CONCURRENT_{i}"));
        holder.lock().unwrap().cache_project(project);
    }
    let mut cache = cache.lock().unwrap();
    for i in 0..10u32 {
        let cached = cache.get_from_cache_by_id(i);
        assert!(cached.is_some());
        assert_eq!(cached.unwrap().id, i);
    }
}

#[test]
fn test_cache_with_ttl() {
    let config = CacheConfig { ttl: Some(Duration::from_millis(100)), max_size: None };
    let mut cache = ProjectCacheManager::with_config(config);
    cache.cache_project(create_test_project(111, "TTL_PROJ"));
    assert!(cache.get_from_cache_by_id(111).is_some());
    let start = Instant::now();
    while start.elapsed() < Duration::from_millis(150) {}
    assert!(cache.get_from_cache_by_id(111).is_none());
}

#[test]
fn test_cache_with_max_size() {
    let config = CacheConfig { ttl: None, max_size: Some(3) };
    let mut cache = ProjectCacheManager::with_config(config);
    for i in 0..3u32 {
        cache.cache_project(create_test_project(i, &format!("SIZE_{i}")));
    }
    for i in 0..3u32 {
        assert!(cache.get_from_cache_by_id(i).is_some());
    }
    cache.cache_project(create_test_project(3, "SIZE_3"));
    assert!(cache.get_from_cache_by_id(0).is_none());
    assert!(cache.get_from_cache_by_id(3).is_some());
}

#[test]
fn test_clear_cache() {
    let mut cache = ProjectCacheManager::new();
    for i in 0..5u32 {
        cache.cache_project(create_test_project(i, &format!("CLEAR_{i}")));
    }
    cache.clear();
    for i in 0..5u32 {
        assert!(cache.get_from_cache_by_id(i).is_none());
    }
}

#[test]
fn test_cache_size() {
    let mut cache = ProjectCacheManager::new();
    assert_eq!(cache.size(), 0);
    for i in 0..3u32 {
        cache.cache_project(create_test_project(i, &format!("SIZE_TEST_{i}")));
    }
    assert_eq!(cache.size(), 3);
    cache.clear();
    assert_eq!(cache.size(), 0);
}

#[test]
fn least_recently_used_project_is_evicted_first() {
    let mut cache =
        ProjectCacheManager::with_config(CacheConfig { ttl: None, max_size: Some(2) });
    cache.cache_project(create_test_project(1, "ONE"));
    cache.cache_project(create_test_project(2, "TWO"));
    // Using project 1 makes project 2 the least recently used.
    assert!(cache.get_from_cache_by_id(1).is_some());
    cache.cache_project(create_test_project(3, "THREE"));
    assert_eq!(cache.size(), 2);
    assert!(cache.get_from_cache_by_id(2).is_none());
    assert!(cache.get_from_cache_by_key("TWO").is_none());
    assert!(cache.get_from_cache_by_id(1).is_some());
    assert!(cache.get_from_cache_by_key("THREE").is_some());
}

#[test]
fn size_limit_is_never_exceeded() {
    let mut cache =
        ProjectCacheManager::with_config(CacheConfig { ttl: None, max_size: Some(4) });
    for i in 0..50u32 {
        cache.cache_project(create_test_project(i % 7, &format!("K{}", i % 7)));
        assert!(cache.size() <= 4);
    }
}

#[test]
fn key_lookup_answers_the_project_with_that_key() {
    let mut cache = ProjectCacheManager::new();
    cache.cache_project(create_test_project(7, "OLD_KEY"));
    cache.cache_project(create_test_project(7, "NEW_KEY"));
    let by_old = cache.get_from_cache_by_key("OLD_KEY").unwrap();
    assert_eq!(by_old.project_key, "OLD_KEY");
    let by_id = cache.get_from_cache_by_id(7).unwrap();
    assert_eq!(by_id.project_key, "NEW_KEY");
}

#[test]
fn an_expired_lookup_keeps_the_cache_within_its_limit() {
    // An entry deleted on expiry leaves the use order too, so the next
    // eviction drops a project that is still cached.
    let config = CacheConfig { ttl: Some(Duration::from_millis(50)), max_size: Some(1) };
    let mut cache = ProjectCacheManager::with_config(config);
    cache.cache_project(create_test_project(1, "ONE"));
    let start = Instant::now();
    while start.elapsed() < Duration::from_millis(80) {}
    assert!(cache.get_from_cache_by_id(1).is_none());
    assert_eq!(cache.size(), 0);
    cache.cache_project(create_test_project(2, "TWO"));
    cache.cache_project(create_test_project(3, "THREE"));
    assert_eq!(cache.size(), 1);
    assert!(cache.get_from_cache_by_key("THREE").is_some());
    assert!(cache.get_from_cache_by_key("TWO").is_none());
}

#[test]
fn an_entry_expired_by_id_leaves_the_key_table_too() {
    let config = CacheConfig { ttl: Some(Duration::from_millis(50)), max_size: None };
    let mut cache = ProjectCacheManager::with_config(config);
    cache.cache_project(create_test_project(5, "FIVE"));
    let start = Instant::now();
    while start.elapsed() < Duration::from_millis(80) {}
    assert!(cache.get_from_cache_by_id(5).is_none());
    assert_eq!(cache.size(), 0);
    // Deleted from the key table as well: the judged lookup that would
    // answer a valid entry finds nothing.
    assert!(cache.lookup_by_key_judged("FIVE", false).is_none());
}

#[test]
fn judged_lookups_answer_by_the_judgement() {
    let config = CacheConfig { ttl: Some(Duration::from_secs(3600)), max_size: None };
    let mut cache = ProjectCacheManager::with_config(config);
    cache.cache_project(create_test_project(1, "ONE"));
    cache.cache_project(create_test_project(2, "TWO"));
    assert_eq!(cache.lookup_by_id_judged(1, false).unwrap().project_key, "ONE");
    assert!(cache.lookup_by_id_judged(1, true).is_none());
    assert_eq!(cache.size(), 1);
    assert!(cache.lookup_by_key_judged("ONE", false).is_none());
    assert_eq!(cache.lookup_by_key_judged("TWO", false).unwrap().id, 2);
    assert!(cache.lookup_by_key_judged("TWO", true).is_none());
    assert_eq!(cache.size(), 0);
    assert!(cache.lookup_by_id_judged(2, false).is_none());
    assert!(cache.lookup_by_id_judged(9, true).is_none());
}

#[test]
fn expiry_compares_age_with_the_time_to_live() {
    assert!(!entry_expired(100, None));
    assert!(!entry_expired(100, Some(100)));
    assert!(entry_expired(101, Some(100)));
    assert!(!entry_expired(0, Some(0)));
}

#[test]
fn a_zero_limit_holds_one_project() {
    let mut cache =
        ProjectCacheManager::with_config(CacheConfig { ttl: None, max_size: Some(0) });
    cache.cache_project(create_test_project(1, "ONE"));
    assert_eq!(cache.size(), 1);
    cache.cache_project(create_test_project(2, "TWO"));
    assert_eq!(cache.size(), 1);
    assert!(cache.get_from_cache_by_id(2).is_some());
}

#[test]
fn a_stale_key_lookup_does_not_let_the_cache_grow() {
    // Project 7 changes its key; after 7 is evicted its old key still
    // answers, and that answer must not make 7 count as held.
    let mut cache =
        ProjectCacheManager::with_config(CacheConfig { ttl: None, max_size: Some(2) });
    cache.cache_project(create_test_project(7, "OLD"));
    cache.cache_project(create_test_project(7, "NEW"));
    cache.cache_project(create_test_project(8, "E"));
    cache.cache_project(create_test_project(9, "N"));
    assert!(cache.get_from_cache_by_id(7).is_none());
    assert!(cache.get_from_cache_by_key("OLD").is_some());
    for (id, key) in [(10, "T"), (11, "U"), (12, "V")] {
        cache.cache_project(create_test_project(id, key));
        assert!(cache.size() <= 2);
    }
}

#[test]
fn formatting_rules_by_name() {

    assert_eq!(formatting_rule_named("backlog"), Some(TextFormattingRule::Backlog));
    assert_eq!(formatting_rule_named("markdown"), Some(TextFormattingRule::Markdown));
    assert_eq!(formatting_rule_named("Markdown"), None);
}
