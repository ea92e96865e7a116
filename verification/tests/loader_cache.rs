use mibar::loader_cache::{load_action, LoadAction, LoaderCache};

#[test]
fn loader_hit_is_answered_from_cache() {
    assert!(matches!(load_action(Some(7u32)), LoadAction::Reply(7)));
}

#[test]
fn loader_miss_is_made() {
    assert!(matches!(load_action::<u32>(None), LoadAction::Make));
}

#[test]
fn loader_success_is_remembered() {
    let mut cache = LoaderCache::new();
    assert_eq!(cache.lookup(5), None);
    cache.record(5, Some("first"));
    assert_eq!(cache.lookup(5), Some(&"first"));
    cache.record(5, Some("second"));
    assert_eq!(cache.lookup(5), Some(&"second"));
    assert_eq!(cache.lookup(6), None);
}

#[test]
fn loader_failure_is_forgotten() {
    let mut cache = LoaderCache::new();
    cache.record(5, Some(1u8));
    cache.record(6, Some(2u8));
    cache.record(5, None);
    assert_eq!(cache.lookup(5), None);
    assert_eq!(cache.lookup(6), Some(&2));
}
