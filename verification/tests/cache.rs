use proof_service::cache::{Grant, ProgramCache, StarkKeyCache, DEFAULT_CACHE_SIZE};

fn slot(slot: u64) -> Grant {
    Grant { slot, let_go: None }
}

#[test]
fn same_key_gets_the_same_slot() {
    let mut cache = StarkKeyCache::new(DEFAULT_CACHE_SIZE);
    assert_eq!(cache.made(), 0);
    assert_eq!(cache.get_or_init_slot("a"), slot(0));
    assert_eq!(cache.get_or_init_slot("b"), slot(1));
    assert_eq!(cache.get_or_init_slot("a"), slot(0));
    assert_eq!(cache.get_or_init_slot("b"), slot(1));
    assert_eq!(cache.made(), 2);
}

#[test]
fn key_that_was_not_asked_for_longest_goes() {
    let mut cache = StarkKeyCache::new(2);
    cache.get_or_init_slot("a");
    cache.get_or_init_slot("b");
    cache.get_or_init_slot("a");
    assert_eq!(cache.get_or_init_slot("c"), Grant { slot: 2, let_go: Some(1) });
    assert_eq!(cache.get_or_init_slot("a"), slot(0));
    assert_eq!(cache.get_or_init_slot("b"), Grant { slot: 3, let_go: Some(2) });
    assert_eq!(cache.made(), 4);
}

#[test]
fn others_keep_their_slots() {
    let mut cache = ProgramCache::new(DEFAULT_CACHE_SIZE);
    for (i, key) in ["a", "b", "c", "d", "e"].iter().enumerate() {
        assert_eq!(cache.get_or_init_slot(key), slot(i as u64));
    }
    assert_eq!(cache.get_or_init_slot("f"), Grant { slot: 5, let_go: Some(0) });
    for (i, key) in ["b", "c", "d", "e", "f"].iter().enumerate() {
        assert_eq!(cache.get_or_init_slot(key), slot(i as u64 + 1));
    }
}

#[test]
fn cache_of_one() {
    let mut cache = ProgramCache::new(1);
    assert_eq!(cache.get_or_init_slot("a"), slot(0));
    assert_eq!(cache.get_or_init_slot("b"), Grant { slot: 1, let_go: Some(0) });
    assert_eq!(cache.get_or_init_slot("a"), Grant { slot: 2, let_go: Some(1) });
    assert_eq!(cache.get_or_init_slot("a"), slot(2));
    assert_eq!(cache.made(), 3);
}

#[test]
fn new_slots_are_new() {
    let mut cache = ProgramCache::new(2);
    let mut seen: Vec<u64> = vec![];
    for i in 0..10 {
        let granted = cache.get_or_init_slot(&format!("key {i}"));
        assert!(!seen.contains(&granted.slot));
        seen.push(granted.slot);
    }
}
