use patootie::cache::{AdminError, ParserCache, ParserRecord};

fn rec(id: u64, url: &str, seq: u64, rules: &str) -> ParserRecord {
    ParserRecord { id, url: url.to_string(), sequence_number: seq, rules: rules.to_string() }
}

#[test]
fn empty_cache_misses() {
    let cache = ParserCache::new();
    assert_eq!(cache.current_sequence_number("http://example.com/a"), None);
    assert!(cache.all_generations("http://example.com/a").is_none());
    assert!(cache.current_generation("http://example.com/a").is_none());
}

#[test]
fn first_store_gives_sequence_one() {
    let mut cache = ParserCache::new();
    let r = cache.store("http://example.com/a".to_string(), "[R1]".to_string()).unwrap();
    assert_eq!(r.sequence_number, 1);
    assert_eq!(r.id, 0);
    assert_eq!(cache.current_sequence_number("http://example.com/a"), Some(1));
}

#[test]
fn n_stores_number_generations_one_to_n() {
    let mut cache = ParserCache::new();
    let url = "http://example.com/a";
    for i in 0..5u64 {
        cache.store(url.to_string(), format!("rules{}", i)).unwrap();
    }
    assert_eq!(cache.current_sequence_number(url), Some(5));
    let gens = cache.all_generations(url).unwrap();
    assert_eq!(gens.len(), 5);
    for (i, g) in gens.iter().enumerate() {
        assert_eq!(g.sequence_number, i as u64 + 1);
        assert_eq!(g.rules, format!("rules{}", i));
    }
    assert_eq!(cache.current_generation(url).unwrap().rules, "rules4");
}

#[test]
fn urls_are_numbered_independently() {
    let mut cache = ParserCache::new();
    cache.store("http://a.com/".to_string(), "x".to_string()).unwrap();
    cache.store("http://a.com/".to_string(), "y".to_string()).unwrap();
    let b = cache.store("http://b.com/".to_string(), "z".to_string()).unwrap();
    assert_eq!(b.sequence_number, 1);
    assert_eq!(b.id, 2);
    assert_eq!(cache.current_sequence_number("http://a.com/"), Some(2));
    assert_eq!(cache.current_sequence_number("http://b.com/"), Some(1));
    // exact string match: no normalization of the URL
    assert_eq!(cache.current_sequence_number("http://a.com"), None);
}

#[test]
fn deleting_current_makes_next_highest_current() {
    let mut cache = ParserCache::new();
    let url = "http://example.com/a";
    cache.store(url.to_string(), "r1".to_string()).unwrap();
    cache.store(url.to_string(), "r2".to_string()).unwrap();
    let cur = cache.store(url.to_string(), "r3".to_string()).unwrap();
    cache.delete_generation(&cur);
    assert_eq!(cache.current_sequence_number(url), Some(2));
    assert_eq!(cache.current_generation(url).unwrap().rules, "r2");
    assert_eq!(cache.all_generations(url).unwrap().len(), 2);
}

#[test]
fn deleting_only_generation_reports_absent() {
    let mut cache = ParserCache::new();
    let url = "http://example.com/a";
    let r = cache.store(url.to_string(), "r1".to_string()).unwrap();
    cache.delete_generation(&r);
    assert_eq!(cache.current_sequence_number(url), None);
    assert!(cache.all_generations(url).is_none());
}

#[test]
fn delete_is_idempotent() {
    let mut cache = ParserCache::new();
    let r = cache.store("u".to_string(), "r1".to_string()).unwrap();
    cache.store("u".to_string(), "r2".to_string()).unwrap();
    cache.delete_generation(&r);
    cache.delete_generation(&r);
    assert_eq!(cache.records().len(), 1);
    assert_eq!(cache.current_sequence_number("u"), Some(2));
}

#[test]
fn store_after_deleting_older_generation_continues_from_max() {
    let mut cache = ParserCache::new();
    let r1 = cache.store("u".to_string(), "r1".to_string()).unwrap();
    cache.store("u".to_string(), "r2".to_string()).unwrap();
    cache.delete_generation(&r1);
    let r3 = cache.store("u".to_string(), "r3".to_string()).unwrap();
    assert_eq!(r3.sequence_number, 3);
    assert_eq!(r3.id, 2);
}

#[test]
fn listing_needs_a_url() {
    let cache = ParserCache::new();
    assert_eq!(cache.list_generations(None).unwrap_err(), AdminError::MissingUrl);
}

#[test]
fn listing_marks_current_generation() {
    let mut cache = ParserCache::new();
    cache.store("u".to_string(), "r1".to_string()).unwrap();
    cache.store("v".to_string(), "other".to_string()).unwrap();
    cache.store("u".to_string(), "r2".to_string()).unwrap();
    let list = cache.list_generations(Some("u")).unwrap();
    assert_eq!(list.len(), 2);
    assert_eq!(list[0].record.rules, "r1");
    assert!(!list[0].current);
    assert_eq!(list[1].record.rules, "r2");
    assert!(list[1].current);
    assert!(cache.list_generations(Some("w")).unwrap().is_empty());
}

#[test]
fn popping_needs_a_url() {
    let mut cache = ParserCache::new();
    cache.store("u".to_string(), "r1".to_string()).unwrap();
    assert_eq!(cache.pop_current(None).unwrap_err(), AdminError::MissingUrl);
    assert_eq!(cache.records().len(), 1);
}

#[test]
fn popping_removes_current_generation() {
    let mut cache = ParserCache::new();
    cache.store("u".to_string(), "r1".to_string()).unwrap();
    cache.store("u".to_string(), "r2".to_string()).unwrap();
    let popped = cache.pop_current(Some("u")).unwrap().unwrap();
    assert_eq!(popped.sequence_number, 2);
    assert_eq!(cache.current_sequence_number("u"), Some(1));
    cache.pop_current(Some("u")).unwrap().unwrap();
    assert!(cache.pop_current(Some("u")).unwrap().is_none());
    assert_eq!(cache.current_sequence_number("u"), None);
}

#[test]
fn sequence_numbers_exhausted() {
    let mut cache = ParserCache::from_records(vec![rec(0, "u", u64::MAX, "r")], 1).unwrap();
    assert!(cache.store("u".to_string(), "r2".to_string()).is_err());
    assert_eq!(cache.records().len(), 1);
    assert_eq!(cache.store("v".to_string(), "r2".to_string()).unwrap().sequence_number, 1);
}

#[test]
fn restore_from_records() {
    let cache = ParserCache::from_records(vec![rec(3, "u", 1, "a"), rec(7, "u", 4, "b")], 8).unwrap();
    assert_eq!(cache.current_sequence_number("u"), Some(4));
    assert_eq!(cache.next_id(), 8);
    let mut cache = cache;
    let r = cache.store("u".to_string(), "c".to_string()).unwrap();
    assert_eq!(r.id, 8);
    assert_eq!(r.sequence_number, 5);
    assert!(ParserCache::from_records(Vec::new(), 0).is_some());
}

#[test]
fn ids_are_not_reused_after_popping_and_restoring() {
    let mut cache = ParserCache::new();
    cache.store("u".to_string(), "a".to_string()).unwrap();
    let popped = cache.store("u".to_string(), "b".to_string()).unwrap();
    cache.pop_current(Some("u")).unwrap();
    let next_id = cache.next_id();
    let mut cache = ParserCache::from_records(cache.records(), next_id).unwrap();
    let r = cache.store("u".to_string(), "c".to_string()).unwrap();
    assert_ne!(r.id, popped.id);
    assert_eq!(r.id, 2);
    assert_eq!(r.sequence_number, 2);
}

#[test]
fn restore_refuses_broken_records() {
    assert!(ParserCache::from_records(vec![rec(0, "u", 0, "a")], 1).is_none());
    assert!(ParserCache::from_records(vec![rec(2, "u", 1, "a"), rec(1, "u", 2, "b")], 3).is_none());
    assert!(ParserCache::from_records(vec![rec(1, "u", 1, "a"), rec(2, "u", 1, "b")], 3).is_none());
    assert!(ParserCache::from_records(vec![rec(5, "u", 1, "a")], 5).is_none());
    assert!(ParserCache::from_records(vec![rec(u64::MAX, "u", 1, "a")], u64::MAX).is_none());
}
