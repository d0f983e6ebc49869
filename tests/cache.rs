use cache_2q::{Cache, Entry, OccupiedKind, VacantKind};

fn keys_in_order<K: Clone + PartialEq, V>(cache: &Cache<K, V>) -> Vec<K> {
    let mut it = cache.iter();
    let mut out = Vec::new();
    while let Some((k, _)) = it.next() {
        out.push(k.clone());
    }
    out
}

fn occupied_kind<V>(cache: &mut Cache<u64, V>, key: u64) -> Option<OccupiedKind> {
    match cache.peek_entry(key) {
        Entry::Occupied(o) => Some(o.kind),
        Entry::Vacant(_) => None,
    }
}

fn vacant_kind<V>(cache: &mut Cache<u64, V>, key: u64) -> Option<VacantKind> {
    match cache.peek_entry(key) {
        Entry::Occupied(_) => None,
        Entry::Vacant(v) => Some(v.kind),
    }
}

#[test]
fn cache_zero_size() {
    let mut cache = Cache::new(8);
    for _ in 0..1024 {
        cache.entry(()).or_insert_with(|| ());
    }
}

#[test]
fn get_borrowed() {
    let mut cache = Cache::new(8);
    cache.entry("hi".to_string()).or_insert(0);
    cache.entry("there".to_string()).or_insert(0);
    assert_eq!(*cache.get(&"hi".to_string()).unwrap(), 0);
}

#[test]
fn size_1_cache() {
    let mut cache = Cache::new(1);
    cache.insert(100, "value");
    assert_eq!(cache.get(&100), Some(&"value"));
    cache.insert(200, "other");
    assert_eq!(cache.get(&200), Some(&"other"));
    assert_eq!(cache.get(&100), None);
}

#[test]
fn size_one_evicts_into_ghost() {
    let mut cache: Cache<u64, u64> = Cache::new(1);
    cache.insert(100, 1);
    assert_eq!(occupied_kind(&mut cache, 100), Some(OccupiedKind::Recent(0)));
    cache.insert(200, 2);
    assert_eq!(vacant_kind(&mut cache, 100), Some(VacantKind::Remembered(0)));
    assert_eq!(cache.len(), 1);
    assert!(!cache.contains_key(&100));
}

#[test]
fn size_eight_promotes_from_ghost() {
    let mut cache: Cache<u64, u64> = Cache::new(8);
    for k in 1..=5u64 {
        assert_eq!(cache.insert(k, k * 10), None);
    }
    assert_eq!(keys_in_order(&cache), vec![5, 4]);
    assert_eq!(vacant_kind(&mut cache, 3), Some(VacantKind::Remembered(0)));
    assert_eq!(vacant_kind(&mut cache, 2), Some(VacantKind::Remembered(1)));
    assert_eq!(vacant_kind(&mut cache, 1), Some(VacantKind::Remembered(2)));
    assert_eq!(cache.insert(1, 11), None);
    assert_eq!(occupied_kind(&mut cache, 1), Some(OccupiedKind::Frequent(0)));
    assert_eq!(keys_in_order(&cache), vec![5, 4, 1]);
    assert_eq!(vacant_kind(&mut cache, 1), None);
    assert_eq!(vacant_kind(&mut cache, 3), Some(VacantKind::Remembered(0)));
    assert_eq!(vacant_kind(&mut cache, 2), Some(VacantKind::Remembered(1)));
}

#[test]
fn many_distinct_keys_stay_bounded() {
    let mut cache: Cache<u64, u64> = Cache::new(8);
    for k in 0..1024u64 {
        cache.insert(k, k);
        assert!(cache.len() <= 8);
    }
    assert_eq!(cache.len(), 2);
    assert_eq!(keys_in_order(&cache), vec![1023, 1022]);
}

#[test]
fn unit_key_keeps_one_entry() {
    let mut cache: Cache<(), ()> = Cache::new(8);
    for _ in 0..1024 {
        cache.insert((), ());
        assert_eq!(cache.len(), 1);
    }
}

#[test]
fn insert_then_get_round_trip() {
    let mut cache: Cache<u64, &str> = Cache::new(4);
    assert_eq!(cache.insert(7, "seven"), None);
    assert_eq!(cache.get(&7), Some(&"seven"));
    assert_eq!(cache.peek(&7), Some(&"seven"));
}

#[test]
fn reinsert_returns_previous_value() {
    let mut cache: Cache<u64, u64> = Cache::new(4);
    cache.insert(1, 10);
    assert_eq!(cache.insert(1, 20), Some(10));
    assert_eq!(cache.get(&1), Some(&20));
    assert_eq!(cache.len(), 1);
    assert_eq!(occupied_kind(&mut cache, 1), Some(OccupiedKind::Recent(0)));
}

#[test]
fn frequent_read_moves_to_front() {
    let mut cache: Cache<u64, u64> = Cache::new(8);
    for k in 1..=4u64 {
        cache.insert(k, k);
    }
    // 1 and 2 are remembered; bring both back into frequent.
    cache.insert(1, 1);
    cache.insert(2, 2);
    assert_eq!(keys_in_order(&cache), vec![4, 3, 2, 1]);
    assert_eq!(cache.get(&1), Some(&1));
    assert_eq!(keys_in_order(&cache), vec![4, 3, 1, 2]);
    // A read in recent leaves its order alone.
    assert_eq!(cache.get(&3), Some(&3));
    assert_eq!(keys_in_order(&cache), vec![4, 3, 1, 2]);
    // peek never reorders.
    assert_eq!(cache.peek(&2), Some(&2));
    assert_eq!(keys_in_order(&cache), vec![4, 3, 1, 2]);
}

#[test]
fn remove_does_not_remember() {
    let mut cache: Cache<u64, u64> = Cache::new(8);
    cache.insert(1, 1);
    assert_eq!(cache.remove(&1), Some(1));
    assert_eq!(cache.remove(&1), None);
    assert_eq!(vacant_kind(&mut cache, 1), Some(VacantKind::Unknown));
    cache.insert(1, 2);
    assert_eq!(occupied_kind(&mut cache, 1), Some(OccupiedKind::Recent(0)));
}

#[test]
fn full_frequent_drops_its_back() {
    let mut cache: Cache<u64, u64> = Cache::new(4);
    // max_recent 1, max_frequent 3, max_ghost 2
    cache.insert(1, 1);
    cache.insert(2, 2);
    cache.insert(1, 1);
    cache.insert(3, 3);
    cache.insert(2, 2);
    cache.insert(4, 4);
    cache.insert(3, 3);
    assert_eq!(keys_in_order(&cache), vec![4, 3, 2, 1]);
    cache.insert(5, 5);
    cache.insert(4, 4);
    assert_eq!(keys_in_order(&cache), vec![5, 4, 3, 2]);
    assert!(!cache.contains_key(&1));
    assert_eq!(vacant_kind(&mut cache, 1), Some(VacantKind::Unknown));
}

#[test]
fn ghost_drops_its_oldest_key() {
    let mut cache: Cache<u64, u64> = Cache::new(4);
    // max_recent 1, max_ghost 2
    for k in 1..=4u64 {
        cache.insert(k, k);
    }
    assert_eq!(vacant_kind(&mut cache, 3), Some(VacantKind::Remembered(0)));
    assert_eq!(vacant_kind(&mut cache, 2), Some(VacantKind::Remembered(1)));
    assert_eq!(vacant_kind(&mut cache, 1), Some(VacantKind::Unknown));
}

#[test]
fn clear_empties_and_keeps_capacity() {
    let mut cache: Cache<u64, u64> = Cache::new(8);
    for k in 1..=5u64 {
        cache.insert(k, k);
    }
    assert!(!cache.is_empty());
    cache.clear();
    assert!(cache.is_empty());
    assert_eq!(cache.len(), 0);
    assert_eq!(vacant_kind(&mut cache, 1), Some(VacantKind::Unknown));
    for k in 1..=5u64 {
        cache.insert(k, k);
    }
    assert_eq!(keys_in_order(&cache), vec![5, 4]);
}

#[test]
fn get_mut_changes_value() {
    let mut cache: Cache<u64, u64> = Cache::new(8);
    cache.insert(1, 1);
    *cache.get_mut(&1).unwrap() = 9;
    assert_eq!(cache.peek(&1), Some(&9));
    assert_eq!(cache.get_mut(&2), None);
}

#[test]
fn entry_promotes_but_peek_entry_does_not() {
    let mut cache: Cache<u64, u64> = Cache::new(8);
    for k in 1..=4u64 {
        cache.insert(k, k);
    }
    cache.insert(1, 1);
    cache.insert(2, 2);
    assert_eq!(occupied_kind(&mut cache, 1), Some(OccupiedKind::Frequent(1)));
    assert_eq!(keys_in_order(&cache), vec![4, 3, 2, 1]);
    match cache.entry(1) {
        Entry::Occupied(o) => assert_eq!(o.kind, OccupiedKind::Frequent(0)),
        Entry::Vacant(_) => panic!("expected a live key"),
    }
    assert_eq!(keys_in_order(&cache), vec![4, 3, 1, 2]);
}

#[test]
fn occupied_entry_operations() {
    let mut cache: Cache<u64, u64> = Cache::new(8);
    cache.insert(1, 10);
    cache.insert(2, 20);
    match cache.entry(1) {
        Entry::Occupied(mut o) => {
            assert_eq!(*o.key(), 1);
            assert_eq!(*o.get(), 10);
            *o.get_mut() = 11;
            assert_eq!(o.insert(12), 11);
            assert_eq!(*o.get(), 12);
        }
        Entry::Vacant(_) => panic!("expected a live key"),
    }
    assert_eq!(cache.peek(&1), Some(&12));
    match cache.entry(2) {
        Entry::Occupied(o) => assert_eq!(o.remove_entry(), (2, 20)),
        Entry::Vacant(_) => panic!("expected a live key"),
    }
    match cache.entry(1) {
        Entry::Occupied(o) => assert_eq!(o.remove(), 12),
        Entry::Vacant(_) => panic!("expected a live key"),
    }
    assert!(cache.is_empty());
}

#[test]
fn vacant_entry_operations() {
    let mut cache: Cache<u64, u64> = Cache::new(8);
    match cache.entry(3) {
        Entry::Vacant(v) => {
            assert_eq!(*v.key(), 3);
            assert_eq!(v.into_key(), 3);
        }
        Entry::Occupied(_) => panic!("expected a vacant key"),
    }
    assert!(cache.is_empty());
    match cache.entry(3) {
        Entry::Vacant(v) => {
            let r = v.insert(30);
            *r += 1;
        }
        Entry::Occupied(_) => panic!("expected a vacant key"),
    }
    assert_eq!(cache.peek(&3), Some(&31));
}

#[test]
fn or_insert_keeps_existing_value() {
    let mut cache: Cache<u64, u64> = Cache::new(8);
    assert_eq!(*cache.entry(5).or_insert(50), 50);
    assert_eq!(*cache.entry(5).key(), 5);
    assert_eq!(*cache.entry(5).or_insert(60), 50);
    assert_eq!(*cache.entry(5).or_insert_with(|| 70), 50);
    assert_eq!(*cache.entry(6).or_insert_with(|| 70), 70);
    *cache.entry(6).or_insert(0) += 1;
    assert_eq!(cache.peek(&6), Some(&71));
}

#[test]
fn iter_walks_recent_then_frequent() {
    let mut cache: Cache<u64, u64> = Cache::new(8);
    for k in 1..=4u64 {
        cache.insert(k, k * 10);
    }
    cache.insert(1, 100);
    let mut it = cache.iter();
    assert_eq!(it.size_hint(), (3, Some(3)));
    let again = it.clone();
    assert_eq!(it.next(), Some((&4, &40)));
    assert_eq!(it.next(), Some((&3, &30)));
    assert_eq!(it.next(), Some((&1, &100)));
    assert_eq!(it.size_hint(), (0, Some(0)));
    assert_eq!(it.next(), None);
    assert_eq!(it.next(), None);
    assert_eq!(again.size_hint(), (3, Some(3)));
}

#[test]
fn capacities_follow_size() {
    // size 8: recent 2; size 3: recent 1; size 16: recent 4
    let mut a: Cache<u64, u64> = Cache::new(8);
    let mut b: Cache<u64, u64> = Cache::new(3);
    let mut c: Cache<u64, u64> = Cache::new(16);
    for k in 0..20u64 {
        a.insert(k, k);
        b.insert(k, k);
        c.insert(k, k);
    }
    assert_eq!(a.len(), 2);
    assert_eq!(b.len(), 1);
    assert_eq!(c.len(), 4);
    assert!(!a.contains_key(&0));
    assert!(a.contains_key(&19));
}

#[test]
fn size_one_promotes_past_zero_frequent_capacity() {
    // With size 1, frequent has capacity 0, yet a remembered key still enters it.
    let mut cache: Cache<u64, u64> = Cache::new(1);
    cache.insert(100, 1);
    cache.insert(200, 2);
    assert_eq!(cache.insert(100, 3), None);
    assert_eq!(occupied_kind(&mut cache, 100), Some(OccupiedKind::Frequent(0)));
    assert_eq!(keys_in_order(&cache), vec![200, 100]);
    assert_eq!(cache.len(), 2);
}
