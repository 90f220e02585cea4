use trae_cli::numeric::Ratio;
use trae_cli::performance_patterns::IntelligentCache;

#[test]
fn test_intelligent_cache() {
    let mut cache = IntelligentCache::new(2);
    cache.insert("key1".to_string(), "value1");
    cache.insert("key2".to_string(), "value2");
    assert_eq!(cache.get("key1"), Some("value1"));
    let rate = cache.hit_rate();
    assert!(rate.is_positive());
    assert!(rate.numerator as f64 / rate.denominator as f64 > 0.0);
}

#[test]
fn capacity_follows_the_scoring_rule() {
    assert_eq!(IntelligentCache::<u8>::quantum_optimize_size(0), 0);
    assert_eq!(IntelligentCache::<u8>::quantum_optimize_size(1), 1);
    assert_eq!(IntelligentCache::<u8>::quantum_optimize_size(2), 2);
    assert_eq!(IntelligentCache::<u8>::quantum_optimize_size(3), 2);
    assert_eq!(IntelligentCache::<u8>::quantum_optimize_size(4), 3);
    assert_eq!(IntelligentCache::<u8>::quantum_optimize_size(5), 3);
    assert_eq!(IntelligentCache::<u8>::quantum_optimize_size(6), 4);
    assert_eq!(IntelligentCache::<u8>::quantum_optimize_size(7), 7);
    assert_eq!(IntelligentCache::<u8>::quantum_optimize_size(100), 100);
    assert_eq!(IntelligentCache::<u8>::quantum_optimize_size(1000), 1000);
}

#[test]
fn capacity_agrees_with_the_logarithmic_score() {
    // The same rule evaluated with floating point: the candidate with the
    // highest weight / log2(max(size, 2)) wins, the first one on a tie.
    for request in 0usize..2000 {
        let root = (request as f64).sqrt() as usize;
        let candidates = [
            (request, 1.0f64),
            (request * 3 / 4, 0.8),
            (request * 5 / 4, 0.7),
            (root * 16, 0.6),
        ];
        let mut best = candidates[0];
        for c in candidates.iter().skip(1) {
            let score = |(size, weight): (usize, f64)| weight / (size.max(2) as f64).log2();
            if score(*c) > score(best) {
                best = *c;
            }
        }
        assert_eq!(IntelligentCache::<u8>::quantum_optimize_size(request), best.0);
    }
}

#[test]
fn very_large_requests_fall_back_to_the_root_candidate() {
    let request: usize = 1 << 42;
    assert_eq!(IntelligentCache::<u8>::quantum_optimize_size(request), 16 * (1 << 21));
}

#[test]
fn new_cache_is_empty_with_zero_hit_rate() {
    let cache: IntelligentCache<u32> = IntelligentCache::new(100);
    assert_eq!(cache.len(), 0);
    assert_eq!(cache.capacity(), 100);
    assert_eq!(cache.hit_rate(), Ratio { numerator: 0, denominator: 1 });
    assert!(!cache.hit_rate().is_positive());
}

#[test]
fn least_recently_touched_key_is_evicted() {
    // A request of 4 resolves to a capacity of 3.
    let mut cache: IntelligentCache<u32> = IntelligentCache::new(4);
    assert_eq!(cache.capacity(), 3);
    cache.insert("A".to_string(), 1);
    cache.insert("B".to_string(), 2);
    cache.insert("C".to_string(), 3);
    assert_eq!(cache.get("A"), Some(1));
    cache.insert("D".to_string(), 4);
    assert!(!cache.contains_key("B"));
    assert!(cache.contains_key("A"));
    assert!(cache.contains_key("C"));
    assert!(cache.contains_key("D"));
    assert_eq!(cache.len(), 3);
}

#[test]
fn capacity_two_evicts_the_first_key_on_the_third_insert() {
    let mut cache: IntelligentCache<u32> = IntelligentCache::new(2);
    cache.insert("A".to_string(), 1);
    cache.insert("B".to_string(), 2);
    cache.insert("C".to_string(), 3);
    assert_eq!(cache.len(), 2);
    assert_eq!(cache.get("A"), None);
    cache.insert("D".to_string(), 4);
    assert_eq!(cache.len(), 2);
    assert!(!cache.contains_key("B"));
    assert!(cache.contains_key("C"));
    assert!(cache.contains_key("D"));
}

#[test]
fn length_never_exceeds_capacity() {
    let mut cache: IntelligentCache<usize> = IntelligentCache::new(10);
    for i in 0..100usize {
        cache.insert(format!("key{}", i % 37), i);
        assert!(cache.len() <= cache.capacity());
    }
    assert_eq!(cache.len(), 10);
}

#[test]
fn reinserting_a_key_replaces_its_value() {
    let mut cache: IntelligentCache<u32> = IntelligentCache::new(10);
    cache.insert("k".to_string(), 1);
    cache.insert("other".to_string(), 7);
    cache.insert("k".to_string(), 2);
    assert_eq!(cache.len(), 2);
    assert_eq!(cache.get("k"), Some(2));
}

#[test]
fn zero_capacity_stores_nothing() {
    let mut cache: IntelligentCache<u32> = IntelligentCache::new(0);
    assert_eq!(cache.capacity(), 0);
    cache.insert("a".to_string(), 1);
    assert_eq!(cache.len(), 0);
    cache.insert("b".to_string(), 2);
    assert_eq!(cache.len(), 0);
    assert_eq!(cache.get("a"), None);
    assert_eq!(cache.get("b"), None);
    assert_eq!(cache.hit_rate(), Ratio { numerator: 0, denominator: 2 });
}

#[test]
fn entries_never_outnumber_the_capacity() {
    for request in [0usize, 1, 2, 3, 4, 7, 16] {
        let mut cache: IntelligentCache<usize> = IntelligentCache::new(request);
        for i in 0..40 {
            cache.insert(format!("key{}", i % 11), i);
            assert!(cache.len() <= cache.capacity());
        }
    }
}

#[test]
fn hit_rate_counts_hits_over_lookups() {
    let mut cache: IntelligentCache<u32> = IntelligentCache::new(10);
    cache.insert("a".to_string(), 1);
    assert_eq!(cache.get("missing"), None);
    assert_eq!(cache.hit_rate(), Ratio { numerator: 0, denominator: 1 });
    assert_eq!(cache.get("a"), Some(1));
    assert_eq!(cache.hit_rate(), Ratio { numerator: 1, denominator: 2 });
    let before = cache.hit_rate();
    assert_eq!(cache.get("a"), Some(1));
    let after = cache.hit_rate();
    assert_eq!(after, Ratio { numerator: 2, denominator: 3 });
    assert!(before.is_below(&after));
}

#[test]
fn clear_expired_drops_old_entries_only() {
    let mut cache: IntelligentCache<u32> = IntelligentCache::new(10);
    cache.insert_at("old".to_string(), 1, 100);
    cache.insert_at("edge".to_string(), 2, 500);
    cache.insert_at("new".to_string(), 3, 900);
    // at time 1000 with a ttl of 500: ages are 900, 500 and 100
    cache.clear_expired_at(500, 1000);
    assert!(!cache.contains_key("old"));
    assert!(cache.contains_key("edge"));
    assert!(cache.contains_key("new"));
    assert_eq!(cache.len(), 2);
}

#[test]
fn clear_expired_with_a_long_ttl_keeps_fresh_entries() {
    let mut cache: IntelligentCache<u32> = IntelligentCache::new(10);
    cache.insert("a".to_string(), 1);
    cache.clear_expired(300_000_000_000);
    assert!(cache.contains_key("a"));
}
