use slatedb_cache::error::SlateDBError;
use slatedb_cache::foyer_cache::fetch_outcome;
use slatedb_cache::foyer_cache::CachedEntry;
use slatedb_cache::foyer_cache::CachedKey;
use slatedb_cache::foyer_cache::FoyerCache;
use slatedb_cache::foyer_cache::FoyerCacheOptions;
use slatedb_cache::foyer_cache::FoyerEvictionPolicy;
use slatedb_cache::foyer_cache::SsTableId;
use slatedb_cache::foyer_cache::DEFAULT_MAX_CAPACITY;

fn block_entry() -> CachedEntry {
    CachedEntry::new(b"block".to_vec(), 7)
}

fn key(n: u64) -> CachedKey {
    CachedKey::from((SsTableId::Wal(n), 0u64))
}

fn sized(size: usize) -> CachedEntry {
    CachedEntry::new(vec![size as u8], size)
}

fn one_shard(max_capacity: u64, eviction_policy: FoyerEvictionPolicy) -> FoyerCache {
    FoyerCache::new_with_opts(FoyerCacheOptions {
        max_capacity,
        shards: 1,
        eviction_policy,
    })
}

fn present(cache: &mut FoyerCache, keys: std::ops::Range<u64>) -> Vec<u64> {
    keys.filter(|n| cache.get_block(&key(*n)).is_some()).collect()
}

#[test]
fn test_foyer_cache_options_default_eviction_policy() {
    assert_eq!(
        FoyerCacheOptions::default().eviction_policy,
        FoyerEvictionPolicy::Lru
    );
}

/// Both policies serve what they store; the option only decides which entry
/// leaves once the cache is full.
#[test]
fn test_new_with_opts_eviction_policy() {
    for eviction_policy in [FoyerEvictionPolicy::Lru, FoyerEvictionPolicy::Fifo] {
        let mut cache = FoyerCache::new_with_opts(FoyerCacheOptions {
            eviction_policy,
            shards: 2,
            ..Default::default()
        });
        let key = CachedKey::from((SsTableId::Wal(1), 0u64));

        cache.insert(key.clone(), block_entry());

        assert!(cache.get_block(&key).is_some());
    }
}

#[test]
fn every_getter_reads_what_was_inserted() {
    let mut cache = FoyerCache::new();
    let key = key(9);
    assert!(cache.get_block(&key).is_none());
    cache.insert(key, block_entry());
    for entry in [
        cache.get_block(&key),
        cache.get_index(&key),
        cache.get_filter(&key),
        cache.get_stats(&key),
    ] {
        let entry = entry.unwrap();
        assert_eq!(entry.data.as_slice(), b"block");
        assert_eq!(entry.size(), 7);
    }
    assert_eq!(cache.entry_count(), 0);
}

#[test]
fn insert_replaces_and_remove_forgets() {
    let mut cache = FoyerCache::default();
    cache.insert(key(1), sized(10));
    cache.insert(key(1), sized(20));
    cache.insert(key(2), sized(30));
    assert_eq!(cache.get_block(&key(1)).unwrap().size, 20);
    cache.remove(&key(1));
    assert!(cache.get_block(&key(1)).is_none());
    assert_eq!(cache.get_block(&key(2)).unwrap().size, 30);
    cache.remove(&key(1));
    assert_eq!(cache.get_block(&key(2)).unwrap().size, 30);
}

#[test]
fn a_full_shard_evicts_from_the_front() {
    for policy in [FoyerEvictionPolicy::Lru, FoyerEvictionPolicy::Fifo] {
        let mut cache = one_shard(10, policy);
        for n in 0..10 {
            cache.insert(key(n), sized(1));
        }
        cache.insert(key(10), sized(3));
        assert_eq!(present(&mut cache, 0..11), vec![3, 4, 5, 6, 7, 8, 9, 10]);
    }
}

#[test]
fn replacing_an_entry_evicts_for_its_full_size() {
    let mut cache = one_shard(4, FoyerEvictionPolicy::Fifo);
    for n in 0..4 {
        cache.insert(key(n), sized(1));
    }
    // The shard makes room before the earlier entry under the key leaves.
    cache.insert(key(3), sized(2));
    assert_eq!(present(&mut cache, 0..4), vec![2, 3]);
}

#[test]
fn fifo_ignores_reads_and_lru_does_not() {
    let mut fifo = one_shard(10, FoyerEvictionPolicy::Fifo);
    let mut lru = one_shard(10, FoyerEvictionPolicy::Lru);
    for n in 0..10 {
        fifo.insert(key(n), sized(1));
        lru.insert(key(n), sized(1));
    }
    assert!(fifo.get_block(&key(1)).is_some());
    assert!(lru.get_block(&key(1)).is_some());
    fifo.insert(key(10), sized(2));
    lru.insert(key(10), sized(2));
    assert_eq!(present(&mut fifo, 0..11), vec![2, 3, 4, 5, 6, 7, 8, 9, 10]);
    assert_eq!(present(&mut lru, 0..11), vec![1, 3, 4, 5, 6, 7, 8, 9, 10]);
}

#[test]
fn lru_evicts_the_least_recently_used() {
    // Two entries fill the shard; the one that was read stays.
    let mut cache = one_shard(2, FoyerEvictionPolicy::Lru);
    cache.insert(key(0), sized(1));
    cache.insert(key(1), sized(1));
    assert!(cache.get_block(&key(0)).is_some());
    cache.insert(key(2), sized(1));
    assert_eq!(present(&mut cache, 0..3), vec![0, 2]);

    // An old entry that is read over and over outlives all others.
    let mut cache = one_shard(100, FoyerEvictionPolicy::Lru);
    for n in 0..100 {
        cache.insert(key(n), sized(1));
    }
    for n in 100..1000 {
        assert!(cache.get_filter(&key(0)).is_some());
        cache.insert(key(n), sized(1));
    }
    let mut expected = vec![0];
    expected.extend(901..1000);
    assert_eq!(present(&mut cache, 0..1000), expected);

    // The order of use decides, whatever the sizes.
    let mut cache = one_shard(10, FoyerEvictionPolicy::Lru);
    for n in 0..10 {
        cache.insert(key(n), sized(1));
    }
    for n in [4, 2, 0] {
        assert!(cache.get_index(&key(n)).is_some());
    }
    cache.insert(key(10), sized(6));
    assert_eq!(present(&mut cache, 0..11), vec![0, 2, 4, 9, 10]);
}

#[test]
fn lru_stays_exact_after_an_entry_that_is_too_large() {
    let mut cache = one_shard(4, FoyerEvictionPolicy::Lru);
    cache.insert(key(0), sized(9));
    assert!(cache.get_block(&key(0)).is_some());
    for n in 1..5 {
        cache.insert(key(n), sized(1));
    }
    assert!(cache.get_block(&key(1)).is_some());
    cache.insert(key(5), sized(1));
    assert_eq!(present(&mut cache, 0..6), vec![1, 3, 4, 5]);
}

#[test]
fn replacing_the_front_of_a_full_shard_keeps_the_rest() {
    let mut cache = one_shard(4, FoyerEvictionPolicy::Fifo);
    for n in 0..4 {
        cache.insert(key(n), sized(1));
    }
    cache.insert(key(0), sized(1));
    assert_eq!(present(&mut cache, 0..4), vec![0, 1, 2, 3]);
    cache.insert(key(4), sized(1));
    assert_eq!(present(&mut cache, 0..5), vec![0, 2, 3, 4]);
}

#[test]
fn a_cache_is_made_for_any_number_of_processors() {
    for cpus in [0, 1, 7, usize::MAX] {
        let mut cache = FoyerCache::for_cpus(cpus);
        cache.insert(key(1), sized(5));
        assert_eq!(cache.get_block(&key(1)).unwrap().size, 5);
    }
    // Half of the capacity fits into one shard, but not into one of many.
    let large = DEFAULT_MAX_CAPACITY as usize / 2;
    let mut one = FoyerCache::for_cpus(0);
    one.insert(key(1), sized(1));
    one.insert(key(2), sized(large));
    assert_eq!(present(&mut one, 1..3), vec![1, 2]);
    let mut many = FoyerCache::for_cpus(1000);
    for n in 0..100_000 {
        many.insert(key(n), sized(1));
    }
    many.insert(key(100_000), sized(large));
    let left = present(&mut many, 0..100_001).len();
    assert!(left < 100_001 && left > 50_000);
}

#[test]
fn a_load_is_stored_and_a_failed_one_is_not() {
    let mut cache = one_shard(10, FoyerEvictionPolicy::Fifo);
    let failed: Result<CachedEntry, &str> = cache.store_loaded(key(1), Err("gone"));
    assert_eq!(failed.err(), Some("gone"));
    assert!(cache.get_filter(&key(1)).is_none());
    let loaded: Result<CachedEntry, &str> = cache.store_loaded(key(1), Ok(sized(3)));
    assert_eq!(loaded.unwrap().size, 3);
    assert_eq!(cache.get_filter(&key(1)).unwrap().size, 3);
}

#[test]
fn an_entry_that_is_too_large_is_still_served() {
    let mut cache = one_shard(10, FoyerEvictionPolicy::Lru);
    cache.insert(key(0), sized(4));
    cache.insert(key(1), sized(100));
    assert_eq!(present(&mut cache, 0..2), vec![1]);
    cache.insert(key(2), sized(1));
    assert_eq!(present(&mut cache, 0..3), vec![2]);
}

#[test]
fn shards_share_the_capacity() {
    let mut cache = FoyerCache::new_with_opts(FoyerCacheOptions {
        max_capacity: 40,
        shards: 4,
        eviction_policy: FoyerEvictionPolicy::Fifo,
    });
    for n in 0..10 {
        cache.insert(key(n), sized(1));
    }
    // Together they fit into the smallest share.
    assert_eq!(present(&mut cache, 0..10).len(), 10);
    for n in 0..1000 {
        cache.insert(key(n), sized(1));
    }
    assert!(present(&mut cache, 0..1000).len() <= 40);
}

#[test]
fn a_key_always_goes_to_the_same_shard() {
    // Each shard holds one entry, so two keys stay together only if they are
    // in different shards. A key that comes back meets the same neighbours.
    let options = FoyerCacheOptions {
        max_capacity: 4,
        shards: 4,
        eviction_policy: FoyerEvictionPolicy::Fifo,
    };
    let mut cache = FoyerCache::new_with_opts(options);
    for n in 1..50 {
        let mut apart = Vec::new();
        for _ in 0..3 {
            cache.insert(key(0), sized(1));
            cache.insert(key(n), sized(1));
            apart.push(cache.get_block(&key(0)).is_some());
            cache.remove(&key(0));
        }
        assert!(apart.iter().all(|a| *a == apart[0]));
    }
}

#[test]
fn options_for_a_machine() {
    let options = FoyerCacheOptions::for_cpus(12);
    assert_eq!(options.shards, 12);
    assert_eq!(options.max_capacity, DEFAULT_MAX_CAPACITY);
    assert_eq!(options.max_capacity, 64 * 1024 * 1024);
    assert_eq!(options.eviction_policy, FoyerEvictionPolicy::default());
    assert!(options.is_valid());
    assert!(!FoyerCacheOptions::for_cpus(0).is_valid());
    assert!(!FoyerCacheOptions::for_cpus(usize::MAX).is_valid());
    assert!(FoyerCacheOptions::default().shards >= 1);
}

#[test]
fn slots_tell_keys_apart() {
    let wal = CachedKey::from((SsTableId::Wal(5), 6u64));
    let compacted = CachedKey::from((SsTableId::Compacted(5), 6u64));
    assert_eq!(wal.slot(), (0, 5, 6));
    assert_eq!(compacted.slot(), (1, 5, 6));
    let mut cache = FoyerCache::new();
    cache.insert(wal, sized(1));
    assert!(cache.get_block(&compacted).is_none());
    assert!(cache.get_block(&CachedKey::from((SsTableId::Wal(5), 7u64))).is_none());
}

#[test]
fn a_fetch_reports_the_load() {
    let loaded = fetch_outcome(Ok(block_entry()));
    assert_eq!(loaded.unwrap().data.as_slice(), b"block");
    let failed = fetch_outcome(Err(foyer::Error::new(
        foyer::ErrorKind::External,
        "fetch failed",
    )));
    match failed {
        Err(SlateDBError::FoyerError(err)) => assert_eq!(err.kind(), foyer::ErrorKind::External),
        _ => panic!("a failed load is a foyer error"),
    }
}
