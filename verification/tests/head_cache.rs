use slatedb_cache::head_cache::Attribute;
use slatedb_cache::head_cache::AttributeName;
use slatedb_cache::head_cache::Attributes;
use slatedb_cache::head_cache::HeadCache;
use slatedb_cache::head_cache::ObjectMeta;
use slatedb_cache::head_cache::DEFAULT_HEAD_CACHE_CAPACITY;
use slatedb_cache::time::Timestamp;

fn meta(location: &str, size: u64) -> ObjectMeta {
    let now = chrono::Utc::now();
    ObjectMeta {
        location: location.to_string(),
        last_modified: Timestamp {
            secs: now.timestamp(),
            nanos: now.timestamp_subsec_nanos(),
        },
        size,
        e_tag: None,
        version: None,
    }
}

#[test]
fn test_insert_get_remove() {
    let mut cache = HeadCache::new(DEFAULT_HEAD_CACHE_CAPACITY);
    let path = "a/b/c";
    assert!(cache.get(path).is_none());

    cache.insert(path, meta(path, 42), Attributes::new());
    let hit = cache.get(path).expect("should be cached");
    assert_eq!(hit.meta.size, 42);

    cache.remove(path);
    assert!(cache.get(path).is_none());
}

#[test]
fn test_insert_overwrites_in_place() {
    let mut cache = HeadCache::new(DEFAULT_HEAD_CACHE_CAPACITY);
    let path = "k";
    cache.insert(path, meta(path, 1), Attributes::new());
    cache.insert(path, meta(path, 2), Attributes::new());
    assert_eq!(cache.get(path).unwrap().meta.size, 2);
    assert_eq!(cache.len(), 1);
}

#[test]
fn test_len_stays_within_capacity() {
    let capacity = 100;
    let mut cache = HeadCache::new(capacity);
    for i in 0..(capacity * 10) {
        let path = format!("obj-{i}");
        cache.insert(&path, meta(&path, i as u64), Attributes::new());
    }
    assert!(
        cache.len() <= capacity,
        "len {} > {}",
        cache.len(),
        capacity
    );
}

#[test]
fn reads_between_writes_see_the_latest_head() {
    let mut cache = HeadCache::new(DEFAULT_HEAD_CACHE_CAPACITY);
    let path = "hot";
    for i in 1..10_000u64 {
        cache.insert(path, meta(path, i), Attributes::new());
        assert_eq!(cache.get(path).unwrap().meta.size, i);
    }
    assert_eq!(cache.len(), 1);
}

#[test]
fn no_capacity_is_exceeded() {
    for capacity in [0, 1, 2, 31, 32, 63, 65, 101, 333, 1023, 4097] {
        let mut cache = HeadCache::new(capacity);
        assert!(cache.capacity() <= capacity as u64);
        for i in 0..(capacity * 3 + 10) {
            let path = format!("obj-{i}");
            cache.insert(&path, meta(&path, i as u64), Attributes::new());
            assert!(cache.len() <= capacity);
        }
    }
}

#[test]
fn a_full_cache_takes_every_new_head() {
    for capacity in [1, 2, 5, 31, 100, 500] {
        let mut cache = HeadCache::new(capacity);
        for i in 0..(capacity as u64 * 20) {
            let path = format!("new-{i}");
            cache.insert(&path, meta(&path, i), Attributes::new());
            assert_eq!(cache.get(&path).unwrap().meta.size, i);
            // Reads of older heads make them worth keeping.
            for old in [0, i / 2, i / 3] {
                cache.get(&format!("new-{old}"));
            }
        }
    }
}

#[test]
fn a_full_shard_keeps_at_least_half_of_its_heads() {
    // So small a cache has one shard.
    let capacity = 31;
    let mut cache = HeadCache::new(capacity);
    for i in 0..5_000u64 {
        // Old paths come back, others leave, and many are read.
        let path = format!("obj-{}", i * i % 97);
        let before = cache.len();
        cache.insert(&path, meta(&path, i), Attributes::new());
        if before == capacity {
            assert!(2 * cache.len() >= capacity);
        }
        for k in 0..(i % 7) {
            cache.get(&format!("obj-{}", k * 13));
        }
        if i % 11 == 0 {
            cache.remove(&format!("obj-{}", i % 97));
        }
    }
}

#[test]
fn a_few_heads_are_never_evicted() {
    for capacity in [1, 31, 32, 100, DEFAULT_HEAD_CACHE_CAPACITY] {
        let mut cache = HeadCache::new(capacity);
        let few = capacity.min(31);
        for i in 0..few {
            let path = format!("obj-{i}");
            cache.insert(&path, meta(&path, i as u64), Attributes::new());
        }
        assert_eq!(cache.len(), few);
        for i in 0..few {
            assert_eq!(cache.get(&format!("obj-{i}")).unwrap().meta.size, i as u64);
        }
    }
}

#[test]
fn a_head_comes_back_whole() {
    let mut cache = HeadCache::new(8);
    let mut stored = meta("x/y", 7);
    stored.e_tag = Some("tag".to_string());
    stored.version = Some("v3".to_string());
    let at = stored.last_modified;
    let attributes = Attributes {
        list: vec![
            Attribute {
                name: AttributeName::ContentType,
                value: "text/plain".to_string(),
            },
            Attribute {
                name: AttributeName::Metadata("owner".to_string()),
                value: "me".to_string(),
            },
        ],
    };
    cache.insert("x/y", stored, attributes);
    let head = cache.get("x/y").unwrap();
    assert_eq!(head.meta.location, "x/y");
    assert_eq!(head.meta.last_modified, at);
    assert_eq!(head.meta.e_tag.as_deref(), Some("tag"));
    assert_eq!(head.meta.version.as_deref(), Some("v3"));
    assert_eq!(head.attributes.list.len(), 2);
    assert!(matches!(
        head.attributes.list[0].name,
        AttributeName::ContentType
    ));
    assert_eq!(head.attributes.list[0].value, "text/plain");
    match &head.attributes.list[1].name {
        AttributeName::Metadata(key) => assert_eq!(key, "owner"),
        other => panic!("{other:?}"),
    }
    assert_eq!(head.attributes.list[1].value, "me");
    assert!(cache.get("x").is_none());
    cache.remove("x");
    assert_eq!(cache.len(), 1);
}

#[test]
fn an_empty_cache_keeps_nothing() {
    let mut cache = HeadCache::new(0);
    assert_eq!(cache.capacity(), 0);
    cache.insert("a", meta("a", 1), Attributes::new());
    assert!(cache.get("a").is_none());
    assert_eq!(cache.len(), 0);
}
