use slatedb_cache::stats::all_metrics;
use slatedb_cache::stats::debug_fields;
use slatedb_cache::stats::CachedObjectStoreStats;
use slatedb_cache::stats::Metric;
use slatedb_cache::stats::MetricHandle;
use slatedb_cache::stats::MetricKind;

type Handle = MetricHandle<&'static str, &'static str, &'static str>;

fn register(metric: Metric) -> Handle {
    match metric.kind() {
        MetricKind::Counter => MetricHandle::Counter(metric.name()),
        MetricKind::Gauge => MetricHandle::Gauge(metric.name()),
        MetricKind::Histogram => MetricHandle::Histogram(metric.name()),
    }
}

#[test]
fn each_field_holds_the_handle_of_its_metric() {
    let handles: Vec<Handle> = all_metrics().into_iter().map(register).collect();
    let stats = CachedObjectStoreStats::new(handles).unwrap();
    let name = |suffix: &str| format!("slatedb.object_store_cache.{suffix}");
    assert_eq!(stats.object_store_cache_part_hits, name("part_hit_count"));
    assert_eq!(
        stats.object_store_cache_part_disk_read_duration,
        name("part_disk_read_duration")
    );
    assert_eq!(
        stats.object_store_cache_part_read_queue_duration,
        name("part_read_queue_duration")
    );
    assert_eq!(
        stats.object_store_cache_part_read_exec_duration,
        name("part_read_exec_duration")
    );
    assert_eq!(
        stats.object_store_cache_part_read_pread_duration,
        name("part_read_pread_duration")
    );
    assert_eq!(stats.object_store_cache_part_access, name("part_access_count"));
    assert_eq!(stats.object_store_cache_keys, name("cache_keys"));
    assert_eq!(stats.object_store_cache_bytes, name("cache_bytes"));
    assert_eq!(stats.object_store_cache_evicted_keys, name("evicted_keys"));
    assert_eq!(stats.object_store_cache_evicted_bytes, name("evicted_bytes"));
}

#[test]
fn handles_must_fit() {
    let mut handles: Vec<Handle> = all_metrics().into_iter().map(register).collect();
    handles.pop();
    assert!(CachedObjectStoreStats::new(handles).is_none());
    let mut handles: Vec<Handle> = all_metrics().into_iter().map(register).collect();
    handles.swap(0, 1);
    assert!(CachedObjectStoreStats::new(handles).is_none());
    assert!(CachedObjectStoreStats::new(Vec::<Handle>::new()).is_none());
}

#[test]
fn histograms_are_described() {
    assert_eq!(
        Metric::PartDiskReadDuration.description(),
        Some("Latency of a disk cache part read that hit, in seconds")
    );
    assert_eq!(
        Metric::PartReadPreadDuration.description(),
        Some("Time in the positional read syscall alone, in seconds")
    );
    assert_eq!(Metric::CacheKeys.description(), None);
    assert_eq!(Metric::PartHits.description(), None);
}

#[test]
fn names_differ_and_fields_are_listed() {
    let metrics = all_metrics();
    assert_eq!(metrics.len(), 10);
    for (i, a) in metrics.iter().enumerate() {
        assert!(a.name().starts_with("slatedb.object_store_cache."));
        for b in &metrics[i + 1..] {
            assert_ne!(a.name(), b.name());
        }
    }
    let fields = debug_fields();
    assert_eq!(fields.len(), 10);
    assert_eq!(fields[0], ("object_store_cache_part_hits", "<counter>"));
    assert_eq!(
        fields[1],
        ("object_store_cache_part_disk_read_duration", "<histogram>")
    );
    assert_eq!(fields[6], ("object_store_cache_keys", "<gauge>"));
    assert_eq!(fields[9], ("object_store_cache_evicted_bytes", "<counter>"));
}
