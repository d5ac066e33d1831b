//! The metrics of the object store cache.
//!
//! Every metric has a name, a kind and, for histograms, a description. The
//! cache registers all of them in one order and keeps the handles that it gets.

use vstd::prelude::*;

verus! {

/// What the name of every metric begins with.
pub const NAME_PREFIX: &'static str = "slatedb.object_store_cache.";

/// The name of [`Metric::PartHits`].
pub const PART_HIT_COUNT: &'static str = "slatedb.object_store_cache.part_hit_count";

/// The name of [`Metric::PartDiskReadDuration`].
pub const PART_DISK_READ_DURATION: &'static str = "slatedb.object_store_cache.part_disk_read_duration";

/// The name of [`Metric::PartReadQueueDuration`].
pub const PART_READ_QUEUE_DURATION: &'static str = "slatedb.object_store_cache.part_read_queue_duration";

/// The name of [`Metric::PartReadExecDuration`].
pub const PART_READ_EXEC_DURATION: &'static str = "slatedb.object_store_cache.part_read_exec_duration";

/// The name of [`Metric::PartReadPreadDuration`].
pub const PART_READ_PREAD_DURATION: &'static str = "slatedb.object_store_cache.part_read_pread_duration";

/// The name of [`Metric::PartAccess`].
pub const PART_ACCESS_COUNT: &'static str = "slatedb.object_store_cache.part_access_count";

/// The name of [`Metric::CacheKeys`].
pub const CACHE_KEYS: &'static str = "slatedb.object_store_cache.cache_keys";

/// The name of [`Metric::CacheBytes`].
pub const CACHE_BYTES: &'static str = "slatedb.object_store_cache.cache_bytes";

/// The name of [`Metric::EvictedKeys`].
pub const EVICTED_KEYS: &'static str = "slatedb.object_store_cache.evicted_keys";

/// The name of [`Metric::EvictedBytes`].
pub const EVICTED_BYTES: &'static str = "slatedb.object_store_cache.evicted_bytes";

/// How a metric is recorded.
#[derive(Clone, Copy, Debug, PartialEq, Eq, Structural)]
pub enum MetricKind {
    /// A count that only grows.
    Counter,
    /// A value that goes up and down.
    Gauge,
    /// A distribution of latencies.
    Histogram,
}

/// A metric of the object store cache.
#[derive(Clone, Copy, Debug, PartialEq, Eq, Structural)]
pub enum Metric {
    /// Parts that were found in the cache.
    PartHits,
    /// Latency of serving a part from the local disk cache, covering only reads
    /// that hit. A miss falls through to the object store and is timed by the
    /// object store's own request metrics instead.
    PartDiskReadDuration,
    /// How long a part read waits for a thread after being handed over. Nonzero
    /// means the threads, not the disk, are what the read is waiting on.
    PartReadQueueDuration,
    /// How long a part read runs once it has a thread: the handle lookup plus
    /// the read. Together with the queue duration this accounts for the whole
    /// of the disk read duration.
    PartReadExecDuration,
    /// Time in the positional read syscall alone, with no cache lookup or
    /// scheduling included: what the device actually costs.
    PartReadPreadDuration,
    /// Parts that were asked for.
    PartAccess,
    /// Keys in the cache.
    CacheKeys,
    /// Bytes in the cache.
    CacheBytes,
    /// Keys that were evicted.
    EvictedKeys,
    /// Bytes that were evicted.
    EvictedBytes,
}

impl Metric {
    /// The name under which the metric is registered.
    pub open spec fn name_spec(self) -> Seq<char> {
        match self {
            Metric::PartHits => PART_HIT_COUNT@,
            Metric::PartDiskReadDuration => PART_DISK_READ_DURATION@,
            Metric::PartReadQueueDuration => PART_READ_QUEUE_DURATION@,
            Metric::PartReadExecDuration => PART_READ_EXEC_DURATION@,
            Metric::PartReadPreadDuration => PART_READ_PREAD_DURATION@,
            Metric::PartAccess => PART_ACCESS_COUNT@,
            Metric::CacheKeys => CACHE_KEYS@,
            Metric::CacheBytes => CACHE_BYTES@,
            Metric::EvictedKeys => EVICTED_KEYS@,
            Metric::EvictedBytes => EVICTED_BYTES@,
        }
    }

    /// How the metric is recorded.
    pub open spec fn kind_spec(self) -> MetricKind {
        match self {
            Metric::PartHits => MetricKind::Counter,
            Metric::PartDiskReadDuration => MetricKind::Histogram,
            Metric::PartReadQueueDuration => MetricKind::Histogram,
            Metric::PartReadExecDuration => MetricKind::Histogram,
            Metric::PartReadPreadDuration => MetricKind::Histogram,
            Metric::PartAccess => MetricKind::Counter,
            Metric::CacheKeys => MetricKind::Gauge,
            Metric::CacheBytes => MetricKind::Gauge,
            Metric::EvictedKeys => MetricKind::Counter,
            Metric::EvictedBytes => MetricKind::Counter,
        }
    }

    /// What the metric is described as, if it is described.
    pub open spec fn description_spec(self) -> Option<Seq<char>> {
        match self {
            Metric::PartDiskReadDuration => Some("Latency of a disk cache part read that hit, in seconds"@),
            Metric::PartReadQueueDuration => Some("Time a part read waits for a blocking thread, in seconds"@),
            Metric::PartReadExecDuration => Some("Time a part read runs once on a blocking thread, in seconds"@),
            Metric::PartReadPreadDuration => Some("Time in the positional read syscall alone, in seconds"@),
            _ => None,
        }
    }

    /// The field of [`CachedObjectStoreStats`] that holds the handle.
    pub open spec fn field_spec(self) -> Seq<char> {
        match self {
            Metric::PartHits => "object_store_cache_part_hits"@,
            Metric::PartDiskReadDuration => "object_store_cache_part_disk_read_duration"@,
            Metric::PartReadQueueDuration => "object_store_cache_part_read_queue_duration"@,
            Metric::PartReadExecDuration => "object_store_cache_part_read_exec_duration"@,
            Metric::PartReadPreadDuration => "object_store_cache_part_read_pread_duration"@,
            Metric::PartAccess => "object_store_cache_part_access"@,
            Metric::CacheKeys => "object_store_cache_keys"@,
            Metric::CacheBytes => "object_store_cache_bytes"@,
            Metric::EvictedKeys => "object_store_cache_evicted_keys"@,
            Metric::EvictedBytes => "object_store_cache_evicted_bytes"@,
        }
    }

    /// The position of the metric in the order of registration.
    pub open spec fn index(self) -> int {
        match self {
            Metric::PartHits => 0,
            Metric::PartDiskReadDuration => 1,
            Metric::PartReadQueueDuration => 2,
            Metric::PartReadExecDuration => 3,
            Metric::PartReadPreadDuration => 4,
            Metric::PartAccess => 5,
            Metric::CacheKeys => 6,
            Metric::CacheBytes => 7,
            Metric::EvictedKeys => 8,
            Metric::EvictedBytes => 9,
        }
    }

    /// The name under which the metric is registered.
    pub fn name(self) -> (name: &'static str)
        ensures
            name@ == self.name_spec(),
            self == Metric::PartHits ==> name@ == "slatedb.object_store_cache.part_hit_count"@,
            self == Metric::PartDiskReadDuration ==> name@ == "slatedb.object_store_cache.part_disk_read_duration"@,
            self == Metric::PartReadQueueDuration ==> name@ == "slatedb.object_store_cache.part_read_queue_duration"@,
            self == Metric::PartReadExecDuration ==> name@ == "slatedb.object_store_cache.part_read_exec_duration"@,
            self == Metric::PartReadPreadDuration ==> name@ == "slatedb.object_store_cache.part_read_pread_duration"@,
            self == Metric::PartAccess ==> name@ == "slatedb.object_store_cache.part_access_count"@,
            self == Metric::CacheKeys ==> name@ == "slatedb.object_store_cache.cache_keys"@,
            self == Metric::CacheBytes ==> name@ == "slatedb.object_store_cache.cache_bytes"@,
            self == Metric::EvictedKeys ==> name@ == "slatedb.object_store_cache.evicted_keys"@,
            self == Metric::EvictedBytes ==> name@ == "slatedb.object_store_cache.evicted_bytes"@,
    {
        match self {
            Metric::PartHits => PART_HIT_COUNT,
            Metric::PartDiskReadDuration => PART_DISK_READ_DURATION,
            Metric::PartReadQueueDuration => PART_READ_QUEUE_DURATION,
            Metric::PartReadExecDuration => PART_READ_EXEC_DURATION,
            Metric::PartReadPreadDuration => PART_READ_PREAD_DURATION,
            Metric::PartAccess => PART_ACCESS_COUNT,
            Metric::CacheKeys => CACHE_KEYS,
            Metric::CacheBytes => CACHE_BYTES,
            Metric::EvictedKeys => EVICTED_KEYS,
            Metric::EvictedBytes => EVICTED_BYTES,
        }
    }

    /// How the metric is recorded.
    pub fn kind(self) -> (kind: MetricKind)
        ensures
            kind == self.kind_spec(),
            kind == MetricKind::Histogram <==> self == Metric::PartDiskReadDuration || self == Metric::PartReadQueueDuration || self == Metric::PartReadExecDuration || self == Metric::PartReadPreadDuration,
            kind == MetricKind::Gauge <==> self == Metric::CacheKeys || self == Metric::CacheBytes,
    {
        match self {
            Metric::PartHits => MetricKind::Counter,
            Metric::PartDiskReadDuration => MetricKind::Histogram,
            Metric::PartReadQueueDuration => MetricKind::Histogram,
            Metric::PartReadExecDuration => MetricKind::Histogram,
            Metric::PartReadPreadDuration => MetricKind::Histogram,
            Metric::PartAccess => MetricKind::Counter,
            Metric::CacheKeys => MetricKind::Gauge,
            Metric::CacheBytes => MetricKind::Gauge,
            Metric::EvictedKeys => MetricKind::Counter,
            Metric::EvictedBytes => MetricKind::Counter,
        }
    }

    /// What the metric is described as: every histogram is, nothing else is.
    pub fn description(self) -> (description: Option<&'static str>)
        ensures
            match (description, self.description_spec()) {
                (Some(text), Some(expected)) => text@ == expected,
                (None, None) => true,
                _ => false,
            },
            description is Some <==> self.kind_spec() == MetricKind::Histogram,
            self == Metric::PartHits ==> description is None,
            self == Metric::PartDiskReadDuration ==> description is Some && description->0@ == "Latency of a disk cache part read that hit, in seconds"@,
            self == Metric::PartReadQueueDuration ==> description is Some && description->0@ == "Time a part read waits for a blocking thread, in seconds"@,
            self == Metric::PartReadExecDuration ==> description is Some && description->0@ == "Time a part read runs once on a blocking thread, in seconds"@,
            self == Metric::PartReadPreadDuration ==> description is Some && description->0@ == "Time in the positional read syscall alone, in seconds"@,
            self == Metric::PartAccess ==> description is None,
            self == Metric::CacheKeys ==> description is None,
            self == Metric::CacheBytes ==> description is None,
            self == Metric::EvictedKeys ==> description is None,
            self == Metric::EvictedBytes ==> description is None,
    {
        match self {
            Metric::PartDiskReadDuration => Some(
                "Latency of a disk cache part read that hit, in seconds",
            ),
            Metric::PartReadQueueDuration => Some(
                "Time a part read waits for a blocking thread, in seconds",
            ),
            Metric::PartReadExecDuration => Some(
                "Time a part read runs once on a blocking thread, in seconds",
            ),
            Metric::PartReadPreadDuration => Some(
                "Time in the positional read syscall alone, in seconds",
            ),
            _ => None,
        }
    }

    /// The field of [`CachedObjectStoreStats`] that holds the handle.
    pub fn field(self) -> (field: &'static str)
        ensures
            field@ == self.field_spec(),
            self == Metric::PartHits ==> field@ == "object_store_cache_part_hits"@,
            self == Metric::PartDiskReadDuration ==> field@ == "object_store_cache_part_disk_read_duration"@,
            self == Metric::PartReadQueueDuration ==> field@ == "object_store_cache_part_read_queue_duration"@,
            self == Metric::PartReadExecDuration ==> field@ == "object_store_cache_part_read_exec_duration"@,
            self == Metric::PartReadPreadDuration ==> field@ == "object_store_cache_part_read_pread_duration"@,
            self == Metric::PartAccess ==> field@ == "object_store_cache_part_access"@,
            self == Metric::CacheKeys ==> field@ == "object_store_cache_keys"@,
            self == Metric::CacheBytes ==> field@ == "object_store_cache_bytes"@,
            self == Metric::EvictedKeys ==> field@ == "object_store_cache_evicted_keys"@,
            self == Metric::EvictedBytes ==> field@ == "object_store_cache_evicted_bytes"@,
    {
        match self {
            Metric::PartHits => "object_store_cache_part_hits",
            Metric::PartDiskReadDuration => "object_store_cache_part_disk_read_duration",
            Metric::PartReadQueueDuration => "object_store_cache_part_read_queue_duration",
            Metric::PartReadExecDuration => "object_store_cache_part_read_exec_duration",
            Metric::PartReadPreadDuration => "object_store_cache_part_read_pread_duration",
            Metric::PartAccess => "object_store_cache_part_access",
            Metric::CacheKeys => "object_store_cache_keys",
            Metric::CacheBytes => "object_store_cache_bytes",
            Metric::EvictedKeys => "object_store_cache_evicted_keys",
            Metric::EvictedBytes => "object_store_cache_evicted_bytes",
        }
    }

    /// What stands for the handle in a debug listing.
    pub fn placeholder(self) -> (text: &'static str)
        ensures
            text@ == match self.kind_spec() {
                MetricKind::Counter => "<counter>"@,
                MetricKind::Gauge => "<gauge>"@,
                MetricKind::Histogram => "<histogram>"@,
            },
    {
        match self.kind() {
            MetricKind::Counter => "<counter>",
            MetricKind::Gauge => "<gauge>",
            MetricKind::Histogram => "<histogram>",
        }
    }
}

/// All metrics, in the order in which they are registered and listed.
pub open spec fn metric_order() -> Seq<Metric> {
    seq![
        Metric::PartHits,
        Metric::PartDiskReadDuration,
        Metric::PartReadQueueDuration,
        Metric::PartReadExecDuration,
        Metric::PartReadPreadDuration,
        Metric::PartAccess,
        Metric::CacheKeys,
        Metric::CacheBytes,
        Metric::EvictedKeys,
        Metric::EvictedBytes,
    ]
}

/// All metrics, in the order in which they are registered and listed.
pub fn all_metrics() -> (metrics: Vec<Metric>)
    ensures
        metrics@ == metric_order(),
        metrics@ == seq![
            Metric::PartHits,
            Metric::PartDiskReadDuration,
            Metric::PartReadQueueDuration,
            Metric::PartReadExecDuration,
            Metric::PartReadPreadDuration,
            Metric::PartAccess,
            Metric::CacheKeys,
            Metric::CacheBytes,
            Metric::EvictedKeys,
            Metric::EvictedBytes,
        ],
{
    vec![
        Metric::PartHits,
        Metric::PartDiskReadDuration,
        Metric::PartReadQueueDuration,
        Metric::PartReadExecDuration,
        Metric::PartReadPreadDuration,
        Metric::PartAccess,
        Metric::CacheKeys,
        Metric::CacheBytes,
        Metric::EvictedKeys,
        Metric::EvictedBytes,
    ]
}

/// The order of registration holds every metric, each at its position.
pub proof fn metric_order_is_complete(metric: Metric)
    ensures
        0 <= metric.index() < metric_order().len(),
        metric_order()[metric.index()] == metric,
        forall|i: int|
            0 <= i < metric_order().len() ==> (#[trigger] metric_order()[i]).index() == i,
{
}

/// No two metrics share a name.
pub proof fn metric_names_are_distinct(a: Metric, b: Metric)
    requires
        a.name_spec() == b.name_spec(),
    ensures
        a == b,
{
    reveal_strlit("slatedb.object_store_cache.part_hit_count");
    reveal_strlit("slatedb.object_store_cache.part_disk_read_duration");
    reveal_strlit("slatedb.object_store_cache.part_read_queue_duration");
    reveal_strlit("slatedb.object_store_cache.part_read_exec_duration");
    reveal_strlit("slatedb.object_store_cache.part_read_pread_duration");
    reveal_strlit("slatedb.object_store_cache.part_access_count");
    reveal_strlit("slatedb.object_store_cache.cache_keys");
    reveal_strlit("slatedb.object_store_cache.cache_bytes");
    reveal_strlit("slatedb.object_store_cache.evicted_keys");
    reveal_strlit("slatedb.object_store_cache.evicted_bytes");
    let tail = |m: Metric| (m.name_spec().len(), m.name_spec()[32], m.name_spec()[37]);
    assert(tail(a) == tail(b));
}

/// The name of every metric begins with the same prefix.
pub proof fn metric_names_share_the_prefix(metric: Metric)
    ensures
        NAME_PREFIX@.len() < metric.name_spec().len(),
        metric.name_spec().take(NAME_PREFIX@.len() as int) == NAME_PREFIX@,
{
    reveal_strlit("slatedb.object_store_cache.");
    reveal_strlit("slatedb.object_store_cache.part_hit_count");
    reveal_strlit("slatedb.object_store_cache.part_disk_read_duration");
    reveal_strlit("slatedb.object_store_cache.part_read_queue_duration");
    reveal_strlit("slatedb.object_store_cache.part_read_exec_duration");
    reveal_strlit("slatedb.object_store_cache.part_read_pread_duration");
    reveal_strlit("slatedb.object_store_cache.part_access_count");
    reveal_strlit("slatedb.object_store_cache.cache_keys");
    reveal_strlit("slatedb.object_store_cache.cache_bytes");
    reveal_strlit("slatedb.object_store_cache.evicted_keys");
    reveal_strlit("slatedb.object_store_cache.evicted_bytes");
    assert(metric.name_spec().take(NAME_PREFIX@.len() as int) =~= NAME_PREFIX@);
}

/// The name and the placeholder of each field in a debug listing, in order.
pub fn debug_fields() -> (fields: Vec<(&'static str, &'static str)>)
    ensures
        fields@.len() == metric_order().len(),
        forall|i: int|
            0 <= i < fields@.len() ==> {
                &&& (#[trigger] fields@[i]).0@ == metric_order()[i].field_spec()
                &&& fields@[i].1@ == match metric_order()[i].kind_spec() {
                    MetricKind::Counter => "<counter>"@,
                    MetricKind::Gauge => "<gauge>"@,
                    MetricKind::Histogram => "<histogram>"@,
                }
            },
        fields@.len() == 10,
        fields@[0].0@ == "object_store_cache_part_hits"@ && fields@[0].1@ == "<counter>"@,
        fields@[1].0@ == "object_store_cache_part_disk_read_duration"@ && fields@[1].1@ == "<histogram>"@,
        fields@[2].0@ == "object_store_cache_part_read_queue_duration"@ && fields@[2].1@ == "<histogram>"@,
        fields@[3].0@ == "object_store_cache_part_read_exec_duration"@ && fields@[3].1@ == "<histogram>"@,
        fields@[4].0@ == "object_store_cache_part_read_pread_duration"@ && fields@[4].1@ == "<histogram>"@,
        fields@[5].0@ == "object_store_cache_part_access"@ && fields@[5].1@ == "<counter>"@,
        fields@[6].0@ == "object_store_cache_keys"@ && fields@[6].1@ == "<gauge>"@,
        fields@[7].0@ == "object_store_cache_bytes"@ && fields@[7].1@ == "<gauge>"@,
        fields@[8].0@ == "object_store_cache_evicted_keys"@ && fields@[8].1@ == "<counter>"@,
        fields@[9].0@ == "object_store_cache_evicted_bytes"@ && fields@[9].1@ == "<counter>"@,
{
    let metrics = all_metrics();
    let mut fields: Vec<(&'static str, &'static str)> = Vec::new();
    let mut i: usize = 0;
    while i < metrics.len()
        invariant
            i <= metrics.len(),
            metrics@ == metric_order(),
            fields@.len() == i,
            forall|j: int|
                0 <= j < i ==> {
                    &&& (#[trigger] fields@[j]).0@ == metric_order()[j].field_spec()
                    &&& fields@[j].1@ == match metric_order()[j].kind_spec() {
                        MetricKind::Counter => "<counter>"@,
                        MetricKind::Gauge => "<gauge>"@,
                        MetricKind::Histogram => "<histogram>"@,
                    }
                },
        decreases metrics.len() - i,
    {
        let metric = metrics[i];
        fields.push((metric.field(), metric.placeholder()));
        i = i + 1;
    }
    fields
}

/// The handle that a registration returned.
#[derive(Debug)]
pub enum MetricHandle<C, G, H> {
    Counter(C),
    Gauge(G),
    Histogram(H),
}

impl<C, G, H> MetricHandle<C, G, H> {
    /// How the metric behind the handle is recorded.
    pub open spec fn kind(self) -> MetricKind {
        match self {
            MetricHandle::Counter(_) => MetricKind::Counter,
            MetricHandle::Gauge(_) => MetricKind::Gauge,
            MetricHandle::Histogram(_) => MetricKind::Histogram,
        }
    }
}

/// There is one handle for each metric, of the metric's kind, in the order of
/// registration.
pub open spec fn handles_fit<C, G, H>(handles: Seq<MetricHandle<C, G, H>>) -> bool {
    &&& handles.len() == metric_order().len()
    &&& forall|i: int|
        0 <= i < handles.len() ==> (#[trigger] handles[i]).kind() == metric_order()[i].kind_spec()
}

/// The handles of all metrics of the object store cache.
pub struct CachedObjectStoreStats<C, G, H> {
    /// Parts that were found in the cache.
    pub object_store_cache_part_hits: C,
    /// Latency of serving a part from the local disk cache, covering only reads
    /// that hit. A miss falls through to the object store and is timed by the
    /// object store's own request metrics instead.
    pub object_store_cache_part_disk_read_duration: H,
    /// How long a part read waits for a thread after being handed over. Nonzero
    /// means the threads, not the disk, are what the read is waiting on.
    pub object_store_cache_part_read_queue_duration: H,
    /// How long a part read runs once it has a thread: the handle lookup plus
    /// the read. Together with the queue duration this accounts for the whole
    /// of the disk read duration.
    pub object_store_cache_part_read_exec_duration: H,
    /// Time in the positional read syscall alone, with no cache lookup or
    /// scheduling included: what the device actually costs.
    pub object_store_cache_part_read_pread_duration: H,
    /// Parts that were asked for.
    pub object_store_cache_part_access: C,
    /// Keys in the cache.
    pub object_store_cache_keys: G,
    /// Bytes in the cache.
    pub object_store_cache_bytes: G,
    /// Keys that were evicted.
    pub object_store_cache_evicted_keys: C,
    /// Bytes that were evicted.
    pub object_store_cache_evicted_bytes: C,
}

impl<C, G, H> CachedObjectStoreStats<C, G, H> {
    /// The handle that is kept for a metric.
    pub open spec fn handle(self, metric: Metric) -> MetricHandle<C, G, H> {
        match metric {
            Metric::PartHits => MetricHandle::Counter(
                self.object_store_cache_part_hits,
            ),
            Metric::PartDiskReadDuration => MetricHandle::Histogram(
                self.object_store_cache_part_disk_read_duration,
            ),
            Metric::PartReadQueueDuration => MetricHandle::Histogram(
                self.object_store_cache_part_read_queue_duration,
            ),
            Metric::PartReadExecDuration => MetricHandle::Histogram(
                self.object_store_cache_part_read_exec_duration,
            ),
            Metric::PartReadPreadDuration => MetricHandle::Histogram(
                self.object_store_cache_part_read_pread_duration,
            ),
            Metric::PartAccess => MetricHandle::Counter(
                self.object_store_cache_part_access,
            ),
            Metric::CacheKeys => MetricHandle::Gauge(
                self.object_store_cache_keys,
            ),
            Metric::CacheBytes => MetricHandle::Gauge(
                self.object_store_cache_bytes,
            ),
            Metric::EvictedKeys => MetricHandle::Counter(
                self.object_store_cache_evicted_keys,
            ),
            Metric::EvictedBytes => MetricHandle::Counter(
                self.object_store_cache_evicted_bytes,
            ),
        }
    }

    /// Keeps the handles that the registration of all metrics returned, in the
    /// order of [`all_metrics`]. `None` if there is not one handle of the right
    /// kind for each metric.
    pub fn new(handles: Vec<MetricHandle<C, G, H>>) -> (stats: Option<Self>)
        ensures
            stats is Some <==> handles_fit(handles@),
            stats matches Some(s) ==> forall|metric: Metric| #[trigger]
                s.handle(metric) == handles@[metric.index()],
            stats is Some <==> {
                &&& handles@.len() == 10
                &&& handles@[0] is Counter
                &&& handles@[1] is Histogram
                &&& handles@[2] is Histogram
                &&& handles@[3] is Histogram
                &&& handles@[4] is Histogram
                &&& handles@[5] is Counter
                &&& handles@[6] is Gauge
                &&& handles@[7] is Gauge
                &&& handles@[8] is Counter
                &&& handles@[9] is Counter
            },
            stats matches Some(s) ==> handles@[0] == MetricHandle::<C, G, H>::Counter(
                s.object_store_cache_part_hits,
            ),
            stats matches Some(s) ==> handles@[1] == MetricHandle::<C, G, H>::Histogram(
                s.object_store_cache_part_disk_read_duration,
            ),
            stats matches Some(s) ==> handles@[2] == MetricHandle::<C, G, H>::Histogram(
                s.object_store_cache_part_read_queue_duration,
            ),
            stats matches Some(s) ==> handles@[3] == MetricHandle::<C, G, H>::Histogram(
                s.object_store_cache_part_read_exec_duration,
            ),
            stats matches Some(s) ==> handles@[4] == MetricHandle::<C, G, H>::Histogram(
                s.object_store_cache_part_read_pread_duration,
            ),
            stats matches Some(s) ==> handles@[5] == MetricHandle::<C, G, H>::Counter(
                s.object_store_cache_part_access,
            ),
            stats matches Some(s) ==> handles@[6] == MetricHandle::<C, G, H>::Gauge(
                s.object_store_cache_keys,
            ),
            stats matches Some(s) ==> handles@[7] == MetricHandle::<C, G, H>::Gauge(
                s.object_store_cache_bytes,
            ),
            stats matches Some(s) ==> handles@[8] == MetricHandle::<C, G, H>::Counter(
                s.object_store_cache_evicted_keys,
            ),
            stats matches Some(s) ==> handles@[9] == MetricHandle::<C, G, H>::Counter(
                s.object_store_cache_evicted_bytes,
            ),
    {
        if handles.len() != 10 {
            return None;
        }
        let mut rest = handles;
        let h9 = rest.pop();
        let h8 = rest.pop();
        let h7 = rest.pop();
        let h6 = rest.pop();
        let h5 = rest.pop();
        let h4 = rest.pop();
        let h3 = rest.pop();
        let h2 = rest.pop();
        let h1 = rest.pop();
        let h0 = rest.pop();
        match (
            h0, h1, h2, h3, h4, h5, h6, h7, h8, h9,
        ) {
            (
                Some(MetricHandle::Counter(h0)),
                Some(MetricHandle::Histogram(h1)),
                Some(MetricHandle::Histogram(h2)),
                Some(MetricHandle::Histogram(h3)),
                Some(MetricHandle::Histogram(h4)),
                Some(MetricHandle::Counter(h5)),
                Some(MetricHandle::Gauge(h6)),
                Some(MetricHandle::Gauge(h7)),
                Some(MetricHandle::Counter(h8)),
                Some(MetricHandle::Counter(h9)),
            ) => {
                let stats = CachedObjectStoreStats {
                    object_store_cache_part_hits: h0,
                    object_store_cache_part_disk_read_duration: h1,
                    object_store_cache_part_read_queue_duration: h2,
                    object_store_cache_part_read_exec_duration: h3,
                    object_store_cache_part_read_pread_duration: h4,
                    object_store_cache_part_access: h5,
                    object_store_cache_keys: h6,
                    object_store_cache_bytes: h7,
                    object_store_cache_evicted_keys: h8,
                    object_store_cache_evicted_bytes: h9,
                };
                Some(stats)
            },
            _ => None,
        }
    }
}

impl<C: Clone, G: Clone, H: Clone> Clone for CachedObjectStoreStats<C, G, H> {
    fn clone(&self) -> (copy: Self)
        ensures
            cloned(self.object_store_cache_part_hits, copy.object_store_cache_part_hits),
            cloned(
                self.object_store_cache_part_disk_read_duration,
                copy.object_store_cache_part_disk_read_duration,
            ),
            cloned(
                self.object_store_cache_part_read_queue_duration,
                copy.object_store_cache_part_read_queue_duration,
            ),
            cloned(
                self.object_store_cache_part_read_exec_duration,
                copy.object_store_cache_part_read_exec_duration,
            ),
            cloned(
                self.object_store_cache_part_read_pread_duration,
                copy.object_store_cache_part_read_pread_duration,
            ),
            cloned(self.object_store_cache_part_access, copy.object_store_cache_part_access),
            cloned(self.object_store_cache_keys, copy.object_store_cache_keys),
            cloned(self.object_store_cache_bytes, copy.object_store_cache_bytes),
            cloned(self.object_store_cache_evicted_keys, copy.object_store_cache_evicted_keys),
            cloned(self.object_store_cache_evicted_bytes, copy.object_store_cache_evicted_bytes),
    {
        CachedObjectStoreStats {
            object_store_cache_part_hits: self.object_store_cache_part_hits.clone(),
            object_store_cache_part_disk_read_duration: self.object_store_cache_part_disk_read_duration.clone(),
            object_store_cache_part_read_queue_duration: self.object_store_cache_part_read_queue_duration.clone(),
            object_store_cache_part_read_exec_duration: self.object_store_cache_part_read_exec_duration.clone(),
            object_store_cache_part_read_pread_duration: self.object_store_cache_part_read_pread_duration.clone(),
            object_store_cache_part_access: self.object_store_cache_part_access.clone(),
            object_store_cache_keys: self.object_store_cache_keys.clone(),
            object_store_cache_bytes: self.object_store_cache_bytes.clone(),
            object_store_cache_evicted_keys: self.object_store_cache_evicted_keys.clone(),
            object_store_cache_evicted_bytes: self.object_store_cache_evicted_bytes.clone(),
        }
    }
}

} // verus!
