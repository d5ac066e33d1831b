//! An in-memory cache of blocks, indexes, filters and statistics, kept by
//! foyer.
//!
//! The cache is split into shards. Each entry has a size, and each shard holds
//! its share of a total weight. When a shard is full it evicts entries, in the
//! order that the [`FoyerEvictionPolicy`] sets. A read under LRU changes that
//! order, so reads take the cache by a mutable reference.

use crate::error::SlateDBError;
use crate::shard_model::empty_is_in_one_part;
use crate::shard_model::insert_stores;
use crate::shard_model::lemma_insert_inv;
use crate::shard_model::lemma_read_inv;
use crate::shard_model::lemma_remove_inv;
use crate::shard_model::pool_limit;
use crate::shard_model::shard_share;
use crate::shard_model::ShardedState;
use crate::shard_model::SlotKey;
use crate::shard_model::EXACT_SHARE;
use std::sync::Arc;
use vstd::prelude::*;

verus! {

/// The weight that a cache holds unless its options say otherwise: 64 MiB.
pub const DEFAULT_MAX_CAPACITY: u64 = 67_108_864;

/// The part of each LRU shard that is for keys of high priority: all of it, so
/// that the least recently used entry is evicted first.
pub const HIGH_PRIORITY_POOL_RATIO: u8 = 1;

/// More bytes than one shard takes in the vector that holds the shards.
pub const SHARD_BYTES: usize = 256;

/// Which entry a [`FoyerCache`] evicts when it is full.
#[derive(Clone, Copy, Debug, PartialEq, Eq, Structural)]
pub enum FoyerEvictionPolicy {
    /// Evict the least recently used entry.
    Lru,
    /// Evict in insertion order, ignoring reads.
    ///
    /// A read is only a lookup: there is no recency list to update under the
    /// shard lock, which makes hits cheaper than under LRU. Worth choosing for
    /// a cache sized to hold its whole working set, where the policy never
    /// actually has to pick a victim.
    Fifo,
}

impl Default for FoyerEvictionPolicy {
    fn default() -> (policy: Self)
        ensures
            policy == FoyerEvictionPolicy::Lru,
    {
        FoyerEvictionPolicy::Lru
    }
}

/// The options for the foyer cache.
#[derive(Clone, Copy, Debug)]
pub struct FoyerCacheOptions {
    /// The total weight of the entries that the cache holds.
    pub max_capacity: u64,
    /// The number of shards.
    pub shards: usize,
    /// Which entry leaves a full shard.
    pub eviction_policy: FoyerEvictionPolicy,
}

impl FoyerCacheOptions {
    /// There is at least one shard, and the vector of the shards is not larger
    /// than memory can address.
    pub open spec fn valid(self) -> bool {
        0 < self.shards && self.shards * SHARD_BYTES <= isize::MAX
    }

    /// Whether a cache can be made with these options.
    pub fn is_valid(&self) -> (valid: bool)
        ensures
            valid == self.valid(),
            valid <==> 0 < self.shards && self.shards * 256 <= isize::MAX,
    {
        0 < self.shards && self.shards <= isize::MAX as usize / SHARD_BYTES
    }

    /// The default options on a machine with the given number of processors:
    /// one shard for each of them.
    pub fn for_cpus(cpus: usize) -> (options: Self)
        ensures
            options == (FoyerCacheOptions {
                max_capacity: DEFAULT_MAX_CAPACITY,
                shards: cpus,
                eviction_policy: FoyerEvictionPolicy::Lru,
            }),
    {
        FoyerCacheOptions {
            max_capacity: DEFAULT_MAX_CAPACITY,
            shards: cpus,
            eviction_policy: FoyerEvictionPolicy::default(),
        }
    }
}

impl Default for FoyerCacheOptions {
    /// The default capacity and policy, with one shard for each processor that
    /// the machine reports.
    fn default() -> (options: Self)
        ensures
            options.max_capacity == DEFAULT_MAX_CAPACITY,
            options.eviction_policy == FoyerEvictionPolicy::Lru,
            machine_reports(options.shards),
    {
        FoyerCacheOptions::for_cpus(count_cpus())
    }
}

/// Calls `sysinfo::System::cpus` after `refresh_cpu_specifics` and returns the
/// length of the list. The number depends on the machine, and is zero where
/// the list cannot be read, so nothing is claimed of it.
#[verifier::external_body]
fn count_cpus() -> (cpus: usize) {
    let mut sys = sysinfo::System::new();
    sys.refresh_cpu_specifics(sysinfo::CpuRefreshKind::nothing());
    sys.cpus().len()
}

/// `cpus` is a number of processors that [`count_cpus`] returned.
pub closed spec fn machine_reports(cpus: usize) -> bool {
    call_ensures(count_cpus, (), cpus)
}

/// Nothing but a call of [`count_cpus`] shows how many processors the machine
/// reports.
proof fn reported_cpus_were_counted(cpus: usize)
    requires
        machine_reports(cpus),
    ensures
        call_ensures(count_cpus, (), cpus),
{
}

/// The id of a sorted table.
#[derive(Clone, Copy, Debug, PartialEq, Eq, Structural)]
pub enum SsTableId {
    /// A table of the write-ahead log, by its number.
    Wal(u64),
    /// A compacted table, by its unique id.
    Compacted(u128),
}

/// The key of a cached entry: a table and an offset in it.
#[derive(Clone, Copy, Debug, PartialEq, Eq, Structural)]
pub struct CachedKey {
    pub sst_id: SsTableId,
    pub block_id: u64,
}

impl CachedKey {
    /// The key as foyer stores it.
    pub open spec fn slot_key(self) -> SlotKey {
        match self.sst_id {
            SsTableId::Wal(id) => (0u8, id as u128, self.block_id),
            SsTableId::Compacted(id) => (1u8, id, self.block_id),
        }
    }

    /// The key as foyer stores it.
    pub fn slot(&self) -> (slot: SlotKey)
        ensures
            slot == self.slot_key(),
    {
        match self.sst_id {
            SsTableId::Wal(id) => (0, id as u128, self.block_id),
            SsTableId::Compacted(id) => (1, id, self.block_id),
        }
    }
}

impl vstd::std_specs::convert::FromSpecImpl<(SsTableId, u64)> for CachedKey {
    open spec fn obeys_from_spec() -> bool {
        true
    }

    open spec fn from_spec(pair: (SsTableId, u64)) -> Self {
        CachedKey { sst_id: pair.0, block_id: pair.1 }
    }
}

impl From<(SsTableId, u64)> for CachedKey {
    fn from(pair: (SsTableId, u64)) -> (key: Self) {
        CachedKey { sst_id: pair.0, block_id: pair.1 }
    }
}

/// Two keys are stored under one slot key only if they are equal.
pub proof fn slot_key_is_injective(a: CachedKey, b: CachedKey)
    requires
        a.slot_key() == b.slot_key(),
    ensures
        a == b,
{
}

/// Different pairs of a table and an offset are kept apart: both parts of a
/// pair go into its key, and two pairs are stored under one slot key only if
/// they are equal.
pub proof fn pairs_have_their_own_slots(a: (SsTableId, u64), b: (SsTableId, u64))
    ensures
        <CachedKey as vstd::std_specs::convert::FromSpec<(SsTableId, u64)>>::from_spec(a).sst_id
            == a.0,
        <CachedKey as vstd::std_specs::convert::FromSpec<(SsTableId, u64)>>::from_spec(a).block_id
            == a.1,
        <CachedKey as vstd::std_specs::convert::FromSpec<(SsTableId, u64)>>::from_spec(
            a,
        ).slot_key() == <CachedKey as vstd::std_specs::convert::FromSpec<
            (SsTableId, u64),
        >>::from_spec(b).slot_key() ==> a == b,
{
}

/// A cached block, index, filter or statistics record. Copies share the data.
#[derive(Debug)]
pub struct CachedEntry {
    /// The cached bytes.
    pub data: Arc<Vec<u8>>,
    /// The weight that the entry takes in the cache.
    pub size: usize,
}

impl CachedEntry {
    /// An entry that holds `data` and weighs `size`.
    pub fn new(data: Vec<u8>, size: usize) -> (entry: Self)
        ensures
            entry.data@ == data@,
            entry.size == size,
    {
        CachedEntry { data: Arc::new(data), size }
    }

    /// The weight of the entry.
    pub fn size(&self) -> (size: usize)
        ensures
            size == self.size,
    {
        self.size
    }
}

impl Clone for CachedEntry {
    fn clone(&self) -> (copy: Self)
        ensures
            copy == *self,
    {
        CachedEntry { data: self.data.clone(), size: self.size }
    }
}

/// A `foyer::Cache` that is used by one owner at a time and whose entries are
/// not held outside it.
#[verifier::external_body]
pub struct FoyerStore {
    inner: foyer::Cache<SlotKey, CachedEntry>,
}

/// The entries of a foyer cache, by their keys.
pub uninterp spec fn foyer_entries(store: FoyerStore) -> Map<SlotKey, CachedEntry>;

/// The keys of each shard of a foyer cache, in the order of eviction.
pub uninterp spec fn foyer_queues(store: FoyerStore) -> Seq<Seq<SlotKey>>;

/// The weight that a foyer cache was made to hold.
pub uninterp spec fn foyer_capacity(store: FoyerStore) -> nat;

/// Whether a foyer cache was made to evict the least recently used entry.
pub uninterp spec fn foyer_is_lru(store: FoyerStore) -> bool;

/// How many keys of each shard of a foyer cache have low priority.
pub uninterp spec fn foyer_low(store: FoyerStore) -> Seq<nat>;

/// The weight that the keys of high priority may have in each shard.
pub uninterp spec fn foyer_high_limits(store: FoyerStore) -> Seq<nat>;

/// The shard of a foyer cache that the hash of each key selects.
pub uninterp spec fn foyer_routes(store: FoyerStore) -> Map<SlotKey, int>;

/// What a foyer cache holds.
pub open spec fn foyer_state(store: FoyerStore) -> ShardedState {
    ShardedState {
        entries: foyer_entries(store),
        queues: foyer_queues(store),
        capacity: foyer_capacity(store),
        policy: if foyer_is_lru(store) {
            FoyerEvictionPolicy::Lru
        } else {
            FoyerEvictionPolicy::Fifo
        },
        low: foyer_low(store),
        high_limits: foyer_high_limits(store),
        routes: foyer_routes(store),
    }
}

/// Calls `foyer::CacheBuilder::build` with an `LruConfig` that gives the ratio
/// of each shard's share to keys of high priority. The cache is empty, has the
/// given number of shards and weighs an entry by its size. The hash of a key
/// selects its shard. The share for high priority is computed in floating point,
/// so nothing is claimed of one that is too large to be held exactly. The
/// builder panics if there is no shard or if the ratio is above one.
#[verifier::external_body]
fn build_lru(capacity: usize, shards: usize, high_priority_pool_ratio: u8) -> (store: FoyerStore)
    requires
        0 < shards,
        shards * SHARD_BYTES <= isize::MAX,
        high_priority_pool_ratio <= 1,
    ensures
        foyer_entries(store).dom().is_empty(),
        foyer_queues(store) == Seq::new(shards as nat, |i: int| Seq::<SlotKey>::empty()),
        foyer_capacity(store) == capacity,
        foyer_is_lru(store),
        foyer_low(store) == Seq::new(shards as nat, |i: int| 0nat),
        foyer_high_limits(store).len() == shards,
        forall|i: int|
            0 <= i < shards ==> pool_limit(
                shard_share(capacity as nat, shards as nat, i),
                high_priority_pool_ratio,
                #[trigger] foyer_high_limits(store)[i],
            ),
        foyer_routes(store).dom() == Set::<SlotKey>::full(),
        forall|k: SlotKey| 0 <= #[trigger] foyer_routes(store)[k] < shards,
{
    let high_priority_pool_ratio = high_priority_pool_ratio.into();
    FoyerStore {
        inner: foyer::CacheBuilder::new(capacity)
            .with_weighter(|_, v: &CachedEntry| v.size())
            .with_shards(shards)
            .with_eviction_config(foyer::LruConfig { high_priority_pool_ratio })
            .build(),
    }
}

/// Calls `foyer::CacheBuilder::build` with `FifoConfig::default()`. The cache
/// is empty, has the given number of shards and weighs an entry by its size. The
/// hash of a key selects its shard. No key has a priority. The builder panics if
/// there is no shard.
#[verifier::external_body]
fn build_fifo(capacity: usize, shards: usize) -> (store: FoyerStore)
    requires
        0 < shards,
        shards * SHARD_BYTES <= isize::MAX,
    ensures
        foyer_entries(store).dom().is_empty(),
        foyer_queues(store) == Seq::new(shards as nat, |i: int| Seq::<SlotKey>::empty()),
        foyer_capacity(store) == capacity,
        !foyer_is_lru(store),
        foyer_low(store) == Seq::new(shards as nat, |i: int| 0nat),
        foyer_high_limits(store) == Seq::new(shards as nat, |i: int| 0nat),
        foyer_routes(store).dom() == Set::<SlotKey>::full(),
        forall|k: SlotKey| 0 <= #[trigger] foyer_routes(store)[k] < shards,
{
    FoyerStore {
        inner: foyer::CacheBuilder::new(capacity)
            .with_weighter(|_, v: &CachedEntry| v.size())
            .with_shards(shards)
            .with_eviction_config(foyer::FifoConfig::default())
            .build(),
    }
}

/// Calls `foyer::Cache::get` and copies the value out. It returns the entry
/// stored under the key. Under LRU a hit moves the key to the back of its
/// queue, or, if it has low priority, of that part; nothing else changes.
#[verifier::external_body]
fn store_get(store: &mut FoyerStore, key: &SlotKey) -> (entry: Option<CachedEntry>)
    requires
        foyer_state(*old(store)).inv(),
    ensures
        entry == foyer_entries(*old(store)).get(*key),
        foyer_state(*final(store)) == foyer_state(*old(store)).read(*key),
{
    store.inner.get(key).map(|e| e.value().clone())
}

/// Calls `foyer::Cache::insert`. The entry goes to the shard that the hash of
/// its key selects. That shard drops keys from the front of its queue until
/// the rest fits beside the new entry, or until none is left; an earlier entry
/// under the key leaves too, and the key goes to the back. Under LRU it has
/// high priority there, and the oldest keys of high priority lose it while they
/// weigh more than their limit.
#[verifier::external_body]
fn store_insert(store: &mut FoyerStore, key: SlotKey, entry: CachedEntry)
    requires
        foyer_state(*old(store)).inv(),
    ensures
        foyer_state(*final(store)) == foyer_state(*old(store)).insert(
            foyer_routes(*old(store))[key],
            key,
            entry,
        ),
{
    store.inner.insert(key, entry);
}

/// Calls `foyer::Cache::remove`. The key and its entry leave, if they are
/// there, and nothing else changes.
#[verifier::external_body]
fn store_remove(store: &mut FoyerStore, key: &SlotKey)
    requires
        foyer_state(*old(store)).inv(),
    ensures
        foyer_state(*final(store)) == foyer_state(*old(store)).remove(*key),
{
    store.inner.remove(key);
}

/// A cache of entries by table and offset.
pub struct FoyerCache {
    inner: FoyerStore,
}

impl View for FoyerCache {
    type V = ShardedState;

    closed spec fn view(&self) -> ShardedState {
        foyer_state(self.inner)
    }
}

impl FoyerCache {
    /// A cache with the default options on this machine.
    pub fn new() -> (cache: Self)
        ensures
            cache@.inv(),
            cache@ == ShardedState::empty(
                cache@.queues.len(),
                DEFAULT_MAX_CAPACITY as usize as nat,
                FoyerEvictionPolicy::Lru,
                cache@.high_limits,
                cache@.routes,
            ),
            cache@.limits_fit(),
            cache@.in_one_part(),
            exists|cpus: usize| #[trigger]
                machine_reports(cpus) && cache@.queues.len() == if 0 < cpus && cpus * 256
                    <= isize::MAX {
                    cpus as nat
                } else {
                    1
                },
            cache@.entries.dom().is_empty(),
            cache@.capacity == 67_108_864,
            cache@.policy == FoyerEvictionPolicy::Lru,
    {
        let cpus = count_cpus();
        assert(machine_reports(cpus));
        FoyerCache::for_cpus(cpus)
    }

    /// A cache with the default options on a machine that reports the given
    /// number of processors. Where that is none, or more than shards can be
    /// made for, the cache has one shard.
    pub fn for_cpus(cpus: usize) -> (cache: Self)
        ensures
            cache@.inv(),
            cache@ == ShardedState::empty(
                if 0 < cpus && cpus * SHARD_BYTES <= isize::MAX {
                    cpus as nat
                } else {
                    1
                },
                DEFAULT_MAX_CAPACITY as usize as nat,
                FoyerEvictionPolicy::Lru,
                cache@.high_limits,
                cache@.routes,
            ),
            cache@.limits_fit(),
            cache@.in_one_part(),
            cache@.queues.len() == if 0 < cpus && cpus * 256 <= isize::MAX {
                cpus as nat
            } else {
                1
            },
            cache@.entries.dom().is_empty(),
            cache@.capacity == 67_108_864,
            cache@.policy == FoyerEvictionPolicy::Lru,
    {
        let mut options = FoyerCacheOptions::for_cpus(cpus);
        if !options.is_valid() {
            options.shards = 1;
        }
        FoyerCache::new_with_opts(options)
    }

    /// An empty cache with the given options.
    pub fn new_with_opts(options: FoyerCacheOptions) -> (cache: Self)
        requires
            options.valid(),
        ensures
            cache@.inv(),
            cache@ == ShardedState::empty(
                options.shards as nat,
                options.max_capacity as usize as nat,
                options.eviction_policy,
                cache@.high_limits,
                cache@.routes,
            ),
            cache@.limits_fit(),
            options.eviction_policy == FoyerEvictionPolicy::Lru && options.max_capacity as usize
                <= EXACT_SHARE ==> cache@.in_one_part(),
            cache@.entries.dom().is_empty(),
            cache@.queues.len() == options.shards,
            cache@.capacity == options.max_capacity as usize,
            cache@.policy == options.eviction_policy,
    {
        let capacity = options.max_capacity as usize;
        let inner = match options.eviction_policy {
            FoyerEvictionPolicy::Lru => build_lru(
                capacity,
                options.shards,
                HIGH_PRIORITY_POOL_RATIO,
            ),
            FoyerEvictionPolicy::Fifo => build_fifo(capacity, options.shards),
        };
        let cache = FoyerCache { inner };
        proof {
            if options.eviction_policy == FoyerEvictionPolicy::Lru && capacity <= EXACT_SHARE {
                assert(cache@ =~= ShardedState::empty(
                    cache@.queues.len(),
                    cache@.capacity,
                    FoyerEvictionPolicy::Lru,
                    cache@.high_limits,
                    cache@.routes,
                ));
                empty_is_in_one_part(cache@);
            }
        }
        cache
    }

    /// The entry under `key`, of whatever kind.
    fn get(&mut self, key: &CachedKey) -> (entry: Option<CachedEntry>)
        requires
            old(self)@.inv(),
        ensures
            final(self)@.inv(),
            entry == old(self)@.entries.get(key.slot_key()),
            final(self)@ == old(self)@.read(key.slot_key()),
            final(self)@.entries == old(self)@.entries,
    {
        let slot = key.slot();
        let entry = store_get(&mut self.inner, &slot);
        proof {
            lemma_read_inv(old(self)@, slot);
        }
        entry
    }

    /// The cached block under `key`.
    pub fn get_block(&mut self, key: &CachedKey) -> (entry: Option<CachedEntry>)
        requires
            old(self)@.inv(),
        ensures
            final(self)@.inv(),
            entry == old(self)@.entries.get(key.slot_key()),
            final(self)@ == old(self)@.read(key.slot_key()),
            final(self)@.entries == old(self)@.entries,
    {
        self.get(key)
    }

    /// The cached index under `key`.
    pub fn get_index(&mut self, key: &CachedKey) -> (entry: Option<CachedEntry>)
        requires
            old(self)@.inv(),
        ensures
            final(self)@.inv(),
            entry == old(self)@.entries.get(key.slot_key()),
            final(self)@ == old(self)@.read(key.slot_key()),
            final(self)@.entries == old(self)@.entries,
    {
        self.get(key)
    }

    /// The cached filter under `key`.
    pub fn get_filter(&mut self, key: &CachedKey) -> (entry: Option<CachedEntry>)
        requires
            old(self)@.inv(),
        ensures
            final(self)@.inv(),
            entry == old(self)@.entries.get(key.slot_key()),
            final(self)@ == old(self)@.read(key.slot_key()),
            final(self)@.entries == old(self)@.entries,
    {
        self.get(key)
    }

    /// The cached statistics under `key`.
    pub fn get_stats(&mut self, key: &CachedKey) -> (entry: Option<CachedEntry>)
        requires
            old(self)@.inv(),
        ensures
            final(self)@.inv(),
            entry == old(self)@.entries.get(key.slot_key()),
            final(self)@ == old(self)@.read(key.slot_key()),
            final(self)@.entries == old(self)@.entries,
    {
        self.get(key)
    }

    /// Stores `value` under `key`, evicting entries of one shard if it must.
    pub fn insert(&mut self, key: CachedKey, value: CachedEntry)
        requires
            old(self)@.inv(),
        ensures
            final(self)@.inv(),
            final(self)@.entries.get(key.slot_key()) == Some(value),
            final(self)@.entries.submap_of(old(self)@.entries.insert(key.slot_key(), value)),
            final(self)@ == old(self)@.insert(
                old(self)@.shard_of(key.slot_key()),
                key.slot_key(),
                value,
            ),
    {
        let slot = key.slot();
        store_insert(&mut self.inner, slot, value);
        proof {
            let i = old(self)@.shard_of(slot);
            lemma_insert_inv(old(self)@, i, slot, value);
            insert_stores(old(self)@, i, slot, value);
        }
    }

    /// Takes the outcome of a load for `key`: what was loaded is stored, and a
    /// load that failed changes nothing. The outcome goes on to the callers that
    /// wait for the load.
    pub fn store_loaded<E>(&mut self, key: CachedKey, loaded: Result<CachedEntry, E>) -> (outcome:
        Result<CachedEntry, E>)
        requires
            old(self)@.inv(),
        ensures
            final(self)@.inv(),
            outcome == loaded,
            loaded matches Ok(value) ==> final(self)@.entries.get(key.slot_key()) == Some(value),
            loaded matches Ok(value) ==> final(self)@ == old(self)@.insert(
                old(self)@.shard_of(key.slot_key()),
                key.slot_key(),
                value,
            ),
            loaded is Err ==> final(self)@ == old(self)@,
    {
        if let Ok(value) = &loaded {
            self.insert(key, value.clone());
        }
        loaded
    }

    /// Removes what is stored under `key`.
    pub fn remove(&mut self, key: &CachedKey)
        requires
            old(self)@.inv(),
        ensures
            final(self)@.inv(),
            final(self)@ == old(self)@.remove(key.slot_key()),
            final(self)@.entries == old(self)@.entries.remove(key.slot_key()),
    {
        let slot = key.slot();
        store_remove(&mut self.inner, &slot);
        proof {
            lemma_remove_inv(old(self)@, slot);
        }
    }

    /// The number of entries, which this cache does not count: always zero.
    pub fn entry_count(&self) -> (count: u64)
        ensures
            count == 0,
    {
        0
    }
}

impl Default for FoyerCache {
    fn default() -> (cache: Self)
        ensures
            cache@.inv(),
            cache@ == ShardedState::empty(
                cache@.queues.len(),
                DEFAULT_MAX_CAPACITY as usize as nat,
                FoyerEvictionPolicy::Lru,
                cache@.high_limits,
                cache@.routes,
            ),
            cache@.limits_fit(),
            cache@.in_one_part(),
            exists|cpus: usize| #[trigger]
                machine_reports(cpus) && cache@.queues.len() == if 0 < cpus && cpus * 256
                    <= isize::MAX {
                    cpus as nat
                } else {
                    1
                },
            cache@.entries.dom().is_empty(),
            cache@.capacity == 67_108_864,
            cache@.policy == FoyerEvictionPolicy::Lru,
    {
        FoyerCache::new()
    }
}

/// What a fetch reports for the outcome of a load: the loaded entry, or the
/// failure, always as [`SlateDBError::FoyerError`]. Several callers can wait
/// for one load, so the loader's own error cannot be handed to each of them.
pub fn fetch_outcome(loaded: Result<CachedEntry, foyer::Error>) -> (outcome: Result<
    CachedEntry,
    SlateDBError,
>)
    ensures
        outcome == match loaded {
            Ok(entry) => Ok(entry),
            Err(err) => Err(SlateDBError::FoyerError(Arc::new(err))),
        },
{
    match loaded {
        Ok(entry) => Ok(entry),
        Err(err) => Err(SlateDBError::FoyerError(Arc::new(err))),
    }
}

} // verus!
