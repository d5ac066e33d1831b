//! The mathematical model of a sharded, weighted cache.
//!
//! Each shard keeps its keys in a queue, the next victim first. An insert
//! evicts from the front of one queue until the new entry fits, and appends
//! the new key at its back.
//!
//! Under LRU a queue has two parts. The keys at its back, up to a limit on
//! their weight, have high priority; those before them have low priority. A
//! read moves its key to the back of the part that it is in. The limit is the
//! whole share of the shard, so that only an entry that is larger than the
//! share can make keys lose high priority. Otherwise a queue is in the order of
//! use, and the entry used longest ago is evicted first.

use crate::foyer_cache::CachedEntry;
use crate::foyer_cache::FoyerEvictionPolicy;
use vstd::prelude::*;

verus! {

/// The key under which an entry is stored: a tag for the kind of table, the
/// table's id, and the offset inside the table.
pub type SlotKey = (u8, u128, u64);

/// What a cache holds, together with the limits that it was made with.
#[verifier::ext_equal]
pub struct ShardedState {
    /// The entry stored under each key.
    pub entries: Map<SlotKey, CachedEntry>,
    /// The keys of each shard, the next victim first.
    pub queues: Seq<Seq<SlotKey>>,
    /// The weight that all shards together may hold.
    pub capacity: nat,
    /// How reads change the order of a queue.
    pub policy: FoyerEvictionPolicy,
    /// The number of keys at the front of each queue that have low priority.
    pub low: Seq<nat>,
    /// The weight that the keys of high priority may have in each queue.
    pub high_limits: Seq<nat>,
    /// The shard that each key belongs to.
    pub routes: Map<SlotKey, int>,
}

/// The largest weight up to which floating point holds every weight exactly.
pub const EXACT_SHARE: u64 = 0x20_0000_0000_0000;

/// The share of shard `i` in `capacity`: an even share, the first shards taking
/// the remainder.
pub open spec fn shard_share(capacity: nat, shards: nat, i: int) -> nat {
    capacity / shards + if i < capacity % shards {
        1nat
    } else {
        0nat
    }
}

/// `limit` is `ratio` times `share`, if floating point holds the share exactly.
pub open spec fn pool_limit(share: nat, ratio: u8, limit: nat) -> bool {
    share <= EXACT_SHARE ==> limit == share * ratio
}

/// The sum of the sizes of the entries that `entries` holds under `queue`.
pub open spec fn charge(queue: Seq<SlotKey>, entries: Map<SlotKey, CachedEntry>) -> nat
    decreases queue.len(),
{
    if queue.len() == 0 {
        0
    } else {
        charge(queue.drop_last(), entries) + entries[queue.last()].size as nat
    }
}

/// `queue` without its first keys, as many as must go for the rest to weigh
/// at most `room`.
pub open spec fn drop_oldest(
    queue: Seq<SlotKey>,
    entries: Map<SlotKey, CachedEntry>,
    room: nat,
) -> Seq<SlotKey>
    decreases queue.len(),
{
    if queue.len() == 0 || charge(queue, entries) <= room {
        queue
    } else {
        drop_oldest(queue.drop_first(), entries, room)
    }
}

/// How many keys of `queue` have low priority once those of high priority
/// weigh at most `limit`, if `low` keys had it before.
pub open spec fn demoted(
    queue: Seq<SlotKey>,
    entries: Map<SlotKey, CachedEntry>,
    low: nat,
    limit: nat,
) -> nat
    decreases queue.len() - low,
{
    if low >= queue.len() || charge(queue.skip(low as int), entries) <= limit {
        low
    } else {
        demoted(queue, entries, low + 1, limit)
    }
}

/// `queue` without `key`, the others in their order.
pub open spec fn without(queue: Seq<SlotKey>, key: SlotKey) -> Seq<SlotKey> {
    queue.filter(|k: SlotKey| k != key)
}

/// `queue` with the key at position `from` moved to position `to`.
pub open spec fn moved(queue: Seq<SlotKey>, from: int, to: int) -> Seq<SlotKey> {
    queue.remove(from).insert(to, queue[from])
}

/// In `queue`, what was used earlier by `last_use` stands further in front.
pub open spec fn ordered(queue: Seq<SlotKey>, last_use: Map<SlotKey, int>) -> bool {
    forall|p: int, r: int|
        #![trigger queue[p], queue[r]]
        0 <= p < r < queue.len() ==> last_use[queue[p]] < last_use[queue[r]]
}

impl ShardedState {
    /// A cache that holds nothing.
    pub open spec fn empty(
        shards: nat,
        capacity: nat,
        policy: FoyerEvictionPolicy,
        high_limits: Seq<nat>,
        routes: Map<SlotKey, int>,
    ) -> Self {
        ShardedState {
            entries: Map::empty(),
            queues: Seq::new(shards, |i: int| Seq::empty()),
            capacity,
            policy,
            low: Seq::new(shards, |i: int| 0),
            high_limits,
            routes,
        }
    }

    /// Under LRU, the whole share of each shard is for high priority.
    pub open spec fn limits_fit(self) -> bool {
        self.policy == FoyerEvictionPolicy::Lru ==> forall|i: int|
            0 <= i < self.queues.len() ==> pool_limit(
                self.shard_capacity(i),
                1,
                #[trigger] self.high_limits[i],
            )
    }

    /// Every key belongs to one shard and stands in no other queue, nor twice in
    /// its own. The stored keys are those in the queues. Under FIFO no key has
    /// low priority.
    pub open spec fn inv(self) -> bool {
        &&& self.queues.len() > 0
        &&& self.low.len() == self.queues.len()
        &&& self.high_limits.len() == self.queues.len()
        &&& forall|i: int|
            0 <= i < self.queues.len() ==> #[trigger] self.low[i] <= self.queues[i].len()
        &&& self.policy == FoyerEvictionPolicy::Fifo ==> forall|i: int|
            0 <= i < self.queues.len() ==> #[trigger] self.low[i] == 0
        &&& self.entries.dom().finite()
        &&& forall|i: int| 0 <= i < self.queues.len() ==> (#[trigger] self.queues[i]).no_duplicates()
        &&& forall|i: int, k: SlotKey|
            0 <= i < self.queues.len() && #[trigger] self.queues[i].contains(k)
                ==> self.entries.dom().contains(k)
        &&& forall|k: SlotKey| #[trigger] self.entries.dom().contains(k) ==> self.queued(k)
        &&& forall|k: SlotKey| 0 <= #[trigger] self.routes[k] < self.queues.len()
        &&& forall|i: int, k: SlotKey|
            0 <= i < self.queues.len() && #[trigger] self.queues[i].contains(k) ==> i
                == self.routes[k]
    }

    /// Some queue holds `key`.
    pub open spec fn queued(self, key: SlotKey) -> bool {
        exists|i: int| 0 <= i < self.queues.len() && #[trigger] self.queues[i].contains(key)
    }

    /// The weight that shard `i` may hold.
    pub open spec fn shard_capacity(self, i: int) -> nat {
        shard_share(self.capacity, self.queues.len(), i)
    }

    /// The weight that shard `i` can keep beside an entry of the given size.
    pub open spec fn room(self, i: int, size: usize) -> nat {
        if size <= self.shard_capacity(i) {
            (self.shard_capacity(i) - size) as nat
        } else {
            0
        }
    }

    /// The shard that `key` belongs to.
    pub open spec fn shard_of(self, key: SlotKey) -> int {
        self.routes[key]
    }

    /// Shard `i` is the one that `key` belongs to.
    pub open spec fn routes_to(self, key: SlotKey, i: int) -> bool {
        0 <= i < self.queues.len() && i == self.shard_of(key)
    }

    /// The keys of shard `i` that stay beside a new `entry` under `key`.
    pub open spec fn survivors(self, i: int, key: SlotKey, entry: CachedEntry) -> Seq<SlotKey> {
        without(drop_oldest(self.queues[i], self.entries, self.room(i, entry.size)), key)
    }

    /// How many of the survivors in shard `i` had low priority.
    pub open spec fn low_survivors(self, i: int, key: SlotKey, entry: CachedEntry) -> nat {
        let kept = drop_oldest(self.queues[i], self.entries, self.room(i, entry.size));
        let dropped = self.queues[i].len() - kept.len();
        let low = if dropped < self.low[i] {
            self.low[i] - dropped
        } else {
            0
        };
        without(kept.take(low), key).len()
    }

    /// How many keys of shard `i` have low priority beside a new `entry` under
    /// `key`, which starts with high priority.
    pub open spec fn low_beside(self, i: int, key: SlotKey, entry: CachedEntry) -> nat {
        if self.policy == FoyerEvictionPolicy::Lru {
            demoted(
                self.survivors(i, key, entry).push(key),
                self.entries.insert(key, entry),
                self.low_survivors(i, key, entry),
                self.high_limits[i],
            )
        } else {
            0
        }
    }

    /// `k` is stored in shard `i` and gives way to a new `entry` under `key`.
    pub open spec fn evicts(self, i: int, key: SlotKey, entry: CachedEntry, k: SlotKey) -> bool {
        &&& k != key
        &&& self.queues[i].contains(k)
        &&& !self.survivors(i, key, entry).contains(k)
    }

    /// The state after `entry` was stored under `key` in shard `i`.
    pub open spec fn insert(self, i: int, key: SlotKey, entry: CachedEntry) -> Self {
        ShardedState {
            entries: self.entries.remove_keys(
                Set::new(|k: SlotKey| self.evicts(i, key, entry, k)),
            ).insert(key, entry),
            queues: self.queues.update(i, self.survivors(i, key, entry).push(key)),
            low: self.low.update(i, self.low_beside(i, key, entry)),
            ..self
        }
    }

    /// The state after `key` was removed.
    pub open spec fn remove(self, key: SlotKey) -> Self {
        ShardedState {
            entries: self.entries.remove(key),
            queues: self.queues.map_values(|q: Seq<SlotKey>| without(q, key)),
            low: Seq::new(
                self.queues.len(),
                |i: int| without(self.queues[i].take(self.low[i] as int), key).len(),
            ),
            ..self
        }
    }

    /// The last position of the part of queue `i` that position `from` is in.
    pub open spec fn back(self, i: int, from: int) -> int {
        if from < self.low[i] {
            self.low[i] - 1
        } else {
            self.queues[i].len() - 1
        }
    }

    /// The state after a read of `key`: under FIFO, or on a miss, nothing
    /// changes; under LRU the key moves to the back of its part of its queue.
    pub open spec fn read(self, key: SlotKey) -> Self {
        if self.policy == FoyerEvictionPolicy::Lru && self.queued(key) {
            let i = self.shard_of(key);
            let from = self.queues[i].index_of(key);
            self.promoted(i, from, self.back(i, from))
        } else {
            self
        }
    }

    /// The state after the key at `from` in queue `i` moved to `to`.
    pub open spec fn promoted(self, i: int, from: int, to: int) -> Self {
        ShardedState { queues: self.queues.update(i, moved(self.queues[i], from, to)), ..self }
    }

    /// The whole share of each shard is for high priority, and every queue is
    /// in one part: all of it has high priority and is within the share, or it
    /// is a single key whose entry is larger than the share.
    pub open spec fn in_one_part(self) -> bool {
        forall|i: int|
            0 <= i < self.queues.len() ==> {
                &&& #[trigger] self.high_limits[i] == self.shard_capacity(i)
                &&& {
                    ||| self.low[i] == 0 && charge(self.queues[i], self.entries)
                        <= self.shard_capacity(i)
                    ||| self.queues[i].len() == 1 && charge(self.queues[i], self.entries)
                        > self.shard_capacity(i)
                }
            }
    }

    /// In every queue, what was used earlier by `last_use` stands further in
    /// front.
    pub open spec fn in_order_of(self, last_use: Map<SlotKey, int>) -> bool {
        forall|i: int| 0 <= i < self.queues.len() ==> ordered(#[trigger] self.queues[i], last_use)
    }

    /// The weight of all stored entries.
    pub open spec fn total_charge(self) -> nat {
        sum_charges(self.queues, self.entries)
    }

    /// No shard holds more than its share of the capacity.
    pub open spec fn within_capacity(self) -> bool {
        forall|i: int|
            0 <= i < self.queues.len() ==> charge(#[trigger] self.queues[i], self.entries)
                <= self.shard_capacity(i)
    }
}

/// The sum of the charges of `queues`.
pub open spec fn sum_charges(
    queues: Seq<Seq<SlotKey>>,
    entries: Map<SlotKey, CachedEntry>,
) -> nat
    decreases queues.len(),
{
    if queues.len() == 0 {
        0
    } else {
        sum_charges(queues.drop_last(), entries) + charge(queues.last(), entries)
    }
}

/// The charge of a queue depends only on the entries under its keys.
proof fn lemma_charge_same(
    queue: Seq<SlotKey>,
    a: Map<SlotKey, CachedEntry>,
    b: Map<SlotKey, CachedEntry>,
)
    requires
        forall|k: SlotKey| #[trigger] queue.contains(k) ==> a[k] == b[k],
    ensures
        charge(queue, a) == charge(queue, b),
    decreases queue.len(),
{
    if queue.len() > 0 {
        assert(queue.contains(queue.last()));
        assert forall|k: SlotKey| #[trigger] queue.drop_last().contains(k) implies a[k] == b[k] by {
            let i = queue.drop_last().index_of(k);
            assert(queue[i] == k);
            assert(queue.contains(k));
        }
        lemma_charge_same(queue.drop_last(), a, b);
    }
}

/// Without one key a queue weighs no more.
proof fn lemma_charge_without(
    queue: Seq<SlotKey>,
    entries: Map<SlotKey, CachedEntry>,
    key: SlotKey,
)
    ensures
        charge(without(queue, key), entries) <= charge(queue, entries),
    decreases queue.len(),
{
    reveal(Seq::filter);
    if queue.len() > 0 {
        lemma_charge_without(queue.drop_last(), entries, key);
        let rest = without(queue.drop_last(), key);
        assert(rest.push(queue.last()).drop_last() =~= rest);
    }
}

/// What a queue holds after a push.
proof fn lemma_contains_push(queue: Seq<SlotKey>, key: SlotKey)
    ensures
        forall|k: SlotKey| #[trigger]
            queue.push(key).contains(k) <==> queue.contains(k) || k == key,
        queue.no_duplicates() && !queue.contains(key) ==> queue.push(key).no_duplicates(),
{
    let grown = queue.push(key);
    assert forall|k: SlotKey| #[trigger] grown.contains(k) implies queue.contains(k) || k == key by {
        let i = grown.index_of(k);
        if i < queue.len() {
            assert(queue[i] == k);
        }
    }
    assert forall|k: SlotKey| queue.contains(k) || k == key implies #[trigger] grown.contains(k) by {
        if queue.contains(k) {
            let i = queue.index_of(k);
            assert(grown[i] == k);
        } else {
            assert(grown[queue.len() as int] == k);
        }
    }
}

/// What `without` keeps.
proof fn lemma_without(queue: Seq<SlotKey>, key: SlotKey)
    ensures
        forall|k: SlotKey| #[trigger]
            without(queue, key).contains(k) <==> queue.contains(k) && k != key,
        queue.no_duplicates() ==> without(queue, key).no_duplicates(),
        !queue.contains(key) ==> without(queue, key) == queue,
    decreases queue.len(),
{
    reveal(Seq::filter);
    if queue.len() > 0 {
        let init = queue.drop_last();
        lemma_without(init, key);
        let rest = without(init, key);
        assert(queue =~= init.push(queue.last()));
        lemma_contains_push(init, queue.last());
        lemma_contains_push(rest, queue.last());
        assert(without(queue, key) == if queue.last() != key {
            rest.push(queue.last())
        } else {
            rest
        });
        if queue.no_duplicates() {
            assert(!init.contains(queue.last())) by {
                if init.contains(queue.last()) {
                    let i = init.index_of(queue.last());
                    assert(queue[i] == queue[queue.len() - 1]);
                }
            }
            assert(init.no_duplicates());
        }
    }
}

/// Of the first keys of a queue no more are left without one key than of the
/// whole queue, and no more than there were.
proof fn lemma_without_prefix(queue: Seq<SlotKey>, n: int, key: SlotKey)
    requires
        0 <= n <= queue.len(),
    ensures
        without(queue.take(n), key).len() <= without(queue, key).len(),
        without(queue.take(n), key).len() <= n,
{
    let keep = |k: SlotKey| k != key;
    assert(queue =~= queue.take(n) + queue.skip(n));
    Seq::filter_distributes_over_add(queue.take(n), queue.skip(n), keep);
    lemma_without_len(queue.take(n), key);
}

/// Without one key a queue is no longer.
proof fn lemma_without_len(queue: Seq<SlotKey>, key: SlotKey)
    ensures
        without(queue, key).len() <= queue.len(),
    decreases queue.len(),
{
    reveal(Seq::filter);
    if queue.len() > 0 {
        lemma_without_len(queue.drop_last(), key);
    }
}

/// No more keys have low priority than there are keys, and none more than
/// before if those of high priority are within the limit.
proof fn lemma_demoted(
    queue: Seq<SlotKey>,
    entries: Map<SlotKey, CachedEntry>,
    low: nat,
    limit: nat,
)
    requires
        low <= queue.len(),
    ensures
        low <= demoted(queue, entries, low, limit) <= queue.len(),
        charge(queue.skip(demoted(queue, entries, low, limit) as int), entries) <= limit,
    decreases queue.len() - low,
{
    if low < queue.len() && charge(queue.skip(low as int), entries) > limit {
        lemma_demoted(queue, entries, low + 1, limit);
    }
}

/// `drop_oldest` leaves a suffix that weighs at most `room`, and all of a
/// queue that does.
proof fn lemma_drop_oldest(queue: Seq<SlotKey>, entries: Map<SlotKey, CachedEntry>, room: nat)
    ensures
        drop_oldest(queue, entries, room).len() <= queue.len(),
        drop_oldest(queue, entries, room) == queue.skip(
            queue.len() - drop_oldest(queue, entries, room).len(),
        ),
        charge(drop_oldest(queue, entries, room), entries) <= room,
        charge(queue, entries) <= room ==> drop_oldest(queue, entries, room) == queue,
    decreases queue.len(),
{
    if queue.len() == 0 || charge(queue, entries) <= room {
        assert(queue.skip(0) =~= queue);
    } else {
        lemma_drop_oldest(queue.drop_first(), entries, room);
        let kept = drop_oldest(queue, entries, room);
        assert(queue.drop_first().skip(queue.len() - 1 - kept.len()) =~= queue.skip(
            queue.len() - kept.len(),
        ));
    }
}

/// The survivors of an insert come from the shard's queue, in its order, and
/// fit beside the new entry.
proof fn lemma_survivors(state: ShardedState, i: int, key: SlotKey, entry: CachedEntry)
    requires
        state.inv(),
        0 <= i < state.queues.len(),
    ensures
        state.survivors(i, key, entry).no_duplicates(),
        !state.survivors(i, key, entry).contains(key),
        forall|k: SlotKey| #[trigger]
            state.survivors(i, key, entry).contains(k) ==> state.queues[i].contains(k),
        charge(state.survivors(i, key, entry), state.entries) <= state.room(i, entry.size),
        charge(state.queues[i], state.entries) <= state.room(i, entry.size)
            ==> state.survivors(i, key, entry) == without(state.queues[i], key),
{
    let queue = state.queues[i];
    let room = state.room(i, entry.size);
    let kept = drop_oldest(queue, state.entries, room);
    lemma_drop_oldest(queue, state.entries, room);
    let cut = queue.len() - kept.len();
    assert forall|k: SlotKey| #[trigger] kept.contains(k) implies queue.contains(k) by {
        let p = kept.index_of(k);
        assert(queue[p + cut] == k);
    }
    assert(kept.no_duplicates());
    lemma_without(kept, key);
    lemma_charge_without(kept, state.entries, key);
}

/// An insert leaves no more keys with low priority than there are keys.
proof fn lemma_low_beside(state: ShardedState, i: int, key: SlotKey, entry: CachedEntry)
    requires
        state.inv(),
        0 <= i < state.queues.len(),
    ensures
        state.low_survivors(i, key, entry) <= state.low[i],
        state.low_beside(i, key, entry) <= state.survivors(i, key, entry).len() + 1,
{
    let queue = state.queues[i];
    let room = state.room(i, entry.size);
    let kept = drop_oldest(queue, state.entries, room);
    lemma_drop_oldest(queue, state.entries, room);
    let dropped = queue.len() - kept.len();
    let low = if dropped < state.low[i] {
        state.low[i] - dropped
    } else {
        0
    };
    assert(state.low[i] <= queue.len());
    lemma_without_prefix(kept, low, key);
    lemma_demoted(
        state.survivors(i, key, entry).push(key),
        state.entries.insert(key, entry),
        state.low_survivors(i, key, entry),
        state.high_limits[i],
    );
}

/// The entries after an insert.
proof fn lemma_insert_entries(state: ShardedState, i: int, key: SlotKey, entry: CachedEntry)
    requires
        state.inv(),
        state.routes_to(key, i),
    ensures
        forall|k: SlotKey| #[trigger]
            state.insert(i, key, entry).entries.dom().contains(k) <==> k == key || (
            state.entries.dom().contains(k) && !state.evicts(i, key, entry, k)),
        forall|k: SlotKey|
            k != key && #[trigger] state.insert(i, key, entry).entries.dom().contains(k)
                ==> state.insert(i, key, entry).entries[k] == state.entries[k],
        state.insert(i, key, entry).entries[key] == entry,
        state.insert(i, key, entry).entries.dom().finite(),
{
    let gone = Set::new(|k: SlotKey| state.evicts(i, key, entry, k));
    assert(state.entries.remove_keys(gone).dom() =~= state.entries.dom().difference(gone));
}

/// An insert keeps the invariant.
pub proof fn lemma_insert_inv(state: ShardedState, i: int, key: SlotKey, entry: CachedEntry)
    requires
        state.inv(),
        state.routes_to(key, i),
    ensures
        state.insert(i, key, entry).inv(),
{
    let next = state.insert(i, key, entry);
    let kept = state.survivors(i, key, entry);
    lemma_survivors(state, i, key, entry);
    lemma_contains_push(kept, key);
    lemma_insert_entries(state, i, key, entry);
    assert(next.queues[i] == kept.push(key));
    lemma_low_beside(state, i, key, entry);
    assert forall|j: int| 0 <= j < next.queues.len() implies #[trigger] next.low[j]
        <= next.queues[j].len() by {
        if j != i {
            assert(state.low[j] <= state.queues[j].len());
        }
    }
    assert forall|j: int|
        state.policy == FoyerEvictionPolicy::Fifo && 0 <= j
            < next.queues.len() implies #[trigger] next.low[j] == 0 by {
        if j != i {
            assert(state.low[j] == 0);
        }
    }
    assert forall|j: int| 0 <= j < next.queues.len() implies (
    #[trigger] next.queues[j]).no_duplicates() by {
        if j != i {
            assert(next.queues[j] == state.queues[j]);
        }
    }
    assert forall|j: int, k: SlotKey|
        0 <= j < next.queues.len() && #[trigger] next.queues[j].contains(
            k,
        ) implies next.entries.dom().contains(k) by {
        if j == i {
            if k != key {
                assert(kept.contains(k));
                assert(state.queues[i].contains(k));
                assert(state.entries.dom().contains(k));
            }
        } else {
            assert(state.queues[j].contains(k));
            assert(state.entries.dom().contains(k));
            assert(!state.queues[i].contains(k));
        }
    }
    assert forall|k: SlotKey| #[trigger] next.entries.dom().contains(k) implies next.queued(k) by {
        if k == key {
            assert(next.queues[i].contains(k));
        } else {
            assert(state.entries.dom().contains(k));
            assert(state.queued(k));
            let j = choose|j: int|
                0 <= j < state.queues.len() && #[trigger] state.queues[j].contains(k);
            assert(next.queues[j].contains(k));
        }
    }
    assert forall|a: int, k: SlotKey|
        0 <= a < next.queues.len() && #[trigger] next.queues[a].contains(k) implies a
        == next.routes[k] by {
        if k != key || a != i {
            assert(state.queues[a].contains(k));
        }
    }
}

/// A removal keeps the invariant.
pub proof fn lemma_remove_inv(state: ShardedState, key: SlotKey)
    requires
        state.inv(),
    ensures
        state.remove(key).inv(),
{
    let next = state.remove(key);
    assert forall|j: int| 0 <= j < next.queues.len() implies {
        &&& (#[trigger] next.queues[j]).no_duplicates()
        &&& forall|k: SlotKey| #[trigger]
            next.queues[j].contains(k) <==> state.queues[j].contains(k) && k != key
    } by {
        lemma_without(state.queues[j], key);
    }
    assert forall|j: int| 0 <= j < next.queues.len() implies #[trigger] next.low[j]
        <= next.queues[j].len() && next.low[j] <= state.low[j] by {
        assert(state.low[j] <= state.queues[j].len());
        lemma_without_prefix(state.queues[j], state.low[j] as int, key);
    }
    assert forall|k: SlotKey| #[trigger] next.entries.dom().contains(k) implies next.queued(k) by {
        assert(state.queued(k));
        let j = choose|j: int|
            0 <= j < state.queues.len() && #[trigger] state.queues[j].contains(k);
        assert(next.queues[j].contains(k));
    }
    assert forall|j: int, k: SlotKey|
        0 <= j < next.queues.len() && #[trigger] next.queues[j].contains(
            k,
        ) implies next.entries.dom().contains(k) by {
        assert(state.queues[j].contains(k));
    }
    assert forall|a: int, k: SlotKey|
        0 <= a < next.queues.len() && #[trigger] next.queues[a].contains(k) implies a
        == next.routes[k] by {
        assert(state.queues[a].contains(k));
    }
}

/// A moved key leaves the same keys in the queue.
proof fn lemma_moved(queue: Seq<SlotKey>, from: int, to: int)
    requires
        queue.no_duplicates(),
        0 <= from <= to < queue.len(),
    ensures
        moved(queue, from, to).no_duplicates(),
        forall|k: SlotKey| #[trigger] moved(queue, from, to).contains(k) <==> queue.contains(k),
{
    let next = moved(queue, from, to);
    let at = |p: int| if p < from || p > to { p } else if p == to { from } else { p + 1 };
    let back = |p: int| if p < from || p > to { p } else if p == from { to } else { p - 1 };
    assert(next.len() == queue.len());
    assert forall|p: int| 0 <= p < next.len() implies #[trigger] next[p] == queue[at(p)] by {}
    assert forall|k: SlotKey| #[trigger] next.contains(k) implies queue.contains(k) by {
        let p = next.index_of(k);
        assert(queue[at(p)] == k);
    }
    assert forall|k: SlotKey| queue.contains(k) implies #[trigger] next.contains(k) by {
        let p = queue.index_of(k);
        assert(at(back(p)) == p);
        assert(next[back(p)] == k);
    }
    assert forall|a: int, b: int|
        0 <= a < next.len() && 0 <= b < next.len() && a != b implies next[a] != next[b] by {
        assert(next[a] == queue[at(a)]);
        assert(next[b] == queue[at(b)]);
        assert(at(a) != at(b));
    }
}

/// The positions of a key in its queue before and after a read under LRU.
proof fn lemma_read_positions(state: ShardedState, key: SlotKey)
    requires
        state.inv(),
        state.queued(key),
    ensures
        0 <= state.shard_of(key) < state.queues.len(),
        0 <= state.queues[state.shard_of(key)].index_of(key) <= state.back(
            state.shard_of(key),
            state.queues[state.shard_of(key)].index_of(key),
        ) < state.queues[state.shard_of(key)].len(),
        state.queues[state.shard_of(key)][state.queues[state.shard_of(key)].index_of(key)] == key,
{
    let j = choose|j: int| 0 <= j < state.queues.len() && #[trigger] state.queues[j].contains(key);
    let i = state.shard_of(key);
    assert(i == j);
    assert(state.low[i] <= state.queues[i].len());
}

/// A read keeps the invariant and the stored entries.
pub proof fn lemma_read_inv(state: ShardedState, key: SlotKey)
    requires
        state.inv(),
    ensures
        state.read(key).inv(),
        state.read(key).entries == state.entries,
        state.read(key).capacity == state.capacity,
        state.read(key).policy == state.policy,
        state.read(key).queues.len() == state.queues.len(),
{
    let next = state.read(key);
    if state.policy == FoyerEvictionPolicy::Lru && state.queued(key) {
        let i = state.shard_of(key);
        let from = state.queues[i].index_of(key);
        lemma_read_positions(state, key);
        lemma_moved(state.queues[i], from, state.back(i, from));
        assert forall|j: int| 0 <= j < next.queues.len() implies #[trigger] next.low[j]
            <= next.queues[j].len() by {
            assert(state.low[j] <= state.queues[j].len());
        }
        assert forall|j: int, k: SlotKey|
            0 <= j < next.queues.len() implies #[trigger] next.queues[j].contains(k)
            == state.queues[j].contains(k) by {}
        assert forall|k: SlotKey| #[trigger] next.entries.dom().contains(k) implies next.queued(
            k,
        ) by {
            assert(state.queued(k));
            let j = choose|j: int|
                0 <= j < state.queues.len() && #[trigger] state.queues[j].contains(k);
            assert(next.queues[j].contains(k));
        }
    }
}

/// The charge of a queue after a key was put in at `p`.
proof fn lemma_charge_insert(
    queue: Seq<SlotKey>,
    entries: Map<SlotKey, CachedEntry>,
    p: int,
    key: SlotKey,
)
    requires
        0 <= p <= queue.len(),
    ensures
        charge(queue.insert(p, key), entries) == charge(queue, entries) + entries[key].size,
    decreases queue.len(),
{
    let grown = queue.insert(p, key);
    if p == queue.len() {
        assert(grown.drop_last() =~= queue);
    } else {
        lemma_charge_insert(queue.drop_last(), entries, p, key);
        assert(grown.drop_last() =~= queue.drop_last().insert(p, key));
        assert(grown.last() == queue.last());
    }
}

/// A moved key leaves the charge of its queue as it was.
proof fn lemma_charge_moved(
    queue: Seq<SlotKey>,
    entries: Map<SlotKey, CachedEntry>,
    from: int,
    to: int,
)
    requires
        0 <= from < queue.len(),
        0 <= to < queue.len(),
    ensures
        charge(moved(queue, from, to), entries) == charge(queue, entries),
{
    let rest = queue.remove(from);
    lemma_charge_insert(rest, entries, to, queue[from]);
    lemma_charge_insert(rest, entries, from, queue[from]);
    assert(rest.insert(from, queue[from]) =~= queue);
}

/// The weight of a queue is that of its two parts together, and a single key
/// weighs what its entry does.
pub proof fn sizes_add_up(
    first: Seq<SlotKey>,
    rest: Seq<SlotKey>,
    key: SlotKey,
    entries: Map<SlotKey, CachedEntry>,
)
    ensures
        charge(first + rest, entries) == charge(first, entries) + charge(rest, entries),
        charge(seq![key], entries) == entries[key].size,
        charge(Seq::<SlotKey>::empty(), entries) == 0,
    decreases rest.len(),
{
    reveal_with_fuel(charge, 2);
    assert(seq![key].drop_last() =~= Seq::<SlotKey>::empty());
    if rest.len() == 0 {
        assert(first + rest =~= first);
    } else {
        sizes_add_up(first, rest.drop_last(), key, entries);
        assert((first + rest).drop_last() =~= first + rest.drop_last());
        assert((first + rest).last() == rest.last());
    }
}

/// The shards divide the capacity evenly: their shares differ by at most one,
/// and no shard has a larger share than one before it.
pub proof fn shares_are_even(capacity: nat, shards: nat, i: int, j: int)
    requires
        0 <= i <= j < shards,
    ensures
        shard_share(capacity, shards, j) <= shard_share(capacity, shards, i) <= shard_share(
            capacity,
            shards,
            j,
        ) + 1,
        shards * shard_share(capacity, shards, shards - 1) <= capacity,
        capacity <= shards * shard_share(capacity, shards, 0),
{
    let c = capacity as int;
    let n = shards as int;
    vstd::arithmetic::div_mod::lemma_fundamental_div_mod(c, n);
    let q = c / n;
    assert(n * (q + 1) == n * q + n) by (nonlinear_arith);
}

/// The shares of the first `n` of the shards.
pub open spec fn shares_before(capacity: nat, shards: nat, n: nat) -> nat
    decreases n,
{
    if n == 0 {
        0
    } else {
        shares_before(capacity, shards, (n - 1) as nat) + shard_share(capacity, shards, n - 1)
    }
}

/// The shares of the first shards, counted.
proof fn lemma_shares_before(capacity: nat, shards: nat, n: nat)
    requires
        0 < shards,
        n <= shards,
    ensures
        shares_before(capacity, shards, n) == n * (capacity / shards) + if n < capacity % shards {
            n
        } else {
            capacity % shards
        },
    decreases n,
{
    let share = capacity / shards;
    if n == 0 {
        assert(n * share == 0) by (nonlinear_arith)
            requires
                n == 0,
        ;
    } else {
        let m = (n - 1) as nat;
        lemma_shares_before(capacity, shards, m);
        assert(n * share == m * share + share) by (nonlinear_arith)
            requires
                n == m + 1,
        ;
    }
}

/// The shares of all shards together are the capacity.
pub proof fn shares_add_up(capacity: nat, shards: nat)
    requires
        0 < shards,
    ensures
        shares_before(capacity, shards, shards) == capacity,
{
    lemma_shares_before(capacity, shards, shards);
    vstd::arithmetic::div_mod::lemma_fundamental_div_mod(capacity as int, shards as int);
}

/// What an insert stores can be read back; every other key keeps its entry or
/// is evicted, and no other key appears.
pub proof fn insert_stores(state: ShardedState, i: int, key: SlotKey, entry: CachedEntry)
    requires
        state.inv(),
        state.routes_to(key, i),
    ensures
        state.insert(i, key, entry).entries.dom().contains(key),
        state.insert(i, key, entry).entries[key] == entry,
        state.insert(i, key, entry).entries.submap_of(state.entries.insert(key, entry)),
{
    lemma_insert_entries(state, i, key, entry);
}

/// After a removal the key is gone and every other key has its entry.
pub proof fn remove_forgets(state: ShardedState, key: SlotKey)
    ensures
        !state.remove(key).entries.dom().contains(key),
        forall|k: SlotKey|
            k != key ==> state.remove(key).entries.dom().contains(k)
                == state.entries.dom().contains(k) && state.remove(key).entries[k]
                == state.entries[k],
{
}

/// An insert evicts from the front: with a key, every key before it in its
/// queue goes too, save the one that is being replaced.
pub proof fn insert_evicts_front_first(
    state: ShardedState,
    i: int,
    key: SlotKey,
    entry: CachedEntry,
    earlier: int,
    later: int,
)
    requires
        state.inv(),
        state.routes_to(key, i),
        0 <= earlier <= later < state.queues[i].len(),
        state.queues[i][earlier] != key,
        state.evicts(i, key, entry, state.queues[i][later]),
    ensures
        state.evicts(i, key, entry, state.queues[i][earlier]),
{
    let queue = state.queues[i];
    let room = state.room(i, entry.size);
    let kept = drop_oldest(queue, state.entries, room);
    lemma_drop_oldest(queue, state.entries, room);
    lemma_without(kept, key);
    let cut = queue.len() - kept.len();
    if state.survivors(i, key, entry).contains(queue[earlier]) {
        let p = kept.index_of(queue[earlier]);
        assert(queue[p + cut] == queue[earlier]);
        assert(p + cut == earlier);
        assert(kept[later - cut] == queue[later]);
        assert(kept.contains(queue[later]));
    }
}

/// An insert evicts no more than it must: a key leaves only if it, all keys
/// behind it and the new entry together do not fit into the shard's share.
pub proof fn insert_evicts_no_more_than_it_must(
    state: ShardedState,
    i: int,
    key: SlotKey,
    entry: CachedEntry,
    p: int,
)
    requires
        state.inv(),
        state.routes_to(key, i),
        0 <= p < state.queues[i].len(),
        state.evicts(i, key, entry, state.queues[i][p]),
        entry.size <= state.shard_capacity(i),
    ensures
        charge(state.queues[i].skip(p), state.entries) + entry.size > state.shard_capacity(i),
{
    let queue = state.queues[i];
    let room = state.room(i, entry.size);
    lemma_drop_oldest_maximal(queue, state.entries, room, p);
    let kept = drop_oldest(queue, state.entries, room);
    lemma_drop_oldest(queue, state.entries, room);
    lemma_without(kept, key);
    let cut = queue.len() - kept.len();
    if p >= cut {
        assert(kept[p - cut] == queue[p]);
        assert(kept.contains(queue[p]));
    }
}

/// What is dropped did not fit.
proof fn lemma_drop_oldest_maximal(
    queue: Seq<SlotKey>,
    entries: Map<SlotKey, CachedEntry>,
    room: nat,
    p: int,
)
    requires
        0 <= p < queue.len(),
    ensures
        p < queue.len() - drop_oldest(queue, entries, room).len() ==> charge(
            queue.skip(p),
            entries,
        ) > room,
    decreases queue.len(),
{
    if charge(queue, entries) > room {
        let rest = queue.drop_first();
        if p == 0 {
            assert(queue.skip(0) =~= queue);
        } else {
            lemma_drop_oldest_maximal(rest, entries, room, p - 1);
            assert(rest.skip(p - 1) =~= queue.skip(p));
        }
    }
}

/// A new key stands behind every survivor of its shard.
pub proof fn insert_appends(state: ShardedState, i: int, key: SlotKey, entry: CachedEntry)
    requires
        state.inv(),
        state.routes_to(key, i),
    ensures
        state.insert(i, key, entry).queues[i].last() == key,
        state.insert(i, key, entry).queues[i].drop_last() == state.survivors(i, key, entry),
        forall|j: int|
            0 <= j < state.queues.len() && j != i ==> #[trigger] state.insert(
                i,
                key,
                entry,
            ).queues[j] == state.queues[j],
{
}

/// While what a shard holds and the new entry together fit into its share, an
/// insert evicts nothing.
pub proof fn insert_keeps_what_fits(state: ShardedState, i: int, key: SlotKey, entry: CachedEntry)
    requires
        state.inv(),
        state.routes_to(key, i),
        charge(state.queues[i], state.entries) + entry.size <= state.shard_capacity(i),
    ensures
        state.insert(i, key, entry).entries == state.entries.insert(key, entry),
{
    lemma_survivors(state, i, key, entry);
    lemma_without(state.queues[i], key);
    lemma_insert_entries(state, i, key, entry);
    assert(state.insert(i, key, entry).entries =~= state.entries.insert(key, entry));
}

/// An insert that replaces the key at the front of its queue evicts nothing, if
/// the new entry fits beside the other ones.
pub proof fn replacing_the_front_keeps_the_rest(
    state: ShardedState,
    i: int,
    key: SlotKey,
    entry: CachedEntry,
)
    requires
        state.inv(),
        state.routes_to(key, i),
        state.queues[i].len() > 0,
        state.queues[i][0] == key,
        charge(state.queues[i].drop_first(), state.entries) + entry.size <= state.shard_capacity(i),
    ensures
        state.insert(i, key, entry).entries == state.entries.insert(key, entry),
{
    let queue = state.queues[i];
    let rest = queue.drop_first();
    let room = state.room(i, entry.size);
    assert(queue.no_duplicates());
    assert(!rest.contains(key)) by {
        if rest.contains(key) {
            let p = rest.index_of(key);
            assert(queue[p + 1] == queue[0]);
        }
    }
    assert(drop_oldest(queue, state.entries, room) == queue || drop_oldest(
        queue,
        state.entries,
        room,
    ) == rest) by {
        reveal_with_fuel(drop_oldest, 3);
    }
    lemma_without(queue, key);
    lemma_without(rest, key);
    lemma_insert_entries(state, i, key, entry);
    assert forall|k: SlotKey| !state.evicts(i, key, entry, k) by {
        if k != key && queue.contains(k) {
            let p = queue.index_of(k);
            assert(rest[p - 1] == k);
            assert(rest.contains(k));
        }
    }
    assert(state.insert(i, key, entry).entries =~= state.entries.insert(key, entry));
}

/// An insert into a full shard of entries of one size evicts exactly the key at
/// the front, if the new entry has that size too and its key is not there.
pub proof fn full_shard_evicts_the_front(
    state: ShardedState,
    i: int,
    key: SlotKey,
    entry: CachedEntry,
)
    requires
        state.inv(),
        state.routes_to(key, i),
        !state.entries.dom().contains(key),
        state.queues[i].len() > 0,
        forall|k: SlotKey| #[trigger]
            state.queues[i].contains(k) ==> state.entries[k].size == entry.size,
        charge(state.queues[i], state.entries) <= state.shard_capacity(i),
        charge(state.queues[i], state.entries) + entry.size > state.shard_capacity(i),
    ensures
        state.insert(i, key, entry).entries == state.entries.remove(state.queues[i][0]).insert(
            key,
            entry,
        ),
{
    let queue = state.queues[i];
    let front = queue[0];
    let rest = queue.drop_first();
    let room = state.room(i, entry.size);
    assert(queue.contains(front));
    assert(state.entries.dom().contains(front));
    assert(!queue.contains(key));
    assert(queue =~= rest.insert(0, front));
    lemma_charge_insert(rest, state.entries, 0, front);
    assert(drop_oldest(queue, state.entries, room) == rest) by {
        reveal_with_fuel(drop_oldest, 3);
    }
    assert(!rest.contains(key)) by {
        if rest.contains(key) {
            let p = rest.index_of(key);
            assert(queue[p + 1] == key);
        }
    }
    assert(!rest.contains(front)) by {
        if rest.contains(front) {
            let p = rest.index_of(front);
            assert(queue[p + 1] == queue[0]);
        }
    }
    lemma_without(rest, key);
    lemma_insert_entries(state, i, key, entry);
    assert forall|k: SlotKey| state.evicts(i, key, entry, k) == (k == front) by {
        if k != front && queue.contains(k) {
            let p = queue.index_of(k);
            assert(rest[p - 1] == k);
            assert(rest.contains(k));
        }
    }
    assert(state.insert(i, key, entry).entries =~= state.entries.remove(front).insert(key, entry));
}

/// An insert of an entry that fits its shard's share leaves every shard within
/// its share, if every shard was.
pub proof fn insert_stays_within_capacity(
    state: ShardedState,
    i: int,
    key: SlotKey,
    entry: CachedEntry,
)
    requires
        state.inv(),
        state.routes_to(key, i),
        state.within_capacity(),
        entry.size <= state.shard_capacity(i),
    ensures
        state.insert(i, key, entry).within_capacity(),
{
    let next = state.insert(i, key, entry);
    let kept = state.survivors(i, key, entry);
    lemma_survivors(state, i, key, entry);
    lemma_insert_entries(state, i, key, entry);
    lemma_contains_push(kept, key);
    lemma_insert_inv(state, i, key, entry);
    assert forall|j: int| 0 <= j < next.queues.len() implies charge(
        #[trigger] next.queues[j],
        next.entries,
    ) <= next.shard_capacity(j) by {
        if j == i {
            assert(next.queues[i] == kept.push(key));
            assert(kept.push(key).drop_last() =~= kept);
            assert forall|k: SlotKey| #[trigger] kept.contains(k) implies next.entries[k]
                == state.entries[k] by {
                assert(next.queues[i].contains(k));
            }
            lemma_charge_same(kept, next.entries, state.entries);
        } else {
            assert(next.queues[j] == state.queues[j]);
            assert forall|k: SlotKey| #[trigger]
                next.queues[j].contains(k) implies next.entries[k] == state.entries[k] by {
                assert(next.entries.dom().contains(k));
                assert(next.queues[i].contains(key)) by {
                    assert(kept.push(key).contains(key));
                }
            }
            lemma_charge_same(next.queues[j], next.entries, state.entries);
        }
    }
}

/// A removal leaves every shard within its share, if every shard was.
pub proof fn remove_stays_within_capacity(state: ShardedState, key: SlotKey)
    requires
        state.inv(),
        state.within_capacity(),
    ensures
        state.remove(key).within_capacity(),
{
    let next = state.remove(key);
    assert forall|j: int| 0 <= j < next.queues.len() implies charge(
        #[trigger] next.queues[j],
        next.entries,
    ) <= next.shard_capacity(j) by {
        lemma_without(state.queues[j], key);
        lemma_charge_without(state.queues[j], state.entries, key);
        lemma_charge_same(next.queues[j], next.entries, state.entries);
    }
}

/// A read leaves every shard within its share, if every shard was.
pub proof fn read_stays_within_capacity(state: ShardedState, key: SlotKey)
    requires
        state.inv(),
        state.within_capacity(),
    ensures
        state.read(key).within_capacity(),
{
    let next = state.read(key);
    if state.policy == FoyerEvictionPolicy::Lru && state.queued(key) {
        let i = state.shard_of(key);
        let from = state.queues[i].index_of(key);
        lemma_read_positions(state, key);
        lemma_charge_moved(state.queues[i], state.entries, from, state.back(i, from));
        assert forall|j: int| 0 <= j < next.queues.len() implies charge(
            #[trigger] next.queues[j],
            next.entries,
        ) <= next.shard_capacity(j) by {
            assert(charge(state.queues[j], state.entries) <= state.shard_capacity(j));
        }
    }
}

/// The shares of the first `n` shards add up to no more than those shards'
/// part of the capacity.
proof fn lemma_sum_within(state: ShardedState, n: nat)
    requires
        state.within_capacity(),
        n <= state.queues.len(),
        state.queues.len() > 0,
    ensures
        sum_charges(state.queues.take(n as int), state.entries) <= n * (state.capacity
            / state.queues.len()) + if n < state.capacity % state.queues.len() {
            n
        } else {
            state.capacity % state.queues.len()
        },
    decreases n,
{
    if n > 0 {
        let m = (n - 1) as nat;
        let share = state.capacity / state.queues.len();
        lemma_sum_within(state, m);
        let part = state.queues.take(n as int);
        assert(part.drop_last() =~= state.queues.take(m as int));
        assert(part.last() == state.queues[m as int]);
        assert(charge(state.queues[m as int], state.entries) <= state.shard_capacity(m as int));
        assert(n * share == m * share + share) by (nonlinear_arith)
            requires
                n == m + 1,
        ;
    }
}

/// Where every shard is within its share, the whole cache is within its
/// capacity.
pub proof fn within_capacity_bounds_total(state: ShardedState)
    requires
        state.inv(),
        state.within_capacity(),
    ensures
        state.total_charge() <= state.capacity,
{
    let n = state.queues.len();
    lemma_sum_within(state, n);
    assert(state.queues.take(n as int) =~= state.queues);
    vstd::arithmetic::div_mod::lemma_fundamental_div_mod(state.capacity as int, n as int);
}

/// Under FIFO a read changes nothing: entries leave in the order of their
/// insertion.
pub proof fn fifo_ignores_reads(state: ShardedState, key: SlotKey)
    requires
        state.policy == FoyerEvictionPolicy::Fifo,
    ensures
        state.read(key) == state,
{
}

/// `a` stands before `b` in `queue`: it is evicted first.
pub open spec fn before(queue: Seq<SlotKey>, a: SlotKey, b: SlotKey) -> bool {
    exists|p: int, r: int|
        0 <= p < r < queue.len() && #[trigger] queue[p] == a && #[trigger] queue[r] == b
}

/// Under LRU a read only moves its key away from the front: whatever was
/// evicted before it still is, and all other keys keep their order.
pub proof fn lru_read_defers_eviction(
    state: ShardedState,
    key: SlotKey,
    j: int,
    a: SlotKey,
    b: SlotKey,
)
    requires
        state.inv(),
        state.policy == FoyerEvictionPolicy::Lru,
        0 <= j < state.queues.len(),
        before(state.queues[j], a, b),
        a != key,
    ensures
        before(state.read(key).queues[j], a, b),
{
    let next = state.read(key);
    if state.queued(key) {
        let i = state.shard_of(key);
        let from = state.queues[i].index_of(key);
        let to = state.back(i, from);
        lemma_read_positions(state, key);
        if i == j {
            let queue = state.queues[i];
            let (p, r) = choose|p: int, r: int|
                0 <= p < r < queue.len() && #[trigger] queue[p] == a && #[trigger] queue[r] == b;
            let at = |x: int|
                if x < from || x > to {
                    x
                } else if x == from {
                    to
                } else {
                    x - 1
                };
            assert(next.queues[i][at(p)] == a);
            assert(next.queues[i][at(r)] == b);
        }
    }
}

/// An empty LRU cache is in one part, if floating point holds its capacity
/// exactly.
pub proof fn empty_is_in_one_part(state: ShardedState)
    requires
        state == ShardedState::empty(
            state.queues.len(),
            state.capacity,
            FoyerEvictionPolicy::Lru,
            state.high_limits,
            state.routes,
        ),
        state.limits_fit(),
        state.capacity <= EXACT_SHARE,
    ensures
        state.in_one_part(),
{
    assert forall|i: int| 0 <= i < state.queues.len() implies {
        &&& #[trigger] state.high_limits[i] == state.shard_capacity(i)
        &&& state.low[i] == 0
        &&& charge(state.queues[i], state.entries) <= state.shard_capacity(i)
    } by {
        let n = state.queues.len() as int;
        let c = state.capacity as int;
        vstd::arithmetic::div_mod::lemma_fundamental_div_mod(c, n);
        assert(c / n <= n * (c / n)) by (nonlinear_arith)
            requires
                c >= 0,
                n > 0,
        ;
    }
}

/// An insert keeps every queue in one part. Only an entry that is larger than
/// its shard's share, beside entries that weigh nothing, is left out.
#[verifier::spinoff_prover]
pub proof fn insert_stays_in_one_part(
    state: ShardedState,
    i: int,
    key: SlotKey,
    entry: CachedEntry,
)
    requires
        state.inv(),
        state.routes_to(key, i),
        state.in_one_part(),
        entry.size <= state.shard_capacity(i) || state.survivors(i, key, entry).len() == 0,
    ensures
        state.insert(i, key, entry).in_one_part(),
{
    let next = state.insert(i, key, entry);
    let left = state.survivors(i, key, entry);
    let grown = left.push(key);
    let entries = state.entries.insert(key, entry);
    let cap = state.shard_capacity(i);
    lemma_insert_inv(state, i, key, entry);
    lemma_insert_entries(state, i, key, entry);
    lemma_survivors(state, i, key, entry);
    assert(state.high_limits[i] == cap);
    assert(state.low[i] <= state.queues[i].len());
    assert(next.queues[i] == grown);
    assert(grown.drop_last() =~= left);
    assert(grown.skip(0) =~= grown);
    assert forall|k: SlotKey| #[trigger] left.contains(k) implies entries[k] == state.entries[k]
        && next.entries[k] == state.entries[k] by {
        lemma_contains_push(left, key);
        assert(next.queues[i].contains(k));
    }
    lemma_charge_same(left, entries, state.entries);
    lemma_charge_same(left, next.entries, state.entries);
    if entry.size <= cap {
        assert(charge(grown, entries) <= cap);
        assert(charge(grown, next.entries) <= cap);
        lemma_low_beside(state, i, key, entry);
        if state.low[i] != 0 {
            let queue = state.queues[i];
            let kept = drop_oldest(queue, state.entries, state.room(i, entry.size));
            lemma_drop_oldest(queue, state.entries, state.room(i, entry.size));
            assert(queue.skip(0) =~= queue);
            assert(kept.len() == 0);
            lemma_without_prefix(kept, 0, key);
        }
    }
    assert forall|j: int| 0 <= j < next.queues.len() implies {
        &&& #[trigger] next.high_limits[j] == next.shard_capacity(j)
        &&& {
            ||| next.low[j] == 0 && charge(next.queues[j], next.entries) <= next.shard_capacity(j)
            ||| next.queues[j].len() == 1 && charge(next.queues[j], next.entries)
                > next.shard_capacity(j)
        }
    } by {
        assert(state.high_limits[j] == state.shard_capacity(j));
        if j != i {
            assert(next.queues[j] == state.queues[j]);
            assert forall|k: SlotKey| #[trigger]
                next.queues[j].contains(k) implies next.entries[k] == state.entries[k] by {
                assert(next.entries.dom().contains(k));
                assert(next.queues[i].contains(key)) by {
                    lemma_contains_push(left, key);
                }
            }
            lemma_charge_same(next.queues[j], next.entries, state.entries);
        }
    }
}

/// A removal keeps every queue in one part.
pub proof fn remove_stays_in_one_part(state: ShardedState, key: SlotKey)
    requires
        state.inv(),
        state.in_one_part(),
    ensures
        state.remove(key).in_one_part(),
{
    let next = state.remove(key);
    lemma_remove_inv(state, key);
    assert forall|j: int| 0 <= j < next.queues.len() implies {
        &&& #[trigger] next.high_limits[j] == next.shard_capacity(j)
        &&& {
            ||| next.low[j] == 0 && charge(next.queues[j], next.entries) <= next.shard_capacity(j)
            ||| next.queues[j].len() == 1 && charge(next.queues[j], next.entries)
                > next.shard_capacity(j)
        }
    } by {
        let queue = state.queues[j];
        assert(state.high_limits[j] == state.shard_capacity(j));
        assert(state.low[j] <= queue.len());
        assert(next.low[j] <= next.queues[j].len());
        lemma_without(queue, key);
        lemma_without_len(queue, key);
        lemma_without_prefix(queue, state.low[j] as int, key);
        lemma_charge_without(queue, state.entries, key);
        lemma_charge_same(next.queues[j], next.entries, state.entries);
        if queue.len() == 1 && queue.contains(key) {
            assert(queue[0] == key);
            if next.queues[j].len() > 0 {
                assert(next.queues[j].contains(next.queues[j][0]));
                assert(queue.contains(next.queues[j][0]));
            }
        }
    }
}

/// A read keeps every queue in one part.
pub proof fn read_stays_in_one_part(state: ShardedState, key: SlotKey)
    requires
        state.inv(),
        state.in_one_part(),
    ensures
        state.read(key).in_one_part(),
{
    let next = state.read(key);
    if state.policy == FoyerEvictionPolicy::Lru && state.queued(key) {
        let i = state.shard_of(key);
        let from = state.queues[i].index_of(key);
        lemma_read_positions(state, key);
        lemma_charge_moved(state.queues[i], state.entries, from, state.back(i, from));
        assert forall|j: int| 0 <= j < next.queues.len() implies {
            &&& #[trigger] next.high_limits[j] == next.shard_capacity(j)
            &&& {
                ||| next.low[j] == 0 && charge(next.queues[j], next.entries)
                    <= next.shard_capacity(j)
                ||| next.queues[j].len() == 1 && charge(next.queues[j], next.entries)
                    > next.shard_capacity(j)
            }
        } by {
            assert(state.high_limits[j] == state.shard_capacity(j));
        }
    }
}

/// A queue without one of its keys.
proof fn lemma_without_at(queue: Seq<SlotKey>, p: int)
    requires
        queue.no_duplicates(),
        0 <= p < queue.len(),
    ensures
        without(queue, queue[p]) == queue.remove(p),
    decreases queue.len(),
{
    reveal(Seq::filter);
    let init = queue.drop_last();
    if p == queue.len() - 1 {
        assert(!init.contains(queue[p])) by {
            if init.contains(queue[p]) {
                assert(queue[init.index_of(queue[p])] == queue[p]);
            }
        }
        lemma_without(init, queue[p]);
        assert(queue.remove(p) =~= init);
    } else {
        lemma_without_at(init, p);
        assert(queue[p] != queue[queue.len() - 1]);
        assert(queue.remove(p) =~= init.remove(p).push(queue.last()));
    }
}

/// Under LRU a read puts its key at the very back of its queue.
pub proof fn lru_read_puts_key_last(state: ShardedState, key: SlotKey)
    requires
        state.inv(),
        state.in_one_part(),
        state.policy == FoyerEvictionPolicy::Lru,
        state.entries.dom().contains(key),
    ensures
        state.read(key).queues[state.shard_of(key)] == without(
            state.queues[state.shard_of(key)],
            key,
        ).push(key),
{
    assert(state.queued(key));
    lemma_read_positions(state, key);
    let i = state.shard_of(key);
    let queue = state.queues[i];
    let from = queue.index_of(key);
    assert(state.high_limits[i] == state.shard_capacity(i));
    assert(state.low[i] <= queue.len());
    assert(state.back(i, from) == queue.len() - 1);
    lemma_without_at(queue, from);
    assert(moved(queue, from, queue.len() - 1) =~= queue.remove(from).push(key));
}

/// Without one key an ordered queue is ordered.
proof fn lemma_without_ordered(queue: Seq<SlotKey>, key: SlotKey, last_use: Map<SlotKey, int>)
    requires
        ordered(queue, last_use),
    ensures
        ordered(without(queue, key), last_use),
    decreases queue.len(),
{
    reveal(Seq::filter);
    if queue.len() > 0 {
        let init = queue.drop_last();
        lemma_without_ordered(init, key, last_use);
        lemma_without(init, key);
        let rest = without(init, key);
        assert forall|p: int| 0 <= p < rest.len() implies last_use[#[trigger] rest[p]]
            < last_use[queue.last()] by {
            assert(rest.contains(rest[p]));
            assert(init.contains(rest[p]));
            let q = init.index_of(rest[p]);
            assert(queue[q] == rest[p]);
            assert(last_use[queue[q]] < last_use[queue[queue.len() - 1]]);
        }
    }
}

/// A queue stays ordered when a key that is not in it is used and appended.
proof fn lemma_push_ordered(
    queue: Seq<SlotKey>,
    key: SlotKey,
    last_use: Map<SlotKey, int>,
    now: int,
)
    requires
        ordered(queue, last_use),
        !queue.contains(key),
        forall|k: SlotKey| #[trigger] queue.contains(k) ==> last_use[k] < now,
    ensures
        ordered(queue.push(key), last_use.insert(key, now)),
{
    let grown = queue.push(key);
    let after = last_use.insert(key, now);
    assert forall|p: int, r: int| #![trigger grown[p], grown[r]]
        0 <= p < r < grown.len() implies after[grown[p]] < after[grown[r]] by {
        assert(queue.contains(queue[p]));
        if r < queue.len() {
            assert(queue.contains(queue[r]));
            assert(last_use[queue[p]] < last_use[queue[r]]);
        }
    }
}

/// A queue that does not hold a key stays ordered when the key is used.
proof fn lemma_use_elsewhere(
    queue: Seq<SlotKey>,
    key: SlotKey,
    last_use: Map<SlotKey, int>,
    now: int,
)
    requires
        ordered(queue, last_use),
        !queue.contains(key),
    ensures
        ordered(queue, last_use.insert(key, now)),
{
    let after = last_use.insert(key, now);
    assert forall|p: int, r: int| #![trigger queue[p], queue[r]]
        0 <= p < r < queue.len() implies after[queue[p]] < after[queue[r]] by {
        assert(queue.contains(queue[p]));
        assert(queue.contains(queue[r]));
    }
}

/// An insert counts as a use of its key and keeps every queue in order, under
/// either policy.
pub proof fn insert_keeps_order_of_use(
    state: ShardedState,
    i: int,
    key: SlotKey,
    entry: CachedEntry,
    last_use: Map<SlotKey, int>,
    now: int,
)
    requires
        state.inv(),
        state.routes_to(key, i),
        state.in_order_of(last_use),
        forall|k: SlotKey| #[trigger] state.entries.dom().contains(k) ==> last_use[k] < now,
    ensures
        state.insert(i, key, entry).in_order_of(last_use.insert(key, now)),
{
    let next = state.insert(i, key, entry);
    let queue = state.queues[i];
    let room = state.room(i, entry.size);
    let kept = drop_oldest(queue, state.entries, room);
    let left = state.survivors(i, key, entry);
    lemma_drop_oldest(queue, state.entries, room);
    assert(ordered(queue, last_use));
    assert(ordered(kept, last_use)) by {
        let cut = queue.len() - kept.len();
        assert forall|p: int, r: int| #![trigger kept[p], kept[r]]
            0 <= p < r < kept.len() implies last_use[kept[p]] < last_use[kept[r]] by {
            assert(last_use[queue[p + cut]] < last_use[queue[r + cut]]);
        }
    }
    lemma_without_ordered(kept, key, last_use);
    lemma_survivors(state, i, key, entry);
    assert forall|k: SlotKey| #[trigger] left.contains(k) implies last_use[k] < now by {
        assert(queue.contains(k));
        assert(state.entries.dom().contains(k));
    }
    lemma_push_ordered(left, key, last_use, now);
    assert forall|j: int| 0 <= j < next.queues.len() implies ordered(
        #[trigger] next.queues[j],
        last_use.insert(key, now),
    ) by {
        if j != i {
            assert(next.queues[j] == state.queues[j]);
            assert(!state.queues[j].contains(key));
            lemma_use_elsewhere(state.queues[j], key, last_use, now);
        }
    }
}

/// Under LRU a read counts as a use of its key and keeps every queue in order.
pub proof fn lru_read_keeps_order_of_use(
    state: ShardedState,
    key: SlotKey,
    last_use: Map<SlotKey, int>,
    now: int,
)
    requires
        state.inv(),
        state.in_one_part(),
        state.policy == FoyerEvictionPolicy::Lru,
        state.entries.dom().contains(key),
        state.in_order_of(last_use),
        forall|k: SlotKey| #[trigger] state.entries.dom().contains(k) ==> last_use[k] < now,
    ensures
        state.read(key).in_order_of(last_use.insert(key, now)),
{
    let next = state.read(key);
    assert(state.queued(key));
    lemma_read_positions(state, key);
    lru_read_puts_key_last(state, key);
    let i = state.shard_of(key);
    let queue = state.queues[i];
    let left = without(queue, key);
    assert(queue.contains(key));
    assert(ordered(queue, last_use));
    lemma_without_ordered(queue, key, last_use);
    lemma_without(queue, key);
    assert forall|k: SlotKey| #[trigger] left.contains(k) implies last_use[k] < now by {
        assert(queue.contains(k));
        assert(state.entries.dom().contains(k));
    }
    lemma_push_ordered(left, key, last_use, now);
    assert forall|j: int| 0 <= j < next.queues.len() implies ordered(
        #[trigger] next.queues[j],
        last_use.insert(key, now),
    ) by {
        if j != i {
            assert(next.queues[j] == state.queues[j]);
            assert(!state.queues[j].contains(key));
            lemma_use_elsewhere(state.queues[j], key, last_use, now);
        }
    }
}

/// A removal keeps every queue in order.
pub proof fn remove_keeps_order_of_use(
    state: ShardedState,
    key: SlotKey,
    last_use: Map<SlotKey, int>,
)
    requires
        state.in_order_of(last_use),
    ensures
        state.remove(key).in_order_of(last_use),
{
    let next = state.remove(key);
    assert forall|j: int| 0 <= j < next.queues.len() implies ordered(
        #[trigger] next.queues[j],
        last_use,
    ) by {
        lemma_without_ordered(state.queues[j], key, last_use);
    }
}

/// Whatever an insert evicts was used before everything that stays in the
/// shard.
pub proof fn insert_evicts_the_longest_unused(
    state: ShardedState,
    i: int,
    key: SlotKey,
    entry: CachedEntry,
    last_use: Map<SlotKey, int>,
    gone: SlotKey,
    kept: SlotKey,
)
    requires
        state.inv(),
        state.routes_to(key, i),
        state.in_order_of(last_use),
        state.evicts(i, key, entry, gone),
        state.survivors(i, key, entry).contains(kept),
    ensures
        last_use[gone] < last_use[kept],
{
    let queue = state.queues[i];
    lemma_survivors(state, i, key, entry);
    let p = queue.index_of(gone);
    let r = queue.index_of(kept);
    assert(queue.contains(kept));
    assert(queue[p] == gone && queue[r] == kept);
    if r <= p {
        insert_evicts_front_first(state, i, key, entry, r, p);
    }
    assert(ordered(queue, last_use));
}

/// An insert of a new key into a full shard of entries of one size evicts
/// exactly the key that was used longest ago.
pub proof fn full_shard_evicts_the_longest_unused(
    state: ShardedState,
    i: int,
    key: SlotKey,
    entry: CachedEntry,
    last_use: Map<SlotKey, int>,
    oldest: SlotKey,
)
    requires
        state.inv(),
        state.routes_to(key, i),
        state.in_order_of(last_use),
        !state.entries.dom().contains(key),
        forall|k: SlotKey| #[trigger]
            state.queues[i].contains(k) ==> state.entries[k].size == entry.size,
        charge(state.queues[i], state.entries) <= state.shard_capacity(i),
        charge(state.queues[i], state.entries) + entry.size > state.shard_capacity(i),
        state.queues[i].contains(oldest),
        forall|k: SlotKey| #[trigger]
            state.queues[i].contains(k) ==> last_use[oldest] <= last_use[k],
    ensures
        state.insert(i, key, entry).entries == state.entries.remove(oldest).insert(key, entry),
{
    let queue = state.queues[i];
    let p = queue.index_of(oldest);
    assert(queue[p] == oldest);
    assert(queue.contains(queue[0]));
    assert(ordered(queue, last_use));
    assert(p == 0);
    full_shard_evicts_the_front(state, i, key, entry);
}

} // verus!
