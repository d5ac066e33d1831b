//! An in-memory cache of object heads, in front of the heads on disk.
//!
//! The write paths, the startup preload and reads that find a head on disk put
//! heads into the cache. Delete, rename and copy remove the head of each object
//! that they change. A hit skips the read of the head from disk and the HEAD
//! request to the object store. An evicted head is not an error, because the
//! next read gets the head from disk or from the object store.

use crate::time::Timestamp;
use vstd::prelude::*;

verus! {

/// The default maximum number of heads in a [`HeadCache`]. One entry uses a few
/// hundred bytes, so a full cache uses tens of megabytes.
pub const DEFAULT_HEAD_CACHE_CAPACITY: usize = 100_000;

/// The most heads that a cache can hold before it runs out of slot numbers.
pub const MAX_SLOTS: u32 = 0x7fff_ffff;

/// The metadata that a HEAD request returns.
#[derive(Debug)]
pub struct ObjectMeta {
    /// The full path of the object.
    pub location: String,
    /// When the object was last changed.
    pub last_modified: Timestamp,
    /// The size of the object in bytes.
    pub size: u64,
    /// The unique identifier of the object, if it has one.
    pub e_tag: Option<String>,
    /// A version indicator for the object, if it has one.
    pub version: Option<String>,
}

/// What an [`ObjectMeta`] says.
#[verifier::ext_equal]
pub struct MetaView {
    pub location: Seq<char>,
    pub last_modified: Timestamp,
    pub size: u64,
    pub e_tag: Option<Seq<char>>,
    pub version: Option<Seq<char>>,
}

/// The characters of a text that may be absent.
pub open spec fn text_view(text: Option<String>) -> Option<Seq<char>> {
    match text {
        Some(t) => Some(t@),
        None => None,
    }
}

fn clone_text(text: &Option<String>) -> (copy: Option<String>)
    ensures
        text_view(copy) == text_view(*text),
{
    match text {
        Some(t) => Some(t.clone()),
        None => None,
    }
}

impl View for ObjectMeta {
    type V = MetaView;

    open spec fn view(&self) -> MetaView {
        MetaView {
            location: self.location@,
            last_modified: self.last_modified,
            size: self.size,
            e_tag: text_view(self.e_tag),
            version: text_view(self.version),
        }
    }
}

impl Clone for ObjectMeta {
    fn clone(&self) -> (copy: Self)
        ensures
            copy@ == self@,
    {
        ObjectMeta {
            location: self.location.clone(),
            last_modified: self.last_modified,
            size: self.size,
            e_tag: clone_text(&self.e_tag),
            version: clone_text(&self.version),
        }
    }
}

/// What an attribute of an object says.
#[derive(Debug)]
pub enum AttributeName {
    /// How a browser should handle the object.
    ContentDisposition,
    /// The encodings that were applied to the object.
    ContentEncoding,
    /// The language of the object.
    ContentLanguage,
    /// The MIME type of the object.
    ContentType,
    /// The cache control policy of the object.
    CacheControl,
    /// The storage class of the object.
    StorageClass,
    /// A field that the user defined, by its key.
    Metadata(String),
}

/// What an [`AttributeName`] says.
pub enum NameView {
    ContentDisposition,
    ContentEncoding,
    ContentLanguage,
    ContentType,
    CacheControl,
    StorageClass,
    Metadata(Seq<char>),
}

impl View for AttributeName {
    type V = NameView;

    open spec fn view(&self) -> NameView {
        match self {
            AttributeName::ContentDisposition => NameView::ContentDisposition,
            AttributeName::ContentEncoding => NameView::ContentEncoding,
            AttributeName::ContentLanguage => NameView::ContentLanguage,
            AttributeName::ContentType => NameView::ContentType,
            AttributeName::CacheControl => NameView::CacheControl,
            AttributeName::StorageClass => NameView::StorageClass,
            AttributeName::Metadata(key) => NameView::Metadata(key@),
        }
    }
}

impl Clone for AttributeName {
    fn clone(&self) -> (copy: Self)
        ensures
            copy@ == self@,
    {
        match self {
            AttributeName::ContentDisposition => AttributeName::ContentDisposition,
            AttributeName::ContentEncoding => AttributeName::ContentEncoding,
            AttributeName::ContentLanguage => AttributeName::ContentLanguage,
            AttributeName::ContentType => AttributeName::ContentType,
            AttributeName::CacheControl => AttributeName::CacheControl,
            AttributeName::StorageClass => AttributeName::StorageClass,
            AttributeName::Metadata(key) => AttributeName::Metadata(key.clone()),
        }
    }
}

/// The name of an attribute and its value.
#[derive(Debug)]
pub struct Attribute {
    pub name: AttributeName,
    pub value: String,
}

impl View for Attribute {
    type V = (NameView, Seq<char>);

    open spec fn view(&self) -> (NameView, Seq<char>) {
        (self.name@, self.value@)
    }
}

/// The attributes of an object.
#[derive(Debug)]
pub struct Attributes {
    pub list: Vec<Attribute>,
}

impl View for Attributes {
    type V = Seq<(NameView, Seq<char>)>;

    open spec fn view(&self) -> Seq<(NameView, Seq<char>)> {
        self.list@.map_values(|a: Attribute| a@)
    }
}

impl Attributes {
    /// No attributes.
    pub fn new() -> (attributes: Self)
        ensures
            attributes@.len() == 0,
    {
        Attributes { list: Vec::new() }
    }
}

impl Clone for Attributes {
    fn clone(&self) -> (copy: Self)
        ensures
            copy@ == self@,
    {
        let mut list: Vec<Attribute> = Vec::new();
        let mut i: usize = 0;
        while i < self.list.len()
            invariant
                i <= self.list.len(),
                list.len() == i,
                forall|j: int| 0 <= j < i ==> (#[trigger] list[j])@ == self.list[j]@,
            decreases self.list.len() - i,
        {
            let a = &self.list[i];
            list.push(Attribute { name: a.name.clone(), value: a.value.clone() });
            i = i + 1;
        }
        let copy = Attributes { list };
        assert(copy@ =~= self@);
        copy
    }
}

/// A cached object head: the metadata that a HEAD request returns and the
/// attributes of the object.
#[derive(Debug)]
pub struct CachedHead {
    pub meta: ObjectMeta,
    pub attributes: Attributes,
}

/// What a [`CachedHead`] says.
#[verifier::ext_equal]
pub struct HeadView {
    pub meta: MetaView,
    pub attributes: Seq<(NameView, Seq<char>)>,
}

impl View for CachedHead {
    type V = HeadView;

    open spec fn view(&self) -> HeadView {
        HeadView { meta: self.meta@, attributes: self.attributes@ }
    }
}

impl Clone for CachedHead {
    fn clone(&self) -> (copy: Self)
        ensures
            copy@ == self@,
    {
        CachedHead { meta: self.meta.clone(), attributes: self.attributes.clone() }
    }
}

/// `quick_cache::sync::Cache`.
#[verifier::external_type_specification]
#[verifier::external_body]
#[verifier::reject_recursive_types(Key)]
#[verifier::reject_recursive_types(Val)]
#[verifier::reject_recursive_types(We)]
#[verifier::reject_recursive_types(B)]
#[verifier::reject_recursive_types(L)]
pub struct ExCache<Key, Val, We, B, L>(quick_cache::sync::Cache<Key, Val, We, B, L>);

/// `quick_cache::UnitWeighter`, by which each head weighs one.
#[verifier::external_type_specification]
#[verifier::external_body]
pub struct ExUnitWeighter(quick_cache::UnitWeighter);

/// `quick_cache::sync::DefaultLifecycle`.
#[verifier::external_type_specification]
#[verifier::external_body]
#[verifier::reject_recursive_types(Key)]
#[verifier::reject_recursive_types(Val)]
pub struct ExDefaultLifecycle<Key, Val>(quick_cache::sync::DefaultLifecycle<Key, Val>);

/// `quick_cache::DefaultHashBuilder`.
#[verifier::external_type_specification]
#[verifier::external_body]
pub struct ExDefaultHashBuilder(quick_cache::DefaultHashBuilder);

/// A cache of heads by the path of the object.
pub type HeadStore = quick_cache::sync::Cache<String, CachedHead>;

/// The heads that each shard of a cache holds, by the path of the object.
pub uninterp spec fn shard_heads(store: HeadStore) -> Seq<Map<Seq<char>, HeadView>>;

/// The number of heads that each shard of a cache may hold.
pub uninterp spec fn shard_limit(store: HeadStore) -> nat;

/// The number of heads below which no shard of a cache goes when it evicts.
pub uninterp spec fn shard_floor(store: HeadStore) -> nat;

/// The paths whose hash is that of an evicted head which their shard still
/// remembers.
pub uninterp spec fn remembered(store: HeadStore) -> Set<Seq<char>>;

/// Some shard holds a head under `location`.
pub open spec fn holds(shards: Seq<Map<Seq<char>, HeadView>>, location: Seq<char>) -> bool {
    exists|i: int| 0 <= i < shards.len() && #[trigger] shards[i].dom().contains(location)
}

/// The heads that the shards hold together.
pub open spec fn merged(shards: Seq<Map<Seq<char>, HeadView>>) -> Map<Seq<char>, HeadView> {
    Map::new(
        |location: Seq<char>| holds(shards, location),
        |location: Seq<char>|
            shards[choose|i: int|
                0 <= i < shards.len() && #[trigger] shards[i].dom().contains(location)][location],
    )
}

/// No shard holds more than `limit` heads, and no path is in two shards.
pub open spec fn shards_in_order(shards: Seq<Map<Seq<char>, HeadView>>, limit: nat) -> bool {
    &&& forall|i: int|
        0 <= i < shards.len() ==> (#[trigger] shards[i]).dom().finite() && shards[i].len() <= limit
    &&& forall|i: int, j: int, location: Seq<char>|
        0 <= i < shards.len() && 0 <= j < shards.len() && #[trigger] shards[i].dom().contains(
            location,
        ) && #[trigger] shards[j].dom().contains(location) ==> i == j
}

/// What the shards hold, and the paths that they remember.
#[verifier::ext_equal]
pub struct ShardedHeads {
    pub shards: Seq<Map<Seq<char>, HeadView>>,
    pub remembered: Set<Seq<char>>,
}

/// `before` can become `after` by an insert of `head` into shard `i`, which may
/// hold `limit` heads and does not go below `floor` heads when it evicts.
///
/// No other shard holds the path or changes. Shard `i` then holds nothing but
/// what it held and the new head. If it held the path already or had room, it
/// evicts nothing and remembers no more paths. If it was full, it keeps at least
/// `floor` heads. The new head is among what it holds, unless the path was
/// remembered.
pub open spec fn inserts_into(
    before: ShardedHeads,
    after: ShardedHeads,
    i: int,
    location: Seq<char>,
    head: HeadView,
    limit: nat,
    floor: nat,
) -> bool {
    let old_shard = before.shards[i];
    let new_shard = after.shards[i];
    &&& 0 <= i < before.shards.len()
    &&& forall|j: int|
        0 <= j < before.shards.len() && #[trigger] before.shards[j].dom().contains(location) ==> j
            == i
    &&& after.shards == before.shards.update(i, new_shard)
    &&& new_shard.submap_of(old_shard.insert(location, head))
    &&& new_shard.len() <= limit
    &&& old_shard.dom().contains(location) || old_shard.len() < limit ==> {
        &&& new_shard == old_shard.insert(location, head)
        &&& after.remembered.subset_of(before.remembered)
    }
    &&& old_shard.len() == limit ==> floor <= new_shard.len()
    &&& 0 < limit && !before.remembered.contains(location) ==> new_shard.dom().contains(location)
}

/// What a cache holds and remembers.
pub open spec fn sharded_heads(store: HeadStore) -> ShardedHeads {
    ShardedHeads { shards: shard_heads(store), remembered: remembered(store) }
}

/// Calls `quick_cache::sync::Cache::new`. The cache is empty. The number of
/// its shards depends on the machine; with more than one, each has room for 32
/// heads or more. The shards share the capacity, rounded up. The target for heads
/// of high priority, below which no shard goes, is 0.97 of the limit, rounded
/// down, and at least one if the limit is.
#[verifier::external_body]
fn store_new(items_capacity: usize) -> (store: HeadStore)
    ensures
        1 <= shard_heads(store).len(),
        forall|i: int|
            0 <= i < shard_heads(store).len() ==> (#[trigger] shard_heads(
                store,
            )[i]).dom().is_empty(),
        shard_limit(store) == capped_share(items_capacity as nat, shard_heads(store).len()),
        shard_heads(store).len() == 1 || 32 <= shard_limit(store),
        remembered(store).is_empty(),
        shard_floor(store) <= shard_limit(store) <= 2 * shard_floor(store),
        9 * shard_limit(store) <= 10 * (shard_floor(store) + 1),
{
    quick_cache::sync::Cache::new(items_capacity)
}

/// The share of each of `shards` shards in `capacity`, rounded up, where the
/// rounding stops at the largest number of 64 bits.
pub open spec fn capped_share(capacity: nat, shards: nat) -> nat {
    (if capacity + shards - 1 <= u64::MAX {
        (capacity + shards - 1) as nat
    } else {
        u64::MAX as nat
    }) / shards
}

/// Calls `quick_cache::sync::Cache::num_shards`.
#[verifier::external_body]
fn store_num_shards(store: &HeadStore) -> (shards: usize)
    ensures
        shards == shard_heads(*store).len(),
{
    store.num_shards()
}

/// Calls `quick_cache::sync::Cache::set_capacity` on an empty cache. The shards
/// share the new capacity, rounded up; the cache stays empty and remembers no
/// more paths. The target for heads of high priority keeps its ratio to the
/// limit, rounded down, and is at least one if the limit is. So it is no less
/// than half of the limit, if the limit was large and the ratio close to 0.97.
#[verifier::external_body]
fn store_set_capacity(store: &mut HeadStore, capacity: u64)
    requires
        forall|i: int|
            0 <= i < shard_heads(*old(store)).len() ==> (#[trigger] shard_heads(
                *old(store),
            )[i]).dom().is_empty(),
        32 <= shard_limit(*old(store)),
        9 * shard_limit(*old(store)) <= 10 * (shard_floor(*old(store)) + 1),
    ensures
        shard_heads(*final(store)) == shard_heads(*old(store)),
        shard_limit(*final(store)) == capped_share(capacity as nat, shard_heads(*old(store)).len()),
        remembered(*final(store)).subset_of(remembered(*old(store))),
        shard_floor(*final(store)) <= shard_limit(*final(store)) <= 2 * shard_floor(*final(store)),
{
    store.set_capacity(capacity)
}

/// Calls `quick_cache::sync::Cache::capacity`: the limits of all shards.
#[verifier::external_body]
fn store_capacity(store: &HeadStore) -> (capacity: u64)
    ensures
        capacity == shard_heads(*store).len() * shard_limit(*store),
{
    store.capacity()
}

/// Calls `quick_cache::sync::Cache::len`: the number of heads.
#[verifier::external_body]
fn store_len(store: &HeadStore) -> (len: usize)
    ensures
        len == merged(shard_heads(*store)).len(),
{
    store.len()
}

/// Calls `quick_cache::sync::Cache::get`: a copy of the head under the path.
#[verifier::external_body]
fn store_get(store: &HeadStore, location: &str) -> (head: Option<CachedHead>)
    ensures
        head is Some <==> merged(shard_heads(*store)).dom().contains(location@),
        head matches Some(h) ==> h@ == merged(shard_heads(*store))[location@],
{
    store.get(location)
}

/// Calls `quick_cache::sync::Cache::insert`. The hash of the path selects one
/// shard, and the others stay as they are. That shard then holds nothing but
/// what it held and the new head, and never more than it may. A head under a
/// path that is already there replaces the earlier one, and nothing is evicted;
/// nor is anything while the shard has room.
///
/// A full shard makes room before it takes the new head, and remembers the
/// hashes of heads that it evicted. Only a head whose hash it still remembers
/// enters first and can leave again at once. It evicts one head, or all heads of
/// high priority above their target, so that it keeps as many as the target.
/// Which heads leave depends on earlier reads and on a random hash, and is left
/// open, as is which paths are then remembered.
///
/// A shard panics if it runs out of slot numbers, which count the heads and, of
/// those that were evicted, half as many again.
#[verifier::external_body]
fn store_insert(store: &mut HeadStore, location: String, head: CachedHead)
    requires
        shard_limit(*old(store)) <= MAX_SLOTS || merged(shard_heads(*old(store))).len() < MAX_SLOTS,
    ensures
        exists|i: int| #[trigger]
            inserts_into(
                sharded_heads(*old(store)),
                sharded_heads(*final(store)),
                i,
                location@,
                head@,
                shard_limit(*old(store)),
                shard_floor(*old(store)),
            ),
        shard_limit(*final(store)) == shard_limit(*old(store)),
        shard_floor(*final(store)) == shard_floor(*old(store)),
{
    store.insert(location, head)
}

/// Calls `quick_cache::sync::Cache::remove`. The head under the path leaves,
/// if there is one, and the other heads stay. The cache remembers no more paths.
#[verifier::external_body]
fn store_remove(store: &mut HeadStore, location: &str)
    ensures
        shard_heads(*final(store)) == shard_heads(*old(store)).map_values(
            |shard: Map<Seq<char>, HeadView>| shard.remove(location@),
        ),
        shard_limit(*final(store)) == shard_limit(*old(store)),
        shard_floor(*final(store)) == shard_floor(*old(store)),
        remembered(*final(store)).subset_of(remembered(*old(store))),
{
    store.remove(location);
}

/// What a shard holds, the shards hold together.
proof fn lemma_merged_at(
    shards: Seq<Map<Seq<char>, HeadView>>,
    limit: nat,
    i: int,
    location: Seq<char>,
)
    requires
        shards_in_order(shards, limit),
        0 <= i < shards.len(),
        shards[i].dom().contains(location),
    ensures
        merged(shards).dom().contains(location),
        merged(shards)[location] == shards[i][location],
{
    assert(holds(shards, location));
}

/// The shards together hold no more than their limits allow.
proof fn lemma_merged_len(shards: Seq<Map<Seq<char>, HeadView>>, limit: nat)
    requires
        forall|i: int|
            0 <= i < shards.len() ==> (#[trigger] shards[i]).dom().finite() && shards[i].len()
                <= limit,
    ensures
        merged(shards).dom().finite(),
        merged(shards).len() <= shards.len() * limit,
    decreases shards.len(),
{
    if shards.len() == 0 {
        assert(merged(shards).dom() =~= Set::empty());
    } else {
        let init = shards.drop_last();
        assert forall|i: int| 0 <= i < init.len() implies (#[trigger] init[i]).dom().finite()
            && init[i].len() <= limit by {
            assert(init[i] == shards[i]);
        }
        lemma_merged_len(init, limit);
        let last = shards[shards.len() - 1].dom();
        let both = merged(init).dom().union(last);
        assert forall|location: Seq<char>|
            holds(shards, location) == both.contains(location) by {
            if holds(init, location) {
                let i = choose|i: int|
                    0 <= i < init.len() && #[trigger] init[i].dom().contains(location);
                assert(shards[i].dom().contains(location));
            }
            if holds(shards, location) && !last.contains(location) {
                let i = choose|i: int|
                    0 <= i < shards.len() && #[trigger] shards[i].dom().contains(location);
                assert(init[i].dom().contains(location));
            }
        }
        assert(merged(shards).dom() =~= both);
        vstd::set_lib::lemma_len_union(merged(init).dom(), last);
        assert(shards.len() * limit == init.len() * limit + limit) by (nonlinear_arith)
            requires
                shards.len() == init.len() + 1,
        ;
    }
}

/// Empty shards hold nothing and are in order.
proof fn lemma_empty_shards(shards: Seq<Map<Seq<char>, HeadView>>, limit: nat)
    requires
        forall|i: int| 0 <= i < shards.len() ==> (#[trigger] shards[i]).dom().is_empty(),
    ensures
        shards_in_order(shards, limit),
        merged(shards).dom().is_empty(),
{
    assert forall|i: int| 0 <= i < shards.len() implies (#[trigger] shards[i]).dom().finite()
        && shards[i].len() <= limit by {
        assert(shards[i].dom() =~= Set::empty());
    }
    assert(merged(shards).dom() =~= Set::empty());
}

/// What an insert into one shard does to all shards together.
proof fn lemma_inserts_into(
    heads: ShardedHeads,
    heads_after: ShardedHeads,
    i: int,
    location: Seq<char>,
    head: HeadView,
    limit: nat,
    floor: nat,
)
    requires
        shards_in_order(heads.shards, limit),
        inserts_into(heads, heads_after, i, location, head, limit, floor),
    ensures
        shards_in_order(heads_after.shards, limit),
        merged(heads_after.shards).submap_of(merged(heads.shards).insert(location, head)),
        heads_after.shards[i] == heads.shards[i].insert(location, head) ==> merged(
            heads_after.shards,
        ) == merged(heads.shards).insert(location, head),
        merged(heads.shards).dom().contains(location) ==> heads.shards[i].dom().contains(location),
        heads.shards[i].len() <= merged(heads.shards).len(),
        0 < limit && !heads.remembered.contains(location) ==> merged(
            heads_after.shards,
        ).dom().contains(location),
{
    let before = heads.shards;
    let after = heads_after.shards;
    let grown = before[i].insert(location, head);
    let total = merged(before).insert(location, head);
    lemma_merged_len(before, limit);
    assert(before[i].dom().finite());
    assert(before[i].dom().subset_of(merged(before).dom())) by {
        assert forall|k: Seq<char>| before[i].dom().contains(k) implies merged(
            before,
        ).dom().contains(k) by {
            lemma_merged_at(before, limit, i, k);
        }
    }
    vstd::set_lib::lemma_len_subset(before[i].dom(), merged(before).dom());
    assert forall|k: Seq<char>| #[trigger] after[i].dom().contains(k) implies grown.dom().contains(
        k,
    ) && after[i][k] == grown[k] by {
        assert(grown.dom().contains(k));
    }
    assert(after[i].dom().subset_of(grown.dom()));
    vstd::set_lib::lemma_len_subset(after[i].dom(), grown.dom());
    assert forall|j: int| 0 <= j < after.len() implies (#[trigger] after[j]).dom().finite()
        && after[j].len() <= limit by {
        if j != i {
            assert(after[j] == before[j]);
        }
    }
    assert forall|a: int, b: int, k: Seq<char>|
        0 <= a < after.len() && 0 <= b < after.len() && #[trigger] after[a].dom().contains(k)
            && #[trigger] after[b].dom().contains(k) implies a == b by {
        if a != i {
            assert(after[a] == before[a]);
            assert(before[a].dom().contains(k));
        }
        if b != i {
            assert(after[b] == before[b]);
            assert(before[b].dom().contains(k));
        }
        if k != location {
            assert(before[a].dom().contains(k));
            assert(before[b].dom().contains(k));
        }
    }
    assert forall|k: Seq<char>| #[trigger]
        merged(after).dom().contains(k) implies total.dom().contains(k) && merged(after)[k]
        == total[k] by {
        assert(holds(after, k));
        let j = choose|j: int| 0 <= j < after.len() && #[trigger] after[j].dom().contains(k);
        lemma_merged_at(after, limit, j, k);
        if j != i {
            assert(after[j] == before[j]);
            assert(before[j].dom().contains(k));
            assert(k != location);
            lemma_merged_at(before, limit, j, k);
        } else if k != location {
            assert(before[i].dom().contains(k));
            lemma_merged_at(before, limit, i, k);
        }
    }
    if after[i] == grown {
        assert forall|k: Seq<char>| #[trigger] total.dom().contains(k) implies merged(
            after,
        ).dom().contains(k) by {
            if k == location {
                lemma_merged_at(after, limit, i, k);
            } else {
                assert(holds(before, k));
                let j = choose|j: int|
                    0 <= j < before.len() && #[trigger] before[j].dom().contains(k);
                assert(after[j].dom().contains(k));
                lemma_merged_at(after, limit, j, k);
            }
        }
        assert(merged(after) =~= total);
    }
    if merged(before).dom().contains(location) {
        assert(holds(before, location));
    }
    if after[i].dom().contains(location) {
        lemma_merged_at(after, limit, i, location);
    }
}

/// What a removal does to all shards together.
proof fn lemma_removes(
    before: Seq<Map<Seq<char>, HeadView>>,
    after: Seq<Map<Seq<char>, HeadView>>,
    location: Seq<char>,
    limit: nat,
)
    requires
        shards_in_order(before, limit),
        after == before.map_values(|shard: Map<Seq<char>, HeadView>| shard.remove(location)),
    ensures
        shards_in_order(after, limit),
        merged(after) == merged(before).remove(location),
{
    assert forall|j: int| 0 <= j < after.len() implies (#[trigger] after[j]).dom().finite()
        && after[j].len() <= limit by {
        assert(after[j] == before[j].remove(location));
        assert(after[j].dom() =~= before[j].dom().remove(location));
    }
    assert forall|a: int, b: int, k: Seq<char>|
        0 <= a < after.len() && 0 <= b < after.len() && #[trigger] after[a].dom().contains(k)
            && #[trigger] after[b].dom().contains(k) implies a == b by {
        assert(before[a].dom().contains(k));
        assert(before[b].dom().contains(k));
    }
    assert forall|k: Seq<char>| merged(after).dom().contains(k) implies merged(before).remove(
        location,
    ).dom().contains(k) && merged(after)[k] == merged(before)[k] by {
        assert(holds(after, k));
        let j = choose|j: int| 0 <= j < after.len() && #[trigger] after[j].dom().contains(k);
        assert(before[j].dom().contains(k));
        lemma_merged_at(after, limit, j, k);
        lemma_merged_at(before, limit, j, k);
    }
    assert forall|k: Seq<char>| merged(before).remove(location).dom().contains(k) implies merged(
        after,
    ).dom().contains(k) by {
        assert(holds(before, k));
        let j = choose|j: int| 0 <= j < before.len() && #[trigger] before[j].dom().contains(k);
        assert(after[j].dom().contains(k));
        lemma_merged_at(after, limit, j, k);
    }
    assert(merged(after) =~= merged(before).remove(location));
}

/// A cache of object heads with a fixed maximum number of entries.
pub struct HeadCache {
    entries: HeadStore,
    max_entries: usize,
}

impl View for HeadCache {
    type V = Map<Seq<char>, HeadView>;

    /// The cached heads, by the path of the object.
    open spec fn view(&self) -> Map<Seq<char>, HeadView> {
        merged(self.shards())
    }
}

impl HeadCache {
    /// The most heads that the cache holds.
    pub closed spec fn max_entries(self) -> nat {
        self.max_entries as nat
    }

    /// The cached heads of each shard. The number of shards depends on the
    /// machine.
    pub closed spec fn shards(self) -> Seq<Map<Seq<char>, HeadView>> {
        shard_heads(self.entries)
    }

    /// The paths whose hash is that of an evicted head which their shard still
    /// remembers.
    pub closed spec fn remembered(self) -> Set<Seq<char>> {
        remembered(self.entries)
    }

    /// What the shards hold and remember.
    pub open spec fn heads(self) -> ShardedHeads {
        ShardedHeads { shards: self.shards(), remembered: self.remembered() }
    }

    /// The number of heads that each shard may hold.
    pub closed spec fn shard_limit(self) -> nat {
        shard_limit(self.entries)
    }

    /// The number of heads below which no shard goes when it evicts.
    pub closed spec fn shard_floor(self) -> nat {
        shard_floor(self.entries)
    }

    /// The number of heads that all shards together may hold.
    pub open spec fn total_limit(self) -> nat {
        self.shards().len() * self.shard_limit()
    }

    /// The limits are in order, and the cache keeps to them.
    pub open spec fn inv(self) -> bool {
        &&& shards_in_order(self.shards(), self.shard_limit())
        &&& self.shard_limit() <= self.total_limit() <= self.max_entries()
        &&& self.shard_floor() <= self.shard_limit() <= 2 * self.shard_floor()
    }

    /// Creates a cache that holds at most `max_entries` heads.
    pub fn new(max_entries: usize) -> (cache: Self)
        ensures
            cache.inv(),
            cache.max_entries() == max_entries,
            cache@.dom().is_empty(),
            1 <= cache.shards().len(),
            cache.shard_limit() == max_entries as nat / cache.shards().len(),
            cache.shards().len() == 1 || 31 <= cache.shard_limit(),
            cache.remembered().is_empty(),
    {
        let mut entries = store_new(max_entries);
        let shards = store_num_shards(&entries);
        if shards > 1 {
            // Each share was rounded up; round it down, so that the shards
            // together hold no more than asked for.
            proof {
                let n = max_entries as int;
                let s = shards as int;
                let top = if n + s - 1 <= u64::MAX { n + s - 1 } else { u64::MAX as int };
                assert(top >= 32 * s) by (nonlinear_arith)
                    requires
                        top / s >= 32,
                        s > 1,
                        top >= 0,
                ;
                assert(n / s >= 31) by (nonlinear_arith)
                    requires
                        n >= 31 * s,
                        s > 1,
                ;
            }
            store_set_capacity(&mut entries, (max_entries - (shards - 1)) as u64);
        }
        proof {
            let n = max_entries as int;
            let s = shard_heads(entries).len() as int;
            assert(shard_limit(entries) == n / s);
            assert(s * (n / s) <= n) by (nonlinear_arith)
                requires
                    s > 0,
                    n >= 0,
            ;
            assert(n / s <= s * (n / s)) by (nonlinear_arith)
                requires
                    s > 0,
                    n >= 0,
            ;
            lemma_empty_shards(shard_heads(entries), shard_limit(entries));
        }
        HeadCache { entries, max_entries }
    }

    /// Returns a copy of the cached head for `location`, or `None` on a miss.
    pub fn get(&self, location: &str) -> (head: Option<CachedHead>)
        ensures
            head is Some <==> self@.dom().contains(location@),
            head matches Some(h) ==> h@ == self@[location@],
    {
        store_get(&self.entries, location)
    }

    /// Inserts the head for `location`, or replaces the current head. The
    /// write paths call it after the object is durable in the object store.
    pub fn insert(&mut self, location: &str, meta: ObjectMeta, attributes: Attributes)
        requires
            old(self).inv(),
            old(self).max_entries() <= MAX_SLOTS || old(self)@.len() < MAX_SLOTS,
        ensures
            final(self).inv(),
            final(self).max_entries() == old(self).max_entries(),
            final(self).shard_limit() == old(self).shard_limit(),
            final(self).shard_floor() == old(self).shard_floor(),
            exists|i: int| #[trigger]
                inserts_into(
                    old(self).heads(),
                    final(self).heads(),
                    i,
                    location@,
                    HeadView { meta: meta@, attributes: attributes@ },
                    old(self).shard_limit(),
                    old(self).shard_floor(),
                ),
            final(self)@.submap_of(
                old(self)@.insert(
                    location@,
                    HeadView { meta: meta@, attributes: attributes@ },
                ),
            ),
            old(self)@.dom().contains(location@) || old(self)@.len() < old(self).shard_limit()
                ==> final(self)@ == old(self)@.insert(
                location@,
                HeadView { meta: meta@, attributes: attributes@ },
            ),
            0 < old(self).shard_limit() && !old(self).remembered().contains(location@)
                ==> final(self)@.dom().contains(location@),
            old(self)@.dom().contains(location@) ==> final(self)@.len() == old(self)@.len(),
            final(self)@.dom().contains(location@) ==> final(self)@[location@] == (HeadView {
                meta: meta@,
                attributes: attributes@,
            }),
    {
        let ghost head = HeadView { meta: meta@, attributes: attributes@ };
        store_insert(&mut self.entries, location.to_owned(), CachedHead { meta, attributes });
        proof {
            let limit = old(self).shard_limit();
            let floor = old(self).shard_floor();
            let i = choose|i: int| #[trigger]
                inserts_into(old(self).heads(), self.heads(), i, location@, head, limit, floor);
            lemma_inserts_into(old(self).heads(), self.heads(), i, location@, head, limit, floor);
            lemma_merged_len(old(self).shards(), limit);
            insert_leaves_nothing_stale(old(self)@, self@, location@, head);
        }
    }

    /// Removes the head for `location`. Delete, rename and copy call it. If
    /// there is no head for `location`, it does nothing.
    pub fn remove(&mut self, location: &str)
        requires
            old(self).inv(),
        ensures
            final(self).inv(),
            final(self)@ == old(self)@.remove(location@),
            final(self).max_entries() == old(self).max_entries(),
            final(self).shards() == old(self).shards().map_values(
                |shard: Map<Seq<char>, HeadView>| shard.remove(location@),
            ),
            final(self).shard_limit() == old(self).shard_limit(),
            final(self).shard_floor() == old(self).shard_floor(),
            final(self).remembered().subset_of(old(self).remembered()),
    {
        store_remove(&mut self.entries, location);
        proof {
            lemma_removes(
                old(self).shards(),
                self.shards(),
                location@,
                old(self).shard_limit(),
            );
        }
    }

    /// The number of cached heads.
    pub fn len(&self) -> (len: usize)
        ensures
            len == self@.len(),
    {
        store_len(&self.entries)
    }

    /// The number of heads that the shards of the cache may hold.
    pub fn capacity(&self) -> (capacity: u64)
        ensures
            capacity == self.total_limit(),
            capacity == self.shards().len() * self.shard_limit(),
    {
        store_capacity(&self.entries)
    }
}

/// Nothing of a head is left out of what it says: two heads that say the same
/// agree in every part, each text character by character and the attributes one
/// by one.
pub proof fn heads_say_all(a: CachedHead, b: CachedHead)
    requires
        a@ == b@,
    ensures
        a.meta@ == b.meta@,
        a.meta.location@ == b.meta.location@,
        a.meta.last_modified == b.meta.last_modified,
        a.meta.size == b.meta.size,
        a.meta.e_tag is Some <==> b.meta.e_tag is Some,
        a.meta.e_tag is Some ==> a.meta.e_tag->0@ == b.meta.e_tag->0@,
        a.meta.version is Some <==> b.meta.version is Some,
        a.meta.version is Some ==> a.meta.version->0@ == b.meta.version->0@,
        a.attributes@ == b.attributes@,
        a.attributes.list.len() == b.attributes.list.len(),
        forall|i: int|
            0 <= i < a.attributes.list.len() ==> (#[trigger] a.attributes.list[i]).value@
                == b.attributes.list[i].value@ && a.attributes.list[i].name@
                == b.attributes.list[i].name@,
{
    assert(a.attributes@.len() == a.attributes.list.len());
    assert(b.attributes@.len() == b.attributes.list.len());
    assert forall|i: int| 0 <= i < a.attributes.list.len() implies (
    #[trigger] a.attributes.list[i]).value@ == b.attributes.list[i].value@
        && a.attributes.list[i].name@ == b.attributes.list[i].name@ by {
        assert(a.attributes@[i] == a.attributes.list[i]@);
        assert(b.attributes@[i] == b.attributes.list[i]@);
    }
}

/// Metadata and attributes say all that they hold, too: those of two heads that
/// say the same say the same, and the other way round.
pub proof fn head_views_have_both_parts(a: CachedHead, b: CachedHead)
    ensures
        a@ == b@ <==> a.meta@ == b.meta@ && a.attributes@ == b.attributes@,
{
}

/// Two attribute names say the same only if they are the same name; of fields
/// that the user defined, only if their keys are equal.
pub proof fn names_say_all(a: AttributeName, b: AttributeName)
    requires
        a@ == b@,
    ensures
        a is ContentDisposition <==> b is ContentDisposition,
        a is ContentEncoding <==> b is ContentEncoding,
        a is ContentLanguage <==> b is ContentLanguage,
        a is ContentType <==> b is ContentType,
        a is CacheControl <==> b is CacheControl,
        a is StorageClass <==> b is StorageClass,
        a is Metadata <==> b is Metadata,
        a is Metadata ==> a->Metadata_0@ == b->Metadata_0@,
{
}

/// The shards together hold a head under a path exactly if one of them does,
/// and it is that shard's head.
pub proof fn shards_hold_their_heads(
    shards: Seq<Map<Seq<char>, HeadView>>,
    limit: nat,
    location: Seq<char>,
)
    requires
        shards_in_order(shards, limit),
    ensures
        merged(shards).dom().contains(location) <==> exists|i: int|
            0 <= i < shards.len() && #[trigger] shards[i].dom().contains(location),
        forall|i: int|
            0 <= i < shards.len() && #[trigger] shards[i].dom().contains(location) ==> merged(
                shards,
            )[location] == shards[i][location],
{
    assert forall|i: int|
        0 <= i < shards.len() && #[trigger] shards[i].dom().contains(location) implies merged(
        shards,
    )[location] == shards[i][location] by {
        lemma_merged_at(shards, limit, i, location);
    }
    if merged(shards).dom().contains(location) {
        assert(holds(shards, location));
    }
}

/// A cache never holds more heads than it was asked to.
pub proof fn never_exceeds_max_entries(cache: HeadCache)
    requires
        cache.inv(),
    ensures
        cache@.dom().finite(),
        cache@.len() <= cache.max_entries(),
{
    lemma_merged_len(cache.shards(), cache.shard_limit());
}

/// Whatever an insert evicts, it never leaves an earlier head behind: under
/// the path there is the new head or none, and under every other path there is
/// what was there or nothing.
pub proof fn insert_leaves_nothing_stale(
    before: Map<Seq<char>, HeadView>,
    after: Map<Seq<char>, HeadView>,
    location: Seq<char>,
    head: HeadView,
)
    requires
        after.submap_of(before.insert(location, head)),
    ensures
        after.dom().contains(location) ==> after[location] == head,
        forall|other: Seq<char>|
            other != location && #[trigger] after.dom().contains(other) ==> before.dom().contains(
                other,
            ) && after[other] == before[other],
{
    let grown = before.insert(location, head);
    assert(grown.dom().contains(location));
    assert forall|other: Seq<char>|
        other != location && #[trigger] after.dom().contains(other) implies before.dom().contains(
        other,
    ) && after[other] == before[other] by {
        assert(grown.dom().contains(other));
    }
}

/// A head leaves the cache only from the shard that an insert goes to, and only
/// if that shard is full and does not hold the path yet.
pub proof fn insert_evicts_from_a_full_shard(
    before: ShardedHeads,
    after: ShardedHeads,
    i: int,
    location: Seq<char>,
    head: HeadView,
    limit: nat,
    floor: nat,
    j: int,
    gone: Seq<char>,
)
    requires
        shards_in_order(before.shards, limit),
        inserts_into(before, after, i, location, head, limit, floor),
        0 <= j < before.shards.len(),
        before.shards[j].dom().contains(gone),
        !merged(after.shards).dom().contains(gone),
    ensures
        j == i,
        before.shards[i].len() == limit,
        !before.shards[i].dom().contains(location),
{
    lemma_inserts_into(before, after, i, location, head, limit, floor);
    if j != i {
        assert(after.shards[j] == before.shards[j]);
        lemma_merged_at(after.shards, limit, j, gone);
    } else if after.shards[i] == before.shards[i].insert(location, head) {
        lemma_merged_at(after.shards, limit, i, gone);
    }
}

} // verus!
