//! A bounded cache from the start timestamp of a transaction to its commit
//! timestamp.
//!
//! The entries live in a `quick_cache::sync::Cache`, which makes room by
//! dropping entries. It spreads its keys over shards by a seeded hash, and an
//! entry leaves only from a shard that is full. Which entry of the shard leaves
//! is up to the eviction policy; the contracts here hold whichever it picks.

use quick_cache::sync::Cache;
use vstd::arithmetic::power2::pow2;
use vstd::multiset::Multiset;
use vstd::prelude::*;

verus! {

/// The number of entries that the shared cache of a storage node is made for.
pub const CAPACITY: usize = 1024 * 100;

/// Declares `quick_cache::sync::Cache`.
#[verifier::external_type_specification]
#[verifier::external_body]
#[verifier::reject_recursive_types(K)]
#[verifier::reject_recursive_types(V)]
#[verifier::reject_recursive_types(W)]
#[verifier::reject_recursive_types(B)]
pub struct ExCache<K, V, W, B>(Cache<K, V, W, B>);

/// Declares `quick_cache::UnitWeighter`, by which every entry weighs one.
#[verifier::external_type_specification]
#[verifier::external_body]
pub struct ExUnitWeighter(quick_cache::UnitWeighter);

/// Declares `quick_cache::DefaultHashBuilder`, the hasher of a cache made with
/// `Cache::new`.
#[verifier::external_type_specification]
#[verifier::external_body]
pub struct ExDefaultHashBuilder(quick_cache::DefaultHashBuilder);

/// The resident entries of a cache.
pub uninterp spec fn cached_entries(cache: Cache<u64, u64>) -> Map<u64, u64>;

/// The traces that a cache keeps: the hashes of entries that it evicted and
/// remembers without their keys and values.
pub uninterp spec fn cached_traces(cache: Cache<u64, u64>) -> Multiset<u64>;

/// The number of items that a cache was made for.
pub uninterp spec fn cache_limit(cache: Cache<u64, u64>) -> nat;

/// How often the keys of a cache are split in two to make its shards.
pub uninterp spec fn cache_split(cache: Cache<u64, u64>) -> nat;

/// The number of the shard to which each key of a cache belongs.
pub uninterp spec fn cache_shards(cache: Cache<u64, u64>) -> Map<u64, nat>;

/// The hash that a cache gives each key, with the seed that it was made with.
pub uninterp spec fn cache_hashes(cache: Cache<u64, u64>) -> Map<u64, u64>;

/// The number of items that each shard is made for when `limit` items are
/// spread over two to the power of `split` shards: an even share, rounded up
/// in 64-bit arithmetic.
pub open spec fn share(limit: nat, split: nat) -> nat {
    let shards = pow2(split);
    let padded = limit + shards - 1;
    let bounded = if padded <= u64::MAX {
        padded
    } else {
        u64::MAX as int
    };
    (bounded / shards as int) as nat
}

/// Whether a cache for `limit` items may have two to the power of `split`
/// shards. It starts from at least four, depending on the machine, and halves
/// their number until each is made for at least 32 items or one is left.
pub open spec fn may_split(limit: nat, split: nat) -> bool {
    &&& split == 0 ==> limit < 63
    &&& split == 1 ==> limit < 125
    &&& split > 0 ==> share(limit, split) >= 32
}

/// Those of `keys` that belong to the given shard.
pub open spec fn in_shard(keys: Set<u64>, shards: Map<u64, nat>, shard: nat) -> Set<u64> {
    keys.filter(|key: u64| shards[key] == shard)
}

/// How a cache spreads its entries, which is settled when it is made.
pub struct Layout {
    /// The number of items that the cache was made for.
    pub limit: nat,
    /// The binary logarithm of the number of shards.
    pub split: nat,
    /// The number of the shard to which each key belongs.
    pub shards: Map<u64, nat>,
    /// The hash of each key.
    pub hashes: Map<u64, u64>,
}

impl Layout {
    /// Whether a cache can have this layout.
    pub open spec fn is_valid(self) -> bool {
        &&& may_split(self.limit, self.split)
        &&& self.limit <= usize::MAX
        &&& self.shards.dom() == Set::<u64>::full()
        &&& forall|key: u64| #[trigger] self.shards[key] < pow2(self.split)
        &&& self.hashes.dom() == Set::<u64>::full()
        &&& forall|one: u64, other: u64| #[trigger]
            self.hashes[one] == #[trigger] self.hashes[other] ==> self.shards[one]
                == self.shards[other]
    }

    /// The keys of `entries` in the given shard.
    pub open spec fn held(self, entries: Map<u64, u64>, shard: nat) -> Set<u64> {
        in_shard(entries.dom(), self.shards, shard)
    }

    /// Whether the shard of `key` has room for another entry.
    pub open spec fn has_room(self, entries: Map<u64, u64>, key: u64) -> bool {
        self.held(entries, self.shards[key]).len() < share(self.limit, self.split)
    }

    /// Whether `keys` are finitely many and none of the shards is made for fewer
    /// than belong to it.
    pub open spec fn can_hold(self, keys: Set<u64>) -> bool {
        &&& keys.finite()
        &&& forall|shard: nat|
            (#[trigger] in_shard(keys, self.shards, shard)).len() <= share(self.limit, self.split)
    }

    /// Whether no shard holds more of `entries` than it is made for.
    pub open spec fn fits(self, entries: Map<u64, u64>) -> bool {
        self.can_hold(entries.dom())
    }

    /// Whether one of `traces` has the hash of `key`.
    pub open spec fn has_trace(self, traces: Multiset<u64>, key: u64) -> bool {
        traces.contains(self.hashes[key])
    }

    /// What is left of `traces` when `key` is put in or taken out: where `key`
    /// is not among `entries`, a trace with its hash is used up.
    pub open spec fn traces_left(
        self,
        entries: Map<u64, u64>,
        traces: Multiset<u64>,
        key: u64,
    ) -> Multiset<u64> {
        if entries.contains_key(key) {
            traces
        } else {
            traces.remove(self.hashes[key])
        }
    }
}

/// A number of items that no shard of a cache made for `limit` items is too
/// small for, so that fewer entries leave room in every shard.
///
/// Up to 62 items there is one shard, up to 124 there are two. The shares of
/// more shards may be larger than this.
pub open spec fn sure_entries(limit: nat) -> nat {
    if limit < 63 {
        limit
    } else if limit < 125 {
        (limit + 1) / 2
    } else {
        32
    }
}

/// An upper bound of the number of entries in a cache made for `limit` items.
///
/// With shares of at least 32 items there are at most `limit / 31` shards, and
/// each adds less than one item by rounding up.
pub open spec fn most_entries(limit: nat) -> nat {
    if limit < 63 {
        limit
    } else if limit < 125 {
        limit + limit % 2
    } else {
        limit + limit / 31
    }
}

/// What is known of the number of entries in a cache made for `limit` items.
///
/// Where the limit can be spread evenly over any number of shards that a cache
/// for so many items may have, as [`CAPACITY`] can, there are no more.
pub open spec fn within(entries: Map<u64, u64>, limit: nat) -> bool {
    &&& entries.dom().finite()
    &&& entries.len() <= most_entries(limit)
    &&& limit == CAPACITY ==> entries.len() <= CAPACITY
    &&& exists|split: nat| #[trigger]
        may_split(limit, split) && entries.len() <= pow2(split) * share(limit, split)
}

/// Whether a cache made for `limit` items is sure not to run out of the 32-bit
/// numbers that each shard gives its entries, when `key` is inserted.
///
/// An entry that is cached keeps its number. An evicted entry can leave a trace
/// that keeps its number too. A shard keeps traces of at most half as many
/// entries as it is made for, and leaves the first one when it is full. From
/// 125 items on there are at least four shards. So up to a limit each shard has
/// numbers for all of its entries and traces, and in a larger cache the traces
/// of a shard leave half of the numbers to its entries.
pub open spec fn has_free_number(entries: Map<u64, u64>, limit: nat, key: u64) -> bool {
    ||| limit <= 11_200_000_000
    ||| entries.contains_key(key)
    ||| entries.len() < 0x7fff_ffff
}

/// Whether inserting `commit_ts` for `start_ts` may turn the entries `before`
/// into the entries `after` in a cache with this layout.
///
/// At most one entry leaves, possibly the new one, and only from the shard of
/// the new one. None leaves when the key was cached already, or while the
/// shard has room.
pub open spec fn inserted(
    layout: Layout,
    before: Map<u64, u64>,
    after: Map<u64, u64>,
    start_ts: u64,
    commit_ts: u64,
) -> bool {
    let grown = before.insert(start_ts, commit_ts);
    &&& after == grown || exists|gone: u64| #[trigger]
        grown.contains_key(gone) && layout.shards[gone] == layout.shards[start_ts] && after
            == grown.remove(gone)
    &&& (before.contains_key(start_ts) || layout.has_room(before, start_ts)) ==> after == grown
}

/// Whether `traces` may become `traces_after` when that insertion is made, and
/// whether the new entry is in where it has to be.
///
/// A key without a trace is put in after room is made for it, so it stays. The
/// entry of a key with a trace takes the place of the trace before room is
/// made, and may be the one that leaves. Then it leaves no trace. Another entry
/// that leaves may leave one, with its own hash, for which an older trace may
/// have to go. The traces of other shards stay.
pub open spec fn traced(
    layout: Layout,
    before: Map<u64, u64>,
    traces: Multiset<u64>,
    after: Map<u64, u64>,
    traces_after: Multiset<u64>,
    start_ts: u64,
    commit_ts: u64,
) -> bool {
    let grown = before.insert(start_ts, commit_ts);
    let left = layout.traces_left(before, traces, start_ts);
    &&& layout.limit > 0 && !layout.has_trace(traces, start_ts) ==> after.contains_key(start_ts)
    &&& after == grown || !after.contains_key(start_ts) ==> traces_after == left
    &&& forall|gone: u64| #[trigger]
        grown.contains_key(gone) && after == grown.remove(gone) ==> traces_after.subset_of(
            left.insert(layout.hashes[gone]),
        )
    &&& left.len() <= traces_after.len() <= left.len() + 1
    &&& forall|key: u64|
        layout.shards[key] != layout.shards[start_ts] ==> traces_after.count(
            #[trigger] layout.hashes[key],
        ) == traces.count(layout.hashes[key])
}

/// What a cache with these entries answers for `start_ts`.
pub open spec fn lookup(entries: Map<u64, u64>, start_ts: u64) -> Option<u64> {
    if entries.contains_key(start_ts) {
        Some(entries[start_ts])
    } else {
        None
    }
}

/// The layout of a cache.
pub open spec fn cache_layout(cache: Cache<u64, u64>) -> Layout {
    Layout {
        limit: cache_limit(cache),
        split: cache_split(cache),
        shards: cache_shards(cache),
        hashes: cache_hashes(cache),
    }
}

/// Calls `quick_cache::sync::Cache::new`, which makes an empty cache for about
/// `items_capacity` items, spread evenly over its shards. The hash of a key
/// settles its shard.
#[verifier::external_body]
fn new_cache(items_capacity: usize) -> (cache: Cache<u64, u64>)
    ensures
        cached_entries(cache) == (Map::<u64, u64>::empty()),
        cached_traces(cache) == Multiset::<u64>::empty(),
        cache_limit(cache) == items_capacity,
        may_split(cache_limit(cache), cache_split(cache)),
        cache_shards(cache).dom() == Set::<u64>::full(),
        forall|key: u64| #[trigger] cache_shards(cache)[key] < pow2(cache_split(cache)),
        cache_hashes(cache).dom() == Set::<u64>::full(),
        forall|one: u64, other: u64| #[trigger]
            cache_hashes(cache)[one] == #[trigger] cache_hashes(cache)[other] ==> cache_shards(
                cache,
            )[one] == cache_shards(cache)[other],
    no_unwind
{
    Cache::new(items_capacity)
}

/// Calls `quick_cache::sync::Cache::insert`: the entry is put in, and at most
/// one entry of its shard leaves where the shard is full, as [`inserted`] and
/// [`traced`] say. No shard outgrows its share. Left unsaid is which entry of
/// the shard leaves, and whether it leaves a trace.
#[verifier::external_body]
fn insert_cached(cache: &mut Cache<u64, u64>, key: u64, value: u64)
    requires
        has_free_number(cached_entries(*old(cache)), cache_limit(*old(cache)), key),
    ensures
        inserted(
            cache_layout(*old(cache)),
            cached_entries(*old(cache)),
            cached_entries(*final(cache)),
            key,
            value,
        ),
        traced(
            cache_layout(*old(cache)),
            cached_entries(*old(cache)),
            cached_traces(*old(cache)),
            cached_entries(*final(cache)),
            cached_traces(*final(cache)),
            key,
            value,
        ),
        cache_layout(*old(cache)).fits(cached_entries(*final(cache))),
        cache_layout(*final(cache)) == cache_layout(*old(cache)),
    no_unwind
{
    cache.insert(key, value)
}

/// Calls `quick_cache::sync::Cache::remove`, which drops the entry of `key`,
/// or else a trace with its hash, and says whether there was an entry.
#[verifier::external_body]
fn remove_cached(cache: &mut Cache<u64, u64>, key: u64) -> (was_cached: bool)
    ensures
        cached_entries(*final(cache)) == cached_entries(*old(cache)).remove(key),
        cached_traces(*final(cache)) == cache_layout(*old(cache)).traces_left(
            cached_entries(*old(cache)),
            cached_traces(*old(cache)),
            key,
        ),
        cache_layout(*final(cache)) == cache_layout(*old(cache)),
        was_cached == cached_entries(*old(cache)).contains_key(key),
    no_unwind
{
    cache.remove(&key)
}

/// Calls `quick_cache::sync::Cache::get`, which copies the value of `key` out
/// of the cache.
#[verifier::external_body]
fn get_cached(cache: &Cache<u64, u64>, key: u64) -> (value: Option<u64>)
    ensures
        value == lookup(cached_entries(*cache), key),
    no_unwind
{
    cache.get(&key)
}

/// Calls `quick_cache::sync::Cache::len`, which counts the resident entries.
#[verifier::external_body]
fn count_cached(cache: &Cache<u64, u64>) -> (count: usize)
    ensures
        count == cached_entries(*cache).len(),
    no_unwind
{
    cache.len()
}

/// A cache of committed transactions: start timestamp to commit timestamp.
///
/// Its view holds the entries that it can answer for. Only exclusive access
/// changes them; threads share a cache behind a lock.
pub struct CommitCache {
    cache: Cache<u64, u64>,
    capacity: usize,
}

impl View for CommitCache {
    type V = Map<u64, u64>;

    closed spec fn view(&self) -> Map<u64, u64> {
        cached_entries(self.cache)
    }
}

impl CommitCache {
    /// How the cache spreads its entries.
    pub closed spec fn layout(&self) -> Layout {
        cache_layout(self.cache)
    }

    /// The number of entries that the cache was made for.
    pub open spec fn capacity(&self) -> nat {
        self.layout().limit
    }

    /// The traces that the cache keeps of entries that left.
    pub closed spec fn traces(&self) -> Multiset<u64> {
        cached_traces(self.cache)
    }

    #[verifier::type_invariant]
    spec fn is_sound(self) -> bool {
        &&& cache_layout(self.cache).is_valid()
        &&& cache_layout(self.cache).fits(cached_entries(self.cache))
        &&& self.capacity == cache_limit(self.cache)
    }

    /// An empty cache for about `capacity` entries.
    pub fn new(capacity: usize) -> (cache: Self)
        ensures
            cache@ == (Map::<u64, u64>::empty()),
            cache.traces() == Multiset::<u64>::empty(),
            cache.capacity() == capacity,
            cache.layout().is_valid(),
    {
        let cache = new_cache(capacity);
        proof {
            lemma_empty_fits(cache_layout(cache));
        }
        Self { cache, capacity }
    }

    /// Records that the transaction `start_ts` committed at `commit_ts`,
    /// replacing what was recorded of it. A full shard drops an entry.
    pub fn insert(&mut self, start_ts: u64, commit_ts: u64)
        requires
            has_free_number(old(self)@, old(self).capacity(), start_ts),
        ensures
            inserted(old(self).layout(), old(self)@, final(self)@, start_ts, commit_ts),
            traced(
                old(self).layout(),
                old(self)@,
                old(self).traces(),
                final(self)@,
                final(self).traces(),
                start_ts,
                commit_ts,
            ),
            old(self)@.len() < sure_entries(old(self).capacity()) ==> final(self)@ == old(
                self,
            )@.insert(start_ts, commit_ts),
            within(final(self)@, final(self).capacity()),
            final(self).layout().fits(final(self)@),
            final(self).layout().is_valid(),
            final(self).layout() == old(self).layout(),
    {
        proof {
            use_type_invariant(&*self);
            if self@.len() < sure_entries(self.capacity()) {
                lemma_few_entries_leave_room(self.layout(), self@, start_ts);
            }
        }
        insert_cached(&mut self.cache, start_ts, commit_ts);
        proof {
            lemma_fitting_entries_are_within(self.layout(), self@);
        }
    }

    /// Like [`CommitCache::insert`], for a cache of unknown size: where the
    /// cache may be too large to number another entry, it stays as it is and
    /// the answer is `false`.
    pub fn try_insert(&mut self, start_ts: u64, commit_ts: u64) -> (done: bool)
        ensures
            done == has_free_number(old(self)@, old(self).capacity(), start_ts),
            done ==> {
                &&& inserted(old(self).layout(), old(self)@, final(self)@, start_ts, commit_ts)
                &&& traced(
                    old(self).layout(),
                    old(self)@,
                    old(self).traces(),
                    final(self)@,
                    final(self).traces(),
                    start_ts,
                    commit_ts,
                )
                &&& old(self)@.len() < sure_entries(old(self).capacity()) ==> final(self)@ == old(
                    self,
                )@.insert(start_ts, commit_ts)
            },
            !done ==> final(self)@ == old(self)@ && final(self).traces() == old(self).traces(),
            within(final(self)@, final(self).capacity()),
            final(self).layout().fits(final(self)@),
            final(self).layout().is_valid(),
            final(self).layout() == old(self).layout(),
    {
        proof {
            use_type_invariant(&*self);
            lemma_fitting_entries_are_within(self.layout(), self@);
        }
        if self.capacity as u64 <= 11_200_000_000 || count_cached(&self.cache) < 0x7fff_ffff
            || get_cached(&self.cache, start_ts).is_some() {
            self.insert(start_ts, commit_ts);
            true
        } else {
            false
        }
    }

    /// Forgets the transaction `start_ts`.
    pub fn remove(&mut self, start_ts: u64)
        ensures
            final(self)@ == old(self)@.remove(start_ts),
            final(self).traces() == old(self).layout().traces_left(
                old(self)@,
                old(self).traces(),
                start_ts,
            ),
            within(final(self)@, final(self).capacity()),
            final(self).layout().fits(final(self)@),
            final(self).layout().is_valid(),
            final(self).layout() == old(self).layout(),
    {
        proof {
            use_type_invariant(&*self);
            lemma_fewer_keys_can_be_held(self.layout(), self@.dom().remove(start_ts), self@.dom());
        }
        let _ = remove_cached(&mut self.cache, start_ts);
        proof {
            lemma_fitting_entries_are_within(self.layout(), self@);
        }
    }

    /// The commit timestamp of the transaction `start_ts`, if it is cached.
    pub fn get(&self, start_ts: u64) -> (commit_ts: Option<u64>)
        ensures
            commit_ts == lookup(self@, start_ts),
            within(self@, self.capacity()),
            self.layout().fits(self@),
            self.layout().is_valid(),
    {
        proof {
            use_type_invariant(self);
            lemma_fitting_entries_are_within(self.layout(), self@);
        }
        get_cached(&self.cache, start_ts)
    }
}

/// No entries fit into any cache.
pub proof fn lemma_empty_fits(layout: Layout)
    ensures
        layout.fits(Map::<u64, u64>::empty()),
{
    assert forall|shard: nat|
        (#[trigger] in_shard(Set::<u64>::empty(), layout.shards, shard)).len() <= share(
            layout.limit,
            layout.split,
        ) by {
        assert(in_shard(Set::<u64>::empty(), layout.shards, shard) =~= Set::<u64>::empty());
    }
}

/// Where a cache can hold `keys`, it can hold fewer.
pub proof fn lemma_fewer_keys_can_be_held(layout: Layout, fewer: Set<u64>, keys: Set<u64>)
    requires
        layout.can_hold(keys),
        fewer.subset_of(keys),
    ensures
        layout.can_hold(fewer),
{
    assert forall|shard: nat| (#[trigger] in_shard(fewer, layout.shards, shard)).len() <= share(
        layout.limit,
        layout.split,
    ) by {
        vstd::set_lib::lemma_len_subset(
            in_shard(fewer, layout.shards, shard),
            in_shard(keys, layout.shards, shard),
        );
    }
}

/// The shares add up to less than one item per shard over the limit.
pub proof fn lemma_shares(limit: nat, split: nat)
    ensures
        pow2(split) > 0,
        pow2(split) * share(limit, split) <= limit + pow2(split) - 1,
        split == 0 && limit <= u64::MAX ==> share(limit, split) == limit,
{
    vstd::arithmetic::power2::lemma_pow2_pos(split);
    vstd::arithmetic::power2::lemma2_to64();
    let shards = pow2(split) as int;
    let padded = limit + shards - 1;
    let bounded = if padded <= u64::MAX {
        padded
    } else {
        u64::MAX as int
    };
    vstd::arithmetic::div_mod::lemma_fundamental_div_mod(bounded, shards);
    if split == 0 {
        assert(bounded / 1 == bounded);
    }
}

/// As long as there are few entries, every shard has room.
proof fn lemma_few_entries_leave_room(layout: Layout, entries: Map<u64, u64>, key: u64)
    requires
        layout.is_valid(),
        entries.dom().finite(),
        entries.len() < sure_entries(layout.limit),
    ensures
        layout.has_room(entries, key),
{
    lemma_sure_entries_fit_a_share(layout.limit, layout.split);
    vstd::set_lib::lemma_len_subset(layout.held(entries, layout.shards[key]), entries.dom());
}

/// Every shard is made for at least [`sure_entries`].
pub proof fn lemma_sure_entries_fit_a_share(limit: nat, split: nat)
    requires
        may_split(limit, split),
        limit <= u64::MAX,
    ensures
        sure_entries(limit) <= share(limit, split),
{
    lemma_shares(limit, split);
    if split > 0 {
        lemma_several_shards(limit, split);
    }
}

/// With several shards of at least 32 items each there are at most `limit / 31`
/// of them, and the limit is not small.
pub proof fn lemma_several_shards(limit: nat, split: nat)
    requires
        split > 0,
        share(limit, split) >= 32,
    ensures
        31 * pow2(split) < limit,
        limit >= 63,
        split > 1 ==> limit >= 125,
        split == 1 && limit < u64::MAX ==> share(limit, split) == (limit + 1) / 2,
{
    lemma_shares(limit, split);
    vstd::arithmetic::power2::lemma2_to64();
    if split > 1 {
        vstd::arithmetic::power2::lemma_pow2_unfold(split);
        vstd::arithmetic::power2::lemma_pow2_unfold((split - 1) as nat);
    }
    assert(pow2(split) * 32 <= pow2(split) * share(limit, split)) by (nonlinear_arith)
        requires
            share(limit, split) >= 32,
    ;
}

/// [`CAPACITY`] items are spread evenly over any number of shards that a cache
/// for so many may have.
proof fn lemma_capacity_is_spread_evenly(split: nat)
    requires
        may_split(CAPACITY as nat, split),
    ensures
        pow2(split) * share(CAPACITY as nat, split) == CAPACITY,
{
    vstd::arithmetic::power2::lemma2_to64();
    if split > 0 {
        lemma_several_shards(CAPACITY as nat, split);
    }
    if split > 12 {
        vstd::arithmetic::power2::lemma_pow2_strictly_increases(12, split);
    }
    let shards = pow2(split) as int;
    let even = 25 * pow2((12 - split) as nat) as int;
    vstd::arithmetic::power2::lemma_pow2_adds(split, (12 - split) as nat);
    assert(even * shards == CAPACITY) by (nonlinear_arith)
        requires
            even == 25 * pow2((12 - split) as nat),
            shards * pow2((12 - split) as nat) == 4096,
            CAPACITY == 102400,
    ;
    vstd::arithmetic::div_mod::lemma_fundamental_div_mod_converse(
        CAPACITY + shards - 1,
        shards,
        even,
        shards - 1,
    );
    assert(shards * even == even * shards) by (nonlinear_arith);
}

/// Keys that belong to `n` shards, at most `most` to each, are at most
/// `n * most`.
proof fn lemma_shards_add_up(keys: Set<u64>, shards: Map<u64, nat>, n: nat, most: nat)
    requires
        keys.finite(),
        forall|key: u64| keys.contains(key) ==> #[trigger] shards[key] < n,
        forall|shard: nat| (#[trigger] in_shard(keys, shards, shard)).len() <= most,
    ensures
        keys.len() <= n * most,
    decreases n,
{
    if n == 0 {
        assert forall|key: u64| !keys.contains(key) by {
            if keys.contains(key) {
                assert(shards[key] < n);
            }
        }
        assert(keys =~= Set::<u64>::empty());
    } else {
        let last = (n - 1) as nat;
        let in_last = in_shard(keys, shards, last);
        let rest = keys.difference(in_last);
        assert forall|shard: nat| (#[trigger] in_shard(rest, shards, shard)).len() <= most by {
            vstd::set_lib::lemma_len_subset(
                in_shard(rest, shards, shard),
                in_shard(keys, shards, shard),
            );
        }
        lemma_shards_add_up(rest, shards, last, most);
        assert(keys =~= rest.union(in_last));
        vstd::set_lib::lemma_len_union(rest, in_last);
        assert(n * most == last * most + most) by (nonlinear_arith)
            requires
                n == last + 1,
        ;
    }
}

/// Entries of which no shard holds too many are within the bounds of the
/// cache.
pub proof fn lemma_fitting_entries_are_within(layout: Layout, entries: Map<u64, u64>)
    requires
        layout.is_valid(),
        layout.fits(entries),
    ensures
        within(entries, layout.limit),
{
    let most = share(layout.limit, layout.split);
    lemma_shards_add_up(entries.dom(), layout.shards, pow2(layout.split), most);
    lemma_shares(layout.limit, layout.split);
    vstd::arithmetic::power2::lemma2_to64();
    if layout.split > 0 {
        lemma_several_shards(layout.limit, layout.split);
    }
    if layout.split == 1 {
        assert(pow2(1) * most == 2 * most);
    }
    if layout.limit == CAPACITY {
        lemma_capacity_is_spread_evenly(layout.split);
    }
}

} // verus!
