//! What holds of a commit cache across calls.

use vstd::arithmetic::power2::pow2;
use vstd::multiset::Multiset;
use vstd::prelude::*;

use crate::commit_cache::{
    has_free_number, in_shard, inserted, lemma_empty_fits, lemma_fewer_keys_can_be_held,
    lemma_fitting_entries_are_within, lemma_shares, lemma_several_shards,
    lemma_sure_entries_fit_a_share, lookup, share, traced, within, CommitCache, Layout,
    CAPACITY,
};

verus! {

/// A cache answers a transaction that was just inserted with its commit
/// timestamp or not at all. It does answer where the transaction was cached
/// before, and where its shard had room.
pub proof fn law_read_after_insert(
    layout: Layout,
    before: Map<u64, u64>,
    after: Map<u64, u64>,
    start_ts: u64,
    commit_ts: u64,
)
    requires
        inserted(layout, before, after, start_ts, commit_ts),
    ensures
        lookup(after, start_ts) is None || lookup(after, start_ts) == Some(commit_ts),
        lookup(before, start_ts) is Some || layout.has_room(before, start_ts) ==> lookup(
            after,
            start_ts,
        ) == Some(commit_ts),
{
}

/// However full a cache is, it answers a transaction that was just inserted
/// with its commit timestamp, unless it kept a trace with the hash of the
/// transaction or was made for nothing.
pub proof fn law_read_after_insert_without_trace(
    layout: Layout,
    before: Map<u64, u64>,
    traces: Multiset<u64>,
    after: Map<u64, u64>,
    traces_after: Multiset<u64>,
    start_ts: u64,
    commit_ts: u64,
)
    requires
        inserted(layout, before, after, start_ts, commit_ts),
        traced(layout, before, traces, after, traces_after, start_ts, commit_ts),
        layout.limit > 0,
        !traces.contains(layout.hashes[start_ts]),
    ensures
        lookup(after, start_ts) == Some(commit_ts),
{
}

/// An insertion brings a trace only of what it drops: where no trace had the
/// hash of `key` and one has it afterwards, an entry with this hash was dropped,
/// and it was not the new one. `key` is of the shard of the inserted transaction.
pub proof fn law_traces_are_of_dropped_entries(
    layout: Layout,
    before: Map<u64, u64>,
    traces: Multiset<u64>,
    after: Map<u64, u64>,
    traces_after: Multiset<u64>,
    start_ts: u64,
    commit_ts: u64,
    key: u64,
)
    requires
        layout.is_valid(),
        inserted(layout, before, after, start_ts, commit_ts),
        traced(layout, before, traces, after, traces_after, start_ts, commit_ts),
        !traces.contains(layout.hashes[key]),
        traces_after.contains(layout.hashes[key]),
    ensures
        layout.shards[key] == layout.shards[start_ts],
        exists|gone: u64|
            gone != start_ts && lookup(before, gone) is Some && lookup(after, gone) is None
                && #[trigger] layout.hashes[gone] == layout.hashes[key],
{
    let grown = before.insert(start_ts, commit_ts);
    let left = layout.traces_left(before, traces, start_ts);
    let gone = choose|gone: u64| #[trigger]
        grown.contains_key(gone) && layout.shards[gone] == layout.shards[start_ts] && after
            == grown.remove(gone);
    assert(traces_after.count(layout.hashes[key]) <= left.insert(layout.hashes[gone]).count(
        layout.hashes[key],
    ));
}

/// An insertion does not change what is answered for another transaction,
/// other than by dropping it. It drops none where the inserted transaction was
/// cached before or its shard had room, and none of another shard.
pub proof fn law_insert_keeps_others(
    layout: Layout,
    before: Map<u64, u64>,
    after: Map<u64, u64>,
    start_ts: u64,
    commit_ts: u64,
    other: u64,
)
    requires
        inserted(layout, before, after, start_ts, commit_ts),
        other != start_ts,
    ensures
        lookup(after, other) is None || lookup(after, other) == lookup(before, other),
        lookup(before, start_ts) is Some || layout.has_room(before, start_ts)
            || layout.shards[other] != layout.shards[start_ts] ==> lookup(after, other) == lookup(
            before,
            other,
        ),
{
}

/// Of two transactions that a cache answers for, or is just told of, an
/// insertion drops at most one.
pub proof fn law_insert_drops_at_most_one(
    layout: Layout,
    before: Map<u64, u64>,
    after: Map<u64, u64>,
    start_ts: u64,
    commit_ts: u64,
    one: u64,
    another: u64,
)
    requires
        inserted(layout, before, after, start_ts, commit_ts),
        one != another,
        lookup(before, one) is Some || one == start_ts,
        lookup(before, another) is Some || another == start_ts,
    ensures
        lookup(after, one) is Some || lookup(after, another) is Some,
{
}

/// A removed transaction is not answered; all others are answered as before.
pub proof fn law_read_after_remove(before: Map<u64, u64>, start_ts: u64, other: u64)
    ensures
        lookup(before.remove(start_ts), start_ts) is None,
        other != start_ts ==> lookup(before.remove(start_ts), other) == lookup(before, other),
{
}

/// A cache made for [`CAPACITY`] entries never holds more than that.
pub proof fn law_shared_cache_is_bounded(layout: Layout, entries: Map<u64, u64>)
    requires
        layout.is_valid(),
        layout.fits(entries),
        layout.limit == CAPACITY,
    ensures
        entries.len() <= 102_400,
{
    lemma_fitting_entries_are_within(layout, entries);
}

/// An operation that changes a cache.
pub enum CacheOp {
    /// A transaction is inserted.
    Insert { start_ts: u64, commit_ts: u64 },
    /// A transaction is removed.
    Remove { start_ts: u64 },
}

/// The transaction that an operation is about.
pub open spec fn subject(op: CacheOp) -> u64 {
    match op {
        CacheOp::Insert { start_ts, .. } => start_ts,
        CacheOp::Remove { start_ts } => start_ts,
    }
}

/// What changes about a cache.
pub struct CacheState {
    /// The entries that it can answer for.
    pub entries: Map<u64, u64>,
    /// The traces that it keeps of entries that left.
    pub traces: Multiset<u64>,
}

/// Whether an operation may turn the state `before` into `after`.
pub open spec fn steps_to(
    layout: Layout,
    before: CacheState,
    op: CacheOp,
    after: CacheState,
) -> bool {
    match op {
        CacheOp::Insert { start_ts, commit_ts } => {
            &&& inserted(layout, before.entries, after.entries, start_ts, commit_ts)
            &&& traced(
                layout,
                before.entries,
                before.traces,
                after.entries,
                after.traces,
                start_ts,
                commit_ts,
            )
            &&& layout.fits(after.entries)
        },
        CacheOp::Remove { start_ts } => {
            &&& after.entries == before.entries.remove(start_ts)
            &&& after.traces == layout.traces_left(before.entries, before.traces, start_ts)
            &&& layout.fits(after.entries)
        },
    }
}

/// Whether a new cache may go through `states` under the operations `ops`.
pub open spec fn is_history(layout: Layout, states: Seq<CacheState>, ops: Seq<CacheOp>) -> bool {
    &&& layout.is_valid()
    &&& states.len() == ops.len() + 1
    &&& states[0].entries == Map::<u64, u64>::empty()
    &&& states[0].traces == Multiset::<u64>::empty()
    &&& forall|i: int|
        0 <= i < ops.len() ==> steps_to(layout, states[i], #[trigger] ops[i], states[i + 1])
}

/// The commit timestamp that was last inserted for `start_ts`, unless it was
/// removed since.
pub open spec fn last_recorded(ops: Seq<CacheOp>, start_ts: u64) -> Option<u64>
    decreases ops.len(),
{
    if ops.len() == 0 {
        None
    } else if subject(ops.last()) != start_ts {
        last_recorded(ops.drop_last(), start_ts)
    } else {
        match ops.last() {
            CacheOp::Insert { commit_ts, .. } => Some(commit_ts),
            CacheOp::Remove { .. } => None,
        }
    }
}

/// Whatever was done to a cache, what it answers for a transaction is what was
/// last recorded of it: an answer is never outdated, made up or taken from
/// another transaction.
pub proof fn law_answers_are_current(
    layout: Layout,
    states: Seq<CacheState>,
    ops: Seq<CacheOp>,
    start_ts: u64,
)
    requires
        is_history(layout, states, ops),
    ensures
        lookup(states.last().entries, start_ts) is Some ==> lookup(
            states.last().entries,
            start_ts,
        ) == last_recorded(ops, start_ts),
    decreases ops.len(),
{
    if ops.len() > 0 {
        law_answers_are_current(layout, states.drop_last(), ops.drop_last(), start_ts);
    }
}

/// Whatever was done to a cache, it stays within its bounds.
pub proof fn law_history_stays_within(
    layout: Layout,
    states: Seq<CacheState>,
    ops: Seq<CacheOp>,
)
    requires
        is_history(layout, states, ops),
    ensures
        within(states.last().entries, layout.limit),
        states.last().entries.dom().finite(),
        layout.limit < 63 ==> states.last().entries.len() <= layout.limit,
        layout.limit < 125 ==> states.last().entries.len() <= layout.limit + layout.limit % 2,
        states.last().entries.len() <= layout.limit + layout.limit / 31,
        layout.limit == 102_400 ==> states.last().entries.len() <= 102_400,
{
    if ops.len() > 0 {
        assert(steps_to(layout, states[ops.len() - 1], ops.last(), states.last()));
    } else {
        lemma_empty_fits(layout);
    }
    lemma_fitting_entries_are_within(layout, states.last().entries);
    law_within(states.last().entries, layout.limit);
}

/// Whether no insertion has made room by dropping an entry.
pub open spec fn nothing_dropped(states: Seq<CacheState>, ops: Seq<CacheOp>) -> bool {
    forall|i: int|
        0 <= i < ops.len() ==> ((#[trigger] ops[i]) matches CacheOp::Insert { start_ts, commit_ts }
            ==> states[i + 1].entries == states[i].entries.insert(start_ts, commit_ts))
}

/// A cache that has not had to drop an entry has no traces, and answers every
/// transaction with what was last recorded of it. Whatever is inserted into it
/// next is answered too, however many entries it holds.
pub proof fn law_until_the_first_drop(
    layout: Layout,
    states: Seq<CacheState>,
    ops: Seq<CacheOp>,
    start_ts: u64,
    commit_ts: u64,
    next: CacheState,
)
    requires
        is_history(layout, states, ops),
        nothing_dropped(states, ops),
    ensures
        states.last().traces == Multiset::<u64>::empty(),
        lookup(states.last().entries, start_ts) == last_recorded(ops, start_ts),
        layout.limit > 0 && steps_to(
            layout,
            states.last(),
            CacheOp::Insert { start_ts, commit_ts },
            next,
        ) ==> lookup(next.entries, start_ts) == Some(commit_ts),
    decreases ops.len(),
{
    if ops.len() > 0 {
        law_until_the_first_drop(
            layout,
            states.drop_last(),
            ops.drop_last(),
            start_ts,
            commit_ts,
            next,
        );
    }
}

/// Whether the operations insert no transaction with the hash of `start_ts`.
pub open spec fn hash_is_new(layout: Layout, ops: Seq<CacheOp>, start_ts: u64) -> bool {
    forall|i: int|
        0 <= i < ops.len() && (#[trigger] ops[i]) is Insert ==> layout.hashes[subject(ops[i])]
            != layout.hashes[start_ts]
}

/// However full a cache is and however much it has dropped, it answers a
/// transaction that it is told of for the first time, unless an earlier one had
/// the same hash.
pub proof fn law_new_transactions_are_answered(
    layout: Layout,
    states: Seq<CacheState>,
    ops: Seq<CacheOp>,
    start_ts: u64,
    commit_ts: u64,
    next: CacheState,
)
    requires
        is_history(layout, states, ops),
        hash_is_new(layout, ops, start_ts),
        layout.limit > 0,
        steps_to(layout, states.last(), CacheOp::Insert { start_ts, commit_ts }, next),
    ensures
        lookup(next.entries, start_ts) == Some(commit_ts),
{
    lemma_new_hash_has_no_trace(layout, states, ops, start_ts);
}

/// No entry and no trace has a hash that no inserted transaction had.
proof fn lemma_new_hash_has_no_trace(
    layout: Layout,
    states: Seq<CacheState>,
    ops: Seq<CacheOp>,
    start_ts: u64,
)
    requires
        is_history(layout, states, ops),
        hash_is_new(layout, ops, start_ts),
    ensures
        !layout.has_trace(states.last().traces, start_ts),
        forall|key: u64| #[trigger]
            states.last().entries.contains_key(key) ==> layout.hashes[key]
                != layout.hashes[start_ts],
    decreases ops.len(),
{
    if ops.len() > 0 {
        lemma_new_hash_has_no_trace(layout, states.drop_last(), ops.drop_last(), start_ts);
        let before = states[ops.len() - 1];
        let after = states.last();
        if let CacheOp::Insert { start_ts: told, commit_ts } = ops.last() {
            if layout.has_trace(after.traces, start_ts) {
                law_traces_are_of_dropped_entries(
                    layout,
                    before.entries,
                    before.traces,
                    after.entries,
                    after.traces,
                    told,
                    commit_ts,
                    start_ts,
                );
            }
        }
    }
}

/// Whether the operations insert no transaction with the hash of `start_ts`
/// but `start_ts` itself.
pub open spec fn hash_is_its_own(layout: Layout, ops: Seq<CacheOp>, start_ts: u64) -> bool {
    forall|i: int|
        0 <= i < ops.len() && (#[trigger] ops[i]) is Insert && subject(ops[i]) != start_ts
            ==> layout.hashes[subject(ops[i])] != layout.hashes[start_ts]
}

/// A cache keeps at most one trace of a transaction that shares its hash with
/// no other, and none while it answers the transaction.
pub proof fn law_at_most_one_trace(
    layout: Layout,
    states: Seq<CacheState>,
    ops: Seq<CacheOp>,
    start_ts: u64,
)
    requires
        is_history(layout, states, ops),
        hash_is_its_own(layout, ops, start_ts),
    ensures
        states.last().traces.count(layout.hashes[start_ts]) <= 1,
        lookup(states.last().entries, start_ts) is Some ==> states.last().traces.count(
            layout.hashes[start_ts],
        ) == 0,
{
    lemma_own_hash(layout, states, ops, start_ts);
}

/// [`law_at_most_one_trace`], with what its induction needs.
proof fn lemma_own_hash(
    layout: Layout,
    states: Seq<CacheState>,
    ops: Seq<CacheOp>,
    start_ts: u64,
)
    requires
        is_history(layout, states, ops),
        hash_is_its_own(layout, ops, start_ts),
    ensures
        states.last().traces.count(layout.hashes[start_ts]) <= 1,
        states.last().entries.contains_key(start_ts) ==> !layout.has_trace(
            states.last().traces,
            start_ts,
        ),
        forall|key: u64| #[trigger]
            states.last().entries.contains_key(key) && key != start_ts ==> layout.hashes[key]
                != layout.hashes[start_ts],
    decreases ops.len(),
{
    if ops.len() > 0 {
        lemma_own_hash(layout, states.drop_last(), ops.drop_last(), start_ts);
        let before = states[ops.len() - 1];
        let after = states.last();
        if let CacheOp::Insert { start_ts: told, commit_ts } = ops.last() {
            let grown = before.entries.insert(told, commit_ts);
            let left = layout.traces_left(before.entries, before.traces, told);
            if after.entries != grown {
                let gone = choose|gone: u64| #[trigger]
                    grown.contains_key(gone) && layout.shards[gone] == layout.shards[told]
                        && after.entries == grown.remove(gone);
                assert(after.traces.count(layout.hashes[start_ts]) <= left.insert(
                    layout.hashes[gone],
                ).count(layout.hashes[start_ts]));
            }
        }
    }
}

/// A transaction that is removed from a cache and inserted again is answered,
/// however full the cache is, unless another transaction had the same hash.
pub proof fn law_removed_transactions_are_answered_again(
    layout: Layout,
    states: Seq<CacheState>,
    ops: Seq<CacheOp>,
    start_ts: u64,
    commit_ts: u64,
    removed: CacheState,
    again: CacheState,
)
    requires
        is_history(layout, states, ops),
        hash_is_its_own(layout, ops, start_ts),
        layout.limit > 0,
        steps_to(layout, states.last(), CacheOp::Remove { start_ts }, removed),
        steps_to(layout, removed, CacheOp::Insert { start_ts, commit_ts }, again),
    ensures
        lookup(again.entries, start_ts) == Some(commit_ts),
{
    lemma_own_hash(layout, states, ops, start_ts);
}

/// The transactions of which something is recorded.
pub open spec fn recorded(ops: Seq<CacheOp>) -> Set<u64> {
    Set::new(|start_ts: u64| last_recorded(ops, start_ts) is Some)
}

/// A cache that can hold what is recorded at each time forgets none of it: if
/// after each operation no shard has more transactions to hold than it is made
/// for, each is answered with what was last recorded of it.
pub proof fn law_recorded_transactions_are_kept(
    layout: Layout,
    states: Seq<CacheState>,
    ops: Seq<CacheOp>,
    start_ts: u64,
)
    requires
        is_history(layout, states, ops),
        forall|n: int| 0 <= n <= ops.len() ==> recorded(#[trigger] ops.take(n)).finite(),
        forall|n: int, shard: nat|
            0 <= n <= ops.len() ==> (#[trigger] in_shard(
                recorded(#[trigger] ops.take(n)),
                layout.shards,
                shard,
            )).len() <= share(layout.limit, layout.split),
    ensures
        lookup(states.last().entries, start_ts) == last_recorded(ops, start_ts),
    decreases ops.len(),
{
    if ops.len() > 0 {
        let earlier = ops.drop_last();
        assert forall|n: int| 0 <= n <= earlier.len() implies #[trigger] earlier.take(n)
            == ops.take(n) by {
            assert(earlier.take(n) =~= ops.take(n));
        }
        let before = states[ops.len() - 1].entries;
        let told = subject(ops.last());
        law_recorded_transactions_are_kept(layout, states.drop_last(), earlier, start_ts);
        if ops.last() is Insert && !before.contains_key(told) {
            assert(ops.take(ops.len() as int) =~= ops);
            assert forall|key: u64| before.contains_key(key) implies recorded(ops).contains(
                key,
            ) by {
                law_answers_are_current(layout, states.drop_last(), earlier, key);
            }
            let shard = layout.shards[told];
            vstd::set_lib::lemma_len_subset(
                layout.held(before, shard),
                in_shard(recorded(ops), layout.shards, shard).remove(told),
            );
        }
    }
}

/// A cache forgets none of the transactions that it can hold: if all
/// operations are about the transactions in `known`, and no shard is made for
/// fewer than belong to it, each is answered with what was last recorded of it.
pub proof fn law_few_transactions_are_kept(
    layout: Layout,
    states: Seq<CacheState>,
    ops: Seq<CacheOp>,
    known: Set<u64>,
    start_ts: u64,
)
    requires
        is_history(layout, states, ops),
        known.finite(),
        forall|shard: nat|
            (#[trigger] in_shard(known, layout.shards, shard)).len() <= share(
                layout.limit,
                layout.split,
            ),
        forall|i: int| 0 <= i < ops.len() ==> known.contains(subject(#[trigger] ops[i])),
    ensures
        lookup(states.last().entries, start_ts) == last_recorded(ops, start_ts),
{
    assert forall|n: int| 0 <= n <= ops.len() implies layout.can_hold(
        recorded(#[trigger] ops.take(n)),
    ) by {
        assert forall|key: u64| recorded(ops.take(n)).contains(key) implies known.contains(key) by {
            lemma_recorded_was_told(ops.take(n), key);
        }
        lemma_fewer_keys_can_be_held(layout, recorded(ops.take(n)), known);
    }
    law_recorded_transactions_are_kept(layout, states, ops, start_ts);
}

/// Of what is recorded a cache was told.
proof fn lemma_recorded_was_told(ops: Seq<CacheOp>, start_ts: u64)
    requires
        last_recorded(ops, start_ts) is Some,
    ensures
        exists|i: int| 0 <= i < ops.len() && subject(#[trigger] ops[i]) == start_ts,
    decreases ops.len(),
{
    if subject(ops.last()) != start_ts {
        lemma_recorded_was_told(ops.drop_last(), start_ts);
    }
}

/// A cache can hold few enough transactions, however they are spread over its
/// shards: as many as it was made for up to 62, half as many up to 124, and 32
/// otherwise.
pub proof fn law_few_transactions_can_be_held(layout: Layout, known: Set<u64>)
    requires
        layout.is_valid(),
        known.finite(),
        known.len() <= if layout.limit < 63 {
            layout.limit
        } else if layout.limit < 125 {
            (layout.limit + 1) / 2
        } else {
            32
        },
    ensures
        layout.can_hold(known),
        forall|shard: nat|
            (#[trigger] in_shard(known, layout.shards, shard)).len() <= share(
                layout.limit,
                layout.split,
            ),
{
    lemma_sure_entries_fit_a_share(layout.limit, layout.split);
    assert forall|shard: nat| (#[trigger] in_shard(known, layout.shards, shard)).len() <= share(
        layout.limit,
        layout.split,
    ) by {
        vstd::set_lib::lemma_len_subset(in_shard(known, layout.shards, shard), known);
    }
}

/// The share of a shard is the least that adds up to the limit over all shards.
/// Beyond 64 bits it is the most that does not add up to more than 64 bits hold.
pub proof fn law_share(limit: nat, split: nat)
    requires
        limit > 0,
    ensures
        limit + pow2(split) - 1 <= u64::MAX ==> {
            &&& share(limit, split) > 0
            &&& share(limit, split) * pow2(split) >= limit
            &&& (share(limit, split) - 1) * pow2(split) < limit
        },
        limit + pow2(split) - 1 > u64::MAX ==> {
            &&& share(limit, split) * pow2(split) <= u64::MAX
            &&& (share(limit, split) + 1) * pow2(split) > u64::MAX
        },
{
    lemma_shares(limit, split);
    let shards = pow2(split) as int;
    let most = share(limit, split) as int;
    let padded = limit + shards - 1;
    let bounded = if padded <= u64::MAX {
        padded
    } else {
        u64::MAX as int
    };
    vstd::arithmetic::div_mod::lemma_fundamental_div_mod(bounded, shards);
    vstd::arithmetic::div_mod::lemma_div_pos_is_pos(bounded, shards);
    assert(most * shards == shards * most) by (nonlinear_arith);
    assert((most - 1) * shards == shards * most - shards) by (nonlinear_arith);
    assert((most + 1) * shards == shards * most + shards) by (nonlinear_arith);
    assert(shards * 0 == 0);
}

/// The keys in a shard are those of the given keys that belong to it.
pub proof fn law_in_shard(keys: Set<u64>, shards: Map<u64, nat>, shard: nat, key: u64)
    ensures
        in_shard(keys, shards, shard).contains(key) <==> keys.contains(key) && shards[key]
            == shard,
{
}

/// A cache for fewer than 63 items has one shard, one for fewer than 125 has
/// two, and a larger one has at least four, each for at least 32 items. The
/// hash of a key settles its shard.
pub proof fn law_layout(layout: Layout, one: u64, other: u64)
    requires
        layout.is_valid(),
    ensures
        layout.limit < 63 <==> pow2(layout.split) == 1,
        63 <= layout.limit < 125 <==> pow2(layout.split) == 2,
        layout.limit >= 125 <==> pow2(layout.split) >= 4,
        layout.limit >= 63 ==> share(layout.limit, layout.split) >= 32,
        layout.shards[one] < pow2(layout.split),
        layout.hashes[one] == layout.hashes[other] ==> layout.shards[one] == layout.shards[other],
        layout.shards.contains_key(one),
        layout.hashes.contains_key(one),
{
    vstd::arithmetic::power2::lemma2_to64();
    if layout.split > 0 {
        lemma_several_shards(layout.limit, layout.split);
    }
    if layout.split > 2 {
        vstd::arithmetic::power2::lemma_pow2_strictly_increases(2, layout.split);
    }
}

/// An insertion records the commit timestamp of the transaction and of no
/// other: an entry that is there afterwards is the new one or was there before
/// with the same commit timestamp. At most one entry is missing, the new one
/// included, and it is of the shard of the inserted transaction. None is missing
/// where the transaction was cached before.
pub proof fn law_insertion(
    layout: Layout,
    before: Map<u64, u64>,
    after: Map<u64, u64>,
    start_ts: u64,
    commit_ts: u64,
)
    requires
        inserted(layout, before, after, start_ts, commit_ts),
    ensures
        after.contains_key(start_ts) ==> after[start_ts] == commit_ts,
        forall|key: u64| #[trigger]
            after.contains_key(key) && key != start_ts ==> before.contains_key(key) && after[key]
                == before[key],
        forall|one: u64, other: u64|
            one != other && (before.contains_key(one) || one == start_ts) && (before.contains_key(
                other,
            ) || other == start_ts) ==> #[trigger] after.contains_key(one)
                || #[trigger] after.contains_key(other),
        forall|key: u64| #[trigger]
            before.contains_key(key) && !after.contains_key(key) ==> layout.shards[key]
                == layout.shards[start_ts],
        before.contains_key(start_ts) ==> forall|key: u64| #[trigger]
            before.contains_key(key) ==> after.contains_key(key),
{
}

/// An insertion drops nothing, and puts the new entry in, while its shard holds
/// less than its part of the limit.
pub proof fn law_insertion_into_room(
    layout: Layout,
    before: Map<u64, u64>,
    after: Map<u64, u64>,
    start_ts: u64,
    commit_ts: u64,
    neighbours: Set<u64>,
)
    requires
        inserted(layout, before, after, start_ts, commit_ts),
        forall|key: u64| #[trigger]
            neighbours.contains(key) <==> before.contains_key(key) && layout.shards[key]
                == layout.shards[start_ts],
        neighbours.len() * pow2(layout.split) < layout.limit,
        layout.limit + pow2(layout.split) - 1 <= u64::MAX,
    ensures
        after == before.insert(start_ts, commit_ts),
{
    law_share(layout.limit, layout.split);
    let most = share(layout.limit, layout.split);
    assert(neighbours =~= layout.held(before, layout.shards[start_ts]));
    assert(neighbours.len() < most) by (nonlinear_arith)
        requires
            neighbours.len() * pow2(layout.split) < layout.limit,
            most * pow2(layout.split) >= layout.limit,
    ;
}

/// What an insertion does to the traces with one hash: where it is the hash of
/// the inserted transaction, and the transaction was not cached, one of them is
/// used up. One comes only where another entry with this hash is dropped.
/// Without a trace of its hash, the new entry is put in to stay.
pub proof fn law_insertion_and_traces(
    layout: Layout,
    before: Map<u64, u64>,
    traces: Multiset<u64>,
    after: Map<u64, u64>,
    traces_after: Multiset<u64>,
    start_ts: u64,
    commit_ts: u64,
    hash: u64,
)
    requires
        layout.is_valid(),
        inserted(layout, before, after, start_ts, commit_ts),
        traced(layout, before, traces, after, traces_after, start_ts, commit_ts),
    ensures
        layout.limit > 0 && traces.count(layout.hashes[start_ts]) == 0 ==> after.contains_key(
            start_ts,
        ),
        ({
            let used: nat = if hash == layout.hashes[start_ts] && !before.contains_key(start_ts)
                && traces.count(hash) > 0 {
                1
            } else {
                0
            };
            &&& traces_after.count(hash) + used <= traces.count(hash) + 1
            &&& after == before.insert(start_ts, commit_ts) || !after.contains_key(start_ts)
                ==> traces_after.count(hash) + used == traces.count(hash)
            &&& traces_after.count(hash) + used > traces.count(hash) ==> exists|gone: u64|
                gone != start_ts && #[trigger] before.contains_key(gone) && !after.contains_key(
                    gone,
                ) && layout.hashes[gone] == hash
        }),
        forall|key: u64|
            layout.shards[key] != layout.shards[start_ts] ==> traces_after.count(
                #[trigger] layout.hashes[key],
            ) == traces.count(layout.hashes[key]),
        traces_after.len() <= traces.len() + 1,
        traces.len() <= traces_after.len() + 1,
{
    let grown = before.insert(start_ts, commit_ts);
    let left = layout.traces_left(before, traces, start_ts);
    if traces.contains(layout.hashes[start_ts]) {
        vstd::multiset::axiom_len_sub(traces, Multiset::singleton(layout.hashes[start_ts]));
    } else {
        assert(traces.remove(layout.hashes[start_ts]) =~= traces);
    }
    if after != grown {
        let gone = choose|gone: u64| #[trigger]
            grown.contains_key(gone) && layout.shards[gone] == layout.shards[start_ts] && after
                == grown.remove(gone);
        assert(traces_after.count(hash) <= left.insert(layout.hashes[gone]).count(hash));
        if gone != start_ts {
            assert(before.contains_key(gone));
        }
    }
}

/// There is a number for another entry in every cache made for at most
/// 11,200,000,000 entries, whatever it holds, so also in the shared one. In a
/// larger cache there is one for a transaction that is cached already, and for
/// any while it holds fewer than 2,147,483,647 entries. Otherwise none is sure.
pub proof fn law_free_numbers(entries: Map<u64, u64>, limit: nat, key: u64)
    ensures
        limit <= 11_200_000_000 ==> has_free_number(entries, limit, key),
        has_free_number(entries, CAPACITY as nat, key),
        entries.contains_key(key) ==> has_free_number(entries, limit, key),
        entries.len() < 2_147_483_647 ==> has_free_number(entries, limit, key),
        limit > 11_200_000_000 && !entries.contains_key(key) && entries.len() >= 2_147_483_647
            ==> !has_free_number(entries, limit, key),
{
}

/// A transaction can always be inserted into a cache made for at most
/// 11,200,000,000 entries, and into any cache with fewer than 2,147,483,647.
pub proof fn law_insert_can_be_called(cache: &mut CommitCache, start_ts: u64, commit_ts: u64)
    requires
        old(cache).layout().limit <= 11_200_000_000 || old(cache)@.contains_key(start_ts)
            || old(cache)@.len() < 2_147_483_647,
    ensures
        call_requires(CommitCache::insert, (cache, start_ts, commit_ts)),
{
    law_free_numbers(old(cache)@, old(cache).layout().limit, start_ts);
}

/// Only a cache made for more than 11,200,000,000 entries can refuse a
/// transaction, only with 2,147,483,647 entries or more, and only one that is
/// not cached. Then it stays as it is. Otherwise the transaction is inserted.
pub proof fn law_try_insert(cache: &mut CommitCache, start_ts: u64, commit_ts: u64, done: bool)
    requires
        call_ensures(CommitCache::try_insert, (cache, start_ts, commit_ts), done),
    ensures
        done <==> old(cache).layout().limit <= 11_200_000_000 || old(cache)@.contains_key(
            start_ts,
        ) || old(cache)@.len() < 2_147_483_647,
        !done ==> final(cache)@ == old(cache)@ && final(cache).traces() == old(cache).traces(),
        done ==> steps_to(
            old(cache).layout(),
            CacheState { entries: old(cache)@, traces: old(cache).traces() },
            CacheOp::Insert { start_ts, commit_ts },
            CacheState { entries: final(cache)@, traces: final(cache).traces() },
        ),
        final(cache).layout() == old(cache).layout(),
        final(cache).layout().is_valid(),
        final(cache).layout().fits(final(cache)@),
{
    law_free_numbers(old(cache)@, old(cache).layout().limit, start_ts);
}

/// A new cache is the start of a history: it answers nothing and has no traces.
/// It is made for as many entries as were asked for.
pub proof fn law_new_cache(capacity: usize, cache: CommitCache)
    requires
        call_ensures(CommitCache::new, (capacity,), cache),
    ensures
        forall|start_ts: u64| !#[trigger] cache@.contains_key(start_ts),
        cache.traces().len() == 0,
        cache.layout().limit == capacity,
        cache.capacity() == capacity,
        cache.layout().is_valid(),
        is_history(
            cache.layout(),
            seq![CacheState { entries: cache@, traces: cache.traces() }],
            Seq::<CacheOp>::empty(),
        ),
{
}

/// A call of insert is a step of a history, with the transaction and the commit
/// timestamp that it was called with.
pub proof fn law_insert_is_a_step(cache: &mut CommitCache, start_ts: u64, commit_ts: u64)
    requires
        call_ensures(CommitCache::insert, (cache, start_ts, commit_ts), ()),
    ensures
        steps_to(
            old(cache).layout(),
            CacheState { entries: old(cache)@, traces: old(cache).traces() },
            CacheOp::Insert { start_ts, commit_ts },
            CacheState { entries: final(cache)@, traces: final(cache).traces() },
        ),
        final(cache).layout() == old(cache).layout(),
        final(cache).layout().is_valid(),
        final(cache).layout().fits(final(cache)@),
{
}

/// A call of remove is a step of a history: it takes out the entry of the
/// transaction and no other, or else one trace with its hash.
pub proof fn law_remove_is_a_step(cache: &mut CommitCache, start_ts: u64, hash: u64)
    requires
        call_ensures(CommitCache::remove, (cache, start_ts), ()),
    ensures
        steps_to(
            old(cache).layout(),
            CacheState { entries: old(cache)@, traces: old(cache).traces() },
            CacheOp::Remove { start_ts },
            CacheState { entries: final(cache)@, traces: final(cache).traces() },
        ),
        !final(cache)@.contains_key(start_ts),
        forall|key: u64|
            key != start_ts ==> (#[trigger] final(cache)@.contains_key(key) <==> old(
                cache,
            )@.contains_key(key)) && final(cache)@[key] == old(cache)@[key],
        old(cache)@.contains_key(start_ts) || hash != old(cache).layout().hashes[start_ts]
            ==> final(cache).traces().count(hash) == old(cache).traces().count(hash),
        !old(cache)@.contains_key(start_ts) && hash == old(cache).layout().hashes[start_ts]
            && old(cache).traces().count(hash) > 0 ==> final(cache).traces().count(hash) == old(
            cache,
        ).traces().count(hash) - 1,
        final(cache).layout() == old(cache).layout(),
        final(cache).layout().is_valid(),
        final(cache).layout().fits(final(cache)@),
{
}

/// A call of get answers exactly the transactions with an entry, with what the
/// entry holds.
pub proof fn law_get(cache: &CommitCache, start_ts: u64, answer: Option<u64>)
    requires
        call_ensures(CommitCache::get, (cache, start_ts), answer),
    ensures
        answer is Some <==> cache@.contains_key(start_ts),
        answer is Some ==> answer->0 == cache@[start_ts],
        cache.layout().is_valid(),
        cache.layout().fits(cache@),
{
}

/// What is read from a new cache: nothing.
pub proof fn law_get_after_new(
    capacity: usize,
    cache: CommitCache,
    start_ts: u64,
    answer: Option<u64>,
)
    requires
        call_ensures(CommitCache::new, (capacity,), cache),
        call_ensures(CommitCache::get, (&cache, start_ts), answer),
    ensures
        answer is None,
{
}

/// What is read after an insertion, against what was read before it. The
/// inserted transaction is answered with its commit timestamp or not at all,
/// and for sure where it was answered before. Another is answered as before or
/// not at all.
pub proof fn law_get_after_insert(
    cache: &mut CommitCache,
    start_ts: u64,
    commit_ts: u64,
    asked: u64,
    earlier: Option<u64>,
    later: Option<u64>,
)
    requires
        call_ensures(CommitCache::get, (&*old(cache), asked), earlier),
        call_ensures(CommitCache::insert, (cache, start_ts, commit_ts), ()),
        call_ensures(CommitCache::get, (&*final(cache), asked), later),
    ensures
        asked == start_ts && later is Some ==> later->0 == commit_ts,
        asked == start_ts && earlier is Some ==> later is Some,
        asked != start_ts && later is Some ==> earlier is Some && later->0 == earlier->0,
{
}

/// What is read after an insertion that may be refused: as for an insertion,
/// or what was read before it.
pub proof fn law_get_after_try_insert(
    cache: &mut CommitCache,
    start_ts: u64,
    commit_ts: u64,
    done: bool,
    asked: u64,
    earlier: Option<u64>,
    later: Option<u64>,
)
    requires
        call_ensures(CommitCache::get, (&*old(cache), asked), earlier),
        call_ensures(CommitCache::try_insert, (cache, start_ts, commit_ts), done),
        call_ensures(CommitCache::get, (&*final(cache), asked), later),
    ensures
        !done ==> later == earlier && old(cache).layout().limit > 11_200_000_000,
        done && asked == start_ts && later is Some ==> later->0 == commit_ts,
        done && asked == start_ts && earlier is Some ==> later is Some,
        asked != start_ts && later is Some ==> earlier is Some && later->0 == earlier->0,
{
}

/// The first transaction that is inserted into a new cache is answered, and so
/// is each further one that is new to it and has a hash of its own: see
/// [`law_new_transactions_are_answered`].
pub proof fn law_first_insert_is_answered(
    capacity: usize,
    cache: &mut CommitCache,
    start_ts: u64,
    commit_ts: u64,
    answer: Option<u64>,
)
    requires
        capacity > 0,
        call_ensures(CommitCache::new, (capacity,), *old(cache)),
        call_ensures(CommitCache::insert, (cache, start_ts, commit_ts), ()),
        call_ensures(CommitCache::get, (&*final(cache), start_ts), answer),
    ensures
        answer == Some(commit_ts),
{
    law_new_cache(capacity, *old(cache));
}

/// What is read after a removal: nothing of the removed transaction, and of
/// every other what was read before.
pub proof fn law_get_after_remove(
    cache: &mut CommitCache,
    start_ts: u64,
    asked: u64,
    earlier: Option<u64>,
    later: Option<u64>,
)
    requires
        call_ensures(CommitCache::get, (&*old(cache), asked), earlier),
        call_ensures(CommitCache::remove, (cache, start_ts), ()),
        call_ensures(CommitCache::get, (&*final(cache), asked), later),
    ensures
        asked == start_ts ==> later is None,
        asked != start_ts ==> later == earlier,
{
}

/// An insertion into a cache with few entries drops none: fewer than it was
/// made for up to 62, than half of that up to 124, and than 32 otherwise.
pub proof fn law_insert_among_few(cache: &mut CommitCache, start_ts: u64, commit_ts: u64)
    requires
        call_ensures(CommitCache::insert, (cache, start_ts, commit_ts), ()),
        old(cache)@.len() < if old(cache).layout().limit < 63 {
            old(cache).layout().limit
        } else if old(cache).layout().limit < 125 {
            (old(cache).layout().limit + 1) / 2
        } else {
            32
        },
    ensures
        final(cache)@ == old(cache)@.insert(start_ts, commit_ts),
{
}

/// No cache outgrows its bounds: one for up to 62 entries holds no more than
/// that, one for up to 124 at most one more, and no cache more than one in 31
/// above its limit. The shared cache holds no more than its capacity. No shard
/// holds a whole item more than its part of the limit.
pub proof fn law_cache_bounds(
    cache: &CommitCache,
    start_ts: u64,
    answer: Option<u64>,
    neighbours: Set<u64>,
    shard: nat,
)
    requires
        call_ensures(CommitCache::get, (cache, start_ts), answer),
        forall|key: u64| #[trigger]
            neighbours.contains(key) <==> cache@.contains_key(key) && cache.layout().shards[key]
                == shard,
    ensures
        cache@.dom().finite(),
        cache.layout().limit < 63 ==> cache@.len() <= cache.layout().limit,
        cache.layout().limit < 125 ==> cache@.len() <= cache.layout().limit
            + cache.layout().limit % 2,
        cache@.len() <= cache.layout().limit + cache.layout().limit / 31,
        cache.layout().limit == 102_400 ==> cache@.len() <= 102_400,
        neighbours.len() > 0 ==> (neighbours.len() - 1) * pow2(cache.layout().split)
            < cache.layout().limit,
{
    let layout = cache.layout();
    lemma_fitting_entries_are_within(layout, cache@);
    law_within(cache@, layout.limit);
    assert(neighbours =~= in_shard(cache@.dom(), layout.shards, shard));
    let most = share(layout.limit, layout.split);
    lemma_shares(layout.limit, layout.split);
    if neighbours.len() > 0 {
        assert((neighbours.len() - 1) * pow2(layout.split) <= pow2(layout.split) * most - pow2(
            layout.split,
        )) by (nonlinear_arith)
            requires
                0 < neighbours.len() <= most,
        ;
    }
}

/// What is known of the number of entries in a cache for `limit` items.
pub proof fn law_within(entries: Map<u64, u64>, limit: nat)
    requires
        within(entries, limit),
    ensures
        entries.dom().finite(),
        limit < 63 ==> entries.len() <= limit,
        limit < 125 ==> entries.len() <= limit + limit % 2,
        entries.len() <= limit + limit / 31,
        limit == 102_400 ==> entries.len() <= 102_400,
{
}

} // verus!
