//! What holds of timestamps, keys and locks, and of the modifications that are
//! collected of them.

use vstd::prelude::*;

use crate::mvcc::{key_locks, KeyLock, MvccTxn};
use crate::types::{Key, LastChange, Lock, TimeStamp};

verus! {

/// A timestamp has the number that it was made with, and two of them differ
/// where their numbers do.
pub proof fn law_timestamps(one: u64, other: u64, ts: TimeStamp, other_ts: TimeStamp)
    requires
        call_ensures(TimeStamp::new, (one,), ts),
        call_ensures(TimeStamp::new, (other,), other_ts),
    ensures
        ts.0 == one,
        ts == other_ts <==> one == other,
{
}

/// The default timestamp comes before all others.
pub proof fn law_default_timestamp(ts: TimeStamp, number: u64)
    requires
        call_ensures(<TimeStamp as Default>::default, (), ts),
    ensures
        ts.0 <= number,
{
}

/// By default nothing is known of the last change.
pub proof fn law_default_last_change(last_change: LastChange)
    requires
        call_ensures(<LastChange as Default>::default, (), last_change),
    ensures
        last_change !is NotExist,
        last_change !is Exist,
{
}

/// A key has the bytes that it was made with, and so has its clone.
pub proof fn law_keys(encoded: Vec<u8>, key: Key, cloned_key: Key)
    requires
        call_ensures(Key::from_encoded, (encoded,), key),
        call_ensures(<Key as Clone>::clone, (&key,), cloned_key),
    ensures
        key.encoded@ == encoded@,
        cloned_key.encoded@ == encoded@,
        key@ == encoded@,
{
}

/// The view of a lock tells everything about it: locks with the same view are
/// the same, field by field.
pub proof fn law_lock_view(one: Lock, other: Lock)
    requires
        one@ == other@,
    ensures
        one.lock_type == other.lock_type,
        one.primary@ == other.primary@,
        one.ts.0 == other.ts.0,
        one.ttl == other.ttl,
        one.short_value is Some <==> other.short_value is Some,
        one.short_value is Some ==> one.short_value->0@ == other.short_value->0@,
        one.for_update_ts.0 == other.for_update_ts.0,
        one.txn_size == other.txn_size,
        one.min_commit_ts.0 == other.min_commit_ts.0,
        one.use_async_commit == other.use_async_commit,
        one.secondaries@.len() == other.secondaries@.len(),
        forall|i: int|
            0 <= i < one.secondaries@.len() ==> (#[trigger] one.secondaries@[i])@
                == other.secondaries@[i]@,
        one.rollback_ts@ == other.rollback_ts@,
        one.last_change == other.last_change,
        one.txn_source == other.txn_source,
        one.is_locked_with_conflict == other.is_locked_with_conflict,
        one.is_mem_buffer == other.is_mem_buffer,
        one.mem_buffer_flags == other.mem_buffer_flags,
        one.mem_buffer_value@ == other.mem_buffer_value@,
{
    law_lock_view_fields(one);
    law_lock_view_fields(other);
    assert forall|i: int| 0 <= i < one.secondaries@.len() implies (
    #[trigger] one.secondaries@[i])@ == other.secondaries@[i]@ by {
        assert(one@.secondaries[i] == other.secondaries@[i]@);
    }
}

/// Each part of the view of a lock is the field of that name.
pub proof fn law_lock_view_fields(lock: Lock)
    ensures
        lock@.lock_type == lock.lock_type,
        lock@.primary == lock.primary@,
        lock@.ts == lock.ts,
        lock@.ttl == lock.ttl,
        lock@.short_value is Some <==> lock.short_value is Some,
        lock.short_value is Some ==> lock@.short_value->0 == lock.short_value->0@,
        lock@.for_update_ts == lock.for_update_ts,
        lock@.txn_size == lock.txn_size,
        lock@.min_commit_ts == lock.min_commit_ts,
        lock@.use_async_commit == lock.use_async_commit,
        lock@.secondaries.len() == lock.secondaries@.len(),
        forall|i: int|
            0 <= i < lock.secondaries@.len() ==> lock@.secondaries[i]
                == (#[trigger] lock.secondaries@[i])@,
        lock@.rollback_ts == lock.rollback_ts@,
        lock@.last_change == lock.last_change,
        lock@.txn_source == lock.txn_source,
        lock@.is_locked_with_conflict == lock.is_locked_with_conflict,
        lock@.is_mem_buffer == lock.is_mem_buffer,
        lock@.mem_buffer_flags == lock.mem_buffer_flags,
        lock@.mem_buffer_value == lock.mem_buffer_value@,
{
}

/// The clone of a lock is the same lock, field by field.
pub proof fn law_cloned_lock(lock: Lock, res: Lock)
    requires
        call_ensures(<Lock as Clone>::clone, (&lock,), res),
    ensures
        res.lock_type == lock.lock_type,
        res.primary@ == lock.primary@,
        res.ts.0 == lock.ts.0,
        res.ttl == lock.ttl,
        res.short_value is Some <==> lock.short_value is Some,
        res.short_value is Some ==> res.short_value->0@ == lock.short_value->0@,
        res.for_update_ts.0 == lock.for_update_ts.0,
        res.txn_size == lock.txn_size,
        res.min_commit_ts.0 == lock.min_commit_ts.0,
        res.use_async_commit == lock.use_async_commit,
        res.secondaries@.len() == lock.secondaries@.len(),
        forall|i: int|
            0 <= i < res.secondaries@.len() ==> (#[trigger] res.secondaries@[i])@
                == lock.secondaries@[i]@,
        res.rollback_ts@ == lock.rollback_ts@,
        res.last_change == lock.last_change,
        res.txn_source == lock.txn_source,
        res.is_locked_with_conflict == lock.is_locked_with_conflict,
        res.is_mem_buffer == lock.is_mem_buffer,
        res.mem_buffer_flags == lock.mem_buffer_flags,
        res.mem_buffer_value@ == lock.mem_buffer_value@,
{
    law_lock_view(res, lock);
}

/// The contents of a list of locked keys are those of its items, in their
/// order.
pub proof fn law_key_locks(list: Seq<KeyLock>)
    ensures
        key_locks(list).len() == list.len(),
        forall|i: int|
            0 <= i < list.len() ==> key_locks(list)[i].key == (#[trigger] list[i]).key.encoded@
                && key_locks(list)[i].lock == list[i].lock@ && list[i]@ == key_locks(list)[i],
{
}

/// A new transaction has its start timestamp and no modifications.
pub proof fn law_new_txn(start_ts: TimeStamp, txn: MvccTxn)
    requires
        call_ensures(MvccTxn::new, (start_ts,), txn),
    ensures
        txn.start_ts.0 == start_ts.0,
        txn.modifies@.len() == 0,
        txn.new_locks@.len() == 0,
{
    law_key_locks(txn.modifies@);
    law_key_locks(txn.new_locks@);
}

/// A lock that is put is the last modification, under its key. It is the last
/// of the new locks too where it is new. What was there before stays.
pub proof fn law_put_lock(txn: &mut MvccTxn, key: Key, lock: Lock, is_new: bool)
    requires
        call_ensures(MvccTxn::put_lock, (txn, key, &lock, is_new), ()),
    ensures
        final(txn).start_ts.0 == old(txn).start_ts.0,
        final(txn).modifies@.drop_last() == old(txn).modifies@,
        final(txn).modifies@.len() == old(txn).modifies@.len() + 1,
        final(txn).modifies@.last().key.encoded@ == key.encoded@,
        final(txn).modifies@.last().lock@ == lock@,
        !is_new ==> final(txn).new_locks@ == old(txn).new_locks@,
        is_new ==> {
            &&& final(txn).new_locks@.drop_last() == old(txn).new_locks@
            &&& final(txn).new_locks@.len() == old(txn).new_locks@.len() + 1
            &&& final(txn).new_locks@.last().key.encoded@ == key.encoded@
            &&& final(txn).new_locks@.last().lock@ == lock@
        },
{
    law_key_locks(old(txn).modifies@);
    law_key_locks(final(txn).modifies@);
    law_key_locks(old(txn).new_locks@);
    law_key_locks(final(txn).new_locks@);
}

/// The new locks can be taken once; the modifications stay.
pub proof fn law_take_new_locks(txn: &mut MvccTxn, taken: Vec<KeyLock>)
    requires
        call_ensures(MvccTxn::take_new_locks, (txn,), taken),
    ensures
        taken@ == old(txn).new_locks@,
        final(txn).new_locks@.len() == 0,
        final(txn).modifies@ == old(txn).modifies@,
        final(txn).start_ts.0 == old(txn).start_ts.0,
{
}

/// The modifications are handed out as they were made.
pub proof fn law_into_modifies(txn: MvccTxn, modifies: Vec<KeyLock>)
    requires
        call_ensures(MvccTxn::into_modifies, (txn,), modifies),
    ensures
        modifies@ == txn.modifies@,
{
}

} // verus!
