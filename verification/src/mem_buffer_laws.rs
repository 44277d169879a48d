//! What holds of the command that stores buffered writes as a whole.

use vstd::prelude::*;

use crate::lock_laws::{law_key_locks, law_lock_view_fields};
use crate::mem_buffer_set::{
    encoded_bytes, free_keys, is_free, passes, report_conflict, MemBufferSet, ProcessResult,
    Refusal, ResponsePolicy, WriteError, WriteResult,
};
use crate::mvcc::{KeyLockView, MvccTxn};
use crate::types::{Key, LastChange, Lock, LockType, TimeStamp};

verus! {

/// The positions of the keys found free come in ascending order, each once,
/// and are all of them.
pub proof fn law_free_keys<E>(replies: Seq<Result<Option<Lock>, E>>)
    ensures
        forall|a: int, b: int|
            0 <= a < b < free_keys(replies).len() ==> #[trigger] free_keys(replies)[a]
                < #[trigger] free_keys(replies)[b],
        forall|i: int| #[trigger]
            free_keys(replies).contains(i) <==> 0 <= i < replies.len() && replies[i] == (Ok::<
                Option<Lock>,
                E,
            >(None)),
    decreases replies.len(),
{
    if replies.len() > 0 {
        let shorter = replies.drop_last();
        let last = replies.len() - 1;
        law_free_keys(shorter);
        let positions = free_keys(replies);
        let fewer = free_keys(shorter);
        assert forall|a: int| 0 <= a < fewer.len() implies #[trigger] fewer[a] < last by {
            assert(fewer.contains(fewer[a]));
        }
        assert forall|i: int| #[trigger] positions.contains(i) <==> 0 <= i < replies.len()
            && replies[i] == (Ok::<Option<Lock>, E>(None)) by {
            if is_free(replies.last()) {
                if fewer.contains(i) {
                    let a = choose|a: int| 0 <= a < fewer.len() && fewer[a] == i;
                    assert(positions[a] == i);
                }
                assert(positions[fewer.len() as int] == last);
            }
        }
    }
}

/// The command writes exactly the keys found free. A key that the transaction
/// has locked already is left as it is.
pub proof fn law_free_keys_are_written<C, E>(
    command: MemBufferSet<C>,
    replies: Seq<Result<Option<Lock>, E>>,
    write: KeyLockView,
)
    ensures
        command.writes(replies).contains(write) <==> exists|i: int|
            0 <= i < replies.len() && (#[trigger] replies[i]) == (Ok::<Option<Lock>, E>(None)) && write == command.buffered(
                i,
            ),
{
    law_free_keys(replies);
    let positions = free_keys(replies);
    let writes = command.writes(replies);
    if writes.contains(write) {
        let a = choose|a: int| 0 <= a < writes.len() && writes[a] == write;
        let i = positions[a];
        assert(positions.contains(i));
    }
    if exists|i: int|
        0 <= i < replies.len() && (#[trigger] replies[i]) == (Ok::<Option<Lock>, E>(None)) && write == command.buffered(i) {
        let i = choose|i: int|
            0 <= i < replies.len() && (#[trigger] replies[i]) == (Ok::<Option<Lock>, E>(None)) && write == command.buffered(
                i,
            );
        assert(positions.contains(i));
        let a = choose|a: int| 0 <= a < positions.len() && positions[a] == i;
        assert(writes[a] == write);
    }
}

/// Every lock that the command writes is on one of its keys that was found
/// free, and carries the value and the flags that came with that key, whole. It
/// names the primary key of the command, and is a deletion where the buffered
/// value is empty and a put where it is not.
pub proof fn law_written_locks<C, E>(
    command: MemBufferSet<C>,
    replies: Seq<Result<Option<Lock>, E>>,
    n: int,
)
    requires
        0 <= n < command.writes(replies).len(),
    ensures
        ({
            let lock = command.writes(replies)[n].lock;
            let i = free_keys(replies)[n];
            &&& 0 <= i < replies.len() && replies[i] == (Ok::<Option<Lock>, E>(None))
            &&& command.writes(replies)[n].key == command.keys@[i].encoded@
            &&& lock.mem_buffer_value == command.values@[i]@
            &&& lock.mem_buffer_flags == command.flags@[i]
            &&& lock.primary == command.primary@
            &&& lock.lock_type == if lock.mem_buffer_value.len() == 0 {
                LockType::Delete
            } else {
                LockType::Put
            }
        }),
{
    law_free_keys(replies);
    assert(free_keys(replies).contains(free_keys(replies)[n]));
}

/// A command succeeds if and only if no answer stops it; one that is refused
/// leaves nothing to be done.
pub proof fn law_success<C, E, D: Fn(&Key) -> Result<Vec<u8>, E>>(
    command: MemBufferSet<C>,
    replies: Seq<Result<Option<Lock>, E>>,
    to_raw: D,
    res: Result<WriteResult<C>, WriteError<E>>,
)
    requires
        command.answers(replies),
        command.results_in(replies, to_raw, res),
    ensures
        res is Ok <==> forall|i: int|
            0 <= i < replies.len() ==> match #[trigger] replies[i] {
                Ok(Some(lock)) => lock.ts.0 == command.start_ts.0,
                Ok(None) => true,
                Err(_) => false,
            },
        res is Ok ==> replies.len() == command.keys@.len(),
{
    law_own_locks_and_free_keys_pass::<E>(command.start_ts);
    if res is Ok {
        assert forall|i: int| 0 <= i < replies.len() implies match #[trigger] replies[i] {
            Ok(Some(lock)) => lock.ts.0 == command.start_ts.0,
            Ok(None) => true,
            Err(_) => false,
        } by {
            assert(passes(command.start_ts, replies[i]));
        }
    }
}

/// The answers that let a command go on are these: the key is not locked, or it
/// holds a lock with the start timestamp of the command, of whatever type.
pub proof fn law_own_locks_and_free_keys_pass<E>(start_ts: TimeStamp)
    ensures
        passes(start_ts, Ok::<Option<Lock>, E>(None)),
        forall|lock: Lock| #[trigger]
            passes(start_ts, Ok::<Option<Lock>, E>(Some(lock))) <==> lock.ts.0 == start_ts.0,
        forall|err: E| !#[trigger] passes(start_ts, Err::<Option<Lock>, E>(err)),
{
}

/// A command that finds all of its keys locked by its own transaction succeeds
/// without writing anything.
pub proof fn law_own_locks_are_left<C, E>(
    command: MemBufferSet<C>,
    replies: Seq<Result<Option<Lock>, E>>,
)
    requires
        forall|i: int|
            0 <= i < replies.len() ==> ((#[trigger] replies[i]) matches Ok(held) && held is Some
                && held->0.ts == command.start_ts),
    ensures
        !command.is_stopped(replies),
        command.writes(replies).len() == 0,
{
    law_free_keys(replies);
    if command.writes(replies).len() > 0 {
        let i = free_keys(replies)[0];
        assert(free_keys(replies).contains(i));
    }
}

/// Nothing after the first answer that stops the command has a bearing on it:
/// two lists of answers to the same command that agree as far as both go are
/// the same list.
pub proof fn law_first_refusal_decides<C, E>(
    command: MemBufferSet<C>,
    one: Seq<Result<Option<Lock>, E>>,
    another: Seq<Result<Option<Lock>, E>>,
)
    requires
        command.answers(one),
        command.answers(another),
        forall|i: int|
            0 <= i < one.len() && i < another.len() ==> #[trigger] one[i] == #[trigger] another[i],
    ensures
        one == another,
{
    if one.len() < another.len() {
        assert(passes(command.start_ts, another[one.len() - 1]));
    } else if another.len() < one.len() {
        assert(passes(command.start_ts, one[another.len() - 1]));
    }
}

/// The locks that the command writes carry no start timestamp. So a later
/// command that finds one of them takes it for another transaction's, unless
/// its own start timestamp is zero.
pub proof fn law_written_lock_stops_later_command<C, E>(
    command: MemBufferSet<C>,
    replies: Seq<Result<Option<Lock>, E>>,
    n: int,
    lock: Lock,
    start_ts: TimeStamp,
)
    requires
        0 <= n < command.writes(replies).len(),
        lock@ == command.writes(replies)[n].lock,
    ensures
        passes(start_ts, Ok::<Option<Lock>, E>(Some(lock))) <==> start_ts == TimeStamp(0),
{
}

/// The answers in a run of the command, given that the call was answered with
/// `res`. They were loaded from the first key on. Each but the last is that the
/// key is not locked or is locked by the transaction itself. The command
/// succeeds if and only if that holds of every key. Otherwise it is refused for
/// the last key that it asked for: with the error of loading its lock, or with
/// the very lock of the other transaction under the name that the key was
/// decoded to, or with the error of decoding it.
pub proof fn law_run<
    C,
    E,
    F: Fn(&Key) -> Result<Option<Lock>, E>,
    D: Fn(&Key) -> Result<Vec<u8>, E>,
>(
    command: MemBufferSet<C>,
    load_lock: F,
    to_raw: D,
    res: Result<WriteResult<C>, WriteError<E>>,
) -> (replies: Seq<Result<Option<Lock>, E>>)
    requires
        call_ensures(
            MemBufferSet::<C>::process_write::<E, F, D>,
            (command, load_lock, to_raw),
            res,
        ),
    ensures
        replies.len() <= command.keys@.len(),
        forall|i: int|
            0 <= i < replies.len() ==> call_ensures(
                load_lock,
                (&command.keys@[i],),
                #[trigger] replies[i],
            ),
        forall|i: int|
            0 <= i < replies.len() - 1 ==> match #[trigger] replies[i] {
                Ok(Some(lock)) => lock.ts.0 == command.start_ts.0,
                Ok(None) => true,
                Err(_) => false,
            },
        res is Ok <==> replies.len() == command.keys@.len() && forall|i: int|
            0 <= i < replies.len() ==> match #[trigger] replies[i] {
                Ok(Some(lock)) => lock.ts.0 == command.start_ts.0,
                Ok(None) => true,
                Err(_) => false,
            },
        res is Err ==> replies.len() > 0 && match replies.last() {
            Ok(Some(lock)) => {
                &&& lock.ts.0 != command.start_ts.0
                &&& exists|raw_key: Result<Vec<u8>, E>| #[trigger]
                    call_ensures(to_raw, (&command.keys@[replies.len() - 1],), raw_key)
                        && match raw_key {
                        Ok(key) => match res->Err_0 {
                            WriteError::KeyIsLocked(info) => info.lock == lock && info.key == key,
                            _ => false,
                        },
                        Err(err) => res->Err_0 == WriteError::DecodeKey(err),
                    }
            },
            Ok(None) => false,
            Err(err) => res->Err_0 == WriteError::LoadLock(err),
        },
{
    let replies = choose|replies: Seq<Result<Option<Lock>, E>>|
        {
            &&& #[trigger] command.loaded(load_lock, replies)
            &&& command.answers(replies)
            &&& command.results_in(replies, to_raw, res)
        };
    law_own_locks_and_free_keys_pass::<E>(command.start_ts);
    law_success(command, replies, to_raw, res);
    assert forall|i: int| 0 <= i < replies.len() - 1 implies match #[trigger] replies[i] {
        Ok(Some(lock)) => lock.ts.0 == command.start_ts.0,
        Ok(None) => true,
        Err(_) => false,
    } by {
        assert(passes(command.start_ts, replies[i]));
    }
    replies
}

/// The answers in a run of the command that succeeded, and the positions of the
/// keys that were found free, in ascending order. For each of these positions
/// one lock is written and one is reported as acquired, in this order and no
/// others. It is on the key at the position, holds the flags and the value at
/// the position and the primary key of the command, and nothing else.
pub proof fn law_writes<
    C,
    E,
    F: Fn(&Key) -> Result<Option<Lock>, E>,
    D: Fn(&Key) -> Result<Vec<u8>, E>,
>(
    command: MemBufferSet<C>,
    load_lock: F,
    to_raw: D,
    result: WriteResult<C>,
) -> (run: (Seq<Result<Option<Lock>, E>>, Seq<int>))
    requires
        call_ensures(
            MemBufferSet::<C>::process_write::<E, F, D>,
            (command, load_lock, to_raw),
            Ok::<WriteResult<C>, WriteError<E>>(result),
        ),
    ensures
        run.0.len() == command.keys@.len(),
        forall|i: int|
            0 <= i < run.0.len() ==> call_ensures(
                load_lock,
                (&command.keys@[i],),
                #[trigger] run.0[i],
            ),
        forall|a: int, b: int|
            0 <= a < b < run.1.len() ==> #[trigger] run.1[a] < #[trigger] run.1[b],
        forall|i: int| #[trigger]
            run.1.contains(i) <==> 0 <= i < run.0.len() && run.0[i] == (Ok::<Option<Lock>, E>(
                None,
            )),
        result.to_be_write@.len() == run.1.len(),
        forall|n: int|
            0 <= n < run.1.len() ==> {
                let write = #[trigger] result.to_be_write@[n];
                let lock = write.lock;
                let i = run.1[n];
                &&& write.key.encoded@ == command.keys@[i].encoded@
                &&& command.values@[i]@.len() == 0 ==> lock.lock_type == LockType::Delete
                &&& command.values@[i]@.len() > 0 ==> lock.lock_type == LockType::Put
                &&& lock.primary@ == command.primary@
                &&& lock.ts.0 == 0
                &&& lock.ttl == 0
                &&& lock.short_value is None
                &&& lock.for_update_ts.0 == 0
                &&& lock.txn_size == 0
                &&& lock.min_commit_ts.0 == 0
                &&& !lock.use_async_commit
                &&& lock.secondaries@.len() == 0
                &&& lock.rollback_ts@.len() == 0
                &&& lock.last_change == LastChange::Unknown
                &&& lock.txn_source == 0
                &&& !lock.is_locked_with_conflict
                &&& !lock.is_mem_buffer
                &&& lock.mem_buffer_flags == command.flags@[i]
                &&& lock.mem_buffer_value@ == command.values@[i]@
            },
        result.new_acquired_locks@.len() == run.1.len(),
        forall|n: int|
            0 <= n < run.1.len() ==> (#[trigger] result.new_acquired_locks@[n]).key.encoded@
                == result.to_be_write@[n].key.encoded@ && result.new_acquired_locks@[n].lock@
                == result.to_be_write@[n].lock@,
{
    let res: Result<WriteResult<C>, WriteError<E>> = Ok(result);
    let replies = choose|replies: Seq<Result<Option<Lock>, E>>|
        {
            &&& #[trigger] command.loaded(load_lock, replies)
            &&& command.answers(replies)
            &&& command.results_in(replies, to_raw, res)
        };
    let positions = free_keys(replies);
    law_success(command, replies, to_raw, res);
    law_free_keys(replies);
    law_key_locks(result.to_be_write@);
    law_key_locks(result.new_acquired_locks@);
    assert forall|n: int| 0 <= n < positions.len() implies (
    #[trigger] result.to_be_write@[n])@ == command.buffered(positions[n])
        && result.to_be_write@[n].lock.secondaries@.len() == 0 by {
        law_lock_view_fields(result.to_be_write@[n].lock);
        assert(command.writes(replies)[n] == command.buffered(positions[n]));
    }
    assert forall|n: int| 0 <= n < positions.len() implies (
    #[trigger] result.new_acquired_locks@[n])@ == result.to_be_write@[n]@ by {
        assert(command.writes(replies)[n] == command.buffered(positions[n]));
    }
    (replies, positions)
}

/// What else a command that succeeded leaves: its context, the number of all of
/// its keys, written or not, and an answer to the client that it succeeded, to
/// be given when the write is applied. It waits for no lock and releases none.
pub proof fn law_rest_of_result<
    C,
    E,
    F: Fn(&Key) -> Result<Option<Lock>, E>,
    D: Fn(&Key) -> Result<Vec<u8>, E>,
>(command: MemBufferSet<C>, load_lock: F, to_raw: D, result: WriteResult<C>)
    requires
        call_ensures(
            MemBufferSet::<C>::process_write::<E, F, D>,
            (command, load_lock, to_raw),
            Ok::<WriteResult<C>, WriteError<E>>(result),
        ),
    ensures
        result.ctx == command.ctx,
        result.rows == command.keys@.len(),
        result.pr == ProcessResult::Res,
        result.lock_info@.len() == 0,
        result.released_locks@.len() == 0,
        result.lock_guards@.len() == 0,
        result.response_policy == ResponsePolicy::OnApplied,
        result.known_txn_status@.len() == 0,
{
}

/// On keys whose locks are settled, the command succeeds if and only if no key
/// holds a lock with another start timestamp. Then every key without a lock is
/// written with its whole value and its flags, and no other key is. Otherwise
/// the first key with such a lock is reported, with its lock and its name, or
/// the error of decoding its name is.
pub proof fn law_settled_locks<
    C,
    E,
    F: Fn(&Key) -> Result<Option<Lock>, E>,
    D: Fn(&Key) -> Result<Vec<u8>, E>,
>(
    command: MemBufferSet<C>,
    load_lock: F,
    to_raw: D,
    res: Result<WriteResult<C>, WriteError<E>>,
    locks: Seq<Option<Lock>>,
    first: int,
)
    requires
        call_ensures(
            MemBufferSet::<C>::process_write::<E, F, D>,
            (command, load_lock, to_raw),
            res,
        ),
        locks.len() == command.keys@.len(),
        forall|i: int, reply: Result<Option<Lock>, E>|
            0 <= i < locks.len() && #[trigger] call_ensures(
                load_lock,
                (&command.keys@[i],),
                reply,
            ) ==> reply == (Ok::<Option<Lock>, E>(locks[i])),
        0 <= first <= locks.len(),
        forall|i: int|
            0 <= i < first ==> ((#[trigger] locks[i]) is Some ==> locks[i]->0.ts.0
                == command.start_ts.0),
        first < locks.len() ==> locks[first] is Some && locks[first]->0.ts.0
            != command.start_ts.0,
    ensures
        res is Ok <==> first == locks.len(),
        res matches Ok(result) ==> {
            &&& forall|i: int|
                0 <= i < locks.len() && (#[trigger] locks[i]) is None ==> exists|n: int|
                    0 <= n < result.to_be_write@.len() && (
                    #[trigger] result.to_be_write@[n]).key.encoded@ == command.keys@[i].encoded@
                        && result.to_be_write@[n].lock.mem_buffer_value@ == command.values@[i]@
                        && result.to_be_write@[n].lock.mem_buffer_flags == command.flags@[i]
            &&& forall|n: int|
                0 <= n < result.to_be_write@.len() ==> exists|i: int|
                    0 <= i < locks.len() && (#[trigger] locks[i]) is None && (
                    #[trigger] result.to_be_write@[n]).key.encoded@ == command.keys@[i].encoded@
                        && result.to_be_write@[n].lock.mem_buffer_value@ == command.values@[i]@
                        && result.to_be_write@[n].lock.mem_buffer_flags == command.flags@[i]
        },
        res matches Err(err) ==> match err {
            WriteError::KeyIsLocked(info) => info.lock == locks[first]->0 && call_ensures(
                to_raw,
                (&command.keys@[first],),
                Ok::<Vec<u8>, E>(info.key),
            ),
            WriteError::DecodeKey(err) => call_ensures(
                to_raw,
                (&command.keys@[first],),
                Err::<Vec<u8>, E>(err),
            ),
            WriteError::LoadLock(_) => false,
        },
{
    let replies = law_run(command, load_lock, to_raw, res);
    assert forall|i: int| 0 <= i < replies.len() implies (#[trigger] replies[i]) == (Ok::<
        Option<Lock>,
        E,
    >(locks[i])) by {
        assert(call_ensures(load_lock, (&command.keys@[i],), replies[i]));
    }
    if res is Ok {
        if first < locks.len() {
            assert(replies[first] == (Ok::<Option<Lock>, E>(locks[first])));
        }
        let result = res->Ok_0;
        let (answers, positions) = law_writes(command, load_lock, to_raw, result);
        assert forall|i: int| 0 <= i < answers.len() implies (#[trigger] answers[i]) == (Ok::<
            Option<Lock>,
            E,
        >(locks[i])) by {
            assert(call_ensures(load_lock, (&command.keys@[i],), answers[i]));
        }
        assert forall|i: int|
            0 <= i < locks.len() && (#[trigger] locks[i]) is None implies exists|n: int|
            0 <= n < result.to_be_write@.len() && (
            #[trigger] result.to_be_write@[n]).key.encoded@ == command.keys@[i].encoded@
                && result.to_be_write@[n].lock.mem_buffer_value@ == command.values@[i]@
                && result.to_be_write@[n].lock.mem_buffer_flags == command.flags@[i] by {
            assert(answers[i] == (Ok::<Option<Lock>, E>(locks[i])));
            assert(positions.contains(i));
            let n = choose|n: int| 0 <= n < positions.len() && positions[n] == i;
            assert(result.to_be_write@[n].key.encoded@ == command.keys@[i].encoded@);
        }
        assert forall|n: int| 0 <= n < result.to_be_write@.len() implies exists|i: int|
            0 <= i < locks.len() && (#[trigger] locks[i]) is None && (
            #[trigger] result.to_be_write@[n]).key.encoded@ == command.keys@[i].encoded@
                && result.to_be_write@[n].lock.mem_buffer_value@ == command.values@[i]@
                && result.to_be_write@[n].lock.mem_buffer_flags == command.flags@[i] by {
            let i = positions[n];
            assert(positions.contains(i));
            assert(answers[i] == (Ok::<Option<Lock>, E>(locks[i])));
            assert(locks[i] is None);
        }
    } else {
        let last = replies.len() - 1;
        assert(replies[last] == (Ok::<Option<Lock>, E>(locks[last])));
        if first < last {
            assert(replies[first] == (Ok::<Option<Lock>, E>(locks[first])));
        }
    }
}

/// The command can be run on any keys of which each comes with flags and a
/// value. Keys that are never found free may do without, and so may the keys
/// after one, at `stop`, that always stops the command.
pub proof fn law_command_can_run<
    C,
    E,
    F: Fn(&Key) -> Result<Option<Lock>, E>,
    D: Fn(&Key) -> Result<Vec<u8>, E>,
>(command: MemBufferSet<C>, load_lock: F, to_raw: D, stop: int)
    requires
        forall|i: int|
            0 <= i < command.keys@.len() ==> #[trigger] call_requires(
                load_lock,
                (&command.keys@[i],),
            ),
        forall|i: int|
            0 <= i < command.keys@.len() ==> #[trigger] call_requires(
                to_raw,
                (&command.keys@[i],),
            ),
        0 <= stop <= command.keys@.len(),
        stop < command.keys@.len() ==> forall|reply: Result<Option<Lock>, E>| #[trigger]
            call_ensures(load_lock, (&command.keys@[stop],), reply) ==> match reply {
                Ok(Some(lock)) => lock.ts.0 != command.start_ts.0,
                Ok(None) => false,
                Err(_) => true,
            },
        forall|i: int, reply: Result<Option<Lock>, E>|
            0 <= i < stop && (i >= command.flags@.len() || i >= command.values@.len())
                && #[trigger] call_ensures(load_lock, (&command.keys@[i],), reply) ==> reply != (
            Ok::<Option<Lock>, E>(None)),
    ensures
        call_requires(
            MemBufferSet::<C>::process_write::<E, F, D>,
            (command, load_lock, to_raw),
        ),
{
    law_own_locks_and_free_keys_pass::<E>(command.start_ts);
    assert forall|i: int| 0 <= i < command.keys@.len() implies #[trigger] command.has_value(i)
        || command.never_free(load_lock, i) || exists|j: int|
        0 <= j < i && #[trigger] command.never_passes(load_lock, j) by {
        if i > stop {
            assert(command.never_passes(load_lock, stop));
        }
    }
    assert(command.has_values(load_lock));
}

/// A key with a lock of another transaction is reported with this lock and the
/// name that the key was decoded to; where decoding failed, its error is.
pub proof fn law_conflict_names_lock_and_key<E>(
    lock: Lock,
    raw_key: Result<Vec<u8>, E>,
    err: WriteError<E>,
)
    requires
        call_ensures(report_conflict::<E>, (lock, raw_key), err),
    ensures
        err !is LoadLock,
        err is KeyIsLocked <==> raw_key is Ok,
        err matches WriteError::KeyIsLocked(info) ==> info.lock == lock && info.key
            == raw_key->Ok_0,
        err matches WriteError::DecodeKey(failure) ==> failure == raw_key->Err_0,
{
}

/// A reply stops the command if and only if it is an error or a lock with
/// another start timestamp, and is then handed back. Only a key without a lock
/// is written, as the last modification and the last new lock, with its flags
/// and its whole value.
pub proof fn law_taken_reply<C, E>(
    command: MemBufferSet<C>,
    i: usize,
    reply: Result<Option<Lock>, E>,
    txn: &mut MvccTxn,
    res: Result<(), Refusal<E>>,
)
    requires
        call_ensures(MemBufferSet::<C>::take_reply::<E>, (&command, i, reply, txn), res),
    ensures
        res is Ok <==> match reply {
            Ok(Some(lock)) => lock.ts.0 == command.start_ts.0,
            Ok(None) => true,
            Err(_) => false,
        },
        res matches Err(Refusal::Locked(lock)) ==> reply == (Ok::<Option<Lock>, E>(Some(lock))),
        res matches Err(Refusal::LoadLock(err)) ==> reply == (Err::<Option<Lock>, E>(err)),
        reply != (Ok::<Option<Lock>, E>(None)) ==> *final(txn) == *old(txn),
        reply == (Ok::<Option<Lock>, E>(None)) ==> {
            let modified = final(txn).modifies@.last();
            let acquired = final(txn).new_locks@.last();
            &&& final(txn).start_ts.0 == old(txn).start_ts.0
            &&& final(txn).modifies@.len() == old(txn).modifies@.len() + 1
            &&& final(txn).modifies@.drop_last() == old(txn).modifies@
            &&& modified.key.encoded@ == command.keys@[i as int].encoded@
            &&& modified.lock.primary@ == command.primary@
            &&& modified.lock.mem_buffer_flags == command.flags@[i as int]
            &&& modified.lock.mem_buffer_value@ == command.values@[i as int]@
            &&& modified.lock.lock_type == LockType::Delete <==> command.values@[i as int]@.len()
                == 0
            &&& modified.lock.lock_type == LockType::Put <==> command.values@[i as int]@.len() > 0
            &&& modified.lock.ts.0 == 0
            &&& modified.lock.ttl == 0
            &&& modified.lock.short_value is None
            &&& modified.lock.for_update_ts.0 == 0
            &&& modified.lock.txn_size == 0
            &&& modified.lock.min_commit_ts.0 == 0
            &&& !modified.lock.use_async_commit
            &&& modified.lock.secondaries@.len() == 0
            &&& modified.lock.rollback_ts@.len() == 0
            &&& modified.lock.last_change == LastChange::Unknown
            &&& modified.lock.txn_source == 0
            &&& !modified.lock.is_locked_with_conflict
            &&& !modified.lock.is_mem_buffer
            &&& final(txn).new_locks@.len() == old(txn).new_locks@.len() + 1
            &&& final(txn).new_locks@.drop_last() == old(txn).new_locks@
            &&& acquired.key.encoded@ == modified.key.encoded@
            &&& acquired.lock@ == modified.lock@
        },
{
    law_key_locks(old(txn).modifies@);
    law_key_locks(final(txn).modifies@);
    law_key_locks(old(txn).new_locks@);
    law_key_locks(final(txn).new_locks@);
    if reply == (Ok::<Option<Lock>, E>(None)) {
        law_lock_view_fields(final(txn).modifies@.last().lock);
        assert(final(txn).modifies@.last()@ == command.buffered(i as int));
        assert(final(txn).new_locks@.last()@ == command.buffered(i as int));
    }
}

/// A reply can be handled for any key of the command. Only a key that was found
/// free has to come with flags and a value.
pub proof fn law_reply_can_be_taken<C, E>(
    command: MemBufferSet<C>,
    i: usize,
    reply: Result<Option<Lock>, E>,
    txn: &mut MvccTxn,
)
    requires
        i < command.keys@.len(),
        reply == (Ok::<Option<Lock>, E>(None)) ==> i < command.flags@.len() && i
            < command.values@.len(),
    ensures
        call_requires(MemBufferSet::<C>::take_reply::<E>, (&command, i, reply, txn)),
{
}

/// What a command leaves when all keys are handled: the modifications and new
/// locks that were collected, as they are, and its context and the number of
/// its keys.
pub proof fn law_collected_result<C>(
    command: MemBufferSet<C>,
    txn: MvccTxn,
    result: WriteResult<C>,
)
    requires
        call_ensures(MemBufferSet::<C>::into_result, (command, txn), result),
    ensures
        result.to_be_write@ == txn.modifies@,
        result.new_acquired_locks@ == txn.new_locks@,
        result.ctx == command.ctx,
        result.rows == command.keys@.len(),
        result.pr == ProcessResult::Res,
        result.lock_info@.len() == 0,
        result.released_locks@.len() == 0,
        result.lock_guards@.len() == 0,
        result.response_policy == ResponsePolicy::OnApplied,
        result.known_txn_status@.len() == 0,
{
}

/// The timestamp of a command is the start timestamp of its transaction.
pub proof fn law_command_timestamp<C>(command: MemBufferSet<C>, ts: TimeStamp)
    requires
        call_ensures(MemBufferSet::<C>::ts, (&command,), ts),
    ensures
        ts.0 == command.start_ts.0,
{
}

/// A command without keys counts for no bytes, and one more key adds the bytes
/// of its encoded form. So the bytes are those of all keys, and of nothing else.
pub proof fn law_write_bytes<C>(
    command: MemBufferSet<C>,
    bytes: usize,
    longer: MemBufferSet<C>,
    more_bytes: usize,
    key: Key,
)
    requires
        call_ensures(MemBufferSet::<C>::write_bytes, (&command,), bytes),
        call_ensures(MemBufferSet::<C>::write_bytes, (&longer,), more_bytes),
        longer.keys@ == command.keys@.push(key),
    ensures
        command.keys@.len() == 0 ==> bytes == 0,
        more_bytes == bytes + key.encoded@.len(),
        bytes == command.keys@.fold_left(0int, |sum: int, k: Key| sum + k.encoded@.len()),
{
    assert(longer.keys@.drop_last() =~= command.keys@);
    lemma_encoded_bytes(command.keys@);
}

/// The bytes of a command can be counted wherever their number fits.
pub proof fn law_write_bytes_can_be_counted<C>(command: MemBufferSet<C>)
    requires
        command.keys@.fold_left(0int, |sum: int, k: Key| sum + k.encoded@.len()) <= usize::MAX,
    ensures
        call_requires(MemBufferSet::<C>::write_bytes, (&command,)),
{
    lemma_encoded_bytes(command.keys@);
}

/// The encoded bytes are the sum of the lengths.
proof fn lemma_encoded_bytes(keys: Seq<Key>)
    ensures
        encoded_bytes(keys) == keys.fold_left(0int, |sum: int, k: Key| sum + k.encoded@.len()),
    decreases keys.len(),
{
    if keys.len() > 0 {
        lemma_encoded_bytes(keys.drop_last());
    }
}

} // verus!
