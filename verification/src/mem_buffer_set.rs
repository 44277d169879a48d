//! The command that stores the writes which a transaction has buffered in
//! memory, as locks on their keys.

use vstd::prelude::*;

use crate::mvcc::{key_locks, KeyLock, KeyLockView, MvccTxn};
use crate::types::{copy_bytes, Key, LastChange, Lock, LockType, LockView, TimeStamp};

verus! {

/// What a client is told of a command that ran.
#[derive(Clone, Copy, Debug, PartialEq, Eq, Structural)]
pub enum ProcessResult {
    /// It succeeded, with nothing to report.
    Res,
    /// It failed.
    Failed,
}

/// When the client of a write is answered.
#[derive(Clone, Copy, Debug, PartialEq, Eq, Structural)]
pub enum ResponsePolicy {
    /// When the write is applied.
    OnApplied,
    /// When the write is committed to the log.
    OnCommitted,
    /// When the write is proposed.
    OnProposed,
}

/// What a client is told of a lock in its way.
#[derive(Debug, PartialEq, Eq)]
pub struct LockInfo {
    /// The lock.
    pub lock: Lock,
    /// The locked key, as the client wrote it.
    pub key: Vec<u8>,
}

/// What a write command leaves to be done.
pub struct WriteResult<C> {
    /// The context of the request.
    pub ctx: C,
    /// The locks to write, each under its key.
    pub to_be_write: Vec<KeyLock>,
    /// The number of keys in the command.
    pub rows: usize,
    /// What the client is told.
    pub pr: ProcessResult,
    /// The locks that the command has to wait for.
    pub lock_info: Vec<LockInfo>,
    /// The keys whose locks the command released.
    pub released_locks: Vec<Key>,
    /// The locks that the command acquired.
    pub new_acquired_locks: Vec<KeyLock>,
    /// The keys whose locks in memory are held until the write is done.
    pub lock_guards: Vec<Key>,
    /// When the client is answered.
    pub response_policy: ResponsePolicy,
    /// Transactions found to be committed: start and commit timestamp.
    pub known_txn_status: Vec<(TimeStamp, TimeStamp)>,
}

/// Why a write command is refused. `E` is the error of the storage engine.
#[derive(Debug, PartialEq, Eq)]
pub enum WriteError<E> {
    /// The lock of a key could not be loaded.
    LoadLock(E),
    /// The name of a locked key could not be decoded.
    DecodeKey(E),
    /// A key is locked by another transaction.
    KeyIsLocked(LockInfo),
}

/// Why a key stops the command.
#[derive(Debug, PartialEq, Eq)]
pub enum Refusal<E> {
    /// Its lock could not be loaded.
    LoadLock(E),
    /// It holds this lock of another transaction.
    Locked(Lock),
}

/// Whether the answer to loading a lock is that there is none.
pub open spec fn is_free<E>(reply: Result<Option<Lock>, E>) -> bool {
    reply matches Ok(held) && held is None
}

/// Whether the command of transaction `start_ts` goes on after this answer:
/// the key is not locked, or is locked by the transaction itself.
pub open spec fn passes<E>(start_ts: TimeStamp, reply: Result<Option<Lock>, E>) -> bool {
    match reply {
        Ok(Some(lock)) => lock.ts == start_ts,
        Ok(None) => true,
        Err(_) => false,
    }
}

/// The positions of the answers that found no lock, in order.
pub open spec fn free_keys<E>(replies: Seq<Result<Option<Lock>, E>>) -> Seq<int>
    decreases replies.len(),
{
    if replies.len() == 0 {
        Seq::empty()
    } else if is_free(replies.last()) {
        free_keys(replies.drop_last()).push(replies.len() - 1)
    } else {
        free_keys(replies.drop_last())
    }
}

/// The error for a key with a lock of another transaction, given the outcome
/// of decoding the key.
pub open spec fn conflict<E>(lock: Lock, raw_key: Result<Vec<u8>, E>) -> WriteError<E> {
    match raw_key {
        Ok(key) => WriteError::KeyIsLocked(LockInfo { lock, key }),
        Err(err) => WriteError::DecodeKey(err),
    }
}

/// Reports a key with a lock of another transaction, given the outcome of
/// decoding the key.
pub fn report_conflict<E>(lock: Lock, raw_key: Result<Vec<u8>, E>) -> (err: WriteError<E>)
    ensures
        err == conflict(lock, raw_key),
{
    match raw_key {
        Ok(key) => WriteError::KeyIsLocked(LockInfo { lock, key }),
        Err(err) => WriteError::DecodeKey(err),
    }
}

/// The number of bytes in the encoded keys.
pub open spec fn encoded_bytes(keys: Seq<Key>) -> nat
    decreases keys.len(),
{
    if keys.len() == 0 {
        0
    } else {
        encoded_bytes(keys.drop_last()) + keys.last()@.len()
    }
}

/// Part of the keys have no more bytes than all of them.
proof fn lemma_encoded_bytes_grow(keys: Seq<Key>, n: int)
    requires
        0 <= n <= keys.len(),
    ensures
        encoded_bytes(keys.take(n)) <= encoded_bytes(keys),
    decreases keys.len(),
{
    if n < keys.len() {
        assert(keys.drop_last().take(n) =~= keys.take(n));
        lemma_encoded_bytes_grow(keys.drop_last(), n);
    } else {
        assert(keys.take(n) =~= keys);
    }
}

/// A request to store buffered writes. `C` is the context of the request,
/// which goes through unchanged.
///
/// The key at a position comes with the flags and the value at that position.
/// An empty value stands for a deletion.
pub struct MemBufferSet<C> {
    /// The context of the request.
    pub ctx: C,
    /// The start timestamp of the transaction.
    pub start_ts: TimeStamp,
    /// The primary key of the transaction.
    pub primary: Vec<u8>,
    /// The written keys.
    pub keys: Vec<Key>,
    /// The flags of the writes.
    pub flags: Vec<u16>,
    /// The written values.
    pub values: Vec<Vec<u8>>,
}

impl<C> MemBufferSet<C> {
    /// Whether the key at position `i` comes with flags and a value.
    pub open spec fn has_value(&self, i: int) -> bool {
        0 <= i < self.flags@.len() && i < self.values@.len()
    }

    /// The lock that holds the buffered write at position `i`.
    pub open spec fn buffered_lock(&self, i: int) -> LockView {
        LockView {
            lock_type: if self.values@[i]@.len() == 0 {
                LockType::Delete
            } else {
                LockType::Put
            },
            primary: self.primary@,
            ts: TimeStamp(0),
            ttl: 0,
            short_value: None,
            for_update_ts: TimeStamp(0),
            txn_size: 0,
            min_commit_ts: TimeStamp(0),
            use_async_commit: false,
            secondaries: Seq::empty(),
            rollback_ts: Seq::empty(),
            last_change: LastChange::Unknown,
            txn_source: 0,
            is_locked_with_conflict: false,
            is_mem_buffer: false,
            mem_buffer_flags: self.flags@[i],
            mem_buffer_value: self.values@[i]@,
        }
    }

    /// The write of the key at position `i`.
    pub open spec fn buffered(&self, i: int) -> KeyLockView {
        KeyLockView { key: self.keys@[i]@, lock: self.buffered_lock(i) }
    }

    /// The writes of the keys that were found free, in the order of the keys.
    pub open spec fn writes<E>(&self, replies: Seq<Result<Option<Lock>, E>>) -> Seq<KeyLockView> {
        free_keys(replies).map_values(|i: int| self.buffered(i))
    }

    /// Whether `replies` answer the keys as far as the command asks: from the
    /// first key on, up to the last key or the first answer that stops it.
    pub open spec fn answers<E>(&self, replies: Seq<Result<Option<Lock>, E>>) -> bool {
        &&& replies.len() <= self.keys@.len()
        &&& forall|i: int|
            0 <= i < replies.len() - 1 ==> #[trigger] passes(self.start_ts, replies[i])
        &&& replies.len() < self.keys@.len() ==> self.is_stopped(replies)
    }

    /// Whether the last of the answers stops the command.
    pub open spec fn is_stopped<E>(&self, replies: Seq<Result<Option<Lock>, E>>) -> bool {
        replies.len() > 0 && !passes(self.start_ts, replies.last())
    }

    /// Whether `result` is what the command leaves to be done, given the
    /// answers for all keys.
    pub open spec fn leaves<E>(
        &self,
        replies: Seq<Result<Option<Lock>, E>>,
        result: WriteResult<C>,
    ) -> bool {
        &&& result.ctx == self.ctx
        &&& key_locks(result.to_be_write@) == self.writes(replies)
        &&& result.rows == self.keys@.len()
        &&& result.pr == ProcessResult::Res
        &&& result.lock_info@.len() == 0
        &&& result.released_locks@.len() == 0
        &&& key_locks(result.new_acquired_locks@) == self.writes(replies)
        &&& result.lock_guards@.len() == 0
        &&& result.response_policy == ResponsePolicy::OnApplied
        &&& result.known_txn_status@.len() == 0
    }

    /// Whether `load_lock` may give these answers, in the order of the keys.
    pub open spec fn loaded<E, F: Fn(&Key) -> Result<Option<Lock>, E>>(
        &self,
        load_lock: F,
        replies: Seq<Result<Option<Lock>, E>>,
    ) -> bool {
        forall|i: int|
            0 <= i < replies.len() ==> call_ensures(
                load_lock,
                (&self.keys@[i],),
                #[trigger] replies[i],
            )
    }

    /// Whether the key at position `i` is never found free.
    pub open spec fn never_free<E, F: Fn(&Key) -> Result<Option<Lock>, E>>(
        &self,
        load_lock: F,
        i: int,
    ) -> bool {
        forall|reply: Result<Option<Lock>, E>|
            call_ensures(load_lock, (&self.keys@[i],), reply) ==> !is_free(reply)
    }

    /// Whether the key at position `i` always stops the command.
    pub open spec fn never_passes<E, F: Fn(&Key) -> Result<Option<Lock>, E>>(
        &self,
        load_lock: F,
        i: int,
    ) -> bool {
        forall|reply: Result<Option<Lock>, E>|
            call_ensures(load_lock, (&self.keys@[i],), reply) ==> !passes(self.start_ts, reply)
    }

    /// Whether every key that may have to be written comes with flags and a
    /// value. A key may do without where it is never found free, or where the
    /// command never gets to it.
    pub open spec fn has_values<E, F: Fn(&Key) -> Result<Option<Lock>, E>>(
        &self,
        load_lock: F,
    ) -> bool {
        forall|i: int|
            0 <= i < self.keys@.len() ==> #[trigger] self.has_value(i) || self.never_free(
                load_lock,
                i,
            ) || exists|j: int| 0 <= j < i && #[trigger] self.never_passes(load_lock, j)
    }

    /// Whether `res` is the outcome of the command after these answers.
    pub open spec fn results_in<E, D: Fn(&Key) -> Result<Vec<u8>, E>>(
        &self,
        replies: Seq<Result<Option<Lock>, E>>,
        to_raw: D,
        res: Result<WriteResult<C>, WriteError<E>>,
    ) -> bool {
        if self.is_stopped(replies) {
            match replies.last() {
                Err(err) => res == (Err::<WriteResult<C>, WriteError<E>>(
                    WriteError::LoadLock(err),
                )),
                Ok(Some(lock)) => exists|raw_key: Result<Vec<u8>, E>| #[trigger]
                    call_ensures(to_raw, (&self.keys@[replies.len() - 1],), raw_key) && res == (Err::<
                        WriteResult<C>,
                        WriteError<E>,
                    >(conflict(lock, raw_key))),
                Ok(None) => false,
            }
        } else {
            res matches Ok(result) && self.leaves(replies, result)
        }
    }

    /// The lock that holds the buffered write at position `i`.
    fn make_lock(&self, i: usize) -> (lock: Lock)
        requires
            self.has_value(i as int),
        ensures
            lock@ == self.buffered_lock(i as int),
    {
        let flag = self.flags[i];
        let value = copy_bytes(&self.values[i]);
        Lock {
            lock_type: if value.len() == 0 {
                LockType::Delete
            } else {
                LockType::Put
            },
            primary: copy_bytes(&self.primary),
            ts: Default::default(),
            ttl: 0,
            short_value: None,
            for_update_ts: Default::default(),
            txn_size: 0,
            min_commit_ts: Default::default(),
            use_async_commit: false,
            secondaries: Vec::new(),
            rollback_ts: Vec::new(),
            last_change: Default::default(),
            txn_source: 0,
            is_locked_with_conflict: false,
            is_mem_buffer: false,
            mem_buffer_flags: flag,
            mem_buffer_value: value,
        }
    }

    /// Handles the answer to loading the lock of the key at position `i`. A key
    /// that is not locked is written; one that the transaction has locked
    /// already stays as it is; any other answer stops the command.
    pub fn take_reply<E>(
        &self,
        i: usize,
        reply: Result<Option<Lock>, E>,
        txn: &mut MvccTxn,
    ) -> (res: Result<(), Refusal<E>>)
        requires
            i < self.keys@.len(),
            is_free(reply) ==> self.has_value(i as int),
        ensures
            res == match reply {
                Ok(Some(lock)) => if lock.ts == self.start_ts {
                    Ok(())
                } else {
                    Err(Refusal::Locked(lock))
                },
                Ok(None) => Ok(()),
                Err(err) => Err(Refusal::LoadLock(err)),
            },
            !is_free(reply) ==> *final(txn) == *old(txn),
            is_free(reply) ==> {
                &&& final(txn).start_ts == old(txn).start_ts
                &&& final(txn).modifies@.drop_last() == old(txn).modifies@
                &&& final(txn).new_locks@.drop_last() == old(txn).new_locks@
                &&& key_locks(final(txn).modifies@) == key_locks(old(txn).modifies@).push(
                    self.buffered(i as int),
                )
                &&& key_locks(final(txn).new_locks@) == key_locks(old(txn).new_locks@).push(
                    self.buffered(i as int),
                )
            },
    {
        match reply {
            Ok(Some(lock)) => {
                if lock.ts == self.start_ts {
                    return Ok(());
                }
                Err(Refusal::Locked(lock))
            },
            Ok(None) => {
                txn.put_lock(self.keys[i].clone(), &self.make_lock(i), true);
                Ok(())
            },
            Err(err) => Err(Refusal::LoadLock(err)),
        }
    }

    /// What the command leaves to be done once all keys are handled.
    pub fn into_result(self, txn: MvccTxn) -> (result: WriteResult<C>)
        ensures
            result.ctx == self.ctx,
            result.to_be_write == txn.modifies,
            result.rows == self.keys@.len(),
            result.pr == ProcessResult::Res,
            result.lock_info@.len() == 0,
            result.released_locks@.len() == 0,
            result.new_acquired_locks@ == txn.new_locks@,
            result.lock_guards@.len() == 0,
            result.response_policy == ResponsePolicy::OnApplied,
            result.known_txn_status@.len() == 0,
    {
        let mut txn = txn;
        let new_locks = txn.take_new_locks();
        let rows = self.keys.len();
        WriteResult {
            ctx: self.ctx,
            to_be_write: txn.into_modifies(),
            rows,
            pr: ProcessResult::Res,
            lock_info: Vec::new(),
            released_locks: Vec::new(),
            new_acquired_locks: new_locks,
            lock_guards: Vec::new(),
            response_policy: ResponsePolicy::OnApplied,
            known_txn_status: Vec::new(),
        }
    }

    /// Runs the command. `load_lock` loads the lock of a key, if it has one, and
    /// `to_raw` decodes a key into what the client wrote.
    ///
    /// The keys are handled in order. The first whose lock cannot be loaded or
    /// belongs to another transaction stops the command, and the keys after it
    /// are not looked at.
    pub fn process_write<
        E,
        F: Fn(&Key) -> Result<Option<Lock>, E>,
        D: Fn(&Key) -> Result<Vec<u8>, E>,
    >(self, load_lock: F, to_raw: D) -> (res: Result<WriteResult<C>, WriteError<E>>)
        requires
            forall|i: int|
                0 <= i < self.keys@.len() ==> #[trigger] call_requires(
                    load_lock,
                    (&self.keys@[i],),
                ),
            forall|i: int|
                0 <= i < self.keys@.len() ==> #[trigger] call_requires(to_raw, (&self.keys@[i],)),
            self.has_values(load_lock),
        ensures
            exists|replies: Seq<Result<Option<Lock>, E>>|
                {
                    &&& #[trigger] self.loaded(load_lock, replies)
                    &&& self.answers(replies)
                    &&& self.results_in(replies, to_raw, res)
                },
    {
        let mut txn = MvccTxn::new(self.start_ts);
        let ghost mut replies: Seq<Result<Option<Lock>, E>> = Seq::empty();
        let n = self.keys.len();
        for i in 0..n
            invariant
                n == self.keys@.len(),
                forall|i: int|
                    0 <= i < self.keys@.len() ==> #[trigger] call_requires(
                        load_lock,
                        (&self.keys@[i],),
                    ),
                forall|i: int|
                    0 <= i < self.keys@.len() ==> #[trigger] call_requires(
                        to_raw,
                        (&self.keys@[i],),
                    ),
                self.has_values(load_lock),
                replies.len() == i,
                self.loaded(load_lock, replies),
                forall|j: int|
                    0 <= j < replies.len() ==> #[trigger] passes(self.start_ts, replies[j]),
                key_locks(txn.modifies@) == self.writes(replies),
                key_locks(txn.new_locks@) == self.writes(replies),
        {
            let reply = load_lock(&self.keys[i]);
            let ghost before = replies;
            proof {
                replies = replies.push(reply);
                assert(replies.drop_last() =~= before);
                assert(self.loaded(load_lock, replies));
                if is_free(reply) {
                    assert forall|j: int| 0 <= j < i implies !#[trigger] self.never_passes(
                        load_lock,
                        j,
                    ) by {
                        assert(passes(self.start_ts, before[j]));
                    }
                    assert(self.writes(replies) =~= self.writes(before).push(
                        self.buffered(i as int),
                    ));
                }
            }
            match self.take_reply(i, reply, &mut txn) {
                Ok(()) => {},
                Err(Refusal::LoadLock(err)) => {
                    return Err(WriteError::LoadLock(err));
                },
                Err(Refusal::Locked(lock)) => {
                    return Err(report_conflict(lock, to_raw(&self.keys[i])));
                },
            }
        }
        Ok(self.into_result(txn))
    }

    /// The timestamp of the command: that of its transaction.
    pub fn ts(&self) -> (ts: TimeStamp)
        ensures
            ts == self.start_ts,
    {
        self.start_ts
    }

    /// The number of bytes that the command counts for: those of its keys.
    pub fn write_bytes(&self) -> (bytes: usize)
        requires
            encoded_bytes(self.keys@) <= usize::MAX,
        ensures
            bytes == encoded_bytes(self.keys@),
    {
        let mut bytes: usize = 0;
        for i in 0..self.keys.len()
            invariant
                encoded_bytes(self.keys@) <= usize::MAX,
                bytes == encoded_bytes(self.keys@.take(i as int)),
        {
            proof {
                lemma_encoded_bytes_grow(self.keys@, i + 1);
                assert(self.keys@.take(i + 1).drop_last() =~= self.keys@.take(i as int));
            }
            bytes = bytes + self.keys[i].encoded.len();
        }
        assert(self.keys@.take(self.keys@.len() as int) =~= self.keys@);
        bytes
    }
}

} // verus!
