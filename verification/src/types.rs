//! Timestamps, keys and locks, and their mathematical views.

use vstd::prelude::*;

verus! {

/// A point in the order of transactions.
#[derive(Clone, Copy, Debug, PartialEq, Eq, Structural)]
pub struct TimeStamp(pub u64);

impl TimeStamp {
    /// The timestamp with the given number.
    pub fn new(ts: u64) -> (res: Self)
        ensures
            res == TimeStamp(ts),
    {
        TimeStamp(ts)
    }
}

/// The timestamp before all others, which stands for "none".
impl Default for TimeStamp {
    fn default() -> (res: Self)
        ensures
            res == TimeStamp(0),
    {
        TimeStamp(0)
    }
}

/// A copy of a byte string.
pub(crate) fn copy_bytes(bytes: &Vec<u8>) -> (res: Vec<u8>)
    ensures
        res@ == bytes@,
{
    bytes.clone()
}

/// A user key in the encoded form under which it is stored.
#[derive(Debug, PartialEq, Eq)]
pub struct Key {
    /// The encoded bytes.
    pub encoded: Vec<u8>,
}

impl View for Key {
    type V = Seq<u8>;

    open spec fn view(&self) -> Seq<u8> {
        self.encoded@
    }
}

impl Key {
    /// The key with the given encoded bytes.
    pub fn from_encoded(encoded: Vec<u8>) -> (res: Self)
        ensures
            res@ == encoded@,
    {
        Key { encoded }
    }
}

impl Clone for Key {
    fn clone(&self) -> (res: Self)
        ensures
            res@ == self@,
    {
        Key { encoded: copy_bytes(&self.encoded) }
    }
}

/// What a lock is held for.
#[derive(Clone, Copy, Debug, PartialEq, Eq, Structural)]
pub enum LockType {
    /// The key is to be written.
    Put,
    /// The key is to be deleted.
    Delete,
    /// The key is locked and keeps its value.
    Lock,
    /// The key is locked ahead of the decision what to do with it.
    Pessimistic,
}

/// What is known of the last change of the data under a lock.
#[derive(Clone, Copy, Debug, PartialEq, Eq, Structural)]
pub enum LastChange {
    /// Nothing is known.
    Unknown,
    /// The data has never been changed.
    NotExist,
    /// The data was last changed at a known version.
    Exist {
        /// The commit timestamp of the last change.
        last_change_ts: TimeStamp,
        /// About how many versions lie between the lock and that change.
        estimated_versions_to_last_change: u64,
    },
}

impl Default for LastChange {
    fn default() -> (res: Self)
        ensures
            res == LastChange::Unknown,
    {
        LastChange::Unknown
    }
}

/// A lock on a key.
#[derive(Debug, PartialEq, Eq)]
pub struct Lock {
    /// What the lock is held for.
    pub lock_type: LockType,
    /// The primary key of the transaction.
    pub primary: Vec<u8>,
    /// The start timestamp of the transaction.
    pub ts: TimeStamp,
    /// How long the lock lives, in milliseconds.
    pub ttl: u64,
    /// The value, where it is short enough to be kept in the lock.
    pub short_value: Option<Vec<u8>>,
    /// The timestamp up to which a pessimistic transaction has read the key.
    pub for_update_ts: TimeStamp,
    /// The number of keys in the transaction.
    pub txn_size: u64,
    /// The least timestamp at which the transaction may commit.
    pub min_commit_ts: TimeStamp,
    /// Whether the transaction commits asynchronously.
    pub use_async_commit: bool,
    /// The secondary keys of an asynchronous commit.
    pub secondaries: Vec<Vec<u8>>,
    /// The transactions whose rollback is recorded in the lock.
    pub rollback_ts: Vec<TimeStamp>,
    /// What is known of the last change of the data.
    pub last_change: LastChange,
    /// Where the transaction comes from.
    pub txn_source: u64,
    /// Whether the lock was taken in spite of a write conflict.
    pub is_locked_with_conflict: bool,
    /// Whether the lock stands for a memory buffer.
    pub is_mem_buffer: bool,
    /// The flags of the buffered value.
    pub mem_buffer_flags: u16,
    /// The buffered value.
    pub mem_buffer_value: Vec<u8>,
}

/// The mathematical content of a [`Lock`].
#[verifier::ext_equal]
pub struct LockView {
    pub lock_type: LockType,
    pub primary: Seq<u8>,
    pub ts: TimeStamp,
    pub ttl: u64,
    pub short_value: Option<Seq<u8>>,
    pub for_update_ts: TimeStamp,
    pub txn_size: u64,
    pub min_commit_ts: TimeStamp,
    pub use_async_commit: bool,
    pub secondaries: Seq<Seq<u8>>,
    pub rollback_ts: Seq<TimeStamp>,
    pub last_change: LastChange,
    pub txn_source: u64,
    pub is_locked_with_conflict: bool,
    pub is_mem_buffer: bool,
    pub mem_buffer_flags: u16,
    pub mem_buffer_value: Seq<u8>,
}

/// The contents of a list of byte strings.
pub open spec fn byte_strings(list: Seq<Vec<u8>>) -> Seq<Seq<u8>> {
    Seq::new(list.len(), |i: int| list[i]@)
}

impl View for Lock {
    type V = LockView;

    open spec fn view(&self) -> LockView {
        LockView {
            lock_type: self.lock_type,
            primary: self.primary@,
            ts: self.ts,
            ttl: self.ttl,
            short_value: match self.short_value {
                Some(value) => Some(value@),
                None => None,
            },
            for_update_ts: self.for_update_ts,
            txn_size: self.txn_size,
            min_commit_ts: self.min_commit_ts,
            use_async_commit: self.use_async_commit,
            secondaries: byte_strings(self.secondaries@),
            rollback_ts: self.rollback_ts@,
            last_change: self.last_change,
            txn_source: self.txn_source,
            is_locked_with_conflict: self.is_locked_with_conflict,
            is_mem_buffer: self.is_mem_buffer,
            mem_buffer_flags: self.mem_buffer_flags,
            mem_buffer_value: self.mem_buffer_value@,
        }
    }
}

/// A copy of a list of byte strings.
fn copy_byte_strings(list: &Vec<Vec<u8>>) -> (res: Vec<Vec<u8>>)
    ensures
        byte_strings(res@) == byte_strings(list@),
{
    let mut res: Vec<Vec<u8>> = Vec::new();
    for i in 0..list.len()
        invariant
            res@.len() == i,
            forall|j: int| 0 <= j < i ==> (#[trigger] res@[j])@ == list@[j]@,
    {
        res.push(copy_bytes(&list[i]));
    }
    res
}

/// A copy of a list of timestamps.
fn copy_timestamps(list: &Vec<TimeStamp>) -> (res: Vec<TimeStamp>)
    ensures
        res@ == list@,
{
    let mut res: Vec<TimeStamp> = Vec::new();
    for i in 0..list.len()
        invariant
            res@ == list@.take(i as int),
    {
        res.push(list[i]);
    }
    res
}

impl Clone for Lock {
    fn clone(&self) -> (res: Self)
        ensures
            res@ == self@,
    {
        Lock {
            lock_type: self.lock_type,
            primary: copy_bytes(&self.primary),
            ts: self.ts,
            ttl: self.ttl,
            short_value: match &self.short_value {
                Some(value) => Some(copy_bytes(value)),
                None => None,
            },
            for_update_ts: self.for_update_ts,
            txn_size: self.txn_size,
            min_commit_ts: self.min_commit_ts,
            use_async_commit: self.use_async_commit,
            secondaries: copy_byte_strings(&self.secondaries),
            rollback_ts: copy_timestamps(&self.rollback_ts),
            last_change: self.last_change,
            txn_source: self.txn_source,
            is_locked_with_conflict: self.is_locked_with_conflict,
            is_mem_buffer: self.is_mem_buffer,
            mem_buffer_flags: self.mem_buffer_flags,
            mem_buffer_value: copy_bytes(&self.mem_buffer_value),
        }
    }
}

} // verus!
