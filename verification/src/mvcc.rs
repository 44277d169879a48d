//! The modifications that a command collects before they are written.

use vstd::prelude::*;

use crate::types::{Key, Lock, LockView, TimeStamp};

verus! {

/// A key and a lock on it.
#[derive(Debug, PartialEq, Eq)]
pub struct KeyLock {
    /// The locked key.
    pub key: Key,
    /// The lock.
    pub lock: Lock,
}

/// The mathematical content of a [`KeyLock`].
#[verifier::ext_equal]
pub struct KeyLockView {
    pub key: Seq<u8>,
    pub lock: LockView,
}

impl View for KeyLock {
    type V = KeyLockView;

    open spec fn view(&self) -> KeyLockView {
        KeyLockView { key: self.key@, lock: self.lock@ }
    }
}

/// The contents of a list of locked keys.
pub open spec fn key_locks(list: Seq<KeyLock>) -> Seq<KeyLockView> {
    Seq::new(list.len(), |i: int| list[i]@)
}

/// The modifications of one transaction, in the order in which they were made.
pub struct MvccTxn {
    /// The start timestamp of the transaction.
    pub start_ts: TimeStamp,
    /// The locks to write, each under its key.
    pub modifies: Vec<KeyLock>,
    /// Those of the locks that the transaction did not hold before.
    pub new_locks: Vec<KeyLock>,
}

impl MvccTxn {
    /// A transaction without modifications.
    pub fn new(start_ts: TimeStamp) -> (txn: Self)
        ensures
            txn.start_ts == start_ts,
            key_locks(txn.modifies@) == Seq::<KeyLockView>::empty(),
            key_locks(txn.new_locks@) == Seq::<KeyLockView>::empty(),
    {
        MvccTxn { start_ts, modifies: Vec::new(), new_locks: Vec::new() }
    }

    /// Adds the write of `lock` under `key`. A lock that the transaction did
    /// not hold before, `is_new`, is remembered as such.
    pub fn put_lock(&mut self, key: Key, lock: &Lock, is_new: bool)
        ensures
            final(self).start_ts == old(self).start_ts,
            key_locks(final(self).modifies@) == key_locks(old(self).modifies@).push(
                (KeyLockView { key: key@, lock: lock@ }),
            ),
            final(self).modifies@.drop_last() == old(self).modifies@,
            is_new ==> final(self).new_locks@.drop_last() == old(self).new_locks@,
            !is_new ==> final(self).new_locks@ == old(self).new_locks@,
            key_locks(final(self).new_locks@) == if is_new {
                key_locks(old(self).new_locks@).push((KeyLockView { key: key@, lock: lock@ }))
            } else {
                key_locks(old(self).new_locks@)
            },
    {
        if is_new {
            self.new_locks.push(KeyLock { key: key.clone(), lock: lock.clone() });
        }
        self.modifies.push(KeyLock { key, lock: lock.clone() });
    }

    /// Hands out the new locks and forgets them.
    pub fn take_new_locks(&mut self) -> (new_locks: Vec<KeyLock>)
        ensures
            new_locks@ == old(self).new_locks@,
            final(self).new_locks@ == Seq::<KeyLock>::empty(),
            final(self).modifies == old(self).modifies,
            final(self).start_ts == old(self).start_ts,
    {
        let mut new_locks: Vec<KeyLock> = Vec::new();
        std::mem::swap(&mut new_locks, &mut self.new_locks);
        new_locks
    }

    /// Hands out the modifications.
    pub fn into_modifies(self) -> (modifies: Vec<KeyLock>)
        ensures
            modifies == self.modifies,
    {
        self.modifies
    }
}

} // verus!
