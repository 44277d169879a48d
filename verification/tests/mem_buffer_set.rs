use std::cell::RefCell;

use txn_storage::mem_buffer_set::{
    report_conflict, LockInfo, MemBufferSet, ProcessResult, Refusal, ResponsePolicy, WriteError,
    WriteResult,
};
use txn_storage::mvcc::{KeyLock, MvccTxn};
use txn_storage::types::{Key, LastChange, Lock, LockType, TimeStamp};

fn key(name: &str) -> Key {
    Key::from_encoded(name.as_bytes().to_vec())
}

fn lock_at(ts: u64) -> Lock {
    Lock {
        lock_type: LockType::Pessimistic,
        primary: b"other".to_vec(),
        ts: TimeStamp::new(ts),
        ttl: 3000,
        short_value: Some(b"short".to_vec()),
        for_update_ts: TimeStamp::new(ts + 1),
        txn_size: 4,
        min_commit_ts: TimeStamp::new(ts + 2),
        use_async_commit: true,
        secondaries: vec![b"s1".to_vec(), b"s2".to_vec()],
        rollback_ts: vec![TimeStamp::new(3), TimeStamp::new(4)],
        last_change: LastChange::Exist {
            last_change_ts: TimeStamp::new(2),
            estimated_versions_to_last_change: 9,
        },
        txn_source: 1,
        is_locked_with_conflict: true,
        is_mem_buffer: true,
        mem_buffer_flags: 8,
        mem_buffer_value: b"old".to_vec(),
    }
}

fn buffered(lock_type: LockType, flags: u16, value: &[u8]) -> Lock {
    Lock {
        lock_type,
        primary: b"primary".to_vec(),
        ts: TimeStamp::new(0),
        ttl: 0,
        short_value: None,
        for_update_ts: TimeStamp::new(0),
        txn_size: 0,
        min_commit_ts: TimeStamp::new(0),
        use_async_commit: false,
        secondaries: vec![],
        rollback_ts: vec![],
        last_change: LastChange::Unknown,
        txn_source: 0,
        is_locked_with_conflict: false,
        is_mem_buffer: false,
        mem_buffer_flags: flags,
        mem_buffer_value: value.to_vec(),
    }
}

fn command(start_ts: u64) -> MemBufferSet<&'static str> {
    MemBufferSet {
        ctx: "region 7",
        start_ts: TimeStamp::new(start_ts),
        primary: b"primary".to_vec(),
        keys: vec![key("k1"), key("k2"), key("k3")],
        flags: vec![1, 2, 3],
        values: vec![b"v1".to_vec(), vec![], b"v3".to_vec()],
    }
}

fn write(name: &str, lock: Lock) -> KeyLock {
    KeyLock { key: key(name), lock }
}

fn strip(key: &Key) -> Result<Vec<u8>, String> {
    Ok(key.encoded[1..].to_vec())
}

/// Runs the command on the given answers and returns the keys it asked for.
fn run(
    command: MemBufferSet<&'static str>,
    answers: Vec<Result<Option<Lock>, String>>,
) -> (Result<WriteResult<&'static str>, WriteError<String>>, Vec<Key>) {
    let answers = RefCell::new(answers.into_iter());
    let asked = RefCell::new(Vec::new());
    let res = command.process_write(
        |k: &Key| {
            asked.borrow_mut().push(k.clone());
            answers.borrow_mut().next().unwrap()
        },
        strip,
    );
    let asked = asked.into_inner();
    (res, asked)
}

#[test]
fn free_keys_are_written_in_order() {
    let (res, asked) = run(command(10), vec![Ok(None), Ok(None), Ok(None)]);
    assert_eq!(asked, vec![key("k1"), key("k2"), key("k3")]);
    let result = res.ok().unwrap();
    let writes = vec![
        write("k1", buffered(LockType::Put, 1, b"v1")),
        write("k2", buffered(LockType::Delete, 2, b"")),
        write("k3", buffered(LockType::Put, 3, b"v3")),
    ];
    assert_eq!(result.ctx, "region 7");
    assert_eq!(result.to_be_write, writes);
    assert_eq!(result.new_acquired_locks, writes);
    assert_eq!(result.rows, 3);
    assert_eq!(result.pr, ProcessResult::Res);
    assert!(result.lock_info.is_empty());
    assert!(result.released_locks.is_empty());
    assert!(result.lock_guards.is_empty());
    assert_eq!(result.response_policy, ResponsePolicy::OnApplied);
    assert!(result.known_txn_status.is_empty());
}

#[test]
fn own_locks_are_skipped_but_counted() {
    let (res, asked) = run(command(10), vec![Ok(None), Ok(Some(lock_at(10))), Ok(None)]);
    assert_eq!(asked.len(), 3);
    let result = res.ok().unwrap();
    assert_eq!(
        result.to_be_write,
        vec![
            write("k1", buffered(LockType::Put, 1, b"v1")),
            write("k3", buffered(LockType::Put, 3, b"v3")),
        ]
    );
    assert_eq!(result.new_acquired_locks, result.to_be_write);
    assert_eq!(result.rows, 3);
}

#[test]
fn a_command_with_only_own_locks_writes_nothing() {
    let own = || Ok(Some(lock_at(10)));
    let (res, _) = run(command(10), vec![own(), own(), own()]);
    let result = res.ok().unwrap();
    assert!(result.to_be_write.is_empty());
    assert!(result.new_acquired_locks.is_empty());
    assert_eq!(result.rows, 3);
}

#[test]
fn a_command_without_keys_succeeds() {
    let mut empty = command(10);
    empty.keys = vec![];
    let (res, asked) = run(empty, vec![]);
    let result = res.ok().unwrap();
    assert!(asked.is_empty());
    assert!(result.to_be_write.is_empty());
    assert_eq!(result.rows, 0);
}

#[test]
fn a_foreign_lock_stops_the_command() {
    let (res, asked) = run(command(10), vec![Ok(None), Ok(Some(lock_at(9)))]);
    assert_eq!(asked, vec![key("k1"), key("k2")]);
    assert_eq!(
        res.err().unwrap(),
        WriteError::KeyIsLocked(LockInfo { lock: lock_at(9), key: b"2".to_vec() })
    );
}

#[test]
fn a_lock_that_cannot_be_loaded_stops_the_command() {
    let (res, asked) = run(command(10), vec![Err("broken".to_string())]);
    assert_eq!(asked, vec![key("k1")]);
    assert_eq!(res.err().unwrap(), WriteError::LoadLock("broken".to_string()));
}

#[test]
fn a_foreign_lock_on_an_undecodable_key_is_reported_as_such() {
    let res = command(10).process_write(
        |_: &Key| Ok(Some(lock_at(11))),
        |_: &Key| Err::<Vec<u8>, String>("bad padding".to_string()),
    );
    assert_eq!(res.err().unwrap(), WriteError::DecodeKey("bad padding".to_string()));
}

#[test]
fn keys_that_are_not_written_need_no_value() {
    let mut short = command(10);
    short.flags = vec![1];
    short.values = vec![b"v1".to_vec()];
    let (res, _) = run(short, vec![Ok(None), Ok(Some(lock_at(10))), Ok(Some(lock_at(10)))]);
    assert_eq!(
        res.ok().unwrap().to_be_write,
        vec![write("k1", buffered(LockType::Put, 1, b"v1"))]
    );
}

#[test]
fn written_locks_stop_a_later_command() {
    let (res, _) = run(command(10), vec![Ok(None), Ok(None), Ok(None)]);
    let mut written = res.ok().unwrap().to_be_write;
    let lock = written.remove(0).lock;
    let (res, _) = run(command(10), vec![Ok(Some(lock.clone()))]);
    assert_eq!(
        res.err().unwrap(),
        WriteError::KeyIsLocked(LockInfo { lock: lock.clone(), key: b"1".to_vec() })
    );
    let (res, _) = run(command(0), vec![Ok(Some(lock)), Ok(None), Ok(None)]);
    assert_eq!(res.ok().unwrap().to_be_write.len(), 2);
}

#[test]
fn one_answer_at_a_time() {
    let command = command(10);
    let mut txn = MvccTxn::new(TimeStamp::new(10));
    assert_eq!(command.take_reply(1, Ok::<_, String>(None), &mut txn), Ok(()));
    assert_eq!(command.take_reply(0, Ok::<_, String>(Some(lock_at(10))), &mut txn), Ok(()));
    assert_eq!(
        command.take_reply(0, Ok::<_, String>(Some(lock_at(8))), &mut txn),
        Err(Refusal::Locked(lock_at(8)))
    );
    assert_eq!(
        command.take_reply(0, Err("gone".to_string()), &mut txn),
        Err(Refusal::LoadLock("gone".to_string()))
    );
    assert_eq!(txn.modifies, vec![write("k2", buffered(LockType::Delete, 2, b""))]);
    assert_eq!(txn.new_locks, txn.modifies);
    let result = command.into_result(txn);
    assert_eq!(result.to_be_write, vec![write("k2", buffered(LockType::Delete, 2, b""))]);
    assert_eq!(result.rows, 3);
}

#[test]
fn conflicts_carry_the_lock_and_the_decoded_key() {
    assert_eq!(
        report_conflict(lock_at(5), Ok::<_, String>(b"raw".to_vec())),
        WriteError::KeyIsLocked(LockInfo { lock: lock_at(5), key: b"raw".to_vec() })
    );
    assert_eq!(
        report_conflict(lock_at(5), Err("odd".to_string())),
        WriteError::DecodeKey("odd".to_string())
    );
}

#[test]
fn only_new_locks_are_remembered_as_new() {
    let mut txn = MvccTxn::new(TimeStamp::new(10));
    assert_eq!(txn.start_ts, TimeStamp::new(10));
    txn.put_lock(key("a"), &lock_at(1), false);
    txn.put_lock(key("b"), &lock_at(2), true);
    assert_eq!(txn.take_new_locks(), vec![write("b", lock_at(2))]);
    assert_eq!(txn.take_new_locks(), vec![]);
    assert_eq!(txn.into_modifies(), vec![write("a", lock_at(1)), write("b", lock_at(2))]);
}

#[test]
fn the_command_counts_its_key_bytes_and_knows_its_timestamp() {
    let mut command = command(10);
    assert_eq!(command.ts(), TimeStamp::new(10));
    assert_eq!(command.write_bytes(), 6);
    command.keys.push(key("longer key"));
    assert_eq!(command.write_bytes(), 16);
    command.keys.clear();
    assert_eq!(command.write_bytes(), 0);
}

#[test]
fn copies_and_defaults() {
    assert_eq!(lock_at(5).clone(), lock_at(5));
    assert_eq!(key("abc").clone(), key("abc"));
    assert_eq!(TimeStamp::default(), TimeStamp::new(0));
    assert_eq!(LastChange::default(), LastChange::Unknown);
}
