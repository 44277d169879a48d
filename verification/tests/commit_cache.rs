use txn_storage::commit_cache::{CommitCache, CAPACITY};

/// How many of the transactions `0..n` the cache answers for.
fn answered(cache: &CommitCache, n: u64) -> usize {
    (0..n).filter(|ts| cache.get(*ts).is_some()).count()
}

#[test]
fn the_shared_cache_holds_a_hundred_thousand_entries() {
    assert_eq!(CAPACITY, 102_400);
    let mut cache = CommitCache::new(CAPACITY);
    cache.insert(1, 2);
    assert_eq!(cache.get(1), Some(2));
}

#[test]
fn a_new_cache_answers_nothing() {
    let cache = CommitCache::new(8);
    assert_eq!(cache.get(0), None);
    assert_eq!(cache.get(u64::MAX), None);
}

#[test]
fn get_gives_back_what_insert_recorded() {
    let mut cache = CommitCache::new(8);
    cache.insert(10, 15);
    cache.insert(11, 12);
    assert_eq!(cache.get(10), Some(15));
    assert_eq!(cache.get(11), Some(12));
    assert_eq!(cache.get(15), None);
    assert_eq!(cache.get(12), None);
}

#[test]
fn the_last_insert_of_a_transaction_counts() {
    let mut cache = CommitCache::new(1);
    cache.insert(10, 15);
    cache.insert(10, 16);
    assert_eq!(cache.get(10), Some(16));
}

#[test]
fn remove_forgets_one_transaction() {
    let mut cache = CommitCache::new(8);
    cache.insert(10, 15);
    cache.insert(11, 12);
    cache.remove(10);
    assert_eq!(cache.get(10), None);
    assert_eq!(cache.get(11), Some(12));
    cache.remove(10);
    cache.remove(77);
    assert_eq!(cache.get(11), Some(12));
    cache.insert(10, 20);
    assert_eq!(cache.get(10), Some(20));
}

#[test]
fn a_cache_for_nothing_keeps_nothing() {
    let mut cache = CommitCache::new(0);
    cache.insert(10, 15);
    assert_eq!(cache.get(10), None);
    cache.remove(10);
}

#[test]
fn a_small_cache_holds_exactly_its_capacity() {
    for capacity in [1usize, 2, 3, 31, 32, 33, 61, 62] {
        let mut cache = CommitCache::new(capacity);
        for ts in 0..capacity as u64 {
            cache.insert(ts, ts + 1000);
        }
        assert_eq!(answered(&cache, capacity as u64), capacity);
        for ts in capacity as u64..200 {
            cache.insert(ts, ts + 1000);
            assert_eq!(answered(&cache, 200), capacity);
        }
    }
}

#[test]
fn a_large_cache_keeps_the_first_entries_and_stays_bounded() {
    for capacity in [63usize, 64, 100, 1000, 5000] {
        let mut cache = CommitCache::new(capacity);
        for ts in 0..32 {
            cache.insert(ts, ts + 1000);
        }
        assert_eq!(answered(&cache, 32), 32);
        let n = 4 * capacity as u64;
        for ts in 32..n {
            cache.insert(ts, ts + 1000);
        }
        assert!(answered(&cache, n) <= capacity + capacity / 31);
    }
}

#[test]
fn one_insertion_drops_at_most_one_entry() {
    let mut cache = CommitCache::new(40);
    let mut before = 0;
    for round in 0..3u64 {
        for ts in 0..150 {
            // reads make some of the entries worth keeping
            cache.get((ts * 7 + round) % 150);
            let known = cache.get(ts).is_some();
            cache.insert(ts, ts + round);
            let after = answered(&cache, 150);
            if known || before < 40 {
                assert_eq!(cache.get(ts), Some(ts + round));
            }
            assert!(after >= before);
            assert!(after <= 40);
            before = after;
        }
    }
}

#[test]
fn answers_are_never_outdated() {
    let mut cache = CommitCache::new(20);
    let mut recorded = vec![None; 64];
    let mut seed = 12345u64;
    for _ in 0..20_000 {
        seed = seed.wrapping_mul(6364136223846793005).wrapping_add(1442695040888963407);
        let ts = (seed >> 33) % 64;
        match (seed >> 20) % 3 {
            0 => {
                cache.remove(ts);
                recorded[ts as usize] = None;
                assert_eq!(cache.get(ts), None);
            }
            1 => {
                cache.insert(ts, seed);
                recorded[ts as usize] = Some(seed);
            }
            _ => {
                let answer = cache.get(ts);
                assert!(answer.is_none() || answer == recorded[ts as usize]);
            }
        }
    }
}

#[test]
fn few_transactions_are_never_forgotten() {
    let mut cache = CommitCache::new(1024);
    let mut recorded = vec![None; 32];
    for step in 0..3_200u64 {
        let ts = (step * 13) % 32;
        if step % 5 == 4 {
            cache.remove(ts);
            recorded[ts as usize] = None;
        } else {
            cache.insert(ts, step);
            recorded[ts as usize] = Some(step);
        }
        for (known, commit_ts) in recorded.iter().enumerate() {
            assert_eq!(cache.get(known as u64), *commit_ts);
        }
    }
}

#[test]
fn try_insert_records_like_insert() {
    let mut cache = CommitCache::new(4);
    assert!(cache.try_insert(10, 15));
    assert_eq!(cache.get(10), Some(15));
    assert!(cache.try_insert(10, 16));
    assert_eq!(cache.get(10), Some(16));
}

#[test]
fn the_shared_cache_never_outgrows_its_capacity() {
    let mut cache = CommitCache::new(CAPACITY);
    let n = 3 * CAPACITY as u64;
    for ts in 0..n {
        cache.insert(ts, ts + 1);
        assert_eq!(cache.get(ts), Some(ts + 1));
    }
    let held = answered(&cache, n);
    assert!(held <= CAPACITY);
    assert!(held >= CAPACITY / 2);
}

#[test]
fn a_transaction_that_was_never_seen_is_answered_at_once() {
    for capacity in [1usize, 2, 10, 62, 63, 500] {
        let mut cache = CommitCache::new(capacity);
        for ts in 0..5_000 {
            cache.insert(ts, ts + 7);
            assert_eq!(cache.get(ts), Some(ts + 7));
            // reads make some of the older entries worth keeping
            cache.get(ts / 2);
        }
    }
}

#[test]
fn a_cache_that_dropped_nothing_answers_everything() {
    let mut cache = CommitCache::new(10_000);
    for ts in 0..1_000 {
        cache.insert(ts, 2 * ts);
    }
    for ts in 0..1_000 {
        assert_eq!(cache.get(ts), Some(2 * ts));
    }
}

#[test]
fn two_shards_are_sure_to_hold_half_each() {
    for capacity in [63u64, 64, 100, 123, 124] {
        let known = (capacity + 1) / 2;
        for salt in 0..50 {
            let mut cache = CommitCache::new(capacity as usize);
            for ts in 0..known {
                cache.insert(ts + 1_000 * salt, ts);
            }
            for ts in 0..known {
                assert_eq!(cache.get(ts + 1_000 * salt), Some(ts));
            }
        }
    }
}

#[test]
fn two_shards_hold_at_most_one_entry_over_an_odd_capacity() {
    for capacity in [63u64, 64, 100, 123, 124] {
        let mut cache = CommitCache::new(capacity as usize);
        for ts in 0..2_000 {
            cache.insert(ts, ts);
        }
        assert_eq!(answered(&cache, 2_000) as u64, capacity + capacity % 2);
    }
}

#[test]
fn recorded_transactions_are_kept_while_there_is_room() {
    // one shard for 20 entries, with never more than 20 recorded at a time
    let mut cache = CommitCache::new(20);
    for ts in 0..2_000 {
        if ts >= 20 {
            cache.remove(ts - 20);
        }
        cache.insert(ts, ts + 5);
        for known in (ts + 1).saturating_sub(20)..=ts {
            assert_eq!(cache.get(known), Some(known + 5));
        }
    }
}

#[test]
fn a_removed_transaction_is_answered_when_it_is_inserted_again() {
    for capacity in [1usize, 2, 10, 40] {
        let mut cache = CommitCache::new(capacity);
        for step in 0..10_000u64 {
            // reads make some of the entries worth keeping
            cache.get((step * 7) % 150);
            cache.insert((step * 11) % 150, step);
            let ts = (step * 29) % 150;
            cache.remove(ts);
            assert_eq!(cache.get(ts), None);
            cache.insert(ts, step + 1);
            assert_eq!(cache.get(ts), Some(step + 1));
        }
    }
}

#[test]
fn a_cache_for_one_keeps_no_traces() {
    let mut cache = CommitCache::new(1);
    for step in 0..100u64 {
        cache.insert(step % 3, step);
        assert_eq!(cache.get(step % 3), Some(step));
        assert_eq!(answered(&cache, 3), 1);
    }
}
