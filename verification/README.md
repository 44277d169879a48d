# txn_storage

Two parts of a transactional key-value store, verified with Verus:

- `commit_cache`: a bounded cache from the start timestamp of a transaction to
  its commit timestamp, on top of `quick_cache`. `cache_laws` states what holds
  of it across calls: an answer is always what was last recorded, transactions
  that the cache can hold are never forgotten, and a new one is always answered.
- `mem_buffer_set`: the command that stores a transaction's buffered writes as
  locks on their keys, or is refused where another transaction holds a lock.
  `mem_buffer_laws` states what holds of a run as a whole.

`types` and `mvcc` hold the data that they work on. `app/` is the ordinary Rust
around the library: the cache that all threads share, and the interface to the
storage engine from which locks are loaded.
