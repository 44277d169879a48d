//! Transactional storage: the cache of committed transactions and the command
//! that buffers a transaction's writes as locks.

pub mod cache_laws;
pub mod commit_cache;
pub mod lock_laws;
pub mod mem_buffer_laws;
pub mod mem_buffer_set;
pub mod mvcc;
pub mod types;
