//! The caches of a log-structured database on object storage, and what paces
//! and measures them.
//!
//! - [`foyer_cache`]: blocks, indexes, filters and statistics in memory, with
//!   [`shard_model`] as its model;
//! - [`head_cache`]: the heads of objects in memory;
//! - [`io_pool`]: the threads that read the disk cache;
//! - [`rate_limit`]: the pace of uploads, on the times of [`time`];
//! - [`state_lock`]: the counters of the database state lock;
//! - [`stats`]: the metrics of the object store cache.

pub mod decimal;
pub mod error;
pub mod foyer_cache;
pub mod head_cache;
pub mod io_pool;
pub mod rate_limit;
pub mod shard_model;
pub mod state_lock;
pub mod stats;
pub mod time;
