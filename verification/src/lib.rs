//! A probe database that keeps the latest payload of each probe in a
//! pre-allocated partition of a data file, together with the in-memory
//! indexes and caches that route reads and writes to those partitions.
//!
//! - `partition`, `indexed_file_handle`, `partition_laws`: the byte layout of
//!   a partition, what a partition's bytes decode to, the writes that keep it
//!   up to date, and what a read gives back after them.
//! - `transactor`: the owner of a partition, which drops stale payloads.
//! - `tenken`: the index that routes each probe to its partition and hands
//!   out vacant partitions.
//! - `database`: the in-memory store of the latest payload of each probe.
//! - `payload`, `journal`: what is read from and added to a payload, and the
//!   journal line of a payload.
//! - `legacy`: the first layout of the data file.
//! - `be_bytes`, `text`, `fx_map`: big-endian integers, text helpers, and the
//!   hash maps of `fxhash`.

pub mod be_bytes;
pub mod database;
pub mod entry;
pub mod file_handle;
pub mod fx_map;
pub mod indexed_file_handle;
pub mod journal;
pub mod legacy;
pub mod messages;
pub mod partition;
pub mod partition_laws;
pub mod payload;
pub mod tenken;
pub mod text;
pub mod transactor;
