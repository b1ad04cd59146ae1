//! Indexer core for a token-transfer protocol embedded in a
//! Bitcoin-compatible ledger.
//!
//! The crate holds the two algorithmic pieces of the indexer: the protocol
//! decoder, which recognizes and parses a token operation carried in a
//! transaction's outputs or witness data, and the ingestion scheduler, which
//! tracks the indexing cursor and drives batches of blocks through
//! decode-and-persist. An in-memory store realizes the persistence contract
//! the scheduler depends on (idempotent upserts keyed by height, transaction
//! id and output index).

pub mod api;
pub mod config;
pub mod database;
pub mod error;
pub mod models;
pub mod runes;
pub mod scheduler;
