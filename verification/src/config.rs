//! Configuration surface the indexer consumes. The surrounding process reads
//! these values from its environment and hands them in as plain values.

use vstd::prelude::*;

verus! {

/// Runtime configuration: chain-source endpoint and credentials, storage
/// endpoint, query-surface address, and the scheduling parameters (start
/// height, batch size bounding per-iteration work, poll interval bounding
/// idle churn).
#[derive(Debug)]
pub struct Config {
    pub bitcoin_rpc_url: String,
    pub bitcoin_rpc_user: String,
    pub bitcoin_rpc_pass: String,
    pub bitcoin_network: String,
    pub database_url: String,
    pub api_host: String,
    pub api_port: u16,
    pub indexer_start_height: u64,
    pub indexer_batch_size: usize,
    pub indexer_poll_interval_secs: u64,
}

} // verus!
