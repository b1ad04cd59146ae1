//! Error taxonomy of the indexer. No error here is process-fatal: a chain
//! failure is retried by the next scheduler iteration, a storage failure
//! abandons the current block and the loop continues. The outside causes are
//! rendered to plain messages at the boundary.

use vstd::prelude::*;

verus! {

/// One error of the indexer, with the message its cause rendered to.
#[derive(Debug)]
pub enum IndexerError {
    BitcoinRpc(String),
    Database(String),
    Config(String),
    Serialization(String),
    InvalidRuneData(String),
    Api(String),
    Generic(String),
}

/// The status code and body the query surface answers an error with: storage
/// failures and internal failures stay opaque, a surface error carries its
/// message.
pub open spec fn spec_response_parts(e: IndexerError) -> (u16, Seq<char>) {
    match e {
        IndexerError::Database(_) => (500u16, "Database error"@),
        IndexerError::Api(msg) => (400u16, msg@),
        _ => (500u16, "Internal server error"@),
    }
}

impl IndexerError {
    /// Renders the error as the status code and message the query surface
    /// answers with.
    pub fn response_parts(self) -> (r: (u16, String))
        ensures
            r.0 == spec_response_parts(self).0,
            r.1@ == spec_response_parts(self).1,
    {
        match self {
            IndexerError::Database(_) => (500, "Database error".to_owned()),
            IndexerError::Api(msg) => (400, msg),
            _ => (500, "Internal server error".to_owned()),
        }
    }
}

} // verus!
