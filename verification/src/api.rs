//! The computed parts of the query surface: pagination defaults, the
//! liveness answer, and the stats assembled from the store. The transport —
//! routing, extraction, serialization — lives with the surrounding process.

use vstd::prelude::*;

use crate::database::{spec_has_block, spec_max_height, Database};

verus! {

/// The page size a listing falls back to when the caller names none.
pub fn default_limit() -> (r: i64)
    ensures
        r == 50,
{
    50
}

/// The liveness answer of the surface.
#[derive(Debug)]
pub struct HealthResponse {
    pub status: String,
    pub version: String,
}

impl HealthResponse {
    /// A healthy answer carrying the given build version.
    pub fn new(version: String) -> (r: HealthResponse)
        ensures
            r.status@ == "ok"@,
            r.version == version,
    {
        HealthResponse { status: "ok".to_owned(), version }
    }
}

/// Page selection for the token-operation listing.
#[derive(Clone, Copy, Debug)]
pub struct PaginationParams {
    pub limit: i64,
    pub offset: i64,
}

impl Default for PaginationParams {
    /// The first page under the default page size.
    fn default() -> (r: Self)
        ensures
            r.limit == 50,
            r.offset == 0,
    {
        PaginationParams { limit: default_limit(), offset: 0 }
    }
}

/// What the surface reports about indexing progress.
#[derive(Clone, Copy, Debug)]
pub struct Stats {
    pub last_indexed_block: Option<u64>,
    pub total_transactions: i64,
    pub total_runes_transactions: i64,
}

/// Assembles the progress report: the last indexed height from the store.
/// The totals are not yet computed and answer zero.
pub fn get_stats(db: &Database) -> (s: Stats)
    requires
        db.wf(),
    ensures
        match s.last_indexed_block {
            None => db.blocks@.len() == 0,
            Some(h) => db.blocks@.len() > 0 && h as int == spec_max_height(db.blocks@)
                && spec_has_block(db.blocks@, h as i64),
        },
        s.total_transactions == 0,
        s.total_runes_transactions == 0,
{
    Stats {
        last_indexed_block: db.get_last_block_height(),
        total_transactions: 0,
        total_runes_transactions: 0,
    }
}

} // verus!
