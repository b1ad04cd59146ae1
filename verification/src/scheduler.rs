//! Ingestion scheduler: tracks the indexing cursor, plans bounded batches of
//! heights, and drives fetched blocks through decode-and-persist.
//!
//! The scheduler's state is the cursor — the next height to index — passed
//! through and returned by its iteration function, so one iteration at a time
//! can be exercised deterministically. The caller performs the outside work
//! (querying the chain head, fetching blocks, sleeping between polls) and
//! hands the results in as plain values; a height whose fetch failed is
//! handed in as absent and skipped, the cursor still advancing past it at the
//! end of the batch.

use vstd::prelude::*;

use crate::config::Config;
use crate::database::{
    spec_has_block, spec_has_txid, spec_insert_block, spec_insert_transaction, Database,
};
use crate::models::{
    BlockData, BlockModel, OutputModel, RuneRecord, RunesTransactionModel, TransactionModel,
    TxData,
};
use crate::runes::{hex_encode, spec_decode_tx, spec_hex_of, RunesProcessor};

verus! {

/// The last height of a batch that starts at `cursor`: `batch` more heights,
/// bounded by the chain head.
pub open spec fn spec_batch_end(cursor: int, head: int, batch: int) -> int {
    if cursor + batch <= head {
        cursor + batch
    } else {
        head
    }
}

/// Where the cursor stands after one iteration against an observed chain
/// head: unchanged when already caught up, one past the batch end otherwise.
pub open spec fn spec_next_cursor(cursor: int, head: int, batch: int) -> int {
    if cursor >= head {
        cursor
    } else {
        spec_batch_end(cursor, head, batch) + 1
    }
}

/// Where the cursor stands after `n` failure-free iterations against a fixed
/// chain head.
pub open spec fn spec_cursor_after_iterations(start: int, head: int, batch: int, n: nat) -> int
    decreases n,
{
    if n == 0 {
        start
    } else {
        spec_next_cursor(spec_cursor_after_iterations(start, head, batch, (n - 1) as nat), head, batch)
    }
}

/// Where the cursor stands after a run of iterations in which the head query
/// may have failed: a failed observation leaves the cursor untouched.
pub open spec fn spec_cursor_after_observations(start: int, batch: int, heads: Seq<Option<int>>) -> int
    decreases heads.len(),
{
    if heads.len() == 0 {
        start
    } else {
        let c = spec_cursor_after_observations(start, batch, heads.drop_last());
        match heads.last() {
            Some(h) => spec_next_cursor(c, h, batch),
            None => c,
        }
    }
}

/// What one scheduler iteration decides to do.
#[derive(Clone, Copy, Debug, PartialEq, Eq, Structural)]
pub enum IterationPlan {
    /// Caught up: sleep for the poll interval and look again.
    Idle,
    /// Behind: process heights `first` through `last` inclusive.
    Batch { first: u64, last: u64 },
}

/// The verified core of the indexer: the decoder and the scheduling
/// parameters. The surrounding process owns the chain client and the clock.
pub struct IndexerCore {
    pub runes_processor: RunesProcessor,
    pub start_height: u64,
    pub batch_size: u64,
    pub poll_interval_secs: u64,
}

impl IndexerCore {
    /// A core with the given scheduling parameters.
    pub fn new(start_height: u64, batch_size: u64, poll_interval_secs: u64) -> (core: Self)
        ensures
            core.start_height == start_height,
            core.batch_size == batch_size,
            core.poll_interval_secs == poll_interval_secs,
    {
        IndexerCore {
            runes_processor: RunesProcessor::new(),
            start_height,
            batch_size,
            poll_interval_secs,
        }
    }

    /// A core taking its parameters from the configuration.
    pub fn from_config(config: &Config) -> (core: Self)
        ensures
            core.start_height == config.indexer_start_height,
            core.batch_size == config.indexer_batch_size as u64,
            core.poll_interval_secs == config.indexer_poll_interval_secs,
    {
        IndexerCore {
            runes_processor: RunesProcessor::new(),
            start_height: config.indexer_start_height,
            batch_size: config.indexer_batch_size as u64,
            poll_interval_secs: config.indexer_poll_interval_secs,
        }
    }

    /// Where indexing resumes: the stored progress when there is any, the
    /// configured start height otherwise.
    pub fn initial_cursor(&self, last_indexed: Option<u64>) -> (c: u64)
        ensures
            c == match last_indexed {
                Some(h) => h,
                None => self.start_height,
            },
    {
        match last_indexed {
            Some(h) => h,
            None => self.start_height,
        }
    }

    /// Decides one iteration from the observed chain head: idle when caught
    /// up, otherwise a batch from the cursor to the bounded batch end.
    pub fn plan_iteration(&self, cursor: u64, head: u64) -> (p: IterationPlan)
        ensures
            cursor >= head ==> p == IterationPlan::Idle,
            cursor < head ==> p == (IterationPlan::Batch {
                first: cursor,
                last: spec_batch_end(cursor as int, head as int, self.batch_size as int) as u64,
            }),
    {
        if cursor >= head {
            IterationPlan::Idle
        } else {
            let remaining = head - cursor;
            let last = if self.batch_size < remaining {
                cursor + self.batch_size
            } else {
                head
            };
            IterationPlan::Batch { first: cursor, last }
        }
    }
}

/// Chain data the scheduler can persist: output indexes and counts fit the
/// stored row types.
pub open spec fn spec_tx_wf(tx: TxData) -> bool {
    tx.outputs@.len() <= i32::MAX
}

/// Every transaction of the block fits the stored row types.
pub open spec fn spec_block_wf(block: BlockData) -> bool {
    forall|t: int| 0 <= t < block.txdata@.len() ==> spec_tx_wf(#[trigger] block.txdata@[t])
}

/// The block row persisted for a block fetched at a height.
pub open spec fn spec_block_record(block: BlockData, height: u64) -> BlockModel {
    BlockModel {
        height: height as i64,
        hash: block.hash,
        prev_hash: block.prev_hash,
        timestamp: block.time as i64,
        merkle_root: block.merkle_root,
        indexed_at: None,
    }
}

/// The transaction row persisted for a transaction of a block. The fee is
/// left absent: computing it would need the spent inputs' values, which the
/// indexer does not reconstruct.
pub open spec fn spec_transaction_record(tx: TxData, height: u64, block: BlockData) -> TransactionModel {
    TransactionModel {
        txid: tx.txid,
        block_height: height as i64,
        block_hash: block.hash,
        version: tx.version,
        locktime: tx.lock_time,
        size: tx.size,
        weight: tx.weight,
        fee: None,
        timestamp: block.time as i64,
        indexed_at: None,
    }
}

/// The output row persisted for output `vout` of a transaction: same id,
/// the output's value and address, the script hex-encoded, not spent.
pub open spec fn spec_matches_output_record(om: OutputModel, tx: TxData, vout: int) -> bool {
    &&& om.txid == tx.txid
    &&& om.vout == vout as i32
    &&& om.value == tx.outputs@[vout].value
    &&& om.script_pubkey@ == spec_hex_of(tx.outputs@[vout].script_pubkey@)
    &&& om.address == tx.outputs@[vout].address
    &&& om.spent == false
    &&& (om.spending_txid is None)
    &&& (om.spending_vin is None)
}

/// The token-operation row persisted for a decoded operation: the decoded
/// fields carried over, the operation under its label, the timestamp taken
/// from the owning block.
pub open spec fn spec_matches_runes_row(
    row: RunesTransactionModel,
    rec: RuneRecord,
    tx: TxData,
    height: u64,
    block: BlockData,
) -> bool {
    &&& row.txid == tx.txid
    &&& row.block_height == height as i64
    &&& row.rune_id.deep_view() == rec.rune_id
    &&& row.operation@ == rec.operation.spec_label()
    &&& row.amount == rec.amount
    &&& row.from_address.deep_view() == rec.from_address
    &&& row.to_address.deep_view() == rec.to_address
    &&& row.metadata.deep_view() == rec.metadata
    &&& row.timestamp == block.time as i64
    &&& (row.indexed_at is None)
}

/// Rows already stored stay, at their positions: the store only grows.
pub open spec fn spec_preserves_rows<T>(old_rows: Seq<T>, new_rows: Seq<T>) -> bool {
    &&& old_rows.len() <= new_rows.len()
    &&& forall|k: int| 0 <= k < old_rows.len() ==> new_rows[k] == old_rows[k]
}

impl IndexerCore {
    /// Persists one transaction of a block: the transaction row with its
    /// output rows, then — when the decoder finds one — the token-operation
    /// row. The owning block must already be stored.
    pub fn process_transaction(
        &self,
        db: &mut Database,
        tx: &TxData,
        block_height: u64,
        block: &BlockData,
    )
        requires
            old(db).wf(),
            spec_has_block(old(db).blocks@, block_height as i64),
            block_height <= i64::MAX,
            spec_tx_wf(*tx),
        ensures
            final(db).wf(),
            final(db).blocks@ == old(db).blocks@,
            final(db).transactions@ == spec_insert_transaction(
                old(db).transactions@,
                spec_transaction_record(*tx, block_height, *block),
            ),
            exists|outs: Seq<OutputModel>|
                outs.len() == tx.outputs@.len() && (forall|k: int|
                    0 <= k < outs.len() ==> spec_matches_output_record(#[trigger] outs[k], *tx, k))
                    && final(db).outputs@ == crate::database::spec_insert_outputs(
                    old(db).outputs@,
                    outs,
                ),
            spec_preserves_rows(old(db).outputs@, final(db).outputs@),
            match spec_decode_tx(*tx) {
                Some(rec) => exists|row: RunesTransactionModel|
                    #[trigger] spec_matches_runes_row(row, rec, *tx, block_height, *block) && row.id
                        == old(db).runes_transactions@.len() && final(db).runes_transactions@ == old(
                        db,
                    ).runes_transactions@.push(row),
                None => final(db).runes_transactions@ == old(db).runes_transactions@,
            },
    {
        let tm = TransactionModel {
            txid: tx.txid.clone(),
            block_height: block_height as i64,
            block_hash: block.hash.clone(),
            version: tx.version,
            locktime: tx.lock_time,
            size: tx.size,
            weight: tx.weight,
            fee: None,
            timestamp: block.time as i64,
            indexed_at: None,
        };
        let num_outputs = tx.outputs.len();
        let mut outs: Vec<OutputModel> = Vec::new();
        let mut i: usize = 0;
        while i < num_outputs
            invariant
                num_outputs == tx.outputs@.len(),
                spec_tx_wf(*tx),
                0 <= i <= num_outputs,
                outs@.len() == i,
                forall|k: int|
                    0 <= k < i ==> spec_matches_output_record(#[trigger] outs@[k], *tx, k),
            decreases num_outputs - i,
        {
            let out = &tx.outputs[i];
            let om = OutputModel {
                txid: tx.txid.clone(),
                vout: i as i32,
                value: out.value,
                script_pubkey: hex_encode(out.script_pubkey.as_slice()),
                address: out.address.clone(),
                spent: false,
                spending_txid: None,
                spending_vin: None,
            };
            outs.push(om);
            i += 1;
        }
        let ghost outs_view = outs@;
        db.insert_transaction(tm, outs);
        proof {
            lemma_insert_outputs_preserves(old(db).outputs@, outs_view);
        }
        match self.runes_processor.process_transaction(tx) {
            Some(rd) => {
                proof {
                    assert(rd.deep_view() == spec_decode_tx(*tx).unwrap());
                }
                let ghost rd_view = rd@;
                let row = RunesTransactionModel {
                    id: 0,
                    txid: tx.txid.clone(),
                    block_height: block_height as i64,
                    rune_id: rd.rune_id,
                    operation: rd.operation.to_string(),
                    amount: rd.amount,
                    from_address: rd.from_address,
                    to_address: rd.to_address,
                    metadata: rd.metadata,
                    timestamp: block.time as i64,
                    indexed_at: None,
                };
                let ghost row_snap = row;
                let ghost runes_before = db.runes_transactions@;
                db.insert_runes_transaction(row);
                proof {
                    let rec = spec_decode_tx(*tx).unwrap();
                    let pushed = RunesTransactionModel {
                        id: runes_before.len() as usize,
                        ..row_snap
                    };
                    assert(rd_view == rec);
                    assert(db.runes_transactions@ == runes_before.push(pushed));
                    assert(pushed.rune_id.deep_view() == rec.rune_id);
                    assert(pushed.from_address.deep_view() == rec.from_address);
                    assert(pushed.to_address.deep_view() == rec.to_address);
                    assert(pushed.metadata.deep_view() == rec.metadata);
                    assert(spec_matches_runes_row(pushed, rec, *tx, block_height, *block));
                }
            },
            None => {},
        }
    }

    /// Persists one fetched block: the block row first, then every
    /// transaction of the block in order, so that each stored transaction
    /// references an already-stored block.
    pub fn process_block(&self, db: &mut Database, block: &BlockData, height: u64)
        requires
            old(db).wf(),
            height <= i64::MAX,
            spec_block_wf(*block),
        ensures
            final(db).wf(),
            final(db).blocks@ == spec_insert_block(
                old(db).blocks@,
                spec_block_record(*block, height),
            ),
            spec_has_block(final(db).blocks@, height as i64),
            forall|t: int|
                0 <= t < block.txdata@.len() ==> spec_has_txid(
                    final(db).transactions@,
                    #[trigger] block.txdata@[t].txid@,
                ),
            spec_preserves_rows(old(db).transactions@, final(db).transactions@),
            spec_preserves_rows(old(db).outputs@, final(db).outputs@),
            spec_preserves_rows(old(db).runes_transactions@, final(db).runes_transactions@),
    {
        let bm = BlockModel {
            height: height as i64,
            hash: block.hash.clone(),
            prev_hash: block.prev_hash.clone(),
            timestamp: block.time as i64,
            merkle_root: block.merkle_root.clone(),
            indexed_at: None,
        };
        proof {
            assert(bm == spec_block_record(*block, height));
        }
        db.insert_block(bm);
        proof {
            lemma_has_block_after_insert(old(db).blocks@, spec_block_record(*block, height));
        }
        let num_txs = block.txdata.len();
        let mut t: usize = 0;
        while t < num_txs
            invariant
                num_txs == block.txdata@.len(),
                0 <= t <= num_txs,
                height <= i64::MAX,
                spec_block_wf(*block),
                db.wf(),
                db.blocks@ == spec_insert_block(old(db).blocks@, spec_block_record(*block, height)),
                spec_has_block(db.blocks@, height as i64),
                forall|j: int|
                    0 <= j < t ==> spec_has_txid(
                        db.transactions@,
                        #[trigger] block.txdata@[j].txid@,
                    ),
                spec_preserves_rows(old(db).transactions@, db.transactions@),
                spec_preserves_rows(old(db).outputs@, db.outputs@),
                spec_preserves_rows(old(db).runes_transactions@, db.runes_transactions@),
            decreases num_txs - t,
        {
            let ghost db_before = *db;
            self.process_transaction(db, &block.txdata[t], height, block);
            proof {
                let tm = spec_transaction_record(block.txdata@[t as int], height, *block);
                lemma_insert_transaction_keeps(db_before.transactions@, tm);
                assert(spec_has_txid(db.transactions@, block.txdata@[t as int].txid@));
            }
            t += 1;
        }
    }
}

impl IndexerCore {
    /// Processes one batch of heights in order. A height whose fetch failed
    /// is handed in as absent and skipped — the cursor still advances past it
    /// at the end of the batch, so a transient failure leaves a gap rather
    /// than stalling ingestion.
    pub fn process_batch(
        &self,
        db: &mut Database,
        first: u64,
        last: u64,
        fetched: &Vec<Option<BlockData>>,
    ) -> (new_cursor: u64)
        requires
            old(db).wf(),
            first <= last,
            last < u64::MAX,
            last <= i64::MAX,
            fetched@.len() == last - first + 1,
            forall|i: int|
                0 <= i < fetched@.len() && (#[trigger] fetched@[i] is Some) ==> spec_block_wf(
                    fetched@[i].unwrap(),
                ),
        ensures
            final(db).wf(),
            new_cursor == last + 1,
            forall|h: int|
                first <= h <= last && (#[trigger] fetched@[h - first] is Some) ==> spec_has_block(
                    final(db).blocks@,
                    h as i64,
                ),
            spec_preserves_rows(old(db).blocks@, final(db).blocks@),
            spec_preserves_rows(old(db).transactions@, final(db).transactions@),
            spec_preserves_rows(old(db).outputs@, final(db).outputs@),
            spec_preserves_rows(old(db).runes_transactions@, final(db).runes_transactions@),
    {
        let num_fetched: usize = fetched.len();
        let mut h: u64 = first;
        while h <= last
            invariant
                db.wf(),
                first <= h,
                h <= last + 1,
                last < u64::MAX,
                last <= i64::MAX,
                num_fetched == fetched@.len(),
                fetched@.len() == last - first + 1,
                forall|i: int|
                    0 <= i < fetched@.len() && (#[trigger] fetched@[i] is Some) ==> spec_block_wf(
                        fetched@[i].unwrap(),
                    ),
                forall|g: int|
                    first <= g < h && (#[trigger] fetched@[g - first] is Some) ==> spec_has_block(
                        db.blocks@,
                        g as i64,
                    ),
                spec_preserves_rows(old(db).blocks@, db.blocks@),
                spec_preserves_rows(old(db).transactions@, db.transactions@),
                spec_preserves_rows(old(db).outputs@, db.outputs@),
                spec_preserves_rows(old(db).runes_transactions@, db.runes_transactions@),
            decreases last + 1 - h,
        {
            let idx: usize = (h - first) as usize;
            match &fetched[idx] {
                Some(block) => {
                    let ghost db_prev = *db;
                    self.process_block(db, block, h);
                    proof {
                        lemma_has_block_after_insert(
                            db_prev.blocks@,
                            spec_block_record(*block, h),
                        );
                        lemma_insert_block_preserves(
                            db_prev.blocks@,
                            spec_block_record(*block, h),
                        );
                        lemma_preserves_rows_trans(old(db).blocks@, db_prev.blocks@, db.blocks@);
                        lemma_preserves_rows_trans(
                            old(db).transactions@,
                            db_prev.transactions@,
                            db.transactions@,
                        );
                        lemma_preserves_rows_trans(
                            old(db).outputs@,
                            db_prev.outputs@,
                            db.outputs@,
                        );
                        lemma_preserves_rows_trans(
                            old(db).runes_transactions@,
                            db_prev.runes_transactions@,
                            db.runes_transactions@,
                        );
                    }
                },
                None => {},
            }
            h += 1;
        }
        last + 1
    }

    /// One scheduler iteration against an observed chain head: idles when the
    /// cursor has caught up, otherwise processes the planned batch from the
    /// blocks the caller fetched (`fetched[k]` standing for height
    /// `cursor + k`, absent where the fetch failed) and advances the cursor
    /// one past the batch end. The cursor never moves backwards.
    pub fn run_iteration(
        &self,
        db: &mut Database,
        cursor: u64,
        head: u64,
        fetched: &Vec<Option<BlockData>>,
    ) -> (new_cursor: u64)
        requires
            old(db).wf(),
            head < u64::MAX,
            head <= i64::MAX,
            cursor < head ==> fetched@.len() == spec_batch_end(
                cursor as int,
                head as int,
                self.batch_size as int,
            ) - cursor + 1,
            forall|i: int|
                0 <= i < fetched@.len() && (#[trigger] fetched@[i] is Some) ==> spec_block_wf(
                    fetched@[i].unwrap(),
                ),
        ensures
            final(db).wf(),
            new_cursor as int == spec_next_cursor(
                cursor as int,
                head as int,
                self.batch_size as int,
            ),
            new_cursor >= cursor,
            cursor >= head ==> *final(db) == *old(db),
            cursor < head ==> forall|h: int|
                cursor <= h <= spec_batch_end(cursor as int, head as int, self.batch_size as int)
                    && (#[trigger] fetched@[h - cursor] is Some) ==> spec_has_block(
                    final(db).blocks@,
                    h as i64,
                ),
            spec_preserves_rows(old(db).blocks@, final(db).blocks@),
            spec_preserves_rows(old(db).transactions@, final(db).transactions@),
            spec_preserves_rows(old(db).outputs@, final(db).outputs@),
            spec_preserves_rows(old(db).runes_transactions@, final(db).runes_transactions@),
    {
        let plan = self.plan_iteration(cursor, head);
        match plan {
            IterationPlan::Idle => cursor,
            IterationPlan::Batch { first, last } => self.process_batch(db, first, last, fetched),
        }
    }
}

/// Rows-preserved is transitive.
proof fn lemma_preserves_rows_trans<T>(a: Seq<T>, b: Seq<T>, c: Seq<T>)
    requires
        spec_preserves_rows(a, b),
        spec_preserves_rows(b, c),
    ensures
        spec_preserves_rows(a, c),
{
    assert forall|k: int| 0 <= k < a.len() implies c[k] == a[k] by {
        assert(b[k] == a[k]);
        assert(c[k] == b[k]);
    }
}

/// An idempotent block insert only appends: stored rows stay at their
/// positions.
proof fn lemma_insert_block_preserves(s: Seq<BlockModel>, b: BlockModel)
    ensures
        spec_preserves_rows(s, spec_insert_block(s, b)),
{
}

/// After an insert the inserted block's height is stored, and every height
/// stored before still is.
proof fn lemma_has_block_after_insert(s: Seq<BlockModel>, b: BlockModel)
    ensures
        spec_has_block(spec_insert_block(s, b), b.height),
        forall|h: i64| #[trigger] spec_has_block(s, h) ==> spec_has_block(spec_insert_block(s, b), h),
{
    if !spec_has_block(s, b.height) {
        assert(s.push(b)[s.len() as int] == b);
    }
    assert forall|h: i64| spec_has_block(s, h) implies spec_has_block(spec_insert_block(s, b), h) by {
        let w = choose|w: int| 0 <= w < s.len() && s[w].height == h;
        if !spec_has_block(s, b.height) {
            assert(s.push(b)[w] == s[w]);
        }
    }
}

/// After an insert the inserted transaction's id is stored, every id stored
/// before still is, and stored rows stay at their positions.
proof fn lemma_insert_transaction_keeps(s: Seq<TransactionModel>, t: TransactionModel)
    ensures
        spec_has_txid(spec_insert_transaction(s, t), t.txid@),
        forall|x: Seq<char>|
            #[trigger] spec_has_txid(s, x) ==> spec_has_txid(spec_insert_transaction(s, t), x),
        spec_preserves_rows(s, spec_insert_transaction(s, t)),
{
    if !spec_has_txid(s, t.txid@) {
        assert(s.push(t)[s.len() as int] == t);
    }
    assert forall|x: Seq<char>|
        spec_has_txid(s, x) implies spec_has_txid(spec_insert_transaction(s, t), x) by {
        let w = choose|w: int| 0 <= w < s.len() && s[w].txid@ == x;
        if !spec_has_txid(s, t.txid@) {
            assert(s.push(t)[w] == s[w]);
        }
    }
}

/// A fold of output inserts only appends: stored rows stay at their
/// positions.
proof fn lemma_insert_outputs_preserves(s: Seq<OutputModel>, outs: Seq<OutputModel>)
    ensures
        spec_preserves_rows(s, crate::database::spec_insert_outputs(s, outs)),
    decreases outs.len(),
{
    if outs.len() > 0 {
        lemma_insert_outputs_preserves(s, outs.drop_last());
    }
}

/// One iteration never moves the cursor backwards, whatever head it observes.
pub proof fn lemma_next_cursor_monotone(cursor: int, head: int, batch: int)
    requires
        batch >= 0,
    ensures
        spec_next_cursor(cursor, head, batch) >= cursor,
{
}

/// While the cursor is still catching up, every failure-free iteration
/// advances it by exactly one batch span (batch + 1 heights).
pub proof fn lemma_cursor_catching_up(start: int, head: int, batch: int, n: nat)
    requires
        batch >= 0,
        start + n * (batch + 1) <= head,
    ensures
        spec_cursor_after_iterations(start, head, batch, n) == start + n * (batch + 1),
    decreases n,
{
    if n > 0 {
        assert(n * (batch + 1) == (n - 1) * (batch + 1) + (batch + 1)) by (nonlinear_arith);
        assert((n - 1) * (batch + 1) >= 0) by (nonlinear_arith)
            requires
                n >= 1,
                batch >= 0,
        ;
        lemma_cursor_catching_up(start, head, batch, (n - 1) as nat);
        let c = spec_cursor_after_iterations(start, head, batch, (n - 1) as nat);
        assert(c == start + (n - 1) * (batch + 1));
        assert(c + (batch + 1) == start + n * (batch + 1));
        assert(c + batch + 1 <= head);
        assert(spec_next_cursor(c, head, batch) == c + batch + 1);
    } else {
        assert(n * (batch + 1) == 0) by (nonlinear_arith)
            requires
                n == 0,
        ;
    }
}

/// The cursor never passes one past the chain head it observes.
pub proof fn lemma_cursor_bounded(start: int, head: int, batch: int, n: nat)
    requires
        batch >= 0,
        start <= head + 1,
    ensures
        spec_cursor_after_iterations(start, head, batch, n) <= head + 1,
    decreases n,
{
    if n > 0 {
        lemma_cursor_bounded(start, head, batch, (n - 1) as nat);
    }
}

/// Where the cursor comes to rest against a fixed head: at the head itself
/// when the distance from the start is an exact number of batch spans (the
/// last batch ends exactly one short of the head), one past the head
/// otherwise.
pub open spec fn spec_cursor_resting_point(start: int, head: int, batch: int) -> int {
    if (head - start) % (batch + 1) == 0 {
        head
    } else {
        head + 1
    }
}

/// The closed form of the cursor's trajectory: linear progress of one batch
/// span per iteration, capped at the resting point.
pub open spec fn spec_cursor_closed_form(start: int, head: int, batch: int, n: nat) -> int {
    if start + n * (batch + 1) <= spec_cursor_resting_point(start, head, batch) {
        start + n * (batch + 1)
    } else {
        spec_cursor_resting_point(start, head, batch)
    }
}

/// Against a fixed chain head, the cursor follows its closed form exactly:
/// after `n` failure-free iterations it stands at the smaller of
/// `start + n * (batch + 1)` and its resting point.
pub proof fn lemma_cursor_trajectory(start: int, head: int, batch: int, n: nat)
    requires
        batch >= 0,
        0 <= start <= head,
    ensures
        spec_cursor_after_iterations(start, head, batch, n) == spec_cursor_closed_form(
            start,
            head,
            batch,
            n,
        ),
    decreases n,
{
    let span = batch + 1;
    let rest = spec_cursor_resting_point(start, head, batch);
    if n == 0 {
        assert(n * span == 0) by (nonlinear_arith)
            requires
                n == 0,
        ;
    } else {
        lemma_cursor_trajectory(start, head, batch, (n - 1) as nat);
        let c = spec_cursor_after_iterations(start, head, batch, (n - 1) as nat);
        assert(n * span == (n - 1) * span + span) by (nonlinear_arith);
        if start + (n - 1) * span <= rest {
            assert(c == start + (n - 1) * span);
            if c >= head {
                if c == head {
                    vstd::arithmetic::div_mod::lemma_fundamental_div_mod_converse_mod(
                        head - start,
                        span,
                        (n - 1) as int,
                        0,
                    );
                    assert(rest == head);
                }
            } else {
                if start + n * span <= rest {
                    assert(c + span <= head + 1);
                    assert(spec_next_cursor(c, head, batch) == c + span);
                } else {
                    if (head - start) % span == 0 {
                        vstd::arithmetic::div_mod::lemma_fundamental_div_mod(head - start, span);
                        let q = (head - start) / span;
                        assert(head - start == q * span) by (nonlinear_arith)
                            requires
                                head - start == span * q + ((head - start) % span),
                                (head - start) % span == 0,
                        ;
                        assert(head - c == (q - (n - 1)) * span) by (nonlinear_arith)
                            requires
                                head - start == q * span,
                                c == start + (n - 1) * span,
                        ;
                        assert(q - (n - 1) >= 1) by (nonlinear_arith)
                            requires
                                head - c == (q - (n - 1)) * span,
                                head - c > 0,
                                span > 0,
                        ;
                        assert(head - c >= span) by (nonlinear_arith)
                            requires
                                head - c == (q - (n - 1)) * span,
                                q - (n - 1) >= 1,
                                span > 0,
                        ;
                        assert(false);
                    } else {
                        assert(spec_next_cursor(c, head, batch) == head + 1);
                    }
                }
            }
        } else {
            assert(c == rest);
        }
    }
}

/// Once the cursor has caught up to an unchanged head, every further
/// iteration leaves it exactly where it stands: the scheduler idle-polls.
pub proof fn lemma_cursor_stable(start: int, head: int, batch: int, n: nat, m: nat)
    requires
        batch >= 0,
        n <= m,
        spec_cursor_after_iterations(start, head, batch, n) >= head,
    ensures
        spec_cursor_after_iterations(start, head, batch, m) == spec_cursor_after_iterations(
            start,
            head,
            batch,
            n,
        ),
    decreases m,
{
    if m > n {
        lemma_cursor_stable(start, head, batch, n, (m - 1) as nat);
    }
}

/// Across a whole run the cursor is non-decreasing, even when the chain head
/// moves arbitrarily between iterations and the head query fails at any
/// subset of them: every prefix of the run leaves the cursor at or below
/// where the full run leaves it.
pub proof fn lemma_cursor_monotone_under_failures(
    start: int,
    batch: int,
    heads: Seq<Option<int>>,
    n: int,
)
    requires
        batch >= 0,
        0 <= n <= heads.len(),
    ensures
        spec_cursor_after_observations(start, batch, heads.take(n)) <= spec_cursor_after_observations(
            start,
            batch,
            heads,
        ),
    decreases heads.len(),
{
    if n == heads.len() {
        assert(heads.take(n) =~= heads);
    } else {
        assert(heads.take(n) =~= heads.drop_last().take(n));
        lemma_cursor_monotone_under_failures(start, batch, heads.drop_last(), n);
        let c = spec_cursor_after_observations(start, batch, heads.drop_last());
        match heads.last() {
            Some(h) => {
                lemma_next_cursor_monotone(c, h, batch);
            },
            None => {},
        }
    }
}

} // verus!
