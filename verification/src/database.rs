//! In-memory store realizing the persistence contract the scheduler depends
//! on: idempotent upserts for blocks (keyed by height), transactions (keyed
//! by transaction id) and outputs (keyed by transaction id and output index),
//! an append-only table of token operations, and the read accessors the query
//! surface consumes.

use vstd::prelude::*;

use crate::models::{BlockModel, OutputModel, RunesTransactionModel, TransactionModel};

verus! {

/// Some stored block carries this height.
pub open spec fn spec_has_block(s: Seq<BlockModel>, height: i64) -> bool {
    exists|i: int| 0 <= i < s.len() && s[i].height == height
}

/// Some stored transaction carries this id.
pub open spec fn spec_has_txid(s: Seq<TransactionModel>, txid: Seq<char>) -> bool {
    exists|i: int| 0 <= i < s.len() && s[i].txid@ == txid
}

/// Some stored output carries this (transaction id, output index) key.
pub open spec fn spec_has_output(s: Seq<OutputModel>, txid: Seq<char>, vout: i32) -> bool {
    exists|i: int| 0 <= i < s.len() && s[i].txid@ == txid && s[i].vout == vout
}

/// An idempotent block insert: a duplicate height is a no-op, not an error.
pub open spec fn spec_insert_block(s: Seq<BlockModel>, b: BlockModel) -> Seq<BlockModel> {
    if spec_has_block(s, b.height) {
        s
    } else {
        s.push(b)
    }
}

/// An idempotent transaction insert keyed by transaction id.
pub open spec fn spec_insert_transaction(
    s: Seq<TransactionModel>,
    t: TransactionModel,
) -> Seq<TransactionModel> {
    if spec_has_txid(s, t.txid@) {
        s
    } else {
        s.push(t)
    }
}

/// An idempotent output insert keyed by (transaction id, output index).
pub open spec fn spec_insert_output(s: Seq<OutputModel>, o: OutputModel) -> Seq<OutputModel> {
    if spec_has_output(s, o.txid@, o.vout) {
        s
    } else {
        s.push(o)
    }
}

/// Outputs inserted one after the other, in order.
pub open spec fn spec_insert_outputs(
    s: Seq<OutputModel>,
    outs: Seq<OutputModel>,
) -> Seq<OutputModel>
    decreases outs.len(),
{
    if outs.len() == 0 {
        s
    } else {
        spec_insert_output(spec_insert_outputs(s, outs.drop_last()), outs.last())
    }
}

/// The greatest stored height, -1 when nothing is stored.
pub open spec fn spec_max_height(s: Seq<BlockModel>) -> int
    decreases s.len(),
{
    if s.len() == 0 {
        -1
    } else {
        let rest = spec_max_height(s.drop_last());
        if s.last().height >= rest {
            s.last().height as int
        } else {
            rest
        }
    }
}

/// How many rows a page request yields out of `n` stored rows.
pub open spec fn spec_page_len(n: int, limit: int, offset: int) -> int {
    if offset >= n {
        0
    } else if limit <= n - offset {
        limit
    } else {
        n - offset
    }
}

/// The store. Blocks, transactions and outputs are upserted idempotently on
/// their keys; token operations are appended, with `id` the position the
/// store assigned (re-running ingestion over the same range duplicates them —
/// deliberate append-only semantics).
pub struct Database {
    pub blocks: Vec<BlockModel>,
    pub transactions: Vec<TransactionModel>,
    pub outputs: Vec<OutputModel>,
    pub runes_transactions: Vec<RunesTransactionModel>,
}

impl Database {
    /// Well-formed store: unique keys, non-negative heights, and every stored
    /// transaction referencing an already-stored block.
    pub open spec fn wf(&self) -> bool {
        &&& forall|i: int, j: int|
            0 <= i < j < self.blocks@.len() ==> #[trigger] self.blocks@[i].height
                != #[trigger] self.blocks@[j].height
        &&& forall|i: int| 0 <= i < self.blocks@.len() ==> #[trigger] self.blocks@[i].height >= 0
        &&& forall|i: int, j: int|
            0 <= i < j < self.transactions@.len() ==> #[trigger] self.transactions@[i].txid@
                != #[trigger] self.transactions@[j].txid@
        &&& forall|i: int, j: int|
            0 <= i < j < self.outputs@.len() ==> !(#[trigger] self.outputs@[i].txid@
                == #[trigger] self.outputs@[j].txid@ && self.outputs@[i].vout
                == self.outputs@[j].vout)
        &&& forall|i: int|
            0 <= i < self.transactions@.len() ==> spec_has_block(
                self.blocks@,
                #[trigger] self.transactions@[i].block_height,
            )
    }

    /// An empty store.
    pub fn new() -> (db: Self)
        ensures
            db.wf(),
            db.blocks@.len() == 0,
            db.transactions@.len() == 0,
            db.outputs@.len() == 0,
            db.runes_transactions@.len() == 0,
    {
        Database {
            blocks: Vec::new(),
            transactions: Vec::new(),
            outputs: Vec::new(),
            runes_transactions: Vec::new(),
        }
    }

    /// Stores a block row. A row with the same height already stored makes
    /// this a no-op; nothing else changes.
    pub fn insert_block(&mut self, block: BlockModel)
        requires
            old(self).wf(),
            block.height >= 0,
        ensures
            final(self).wf(),
            final(self).blocks@ == spec_insert_block(old(self).blocks@, block),
            final(self).transactions@ == old(self).transactions@,
            final(self).outputs@ == old(self).outputs@,
            final(self).runes_transactions@ == old(self).runes_transactions@,
    {
        if !contains_height(&self.blocks, block.height) {
            proof {
                lemma_has_block_extends(self.blocks@, block, self.transactions@);
            }
            self.blocks.push(block);
        }
    }

    /// Stores a transaction row and its output rows. A duplicate transaction
    /// id or a duplicate (transaction id, output index) key is skipped, row
    /// by row; nothing else changes. The block the transaction references
    /// must already be stored.
    pub fn insert_transaction(&mut self, tx: TransactionModel, outputs: Vec<OutputModel>)
        requires
            old(self).wf(),
            spec_has_block(old(self).blocks@, tx.block_height),
        ensures
            final(self).wf(),
            final(self).transactions@ == spec_insert_transaction(old(self).transactions@, tx),
            final(self).outputs@ == spec_insert_outputs(old(self).outputs@, outputs@),
            final(self).blocks@ == old(self).blocks@,
            final(self).runes_transactions@ == old(self).runes_transactions@,
    {
        if !contains_txid(&self.transactions, &tx.txid) {
            self.transactions.push(tx);
        }
        let num_outputs = outputs.len();
        let mut i: usize = 0;
        while i < num_outputs
            invariant
                num_outputs == outputs@.len(),
                0 <= i <= num_outputs,
                self.wf(),
                self.outputs@ == spec_insert_outputs(old(self).outputs@, outputs@.take(i as int)),
                self.blocks@ == old(self).blocks@,
                self.transactions@ == spec_insert_transaction(old(self).transactions@, tx),
                self.runes_transactions@ == old(self).runes_transactions@,
            decreases num_outputs - i,
        {
            let o = outputs[i].clone();
            if !contains_output(&self.outputs, &o.txid, o.vout) {
                self.outputs.push(o);
            }
            proof {
                assert(outputs@.take(i + 1 as int).drop_last() =~= outputs@.take(i as int));
                assert(outputs@.take(i + 1 as int).last() == outputs@[i as int]);
            }
            i += 1;
        }
        proof {
            assert(outputs@.take(num_outputs as int) =~= outputs@);
        }
    }

    /// Appends a token-operation row, assigning it the next position as its
    /// id. Duplicates are not detected: the table is append-only.
    pub fn insert_runes_transaction(&mut self, rec: RunesTransactionModel)
        requires
            old(self).wf(),
        ensures
            final(self).wf(),
            old(self).runes_transactions@.len() <= usize::MAX,
            final(self).runes_transactions@ == old(self).runes_transactions@.push(
                RunesTransactionModel { id: old(self).runes_transactions@.len() as usize, ..rec },
            ),
            final(self).blocks@ == old(self).blocks@,
            final(self).transactions@ == old(self).transactions@,
            final(self).outputs@ == old(self).outputs@,
    {
        let id = self.runes_transactions.len();
        let row = RunesTransactionModel { id, ..rec };
        self.runes_transactions.push(row);
    }

    /// The greatest stored block height — the point from which ingestion
    /// resumes — or nothing when no block is stored yet.
    pub fn get_last_block_height(&self) -> (r: Option<u64>)
        requires
            self.wf(),
        ensures
            match r {
                None => self.blocks@.len() == 0,
                Some(h) => self.blocks@.len() > 0 && h as int == spec_max_height(self.blocks@)
                    && spec_has_block(self.blocks@, h as i64),
            },
    {
        let n = self.blocks.len();
        if n == 0 {
            return None;
        }
        let mut m: i64 = -1;
        let mut i: usize = 0;
        while i < n
            invariant
                self.wf(),
                n == self.blocks@.len(),
                0 <= i <= n,
                m as int == spec_max_height(self.blocks@.take(i as int)),
                i == 0 ==> m == -1,
                i > 0 ==> exists|j: int| 0 <= j < i && #[trigger] self.blocks@[j].height == m,
            decreases n - i,
        {
            proof {
                assert(self.blocks@.take(i + 1 as int).drop_last() =~= self.blocks@.take(i as int));
                assert(self.blocks@.take(i + 1 as int).last() == self.blocks@[i as int]);
            }
            if self.blocks[i].height > m {
                m = self.blocks[i].height;
                proof {
                    assert(self.blocks@[i as int].height == m);
                }
            } else {
                proof {
                    assert(self.blocks@[0].height >= 0);
                    assert(i > 0);
                }
            }
            i += 1;
        }
        proof {
            assert(self.blocks@.take(n as int) =~= self.blocks@);
        }
        Some(m as u64)
    }

    /// Looks a block up by height. Yields the stored row exactly when one
    /// carries this height.
    pub fn get_block_by_height(&self, height: u64) -> (r: Option<BlockModel>)
        requires
            self.wf(),
        ensures
            match r {
                Some(b) => height <= i64::MAX && self.blocks@.contains(b) && b.height
                    == height as i64,
                None => height > i64::MAX || !spec_has_block(self.blocks@, height as i64),
            },
    {
        if height > i64::MAX as u64 {
            return None;
        }
        let h = height as i64;
        let n = self.blocks.len();
        let mut i: usize = 0;
        while i < n
            invariant
                n == self.blocks@.len(),
                0 <= i <= n,
                height <= i64::MAX,
                h == height as i64,
                forall|j: int| 0 <= j < i ==> #[trigger] self.blocks@[j].height != h,
            decreases n - i,
        {
            if self.blocks[i].height == h {
                let b = self.blocks[i].clone();
                proof {
                    assert(self.blocks@.contains(b));
                }
                return Some(b);
            }
            i += 1;
        }
        None
    }

    /// Looks a transaction up by id. Yields the stored row exactly when one
    /// carries this id.
    pub fn get_transaction(&self, txid: &str) -> (r: Option<TransactionModel>)
        requires
            self.wf(),
        ensures
            match r {
                Some(t) => self.transactions@.contains(t) && t.txid@ == txid@,
                None => !spec_has_txid(self.transactions@, txid@),
            },
    {
        let n = self.transactions.len();
        let mut i: usize = 0;
        while i < n
            invariant
                n == self.transactions@.len(),
                0 <= i <= n,
                forall|j: int| 0 <= j < i ==> #[trigger] self.transactions@[j].txid@ != txid@,
            decreases n - i,
        {
            if str_eq(self.transactions[i].txid.as_str(), txid) {
                let t = self.transactions[i].clone();
                proof {
                    assert(self.transactions@.contains(t));
                }
                return Some(t);
            }
            i += 1;
        }
        None
    }

    /// A page of token operations ordered by recency: the most recently
    /// appended row comes first, `offset` rows are skipped, at most `limit`
    /// rows are yielded.
    pub fn get_runes_transactions(&self, limit: i64, offset: i64) -> (r: Vec<
        RunesTransactionModel,
    >)
        requires
            0 <= limit,
            0 <= offset,
        ensures
            r@.len() == spec_page_len(
                self.runes_transactions@.len() as int,
                limit as int,
                offset as int,
            ),
            forall|i: int|
                0 <= i < r@.len() ==> #[trigger] r@[i] == self.runes_transactions@[
                    self.runes_transactions@.len() - 1 - offset - i
                ],
    {
        let n = self.runes_transactions.len();
        let mut out: Vec<RunesTransactionModel> = Vec::new();
        if offset as u64 >= n as u64 {
            return out;
        }
        let off = offset as usize;
        let avail: usize = n - off;
        let take: usize = if (limit as u64) < (avail as u64) {
            limit as usize
        } else {
            avail
        };
        let mut k: usize = 0;
        while k < take
            invariant
                n == self.runes_transactions@.len(),
                off == offset,
                off < n,
                avail == n - off,
                take as int == spec_page_len(n as int, limit as int, offset as int),
                take <= avail,
                0 <= k <= take,
                out@.len() == k,
                forall|i: int|
                    0 <= i < k ==> #[trigger] out@[i] == self.runes_transactions@[
                        n - 1 - offset - i
                    ],
            decreases take - k,
        {
            let idx: usize = n - 1 - off - k;
            out.push(self.runes_transactions[idx].clone());
            k += 1;
        }
        out
    }
}

/// Whether some stored block carries this height.
fn contains_height(blocks: &Vec<BlockModel>, height: i64) -> (b: bool)
    ensures
        b == spec_has_block(blocks@, height),
{
    let n = blocks.len();
    let mut i: usize = 0;
    while i < n
        invariant
            n == blocks@.len(),
            0 <= i <= n,
            forall|j: int| 0 <= j < i ==> #[trigger] blocks@[j].height != height,
        decreases n - i,
    {
        if blocks[i].height == height {
            return true;
        }
        i += 1;
    }
    false
}

/// Whether some stored transaction carries this id.
fn contains_txid(transactions: &Vec<TransactionModel>, txid: &String) -> (b: bool)
    ensures
        b == spec_has_txid(transactions@, txid@),
{
    let n = transactions.len();
    let mut i: usize = 0;
    while i < n
        invariant
            n == transactions@.len(),
            0 <= i <= n,
            forall|j: int| 0 <= j < i ==> #[trigger] transactions@[j].txid@ != txid@,
        decreases n - i,
    {
        if str_eq(transactions[i].txid.as_str(), txid.as_str()) {
            return true;
        }
        i += 1;
    }
    false
}

/// Whether some stored output carries this (transaction id, index) key.
fn contains_output(outputs: &Vec<OutputModel>, txid: &String, vout: i32) -> (b: bool)
    ensures
        b == spec_has_output(outputs@, txid@, vout),
{
    let n = outputs.len();
    let mut i: usize = 0;
    while i < n
        invariant
            n == outputs@.len(),
            0 <= i <= n,
            forall|j: int|
                0 <= j < i ==> !(#[trigger] outputs@[j].txid@ == txid@ && outputs@[j].vout == vout),
        decreases n - i,
    {
        if outputs[i].vout == vout && str_eq(outputs[i].txid.as_str(), txid.as_str()) {
            return true;
        }
        i += 1;
    }
    false
}

/// Relies on str's PartialEq: two string slices compare equal exactly when
/// their character sequences are equal.
#[verifier::external_body]
fn str_eq(a: &str, b: &str) -> (r: bool)
    ensures
        r == (a@ == b@),
{
    a == b
}

/// Extending the block table keeps every height reference a transaction
/// already holds satisfied.
proof fn lemma_has_block_extends(
    blocks: Seq<BlockModel>,
    b: BlockModel,
    txs: Seq<TransactionModel>,
)
    requires
        forall|i: int|
            0 <= i < txs.len() ==> spec_has_block(blocks, #[trigger] txs[i].block_height),
    ensures
        forall|i: int|
            0 <= i < txs.len() ==> spec_has_block(blocks.push(b), #[trigger] txs[i].block_height),
{
    assert forall|i: int|
        0 <= i < txs.len() implies spec_has_block(blocks.push(b), #[trigger] txs[i].block_height) by {
        let w = choose|w: int| 0 <= w < blocks.len() && blocks[w].height == txs[i].block_height;
        assert(blocks.push(b)[w] == blocks[w]);
    }
}

/// Inserting a block twice with identical input leaves exactly what one
/// insert leaves: one stored row for its height, no duplicate and no error.
pub proof fn lemma_insert_block_idempotent(s: Seq<BlockModel>, b: BlockModel)
    ensures
        spec_insert_block(spec_insert_block(s, b), b) == spec_insert_block(s, b),
{
    if !spec_has_block(s, b.height) {
        assert(s.push(b)[s.len() as int] == b);
    }
}

/// Inserting a transaction twice with identical input leaves exactly what
/// one insert leaves.
pub proof fn lemma_insert_transaction_idempotent(s: Seq<TransactionModel>, t: TransactionModel)
    ensures
        spec_insert_transaction(spec_insert_transaction(s, t), t) == spec_insert_transaction(s, t),
{
    if !spec_has_txid(s, t.txid@) {
        assert(s.push(t)[s.len() as int] == t);
    }
}

/// Inserting an output twice with identical input leaves exactly what one
/// insert leaves.
pub proof fn lemma_insert_output_idempotent(s: Seq<OutputModel>, o: OutputModel)
    ensures
        spec_insert_output(spec_insert_output(s, o), o) == spec_insert_output(s, o),
{
    if !spec_has_output(s, o.txid@, o.vout) {
        assert(s.push(o)[s.len() as int] == o);
    }
}

} // verus!
