//! Data model of the indexer: the chain data handed in by the caller, the
//! decoded token-operation record, and the rows the store persists.
//!
//! Chain data reaches the library as plain values — scripts and witness
//! elements as byte vectors, hashes and transaction ids already rendered as
//! strings, timestamps as unix seconds — so that every rule stated about them
//! can be verified.

use vstd::prelude::*;

verus! {

/// Kind of token-protocol event decoded from a transaction.
#[derive(Clone, Copy, Debug, PartialEq, Eq, Structural)]
pub enum RuneOperation {
    Mint,
    Transfer,
    Burn,
    Etch,
}

impl RuneOperation {
    /// The lower-case label under which the operation is persisted.
    pub open spec fn spec_label(self) -> Seq<char> {
        match self {
            RuneOperation::Mint => "mint"@,
            RuneOperation::Transfer => "transfer"@,
            RuneOperation::Burn => "burn"@,
            RuneOperation::Etch => "etch"@,
        }
    }

    /// Renders the operation as its persisted label.
    pub fn to_string(&self) -> (r: String)
        ensures
            r@ == self.spec_label(),
    {
        match self {
            RuneOperation::Mint => "mint".to_owned(),
            RuneOperation::Transfer => "transfer".to_owned(),
            RuneOperation::Burn => "burn".to_owned(),
            RuneOperation::Etch => "etch".to_owned(),
        }
    }
}

/// Structured metadata attached to a token-creation operation.
#[derive(Debug)]
pub struct RuneMetadata {
    pub symbol: String,
    pub decimals: u32,
}

/// Mathematical value of a `RuneMetadata`.
#[verifier::ext_equal]
pub ghost struct RuneMetadataView {
    pub symbol: Seq<char>,
    pub decimals: u32,
}

impl View for RuneMetadata {
    type V = RuneMetadataView;

    open spec fn view(&self) -> RuneMetadataView {
        RuneMetadataView { symbol: self.symbol@, decimals: self.decimals }
    }
}

impl DeepView for RuneMetadata {
    type V = RuneMetadataView;

    open spec fn deep_view(&self) -> RuneMetadataView {
        self@
    }
}

impl Clone for RuneMetadata {
    fn clone(&self) -> (res: Self)
        ensures
            res == *self,
    {
        RuneMetadata { symbol: self.symbol.clone(), decimals: self.decimals }
    }
}

/// One decoded token operation, as produced by the protocol decoder.
#[derive(Debug)]
pub struct RunesData {
    pub rune_id: Option<String>,
    pub operation: RuneOperation,
    pub amount: Option<u128>,
    pub from_address: Option<String>,
    pub to_address: Option<String>,
    pub metadata: Option<RuneMetadata>,
}

/// Mathematical value of a `RunesData`.
#[verifier::ext_equal]
pub ghost struct RuneRecord {
    pub rune_id: Option<Seq<char>>,
    pub operation: RuneOperation,
    pub amount: Option<u128>,
    pub from_address: Option<Seq<char>>,
    pub to_address: Option<Seq<char>>,
    pub metadata: Option<RuneMetadataView>,
}

impl View for RunesData {
    type V = RuneRecord;

    open spec fn view(&self) -> RuneRecord {
        RuneRecord {
            rune_id: self.rune_id.deep_view(),
            operation: self.operation,
            amount: self.amount,
            from_address: self.from_address.deep_view(),
            to_address: self.to_address.deep_view(),
            metadata: self.metadata.deep_view(),
        }
    }
}

impl DeepView for RunesData {
    type V = RuneRecord;

    open spec fn deep_view(&self) -> RuneRecord {
        self@
    }
}

/// One output of a transaction: its value in base units, the raw script
/// bytes, and the address decoded from the script when one exists.
#[derive(Debug)]
pub struct TxOutData {
    pub value: i64,
    pub script_pubkey: Vec<u8>,
    pub address: Option<String>,
}

/// One input of a transaction, reduced to its witness stack.
#[derive(Debug)]
pub struct TxInData {
    pub witness: Vec<Vec<u8>>,
}

/// One transaction, with the derived quantities the indexer persists already
/// computed (id, serialized size, weight).
#[derive(Debug)]
pub struct TxData {
    pub txid: String,
    pub version: i32,
    pub lock_time: i64,
    pub size: i32,
    pub weight: i32,
    pub inputs: Vec<TxInData>,
    pub outputs: Vec<TxOutData>,
}

/// One block: header fields as plain values and the full transaction list.
#[derive(Debug)]
pub struct BlockData {
    pub hash: String,
    pub prev_hash: String,
    pub merkle_root: String,
    pub time: u32,
    pub txdata: Vec<TxData>,
}

/// Persisted block row, keyed by height.
#[derive(Debug)]
pub struct BlockModel {
    pub height: i64,
    pub hash: String,
    pub prev_hash: String,
    pub timestamp: i64,
    pub merkle_root: String,
    pub indexed_at: Option<i64>,
}

impl Clone for BlockModel {
    fn clone(&self) -> (res: Self)
        ensures
            res == *self,
    {
        BlockModel {
            height: self.height,
            hash: self.hash.clone(),
            prev_hash: self.prev_hash.clone(),
            timestamp: self.timestamp,
            merkle_root: self.merkle_root.clone(),
            indexed_at: self.indexed_at,
        }
    }
}

/// Persisted transaction row, keyed by transaction id.
#[derive(Debug)]
pub struct TransactionModel {
    pub txid: String,
    pub block_height: i64,
    pub block_hash: String,
    pub version: i32,
    pub locktime: i64,
    pub size: i32,
    pub weight: i32,
    pub fee: Option<i64>,
    pub timestamp: i64,
    pub indexed_at: Option<i64>,
}

impl Clone for TransactionModel {
    fn clone(&self) -> (res: Self)
        ensures
            res == *self,
    {
        TransactionModel {
            txid: self.txid.clone(),
            block_height: self.block_height,
            block_hash: self.block_hash.clone(),
            version: self.version,
            locktime: self.locktime,
            size: self.size,
            weight: self.weight,
            fee: self.fee,
            timestamp: self.timestamp,
            indexed_at: self.indexed_at,
        }
    }
}

/// Persisted output row, keyed by (transaction id, output index).
#[derive(Debug)]
pub struct OutputModel {
    pub txid: String,
    pub vout: i32,
    pub value: i64,
    pub script_pubkey: String,
    pub address: Option<String>,
    pub spent: bool,
    pub spending_txid: Option<String>,
    pub spending_vin: Option<i32>,
}

impl Clone for OutputModel {
    fn clone(&self) -> (res: Self)
        ensures
            res == *self,
    {
        OutputModel {
            txid: self.txid.clone(),
            vout: self.vout,
            value: self.value,
            script_pubkey: self.script_pubkey.clone(),
            address: self.address.clone(),
            spent: self.spent,
            spending_txid: self.spending_txid.clone(),
            spending_vin: self.spending_vin,
        }
    }
}

/// Persisted token-operation row. Unlike blocks and transactions these rows
/// are appended, not upserted; `id` is the position the store assigned.
#[derive(Debug)]
pub struct RunesTransactionModel {
    pub id: usize,
    pub txid: String,
    pub block_height: i64,
    pub rune_id: Option<String>,
    pub operation: String,
    pub amount: Option<u128>,
    pub from_address: Option<String>,
    pub to_address: Option<String>,
    pub metadata: Option<RuneMetadata>,
    pub timestamp: i64,
    pub indexed_at: Option<i64>,
}

impl Clone for RunesTransactionModel {
    fn clone(&self) -> (res: Self)
        ensures
            res == *self,
    {
        RunesTransactionModel {
            id: self.id,
            txid: self.txid.clone(),
            block_height: self.block_height,
            rune_id: self.rune_id.clone(),
            operation: self.operation.clone(),
            amount: self.amount,
            from_address: self.from_address.clone(),
            to_address: self.to_address.clone(),
            metadata: self.metadata.clone(),
            timestamp: self.timestamp,
            indexed_at: self.indexed_at,
        }
    }
}

} // verus!
