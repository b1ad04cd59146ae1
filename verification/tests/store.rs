use runes_indexer::api::{default_limit, get_stats, HealthResponse, PaginationParams, Stats};
use runes_indexer::database::Database;
use runes_indexer::error::IndexerError;
use runes_indexer::models::{BlockModel, OutputModel, RunesTransactionModel, TransactionModel};

fn block_row(height: i64, hash: &str) -> BlockModel {
    BlockModel {
        height,
        hash: hash.to_string(),
        prev_hash: "prev".to_string(),
        timestamp: 1_700_000_000 + height,
        merkle_root: "root".to_string(),
        indexed_at: None,
    }
}

fn tx_row(txid: &str, block_height: i64) -> TransactionModel {
    TransactionModel {
        txid: txid.to_string(),
        block_height,
        block_hash: "hash".to_string(),
        version: 2,
        locktime: 0,
        size: 250,
        weight: 1000,
        fee: None,
        timestamp: 1_700_000_000,
        indexed_at: None,
    }
}

fn output_row(txid: &str, vout: i32) -> OutputModel {
    OutputModel {
        txid: txid.to_string(),
        vout,
        value: 5000,
        script_pubkey: "6a00".to_string(),
        address: None,
        spent: false,
        spending_txid: None,
        spending_vin: None,
    }
}

fn runes_row(txid: &str) -> RunesTransactionModel {
    RunesTransactionModel {
        id: 0,
        txid: txid.to_string(),
        block_height: 7,
        rune_id: Some("RUNE_0000000000000001".to_string()),
        operation: "mint".to_string(),
        amount: Some(1000),
        from_address: None,
        to_address: None,
        metadata: None,
        timestamp: 1_700_000_000,
        indexed_at: None,
    }
}

#[test]
fn insert_block_twice_leaves_one_row() {
    let mut db = Database::new();
    db.insert_block(block_row(7, "h7"));
    db.insert_block(block_row(7, "h7"));
    assert_eq!(db.blocks.len(), 1);
    assert_eq!(db.blocks[0].hash, "h7");
}

#[test]
fn insert_block_duplicate_height_keeps_first() {
    let mut db = Database::new();
    db.insert_block(block_row(7, "first"));
    db.insert_block(block_row(7, "second"));
    assert_eq!(db.blocks.len(), 1);
    assert_eq!(db.blocks[0].hash, "first");
}

#[test]
fn insert_transaction_twice_leaves_one_row() {
    let mut db = Database::new();
    db.insert_block(block_row(7, "h7"));
    db.insert_transaction(tx_row("t1", 7), vec![output_row("t1", 0), output_row("t1", 1)]);
    db.insert_transaction(tx_row("t1", 7), vec![output_row("t1", 0), output_row("t1", 1)]);
    assert_eq!(db.transactions.len(), 1);
    assert_eq!(db.outputs.len(), 2);
}

#[test]
fn duplicate_output_key_is_skipped() {
    let mut db = Database::new();
    db.insert_block(block_row(7, "h7"));
    db.insert_transaction(tx_row("t1", 7), vec![output_row("t1", 0), output_row("t1", 0)]);
    assert_eq!(db.outputs.len(), 1);
}

#[test]
fn runes_table_is_append_only() {
    let mut db = Database::new();
    db.insert_runes_transaction(runes_row("t1"));
    db.insert_runes_transaction(runes_row("t1"));
    assert_eq!(db.runes_transactions.len(), 2);
    assert_eq!(db.runes_transactions[0].id, 0);
    assert_eq!(db.runes_transactions[1].id, 1);
}

#[test]
fn last_block_height_is_the_maximum() {
    let mut db = Database::new();
    assert_eq!(db.get_last_block_height(), None);
    db.insert_block(block_row(5, "h5"));
    db.insert_block(block_row(9, "h9"));
    db.insert_block(block_row(7, "h7"));
    assert_eq!(db.get_last_block_height(), Some(9));
}

#[test]
fn get_block_by_height_finds_the_row() {
    let mut db = Database::new();
    db.insert_block(block_row(5, "h5"));
    db.insert_block(block_row(6, "h6"));
    let found = db.get_block_by_height(6).expect("stored height must be found");
    assert_eq!(found.hash, "h6");
    assert_eq!(found.height, 6);
    assert!(db.get_block_by_height(8).is_none());
}

#[test]
fn get_transaction_finds_the_row() {
    let mut db = Database::new();
    db.insert_block(block_row(7, "h7"));
    db.insert_transaction(tx_row("t1", 7), vec![]);
    db.insert_transaction(tx_row("t2", 7), vec![]);
    let found = db.get_transaction("t2").expect("stored id must be found");
    assert_eq!(found.txid, "t2");
    assert!(db.get_transaction("t3").is_none());
}

#[test]
fn pagination_orders_by_recency() {
    let mut db = Database::new();
    for name in ["a", "b", "c", "d", "e"] {
        db.insert_runes_transaction(runes_row(name));
    }
    let page = db.get_runes_transactions(2, 1);
    assert_eq!(page.len(), 2);
    assert_eq!(page[0].txid, "d");
    assert_eq!(page[1].txid, "c");
}

#[test]
fn pagination_beyond_end_is_empty() {
    let mut db = Database::new();
    db.insert_runes_transaction(runes_row("a"));
    assert!(db.get_runes_transactions(10, 1).is_empty());
    let all = db.get_runes_transactions(10, 0);
    assert_eq!(all.len(), 1);
}

#[test]
fn stats_report_last_indexed_height() {
    let mut db = Database::new();
    let empty: Stats = get_stats(&db);
    assert_eq!(empty.last_indexed_block, None);
    assert_eq!(empty.total_transactions, 0);
    assert_eq!(empty.total_runes_transactions, 0);
    db.insert_block(block_row(42, "h42"));
    let after = get_stats(&db);
    assert_eq!(after.last_indexed_block, Some(42));
}

#[test]
fn health_answer_is_ok() {
    let health = HealthResponse::new("0.1.0".to_string());
    assert_eq!(health.status, "ok");
    assert_eq!(health.version, "0.1.0");
}

#[test]
fn pagination_defaults() {
    assert_eq!(default_limit(), 50);
    let params = PaginationParams::default();
    assert_eq!(params.limit, 50);
    assert_eq!(params.offset, 0);
}

#[test]
fn error_response_parts() {
    let (code, msg) = IndexerError::Database("boom".to_string()).response_parts();
    assert_eq!((code, msg.as_str()), (500, "Database error"));
    let (code, msg) = IndexerError::Api("bad request".to_string()).response_parts();
    assert_eq!((code, msg.as_str()), (400, "bad request"));
    let (code, msg) = IndexerError::Generic("oops".to_string()).response_parts();
    assert_eq!((code, msg.as_str()), (500, "Internal server error"));
    let (code, _) = IndexerError::BitcoinRpc("down".to_string()).response_parts();
    assert_eq!(code, 500);
}
