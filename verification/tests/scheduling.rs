use runes_indexer::database::Database;
use runes_indexer::models::{BlockData, TxData, TxInData, TxOutData};
use runes_indexer::scheduler::{IndexerCore, IterationPlan};

fn mint_script(amount: u64, id: [u8; 8]) -> Vec<u8> {
    let mut payload = b"RUNE".to_vec();
    payload.push(0x01);
    payload.extend_from_slice(&amount.to_le_bytes());
    payload.extend_from_slice(&id);
    let mut script = vec![0x6a, payload.len() as u8];
    script.extend_from_slice(&payload);
    script
}

fn simple_tx(txid: &str, script: Vec<u8>) -> TxData {
    TxData {
        txid: txid.to_string(),
        version: 2,
        lock_time: 0,
        size: 150,
        weight: 600,
        inputs: vec![TxInData { witness: vec![] }],
        outputs: vec![TxOutData { value: 1234, script_pubkey: script, address: None }],
    }
}

fn block_at(height: u64, txdata: Vec<TxData>) -> BlockData {
    BlockData {
        hash: format!("hash{}", height),
        prev_hash: format!("hash{}", height.wrapping_sub(1)),
        merkle_root: "root".to_string(),
        time: 1_700_000_000u32.wrapping_add(height as u32),
        txdata,
    }
}

fn fetched_range(first: u64, last: u64) -> Vec<Option<BlockData>> {
    (first..=last).map(|h| Some(block_at(h, vec![]))).collect()
}

#[test]
fn plan_is_idle_when_caught_up() {
    let core = IndexerCore::new(0, 3, 10);
    assert_eq!(core.plan_iteration(105, 105), IterationPlan::Idle);
    assert_eq!(core.plan_iteration(200, 105), IterationPlan::Idle);
}

#[test]
fn plan_bounds_the_batch() {
    let core = IndexerCore::new(0, 3, 10);
    assert_eq!(
        core.plan_iteration(100, 105),
        IterationPlan::Batch { first: 100, last: 103 }
    );
    assert_eq!(
        core.plan_iteration(104, 105),
        IterationPlan::Batch { first: 104, last: 105 }
    );
}

#[test]
fn initial_cursor_resumes_or_starts() {
    let core = IndexerCore::new(840_000, 3, 10);
    assert_eq!(core.initial_cursor(Some(841_500)), 841_500);
    assert_eq!(core.initial_cursor(None), 840_000);
}

#[test]
fn two_iterations_then_idle() {
    let core = IndexerCore::new(0, 3, 10);
    let mut db = Database::new();
    let head = 105;

    let cursor = core.run_iteration(&mut db, 100, head, &fetched_range(100, 103));
    assert_eq!(cursor, 104);
    assert_eq!(db.blocks.len(), 4);

    let cursor = core.run_iteration(&mut db, cursor, head, &fetched_range(104, 105));
    assert_eq!(cursor, 106);
    assert_eq!(db.blocks.len(), 6);

    let cursor = core.run_iteration(&mut db, cursor, head, &vec![]);
    assert_eq!(cursor, 106);
    assert_eq!(db.blocks.len(), 6);
}

#[test]
fn cursor_rests_at_head_when_distance_is_exact_batch_spans() {
    let core = IndexerCore::new(0, 3, 10);
    let mut db = Database::new();
    let cursor = core.run_iteration(&mut db, 100, 104, &fetched_range(100, 103));
    assert_eq!(cursor, 104);
    let cursor = core.run_iteration(&mut db, cursor, 104, &vec![]);
    assert_eq!(cursor, 104);
    assert_eq!(db.blocks.len(), 4);
}

#[test]
fn failed_fetch_is_skipped_and_cursor_still_advances() {
    let core = IndexerCore::new(0, 2, 10);
    let mut db = Database::new();
    let fetched = vec![Some(block_at(10, vec![])), None, Some(block_at(12, vec![]))];
    let cursor = core.process_batch(&mut db, 10, 12, &fetched);
    assert_eq!(cursor, 13);
    assert_eq!(db.blocks.len(), 2);
    assert!(db.get_block_by_height(10).is_some());
    assert!(db.get_block_by_height(11).is_none());
    assert!(db.get_block_by_height(12).is_some());
}

#[test]
fn process_block_persists_block_transactions_and_operations() {
    let core = IndexerCore::new(0, 3, 10);
    let mut db = Database::new();
    let block = block_at(500, vec![
        simple_tx("plain", vec![0x51]),
        simple_tx("minty", mint_script(1000, [1, 2, 3, 4, 5, 6, 7, 8])),
    ]);
    core.process_block(&mut db, &block, 500);

    assert_eq!(db.blocks.len(), 1);
    assert_eq!(db.blocks[0].height, 500);
    assert_eq!(db.blocks[0].hash, "hash500");
    assert_eq!(db.transactions.len(), 2);
    assert_eq!(db.outputs.len(), 2);
    assert_eq!(db.runes_transactions.len(), 1);

    let op = &db.runes_transactions[0];
    assert_eq!(op.txid, "minty");
    assert_eq!(op.block_height, 500);
    assert_eq!(op.operation, "mint");
    assert_eq!(op.amount, Some(1000));
    assert_eq!(op.rune_id.as_deref(), Some("RUNE_0102030405060708"));
    assert_eq!(op.timestamp, db.blocks[0].timestamp);
}

#[test]
fn output_rows_carry_the_script_hex_encoded() {
    let core = IndexerCore::new(0, 3, 10);
    let mut db = Database::new();
    let block = block_at(9, vec![simple_tx("t", vec![0x6a, 0x00])]);
    core.process_block(&mut db, &block, 9);
    assert_eq!(db.outputs.len(), 1);
    assert_eq!(db.outputs[0].script_pubkey, "6a00");
    assert_eq!(db.outputs[0].vout, 0);
    assert_eq!(db.outputs[0].value, 1234);
    assert!(!db.outputs[0].spent);
}

#[test]
fn reprocessing_a_range_is_idempotent_for_chain_rows() {
    let core = IndexerCore::new(0, 3, 10);
    let mut db = Database::new();
    let block = block_at(20, vec![simple_tx("m", mint_script(5, [0; 8]))]);
    core.process_block(&mut db, &block, 20);
    core.process_block(&mut db, &block, 20);
    assert_eq!(db.blocks.len(), 1);
    assert_eq!(db.transactions.len(), 1);
    assert_eq!(db.outputs.len(), 1);
    // the token-operation table is append-only, so the rerun duplicates its row
    assert_eq!(db.runes_transactions.len(), 2);
}

#[test]
fn transactions_reference_a_stored_block() {
    let core = IndexerCore::new(0, 3, 10);
    let mut db = Database::new();
    let block = block_at(77, vec![simple_tx("a", vec![0x51]), simple_tx("b", vec![0x52])]);
    core.process_block(&mut db, &block, 77);
    for tx in &db.transactions {
        assert!(db.blocks.iter().any(|b| b.height == tx.block_height));
    }
}
