use runes_indexer::models::{RuneOperation, TxData, TxInData, TxOutData};
use runes_indexer::runes::RunesProcessor;

fn carrier_script(payload: &[u8]) -> Vec<u8> {
    let mut script = vec![0x6a, payload.len() as u8];
    script.extend_from_slice(payload);
    script
}

fn plain_output(script: Vec<u8>) -> TxOutData {
    TxOutData { value: 1_000, script_pubkey: script, address: None }
}

fn tx_with(outputs: Vec<TxOutData>, inputs: Vec<TxInData>) -> TxData {
    TxData {
        txid: "ab".repeat(32),
        version: 2,
        lock_time: 0,
        size: 200,
        weight: 800,
        inputs,
        outputs,
    }
}

fn mint_payload(amount: u64, id: [u8; 8]) -> Vec<u8> {
    let mut p = b"RUNE".to_vec();
    p.push(0x01);
    p.extend_from_slice(&amount.to_le_bytes());
    p.extend_from_slice(&id);
    p
}

#[test]
fn mint_scenario_amount_and_id() {
    let processor = RunesProcessor::new();
    let payload = mint_payload(1000, [1, 2, 3, 4, 5, 6, 7, 8]);
    let tx = tx_with(vec![plain_output(carrier_script(&payload))], vec![]);
    let decoded = processor.process_transaction(&tx).expect("mint payload must decode");
    assert_eq!(decoded.operation, RuneOperation::Mint);
    assert_eq!(decoded.amount, Some(1000u128));
    assert_eq!(decoded.rune_id.as_deref(), Some("RUNE_0102030405060708"));
    assert!(decoded.from_address.is_none());
    assert!(decoded.to_address.is_none());
    assert!(decoded.metadata.is_none());
}

#[test]
fn rune_id_matches_hex_crate() {
    let processor = RunesProcessor::new();
    let id_bytes = [0xde, 0xad, 0xbe, 0xef, 0x00, 0x11, 0x22, 0x33];
    let payload = mint_payload(7, id_bytes);
    let tx = tx_with(vec![plain_output(carrier_script(&payload))], vec![]);
    let decoded = processor.process_transaction(&tx).unwrap();
    let expected = format!("RUNE_{}", hex::encode(id_bytes));
    assert_eq!(decoded.rune_id.as_deref(), Some(expected.as_str()));
}

#[test]
fn amount_is_little_endian() {
    let processor = RunesProcessor::new();
    let mut body = vec![0x02u8];
    body.extend_from_slice(&[0xe8, 0x03, 0, 0, 0, 0, 0, 0]);
    body.extend_from_slice(&[9, 9, 9, 9, 9, 9, 9, 9]);
    let decoded = processor.parse_runes_payload(&body).unwrap();
    assert_eq!(decoded.operation, RuneOperation::Transfer);
    assert_eq!(decoded.amount, Some(1000u128));
}

#[test]
fn amount_widened_to_u128() {
    let processor = RunesProcessor::new();
    let payload = mint_payload(u64::MAX, [0; 8]);
    let tx = tx_with(vec![plain_output(carrier_script(&payload))], vec![]);
    let decoded = processor.process_transaction(&tx).unwrap();
    assert_eq!(decoded.amount, Some(u64::MAX as u128));
}

#[test]
fn empty_payload_after_marker_is_no_operation() {
    let processor = RunesProcessor::new();
    let tx = tx_with(vec![plain_output(carrier_script(b"RUNE"))], vec![]);
    assert!(processor.process_transaction(&tx).is_none());
    assert!(processor.parse_runes_payload(&[]).is_none());
}

#[test]
fn unrecognized_operation_byte_is_no_operation() {
    let processor = RunesProcessor::new();
    let mut payload = b"RUNE".to_vec();
    payload.push(0x09);
    payload.extend_from_slice(&[0u8; 16]);
    let tx = tx_with(vec![plain_output(carrier_script(&payload))], vec![]);
    assert!(processor.process_transaction(&tx).is_none());
}

#[test]
fn etch_has_default_metadata_and_no_amount() {
    let processor = RunesProcessor::new();
    let mut body = vec![0x00u8];
    body.extend_from_slice(&[0xaa, 0xbb, 0xcc, 0xdd, 0xee, 0xff, 0x01, 0x02]);
    let decoded = processor.parse_runes_payload(&body).unwrap();
    assert_eq!(decoded.operation, RuneOperation::Etch);
    assert_eq!(decoded.amount, None);
    assert_eq!(decoded.rune_id.as_deref(), Some("RUNE_aabbccddeeff0102"));
    let md = decoded.metadata.expect("etch carries metadata");
    assert_eq!(md.symbol, "RUNE");
    assert_eq!(md.decimals, 8);
}

#[test]
fn truncated_etch_is_no_operation() {
    let processor = RunesProcessor::new();
    let body = vec![0x00u8, 1, 2, 3, 4, 5, 6, 7];
    assert!(processor.parse_runes_payload(&body).is_none());
}

#[test]
fn truncated_mint_identifier_is_no_operation() {
    let processor = RunesProcessor::new();
    let mut body = vec![0x01u8];
    body.extend_from_slice(&[0u8; 15]);
    assert!(processor.parse_runes_payload(&body).is_none());
}

#[test]
fn burn_decodes_like_transfer() {
    let processor = RunesProcessor::new();
    let mut body = vec![0x03u8];
    body.extend_from_slice(&42u64.to_le_bytes());
    body.extend_from_slice(&[8, 7, 6, 5, 4, 3, 2, 1]);
    let decoded = processor.parse_runes_payload(&body).unwrap();
    assert_eq!(decoded.operation, RuneOperation::Burn);
    assert_eq!(decoded.amount, Some(42u128));
    assert_eq!(decoded.rune_id.as_deref(), Some("RUNE_0807060504030201"));
}

#[test]
fn no_marker_anywhere_is_no_operation() {
    let processor = RunesProcessor::new();
    let tx = tx_with(
        vec![
            plain_output(vec![0x76, 0xa9, 0x14]),
            plain_output(carrier_script(b"NOPE_data")),
        ],
        vec![TxInData { witness: vec![vec![0x51], b"unrelated".to_vec()] }],
    );
    assert!(processor.process_transaction(&tx).is_none());
}

#[test]
fn first_matching_output_wins() {
    let processor = RunesProcessor::new();
    let first = mint_payload(1, [1; 8]);
    let later = mint_payload(2, [2; 8]);
    let tx = tx_with(
        vec![
            plain_output(carrier_script(&first)),
            plain_output(vec![0x51]),
            plain_output(carrier_script(&later)),
        ],
        vec![],
    );
    let decoded = processor.process_transaction(&tx).unwrap();
    assert_eq!(decoded.amount, Some(1u128));
    assert_eq!(decoded.rune_id.as_deref(), Some("RUNE_0101010101010101"));
}

#[test]
fn output_match_takes_priority_over_witness() {
    let processor = RunesProcessor::new();
    let from_output = mint_payload(11, [3; 8]);
    let mut from_witness = b"RUNE".to_vec();
    from_witness.extend_from_slice(&mint_payload(22, [4; 8])[4..]);
    let tx = tx_with(
        vec![plain_output(carrier_script(&from_output))],
        vec![TxInData { witness: vec![from_witness] }],
    );
    let decoded = processor.process_transaction(&tx).unwrap();
    assert_eq!(decoded.amount, Some(11u128));
}

#[test]
fn witness_element_decodes_when_no_output_matches() {
    let processor = RunesProcessor::new();
    let mut element = b"RUNE".to_vec();
    element.push(0x02);
    element.extend_from_slice(&77u64.to_le_bytes());
    element.extend_from_slice(&[9, 8, 7, 6, 5, 4, 3, 2]);
    let tx = tx_with(
        vec![plain_output(vec![0x76, 0xa9])],
        vec![
            TxInData { witness: vec![] },
            TxInData { witness: vec![vec![0x00], element] },
        ],
    );
    let decoded = processor.process_transaction(&tx).unwrap();
    assert_eq!(decoded.operation, RuneOperation::Transfer);
    assert_eq!(decoded.amount, Some(77u128));
    assert_eq!(decoded.rune_id.as_deref(), Some("RUNE_0908070605040302"));
}

#[test]
fn first_marker_bearing_witness_element_wins() {
    let processor = RunesProcessor::new();
    let mut a = b"RUNE".to_vec();
    a.extend_from_slice(&mint_payload(5, [5; 8])[4..]);
    let mut b = b"RUNE".to_vec();
    b.extend_from_slice(&mint_payload(6, [6; 8])[4..]);
    let tx = tx_with(
        vec![],
        vec![
            TxInData { witness: vec![vec![0x01], a] },
            TxInData { witness: vec![b] },
        ],
    );
    let decoded = processor.process_transaction(&tx).unwrap();
    assert_eq!(decoded.amount, Some(5u128));
}

#[test]
fn short_carrier_script_is_skipped() {
    let processor = RunesProcessor::new();
    let tx = tx_with(vec![plain_output(vec![0x6a])], vec![]);
    assert!(processor.process_transaction(&tx).is_none());
}

#[test]
fn operation_labels() {
    assert_eq!(RuneOperation::Mint.to_string(), "mint");
    assert_eq!(RuneOperation::Transfer.to_string(), "transfer");
    assert_eq!(RuneOperation::Burn.to_string(), "burn");
    assert_eq!(RuneOperation::Etch.to_string(), "etch");
}
