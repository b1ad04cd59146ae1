//! Protocol decoder: recognizes the token-protocol marker in a transaction's
//! outputs or witness data and decodes one operation record.
//!
//! The decoder is a pure function over the transaction's bytes. It never
//! fails: unrecognized or malformed input yields no operation. Candidates are
//! inspected in order — data-carrier outputs first, then witness stack
//! elements input by input — and the first candidate carrying the 4-byte
//! marker decides the result.

use vstd::prelude::*;
use vstd::bytes::{spec_u64_from_le_bytes, u64_from_le_bytes};
use vstd::slice::slice_subrange;
use vstd::string::StringExecFns;

use crate::models::{
    RuneMetadata, RuneMetadataView, RuneOperation, RuneRecord, RunesData, TxData, TxInData,
    TxOutData,
};

verus! {

/// The ASCII marker `RUNE` that opens every token-protocol payload.
pub open spec fn spec_marker() -> Seq<u8> {
    seq![0x52u8, 0x55u8, 0x4eu8, 0x45u8]
}

/// A data-carrier (null-data) script: its first byte is the data-carrier
/// opcode 0x6a.
pub open spec fn spec_is_data_carrier(script: Seq<u8>) -> bool {
    script.len() >= 1 && script[0] == 0x6a
}

/// A payload begins with the 4-byte marker.
pub open spec fn spec_has_marker(payload: Seq<u8>) -> bool {
    payload.len() >= 4 && payload.subrange(0, 4) == spec_marker()
}

/// An output is a candidate match: a data-carrier script long enough to hold
/// the opcode-and-length header, whose embedded payload opens with the marker.
pub open spec fn spec_output_matches(script: Seq<u8>) -> bool {
    spec_is_data_carrier(script) && script.len() >= 2 && spec_has_marker(script.skip(2))
}

/// The operation body of a matching output: everything after the opcode, the
/// length byte and the 4 marker bytes.
pub open spec fn spec_output_body(script: Seq<u8>) -> Seq<u8>
    recommends
        spec_output_matches(script),
{
    script.skip(6)
}

/// The operation kind selected by a payload's first byte, if recognized.
pub open spec fn spec_operation_of(byte: u8) -> Option<RuneOperation> {
    if byte == 0x00 {
        Some(RuneOperation::Etch)
    } else if byte == 0x01 {
        Some(RuneOperation::Mint)
    } else if byte == 0x02 {
        Some(RuneOperation::Transfer)
    } else if byte == 0x03 {
        Some(RuneOperation::Burn)
    } else {
        None
    }
}

/// Two lowercase hexadecimal digits for one nibble value.
pub open spec fn spec_hex_digit(n: u8) -> char
    recommends
        n < 16,
{
    if n < 10 {
        ((48 + n) as u8) as char
    } else {
        ((87 + n) as u8) as char
    }
}

/// Lowercase hexadecimal rendering of a byte sequence, two digits per byte,
/// high nibble first.
pub open spec fn spec_hex_of(bytes: Seq<u8>) -> Seq<char>
    decreases bytes.len(),
{
    if bytes.len() == 0 {
        Seq::empty()
    } else {
        seq![spec_hex_digit(bytes[0] / 16), spec_hex_digit(bytes[0] % 16)] + spec_hex_of(
            bytes.drop_first(),
        )
    }
}

/// The token identifier derived from its 8 identifier bytes.
pub open spec fn spec_rune_id(id_bytes: Seq<u8>) -> Seq<char> {
    "RUNE_"@ + spec_hex_of(id_bytes)
}

/// The fixed metadata attached to a token-creation operation.
pub open spec fn spec_default_metadata() -> RuneMetadataView {
    RuneMetadataView { symbol: "RUNE"@, decimals: 8 }
}

/// What a payload body (the bytes immediately following the marker) decodes
/// to. An empty body, an unrecognized operation byte, or a body too short for
/// its operation's layout yields no operation — never an error.
pub open spec fn spec_decode_payload(body: Seq<u8>) -> Option<RuneRecord> {
    if body.len() == 0 {
        None
    } else {
        match spec_operation_of(body[0]) {
            None => None,
            Some(op) => if op == RuneOperation::Etch {
                if body.len() >= 9 {
                    Some(
                        RuneRecord {
                            rune_id: Some(spec_rune_id(body.subrange(1, 9))),
                            operation: RuneOperation::Etch,
                            amount: None,
                            from_address: None,
                            to_address: None,
                            metadata: Some(spec_default_metadata()),
                        },
                    )
                } else {
                    None
                }
            } else {
                if body.len() >= 17 {
                    Some(
                        RuneRecord {
                            rune_id: Some(spec_rune_id(body.subrange(9, 17))),
                            operation: op,
                            amount: Some(spec_u64_from_le_bytes(body.subrange(1, 9)) as u128),
                            from_address: None,
                            to_address: None,
                            metadata: None,
                        },
                    )
                } else {
                    None
                }
            },
        }
    }
}

/// The body of the first matching output, scanning in output order.
pub open spec fn spec_scan_outputs(outputs: Seq<TxOutData>) -> Option<Seq<u8>>
    decreases outputs.len(),
{
    if outputs.len() == 0 {
        None
    } else if spec_output_matches(outputs[0].script_pubkey@) {
        Some(spec_output_body(outputs[0].script_pubkey@))
    } else {
        spec_scan_outputs(outputs.drop_first())
    }
}

/// The body of the first marker-bearing element of one witness stack.
pub open spec fn spec_scan_elems(elems: Seq<Vec<u8>>) -> Option<Seq<u8>>
    decreases elems.len(),
{
    if elems.len() == 0 {
        None
    } else if spec_has_marker(elems[0]@) {
        Some(elems[0]@.skip(4))
    } else {
        spec_scan_elems(elems.drop_first())
    }
}

/// The body of the first marker-bearing witness element, scanning inputs in
/// order and each input's stack in order.
pub open spec fn spec_scan_witness(inputs: Seq<TxInData>) -> Option<Seq<u8>>
    decreases inputs.len(),
{
    if inputs.len() == 0 {
        None
    } else {
        match spec_scan_elems(inputs[0].witness@) {
            Some(body) => Some(body),
            None => spec_scan_witness(inputs.drop_first()),
        }
    }
}

/// What the witness-data pass of the decoder yields for a transaction.
pub open spec fn spec_parse_witness(inputs: Seq<TxInData>) -> Option<RuneRecord> {
    match spec_scan_witness(inputs) {
        Some(body) => spec_decode_payload(body),
        None => None,
    }
}

/// What one output yields: the decoded body when the output matches, nothing
/// otherwise.
pub open spec fn spec_parse_op_return(script: Seq<u8>) -> Option<RuneRecord> {
    if spec_output_matches(script) {
        spec_decode_payload(spec_output_body(script))
    } else {
        None
    }
}

/// What the decoder yields for a whole transaction: the first matching output
/// decides; only when no output matches are the witness stacks scanned.
pub open spec fn spec_decode_tx(tx: TxData) -> Option<RuneRecord> {
    match spec_scan_outputs(tx.outputs@) {
        Some(body) => spec_decode_payload(body),
        None => spec_parse_witness(tx.inputs@),
    }
}

/// Relies on `hex::encode` from the hex crate: it renders each input byte as
/// two lowercase hexadecimal digits, high nibble first, in input order.
#[verifier::external_body]
pub(crate) fn hex_encode(bytes: &[u8]) -> (r: String)
    ensures
        r@ == spec_hex_of(bytes@),
{
    hex::encode(bytes)
}

/// Builds the persisted token identifier from its 8 identifier bytes.
fn rune_id_string(id_bytes: &[u8]) -> (r: String)
    ensures
        r@ == spec_rune_id(id_bytes@),
{
    let mut id: String = "RUNE_".to_owned();
    let digits = hex_encode(id_bytes);
    id.append(digits.as_str());
    id
}

/// Tests whether a payload opens with the 4-byte marker.
fn has_marker(payload: &[u8]) -> (b: bool)
    ensures
        b == spec_has_marker(payload@),
{
    if payload.len() < 4 {
        return false;
    }
    let b = payload[0] == 0x52 && payload[1] == 0x55 && payload[2] == 0x4e && payload[3] == 0x45;
    proof {
        if b {
            assert(payload@.subrange(0, 4) =~= spec_marker());
        } else {
            if spec_has_marker(payload@) {
                assert(payload@.subrange(0, 4)[0] == payload@[0]);
                assert(payload@.subrange(0, 4)[1] == payload@[1]);
                assert(payload@.subrange(0, 4)[2] == payload@[2]);
                assert(payload@.subrange(0, 4)[3] == payload@[3]);
            }
        }
    }
    b
}

/// Tests whether an output's script is a matching data-carrier candidate.
fn output_matches(script: &Vec<u8>) -> (b: bool)
    ensures
        b == spec_output_matches(script@),
{
    if script.len() < 2 {
        return false;
    }
    if script[0] != 0x6a {
        return false;
    }
    let payload = slice_subrange(script.as_slice(), 2, script.len());
    proof {
        assert(payload@ =~= script@.skip(2));
    }
    has_marker(payload)
}

/// The protocol decoder. It holds no state; decoding is a pure function of
/// the transaction handed to it.
pub struct RunesProcessor;

impl RunesProcessor {
    pub fn new() -> Self {
        RunesProcessor
    }

    /// Decodes the operation body that follows the marker.
    pub fn parse_runes_payload(&self, payload: &[u8]) -> (r: Option<RunesData>)
        ensures
            r.deep_view() == spec_decode_payload(payload@),
    {
        if payload.len() == 0 {
            return None;
        }
        let op_byte = payload[0];
        let operation = if op_byte == 0x00 {
            RuneOperation::Etch
        } else if op_byte == 0x01 {
            RuneOperation::Mint
        } else if op_byte == 0x02 {
            RuneOperation::Transfer
        } else if op_byte == 0x03 {
            RuneOperation::Burn
        } else {
            return None;
        };
        if operation == RuneOperation::Etch {
            if payload.len() < 9 {
                return None;
            }
            let id = rune_id_string(slice_subrange(payload, 1, 9));
            Some(
                RunesData {
                    rune_id: Some(id),
                    operation,
                    amount: None,
                    from_address: None,
                    to_address: None,
                    metadata: Some(RuneMetadata { symbol: "RUNE".to_owned(), decimals: 8 }),
                },
            )
        } else {
            if payload.len() < 17 {
                return None;
            }
            let amount = u64_from_le_bytes(slice_subrange(payload, 1, 9));
            let id = rune_id_string(slice_subrange(payload, 9, 17));
            Some(
                RunesData {
                    rune_id: Some(id),
                    operation,
                    amount: Some(amount as u128),
                    from_address: None,
                    to_address: None,
                    metadata: None,
                },
            )
        }
    }

    /// Decodes one output: yields the operation its data-carrier payload
    /// holds, when the output is a matching candidate.
    pub fn parse_op_return(&self, output: &TxOutData) -> (r: Option<RunesData>)
        ensures
            r.deep_view() == spec_parse_op_return(output.script_pubkey@),
    {
        let script = &output.script_pubkey;
        if !output_matches(script) {
            return None;
        }
        let body = slice_subrange(script.as_slice(), 6, script.len());
        proof {
            assert(script@.skip(2).len() >= 4);
            assert(body@ =~= spec_output_body(script@));
        }
        self.parse_runes_payload(body)
    }

    /// Scans the witness stacks, input by input and element by element, and
    /// decodes the first element that opens with the marker.
    pub fn parse_witness_data(&self, tx: &TxData) -> (r: Option<RunesData>)
        ensures
            r.deep_view() == spec_parse_witness(tx.inputs@),
    {
        let num_inputs = tx.inputs.len();
        let mut i: usize = 0;
        while i < num_inputs
            invariant
                num_inputs == tx.inputs@.len(),
                0 <= i <= num_inputs,
                forall|j: int|
                    0 <= j < i ==> spec_scan_elems(#[trigger] tx.inputs@[j].witness@) is None,
            decreases num_inputs - i,
        {
            let witness = &tx.inputs[i].witness;
            let num_elems = witness.len();
            let mut k: usize = 0;
            while k < num_elems
                invariant
                    num_inputs == tx.inputs@.len(),
                    0 <= i < num_inputs,
                    forall|j: int|
                        0 <= j < i ==> spec_scan_elems(#[trigger] tx.inputs@[j].witness@) is None,
                    witness@ == tx.inputs@[i as int].witness@,
                    num_elems == witness@.len(),
                    0 <= k <= num_elems,
                    forall|l: int| 0 <= l < k ==> !spec_has_marker(#[trigger] witness@[l]@),
                decreases num_elems - k,
            {
                let elem = &witness[k];
                if has_marker(elem.as_slice()) {
                    let body = slice_subrange(elem.as_slice(), 4, elem.len());
                    proof {
                        lemma_scan_elems_skip(witness@, k as int);
                        assert(witness@.skip(k as int)[0] == witness@[k as int]);
                        assert(body@ =~= witness@[k as int]@.skip(4));
                        lemma_scan_witness_skip(tx.inputs@, i as int);
                        assert(tx.inputs@.skip(i as int)[0] == tx.inputs@[i as int]);
                    }
                    return self.parse_runes_payload(body);
                }
                k += 1;
            }
            proof {
                lemma_scan_elems_skip(witness@, k as int);
                assert(witness@.skip(k as int) =~= Seq::<Vec<u8>>::empty());
            }
            i += 1;
        }
        proof {
            lemma_scan_witness_skip(tx.inputs@, i as int);
            assert(tx.inputs@.skip(i as int) =~= Seq::<TxInData>::empty());
        }
        None
    }

    /// Decodes one transaction. The outputs are scanned in order and the
    /// first matching data-carrier output decides the result; only when no
    /// output matches are the witness stacks consulted. Unrecognized or
    /// malformed input yields no operation — the decoder never fails.
    pub fn process_transaction(&self, tx: &TxData) -> (r: Option<RunesData>)
        ensures
            r.deep_view() == spec_decode_tx(*tx),
    {
        let num_outputs = tx.outputs.len();
        let mut i: usize = 0;
        while i < num_outputs
            invariant
                num_outputs == tx.outputs@.len(),
                0 <= i <= num_outputs,
                forall|j: int|
                    0 <= j < i ==> !spec_output_matches(#[trigger] tx.outputs@[j].script_pubkey@),
            decreases num_outputs - i,
        {
            let output = &tx.outputs[i];
            if output_matches(&output.script_pubkey) {
                proof {
                    lemma_scan_outputs_skip(tx.outputs@, i as int);
                    assert(tx.outputs@.skip(i as int)[0] == tx.outputs@[i as int]);
                }
                return self.parse_op_return(output);
            }
            i += 1;
        }
        proof {
            lemma_scan_outputs_skip(tx.outputs@, i as int);
            assert(tx.outputs@.skip(i as int) =~= Seq::<TxOutData>::empty());
        }
        self.parse_witness_data(tx)
    }
}

/// Every payload body whose operation byte carries an amount (mint, transfer
/// or burn) and whose length suffices decodes to an operation whose amount is
/// exactly the little-endian 64-bit value of the designated bytes 1..9.
pub proof fn lemma_amount_is_le_of_designated_bytes(body: Seq<u8>)
    requires
        body.len() >= 17,
        body[0] == 0x01 || body[0] == 0x02 || body[0] == 0x03,
    ensures
        (spec_decode_payload(body) is Some),
        spec_decode_payload(body).unwrap().amount == Some(
            spec_u64_from_le_bytes(body.subrange(1, 9)) as u128,
        ),
{
}

/// A transaction that carries the marker in no output payload and in no
/// witness element decodes to no operation.
pub proof fn lemma_no_marker_yields_nothing(tx: TxData)
    requires
        forall|i: int|
            0 <= i < tx.outputs@.len() ==> !spec_has_marker(
                #[trigger] tx.outputs@[i].script_pubkey@.skip(2),
            ),
        forall|i: int, k: int|
            0 <= i < tx.inputs@.len() && 0 <= k < tx.inputs@[i].witness@.len()
                ==> !spec_has_marker(#[trigger] tx.inputs@[i].witness@[k]@),
    ensures
        spec_decode_tx(tx) is None,
{
    assert forall|j: int|
        0 <= j < tx.outputs@.len() implies !spec_output_matches(
        #[trigger] tx.outputs@[j].script_pubkey@,
    ) by {
        assert(!spec_has_marker(tx.outputs@[j].script_pubkey@.skip(2)));
    }
    lemma_scan_outputs_skip(tx.outputs@, tx.outputs@.len() as int);
    assert(tx.outputs@.skip(tx.outputs@.len() as int) =~= Seq::<TxOutData>::empty());
    assert forall|j: int|
        0 <= j < tx.inputs@.len() implies spec_scan_elems(
        #[trigger] tx.inputs@[j].witness@,
    ) is None by {
        let w = tx.inputs@[j].witness@;
        assert forall|l: int| 0 <= l < w.len() implies !spec_has_marker(#[trigger] w[l]@) by {
            assert(!spec_has_marker(tx.inputs@[j].witness@[l]@));
        }
        lemma_scan_elems_skip(w, w.len() as int);
        assert(w.skip(w.len() as int) =~= Seq::<Vec<u8>>::empty());
    }
    lemma_scan_witness_skip(tx.inputs@, tx.inputs@.len() as int);
    assert(tx.inputs@.skip(tx.inputs@.len() as int) =~= Seq::<TxInData>::empty());
}

/// Decoding does not depend on later candidates: the first matching output
/// alone decides the result, whatever stands in the outputs after it or in
/// the witness data.
pub proof fn lemma_first_match_decides(tx: TxData, i: int)
    requires
        0 <= i < tx.outputs@.len(),
        spec_output_matches(tx.outputs@[i].script_pubkey@),
        forall|j: int| 0 <= j < i ==> !spec_output_matches(#[trigger] tx.outputs@[j].script_pubkey@),
    ensures
        spec_decode_tx(tx) == spec_decode_payload(spec_output_body(tx.outputs@[i].script_pubkey@)),
{
    lemma_scan_outputs_skip(tx.outputs@, i);
    assert(tx.outputs@.skip(i)[0] == tx.outputs@[i]);
}

/// The whole decoder, on a transaction whose first matching output carries an
/// amount-bearing operation with a long enough body, returns that operation
/// with the amount read little-endian from the designated bytes.
pub proof fn lemma_decoded_amount_from_first_match(tx: TxData, i: int, body: Seq<u8>)
    requires
        0 <= i < tx.outputs@.len(),
        spec_output_matches(tx.outputs@[i].script_pubkey@),
        forall|j: int| 0 <= j < i ==> !spec_output_matches(#[trigger] tx.outputs@[j].script_pubkey@),
        body == spec_output_body(tx.outputs@[i].script_pubkey@),
        body.len() >= 17,
        body[0] == 0x01 || body[0] == 0x02 || body[0] == 0x03,
    ensures
        (spec_decode_tx(tx) is Some),
        spec_decode_tx(tx).unwrap().amount == Some(
            spec_u64_from_le_bytes(body.subrange(1, 9)) as u128,
        ),
{
    lemma_first_match_decides(tx, i);
    lemma_amount_is_le_of_designated_bytes(body);
}

/// A scan skips any prefix of non-matching outputs.
proof fn lemma_scan_outputs_skip(outputs: Seq<TxOutData>, i: int)
    requires
        0 <= i <= outputs.len(),
        forall|j: int| 0 <= j < i ==> !spec_output_matches(#[trigger] outputs[j].script_pubkey@),
    ensures
        spec_scan_outputs(outputs) == spec_scan_outputs(outputs.skip(i)),
    decreases i,
{
    if i > 0 {
        lemma_scan_outputs_skip(outputs.drop_first(), i - 1);
        assert(outputs.drop_first().skip(i - 1) =~= outputs.skip(i));
        assert(outputs.skip(0) =~= outputs);
    } else {
        assert(outputs.skip(0) =~= outputs);
    }
}

/// A scan skips any prefix of marker-free witness elements.
proof fn lemma_scan_elems_skip(elems: Seq<Vec<u8>>, k: int)
    requires
        0 <= k <= elems.len(),
        forall|l: int| 0 <= l < k ==> !spec_has_marker(#[trigger] elems[l]@),
    ensures
        spec_scan_elems(elems) == spec_scan_elems(elems.skip(k)),
    decreases k,
{
    if k > 0 {
        lemma_scan_elems_skip(elems.drop_first(), k - 1);
        assert(elems.drop_first().skip(k - 1) =~= elems.skip(k));
    } else {
        assert(elems.skip(0) =~= elems);
    }
}

/// A scan skips any prefix of inputs whose stacks hold no marker.
proof fn lemma_scan_witness_skip(inputs: Seq<TxInData>, i: int)
    requires
        0 <= i <= inputs.len(),
        forall|j: int| 0 <= j < i ==> spec_scan_elems(#[trigger] inputs[j].witness@) is None,
    ensures
        spec_scan_witness(inputs) == spec_scan_witness(inputs.skip(i)),
    decreases i,
{
    if i > 0 {
        lemma_scan_witness_skip(inputs.drop_first(), i - 1);
        assert(inputs.drop_first().skip(i - 1) =~= inputs.skip(i));
    } else {
        assert(inputs.skip(0) =~= inputs);
    }
}

} // verus!
