//! One input for every finalization failure the engine can report.

use revault_tx::error::TxError;
use revault_tx::record::{InputRecord, OutPoint, SignableTx, TxInData, TxOutData};
use revault_tx::sigmap::SigMap;

fn one_input_tx(rec: InputRecord) -> SignableTx {
    SignableTx {
        version: 2,
        lock_time: 0,
        inputs: vec![TxInData {
            outpoint: OutPoint { txid: vec![1; 32], vout: 0 },
            sequence: u32::MAX,
        }],
        outputs: vec![TxOutData { value: 1, script_pubkey: vec![] }],
        input_records: vec![rec],
        output_records: vec![revault_tx::record::OutputRecord { witness_script: None }],
    }
}

fn fresh_record(utxo: Option<TxOutData>, ws: Option<Vec<u8>>) -> InputRecord {
    InputRecord {
        witness_utxo: utxo,
        witness_script: ws,
        partial_sigs: SigMap { entries: vec![] },
        final_witness: None,
    }
}

/// A P2WSH-shaped script (the hash need not match anything).
fn p2wsh_shaped() -> Vec<u8> {
    let mut spk = vec![0x00, 0x20];
    spk.extend(std::iter::repeat(0xabu8).take(32));
    spk
}

#[test]
fn input_count_mismatch() {
    let mut tx = one_input_tx(fresh_record(None, None));
    tx.input_records.clear();
    assert_eq!(tx.finalize(), Err(TxError::InputCountMismatch));
}

#[test]
fn missing_previous_output() {
    let mut tx = one_input_tx(fresh_record(None, None));
    assert_eq!(tx.finalize(), Err(TxError::MissingPreviousOutput));
}

#[test]
fn missing_witness_script() {
    let utxo = TxOutData { value: 5, script_pubkey: p2wsh_shaped() };
    let mut tx = one_input_tx(fresh_record(Some(utxo), None));
    assert_eq!(tx.finalize(), Err(TxError::MissingWitnessScript));
}

#[test]
fn unparsable_witness_script() {
    let utxo = TxOutData { value: 5, script_pubkey: p2wsh_shaped() };
    let mut tx = one_input_tx(fresh_record(Some(utxo), Some(vec![0xee, 0xee])));
    assert_eq!(tx.finalize(), Err(TxError::UnparsableWitnessScript));
}

#[test]
fn unsupported_previous_output_type() {
    let utxo = TxOutData { value: 5, script_pubkey: vec![0x51] };
    let mut tx = one_input_tx(fresh_record(Some(utxo), None));
    assert_eq!(tx.finalize(), Err(TxError::UnsupportedPreviousOutputType));
}
