//! The wire forms cross-checked against an independent implementation:
//! serializing a finalized transaction and parsing the bytes back yields
//! the same data, and the signature digest agrees with the reference
//! BIP143 computation.

use bitcoin::hashes::Hash as HashTrait;
use revault_tx::error::TxError;
use revault_tx::policy::Policy;
use revault_tx::record::{OutPoint, TxOutData};
use revault_tx::script::{encode_policy, p2wpkh_spk};
use revault_tx::sighash::sighash;
use revault_tx::transactions::{CancelTransaction, RevaultTransaction};
use revault_tx::txins::{FeeBumpTxIn, UnvaultTxIn};
use revault_tx::txouts::{FeeBumpTxOut, UnvaultTxOut, VaultTxOut};
use revault_tx::RBF_SEQUENCE;

fn key(tag: u8) -> Vec<u8> {
    let mut k = vec![0x02u8];
    k.extend(std::iter::repeat(tag).take(32));
    k
}

fn sig(r: u8, flag: u8) -> Vec<u8> {
    vec![0x30, 0x06, 0x02, 0x01, r.max(1), 0x02, 0x01, 0x01, flag]
}

fn unvault_policy() -> Policy {
    Policy::Multi(2, vec![key(1), key(2), key(3)])
}

fn vault_policy() -> Policy {
    Policy::Multi(3, vec![key(1), key(2), key(3)])
}

fn signed_cancel() -> CancelTransaction {
    let fb_key = key(7);
    let feebump_txout =
        FeeBumpTxOut::new(TxOutData { value: 56730, script_pubkey: p2wpkh_spk(&fb_key) });
    let mut cancel = CancelTransaction::new(
        UnvaultTxIn::new(
            OutPoint { txid: vec![0xaa; 32], vout: 0 },
            UnvaultTxOut::new(7000, &unvault_policy()),
            RBF_SEQUENCE,
        ),
        Some(FeeBumpTxIn::new(
            OutPoint { txid: vec![0xbb; 32], vout: 1 },
            feebump_txout,
            RBF_SEQUENCE,
        )),
        VaultTxOut::new(6700, &vault_policy()),
        0,
    );
    cancel.add_signature(0, key(1), sig(1, 0x81)).unwrap();
    cancel.add_signature(0, key(2), sig(2, 0x81)).unwrap();
    cancel.add_signature(1, fb_key, sig(4, 0x01)).unwrap();
    cancel
}

#[test]
fn serialized_transaction_parses_back_identically() {
    let mut cancel = signed_cancel();
    cancel.finalize().unwrap();
    let bytes = cancel.as_bitcoin_serialized().unwrap();

    let parsed: bitcoin::Transaction = bitcoin::consensus::encode::deserialize(&bytes)
        .expect("the engine's wire form is standard");
    assert_eq!(parsed.version.0, 2);
    assert_eq!(parsed.lock_time.to_consensus_u32(), 0);
    assert_eq!(parsed.input.len(), 2);
    assert_eq!(parsed.output.len(), 1);
    for (i, txin) in parsed.input.iter().enumerate() {
        let ours = &cancel.0.inputs[i];
        assert_eq!(HashTrait::to_byte_array(txin.previous_output.txid).to_vec(), ours.outpoint.txid);
        assert_eq!(txin.previous_output.vout, ours.outpoint.vout);
        assert_eq!(txin.sequence.0, ours.sequence);
        assert!(txin.script_sig.is_empty());
        let wit: Vec<Vec<u8>> = txin.witness.to_vec();
        assert_eq!(&wit, cancel.0.input_records[i].final_witness.as_ref().unwrap());
    }
    for (j, txout) in parsed.output.iter().enumerate() {
        let ours = &cancel.0.outputs[j];
        assert_eq!(txout.value.to_sat(), ours.value);
        assert_eq!(txout.script_pubkey.as_bytes().to_vec(), ours.script_pubkey);
    }

    // The hexadecimal form is the hex of the same bytes.
    let hex = cancel.hex().unwrap();
    let manual: String = bytes.iter().map(|b| format!("{:02x}", b)).collect();
    assert_eq!(hex, manual);
}

#[test]
fn serialization_failure_is_never_owed() {
    // Serialization of an in-memory record cannot fail; the error variant
    // exists for the API's shape alone.
    let cancel = signed_cancel();
    assert!(matches!(cancel.as_bitcoin_serialized(), Ok(_)));
    assert!(!matches!(cancel.hex(), Err(TxError::SerializationFailure)));
}

#[test]
fn signature_digest_matches_reference_bip143() {
    let cancel = signed_cancel();
    let unvault_ws = encode_policy(&unvault_policy());

    // Our digest, for the script-hash input, flag ALL plus ANYONECANPAY.
    let ours = sighash(&cancel.0, 0, 7000, &unvault_ws, true);
    // And for the key-hash input with flag ALL: P2WPKH script code.
    let mut script_code: Vec<u8> = vec![0x76, 0xa9, 0x14];
    let fb_spk = p2wpkh_spk(&key(7));
    script_code.extend_from_slice(&fb_spk[2..22]);
    script_code.extend_from_slice(&[0x88, 0xac]);
    let ours_fb = sighash(&cancel.0, 1, 56730, &script_code, false);

    // The reference computation, over the same unsigned transaction.
    let bytes = cancel.as_bitcoin_serialized().unwrap();
    let unsigned: bitcoin::Transaction = bitcoin::consensus::encode::deserialize(&bytes).unwrap();
    let mut cache = bitcoin::sighash::SighashCache::new(&unsigned);
    let reference = cache
        .p2wsh_signature_hash(
            0,
            bitcoin::Script::from_bytes(&unvault_ws),
            bitcoin::Amount::from_sat(7000),
            bitcoin::sighash::EcdsaSighashType::AllPlusAnyoneCanPay,
        )
        .unwrap();
    assert_eq!(ours, HashTrait::to_byte_array(reference).to_vec());
    let reference_fb = cache
        .p2wsh_signature_hash(
            1,
            bitcoin::Script::from_bytes(&script_code),
            bitcoin::Amount::from_sat(56730),
            bitcoin::sighash::EcdsaSighashType::All,
        )
        .unwrap();
    assert_eq!(ours_fb, HashTrait::to_byte_array(reference_fb).to_vec());
}
