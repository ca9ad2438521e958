//! The signing engine end to end: signature insertion, the key-hash and
//! script-hash finalization paths, timelock gating, atomicity, and the
//! wire forms cross-checked against an independent implementation.

use revault_tx::error::TxError;
use revault_tx::policy::Policy;
use revault_tx::record::{OutPoint, SignableTx, TxInData, TxOutData};
use revault_tx::script::{encode_policy, p2wpkh_spk, parse_policy};
use revault_tx::transactions::{
    CancelTransaction, EmergencyTransaction, RevaultTransaction, SpendTransaction,
    UnvaultEmergencyTransaction, UnvaultTransaction, VaultTransaction,
};
use revault_tx::txins::{FeeBumpTxIn, UnvaultTxIn, VaultTxIn};
use revault_tx::txouts::{
    CpfpTxOut, EmergencyTxOut, ExternalTxOut, FeeBumpTxOut, SpendTxOut, UnvaultTxOut, VaultTxOut,
};
use revault_tx::RBF_SEQUENCE;

const CSV_VALUE: u32 = 42;

/// A 33-byte serialized public key; the engine never checks it lies on the
/// curve, only hashes and compares it.
fn key(tag: u8) -> Vec<u8> {
    let mut k = vec![0x02u8];
    k.extend(std::iter::repeat(tag).take(32));
    k
}

/// A minimal well-formed DER signature with the sighash flag appended.
fn sig(r: u8, flag: u8) -> Vec<u8> {
    vec![0x30, 0x06, 0x02, 0x01, r.max(1), 0x02, 0x01, 0x01, flag]
}

fn dummy_outpoint(tag: u8) -> OutPoint {
    OutPoint { txid: vec![tag; 32], vout: 0 }
}

/// The two policies of the chain: the vault needs all four participants,
/// the unvault either the managers plus the cosigner after the timelock,
/// or the full participant set.
fn vault_policy() -> Policy {
    Policy::Multi(4, vec![key(1), key(2), key(3), key(4)])
}

fn unvault_policy() -> Policy {
    Policy::Or(
        Box::new(Policy::And(
            Box::new(Policy::Multi(2, vec![key(1), key(2)])),
            Box::new(Policy::And(
                Box::new(Policy::Multi(1, vec![key(3)])),
                Box::new(Policy::Older(CSV_VALUE)),
            )),
        )),
        Box::new(Policy::Multi(4, vec![key(1), key(2), key(3), key(4)])),
    )
}

fn cpfp_policy() -> Policy {
    Policy::Multi(2, vec![key(1), key(2)])
}

#[test]
fn idempotent_signature_insertion() {
    let mut tx = CancelTransaction::new(
        UnvaultTxIn::new(
            dummy_outpoint(9),
            UnvaultTxOut::new(7000, &unvault_policy()),
            RBF_SEQUENCE,
        ),
        None,
        VaultTxOut::new(6700, &vault_policy()),
        0,
    );
    let first = tx.add_signature(0, key(1), sig(1, 0x81)).unwrap();
    assert_eq!(first, None);
    let second = tx.add_signature(0, key(1), sig(1, 0x81)).unwrap();
    assert_eq!(second, Some(sig(1, 0x81)));
    assert_eq!(tx.0.input_records[0].partial_sigs.entries.len(), 1);
    // Out-of-bounds index: refused, nothing recorded.
    assert_eq!(
        tx.add_signature(2, key(2), sig(2, 0x81)),
        Err(TxError::InputIndexOutOfBounds)
    );
    assert_eq!(tx.0.input_records[0].partial_sigs.entries.len(), 1);
}

#[test]
fn keyhash_path_witness_and_errors() {
    let fb_key = key(7);
    let feebump_txout =
        FeeBumpTxOut::new(TxOutData { value: 56730, script_pubkey: p2wpkh_spk(&fb_key) });
    let mut cancel = CancelTransaction::new(
        UnvaultTxIn::new(
            dummy_outpoint(9),
            UnvaultTxOut::new(7000, &unvault_policy()),
            RBF_SEQUENCE,
        ),
        Some(FeeBumpTxIn::new(dummy_outpoint(5), feebump_txout, RBF_SEQUENCE)),
        VaultTxOut::new(6700, &vault_policy()),
        0,
    );
    for (i, k) in [key(1), key(2), key(3), key(4)].into_iter().enumerate() {
        cancel.add_signature(0, k, sig(i as u8 + 1, 0x81)).unwrap();
    }

    // No signature at all for the fee-bump key: the key owning the hash is
    // unknown, and no input's final witness is set (atomicity).
    assert_eq!(cancel.finalize(), Err(TxError::UnknownKeyForHash));
    assert!(cancel.0.input_records[0].final_witness.is_none());
    assert!(cancel.0.input_records[1].final_witness.is_none());

    // A known key with an unusable (non-DER) signature: the signature is
    // missing, and the failure is still atomic.
    cancel.add_signature(1, fb_key.clone(), vec![0x00, 0x01]).unwrap();
    assert_eq!(cancel.finalize(), Err(TxError::MissingSignatureForKey));
    assert!(cancel.0.input_records[0].final_witness.is_none());

    // A usable signature: the key-hash witness is exactly the raw
    // signature (flag included) and the serialized key.
    cancel.add_signature(1, fb_key.clone(), sig(4, 0x01)).unwrap();
    cancel.finalize().unwrap();
    let w = cancel.0.input_records[1].final_witness.clone().unwrap();
    assert_eq!(w, vec![sig(4, 0x01), fb_key]);
}

#[test]
fn timelock_gates_spend_finalization() {
    let spend_dest = SpendTxOut::Destination(ExternalTxOut::new(TxOutData {
        value: 1,
        script_pubkey: vec![],
    }));
    // One block below the required relative timelock: no witness exists.
    let mut spend = SpendTransaction::new(
        vec![UnvaultTxIn::new(
            dummy_outpoint(9),
            UnvaultTxOut::new(7000, &unvault_policy()),
            CSV_VALUE - 1,
        )],
        vec![spend_dest],
        0,
    );
    // Only the managers and the cosigner sign: the timelocked branch is the
    // only candidate.
    spend.add_signature(0, key(1), sig(1, 0x01)).unwrap();
    spend.add_signature(0, key(2), sig(2, 0x01)).unwrap();
    spend.add_signature(0, key(3), sig(3, 0x01)).unwrap();
    assert_eq!(spend.finalize(), Err(TxError::PolicySatisfactionFailed));
    assert!(spend.0.input_records[0].final_witness.is_none());

    // The exact required value: the same signatures now satisfy.
    let spend_dest = SpendTxOut::Destination(ExternalTxOut::new(TxOutData {
        value: 1,
        script_pubkey: vec![],
    }));
    let mut spend = SpendTransaction::new(
        vec![UnvaultTxIn::new(
            dummy_outpoint(9),
            UnvaultTxOut::new(7000, &unvault_policy()),
            CSV_VALUE,
        )],
        vec![spend_dest],
        0,
    );
    spend.add_signature(0, key(1), sig(1, 0x01)).unwrap();
    spend.add_signature(0, key(2), sig(2, 0x01)).unwrap();
    spend.add_signature(0, key(3), sig(3, 0x01)).unwrap();
    spend.finalize().unwrap();
    let ws = encode_policy(&unvault_policy());
    let w = spend.0.input_records[0].final_witness.clone().unwrap();
    // Managers' threshold, cosigner's threshold, timelock, left selector,
    // then the witness script: listed bottom-first.
    assert_eq!(
        w,
        vec![
            vec![],
            sig(3, 0x01),
            vec![],
            sig(1, 0x01),
            sig(2, 0x01),
            vec![0x01],
            ws,
        ]
    );
}

#[test]
fn policy_encoding_round_trips() {
    let p = unvault_policy();
    let enc = encode_policy(&p);
    assert_eq!(parse_policy(&enc), Some(unvault_policy()));
    // A corrupted tag fails to parse.
    let mut bad = enc.clone();
    bad[0] = 0xee;
    assert_eq!(parse_policy(&bad), None);
    // Trailing garbage fails to parse.
    let mut long = enc.clone();
    long.push(0x00);
    assert_eq!(parse_policy(&long), None);
}

#[test]
fn test_transaction_chain_satisfaction() {
    // The funding transaction arrives pre-formed; only its outpoint
    // matters.
    let vault_txo = VaultTxOut::new(360, &vault_policy());
    let vault_tx = VaultTransaction::new(SignableTx {
        version: 2,
        lock_time: 0,
        inputs: vec![TxInData { outpoint: dummy_outpoint(0xec), sequence: u32::MAX }],
        outputs: vec![vault_txo.txout.clone()],
        input_records: vec![],
        output_records: vec![],
    });

    // The fee-bumping wallet output.
    let fb_key = key(7);
    let feebump_txout =
        FeeBumpTxOut::new(TxOutData { value: 56730, script_pubkey: p2wpkh_spk(&fb_key) });

    // The first (vault) emergency transaction.
    let mut emergency_tx = EmergencyTransaction::new(
        VaultTxIn::new(vault_tx.into_outpoint(0), VaultTxOut::new(360, &vault_policy()), RBF_SEQUENCE),
        Some(FeeBumpTxIn::new(dummy_outpoint(0xf8), feebump_txout, RBF_SEQUENCE)),
        EmergencyTxOut::new(450, &vault_policy()),
        0,
    );
    let vault_ws = encode_policy(&vault_policy());
    let digest = emergency_tx.signature_hash(0, &VaultTxOut::new(360, &vault_policy()), &vault_ws, true);
    assert_eq!(digest.len(), 32);
    for (i, k) in [key(1), key(2), key(3), key(4)].into_iter().enumerate() {
        emergency_tx.add_signature(0, k, sig(i as u8 + 1, 0x81)).unwrap();
    }
    emergency_tx.add_signature(1, fb_key.clone(), sig(4, 0x01)).unwrap();
    emergency_tx.finalize().unwrap();

    // The unvault transaction; signed only once every revaulting
    // transaction is ready.
    let mut unvault_tx = UnvaultTransaction::new(
        VaultTxIn::new(vault_tx.into_outpoint(0), VaultTxOut::new(360, &vault_policy()), u32::MAX),
        UnvaultTxOut::new(7000, &unvault_policy()),
        CpfpTxOut::new(330, &cpfp_policy()),
        0,
    );

    // The cancel transaction, spending the would-be unvault output.
    let feebump_txout =
        FeeBumpTxOut::new(TxOutData { value: 56730, script_pubkey: p2wpkh_spk(&fb_key) });
    let mut cancel_tx = CancelTransaction::new(
        UnvaultTxIn::new(
            unvault_tx.into_outpoint(0),
            UnvaultTxOut::new(7000, &unvault_policy()),
            RBF_SEQUENCE,
        ),
        Some(FeeBumpTxIn::new(dummy_outpoint(0xf8), feebump_txout, RBF_SEQUENCE)),
        VaultTxOut::new(6700, &vault_policy()),
        0,
    );
    let unvault_ws = encode_policy(&unvault_policy());
    let digest = cancel_tx.signature_hash(
        0,
        &UnvaultTxOut::new(7000, &unvault_policy()),
        &unvault_ws,
        true,
    );
    assert_eq!(digest.len(), 32);
    for (i, k) in [key(1), key(2), key(3), key(4)].into_iter().enumerate() {
        cancel_tx.add_signature(0, k, sig(i as u8 + 1, 0x81)).unwrap();
    }

    // The fee-bump input is not signed yet: finalization fails on it — the
    // unknown-key error belongs to the key-hash path, so the failure is on
    // the fee-bump input, not the unvault one — and sets no witness.
    assert_eq!(cancel_tx.finalize(), Err(TxError::UnknownKeyForHash));
    assert!(cancel_tx.0.input_records[0].final_witness.is_none());
    cancel_tx.add_signature(1, fb_key.clone(), sig(4, 0x01)).unwrap();
    cancel_tx.finalize().unwrap();

    // The second (unvault) emergency transaction.
    let feebump_txout =
        FeeBumpTxOut::new(TxOutData { value: 56730, script_pubkey: p2wpkh_spk(&fb_key) });
    let mut unemergency_tx = UnvaultEmergencyTransaction::new(
        UnvaultTxIn::new(
            unvault_tx.into_outpoint(0),
            UnvaultTxOut::new(7000, &unvault_policy()),
            RBF_SEQUENCE,
        ),
        Some(FeeBumpTxIn::new(dummy_outpoint(0xf8), feebump_txout, RBF_SEQUENCE)),
        EmergencyTxOut::new(450, &vault_policy()),
        0,
    );
    for (i, k) in [key(1), key(2), key(3), key(4)].into_iter().enumerate() {
        unemergency_tx.add_signature(0, k, sig(i as u8 + 1, 0x81)).unwrap();
    }
    unemergency_tx.add_signature(1, fb_key.clone(), sig(4, 0x01)).unwrap();
    unemergency_tx.finalize().unwrap();

    // Now the unvault itself, with the three participants (flag ALL).
    for (i, k) in [key(1), key(2), key(3), key(4)].into_iter().enumerate() {
        unvault_tx.add_signature(0, k, sig(i as u8 + 1, 0x01)).unwrap();
    }
    unvault_tx.finalize().unwrap();

    // And the spend, once the timelock can be satisfied.
    let mut spend_tx = SpendTransaction::new(
        vec![UnvaultTxIn::new(
            unvault_tx.into_outpoint(0),
            UnvaultTxOut::new(7000, &unvault_policy()),
            CSV_VALUE,
        )],
        vec![SpendTxOut::Destination(ExternalTxOut::new(TxOutData {
            value: 1,
            script_pubkey: vec![],
        }))],
        0,
    );
    spend_tx.add_signature(0, key(1), sig(1, 0x01)).unwrap();
    spend_tx.add_signature(0, key(2), sig(2, 0x01)).unwrap();
    spend_tx.add_signature(0, key(3), sig(3, 0x01)).unwrap();
    spend_tx.finalize().unwrap();

    // Every transaction of the chain has a hexadecimal form.
    for hex in [
        vault_tx.hex().unwrap(),
        unvault_tx.hex().unwrap(),
        spend_tx.hex().unwrap(),
        cancel_tx.hex().unwrap(),
        emergency_tx.hex().unwrap(),
        unemergency_tx.hex().unwrap(),
    ] {
        assert!(!hex.is_empty());
        assert!(hex.bytes().all(|b| b.is_ascii_hexdigit()));
    }
}
