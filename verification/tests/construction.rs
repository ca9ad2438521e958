//! The untyped construction path: allowed kind combinations build exactly
//! the expected skeletons, and every disallowed combination is refused.

use revault_tx::error::TxError;
use revault_tx::record::{OutPoint, TxInData, TxOutData};
use revault_tx::skeleton::{RevaultPrevout, RevaultTransaction, RevaultTxOut, TxSkeleton};
use revault_tx::RBF_SEQUENCE;

fn hex_byte(c: u8) -> u8 {
    match c {
        b'0'..=b'9' => c - b'0',
        b'a'..=b'f' => c - b'a' + 10,
        b'A'..=b'F' => c - b'A' + 10,
        _ => panic!("not a hex digit"),
    }
}

/// Parses "txid-hex:vout" in the usual display convention (byte-reversed
/// id).
fn outpoint(s: &str) -> OutPoint {
    let (hex, vout) = s.split_once(':').unwrap();
    let bytes = hex.as_bytes();
    assert_eq!(bytes.len(), 64);
    let mut txid: Vec<u8> = (0..32)
        .map(|i| (hex_byte(bytes[2 * i]) << 4) | hex_byte(bytes[2 * i + 1]))
        .collect();
    txid.reverse();
    OutPoint { txid, vout: vout.parse().unwrap() }
}

#[test]
fn test_transaction_creation() {
    // Transactions which happened to be in a mempool.
    let op = outpoint("ea4a9f84cce4e5b195b496e2823f7939b474f3fd3d2d8d59b91bb2312a8113f3:0");
    let feebump_op = outpoint("1d239c9299a7e350e3ae6e5fb4068f13b4e01fe188a0d0533f6555aad6b17b0a:0");

    let vault_prevout = RevaultPrevout::VaultPrevout(op.clone());
    let unvault_prevout = RevaultPrevout::UnvaultPrevout(op.clone());
    let feebump_prevout = RevaultPrevout::FeeBumpPrevout(feebump_op.clone());

    let txout = TxOutData { value: 18, script_pubkey: vec![] };
    let unvault_txout = RevaultTxOut::UnvaultTxOut(txout.clone());
    let feebump_txout = RevaultTxOut::CpfpTxOut(txout.clone());
    let spend_txout = RevaultTxOut::SpendTxOut(txout.clone());
    let vault_txout = RevaultTxOut::VaultTxOut(txout.clone());
    let emer_txout = RevaultTxOut::EmergencyTxOut(txout.clone());

    // =======================
    // The unvault transaction
    assert_eq!(
        RevaultTransaction::new_unvault(
            &vec![vault_prevout.clone()],
            &vec![unvault_txout.clone(), feebump_txout.clone()]
        ),
        Ok(RevaultTransaction::UnvaultTransaction(TxSkeleton {
            version: 2,
            lock_time: 0,
            inputs: vec![TxInData { outpoint: op.clone(), sequence: u32::MAX }],
            outputs: vec![txout.clone(), txout.clone()]
        }))
    );
    assert_eq!(
        RevaultTransaction::new_unvault(
            &vec![vault_prevout.clone()],
            &vec![vault_txout.clone(), feebump_txout.clone()]
        ),
        Err(TxError::PrevoutOrOutputKindMismatch)
    );

    // =====================
    // The spend transaction
    assert_eq!(
        RevaultTransaction::new_spend(
            &vec![unvault_prevout.clone()],
            &vec![spend_txout.clone()],
            22
        ),
        Ok(RevaultTransaction::SpendTransaction(TxSkeleton {
            version: 2,
            lock_time: 0,
            inputs: vec![TxInData { outpoint: op.clone(), sequence: 22 }],
            outputs: vec![txout.clone()]
        }))
    );
    assert_eq!(
        RevaultTransaction::new_spend(
            &vec![vault_prevout.clone()],
            &vec![spend_txout.clone()],
            144
        ),
        Err(TxError::PrevoutOrOutputKindMismatch)
    );
    // multiple inputs
    assert_eq!(
        RevaultTransaction::new_spend(
            &vec![unvault_prevout.clone(), unvault_prevout.clone()],
            &vec![spend_txout.clone()],
            9
        ),
        Ok(RevaultTransaction::SpendTransaction(TxSkeleton {
            version: 2,
            lock_time: 0,
            inputs: vec![
                TxInData { outpoint: op.clone(), sequence: 9 },
                TxInData { outpoint: op.clone(), sequence: 9 }
            ],
            outputs: vec![txout.clone()]
        }))
    );
    assert_eq!(
        RevaultTransaction::new_spend(
            &vec![unvault_prevout.clone(), feebump_prevout.clone()],
            &vec![spend_txout.clone()],
            144
        ),
        Err(TxError::PrevoutOrOutputKindMismatch)
    );

    // multiple outputs
    assert_eq!(
        RevaultTransaction::new_spend(
            &vec![unvault_prevout.clone()],
            &vec![spend_txout.clone(), spend_txout.clone()],
            24
        ),
        Ok(RevaultTransaction::SpendTransaction(TxSkeleton {
            version: 2,
            lock_time: 0,
            inputs: vec![TxInData { outpoint: op.clone(), sequence: 24 }],
            outputs: vec![txout.clone(), txout.clone()]
        }))
    );

    // Both (with one output being change)
    assert_eq!(
        RevaultTransaction::new_spend(
            &vec![unvault_prevout.clone(), unvault_prevout.clone()],
            &vec![spend_txout.clone(), vault_txout.clone()],
            24
        ),
        Ok(RevaultTransaction::SpendTransaction(TxSkeleton {
            version: 2,
            lock_time: 0,
            inputs: vec![
                TxInData { outpoint: op.clone(), sequence: 24 },
                TxInData { outpoint: op.clone(), sequence: 24 }
            ],
            outputs: vec![txout.clone(), txout.clone()]
        }))
    );

    // =====================
    // The cancel transaction
    // Without feebump
    assert_eq!(
        RevaultTransaction::new_cancel(&vec![unvault_prevout.clone()], &vec![vault_txout.clone()]),
        Ok(RevaultTransaction::CancelTransaction(TxSkeleton {
            version: 2,
            lock_time: 0,
            inputs: vec![TxInData { outpoint: op.clone(), sequence: RBF_SEQUENCE }],
            outputs: vec![txout.clone()]
        }))
    );
    assert_eq!(
        RevaultTransaction::new_cancel(
            &vec![unvault_prevout.clone()],
            &vec![vault_txout.clone(), vault_txout.clone()]
        ),
        Err(TxError::PrevoutOrOutputKindMismatch)
    );

    // With feebump
    assert_eq!(
        RevaultTransaction::new_cancel(
            &vec![unvault_prevout.clone(), feebump_prevout.clone()],
            &vec![vault_txout.clone()],
        ),
        Ok(RevaultTransaction::CancelTransaction(TxSkeleton {
            version: 2,
            lock_time: 0,
            inputs: vec![
                TxInData { outpoint: op.clone(), sequence: RBF_SEQUENCE },
                TxInData { outpoint: feebump_op.clone(), sequence: RBF_SEQUENCE }
            ],
            outputs: vec![txout.clone()]
        }))
    );
    assert_eq!(
        RevaultTransaction::new_cancel(
            &vec![unvault_prevout.clone(), feebump_prevout.clone()],
            &vec![vault_txout.clone(), vault_txout.clone()]
        ),
        Err(TxError::PrevoutOrOutputKindMismatch)
    );

    // =====================
    // The emergency transactions
    // Vault emergency, without feebump
    assert_eq!(
        RevaultTransaction::new_emergency(&vec![vault_prevout.clone()], &vec![emer_txout.clone()]),
        Ok(RevaultTransaction::EmergencyTransaction(TxSkeleton {
            version: 2,
            lock_time: 0,
            inputs: vec![TxInData { outpoint: op.clone(), sequence: RBF_SEQUENCE }],
            outputs: vec![txout.clone()]
        }))
    );
    assert_eq!(
        RevaultTransaction::new_emergency(&vec![vault_prevout.clone()], &vec![vault_txout.clone()]),
        Err(TxError::PrevoutOrOutputKindMismatch)
    );

    // Vault emergency, with feebump
    assert_eq!(
        RevaultTransaction::new_emergency(
            &vec![vault_prevout.clone(), feebump_prevout.clone()],
            &vec![emer_txout.clone()],
        ),
        Ok(RevaultTransaction::EmergencyTransaction(TxSkeleton {
            version: 2,
            lock_time: 0,
            inputs: vec![
                TxInData { outpoint: op.clone(), sequence: RBF_SEQUENCE },
                TxInData { outpoint: feebump_op.clone(), sequence: RBF_SEQUENCE }
            ],
            outputs: vec![txout.clone()]
        }))
    );
    assert_eq!(
        RevaultTransaction::new_emergency(
            &vec![vault_prevout.clone(), vault_prevout.clone()],
            &vec![emer_txout.clone()]
        ),
        Err(TxError::PrevoutOrOutputKindMismatch)
    );

    // Unvault emergency, without feebump
    assert_eq!(
        RevaultTransaction::new_emergency(
            &vec![unvault_prevout.clone()],
            &vec![emer_txout.clone()]
        ),
        Ok(RevaultTransaction::EmergencyTransaction(TxSkeleton {
            version: 2,
            lock_time: 0,
            inputs: vec![TxInData { outpoint: op.clone(), sequence: RBF_SEQUENCE }],
            outputs: vec![txout.clone()]
        }))
    );
    assert_eq!(
        RevaultTransaction::new_emergency(
            &vec![unvault_prevout.clone()],
            &vec![spend_txout.clone()]
        ),
        Err(TxError::PrevoutOrOutputKindMismatch)
    );

    // Unvault emergency, with feebump
    assert_eq!(
        RevaultTransaction::new_emergency(
            &vec![unvault_prevout.clone(), feebump_prevout.clone()],
            &vec![emer_txout.clone()],
        ),
        Ok(RevaultTransaction::EmergencyTransaction(TxSkeleton {
            version: 2,
            lock_time: 0,
            inputs: vec![
                TxInData { outpoint: op.clone(), sequence: RBF_SEQUENCE },
                TxInData { outpoint: feebump_op.clone(), sequence: RBF_SEQUENCE }
            ],
            outputs: vec![txout.clone()]
        }))
    );
    assert_eq!(
        RevaultTransaction::new_emergency(
            &vec![unvault_prevout.clone(), vault_prevout.clone()],
            &vec![emer_txout.clone()]
        ),
        Err(TxError::PrevoutOrOutputKindMismatch)
    );
}

#[test]
fn prevout_reference_points_at_skeleton() {
    let op = outpoint("ea4a9f84cce4e5b195b496e2823f7939b474f3fd3d2d8d59b91bb2312a8113f3:0");
    let txout = TxOutData { value: 18, script_pubkey: vec![] };
    let tx = RevaultTransaction::new_unvault(
        &vec![RevaultPrevout::VaultPrevout(op)],
        &vec![
            RevaultTxOut::UnvaultTxOut(txout.clone()),
            RevaultTxOut::CpfpTxOut(txout.clone()),
        ],
    )
    .unwrap();
    let reference = tx.prevout(0);
    assert_eq!(reference.vout, 0);
    assert_eq!(reference.txid.len(), 32);
    // The same skeleton yields the same id; a different index only moves
    // the index.
    let again = tx.prevout(1);
    assert_eq!(reference.txid, again.txid);
    assert_eq!(again.vout, 1);
}
