//! The transaction variants of the protocol, one type per step, each built
//! from a statically checked combination of typed inputs and outputs, and
//! the operations they share: signature insertion, finalization, extraction
//! and chaining.

use vstd::prelude::*;

use crate::encode::{hex_bytes, legacy_ser, tx_ser};
use crate::error::TxError;
use crate::hashes::sha256d_of;
use crate::record::{
    add_signature_post, finalize_post, InputRecord, OutPoint, OutputRecord, SignableTx, TxInData,
    TxOutData,
};
use crate::sighash::{bip143_sighash, sighash};
use crate::txins::{FeeBumpTxIn, UnvaultTxIn, VaultTxIn};
use crate::txouts::{
    dup_txout, same_outpoint, same_txout, CpfpTxOut, EmergencyTxOut, FeeBumpTxOut, RevaultTxOut,
    SpendTxOut, UnvaultTxOut, VaultTxOut,
};

verus! {

/// A fresh input record holds the previous output, its witness script where
/// one exists, no signatures and no final witness.
pub open spec fn rec_from(rec: InputRecord, utxo: TxOutData, ws: Option<Seq<u8>>) -> bool {
    &&& rec.witness_utxo matches Some(u) && same_txout(u, utxo)
    &&& (match ws {
        Option::Some(w) => rec.witness_script matches Some(v) && v@ == w,
        Option::None => rec.witness_script is None,
    })
    &&& rec.partial_sigs.entries@.len() == 0
    &&& rec.final_witness is None
}

/// The operations every protocol transaction offers over its record.
pub trait RevaultTransaction: Sized {
    /// The record under the variant.
    spec fn tx(&self) -> SignableTx;

    /// The inner record.
    fn inner_tx(&self) -> (r: &SignableTx)
        ensures
            *r == self.tx(),
    ;

    /// The inner record, for mutation.
    fn inner_tx_mut(&mut self) -> (r: &mut SignableTx)
        ensures
            *r == old(self).tx(),
            final(self).tx() == *final(r),
    ;

    /// Records a signature for a key on one input, returning the one it
    /// replaces. Fails exactly when the index is past the input count, and
    /// then changes nothing.
    fn add_signature(&mut self, input_index: usize, pubkey: Vec<u8>, rawsig: Vec<u8>) -> (r: Result<
        Option<Vec<u8>>,
        TxError,
    >)
        requires
            old(self).tx().sigs_wf(),
        ensures
            add_signature_post(old(self).tx(), final(self).tx(), input_index, pubkey, rawsig, r),
    {
        self.inner_tx_mut().add_signature(input_index, pubkey, rawsig)
    }

    /// Finalization: writes every input's final witness, or fails
    /// atomically leaving the record unchanged and retryable.
    fn finalize(&mut self) -> (r: Result<(), TxError>)
        ensures
            finalize_post(old(self).tx(), final(self).tx(), r),
    {
        self.inner_tx_mut().finalize()
    }

    /// The reference to one of this transaction's outputs, for use as a
    /// following transaction's previous output.
    fn into_outpoint(&self, vout: u32) -> (r: OutPoint)
        ensures
            r.txid@ == sha256d_of(legacy_ser(self.tx())),
            r.vout == vout,
            r.wf(),
    {
        self.inner_tx().into_outpoint(vout)
    }

    /// The network wire form of the transaction. Callers will usually
    /// finalize first.
    fn as_bitcoin_serialized(&self) -> (r: Result<Vec<u8>, TxError>)
        ensures
            r matches Ok(b) && b@ == tx_ser(self.tx()),
    {
        self.inner_tx().as_bitcoin_serialized()
    }

    /// The hexadecimal form of the wire bytes.
    fn hex(&self) -> (r: Result<String, TxError>)
        ensures
            r matches Ok(s) && s@ == crate::encode::ascii_chars(hex_bytes(tx_ser(self.tx()))),
    {
        self.inner_tx().hex()
    }
}

/// The unvaulting transaction: spends one vault output into the unvault
/// output plus the fee-acceleration output.
pub struct UnvaultTransaction(pub SignableTx);

impl RevaultTransaction for UnvaultTransaction {
    open spec fn tx(&self) -> SignableTx {
        self.0
    }

    fn inner_tx(&self) -> (r: &SignableTx) {
        &self.0
    }

    fn inner_tx_mut(&mut self) -> (r: &mut SignableTx) {
        &mut self.0
    }
}

impl UnvaultTransaction {
    /// An unvault transaction always spends one vault output and produces
    /// the unvault output plus the fee-acceleration output. The vault
    /// input's own sequence is kept.
    pub fn new(
        vault_input: VaultTxIn,
        unvault_txout: UnvaultTxOut,
        cpfp_txout: CpfpTxOut,
        lock_time: u32,
    ) -> (r: UnvaultTransaction)
        requires
            vault_input.wf(),
        ensures
            ({
                let t = r.tx();
                &&& t.wf()
                &&& t.version == 2
                &&& t.lock_time == lock_time
                &&& t.inputs@.len() == 1
                &&& same_outpoint(t.inputs@[0].outpoint, vault_input.outpoint)
                &&& t.inputs@[0].sequence == vault_input.sequence
                &&& t.outputs@.len() == 2
                &&& same_txout(t.outputs@[0], unvault_txout.txout)
                &&& same_txout(t.outputs@[1], cpfp_txout.txout)
                &&& rec_from(
                    t.input_records@[0],
                    vault_input.txout.txout,
                    Some(vault_input.txout.witness_script@),
                )
            }),
    {
        let txin = vault_input.as_unsigned_txin();
        let prev = vault_input.into_txout();
        let mut inputs: Vec<TxInData> = Vec::new();
        inputs.push(txin);
        let mut input_records: Vec<InputRecord> = Vec::new();
        input_records.push(InputRecord::new(Some(prev.txout), Some(prev.witness_script)));
        let mut outputs: Vec<TxOutData> = Vec::new();
        let mut output_records: Vec<OutputRecord> = Vec::new();
        outputs.push(unvault_txout.txout);
        output_records.push(OutputRecord { witness_script: Some(unvault_txout.witness_script) });
        outputs.push(cpfp_txout.txout);
        output_records.push(OutputRecord { witness_script: Some(cpfp_txout.witness_script) });
        UnvaultTransaction(
            SignableTx { version: 2, lock_time, inputs, outputs, input_records, output_records },
        )
    }

    /// The signature digest of an input; only a vault output can stand
    /// behind it, and the flag is ALL.
    pub fn signature_hash(
        &self,
        input_index: usize,
        previous_txout: &VaultTxOut,
        script_code: &Vec<u8>,
    ) -> (r: Vec<u8>)
        requires
            input_index < self.tx().inputs@.len(),
        ensures
            r@ == bip143_sighash(
                self.tx(),
                input_index as int,
                previous_txout.txo().value,
                script_code@,
                false,
            ),
    {
        sighash(&self.0, input_index, previous_txout.inner_txout().value, script_code, false)
    }
}

/// The transaction revaulting a spend attempt: spends the unvault output
/// (and optionally a fee-bump input) back into a vault output.
pub struct CancelTransaction(pub SignableTx);

impl RevaultTransaction for CancelTransaction {
    open spec fn tx(&self) -> SignableTx {
        self.0
    }

    fn inner_tx(&self) -> (r: &SignableTx) {
        &self.0
    }

    fn inner_tx_mut(&mut self) -> (r: &mut SignableTx) {
        &mut self.0
    }
}

impl CancelTransaction {
    /// A cancel transaction always pays to a vault output and spends the
    /// unvault output; it may also spend a fee-bumping input. Revaulting
    /// inputs take the replace-by-fee sequence.
    pub fn new(
        unvault_input: UnvaultTxIn,
        feebump_input: Option<FeeBumpTxIn>,
        vault_txout: VaultTxOut,
        lock_time: u32,
    ) -> (r: CancelTransaction)
        requires
            unvault_input.wf(),
            feebump_input matches Some(f) ==> f.wf(),
        ensures
            ({
                let t = r.tx();
                &&& t.wf()
                &&& t.version == 2
                &&& t.lock_time == lock_time
                &&& t.inputs@.len() == (if feebump_input is Some {
                    2int
                } else {
                    1int
                })
                &&& same_outpoint(t.inputs@[0].outpoint, unvault_input.outpoint)
                &&& t.inputs@[0].sequence == unvault_input.sequence
                &&& rec_from(
                    t.input_records@[0],
                    unvault_input.txout.txout,
                    Some(unvault_input.txout.witness_script@),
                )
                &&& (feebump_input matches Some(f) ==> same_outpoint(
                    t.inputs@[1].outpoint,
                    f.outpoint,
                ) && t.inputs@[1].sequence == f.sequence && rec_from(
                    t.input_records@[1],
                    f.txout.txout,
                    Option::<Seq<u8>>::None,
                ))
                &&& t.outputs@.len() == 1
                &&& same_txout(t.outputs@[0], vault_txout.txout)
            }),
    {
        let txin = unvault_input.as_unsigned_txin();
        let prev = unvault_input.into_txout();
        let mut inputs: Vec<TxInData> = Vec::new();
        inputs.push(txin);
        let mut input_records: Vec<InputRecord> = Vec::new();
        input_records.push(InputRecord::new(Some(prev.txout), Some(prev.witness_script)));
        match feebump_input {
            Some(f) => {
                inputs.push(f.as_unsigned_txin());
                let fprev = f.into_txout();
                input_records.push(InputRecord::new(Some(fprev.txout), None));
            },
            None => {},
        }
        let mut outputs: Vec<TxOutData> = Vec::new();
        let mut output_records: Vec<OutputRecord> = Vec::new();
        outputs.push(vault_txout.txout);
        output_records.push(OutputRecord { witness_script: Some(vault_txout.witness_script) });
        CancelTransaction(
            SignableTx { version: 2, lock_time, inputs, outputs, input_records, output_records },
        )
    }

    /// The signature digest of an input; only an unvault or fee-bump
    /// output can stand behind it.
    pub fn signature_hash<T: CancelPrevTxout>(
        &self,
        input_index: usize,
        previous_txout: &T,
        script_code: &Vec<u8>,
        is_anyonecanpay: bool,
    ) -> (r: Vec<u8>)
        requires
            input_index < self.tx().inputs@.len(),
        ensures
            r@ == bip143_sighash(
                self.tx(),
                input_index as int,
                previous_txout.txo().value,
                script_code@,
                is_anyonecanpay,
            ),
    {
        sighash(
            &self.0,
            input_index,
            previous_txout.inner_txout().value,
            script_code,
            is_anyonecanpay,
        )
    }
}

/// A cancel transaction spends only unvault and fee-bump outputs.
pub trait CancelPrevTxout: RevaultTxOut {

}

impl CancelPrevTxout for UnvaultTxOut {

}

impl CancelPrevTxout for FeeBumpTxOut {

}

/// The transaction sweeping a vault output to the emergency destination.
pub struct EmergencyTransaction(pub SignableTx);

impl RevaultTransaction for EmergencyTransaction {
    open spec fn tx(&self) -> SignableTx {
        self.0
    }

    fn inner_tx(&self) -> (r: &SignableTx) {
        &self.0
    }

    fn inner_tx_mut(&mut self) -> (r: &mut SignableTx) {
        &mut self.0
    }
}

impl EmergencyTransaction {
    /// The first emergency transaction always spends a vault output and
    /// pays to the emergency script; it may also spend a fee-bumping
    /// input. Revaulting inputs take the replace-by-fee sequence.
    pub fn new(
        vault_input: VaultTxIn,
        feebump_input: Option<FeeBumpTxIn>,
        emer_txout: EmergencyTxOut,
        lock_time: u32,
    ) -> (r: EmergencyTransaction)
        requires
            vault_input.wf(),
            feebump_input matches Some(f) ==> f.wf(),
        ensures
            ({
                let t = r.tx();
                &&& t.wf()
                &&& t.version == 2
                &&& t.lock_time == lock_time
                &&& t.inputs@.len() == (if feebump_input is Some {
                    2int
                } else {
                    1int
                })
                &&& same_outpoint(t.inputs@[0].outpoint, vault_input.outpoint)
                &&& t.inputs@[0].sequence == vault_input.sequence
                &&& rec_from(
                    t.input_records@[0],
                    vault_input.txout.txout,
                    Some(vault_input.txout.witness_script@),
                )
                &&& (feebump_input matches Some(f) ==> same_outpoint(
                    t.inputs@[1].outpoint,
                    f.outpoint,
                ) && t.inputs@[1].sequence == f.sequence && rec_from(
                    t.input_records@[1],
                    f.txout.txout,
                    Option::<Seq<u8>>::None,
                ))
                &&& t.outputs@.len() == 1
                &&& same_txout(t.outputs@[0], emer_txout.txout)
            }),
    {
        let txin = vault_input.as_unsigned_txin();
        let prev = vault_input.into_txout();
        let mut inputs: Vec<TxInData> = Vec::new();
        inputs.push(txin);
        let mut input_records: Vec<InputRecord> = Vec::new();
        input_records.push(InputRecord::new(Some(prev.txout), Some(prev.witness_script)));
        match feebump_input {
            Some(f) => {
                inputs.push(f.as_unsigned_txin());
                let fprev = f.into_txout();
                input_records.push(InputRecord::new(Some(fprev.txout), None));
            },
            None => {},
        }
        let mut outputs: Vec<TxOutData> = Vec::new();
        let mut output_records: Vec<OutputRecord> = Vec::new();
        outputs.push(emer_txout.txout);
        output_records.push(OutputRecord { witness_script: Some(emer_txout.witness_script) });
        EmergencyTransaction(
            SignableTx { version: 2, lock_time, inputs, outputs, input_records, output_records },
        )
    }

    /// The signature digest of an input; only a vault or fee-bump output
    /// can stand behind it.
    pub fn signature_hash<T: EmergencyPrevTxout>(
        &self,
        input_index: usize,
        previous_txout: &T,
        script_code: &Vec<u8>,
        is_anyonecanpay: bool,
    ) -> (r: Vec<u8>)
        requires
            input_index < self.tx().inputs@.len(),
        ensures
            r@ == bip143_sighash(
                self.tx(),
                input_index as int,
                previous_txout.txo().value,
                script_code@,
                is_anyonecanpay,
            ),
    {
        sighash(
            &self.0,
            input_index,
            previous_txout.inner_txout().value,
            script_code,
            is_anyonecanpay,
        )
    }
}

/// An emergency transaction spends only vault and fee-bump outputs.
pub trait EmergencyPrevTxout: RevaultTxOut {

}

impl EmergencyPrevTxout for VaultTxOut {

}

impl EmergencyPrevTxout for FeeBumpTxOut {

}

/// The transaction sweeping the unvault output to the emergency
/// destination.
pub struct UnvaultEmergencyTransaction(pub SignableTx);

impl RevaultTransaction for UnvaultEmergencyTransaction {
    open spec fn tx(&self) -> SignableTx {
        self.0
    }

    fn inner_tx(&self) -> (r: &SignableTx) {
        &self.0
    }

    fn inner_tx_mut(&mut self) -> (r: &mut SignableTx) {
        &mut self.0
    }
}

impl UnvaultEmergencyTransaction {
    /// The second emergency transaction always spends the unvault output
    /// and pays to the emergency script; it may also spend a fee-bumping
    /// input. Revaulting inputs take the replace-by-fee sequence.
    pub fn new(
        unvault_input: UnvaultTxIn,
        feebump_input: Option<FeeBumpTxIn>,
        emer_txout: EmergencyTxOut,
        lock_time: u32,
    ) -> (r: UnvaultEmergencyTransaction)
        requires
            unvault_input.wf(),
            feebump_input matches Some(f) ==> f.wf(),
        ensures
            ({
                let t = r.tx();
                &&& t.wf()
                &&& t.version == 2
                &&& t.lock_time == lock_time
                &&& t.inputs@.len() == (if feebump_input is Some {
                    2int
                } else {
                    1int
                })
                &&& same_outpoint(t.inputs@[0].outpoint, unvault_input.outpoint)
                &&& t.inputs@[0].sequence == unvault_input.sequence
                &&& rec_from(
                    t.input_records@[0],
                    unvault_input.txout.txout,
                    Some(unvault_input.txout.witness_script@),
                )
                &&& (feebump_input matches Some(f) ==> same_outpoint(
                    t.inputs@[1].outpoint,
                    f.outpoint,
                ) && t.inputs@[1].sequence == f.sequence && rec_from(
                    t.input_records@[1],
                    f.txout.txout,
                    Option::<Seq<u8>>::None,
                ))
                &&& t.outputs@.len() == 1
                &&& same_txout(t.outputs@[0], emer_txout.txout)
            }),
    {
        let txin = unvault_input.as_unsigned_txin();
        let prev = unvault_input.into_txout();
        let mut inputs: Vec<TxInData> = Vec::new();
        inputs.push(txin);
        let mut input_records: Vec<InputRecord> = Vec::new();
        input_records.push(InputRecord::new(Some(prev.txout), Some(prev.witness_script)));
        match feebump_input {
            Some(f) => {
                inputs.push(f.as_unsigned_txin());
                let fprev = f.into_txout();
                input_records.push(InputRecord::new(Some(fprev.txout), None));
            },
            None => {},
        }
        let mut outputs: Vec<TxOutData> = Vec::new();
        let mut output_records: Vec<OutputRecord> = Vec::new();
        outputs.push(emer_txout.txout);
        output_records.push(OutputRecord { witness_script: Some(emer_txout.witness_script) });
        UnvaultEmergencyTransaction(
            SignableTx { version: 2, lock_time, inputs, outputs, input_records, output_records },
        )
    }

    /// The signature digest of an input; only an unvault or fee-bump
    /// output can stand behind it.
    pub fn signature_hash<T: UnvaultEmerPrevTxout>(
        &self,
        input_index: usize,
        previous_txout: &T,
        script_code: &Vec<u8>,
        is_anyonecanpay: bool,
    ) -> (r: Vec<u8>)
        requires
            input_index < self.tx().inputs@.len(),
        ensures
            r@ == bip143_sighash(
                self.tx(),
                input_index as int,
                previous_txout.txo().value,
                script_code@,
                is_anyonecanpay,
            ),
    {
        sighash(
            &self.0,
            input_index,
            previous_txout.inner_txout().value,
            script_code,
            is_anyonecanpay,
        )
    }
}

/// An unvault-emergency transaction spends only unvault and fee-bump
/// outputs.
pub trait UnvaultEmerPrevTxout: RevaultTxOut {

}

impl UnvaultEmerPrevTxout for UnvaultTxOut {

}

impl UnvaultEmerPrevTxout for FeeBumpTxOut {

}

/// The transaction spending unvault outputs to externally controlled
/// destinations, and possibly to a change vault output.
pub struct SpendTransaction(pub SignableTx);

impl RevaultTransaction for SpendTransaction {
    open spec fn tx(&self) -> SignableTx {
        self.0
    }

    fn inner_tx(&self) -> (r: &SignableTx) {
        &self.0
    }

    fn inner_tx_mut(&mut self) -> (r: &mut SignableTx) {
        &mut self.0
    }
}

impl SpendTransaction {
    /// A spend transaction batches one or more unvault inputs and pays one
    /// or more destination or change outputs. Each input keeps its own
    /// sequence: the caller sets it to the policy's relative-timelock
    /// value.
    pub fn new(
        unvault_inputs: Vec<UnvaultTxIn>,
        spend_txouts: Vec<SpendTxOut>,
        lock_time: u32,
    ) -> (r: SpendTransaction)
        requires
            unvault_inputs@.len() >= 1,
            spend_txouts@.len() >= 1,
            forall|i: int|
                0 <= i < unvault_inputs@.len() ==> (#[trigger] unvault_inputs@[i]).wf(),
        ensures
            ({
                let t = r.tx();
                &&& t.wf()
                &&& t.version == 2
                &&& t.lock_time == lock_time
                &&& t.inputs@.len() == unvault_inputs@.len()
                &&& forall|i: int|
                    0 <= i < unvault_inputs@.len() ==> same_outpoint(
                        (#[trigger] t.inputs@[i]).outpoint,
                        unvault_inputs@[i].outpoint,
                    ) && t.inputs@[i].sequence == unvault_inputs@[i].sequence
                &&& forall|i: int|
                    0 <= i < unvault_inputs@.len() ==> rec_from(
                        #[trigger] t.input_records@[i],
                        unvault_inputs@[i].txout.txout,
                        Some(unvault_inputs@[i].txout.witness_script@),
                    )
                &&& t.outputs@.len() == spend_txouts@.len()
                &&& forall|j: int|
                    0 <= j < spend_txouts@.len() ==> same_txout(
                        #[trigger] t.outputs@[j],
                        spend_txouts@[j].txo(),
                    )
            }),
    {
        let mut inputs: Vec<TxInData> = Vec::new();
        let mut input_records: Vec<InputRecord> = Vec::new();
        let n: usize = unvault_inputs.len();
        let mut i: usize = 0;
        while i < n
            invariant
                n == unvault_inputs@.len(),
                i <= n,
                forall|k: int|
                    0 <= k < unvault_inputs@.len() ==> (#[trigger] unvault_inputs@[k]).wf(),
                inputs@.len() == i,
                input_records@.len() == i,
                forall|k: int|
                    0 <= k < i ==> same_outpoint(
                        (#[trigger] inputs@[k]).outpoint,
                        unvault_inputs@[k].outpoint,
                    ) && inputs@[k].sequence == unvault_inputs@[k].sequence
                        && inputs@[k].outpoint.wf(),
                forall|k: int|
                    0 <= k < i ==> rec_from(
                        #[trigger] input_records@[k],
                        unvault_inputs@[k].txout.txout,
                        Some(unvault_inputs@[k].txout.witness_script@),
                    ) && input_records@[k].partial_sigs.wf(),
            decreases n - i,
        {
            let txin = unvault_inputs[i].as_unsigned_txin();
            inputs.push(txin);
            let utxo = dup_txout(&unvault_inputs[i].txout.txout);
            let ws = crate::bytes::clone_bytes(&unvault_inputs[i].txout.witness_script);
            input_records.push(InputRecord::new(Some(utxo), Some(ws)));
            i += 1;
        }
        let mut outputs: Vec<TxOutData> = Vec::new();
        let mut output_records: Vec<OutputRecord> = Vec::new();
        let m: usize = spend_txouts.len();
        let mut j: usize = 0;
        while j < m
            invariant
                m == spend_txouts@.len(),
                j <= m,
                outputs@.len() == j,
                output_records@.len() == j,
                forall|k: int|
                    0 <= k < j ==> same_txout(#[trigger] outputs@[k], spend_txouts@[k].txo()),
            decreases m - j,
        {
            match &spend_txouts[j] {
                SpendTxOut::Destination(o) => {
                    outputs.push(dup_txout(&o.txout));
                    output_records.push(OutputRecord { witness_script: None });
                },
                SpendTxOut::Change(o) => {
                    outputs.push(dup_txout(&o.txout));
                    output_records.push(
                        OutputRecord {
                            witness_script: Some(crate::bytes::clone_bytes(&o.witness_script)),
                        },
                    );
                },
            }
            j += 1;
        }
        SpendTransaction(
            SignableTx { version: 2, lock_time, inputs, outputs, input_records, output_records },
        )
    }

    /// The signature digest of an input; only an unvault output can stand
    /// behind it, and the flag is ALL.
    pub fn signature_hash(
        &self,
        input_index: usize,
        previous_txout: &UnvaultTxOut,
        script_code: &Vec<u8>,
    ) -> (r: Vec<u8>)
        requires
            input_index < self.tx().inputs@.len(),
        ensures
            r@ == bip143_sighash(
                self.tx(),
                input_index as int,
                previous_txout.txo().value,
                script_code@,
                false,
            ),
    {
        sighash(&self.0, input_index, previous_txout.inner_txout().value, script_code, false)
    }
}

/// The funding transaction. The engine neither creates nor signs it; this
/// is a wrapper around a record that arrives pre-formed.
pub struct VaultTransaction(pub SignableTx);

impl RevaultTransaction for VaultTransaction {
    open spec fn tx(&self) -> SignableTx {
        self.0
    }

    fn inner_tx(&self) -> (r: &SignableTx) {
        &self.0
    }

    fn inner_tx_mut(&mut self) -> (r: &mut SignableTx) {
        &mut self.0
    }
}

impl VaultTransaction {
    /// Wraps a pre-formed record; no restriction applies.
    pub fn new(tx: SignableTx) -> (r: VaultTransaction)
        ensures
            r.tx() == tx,
    {
        VaultTransaction(tx)
    }
}

/// The fee-bumping transaction. The engine neither creates nor signs it;
/// this is a wrapper around a record that arrives pre-formed.
pub struct FeeBumpTransaction(pub SignableTx);

impl RevaultTransaction for FeeBumpTransaction {
    open spec fn tx(&self) -> SignableTx {
        self.0
    }

    fn inner_tx(&self) -> (r: &SignableTx) {
        &self.0
    }

    fn inner_tx_mut(&mut self) -> (r: &mut SignableTx) {
        &mut self.0
    }
}

impl FeeBumpTransaction {
    /// Wraps a pre-formed record; no restriction applies.
    pub fn new(tx: SignableTx) -> (r: FeeBumpTransaction)
        ensures
            r.tx() == tx,
    {
        FeeBumpTransaction(tx)
    }
}

} // verus!
