//! Typed wrappers for each output kind the protocol handles. An output
//! carries its raw form (amount and locking script) and, where its script
//! pays to a witness script, that script's bytes; the script is derived
//! from the policy at construction, so presence of a witness script and the
//! pay-to-witness-script-hash shape always agree.

use vstd::prelude::*;

use crate::bytes::clone_bytes;
use crate::policy::{pol_wf, Policy};
use crate::record::{OutPoint, TxOutData};
use crate::script::{encode_policy, is_p2wpkh, is_p2wsh, p2wsh_spk, p2wsh_spk_of, pol_enc};

verus! {

/// Two raw outputs carry the same amount and script.
pub open spec fn same_txout(a: TxOutData, b: TxOutData) -> bool {
    a.value == b.value && a.script_pubkey@ == b.script_pubkey@
}

/// Two outpoints reference the same output.
pub open spec fn same_outpoint(a: OutPoint, b: OutPoint) -> bool {
    a.txid@ == b.txid@ && a.vout == b.vout
}

/// A fresh copy of a raw output.
pub fn dup_txout(o: &TxOutData) -> (r: TxOutData)
    ensures
        same_txout(r, *o),
{
    TxOutData { value: o.value, script_pubkey: clone_bytes(&o.script_pubkey) }
}

/// A fresh copy of an outpoint.
pub fn dup_outpoint(o: &OutPoint) -> (r: OutPoint)
    ensures
        same_outpoint(r, *o),
{
    OutPoint { txid: clone_bytes(&o.txid), vout: o.vout }
}

/// An output of a transaction, typed by its protocol role.
pub trait RevaultTxOut: Sized {
    /// The raw output.
    spec fn txo(&self) -> TxOutData;

    /// The raw output.
    fn inner_txout(&self) -> (r: &TxOutData)
        ensures
            *r == self.txo(),
    ;
}

/// A deposit output, controlled by the whole participant set.
pub struct VaultTxOut {
    pub txout: TxOutData,
    pub witness_script: Vec<u8>,
}

/// The unvaulting output, spendable by managers and cosigners after the
/// timelock or by the whole set.
pub struct UnvaultTxOut {
    pub txout: TxOutData,
    pub witness_script: Vec<u8>,
}

/// The output attached to the unvault transaction for child-pays-for-parent
/// fee acceleration.
pub struct CpfpTxOut {
    pub txout: TxOutData,
    pub witness_script: Vec<u8>,
}

/// The emergency destination output.
pub struct EmergencyTxOut {
    pub txout: TxOutData,
    pub witness_script: Vec<u8>,
}

/// A fee-bumping wallet output, pay-to-witness-pubkey-hash.
pub struct FeeBumpTxOut {
    pub txout: TxOutData,
}

/// An externally controlled destination output of a spend transaction.
pub struct ExternalTxOut {
    pub txout: TxOutData,
}

/// An output of the spend transaction: a destination, or a change output
/// back to a vault.
pub enum SpendTxOut {
    /// Pays an externally controlled address.
    Destination(ExternalTxOut),
    /// Pays change back to a vault script.
    Change(VaultTxOut),
}

/// A script-hash output derives its script from its policy's encoding.
pub open spec fn wsh_txout_wf(txout: TxOutData, witness_script: Vec<u8>) -> bool {
    txout.script_pubkey@ == p2wsh_spk_of(witness_script@) && is_p2wsh(txout.script_pubkey@)
}

impl VaultTxOut {
    /// Well-formed: the script pays to the held witness script.
    pub open spec fn wf(self) -> bool {
        wsh_txout_wf(self.txout, self.witness_script)
    }

    /// A vault output of the given amount, locked by the policy.
    pub fn new(value: u64, policy: &Policy) -> (r: VaultTxOut)
        requires
            pol_wf(policy@),
        ensures
            r.txout.value == value,
            r.witness_script@ == pol_enc(policy@),
            r.wf(),
    {
        let ws = encode_policy(policy);
        let spk = p2wsh_spk(&ws);
        VaultTxOut { txout: TxOutData { value, script_pubkey: spk }, witness_script: ws }
    }
}

impl RevaultTxOut for VaultTxOut {
    open spec fn txo(&self) -> TxOutData {
        self.txout
    }

    fn inner_txout(&self) -> (r: &TxOutData) {
        &self.txout
    }
}

impl UnvaultTxOut {
    /// Well-formed: the script pays to the held witness script.
    pub open spec fn wf(self) -> bool {
        wsh_txout_wf(self.txout, self.witness_script)
    }

    /// An unvault output of the given amount, locked by the policy.
    pub fn new(value: u64, policy: &Policy) -> (r: UnvaultTxOut)
        requires
            pol_wf(policy@),
        ensures
            r.txout.value == value,
            r.witness_script@ == pol_enc(policy@),
            r.wf(),
    {
        let ws = encode_policy(policy);
        let spk = p2wsh_spk(&ws);
        UnvaultTxOut { txout: TxOutData { value, script_pubkey: spk }, witness_script: ws }
    }
}

impl RevaultTxOut for UnvaultTxOut {
    open spec fn txo(&self) -> TxOutData {
        self.txout
    }

    fn inner_txout(&self) -> (r: &TxOutData) {
        &self.txout
    }
}

impl CpfpTxOut {
    /// Well-formed: the script pays to the held witness script.
    pub open spec fn wf(self) -> bool {
        wsh_txout_wf(self.txout, self.witness_script)
    }

    /// A fee-acceleration output of the given amount, locked by the policy.
    pub fn new(value: u64, policy: &Policy) -> (r: CpfpTxOut)
        requires
            pol_wf(policy@),
        ensures
            r.txout.value == value,
            r.witness_script@ == pol_enc(policy@),
            r.wf(),
    {
        let ws = encode_policy(policy);
        let spk = p2wsh_spk(&ws);
        CpfpTxOut { txout: TxOutData { value, script_pubkey: spk }, witness_script: ws }
    }
}

impl RevaultTxOut for CpfpTxOut {
    open spec fn txo(&self) -> TxOutData {
        self.txout
    }

    fn inner_txout(&self) -> (r: &TxOutData) {
        &self.txout
    }
}

impl EmergencyTxOut {
    /// Well-formed: the script pays to the held witness script.
    pub open spec fn wf(self) -> bool {
        wsh_txout_wf(self.txout, self.witness_script)
    }

    /// An emergency output of the given amount, locked by the policy.
    pub fn new(value: u64, policy: &Policy) -> (r: EmergencyTxOut)
        requires
            pol_wf(policy@),
        ensures
            r.txout.value == value,
            r.witness_script@ == pol_enc(policy@),
            r.wf(),
    {
        let ws = encode_policy(policy);
        let spk = p2wsh_spk(&ws);
        EmergencyTxOut { txout: TxOutData { value, script_pubkey: spk }, witness_script: ws }
    }
}

impl RevaultTxOut for EmergencyTxOut {
    open spec fn txo(&self) -> TxOutData {
        self.txout
    }

    fn inner_txout(&self) -> (r: &TxOutData) {
        &self.txout
    }
}

impl FeeBumpTxOut {
    /// Well-formed: key-hash shaped, so the key-hash path can spend it.
    pub open spec fn wf(self) -> bool {
        is_p2wpkh(self.txout.script_pubkey@)
    }

    /// Wraps a wallet output. Its script must be pay-to-witness-pubkey-hash:
    /// the absence of a witness script marks exactly that shape.
    pub fn new(txout: TxOutData) -> (r: FeeBumpTxOut)
        requires
            is_p2wpkh(txout.script_pubkey@),
        ensures
            r.txout == txout,
            r.wf(),
    {
        FeeBumpTxOut { txout }
    }
}

impl RevaultTxOut for FeeBumpTxOut {
    open spec fn txo(&self) -> TxOutData {
        self.txout
    }

    fn inner_txout(&self) -> (r: &TxOutData) {
        &self.txout
    }
}

impl ExternalTxOut {
    /// Wraps an externally controlled output as a spend destination.
    pub fn new(txout: TxOutData) -> (r: ExternalTxOut)
        ensures
            r.txout == txout,
    {
        ExternalTxOut { txout }
    }
}

impl RevaultTxOut for ExternalTxOut {
    open spec fn txo(&self) -> TxOutData {
        self.txout
    }

    fn inner_txout(&self) -> (r: &TxOutData) {
        &self.txout
    }
}

impl SpendTxOut {
    /// The raw output under either variant.
    pub open spec fn txo(self) -> TxOutData {
        match self {
            SpendTxOut::Destination(ref o) => o.txout,
            SpendTxOut::Change(ref o) => o.txout,
        }
    }

    /// The witness script under either variant, if the output carries one.
    pub open spec fn ws(self) -> Option<Vec<u8>> {
        match self {
            SpendTxOut::Destination(_) => Option::None,
            SpendTxOut::Change(ref o) => Option::Some(o.witness_script),
        }
    }
}

} // verus!
