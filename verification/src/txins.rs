//! Typed wrappers for the inputs a protocol transaction may spend: the
//! outpoint referencing the previous output, the full previous output
//! itself, and the sequence field to set.

use vstd::prelude::*;

use crate::record::{OutPoint, TxInData};
use crate::txouts::{dup_outpoint, same_outpoint, FeeBumpTxOut, UnvaultTxOut, VaultTxOut};

verus! {

/// An input spending a vault output.
pub struct VaultTxIn {
    pub outpoint: OutPoint,
    pub txout: VaultTxOut,
    pub sequence: u32,
}

impl VaultTxIn {
    /// Well-formed: the outpoint id is 32 bytes and the output sound.
    pub open spec fn wf(self) -> bool {
        self.outpoint.wf() && self.txout.wf()
    }

    /// An input spending the vault output at `outpoint` with `sequence`.
    pub fn new(outpoint: OutPoint, txout: VaultTxOut, sequence: u32) -> (r: VaultTxIn)
        ensures
            r.outpoint == outpoint,
            r.txout == txout,
            r.sequence == sequence,
    {
        VaultTxIn { outpoint, txout, sequence }
    }

    /// The skeleton form of this input.
    pub fn as_unsigned_txin(&self) -> (r: TxInData)
        ensures
            same_outpoint(r.outpoint, self.outpoint),
            r.sequence == self.sequence,
    {
        TxInData { outpoint: dup_outpoint(&self.outpoint), sequence: self.sequence }
    }

    /// The previous output this input spends.
    pub fn into_txout(self) -> (r: VaultTxOut)
        ensures
            r == self.txout,
    {
        self.txout
    }
}

/// An input spending the unvault output.
pub struct UnvaultTxIn {
    pub outpoint: OutPoint,
    pub txout: UnvaultTxOut,
    pub sequence: u32,
}

impl UnvaultTxIn {
    /// Well-formed: the outpoint id is 32 bytes and the output sound.
    pub open spec fn wf(self) -> bool {
        self.outpoint.wf() && self.txout.wf()
    }

    /// An input spending the unvault output at `outpoint` with `sequence`.
    pub fn new(outpoint: OutPoint, txout: UnvaultTxOut, sequence: u32) -> (r: UnvaultTxIn)
        ensures
            r.outpoint == outpoint,
            r.txout == txout,
            r.sequence == sequence,
    {
        UnvaultTxIn { outpoint, txout, sequence }
    }

    /// The skeleton form of this input.
    pub fn as_unsigned_txin(&self) -> (r: TxInData)
        ensures
            same_outpoint(r.outpoint, self.outpoint),
            r.sequence == self.sequence,
    {
        TxInData { outpoint: dup_outpoint(&self.outpoint), sequence: self.sequence }
    }

    /// The previous output this input spends.
    pub fn into_txout(self) -> (r: UnvaultTxOut)
        ensures
            r == self.txout,
    {
        self.txout
    }
}

/// An input spending a fee-bumping wallet output.
pub struct FeeBumpTxIn {
    pub outpoint: OutPoint,
    pub txout: FeeBumpTxOut,
    pub sequence: u32,
}

impl FeeBumpTxIn {
    /// Well-formed: the outpoint id is 32 bytes and the output key-hash
    /// shaped.
    pub open spec fn wf(self) -> bool {
        self.outpoint.wf() && self.txout.wf()
    }

    /// An input spending the fee-bump output at `outpoint` with `sequence`.
    pub fn new(outpoint: OutPoint, txout: FeeBumpTxOut, sequence: u32) -> (r: FeeBumpTxIn)
        ensures
            r.outpoint == outpoint,
            r.txout == txout,
            r.sequence == sequence,
    {
        FeeBumpTxIn { outpoint, txout, sequence }
    }

    /// The skeleton form of this input.
    pub fn as_unsigned_txin(&self) -> (r: TxInData)
        ensures
            same_outpoint(r.outpoint, self.outpoint),
            r.sequence == self.sequence,
    {
        TxInData { outpoint: dup_outpoint(&self.outpoint), sequence: self.sequence }
    }

    /// The previous output this input spends.
    pub fn into_txout(self) -> (r: FeeBumpTxOut)
        ensures
            r == self.txout,
    {
        self.txout
    }
}

} // verus!
