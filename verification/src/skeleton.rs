//! An untyped construction path: outputs and previous outputs tagged by
//! kind at runtime, and constructors that check the combination handed to
//! them, refusing any mismatched kind. Where the typed constructors push
//! the kind checks to compile time, these push them to one runtime check at
//! construction; no skeleton ever exists with a disallowed kind.

use vstd::prelude::*;

use crate::error::TxError;
use crate::hashes::sha256d_of;
use crate::record::{OutPoint, TxInData, TxOutData};
use crate::txouts::{dup_outpoint, dup_txout, same_outpoint, same_txout};
use crate::RBF_SEQUENCE;

verus! {

/// A transaction output tagged by the protocol role it plays.
#[derive(Clone, Debug, PartialEq, Eq)]
pub enum RevaultTxOut {
    /// A vault output: deposits, the cancel destination, and spend change.
    VaultTxOut(TxOutData),
    /// The unvault output.
    UnvaultTxOut(TxOutData),
    /// An externally controlled destination of a spend transaction.
    SpendTxOut(TxOutData),
    /// The emergency destination.
    EmergencyTxOut(TxOutData),
    /// The fee-acceleration output attached to the unvault transaction.
    CpfpTxOut(TxOutData),
}

/// A previous output tagged by the kind of output it references.
#[derive(Clone, Debug, PartialEq, Eq)]
pub enum RevaultPrevout {
    /// A vault output, spent by the unvault and emergency transactions.
    VaultPrevout(OutPoint),
    /// The unvault output, spent by the cancel, emergency and spend
    /// transactions.
    UnvaultPrevout(OutPoint),
    /// A wallet output spent to bump a revaulting transaction's fee.
    FeeBumpPrevout(OutPoint),
    /// The fee-acceleration output.
    CpfpPrevout(OutPoint),
}

/// The raw output under any tag.
pub open spec fn txout_data(t: RevaultTxOut) -> TxOutData {
    match t {
        RevaultTxOut::VaultTxOut(o) => o,
        RevaultTxOut::UnvaultTxOut(o) => o,
        RevaultTxOut::SpendTxOut(o) => o,
        RevaultTxOut::EmergencyTxOut(o) => o,
        RevaultTxOut::CpfpTxOut(o) => o,
    }
}

/// The outpoint under any tag.
pub open spec fn prevout_point(p: RevaultPrevout) -> OutPoint {
    match p {
        RevaultPrevout::VaultPrevout(o) => o,
        RevaultPrevout::UnvaultPrevout(o) => o,
        RevaultPrevout::FeeBumpPrevout(o) => o,
        RevaultPrevout::CpfpPrevout(o) => o,
    }
}

/// An unsigned transaction skeleton.
#[derive(Clone, Debug, PartialEq, Eq)]
pub struct TxSkeleton {
    pub version: u32,
    pub lock_time: u32,
    pub inputs: Vec<TxInData>,
    pub outputs: Vec<TxOutData>,
}

/// A protocol transaction built through the untyped path, tagged by step.
#[derive(Clone, Debug, PartialEq, Eq)]
pub enum RevaultTransaction {
    /// The funding transaction; never created here, a handy wrapper.
    VaultTransaction(TxSkeleton),
    /// The unvaulting transaction.
    UnvaultTransaction(TxSkeleton),
    /// The transaction spending the unvault output outward.
    SpendTransaction(TxSkeleton),
    /// The transaction revaulting a spend attempt.
    CancelTransaction(TxSkeleton),
    /// The transaction sweeping a vault or unvault output to the emergency
    /// destination.
    EmergencyTransaction(TxSkeleton),
}

/// The skeleton under any tag.
pub open spec fn skeleton_of(t: RevaultTransaction) -> TxSkeleton {
    match t {
        RevaultTransaction::VaultTransaction(s) => s,
        RevaultTransaction::UnvaultTransaction(s) => s,
        RevaultTransaction::SpendTransaction(s) => s,
        RevaultTransaction::CancelTransaction(s) => s,
        RevaultTransaction::EmergencyTransaction(s) => s,
    }
}

/// The kinds an unvault construction accepts: one vault previous output,
/// then exactly the unvault output and the fee-acceleration output.
pub open spec fn unvault_kinds_ok(prevouts: Seq<RevaultPrevout>, txouts: Seq<RevaultTxOut>) -> bool {
    &&& prevouts.len() == 1
    &&& txouts.len() == 2
    &&& prevouts[0] is VaultPrevout
    &&& txouts[0] is UnvaultTxOut
    &&& txouts[1] is CpfpTxOut
}

/// The kinds a cancel construction accepts: the unvault previous output
/// with an optional fee-bump one, and exactly one vault output.
pub open spec fn cancel_kinds_ok(prevouts: Seq<RevaultPrevout>, txouts: Seq<RevaultTxOut>) -> bool {
    &&& (prevouts.len() == 1 || (prevouts.len() == 2 && prevouts[1] is FeeBumpPrevout))
    &&& prevouts[0] is UnvaultPrevout
    &&& txouts.len() == 1
    &&& txouts[0] is VaultTxOut
}

/// The kinds an emergency construction accepts: a vault or unvault
/// previous output with an optional fee-bump one, and exactly one
/// emergency output.
pub open spec fn emergency_kinds_ok(prevouts: Seq<RevaultPrevout>, txouts: Seq<RevaultTxOut>) -> bool {
    &&& (prevouts.len() == 1 || (prevouts.len() == 2 && prevouts[1] is FeeBumpPrevout))
    &&& (prevouts[0] is VaultPrevout || prevouts[0] is UnvaultPrevout)
    &&& txouts.len() == 1
    &&& txouts[0] is EmergencyTxOut
}

/// The kinds a spend construction accepts: unvault previous outputs only,
/// and destination or change (vault) outputs only.
pub open spec fn spend_kinds_ok(prevouts: Seq<RevaultPrevout>, txouts: Seq<RevaultTxOut>) -> bool {
    &&& forall|i: int| 0 <= i < prevouts.len() ==> (#[trigger] prevouts[i]) is UnvaultPrevout
    &&& forall|j: int|
        0 <= j < txouts.len() ==> ((#[trigger] txouts[j]) is SpendTxOut || txouts[j] is VaultTxOut)
}

/// The built skeleton: version 2, the given lock time, one input per
/// previous output with the given sequence, one output per tagged output.
pub open spec fn skeleton_ok(
    s: TxSkeleton,
    prevouts: Seq<RevaultPrevout>,
    txouts: Seq<RevaultTxOut>,
    sequence: u32,
) -> bool {
    &&& s.version == 2
    &&& s.lock_time == 0
    &&& s.inputs@.len() == prevouts.len()
    &&& forall|i: int|
        0 <= i < prevouts.len() ==> same_outpoint(
            (#[trigger] s.inputs@[i]).outpoint,
            prevout_point(prevouts[i]),
        ) && s.inputs@[i].sequence == sequence
    &&& s.outputs@.len() == txouts.len()
    &&& forall|j: int|
        0 <= j < txouts.len() ==> same_txout(#[trigger] s.outputs@[j], txout_data(txouts[j]))
}

impl RevaultTransaction {
    /// Creates an unvault transaction: it always spends one vault output
    /// and produces the unvault output plus the fee-acceleration output.
    /// Any other combination of kinds is refused, and no skeleton exists.
    pub fn new_unvault(prevouts: &Vec<RevaultPrevout>, txouts: &Vec<RevaultTxOut>) -> (r: Result<
        RevaultTransaction,
        TxError,
    >)
        ensures
            r is Ok <==> unvault_kinds_ok(prevouts@, txouts@),
            r matches Err(e) ==> e == TxError::PrevoutOrOutputKindMismatch,
            r matches Ok(t) ==> t is UnvaultTransaction && skeleton_ok(
                skeleton_of(t),
                prevouts@,
                txouts@,
                0xFFFF_FFFFu32,
            ),
    {
        if prevouts.len() != 1 || txouts.len() != 2 {
            return Err(TxError::PrevoutOrOutputKindMismatch);
        }
        let ok = matches!(&prevouts[0], RevaultPrevout::VaultPrevout(_)) && matches!(
            &txouts[0],
            RevaultTxOut::UnvaultTxOut(_),
        ) && matches!(&txouts[1], RevaultTxOut::CpfpTxOut(_));
        if !ok {
            return Err(TxError::PrevoutOrOutputKindMismatch);
        }
        let mut inputs: Vec<TxInData> = Vec::new();
        inputs.push(
            TxInData { outpoint: dup_prevout_point(&prevouts[0]), sequence: 0xFFFF_FFFFu32 },
        );
        let mut outputs: Vec<TxOutData> = Vec::new();
        outputs.push(dup_txout_data(&txouts[0]));
        outputs.push(dup_txout_data(&txouts[1]));
        Ok(
            RevaultTransaction::UnvaultTransaction(
                TxSkeleton { version: 2, lock_time: 0, inputs, outputs },
            ),
        )
    }

    /// Creates a cancel transaction: it always pays to one vault output
    /// and spends the unvault output, optionally with a fee-bumping
    /// previous output. Any other combination of kinds is refused.
    pub fn new_cancel(prevouts: &Vec<RevaultPrevout>, txouts: &Vec<RevaultTxOut>) -> (r: Result<
        RevaultTransaction,
        TxError,
    >)
        ensures
            r is Ok <==> cancel_kinds_ok(prevouts@, txouts@),
            r matches Err(e) ==> e == TxError::PrevoutOrOutputKindMismatch,
            r matches Ok(t) ==> t is CancelTransaction && skeleton_ok(
                skeleton_of(t),
                prevouts@,
                txouts@,
                RBF_SEQUENCE,
            ),
    {
        let shape = (prevouts.len() == 1 || (prevouts.len() == 2 && matches!(
            &prevouts[1],
            RevaultPrevout::FeeBumpPrevout(_),
        ))) && prevouts.len() >= 1 && matches!(&prevouts[0], RevaultPrevout::UnvaultPrevout(_))
            && txouts.len() == 1 && matches!(&txouts[0], RevaultTxOut::VaultTxOut(_));
        if !shape {
            return Err(TxError::PrevoutOrOutputKindMismatch);
        }
        let mut inputs: Vec<TxInData> = Vec::new();
        let n: usize = prevouts.len();
        let mut i: usize = 0;
        while i < n
            invariant
                n == prevouts@.len(),
                i <= n,
                inputs@.len() == i,
                forall|k: int|
                    0 <= k < i ==> same_outpoint(
                        (#[trigger] inputs@[k]).outpoint,
                        prevout_point(prevouts@[k]),
                    ) && inputs@[k].sequence == RBF_SEQUENCE,
            decreases n - i,
        {
            inputs.push(TxInData { outpoint: dup_prevout_point(&prevouts[i]), sequence: RBF_SEQUENCE });
            i += 1;
        }
        let mut outputs: Vec<TxOutData> = Vec::new();
        outputs.push(dup_txout_data(&txouts[0]));
        Ok(
            RevaultTransaction::CancelTransaction(
                TxSkeleton { version: 2, lock_time: 0, inputs, outputs },
            ),
        )
    }

    /// Creates an emergency transaction: it spends a vault or unvault
    /// output, optionally with a fee-bumping previous output, and pays to
    /// one emergency output. Any other combination of kinds is refused.
    pub fn new_emergency(prevouts: &Vec<RevaultPrevout>, txouts: &Vec<RevaultTxOut>) -> (r: Result<
        RevaultTransaction,
        TxError,
    >)
        ensures
            r is Ok <==> emergency_kinds_ok(prevouts@, txouts@),
            r matches Err(e) ==> e == TxError::PrevoutOrOutputKindMismatch,
            r matches Ok(t) ==> t is EmergencyTransaction && skeleton_ok(
                skeleton_of(t),
                prevouts@,
                txouts@,
                RBF_SEQUENCE,
            ),
    {
        let shape = (prevouts.len() == 1 || (prevouts.len() == 2 && matches!(
            &prevouts[1],
            RevaultPrevout::FeeBumpPrevout(_),
        ))) && prevouts.len() >= 1 && (matches!(&prevouts[0], RevaultPrevout::VaultPrevout(_))
            || matches!(&prevouts[0], RevaultPrevout::UnvaultPrevout(_))) && txouts.len() == 1
            && matches!(&txouts[0], RevaultTxOut::EmergencyTxOut(_));
        if !shape {
            return Err(TxError::PrevoutOrOutputKindMismatch);
        }
        let mut inputs: Vec<TxInData> = Vec::new();
        let n: usize = prevouts.len();
        let mut i: usize = 0;
        while i < n
            invariant
                n == prevouts@.len(),
                i <= n,
                inputs@.len() == i,
                forall|k: int|
                    0 <= k < i ==> same_outpoint(
                        (#[trigger] inputs@[k]).outpoint,
                        prevout_point(prevouts@[k]),
                    ) && inputs@[k].sequence == RBF_SEQUENCE,
            decreases n - i,
        {
            inputs.push(TxInData { outpoint: dup_prevout_point(&prevouts[i]), sequence: RBF_SEQUENCE });
            i += 1;
        }
        let mut outputs: Vec<TxOutData> = Vec::new();
        outputs.push(dup_txout_data(&txouts[0]));
        Ok(
            RevaultTransaction::EmergencyTransaction(
                TxSkeleton { version: 2, lock_time: 0, inputs, outputs },
            ),
        )
    }

    /// Creates a spend transaction: it batches unvault previous outputs
    /// (each input taking the given relative-timelock value as its
    /// sequence) and pays any number of destination or change outputs. A
    /// previous output or output of any other kind is refused.
    pub fn new_spend(
        prevouts: &Vec<RevaultPrevout>,
        outputs: &Vec<RevaultTxOut>,
        csv_value: u32,
    ) -> (r: Result<RevaultTransaction, TxError>)
        ensures
            r is Ok <==> spend_kinds_ok(prevouts@, outputs@),
            r matches Err(e) ==> e == TxError::PrevoutOrOutputKindMismatch,
            r matches Ok(t) ==> t is SpendTransaction && skeleton_ok(
                skeleton_of(t),
                prevouts@,
                outputs@,
                csv_value,
            ),
    {
        let mut txins: Vec<TxInData> = Vec::new();
        let n: usize = prevouts.len();
        let mut i: usize = 0;
        while i < n
            invariant
                n == prevouts@.len(),
                i <= n,
                txins@.len() == i,
                forall|k: int| 0 <= k < i ==> (#[trigger] prevouts@[k]) is UnvaultPrevout,
                forall|k: int|
                    0 <= k < i ==> same_outpoint(
                        (#[trigger] txins@[k]).outpoint,
                        prevout_point(prevouts@[k]),
                    ) && txins@[k].sequence == csv_value,
            decreases n - i,
        {
            if !matches!(&prevouts[i], RevaultPrevout::UnvaultPrevout(_)) {
                return Err(TxError::PrevoutOrOutputKindMismatch);
            }
            txins.push(TxInData { outpoint: dup_prevout_point(&prevouts[i]), sequence: csv_value });
            i += 1;
        }
        let mut txouts: Vec<TxOutData> = Vec::new();
        let m: usize = outputs.len();
        let mut j: usize = 0;
        while j < m
            invariant
                m == outputs@.len(),
                j <= m,
                txouts@.len() == j,
                forall|k: int|
                    0 <= k < j ==> ((#[trigger] outputs@[k]) is SpendTxOut || outputs@[k] is VaultTxOut),
                forall|k: int|
                    0 <= k < j ==> same_txout(#[trigger] txouts@[k], txout_data(outputs@[k])),
            decreases m - j,
        {
            let kind_ok = matches!(&outputs[j], RevaultTxOut::SpendTxOut(_)) || matches!(
                &outputs[j],
                RevaultTxOut::VaultTxOut(_),
            );
            if !kind_ok {
                return Err(TxError::PrevoutOrOutputKindMismatch);
            }
            txouts.push(dup_txout_data(&outputs[j]));
            j += 1;
        }
        Ok(
            RevaultTransaction::SpendTransaction(
                TxSkeleton { version: 2, lock_time: 0, inputs: txins, outputs: txouts },
            ),
        )
    }

    /// The reference to one of this transaction's outputs, for use as a
    /// following transaction's previous output.
    pub fn prevout(&self, vout: u32) -> (r: OutPoint)
        ensures
            r.txid@ == sha256d_of(skeleton_ser(skeleton_of(*self))),
            r.vout == vout,
            r.wf(),
    {
        let s = match self {
            RevaultTransaction::VaultTransaction(s) => s,
            RevaultTransaction::UnvaultTransaction(s) => s,
            RevaultTransaction::SpendTransaction(s) => s,
            RevaultTransaction::CancelTransaction(s) => s,
            RevaultTransaction::EmergencyTransaction(s) => s,
        };
        let ser = serialize_skeleton(s);
        OutPoint { txid: crate::hashes::sha256d(&ser), vout }
    }
}

/// The legacy wire form of a bare skeleton.
pub open spec fn skeleton_ser(s: TxSkeleton) -> Seq<u8> {
    crate::bytes::le32(s.version) + crate::encode::varint(s.inputs@.len() as u64)
        + crate::encode::ser_txins(s.inputs@) + crate::encode::varint(s.outputs@.len() as u64)
        + crate::encode::ser_txouts(s.outputs@) + crate::bytes::le32(s.lock_time)
}

/// The legacy wire form of a bare skeleton.
fn serialize_skeleton(s: &TxSkeleton) -> (r: Vec<u8>)
    ensures
        r@ == skeleton_ser(*s),
{
    let mut out: Vec<u8> = Vec::new();
    crate::bytes::push_le32(&mut out, s.version);
    crate::encode::push_varint(&mut out, s.inputs.len() as u64);
    crate::encode::push_txins(&mut out, &s.inputs);
    crate::encode::push_varint(&mut out, s.outputs.len() as u64);
    crate::encode::push_txouts(&mut out, &s.outputs);
    crate::bytes::push_le32(&mut out, s.lock_time);
    proof {
        assert(out@ =~= skeleton_ser(*s));
    }
    out
}

/// A fresh copy of the outpoint under any tag.
fn dup_prevout_point(p: &RevaultPrevout) -> (r: OutPoint)
    ensures
        same_outpoint(r, prevout_point(*p)),
{
    match p {
        RevaultPrevout::VaultPrevout(o) => dup_outpoint(o),
        RevaultPrevout::UnvaultPrevout(o) => dup_outpoint(o),
        RevaultPrevout::FeeBumpPrevout(o) => dup_outpoint(o),
        RevaultPrevout::CpfpPrevout(o) => dup_outpoint(o),
    }
}

/// A fresh copy of the raw output under any tag.
fn dup_txout_data(t: &RevaultTxOut) -> (r: TxOutData)
    ensures
        same_txout(r, txout_data(*t)),
{
    match t {
        RevaultTxOut::VaultTxOut(o) => dup_txout(o),
        RevaultTxOut::UnvaultTxOut(o) => dup_txout(o),
        RevaultTxOut::SpendTxOut(o) => dup_txout(o),
        RevaultTxOut::EmergencyTxOut(o) => dup_txout(o),
        RevaultTxOut::CpfpTxOut(o) => dup_txout(o),
    }
}

} // verus!
