//! The signable-transaction record: an unsigned skeleton paired with
//! per-input signing metadata (recorded previous output, witness script,
//! collected signatures) and per-output metadata. This is the working state
//! between construction and finalization.

use vstd::prelude::*;
use vstd::pervasive::VecAdditionalExecFns;

use crate::bytes::clone_bytes;
use crate::error::TxError;
use crate::policy::{pol_sat, pol_wit};
use crate::satisfier::{entry_for_hash, has_key_for_hash, usable_sig, RevaultInputSatisfier};
use crate::script::{
    is_p2wpkh, is_p2wsh, p2wpkh_hash, parse_policy, script_policy, spk_is_p2wpkh, spk_is_p2wsh,
};
use crate::sigmap::SigMap;

verus! {

/// A reference to an output of an earlier transaction.
#[derive(Clone, Debug, PartialEq, Eq)]
pub struct OutPoint {
    /// The 32-byte id of the transaction holding the output.
    pub txid: Vec<u8>,
    /// The index of the output in that transaction.
    pub vout: u32,
}

impl OutPoint {
    /// Well-formed: the id is 32 bytes.
    pub open spec fn wf(self) -> bool {
        self.txid@.len() == 32
    }
}

/// A raw transaction output: an amount in satoshis and the script locking
/// it.
#[derive(Clone, Debug, PartialEq, Eq)]
pub struct TxOutData {
    pub value: u64,
    pub script_pubkey: Vec<u8>,
}

/// One input of the unsigned skeleton: what it spends and its sequence
/// field.
#[derive(Clone, Debug, PartialEq, Eq)]
pub struct TxInData {
    pub outpoint: OutPoint,
    pub sequence: u32,
}

/// The signing metadata of one input.
pub struct InputRecord {
    /// The full previous output this input spends.
    pub witness_utxo: Option<TxOutData>,
    /// The witness script of the previous output, when it is
    /// pay-to-witness-script-hash.
    pub witness_script: Option<Vec<u8>>,
    /// The signatures collected so far.
    pub partial_sigs: SigMap,
    /// The final witness, set by finalization.
    pub final_witness: Option<Vec<Vec<u8>>>,
}

impl InputRecord {
    /// A fresh record around a previous output.
    pub fn new(witness_utxo: Option<TxOutData>, witness_script: Option<Vec<u8>>) -> (r:
        InputRecord)
        ensures
            r.witness_utxo == witness_utxo,
            r.witness_script == witness_script,
            r.partial_sigs.wf(),
            r.partial_sigs.entries@.len() == 0,
            r.final_witness is None,
    {
        InputRecord {
            witness_utxo,
            witness_script,
            partial_sigs: SigMap::new(),
            final_witness: None,
        }
    }
}

/// The metadata of one output.
pub struct OutputRecord {
    /// The witness script its script pays to, if any (kept to reconstruct
    /// the output; not consensus-relevant).
    pub witness_script: Option<Vec<u8>>,
}

/// The record under every transaction variant.
pub struct SignableTx {
    /// Transaction version; the protocol fixes it to 2.
    pub version: u32,
    /// The transaction-level lock time.
    pub lock_time: u32,
    /// The ordered skeleton inputs.
    pub inputs: Vec<TxInData>,
    /// The ordered outputs.
    pub outputs: Vec<TxOutData>,
    /// Signing metadata, index-aligned with `inputs`.
    pub input_records: Vec<InputRecord>,
    /// Output metadata, index-aligned with `outputs`.
    pub output_records: Vec<OutputRecord>,
}

impl SignableTx {
    /// Every per-input signature store is well-formed.
    pub open spec fn sigs_wf(self) -> bool {
        forall|i: int|
            0 <= i < self.input_records@.len() ==> (
            #[trigger] self.input_records@[i]).partial_sigs.wf()
    }

    /// The record invariant: aligned metadata, version 2, well-formed ids
    /// and signature stores.
    pub open spec fn wf(self) -> bool {
        &&& self.version == 2
        &&& self.input_records@.len() == self.inputs@.len()
        &&& self.output_records@.len() == self.outputs@.len()
        &&& self.sigs_wf()
        &&& forall|i: int|
            0 <= i < self.inputs@.len() ==> (#[trigger] self.inputs@[i]).outpoint.wf()
    }

    /// Records a signature for a key on one input, returning the signature
    /// it replaces, if any. Fails only when the index is past the input
    /// count; the record is then unchanged.
    pub fn add_signature(&mut self, input_index: usize, pubkey: Vec<u8>, rawsig: Vec<u8>) -> (r:
        Result<Option<Vec<u8>>, TxError>)
        requires
            old(self).sigs_wf(),
        ensures
            add_signature_post(*old(self), *final(self), input_index, pubkey, rawsig, r),
    {
        if input_index >= self.input_records.len() {
            return Err(TxError::InputIndexOutOfBounds);
        }
        let mut rec = InputRecord::new(None, None);
        self.input_records.set_and_swap(input_index, &mut rec);
        let prev = rec.partial_sigs.insert(pubkey, rawsig);
        self.input_records.set_and_swap(input_index, &mut rec);
        proof {
            assert(self.input_records@ =~= old(self).input_records@.update(
                input_index as int,
                self.input_records@[input_index as int],
            ));
        }
        Ok(prev)
    }
}

/// Everything `add_signature` promises, relating the record before (`o`)
/// and after (`n`) the call.
pub open spec fn add_signature_post(
    o: SignableTx,
    n: SignableTx,
    input_index: usize,
    pubkey: Vec<u8>,
    rawsig: Vec<u8>,
    r: Result<Option<Vec<u8>>, TxError>,
) -> bool {
    &&& n.sigs_wf()
    &&& (input_index >= o.input_records@.len() ==> r == Result::<Option<Vec<u8>>, TxError>::Err(
        TxError::InputIndexOutOfBounds,
    ) && n == o)
    &&& (input_index < o.input_records@.len() ==> {
        let old_map = o.input_records@[input_index as int].partial_sigs.map_view();
        let new_rec = n.input_records@[input_index as int];
        &&& r matches Ok(prev)
        &&& new_rec.partial_sigs.map_view() == old_map.insert(pubkey@, rawsig@)
        &&& (match r {
            Ok(Some(v)) => old_map.contains_key(pubkey@) && v@ == old_map[pubkey@],
            Ok(None) => !old_map.contains_key(pubkey@),
            Err(_) => false,
        })
        &&& new_rec.witness_utxo == o.input_records@[input_index as int].witness_utxo
        &&& new_rec.witness_script == o.input_records@[input_index as int].witness_script
        &&& new_rec.final_witness == o.input_records@[input_index as int].final_witness
        &&& n.input_records@.len() == o.input_records@.len()
        &&& forall|j: int|
            0 <= j < o.input_records@.len() && j != input_index ==> n.input_records@[j]
                == o.input_records@[j]
        &&& n.inputs == o.inputs
        &&& n.outputs == o.outputs
        &&& n.output_records == o.output_records
        &&& n.version == o.version
        &&& n.lock_time == o.lock_time
    })
}

/// Everything a successful finalization promises: every input's final
/// witness set to what `input_check` owes it, and nothing else changed.
pub open spec fn finalize_ok_post(o: SignableTx, n: SignableTx) -> bool {
    &&& n.version == o.version
    &&& n.lock_time == o.lock_time
    &&& n.inputs == o.inputs
    &&& n.outputs == o.outputs
    &&& n.output_records == o.output_records
    &&& n.input_records@.len() == o.input_records@.len()
    &&& forall|i: int|
        0 <= i < o.input_records@.len() ==> {
            let new_rec = #[trigger] n.input_records@[i];
            let old_rec = o.input_records@[i];
            &&& new_rec.witness_utxo == old_rec.witness_utxo
            &&& new_rec.witness_script == old_rec.witness_script
            &&& new_rec.partial_sigs == old_rec.partial_sigs
            &&& new_rec.final_witness matches Some(w) && input_check(
                old_rec,
                o.inputs@[i].sequence,
            ) matches Ok(ws) && w.deep_view() == ws
        }
}

/// Everything `finalize` promises, relating the record before (`o`) and
/// after (`n`) the call.
pub open spec fn finalize_post(o: SignableTx, n: SignableTx, r: Result<(), TxError>) -> bool {
    &&& (r matches Err(e) ==> n == o && o.finalize_err() == Option::Some(e))
    &&& ((r is Ok) <==> o.finalizable())
    &&& (r is Ok ==> finalize_ok_post(o, n))
}

/// What finalization owes one input: the witness it writes, or the error it
/// stops with. Key-hash outputs take the two-element witness of signature
/// then key; script-hash outputs take the policy witness with the witness
/// script appended; everything else is refused.
pub open spec fn input_check(rec: InputRecord, sequence: u32) -> Result<Seq<Seq<u8>>, TxError> {
    match rec.witness_utxo {
        Option::None => Result::Err(TxError::MissingPreviousOutput),
        Option::Some(utxo) => {
            let spk = utxo.script_pubkey@;
            let sigs = rec.partial_sigs.seq_view();
            if is_p2wpkh(spk) {
                let h = p2wpkh_hash(spk);
                if !has_key_for_hash(sigs, h) {
                    Result::Err(TxError::UnknownKeyForHash)
                } else if !usable_sig(entry_for_hash(sigs, h).1) {
                    Result::Err(TxError::MissingSignatureForKey)
                } else {
                    Result::Ok(seq![entry_for_hash(sigs, h).1, entry_for_hash(sigs, h).0])
                }
            } else if is_p2wsh(spk) {
                match rec.witness_script {
                    Option::None => Result::Err(TxError::MissingWitnessScript),
                    Option::Some(ws) => match script_policy(ws@) {
                        Option::None => Result::Err(TxError::UnparsableWitnessScript),
                        Option::Some(p) => if pol_sat(p, sigs, sequence) {
                            Result::Ok(pol_wit(p, sigs, sequence).push(ws@))
                        } else {
                            Result::Err(TxError::PolicySatisfactionFailed)
                        },
                    },
                }
            } else {
                Result::Err(TxError::UnsupportedPreviousOutputType)
            }
        },
    }
}

impl SignableTx {
    /// The error finalization stops with when it walks the inputs from
    /// `i` on, or nothing when all of them can be satisfied.
    pub open spec fn first_err_from(self, i: int) -> Option<TxError>
        decreases self.inputs@.len() - i,
    {
        if i < 0 || i >= self.inputs@.len() {
            Option::None
        } else {
            match input_check(self.input_records@[i], self.inputs@[i].sequence) {
                Result::Err(e) => Option::Some(e),
                Result::Ok(_) => self.first_err_from(i + 1),
            }
        }
    }

    /// The outcome finalization owes the whole record: the count check
    /// first, then the first failing input in index order.
    pub open spec fn finalize_err(self) -> Option<TxError> {
        if self.input_records@.len() != self.inputs@.len() {
            Option::Some(TxError::InputCountMismatch)
        } else {
            self.first_err_from(0)
        }
    }

    /// Every input can be satisfied, and the record is aligned.
    pub open spec fn finalizable(self) -> bool {
        self.finalize_err() is None
    }
}

/// The witness `w` is what `input_check` owes input `j`.
pub open spec fn witness_ok_at(s: SignableTx, w: Vec<Vec<u8>>, j: int) -> bool {
    input_check(s.input_records@[j], s.inputs@[j].sequence) matches Ok(ws) && w.deep_view() == ws
}

/// The computed witness list matches what `input_check` owes each input.
pub open spec fn witnesses_ok(s: SignableTx, ws: Seq<Vec<Vec<u8>>>) -> bool {
    &&& ws.len() == s.inputs@.len()
    &&& forall|i: int| 0 <= i < s.inputs@.len() ==> #[trigger] witness_ok_at(s, ws[i], i)
}

/// Runs the satisfier over one input: the witness owed to it, or the error
/// finalization stops with.
fn satisfy_input(rec: &InputRecord, sequence: u32) -> (r: Result<Vec<Vec<u8>>, TxError>)
    ensures
        match r {
            Ok(w) => input_check(*rec, sequence) matches Ok(ws) && w.deep_view() == ws,
            Err(e) => input_check(*rec, sequence) == Result::<Seq<Seq<u8>>, TxError>::Err(e),
        },
{
    match &rec.witness_utxo {
        None => Err(TxError::MissingPreviousOutput),
        Some(utxo) => {
            if spk_is_p2wpkh(&utxo.script_pubkey) {
                let h = crate::script::extract_p2wpkh_hash(&utxo.script_pubkey);
                let sat = RevaultInputSatisfier::new(&rec.partial_sigs, sequence);
                match sat.lookup_pkh_pk(&h) {
                    None => Err(TxError::UnknownKeyForHash),
                    Some(_pk) => {
                        match sat.lookup_pkh_sig(&h) {
                            None => Err(TxError::MissingSignatureForKey),
                            Some((pk, (body, flag))) => {
                                let mut sig = body;
                                proof {
                                    let e = entry_for_hash(sat.sigs(), h@);
                                    assert(e.1.drop_last().push(e.1.last()) =~= e.1);
                                }
                                sig.push(flag);
                                let mut w: Vec<Vec<u8>> = Vec::new();
                                w.push(sig);
                                w.push(pk);
                                proof {
                                    let e = entry_for_hash(sat.sigs(), h@);
                                    assert(w.deep_view() =~~= seq![e.1, e.0]);
                                }
                                Ok(w)
                            },
                        }
                    },
                }
            } else if spk_is_p2wsh(&utxo.script_pubkey) {
                match &rec.witness_script {
                    None => Err(TxError::MissingWitnessScript),
                    Some(ws) => {
                        match parse_policy(ws) {
                            None => Err(TxError::UnparsableWitnessScript),
                            Some(p) => {
                                let sat = RevaultInputSatisfier::new(&rec.partial_sigs, sequence);
                                match crate::policy::satisfy_policy(&p, &sat) {
                                    None => Err(TxError::PolicySatisfactionFailed),
                                    Some(mut w) => {
                                        let ghost base = w.deep_view();
                                        w.push(clone_bytes(ws));
                                        proof {
                                            assert(w.deep_view() =~~= base.push(ws@));
                                        }
                                        Ok(w)
                                    },
                                }
                            },
                        }
                    },
                }
            } else {
                Err(TxError::UnsupportedPreviousOutputType)
            }
        },
    }
}

impl SignableTx {
    /// Computes the final witness of every input, in index order, stopping
    /// at the first input that cannot be satisfied.
    fn compute_witnesses(&self) -> (r: Result<Vec<Vec<Vec<u8>>>, TxError>)
        ensures
            match r {
                Ok(ws) => {
                    &&& self.finalizable()
                    &&& self.input_records@.len() == self.inputs@.len()
                    &&& witnesses_ok(*self, ws@)
                },
                Err(e) => self.finalize_err() == Option::Some(e),
            },
    {
        let n: usize = self.inputs.len();
        if self.input_records.len() != n {
            return Err(TxError::InputCountMismatch);
        }
        let mut out: Vec<Vec<Vec<u8>>> = Vec::new();
        let mut i: usize = 0;
        while i < n
            invariant
                n == self.inputs@.len(),
                self.input_records@.len() == n,
                i <= n,
                out@.len() == i,
                self.first_err_from(0) == self.first_err_from(i as int),
                forall|j: int| 0 <= j < i ==> #[trigger] witness_ok_at(*self, out@[j], j),
            decreases n - i,
        {
            let ghost out_old = out@;
            match satisfy_input(&self.input_records[i], self.inputs[i].sequence) {
                Ok(w) => {
                    proof {
                        assert(witness_ok_at(*self, w, i as int));
                    }
                    out.push(w);
                    proof {
                        assert forall|j: int| 0 <= j < i + 1 implies #[trigger] witness_ok_at(
                            *self,
                            out@[j],
                            j,
                        ) by {
                            if j < i {
                                assert(out@[j] == out_old[j]);
                                assert(witness_ok_at(*self, out_old[j], j));
                            } else {
                                assert(out@[j] == w);
                            }
                        }
                        assert(self.first_err_from(i as int) == self.first_err_from(i + 1));
                    }
                },
                Err(e) => {
                    return Err(e);
                },
            }
            i += 1;
        }
        proof {
            assert(witnesses_ok(*self, out@));
        }
        Ok(out)
    }

    /// Finalization: writes the final witness of every input, or fails
    /// atomically. On failure the record is unchanged (so it may be retried
    /// once more signatures arrive), and the error is the count check or
    /// the first failing input in index order. On success every input's
    /// final witness is set to what `input_check` owes it, and nothing else
    /// changes.
    pub fn finalize(&mut self) -> (r: Result<(), TxError>)
        ensures
            finalize_post(*old(self), *final(self), r),
    {
        let mut witnesses = match self.compute_witnesses() {
            Ok(ws) => ws,
            Err(e) => {
                return Err(e);
            },
        };
        let n: usize = self.input_records.len();
        let ghost worig = witnesses@;
        let mut i: usize = 0;
        while i < n
            invariant
                n == old(self).input_records@.len(),
                n == worig.len(),
                witnesses@.len() == n,
                forall|j: int| i <= j < n ==> #[trigger] witnesses@[j] == worig[j],
                i <= n,
                self.version == old(self).version,
                self.lock_time == old(self).lock_time,
                self.inputs == old(self).inputs,
                self.outputs == old(self).outputs,
                self.output_records == old(self).output_records,
                self.input_records@.len() == n,
                witnesses_ok(*old(self), worig),
                forall|j: int| i <= j < n ==> #[trigger] self.input_records@[j] == old(
                    self,
                ).input_records@[j],
                forall|i_done: int|
                    0 <= i_done < i ==> {
                        let new_rec = #[trigger] self.input_records@[i_done];
                        let old_rec = old(self).input_records@[i_done];
                        &&& new_rec.witness_utxo == old_rec.witness_utxo
                        &&& new_rec.witness_script == old_rec.witness_script
                        &&& new_rec.partial_sigs == old_rec.partial_sigs
                        &&& new_rec.final_witness == Some(worig[i_done])
                    },
            decreases n - i,
        {
            let mut wit_i: Vec<Vec<u8>> = Vec::new();
            witnesses.set_and_swap(i, &mut wit_i);
            let mut rec = InputRecord::new(None, None);
            self.input_records.set_and_swap(i, &mut rec);
            rec.final_witness = Some(wit_i);
            self.input_records.set_and_swap(i, &mut rec);
            i += 1;
        }
        proof {
            assert forall|i: int| 0 <= i < old(self).input_records@.len() implies {
                let new_rec = #[trigger] final(self).input_records@[i];
                let old_rec = old(self).input_records@[i];
                &&& new_rec.witness_utxo == old_rec.witness_utxo
                &&& new_rec.witness_script == old_rec.witness_script
                &&& new_rec.partial_sigs == old_rec.partial_sigs
                &&& new_rec.final_witness matches Some(w) && input_check(
                    old_rec,
                    old(self).inputs@[i].sequence,
                ) matches Ok(ws) && w.deep_view() == ws
            } by {
                assert(witness_ok_at(*old(self), worig[i], i));
                assert(self.input_records@[i].final_witness == Some(worig[i]));
            }
        }
        Ok(())
    }
}

} // verus!
