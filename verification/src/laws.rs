//! The engine's cross-cutting guarantees, stated and proved on their own:
//! what two identical signature insertions leave behind, and how a
//! relative-timelock gate decides satisfaction. The constructors' kind
//! restriction, finalization's atomicity and the key-hash witness shape are
//! stated directly on those functions' contracts; the wire round trip is
//! proved in the decoding module.

use vstd::prelude::*;

use crate::error::TxError;
use crate::policy::{pol_sat, PolicyV};
use crate::script::{lemma_script_policy_of_enc, pol_enc};
use crate::policy::pol_wf;
use crate::record::{add_signature_post, input_check, InputRecord, SignableTx};
use crate::satisfier::csv_block_kind;
use crate::script::{is_p2wsh, script_policy};

verus! {

/// Inserting the same key and signature twice is the same as inserting it
/// once: the second call returns the signature already there, the store
/// maps the key to that signature, and nothing else moves.
pub proof fn lemma_signature_insertion_idempotent(
    s0: SignableTx,
    s1: SignableTx,
    s2: SignableTx,
    input_index: usize,
    pubkey: Vec<u8>,
    rawsig: Vec<u8>,
    r1: Result<Option<Vec<u8>>, TxError>,
    r2: Result<Option<Vec<u8>>, TxError>,
)
    requires
        input_index < s0.input_records@.len(),
        add_signature_post(s0, s1, input_index, pubkey, rawsig, r1),
        add_signature_post(s1, s2, input_index, pubkey, rawsig, r2),
    ensures
        r2 matches Ok(Some(v)) && v@ == rawsig@,
        s2.input_records@[input_index as int].partial_sigs.map_view()
            == s1.input_records@[input_index as int].partial_sigs.map_view(),
        s2.input_records@[input_index as int].partial_sigs.map_view()[pubkey@] == rawsig@,
{
    let m0 = s0.input_records@[input_index as int].partial_sigs.map_view();
    let m1 = s1.input_records@[input_index as int].partial_sigs.map_view();
    assert(m1 == m0.insert(pubkey@, rawsig@));
    assert(m1.contains_key(pubkey@));
    assert(m1[pubkey@] == rawsig@);
    assert(m1.insert(pubkey@, rawsig@) =~= m1);
}

/// A policy gated by a relative timelock is unsatisfiable from any
/// signature store while the input's sequence is below the required value;
/// once the sequence meets a block-kind requirement, the lock adds nothing
/// beyond the rest of the policy.
pub proof fn lemma_timelock_gating(
    n: u32,
    rest: PolicyV,
    sigs: Seq<(Seq<u8>, Seq<u8>)>,
    sequence: u32,
)
    ensures
        sequence < n ==> !pol_sat(
            PolicyV::And(Box::new(PolicyV::Older(n)), Box::new(rest)),
            sigs,
            sequence,
        ),
        csv_block_kind(n) && sequence >= n ==> (pol_sat(
            PolicyV::And(Box::new(PolicyV::Older(n)), Box::new(rest)),
            sigs,
            sequence,
        ) <==> pol_sat(rest, sigs, sequence)),
{
    let p = PolicyV::And(Box::new(PolicyV::Older(n)), Box::new(rest));
    assert(pol_sat(p, sigs, sequence) == (pol_sat(PolicyV::Older(n), sigs, sequence) && pol_sat(
        rest,
        sigs,
        sequence,
    )));
}

/// A script-hash input whose witness script is the encoding of a
/// well-formed policy can be finalized exactly when the policy is
/// satisfiable from the input's signatures and sequence.
pub proof fn lemma_policy_input_finalizes(rec: InputRecord, sequence: u32, p: PolicyV)
    requires
        rec.witness_utxo matches Some(u) && is_p2wsh(u.script_pubkey@),
        rec.witness_script matches Some(ws) && ws@ == pol_enc(p),
        pol_wf(p),
    ensures
        (input_check(rec, sequence) is Ok) <==> pol_sat(p, rec.partial_sigs.seq_view(), sequence),
{
    lemma_script_policy_of_enc(p);
}

/// A script-hash input whose policy opens with a relative-timelock gate
/// fails finalization with the satisfaction error while its sequence is
/// below the required value, whatever signatures were collected.
pub proof fn lemma_timelock_gates_finalization(
    rec: InputRecord,
    sequence: u32,
    n: u32,
    rest: PolicyV,
)
    requires
        rec.witness_utxo matches Some(u) && is_p2wsh(u.script_pubkey@),
        rec.witness_script matches Some(ws) && script_policy(ws@) == Some(
            PolicyV::And(Box::new(PolicyV::Older(n)), Box::new(rest)),
        ),
        sequence < n,
    ensures
        input_check(rec, sequence) == Result::<Seq<Seq<u8>>, TxError>::Err(
            TxError::PolicySatisfactionFailed,
        ),
{
    lemma_timelock_gating(n, rest, rec.partial_sigs.seq_view(), sequence);
}

} // verus!
