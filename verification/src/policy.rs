//! The spending-policy tree and its satisfaction algorithm: a pure recursive
//! evaluator that assembles a witness stack from the signatures at hand, or
//! reports that no branch of the policy can be satisfied.
//!
//! Witness stacks are listed bottom-first, as they stand in a transaction
//! witness: the last listed element is consumed first by the script. A
//! conjunction therefore lists the right branch's elements first, and a
//! disjunction appends a selector element (`[0x01]` for the left branch, the
//! empty element for the right one) after the chosen branch's elements.

use vstd::prelude::*;

use crate::satisfier::{
    csv_block_kind, entry_for_hash, has_key_for_hash, has_usable_sig, sig_raw, usable_sig,
    RevaultInputSatisfier,
};

verus! {

/// A spending condition over keys, key hashes and relative timelocks.
#[derive(Debug, PartialEq, Eq)]
pub enum Policy {
    /// A signature by this serialized public key.
    Key(Vec<u8>),
    /// A signature by the key whose HASH160 is this 20-byte hash.
    KeyHash(Vec<u8>),
    /// The input's sequence encodes a relative lock of at least this many
    /// blocks.
    Older(u32),
    /// Signatures by at least `k` of these keys.
    Multi(usize, Vec<Vec<u8>>),
    /// Both conditions.
    And(Box<Policy>, Box<Policy>),
    /// Either condition.
    Or(Box<Policy>, Box<Policy>),
}

/// The mathematical form of a policy, over plain sequences.
#[verifier::ext_equal]
pub enum PolicyV {
    Key(Seq<u8>),
    KeyHash(Seq<u8>),
    Older(u32),
    Multi(int, Seq<Seq<u8>>),
    And(Box<PolicyV>, Box<PolicyV>),
    Or(Box<PolicyV>, Box<PolicyV>),
}

/// The mathematical form of a policy value.
pub open spec fn pol_view(p: Policy) -> PolicyV
    decreases p,
{
    match p {
        Policy::Key(pk) => PolicyV::Key(pk@),
        Policy::KeyHash(h) => PolicyV::KeyHash(h@),
        Policy::Older(n) => PolicyV::Older(n),
        Policy::Multi(k, keys) => PolicyV::Multi(k as int, keys.deep_view()),
        Policy::And(a, b) => PolicyV::And(Box::new(pol_view(*a)), Box::new(pol_view(*b))),
        Policy::Or(a, b) => PolicyV::Or(Box::new(pol_view(*a)), Box::new(pol_view(*b))),
    }
}

impl View for Policy {
    type V = PolicyV;

    open spec fn view(&self) -> PolicyV {
        pol_view(*self)
    }
}

/// Every key is a 33-byte serialized public key.
pub open spec fn keys_wf(keys: Seq<Seq<u8>>) -> bool {
    forall|i: int| 0 <= i < keys.len() ==> (#[trigger] keys[i]).len() == 33
}

/// Well-formed policies: keys 33 bytes, hashes 20 bytes, thresholds within
/// bounds (at most 20 keys, as a CHECKMULTISIG admits).
pub open spec fn pol_wf(p: PolicyV) -> bool
    decreases p,
{
    match p {
        PolicyV::Key(pk) => pk.len() == 33,
        PolicyV::KeyHash(h) => h.len() == 20,
        PolicyV::Older(n) => true,
        PolicyV::Multi(k, keys) => 1 <= k <= keys.len() <= 20 && keys_wf(keys),
        PolicyV::And(a, b) => pol_wf(*a) && pol_wf(*b),
        PolicyV::Or(a, b) => pol_wf(*a) && pol_wf(*b),
    }
}

/// How many of these keys hold a usable signature in the store.
pub open spec fn multi_count(keys: Seq<Seq<u8>>, sigs: Seq<(Seq<u8>, Seq<u8>)>) -> int
    decreases keys.len(),
{
    if keys.len() == 0 {
        0
    } else {
        (if has_usable_sig(sigs, keys[0]) {
            1int
        } else {
            0int
        }) + multi_count(keys.drop_first(), sigs)
    }
}

/// Whether the policy is satisfiable from the store and the input's
/// sequence.
pub open spec fn pol_sat(p: PolicyV, sigs: Seq<(Seq<u8>, Seq<u8>)>, sequence: u32) -> bool
    decreases p,
{
    match p {
        PolicyV::Key(pk) => has_usable_sig(sigs, pk),
        PolicyV::KeyHash(h) => has_key_for_hash(sigs, h) && usable_sig(entry_for_hash(sigs, h).1),
        PolicyV::Older(n) => csv_block_kind(n) && sequence >= n,
        PolicyV::Multi(k, keys) => multi_count(keys, sigs) >= k,
        PolicyV::And(a, b) => pol_sat(*a, sigs, sequence) && pol_sat(*b, sigs, sequence),
        PolicyV::Or(a, b) => pol_sat(*a, sigs, sequence) || pol_sat(*b, sigs, sequence),
    }
}

/// The count of usable keys lies between zero and the number of keys.
pub proof fn lemma_multi_count_bounds(keys: Seq<Seq<u8>>, sigs: Seq<(Seq<u8>, Seq<u8>)>)
    ensures
        0 <= multi_count(keys, sigs) <= keys.len(),
    decreases keys.len(),
{
    if keys.len() > 0 {
        lemma_multi_count_bounds(keys.drop_first(), sigs);
    }
}

/// The signatures of the first `k` keys holding usable signatures, in key
/// order.
pub open spec fn multi_wit(keys: Seq<Seq<u8>>, sigs: Seq<(Seq<u8>, Seq<u8>)>, k: int) -> Seq<
    Seq<u8>,
>
    decreases keys.len(),
{
    if k <= 0 || keys.len() == 0 {
        Seq::empty()
    } else if has_usable_sig(sigs, keys[0]) {
        seq![sig_raw(sigs, keys[0])] + multi_wit(keys.drop_first(), sigs, k - 1)
    } else {
        multi_wit(keys.drop_first(), sigs, k)
    }
}

/// The witness stack the evaluator assembles for a satisfiable policy,
/// bottom-first.
pub open spec fn pol_wit(p: PolicyV, sigs: Seq<(Seq<u8>, Seq<u8>)>, sequence: u32) -> Seq<Seq<u8>>
    decreases p,
{
    match p {
        PolicyV::Key(pk) => seq![sig_raw(sigs, pk)],
        PolicyV::KeyHash(h) => seq![entry_for_hash(sigs, h).1, entry_for_hash(sigs, h).0],
        PolicyV::Older(n) => Seq::empty(),
        PolicyV::Multi(k, keys) => seq![Seq::<u8>::empty()] + multi_wit(keys, sigs, k),
        PolicyV::And(a, b) => pol_wit(*b, sigs, sequence) + pol_wit(*a, sigs, sequence),
        PolicyV::Or(a, b) => if pol_sat(*a, sigs, sequence) {
            pol_wit(*a, sigs, sequence) + seq![seq![1u8]]
        } else {
            pol_wit(*b, sigs, sequence) + seq![Seq::<u8>::empty()]
        },
    }
}

/// Builds a witness stack satisfying the policy from the signatures at
/// hand, or reports that none exists. Succeeds exactly when the policy is
/// satisfiable, and the stack built is exactly the one `pol_wit` names.
pub fn satisfy_policy(p: &Policy, sat: &RevaultInputSatisfier) -> (r: Option<Vec<Vec<u8>>>)
    ensures
        r is Some <==> pol_sat(p@, sat.sigs(), sat.sequence),
        r matches Some(w) ==> w.deep_view() == pol_wit(p@, sat.sigs(), sat.sequence),
    decreases *p,
{
    match p {
        Policy::Key(pk) => {
            match sat.lookup_sig(pk) {
                Some((body, flag)) => {
                    let mut body = body;
                    proof {
                        assert(sig_raw(sat.sigs(), pk@).drop_last().push(
                            sig_raw(sat.sigs(), pk@).last(),
                        ) =~= sig_raw(sat.sigs(), pk@));
                    }
                    body.push(flag);
                    let mut w: Vec<Vec<u8>> = Vec::new();
                    w.push(body);
                    proof {
                        assert(w.deep_view() =~~= pol_wit(p@, sat.sigs(), sat.sequence));
                    }
                    Some(w)
                },
                None => None,
            }
        },
        Policy::KeyHash(h) => {
            match sat.lookup_pkh_sig(h) {
                Some((pk, (body, flag))) => {
                    let mut body = body;
                    proof {
                        let e = entry_for_hash(sat.sigs(), h@);
                        assert(e.1.drop_last().push(e.1.last()) =~= e.1);
                    }
                    body.push(flag);
                    let mut w: Vec<Vec<u8>> = Vec::new();
                    w.push(body);
                    w.push(pk);
                    proof {
                        assert(w.deep_view() =~~= pol_wit(p@, sat.sigs(), sat.sequence));
                    }
                    Some(w)
                },
                None => None,
            }
        },
        Policy::Older(n) => {
            if sat.check_older(*n) {
                let w: Vec<Vec<u8>> = Vec::new();
                proof {
                    assert(w.deep_view() =~~= pol_wit(p@, sat.sigs(), sat.sequence));
                }
                Some(w)
            } else {
                None
            }
        },
        Policy::Multi(k, keys) => satisfy_multi(*k, keys, sat, Ghost(p@)),
        Policy::And(a, b) => {
            let wa = match satisfy_policy(a, sat) {
                Some(w) => w,
                None => { return None; },
            };
            let mut wb = match satisfy_policy(b, sat) {
                Some(w) => w,
                None => { return None; },
            };
            let mut wa = wa;
            wb.append(&mut wa);
            proof {
                assert(wb.deep_view() =~~= pol_wit(p@, sat.sigs(), sat.sequence));
            }
            Some(wb)
        },
        Policy::Or(a, b) => {
            match satisfy_policy(a, sat) {
                Some(mut wa) => {
                    let mut selector: Vec<u8> = Vec::new();
                    selector.push(1u8);
                    proof {
                        assert(selector@ =~= seq![1u8]);
                    }
                    wa.push(selector);
                    proof {
                        assert(wa.deep_view() =~~= pol_wit(p@, sat.sigs(), sat.sequence));
                    }
                    Some(wa)
                },
                None => {
                    match satisfy_policy(b, sat) {
                        Some(mut wb) => {
                            wb.push(Vec::new());
                            proof {
                                assert(wb.deep_view() =~~= pol_wit(p@, sat.sigs(), sat.sequence));
                            }
                            Some(wb)
                        },
                        None => None,
                    }
                },
            }
        },
    }
}

/// The threshold case of the evaluator: takes the signatures of the first
/// `k` keys that hold one, under a leading empty element, as a
/// CHECKMULTISIG consumes them.
fn satisfy_multi(
    k: usize,
    keys: &Vec<Vec<u8>>,
    sat: &RevaultInputSatisfier,
    Ghost(pv): Ghost<PolicyV>,
) -> (r: Option<Vec<Vec<u8>>>)
    requires
        pv == PolicyV::Multi(k as int, keys.deep_view()),
    ensures
        r is Some <==> pol_sat(pv, sat.sigs(), sat.sequence),
        r matches Some(w) ==> w.deep_view() == pol_wit(pv, sat.sigs(), sat.sequence),
{
    let ghost kv = keys.deep_view();
    let ghost sv = sat.sigs();
    let mut w: Vec<Vec<u8>> = Vec::new();
    w.push(Vec::new());
    let mut taken: usize = 0;
    let mut i: usize = 0;
    proof {
        lemma_multi_count_bounds(kv, sv);
        assert(kv.skip(0) =~= kv);
        assert(w.deep_view().skip(1) =~~= Seq::<Seq<u8>>::empty());
        assert(w.deep_view()[0] =~= Seq::<u8>::empty());
        assert(w.deep_view().skip(1) + multi_wit(kv, sv, k as int) =~~= multi_wit(
            kv,
            sv,
            k as int,
        ));
    }
    while i < keys.len()
        invariant
            kv == keys.deep_view(),
            sv == sat.sigs(),
            i <= kv.len(),
            taken <= k,
            w.deep_view().len() == taken + 1,
            w.deep_view()[0] == Seq::<u8>::empty(),
            taken < k ==> multi_count(kv, sv) == taken + multi_count(kv.skip(i as int), sv),
            taken == k ==> multi_count(kv, sv) >= k,
            multi_wit(kv, sv, k as int) == w.deep_view().skip(1) + multi_wit(
                kv.skip(i as int),
                sv,
                k - taken,
            ),
        decreases keys.len() - i,
    {
        proof {
            assert(kv.skip(i as int).drop_first() =~= kv.skip(i + 1));
            assert(kv.skip(i as int)[0] == kv[i as int]);
            assert(kv[i as int] =~= keys@[i as int]@);
            lemma_multi_count_bounds(kv.skip(i + 1), sv);
        }
        if taken < k {
            match sat.lookup_sig(&keys[i]) {
                Some((body, flag)) => {
                    let mut body = body;
                    proof {
                        assert(sig_raw(sv, kv[i as int]).drop_last().push(
                            sig_raw(sv, kv[i as int]).last(),
                        ) =~= sig_raw(sv, kv[i as int]));
                    }
                    body.push(flag);
                    let ghost w_old = w.deep_view();
                    w.push(body);
                    taken += 1;
                    proof {
                        assert(w.deep_view() =~~= w_old.push(sig_raw(sv, kv[i as int])));
                        assert(w.deep_view().skip(1) =~~= w_old.skip(1).push(
                            sig_raw(sv, kv[i as int]),
                        ));
                        assert(multi_wit(kv.skip(i as int), sv, k - (taken - 1)) =~~= seq![
                            sig_raw(sv, kv[i as int]),
                        ] + multi_wit(kv.skip(i + 1), sv, k - taken));
                        assert(w_old.skip(1) + multi_wit(kv.skip(i as int), sv, k - (taken - 1))
                            =~~= w.deep_view().skip(1) + multi_wit(kv.skip(i + 1), sv, k - taken));
                    }
                },
                None => {
                },
            }
        }
        i += 1;
    }
    proof {
        assert(kv.skip(kv.len() as int) =~= Seq::<Seq<u8>>::empty());
    }
    if taken == k {
        proof {
            assert(multi_wit(kv, sv, k as int) =~~= w.deep_view().skip(1));
            assert(pol_wit(pv, sv, sat.sequence) =~~= seq![Seq::<u8>::empty()]
                + w.deep_view().skip(1));
            assert(w.deep_view() =~~= seq![Seq::<u8>::empty()] + w.deep_view().skip(1));
        }
        Some(w)
    } else {
        None
    }
}

} // verus!
