//! The byte form of witness scripts: a prefix encoding of the policy tree,
//! with a parser and the proof that parsing inverts encoding. Also the two
//! output-script shapes the engine spends: pay-to-witness-pubkey-hash and
//! pay-to-witness-script-hash.

use vstd::prelude::*;

use crate::bytes::{extend_bytes, le32, le32_val, lemma_le32_roundtrip, push_le32, read_le32};
use crate::policy::{keys_wf, pol_wf, Policy, PolicyV};

verus! {

/// Tag byte opening a key fragment.
pub const TAG_KEY: u8 = 0x01;

/// Tag byte opening a key-hash fragment.
pub const TAG_KEYHASH: u8 = 0x02;

/// Tag byte opening a relative-timelock fragment.
pub const TAG_OLDER: u8 = 0x03;

/// Tag byte opening a key-threshold fragment.
pub const TAG_MULTI: u8 = 0x04;

/// Tag byte opening a conjunction.
pub const TAG_AND: u8 = 0x05;

/// Tag byte opening a disjunction.
pub const TAG_OR: u8 = 0x06;

/// The keys of a threshold, one after another.
pub open spec fn concat_keys(keys: Seq<Seq<u8>>) -> Seq<u8>
    decreases keys.len(),
{
    if keys.len() == 0 {
        Seq::empty()
    } else {
        keys[0] + concat_keys(keys.drop_first())
    }
}

/// Well-formed keys concatenate to 33 bytes each.
pub proof fn lemma_concat_keys_len(keys: Seq<Seq<u8>>)
    requires
        keys_wf(keys),
    ensures
        concat_keys(keys).len() == 33 * keys.len(),
    decreases keys.len(),
{
    if keys.len() > 0 {
        assert(keys_wf(keys.drop_first()));
        lemma_concat_keys_len(keys.drop_first());
    }
}

/// The byte encoding of a policy.
pub open spec fn pol_enc(p: PolicyV) -> Seq<u8>
    decreases p,
{
    match p {
        PolicyV::Key(pk) => seq![TAG_KEY] + pk,
        PolicyV::KeyHash(h) => seq![TAG_KEYHASH] + h,
        PolicyV::Older(n) => seq![TAG_OLDER] + le32(n),
        PolicyV::Multi(k, keys) => seq![TAG_MULTI, k as u8, keys.len() as u8] + concat_keys(keys),
        PolicyV::And(a, b) => seq![TAG_AND] + pol_enc(*a) + pol_enc(*b),
        PolicyV::Or(a, b) => seq![TAG_OR] + pol_enc(*a) + pol_enc(*b),
    }
}

/// The first `n` 33-byte keys of a byte string.
pub open spec fn parse_keys(b: Seq<u8>, n: int) -> Seq<Seq<u8>>
    decreases n,
{
    if n <= 0 {
        Seq::empty()
    } else {
        seq![b.subrange(0, 33)] + parse_keys(b.skip(33), n - 1)
    }
}

/// The policy a byte string opens with, and what follows it.
pub open spec fn parse_pol(b: Seq<u8>) -> Option<(PolicyV, Seq<u8>)>
    decreases b.len(),
{
    if b.len() == 0 {
        None
    } else if b[0] == TAG_KEY {
        if b.len() >= 34 {
            Some((PolicyV::Key(b.subrange(1, 34)), b.skip(34)))
        } else {
            None
        }
    } else if b[0] == TAG_KEYHASH {
        if b.len() >= 21 {
            Some((PolicyV::KeyHash(b.subrange(1, 21)), b.skip(21)))
        } else {
            None
        }
    } else if b[0] == TAG_OLDER {
        if b.len() >= 5 {
            Some((PolicyV::Older(le32_val(b.subrange(1, 5))), b.skip(5)))
        } else {
            None
        }
    } else if b[0] == TAG_MULTI {
        if b.len() >= 3 {
            let k = b[1] as int;
            let n = b[2] as int;
            if 1 <= k <= n <= 20 && b.len() >= 3 + 33 * n {
                Some(
                    (
                        PolicyV::Multi(k, parse_keys(b.skip(3), n)),
                        b.skip(3 + 33 * n),
                    ),
                )
            } else {
                None
            }
        } else {
            None
        }
    } else if b[0] == TAG_AND {
        match parse_pol(b.skip(1)) {
            Some((a, r1)) => if r1.len() < b.len() {
                match parse_pol(r1) {
                    Some((c, r2)) => Some((PolicyV::And(Box::new(a), Box::new(c)), r2)),
                    None => None,
                }
            } else {
                None
            },
            None => None,
        }
    } else if b[0] == TAG_OR {
        match parse_pol(b.skip(1)) {
            Some((a, r1)) => if r1.len() < b.len() {
                match parse_pol(r1) {
                    Some((c, r2)) => Some((PolicyV::Or(Box::new(a), Box::new(c)), r2)),
                    None => None,
                }
            } else {
                None
            },
            None => None,
        }
    } else {
        None
    }
}

/// Every encoding opens with its tag byte.
pub proof fn lemma_enc_len_pos(p: PolicyV)
    ensures
        pol_enc(p).len() >= 1,
{
}

/// Reading keys back out of their concatenation yields the keys.
pub proof fn lemma_parse_keys_roundtrip(keys: Seq<Seq<u8>>, rest: Seq<u8>)
    requires
        keys_wf(keys),
    ensures
        parse_keys(concat_keys(keys) + rest, keys.len() as int) == keys,
    decreases keys.len(),
{
    if keys.len() > 0 {
        let b = concat_keys(keys) + rest;
        assert(keys_wf(keys.drop_first()));
        lemma_concat_keys_len(keys.drop_first());
        assert(keys[0].len() == 33);
        assert(b.subrange(0, 33) =~= keys[0]);
        assert(b.skip(33) =~= concat_keys(keys.drop_first()) + rest);
        lemma_parse_keys_roundtrip(keys.drop_first(), rest);
        assert(parse_keys(b, keys.len() as int) =~= keys);
    } else {
        assert(parse_keys(concat_keys(keys) + rest, 0) =~= keys);
    }
}

/// Parsing inverts encoding: a well-formed policy's encoding, followed by
/// anything, parses back to the policy with that remainder.
pub proof fn lemma_parse_enc(p: PolicyV, rest: Seq<u8>)
    requires
        pol_wf(p),
    ensures
        parse_pol(pol_enc(p) + rest) == Some((p, rest)),
    decreases p,
{
    let b = pol_enc(p) + rest;
    match p {
        PolicyV::Key(pk) => {
            assert(b[0] == TAG_KEY);
            assert(b.len() == 34 + rest.len());
            assert(b.subrange(1, 34) =~= pk);
            assert(b.skip(34) =~= rest);
        },
        PolicyV::KeyHash(h) => {
            assert(b[0] == TAG_KEYHASH);
            assert(b.subrange(1, 21) =~= h);
            assert(b.skip(21) =~= rest);
        },
        PolicyV::Older(n) => {
            assert(b[0] == TAG_OLDER);
            assert(b.subrange(1, 5) =~= le32(n));
            lemma_le32_roundtrip(n);
            assert(b.skip(5) =~= rest);
        },
        PolicyV::Multi(k, keys) => {
            assert(b[0] == TAG_MULTI);
            lemma_concat_keys_len(keys);
            assert(b[1] == k as u8 && b[2] == keys.len() as u8);
            assert(b[1] as int == k && b[2] as int == keys.len());
            assert(b.len() == 3 + 33 * keys.len() + rest.len());
            assert(b.skip(3) =~= concat_keys(keys) + rest);
            lemma_parse_keys_roundtrip(keys, rest);
            assert(b.skip(3 + 33 * (keys.len() as int)) =~= rest);
            assert(parse_pol(b) == Some((PolicyV::Multi(k, keys), rest)));
        },
        PolicyV::And(a, c) => {
            assert(b[0] == TAG_AND);
            assert(b.skip(1) =~= pol_enc(*a) + (pol_enc(*c) + rest));
            lemma_parse_enc(*a, pol_enc(*c) + rest);
            lemma_enc_len_pos(*a);
            assert((pol_enc(*c) + rest).len() < b.len());
            lemma_parse_enc(*c, rest);
            assert(parse_pol(b) == Some((PolicyV::And(Box::new(*a), Box::new(*c)), rest)));
            assert(PolicyV::And(Box::new(*a), Box::new(*c)) == p);
        },
        PolicyV::Or(a, c) => {
            assert(b[0] == TAG_OR);
            assert(b.skip(1) =~= pol_enc(*a) + (pol_enc(*c) + rest));
            lemma_parse_enc(*a, pol_enc(*c) + rest);
            lemma_enc_len_pos(*a);
            assert((pol_enc(*c) + rest).len() < b.len());
            lemma_parse_enc(*c, rest);
            assert(parse_pol(b) == Some((PolicyV::Or(Box::new(*a), Box::new(*c)), rest)));
            assert(PolicyV::Or(Box::new(*a), Box::new(*c)) == p);
        },
    }
}

/// A well-formed policy's encoding is a witness script for exactly that
/// policy.
pub proof fn lemma_script_policy_of_enc(p: PolicyV)
    requires
        pol_wf(p),
    ensures
        script_policy(pol_enc(p)) == Some(p),
{
    lemma_parse_enc(p, Seq::empty());
    assert(pol_enc(p) + Seq::<u8>::empty() =~= pol_enc(p));
}

/// The policy a whole byte string encodes, if it encodes one exactly.
pub open spec fn script_policy(b: Seq<u8>) -> Option<PolicyV> {
    match parse_pol(b) {
        Some((p, r)) => if r.len() == 0 {
            Some(p)
        } else {
            None
        },
        None => None,
    }
}

/// Appends the encoding of a policy.
pub fn encode_policy_into(p: &Policy, out: &mut Vec<u8>)
    requires
        pol_wf(p@),
    ensures
        final(out)@ == old(out)@ + pol_enc(p@),
    decreases *p,
{
    match p {
        Policy::Key(pk) => {
            out.push(TAG_KEY);
            extend_bytes(out, pk);
            proof {
                assert(out@ =~= old(out)@ + pol_enc(p@));
            }
        },
        Policy::KeyHash(h) => {
            out.push(TAG_KEYHASH);
            extend_bytes(out, h);
            proof {
                assert(out@ =~= old(out)@ + pol_enc(p@));
            }
        },
        Policy::Older(n) => {
            out.push(TAG_OLDER);
            push_le32(out, *n);
            proof {
                assert(out@ =~= old(out)@ + pol_enc(p@));
            }
        },
        Policy::Multi(k, keys) => {
            let ghost kv = keys.deep_view();
            out.push(TAG_MULTI);
            out.push(*k as u8);
            out.push(keys.len() as u8);
            let ghost header = out@;
            proof {
                assert(kv.skip(0) =~= kv);
            }
            let mut i: usize = 0;
            while i < keys.len()
                invariant
                    kv == keys.deep_view(),
                    i <= kv.len(),
                    keys_wf(kv),
                    header + concat_keys(kv) == out@ + concat_keys(kv.skip(i as int)),
                decreases keys.len() - i,
            {
                proof {
                    assert(kv.skip(i as int).drop_first() =~= kv.skip(i + 1));
                    assert(kv.skip(i as int)[0] == kv[i as int]);
                    assert(kv[i as int] =~= keys@[i as int]@);
                }
                let ghost before = out@;
                extend_bytes(out, &keys[i]);
                proof {
                    assert(header + concat_keys(kv) =~= before + (kv[i as int] + concat_keys(
                        kv.skip(i + 1),
                    )));
                    assert(before + (kv[i as int] + concat_keys(kv.skip(i + 1))) =~= out@
                        + concat_keys(kv.skip(i + 1)));
                }
                i += 1;
            }
            proof {
                assert(kv.skip(kv.len() as int) =~= Seq::<Seq<u8>>::empty());
                assert(out@ + Seq::<u8>::empty() =~= out@);
                assert(header =~= old(out)@ + seq![TAG_MULTI, *k as u8, keys@.len() as u8]);
                assert(out@ =~= old(out)@ + pol_enc(p@));
            }
        },
        Policy::And(a, b) => {
            out.push(TAG_AND);
            encode_policy_into(a, out);
            encode_policy_into(b, out);
            proof {
                assert(out@ =~= old(out)@ + pol_enc(p@));
            }
        },
        Policy::Or(a, b) => {
            out.push(TAG_OR);
            encode_policy_into(a, out);
            encode_policy_into(b, out);
            proof {
                assert(out@ =~= old(out)@ + pol_enc(p@));
            }
        },
    }
}

/// The encoding of a policy as a fresh byte vector.
pub fn encode_policy(p: &Policy) -> (r: Vec<u8>)
    requires
        pol_wf(p@),
    ensures
        r@ == pol_enc(p@),
{
    let mut out: Vec<u8> = Vec::new();
    encode_policy_into(p, &mut out);
    proof {
        assert(Seq::<u8>::empty() + pol_enc(p@) =~= pol_enc(p@));
    }
    out
}

/// Each of the first `n` keys is the matching 33-byte slice.
pub proof fn lemma_parse_keys_index(b: Seq<u8>, n: int, j: int)
    requires
        0 <= j < n,
        33 * n <= b.len(),
    ensures
        parse_keys(b, n)[j] == b.subrange(33 * j, 33 * j + 33),
        parse_keys(b, n).len() == n,
    decreases n,
{
    lemma_parse_keys_len(b, n);
    if j == 0 {
    } else {
        lemma_parse_keys_index(b.skip(33), n - 1, j - 1);
        assert(b.skip(33).subrange(33 * (j - 1), 33 * (j - 1) + 33) =~= b.subrange(
            33 * j,
            33 * j + 33,
        ));
    }
}

/// Parsing `n` keys yields `n` keys.
pub proof fn lemma_parse_keys_len(b: Seq<u8>, n: int)
    ensures
        parse_keys(b, n).len() == if n <= 0 {
            0
        } else {
            n
        },
    decreases n,
{
    if n > 0 {
        lemma_parse_keys_len(b.skip(33), n - 1);
    }
}

/// Reads the policy opening at `pos`, returning it with the position just
/// past it. Agrees exactly with the mathematical parser on the tail of the
/// byte string.
fn parse_pol_at(b: &Vec<u8>, pos: usize) -> (r: Option<(Policy, usize)>)
    requires
        pos <= b@.len(),
    ensures
        match r {
            Some(pr) => pos < pr.1 <= b@.len() && parse_pol(b@.skip(pos as int)) == Some(
                (pr.0@, b@.skip(pr.1 as int)),
            ),
            None => parse_pol(b@.skip(pos as int)) is None,
        },
    decreases b@.len() - pos,
{
    let n: usize = b.len();
    let ghost s = b@.skip(pos as int);
    if pos == n {
        proof {
            assert(s =~= Seq::<u8>::empty());
        }
        return None;
    }
    proof {
        assert(s[0] == b@[pos as int]);
        assert(s.len() == n - pos);
    }
    let tag: u8 = b[pos];
    if tag == TAG_KEY {
        if n - pos >= 34 {
            let key = crate::bytes::copy_range(b, pos + 1, 33);
            proof {
                assert(key@ =~= s.subrange(1, 34));
                assert(b@.skip(pos + 34) =~= s.skip(34));
            }
            Some((Policy::Key(key), pos + 34))
        } else {
            None
        }
    } else if tag == TAG_KEYHASH {
        if n - pos >= 21 {
            let h = crate::bytes::copy_range(b, pos + 1, 20);
            proof {
                assert(h@ =~= s.subrange(1, 21));
                assert(b@.skip(pos + 21) =~= s.skip(21));
            }
            Some((Policy::KeyHash(h), pos + 21))
        } else {
            None
        }
    } else if tag == TAG_OLDER {
        if n - pos >= 5 {
            let v: u32 = read_le32(b, pos + 1);
            proof {
                assert(b@.subrange(pos + 1, pos + 5) =~= s.subrange(1, 5));
                assert(b@.skip(pos + 5) =~= s.skip(5));
            }
            Some((Policy::Older(v), pos + 5))
        } else {
            None
        }
    } else if tag == TAG_MULTI {
        if n - pos < 3 {
            return None;
        }
        let k8: u8 = b[pos + 1];
        let n8: u8 = b[pos + 2];
        proof {
            assert(s[1] == b@[pos + 1] && s[2] == b@[pos + 2]);
        }
        if !(1 <= k8 && k8 <= n8 && n8 <= 20) {
            return None;
        }
        let need: usize = 3 + 33 * (n8 as usize);
        if n - pos < need {
            return None;
        }
        let ghost s3 = s.skip(3);
        let mut keys: Vec<Vec<u8>> = Vec::new();
        let mut j: usize = 0;
        while j < n8 as usize
            invariant
                s3 == b@.skip(pos as int).skip(3),
                s == b@.skip(pos as int),
                s.len() >= 3,
                s[1] == k8 && s[2] == n8,
                1 <= k8 <= n8 <= 20,
                need == 3 + 33 * (n8 as int),
                pos + 3 + 33 * (n8 as int) <= b@.len(),
                j <= n8 as usize,
                keys.deep_view().len() == j,
                forall|jj: int| 0 <= jj < j ==> keys.deep_view()[jj] == s3.subrange(
                    33 * jj,
                    33 * jj + 33,
                ),
            decreases n8 as usize - j,
        {
            let _bn: usize = b.len();
            let key = crate::bytes::copy_range(b, pos + 3 + 33 * j, 33);
            proof {
                assert(s3 =~= b@.skip(pos + 3));
                assert(key@ =~= s3.subrange(33 * (j as int), 33 * (j as int) + 33));
            }
            let ghost kdv = keys.deep_view();
            keys.push(key);
            proof {
                assert(keys.deep_view() =~~= kdv.push(key@));
            }
            j += 1;
        }
        proof {
            lemma_parse_keys_len(s3, n8 as int);
            assert forall|jj: int| 0 <= jj < n8 as int implies keys.deep_view()[jj] == parse_keys(
                s3,
                n8 as int,
            )[jj] by {
                lemma_parse_keys_index(s3, n8 as int, jj);
                assert(s3 =~= b@.skip(pos + 3));
            }
            assert(keys.deep_view() =~~= parse_keys(s3, n8 as int));
            assert(b@.skip(pos + need) =~= s.skip(3 + 33 * (n8 as int)));
        }
        Some((Policy::Multi(k8 as usize, keys), pos + need))
    } else if tag == TAG_AND {
        match parse_pol_at(b, pos + 1) {
            Some((a, p1)) => {
                proof {
                    assert(b@.skip(pos + 1) =~= s.skip(1));
                }
                match parse_pol_at(b, p1) {
                    Some((c, p2)) => Some((Policy::And(Box::new(a), Box::new(c)), p2)),
                    None => None,
                }
            },
            None => {
                proof {
                    assert(b@.skip(pos + 1) =~= s.skip(1));
                }
                None
            },
        }
    } else if tag == TAG_OR {
        match parse_pol_at(b, pos + 1) {
            Some((a, p1)) => {
                proof {
                    assert(b@.skip(pos + 1) =~= s.skip(1));
                }
                match parse_pol_at(b, p1) {
                    Some((c, p2)) => Some((Policy::Or(Box::new(a), Box::new(c)), p2)),
                    None => None,
                }
            },
            None => {
                proof {
                    assert(b@.skip(pos + 1) =~= s.skip(1));
                }
                None
            },
        }
    } else {
        None
    }
}

/// Parses a whole witness script into its policy, if it is exactly the
/// encoding of one.
pub fn parse_policy(script: &Vec<u8>) -> (r: Option<Policy>)
    ensures
        r matches Some(p) ==> script_policy(script@) == Some(p@),
        r is None ==> script_policy(script@) is None,
{
    proof {
        assert(script@.skip(0) =~= script@);
    }
    match parse_pol_at(script, 0) {
        Some((p, end)) => {
            if end == script.len() {
                proof {
                    assert(script@.skip(end as int) =~= Seq::<u8>::empty());
                }
                Some(p)
            } else {
                None
            }
        },
        None => None,
    }
}

/// The script shape of a pay-to-witness-pubkey-hash output.
pub open spec fn is_p2wpkh(spk: Seq<u8>) -> bool {
    spk.len() == 22 && spk[0] == 0u8 && spk[1] == 0x14u8
}

/// The script shape of a pay-to-witness-script-hash output.
pub open spec fn is_p2wsh(spk: Seq<u8>) -> bool {
    spk.len() == 34 && spk[0] == 0u8 && spk[1] == 0x20u8
}

/// The 20-byte key hash a P2WPKH script pushes.
pub open spec fn p2wpkh_hash(spk: Seq<u8>) -> Seq<u8> {
    spk.subrange(2, 22)
}

/// The script paying to the witness script's SHA256 hash.
pub open spec fn p2wsh_spk_of(witness_script: Seq<u8>) -> Seq<u8> {
    seq![0u8, 0x20u8] + crate::hashes::sha256_of(witness_script)
}

/// The script paying to the public key's HASH160.
pub open spec fn p2wpkh_spk_of(pk: Seq<u8>) -> Seq<u8> {
    seq![0u8, 0x14u8] + crate::hashes::hash160_of(pk)
}

/// Whether a script has the P2WPKH shape.
pub fn spk_is_p2wpkh(spk: &Vec<u8>) -> (r: bool)
    ensures
        r == is_p2wpkh(spk@),
{
    spk.len() == 22 && spk[0] == 0u8 && spk[1] == 0x14u8
}

/// Whether a script has the P2WSH shape.
pub fn spk_is_p2wsh(spk: &Vec<u8>) -> (r: bool)
    ensures
        r == is_p2wsh(spk@),
{
    spk.len() == 34 && spk[0] == 0u8 && spk[1] == 0x20u8
}

/// The key hash a P2WPKH script pushes.
pub fn extract_p2wpkh_hash(spk: &Vec<u8>) -> (r: Vec<u8>)
    requires
        is_p2wpkh(spk@),
    ensures
        r@ == p2wpkh_hash(spk@),
{
    crate::bytes::copy_range(spk, 2, 20)
}

/// Builds the P2WSH script paying to a witness script.
pub fn p2wsh_spk(witness_script: &Vec<u8>) -> (r: Vec<u8>)
    ensures
        r@ == p2wsh_spk_of(witness_script@),
        is_p2wsh(r@),
{
    let mut r: Vec<u8> = Vec::new();
    r.push(0u8);
    r.push(0x20u8);
    let h = crate::hashes::sha256(witness_script);
    extend_bytes(&mut r, &h);
    proof {
        assert(r@ =~= p2wsh_spk_of(witness_script@));
    }
    r
}

/// Builds the P2WPKH script paying to a public key.
pub fn p2wpkh_spk(pk: &Vec<u8>) -> (r: Vec<u8>)
    ensures
        r@ == p2wpkh_spk_of(pk@),
        is_p2wpkh(r@),
{
    let mut r: Vec<u8> = Vec::new();
    r.push(0u8);
    r.push(0x14u8);
    let h = crate::hashes::hash160(pk);
    extend_bytes(&mut r, &h);
    proof {
        assert(r@ =~= p2wpkh_spk_of(pk@));
    }
    r
}

} // verus!
