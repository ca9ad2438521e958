//! The per-input satisfier: the three queries the policy-satisfaction
//! algorithm needs, answered from one input's signature store and sequence
//! field. The derived lookups are request-scoped: they read the store
//! directly, so they can never be stale.

use vstd::prelude::*;

use crate::bytes::clone_bytes;
use crate::hashes::{der_decodes, der_signature_decodes, hash160, hash160_of};
use crate::sigmap::SigMap;

verus! {

/// The bit of a sequence or timelock value that marks it as time-based
/// rather than block-based.
pub const SEQUENCE_TYPE_FLAG: u32 = 0x0040_0000;

/// A relative-timelock value demands a block count (not a span of time).
pub open spec fn csv_block_kind(n: u32) -> bool {
    n & SEQUENCE_TYPE_FLAG == 0
}

/// A raw signature is usable when it carries at least a flag byte and its
/// body is well-formed DER.
pub open spec fn usable_sig(raw: Seq<u8>) -> bool {
    raw.len() >= 1 && der_decodes(raw.drop_last())
}

/// Whether some entry carries this key.
pub open spec fn has_sig(sigs: Seq<(Seq<u8>, Seq<u8>)>, pk: Seq<u8>) -> bool
    decreases sigs.len(),
{
    if sigs.len() == 0 {
        false
    } else if sigs[0].0 == pk {
        true
    } else {
        has_sig(sigs.drop_first(), pk)
    }
}

/// The raw signature of the first entry carrying this key (empty if none).
pub open spec fn sig_raw(sigs: Seq<(Seq<u8>, Seq<u8>)>, pk: Seq<u8>) -> Seq<u8>
    decreases sigs.len(),
{
    if sigs.len() == 0 {
        Seq::empty()
    } else if sigs[0].0 == pk {
        sigs[0].1
    } else {
        sig_raw(sigs.drop_first(), pk)
    }
}

/// The key has a usable signature in the store.
pub open spec fn has_usable_sig(sigs: Seq<(Seq<u8>, Seq<u8>)>, pk: Seq<u8>) -> bool {
    has_sig(sigs, pk) && usable_sig(sig_raw(sigs, pk))
}

/// Whether some entry's key hashes (HASH160) to `h`.
pub open spec fn has_key_for_hash(sigs: Seq<(Seq<u8>, Seq<u8>)>, h: Seq<u8>) -> bool
    decreases sigs.len(),
{
    if sigs.len() == 0 {
        false
    } else if hash160_of(sigs[0].0) == h {
        true
    } else {
        has_key_for_hash(sigs.drop_first(), h)
    }
}

/// The first entry whose key hashes to `h` (empty pair if none).
pub open spec fn entry_for_hash(sigs: Seq<(Seq<u8>, Seq<u8>)>, h: Seq<u8>) -> (Seq<u8>, Seq<u8>)
    decreases sigs.len(),
{
    if sigs.len() == 0 {
        (Seq::empty(), Seq::empty())
    } else if hash160_of(sigs[0].0) == h {
        sigs[0]
    } else {
        entry_for_hash(sigs.drop_first(), h)
    }
}

/// Answers the satisfaction queries for one input from its signature store
/// and its sequence field.
pub struct RevaultInputSatisfier<'a> {
    pub sigmap: &'a SigMap,
    pub sequence: u32,
}

impl<'a> RevaultInputSatisfier<'a> {
    /// The plain view of the store read by the queries.
    pub open spec fn sigs(self) -> Seq<(Seq<u8>, Seq<u8>)> {
        self.sigmap.seq_view()
    }

    /// Builds a satisfier over an input's signature store.
    pub fn new(sigmap: &'a SigMap, sequence: u32) -> (r: RevaultInputSatisfier<'a>)
        ensures
            r.sigmap == sigmap,
            r.sequence == sequence,
    {
        RevaultInputSatisfier { sigmap, sequence }
    }

    /// The (DER body, flag byte) split of the key's signature, if the key is
    /// known and its signature usable.
    pub fn lookup_sig(&self, pk: &Vec<u8>) -> (r: Option<(Vec<u8>, u8)>)
        ensures
            r is Some <==> has_usable_sig(self.sigs(), pk@),
            r matches Some(s) ==> s.0@ == sig_raw(self.sigs(), pk@).drop_last() && s.1 == sig_raw(
                self.sigs(),
                pk@,
            ).last(),
    {
        let ghost all = self.sigs();
        let n: usize = self.sigmap.entries.len();
        let mut i: usize = 0;
        proof {
            assert(all.skip(0) =~= all);
        }
        while i < n
            invariant
                n == self.sigmap.entries@.len(),
                all == self.sigs(),
                i <= n,
                has_sig(all, pk@) == has_sig(all.skip(i as int), pk@),
                sig_raw(all, pk@) == sig_raw(all.skip(i as int), pk@),
            decreases n - i,
        {
            proof {
                assert(all.skip(i as int).drop_first() =~= all.skip(i + 1));
                assert(all.skip(i as int)[0] == all[i as int]);
            }
            if crate::bytes::bytes_eq(&self.sigmap.entries[i].0, pk) {
                let raw = &self.sigmap.entries[i].1;
                if raw.len() == 0 {
                    return None;
                }
                let mut body = clone_bytes(raw);
                let flag_opt = body.pop();
                let flag: u8 = match flag_opt {
                    Some(f) => f,
                    None => { return None; },
                };
                if der_signature_decodes(&body) {
                    return Some((body, flag));
                } else {
                    return None;
                }
            }
            i += 1;
        }
        proof {
            assert(all.skip(n as int) =~= Seq::<(Seq<u8>, Seq<u8>)>::empty());
        }
        None
    }

    /// The first known public key hashing to `keyhash`, if any.
    pub fn lookup_pkh_pk(&self, keyhash: &Vec<u8>) -> (r: Option<Vec<u8>>)
        ensures
            r is Some <==> has_key_for_hash(self.sigs(), keyhash@),
            r matches Some(pk) ==> pk@ == entry_for_hash(self.sigs(), keyhash@).0,
    {
        let ghost all = self.sigs();
        let n: usize = self.sigmap.entries.len();
        let mut i: usize = 0;
        proof {
            assert(all.skip(0) =~= all);
        }
        while i < n
            invariant
                n == self.sigmap.entries@.len(),
                all == self.sigs(),
                i <= n,
                has_key_for_hash(all, keyhash@) == has_key_for_hash(all.skip(i as int), keyhash@),
                entry_for_hash(all, keyhash@) == entry_for_hash(all.skip(i as int), keyhash@),
            decreases n - i,
        {
            proof {
                assert(all.skip(i as int).drop_first() =~= all.skip(i + 1));
                assert(all.skip(i as int)[0] == all[i as int]);
            }
            let h = hash160(&self.sigmap.entries[i].0);
            if crate::bytes::bytes_eq(&h, keyhash) {
                return Some(clone_bytes(&self.sigmap.entries[i].0));
            }
            i += 1;
        }
        proof {
            assert(all.skip(n as int) =~= Seq::<(Seq<u8>, Seq<u8>)>::empty());
        }
        None
    }

    /// The key owning `keyhash` together with its split signature, if the
    /// key is known and its signature usable.
    pub fn lookup_pkh_sig(&self, keyhash: &Vec<u8>) -> (r: Option<(Vec<u8>, (Vec<u8>, u8))>)
        ensures
            r is Some <==> has_key_for_hash(self.sigs(), keyhash@) && usable_sig(
                entry_for_hash(self.sigs(), keyhash@).1,
            ),
            r matches Some(s) ==> {
                let e = entry_for_hash(self.sigs(), keyhash@);
                s.0@ == e.0 && s.1.0@ == e.1.drop_last() && s.1.1 == e.1.last()
            },
    {
        let ghost all = self.sigs();
        let n: usize = self.sigmap.entries.len();
        let mut i: usize = 0;
        proof {
            assert(all.skip(0) =~= all);
        }
        while i < n
            invariant
                n == self.sigmap.entries@.len(),
                all == self.sigs(),
                i <= n,
                has_key_for_hash(all, keyhash@) == has_key_for_hash(all.skip(i as int), keyhash@),
                entry_for_hash(all, keyhash@) == entry_for_hash(all.skip(i as int), keyhash@),
            decreases n - i,
        {
            proof {
                assert(all.skip(i as int).drop_first() =~= all.skip(i + 1));
                assert(all.skip(i as int)[0] == all[i as int]);
            }
            let h = hash160(&self.sigmap.entries[i].0);
            if crate::bytes::bytes_eq(&h, keyhash) {
                let raw = &self.sigmap.entries[i].1;
                if raw.len() == 0 {
                    return None;
                }
                let mut body = clone_bytes(raw);
                let flag_opt = body.pop();
                let flag: u8 = match flag_opt {
                    Some(f) => f,
                    None => { return None; },
                };
                if der_signature_decodes(&body) {
                    return Some((clone_bytes(&self.sigmap.entries[i].0), (body, flag)));
                } else {
                    return None;
                }
            }
            i += 1;
        }
        proof {
            assert(all.skip(n as int) =~= Seq::<(Seq<u8>, Seq<u8>)>::empty());
        }
        None
    }

    /// Whether the input's sequence satisfies a required relative timelock.
    /// The requirement must be block-based; a time-based value is rejected.
    /// Per BIP68 the input satisfies the lock whenever its sequence is at
    /// least the required value.
    pub fn check_older(&self, csv: u32) -> (r: bool)
        ensures
            r == (csv_block_kind(csv) && self.sequence >= csv),
    {
        (csv & SEQUENCE_TYPE_FLAG == 0) && self.sequence >= csv
    }
}

} // verus!
