//! The per-input signature store: an ordered association of serialized
//! public keys to raw signatures (DER bytes with the sighash flag byte
//! appended), with unique keys.

use vstd::prelude::*;
use vstd::pervasive::VecAdditionalExecFns;

use crate::bytes::bytes_eq;

verus! {

/// The mathematical content of an entry list: the key-to-signature map it
/// denotes, later entries winning.
pub open spec fn entries_map(s: Seq<(Vec<u8>, Vec<u8>)>) -> Map<Seq<u8>, Seq<u8>>
    decreases s.len(),
{
    if s.len() == 0 {
        Map::empty()
    } else {
        entries_map(s.drop_last()).insert(s.last().0@, s.last().1@)
    }
}

/// No two entries carry the same key.
pub open spec fn unique_keys(s: Seq<(Vec<u8>, Vec<u8>)>) -> bool {
    forall|i: int, j: int| 0 <= i < j < s.len() ==> s[i].0@ != s[j].0@
}

/// A key occurs in the denoted map exactly when some entry carries it.
pub proof fn lemma_entries_map_dom(s: Seq<(Vec<u8>, Vec<u8>)>, k: Seq<u8>)
    ensures
        entries_map(s).contains_key(k) <==> exists|i: int| 0 <= i < s.len() && s[i].0@ == k,
    decreases s.len(),
{
    if s.len() > 0 {
        lemma_entries_map_dom(s.drop_last(), k);
        if s.last().0@ == k {
            assert(s[s.len() - 1].0@ == k);
        } else {
            if entries_map(s).contains_key(k) {
                let i = choose|i: int| 0 <= i < s.drop_last().len() && s.drop_last()[i].0@ == k;
                assert(s[i].0@ == k);
            }
            if exists|i: int| 0 <= i < s.len() && s[i].0@ == k {
                let i = choose|i: int| 0 <= i < s.len() && s[i].0@ == k;
                assert(s.drop_last()[i].0@ == k);
            }
        }
    }
}

/// With unique keys, the denoted map sends each entry's key to that entry's
/// signature.
pub proof fn lemma_entries_map_at(s: Seq<(Vec<u8>, Vec<u8>)>, i: int)
    requires
        unique_keys(s),
        0 <= i < s.len(),
    ensures
        entries_map(s).contains_key(s[i].0@),
        entries_map(s)[s[i].0@] == s[i].1@,
    decreases s.len(),
{
    if i == s.len() - 1 {
        assert(s.last() == s[i]);
    } else {
        assert(unique_keys(s.drop_last()));
        lemma_entries_map_at(s.drop_last(), i);
        assert(s.drop_last()[i] == s[i]);
        assert(s.last().0@ != s[i].0@);
    }
}

/// Replacing the entry at `j` by one with the same key replaces that key's
/// image in the denoted map and nothing else.
pub proof fn lemma_entries_map_update(s: Seq<(Vec<u8>, Vec<u8>)>, j: int, k: Vec<u8>, v: Vec<u8>)
    requires
        unique_keys(s),
        0 <= j < s.len(),
        k@ == s[j].0@,
    ensures
        entries_map(s.update(j, (k, v))) == entries_map(s).insert(k@, v@),
    decreases s.len(),
{
    let t = s.update(j, (k, v));
    if j == s.len() - 1 {
        assert(t.drop_last() =~= s.drop_last());
        assert(t.last() == (k, v));
        assert(entries_map(t) == entries_map(s.drop_last()).insert(k@, v@));
        assert(entries_map(s).insert(k@, v@) =~= entries_map(s.drop_last()).insert(k@, v@));
    } else {
        assert(unique_keys(s.drop_last()));
        assert(s.drop_last()[j] == s[j]);
        lemma_entries_map_update(s.drop_last(), j, k, v);
        assert(t.drop_last() =~= s.drop_last().update(j, (k, v)));
        assert(t.last() == s.last());
        assert(s.last().0@ != s[j].0@);
        assert(entries_map(t) == entries_map(s.drop_last()).insert(k@, v@).insert(
            s.last().0@,
            s.last().1@,
        ));
        assert(entries_map(s.drop_last()).insert(k@, v@).insert(s.last().0@, s.last().1@)
            =~= entries_map(s.drop_last()).insert(s.last().0@, s.last().1@).insert(k@, v@));
    }
}

/// The entry list as a sequence of plain (key, signature) pairs.
pub open spec fn entries_view(s: Seq<(Vec<u8>, Vec<u8>)>) -> Seq<(Seq<u8>, Seq<u8>)> {
    Seq::new(s.len(), |i: int| (s[i].0@, s[i].1@))
}

/// The signature store of one input.
pub struct SigMap {
    pub entries: Vec<(Vec<u8>, Vec<u8>)>,
}

impl SigMap {
    /// The key-to-signature map this store denotes.
    pub open spec fn map_view(self) -> Map<Seq<u8>, Seq<u8>> {
        entries_map(self.entries@)
    }

    /// The entries as plain (key, signature) pairs, in insertion order.
    pub open spec fn seq_view(self) -> Seq<(Seq<u8>, Seq<u8>)> {
        entries_view(self.entries@)
    }

    /// Well-formed: no key occurs twice.
    pub open spec fn wf(self) -> bool {
        unique_keys(self.entries@)
    }

    /// An empty store.
    pub fn new() -> (r: SigMap)
        ensures
            r.wf(),
            r.map_view() == Map::<Seq<u8>, Seq<u8>>::empty(),
            r.entries@.len() == 0,
    {
        SigMap { entries: Vec::new() }
    }

    /// The raw signature recorded for a public key, if any.
    pub fn get(&self, pk: &Vec<u8>) -> (r: Option<&Vec<u8>>)
        requires
            self.wf(),
        ensures
            match r {
                Some(v) => self.map_view().contains_key(pk@) && v@ == self.map_view()[pk@],
                None => !self.map_view().contains_key(pk@),
            },
    {
        let n: usize = self.entries.len();
        let mut i: usize = 0;
        while i < n
            invariant
                self.wf(),
                n == self.entries@.len(),
                i <= n,
                forall|j: int| 0 <= j < i ==> self.entries@[j].0@ != pk@,
            decreases n - i,
        {
            if bytes_eq(&self.entries[i].0, pk) {
                proof {
                    lemma_entries_map_at(self.entries@, i as int);
                }
                return Some(&self.entries[i].1);
            }
            i += 1;
        }
        proof {
            lemma_entries_map_dom(self.entries@, pk@);
        }
        None
    }

    /// Records a signature for a key, returning the one it replaces, if any.
    /// The last writer wins; the order of keys never changes.
    pub fn insert(&mut self, pk: Vec<u8>, sig: Vec<u8>) -> (r: Option<Vec<u8>>)
        requires
            old(self).wf(),
        ensures
            final(self).wf(),
            final(self).map_view() == old(self).map_view().insert(pk@, sig@),
            match r {
                Some(v) => old(self).map_view().contains_key(pk@) && v@ == old(self).map_view()[pk@],
                None => !old(self).map_view().contains_key(pk@),
            },
            !old(self).map_view().contains_key(pk@) ==> final(self).entries@ == old(self).entries@.push((pk, sig)),
            old(self).map_view().contains_key(pk@) ==> exists|j: int|
                0 <= j < old(self).entries@.len() && old(self).entries@[j].0@ == pk@
                    && final(self).entries@ == old(self).entries@.update(j, (pk, sig)),
    {
        let n: usize = self.entries.len();
        let mut i: usize = 0;
        while i < n
            invariant
                self == old(self),
                self.wf(),
                n == self.entries@.len(),
                i <= n,
                forall|j: int| 0 <= j < i ==> self.entries@[j].0@ != pk@,
            decreases n - i,
        {
            if bytes_eq(&self.entries[i].0, &pk) {
                proof {
                    lemma_entries_map_at(self.entries@, i as int);
                    lemma_entries_map_update(self.entries@, i as int, pk, sig);
                }
                let mut entry = (pk, sig);
                self.entries.set_and_swap(i, &mut entry);
                return Some(entry.1);
            }
            i += 1;
        }
        proof {
            lemma_entries_map_dom(self.entries@, pk@);
            assert(self.entries@.push((pk, sig)).drop_last() =~= self.entries@);
        }
        self.entries.push((pk, sig));
        None
    }
}

} // verus!
