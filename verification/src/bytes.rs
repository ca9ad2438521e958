//! Small verified helpers over byte vectors.

use vstd::prelude::*;

verus! {

/// Byte-for-byte equality of two vectors.
pub fn bytes_eq(a: &Vec<u8>, b: &Vec<u8>) -> (r: bool)
    ensures
        r == (a@ == b@),
{
    if a.len() != b.len() {
        return false;
    }
    let mut i: usize = 0;
    while i < a.len()
        invariant
            i <= a.len(),
            a@.len() == b@.len(),
            forall|j: int| 0 <= j < i ==> a@[j] == b@[j],
        decreases a.len() - i,
    {
        if a[i] != b[i] {
            return false;
        }
        i += 1;
    }
    proof {
        assert(a@ =~= b@);
    }
    true
}

/// The four little-endian bytes of a 32-bit value.
pub open spec fn le32(n: u32) -> Seq<u8> {
    seq![
        (n % 256) as u8,
        ((n / 256) % 256) as u8,
        ((n / 65536) % 256) as u8,
        ((n / 16777216) % 256) as u8,
    ]
}

/// The 32-bit value four little-endian bytes denote.
pub open spec fn le32_val(s: Seq<u8>) -> u32
    recommends
        s.len() == 4,
{
    (s[0] + s[1] * 256 + s[2] * 65536 + s[3] * 16777216) as u32
}

/// Reading back the four little-endian bytes of a value yields the value.
pub proof fn lemma_le32_roundtrip(n: u32)
    ensures
        le32_val(le32(n)) == n,
{
    assert(n % 256 + ((n / 256) % 256) * 256 + ((n / 65536) % 256) * 65536 + (n / 16777216)
        * 16777216 == n) by (nonlinear_arith);
}

/// Appends the four little-endian bytes of a 32-bit value.
pub fn push_le32(dst: &mut Vec<u8>, n: u32)
    ensures
        final(dst)@ == old(dst)@ + le32(n),
{
    dst.push((n % 256) as u8);
    dst.push(((n / 256) % 256) as u8);
    dst.push(((n / 65536) % 256) as u8);
    dst.push(((n / 16777216) % 256) as u8);
    proof {
        assert(dst@ =~= old(dst)@ + le32(n));
    }
}

/// Reads a 32-bit value from four little-endian bytes.
pub fn read_le32(b: &Vec<u8>, pos: usize) -> (r: u32)
    requires
        pos + 4 <= b@.len(),
    ensures
        r == le32_val(b@.subrange(pos as int, pos + 4)),
{
    let _len: usize = b.len();
    let r: u32 = b[pos] as u32 + (b[pos + 1] as u32) * 256 + (b[pos + 2] as u32) * 65536 + (b[pos
        + 3] as u32) * 16777216;
    proof {
        let s = b@.subrange(pos as int, pos + 4);
        assert(s[0] == b@[pos as int] && s[1] == b@[pos + 1] && s[2] == b@[pos + 2]
            && s[3] == b@[pos + 3]);
    }
    r
}

/// A fresh vector with the same bytes.
pub fn clone_bytes(v: &Vec<u8>) -> (r: Vec<u8>)
    ensures
        r@ == v@,
{
    let mut r: Vec<u8> = Vec::new();
    let mut i: usize = 0;
    while i < v.len()
        invariant
            i <= v.len(),
            r@ == v@.subrange(0, i as int),
        decreases v.len() - i,
    {
        r.push(v[i]);
        proof {
            assert(v@.subrange(0, i as int).push(v@[i as int]) =~= v@.subrange(0, i + 1));
        }
        i += 1;
    }
    proof {
        assert(v@.subrange(0, v@.len() as int) =~= v@);
    }
    r
}

/// A fresh vector holding `src[start..start + len]`.
pub fn copy_range(src: &Vec<u8>, start: usize, len: usize) -> (r: Vec<u8>)
    requires
        start + len <= src@.len(),
    ensures
        r@ == src@.subrange(start as int, start + len),
{
    let mut r: Vec<u8> = Vec::new();
    let mut i: usize = 0;
    while i < len
        invariant
            i <= len,
            start + len <= src@.len(),
            r@ == src@.subrange(start as int, start + i),
        decreases len - i,
    {
        let _n: usize = src.len();
        r.push(src[start + i]);
        proof {
            assert(src@.subrange(start as int, start + i).push(src@[start + i])
                =~= src@.subrange(start as int, start + i + 1));
        }
        i += 1;
    }
    r
}

/// Appends the whole of `src` to `dst`.
pub fn extend_bytes(dst: &mut Vec<u8>, src: &Vec<u8>)
    ensures
        final(dst)@ == old(dst)@ + src@,
{
    let mut i: usize = 0;
    while i < src.len()
        invariant
            i <= src.len(),
            dst@ == old(dst)@ + src@.subrange(0, i as int),
        decreases src.len() - i,
    {
        dst.push(src[i]);
        i += 1;
        proof {
            assert(old(dst)@ + src@.subrange(0, i - 1) + seq![src@[i - 1]]
                =~= old(dst)@ + src@.subrange(0, i as int));
        }
    }
    proof {
        assert(src@.subrange(0, src@.len() as int) =~= src@);
    }
}

} // verus!
