//! The per-input signature digest (BIP143, SegWit v0): the double-SHA256 of
//! a preimage assembled from the transaction, the spent output's amount,
//! the script code, and the signature-hash flag (ALL, or ALL plus
//! ANYONECANPAY).

use vstd::prelude::*;

use crate::bytes::{extend_bytes, le32, push_le32};
use crate::encode::{le64, push_le64, push_varint, ser_outpoint, ser_txouts, varint};
use crate::hashes::{sha256d, sha256d_of};
use crate::record::{SignableTx, TxInData};

verus! {

/// Thirty-two zero bytes: the placeholder digest under ANYONECANPAY.
pub open spec fn zero_hash() -> Seq<u8> {
    Seq::new(32, |i: int| 0u8)
}

/// All outpoints, one after another.
pub open spec fn prevouts_concat(s: Seq<TxInData>) -> Seq<u8>
    decreases s.len(),
{
    if s.len() == 0 {
        Seq::empty()
    } else {
        ser_outpoint(s[0].outpoint) + prevouts_concat(s.drop_first())
    }
}

/// All sequence fields, one after another.
pub open spec fn sequences_concat(s: Seq<TxInData>) -> Seq<u8>
    decreases s.len(),
{
    if s.len() == 0 {
        Seq::empty()
    } else {
        le32(s[0].sequence) + sequences_concat(s.drop_first())
    }
}

/// The flag byte of the digest: ALL, or ALL plus ANYONECANPAY.
pub open spec fn sighash_flag(is_anyonecanpay: bool) -> u32 {
    if is_anyonecanpay {
        0x81u32
    } else {
        0x01u32
    }
}

/// The BIP143 preimage of one input's signature digest.
pub open spec fn bip143_preimage(
    tx: SignableTx,
    input_index: int,
    amount: u64,
    script_code: Seq<u8>,
    is_anyonecanpay: bool,
) -> Seq<u8> {
    le32(tx.version) + (if is_anyonecanpay {
        zero_hash()
    } else {
        sha256d_of(prevouts_concat(tx.inputs@))
    }) + (if is_anyonecanpay {
        zero_hash()
    } else {
        sha256d_of(sequences_concat(tx.inputs@))
    }) + ser_outpoint(tx.inputs@[input_index].outpoint) + varint(script_code.len() as u64)
        + script_code + le64(amount) + le32(tx.inputs@[input_index].sequence) + sha256d_of(
        ser_txouts(tx.outputs@),
    ) + le32(tx.lock_time) + le32(sighash_flag(is_anyonecanpay))
}

/// The signature digest itself.
pub open spec fn bip143_sighash(
    tx: SignableTx,
    input_index: int,
    amount: u64,
    script_code: Seq<u8>,
    is_anyonecanpay: bool,
) -> Seq<u8> {
    sha256d_of(bip143_preimage(tx, input_index, amount, script_code, is_anyonecanpay))
}

/// Appends every outpoint.
fn push_prevouts(dst: &mut Vec<u8>, inputs: &Vec<TxInData>)
    ensures
        final(dst)@ == old(dst)@ + prevouts_concat(inputs@),
{
    let ghost iv = inputs@;
    let n: usize = inputs.len();
    let mut i: usize = 0;
    proof {
        assert(iv.skip(0) =~= iv);
    }
    while i < n
        invariant
            iv == inputs@,
            n == iv.len(),
            i <= n,
            old(dst)@ + prevouts_concat(iv) == dst@ + prevouts_concat(iv.skip(i as int)),
        decreases n - i,
    {
        proof {
            assert(iv.skip(i as int).drop_first() =~= iv.skip(i + 1));
            assert(iv.skip(i as int)[0] == iv[i as int]);
        }
        let ghost before = dst@;
        extend_bytes(dst, &inputs[i].outpoint.txid);
        push_le32(dst, inputs[i].outpoint.vout);
        proof {
            assert(dst@ =~= before + ser_outpoint(iv[i as int].outpoint));
            assert(prevouts_concat(iv.skip(i as int)) == ser_outpoint(iv[i as int].outpoint)
                + prevouts_concat(iv.skip(i + 1)));
            assert(old(dst)@ + prevouts_concat(iv) =~= dst@ + prevouts_concat(iv.skip(i + 1)));
        }
        i += 1;
    }
    proof {
        assert(iv.skip(n as int) =~= Seq::<TxInData>::empty());
        assert(old(dst)@ + prevouts_concat(iv) =~= dst@);
    }
}

/// Appends every sequence field.
fn push_sequences(dst: &mut Vec<u8>, inputs: &Vec<TxInData>)
    ensures
        final(dst)@ == old(dst)@ + sequences_concat(inputs@),
{
    let ghost iv = inputs@;
    let n: usize = inputs.len();
    let mut i: usize = 0;
    proof {
        assert(iv.skip(0) =~= iv);
    }
    while i < n
        invariant
            iv == inputs@,
            n == iv.len(),
            i <= n,
            old(dst)@ + sequences_concat(iv) == dst@ + sequences_concat(iv.skip(i as int)),
        decreases n - i,
    {
        proof {
            assert(iv.skip(i as int).drop_first() =~= iv.skip(i + 1));
            assert(iv.skip(i as int)[0] == iv[i as int]);
        }
        let ghost before = dst@;
        push_le32(dst, inputs[i].sequence);
        proof {
            assert(dst@ =~= before + le32(iv[i as int].sequence));
            assert(sequences_concat(iv.skip(i as int)) == le32(iv[i as int].sequence)
                + sequences_concat(iv.skip(i + 1)));
            assert(old(dst)@ + sequences_concat(iv) =~= dst@ + sequences_concat(iv.skip(i + 1)));
        }
        i += 1;
    }
    proof {
        assert(iv.skip(n as int) =~= Seq::<TxInData>::empty());
        assert(old(dst)@ + sequences_concat(iv) =~= dst@);
    }
}

/// Thirty-two zero bytes.
fn zero_hash_bytes() -> (r: Vec<u8>)
    ensures
        r@ == zero_hash(),
{
    let mut r: Vec<u8> = Vec::new();
    let mut i: usize = 0;
    while i < 32
        invariant
            i <= 32,
            r@.len() == i,
            forall|j: int| 0 <= j < i ==> r@[j] == 0u8,
        decreases 32 - i,
    {
        r.push(0u8);
        i += 1;
    }
    proof {
        assert(r@ =~= zero_hash());
    }
    r
}

/// Computes the BIP143 signature digest of one input, from the spent
/// output's amount and the script code, with flag ALL or ALL plus
/// ANYONECANPAY.
pub fn sighash(
    tx: &SignableTx,
    input_index: usize,
    amount: u64,
    script_code: &Vec<u8>,
    is_anyonecanpay: bool,
) -> (r: Vec<u8>)
    requires
        input_index < tx.inputs@.len(),
    ensures
        r@ == bip143_sighash(*tx, input_index as int, amount, script_code@, is_anyonecanpay),
        r@.len() == 32,
{
    let mut pre: Vec<u8> = Vec::new();
    push_le32(&mut pre, tx.version);
    if is_anyonecanpay {
        let z = zero_hash_bytes();
        extend_bytes(&mut pre, &z);
        extend_bytes(&mut pre, &z);
    } else {
        let mut prevouts: Vec<u8> = Vec::new();
        push_prevouts(&mut prevouts, &tx.inputs);
        let h1 = sha256d(&prevouts);
        extend_bytes(&mut pre, &h1);
        let mut sequences: Vec<u8> = Vec::new();
        push_sequences(&mut sequences, &tx.inputs);
        let h2 = sha256d(&sequences);
        extend_bytes(&mut pre, &h2);
    }
    extend_bytes(&mut pre, &tx.inputs[input_index].outpoint.txid);
    push_le32(&mut pre, tx.inputs[input_index].outpoint.vout);
    push_varint(&mut pre, script_code.len() as u64);
    extend_bytes(&mut pre, script_code);
    push_le64(&mut pre, amount);
    push_le32(&mut pre, tx.inputs[input_index].sequence);
    let mut outs: Vec<u8> = Vec::new();
    crate::encode::push_txouts(&mut outs, &tx.outputs);
    let h3 = sha256d(&outs);
    extend_bytes(&mut pre, &h3);
    push_le32(&mut pre, tx.lock_time);
    if is_anyonecanpay {
        push_le32(&mut pre, 0x81u32);
    } else {
        push_le32(&mut pre, 0x01u32);
    }
    proof {
        assert(pre@ =~= bip143_preimage(
            *tx,
            input_index as int,
            amount,
            script_code@,
            is_anyonecanpay,
        ));
    }
    sha256d(&pre)
}

} // verus!
