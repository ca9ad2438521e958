//! Consensus serialization of the transaction under a record: the standard
//! wire form with witnesses (SegWit v0) for broadcast, the legacy form that
//! the transaction id is computed over, and the hexadecimal form.

use vstd::prelude::*;

use crate::bytes::{extend_bytes, le32, push_le32};
use crate::error::TxError;
use crate::record::{InputRecord, OutPoint, SignableTx, TxInData, TxOutData};

verus! {

/// The eight little-endian bytes of a 64-bit value.
pub open spec fn le64(n: u64) -> Seq<u8> {
    seq![
        (n % 256) as u8,
        ((n / 256) % 256) as u8,
        ((n / 65536) % 256) as u8,
        ((n / 16777216) % 256) as u8,
        ((n / 4294967296) % 256) as u8,
        ((n / 1099511627776) % 256) as u8,
        ((n / 281474976710656) % 256) as u8,
        ((n / 72057594037927936) % 256) as u8,
    ]
}

/// Appends the eight little-endian bytes of a 64-bit value.
pub fn push_le64(dst: &mut Vec<u8>, n: u64)
    ensures
        final(dst)@ == old(dst)@ + le64(n),
{
    dst.push((n % 256) as u8);
    dst.push(((n / 256) % 256) as u8);
    dst.push(((n / 65536) % 256) as u8);
    dst.push(((n / 16777216) % 256) as u8);
    dst.push(((n / 4294967296) % 256) as u8);
    dst.push(((n / 1099511627776) % 256) as u8);
    dst.push(((n / 281474976710656) % 256) as u8);
    dst.push(((n / 72057594037927936) % 256) as u8);
    proof {
        assert(dst@ =~= old(dst)@ + le64(n));
    }
}

/// The variable-length count prefix of the wire form.
pub open spec fn varint(n: u64) -> Seq<u8> {
    if n < 0xfd {
        seq![n as u8]
    } else if n <= 0xffff {
        seq![0xfdu8, (n % 256) as u8, (n / 256) as u8]
    } else if n <= 0xffff_ffff {
        seq![0xfeu8] + le32(n as u32)
    } else {
        seq![0xffu8] + le64(n)
    }
}

/// Appends the count prefix of a value.
pub fn push_varint(dst: &mut Vec<u8>, n: u64)
    ensures
        final(dst)@ == old(dst)@ + varint(n),
{
    if n < 0xfd {
        dst.push(n as u8);
    } else if n <= 0xffff {
        dst.push(0xfdu8);
        dst.push((n % 256) as u8);
        dst.push((n / 256) as u8);
    } else if n <= 0xffff_ffff {
        dst.push(0xfeu8);
        push_le32(dst, n as u32);
    } else {
        dst.push(0xffu8);
        push_le64(dst, n);
    }
    proof {
        assert(dst@ =~= old(dst)@ + varint(n));
    }
}

/// The wire form of an outpoint: the 32-byte id, then the index.
pub open spec fn ser_outpoint(op: OutPoint) -> Seq<u8> {
    op.txid@ + le32(op.vout)
}

/// The wire form of a skeleton input: outpoint, empty script, sequence.
pub open spec fn ser_txin(txin: TxInData) -> Seq<u8> {
    ser_outpoint(txin.outpoint) + seq![0u8] + le32(txin.sequence)
}

/// The wire form of an output: amount, then the length-prefixed script.
pub open spec fn ser_txout(o: TxOutData) -> Seq<u8> {
    le64(o.value) + varint(o.script_pubkey@.len() as u64) + o.script_pubkey@
}

/// The inputs one after another.
pub open spec fn ser_txins(s: Seq<TxInData>) -> Seq<u8>
    decreases s.len(),
{
    if s.len() == 0 {
        Seq::empty()
    } else {
        ser_txin(s[0]) + ser_txins(s.drop_first())
    }
}

/// The outputs one after another.
pub open spec fn ser_txouts(s: Seq<TxOutData>) -> Seq<u8>
    decreases s.len(),
{
    if s.len() == 0 {
        Seq::empty()
    } else {
        ser_txout(s[0]) + ser_txouts(s.drop_first())
    }
}

/// The witness stack an input carries into the wire form.
pub open spec fn witness_of(rec: InputRecord) -> Seq<Seq<u8>> {
    match rec.final_witness {
        Option::Some(w) => w.deep_view(),
        Option::None => Seq::empty(),
    }
}

/// One witness stack: the element count, then each length-prefixed element.
pub open spec fn ser_witness_elems(w: Seq<Seq<u8>>) -> Seq<u8>
    decreases w.len(),
{
    if w.len() == 0 {
        Seq::empty()
    } else {
        varint(w[0].len() as u64) + w[0] + ser_witness_elems(w.drop_first())
    }
}

/// The wire form of one input's witness stack.
pub open spec fn ser_witness_stack(w: Seq<Seq<u8>>) -> Seq<u8> {
    varint(w.len() as u64) + ser_witness_elems(w)
}

/// The witness stacks of all inputs, in input order.
pub open spec fn ser_witnesses(recs: Seq<InputRecord>) -> Seq<u8>
    decreases recs.len(),
{
    if recs.len() == 0 {
        Seq::empty()
    } else {
        ser_witness_stack(witness_of(recs[0])) + ser_witnesses(recs.drop_first())
    }
}

/// Whether any input carries a witness (the wire form then takes the
/// extended shape).
pub open spec fn has_witness(recs: Seq<InputRecord>) -> bool {
    exists|i: int| 0 <= i < recs.len() && (#[trigger] recs[i]).final_witness is Some
}

/// The legacy wire form, without witnesses: the transaction id is computed
/// over these bytes.
pub open spec fn legacy_ser(tx: SignableTx) -> Seq<u8> {
    le32(tx.version) + varint(tx.inputs@.len() as u64) + ser_txins(tx.inputs@) + varint(
        tx.outputs@.len() as u64,
    ) + ser_txouts(tx.outputs@) + le32(tx.lock_time)
}

/// The extended wire form with the marker, flag and witness stacks.
pub open spec fn segwit_ser(tx: SignableTx) -> Seq<u8> {
    le32(tx.version) + seq![0u8, 1u8] + varint(tx.inputs@.len() as u64) + ser_txins(tx.inputs@)
        + varint(tx.outputs@.len() as u64) + ser_txouts(tx.outputs@) + ser_witnesses(
        tx.input_records@,
    ) + le32(tx.lock_time)
}

/// The wire form of the transaction: extended when any input carries a
/// witness, legacy otherwise.
pub open spec fn tx_ser(tx: SignableTx) -> Seq<u8> {
    if has_witness(tx.input_records@) {
        segwit_ser(tx)
    } else {
        legacy_ser(tx)
    }
}

/// The id of the transaction: the double-SHA256 of its legacy wire form.
pub open spec fn txid_of(tx: SignableTx) -> Seq<u8> {
    crate::hashes::sha256d_of(legacy_ser(tx))
}

/// The lowercase hexadecimal digit of a value below sixteen, as an ASCII
/// byte.
pub open spec fn hex_digit(n: u8) -> u8 {
    if n < 10 {
        (48 + n) as u8
    } else {
        (87 + n) as u8
    }
}

/// The lowercase hexadecimal form of a byte string, as ASCII bytes: two
/// digits for each byte.
pub open spec fn hex_bytes(b: Seq<u8>) -> Seq<u8> {
    Seq::new(
        2 * b.len(),
        |i: int|
            if i % 2 == 0 {
                hex_digit(b[i / 2] / 16)
            } else {
                hex_digit(b[i / 2] % 16)
            },
    )
}

/// The characters of an ASCII byte string.
pub open spec fn ascii_chars(b: Seq<u8>) -> Seq<char> {
    Seq::new(b.len(), |i: int| b[i] as char)
}

/// The lowercase hexadecimal form of a byte string, as ASCII bytes.
pub fn to_hex_bytes(b: &Vec<u8>) -> (r: Vec<u8>)
    ensures
        r@ == hex_bytes(b@),
        forall|i: int| 0 <= i < r@.len() ==> r@[i] < 128,
{
    let mut r: Vec<u8> = Vec::new();
    let n: usize = b.len();
    let mut i: usize = 0;
    while i < n
        invariant
            n == b@.len(),
            i <= n,
            r@.len() == 2 * i,
            forall|j: int| 0 <= j < 2 * i ==> r@[j] == hex_bytes(b@)[j] && r@[j] < 128,
        decreases n - i,
    {
        let hi: u8 = b[i] / 16;
        let lo: u8 = b[i] % 16;
        let hd: u8 = if hi < 10 {
            48 + hi
        } else {
            87 + hi
        };
        let ld: u8 = if lo < 10 {
            48 + lo
        } else {
            87 + lo
        };
        r.push(hd);
        r.push(ld);
        proof {
            assert(hex_bytes(b@)[2 * i as int] == hex_digit(b@[i as int] / 16));
            assert(hex_bytes(b@)[2 * i as int + 1] == hex_digit(b@[i as int] % 16));
        }
        i += 1;
    }
    proof {
        assert(r@ =~= hex_bytes(b@));
    }
    r
}

/// Relies on String::from_utf8: ASCII bytes are valid UTF-8 and decode to
/// the string of exactly those characters.
#[verifier::external_body]
fn ascii_to_string(v: Vec<u8>) -> (r: String)
    requires
        forall|i: int| 0 <= i < v@.len() ==> v@[i] < 128,
    ensures
        r@ == ascii_chars(v@),
{
    String::from_utf8(v).unwrap_or_default()
}

/// Appends the wire form of all inputs.
pub(crate) fn push_txins(dst: &mut Vec<u8>, inputs: &Vec<TxInData>)
    ensures
        final(dst)@ == old(dst)@ + ser_txins(inputs@),
{
    let ghost iv = inputs@;
    let n: usize = inputs.len();
    let mut i: usize = 0;
    proof {
        assert(iv.skip(0) =~= iv);
    }
    while i < n
        invariant
            iv == inputs@,
            n == iv.len(),
            i <= n,
            old(dst)@ + ser_txins(iv) == dst@ + ser_txins(iv.skip(i as int)),
        decreases n - i,
    {
        proof {
            assert(iv.skip(i as int).drop_first() =~= iv.skip(i + 1));
            assert(iv.skip(i as int)[0] == iv[i as int]);
        }
        let ghost before = dst@;
        extend_bytes(dst, &inputs[i].outpoint.txid);
        push_le32(dst, inputs[i].outpoint.vout);
        dst.push(0u8);
        push_le32(dst, inputs[i].sequence);
        proof {
            assert(dst@ =~= before + ser_txin(iv[i as int]));
            assert(before + (ser_txin(iv[i as int]) + ser_txins(iv.skip(i + 1))) =~= dst@
                + ser_txins(iv.skip(i + 1)));
            assert(ser_txins(iv.skip(i as int)) == ser_txin(iv[i as int]) + ser_txins(
                iv.skip(i + 1),
            ));
            assert(old(dst)@ + ser_txins(iv) =~= dst@ + ser_txins(iv.skip(i + 1)));
        }
        i += 1;
    }
    proof {
        assert(iv.skip(n as int) =~= Seq::<TxInData>::empty());
        assert(dst@ + Seq::<u8>::empty() =~= dst@);
        assert(old(dst)@ + ser_txins(iv) =~= dst@);
    }
}

/// Appends the wire form of all outputs.
pub(crate) fn push_txouts(dst: &mut Vec<u8>, outputs: &Vec<TxOutData>)
    ensures
        final(dst)@ == old(dst)@ + ser_txouts(outputs@),
{
    let ghost ov = outputs@;
    let n: usize = outputs.len();
    let mut i: usize = 0;
    proof {
        assert(ov.skip(0) =~= ov);
    }
    while i < n
        invariant
            ov == outputs@,
            n == ov.len(),
            i <= n,
            old(dst)@ + ser_txouts(ov) == dst@ + ser_txouts(ov.skip(i as int)),
        decreases n - i,
    {
        proof {
            assert(ov.skip(i as int).drop_first() =~= ov.skip(i + 1));
            assert(ov.skip(i as int)[0] == ov[i as int]);
        }
        let ghost before = dst@;
        push_le64(dst, outputs[i].value);
        push_varint(dst, outputs[i].script_pubkey.len() as u64);
        extend_bytes(dst, &outputs[i].script_pubkey);
        proof {
            assert(dst@ =~= before + ser_txout(ov[i as int]));
            assert(before + (ser_txout(ov[i as int]) + ser_txouts(ov.skip(i + 1))) =~= dst@
                + ser_txouts(ov.skip(i + 1)));
            assert(ser_txouts(ov.skip(i as int)) == ser_txout(ov[i as int]) + ser_txouts(
                ov.skip(i + 1),
            ));
            assert(old(dst)@ + ser_txouts(ov) =~= dst@ + ser_txouts(ov.skip(i + 1)));
        }
        i += 1;
    }
    proof {
        assert(ov.skip(n as int) =~= Seq::<TxOutData>::empty());
        assert(dst@ + Seq::<u8>::empty() =~= dst@);
        assert(old(dst)@ + ser_txouts(ov) =~= dst@);
    }
}

/// Appends one witness stack.
fn push_witness_stack(dst: &mut Vec<u8>, w: &Vec<Vec<u8>>)
    ensures
        final(dst)@ == old(dst)@ + ser_witness_stack(w.deep_view()),
{
    let ghost wv = w.deep_view();
    push_varint(dst, w.len() as u64);
    let ghost header = dst@;
    let n: usize = w.len();
    let mut i: usize = 0;
    proof {
        assert(wv.skip(0) =~= wv);
        assert(wv.len() == w@.len());
    }
    while i < n
        invariant
            wv == w.deep_view(),
            n == wv.len(),
            i <= n,
            header + ser_witness_elems(wv) == dst@ + ser_witness_elems(wv.skip(i as int)),
        decreases n - i,
    {
        proof {
            assert(wv.skip(i as int).drop_first() =~= wv.skip(i + 1));
            assert(wv.skip(i as int)[0] == wv[i as int]);
            assert(wv[i as int] =~= w@[i as int]@);
        }
        let ghost before = dst@;
        push_varint(dst, w[i].len() as u64);
        extend_bytes(dst, &w[i]);
        proof {
            assert(dst@ =~= before + (varint(wv[i as int].len() as u64) + wv[i as int]));
            assert(ser_witness_elems(wv.skip(i as int)) == varint(wv[i as int].len() as u64)
                + wv[i as int] + ser_witness_elems(wv.skip(i + 1)));
            assert(header + ser_witness_elems(wv) =~= dst@ + ser_witness_elems(wv.skip(i + 1)));
        }
        i += 1;
    }
    proof {
        assert(wv.skip(n as int) =~= Seq::<Seq<u8>>::empty());
        assert(dst@ + Seq::<u8>::empty() =~= dst@);
        assert(header + ser_witness_elems(wv) =~= dst@);
        assert(old(dst)@ + ser_witness_stack(wv) =~= dst@);
    }
}

impl SignableTx {
    /// Whether any input already carries a final witness.
    pub fn any_witness(&self) -> (r: bool)
        ensures
            r == has_witness(self.input_records@),
    {
        let n: usize = self.input_records.len();
        let mut i: usize = 0;
        while i < n
            invariant
                n == self.input_records@.len(),
                i <= n,
                forall|j: int|
                    0 <= j < i ==> (#[trigger] self.input_records@[j]).final_witness is None,
            decreases n - i,
        {
            if self.input_records[i].final_witness.is_some() {
                return true;
            }
            i += 1;
        }
        false
    }

    /// The legacy wire form, without witnesses.
    pub fn legacy_serialized(&self) -> (r: Vec<u8>)
        ensures
            r@ == legacy_ser(*self),
    {
        let mut out: Vec<u8> = Vec::new();
        push_le32(&mut out, self.version);
        push_varint(&mut out, self.inputs.len() as u64);
        push_txins(&mut out, &self.inputs);
        push_varint(&mut out, self.outputs.len() as u64);
        push_txouts(&mut out, &self.outputs);
        push_le32(&mut out, self.lock_time);
        proof {
            assert(out@ =~= legacy_ser(*self));
        }
        out
    }

    /// The network wire form of the transaction: the extended shape when
    /// any input carries a witness, the legacy shape otherwise. Callers
    /// will usually finalize first.
    pub fn as_bitcoin_serialized(&self) -> (r: Result<Vec<u8>, TxError>)
        ensures
            r matches Ok(b) && b@ == tx_ser(*self),
    {
        if !self.any_witness() {
            return Ok(self.legacy_serialized());
        }
        let mut out: Vec<u8> = Vec::new();
        push_le32(&mut out, self.version);
        out.push(0u8);
        out.push(1u8);
        push_varint(&mut out, self.inputs.len() as u64);
        push_txins(&mut out, &self.inputs);
        push_varint(&mut out, self.outputs.len() as u64);
        push_txouts(&mut out, &self.outputs);
        let ghost rv = self.input_records@;
        let n: usize = self.input_records.len();
        let mut i: usize = 0;
        let ghost mid = out@;
        proof {
            assert(rv.skip(0) =~= rv);
        }
        while i < n
            invariant
                rv == self.input_records@,
                n == rv.len(),
                i <= n,
                mid + ser_witnesses(rv) == out@ + ser_witnesses(rv.skip(i as int)),
            decreases n - i,
        {
            proof {
                assert(rv.skip(i as int).drop_first() =~= rv.skip(i + 1));
                assert(rv.skip(i as int)[0] == rv[i as int]);
            }
            let ghost before = out@;
            match &self.input_records[i].final_witness {
                Some(w) => {
                    push_witness_stack(&mut out, w);
                    proof {
                        assert(witness_of(rv[i as int]) == w.deep_view());
                    }
                },
                None => {
                    push_varint(&mut out, 0u64);
                    proof {
                        assert(witness_of(rv[i as int]) =~= Seq::<Seq<u8>>::empty());
                        assert(ser_witness_stack(witness_of(rv[i as int])) =~= varint(0));
                    }
                },
            }
            proof {
                assert(out@ =~= before + ser_witness_stack(witness_of(rv[i as int])));
                assert(ser_witnesses(rv.skip(i as int)) == ser_witness_stack(
                    witness_of(rv[i as int]),
                ) + ser_witnesses(rv.skip(i + 1)));
                assert(mid + ser_witnesses(rv) =~= out@ + ser_witnesses(rv.skip(i + 1)));
            }
            i += 1;
        }
        push_le32(&mut out, self.lock_time);
        proof {
            assert(rv.skip(n as int) =~= Seq::<InputRecord>::empty());
            assert(out@ =~= segwit_ser(*self));
        }
        Ok(out)
    }

    /// The reference to one of this transaction's outputs, for use as a
    /// following transaction's previous output.
    pub fn into_outpoint(&self, vout: u32) -> (r: OutPoint)
        ensures
            r.txid@ == txid_of(*self),
            r.vout == vout,
            r.wf(),
    {
        let ser = self.legacy_serialized();
        OutPoint { txid: crate::hashes::sha256d(&ser), vout }
    }

    /// The hexadecimal form of the wire bytes, as used by node interfaces.
    pub fn hex(&self) -> (r: Result<String, TxError>)
        ensures
            r matches Ok(s) && s@ == ascii_chars(hex_bytes(tx_ser(*self))),
    {
        let b = match self.as_bitcoin_serialized() {
            Ok(b) => b,
            Err(e) => {
                return Err(e);
            },
        };
        Ok(ascii_to_string(to_hex_bytes(&b)))
    }
}

} // verus!
