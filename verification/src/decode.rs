//! The inverse of consensus serialization, in the mathematics: a parser of
//! the wire form, and the proof that parsing the serialized transaction
//! yields back exactly its input, output and witness data.

use vstd::prelude::*;

use crate::bytes::{le32, le32_val, lemma_le32_roundtrip};
use crate::encode::{
    has_witness, le64, legacy_ser, segwit_ser, ser_txin, ser_txins, ser_txout, ser_txouts,
    ser_witness_elems, ser_witness_stack, ser_witnesses, tx_ser, varint, witness_of,
};
use crate::record::{InputRecord, SignableTx, TxInData, TxOutData};

verus! {

/// The 64-bit value eight little-endian bytes denote.
pub open spec fn le64_val(s: Seq<u8>) -> u64
    recommends
        s.len() == 8,
{
    (s[0] + s[1] * 0x100 + s[2] * 0x10000 + s[3] * 0x1000000 + s[4] * 0x100000000 + s[5]
        * 0x10000000000 + s[6] * 0x1000000000000 + s[7] * 0x100000000000000) as u64
}

/// Reading back the eight little-endian bytes of a value yields the value.
pub proof fn lemma_le64_roundtrip(n: u64)
    ensures
        le64_val(le64(n)) == n,
{
    let x = n as int;
    vstd::arithmetic::div_mod::lemma_fundamental_div_mod(x, 256);
    vstd::arithmetic::div_mod::lemma_fundamental_div_mod(x / 256, 256);
    vstd::arithmetic::div_mod::lemma_fundamental_div_mod(x / 0x10000, 256);
    vstd::arithmetic::div_mod::lemma_fundamental_div_mod(x / 0x1000000, 256);
    vstd::arithmetic::div_mod::lemma_fundamental_div_mod(x / 0x100000000, 256);
    vstd::arithmetic::div_mod::lemma_fundamental_div_mod(x / 0x10000000000, 256);
    vstd::arithmetic::div_mod::lemma_fundamental_div_mod(x / 0x1000000000000, 256);
    vstd::arithmetic::div_mod::lemma_fundamental_div_mod(x, 0x100000000000000);
    vstd::arithmetic::div_mod::lemma_div_denominator(x, 256, 256);
    vstd::arithmetic::div_mod::lemma_div_denominator(x, 0x10000, 256);
    vstd::arithmetic::div_mod::lemma_div_denominator(x, 0x1000000, 256);
    vstd::arithmetic::div_mod::lemma_div_denominator(x, 0x100000000, 256);
    vstd::arithmetic::div_mod::lemma_div_denominator(x, 0x10000000000, 256);
    vstd::arithmetic::div_mod::lemma_div_denominator(x, 0x1000000000000, 256);
    assert(x / 0x100000000000000 < 256);
    assert(le64_val(le64(n)) == n);
}

/// The count a byte string opens with, and what follows it.
pub open spec fn parse_varint(b: Seq<u8>) -> Option<(u64, Seq<u8>)> {
    if b.len() == 0 {
        Option::None
    } else if b[0] < 0xfd {
        Option::Some((b[0] as u64, b.skip(1)))
    } else if b[0] == 0xfd {
        if b.len() >= 3 {
            Option::Some(((b[1] + b[2] * 0x100) as u64, b.skip(3)))
        } else {
            Option::None
        }
    } else if b[0] == 0xfe {
        if b.len() >= 5 {
            Option::Some((le32_val(b.subrange(1, 5)) as u64, b.skip(5)))
        } else {
            Option::None
        }
    } else {
        if b.len() >= 9 {
            Option::Some((le64_val(b.subrange(1, 9)), b.skip(9)))
        } else {
            Option::None
        }
    }
}

/// Reading back a count prefix yields the count.
pub proof fn lemma_rt_varint(n: u64, rest: Seq<u8>)
    ensures
        parse_varint(varint(n) + rest) == Option::Some((n, rest)),
{
    let b = varint(n) + rest;
    if n < 0xfd {
        assert(b.skip(1) =~= rest);
    } else if n <= 0xffff {
        assert(b[0] == 0xfdu8);
        assert(b[1] == (n % 256) as u8 && b[2] == (n / 256) as u8);
        assert(n % 256 + (n / 256) * 0x100 == n);
        assert(b.skip(3) =~= rest);
    } else if n <= 0xffff_ffff {
        assert(b[0] == 0xfeu8);
        assert(b.subrange(1, 5) =~= le32(n as u32));
        lemma_le32_roundtrip(n as u32);
        assert(b.skip(5) =~= rest);
    } else {
        assert(b[0] == 0xffu8);
        assert(b.subrange(1, 9) =~= le64(n));
        lemma_le64_roundtrip(n);
        assert(b.skip(9) =~= rest);
    }
}

/// The input data a byte string opens with (the engine's inputs carry an
/// empty signature script), and what follows it.
pub open spec fn parse_txin(b: Seq<u8>) -> Option<((Seq<u8>, u32, u32), Seq<u8>)> {
    if b.len() >= 41 && b[36] == 0u8 {
        Option::Some(
            (
                (b.subrange(0, 32), le32_val(b.subrange(32, 36)), le32_val(b.subrange(37, 41))),
                b.skip(41),
            ),
        )
    } else {
        Option::None
    }
}

/// The first `n` inputs of a byte string, and what follows them.
pub open spec fn parse_txins(b: Seq<u8>, n: int) -> Option<(Seq<(Seq<u8>, u32, u32)>, Seq<u8>)>
    decreases n,
{
    if n <= 0 {
        Option::Some((Seq::empty(), b))
    } else {
        match parse_txin(b) {
            Option::Some((x, r)) => match parse_txins(r, n - 1) {
                Option::Some((xs, r2)) => Option::Some((seq![x] + xs, r2)),
                Option::None => Option::None,
            },
            Option::None => Option::None,
        }
    }
}

/// The output a byte string opens with, and what follows it.
pub open spec fn parse_txout(b: Seq<u8>) -> Option<((u64, Seq<u8>), Seq<u8>)> {
    if b.len() < 8 {
        Option::None
    } else {
        let value = le64_val(b.subrange(0, 8));
        match parse_varint(b.skip(8)) {
            Option::Some((l, r)) => if r.len() >= l {
                Option::Some(((value, r.subrange(0, l as int)), r.skip(l as int)))
            } else {
                Option::None
            },
            Option::None => Option::None,
        }
    }
}

/// The first `n` outputs of a byte string, and what follows them.
pub open spec fn parse_txouts(b: Seq<u8>, n: int) -> Option<(Seq<(u64, Seq<u8>)>, Seq<u8>)>
    decreases n,
{
    if n <= 0 {
        Option::Some((Seq::empty(), b))
    } else {
        match parse_txout(b) {
            Option::Some((x, r)) => match parse_txouts(r, n - 1) {
                Option::Some((xs, r2)) => Option::Some((seq![x] + xs, r2)),
                Option::None => Option::None,
            },
            Option::None => Option::None,
        }
    }
}

/// The witness element a byte string opens with, and what follows it.
pub open spec fn parse_welem(b: Seq<u8>) -> Option<(Seq<u8>, Seq<u8>)> {
    match parse_varint(b) {
        Option::Some((l, r)) => if r.len() >= l {
            Option::Some((r.subrange(0, l as int), r.skip(l as int)))
        } else {
            Option::None
        },
        Option::None => Option::None,
    }
}

/// The first `n` witness elements of a byte string.
pub open spec fn parse_welems(b: Seq<u8>, n: int) -> Option<(Seq<Seq<u8>>, Seq<u8>)>
    decreases n,
{
    if n <= 0 {
        Option::Some((Seq::empty(), b))
    } else {
        match parse_welem(b) {
            Option::Some((x, r)) => match parse_welems(r, n - 1) {
                Option::Some((xs, r2)) => Option::Some((seq![x] + xs, r2)),
                Option::None => Option::None,
            },
            Option::None => Option::None,
        }
    }
}

/// The witness stack a byte string opens with.
pub open spec fn parse_wstack(b: Seq<u8>) -> Option<(Seq<Seq<u8>>, Seq<u8>)> {
    match parse_varint(b) {
        Option::Some((cnt, r)) => parse_welems(r, cnt as int),
        Option::None => Option::None,
    }
}

/// The first `n` witness stacks of a byte string.
pub open spec fn parse_wstacks(b: Seq<u8>, n: int) -> Option<(Seq<Seq<Seq<u8>>>, Seq<u8>)>
    decreases n,
{
    if n <= 0 {
        Option::Some((Seq::empty(), b))
    } else {
        match parse_wstack(b) {
            Option::Some((x, r)) => match parse_wstacks(r, n - 1) {
                Option::Some((xs, r2)) => Option::Some((seq![x] + xs, r2)),
                Option::None => Option::None,
            },
            Option::None => Option::None,
        }
    }
}

/// A parsed transaction: what the wire bytes carry.
#[verifier::ext_equal]
pub struct TxWire {
    pub version: u32,
    pub lock_time: u32,
    /// Per input: previous-output id, previous-output index, sequence.
    pub inputs: Seq<(Seq<u8>, u32, u32)>,
    /// Per output: amount, locking script.
    pub outputs: Seq<(u64, Seq<u8>)>,
    /// Per input, its witness stack.
    pub witnesses: Seq<Seq<Seq<u8>>>,
}

/// The wire content of the transaction under a record.
pub open spec fn wire_of(tx: SignableTx) -> TxWire {
    TxWire {
        version: tx.version,
        lock_time: tx.lock_time,
        inputs: Seq::new(
            tx.inputs@.len(),
            |i: int|
                (tx.inputs@[i].outpoint.txid@, tx.inputs@[i].outpoint.vout, tx.inputs@[i].sequence),
        ),
        outputs: Seq::new(
            tx.outputs@.len(),
            |i: int| (tx.outputs@[i].value, tx.outputs@[i].script_pubkey@),
        ),
        witnesses: Seq::new(tx.input_records@.len(), |i: int| witness_of(tx.input_records@[i])),
    }
}

/// The transaction a whole byte string carries, if it is exactly one
/// transaction in the engine's wire form.
pub open spec fn parse_tx(b: Seq<u8>) -> Option<TxWire> {
    if b.len() < 4 {
        Option::None
    } else {
        let version = le32_val(b.subrange(0, 4));
        let r1 = b.skip(4);
        if r1.len() >= 2 && r1[0] == 0u8 && r1[1] == 1u8 {
            parse_tx_body(version, r1.skip(2), true)
        } else {
            parse_tx_body(version, r1, false)
        }
    }
}

/// The remainder of a transaction after the version (and marker, in the
/// extended shape).
pub open spec fn parse_tx_body(version: u32, b: Seq<u8>, extended: bool) -> Option<TxWire> {
    match parse_varint(b) {
        Option::None => Option::None,
        Option::Some((n_in, r2)) => match parse_txins(r2, n_in as int) {
            Option::None => Option::None,
            Option::Some((ins, r3)) => match parse_varint(r3) {
                Option::None => Option::None,
                Option::Some((n_out, r4)) => match parse_txouts(r4, n_out as int) {
                    Option::None => Option::None,
                    Option::Some((outs, r5)) => {
                        let wres = if extended {
                            parse_wstacks(r5, n_in as int)
                        } else {
                            Option::Some(
                                (Seq::new(n_in as nat, |i: int| Seq::<Seq<u8>>::empty()), r5),
                            )
                        };
                        match wres {
                            Option::None => Option::None,
                            Option::Some((wits, r6)) => if r6.len() == 4 {
                                Option::Some(
                                    TxWire {
                                        version,
                                        lock_time: le32_val(r6.subrange(0, 4)),
                                        inputs: ins,
                                        outputs: outs,
                                        witnesses: wits,
                                    },
                                )
                            } else {
                                Option::None
                            },
                        }
                    },
                },
            },
        },
    }
}

/// Reading back one serialized input yields its data.
pub proof fn lemma_rt_txin(t: TxInData, rest: Seq<u8>)
    requires
        t.outpoint.wf(),
    ensures
        parse_txin(ser_txin(t) + rest) == Option::Some(
            ((t.outpoint.txid@, t.outpoint.vout, t.sequence), rest),
        ),
{
    let b = ser_txin(t) + rest;
    assert(b.len() == 41 + rest.len());
    assert(b[36] == 0u8);
    assert(b.subrange(0, 32) =~= t.outpoint.txid@);
    assert(b.subrange(32, 36) =~= le32(t.outpoint.vout));
    lemma_le32_roundtrip(t.outpoint.vout);
    assert(b.subrange(37, 41) =~= le32(t.sequence));
    lemma_le32_roundtrip(t.sequence);
    assert(b.skip(41) =~= rest);
}

/// Reading back the serialized inputs yields them all.
pub proof fn lemma_rt_txins(s: Seq<TxInData>, rest: Seq<u8>)
    requires
        forall|i: int| 0 <= i < s.len() ==> (#[trigger] s[i]).outpoint.wf(),
    ensures
        parse_txins(ser_txins(s) + rest, s.len() as int) == Option::Some(
            (
                Seq::new(s.len(), |i: int| (s[i].outpoint.txid@, s[i].outpoint.vout, s[i].sequence)),
                rest,
            ),
        ),
    decreases s.len(),
{
    let expected = Seq::new(
        s.len(),
        |i: int| (s[i].outpoint.txid@, s[i].outpoint.vout, s[i].sequence),
    );
    if s.len() == 0 {
        assert(ser_txins(s) + rest =~= rest);
        assert(expected =~= Seq::<(Seq<u8>, u32, u32)>::empty());
    } else {
        let b = ser_txins(s) + rest;
        assert(b =~= ser_txin(s[0]) + (ser_txins(s.drop_first()) + rest));
        lemma_rt_txin(s[0], ser_txins(s.drop_first()) + rest);
        assert(forall|i: int|
            0 <= i < s.drop_first().len() ==> (#[trigger] s.drop_first()[i]).outpoint.wf());
        lemma_rt_txins(s.drop_first(), rest);
        let tail = Seq::new(
            s.drop_first().len(),
            |i: int|
                (
                    s.drop_first()[i].outpoint.txid@,
                    s.drop_first()[i].outpoint.vout,
                    s.drop_first()[i].sequence,
                ),
        );
        assert(seq![(s[0].outpoint.txid@, s[0].outpoint.vout, s[0].sequence)] + tail =~~= expected);
    }
}

/// Reading back one serialized output yields its data.
pub proof fn lemma_rt_txout(t: TxOutData, rest: Seq<u8>)
    requires
        t.script_pubkey@.len() <= u64::MAX,
    ensures
        parse_txout(ser_txout(t) + rest) == Option::Some(
            ((t.value, t.script_pubkey@), rest),
        ),
{
    let b = ser_txout(t) + rest;
    assert(b.len() >= 8);
    assert(b.subrange(0, 8) =~= le64(t.value));
    lemma_le64_roundtrip(t.value);
    assert(b.skip(8) =~= varint(t.script_pubkey@.len() as u64) + (t.script_pubkey@ + rest));
    lemma_rt_varint(t.script_pubkey@.len() as u64, t.script_pubkey@ + rest);
    let r = t.script_pubkey@ + rest;
    assert(r.subrange(0, t.script_pubkey@.len() as int) =~= t.script_pubkey@);
    assert(r.skip(t.script_pubkey@.len() as int) =~= rest);
}

/// Reading back the serialized outputs yields them all.
pub proof fn lemma_rt_txouts(s: Seq<TxOutData>, rest: Seq<u8>)
    requires
        forall|i: int| 0 <= i < s.len() ==> (#[trigger] s[i]).script_pubkey@.len() <= u64::MAX,
    ensures
        parse_txouts(ser_txouts(s) + rest, s.len() as int) == Option::Some(
            (Seq::new(s.len(), |i: int| (s[i].value, s[i].script_pubkey@)), rest),
        ),
    decreases s.len(),
{
    let expected = Seq::new(s.len(), |i: int| (s[i].value, s[i].script_pubkey@));
    if s.len() == 0 {
        assert(ser_txouts(s) + rest =~= rest);
        assert(expected =~= Seq::<(u64, Seq<u8>)>::empty());
    } else {
        let b = ser_txouts(s) + rest;
        assert(b =~= ser_txout(s[0]) + (ser_txouts(s.drop_first()) + rest));
        lemma_rt_txout(s[0], ser_txouts(s.drop_first()) + rest);
        assert(forall|i: int|
            0 <= i < s.drop_first().len() ==> (#[trigger] s.drop_first()[i]).script_pubkey@.len()
                <= u64::MAX);
        lemma_rt_txouts(s.drop_first(), rest);
        let tail = Seq::new(
            s.drop_first().len(),
            |i: int| (s.drop_first()[i].value, s.drop_first()[i].script_pubkey@),
        );
        assert(seq![(s[0].value, s[0].script_pubkey@)] + tail =~~= expected);
    }
}

/// A witness stack whose element count and element sizes fit the wire
/// form's counts.
pub open spec fn stack_bounded(w: Seq<Seq<u8>>) -> bool {
    w.len() <= u64::MAX && forall|i: int| 0 <= i < w.len() ==> (#[trigger] w[i]).len() <= u64::MAX
}

/// The witness stack a record carries fits the wire form's counts.
pub proof fn lemma_witness_bounded(rec: InputRecord)
    ensures
        stack_bounded(witness_of(rec)),
{
    match rec.final_witness {
        Option::Some(wv) => {
            vstd::std_specs::vec::axiom_spec_len(&wv);
            assert forall|i: int| 0 <= i < witness_of(rec).len() implies (#[trigger] witness_of(
                rec,
            )[i]).len() <= u64::MAX by {
                vstd::std_specs::vec::axiom_spec_len(&wv@[i]);
                assert(witness_of(rec)[i] == wv@[i]@);
            }
        },
        Option::None => {},
    }
}

/// Reading back the serialized elements of one witness stack yields them.
#[verifier::rlimit(50)]
pub proof fn lemma_rt_welems(w: Seq<Seq<u8>>, rest: Seq<u8>)
    requires
        stack_bounded(w),
    ensures
        parse_welems(ser_witness_elems(w) + rest, w.len() as int) == Option::Some((w, rest)),
    decreases w.len(),
{
    if w.len() == 0 {
        assert(ser_witness_elems(w) + rest =~= rest);
    } else {
        let b = ser_witness_elems(w) + rest;
        let tailbytes = ser_witness_elems(w.drop_first()) + rest;
        assert(b =~= varint(w[0].len() as u64) + (w[0] + tailbytes));
        lemma_rt_varint(w[0].len() as u64, w[0] + tailbytes);
        assert((w[0] + tailbytes).subrange(0, w[0].len() as int) =~= w[0]);
        assert((w[0] + tailbytes).skip(w[0].len() as int) =~= tailbytes);
        assert(stack_bounded(w.drop_first()));
        lemma_rt_welems(w.drop_first(), rest);
        assert(seq![w[0]] + w.drop_first() =~~= w);
    }
}

/// Reading back one serialized witness stack yields it.
pub proof fn lemma_rt_wstack(w: Seq<Seq<u8>>, rest: Seq<u8>)
    requires
        stack_bounded(w),
    ensures
        parse_wstack(ser_witness_stack(w) + rest) == Option::Some((w, rest)),
{
    assert(ser_witness_stack(w) + rest =~= varint(w.len() as u64) + (ser_witness_elems(w) + rest));
    lemma_rt_varint(w.len() as u64, ser_witness_elems(w) + rest);
    lemma_rt_welems(w, rest);
}

/// Reading back the serialized witness stacks of all inputs yields them.
pub proof fn lemma_rt_wstacks(recs: Seq<InputRecord>, rest: Seq<u8>)
    ensures
        parse_wstacks(ser_witnesses(recs) + rest, recs.len() as int) == Option::Some(
            (Seq::new(recs.len(), |i: int| witness_of(recs[i])), rest),
        ),
    decreases recs.len(),
{
    let expected = Seq::new(recs.len(), |i: int| witness_of(recs[i]));
    if recs.len() == 0 {
        assert(ser_witnesses(recs) + rest =~= rest);
        assert(expected =~= Seq::<Seq<Seq<u8>>>::empty());
    } else {
        let b = ser_witnesses(recs) + rest;
        let tailbytes = ser_witnesses(recs.drop_first()) + rest;
        assert(b =~= ser_witness_stack(witness_of(recs[0])) + tailbytes);
        lemma_witness_bounded(recs[0]);
        lemma_rt_wstack(witness_of(recs[0]), tailbytes);
        lemma_rt_wstacks(recs.drop_first(), rest);
        let tail = Seq::new(recs.drop_first().len(), |i: int| witness_of(recs.drop_first()[i]));
        assert(seq![witness_of(recs[0])] + tail =~~= expected);
    }
}

/// Round trip: parsing the serialized transaction under a record yields
/// back exactly its version, lock time, inputs, outputs and witness data.
#[verifier::rlimit(100)]
pub proof fn lemma_serialize_parse_roundtrip(tx: SignableTx)
    requires
        tx.wf(),
        tx.inputs@.len() >= 1,
    ensures
        parse_tx(tx_ser(tx)) == Option::Some(wire_of(tx)),
{
    proof_tx_bounds(tx);
    let n_in = tx.inputs@.len() as u64;
    let n_out = tx.outputs@.len() as u64;
    if has_witness(tx.input_records@) {
        let b = segwit_ser(tx);
        assert(b.subrange(0, 4) =~= le32(tx.version));
        lemma_le32_roundtrip(tx.version);
        let r1 = b.skip(4);
        let after_marker = varint(n_in) + ser_txins(tx.inputs@) + varint(n_out) + ser_txouts(
            tx.outputs@,
        ) + ser_witnesses(tx.input_records@) + le32(tx.lock_time);
        assert(r1 =~= seq![0u8, 1u8] + after_marker);
        assert(r1[0] == 0u8 && r1[1] == 1u8);
        assert(r1.skip(2) =~= after_marker);
        lemma_body_roundtrip(tx, after_marker, true);
    } else {
        let b = legacy_ser(tx);
        assert(b.subrange(0, 4) =~= le32(tx.version));
        lemma_le32_roundtrip(tx.version);
        let r1 = b.skip(4);
        let body = varint(n_in) + ser_txins(tx.inputs@) + varint(n_out) + ser_txouts(tx.outputs@)
            + le32(tx.lock_time);
        assert(r1 =~= body);
        assert(r1[0] == varint(n_in)[0]);
        assert(varint(n_in)[0] != 0u8);
        lemma_body_roundtrip(tx, body_no_wit(tx), false);
        assert(body =~= body_no_wit(tx));
    }
}

/// The bytes after the version (and marker) of the serialized form without
/// witnesses.
pub open spec fn body_no_wit(tx: SignableTx) -> Seq<u8> {
    varint(tx.inputs@.len() as u64) + ser_txins(tx.inputs@) + varint(tx.outputs@.len() as u64)
        + ser_txouts(tx.outputs@) + le32(tx.lock_time)
}

/// The bytes after the version and marker of the extended serialized form.
pub open spec fn body_wit(tx: SignableTx) -> Seq<u8> {
    varint(tx.inputs@.len() as u64) + ser_txins(tx.inputs@) + varint(tx.outputs@.len() as u64)
        + ser_txouts(tx.outputs@) + ser_witnesses(tx.input_records@) + le32(tx.lock_time)
}

/// The vectors under a record fit the wire form's counts.
proof fn proof_tx_bounds(tx: SignableTx)
    ensures
        tx.inputs@.len() <= u64::MAX,
        tx.outputs@.len() <= u64::MAX,
        tx.input_records@.len() <= u64::MAX,
        forall|i: int|
            0 <= i < tx.outputs@.len() ==> (#[trigger] tx.outputs@[i]).script_pubkey@.len()
                <= u64::MAX,
{
    vstd::std_specs::vec::axiom_spec_len(&tx.inputs);
    vstd::std_specs::vec::axiom_spec_len(&tx.outputs);
    vstd::std_specs::vec::axiom_spec_len(&tx.input_records);
    assert forall|i: int|
        0 <= i < tx.outputs@.len() implies (#[trigger] tx.outputs@[i]).script_pubkey@.len()
        <= u64::MAX by {
        vstd::std_specs::vec::axiom_spec_len(&tx.outputs@[i].script_pubkey);
    }
}

/// Parsing the body of a serialized transaction yields its wire content.
#[verifier::rlimit(100)]
proof fn lemma_body_roundtrip(tx: SignableTx, body: Seq<u8>, extended: bool)
    requires
        tx.wf(),
        extended ==> body == body_wit(tx),
        !extended ==> body == body_no_wit(tx) && !has_witness(tx.input_records@),
    ensures
        parse_tx_body(tx.version, body, extended) == Option::Some(wire_of(tx)),
{
    proof_tx_bounds(tx);
    let n_in = tx.inputs@.len() as u64;
    let n_out = tx.outputs@.len() as u64;
    let ins_bytes = ser_txins(tx.inputs@);
    let outs_bytes = ser_txouts(tx.outputs@);
    let wit_bytes = if extended {
        ser_witnesses(tx.input_records@)
    } else {
        Seq::<u8>::empty()
    };
    let tail2 = ins_bytes + (varint(n_out) + (outs_bytes + (wit_bytes + le32(tx.lock_time))));
    assert(body =~= varint(n_in) + tail2);
    lemma_rt_varint(n_in, tail2);
    let tail3 = varint(n_out) + (outs_bytes + (wit_bytes + le32(tx.lock_time)));
    assert(tail2 =~= ins_bytes + tail3);
    lemma_rt_txins(tx.inputs@, tail3);
    let tail4 = outs_bytes + (wit_bytes + le32(tx.lock_time));
    lemma_rt_varint(n_out, tail4);
    let tail5 = wit_bytes + le32(tx.lock_time);
    assert(tail4 =~= outs_bytes + tail5);
    lemma_rt_txouts(tx.outputs@, tail5);
    if extended {
        assert(tail5 =~= ser_witnesses(tx.input_records@) + le32(tx.lock_time));
        lemma_rt_wstacks(tx.input_records@, le32(tx.lock_time));
        let wits = Seq::new(tx.input_records@.len(), |i: int| witness_of(tx.input_records@[i]));
        assert(le32(tx.lock_time).len() == 4);
        assert(le32(tx.lock_time).subrange(0, 4) =~= le32(tx.lock_time));
        lemma_le32_roundtrip(tx.lock_time);
        match parse_tx_body(tx.version, body, extended) {
            Option::Some(w) => {
                assert(w =~~= wire_of(tx));
            },
            Option::None => {
                assert(false);
            },
        }
    } else {
        assert(tail5 =~= le32(tx.lock_time));
        assert(le32(tx.lock_time).subrange(0, 4) =~= le32(tx.lock_time));
        lemma_le32_roundtrip(tx.lock_time);
        assert(forall|i: int|
            0 <= i < tx.input_records@.len() ==> !((#[trigger] tx.input_records@[i]).final_witness
                is Some));
        assert(Seq::new(n_in as nat, |i: int| Seq::<Seq<u8>>::empty()) =~~= Seq::new(
            tx.input_records@.len(),
            |i: int| witness_of(tx.input_records@[i]),
        ));
        match parse_tx_body(tx.version, body, extended) {
            Option::Some(w) => {
                assert(w =~~= wire_of(tx));
            },
            Option::None => {
                assert(false);
            },
        }
    }
}

} // verus!
