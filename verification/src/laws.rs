//! The laws of the decoder: what holds of every input, proved once and
//! for all — the CompactSize encoding round-trips, a decoded transaction
//! re-serializes to the original buffer byte for byte, and decoding is a
//! function of the bytes alone.

use vstd::prelude::*;

use crate::endian::{
    lemma_u16_le_bytes_roundtrip, lemma_u16_le_value_roundtrip, lemma_u32_le_bytes_roundtrip,
    lemma_u32_le_value_roundtrip, lemma_u64_le_bytes_roundtrip, lemma_u64_le_value_roundtrip,
    u16_le_bytes, u32_le_bytes, u64_le_bytes,
};
use crate::model::{
    canonical_size_at, compact_size_for, enc_compact_size, inputs_scripts_canonical,
    outputs_scripts_canonical, parse_compact_size, parse_input, parse_inputs, parse_output,
    parse_outputs, parse_script, parse_tx, parse_txid, parse_u32, parse_u64,
    ser_compact_size, ser_input, ser_inputs, ser_output, ser_outputs, ser_tx, tx_scripts_canonical,
    CompactSize, InputV, OutputV, TxV,
};

verus! {

/// Adjacent subranges concatenate to the enclosing subrange.
proof fn lemma_subrange_concat(s: Seq<u8>, a: int, b: int, c: int)
    requires
        0 <= a <= b <= c <= s.len(),
    ensures
        s.subrange(a, b) + s.subrange(b, c) == s.subrange(a, c),
{
    assert(s.subrange(a, b) + s.subrange(b, c) =~= s.subrange(a, c));
}

/// Reversing a byte sequence twice gives the sequence back.
proof fn lemma_reverse_involutive(s: Seq<u8>)
    ensures
        s.reverse().reverse() == s,
{
    assert(s.reverse().reverse() =~= s);
}

/// The canonical encoding of a count parses back to a CompactSize in the
/// shortest width class, holding exactly that count, with every encoded
/// byte consumed. This covers all four marker widths: 1 byte below 0xFD,
/// 3 bytes with marker 0xFD, 5 with 0xFE, 9 with 0xFF.
pub proof fn lemma_compact_size_roundtrip(n: u64)
    ensures
        parse_compact_size(enc_compact_size(n), 0) == Some(
            (compact_size_for(n), enc_compact_size(n).len() as int),
        ),
        compact_size_for(n).spec_value() == n,
        compact_size_for(n).canonical(),
{
    let e = enc_compact_size(n);
    if n < 0xFD {
        assert(e =~= seq![n as u8]);
        assert(e[0] == n as u8 && (n as u8) < 0xFD);
    } else if n <= 0xFFFF {
        let v = n as u16;
        assert(e[0] == 0xFD);
        assert(e.subrange(1, 3) =~= u16_le_bytes(v));
        lemma_u16_le_value_roundtrip(v);
    } else if n <= 0xFFFFFFFF {
        let v = n as u32;
        assert(e[0] == 0xFE);
        assert(e.subrange(1, 5) =~= u32_le_bytes(v));
        lemma_u32_le_value_roundtrip(v);
    } else {
        assert(e[0] == 0xFF);
        assert(e.subrange(1, 9) =~= u64_le_bytes(n));
        lemma_u64_le_value_roundtrip(n);
    }
}

/// A parsed 4-byte integer re-encodes to exactly the bytes it was read from.
proof fn lemma_ser_u32_at(s: Seq<u8>, pos: int, v: u32, p: int)
    requires
        parse_u32(s, pos) == Some((v, p)),
    ensures
        u32_le_bytes(v) == s.subrange(pos, p),
        pos + 4 == p <= s.len(),
{
    lemma_u32_le_bytes_roundtrip(s.subrange(pos, pos + 4));
}

/// A parsed 8-byte integer re-encodes to exactly the bytes it was read from.
proof fn lemma_ser_u64_at(s: Seq<u8>, pos: int, v: u64, p: int)
    requires
        parse_u64(s, pos) == Some((v, p)),
    ensures
        u64_le_bytes(v) == s.subrange(pos, p),
        pos + 8 == p <= s.len(),
{
    lemma_u64_le_bytes_roundtrip(s.subrange(pos, pos + 8));
}

/// A parsed identifier, reversed back to wire order, is exactly the 32
/// bytes it was read from.
proof fn lemma_ser_txid_at(s: Seq<u8>, pos: int, t: Seq<u8>, p: int)
    requires
        parse_txid(s, pos) == Some((t, p)),
    ensures
        t.reverse() == s.subrange(pos, p),
        pos + 32 == p <= s.len(),
        t.len() == 32,
{
    lemma_reverse_involutive(s.subrange(pos, pos + 32));
}

/// A parsed CompactSize re-serializes, in its own width class, to exactly
/// the bytes it was read from.
proof fn lemma_ser_compact_size_at(s: Seq<u8>, pos: int, c: CompactSize, p: int)
    requires
        parse_compact_size(s, pos) == Some((c, p)),
    ensures
        ser_compact_size(c) == s.subrange(pos, p),
        pos < p <= s.len(),
{
    let marker = s[pos];
    if marker < 0xFD {
        assert(ser_compact_size(c) =~= s.subrange(pos, pos + 1));
    } else if marker == 0xFD {
        lemma_u16_le_bytes_roundtrip(s.subrange(pos + 1, pos + 3));
        assert(seq![marker] + s.subrange(pos + 1, pos + 3) =~= s.subrange(pos, pos + 3));
    } else if marker == 0xFE {
        lemma_u32_le_bytes_roundtrip(s.subrange(pos + 1, pos + 5));
        assert(seq![marker] + s.subrange(pos + 1, pos + 5) =~= s.subrange(pos, pos + 5));
    } else {
        lemma_u64_le_bytes_roundtrip(s.subrange(pos + 1, pos + 9));
        assert(seq![marker] + s.subrange(pos + 1, pos + 9) =~= s.subrange(pos, pos + 9));
    }
}

/// A canonically encoded CompactSize serializes the same whether by its
/// width class or by shortest form from its value.
proof fn lemma_canonical_enc(c: CompactSize)
    requires
        c.canonical(),
    ensures
        enc_compact_size(c.spec_value()) == ser_compact_size(c),
{
    assert(compact_size_for(c.spec_value()) == c);
}

/// A parsed script block, re-serialized with a shortest-form length
/// prefix, is exactly the bytes it was read from — provided its length
/// prefix was canonically encoded on the wire.
proof fn lemma_ser_script_at(s: Seq<u8>, pos: int, b: Seq<u8>, p: int)
    requires
        parse_script(s, pos) == Some((b, p)),
        canonical_size_at(s, pos),
    ensures
        enc_compact_size(b.len() as u64) + b == s.subrange(pos, p),
        pos < p <= s.len(),
        b.len() <= u64::MAX,
{
    let (c, p1) = parse_compact_size(s, pos).unwrap();
    lemma_ser_compact_size_at(s, pos, c, p1);
    lemma_canonical_enc(c);
    assert(b.len() as u64 == c.spec_value());
    lemma_subrange_concat(s, pos, p1, p);
}

/// A parsed input re-serializes to exactly the bytes it was read from,
/// provided its script length was canonically encoded.
proof fn lemma_ser_input_at(s: Seq<u8>, pos: int, x: InputV, p: int)
    requires
        parse_input(s, pos) == Some((x, p)),
        canonical_size_at(s, pos + 36),
    ensures
        ser_input(x) == s.subrange(pos, p),
        pos < p <= s.len(),
{
    let (txid, p1) = parse_txid(s, pos).unwrap();
    let (vout, p2) = parse_u32(s, p1).unwrap();
    let (script, p3) = parse_script(s, p2).unwrap();
    let (sequence, p4) = parse_u32(s, p3).unwrap();
    lemma_ser_txid_at(s, pos, txid, p1);
    lemma_ser_u32_at(s, p1, vout, p2);
    lemma_ser_script_at(s, p2, script, p3);
    lemma_ser_u32_at(s, p3, sequence, p4);
    lemma_subrange_concat(s, pos, p1, p2);
    lemma_subrange_concat(s, pos, p2, p3);
    lemma_subrange_concat(s, pos, p3, p4);
    assert(ser_input(x) =~= s.subrange(pos, p));
}

/// A parsed output re-serializes to exactly the bytes it was read from,
/// provided its script length was canonically encoded.
proof fn lemma_ser_output_at(s: Seq<u8>, pos: int, x: OutputV, p: int)
    requires
        parse_output(s, pos) == Some((x, p)),
        canonical_size_at(s, pos + 8),
    ensures
        ser_output(x) == s.subrange(pos, p),
        pos < p <= s.len(),
{
    let (amount, p1) = parse_u64(s, pos).unwrap();
    let (script, p2) = parse_script(s, p1).unwrap();
    lemma_ser_u64_at(s, pos, amount, p1);
    lemma_ser_script_at(s, p1, script, p2);
    lemma_subrange_concat(s, pos, p1, p2);
    assert(ser_output(x) =~= s.subrange(pos, p));
}

/// A parsed input list re-serializes to exactly the bytes it was read
/// from, provided every script length in it was canonically encoded.
proof fn lemma_ser_inputs_at(s: Seq<u8>, pos: int, n: nat, v: Seq<InputV>, p: int)
    requires
        0 <= pos <= s.len(),
        parse_inputs(s, pos, n) == Some((v, p)),
        inputs_scripts_canonical(s, pos, n),
    ensures
        ser_inputs(v) == s.subrange(pos, p),
        n == 0 ==> p == pos,
        n > 0 ==> pos < p <= s.len(),
    decreases n,
{
    if n == 0 {
        assert(ser_inputs(v) =~= s.subrange(pos, pos));
    } else {
        let (x, p1) = parse_input(s, pos).unwrap();
        let (vrest, pr) = parse_inputs(s, p1, (n - 1) as nat).unwrap();
        lemma_ser_input_at(s, pos, x, p1);
        lemma_ser_inputs_at(s, p1, (n - 1) as nat, vrest, pr);
        assert(v[0] == x && v.drop_first() =~= vrest);
        if n == 1 {
            assert(p == p1);
        }
        lemma_subrange_concat(s, pos, p1, p);
        assert(ser_inputs(v) == ser_input(x) + ser_inputs(vrest));
    }
}

/// A parsed output list re-serializes to exactly the bytes it was read
/// from, provided every script length in it was canonically encoded.
proof fn lemma_ser_outputs_at(s: Seq<u8>, pos: int, n: nat, v: Seq<OutputV>, p: int)
    requires
        0 <= pos <= s.len(),
        parse_outputs(s, pos, n) == Some((v, p)),
        outputs_scripts_canonical(s, pos, n),
    ensures
        ser_outputs(v) == s.subrange(pos, p),
        n == 0 ==> p == pos,
        n > 0 ==> pos < p <= s.len(),
    decreases n,
{
    if n == 0 {
        assert(ser_outputs(v) =~= s.subrange(pos, pos));
    } else {
        let (x, p1) = parse_output(s, pos).unwrap();
        let (vrest, pr) = parse_outputs(s, p1, (n - 1) as nat).unwrap();
        lemma_ser_output_at(s, pos, x, p1);
        lemma_ser_outputs_at(s, p1, (n - 1) as nat, vrest, pr);
        assert(v[0] == x && v.drop_first() =~= vrest);
        if n == 1 {
            assert(p == p1);
        }
        lemma_subrange_concat(s, pos, p1, p);
        assert(ser_outputs(v) == ser_output(x) + ser_outputs(vrest));
    }
}

/// No data is lost through decoding: re-serializing a decoded
/// transaction's raw-byte regions (the computed identifier aside)
/// reproduces the original buffer byte for byte. The one condition is
/// that the buffer's script-length prefixes were canonically encoded:
/// a decoded script keeps only its bytes, so its length prefix comes
/// back in shortest form; the counts carry their width class and need
/// no such condition.
pub proof fn lemma_decode_reserialize(s: Seq<u8>, t: TxV)
    requires
        parse_tx(s) == Some(t),
        tx_scripts_canonical(s),
    ensures
        ser_tx(t) == s,
{
    let (version, p1) = parse_u32(s, 0).unwrap();
    let (input_count, p2) = parse_compact_size(s, p1).unwrap();
    let (inputs, p3) = parse_inputs(s, p2, input_count.spec_value() as nat).unwrap();
    let (output_count, p4) = parse_compact_size(s, p3).unwrap();
    let (outputs, p5) = parse_outputs(s, p4, output_count.spec_value() as nat).unwrap();
    let (locktime, p6) = parse_u32(s, p5).unwrap();
    lemma_ser_u32_at(s, 0, version, p1);
    lemma_ser_compact_size_at(s, p1, input_count, p2);
    lemma_ser_inputs_at(s, p2, input_count.spec_value() as nat, inputs, p3);
    lemma_ser_compact_size_at(s, p3, output_count, p4);
    lemma_ser_outputs_at(s, p4, output_count.spec_value() as nat, outputs, p5);
    lemma_ser_u32_at(s, p5, locktime, p6);
    lemma_subrange_concat(s, 0, p1, p2);
    lemma_subrange_concat(s, 0, p2, p3);
    lemma_subrange_concat(s, 0, p3, p4);
    lemma_subrange_concat(s, 0, p4, p5);
    lemma_subrange_concat(s, 0, p5, p6);
    assert(s.subrange(0, s.len() as int) =~= s);
    assert(ser_tx(t) =~= s);
}

/// Decoding the same bytes twice yields structurally identical results:
/// the decoder's contract ties its whole result to `parse_tx`, a function
/// of the input sequence alone, so two successful decodes of equal buffers
/// agree in every field, identifier included.
pub proof fn lemma_decode_deterministic(s: Seq<u8>, t1: TxV, t2: TxV)
    requires
        parse_tx(s) == Some(t1),
        parse_tx(s) == Some(t2),
    ensures
        t1 == t2,
{
}

} // verus!
