//! Little-endian views of byte sequences: the fixed-width integer encodings
//! that every multi-byte field of the transaction grammar uses.

use vstd::prelude::*;

verus! {

/// The value of a 2-byte little-endian sequence.
pub open spec fn u16_le(s: Seq<u8>) -> u16
    recommends
        s.len() == 2,
{
    (s[0] as u16) | (s[1] as u16) << 8
}

/// The 2-byte little-endian encoding of a value.
pub open spec fn u16_le_bytes(v: u16) -> Seq<u8> {
    seq![(v & 0xff) as u8, ((v >> 8) & 0xff) as u8]
}

/// The value of a 4-byte little-endian sequence.
pub open spec fn u32_le(s: Seq<u8>) -> u32
    recommends
        s.len() == 4,
{
    (s[0] as u32) | (s[1] as u32) << 8 | (s[2] as u32) << 16 | (s[3] as u32) << 24
}

/// The 4-byte little-endian encoding of a value.
pub open spec fn u32_le_bytes(v: u32) -> Seq<u8> {
    seq![
        (v & 0xff) as u8,
        ((v >> 8) & 0xff) as u8,
        ((v >> 16) & 0xff) as u8,
        ((v >> 24) & 0xff) as u8,
    ]
}

/// The value of an 8-byte little-endian sequence.
pub open spec fn u64_le(s: Seq<u8>) -> u64
    recommends
        s.len() == 8,
{
    (s[0] as u64) | (s[1] as u64) << 8 | (s[2] as u64) << 16 | (s[3] as u64) << 24
        | (s[4] as u64) << 32 | (s[5] as u64) << 40 | (s[6] as u64) << 48 | (s[7] as u64) << 56
}

/// The 8-byte little-endian encoding of a value.
pub open spec fn u64_le_bytes(v: u64) -> Seq<u8> {
    seq![
        (v & 0xff) as u8,
        ((v >> 8) & 0xff) as u8,
        ((v >> 16) & 0xff) as u8,
        ((v >> 24) & 0xff) as u8,
        ((v >> 32) & 0xff) as u8,
        ((v >> 40) & 0xff) as u8,
        ((v >> 48) & 0xff) as u8,
        ((v >> 56) & 0xff) as u8,
    ]
}

/// Re-encoding the value read from 2 little-endian bytes gives those bytes back.
pub proof fn lemma_u16_le_bytes_roundtrip(s: Seq<u8>)
    requires
        s.len() == 2,
    ensures
        u16_le_bytes(u16_le(s)) == s,
{
    let x = u16_le(s);
    let b0 = s[0];
    let b1 = s[1];
    assert(x == (b0 as u16) | (b1 as u16) << 8 ==> (x & 0xff) as u8 == b0 && ((x >> 8) & 0xff) as u8
        == b1) by (bit_vector);
    assert(u16_le_bytes(x) =~= s);
}

/// Reading back the 2-byte little-endian encoding of a value gives the value back.
pub proof fn lemma_u16_le_value_roundtrip(v: u16)
    ensures
        u16_le(u16_le_bytes(v)) == v,
{
    assert(((v & 0xff) as u8 as u16) | (((v >> 8) & 0xff) as u8 as u16) << 8 == v) by (bit_vector);
}

/// Re-encoding the value read from 4 little-endian bytes gives those bytes back.
pub proof fn lemma_u32_le_bytes_roundtrip(s: Seq<u8>)
    requires
        s.len() == 4,
    ensures
        u32_le_bytes(u32_le(s)) == s,
{
    let x = u32_le(s);
    let b0 = s[0];
    let b1 = s[1];
    let b2 = s[2];
    let b3 = s[3];
    assert(x == (b0 as u32) | (b1 as u32) << 8 | (b2 as u32) << 16 | (b3 as u32) << 24 ==> (x
        & 0xff) as u8 == b0 && ((x >> 8) & 0xff) as u8 == b1 && ((x >> 16) & 0xff) as u8 == b2 && ((
    x >> 24) & 0xff) as u8 == b3) by (bit_vector);
    assert(u32_le_bytes(x) =~= s);
}

/// Reading back the 4-byte little-endian encoding of a value gives the value back.
pub proof fn lemma_u32_le_value_roundtrip(v: u32)
    ensures
        u32_le(u32_le_bytes(v)) == v,
{
    assert(((v & 0xff) as u8 as u32) | (((v >> 8) & 0xff) as u8 as u32) << 8 | (((v >> 16)
        & 0xff) as u8 as u32) << 16 | (((v >> 24) & 0xff) as u8 as u32) << 24 == v) by (bit_vector);
}

/// Re-encoding the value read from 8 little-endian bytes gives those bytes back.
pub proof fn lemma_u64_le_bytes_roundtrip(s: Seq<u8>)
    requires
        s.len() == 8,
    ensures
        u64_le_bytes(u64_le(s)) == s,
{
    let x = u64_le(s);
    let b0 = s[0];
    let b1 = s[1];
    let b2 = s[2];
    let b3 = s[3];
    let b4 = s[4];
    let b5 = s[5];
    let b6 = s[6];
    let b7 = s[7];
    assert(x == (b0 as u64) | (b1 as u64) << 8 | (b2 as u64) << 16 | (b3 as u64) << 24 | (
    b4 as u64) << 32 | (b5 as u64) << 40 | (b6 as u64) << 48 | (b7 as u64) << 56 ==> (x
        & 0xff) as u8 == b0 && ((x >> 8) & 0xff) as u8 == b1 && ((x >> 16) & 0xff) as u8 == b2 && ((
    x >> 24) & 0xff) as u8 == b3 && ((x >> 32) & 0xff) as u8 == b4 && ((x >> 40) & 0xff) as u8 == b5
        && ((x >> 48) & 0xff) as u8 == b6 && ((x >> 56) & 0xff) as u8 == b7) by (bit_vector);
    assert(u64_le_bytes(x) =~= s);
}

/// Reading back the 8-byte little-endian encoding of a value gives the value back.
pub proof fn lemma_u64_le_value_roundtrip(v: u64)
    ensures
        u64_le(u64_le_bytes(v)) == v,
{
    assert(((v & 0xff) as u8 as u64) | (((v >> 8) & 0xff) as u8 as u64) << 8 | (((v >> 16)
        & 0xff) as u8 as u64) << 16 | (((v >> 24) & 0xff) as u8 as u64) << 24 | (((v >> 32)
        & 0xff) as u8 as u64) << 32 | (((v >> 40) & 0xff) as u8 as u64) << 40 | (((v >> 48)
        & 0xff) as u8 as u64) << 48 | (((v >> 56) & 0xff) as u8 as u64) << 56 == v) by (bit_vector);
}

} // verus!
