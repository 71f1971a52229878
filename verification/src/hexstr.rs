//! Hexadecimal text: the input form of a raw transaction and the display
//! form of identifiers and scripts, with exact specifications of both
//! directions of the encoding.

use vstd::prelude::*;

verus! {

/// Whether a character is a hexadecimal digit (either case).
pub open spec fn is_hex_digit(c: char) -> bool {
    ('0' <= c && c <= '9') || ('a' <= c && c <= 'f') || ('A' <= c && c <= 'F')
}

/// The value of one hexadecimal digit character.
pub open spec fn hex_digit_value(c: char) -> u8
    recommends
        is_hex_digit(c),
{
    if '0' <= c && c <= '9' {
        (c as u8 - '0' as u8) as u8
    } else if 'a' <= c && c <= 'f' {
        (c as u8 - 'a' as u8 + 10) as u8
    } else {
        (c as u8 - 'A' as u8 + 10) as u8
    }
}

/// Whether a character sequence is well-formed hexadecimal: even length,
/// every character a hexadecimal digit.
pub open spec fn valid_hex(s: Seq<char>) -> bool {
    s.len() % 2 == 0 && (forall|i: int| 0 <= i < s.len() ==> is_hex_digit(#[trigger] s[i]))
}

/// The bytes written by a sequence of hexadecimal digit characters,
/// two digits per byte, high digit first.
pub open spec fn bytes_of_hex(s: Seq<char>) -> Seq<u8>
    recommends
        s.len() % 2 == 0,
    decreases s.len(),
{
    if s.len() < 2 {
        Seq::empty()
    } else {
        seq![(hex_digit_value(s[0]) * 16 + hex_digit_value(s[1])) as u8] + bytes_of_hex(
            s.skip(2),
        )
    }
}

/// The lowercase hexadecimal digit character of a value below 16.
pub open spec fn hex_digit_char(v: u8) -> char
    recommends
        v < 16,
{
    if v < 10 {
        (('0' as u8 + v) as u8) as char
    } else {
        (('a' as u8 + (v - 10)) as u8) as char
    }
}

/// The lowercase hexadecimal rendering of a byte sequence: two digit
/// characters per byte, high digit first.
pub open spec fn hex_of(s: Seq<u8>) -> Seq<char>
    decreases s.len(),
{
    if s.len() == 0 {
        Seq::empty()
    } else {
        seq![hex_digit_char(s[0] / 16), hex_digit_char(s[0] % 16)] + hex_of(s.drop_first())
    }
}

/// The hexadecimal rendering of a byte sequence has two characters per byte.
pub proof fn lemma_hex_of_len(s: Seq<u8>)
    ensures
        hex_of(s).len() == 2 * s.len(),
    decreases s.len(),
{
    if s.len() > 0 {
        lemma_hex_of_len(s.drop_first());
    }
}

/// A rendered hexadecimal digit is a hexadecimal digit and reads back to
/// the value it renders.
proof fn lemma_hex_digit_roundtrip(v: u8)
    requires
        v < 16,
    ensures
        is_hex_digit(hex_digit_char(v)),
        hex_digit_value(hex_digit_char(v)) == v,
{
}

/// The hexadecimal rendering of a byte sequence is well-formed hexadecimal,
/// and reading its digit pairs back gives the bytes it renders: the two
/// directions of the encoding agree.
pub proof fn lemma_hex_roundtrip(s: Seq<u8>)
    ensures
        valid_hex(hex_of(s)),
        bytes_of_hex(hex_of(s)) == s,
    decreases s.len(),
{
    lemma_hex_of_len(s);
    if s.len() == 0 {
        assert(bytes_of_hex(hex_of(s)) =~= s);
    } else {
        let hi = (s[0] / 16) as u8;
        let lo = (s[0] % 16) as u8;
        lemma_hex_digit_roundtrip(hi);
        lemma_hex_digit_roundtrip(lo);
        lemma_hex_roundtrip(s.drop_first());
        let h = hex_of(s);
        assert(h[0] == hex_digit_char(hi) && h[1] == hex_digit_char(lo));
        assert(h.skip(2) =~= hex_of(s.drop_first()));
        lemma_hex_of_len(s.drop_first());
        assert forall|i: int| 0 <= i < h.len() implies is_hex_digit(#[trigger] h[i]) by {
            if i >= 2 {
                assert(h[i] == hex_of(s.drop_first())[i - 2]);
            }
        }
        assert((hex_digit_value(h[0]) * 16 + hex_digit_value(h[1])) as u8 == s[0]);
        assert(bytes_of_hex(h) =~= s);
    }
}

/// Relies on hex::decode (via `FromHex` for `Vec<u8>`): it returns the bytes
/// written by the digit pairs when the input's length is even and every
/// character is a hexadecimal digit, and an error otherwise.
#[verifier::external_body]
pub(crate) fn hex_decode(s: &str) -> (r: Option<Vec<u8>>)
    ensures
        r is Some <==> valid_hex(s@),
        r matches Some(v) ==> v@ == bytes_of_hex(s@),
{
    hex::decode(s).ok()
}

/// Relies on hex::encode: it renders each byte as two lowercase
/// hexadecimal digits, high digit first.
#[verifier::external_body]
pub(crate) fn hex_encode(b: &Vec<u8>) -> (r: String)
    ensures
        r@ == hex_of(b@),
{
    hex::encode(b)
}

} // verus!
