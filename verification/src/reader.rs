//! The byte cursor and its primitive readers: fixed-width little-endian
//! integers, the CompactSize variable-length integer, the reversed 32-byte
//! identifier, and the length-prefixed opaque byte block.
//!
//! The cursor is an explicit position into an immutable backing buffer.
//! Every reader either returns its value with the position advanced by
//! exactly the bytes consumed, or fails with [`TxError::UnexpectedEndOfInput`]
//! and leaves the position where it was. No reader reads beyond the
//! declared width of its field.

use vstd::prelude::*;

use crate::model::{
    parse_compact_size, parse_script, parse_txid, parse_u32, parse_u64, CompactSize,
};
use crate::{DecodeField, TxError};

verus! {

/// Reads a 4-byte little-endian unsigned integer and advances the cursor
/// by 4, or fails naming `field` when fewer than 4 bytes remain.
pub fn read_4_bytes(bytes: &Vec<u8>, pos: &mut usize, field: DecodeField) -> (r: Result<
    u32,
    TxError,
>)
    ensures
        match r {
            Ok(v) => parse_u32(bytes@, *old(pos) as int) == Some((v, *final(pos) as int)),
            Err(e) => {
                &&& parse_u32(bytes@, *old(pos) as int) is None
                &&& e == TxError::UnexpectedEndOfInput(field)
                &&& *final(pos) == *old(pos)
            },
        },
        r is Ok <==> parse_u32(bytes@, *old(pos) as int) is Some,
{
    let p = *pos;
    if bytes.len() < 4 || p > bytes.len() - 4 {
        return Err(TxError::UnexpectedEndOfInput(field));
    }
    let b0 = bytes[p];
    let b1 = bytes[p + 1];
    let b2 = bytes[p + 2];
    let b3 = bytes[p + 3];
    let v = (b0 as u32) | (b1 as u32) << 8 | (b2 as u32) << 16 | (b3 as u32) << 24;
    proof {
        let s = bytes@.subrange(p as int, p as int + 4);
        assert(s[0] == b0 && s[1] == b1 && s[2] == b2 && s[3] == b3);
    }
    *pos = p + 4;
    Ok(v)
}

/// Reads an 8-byte little-endian unsigned integer and advances the cursor
/// by 8, or fails naming `field` when fewer than 8 bytes remain.
pub fn read_8_bytes(bytes: &Vec<u8>, pos: &mut usize, field: DecodeField) -> (r: Result<
    u64,
    TxError,
>)
    ensures
        match r {
            Ok(v) => parse_u64(bytes@, *old(pos) as int) == Some((v, *final(pos) as int)),
            Err(e) => {
                &&& parse_u64(bytes@, *old(pos) as int) is None
                &&& e == TxError::UnexpectedEndOfInput(field)
                &&& *final(pos) == *old(pos)
            },
        },
        r is Ok <==> parse_u64(bytes@, *old(pos) as int) is Some,
{
    let p = *pos;
    if bytes.len() < 8 || p > bytes.len() - 8 {
        return Err(TxError::UnexpectedEndOfInput(field));
    }
    let b0 = bytes[p];
    let b1 = bytes[p + 1];
    let b2 = bytes[p + 2];
    let b3 = bytes[p + 3];
    let b4 = bytes[p + 4];
    let b5 = bytes[p + 5];
    let b6 = bytes[p + 6];
    let b7 = bytes[p + 7];
    let v = (b0 as u64) | (b1 as u64) << 8 | (b2 as u64) << 16 | (b3 as u64) << 24 | (b4 as u64)
        << 32 | (b5 as u64) << 40 | (b6 as u64) << 48 | (b7 as u64) << 56;
    proof {
        let s = bytes@.subrange(p as int, p as int + 8);
        assert(s[0] == b0 && s[1] == b1 && s[2] == b2 && s[3] == b3 && s[4] == b4 && s[5] == b5
            && s[6] == b6 && s[7] == b7);
    }
    *pos = p + 8;
    Ok(v)
}

/// Copies `n` bytes from the cursor into a fresh vector and advances the
/// cursor by `n`, or fails naming `field` when fewer than `n` remain.
#[verifier::loop_isolation(false)]
fn read_bytes(bytes: &Vec<u8>, pos: &mut usize, n: usize, field: DecodeField) -> (r: Result<
    Vec<u8>,
    TxError,
>)
    ensures
        match r {
            Ok(v) => {
                &&& *old(pos) + n <= bytes@.len()
                &&& v@ == bytes@.subrange(*old(pos) as int, *old(pos) + n)
                &&& *final(pos) == *old(pos) + n
            },
            Err(e) => {
                &&& *old(pos) + n > bytes@.len()
                &&& e == TxError::UnexpectedEndOfInput(field)
                &&& *final(pos) == *old(pos)
            },
        },
{
    let p = *pos;
    if bytes.len() < n || p > bytes.len() - n {
        return Err(TxError::UnexpectedEndOfInput(field));
    }
    let mut v: Vec<u8> = Vec::new();
    let mut i: usize = 0;
    while i < n
        invariant
            i <= n,
            p + n <= bytes@.len(),
            v@.len() == i,
            forall|j: int| 0 <= j < i ==> v@[j] == bytes@[p + j],
        decreases n - i,
    {
        v.push(bytes[p + i]);
        i = i + 1;
    }
    proof {
        assert(v@ =~= bytes@.subrange(p as int, p as int + n));
    }
    *pos = p + n;
    Ok(v)
}

/// Reads a 32-byte transaction identifier, returned with its byte order
/// reversed (wire order is reversed relative to display order), and
/// advances the cursor by 32.
#[verifier::loop_isolation(false)]
pub fn read_transaction(bytes: &Vec<u8>, pos: &mut usize) -> (r: Result<Vec<u8>, TxError>)
    ensures
        match r {
            Ok(v) => parse_txid(bytes@, *old(pos) as int) == Some((v@, *final(pos) as int)),
            Err(e) => {
                &&& parse_txid(bytes@, *old(pos) as int) is None
                &&& e == TxError::UnexpectedEndOfInput(DecodeField::Txid)
                &&& *final(pos) == *old(pos)
            },
        },
        r is Ok <==> parse_txid(bytes@, *old(pos) as int) is Some,
{
    let p = *pos;
    if bytes.len() < 32 || p > bytes.len() - 32 {
        return Err(TxError::UnexpectedEndOfInput(DecodeField::Txid));
    }
    let mut v: Vec<u8> = Vec::new();
    let mut i: usize = 0;
    while i < 32
        invariant
            i <= 32,
            p + 32 <= bytes@.len(),
            v@.len() == i,
            forall|j: int| 0 <= j < i ==> v@[j] == bytes@[p + 31 - j],
        decreases 32 - i,
    {
        v.push(bytes[p + 31 - i]);
        i = i + 1;
    }
    proof {
        assert(v@ =~= bytes@.subrange(p as int, p as int + 32).reverse());
    }
    *pos = p + 32;
    Ok(v)
}

/// Reads a CompactSize: one marker byte, then 0, 2, 4 or 8 more bytes by
/// the marker's width class; advances the cursor by what it consumed.
pub fn read_compact_size(bytes: &Vec<u8>, pos: &mut usize, field: DecodeField) -> (r: Result<
    CompactSize,
    TxError,
>)
    ensures
        match r {
            Ok(c) => parse_compact_size(bytes@, *old(pos) as int) == Some(
                (c, *final(pos) as int),
            ),
            Err(e) => {
                &&& parse_compact_size(bytes@, *old(pos) as int) is None
                &&& e == TxError::UnexpectedEndOfInput(field)
                &&& *final(pos) == *old(pos)
            },
        },
        r is Ok <==> parse_compact_size(bytes@, *old(pos) as int) is Some,
{
    let p = *pos;
    if p >= bytes.len() {
        return Err(TxError::UnexpectedEndOfInput(field));
    }
    let marker = bytes[p];
    if marker < 0xFD {
        *pos = p + 1;
        Ok(CompactSize::Immediate(marker))
    } else if marker == 0xFD {
        if bytes.len() < 3 || p > bytes.len() - 3 {
            return Err(TxError::UnexpectedEndOfInput(field));
        }
        let b0 = bytes[p + 1];
        let b1 = bytes[p + 2];
        let v = (b0 as u16) | (b1 as u16) << 8;
        proof {
            let s = bytes@.subrange(p as int + 1, p as int + 3);
            assert(s[0] == b0 && s[1] == b1);
        }
        *pos = p + 3;
        Ok(CompactSize::Short(v))
    } else if marker == 0xFE {
        if bytes.len() < 5 || p > bytes.len() - 5 {
            return Err(TxError::UnexpectedEndOfInput(field));
        }
        let b0 = bytes[p + 1];
        let b1 = bytes[p + 2];
        let b2 = bytes[p + 3];
        let b3 = bytes[p + 4];
        let v = (b0 as u32) | (b1 as u32) << 8 | (b2 as u32) << 16 | (b3 as u32) << 24;
        proof {
            let s = bytes@.subrange(p as int + 1, p as int + 5);
            assert(s[0] == b0 && s[1] == b1 && s[2] == b2 && s[3] == b3);
        }
        *pos = p + 5;
        Ok(CompactSize::Medium(v))
    } else {
        if bytes.len() < 9 || p > bytes.len() - 9 {
            return Err(TxError::UnexpectedEndOfInput(field));
        }
        let b0 = bytes[p + 1];
        let b1 = bytes[p + 2];
        let b2 = bytes[p + 3];
        let b3 = bytes[p + 4];
        let b4 = bytes[p + 5];
        let b5 = bytes[p + 6];
        let b6 = bytes[p + 7];
        let b7 = bytes[p + 8];
        let v = (b0 as u64) | (b1 as u64) << 8 | (b2 as u64) << 16 | (b3 as u64) << 24 | (b4 as u64)
            << 32 | (b5 as u64) << 40 | (b6 as u64) << 48 | (b7 as u64) << 56;
        proof {
            let s = bytes@.subrange(p as int + 1, p as int + 9);
            assert(s[0] == b0 && s[1] == b1 && s[2] == b2 && s[3] == b3 && s[4] == b4 && s[5] == b5
                && s[6] == b6 && s[7] == b7);
        }
        *pos = p + 9;
        Ok(CompactSize::Long(v))
    }
}

/// Reads a length-prefixed opaque byte block (a script): a CompactSize
/// length, then that many raw bytes, returned unchanged.
pub fn read_script(bytes: &Vec<u8>, pos: &mut usize) -> (r: Result<Vec<u8>, TxError>)
    ensures
        match r {
            Ok(v) => parse_script(bytes@, *old(pos) as int) == Some((v@, *final(pos) as int)),
            Err(e) => {
                &&& parse_script(bytes@, *old(pos) as int) is None
                &&& (e == TxError::UnexpectedEndOfInput(DecodeField::ScriptLength) || e
                    == TxError::UnexpectedEndOfInput(DecodeField::Script))
                &&& *final(pos) == *old(pos)
            },
        },
        r is Ok <==> parse_script(bytes@, *old(pos) as int) is Some,
{
    let p0 = *pos;
    let mut p = p0;
    let size = match read_compact_size(bytes, &mut p, DecodeField::ScriptLength) {
        Ok(c) => c.value(),
        Err(e) => {
            return Err(e);
        },
    };
    if size > (bytes.len() - p) as u64 {
        return Err(TxError::UnexpectedEndOfInput(DecodeField::Script));
    }
    let n = size as usize;
    let block = match read_bytes(bytes, &mut p, n, DecodeField::Script) {
        Ok(v) => v,
        Err(e) => {
            return Err(e);
        },
    };
    *pos = p;
    Ok(block)
}

} // verus!
