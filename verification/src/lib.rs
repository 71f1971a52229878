//! Decoder for the raw wire encoding of a Bitcoin transaction.
//!
//! The library takes the transaction as a hexadecimal string or as raw bytes,
//! walks the fixed grammar (version, input count, inputs, output count,
//! outputs, locktime) with a single cursor over an immutable buffer, and
//! returns a structured record together with the transaction identifier,
//! the double-SHA-256 digest of the original bytes in reversed byte order.

use vstd::prelude::*;

pub mod endian;
pub mod hashing;
pub mod hexstr;
pub mod laws;
pub mod model;
pub mod reader;
pub mod tx;
pub mod writer;

use crate::hexstr::{bytes_of_hex, valid_hex};
use crate::model::{parse_tx, parse_tx_body, tx_wf};
use crate::tx::ParsedTransaction;

verus! {

/// A raw transaction as supplied from outside: the hexadecimal string of
/// its complete wire encoding.
#[derive(Debug, Clone)]
pub struct RawTransaction {
    /// The hexadecimal text; two digits per byte of the wire encoding.
    pub hex: String,
}

/// The grammar field whose read ran out of bytes; carried by
/// [`TxError::UnexpectedEndOfInput`] for diagnostics.
#[derive(Clone, Copy, Debug, PartialEq, Eq, Structural)]
pub enum DecodeField {
    Version,
    InputCount,
    Txid,
    Vout,
    ScriptLength,
    Script,
    Sequence,
    OutputCount,
    Amount,
    Locktime,
}

/// A decode failure. Decoding is all-or-nothing: any failure aborts the
/// whole decode and no partial transaction is returned.
#[derive(Clone, Copy, Debug, PartialEq, Eq, Structural)]
pub enum TxError {
    /// The supplied string is not valid hexadecimal (odd length or a
    /// non-hex character); detected before decoding begins.
    InvalidHexInput,
    /// A primitive read required more bytes than remained in the buffer.
    UnexpectedEndOfInput(DecodeField),
    /// The buffer held unconsumed bytes after the locktime field. The
    /// grammar must consume the whole buffer; trailing bytes are an error
    /// by deliberate choice, not silently ignored.
    TrailingBytes,
}

/// Decodes a raw transaction given as a hexadecimal string: checks the
/// text, turns it into bytes, and decodes those bytes as [`tx::decode`]
/// does. `InvalidHexInput` comes exactly on text that is no well-formed
/// hexadecimal; every other outcome is that of decoding the bytes the
/// text spells.
pub fn decode_raw_transaction(raw: &RawTransaction) -> (r: Result<ParsedTransaction, TxError>)
    ensures
        r == Err::<ParsedTransaction, TxError>(TxError::InvalidHexInput) <==> !valid_hex(raw.hex@),
        valid_hex(raw.hex@) ==> match r {
            Ok(t) => parse_tx(bytes_of_hex(raw.hex@)) == Some(t@) && tx_wf(t@),
            Err(e) => {
                &&& parse_tx(bytes_of_hex(raw.hex@)) is None
                &&& (e matches TxError::UnexpectedEndOfInput(_) || e == TxError::TrailingBytes)
                &&& (e == TxError::TrailingBytes <==> parse_tx_body(bytes_of_hex(raw.hex@)) is Some)
            },
        },
        valid_hex(raw.hex@) ==> (r is Ok <==> parse_tx(bytes_of_hex(raw.hex@)) is Some),
{
    let bytes = match crate::hexstr::hex_decode(raw.hex.as_str()) {
        Some(v) => v,
        None => {
            return Err(TxError::InvalidHexInput);
        },
    };
    match crate::tx::decode(&bytes) {
        Ok(t) => Ok(t),
        Err(e) => Err(e),
    }
}

} // verus!
