//! The decoded records and the decoder itself: input and output readers
//! driven by a previously read count, and the six-state orchestration
//! (version, input count, inputs, output count, outputs, locktime) over
//! one shared cursor, with the identifier computed from the original bytes.

use vstd::prelude::*;

use crate::hashing::hash_raw_transaction;
use crate::hexstr::{hex_encode, hex_of, lemma_hex_of_len};
use crate::model::{
    lemma_parse_inputs_none_beyond, lemma_parse_inputs_props, lemma_parse_inputs_snoc,
    lemma_parse_outputs_none_beyond, lemma_parse_outputs_props, lemma_parse_outputs_snoc,
    parse_input, parse_inputs, parse_output, parse_outputs, parse_tx, parse_tx_body, tx_wf,
    CompactSize, InputV, OutputV, TxV,
};
use crate::reader::{read_4_bytes, read_8_bytes, read_compact_size, read_script, read_transaction};
use crate::{DecodeField, TxError};

verus! {

/// One transaction input, as decoded from the wire.
#[derive(Debug, Clone)]
pub struct Input {
    /// Identifier of the spent transaction, stored and displayed in
    /// reversed byte order relative to the wire encoding; 32 bytes.
    pub txid: Vec<u8>,
    /// Index of the spent output in that transaction.
    pub vout: u32,
    /// The unlocking script, an opaque byte block.
    pub script_sig: Vec<u8>,
    /// The sequence number.
    pub sequence: u32,
}

impl View for Input {
    type V = InputV;

    open spec fn view(&self) -> InputV {
        InputV {
            txid: self.txid@,
            vout: self.vout,
            script_sig: self.script_sig@,
            sequence: self.sequence,
        }
    }
}

impl Input {
    /// The unlocking script as lowercase hexadecimal, for display.
    pub fn script_sig_hex(&self) -> (r: String)
        ensures
            r@ == hex_of(self.script_sig@),
            r@.len() == 2 * self.script_sig@.len(),
    {
        proof {
            lemma_hex_of_len(self.script_sig@);
        }
        hex_encode(&self.script_sig)
    }

    /// The spent transaction's identifier as lowercase hexadecimal.
    pub fn txid_hex(&self) -> (r: String)
        ensures
            r@ == hex_of(self.txid@),
            r@.len() == 2 * self.txid@.len(),
    {
        proof {
            lemma_hex_of_len(self.txid@);
        }
        hex_encode(&self.txid)
    }
}

/// One transaction output, as decoded from the wire.
#[derive(Debug, Clone)]
pub struct Output {
    /// The amount, in the smallest currency unit.
    pub amount: u64,
    /// The locking script, an opaque byte block.
    pub script_pub_key: Vec<u8>,
}

impl View for Output {
    type V = OutputV;

    open spec fn view(&self) -> OutputV {
        OutputV { amount: self.amount, script_pub_key: self.script_pub_key@ }
    }
}

impl Output {
    /// The locking script as lowercase hexadecimal, for display.
    pub fn script_pub_key_hex(&self) -> (r: String)
        ensures
            r@ == hex_of(self.script_pub_key@),
            r@.len() == 2 * self.script_pub_key@.len(),
    {
        proof {
            lemma_hex_of_len(self.script_pub_key@);
        }
        hex_encode(&self.script_pub_key)
    }
}

/// A whole decoded transaction, plus its computed identifier.
#[derive(Debug, Clone)]
pub struct ParsedTransaction {
    /// The version field, read as an unsigned integer.
    pub version: u32,
    /// The input count as encoded on the wire.
    pub input_count: CompactSize,
    /// The inputs, in wire order; as many as the input count says.
    pub inputs: Vec<Input>,
    /// The output count as encoded on the wire.
    pub output_count: CompactSize,
    /// The outputs, in wire order; as many as the output count says.
    pub outputs: Vec<Output>,
    /// The locktime field.
    pub locktime: u32,
    /// The identifier: double SHA-256 of the whole original buffer,
    /// reversed; 32 bytes.
    pub transaction_id: Vec<u8>,
}

impl View for ParsedTransaction {
    type V = TxV;

    open spec fn view(&self) -> TxV {
        TxV {
            version: self.version,
            input_count: self.input_count,
            inputs: self.inputs@.map_values(|x: Input| x@),
            output_count: self.output_count,
            outputs: self.outputs@.map_values(|x: Output| x@),
            locktime: self.locktime,
            transaction_id: self.transaction_id@,
        }
    }
}

impl ParsedTransaction {
    /// The identifier as lowercase hexadecimal; 64 characters for the
    /// 32-byte identifier every decode produces.
    pub fn transaction_id_hex(&self) -> (r: String)
        ensures
            r@ == hex_of(self.transaction_id@),
            r@.len() == 2 * self.transaction_id@.len(),
    {
        proof {
            lemma_hex_of_len(self.transaction_id@);
        }
        hex_encode(&self.transaction_id)
    }
}

/// Reads one input: txid, vout, unlocking script, sequence, in that order.
fn read_input(bytes: &Vec<u8>, pos: &mut usize) -> (r: Result<Input, TxError>)
    ensures
        match r {
            Ok(x) => parse_input(bytes@, *old(pos) as int) == Some((x@, *final(pos) as int)),
            Err(e) => {
                &&& parse_input(bytes@, *old(pos) as int) is None
                &&& e matches TxError::UnexpectedEndOfInput(_)
                &&& *final(pos) == *old(pos)
            },
        },
        r is Ok <==> parse_input(bytes@, *old(pos) as int) is Some,
{
    let mut p = *pos;
    let txid = match read_transaction(bytes, &mut p) {
        Ok(v) => v,
        Err(e) => {
            return Err(e);
        },
    };
    let vout = match read_4_bytes(bytes, &mut p, DecodeField::Vout) {
        Ok(v) => v,
        Err(e) => {
            return Err(e);
        },
    };
    let script_sig = match read_script(bytes, &mut p) {
        Ok(v) => v,
        Err(e) => {
            return Err(e);
        },
    };
    let sequence = match read_4_bytes(bytes, &mut p, DecodeField::Sequence) {
        Ok(v) => v,
        Err(e) => {
            return Err(e);
        },
    };
    *pos = p;
    Ok(Input { txid, vout, script_sig, sequence })
}

/// Reads one output: amount, locking script, in that order.
fn read_output(bytes: &Vec<u8>, pos: &mut usize) -> (r: Result<Output, TxError>)
    ensures
        match r {
            Ok(x) => parse_output(bytes@, *old(pos) as int) == Some((x@, *final(pos) as int)),
            Err(e) => {
                &&& parse_output(bytes@, *old(pos) as int) is None
                &&& e matches TxError::UnexpectedEndOfInput(_)
                &&& *final(pos) == *old(pos)
            },
        },
        r is Ok <==> parse_output(bytes@, *old(pos) as int) is Some,
{
    let mut p = *pos;
    let amount = match read_8_bytes(bytes, &mut p, DecodeField::Amount) {
        Ok(v) => v,
        Err(e) => {
            return Err(e);
        },
    };
    let script_pub_key = match read_script(bytes, &mut p) {
        Ok(v) => v,
        Err(e) => {
            return Err(e);
        },
    };
    *pos = p;
    Ok(Output { amount, script_pub_key })
}

/// Reads exactly `input_count` inputs in order. Fails, and retains no
/// partial records, if any field of any record runs out of bytes.
#[verifier::loop_isolation(false)]
pub fn read_inputs(bytes: &Vec<u8>, pos: &mut usize, input_count: u64) -> (r: Result<
    Vec<Input>,
    TxError,
>)
    ensures
        match r {
            Ok(v) => {
                &&& parse_inputs(bytes@, *old(pos) as int, input_count as nat) == Some(
                    (v@.map_values(|x: Input| x@), *final(pos) as int),
                )
                &&& v@.len() == input_count
            },
            Err(e) => {
                &&& parse_inputs(bytes@, *old(pos) as int, input_count as nat) is None
                &&& e matches TxError::UnexpectedEndOfInput(_)
                &&& *final(pos) == *old(pos)
            },
        },
        r is Ok <==> parse_inputs(bytes@, *old(pos) as int, input_count as nat) is Some,
{
    let ghost start = *pos as int;
    let mut p = *pos;
    let mut inputs: Vec<Input> = Vec::new();
    let mut i: u64 = 0;
    proof {
        assert(inputs@.map_values(|x: Input| x@) =~= Seq::<InputV>::empty());
    }
    while i < input_count
        invariant
            i <= input_count,
            inputs@.len() == i,
            parse_inputs(bytes@, start, i as nat) == Some(
                (inputs@.map_values(|x: Input| x@), p as int),
            ),
        decreases input_count - i,
    {
        let ghost prev_views = inputs@.map_values(|x: Input| x@);
        let ghost prev_p = p as int;
        let one = match read_input(bytes, &mut p) {
            Ok(x) => x,
            Err(e) => {
                proof {
                    lemma_parse_inputs_none_beyond(
                        bytes@,
                        start,
                        i as nat,
                        input_count as nat,
                        prev_views,
                        prev_p,
                    );
                }
                return Err(e);
            },
        };
        proof {
            lemma_parse_inputs_snoc(bytes@, start, i as nat, prev_views, prev_p);
        }
        inputs.push(one);
        proof {
            assert(inputs@.map_values(|x: Input| x@) =~= prev_views.push(inputs@[i as int]@));
        }
        i = i + 1;
    }
    *pos = p;
    Ok(inputs)
}

/// Reads exactly `output_count` outputs in order. Fails, and retains no
/// partial records, if any field of any record runs out of bytes.
#[verifier::loop_isolation(false)]
pub fn read_outputs(bytes: &Vec<u8>, pos: &mut usize, output_count: u64) -> (r: Result<
    Vec<Output>,
    TxError,
>)
    ensures
        match r {
            Ok(v) => {
                &&& parse_outputs(bytes@, *old(pos) as int, output_count as nat) == Some(
                    (v@.map_values(|x: Output| x@), *final(pos) as int),
                )
                &&& v@.len() == output_count
            },
            Err(e) => {
                &&& parse_outputs(bytes@, *old(pos) as int, output_count as nat) is None
                &&& e matches TxError::UnexpectedEndOfInput(_)
                &&& *final(pos) == *old(pos)
            },
        },
        r is Ok <==> parse_outputs(bytes@, *old(pos) as int, output_count as nat) is Some,
{
    let ghost start = *pos as int;
    let mut p = *pos;
    let mut outputs: Vec<Output> = Vec::new();
    let mut i: u64 = 0;
    proof {
        assert(outputs@.map_values(|x: Output| x@) =~= Seq::<OutputV>::empty());
    }
    while i < output_count
        invariant
            i <= output_count,
            outputs@.len() == i,
            parse_outputs(bytes@, start, i as nat) == Some(
                (outputs@.map_values(|x: Output| x@), p as int),
            ),
        decreases output_count - i,
    {
        let ghost prev_views = outputs@.map_values(|x: Output| x@);
        let ghost prev_p = p as int;
        let one = match read_output(bytes, &mut p) {
            Ok(x) => x,
            Err(e) => {
                proof {
                    lemma_parse_outputs_none_beyond(
                        bytes@,
                        start,
                        i as nat,
                        output_count as nat,
                        prev_views,
                        prev_p,
                    );
                }
                return Err(e);
            },
        };
        proof {
            lemma_parse_outputs_snoc(bytes@, start, i as nat, prev_views, prev_p);
        }
        outputs.push(one);
        proof {
            assert(outputs@.map_values(|x: Output| x@) =~= prev_views.push(outputs@[i as int]@));
        }
        i = i + 1;
    }
    *pos = p;
    Ok(outputs)
}

/// Decodes one whole transaction from its raw bytes and computes its
/// identifier from those same bytes.
///
/// Succeeds exactly when the six-field grammar consumes the buffer whole:
/// a field that runs out of bytes gives `UnexpectedEndOfInput` naming the
/// field, and unconsumed bytes after the locktime give `TrailingBytes`.
/// Decoding is all-or-nothing; no partial transaction is ever returned.
pub fn decode(bytes: &Vec<u8>) -> (r: Result<ParsedTransaction, TxError>)
    ensures
        match r {
            Ok(t) => parse_tx(bytes@) == Some(t@) && tx_wf(t@),
            Err(e) => {
                &&& parse_tx(bytes@) is None
                &&& (e matches TxError::UnexpectedEndOfInput(_) || e == TxError::TrailingBytes)
                &&& (e == TxError::TrailingBytes <==> parse_tx_body(bytes@) is Some)
            },
        },
        r is Ok <==> parse_tx(bytes@) is Some,
{
    let mut p: usize = 0;
    let version = match read_4_bytes(bytes, &mut p, DecodeField::Version) {
        Ok(v) => v,
        Err(e) => {
            return Err(e);
        },
    };
    let ghost p1 = p as int;
    let input_count = match read_compact_size(bytes, &mut p, DecodeField::InputCount) {
        Ok(c) => c,
        Err(e) => {
            return Err(e);
        },
    };
    let ghost p2 = p as int;
    let inputs = match read_inputs(bytes, &mut p, input_count.value()) {
        Ok(v) => v,
        Err(e) => {
            return Err(e);
        },
    };
    let ghost p3 = p as int;
    let output_count = match read_compact_size(bytes, &mut p, DecodeField::OutputCount) {
        Ok(c) => c,
        Err(e) => {
            return Err(e);
        },
    };
    let ghost p4 = p as int;
    let outputs = match read_outputs(bytes, &mut p, output_count.value()) {
        Ok(v) => v,
        Err(e) => {
            return Err(e);
        },
    };
    let ghost p5 = p as int;
    let locktime = match read_4_bytes(bytes, &mut p, DecodeField::Locktime) {
        Ok(v) => v,
        Err(e) => {
            return Err(e);
        },
    };
    if p != bytes.len() {
        return Err(TxError::TrailingBytes);
    }
    let transaction_id = hash_raw_transaction(bytes);
    let tx = ParsedTransaction {
        version,
        input_count,
        inputs,
        outputs,
        output_count,
        locktime,
        transaction_id,
    };
    proof {
        let s = bytes@;
        let ivs = tx.inputs@.map_values(|x: Input| x@);
        let ovs = tx.outputs@.map_values(|x: Output| x@);
        assert(parse_inputs(s, p2, input_count.spec_value() as nat) == Some((ivs, p3)));
        assert(parse_outputs(s, p4, output_count.spec_value() as nat) == Some((ovs, p5)));
        lemma_parse_inputs_props(s, p2, input_count.spec_value() as nat, ivs, p3);
        lemma_parse_outputs_props(s, p4, output_count.spec_value() as nat, ovs, p5);
        assert(parse_tx_body(s) == Some((tx@, p as int)));
        assert(parse_tx(s) == Some(tx@));
        assert(tx_wf(tx@));
    }
    Ok(tx)
}

} // verus!
