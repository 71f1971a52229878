//! Serialization back to wire bytes: the exact counterpart of the decoder,
//! used to state and check that decoding loses no data.

use vstd::prelude::*;

use crate::endian::{u16_le_bytes, u32_le_bytes, u64_le_bytes};
use crate::model::{
    enc_compact_size, ser_compact_size, ser_input, ser_inputs, ser_output, ser_outputs, ser_tx,
    CompactSize, InputV, OutputV,
};
use crate::tx::{Input, Output, ParsedTransaction};

verus! {

/// Appends the 2-byte little-endian encoding of a value.
fn push_u16_le(out: &mut Vec<u8>, v: u16)
    ensures
        final(out)@ == old(out)@ + u16_le_bytes(v),
{
    out.push((v & 0xff) as u8);
    out.push(((v >> 8) & 0xff) as u8);
    proof {
        assert(out@ =~= old(out)@ + u16_le_bytes(v));
    }
}

/// Appends the 4-byte little-endian encoding of a value.
fn push_u32_le(out: &mut Vec<u8>, v: u32)
    ensures
        final(out)@ == old(out)@ + u32_le_bytes(v),
{
    out.push((v & 0xff) as u8);
    out.push(((v >> 8) & 0xff) as u8);
    out.push(((v >> 16) & 0xff) as u8);
    out.push(((v >> 24) & 0xff) as u8);
    proof {
        assert(out@ =~= old(out)@ + u32_le_bytes(v));
    }
}

/// Appends the 8-byte little-endian encoding of a value.
fn push_u64_le(out: &mut Vec<u8>, v: u64)
    ensures
        final(out)@ == old(out)@ + u64_le_bytes(v),
{
    out.push((v & 0xff) as u8);
    out.push(((v >> 8) & 0xff) as u8);
    out.push(((v >> 16) & 0xff) as u8);
    out.push(((v >> 24) & 0xff) as u8);
    out.push(((v >> 32) & 0xff) as u8);
    out.push(((v >> 40) & 0xff) as u8);
    out.push(((v >> 48) & 0xff) as u8);
    out.push(((v >> 56) & 0xff) as u8);
    proof {
        assert(out@ =~= old(out)@ + u64_le_bytes(v));
    }
}

/// Appends a CompactSize in its own width class: the marker byte, then
/// the value bytes little-endian.
fn push_compact_size(out: &mut Vec<u8>, c: CompactSize)
    ensures
        final(out)@ == old(out)@ + ser_compact_size(c),
{
    match c {
        CompactSize::Immediate(v) => {
            out.push(v);
            proof {
                assert(out@ =~= old(out)@ + ser_compact_size(c));
            }
        },
        CompactSize::Short(v) => {
            out.push(0xFD);
            push_u16_le(out, v);
            proof {
                assert(out@ =~= old(out)@ + ser_compact_size(c));
            }
        },
        CompactSize::Medium(v) => {
            out.push(0xFE);
            push_u32_le(out, v);
            proof {
                assert(out@ =~= old(out)@ + ser_compact_size(c));
            }
        },
        CompactSize::Long(v) => {
            out.push(0xFF);
            push_u64_le(out, v);
            proof {
                assert(out@ =~= old(out)@ + ser_compact_size(c));
            }
        },
    }
}

/// The canonical (shortest-form) wire encoding of a count.
pub fn encode_compact_size(n: u64) -> (r: Vec<u8>)
    ensures
        r@ == enc_compact_size(n),
{
    let mut out: Vec<u8> = Vec::new();
    if n < 0xFD {
        push_compact_size(&mut out, CompactSize::Immediate(n as u8));
    } else if n <= 0xFFFF {
        push_compact_size(&mut out, CompactSize::Short(n as u16));
    } else if n <= 0xFFFFFFFF {
        push_compact_size(&mut out, CompactSize::Medium(n as u32));
    } else {
        push_compact_size(&mut out, CompactSize::Long(n));
    }
    proof {
        assert(out@ =~= enc_compact_size(n));
    }
    out
}

/// Appends the bytes of a vector unchanged.
#[verifier::loop_isolation(false)]
fn push_bytes(out: &mut Vec<u8>, b: &Vec<u8>)
    ensures
        final(out)@ == old(out)@ + b@,
{
    let n = b.len();
    let mut i: usize = 0;
    while i < n
        invariant
            i <= n,
            out@ == old(out)@ + b@.subrange(0, i as int),
        decreases n - i,
    {
        out.push(b[i]);
        proof {
            assert(out@ =~= old(out)@ + b@.subrange(0, i + 1));
        }
        i = i + 1;
    }
    proof {
        assert(out@ =~= old(out)@ + b@);
    }
}

/// Appends the bytes of a vector in reverse order.
#[verifier::loop_isolation(false)]
fn push_bytes_reversed(out: &mut Vec<u8>, b: &Vec<u8>)
    ensures
        final(out)@ == old(out)@ + b@.reverse(),
{
    let n = b.len();
    let mut i: usize = 0;
    while i < n
        invariant
            i <= n,
            out@.len() == old(out)@.len() + i,
            forall|j: int| 0 <= j < old(out)@.len() ==> out@[j] == old(out)@[j],
            forall|j: int|
                0 <= j < i ==> #[trigger] out@[old(out)@.len() + j] == b@[n - 1 - j],
        decreases n - i,
    {
        out.push(b[n - 1 - i]);
        i = i + 1;
    }
    proof {
        assert forall|idx: int| 0 <= idx < out@.len() implies out@[idx] == (old(out)@
            + b@.reverse())[idx] by {
            if idx >= old(out)@.len() {
                let j = idx - old(out)@.len();
                assert(out@[old(out)@.len() + j] == b@[n - 1 - j]);
            }
        }
        assert(out@ =~= old(out)@ + b@.reverse());
    }
}

/// Appends the wire bytes of one input: txid back in wire order, vout,
/// length-prefixed unlocking script, sequence.
fn push_input(out: &mut Vec<u8>, x: &Input)
    ensures
        final(out)@ == old(out)@ + ser_input(x@),
{
    push_bytes_reversed(out, &x.txid);
    push_u32_le(out, x.vout);
    let len_enc = encode_compact_size(x.script_sig.len() as u64);
    push_bytes(out, &len_enc);
    push_bytes(out, &x.script_sig);
    push_u32_le(out, x.sequence);
    proof {
        assert(out@ =~= old(out)@ + ser_input(x@));
    }
}

/// Appends the wire bytes of one output: amount, length-prefixed locking
/// script.
fn push_output(out: &mut Vec<u8>, x: &Output)
    ensures
        final(out)@ == old(out)@ + ser_output(x@),
{
    push_u64_le(out, x.amount);
    let len_enc = encode_compact_size(x.script_pub_key.len() as u64);
    push_bytes(out, &len_enc);
    push_bytes(out, &x.script_pub_key);
    proof {
        assert(out@ =~= old(out)@ + ser_output(x@));
    }
}

/// Appending one more input's bytes extends the list's serialization.
proof fn lemma_ser_inputs_push(v: Seq<InputV>, x: InputV)
    ensures
        ser_inputs(v.push(x)) == ser_inputs(v) + ser_input(x),
    decreases v.len(),
{
    if v.len() == 0 {
        assert(v.push(x).drop_first() =~= Seq::<InputV>::empty());
        assert(ser_inputs(Seq::<InputV>::empty()) == Seq::<u8>::empty());
        assert(v.push(x)[0] == x);
        assert(ser_inputs(v.push(x)) == ser_input(x) + Seq::<u8>::empty());
        assert(ser_input(x) + Seq::<u8>::empty() =~= ser_input(x));
        assert(ser_inputs(v) + ser_input(x) =~= ser_input(x));
    } else {
        assert(v.push(x).drop_first() =~= v.drop_first().push(x));
        lemma_ser_inputs_push(v.drop_first(), x);
        assert(ser_inputs(v.push(x)) =~= ser_inputs(v) + ser_input(x));
    }
}

/// Appending one more output's bytes extends the list's serialization.
proof fn lemma_ser_outputs_push(v: Seq<OutputV>, x: OutputV)
    ensures
        ser_outputs(v.push(x)) == ser_outputs(v) + ser_output(x),
    decreases v.len(),
{
    if v.len() == 0 {
        assert(v.push(x).drop_first() =~= Seq::<OutputV>::empty());
        assert(ser_outputs(Seq::<OutputV>::empty()) == Seq::<u8>::empty());
        assert(v.push(x)[0] == x);
        assert(ser_outputs(v.push(x)) == ser_output(x) + Seq::<u8>::empty());
        assert(ser_output(x) + Seq::<u8>::empty() =~= ser_output(x));
        assert(ser_outputs(v) + ser_output(x) =~= ser_output(x));
    } else {
        assert(v.push(x).drop_first() =~= v.drop_first().push(x));
        lemma_ser_outputs_push(v.drop_first(), x);
        assert(ser_outputs(v.push(x)) =~= ser_outputs(v) + ser_output(x));
    }
}

/// Serializes a decoded transaction back to wire bytes: every raw-byte
/// region in grammar order, counts in their decoded width class, script
/// lengths in shortest form. The computed identifier is no wire field and
/// is not written.
#[verifier::loop_isolation(false)]
pub fn serialize_transaction(t: &ParsedTransaction) -> (r: Vec<u8>)
    ensures
        r@ == ser_tx(t@),
{
    let mut out: Vec<u8> = Vec::new();
    push_u32_le(&mut out, t.version);
    push_compact_size(&mut out, t.input_count);
    let ghost after_ic = out@;
    let n_in = t.inputs.len();
    let mut i: usize = 0;
    proof {
        assert(t.inputs@.map_values(|x: Input| x@).take(0) =~= Seq::<InputV>::empty());
    }
    while i < n_in
        invariant
            i <= n_in,
            out@ == after_ic + ser_inputs(t.inputs@.map_values(|x: Input| x@).take(i as int)),
        decreases n_in - i,
    {
        let ghost views = t.inputs@.map_values(|x: Input| x@);
        push_input(&mut out, &t.inputs[i]);
        proof {
            lemma_ser_inputs_push(views.take(i as int), views[i as int]);
            assert(views.take(i + 1) =~= views.take(i as int).push(views[i as int]));
        }
        i = i + 1;
    }
    proof {
        let views = t.inputs@.map_values(|x: Input| x@);
        assert(views.take(n_in as int) =~= views);
    }
    push_compact_size(&mut out, t.output_count);
    let ghost after_oc = out@;
    let n_out = t.outputs.len();
    let mut k: usize = 0;
    proof {
        assert(t.outputs@.map_values(|x: Output| x@).take(0) =~= Seq::<OutputV>::empty());
    }
    while k < n_out
        invariant
            k <= n_out,
            out@ == after_oc + ser_outputs(t.outputs@.map_values(|x: Output| x@).take(k as int)),
        decreases n_out - k,
    {
        let ghost views = t.outputs@.map_values(|x: Output| x@);
        push_output(&mut out, &t.outputs[k]);
        proof {
            lemma_ser_outputs_push(views.take(k as int), views[k as int]);
            assert(views.take(k + 1) =~= views.take(k as int).push(views[k as int]));
        }
        k = k + 1;
    }
    proof {
        let views = t.outputs@.map_values(|x: Output| x@);
        assert(views.take(n_out as int) =~= views);
    }
    push_u32_le(&mut out, t.locktime);
    proof {
        assert(out@ =~= ser_tx(t@));
    }
    out
}

} // verus!
