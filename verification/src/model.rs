//! The mathematical model of the transaction grammar: specification-level
//! parse functions over the byte sequence (one per field, record and list),
//! their serialization counterparts, and the views of the decoded records.
//!
//! A parse function takes the whole byte sequence and a position, and
//! returns the decoded value with the position after it, or `None` when
//! fewer bytes remain than the field requires. The grammar has no
//! backtracking: a transaction is version, input count, that many inputs,
//! output count, that many outputs, locktime, and nothing after.

use vstd::prelude::*;

use crate::endian::{u16_le, u16_le_bytes, u32_le, u32_le_bytes, u64_le, u64_le_bytes};
use crate::hashing::txid_of;

verus! {

/// A variable-length unsigned integer: 1, 3, 5 or 9 bytes on the wire,
/// chosen by a 1-byte marker. One constructor per width class; the width
/// read from the wire is kept, so that re-serialization is exact even for
/// a value below its width's range.
#[derive(Clone, Copy, Debug, PartialEq, Eq, Structural)]
pub enum CompactSize {
    /// A marker byte below 0xFD is itself the value.
    Immediate(u8),
    /// Marker 0xFD: the next 2 bytes, little-endian.
    Short(u16),
    /// Marker 0xFE: the next 4 bytes, little-endian.
    Medium(u32),
    /// Marker 0xFF: the next 8 bytes, little-endian.
    Long(u64),
}

impl CompactSize {
    /// The encoded value, normalized to 64 bits regardless of width.
    pub open spec fn spec_value(&self) -> u64 {
        match *self {
            CompactSize::Immediate(v) => v as u64,
            CompactSize::Short(v) => v as u64,
            CompactSize::Medium(v) => v as u64,
            CompactSize::Long(v) => v,
        }
    }

    /// The encoded value, normalized to 64 bits regardless of width.
    #[verifier::when_used_as_spec(spec_value)]
    pub fn value(&self) -> (r: u64)
        ensures
            r == self.spec_value(),
    {
        match self {
            CompactSize::Immediate(v) => *v as u64,
            CompactSize::Short(v) => *v as u64,
            CompactSize::Medium(v) => *v as u64,
            CompactSize::Long(v) => *v,
        }
    }

    /// Whether this is the shortest width class that holds the value:
    /// the form [`compact_size_for`] chooses.
    pub open spec fn canonical(self) -> bool {
        match self {
            CompactSize::Immediate(v) => v < 0xFD,
            CompactSize::Short(v) => v >= 0xFD,
            CompactSize::Medium(v) => v > 0xFFFF,
            CompactSize::Long(v) => v > 0xFFFFFFFF,
        }
    }
}

/// The shortest-width CompactSize holding a value.
pub open spec fn compact_size_for(n: u64) -> CompactSize {
    if n < 0xFD {
        CompactSize::Immediate(n as u8)
    } else if n <= 0xFFFF {
        CompactSize::Short(n as u16)
    } else if n <= 0xFFFFFFFF {
        CompactSize::Medium(n as u32)
    } else {
        CompactSize::Long(n)
    }
}

/// The wire bytes of a CompactSize, in its own width class.
pub open spec fn ser_compact_size(c: CompactSize) -> Seq<u8> {
    match c {
        CompactSize::Immediate(v) => seq![v],
        CompactSize::Short(v) => seq![0xFDu8] + u16_le_bytes(v),
        CompactSize::Medium(v) => seq![0xFEu8] + u32_le_bytes(v),
        CompactSize::Long(v) => seq![0xFFu8] + u64_le_bytes(v),
    }
}

/// The canonical (shortest) wire encoding of a count.
pub open spec fn enc_compact_size(n: u64) -> Seq<u8> {
    ser_compact_size(compact_size_for(n))
}

/// The view of a decoded transaction input.
pub ghost struct InputV {
    /// Identifier of the spent transaction, in display order: the 32 wire
    /// bytes reversed.
    pub txid: Seq<u8>,
    /// Index of the spent output in that transaction.
    pub vout: u32,
    /// The unlocking script, an opaque byte block.
    pub script_sig: Seq<u8>,
    /// The input's sequence number.
    pub sequence: u32,
}

/// The view of a decoded transaction output.
pub ghost struct OutputV {
    /// The amount, in the smallest currency unit.
    pub amount: u64,
    /// The locking script, an opaque byte block.
    pub script_pub_key: Seq<u8>,
}

/// The view of a decoded transaction.
pub ghost struct TxV {
    /// The version field, read as an unsigned integer.
    pub version: u32,
    /// The input count as encoded on the wire.
    pub input_count: CompactSize,
    /// The inputs, in wire order; as many as the input count says.
    pub inputs: Seq<InputV>,
    /// The output count as encoded on the wire.
    pub output_count: CompactSize,
    /// The outputs, in wire order; as many as the output count says.
    pub outputs: Seq<OutputV>,
    /// The locktime field.
    pub locktime: u32,
    /// The identifier: the double SHA-256 digest of the whole original
    /// buffer, reversed — computed from the raw bytes, not the fields.
    pub transaction_id: Seq<u8>,
}

/// Parses a 4-byte little-endian unsigned integer.
pub open spec fn parse_u32(s: Seq<u8>, pos: int) -> Option<(u32, int)> {
    if 0 <= pos && pos + 4 <= s.len() {
        Some((u32_le(s.subrange(pos, pos + 4)), pos + 4))
    } else {
        None
    }
}

/// Parses an 8-byte little-endian unsigned integer.
pub open spec fn parse_u64(s: Seq<u8>, pos: int) -> Option<(u64, int)> {
    if 0 <= pos && pos + 8 <= s.len() {
        Some((u64_le(s.subrange(pos, pos + 8)), pos + 8))
    } else {
        None
    }
}

/// Parses a 32-byte identifier; the wire bytes are reversed for display.
pub open spec fn parse_txid(s: Seq<u8>, pos: int) -> Option<(Seq<u8>, int)> {
    if 0 <= pos && pos + 32 <= s.len() {
        Some((s.subrange(pos, pos + 32).reverse(), pos + 32))
    } else {
        None
    }
}

/// Parses a CompactSize: the marker byte, then 0, 2, 4 or 8 value bytes.
pub open spec fn parse_compact_size(s: Seq<u8>, pos: int) -> Option<(CompactSize, int)> {
    if !(0 <= pos && pos + 1 <= s.len()) {
        None
    } else {
        let marker = s[pos];
        if marker < 0xFD {
            Some((CompactSize::Immediate(marker), pos + 1))
        } else if marker == 0xFD {
            if pos + 3 <= s.len() {
                Some((CompactSize::Short(u16_le(s.subrange(pos + 1, pos + 3))), pos + 3))
            } else {
                None
            }
        } else if marker == 0xFE {
            if pos + 5 <= s.len() {
                Some((CompactSize::Medium(u32_le(s.subrange(pos + 1, pos + 5))), pos + 5))
            } else {
                None
            }
        } else {
            if pos + 9 <= s.len() {
                Some((CompactSize::Long(u64_le(s.subrange(pos + 1, pos + 9))), pos + 9))
            } else {
                None
            }
        }
    }
}

/// Parses a length-prefixed opaque byte block: a CompactSize length, then
/// that many raw bytes.
pub open spec fn parse_script(s: Seq<u8>, pos: int) -> Option<(Seq<u8>, int)> {
    match parse_compact_size(s, pos) {
        Some((c, p)) => {
            let n = c.spec_value() as int;
            if p + n <= s.len() {
                Some((s.subrange(p, p + n), p + n))
            } else {
                None
            }
        },
        None => None,
    }
}

/// Parses one input: txid, vout, unlocking script, sequence.
pub open spec fn parse_input(s: Seq<u8>, pos: int) -> Option<(InputV, int)> {
    match parse_txid(s, pos) {
        Some((txid, p1)) => match parse_u32(s, p1) {
            Some((vout, p2)) => match parse_script(s, p2) {
                Some((script_sig, p3)) => match parse_u32(s, p3) {
                    Some((sequence, p4)) => Some(
                        (InputV { txid, vout, script_sig, sequence }, p4),
                    ),
                    None => None,
                },
                None => None,
            },
            None => None,
        },
        None => None,
    }
}

/// Parses one output: amount, locking script.
pub open spec fn parse_output(s: Seq<u8>, pos: int) -> Option<(OutputV, int)> {
    match parse_u64(s, pos) {
        Some((amount, p1)) => match parse_script(s, p1) {
            Some((script_pub_key, p2)) => Some((OutputV { amount, script_pub_key }, p2)),
            None => None,
        },
        None => None,
    }
}

/// Parses exactly `n` inputs in order; fails if any record fails partway.
pub open spec fn parse_inputs(s: Seq<u8>, pos: int, n: nat) -> Option<(Seq<InputV>, int)>
    decreases n,
{
    if n == 0 {
        Some((Seq::empty(), pos))
    } else {
        match parse_input(s, pos) {
            Some((x, p)) => match parse_inputs(s, p, (n - 1) as nat) {
                Some((v, p2)) => Some((seq![x] + v, p2)),
                None => None,
            },
            None => None,
        }
    }
}

/// Parses exactly `n` outputs in order; fails if any record fails partway.
pub open spec fn parse_outputs(s: Seq<u8>, pos: int, n: nat) -> Option<(Seq<OutputV>, int)>
    decreases n,
{
    if n == 0 {
        Some((Seq::empty(), pos))
    } else {
        match parse_output(s, pos) {
            Some((x, p)) => match parse_outputs(s, p, (n - 1) as nat) {
                Some((v, p2)) => Some((seq![x] + v, p2)),
                None => None,
            },
            None => None,
        }
    }
}

/// Parses the six grammar fields in order, without the whole-buffer check;
/// returns the transaction view and the position after the locktime.
pub open spec fn parse_tx_body(s: Seq<u8>) -> Option<(TxV, int)> {
    match parse_u32(s, 0) {
        Some((version, p1)) => match parse_compact_size(s, p1) {
            Some((input_count, p2)) => match parse_inputs(s, p2, input_count.spec_value() as nat) {
                Some((inputs, p3)) => match parse_compact_size(s, p3) {
                    Some((output_count, p4)) => match parse_outputs(
                        s,
                        p4,
                        output_count.spec_value() as nat,
                    ) {
                        Some((outputs, p5)) => match parse_u32(s, p5) {
                            Some((locktime, p6)) => Some(
                                (
                                    TxV {
                                        version,
                                        input_count,
                                        inputs,
                                        output_count,
                                        outputs,
                                        locktime,
                                        transaction_id: txid_of(s),
                                    },
                                    p6,
                                ),
                            ),
                            None => None,
                        },
                        None => None,
                    },
                    None => None,
                },
                None => None,
            },
            None => None,
        },
        None => None,
    }
}

/// Parses a whole transaction: the six fields must consume every byte of
/// the buffer; trailing bytes make the parse fail.
pub open spec fn parse_tx(s: Seq<u8>) -> Option<TxV> {
    match parse_tx_body(s) {
        Some((t, p)) => if p == s.len() {
            Some(t)
        } else {
            None
        },
        None => None,
    }
}

/// The wire bytes of one input.
pub open spec fn ser_input(i: InputV) -> Seq<u8> {
    i.txid.reverse() + u32_le_bytes(i.vout) + enc_compact_size(i.script_sig.len() as u64)
        + i.script_sig + u32_le_bytes(i.sequence)
}

/// The wire bytes of one output.
pub open spec fn ser_output(o: OutputV) -> Seq<u8> {
    u64_le_bytes(o.amount) + enc_compact_size(o.script_pub_key.len() as u64) + o.script_pub_key
}

/// The wire bytes of a list of inputs, in order.
pub open spec fn ser_inputs(v: Seq<InputV>) -> Seq<u8>
    decreases v.len(),
{
    if v.len() == 0 {
        Seq::empty()
    } else {
        ser_input(v[0]) + ser_inputs(v.drop_first())
    }
}

/// The wire bytes of a list of outputs, in order.
pub open spec fn ser_outputs(v: Seq<OutputV>) -> Seq<u8>
    decreases v.len(),
{
    if v.len() == 0 {
        Seq::empty()
    } else {
        ser_output(v[0]) + ser_outputs(v.drop_first())
    }
}

/// The wire bytes of a whole transaction: every raw-byte region of the
/// decoded record back in grammar order. The identifier is computed, not
/// a wire field, and has no place here.
pub open spec fn ser_tx(t: TxV) -> Seq<u8> {
    u32_le_bytes(t.version) + ser_compact_size(t.input_count) + ser_inputs(t.inputs)
        + ser_compact_size(t.output_count) + ser_outputs(t.outputs) + u32_le_bytes(t.locktime)
}

/// Whether the CompactSize at a position is canonically (shortest-form)
/// encoded; vacuously true where none parses.
pub open spec fn canonical_size_at(s: Seq<u8>, pos: int) -> bool {
    match parse_compact_size(s, pos) {
        Some((c, _)) => c.canonical(),
        None => true,
    }
}

/// Whether the script-length prefixes of `n` inputs parsed from a position
/// are all canonically encoded. The script length of an input stands 36
/// bytes after its start (behind the txid and the vout).
pub open spec fn inputs_scripts_canonical(s: Seq<u8>, pos: int, n: nat) -> bool
    decreases n,
{
    if n == 0 {
        true
    } else {
        canonical_size_at(s, pos + 36) && (match parse_input(s, pos) {
            Some((_, p)) => inputs_scripts_canonical(s, p, (n - 1) as nat),
            None => true,
        })
    }
}

/// Whether the script-length prefixes of `n` outputs parsed from a position
/// are all canonically encoded. The script length of an output stands 8
/// bytes after its start (behind the amount).
pub open spec fn outputs_scripts_canonical(s: Seq<u8>, pos: int, n: nat) -> bool
    decreases n,
{
    if n == 0 {
        true
    } else {
        canonical_size_at(s, pos + 8) && (match parse_output(s, pos) {
            Some((_, p)) => outputs_scripts_canonical(s, p, (n - 1) as nat),
            None => true,
        })
    }
}

/// Whether every script-length prefix in a transaction buffer is
/// canonically encoded. Count fields need no such condition: their width
/// class is kept in the decoded record, so they re-serialize exactly;
/// a script keeps only its bytes, so its length prefix re-serializes in
/// shortest form.
pub open spec fn tx_scripts_canonical(s: Seq<u8>) -> bool {
    match parse_u32(s, 0) {
        Some((_, p1)) => match parse_compact_size(s, p1) {
            Some((input_count, p2)) => inputs_scripts_canonical(
                s,
                p2,
                input_count.spec_value() as nat,
            ) && (match parse_inputs(s, p2, input_count.spec_value() as nat) {
                Some((_, p3)) => match parse_compact_size(s, p3) {
                    Some((output_count, p4)) => outputs_scripts_canonical(
                        s,
                        p4,
                        output_count.spec_value() as nat,
                    ),
                    None => true,
                },
                None => true,
            }),
            None => true,
        },
        None => true,
    }
}

/// Parsing one more input appends one record: the parse of `n + 1` inputs
/// is the parse of `n` followed by one input at the position they end.
pub proof fn lemma_parse_inputs_snoc(s: Seq<u8>, pos: int, n: nat, v: Seq<InputV>, p: int)
    requires
        parse_inputs(s, pos, n) == Some((v, p)),
    ensures
        parse_inputs(s, pos, n + 1) == (match parse_input(s, p) {
            Some((x, p2)) => Some((v.push(x), p2)),
            None => None::<(Seq<InputV>, int)>,
        }),
    decreases n,
{
    assert(n + 1 != 0);
    if n == 0 {
        assert(v == Seq::<InputV>::empty() && p == pos);
        if let Some((x, p2)) = parse_input(s, pos) {
            assert(parse_inputs(s, p2, 0) == Some((Seq::<InputV>::empty(), p2)));
            assert(parse_inputs(s, pos, n + 1) == Some((seq![x] + Seq::<InputV>::empty(), p2)));
            assert(seq![x] + Seq::<InputV>::empty() =~= v.push(x));
        } else {
            assert(parse_inputs(s, pos, n + 1) is None);
        }
    } else {
        let (x, p1) = parse_input(s, pos).unwrap();
        let (vrest, pr) = parse_inputs(s, p1, (n - 1) as nat).unwrap();
        assert(v == seq![x] + vrest && p == pr);
        lemma_parse_inputs_snoc(s, p1, (n - 1) as nat, vrest, pr);
        assert(parse_inputs(s, pos, n + 1) == (match parse_input(s, pos) {
            Some((x2, q)) => match parse_inputs(s, q, n) {
                Some((v2, q2)) => Some((seq![x2] + v2, q2)),
                None => None::<(Seq<InputV>, int)>,
            },
            None => None::<(Seq<InputV>, int)>,
        }));
        if let Some((y, p2)) = parse_input(s, p) {
            assert(parse_inputs(s, p1, n) == Some((vrest.push(y), p2)));
            assert(seq![x] + vrest.push(y) =~= v.push(y));
        }
    }
}

/// Once a further input fails to parse, no larger count parses either.
pub proof fn lemma_parse_inputs_none_beyond(
    s: Seq<u8>,
    pos: int,
    n: nat,
    m: nat,
    v: Seq<InputV>,
    p: int,
)
    requires
        parse_inputs(s, pos, n) == Some((v, p)),
        parse_input(s, p) is None,
        n < m,
    ensures
        parse_inputs(s, pos, m) is None,
    decreases n,
{
    if n == 0 {
    } else {
        let (x, p1) = parse_input(s, pos).unwrap();
        let (vrest, pr) = parse_inputs(s, p1, (n - 1) as nat).unwrap();
        lemma_parse_inputs_none_beyond(s, p1, (n - 1) as nat, (m - 1) as nat, vrest, pr);
    }
}

/// What a successful parse of `n` inputs guarantees: exactly `n` records,
/// a position that moved forward and stayed within the buffer, and in each
/// record a 32-byte identifier and a script that fits its length prefix.
pub proof fn lemma_parse_inputs_props(s: Seq<u8>, pos: int, n: nat, v: Seq<InputV>, p: int)
    requires
        parse_inputs(s, pos, n) == Some((v, p)),
    ensures
        v.len() == n,
        pos <= p,
        n > 0 ==> p <= s.len(),
        forall|i: int|
            0 <= i < v.len() ==> (#[trigger] v[i]).txid.len() == 32 && v[i].script_sig.len()
                <= u64::MAX,
    decreases n,
{
    if n > 0 {
        let (x, p1) = parse_input(s, pos).unwrap();
        let (vrest, pr) = parse_inputs(s, p1, (n - 1) as nat).unwrap();
        lemma_parse_inputs_props(s, p1, (n - 1) as nat, vrest, pr);
        assert(forall|i: int| 1 <= i < v.len() ==> v[i] == vrest[i - 1]);
    }
}

/// Parsing one more output appends one record: the parse of `n + 1` outputs
/// is the parse of `n` followed by one output at the position they end.
pub proof fn lemma_parse_outputs_snoc(s: Seq<u8>, pos: int, n: nat, v: Seq<OutputV>, p: int)
    requires
        parse_outputs(s, pos, n) == Some((v, p)),
    ensures
        parse_outputs(s, pos, n + 1) == (match parse_output(s, p) {
            Some((x, p2)) => Some((v.push(x), p2)),
            None => None::<(Seq<OutputV>, int)>,
        }),
    decreases n,
{
    assert(n + 1 != 0);
    if n == 0 {
        assert(v == Seq::<OutputV>::empty() && p == pos);
        if let Some((x, p2)) = parse_output(s, pos) {
            assert(parse_outputs(s, p2, 0) == Some((Seq::<OutputV>::empty(), p2)));
            assert(parse_outputs(s, pos, n + 1) == Some((seq![x] + Seq::<OutputV>::empty(), p2)));
            assert(seq![x] + Seq::<OutputV>::empty() =~= v.push(x));
        } else {
            assert(parse_outputs(s, pos, n + 1) is None);
        }
    } else {
        let (x, p1) = parse_output(s, pos).unwrap();
        let (vrest, pr) = parse_outputs(s, p1, (n - 1) as nat).unwrap();
        assert(v == seq![x] + vrest && p == pr);
        lemma_parse_outputs_snoc(s, p1, (n - 1) as nat, vrest, pr);
        assert(parse_outputs(s, pos, n + 1) == (match parse_output(s, pos) {
            Some((x2, q)) => match parse_outputs(s, q, n) {
                Some((v2, q2)) => Some((seq![x2] + v2, q2)),
                None => None::<(Seq<OutputV>, int)>,
            },
            None => None::<(Seq<OutputV>, int)>,
        }));
        if let Some((y, p2)) = parse_output(s, p) {
            assert(parse_outputs(s, p1, n) == Some((vrest.push(y), p2)));
            assert(seq![x] + vrest.push(y) =~= v.push(y));
        }
    }
}

/// Once a further output fails to parse, no larger count parses either.
pub proof fn lemma_parse_outputs_none_beyond(
    s: Seq<u8>,
    pos: int,
    n: nat,
    m: nat,
    v: Seq<OutputV>,
    p: int,
)
    requires
        parse_outputs(s, pos, n) == Some((v, p)),
        parse_output(s, p) is None,
        n < m,
    ensures
        parse_outputs(s, pos, m) is None,
    decreases n,
{
    if n == 0 {
    } else {
        let (x, p1) = parse_output(s, pos).unwrap();
        let (vrest, pr) = parse_outputs(s, p1, (n - 1) as nat).unwrap();
        lemma_parse_outputs_none_beyond(s, p1, (n - 1) as nat, (m - 1) as nat, vrest, pr);
    }
}

/// What a successful parse of `n` outputs guarantees: exactly `n` records,
/// a position that moved forward and stayed within the buffer, and in each
/// record a script that fits its length prefix.
pub proof fn lemma_parse_outputs_props(s: Seq<u8>, pos: int, n: nat, v: Seq<OutputV>, p: int)
    requires
        parse_outputs(s, pos, n) == Some((v, p)),
    ensures
        v.len() == n,
        pos <= p,
        n > 0 ==> p <= s.len(),
        forall|i: int| 0 <= i < v.len() ==> (#[trigger] v[i]).script_pub_key.len() <= u64::MAX,
    decreases n,
{
    if n > 0 {
        let (x, p1) = parse_output(s, pos).unwrap();
        let (vrest, pr) = parse_outputs(s, p1, (n - 1) as nat).unwrap();
        lemma_parse_outputs_props(s, p1, (n - 1) as nat, vrest, pr);
        assert(forall|i: int| 1 <= i < v.len() ==> v[i] == vrest[i - 1]);
    }
}

/// Well-formedness of a transaction view: the counts match the lists, every
/// identifier is 32 bytes, and every script fits its length prefix.
pub open spec fn tx_wf(t: TxV) -> bool {
    &&& t.inputs.len() == t.input_count.spec_value()
    &&& t.outputs.len() == t.output_count.spec_value()
    &&& t.transaction_id.len() == 32
    &&& forall|i: int| 0 <= i < t.inputs.len() ==> (#[trigger] t.inputs[i]).txid.len() == 32
    &&& forall|i: int|
        0 <= i < t.inputs.len() ==> (#[trigger] t.inputs[i]).script_sig.len() <= u64::MAX
    &&& forall|i: int|
        0 <= i < t.outputs.len() ==> (#[trigger] t.outputs[i]).script_pub_key.len() <= u64::MAX
}

} // verus!
