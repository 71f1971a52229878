use rust_bitcoin_tx_parser::model::CompactSize;
use sha2::{Digest, Sha256};
use rust_bitcoin_tx_parser::reader::{
    read_4_bytes, read_8_bytes, read_compact_size, read_script, read_transaction,
};
use rust_bitcoin_tx_parser::tx::decode;
use rust_bitcoin_tx_parser::writer::{encode_compact_size, serialize_transaction};
use rust_bitcoin_tx_parser::{decode_raw_transaction, DecodeField, RawTransaction, TxError};

#[test]
fn test_reading_compact_size() {
    // read the next 2 bytes after marker to determine size
    let bytes = hex::decode("fdb505").unwrap();
    let expected_bytes = <[u8; 2]>::try_from(hex::decode("b505").unwrap().as_slice()).unwrap();
    let expected_num = u16::from_le_bytes(expected_bytes) as u64;
    let mut pos = 0usize;
    let num = read_compact_size(&bytes, &mut pos, DecodeField::InputCount)
        .unwrap()
        .value();
    assert_eq!(num, expected_num);

    // the marker is the size
    let bytes = hex::decode("fab505").unwrap();
    let expected_bytes = <[u8; 1]>::try_from(hex::decode("fa").unwrap().as_slice()).unwrap();
    let expected_num = u8::from_le_bytes(expected_bytes) as u64;
    let mut pos = 0usize;
    let num = read_compact_size(&bytes, &mut pos, DecodeField::InputCount)
        .unwrap()
        .value();
    assert_eq!(num, expected_num);

    // read the next 4 bytes after marker to determine size
    let bytes = hex::decode("feb505aef8").unwrap();
    let expected_bytes = <[u8; 4]>::try_from(hex::decode("b505aef8").unwrap().as_slice()).unwrap();
    let expected_num = u32::from_le_bytes(expected_bytes) as u64;
    let mut pos = 0usize;
    let num = read_compact_size(&bytes, &mut pos, DecodeField::InputCount)
        .unwrap()
        .value();
    assert_eq!(num, expected_num);
}

#[test]
fn compact_size_encode_decode_all_widths() {
    let cases: [(u64, usize); 8] = [
        (0, 1),
        (0xFC, 1),
        (0xFD, 3),
        (0xFFFF, 3),
        (0x10000, 5),
        (0xFFFFFFFF, 5),
        (0x100000000, 9),
        (u64::MAX, 9),
    ];
    for (n, width) in cases {
        let enc = encode_compact_size(n);
        assert_eq!(enc.len(), width);
        let mut pos = 0usize;
        let decoded = read_compact_size(&enc, &mut pos, DecodeField::InputCount).unwrap();
        assert_eq!(decoded.value(), n);
        assert_eq!(pos, enc.len());
    }
}

#[test]
fn compact_size_exact_encodings() {
    assert_eq!(encode_compact_size(0xFC), vec![0xFC]);
    assert_eq!(encode_compact_size(0xFD), vec![0xFD, 0xFD, 0x00]);
    assert_eq!(encode_compact_size(0x0102), vec![0xFD, 0x02, 0x01]);
    assert_eq!(encode_compact_size(0x01020304), vec![0xFE, 0x04, 0x03, 0x02, 0x01]);
    assert_eq!(
        encode_compact_size(0x0102030405060708),
        vec![0xFF, 0x08, 0x07, 0x06, 0x05, 0x04, 0x03, 0x02, 0x01]
    );
}

#[test]
fn read_4_bytes_little_endian() {
    let bytes = vec![0x78, 0x56, 0x34, 0x12];
    let mut pos = 0usize;
    let v = read_4_bytes(&bytes, &mut pos, DecodeField::Version).unwrap();
    assert_eq!(v, 0x12345678);
    assert_eq!(pos, 4);
}

#[test]
fn read_8_bytes_little_endian() {
    let bytes = vec![0xEF, 0xCD, 0xAB, 0x89, 0x67, 0x45, 0x23, 0x01];
    let mut pos = 0usize;
    let v = read_8_bytes(&bytes, &mut pos, DecodeField::Amount).unwrap();
    assert_eq!(v, 0x0123456789ABCDEF);
    assert_eq!(pos, 8);
}

#[test]
fn read_transaction_reverses_byte_order() {
    let mut bytes: Vec<u8> = (0u8..32).collect();
    bytes.push(0xAA); // a byte beyond the field, never read
    let mut pos = 0usize;
    let txid = read_transaction(&bytes, &mut pos).unwrap();
    let expected: Vec<u8> = (0u8..32).rev().collect();
    assert_eq!(txid, expected);
    assert_eq!(pos, 32);
}

#[test]
fn read_script_reads_exactly_its_length() {
    // length 3, then 3 script bytes, then a byte that is not part of it
    let bytes = vec![0x03, 0xAA, 0xBB, 0xCC, 0xDD];
    let mut pos = 0usize;
    let script = read_script(&bytes, &mut pos).unwrap();
    assert_eq!(script, vec![0xAA, 0xBB, 0xCC]);
    assert_eq!(pos, 4);
}

/// A synthetic one-input, one-output transaction, as a hexadecimal string.
/// `script_len` drives the unlocking script's length prefix through any
/// CompactSize width.
fn synthetic_tx_hex(script_len: usize) -> String {
    let mut h = String::new();
    h.push_str("01000000"); // version 1
    h.push_str("01"); // one input
    // txid: wire bytes 0x00..0x1f
    for b in 0u8..32 {
        h.push_str(&format!("{:02x}", b));
    }
    h.push_str("05000000"); // vout 5
    h.push_str(&hex::encode(encode_compact_size(script_len as u64)));
    for i in 0..script_len {
        h.push_str(&format!("{:02x}", (i % 256) as u8));
    }
    h.push_str("feffffff"); // sequence 0xfffffffe
    h.push_str("01"); // one output
    h.push_str("00e1f50500000000"); // amount 100_000_000
    h.push_str("03aabbcc"); // locking script of 3 bytes
    h.push_str("11220000"); // locktime 0x2211
    h
}

#[test]
fn decode_synthetic_transaction_fields() {
    let hex_text = synthetic_tx_hex(4);
    let bytes = hex::decode(&hex_text).unwrap();
    let tx = decode(&bytes).unwrap();
    assert_eq!(tx.version, 1);
    assert_eq!(tx.input_count.value(), 1);
    assert_eq!(tx.inputs.len(), 1);
    let expected_txid: Vec<u8> = (0u8..32).rev().collect();
    assert_eq!(tx.inputs[0].txid, expected_txid);
    assert_eq!(tx.inputs[0].vout, 5);
    assert_eq!(tx.inputs[0].script_sig, vec![0x00, 0x01, 0x02, 0x03]);
    assert_eq!(tx.inputs[0].sequence, 0xfffffffe);
    assert_eq!(tx.output_count.value(), 1);
    assert_eq!(tx.outputs.len(), 1);
    assert_eq!(tx.outputs[0].amount, 100_000_000);
    assert_eq!(tx.outputs[0].script_pub_key, vec![0xaa, 0xbb, 0xcc]);
    assert_eq!(tx.locktime, 0x2211);
}

#[test]
fn identifier_is_reversed_double_sha256() {
    let bytes = hex::decode(synthetic_tx_hex(4)).unwrap();
    let tx = decode(&bytes).unwrap();
    let first = Sha256::digest(&bytes);
    let second = Sha256::digest(first);
    let mut expected: Vec<u8> = second.to_vec();
    expected.reverse();
    assert_eq!(tx.transaction_id, expected);
    let hex_id = tx.transaction_id_hex();
    assert_eq!(hex_id, hex::encode(&expected));
    assert_eq!(hex_id.len(), 64);
    assert_eq!(hex_id, hex_id.to_lowercase());
}

#[test]
fn identifier_independent_of_script_rendering() {
    // the identifier depends on the raw bytes alone; reading the script as
    // hex text instead of raw bytes must not change it
    let bytes = hex::decode(synthetic_tx_hex(7)).unwrap();
    let tx1 = decode(&bytes).unwrap();
    let _rendered = tx1.inputs[0].script_sig_hex();
    let tx2 = decode(&bytes).unwrap();
    assert_eq!(tx1.transaction_id, tx2.transaction_id);
}

#[test]
fn reserialize_reproduces_original_buffer() {
    for script_len in [0usize, 1, 4, 300, 70000] {
        let bytes = hex::decode(synthetic_tx_hex(script_len)).unwrap();
        let tx = decode(&bytes).unwrap();
        let again = serialize_transaction(&tx);
        assert_eq!(again, bytes);
    }
}

#[test]
fn reserialize_keeps_count_width_class() {
    // input count 1 encoded non-canonically as fd0100: the width class is
    // kept in the decoded record, so the bytes come back unchanged
    let canonical = synthetic_tx_hex(4);
    let wide = canonical.replacen("0100000001", "01000000fd0100", 1);
    let bytes = hex::decode(&wide).unwrap();
    let tx = decode(&bytes).unwrap();
    assert_eq!(tx.input_count, CompactSize::Short(1));
    assert_eq!(tx.input_count.value(), 1);
    let again = serialize_transaction(&tx);
    assert_eq!(again, bytes);
}

#[test]
fn truncated_mid_sequence_fails() {
    // cut into the sequence number of the only input
    let full = hex::decode(synthetic_tx_hex(4)).unwrap();
    // version(4) + count(1) + txid(32) + vout(4) + len(1) + script(4) = 46,
    // sequence occupies bytes 46..50: keep only half of it
    let truncated = full[..48].to_vec();
    let r = decode(&truncated);
    assert_eq!(r.unwrap_err(), TxError::UnexpectedEndOfInput(DecodeField::Sequence));
}

#[test]
fn truncated_mid_locktime_fails() {
    let full = hex::decode(synthetic_tx_hex(4)).unwrap();
    let truncated = full[..full.len() - 1].to_vec();
    let r = decode(&truncated);
    assert_eq!(r.unwrap_err(), TxError::UnexpectedEndOfInput(DecodeField::Locktime));
}

#[test]
fn truncated_mid_txid_fails() {
    let full = hex::decode(synthetic_tx_hex(4)).unwrap();
    let truncated = full[..20].to_vec();
    let r = decode(&truncated);
    assert_eq!(r.unwrap_err(), TxError::UnexpectedEndOfInput(DecodeField::Txid));
}

#[test]
fn minimal_empty_transaction_decodes() {
    // version 1, zero inputs, zero outputs, locktime 0: ten bytes, the
    // grammar consumes them all
    let raw = RawTransaction { hex: String::from("01000000000000000000") };
    let tx = decode_raw_transaction(&raw).unwrap();
    assert_eq!(tx.version, 1);
    assert_eq!(tx.input_count.value(), 0);
    assert_eq!(tx.inputs.len(), 0);
    assert_eq!(tx.output_count.value(), 0);
    assert_eq!(tx.outputs.len(), 0);
    assert_eq!(tx.locktime, 0);
}

#[test]
fn missing_output_count_fails() {
    // version 1, zero inputs, then nothing: the output-count read has no
    // byte left
    let raw = RawTransaction { hex: String::from("0100000000") };
    let r = decode_raw_transaction(&raw);
    assert_eq!(r.unwrap_err(), TxError::UnexpectedEndOfInput(DecodeField::OutputCount));
}

#[test]
fn fd_marker_script_of_300_bytes() {
    let hex_text = synthetic_tx_hex(300);
    let bytes = hex::decode(&hex_text).unwrap();
    let tx = decode(&bytes).unwrap();
    let script = &tx.inputs[0].script_sig;
    assert_eq!(script.len(), 300);
    for (i, b) in script.iter().enumerate() {
        assert_eq!(*b, (i % 256) as u8);
    }
    // parsing resumed correctly at the sequence number after the script
    assert_eq!(tx.inputs[0].sequence, 0xfffffffe);
    assert_eq!(tx.outputs[0].amount, 100_000_000);
}

#[test]
fn decode_twice_is_identical() {
    let raw = RawTransaction { hex: synthetic_tx_hex(11) };
    let t1 = decode_raw_transaction(&raw).unwrap();
    let t2 = decode_raw_transaction(&raw).unwrap();
    assert_eq!(t1.version, t2.version);
    assert_eq!(t1.input_count, t2.input_count);
    assert_eq!(t1.inputs.len(), t2.inputs.len());
    for (a, b) in t1.inputs.iter().zip(t2.inputs.iter()) {
        assert_eq!(a.txid, b.txid);
        assert_eq!(a.vout, b.vout);
        assert_eq!(a.script_sig, b.script_sig);
        assert_eq!(a.sequence, b.sequence);
    }
    assert_eq!(t1.output_count, t2.output_count);
    assert_eq!(t1.outputs.len(), t2.outputs.len());
    for (a, b) in t1.outputs.iter().zip(t2.outputs.iter()) {
        assert_eq!(a.amount, b.amount);
        assert_eq!(a.script_pub_key, b.script_pub_key);
    }
    assert_eq!(t1.locktime, t2.locktime);
    assert_eq!(t1.transaction_id, t2.transaction_id);
}

#[test]
fn invalid_hex_odd_length() {
    let raw = RawTransaction { hex: String::from("01000") };
    assert_eq!(decode_raw_transaction(&raw).unwrap_err(), TxError::InvalidHexInput);
}

#[test]
fn invalid_hex_bad_character() {
    let raw = RawTransaction { hex: String::from("01zz0000000000000000") };
    assert_eq!(decode_raw_transaction(&raw).unwrap_err(), TxError::InvalidHexInput);
}

#[test]
fn hex_decoding_reads_digit_pairs() {
    // through the public entry: the version field comes from the first
    // four decoded bytes, so a wrong hex decoding would show up here
    let raw = RawTransaction { hex: String::from("0a000000000000000000") };
    let tx = decode_raw_transaction(&raw).unwrap();
    assert_eq!(tx.version, 10);
}

#[test]
fn trailing_bytes_fail() {
    let mut hex_text = synthetic_tx_hex(4);
    hex_text.push_str("00");
    let raw = RawTransaction { hex: hex_text };
    assert_eq!(decode_raw_transaction(&raw).unwrap_err(), TxError::TrailingBytes);
}

#[test]
fn script_hex_rendering() {
    let bytes = hex::decode(synthetic_tx_hex(4)).unwrap();
    let tx = decode(&bytes).unwrap();
    assert_eq!(tx.inputs[0].script_sig_hex(), "00010203");
    assert_eq!(tx.outputs[0].script_pub_key_hex(), "aabbcc");
    let expected_txid_hex = hex::encode((0u8..32).rev().collect::<Vec<u8>>());
    assert_eq!(tx.inputs[0].txid_hex(), expected_txid_hex);
}
