use catalyst_tx::model::{
    AggregatedSignature, EntryAmount, Transaction, TransactionCore, TransactionEntry,
    TransactionType, TxError,
};
use catalyst_tx::protocol::{
    decode_wire_tx_v1, encode_wire_tx_v1, transaction_signing_payload_v1, tx_id_of_wire_v1,
    tx_id_preimage_v1, tx_id_v1,
};

fn bytes_of(hex_text: &str) -> Vec<u8> {
    hex::decode(hex_text).unwrap()
}

fn golden_core() -> TransactionCore {
    TransactionCore {
        tx_type: TransactionType::NonConfidentialTransfer,
        entries: vec![TransactionEntry {
            public_key: [0u8; 32],
            amount: EntryAmount::NonConfidential(100),
        }],
        nonce: 0,
        lock_time: 0,
        fees: 0,
        data: vec![],
    }
}

fn golden_tx() -> Transaction {
    Transaction {
        core: golden_core(),
        signature: AggregatedSignature(vec![0xab, 0xcd]),
        timestamp: 0,
    }
}

fn key(seed: u8) -> [u8; 32] {
    let mut k = [0u8; 32];
    for (i, b) in k.iter_mut().enumerate() {
        *b = seed.wrapping_add(i as u8);
    }
    k
}

fn rich_tx() -> Transaction {
    Transaction {
        core: TransactionCore {
            tx_type: TransactionType::NonConfidentialTransfer,
            entries: vec![
                TransactionEntry { public_key: key(1), amount: EntryAmount::NonConfidential(-250) },
                TransactionEntry { public_key: key(7), amount: EntryAmount::NonConfidential(i64::MAX) },
                TransactionEntry { public_key: key(9), amount: EntryAmount::NonConfidential(i64::MIN) },
            ],
            nonce: u64::MAX,
            lock_time: 0xdead_beef,
            fees: 12345,
            data: vec![1, 2, 3, 4, 5],
        },
        signature: AggregatedSignature(vec![9; 96]),
        timestamp: 1_700_000_000,
    }
}

const GOLDEN_PAYLOAD: &str = "0101000000000000000000000000000000000000000000000000000000000000000000000000000000000100000000000000000000000000000000000000000000000000000000000000000000000064000000000000000000000000000000000000000000000000000000000000000000000000000000";
const GOLDEN_WIRE: &str = "010001000000000000000000000000000000000000000000000000000000000000000000000000640000000000000000000000000000000000000000000000000000000000000002000000abcd0000000000000000";
const GOLDEN_ID: &str = "4d4a5e6e3e8cd79d4c6ad54701619ac92063708df06608fb26c8f90dcf7481a4";

#[test]
fn golden_signing_payload() {
    let p = transaction_signing_payload_v1(&golden_core(), 0, 1, [0u8; 32]).unwrap();
    assert_eq!(p, bytes_of(GOLDEN_PAYLOAD));
}

#[test]
fn golden_wire_encoding() {
    let w = encode_wire_tx_v1(&golden_tx()).unwrap();
    assert_eq!(w, bytes_of(GOLDEN_WIRE));
}

#[test]
fn golden_tx_id() {
    let id = tx_id_v1(&golden_tx()).unwrap();
    assert_eq!(id.to_vec(), bytes_of(GOLDEN_ID));
}

#[test]
fn id_preimage_is_domain_tag_then_wire() {
    let pre = tx_id_preimage_v1(&golden_tx()).unwrap();
    let mut expected = vec![0x49u8];
    expected.extend(bytes_of(GOLDEN_WIRE));
    assert_eq!(pre, expected);
}

#[test]
fn round_trip_golden() {
    let t = golden_tx();
    let w = encode_wire_tx_v1(&t).unwrap();
    assert_eq!(decode_wire_tx_v1(&w), Ok(t));
}

#[test]
fn round_trip_many_entries_and_extremes() {
    let t = rich_tx();
    let w = encode_wire_tx_v1(&t).unwrap();
    assert_eq!(w.len(), 1 + 1 + 4 + 3 * 41 + 8 + 4 + 8 + 4 + 5 + 4 + 96 + 8);
    assert_eq!(decode_wire_tx_v1(&w), Ok(t));
}

#[test]
fn round_trip_empty_entries_and_data() {
    let mut t = golden_tx();
    t.core.entries.clear();
    t.core.data.clear();
    t.signature = AggregatedSignature(vec![]);
    let w = encode_wire_tx_v1(&t).unwrap();
    assert_eq!(w.len(), 1 + 1 + 4 + 8 + 4 + 8 + 4 + 4 + 8);
    assert_eq!(decode_wire_tx_v1(&w), Ok(t));
}

#[test]
fn encodings_are_deterministic() {
    let t = rich_tx();
    assert_eq!(tx_id_v1(&t), tx_id_v1(&t.clone()));
    assert_eq!(encode_wire_tx_v1(&t), encode_wire_tx_v1(&t));
    let a = transaction_signing_payload_v1(&t.core, t.timestamp, 7, key(3));
    let b = transaction_signing_payload_v1(&t.core, t.timestamp, 7, key(3));
    assert_eq!(a, b);
}

#[test]
fn chain_binding_separates_payloads() {
    let core = rich_tx().core;
    let base = transaction_signing_payload_v1(&core, 5, 1, [0u8; 32]).unwrap();
    let other_chain = transaction_signing_payload_v1(&core, 5, 2, [0u8; 32]).unwrap();
    let mut g = [0u8; 32];
    g[31] = 1;
    let other_genesis = transaction_signing_payload_v1(&core, 5, 1, g).unwrap();
    assert_ne!(base, other_chain);
    assert_ne!(base, other_genesis);
    assert_ne!(other_chain, other_genesis);
}

#[test]
fn single_byte_flips_change_the_id() {
    let t = rich_tx();
    let id = tx_id_v1(&t).unwrap();
    let mut a = t.clone();
    a.core.data[2] ^= 0x01;
    assert_ne!(tx_id_v1(&a).unwrap(), id);
    let mut b = t.clone();
    b.core.entries[1].public_key[17] ^= 0x80;
    assert_ne!(tx_id_v1(&b).unwrap(), id);
    let mut c = t.clone();
    c.signature.0[95] ^= 0xff;
    assert_ne!(tx_id_v1(&c).unwrap(), id);
    let mut d = t.clone();
    d.timestamp += 1;
    assert_ne!(tx_id_v1(&d).unwrap(), id);
}

#[test]
fn every_truncation_is_malformed() {
    let w = encode_wire_tx_v1(&rich_tx()).unwrap();
    for k in 0..w.len() {
        assert_eq!(decode_wire_tx_v1(&w[..k]), Err(TxError::Malformed), "cut at {}", k);
    }
}

#[test]
fn trailing_byte_is_malformed() {
    let mut w = encode_wire_tx_v1(&golden_tx()).unwrap();
    w.push(0);
    assert_eq!(decode_wire_tx_v1(&w), Err(TxError::Malformed));
}

#[test]
fn unknown_version_is_unsupported() {
    let mut w = encode_wire_tx_v1(&golden_tx()).unwrap();
    w[0] = 2;
    assert_eq!(decode_wire_tx_v1(&w), Err(TxError::Unsupported));
    assert_eq!(decode_wire_tx_v1(&[0u8]), Err(TxError::Unsupported));
}

#[test]
fn unknown_tx_type_is_unsupported() {
    let mut w = encode_wire_tx_v1(&golden_tx()).unwrap();
    w[1] = 7;
    assert_eq!(decode_wire_tx_v1(&w), Err(TxError::Unsupported));
}

#[test]
fn unknown_amount_discriminant_is_unsupported() {
    let mut w = encode_wire_tx_v1(&golden_tx()).unwrap();
    w[6 + 32] = 1;
    assert_eq!(decode_wire_tx_v1(&w), Err(TxError::Unsupported));
}

#[test]
fn empty_buffer_is_malformed() {
    assert_eq!(decode_wire_tx_v1(&[]), Err(TxError::Malformed));
}

#[test]
fn largest_data_prefix_needs_all_its_bytes() {
    let mut t = golden_tx();
    t.core.entries.clear();
    let w = encode_wire_tx_v1(&t).unwrap();
    // version, type, entry count, nonce, lock time, fees: then the data length
    let at = 1 + 1 + 4 + 8 + 4 + 8;
    let mut cut = w[..at].to_vec();
    cut.extend_from_slice(&u32::MAX.to_le_bytes());
    cut.extend_from_slice(&[0u8; 64]);
    assert_eq!(decode_wire_tx_v1(&cut), Err(TxError::Malformed));
}

#[test]
fn data_prefix_reads_exactly_its_length() {
    let mut t = golden_tx();
    t.core.data = vec![0x5a; 300];
    let w = encode_wire_tx_v1(&t).unwrap();
    let back = decode_wire_tx_v1(&w).unwrap();
    assert_eq!(back.core.data.len(), 300);
    assert_eq!(back, t);
}

#[test]
fn error_names() {
    assert_eq!(TxError::Malformed.name(), "malformed");
    assert_eq!(TxError::Unsupported.name(), "unsupported");
    assert_eq!(TxError::InvalidLength.name(), "invalid length");
}

#[test]
fn id_from_wire_matches_id_from_transaction() {
    let t = rich_tx();
    let w = encode_wire_tx_v1(&t).unwrap();
    assert_eq!(tx_id_of_wire_v1(&w), tx_id_v1(&t).unwrap());
    assert_eq!(tx_id_of_wire_v1(&bytes_of(GOLDEN_WIRE)).to_vec(), bytes_of(GOLDEN_ID));
}
