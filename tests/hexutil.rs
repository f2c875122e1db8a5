use catalyst_tx::hexutil::{build_entry, decode_hex, parse_chain_id, parse_tx_type, strip0x, HexError};
use catalyst_tx::model::{EntryAmount, TransactionType, TxError};

#[test]
fn strip0x_removes_only_a_leading_prefix() {
    assert_eq!(strip0x("0xabcd"), "abcd");
    assert_eq!(strip0x("abcd"), "abcd");
    assert_eq!(strip0x("0x"), "");
    assert_eq!(strip0x("x0ab"), "x0ab");
    assert_eq!(strip0x("0X12"), "0X12");
    assert_eq!(strip0x("0xé"), "é");
}

#[test]
fn decode_hex_reads_bytes() {
    assert_eq!(decode_hex::<4>("0xDEADbeef"), Ok([0xde, 0xad, 0xbe, 0xef]));
    assert_eq!(decode_hex::<2>("0a10"), Ok([0x0a, 0x10]));
    assert_eq!(decode_hex::<0>("0x"), Ok([]));
}

#[test]
fn decode_hex_rejects_bad_text() {
    assert_eq!(decode_hex::<2>("0xabc"), Err(HexError::InvalidHex));
    assert_eq!(decode_hex::<2>("zz00"), Err(HexError::InvalidHex));
    assert_eq!(decode_hex::<1>("é"), Err(HexError::InvalidHex));
}

#[test]
fn decode_hex_rejects_wrong_length() {
    assert_eq!(
        decode_hex::<32>("0x0102"),
        Err(HexError::WrongLength { expected: 32, got: 2 })
    );
}

#[test]
fn chain_id_parses_hex() {
    assert_eq!(parse_chain_id("0x1"), Ok(1));
    assert_eq!(parse_chain_id("ff"), Ok(255));
    assert_eq!(parse_chain_id("0xffffffffffffffff"), Ok(u64::MAX));
    assert_eq!(parse_chain_id("+10"), Ok(16));
}

#[test]
fn chain_id_rejects_bad_numbers() {
    assert_eq!(parse_chain_id("0x10000000000000000"), Err(HexError::InvalidNumber));
    assert_eq!(parse_chain_id("0x"), Err(HexError::InvalidNumber));
    assert_eq!(parse_chain_id("0xg1"), Err(HexError::InvalidNumber));
    assert_eq!(parse_chain_id("-1"), Err(HexError::InvalidNumber));
}

#[test]
fn tx_type_names() {
    assert_eq!(parse_tx_type("NonConfidentialTransfer"), Ok(TransactionType::NonConfidentialTransfer));
    assert_eq!(parse_tx_type("ConfidentialTransfer"), Err(TxError::Unsupported));
    assert_eq!(parse_tx_type(""), Err(TxError::Unsupported));
}

#[test]
fn entries_from_text() {
    let hex_key = format!("0x{}", "11".repeat(32));
    let e = build_entry(&hex_key, -5).unwrap();
    assert_eq!(e.public_key, [0x11u8; 32]);
    assert_eq!(e.amount, EntryAmount::NonConfidential(-5));
    assert_eq!(
        build_entry("0x11", 1),
        Err(HexError::WrongLength { expected: 32, got: 1 })
    );
}
