//! Text forms of the inputs: `0x`-prefixed hexadecimal byte strings and
//! numbers, and the names of transaction types.
use crate::model::{EntryAmount, TransactionEntry, TransactionType, TxError};
use vstd::prelude::*;
use vstd::string::StrSliceExecFns;

verus! {

/// Errors of reading hexadecimal text.
#[derive(Clone, Copy, Debug, PartialEq, Eq, Structural)]
pub enum HexError {
    /// Not an even number of hexadecimal digits.
    InvalidHex,
    /// Valid hexadecimal, but not the number of bytes expected.
    WrongLength { expected: usize, got: usize },
    /// Not a hexadecimal number that fits in 64 bits.
    InvalidNumber,
}

#[verifier::external_type_specification]
#[verifier::external_body]
pub struct ExFromHexError(hex::FromHexError);

pub open spec fn is_hex_digit(c: char) -> bool {
    ('0' <= c && c <= '9') || ('a' <= c && c <= 'f') || ('A' <= c && c <= 'F')
}

pub open spec fn hex_digit_value(c: char) -> nat {
    if '0' <= c && c <= '9' {
        (c as u32 - '0' as u32) as nat
    } else if 'a' <= c && c <= 'f' {
        (c as u32 - 'a' as u32 + 10) as nat
    } else {
        (c as u32 - 'A' as u32 + 10) as nat
    }
}

/// An even number of hexadecimal digits.
pub open spec fn is_hex_bytes(s: Seq<char>) -> bool {
    s.len() % 2 == 0 && forall|i: int| 0 <= i < s.len() ==> is_hex_digit(#[trigger] s[i])
}

/// The bytes that pairs of hexadecimal digits stand for, high digit first.
pub open spec fn hex_bytes(s: Seq<char>) -> Seq<u8> {
    Seq::new(
        s.len() / 2,
        |i: int| (hex_digit_value(s[2 * i]) * 16 + hex_digit_value(s[2 * i + 1])) as u8,
    )
}

/// The value of a run of hexadecimal digits, most significant first.
pub open spec fn hex_number(s: Seq<char>) -> nat
    decreases s.len(),
{
    if s.len() == 0 {
        0
    } else {
        hex_number(s.drop_last()) * 16 + hex_digit_value(s.last())
    }
}

/// The digits of a number text, after an optional `+`.
pub open spec fn unsigned_digits(s: Seq<char>) -> Seq<char> {
    if s.len() > 0 && s[0] == '+' {
        s.drop_first()
    } else {
        s
    }
}

/// A text that `u64::from_str_radix(_, 16)` accepts.
pub open spec fn is_hex_u64(s: Seq<char>) -> bool {
    let d = unsigned_digits(s);
    &&& d.len() > 0
    &&& forall|i: int| 0 <= i < d.len() ==> is_hex_digit(#[trigger] d[i])
    &&& hex_number(d) <= u64::MAX
}

/// `s` without a leading `0x`, if it has one.
pub open spec fn without_0x(s: Seq<char>) -> Seq<char> {
    if s.len() >= 2 && s[0] == '0' && s[1] == 'x' {
        s.subrange(2, s.len() as int)
    } else {
        s
    }
}

/// Relies on `hex::decode`: it accepts exactly an even number of digits
/// `0-9a-fA-F`, and gives one byte per pair, high digit first.
#[verifier::external_body]
fn hex_decode(s: &str) -> (r: Result<Vec<u8>, hex::FromHexError>)
    ensures
        r is Ok <==> is_hex_bytes(s@),
        r matches Ok(b) ==> b@ == hex_bytes(s@),
{
    hex::decode(s)
}

/// Relies on `u64::from_str_radix` in base 16: an optional `+`, then one or
/// more hexadecimal digits whose value fits in 64 bits.
#[verifier::external_body]
fn parse_u64_radix16(s: &str) -> (r: Option<u64>)
    ensures
        r is Some <==> is_hex_u64(s@),
        r matches Some(v) ==> v == hex_number(unsigned_digits(s@)),
{
    u64::from_str_radix(s, 16).ok()
}

/// `s` without a leading `0x`, if it has one.
pub fn strip0x(s: &str) -> (r: &str)
    ensures
        r@ == without_0x(s@),
{
    let n = s.unicode_len();
    if n >= 2 && s.get_char(0) == '0' && s.get_char(1) == 'x' {
        s.substring_char(2, n)
    } else {
        s
    }
}

/// Reads `N` bytes from hexadecimal text, with or without `0x`.
pub fn decode_hex<const N: usize>(hex_str: &str) -> (r: Result<[u8; N], HexError>)
    ensures
        r is Ok <==> is_hex_bytes(without_0x(hex_str@)) && without_0x(hex_str@).len() == 2 * N,
        r matches Ok(a) ==> a@ == hex_bytes(without_0x(hex_str@)),
        r == Err::<[u8; N], HexError>(HexError::InvalidHex) <==> !is_hex_bytes(
            without_0x(hex_str@),
        ),
        r matches Err(HexError::WrongLength { expected, got }) ==> expected == N && got
            == without_0x(hex_str@).len() / 2,
        !(r matches Err(HexError::InvalidNumber)),
{
    let bytes = match hex_decode(strip0x(hex_str)) {
        Ok(b) => b,
        Err(_) => {
            return Err(HexError::InvalidHex);
        },
    };
    if bytes.len() != N {
        return Err(HexError::WrongLength { expected: N, got: bytes.len() });
    }
    let mut out = [0u8; N];
    let mut i: usize = 0;
    while i < N
        invariant
            i <= N,
            bytes@.len() == N,
            forall|k: int| 0 <= k < i ==> out@[k] == bytes@[k],
        decreases N - i,
    {
        out[i] = bytes[i];
        i = i + 1;
    }
    assert(out@ =~= bytes@);
    Ok(out)
}

/// Reads a chain id: a hexadecimal number of at most 64 bits, with or
/// without `0x`.
pub fn parse_chain_id(hex_str: &str) -> (r: Result<u64, HexError>)
    ensures
        r is Ok <==> is_hex_u64(without_0x(hex_str@)),
        r matches Ok(v) ==> v == hex_number(unsigned_digits(without_0x(hex_str@))),
        r matches Err(e) ==> e == HexError::InvalidNumber,
{
    match parse_u64_radix16(strip0x(hex_str)) {
        Some(v) => Ok(v),
        None => Err(HexError::InvalidNumber),
    }
}

fn str_equal(a: &str, b: &str) -> (r: bool)
    ensures
        r == (a@ == b@),
{
    let n = a.unicode_len();
    if n != b.unicode_len() {
        return false;
    }
    let mut i: usize = 0;
    while i < n
        invariant
            i <= n,
            n == a@.len(),
            n == b@.len(),
            a@.subrange(0, i as int) == b@.subrange(0, i as int),
        decreases n - i,
    {
        if a.get_char(i) != b.get_char(i) {
            return false;
        }
        assert(a@.subrange(0, i + 1) =~= a@.subrange(0, i as int).push(a@[i as int]));
        assert(b@.subrange(0, i + 1) =~= b@.subrange(0, i as int).push(b@[i as int]));
        i = i + 1;
    }
    assert(a@ =~= a@.subrange(0, n as int));
    assert(b@ =~= b@.subrange(0, n as int));
    true
}

/// The name of each transaction type.
pub open spec fn tx_type_name(t: TransactionType) -> Seq<char> {
    match t {
        TransactionType::NonConfidentialTransfer => "NonConfidentialTransfer"@,
    }
}

/// The transaction type of a name; an unknown name is `Unsupported`.
pub fn parse_tx_type(name: &str) -> (r: Result<TransactionType, TxError>)
    ensures
        r == (if name@ == tx_type_name(TransactionType::NonConfidentialTransfer) {
            Ok::<TransactionType, TxError>(TransactionType::NonConfidentialTransfer)
        } else {
            Err::<TransactionType, TxError>(TxError::Unsupported)
        }),
        r matches Ok(t) ==> tx_type_name(t) == name@,
        r is Err <==> (forall|t: TransactionType| tx_type_name(t) != name@),
{
    if str_equal(name, "NonConfidentialTransfer") {
        Ok(TransactionType::NonConfidentialTransfer)
    } else {
        assert forall|t: TransactionType| tx_type_name(t) != name@ by {
            match t {
                TransactionType::NonConfidentialTransfer => {},
            }
        }
        Err(TxError::Unsupported)
    }
}

/// A non-confidential entry from its key in hexadecimal and its amount.
pub fn build_entry(public_key_hex: &str, amount: i64) -> (r: Result<TransactionEntry, HexError>)
    ensures
        r is Ok <==> is_hex_bytes(without_0x(public_key_hex@)) && without_0x(public_key_hex@).len()
            == 64,
        r matches Ok(e) ==> e.public_key@ == hex_bytes(without_0x(public_key_hex@)) && e.amount
            == EntryAmount::NonConfidential(amount),
{
    let public_key = decode_hex::<32>(public_key_hex)?;
    Ok(TransactionEntry { public_key, amount: EntryAmount::NonConfidential(amount) })
}

} // verus!
