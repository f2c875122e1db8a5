use vstd::prelude::*;

verus! {

/// The semantic kind of a transaction.
#[derive(Clone, Copy, Debug, PartialEq, Eq, Structural)]
pub enum TransactionType {
    NonConfidentialTransfer,
}

/// The amount carried by one entry, by confidentiality mode.
#[derive(Clone, Copy, Debug, PartialEq, Eq, Structural)]
pub enum EntryAmount {
    NonConfidential(i64),
}

/// One participant leg of a transaction.
#[derive(Clone, Copy, Debug, PartialEq, Eq)]
pub struct TransactionEntry {
    pub public_key: [u8; 32],
    pub amount: EntryAmount,
}

/// The unsigned transaction body.
#[derive(Clone, Debug, PartialEq, Eq)]
pub struct TransactionCore {
    pub tx_type: TransactionType,
    pub entries: Vec<TransactionEntry>,
    pub nonce: u64,
    pub lock_time: u32,
    pub fees: u64,
    pub data: Vec<u8>,
}

/// An opaque aggregated signature, carried as bytes.
#[derive(Clone, Debug, PartialEq, Eq)]
pub struct AggregatedSignature(pub Vec<u8>);

/// A complete, signed transaction.
#[derive(Clone, Debug, PartialEq, Eq)]
pub struct Transaction {
    pub core: TransactionCore,
    pub signature: AggregatedSignature,
    pub timestamp: u64,
}

/// Errors of the transaction codec.
#[derive(Clone, Copy, Debug, PartialEq, Eq, Structural)]
pub enum TxError {
    /// Truncated input, a length prefix that does not fit, or trailing bytes.
    Malformed,
    /// An unknown version tag or discriminant.
    Unsupported,
    /// A length that the layout cannot represent.
    InvalidLength,
}

/// Mathematical model of an entry.
pub struct EntryView {
    pub public_key: Seq<u8>,
    pub amount: EntryAmount,
}

/// Mathematical model of a transaction core.
pub struct CoreView {
    pub tx_type: TransactionType,
    pub entries: Seq<EntryView>,
    pub nonce: u64,
    pub lock_time: u32,
    pub fees: u64,
    pub data: Seq<u8>,
}

/// Mathematical model of a signed transaction.
pub struct TxView {
    pub core: CoreView,
    pub signature: Seq<u8>,
    pub timestamp: u64,
}

impl View for TransactionEntry {
    type V = EntryView;

    open spec fn view(&self) -> EntryView {
        EntryView { public_key: self.public_key@, amount: self.amount }
    }
}

impl View for TransactionCore {
    type V = CoreView;

    open spec fn view(&self) -> CoreView {
        CoreView {
            tx_type: self.tx_type,
            entries: self.entries@.map_values(|e: TransactionEntry| e@),
            nonce: self.nonce,
            lock_time: self.lock_time,
            fees: self.fees,
            data: self.data@,
        }
    }
}

impl View for AggregatedSignature {
    type V = Seq<u8>;

    open spec fn view(&self) -> Seq<u8> {
        self.0@
    }
}

impl View for Transaction {
    type V = TxView;

    open spec fn view(&self) -> TxView {
        TxView { core: self.core@, signature: self.signature@, timestamp: self.timestamp }
    }
}

impl TxError {
    /// A short name of the error kind.
    pub fn name(&self) -> (r: String)
        ensures
            r@ == self.spec_name(),
    {
        match self {
            TxError::Malformed => String::from_str("malformed"),
            TxError::Unsupported => String::from_str("unsupported"),
            TxError::InvalidLength => String::from_str("invalid length"),
        }
    }

    pub open spec fn spec_name(&self) -> Seq<char> {
        match self {
            TxError::Malformed => "malformed"@,
            TxError::Unsupported => "unsupported"@,
            TxError::InvalidLength => "invalid length"@,
        }
    }
}

} // verus!
