//! Canonical encoding, signing payloads and identifiers for ledger transactions.
//!
//! The byte layouts are stated as spec functions in [`protocol`], and every
//! encoder and decoder is proved to produce or accept exactly those layouts.

pub mod codec;
pub mod hexutil;
pub mod model;
pub mod protocol;
