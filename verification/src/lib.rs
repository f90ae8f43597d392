//! Operations, transactions and signed envelopes of a ledger network:
//! validated builders, the mapping to wire structures, and the canonical
//! binary and textual encodings, each with a proved contract.

pub mod amount;
pub mod asset;
pub mod base64;
pub mod canonical;
pub mod codec;
pub mod crypto;
pub mod decode;
pub mod envelope;
pub mod error;
pub mod operations;
pub mod roundtrip;
pub mod transaction;
pub mod xdr;
