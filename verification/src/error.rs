use vstd::prelude::*;

verus! {

/// Everything that can go wrong while building, assembling, encoding or
/// decoding.
#[derive(Debug, Clone, Copy, PartialEq, Eq, Structural)]
pub enum Error {
    /// A supplied amount cannot be represented as a 64-bit quantity.
    InvalidStroopsAmount,
    /// A trust-line change was built without its asset.
    MissingChangeTrustAsset,
    /// A trust-line change was built with a limit below zero.
    NegativeChangeTrustLimit,
    /// A key was not made of exactly 32 bytes.
    InvalidKeyLength,
    /// An asset code was empty, longer than 12 bytes or not alphanumeric.
    InvalidAssetCode,
    /// A signature was not made of exactly 64 bytes, or its hint not of 4.
    InvalidSignature,
    /// A network identifier was not made of exactly 32 bytes.
    InvalidNetworkId,
    /// A transaction was finalized without any operation.
    EmptyTransaction,
    /// The fee of a transaction does not fit its 32-bit wire field.
    FeeOverflow,
    /// More operations or signatures than a 32-bit count can announce.
    TooManyItems,
    /// The bytes are not the canonical encoding of any envelope.
    MalformedWire,
    /// The text is not the canonical base64 form of any byte string.
    InvalidBase64,
}

} // verus!
