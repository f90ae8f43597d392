use vstd::prelude::*;
use vstd::string::StringSliceAdditionalSpecFns;
use crate::base64;
use crate::codec;
use crate::decode;
use crate::codec::countable;
use crate::codec::ser_envelope;
use crate::codec::ser_payload;
use crate::decode::parse_envelope;
use crate::error::Error;
use crate::operations::no_zero_limits;
use crate::roundtrip::envelope_canonical;
use crate::roundtrip::lemma_envelope_round_trip;
use crate::transaction::EnvelopeView;
use crate::transaction::Transaction;
use crate::transaction::TransactionEnvelope;

verus! {

/// The envelope that a base64 text stands for, or the reason why it stands
/// for none: the text is no canonical base64, or its bytes are no
/// canonical encoding.
pub open spec fn envelope_of_text(text: Seq<u8>) -> Result<EnvelopeView, Error> {
    match base64::decoded(text) {
        None => Err(Error::InvalidBase64),
        Some(bytes) => match parse_envelope(bytes) {
            None => Err(Error::MalformedWire),
            Some(e) => Ok(e),
        },
    }
}

impl Transaction {
    /// The bytes that a signer of this transaction on the network
    /// `network_id` signs: the same for the same transaction and network,
    /// whenever and wherever they are computed. Fails with
    /// `InvalidNetworkId` unless the identifier has 32 bytes, else with
    /// `TooManyItems` when a 32-bit count cannot announce the operations.
    pub fn signature_payload(&self, network_id: &[u8]) -> (r: Result<Vec<u8>, Error>)
        ensures
            network_id@.len() != 32 ==> r == Err::<Vec<u8>, Error>(Error::InvalidNetworkId),
            network_id@.len() == 32 && self@.operations.len() > u32::MAX ==> r == Err::<
                Vec<u8>,
                Error,
            >(Error::TooManyItems),
            network_id@.len() == 32 && self@.operations.len() <= u32::MAX ==> r is Ok && r->Ok_0@
                == ser_payload(network_id@, self@),
    {
        codec::encode_payload(network_id, self)
    }
}

impl TransactionEnvelope {
    /// The canonical bytes of the envelope, or `TooManyItems` when a 32-bit
    /// count cannot announce its operations or its signatures. Decoding
    /// the bytes gives the envelope back, unless an operation has an
    /// explicit limit of 0.
    pub fn xdr_bytes(&self) -> (r: Result<Vec<u8>, Error>)
        ensures
            countable(self@) ==> r is Ok && r->Ok_0@ == ser_envelope(self@),
            !countable(self@) ==> r == Err::<Vec<u8>, Error>(Error::TooManyItems),
            countable(self@) && no_zero_limits(self@.tx.operations) ==> parse_envelope(r->Ok_0@)
                == Some(self@),
    {
        let r = codec::encode_envelope(self);
        proof {
            if countable(self@) && no_zero_limits(self@.tx.operations) {
                lemma_envelope_round_trip(self@);
            }
        }
        r
    }

    /// The envelope that `bytes` are the canonical encoding of, or
    /// `MalformedWire` where they are that of none. Encoding the envelope
    /// gives the bytes back.
    pub fn from_xdr_bytes(bytes: &[u8]) -> (r: Result<TransactionEnvelope, Error>)
        ensures
            match parse_envelope(bytes@) {
                Some(e) => r is Ok && r->Ok_0@ == e,
                None => r == Err::<TransactionEnvelope, Error>(Error::MalformedWire),
            },
            r is Ok ==> ser_envelope(r->Ok_0@) == bytes@,
    {
        decode::decode_envelope(bytes)
    }

    /// The base64 text of the canonical bytes, as ASCII characters, or
    /// `TooManyItems` when a 32-bit count cannot announce the operations or
    /// the signatures. Reading the text gives the envelope back, unless an
    /// operation has an explicit limit of 0.
    pub fn xdr_base64(&self) -> (r: Result<Vec<u8>, Error>)
        ensures
            countable(self@) ==> r is Ok && r->Ok_0@ == base64::encoded(ser_envelope(self@)),
            !countable(self@) ==> r == Err::<Vec<u8>, Error>(Error::TooManyItems),
            countable(self@) && no_zero_limits(self@.tx.operations) ==> envelope_of_text(r->Ok_0@)
                == Ok::<EnvelopeView, Error>(self@),
    {
        match self.xdr_bytes() {
            Ok(bytes) => {
                proof {
                    base64::lemma_round_trip(bytes@);
                }
                Ok(base64::encode(bytes.as_slice()))
            },
            Err(e) => Err(e),
        }
    }

    /// The envelope that `text` stands for: `InvalidBase64` where the text
    /// is no canonical base64, `MalformedWire` where its bytes are the
    /// canonical encoding of no envelope. The text of the envelope is
    /// `text` again.
    pub fn from_xdr_base64(text: &str) -> (r: Result<TransactionEnvelope, Error>)
        ensures
            match envelope_of_text(text.spec_bytes()) {
                Ok(e) => r is Ok && r->Ok_0@ == e,
                Err(err) => r is Err && r->Err_0 == err,
            },
            r is Ok ==> base64::encoded(ser_envelope(r->Ok_0@)) == text.spec_bytes(),
    {
        match base64::decode(text.as_bytes()) {
            Ok(bytes) => TransactionEnvelope::from_xdr_bytes(bytes.as_slice()),
            Err(e) => Err(e),
        }
    }
}

/// Reading the base64 text of an envelope's canonical bytes gives the
/// envelope back, its operations and its signatures in their order.
pub proof fn lemma_text_round_trip(e: EnvelopeView)
    requires
        envelope_canonical(e),
    ensures
        envelope_of_text(base64::encoded(ser_envelope(e))) == Ok::<EnvelopeView, Error>(e),
{
    base64::lemma_round_trip(ser_envelope(e));
    lemma_envelope_round_trip(e);
}

} // verus!
