use vstd::prelude::*;
use crate::xdr;
use crate::asset::Asset;
use crate::asset::AssetView;
use crate::asset::asset_wf;
use crate::crypto::AccountView;
use crate::crypto::MuxedAccount;
use crate::crypto::account_option_view;
use crate::crypto::account_option_wf;
use crate::crypto::account_wf;
use crate::error::Error;
use crate::operations::Operation;
use crate::operations::OperationView;
use crate::operations::operation_to_wire;
use crate::operations::operation_wf;
use crate::transaction::DecoratedSignature;
use crate::transaction::EnvelopeView;
use crate::transaction::SignatureView;
use crate::transaction::Transaction;
use crate::transaction::TransactionEnvelope;
use crate::transaction::TransactionView;
use crate::transaction::envelope_wf;
use crate::transaction::operations_view;
use crate::transaction::signature_wf;
use crate::transaction::signatures_view;
use crate::transaction::transaction_wf;
use crate::xdr::OperationBodyView;
use crate::xdr::WireOperationView;
use crate::xdr::wire_operation_wf;

verus! {

/// The union tag of a key or of an address that is a plain key.
pub const TAG_KEY: u32 = 0;

/// The union tag of an address with a sub-account number.
pub const TAG_MUXED: u32 = 0x100;

/// The union tag of the native asset.
pub const TAG_NATIVE: u32 = 0;

/// The union tag of an asset with a code of up to 4 bytes.
pub const TAG_CODE4: u32 = 1;

/// The union tag of an asset with a code of 5 to 12 bytes.
pub const TAG_CODE12: u32 = 2;

/// The union tag of a trust-line change.
pub const TAG_CHANGE_TRUST: u32 = 6;

/// The union tag of an inflation operation.
pub const TAG_INFLATION: u32 = 9;

/// The union tag of an envelope that holds a transaction.
pub const TAG_ENVELOPE: u32 = 2;

/// The 4 bytes of a 32-bit number, highest first.
pub open spec fn ser_u32(v: u32) -> Seq<u8> {
    seq![
        (v / 0x100_0000) as u8,
        (v / 0x1_0000 % 0x100) as u8,
        (v / 0x100 % 0x100) as u8,
        (v % 0x100) as u8,
    ]
}

/// The 8 bytes of a 64-bit number, highest first.
pub open spec fn ser_u64(v: u64) -> Seq<u8> {
    ser_u32((v / 0x1_0000_0000) as u32) + ser_u32((v % 0x1_0000_0000) as u32)
}

/// The unsigned number with the bits of `v` in two's complement.
pub open spec fn i64_bits(v: i64) -> u64 {
    if v >= 0 {
        v as u64
    } else {
        (v + 0x1_0000_0000_0000_0000) as u64
    }
}

/// The 8 bytes of a signed 64-bit number, highest first.
pub open spec fn ser_i64(v: i64) -> Seq<u8> {
    ser_u64(i64_bits(v))
}

/// `n` bytes of padding.
pub open spec fn zeros(n: int) -> Seq<u8> {
    Seq::new(n as nat, |i: int| 0u8)
}

/// The bytes of an address.
pub open spec fn ser_account(a: AccountView) -> Seq<u8> {
    match a {
        AccountView::Ed25519(key) => ser_u32(TAG_KEY) + key,
        AccountView::Muxed(id, key) => ser_u32(TAG_MUXED) + ser_u64(id) + key,
    }
}

/// The bytes of an address that may be absent: a presence flag, then the
/// address where there is one.
pub open spec fn ser_account_option(a: Option<AccountView>) -> Seq<u8> {
    match a {
        None => ser_u32(0),
        Some(a) => ser_u32(1) + ser_account(a),
    }
}

/// The bytes of an asset: the code is padded to 4 bytes, or to 12 where it
/// is longer than 4, and the issuer's key follows.
pub open spec fn ser_asset(a: AssetView) -> Seq<u8> {
    match a {
        AssetView::Native => ser_u32(TAG_NATIVE),
        AssetView::Credit { code, issuer } => if code.len() <= 4 {
            ser_u32(TAG_CODE4) + code + zeros(4 - code.len()) + ser_u32(TAG_KEY) + issuer
        } else {
            ser_u32(TAG_CODE12) + code + zeros(12 - code.len()) + ser_u32(TAG_KEY) + issuer
        },
    }
}

/// The bytes of an operation's payload.
pub open spec fn ser_body(b: OperationBodyView) -> Seq<u8> {
    match b {
        OperationBodyView::ChangeTrust(c) => ser_u32(TAG_CHANGE_TRUST) + ser_asset(c.line)
            + ser_i64(c.limit),
        OperationBodyView::Inflation => ser_u32(TAG_INFLATION),
    }
}

/// The bytes of an operation's wire structure.
pub open spec fn ser_wire_operation(op: WireOperationView) -> Seq<u8> {
    ser_account_option(op.source_account) + ser_body(op.body)
}

/// The bytes of operations, one behind the other.
pub open spec fn ser_operations(ops: Seq<OperationView>) -> Seq<u8>
    decreases ops.len(),
{
    if ops.len() == 0 {
        Seq::empty()
    } else {
        ser_operations(ops.drop_last()) + ser_wire_operation(operation_to_wire(ops.last()))
    }
}

/// The bytes of the head of a transaction: source account, fee, sequence
/// number, no time bounds and no memo.
pub open spec fn ser_header(tx: TransactionView) -> Seq<u8> {
    ser_account(tx.source_account) + ser_u32(tx.fee) + ser_i64(tx.sequence) + ser_u32(0) + ser_u32(
        0,
    )
}

/// The bytes of a transaction: its head, the operations behind their
/// count, and no extension.
pub open spec fn ser_transaction(tx: TransactionView) -> Seq<u8> {
    ser_header(tx) + ser_u32(tx.operations.len() as u32) + ser_operations(tx.operations) + ser_u32(
        0,
    )
}

/// The bytes of a signature: the hint, then the signature behind its
/// length.
pub open spec fn ser_signature(s: SignatureView) -> Seq<u8> {
    s.hint + ser_u32(64) + s.signature
}

/// The bytes of signatures, one behind the other.
pub open spec fn ser_signatures(sigs: Seq<SignatureView>) -> Seq<u8>
    decreases sigs.len(),
{
    if sigs.len() == 0 {
        Seq::empty()
    } else {
        ser_signatures(sigs.drop_last()) + ser_signature(sigs.last())
    }
}

/// The bytes of an envelope: its tag, the transaction, and the signatures
/// behind their count.
pub open spec fn ser_envelope(e: EnvelopeView) -> Seq<u8> {
    ser_u32(TAG_ENVELOPE) + ser_transaction(e.tx) + ser_u32(e.signatures.len() as u32)
        + ser_signatures(e.signatures)
}

/// The bytes that a signer signs: the network's identifier, the envelope
/// tag and the transaction.
pub open spec fn ser_payload(network_id: Seq<u8>, tx: TransactionView) -> Seq<u8> {
    network_id + ser_u32(TAG_ENVELOPE) + ser_transaction(tx)
}

/// Appends the 4 bytes of `v`.
pub fn put_u32(out: &mut Vec<u8>, v: u32)
    ensures
        final(out)@ == old(out)@ + ser_u32(v),
{
    out.push((v / 0x100_0000) as u8);
    out.push((v / 0x1_0000 % 0x100) as u8);
    out.push((v / 0x100 % 0x100) as u8);
    out.push((v % 0x100) as u8);
    assert(out@ =~= old(out)@ + ser_u32(v));
}

/// Appends the 8 bytes of `v`.
pub fn put_u64(out: &mut Vec<u8>, v: u64)
    ensures
        final(out)@ == old(out)@ + ser_u64(v),
{
    put_u32(out, (v / 0x1_0000_0000) as u32);
    put_u32(out, (v % 0x1_0000_0000) as u32);
    assert(out@ =~= old(out)@ + ser_u64(v));
}

/// Appends the 8 bytes of `v`.
pub fn put_i64(out: &mut Vec<u8>, v: i64)
    ensures
        final(out)@ == old(out)@ + ser_i64(v),
{
    let bits: u64 = if v >= 0 {
        v as u64
    } else {
        (((v + 0x7fff_ffff_ffff_ffff) + 1) as u64) + 0x8000_0000_0000_0000u64
    };
    put_u64(out, bits);
}

/// Appends `n` bytes of padding.
pub fn put_zeros(out: &mut Vec<u8>, n: usize)
    ensures
        final(out)@ == old(out)@ + zeros(n as int),
{
    let mut i: usize = 0;
    while i < n
        invariant
            i <= n,
            out@ == old(out)@ + zeros(i as int),
        decreases n - i,
    {
        out.push(0u8);
        assert(out@ =~= old(out)@ + zeros(i + 1));
        i += 1;
    }
}

/// Appends `bytes` as they are.
pub fn put_bytes(out: &mut Vec<u8>, bytes: &[u8])
    ensures
        final(out)@ == old(out)@ + bytes@,
{
    let mut i: usize = 0;
    while i < bytes.len()
        invariant
            i <= bytes.len(),
            out@ == old(out)@ + bytes@.subrange(0, i as int),
        decreases bytes.len() - i,
    {
        out.push(bytes[i]);
        assert(out@ =~= old(out)@ + bytes@.subrange(0, i + 1));
        i += 1;
    }
    assert(bytes@.subrange(0, bytes@.len() as int) =~= bytes@);
}

/// Appends the bytes of an address.
pub fn put_account(out: &mut Vec<u8>, a: &MuxedAccount)
    ensures
        final(out)@ == old(out)@ + ser_account(a@),
        account_wf(a@),
{
    match a {
        MuxedAccount::Ed25519(key) => {
            put_u32(out, TAG_KEY);
            put_bytes(out, key.as_bytes().as_slice());
            assert(out@ =~= old(out)@ + ser_account(a@));
        },
        MuxedAccount::Muxed { id, key } => {
            put_u32(out, TAG_MUXED);
            put_u64(out, *id);
            put_bytes(out, key.as_bytes().as_slice());
            assert(out@ =~= old(out)@ + ser_account(a@));
        },
    }
}

/// Appends the bytes of an address that may be absent.
pub fn put_account_option(out: &mut Vec<u8>, a: &Option<MuxedAccount>)
    ensures
        final(out)@ == old(out)@ + ser_account_option(account_option_view(*a)),
        account_option_wf(account_option_view(*a)),
{
    match a {
        None => {
            put_u32(out, 0);
        },
        Some(a) => {
            put_u32(out, 1);
            put_account(out, a);
            assert(out@ =~= old(out)@ + (ser_u32(1) + ser_account(a@)));
        },
    }
}

/// Appends the bytes of an asset.
pub fn put_asset(out: &mut Vec<u8>, a: &Asset)
    ensures
        final(out)@ == old(out)@ + ser_asset(a@),
        asset_wf(a@),
{
    match a {
        Asset::Native => {
            put_u32(out, TAG_NATIVE);
        },
        Asset::Credit(c) => {
            let code = c.code();
            let n = code.len();
            if n <= 4 {
                put_u32(out, TAG_CODE4);
                put_bytes(out, code.as_slice());
                put_zeros(out, 4 - n);
            } else {
                put_u32(out, TAG_CODE12);
                put_bytes(out, code.as_slice());
                put_zeros(out, 12 - n);
            }
            put_u32(out, TAG_KEY);
            put_bytes(out, c.issuer().as_bytes().as_slice());
            assert(out@ =~= old(out)@ + ser_asset(a@));
        },
    }
}

/// Appends the bytes of an operation's wire structure.
pub fn put_wire_operation(out: &mut Vec<u8>, op: &xdr::Operation)
    ensures
        final(out)@ == old(out)@ + ser_wire_operation(op@),
        wire_operation_wf(op@),
{
    put_account_option(out, &op.source_account);
    match &op.body {
        xdr::OperationBody::ChangeTrust(c) => {
            put_u32(out, TAG_CHANGE_TRUST);
            put_asset(out, &c.line);
            put_i64(out, c.limit.value);
            assert(out@ =~= old(out)@ + ser_wire_operation(op@));
        },
        xdr::OperationBody::Inflation => {
            put_u32(out, TAG_INFLATION);
            assert(out@ =~= old(out)@ + ser_wire_operation(op@));
        },
    }
}

/// Appends the bytes of operations, one behind the other.
pub fn put_operations(out: &mut Vec<u8>, ops: &Vec<Operation>)
    ensures
        final(out)@ == old(out)@ + ser_operations(operations_view(ops@)),
        forall|j: int|
            0 <= j < ops@.len() ==> operation_wf(#[trigger] operations_view(ops@)[j]),
{
    let ghost all = operations_view(ops@);
    let mut i: usize = 0;
    assert(ser_operations(all.subrange(0, 0)) =~= Seq::<u8>::empty());
    while i < ops.len()
        invariant
            i <= ops.len(),
            all == operations_view(ops@),
            out@ =~= old(out)@ + ser_operations(all.subrange(0, i as int)),
            forall|j: int| 0 <= j < i ==> operation_wf(#[trigger] all[j]),
        decreases ops.len() - i,
    {
        match ops[i].to_xdr() {
            Ok(w) => {
                put_wire_operation(out, &w);
            },
            Err(_) => {},
        }
        proof {
            let next = all.subrange(0, i + 1);
            assert(next.drop_last() =~= all.subrange(0, i as int));
            assert(next.last() == ops@[i as int]@);
        }
        i += 1;
    }
    assert(all.subrange(0, ops@.len() as int) =~= all);
}

/// Appends the bytes of a transaction, or fails with `TooManyItems` and
/// appends nothing when a 32-bit count cannot announce its operations.
pub fn put_transaction(out: &mut Vec<u8>, tx: &Transaction) -> (r: Result<(), Error>)
    ensures
        tx@.operations.len() <= u32::MAX ==> r is Ok && final(out)@ == old(out)@ + ser_transaction(
            tx@,
        ) && transaction_wf(tx@),
        tx@.operations.len() > u32::MAX ==> r == Err::<(), Error>(Error::TooManyItems)
            && final(out)@ == old(out)@,
{
    let ops = tx.operations();
    assert(ops@.len() == operations_view(ops@).len());
    if ops.len() > 0xffff_ffff {
        return Err(Error::TooManyItems);
    }
    put_account(out, tx.source_account());
    put_u32(out, tx.fee());
    put_i64(out, tx.sequence());
    put_u32(out, 0);
    put_u32(out, 0);
    put_u32(out, ops.len() as u32);
    put_operations(out, ops);
    put_u32(out, 0);
    assert(out@ =~= old(out)@ + ser_transaction(tx@));
    Ok(())
}

/// Appends the bytes of a signature.
pub fn put_signature(out: &mut Vec<u8>, s: &DecoratedSignature)
    ensures
        final(out)@ == old(out)@ + ser_signature(s@),
        signature_wf(s@),
{
    put_bytes(out, s.hint().as_slice());
    put_u32(out, 64);
    put_bytes(out, s.signature().as_slice());
    assert(out@ =~= old(out)@ + ser_signature(s@));
}

/// Appends the bytes of signatures, one behind the other.
pub fn put_signatures(out: &mut Vec<u8>, sigs: &Vec<DecoratedSignature>)
    ensures
        final(out)@ == old(out)@ + ser_signatures(signatures_view(sigs@)),
        forall|j: int|
            0 <= j < sigs@.len() ==> signature_wf(#[trigger] signatures_view(sigs@)[j]),
{
    let ghost all = signatures_view(sigs@);
    let mut i: usize = 0;
    assert(ser_signatures(all.subrange(0, 0)) =~= Seq::<u8>::empty());
    while i < sigs.len()
        invariant
            i <= sigs.len(),
            all == signatures_view(sigs@),
            out@ =~= old(out)@ + ser_signatures(all.subrange(0, i as int)),
            forall|j: int| 0 <= j < i ==> signature_wf(#[trigger] all[j]),
        decreases sigs.len() - i,
    {
        put_signature(out, &sigs[i]);
        proof {
            let next = all.subrange(0, i + 1);
            assert(next.drop_last() =~= all.subrange(0, i as int));
            assert(next.last() == sigs@[i as int]@);
        }
        i += 1;
    }
    assert(all.subrange(0, sigs@.len() as int) =~= all);
}

/// Whether 32-bit counts can announce the operations and the signatures of
/// an envelope.
pub open spec fn countable(e: EnvelopeView) -> bool {
    e.tx.operations.len() <= u32::MAX && e.signatures.len() <= u32::MAX
}

/// The canonical bytes of an envelope, or `TooManyItems` when a 32-bit
/// count cannot announce its operations or its signatures. Every envelope
/// that is encoded holds addresses, assets and signatures that can exist.
pub fn encode_envelope(e: &TransactionEnvelope) -> (r: Result<Vec<u8>, Error>)
    ensures
        countable(e@) ==> r is Ok && r->Ok_0@ == ser_envelope(e@) && envelope_wf(e@),
        !countable(e@) ==> r == Err::<Vec<u8>, Error>(Error::TooManyItems),
{
    let sigs = e.signatures();
    assert(sigs@.len() == signatures_view(sigs@).len());
    if sigs.len() > 0xffff_ffff {
        return Err(Error::TooManyItems);
    }
    let mut out: Vec<u8> = Vec::new();
    put_u32(&mut out, TAG_ENVELOPE);
    match put_transaction(&mut out, e.transaction()) {
        Ok(_) => {},
        Err(err) => {
            return Err(err);
        },
    }
    put_u32(&mut out, sigs.len() as u32);
    put_signatures(&mut out, sigs);
    assert(out@ =~= ser_envelope(e@));
    Ok(out)
}

/// The bytes that a signer of `tx` on the network `network_id` signs.
/// Fails with `InvalidNetworkId` unless the identifier has 32 bytes, else
/// with `TooManyItems` when a 32-bit count cannot announce the operations.
pub fn encode_payload(network_id: &[u8], tx: &Transaction) -> (r: Result<Vec<u8>, Error>)
    ensures
        network_id@.len() != 32 ==> r == Err::<Vec<u8>, Error>(Error::InvalidNetworkId),
        network_id@.len() == 32 && tx@.operations.len() > u32::MAX ==> r == Err::<Vec<u8>, Error>(
            Error::TooManyItems,
        ),
        network_id@.len() == 32 && tx@.operations.len() <= u32::MAX ==> r is Ok && r->Ok_0@
            == ser_payload(network_id@, tx@) && transaction_wf(tx@),
{
    if network_id.len() != 32 {
        return Err(Error::InvalidNetworkId);
    }
    let mut out: Vec<u8> = Vec::new();
    put_bytes(&mut out, network_id);
    put_u32(&mut out, TAG_ENVELOPE);
    match put_transaction(&mut out, tx) {
        Ok(_) => {},
        Err(err) => {
            return Err(err);
        },
    }
    assert(out@ =~= ser_payload(network_id@, tx@));
    Ok(out)
}

} // verus!
