use vstd::prelude::*;
use crate::asset::AssetView;
use crate::asset::asset_wf;
use crate::asset::valid_code;
use crate::codec::TAG_CHANGE_TRUST;
use crate::codec::TAG_CODE12;
use crate::codec::TAG_CODE4;
use crate::codec::TAG_ENVELOPE;
use crate::codec::TAG_INFLATION;
use crate::codec::TAG_KEY;
use crate::codec::TAG_MUXED;
use crate::codec::TAG_NATIVE;
use crate::codec::i64_bits;
use crate::codec::ser_account;
use crate::codec::ser_account_option;
use crate::codec::ser_asset;
use crate::codec::ser_body;
use crate::codec::ser_envelope;
use crate::codec::ser_header;
use crate::codec::ser_i64;
use crate::codec::ser_operations;
use crate::codec::ser_payload;
use crate::codec::ser_signature;
use crate::codec::ser_signatures;
use crate::codec::ser_transaction;
use crate::codec::ser_u32;
use crate::codec::ser_u64;
use crate::codec::ser_wire_operation;
use crate::codec::zeros;
use crate::crypto::AccountView;
use crate::crypto::KEY_LEN;
use crate::crypto::account_option_wf;
use crate::crypto::account_wf;
use crate::decode::parse_account;
use crate::decode::parse_account_option;
use crate::decode::parse_asset;
use crate::decode::parse_body;
use crate::decode::parse_bytes;
use crate::decode::parse_constant;
use crate::decode::parse_envelope;
use crate::decode::parse_header;
use crate::decode::parse_i64;
use crate::decode::parse_key;
use crate::decode::parse_operations;
use crate::decode::parse_signature;
use crate::decode::parse_signatures;
use crate::decode::parse_transaction;
use crate::decode::parse_u32;
use crate::decode::parse_u64;
use crate::decode::parse_wire_operation;
use crate::decode::trimmed;
use crate::operations::OperationView;
use crate::operations::has_zero_limit;
use crate::operations::lemma_operation_round_trip;
use crate::operations::no_zero_limits;
use crate::operations::operation_to_wire;
use crate::operations::operation_wf;
use crate::transaction::EnvelopeView;
use crate::transaction::SignatureView;
use crate::transaction::TransactionView;
use crate::transaction::envelope_wf;
use crate::transaction::signature_wf;
use crate::transaction::transaction_wf;
use crate::xdr::OperationBodyView;
use crate::xdr::WireOperationView;
use crate::xdr::wire_operation_wf;

verus! {

/// Whether the bytes `t` stand in `s` from `pos` on.
pub open spec fn stands_at(s: Seq<u8>, pos: int, t: Seq<u8>) -> bool {
    0 <= pos && pos + t.len() <= s.len() && s.subrange(pos, pos + t.len()) == t
}

/// Where `a + b` stands, `a` stands and `b` stands behind it.
pub proof fn lemma_split(s: Seq<u8>, pos: int, a: Seq<u8>, b: Seq<u8>)
    requires
        stands_at(s, pos, a + b),
    ensures
        stands_at(s, pos, a),
        stands_at(s, pos + a.len(), b),
{
    let ab = a + b;
    let whole = s.subrange(pos, pos + ab.len());
    assert forall|i: int| 0 <= i < a.len() implies s.subrange(pos, pos + a.len())[i] == a[i] by {
        assert(whole[i] == ab[i]);
    }
    assert(s.subrange(pos, pos + a.len()) =~= a);
    assert forall|i: int| 0 <= i < b.len() implies s.subrange(
        pos + a.len(),
        pos + a.len() + b.len(),
    )[i] == b[i] by {
        assert(whole[a.len() + i] == ab[a.len() + i]);
    }
    assert(s.subrange(pos + a.len(), pos + a.len() + b.len()) =~= b);
}

/// Every byte string stands in itself from the start on.
pub proof fn lemma_stands_whole(s: Seq<u8>)
    ensures
        stands_at(s, 0, s),
{
    assert(s.subrange(0, s.len() as int) =~= s);
}

/// Reading a 32-bit number where its bytes stand gives the number.
pub proof fn lemma_u32(s: Seq<u8>, pos: int, v: u32)
    requires
        stands_at(s, pos, ser_u32(v)),
    ensures
        parse_u32(s, pos) == Some((v, pos + 4)),
{
    let t = ser_u32(v);
    let w = s.subrange(pos, pos + 4);
    assert(w[0] == t[0] && w[1] == t[1] && w[2] == t[2] && w[3] == t[3]);
    let x = v as int;
    assert(x == (x / 0x100_0000) * 0x100_0000 + (x / 0x1_0000 % 0x100) * 0x1_0000 + (x / 0x100
        % 0x100) * 0x100 + x % 0x100);
}

/// Reading a 64-bit number where its bytes stand gives the number.
pub proof fn lemma_u64(s: Seq<u8>, pos: int, v: u64)
    requires
        stands_at(s, pos, ser_u64(v)),
    ensures
        parse_u64(s, pos) == Some((v, pos + 8)),
{
    let hi = (v / 0x1_0000_0000) as u32;
    let lo = (v % 0x1_0000_0000) as u32;
    lemma_split(s, pos, ser_u32(hi), ser_u32(lo));
    lemma_u32(s, pos, hi);
    lemma_u32(s, pos + 4, lo);
}

/// Reading a signed 64-bit number where its bytes stand gives the number.
pub proof fn lemma_i64(s: Seq<u8>, pos: int, v: i64)
    requires
        stands_at(s, pos, ser_i64(v)),
    ensures
        parse_i64(s, pos) == Some((v, pos + 8)),
{
    lemma_u64(s, pos, i64_bits(v));
}

/// Reading as many bytes as stand there gives them.
pub proof fn lemma_bytes(s: Seq<u8>, pos: int, k: Seq<u8>)
    requires
        stands_at(s, pos, k),
    ensures
        parse_bytes(s, pos, k.len() as int) == Some((k, pos + k.len())),
{
}

/// Reading an address where its bytes stand gives the address.
pub proof fn lemma_account(s: Seq<u8>, pos: int, a: AccountView)
    requires
        account_wf(a),
        stands_at(s, pos, ser_account(a)),
    ensures
        parse_account(s, pos) == Some((a, pos + ser_account(a).len())),
{
    match a {
        AccountView::Ed25519(key) => {
            lemma_split(s, pos, ser_u32(TAG_KEY), key);
            lemma_u32(s, pos, TAG_KEY);
            lemma_bytes(s, pos + 4, key);
        },
        AccountView::Muxed(id, key) => {
            lemma_split(s, pos, ser_u32(TAG_MUXED) + ser_u64(id), key);
            lemma_split(s, pos, ser_u32(TAG_MUXED), ser_u64(id));
            lemma_u32(s, pos, TAG_MUXED);
            lemma_u64(s, pos + 4, id);
            lemma_bytes(s, pos + 12, key);
        },
    }
}

/// Reading an address that may be absent where its bytes stand gives it.
pub proof fn lemma_account_option(s: Seq<u8>, pos: int, a: Option<AccountView>)
    requires
        account_option_wf(a),
        stands_at(s, pos, ser_account_option(a)),
    ensures
        parse_account_option(s, pos) == Some((a, pos + ser_account_option(a).len())),
{
    match a {
        None => {
            lemma_u32(s, pos, 0);
        },
        Some(x) => {
            lemma_split(s, pos, ser_u32(1), ser_account(x));
            lemma_u32(s, pos, 1);
            lemma_account(s, pos + 4, x);
        },
    }
}

/// Padding behind a code is all that trimming takes away.
pub proof fn lemma_trimmed(code: Seq<u8>, k: int)
    requires
        valid_code(code),
        k >= 0,
    ensures
        trimmed(code + zeros(k)) == code,
    decreases k,
{
    let field = code + zeros(k);
    assert(code.last() == code[code.len() - 1]);
    if k == 0 {
        assert(field =~= code);
    } else {
        assert(field.last() == 0);
        assert(field.drop_last() =~= code + zeros(k - 1));
        lemma_trimmed(code, k - 1);
    }
}

/// Reading a key behind its tag where both stand gives the key.
pub proof fn lemma_key(s: Seq<u8>, pos: int, key: Seq<u8>)
    requires
        key.len() == KEY_LEN,
        stands_at(s, pos, ser_u32(TAG_KEY) + key),
    ensures
        parse_key(s, pos) == Some((key, pos + 36)),
{
    lemma_split(s, pos, ser_u32(TAG_KEY), key);
    lemma_u32(s, pos, TAG_KEY);
    lemma_bytes(s, pos + 4, key);
}

/// Reading an asset where its bytes stand gives the asset.
#[verifier::rlimit(50)]
pub proof fn lemma_asset(s: Seq<u8>, pos: int, a: AssetView)
    requires
        asset_wf(a),
        stands_at(s, pos, ser_asset(a)),
    ensures
        parse_asset(s, pos) == Some((a, pos + ser_asset(a).len())),
{
    match a {
        AssetView::Native => {
            lemma_u32(s, pos, TAG_NATIVE);
        },
        AssetView::Credit { code, issuer } => {
            let width: int = if code.len() <= 4 {
                4
            } else {
                12
            };
            let tag: u32 = if code.len() <= 4 {
                TAG_CODE4
            } else {
                TAG_CODE12
            };
            let pad = zeros(width - code.len());
            assert(ser_asset(a) == ser_u32(tag) + code + pad + ser_u32(TAG_KEY) + issuer);
            let field = code + pad;
            assert(ser_asset(a) =~= ser_u32(tag) + field + (ser_u32(TAG_KEY) + issuer));
            lemma_split(s, pos, ser_u32(tag) + field, ser_u32(TAG_KEY) + issuer);
            lemma_split(s, pos, ser_u32(tag), field);
            lemma_u32(s, pos, tag);
            lemma_bytes(s, pos + 4, field);
            lemma_trimmed(code, width - code.len());
            lemma_key(s, pos + 4 + width, issuer);
        },
    }
}

/// Reading an operation's payload where its bytes stand gives the payload.
pub proof fn lemma_body(s: Seq<u8>, pos: int, b: OperationBodyView)
    requires
        b matches OperationBodyView::ChangeTrust(c) ==> asset_wf(c.line),
        stands_at(s, pos, ser_body(b)),
    ensures
        parse_body(s, pos) == Some((b, pos + ser_body(b).len())),
{
    match b {
        OperationBodyView::ChangeTrust(c) => {
            lemma_split(s, pos, ser_u32(TAG_CHANGE_TRUST) + ser_asset(c.line), ser_i64(c.limit));
            lemma_split(s, pos, ser_u32(TAG_CHANGE_TRUST), ser_asset(c.line));
            lemma_u32(s, pos, TAG_CHANGE_TRUST);
            lemma_asset(s, pos + 4, c.line);
            lemma_i64(s, pos + 4 + ser_asset(c.line).len(), c.limit);
        },
        OperationBodyView::Inflation => {
            lemma_u32(s, pos, TAG_INFLATION);
        },
    }
}

/// Reading the wire structure of an operation where its bytes stand gives
/// the structure.
pub proof fn lemma_wire_operation(s: Seq<u8>, pos: int, w: WireOperationView)
    requires
        wire_operation_wf(w),
        stands_at(s, pos, ser_wire_operation(w)),
    ensures
        parse_wire_operation(s, pos) == Some((w, pos + ser_wire_operation(w).len())),
{
    lemma_split(s, pos, ser_account_option(w.source_account), ser_body(w.body));
    lemma_account_option(s, pos, w.source_account);
    lemma_body(s, pos + ser_account_option(w.source_account).len(), w.body);
}

/// Decoding the bytes of an operation's wire structure gives the structure
/// back, whatever its limit.
pub proof fn lemma_wire_operation_round_trip(w: WireOperationView)
    requires
        wire_operation_wf(w),
    ensures
        parse_wire_operation(ser_wire_operation(w), 0) == Some(
            (w, ser_wire_operation(w).len() as int),
        ),
{
    lemma_stands_whole(ser_wire_operation(w));
    lemma_wire_operation(ser_wire_operation(w), 0, w);
}

/// Whether an operation comes back from its bytes as it is: its addresses
/// and assets can exist, and it has no explicit limit of 0.
pub open spec fn operation_canonical(op: OperationView) -> bool {
    operation_wf(op) && !has_zero_limit(op)
}

/// Whether a transaction comes back from its bytes as it is: its addresses
/// and assets can exist, a 32-bit count can announce its operations, and
/// none of them has an explicit limit of 0.
pub open spec fn transaction_canonical(tx: TransactionView) -> bool {
    &&& transaction_wf(tx)
    &&& tx.operations.len() <= u32::MAX
    &&& no_zero_limits(tx.operations)
}

/// Whether an envelope comes back from its bytes as it is: its
/// transaction does, and a 32-bit count can announce its signatures.
pub open spec fn envelope_canonical(e: EnvelopeView) -> bool {
    &&& envelope_wf(e)
    &&& transaction_canonical(e.tx)
    &&& e.signatures.len() <= u32::MAX
}

/// Reading operations where their bytes stand gives the operations.
#[verifier::rlimit(50)]
pub proof fn lemma_operations(s: Seq<u8>, pos: int, ops: Seq<OperationView>)
    requires
        forall|i: int| 0 <= i < ops.len() ==> operation_canonical(#[trigger] ops[i]),
        stands_at(s, pos, ser_operations(ops)),
    ensures
        parse_operations(s, pos, ops.len()) == Some((ops, pos + ser_operations(ops).len())),
    decreases ops.len(),
{
    if ops.len() == 0 {
        assert(ops =~= Seq::empty());
    } else {
        let front = ops.drop_last();
        let w = operation_to_wire(ops.last());
        lemma_split(s, pos, ser_operations(front), ser_wire_operation(w));
        lemma_operations(s, pos, front);
        lemma_wire_operation(s, pos + ser_operations(front).len(), w);
        lemma_operation_round_trip(ops.last());
        assert(front.push(ops.last()) =~= ops);
    }
}

/// Reading the head of a transaction where its bytes stand gives the
/// source account, the fee and the sequence number.
#[verifier::rlimit(50)]
pub proof fn lemma_header(s: Seq<u8>, pos: int, tx: TransactionView)
    requires
        account_wf(tx.source_account),
        stands_at(s, pos, ser_header(tx)),
    ensures
        parse_header(s, pos) == Some(
            ((tx.source_account, tx.fee, tx.sequence), pos + ser_header(tx).len()),
        ),
{
    let a = ser_account(tx.source_account);
    let fee = ser_u32(tx.fee);
    let seq = ser_i64(tx.sequence);
    let zero = ser_u32(0);
    lemma_split(s, pos, a + fee + seq + zero, zero);
    lemma_split(s, pos, a + fee + seq, zero);
    lemma_split(s, pos, a + fee, seq);
    lemma_split(s, pos, a, fee);
    let p1 = pos + a.len();
    lemma_account(s, pos, tx.source_account);
    lemma_u32(s, p1, tx.fee);
    lemma_i64(s, p1 + 4, tx.sequence);
    lemma_u32(s, p1 + 12, 0);
    lemma_u32(s, p1 + 16, 0);
}

/// Reading a transaction where its bytes stand gives the transaction.
#[verifier::rlimit(50)]
pub proof fn lemma_transaction(s: Seq<u8>, pos: int, tx: TransactionView)
    requires
        transaction_canonical(tx),
        stands_at(s, pos, ser_transaction(tx)),
    ensures
        parse_transaction(s, pos) == Some((tx, pos + ser_transaction(tx).len())),
{
    let head = ser_header(tx);
    let count = ser_u32(tx.operations.len() as u32);
    let ops = ser_operations(tx.operations);
    let zero = ser_u32(0);
    lemma_split(s, pos, head + count + ops, zero);
    lemma_split(s, pos, head + count, ops);
    lemma_split(s, pos, head, count);
    let p1 = pos + head.len();
    lemma_header(s, pos, tx);
    lemma_u32(s, p1, tx.operations.len() as u32);
    assert forall|i: int| 0 <= i < tx.operations.len() implies operation_canonical(
        #[trigger] tx.operations[i],
    ) by {}
    lemma_operations(s, p1 + 4, tx.operations);
    lemma_u32(s, p1 + 4 + ops.len(), 0);
}

/// Reading a signature where its bytes stand gives the signature.
pub proof fn lemma_signature(s: Seq<u8>, pos: int, sig: SignatureView)
    requires
        signature_wf(sig),
        stands_at(s, pos, ser_signature(sig)),
    ensures
        parse_signature(s, pos) == Some((sig, pos + 72)),
{
    lemma_split(s, pos, sig.hint + ser_u32(64), sig.signature);
    lemma_split(s, pos, sig.hint, ser_u32(64));
    lemma_bytes(s, pos, sig.hint);
    lemma_u32(s, pos + 4, 64);
    lemma_bytes(s, pos + 8, sig.signature);
}

/// Reading signatures where their bytes stand gives the signatures.
pub proof fn lemma_signatures(s: Seq<u8>, pos: int, sigs: Seq<SignatureView>)
    requires
        forall|i: int| 0 <= i < sigs.len() ==> signature_wf(#[trigger] sigs[i]),
        stands_at(s, pos, ser_signatures(sigs)),
    ensures
        parse_signatures(s, pos, sigs.len()) == Some((sigs, pos + ser_signatures(sigs).len())),
    decreases sigs.len(),
{
    if sigs.len() == 0 {
        assert(sigs =~= Seq::empty());
    } else {
        let front = sigs.drop_last();
        lemma_split(s, pos, ser_signatures(front), ser_signature(sigs.last()));
        lemma_signatures(s, pos, front);
        lemma_signature(s, pos + ser_signatures(front).len(), sigs.last());
        assert(front.push(sigs.last()) =~= sigs);
    }
}

/// Where the tag, a transaction, a count and as many signatures stand one
/// behind the other and make up all of `s`, `s` decodes to their envelope.
pub proof fn lemma_envelope_parts(s: Seq<u8>, e: EnvelopeView, p2: int)
    requires
        parse_constant(s, 0, TAG_ENVELOPE) == Some(4int),
        parse_transaction(s, 4) == Some((e.tx, p2)),
        e.signatures.len() <= u32::MAX,
        parse_u32(s, p2) == Some((e.signatures.len() as u32, p2 + 4)),
        parse_signatures(s, p2 + 4, e.signatures.len()) == Some((e.signatures, s.len() as int)),
    ensures
        parse_envelope(s) == Some(e),
{
}

/// Decoding the canonical bytes of an envelope gives the envelope back,
/// its operations and its signatures in their order.
#[verifier::rlimit(50)]
pub proof fn lemma_envelope_round_trip(e: EnvelopeView)
    requires
        envelope_canonical(e),
    ensures
        parse_envelope(ser_envelope(e)) == Some(e),
{
    let s = ser_envelope(e);
    let tag = ser_u32(TAG_ENVELOPE);
    let tx = ser_transaction(e.tx);
    let count = ser_u32(e.signatures.len() as u32);
    let sigs = ser_signatures(e.signatures);
    let p2 = 4 + tx.len() as int;
    assert(s == tag + tx + count + sigs);
    assert(s.len() == p2 + 4 + sigs.len());
    lemma_stands_whole(s);
    lemma_split(s, 0, tag + tx + count, sigs);
    lemma_split(s, 0, tag + tx, count);
    lemma_split(s, 0, tag, tx);
    lemma_u32(s, 0, TAG_ENVELOPE);
    lemma_transaction(s, 4, e.tx);
    lemma_u32(s, p2, e.signatures.len() as u32);
    lemma_signatures(s, p2 + 4, e.signatures);
    lemma_envelope_parts(s, e, p2);
}

/// Two envelopes with the same canonical bytes are the same envelope.
pub proof fn lemma_encoding_injective(a: EnvelopeView, b: EnvelopeView)
    requires
        envelope_canonical(a),
        envelope_canonical(b),
        ser_envelope(a) == ser_envelope(b),
    ensures
        a == b,
{
    lemma_envelope_round_trip(a);
    lemma_envelope_round_trip(b);
}

/// Two transactions with the same bytes to sign on one network are the
/// same transaction: a signature over the bytes is one over the
/// transaction.
#[verifier::rlimit(50)]
pub proof fn lemma_payload_injective(network_id: Seq<u8>, a: TransactionView, b: TransactionView)
    requires
        transaction_canonical(a),
        transaction_canonical(b),
        ser_payload(network_id, a) == ser_payload(network_id, b),
    ensures
        a == b,
{
    let s = ser_payload(network_id, a);
    let head = network_id + ser_u32(TAG_ENVELOPE);
    lemma_stands_whole(s);
    lemma_split(s, 0, head, ser_transaction(a));
    lemma_split(s, 0, head, ser_transaction(b));
    lemma_transaction(s, head.len() as int, a);
    lemma_transaction(s, head.len() as int, b);
}

/// The bytes to sign depend on nothing but the network's identifier and
/// what the transaction holds: computed twice, they are the same bytes.
pub proof fn lemma_payload_deterministic(
    network_a: Seq<u8>,
    a: TransactionView,
    network_b: Seq<u8>,
    b: TransactionView,
)
    requires
        network_a == network_b,
        a == b,
    ensures
        ser_payload(network_a, a) == ser_payload(network_b, b),
        ser_transaction(a) == ser_transaction(b),
{
}

} // verus!
