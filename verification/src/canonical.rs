use vstd::prelude::*;
use crate::asset::AssetView;
use crate::asset::asset_wf;
use crate::asset::valid_code;
use crate::codec::TAG_CHANGE_TRUST;
use crate::codec::TAG_CODE12;
use crate::codec::TAG_CODE4;
use crate::codec::TAG_ENVELOPE;
use crate::codec::TAG_INFLATION;
use crate::codec::TAG_KEY;
use crate::codec::TAG_MUXED;
use crate::codec::TAG_NATIVE;
use crate::codec::countable;
use crate::codec::i64_bits;
use crate::codec::ser_account;
use crate::codec::ser_account_option;
use crate::codec::ser_asset;
use crate::codec::ser_body;
use crate::codec::ser_envelope;
use crate::codec::ser_header;
use crate::codec::ser_i64;
use crate::codec::ser_operations;
use crate::codec::ser_signature;
use crate::codec::ser_signatures;
use crate::codec::ser_transaction;
use crate::codec::ser_u32;
use crate::codec::ser_u64;
use crate::codec::ser_wire_operation;
use crate::codec::zeros;
use crate::crypto::AccountView;
use crate::crypto::account_option_wf;
use crate::crypto::account_wf;
use crate::decode::bits_i64;
use crate::decode::parse_account;
use crate::decode::parse_account_option;
use crate::decode::parse_asset;
use crate::decode::parse_body;
use crate::decode::parse_bytes;
use crate::decode::parse_code;
use crate::decode::parse_constant;
use crate::decode::parse_credit;
use crate::decode::parse_envelope;
use crate::decode::parse_header;
use crate::decode::parse_i64;
use crate::decode::parse_key;
use crate::decode::parse_operations;
use crate::decode::parse_signature;
use crate::decode::parse_signatures;
use crate::decode::parse_transaction;
use crate::decode::parse_u32;
use crate::decode::parse_u64;
use crate::decode::parse_wire_operation;
use crate::decode::trimmed;
use crate::operations::operation_from_wire;
use crate::operations::operation_to_wire;
use crate::operations::operation_wf;
use crate::roundtrip::lemma_split;
use crate::roundtrip::stands_at;
use crate::transaction::EnvelopeView;
use crate::transaction::TransactionView;
use crate::transaction::envelope_wf;
use crate::transaction::signature_wf;
use crate::transaction::transaction_wf;
use crate::xdr::OperationBodyView;
use crate::xdr::WireOperationView;
use crate::xdr::wire_operation_wf;

verus! {

/// Where `a` stands and `b` stands behind it, `a + b` stands.
pub proof fn lemma_join(s: Seq<u8>, pos: int, a: Seq<u8>, b: Seq<u8>)
    requires
        stands_at(s, pos, a),
        stands_at(s, pos + a.len(), b),
    ensures
        stands_at(s, pos, a + b),
{
    let ab = a + b;
    assert forall|i: int| 0 <= i < ab.len() implies s.subrange(pos, pos + ab.len())[i] == ab[i] by {
        if i < a.len() {
            assert(s.subrange(pos, pos + a.len())[i] == a[i]);
        } else {
            assert(s.subrange(pos + a.len(), pos + a.len() + b.len())[i - a.len()] == b[i
                - a.len()]);
        }
    }
    assert(s.subrange(pos, pos + ab.len()) =~= ab);
}

/// The digits of a number in base 256 are found again by division.
#[verifier::rlimit(50)]
pub proof fn lemma_digits(b0: int, b1: int, b2: int, b3: int)
    requires
        0 <= b0 < 256,
        0 <= b1 < 256,
        0 <= b2 < 256,
        0 <= b3 < 256,
    ensures
        ({
            let x = b0 * 0x100_0000 + b1 * 0x1_0000 + b2 * 0x100 + b3;
            &&& 0 <= x <= u32::MAX
            &&& x / 0x100_0000 == b0
            &&& x / 0x1_0000 % 0x100 == b1
            &&& x / 0x100 % 0x100 == b2
            &&& x % 0x100 == b3
        }),
{
    let x = b0 * 0x100_0000 + b1 * 0x1_0000 + b2 * 0x100 + b3;
    let r1 = b1 * 0x1_0000 + b2 * 0x100 + b3;
    let r2 = b2 * 0x100 + b3;
    assert(0 <= r2 < 0x1_0000);
    assert(0 <= r1 < 0x100_0000);
    assert(x == b0 * 0x100_0000 + r1);
    assert(x / 0x100_0000 == b0);
    assert(x == (b0 * 0x100 + b1) * 0x1_0000 + r2);
    assert(x / 0x1_0000 == b0 * 0x100 + b1);
    assert(x == (b0 * 0x1_0000 + b1 * 0x100 + b2) * 0x100 + b3);
    assert(x / 0x100 == b0 * 0x1_0000 + b1 * 0x100 + b2);
}

/// What is read as a 32-bit number is made of the bytes of that number.
#[verifier::rlimit(50)]
pub proof fn lemma_u32_stands(s: Seq<u8>, pos: int)
    ensures
        parse_u32(s, pos) matches Some((v, p)) ==> stands_at(s, pos, ser_u32(v)) && p == pos + 4,
{
    if let Some((v, p)) = parse_u32(s, pos) {
        lemma_digits(s[pos] as int, s[pos + 1] as int, s[pos + 2] as int, s[pos + 3] as int);
        let t = ser_u32(v);
        let w = s.subrange(pos, pos + 4);
        assert(w[0] == t[0] && w[1] == t[1] && w[2] == t[2] && w[3] == t[3]);
        assert(w =~= t);
    }
}

/// What is read as a given 32-bit number is made of its bytes.
pub proof fn lemma_constant_stands(s: Seq<u8>, pos: int, expected: u32)
    ensures
        parse_constant(s, pos, expected) matches Some(p) ==> stands_at(s, pos, ser_u32(expected))
            && p == pos + 4,
{
    lemma_u32_stands(s, pos);
}

/// What is read as a 64-bit number is made of the bytes of that number.
pub proof fn lemma_u64_stands(s: Seq<u8>, pos: int)
    ensures
        parse_u64(s, pos) matches Some((v, p)) ==> stands_at(s, pos, ser_u64(v)) && p == pos + 8,
{
    if let Some((v, p)) = parse_u64(s, pos) {
        lemma_u32_stands(s, pos);
        lemma_u32_stands(s, pos + 4);
        let hi = parse_u32(s, pos)->Some_0.0;
        let lo = parse_u32(s, pos + 4)->Some_0.0;
        assert(v == hi * 0x1_0000_0000 + lo);
        assert((v / 0x1_0000_0000) as u32 == hi);
        assert((v % 0x1_0000_0000) as u32 == lo);
        lemma_join(s, pos, ser_u32(hi), ser_u32(lo));
    }
}

/// What is read as a signed 64-bit number is made of the bytes of that
/// number.
pub proof fn lemma_i64_stands(s: Seq<u8>, pos: int)
    ensures
        parse_i64(s, pos) matches Some((v, p)) ==> stands_at(s, pos, ser_i64(v)) && p == pos + 8,
{
    if let Some((v, p)) = parse_i64(s, pos) {
        lemma_u64_stands(s, pos);
        let u = parse_u64(s, pos)->Some_0.0;
        assert(i64_bits(bits_i64(u)) == u);
    }
}

/// What is read as a key behind its tag is made of the tag and 32 bytes.
pub proof fn lemma_key_stands(s: Seq<u8>, pos: int)
    ensures
        parse_key(s, pos) matches Some((key, p)) ==> stands_at(s, pos, ser_u32(TAG_KEY) + key)
            && key.len() == 32 && p == pos + 36,
{
    if let Some((key, p)) = parse_key(s, pos) {
        lemma_u32_stands(s, pos);
        lemma_join(s, pos, ser_u32(TAG_KEY), key);
    }
}

/// What is read as an address is made of the bytes of that address.
pub proof fn lemma_account_stands(s: Seq<u8>, pos: int)
    ensures
        parse_account(s, pos) matches Some((a, p)) ==> stands_at(s, pos, ser_account(a))
            && account_wf(a) && p == pos + ser_account(a).len(),
{
    if let Some((a, p)) = parse_account(s, pos) {
        lemma_u32_stands(s, pos);
        match a {
            AccountView::Ed25519(key) => {
                lemma_join(s, pos, ser_u32(TAG_KEY), key);
            },
            AccountView::Muxed(id, key) => {
                lemma_u64_stands(s, pos + 4);
                lemma_join(s, pos, ser_u32(TAG_MUXED), ser_u64(id));
                lemma_join(s, pos, ser_u32(TAG_MUXED) + ser_u64(id), key);
            },
        }
    }
}

/// What is read as an address that may be absent is made of its bytes.
pub proof fn lemma_account_option_stands(s: Seq<u8>, pos: int)
    ensures
        parse_account_option(s, pos) matches Some((a, p)) ==> stands_at(
            s,
            pos,
            ser_account_option(a),
        ) && account_option_wf(a) && p == pos + ser_account_option(a).len(),
{
    if let Some((a, p)) = parse_account_option(s, pos) {
        lemma_u32_stands(s, pos);
        if let Some(x) = a {
            lemma_account_stands(s, pos + 4);
            lemma_join(s, pos, ser_u32(1), ser_account(x));
        }
    }
}

/// A field is what trimming leaves of it, and padding.
pub proof fn lemma_untrimmed(field: Seq<u8>)
    ensures
        trimmed(field).len() <= field.len(),
        field == trimmed(field) + zeros(field.len() - trimmed(field).len()),
    decreases field.len(),
{
    if field.len() > 0 && field.last() == 0 {
        let d = field.drop_last();
        lemma_untrimmed(d);
        let t = trimmed(field);
        let pad = zeros(field.len() - t.len());
        assert forall|i: int| 0 <= i < field.len() implies field[i] == (t + pad)[i] by {
            if i < d.len() {
                assert(d[i] == (t + zeros(d.len() - t.len()))[i]);
            }
        }
        assert(field =~= t + pad);
    } else {
        assert(field =~= field + zeros(0));
    }
}

/// What is read as a code and an issuer is made of the padded code and the
/// issuer's key behind its tag.
#[verifier::rlimit(50)]
pub proof fn lemma_credit_stands(s: Seq<u8>, pos: int, width: int)
    requires
        width == 4 || width == 12,
    ensures
        parse_credit(s, pos, width) matches Some((a, p)) ==> (a matches AssetView::Credit {
            code,
            issuer,
        } && valid_code(code) && code.len() <= width && (width == 12 ==> code.len() > 4)
            && issuer.len() == 32 && stands_at(s, pos, code) && stands_at(
            s,
            pos + code.len(),
            zeros(width - code.len()),
        ) && stands_at(s, pos + width, ser_u32(TAG_KEY) + issuer) && p == pos + width + 36),
{
    if let Some((a, p)) = parse_credit(s, pos, width) {
        let field = parse_bytes(s, pos, width)->Some_0.0;
        lemma_untrimmed(field);
        let code = trimmed(field);
        lemma_split(s, pos, code, zeros(width - code.len()));
        lemma_key_stands(s, pos + width);
    }
}

/// What is read as an asset is made of the bytes of that asset.
#[verifier::rlimit(50)]
pub proof fn lemma_asset_stands(s: Seq<u8>, pos: int)
    ensures
        parse_asset(s, pos) matches Some((a, p)) ==> stands_at(s, pos, ser_asset(a)) && asset_wf(a)
            && p == pos + ser_asset(a).len(),
{
    if let Some((a, p)) = parse_asset(s, pos) {
        lemma_u32_stands(s, pos);
        let tag = parse_u32(s, pos)->Some_0.0;
        if tag != TAG_NATIVE {
            let width: int = if tag == TAG_CODE4 {
                4
            } else {
                12
            };
            lemma_credit_stands(s, pos + 4, width);
            match a {
                AssetView::Credit { code, issuer } => {
                    let pad = zeros(width - code.len());
                    let k = ser_u32(TAG_KEY) + issuer;
                    lemma_join(s, pos, ser_u32(tag), code);
                    lemma_join(s, pos, ser_u32(tag) + code, pad);
                    lemma_join(s, pos, ser_u32(tag) + code + pad, k);
                    assert(ser_u32(tag) + code + pad + k =~= ser_u32(tag) + code + pad + ser_u32(
                        TAG_KEY,
                    ) + issuer);
                },
                AssetView::Native => {},
            }
        }
    }
}

/// What is read as an operation's payload is made of its bytes.
pub proof fn lemma_body_stands(s: Seq<u8>, pos: int)
    ensures
        parse_body(s, pos) matches Some((b, p)) ==> stands_at(s, pos, ser_body(b)) && (
        b matches OperationBodyView::ChangeTrust(c) ==> asset_wf(c.line)) && p == pos + ser_body(
            b,
        ).len(),
{
    if let Some((b, p)) = parse_body(s, pos) {
        lemma_u32_stands(s, pos);
        if let OperationBodyView::ChangeTrust(c) = b {
            lemma_asset_stands(s, pos + 4);
            lemma_i64_stands(s, pos + 4 + ser_asset(c.line).len());
            lemma_join(s, pos, ser_u32(TAG_CHANGE_TRUST), ser_asset(c.line));
            lemma_join(s, pos, ser_u32(TAG_CHANGE_TRUST) + ser_asset(c.line), ser_i64(c.limit));
        }
    }
}

/// What is read as the wire structure of an operation is made of its
/// bytes.
pub proof fn lemma_wire_operation_stands(s: Seq<u8>, pos: int)
    ensures
        parse_wire_operation(s, pos) matches Some((w, p)) ==> stands_at(
            s,
            pos,
            ser_wire_operation(w),
        ) && wire_operation_wf(w) && p == pos + ser_wire_operation(w).len(),
{
    if let Some((w, p)) = parse_wire_operation(s, pos) {
        lemma_account_option_stands(s, pos);
        lemma_body_stands(s, pos + ser_account_option(w.source_account).len());
        lemma_join(s, pos, ser_account_option(w.source_account), ser_body(w.body));
    }
}

/// The operation that a wire structure stands for has that wire structure.
pub proof fn lemma_wire_of_decoded(w: WireOperationView)
    ensures
        operation_to_wire(operation_from_wire(w)) == w,
{
}

/// What is read as operations is made of their bytes.
#[verifier::rlimit(50)]
pub proof fn lemma_operations_stand(s: Seq<u8>, pos: int, count: nat)
    requires
        0 <= pos <= s.len(),
    ensures
        parse_operations(s, pos, count) matches Some((ops, p)) ==> ops.len() == count && stands_at(
            s,
            pos,
            ser_operations(ops),
        ) && p == pos + ser_operations(ops).len() && (forall|i: int|
            0 <= i < ops.len() ==> operation_wf(#[trigger] ops[i])),
    decreases count,
{
    if let Some((ops, p)) = parse_operations(s, pos, count) {
        if count == 0 {
            assert(s.subrange(pos, pos) =~= Seq::<u8>::empty());
        } else {
            lemma_operations_stand(s, pos, (count - 1) as nat);
            let (front, q) = parse_operations(s, pos, (count - 1) as nat)->Some_0;
            lemma_wire_operation_stands(s, q);
            let w = parse_wire_operation(s, q)->Some_0.0;
            lemma_wire_of_decoded(w);
            assert(ops == front.push(operation_from_wire(w)));
            assert(ops.drop_last() =~= front);
            assert(ops.last() == operation_from_wire(w));
            lemma_join(s, pos, ser_operations(front), ser_wire_operation(w));
            assert forall|i: int| 0 <= i < ops.len() implies operation_wf(#[trigger] ops[i]) by {
                if i < front.len() {
                    assert(ops[i] == front[i]);
                }
            }
        }
    }
}

/// What is read as the head of a transaction is made of its bytes.
#[verifier::rlimit(50)]
pub proof fn lemma_header_stands(s: Seq<u8>, pos: int, tx: TransactionView)
    ensures
        parse_header(s, pos) matches Some(((a, fee, seq), p)) ==> (a == tx.source_account && fee
            == tx.fee && seq == tx.sequence ==> stands_at(s, pos, ser_header(tx)) && account_wf(a)
            && p == pos + ser_header(tx).len()),
{
    if let Some(((a, fee, seq), p)) = parse_header(s, pos) {
        lemma_account_stands(s, pos);
        let p1 = pos + ser_account(a).len();
        lemma_u32_stands(s, p1);
        lemma_i64_stands(s, p1 + 4);
        lemma_constant_stands(s, p1 + 12, 0);
        lemma_constant_stands(s, p1 + 16, 0);
        lemma_join(s, pos, ser_account(a), ser_u32(fee));
        lemma_join(s, pos, ser_account(a) + ser_u32(fee), ser_i64(seq));
        lemma_join(s, pos, ser_account(a) + ser_u32(fee) + ser_i64(seq), ser_u32(0));
        lemma_join(s, pos, ser_account(a) + ser_u32(fee) + ser_i64(seq) + ser_u32(0), ser_u32(0));
    }
}

/// Where the head of a transaction, the count of its operations, the
/// operations and the mark of no extension stand one behind the other, the
/// transaction stands.
pub proof fn lemma_transaction_joined(s: Seq<u8>, pos: int, tx: TransactionView)
    requires
        stands_at(s, pos, ser_header(tx)),
        stands_at(s, pos + ser_header(tx).len(), ser_u32(tx.operations.len() as u32)),
        stands_at(s, pos + ser_header(tx).len() + 4, ser_operations(tx.operations)),
        stands_at(
            s,
            pos + ser_header(tx).len() + 4 + ser_operations(tx.operations).len(),
            ser_u32(0),
        ),
    ensures
        stands_at(s, pos, ser_transaction(tx)),
        ser_transaction(tx).len() == ser_header(tx).len() + 8 + ser_operations(tx.operations).len(),
{
    let head = ser_header(tx);
    let count = ser_u32(tx.operations.len() as u32);
    let ops = ser_operations(tx.operations);
    lemma_join(s, pos, head, count);
    lemma_join(s, pos, head + count, ops);
    lemma_join(s, pos, head + count + ops, ser_u32(0));
}

/// What is read as a transaction is made of the bytes of that transaction.
#[verifier::rlimit(50)]
pub proof fn lemma_transaction_stands(s: Seq<u8>, pos: int)
    ensures
        parse_transaction(s, pos) matches Some((tx, p)) ==> stands_at(s, pos, ser_transaction(tx))
            && transaction_wf(tx) && tx.operations.len() <= u32::MAX && p == pos + ser_transaction(
            tx,
        ).len(),
{
    if let Some((tx, p)) = parse_transaction(s, pos) {
        lemma_header_stands(s, pos, tx);
        let p1 = parse_header(s, pos)->Some_0.1;
        assert(p1 == pos + ser_header(tx).len());
        lemma_u32_stands(s, p1);
        let count = parse_u32(s, p1)->Some_0.0;
        lemma_operations_stand(s, p1 + 4, count as nat);
        let (ops, p3) = parse_operations(s, p1 + 4, count as nat)->Some_0;
        assert(ops == tx.operations);
        lemma_constant_stands(s, p3, 0);
        lemma_transaction_joined(s, pos, tx);
    }
}

/// What is read as a signature is made of the bytes of that signature.
pub proof fn lemma_signature_stands(s: Seq<u8>, pos: int)
    ensures
        parse_signature(s, pos) matches Some((sig, p)) ==> stands_at(s, pos, ser_signature(sig))
            && signature_wf(sig) && p == pos + 72,
{
    if let Some((sig, p)) = parse_signature(s, pos) {
        lemma_constant_stands(s, pos + 4, 64);
        lemma_join(s, pos, sig.hint, ser_u32(64));
        lemma_join(s, pos, sig.hint + ser_u32(64), sig.signature);
    }
}

/// What is read as signatures is made of their bytes.
#[verifier::rlimit(50)]
pub proof fn lemma_signatures_stand(s: Seq<u8>, pos: int, count: nat)
    requires
        0 <= pos <= s.len(),
    ensures
        parse_signatures(s, pos, count) matches Some((sigs, p)) ==> sigs.len() == count
            && stands_at(s, pos, ser_signatures(sigs)) && p == pos + ser_signatures(sigs).len() && (
        forall|i: int| 0 <= i < sigs.len() ==> signature_wf(#[trigger] sigs[i])),
    decreases count,
{
    if let Some((sigs, p)) = parse_signatures(s, pos, count) {
        if count == 0 {
            assert(s.subrange(pos, pos) =~= Seq::<u8>::empty());
        } else {
            lemma_signatures_stand(s, pos, (count - 1) as nat);
            let (front, q) = parse_signatures(s, pos, (count - 1) as nat)->Some_0;
            lemma_signature_stands(s, q);
            let sig = parse_signature(s, q)->Some_0.0;
            assert(sigs == front.push(sig));
            assert(sigs.drop_last() =~= front);
            lemma_join(s, pos, ser_signatures(front), ser_signature(sig));
            assert forall|i: int| 0 <= i < sigs.len() implies signature_wf(#[trigger] sigs[i]) by {
                if i < front.len() {
                    assert(sigs[i] == front[i]);
                }
            }
        }
    }
}

/// Where the tag, a transaction, the count of the signatures and the
/// signatures stand one behind the other and make up all of `s`, `s` is the
/// encoding of their envelope.
pub proof fn lemma_envelope_joined(s: Seq<u8>, e: EnvelopeView, p2: int)
    requires
        stands_at(s, 0, ser_u32(TAG_ENVELOPE)),
        stands_at(s, 4, ser_transaction(e.tx)),
        p2 == 4 + ser_transaction(e.tx).len(),
        stands_at(s, p2, ser_u32(e.signatures.len() as u32)),
        stands_at(s, p2 + 4, ser_signatures(e.signatures)),
        p2 + 4 + ser_signatures(e.signatures).len() == s.len(),
    ensures
        ser_envelope(e) == s,
{
    let tag = ser_u32(TAG_ENVELOPE);
    let tx = ser_transaction(e.tx);
    let count = ser_u32(e.signatures.len() as u32);
    let sigs = ser_signatures(e.signatures);
    lemma_join(s, 0, tag, tx);
    lemma_join(s, 0, tag + tx, count);
    lemma_join(s, 0, tag + tx + count, sigs);
    assert(s.subrange(0, s.len() as int) =~= s);
}

/// Only canonical bytes decode: what decodes to an envelope is the
/// encoding of that envelope, whose parts can all exist.
#[verifier::rlimit(50)]
pub proof fn lemma_decoded_is_canonical(s: Seq<u8>)
    ensures
        parse_envelope(s) matches Some(e) ==> ser_envelope(e) == s && envelope_wf(e) && countable(e),
{
    if let Some(e) = parse_envelope(s) {
        lemma_constant_stands(s, 0, TAG_ENVELOPE);
        assert(parse_constant(s, 0, TAG_ENVELOPE) == Some(4int));
        lemma_transaction_stands(s, 4);
        let (tx, p2) = parse_transaction(s, 4)->Some_0;
        assert(tx == e.tx);
        lemma_u32_stands(s, p2);
        let count = parse_u32(s, p2)->Some_0.0;
        lemma_signatures_stand(s, p2 + 4, count as nat);
        let (sigs, q) = parse_signatures(s, p2 + 4, count as nat)->Some_0;
        assert(sigs == e.signatures);
        assert(q == s.len());
        lemma_envelope_joined(s, e, p2);
    }
}

} // verus!
