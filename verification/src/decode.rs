use vstd::prelude::*;
use crate::xdr;
use crate::asset::Asset;
use crate::asset::AssetView;
use crate::asset::CreditAsset;
use crate::asset::valid_code;
use crate::canonical::lemma_decoded_is_canonical;
use crate::codec::TAG_CHANGE_TRUST;
use crate::codec::TAG_CODE12;
use crate::codec::TAG_CODE4;
use crate::codec::TAG_ENVELOPE;
use crate::codec::TAG_INFLATION;
use crate::codec::TAG_KEY;
use crate::codec::TAG_MUXED;
use crate::codec::TAG_NATIVE;
use crate::codec::countable;
use crate::codec::ser_envelope;
use crate::crypto::AccountView;
use crate::crypto::MuxedAccount;
use crate::crypto::PublicKey;
use crate::crypto::account_option_view;
use crate::error::Error;
use crate::operations::Operation;
use crate::operations::OperationView;
use crate::operations::operation_from_wire;
use crate::transaction::DecoratedSignature;
use crate::transaction::EnvelopeView;
use crate::transaction::SignatureView;
use crate::transaction::Transaction;
use crate::transaction::TransactionEnvelope;
use crate::transaction::TransactionView;
use crate::transaction::envelope_wf;
use crate::transaction::operations_view;
use crate::transaction::signatures_view;
use crate::xdr::ChangeTrustOpView;
use crate::xdr::OperationBodyView;
use crate::xdr::WireOperationView;

verus! {

/// The 32-bit number that stands at `pos`, highest byte first, and the
/// position behind it.
pub open spec fn parse_u32(s: Seq<u8>, pos: int) -> Option<(u32, int)> {
    if 0 <= pos && pos + 4 <= s.len() {
        Some(
            (
                (s[pos] * 0x100_0000 + s[pos + 1] * 0x1_0000 + s[pos + 2] * 0x100 + s[pos
                    + 3]) as u32,
                pos + 4,
            ),
        )
    } else {
        None
    }
}

/// The 64-bit number that stands at `pos`.
pub open spec fn parse_u64(s: Seq<u8>, pos: int) -> Option<(u64, int)> {
    match parse_u32(s, pos) {
        Some((hi, p)) => match parse_u32(s, p) {
            Some((lo, q)) => Some(((hi * 0x1_0000_0000 + lo) as u64, q)),
            None => None,
        },
        None => None,
    }
}

/// The signed number whose bits in two's complement are those of `u`.
pub open spec fn bits_i64(u: u64) -> i64 {
    if u < 0x8000_0000_0000_0000 {
        u as i64
    } else {
        (u - 0x1_0000_0000_0000_0000) as i64
    }
}

/// The signed 64-bit number that stands at `pos`.
pub open spec fn parse_i64(s: Seq<u8>, pos: int) -> Option<(i64, int)> {
    match parse_u64(s, pos) {
        Some((u, p)) => Some((bits_i64(u), p)),
        None => None,
    }
}

/// The `n` bytes that stand at `pos`.
pub open spec fn parse_bytes(s: Seq<u8>, pos: int, n: int) -> Option<(Seq<u8>, int)> {
    if 0 <= pos && 0 <= n && pos + n <= s.len() {
        Some((s.subrange(pos, pos + n), pos + n))
    } else {
        None
    }
}

/// The key that stands at `pos` behind its tag.
pub open spec fn parse_key(s: Seq<u8>, pos: int) -> Option<(Seq<u8>, int)> {
    match parse_u32(s, pos) {
        Some((tag, p)) => if tag == TAG_KEY {
            parse_bytes(s, p, 32)
        } else {
            None
        },
        None => None,
    }
}

/// The address that stands at `pos`.
pub open spec fn parse_account(s: Seq<u8>, pos: int) -> Option<(AccountView, int)> {
    match parse_u32(s, pos) {
        Some((tag, p)) => if tag == TAG_KEY {
            match parse_bytes(s, p, 32) {
                Some((key, q)) => Some((AccountView::Ed25519(key), q)),
                None => None,
            }
        } else if tag == TAG_MUXED {
            match parse_u64(s, p) {
                Some((id, p2)) => match parse_bytes(s, p2, 32) {
                    Some((key, q)) => Some((AccountView::Muxed(id, key), q)),
                    None => None,
                },
                None => None,
            }
        } else {
            None
        },
        None => None,
    }
}

/// The address, or its absence, that stands at `pos` behind a presence
/// flag.
pub open spec fn parse_account_option(s: Seq<u8>, pos: int) -> Option<(Option<AccountView>, int)> {
    match parse_u32(s, pos) {
        Some((flag, p)) => if flag == 0 {
            Some((None, p))
        } else if flag == 1 {
            match parse_account(s, p) {
                Some((a, q)) => Some((Some(a), q)),
                None => None,
            }
        } else {
            None
        },
        None => None,
    }
}

/// A padded field without the padding at its end.
pub open spec fn trimmed(field: Seq<u8>) -> Seq<u8>
    decreases field.len(),
{
    if field.len() > 0 && field.last() == 0 {
        trimmed(field.drop_last())
    } else {
        field
    }
}

/// The asset code that stands at `pos` in a field of `width` bytes: what
/// is left without the padding must be a code, and for the field of 12
/// bytes one that the field of 4 could not hold.
pub open spec fn parse_code(s: Seq<u8>, pos: int, width: int) -> Option<(Seq<u8>, int)> {
    match parse_bytes(s, pos, width) {
        Some((field, p)) => if valid_code(trimmed(field)) && (width == 12 ==> trimmed(field).len()
            > 4) {
            Some((trimmed(field), p))
        } else {
            None
        },
        None => None,
    }
}

/// The code and the issuer that stand at `pos`.
pub open spec fn parse_credit(s: Seq<u8>, pos: int, width: int) -> Option<(AssetView, int)> {
    match parse_code(s, pos, width) {
        Some((code, p)) => match parse_key(s, p) {
            Some((issuer, q)) => Some((AssetView::Credit { code, issuer }, q)),
            None => None,
        },
        None => None,
    }
}

/// The asset that stands at `pos`.
pub open spec fn parse_asset(s: Seq<u8>, pos: int) -> Option<(AssetView, int)> {
    match parse_u32(s, pos) {
        Some((tag, p)) => if tag == TAG_NATIVE {
            Some((AssetView::Native, p))
        } else if tag == TAG_CODE4 {
            parse_credit(s, p, 4)
        } else if tag == TAG_CODE12 {
            parse_credit(s, p, 12)
        } else {
            None
        },
        None => None,
    }
}

/// The payload of an operation that stands at `pos`.
pub open spec fn parse_body(s: Seq<u8>, pos: int) -> Option<(OperationBodyView, int)> {
    match parse_u32(s, pos) {
        Some((tag, p)) => if tag == TAG_CHANGE_TRUST {
            match parse_asset(s, p) {
                Some((line, p2)) => match parse_i64(s, p2) {
                    Some((limit, q)) => Some(
                        (OperationBodyView::ChangeTrust(ChangeTrustOpView { line, limit }), q),
                    ),
                    None => None,
                },
                None => None,
            }
        } else if tag == TAG_INFLATION {
            Some((OperationBodyView::Inflation, p))
        } else {
            None
        },
        None => None,
    }
}

/// The wire structure of an operation that stands at `pos`.
pub open spec fn parse_wire_operation(s: Seq<u8>, pos: int) -> Option<(WireOperationView, int)> {
    match parse_account_option(s, pos) {
        Some((source_account, p)) => match parse_body(s, p) {
            Some((body, q)) => Some((WireOperationView { source_account, body }, q)),
            None => None,
        },
        None => None,
    }
}

/// The `count` operations that stand at `pos`, one behind the other.
pub open spec fn parse_operations(s: Seq<u8>, pos: int, count: nat) -> Option<
    (Seq<OperationView>, int),
>
    decreases count,
{
    if count == 0 {
        Some((Seq::empty(), pos))
    } else {
        match parse_operations(s, pos, (count - 1) as nat) {
            Some((front, p)) => match parse_wire_operation(s, p) {
                Some((w, q)) => Some((front.push(operation_from_wire(w)), q)),
                None => None,
            },
            None => None,
        }
    }
}

/// The 32-bit number at `pos` where it is `expected`, else nothing.
pub open spec fn parse_constant(s: Seq<u8>, pos: int, expected: u32) -> Option<int> {
    match parse_u32(s, pos) {
        Some((v, p)) => if v == expected {
            Some(p)
        } else {
            None
        },
        None => None,
    }
}

/// The head of a transaction that stands at `pos`: source account, fee and
/// sequence number, then the marks of no time bounds and no memo.
pub open spec fn parse_header(s: Seq<u8>, pos: int) -> Option<((AccountView, u32, i64), int)> {
    match parse_account(s, pos) {
        Some((source_account, p1)) => match parse_u32(s, p1) {
            Some((fee, p2)) => match parse_i64(s, p2) {
                Some((sequence, p3)) => match parse_constant(s, p3, 0) {
                    Some(p4) => match parse_constant(s, p4, 0) {
                        Some(p5) => Some(((source_account, fee, sequence), p5)),
                        None => None,
                    },
                    None => None,
                },
                None => None,
            },
            None => None,
        },
        None => None,
    }
}

/// The transaction that stands at `pos`.
pub open spec fn parse_transaction(s: Seq<u8>, pos: int) -> Option<(TransactionView, int)> {
    match parse_header(s, pos) {
        Some(((source_account, fee, sequence), p1)) => match parse_u32(s, p1) {
            Some((count, p2)) => match parse_operations(s, p2, count as nat) {
                Some((operations, p3)) => match parse_constant(s, p3, 0) {
                    Some(q) => Some(
                        (TransactionView { source_account, sequence, fee, operations }, q),
                    ),
                    None => None,
                },
                None => None,
            },
            None => None,
        },
        None => None,
    }
}

/// The signature with its hint that stands at `pos`.
pub open spec fn parse_signature(s: Seq<u8>, pos: int) -> Option<(SignatureView, int)> {
    match parse_bytes(s, pos, 4) {
        Some((hint, p1)) => match parse_constant(s, p1, 64) {
            Some(p2) => match parse_bytes(s, p2, 64) {
                Some((signature, q)) => Some((SignatureView { hint, signature }, q)),
                None => None,
            },
            None => None,
        },
        None => None,
    }
}

/// The `count` signatures that stand at `pos`, one behind the other.
pub open spec fn parse_signatures(s: Seq<u8>, pos: int, count: nat) -> Option<
    (Seq<SignatureView>, int),
>
    decreases count,
{
    if count == 0 {
        Some((Seq::empty(), pos))
    } else {
        match parse_signatures(s, pos, (count - 1) as nat) {
            Some((front, p)) => match parse_signature(s, p) {
                Some((sig, q)) => Some((front.push(sig), q)),
                None => None,
            },
            None => None,
        }
    }
}

/// The envelope that `s` is the canonical encoding of, where it is one:
/// nothing may follow the last signature.
pub open spec fn parse_envelope(s: Seq<u8>) -> Option<EnvelopeView> {
    match parse_constant(s, 0, TAG_ENVELOPE) {
        Some(p1) => match parse_transaction(s, p1) {
            Some((tx, p2)) => match parse_u32(s, p2) {
                Some((count, p3)) => match parse_signatures(s, p3, count as nat) {
                    Some((signatures, q)) => if q == s.len() {
                        Some(EnvelopeView { tx, signatures })
                    } else {
                        None
                    },
                    None => None,
                },
                None => None,
            },
            None => None,
        },
        None => None,
    }
}

/// Reads the 32-bit number at `pos`.
pub fn read_u32(bytes: &[u8], pos: usize) -> (r: Option<(u32, usize)>)
    ensures
        match parse_u32(bytes@, pos as int) {
            Some((v, next)) => r is Some && r->Some_0.0 == v && r->Some_0.1 == next && next
                <= bytes@.len(),
            None => r is None,
        },
{
    if pos > bytes.len() || bytes.len() - pos < 4 {
        return None;
    }
    let b0 = bytes[pos] as u32;
    let b1 = bytes[pos + 1] as u32;
    let b2 = bytes[pos + 2] as u32;
    let b3 = bytes[pos + 3] as u32;
    Some((b0 * 0x100_0000 + b1 * 0x1_0000 + b2 * 0x100 + b3, pos + 4))
}

/// Reads the 64-bit number at `pos`.
pub fn read_u64(bytes: &[u8], pos: usize) -> (r: Option<(u64, usize)>)
    ensures
        match parse_u64(bytes@, pos as int) {
            Some((v, next)) => r is Some && r->Some_0.0 == v && r->Some_0.1 == next && next
                <= bytes@.len(),
            None => r is None,
        },
{
    let (hi, p) = match read_u32(bytes, pos) {
        Some(x) => x,
        None => {
            return None;
        },
    };
    let (lo, q) = match read_u32(bytes, p) {
        Some(x) => x,
        None => {
            return None;
        },
    };
    Some(((hi as u64) * 0x1_0000_0000 + (lo as u64), q))
}

/// Reads the signed 64-bit number at `pos`.
pub fn read_i64(bytes: &[u8], pos: usize) -> (r: Option<(i64, usize)>)
    ensures
        match parse_i64(bytes@, pos as int) {
            Some((v, next)) => r is Some && r->Some_0.0 == v && r->Some_0.1 == next && next
                <= bytes@.len(),
            None => r is None,
        },
{
    let (u, p) = match read_u64(bytes, pos) {
        Some(x) => x,
        None => {
            return None;
        },
    };
    let v: i64 = if u < 0x8000_0000_0000_0000 {
        u as i64
    } else {
        ((u - 0x8000_0000_0000_0000) as i64 - 0x7fff_ffff_ffff_ffff) - 1
    };
    Some((v, p))
}

/// Reads the `n` bytes at `pos`.
pub fn read_bytes(bytes: &[u8], pos: usize, n: usize) -> (r: Option<(Vec<u8>, usize)>)
    ensures
        match parse_bytes(bytes@, pos as int, n as int) {
            Some((v, next)) => r is Some && r->Some_0.0@ == v && r->Some_0.1 == next && next
                <= bytes@.len(),
            None => r is None,
        },
{
    if pos > bytes.len() || bytes.len() - pos < n {
        return None;
    }
    let mut out: Vec<u8> = Vec::new();
    let mut i: usize = 0;
    while i < n
        invariant
            i <= n,
            pos + n <= bytes@.len() <= usize::MAX,
            out@ == bytes@.subrange(pos as int, pos + i),
        decreases n - i,
    {
        out.push(bytes[pos + i]);
        assert(out@ =~= bytes@.subrange(pos as int, pos + i + 1));
        i += 1;
    }
    Some((out, pos + n))
}

/// Reads the 32-bit number at `pos` and succeeds where it is `expected`.
pub fn read_constant(bytes: &[u8], pos: usize, expected: u32) -> (r: Option<usize>)
    ensures
        match parse_constant(bytes@, pos as int, expected) {
            Some(next) => r is Some && r->Some_0 == next && next <= bytes@.len(),
            None => r is None,
        },
{
    match read_u32(bytes, pos) {
        Some((v, p)) => if v == expected {
            Some(p)
        } else {
            None
        },
        None => None,
    }
}

/// Reads the key at `pos` behind its tag.
pub fn read_key(bytes: &[u8], pos: usize) -> (r: Option<(PublicKey, usize)>)
    ensures
        match parse_key(bytes@, pos as int) {
            Some((v, next)) => r is Some && r->Some_0.0@ == v && r->Some_0.1 == next && next
                <= bytes@.len(),
            None => r is None,
        },
{
    let p = match read_constant(bytes, pos, TAG_KEY) {
        Some(p) => p,
        None => {
            return None;
        },
    };
    let (raw, q) = match read_bytes(bytes, p, 32) {
        Some(x) => x,
        None => {
            return None;
        },
    };
    match PublicKey::from_bytes(raw) {
        Ok(key) => Some((key, q)),
        Err(_) => None,
    }
}

/// Reads the address at `pos`.
pub fn read_account(bytes: &[u8], pos: usize) -> (r: Option<(MuxedAccount, usize)>)
    ensures
        match parse_account(bytes@, pos as int) {
            Some((v, next)) => r is Some && r->Some_0.0@ == v && r->Some_0.1 == next && next
                <= bytes@.len(),
            None => r is None,
        },
{
    let (tag, p) = match read_u32(bytes, pos) {
        Some(x) => x,
        None => {
            return None;
        },
    };
    if tag == TAG_KEY {
        let (raw, q) = match read_bytes(bytes, p, 32) {
            Some(x) => x,
            None => {
                return None;
            },
        };
        match PublicKey::from_bytes(raw) {
            Ok(key) => Some((MuxedAccount::Ed25519(key), q)),
            Err(_) => None,
        }
    } else if tag == TAG_MUXED {
        let (id, p2) = match read_u64(bytes, p) {
            Some(x) => x,
            None => {
                return None;
            },
        };
        let (raw, q) = match read_bytes(bytes, p2, 32) {
            Some(x) => x,
            None => {
                return None;
            },
        };
        match PublicKey::from_bytes(raw) {
            Ok(key) => Some((MuxedAccount::Muxed { id, key }, q)),
            Err(_) => None,
        }
    } else {
        None
    }
}

/// Reads the address, or its absence, at `pos`.
pub fn read_account_option(bytes: &[u8], pos: usize) -> (r: Option<(Option<MuxedAccount>, usize)>)
    ensures
        match parse_account_option(bytes@, pos as int) {
            Some((v, next)) => r is Some && account_option_view(r->Some_0.0) == v && r->Some_0.1
                == next && next <= bytes@.len(),
            None => r is None,
        },
{
    let (flag, p) = match read_u32(bytes, pos) {
        Some(x) => x,
        None => {
            return None;
        },
    };
    if flag == 0 {
        Some((None, p))
    } else if flag == 1 {
        match read_account(bytes, p) {
            Some((a, q)) => Some((Some(a), q)),
            None => None,
        }
    } else {
        None
    }
}

/// The length of `field` without the padding at its end.
pub fn trimmed_len(field: &Vec<u8>) -> (n: usize)
    ensures
        n <= field@.len(),
        field@.subrange(0, n as int) == trimmed(field@),
{
    let mut n: usize = field.len();
    assert(field@.subrange(0, n as int) =~= field@);
    while n > 0 && field[n - 1] == 0
        invariant
            n <= field@.len(),
            trimmed(field@.subrange(0, n as int)) == trimmed(field@),
        decreases n,
    {
        assert(field@.subrange(0, n as int).drop_last() =~= field@.subrange(0, n - 1));
        n -= 1;
    }
    n
}

/// Reads the code and the issuer at `pos`, the code in a field of `width`
/// bytes.
fn read_credit(bytes: &[u8], pos: usize, width: usize) -> (r: Option<(Asset, usize)>)
    requires
        width == 4 || width == 12,
    ensures
        match parse_credit(bytes@, pos as int, width as int) {
            Some((v, next)) => r is Some && r->Some_0.0@ == v && r->Some_0.1 == next && next
                <= bytes@.len(),
            None => r is None,
        },
{
    let (field, p) = match read_bytes(bytes, pos, width) {
        Some(x) => x,
        None => {
            return None;
        },
    };
    let n = trimmed_len(&field);
    let (code, _) = match read_bytes(field.as_slice(), 0, n) {
        Some(x) => x,
        None => {
            return None;
        },
    };
    if width == 12 && n <= 4 {
        return None;
    }
    if !crate::asset::check_code(code.as_slice()) {
        return None;
    }
    let (issuer, q) = match read_key(bytes, p) {
        Some(x) => x,
        None => {
            return None;
        },
    };
    match CreditAsset::new(code.as_slice(), issuer) {
        Ok(c) => Some((Asset::Credit(c), q)),
        Err(_) => None,
    }
}

/// Reads the asset at `pos`.
pub fn read_asset(bytes: &[u8], pos: usize) -> (r: Option<(Asset, usize)>)
    ensures
        match parse_asset(bytes@, pos as int) {
            Some((v, next)) => r is Some && r->Some_0.0@ == v && r->Some_0.1 == next && next
                <= bytes@.len(),
            None => r is None,
        },
{
    let (tag, p) = match read_u32(bytes, pos) {
        Some(x) => x,
        None => {
            return None;
        },
    };
    if tag == TAG_NATIVE {
        Some((Asset::Native, p))
    } else if tag == TAG_CODE4 {
        read_credit(bytes, p, 4)
    } else if tag == TAG_CODE12 {
        read_credit(bytes, p, 12)
    } else {
        None
    }
}

/// Reads the wire structure of an operation at `pos`.
pub fn read_wire_operation(bytes: &[u8], pos: usize) -> (r: Option<(xdr::Operation, usize)>)
    ensures
        match parse_wire_operation(bytes@, pos as int) {
            Some((v, next)) => r is Some && r->Some_0.0@ == v && r->Some_0.1 == next && next
                <= bytes@.len(),
            None => r is None,
        },
{
    let (source_account, p) = match read_account_option(bytes, pos) {
        Some(x) => x,
        None => {
            return None;
        },
    };
    let (tag, p1) = match read_u32(bytes, p) {
        Some(x) => x,
        None => {
            return None;
        },
    };
    if tag == TAG_CHANGE_TRUST {
        let (line, p2) = match read_asset(bytes, p1) {
            Some(x) => x,
            None => {
                return None;
            },
        };
        let (limit, q) = match read_i64(bytes, p2) {
            Some(x) => x,
            None => {
                return None;
            },
        };
        let body = xdr::OperationBody::ChangeTrust(
            xdr::ChangeTrustOp { line, limit: xdr::Int64::new(limit) },
        );
        Some((xdr::Operation { source_account, body }, q))
    } else if tag == TAG_INFLATION {
        Some((xdr::Operation { source_account, body: xdr::OperationBody::Inflation }, p1))
    } else {
        None
    }
}

/// Where no `k` operations stand at `pos`, no greater number of them does.
pub proof fn lemma_operations_stay_absent(s: Seq<u8>, pos: int, k: nat, count: nat)
    requires
        k <= count,
        parse_operations(s, pos, k) is None,
    ensures
        parse_operations(s, pos, count) is None,
    decreases count,
{
    if k < count {
        lemma_operations_stay_absent(s, pos, k, (count - 1) as nat);
    }
}

/// Where no `k` signatures stand at `pos`, no greater number of them does.
pub proof fn lemma_signatures_stay_absent(s: Seq<u8>, pos: int, k: nat, count: nat)
    requires
        k <= count,
        parse_signatures(s, pos, k) is None,
    ensures
        parse_signatures(s, pos, count) is None,
    decreases count,
{
    if k < count {
        lemma_signatures_stay_absent(s, pos, k, (count - 1) as nat);
    }
}

/// Reads the `count` operations at `pos`.
pub fn read_operations(bytes: &[u8], pos: usize, count: u32) -> (r: Option<(Vec<Operation>, usize)>)
    ensures
        match parse_operations(bytes@, pos as int, count as nat) {
            Some((v, next)) => r is Some && operations_view(r->Some_0.0@) == v && r->Some_0.1
                == next,
            None => r is None,
        },
{
    let mut out: Vec<Operation> = Vec::new();
    let mut cur: usize = pos;
    let mut i: u32 = 0;
    assert(operations_view(out@) =~= Seq::empty());
    while i < count
        invariant
            i <= count,
            parse_operations(bytes@, pos as int, i as nat) == Some(
                (operations_view(out@), cur as int),
            ),
        decreases count - i,
    {
        match read_wire_operation(bytes, cur) {
            Some((w, next)) => {
                match Operation::from_xdr(&w) {
                    Ok(op) => {
                        let ghost before = out@;
                        out.push(op);
                        assert(operations_view(out@) =~= operations_view(before).push(op@));
                        cur = next;
                    },
                    Err(_) => {
                        return None;
                    },
                }
            },
            None => {
                proof {
                    assert(parse_operations(bytes@, pos as int, (i + 1) as nat) is None);
                    lemma_operations_stay_absent(bytes@, pos as int, (i + 1) as nat, count as nat);
                }
                return None;
            },
        }
        i += 1;
    }
    Some((out, cur))
}

/// Reads the transaction at `pos`.
pub fn read_transaction(bytes: &[u8], pos: usize) -> (r: Option<(Transaction, usize)>)
    ensures
        match parse_transaction(bytes@, pos as int) {
            Some((v, next)) => r is Some && r->Some_0.0@ == v && r->Some_0.1 == next && next
                <= bytes@.len(),
            None => r is None,
        },
{
    let (source_account, p1) = match read_account(bytes, pos) {
        Some(x) => x,
        None => {
            return None;
        },
    };
    let (fee, p2) = match read_u32(bytes, p1) {
        Some(x) => x,
        None => {
            return None;
        },
    };
    let (sequence, p3) = match read_i64(bytes, p2) {
        Some(x) => x,
        None => {
            return None;
        },
    };
    let p4 = match read_constant(bytes, p3, 0) {
        Some(x) => x,
        None => {
            return None;
        },
    };
    let p5 = match read_constant(bytes, p4, 0) {
        Some(x) => x,
        None => {
            return None;
        },
    };
    let (count, p6) = match read_u32(bytes, p5) {
        Some(x) => x,
        None => {
            return None;
        },
    };
    let (operations, p7) = match read_operations(bytes, p6, count) {
        Some(x) => x,
        None => {
            return None;
        },
    };
    let q = match read_constant(bytes, p7, 0) {
        Some(x) => x,
        None => {
            return None;
        },
    };
    Some((Transaction::from_parts(source_account, sequence, fee, operations), q))
}

/// Reads the signature with its hint at `pos`.
pub fn read_signature(bytes: &[u8], pos: usize) -> (r: Option<(DecoratedSignature, usize)>)
    ensures
        match parse_signature(bytes@, pos as int) {
            Some((v, next)) => r is Some && r->Some_0.0@ == v && r->Some_0.1 == next && next
                <= bytes@.len(),
            None => r is None,
        },
{
    let (hint, p1) = match read_bytes(bytes, pos, 4) {
        Some(x) => x,
        None => {
            return None;
        },
    };
    let p2 = match read_constant(bytes, p1, 64) {
        Some(x) => x,
        None => {
            return None;
        },
    };
    let (signature, q) = match read_bytes(bytes, p2, 64) {
        Some(x) => x,
        None => {
            return None;
        },
    };
    match DecoratedSignature::new(hint, signature) {
        Ok(s) => Some((s, q)),
        Err(_) => None,
    }
}

/// Reads the `count` signatures at `pos`.
pub fn read_signatures(bytes: &[u8], pos: usize, count: u32) -> (r: Option<
    (Vec<DecoratedSignature>, usize),
>)
    ensures
        match parse_signatures(bytes@, pos as int, count as nat) {
            Some((v, next)) => r is Some && signatures_view(r->Some_0.0@) == v && r->Some_0.1
                == next,
            None => r is None,
        },
{
    let mut out: Vec<DecoratedSignature> = Vec::new();
    let mut cur: usize = pos;
    let mut i: u32 = 0;
    assert(signatures_view(out@) =~= Seq::empty());
    while i < count
        invariant
            i <= count,
            parse_signatures(bytes@, pos as int, i as nat) == Some(
                (signatures_view(out@), cur as int),
            ),
        decreases count - i,
    {
        match read_signature(bytes, cur) {
            Some((s, next)) => {
                let ghost before = out@;
                out.push(s);
                assert(signatures_view(out@) =~= signatures_view(before).push(s@));
                cur = next;
            },
            None => {
                proof {
                    assert(parse_signatures(bytes@, pos as int, (i + 1) as nat) is None);
                    lemma_signatures_stay_absent(bytes@, pos as int, (i + 1) as nat, count as nat);
                }
                return None;
            },
        }
        i += 1;
    }
    Some((out, cur))
}

/// The envelope that `bytes` are the canonical encoding of, or
/// `MalformedWire` where they are that of none. Encoding the envelope
/// gives the bytes back.
pub fn decode_envelope(bytes: &[u8]) -> (r: Result<TransactionEnvelope, Error>)
    ensures
        match parse_envelope(bytes@) {
            Some(e) => r is Ok && r->Ok_0@ == e,
            None => r == Err::<TransactionEnvelope, Error>(Error::MalformedWire),
        },
        r is Ok ==> ser_envelope(r->Ok_0@) == bytes@ && envelope_wf(r->Ok_0@) && countable(
            r->Ok_0@,
        ),
{
    proof {
        lemma_decoded_is_canonical(bytes@);
    }
    let p1 = match read_constant(bytes, 0, TAG_ENVELOPE) {
        Some(x) => x,
        None => {
            return Err(Error::MalformedWire);
        },
    };
    let (tx, p2) = match read_transaction(bytes, p1) {
        Some(x) => x,
        None => {
            return Err(Error::MalformedWire);
        },
    };
    let (count, p3) = match read_u32(bytes, p2) {
        Some(x) => x,
        None => {
            return Err(Error::MalformedWire);
        },
    };
    let (signatures, q) = match read_signatures(bytes, p3, count) {
        Some(x) => x,
        None => {
            return Err(Error::MalformedWire);
        },
    };
    if q != bytes.len() {
        return Err(Error::MalformedWire);
    }
    Ok(TransactionEnvelope::from_parts(tx, signatures))
}

} // verus!
