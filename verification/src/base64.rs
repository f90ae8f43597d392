use vstd::prelude::*;
use crate::error::Error;

verus! {

/// The padding character, `=`.
pub const PAD: u8 = 61;

/// The character that stands for the 6-bit value `v`.
pub open spec fn sextet_char(v: int) -> u8 {
    if v < 26 {
        (65 + v) as u8
    } else if v < 52 {
        (71 + v) as u8
    } else if v < 62 {
        (v - 4) as u8
    } else if v == 62 {
        43
    } else {
        47
    }
}

/// The 6-bit value that the character `c` stands for, or -1 where it
/// stands for none.
pub open spec fn sextet_value(c: u8) -> int {
    if 65 <= c <= 90 {
        c - 65
    } else if 97 <= c <= 122 {
        c - 71
    } else if 48 <= c <= 57 {
        c + 4
    } else if c == 43 {
        62
    } else if c == 47 {
        63
    } else {
        -1
    }
}

/// The 4 characters of 3 bytes.
pub open spec fn encode_group(b0: u8, b1: u8, b2: u8) -> Seq<u8> {
    seq![
        sextet_char(b0 as int / 4),
        sextet_char((b0 % 4) * 16 + b1 / 16),
        sextet_char((b1 % 16) * 4 + b2 / 64),
        sextet_char(b2 as int % 64),
    ]
}

/// The characters of the groups of 3 bytes of `s`; what is left of `s`
/// behind the last whole group is not looked at.
pub open spec fn encode_groups(s: Seq<u8>) -> Seq<u8>
    decreases s.len(),
{
    if s.len() < 3 {
        Seq::empty()
    } else {
        encode_groups(s.subrange(0, s.len() - 3)) + encode_group(
            s[s.len() - 3],
            s[s.len() - 2],
            s[s.len() - 1],
        )
    }
}

/// The 4 characters of the 1 or 2 bytes behind the last whole group, with
/// padding; nothing where no byte is left.
pub open spec fn encode_rest(rest: Seq<u8>) -> Seq<u8> {
    if rest.len() == 1 {
        seq![sextet_char(rest[0] as int / 4), sextet_char((rest[0] % 4) * 16), PAD, PAD]
    } else if rest.len() == 2 {
        seq![
            sextet_char(rest[0] as int / 4),
            sextet_char((rest[0] % 4) * 16 + rest[1] / 16),
            sextet_char((rest[1] % 16) * 4),
            PAD,
        ]
    } else {
        Seq::empty()
    }
}

/// The base64 text of `s`, in the standard alphabet and with padding.
pub open spec fn encoded(s: Seq<u8>) -> Seq<u8> {
    let whole = s.len() - s.len() % 3;
    encode_groups(s.subrange(0, whole)) + encode_rest(s.subrange(whole, s.len() as int))
}

/// The 3 bytes of 4 characters, where each stands for a value.
pub open spec fn decode_group(c0: u8, c1: u8, c2: u8, c3: u8) -> Option<Seq<u8>> {
    let v0 = sextet_value(c0);
    let v1 = sextet_value(c1);
    let v2 = sextet_value(c2);
    let v3 = sextet_value(c3);
    if v0 >= 0 && v1 >= 0 && v2 >= 0 && v3 >= 0 {
        Some(seq![(v0 * 4 + v1 / 16) as u8, ((v1 % 16) * 16 + v2 / 4) as u8, ((v2 % 4) * 64 + v3) as u8])
    } else {
        None
    }
}

/// The bytes of the groups of 4 characters of `t`, none of them padded.
pub open spec fn decode_groups(t: Seq<u8>) -> Option<Seq<u8>>
    decreases t.len(),
{
    if t.len() < 4 {
        Some(Seq::empty())
    } else {
        match decode_groups(t.subrange(0, t.len() - 4)) {
            Some(front) => match decode_group(
                t[t.len() - 4],
                t[t.len() - 3],
                t[t.len() - 2],
                t[t.len() - 1],
            ) {
                Some(g) => Some(front + g),
                None => None,
            },
            None => None,
        }
    }
}

/// The bytes of the last 4 characters of a text, which may end in one or
/// two padding characters; the bits that stand for no byte must be 0.
pub open spec fn decode_last(c0: u8, c1: u8, c2: u8, c3: u8) -> Option<Seq<u8>> {
    let v0 = sextet_value(c0);
    let v1 = sextet_value(c1);
    let v2 = sextet_value(c2);
    if c3 != PAD {
        decode_group(c0, c1, c2, c3)
    } else if c2 != PAD {
        if v0 >= 0 && v1 >= 0 && v2 >= 0 && v2 % 4 == 0 {
            Some(seq![(v0 * 4 + v1 / 16) as u8, ((v1 % 16) * 16 + v2 / 4) as u8])
        } else {
            None
        }
    } else {
        if v0 >= 0 && v1 >= 0 && v1 % 16 == 0 {
            Some(seq![(v0 * 4 + v1 / 16) as u8])
        } else {
            None
        }
    }
}

/// The bytes that `t` is the canonical base64 text of, where it is one.
pub open spec fn decoded(t: Seq<u8>) -> Option<Seq<u8>> {
    if t.len() % 4 != 0 {
        None
    } else if t.len() == 0 {
        Some(Seq::empty())
    } else {
        match decode_groups(t.subrange(0, t.len() - 4)) {
            Some(front) => match decode_last(
                t[t.len() - 4],
                t[t.len() - 3],
                t[t.len() - 2],
                t[t.len() - 1],
            ) {
                Some(last) => Some(front + last),
                None => None,
            },
            None => None,
        }
    }
}

/// The character of a 6-bit value.
fn char_of(v: u8) -> (c: u8)
    requires
        v < 64,
    ensures
        c == sextet_char(v as int),
        c != PAD,
        sextet_value(c) == v,
{
    if v < 26 {
        65 + v
    } else if v < 52 {
        71 + v
    } else if v < 62 {
        v - 4
    } else if v == 62 {
        43
    } else {
        47
    }
}

/// The 6-bit value of a character, if it has one.
fn value_of(c: u8) -> (v: Option<u8>)
    ensures
        match v {
            Some(x) => x == sextet_value(c) && x < 64,
            None => sextet_value(c) < 0,
        },
{
    if 65 <= c && c <= 90 {
        Some(c - 65)
    } else if 97 <= c && c <= 122 {
        Some(c - 71)
    } else if 48 <= c && c <= 57 {
        Some(c + 4)
    } else if c == 43 {
        Some(62)
    } else if c == 47 {
        Some(63)
    } else {
        None
    }
}

/// The base64 text of `bytes`.
pub fn encode(bytes: &[u8]) -> (r: Vec<u8>)
    ensures
        r@ == encoded(bytes@),
{
    let n = bytes.len();
    let whole = n - n % 3;
    let mut out: Vec<u8> = Vec::new();
    let mut i: usize = 0;
    while i < whole
        invariant
            i <= whole,
            whole <= n,
            n == bytes@.len(),
            i % 3 == 0,
            whole % 3 == 0,
            out@ == encode_groups(bytes@.subrange(0, i as int)),
        decreases whole - i,
    {
        let b0 = bytes[i];
        let b1 = bytes[i + 1];
        let b2 = bytes[i + 2];
        out.push(char_of(b0 / 4));
        out.push(char_of((b0 % 4) * 16 + b1 / 16));
        out.push(char_of((b1 % 16) * 4 + b2 / 64));
        out.push(char_of(b2 % 64));
        proof {
            let next = bytes@.subrange(0, i + 3);
            assert(next.subrange(0, next.len() - 3) =~= bytes@.subrange(0, i as int));
            assert(out@ =~= encode_groups(bytes@.subrange(0, i as int)) + encode_group(b0, b1, b2));
        }
        i += 3;
    }
    let ghost rest = bytes@.subrange(whole as int, n as int);
    if n - whole == 1 {
        let b0 = bytes[whole];
        out.push(char_of(b0 / 4));
        out.push(char_of((b0 % 4) * 16));
        out.push(PAD);
        out.push(PAD);
        assert(out@ =~= encode_groups(bytes@.subrange(0, whole as int)) + encode_rest(rest));
    } else if n - whole == 2 {
        let b0 = bytes[whole];
        let b1 = bytes[whole + 1];
        out.push(char_of(b0 / 4));
        out.push(char_of((b0 % 4) * 16 + b1 / 16));
        out.push(char_of((b1 % 16) * 4));
        out.push(PAD);
        assert(out@ =~= encode_groups(bytes@.subrange(0, whole as int)) + encode_rest(rest));
    } else {
        assert(out@ =~= encode_groups(bytes@.subrange(0, whole as int)) + encode_rest(rest));
    }
    out
}

/// Appends the 3 bytes of 4 unpadded characters, where each stands for a
/// value.
fn push_group(out: &mut Vec<u8>, c0: u8, c1: u8, c2: u8, c3: u8) -> (ok: bool)
    ensures
        match decode_group(c0, c1, c2, c3) {
            Some(g) => ok && final(out)@ == old(out)@ + g,
            None => !ok,
        },
{
    match (value_of(c0), value_of(c1), value_of(c2), value_of(c3)) {
        (Some(v0), Some(v1), Some(v2), Some(v3)) => {
            out.push(v0 * 4 + v1 / 16);
            out.push((v1 % 16) * 16 + v2 / 4);
            out.push((v2 % 4) * 64 + v3);
            assert(out@ =~= old(out)@ + decode_group(c0, c1, c2, c3)->Some_0);
            true
        },
        _ => false,
    }
}

/// Appends the bytes of the last 4 characters of a text.
fn push_last(out: &mut Vec<u8>, c0: u8, c1: u8, c2: u8, c3: u8) -> (ok: bool)
    ensures
        match decode_last(c0, c1, c2, c3) {
            Some(g) => ok && final(out)@ == old(out)@ + g,
            None => !ok,
        },
{
    if c3 != PAD {
        return push_group(out, c0, c1, c2, c3);
    }
    if c2 != PAD {
        match (value_of(c0), value_of(c1), value_of(c2)) {
            (Some(v0), Some(v1), Some(v2)) => {
                if v2 % 4 != 0 {
                    return false;
                }
                out.push(v0 * 4 + v1 / 16);
                out.push((v1 % 16) * 16 + v2 / 4);
                assert(out@ =~= old(out)@ + decode_last(c0, c1, c2, c3)->Some_0);
                true
            },
            _ => false,
        }
    } else {
        match (value_of(c0), value_of(c1)) {
            (Some(v0), Some(v1)) => {
                if v1 % 16 != 0 {
                    return false;
                }
                out.push(v0 * 4 + v1 / 16);
                assert(out@ =~= old(out)@ + decode_last(c0, c1, c2, c3)->Some_0);
                true
            },
            _ => false,
        }
    }
}

/// Where the groups of a front part of `t` stand for no bytes, those of
/// `t` stand for none.
pub proof fn lemma_groups_stay_absent(t: Seq<u8>, k: int)
    requires
        0 <= k <= t.len(),
        k % 4 == 0,
        t.len() % 4 == 0,
        decode_groups(t.subrange(0, k)) is None,
    ensures
        decode_groups(t) is None,
    decreases t.len(),
{
    if k < t.len() {
        let front = t.subrange(0, t.len() - 4);
        assert(front.subrange(0, k) =~= t.subrange(0, k));
        lemma_groups_stay_absent(front, k);
    } else {
        assert(t.subrange(0, k) =~= t);
    }
}

/// The bytes that `text` is the canonical base64 text of, or
/// `InvalidBase64` where it is that of none. Encoding the bytes gives the
/// text back.
pub fn decode(text: &[u8]) -> (r: Result<Vec<u8>, Error>)
    ensures
        match decoded(text@) {
            Some(s) => r is Ok && r->Ok_0@ == s,
            None => r == Err::<Vec<u8>, Error>(Error::InvalidBase64),
        },
        r is Ok ==> encoded(r->Ok_0@) == text@,
{
    proof {
        lemma_decoded_is_canonical(text@);
    }
    let n = text.len();
    if n % 4 != 0 {
        return Err(Error::InvalidBase64);
    }
    let mut out: Vec<u8> = Vec::new();
    if n == 0 {
        return Ok(out);
    }
    let front = n - 4;
    let ghost head = text@.subrange(0, front as int);
    let mut i: usize = 0;
    while i < front
        invariant
            i <= front,
            front + 4 == n,
            n == text@.len(),
            i % 4 == 0,
            front % 4 == 0,
            head == text@.subrange(0, front as int),
            decode_groups(head.subrange(0, i as int)) == Some(out@),
        decreases front - i,
    {
        let ghost before = out@;
        let ok = push_group(&mut out, text[i], text[i + 1], text[i + 2], text[i + 3]);
        proof {
            let next = head.subrange(0, i + 4);
            assert(next.subrange(0, next.len() - 4) =~= head.subrange(0, i as int));
            if !ok {
                lemma_groups_stay_absent(head, i + 4);
            }
        }
        if !ok {
            return Err(Error::InvalidBase64);
        }
        i += 4;
    }
    assert(head.subrange(0, front as int) =~= head);
    let ok = push_last(&mut out, text[front], text[front + 1], text[front + 2], text[front + 3]);
    if !ok {
        return Err(Error::InvalidBase64);
    }
    Ok(out)
}

/// Each 6-bit value is the value of its character, and no character of a
/// value is the padding character.
pub proof fn lemma_sextet(v: int)
    requires
        0 <= v < 64,
    ensures
        sextet_value(sextet_char(v)) == v,
        sextet_char(v) != PAD,
{
}

/// The 4 characters of 3 bytes stand for these 3 bytes.
#[verifier::rlimit(50)]
pub proof fn lemma_group(b0: u8, b1: u8, b2: u8)
    ensures
        encode_group(b0, b1, b2).len() == 4,
        decode_group(
            encode_group(b0, b1, b2)[0],
            encode_group(b0, b1, b2)[1],
            encode_group(b0, b1, b2)[2],
            encode_group(b0, b1, b2)[3],
        ) == Some(seq![b0, b1, b2]),
        encode_group(b0, b1, b2)[3] != PAD,
{
    let v0 = b0 as int / 4;
    let v1 = (b0 % 4) * 16 + b1 / 16;
    let v2 = (b1 % 16) * 4 + b2 / 64;
    let v3 = b2 as int % 64;
    lemma_sextet(v0);
    lemma_sextet(v1);
    lemma_sextet(v2);
    lemma_sextet(v3);
    assert(v0 * 4 + v1 / 16 == b0);
    assert((v1 % 16) * 16 + v2 / 4 == b1);
    assert((v2 % 4) * 64 + v3 == b2);
    let d = decode_group(
        encode_group(b0, b1, b2)[0],
        encode_group(b0, b1, b2)[1],
        encode_group(b0, b1, b2)[2],
        encode_group(b0, b1, b2)[3],
    );
    assert(d is Some);
    assert(d->Some_0 =~= seq![b0, b1, b2]);
}

/// The characters of whole groups of 3 bytes are 4 for each group, and
/// stand for these bytes.
pub proof fn lemma_groups(s: Seq<u8>)
    requires
        s.len() % 3 == 0,
    ensures
        encode_groups(s).len() % 4 == 0,
        decode_groups(encode_groups(s)) == Some(s),
    decreases s.len(),
{
    if s.len() < 3 {
        assert(s =~= Seq::empty());
    } else {
        let front = s.subrange(0, s.len() - 3);
        let b0 = s[s.len() - 3];
        let b1 = s[s.len() - 2];
        let b2 = s[s.len() - 1];
        let g = encode_group(b0, b1, b2);
        let t = encode_groups(s);
        lemma_groups(front);
        lemma_group(b0, b1, b2);
        assert(t == encode_groups(front) + g);
        assert(t.subrange(0, t.len() - 4) =~= encode_groups(front));
        assert(t[t.len() - 4] == g[0] && t[t.len() - 3] == g[1] && t[t.len() - 2] == g[2] && t[t.len()
            - 1] == g[3]);
        assert(front + seq![b0, b1, b2] =~= s);
    }
}

/// What a text stands for whose last 4 characters are `last`: the bytes of
/// the groups before them, then those of `last`.
pub proof fn lemma_decoded_parts(front: Seq<u8>, last: Seq<u8>)
    requires
        front.len() % 4 == 0,
        last.len() == 4,
    ensures
        decoded(front + last) == match decode_groups(front) {
            Some(x) => match decode_last(last[0], last[1], last[2], last[3]) {
                Some(l) => Some(x + l),
                None => None,
            },
            None => None,
        },
{
    let t = front + last;
    assert(t.subrange(0, t.len() - 4) =~= front);
    assert(t[t.len() - 4] == last[0] && t[t.len() - 3] == last[1] && t[t.len() - 2] == last[2]
        && t[t.len() - 1] == last[3]);
}

/// The padded characters of one byte stand for this byte.
pub proof fn lemma_rest_of_one(b0: u8)
    ensures
        encode_rest(seq![b0]).len() == 4,
        decode_last(
            encode_rest(seq![b0])[0],
            encode_rest(seq![b0])[1],
            encode_rest(seq![b0])[2],
            encode_rest(seq![b0])[3],
        ) == Some(seq![b0]),
{
    let v0 = b0 as int / 4;
    let v1 = (b0 % 4) * 16;
    lemma_sextet(v0);
    lemma_sextet(v1);
    assert(v1 % 16 == 0 && v0 * 4 + v1 / 16 == b0);
    let last = encode_rest(seq![b0]);
    let d = decode_last(last[0], last[1], last[2], last[3]);
    assert(d is Some);
    assert(d->Some_0 =~= seq![b0]);
}

/// The padded characters of two bytes stand for these bytes.
pub proof fn lemma_rest_of_two(b0: u8, b1: u8)
    ensures
        encode_rest(seq![b0, b1]).len() == 4,
        decode_last(
            encode_rest(seq![b0, b1])[0],
            encode_rest(seq![b0, b1])[1],
            encode_rest(seq![b0, b1])[2],
            encode_rest(seq![b0, b1])[3],
        ) == Some(seq![b0, b1]),
{
    let v0 = b0 as int / 4;
    let v1 = (b0 % 4) * 16 + b1 / 16;
    let v2 = (b1 % 16) * 4;
    lemma_sextet(v0);
    lemma_sextet(v1);
    lemma_sextet(v2);
    assert(v2 % 4 == 0 && v0 * 4 + v1 / 16 == b0 && (v1 % 16) * 16 + v2 / 4 == b1);
    let last = encode_rest(seq![b0, b1]);
    let d = decode_last(last[0], last[1], last[2], last[3]);
    assert(d is Some);
    assert(d->Some_0 =~= seq![b0, b1]);
}

/// Decoding the text of whole groups of 3 bytes gives the bytes back.
pub proof fn lemma_round_trip_whole(s: Seq<u8>)
    requires
        s.len() % 3 == 0,
    ensures
        decoded(encode_groups(s)) == Some(s),
{
    if s.len() >= 3 {
        let front = s.subrange(0, s.len() - 3);
        let b0 = s[s.len() - 3];
        let b1 = s[s.len() - 2];
        let b2 = s[s.len() - 1];
        let g = encode_group(b0, b1, b2);
        lemma_groups(front);
        lemma_group(b0, b1, b2);
        lemma_decoded_parts(encode_groups(front), g);
        assert(front + seq![b0, b1, b2] =~= s);
    } else {
        assert(s =~= Seq::empty());
    }
}

/// Decoding the text of whole groups and one more byte gives them back.
pub proof fn lemma_round_trip_one(head: Seq<u8>, b0: u8)
    requires
        head.len() % 3 == 0,
    ensures
        decoded(encode_groups(head) + encode_rest(seq![b0])) == Some(head + seq![b0]),
{
    lemma_groups(head);
    lemma_rest_of_one(b0);
    lemma_decoded_parts(encode_groups(head), encode_rest(seq![b0]));
}

/// Decoding the text of whole groups and two more bytes gives them back.
pub proof fn lemma_round_trip_two(head: Seq<u8>, b0: u8, b1: u8)
    requires
        head.len() % 3 == 0,
    ensures
        decoded(encode_groups(head) + encode_rest(seq![b0, b1])) == Some(head + seq![b0, b1]),
{
    lemma_groups(head);
    lemma_rest_of_two(b0, b1);
    lemma_decoded_parts(encode_groups(head), encode_rest(seq![b0, b1]));
}

/// Decoding the base64 text of bytes gives the bytes back.
#[verifier::rlimit(50)]
pub proof fn lemma_round_trip(s: Seq<u8>)
    ensures
        decoded(encoded(s)) == Some(s),
{
    let whole = s.len() - s.len() % 3;
    let head = s.subrange(0, whole);
    let rest = s.subrange(whole, s.len() as int);
    assert(encoded(s) == encode_groups(head) + encode_rest(rest));
    assert(head.len() % 3 == 0);
    if rest.len() == 0 {
        assert(head =~= s);
        assert(encode_groups(head) + encode_rest(rest) =~= encode_groups(s));
        lemma_round_trip_whole(s);
    } else if rest.len() == 1 {
        assert(rest =~= seq![rest[0]]);
        lemma_round_trip_one(head, rest[0]);
        assert(head + seq![rest[0]] =~= s);
    } else {
        assert(rest.len() == 2);
        assert(rest =~= seq![rest[0], rest[1]]);
        lemma_round_trip_two(head, rest[0], rest[1]);
        assert(head + seq![rest[0], rest[1]] =~= s);
    }
}

/// A character that stands for a value is the character of that value.
pub proof fn lemma_value(c: u8)
    ensures
        sextet_value(c) >= 0 ==> sextet_value(c) < 64 && sextet_char(sextet_value(c)) == c,
{
}

/// 4 characters that stand for 3 bytes are the characters of these bytes.
#[verifier::rlimit(50)]
pub proof fn lemma_group_canonical(c0: u8, c1: u8, c2: u8, c3: u8)
    ensures
        decode_group(c0, c1, c2, c3) matches Some(g) ==> g.len() == 3 && encode_group(
            g[0],
            g[1],
            g[2],
        ) == seq![c0, c1, c2, c3],
{
    if let Some(g) = decode_group(c0, c1, c2, c3) {
        lemma_value(c0);
        lemma_value(c1);
        lemma_value(c2);
        lemma_value(c3);
        let v0 = sextet_value(c0);
        let v1 = sextet_value(c1);
        let v2 = sextet_value(c2);
        let v3 = sextet_value(c3);
        let b0 = v0 * 4 + v1 / 16;
        let b1 = (v1 % 16) * 16 + v2 / 4;
        let b2 = (v2 % 4) * 64 + v3;
        assert(g[0] == b0 && g[1] == b1 && g[2] == b2);
        assert(b0 / 4 == v0);
        assert((b0 % 4) * 16 + b1 / 16 == v1);
        assert((b1 % 16) * 4 + b2 / 64 == v2);
        assert(b2 % 64 == v3);
        assert(encode_group(g[0], g[1], g[2]) =~= seq![c0, c1, c2, c3]);
    }
}

/// The last 4 characters of a text that stand for bytes are the characters
/// of these bytes, padded where there are fewer than 3.
#[verifier::rlimit(50)]
pub proof fn lemma_last_canonical(c0: u8, c1: u8, c2: u8, c3: u8)
    ensures
        decode_last(c0, c1, c2, c3) matches Some(l) ==> 1 <= l.len() <= 3 && (if l.len() == 3 {
            encode_group(l[0], l[1], l[2])
        } else {
            encode_rest(l)
        }) == seq![c0, c1, c2, c3],
{
    if let Some(l) = decode_last(c0, c1, c2, c3) {
        lemma_value(c0);
        lemma_value(c1);
        lemma_value(c2);
        let v0 = sextet_value(c0);
        let v1 = sextet_value(c1);
        let v2 = sextet_value(c2);
        if c3 != PAD {
            lemma_group_canonical(c0, c1, c2, c3);
        } else if c2 != PAD {
            let b0 = v0 * 4 + v1 / 16;
            let b1 = (v1 % 16) * 16 + v2 / 4;
            assert(l[0] == b0 && l[1] == b1);
            assert(b0 / 4 == v0);
            assert((b0 % 4) * 16 + b1 / 16 == v1);
            assert((b1 % 16) * 4 == v2);
            assert(encode_rest(l) =~= seq![c0, c1, c2, c3]);
        } else {
            let b0 = v0 * 4 + v1 / 16;
            assert(l[0] == b0);
            assert(b0 / 4 == v0);
            assert((b0 % 4) * 16 == v1);
            assert(encode_rest(l) =~= seq![c0, c1, c2, c3]);
        }
    }
}

/// Unpadded groups of 4 characters that stand for bytes are the characters
/// of these bytes, which come in whole groups of 3.
#[verifier::rlimit(50)]
pub proof fn lemma_groups_canonical(t: Seq<u8>)
    requires
        t.len() % 4 == 0,
    ensures
        decode_groups(t) matches Some(s) ==> s.len() % 3 == 0 && encode_groups(s) == t,
    decreases t.len(),
{
    if let Some(s) = decode_groups(t) {
        if t.len() < 4 {
            assert(t =~= Seq::empty());
        } else {
            let front = t.subrange(0, t.len() - 4);
            lemma_groups_canonical(front);
            lemma_group_canonical(t[t.len() - 4], t[t.len() - 3], t[t.len() - 2], t[t.len() - 1]);
            let x = decode_groups(front)->Some_0;
            let g = decode_group(
                t[t.len() - 4],
                t[t.len() - 3],
                t[t.len() - 2],
                t[t.len() - 1],
            )->Some_0;
            assert(s == x + g);
            assert(s.subrange(0, s.len() - 3) =~= x);
            assert(s[s.len() - 3] == g[0] && s[s.len() - 2] == g[1] && s[s.len() - 1] == g[2]);
            assert(front + seq![t[t.len() - 4], t[t.len() - 3], t[t.len() - 2], t[t.len() - 1]]
                =~= t);
        }
    }
}

/// The text of whole groups of 3 bytes and up to 3 more bytes.
#[verifier::rlimit(50)]
pub proof fn lemma_encoded_parts(x: Seq<u8>, l: Seq<u8>)
    requires
        x.len() % 3 == 0,
        1 <= l.len() <= 3,
    ensures
        encoded(x + l) == encode_groups(x) + (if l.len() == 3 {
            encode_group(l[0], l[1], l[2])
        } else {
            encode_rest(l)
        }),
{
    let s = x + l;
    if l.len() == 3 {
        assert(s.len() % 3 == 0);
        assert(s.subrange(0, s.len() as int) =~= s);
        assert(s.subrange(s.len() as int, s.len() as int) =~= Seq::<u8>::empty());
        assert(s.subrange(0, s.len() - 3) =~= x);
        assert(encode_groups(s) == encode_groups(x) + encode_group(l[0], l[1], l[2]));
        assert(encoded(s) =~= encode_groups(s));
    } else {
        assert(s.len() % 3 == l.len());
        assert(s.subrange(0, x.len() as int) =~= x);
        assert(s.subrange(x.len() as int, s.len() as int) =~= l);
    }
}

/// Only canonical text decodes: a text that stands for bytes is the base64
/// text of these bytes.
#[verifier::rlimit(50)]
pub proof fn lemma_decoded_is_canonical(t: Seq<u8>)
    ensures
        decoded(t) matches Some(s) ==> encoded(s) == t,
{
    if let Some(s) = decoded(t) {
        if t.len() == 0 {
            assert(s.subrange(0, 0) =~= Seq::<u8>::empty());
            assert(encoded(s) =~= t);
        } else {
            let front = t.subrange(0, t.len() - 4);
            let c0 = t[t.len() - 4];
            let c1 = t[t.len() - 3];
            let c2 = t[t.len() - 2];
            let c3 = t[t.len() - 1];
            lemma_groups_canonical(front);
            lemma_last_canonical(c0, c1, c2, c3);
            let x = decode_groups(front)->Some_0;
            let l = decode_last(c0, c1, c2, c3)->Some_0;
            lemma_encoded_parts(x, l);
            assert(front + seq![c0, c1, c2, c3] =~= t);
        }
    }
}

} // verus!
