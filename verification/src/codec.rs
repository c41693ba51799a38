//! The token codec: serialises a claim set into a signed byte string and
//! parses and verifies such a byte string back into a claim set.
//!
//! A token is `body ++ tag`, where the body is a fixed-order, length-prefixed
//! binary record of the claims and the token kind, and the tag is the keyed
//! checksum of [`crate::mac`] over the body, as eight little-endian bytes.
//! The verifier splits the token by length alone and checks the tag before it
//! reads one byte of the payload, so a tampered token is rejected as a
//! signature failure, never misread as different claims.
//!
//! Verification order on decode: framing, tag, then `not_before <= now <=
//! expires_at` with a clock-skew allowance. A revocation check is the
//! caller's: the codec hands the parsed `token_id` out.

use vstd::prelude::*;
use vstd::bytes::{
    lemma_auto_spec_u64_to_from_le_bytes, spec_u64_from_le_bytes, spec_u64_to_le_bytes,
    u64_from_le_bytes, u64_to_le_bytes,
};
use vstd::slice::{slice_subrange, slice_to_vec};
use vstd::utf8::{
    decode_utf8, encode_utf8, encode_utf8_decode_utf8, encode_utf8_valid_utf8, valid_utf8,
};
use crate::claims::{ClaimsView, JwtClaims, JwtType};
use crate::error::TokenError;
use crate::mac::{compute_tag, lemma_tag_single_flip, tag_of};

verus! {

/// Key material for signing and verifying tokens. Fixed per deployment and
/// read-only after process start; pick the key by its identifier at a higher
/// layer if rotation is ever needed.
pub struct SigningKey {
    material: Vec<u8>,
}

impl View for SigningKey {
    type V = Seq<u8>;

    closed spec fn view(&self) -> Seq<u8> {
        self.material@
    }
}

impl SigningKey {
    /// Wraps raw key material.
    pub fn new(material: Vec<u8>) -> (r: Self)
        ensures
            r@ == material@,
    {
        SigningKey { material }
    }
}

// ---------------------------------------------------------------------------
// Timestamps on the wire: an i64 reinterpreted as a u64, total in both
// directions.
// ---------------------------------------------------------------------------
/// The two's-complement reading of a timestamp as an unsigned word.
pub open spec fn i64_as_u64(x: i64) -> u64 {
    if x >= 0 {
        x as u64
    } else {
        (x + 0x10000000000000000) as u64
    }
}

/// The two's-complement reading of an unsigned word as a timestamp.
pub open spec fn u64_as_i64(x: u64) -> i64 {
    if x <= 0x7FFFFFFFFFFFFFFF {
        x as i64
    } else {
        (x - 0x10000000000000000) as i64
    }
}

/// The two readings invert each other.
pub proof fn lemma_i64_u64_inverse(x: i64)
    ensures
        u64_as_i64(i64_as_u64(x)) == x,
{
}

/// Computes [`u64_as_i64`].
fn u64_to_i64(x: u64) -> (r: i64)
    ensures
        r == u64_as_i64(x),
{
    if x <= i64::MAX as u64 {
        x as i64
    } else {
        let d = u64::MAX - x;
        -(d as i64) - 1
    }
}

/// Computes [`i64_as_u64`].
fn i64_to_u64(x: i64) -> (r: u64)
    ensures
        r == i64_as_u64(x),
{
    if x >= 0 {
        x as u64
    } else {
        let d = -(x + 1);
        u64::MAX - (d as u64)
    }
}

// ---------------------------------------------------------------------------
// The byte form of each field.
// ---------------------------------------------------------------------------
/// An unsigned word as eight little-endian bytes.
pub open spec fn enc_u64(x: u64) -> Seq<u8> {
    spec_u64_to_le_bytes(x)
}

/// A timestamp as eight little-endian bytes.
pub open spec fn enc_i64(x: i64) -> Seq<u8> {
    enc_u64(i64_as_u64(x))
}

/// A string as its UTF-8 length followed by its UTF-8 bytes.
pub open spec fn enc_str(s: Seq<char>) -> Seq<u8> {
    enc_u64(encode_utf8(s).len() as u64) + encode_utf8(s)
}

/// An optional string as a presence byte, then the string if present.
pub open spec fn enc_opt_str(o: Option<Seq<char>>) -> Seq<u8> {
    match o {
        None => seq![0u8],
        Some(s) => seq![1u8] + enc_str(s),
    }
}

/// The extension claims, in order, each as key then value.
pub open spec fn enc_pairs(ps: Seq<(Seq<char>, Seq<char>)>) -> Seq<u8>
    decreases ps.len(),
{
    if ps.len() == 0 {
        Seq::empty()
    } else {
        enc_str(ps[0].0) + enc_str(ps[0].1) + enc_pairs(ps.drop_first())
    }
}

/// The byte that opens a token and names its kind.
pub open spec fn kind_byte(k: JwtType) -> u8 {
    match k {
        JwtType::AccessToken => 1,
        JwtType::RefreshToken => 2,
    }
}

/// The unsigned body of a token: kind, the three timestamps, the four
/// optional identity fields, then the extension claims behind their count.
pub open spec fn enc_body(c: ClaimsView, k: JwtType) -> Seq<u8> {
    seq![kind_byte(k)] + enc_i64(c.exp) + enc_i64(c.nbf) + enc_i64(c.iat) + enc_opt_str(c.iss)
        + enc_opt_str(c.sub) + enc_opt_str(c.aud) + enc_opt_str(c.jti) + enc_u64(
        c.extra.len() as u64,
    ) + enc_pairs(c.extra)
}

/// A whole token: the body followed by its tag.
pub open spec fn enc_token(c: ClaimsView, k: JwtType, key: Seq<u8>) -> Seq<u8> {
    enc_body(c, k) + enc_u64(tag_of(key, enc_body(c, k)))
}

/// No string of the claim set overflows its 64-bit length prefix, nor the
/// extension count its field. Every claim set held in memory satisfies this;
/// it matters only to statements over arbitrary mathematical claim views.
pub open spec fn claims_fit(c: ClaimsView) -> bool {
    &&& match c.iss {
        Some(s) => encode_utf8(s).len() < 0x10000000000000000,
        None => true,
    }
    &&& match c.sub {
        Some(s) => encode_utf8(s).len() < 0x10000000000000000,
        None => true,
    }
    &&& match c.aud {
        Some(s) => encode_utf8(s).len() < 0x10000000000000000,
        None => true,
    }
    &&& match c.jti {
        Some(s) => encode_utf8(s).len() < 0x10000000000000000,
        None => true,
    }
    &&& c.extra.len() < 0x10000000000000000
    &&& forall|i: int|
        0 <= i < c.extra.len() ==> encode_utf8((#[trigger] c.extra[i]).0).len()
            < 0x10000000000000000 && encode_utf8(c.extra[i].1).len() < 0x10000000000000000
}

/// The least length any token can have: kind byte, three timestamps, four
/// absent optional fields, the extension count, and the tag.
pub open spec fn min_token_len() -> int {
    45
}

// ---------------------------------------------------------------------------
// The parser, at the specification level: each step yields the value and the
// position after it, or nothing if the bytes cannot be read that way.
// ---------------------------------------------------------------------------
/// Reads an unsigned word.
pub open spec fn sp_u64(b: Seq<u8>, i: int) -> Option<(u64, int)> {
    if 0 <= i && i + 8 <= b.len() {
        Some((spec_u64_from_le_bytes(b.subrange(i, i + 8)), i + 8))
    } else {
        None
    }
}

/// Reads a length-prefixed UTF-8 string.
pub open spec fn sp_str(b: Seq<u8>, i: int) -> Option<(Seq<char>, int)> {
    match sp_u64(b, i) {
        None => None,
        Some((n, j)) => {
            if j + n <= b.len() && valid_utf8(b.subrange(j, j + n)) {
                Some((decode_utf8(b.subrange(j, j + n)), j + n))
            } else {
                None
            }
        },
    }
}

/// Reads a presence byte, then a string if one is announced.
pub open spec fn sp_opt_str(b: Seq<u8>, i: int) -> Option<(Option<Seq<char>>, int)> {
    if 0 <= i < b.len() {
        if b[i] == 0 {
            Some((None, i + 1))
        } else if b[i] == 1 {
            match sp_str(b, i + 1) {
                None => None,
                Some((s, j)) => Some((Some(s), j)),
            }
        } else {
            None
        }
    } else {
        None
    }
}

/// Reads `count` key-value pairs.
pub open spec fn sp_pairs(b: Seq<u8>, i: int, count: nat) -> Option<
    (Seq<(Seq<char>, Seq<char>)>, int),
>
    decreases count,
{
    if count == 0 {
        Some((Seq::empty(), i))
    } else {
        match sp_str(b, i) {
            None => None,
            Some((k, j)) => match sp_str(b, j) {
                None => None,
                Some((v, l)) => match sp_pairs(b, l, (count - 1) as nat) {
                    None => None,
                    Some((rest, m)) => Some((seq![(k, v)] + rest, m)),
                },
            },
        }
    }
}

/// Reads the kind byte.
pub open spec fn sp_kind(b: u8) -> Option<JwtType> {
    if b == 1 {
        Some(JwtType::AccessToken)
    } else if b == 2 {
        Some(JwtType::RefreshToken)
    } else {
        None
    }
}

/// Parses a whole body. Succeeds only if every field reads back and the
/// record ends exactly at the end of the bytes.
pub open spec fn sp_body(b: Seq<u8>) -> Option<(ClaimsView, JwtType)> {
    if b.len() < 1 {
        None
    } else {
        match sp_kind(b[0]) {
            None => None,
            Some(kind) => match sp_u64(b, 1) {
                None => None,
                Some((exp, i1)) => match sp_u64(b, i1) {
                    None => None,
                    Some((nbf, i2)) => match sp_u64(b, i2) {
                        None => None,
                        Some((iat, i3)) => match sp_opt_str(b, i3) {
                            None => None,
                            Some((iss, i4)) => match sp_opt_str(b, i4) {
                                None => None,
                                Some((sub, i5)) => match sp_opt_str(b, i5) {
                                    None => None,
                                    Some((aud, i6)) => match sp_opt_str(b, i6) {
                                        None => None,
                                        Some((jti, i7)) => match sp_u64(b, i7) {
                                            None => None,
                                            Some((count, i8)) => match sp_pairs(
                                                b,
                                                i8,
                                                count as nat,
                                            ) {
                                                None => None,
                                                Some((extra, end)) => {
                                                    if end == b.len() {
                                                        Some(
                                                            (
                                                                ClaimsView {
                                                                    exp: u64_as_i64(exp),
                                                                    nbf: u64_as_i64(nbf),
                                                                    iat: u64_as_i64(iat),
                                                                    iss,
                                                                    sub,
                                                                    aud,
                                                                    jti,
                                                                    extra,
                                                                },
                                                                kind,
                                                            ),
                                                        )
                                                    } else {
                                                        None
                                                    }
                                                },
                                            },
                                        },
                                    },
                                },
                            },
                        },
                    },
                },
            },
        }
    }
}

/// What decoding a byte string under a key at a given time returns, for every
/// byte string: the framing check, then the tag, then the parse, then the two
/// time checks in order.
pub open spec fn spec_decode(bytes: Seq<u8>, key: Seq<u8>, now: i64, leeway: u32) -> Result<
    (ClaimsView, JwtType),
    TokenError,
> {
    if bytes.len() < min_token_len() {
        Err(TokenError::Malformed)
    } else {
        let body = bytes.subrange(0, bytes.len() - 8);
        let tag = spec_u64_from_le_bytes(bytes.subrange(bytes.len() - 8, bytes.len() as int));
        if tag != tag_of(key, body) {
            Err(TokenError::SignatureInvalid)
        } else {
            match sp_body(body) {
                None => Err(TokenError::Malformed),
                Some((c, k)) => {
                    if now + leeway < c.nbf {
                        Err(TokenError::NotYetValid)
                    } else if c.exp + leeway < now {
                        Err(TokenError::Expired)
                    } else {
                        Ok((c, k))
                    }
                },
            }
        }
    }
}

// ---------------------------------------------------------------------------
// Encoding.
// ---------------------------------------------------------------------------
/// Appends an unsigned word.
fn push_u64(out: &mut Vec<u8>, x: u64)
    ensures
        final(out)@ == old(out)@ + enc_u64(x),
{
    let mut b = u64_to_le_bytes(x);
    out.append(&mut b);
}

/// Appends a timestamp.
fn push_i64(out: &mut Vec<u8>, x: i64)
    ensures
        final(out)@ == old(out)@ + enc_i64(x),
{
    push_u64(out, i64_to_u64(x));
}

/// Appends a length-prefixed string.
fn push_str(out: &mut Vec<u8>, s: &String)
    ensures
        final(out)@ == old(out)@ + enc_str(s@),
{
    let mut bs = s.as_str().as_bytes_vec();
    push_u64(out, bs.len() as u64);
    out.append(&mut bs);
    proof {
        assert(out@ =~= old(out)@ + enc_str(s@));
    }
}

/// Appends an optional string behind its presence byte.
fn push_opt_str(out: &mut Vec<u8>, o: &Option<String>)
    ensures
        final(out)@ == old(out)@ + enc_opt_str(o.deep_view()),
{
    match o {
        None => {
            out.push(0u8);
            proof {
                assert(out@ =~= old(out)@ + enc_opt_str(None));
            }
        },
        Some(s) => {
            out.push(1u8);
            push_str(out, s);
            proof {
                assert(out@ =~= old(out)@ + enc_opt_str(Some(s@)));
            }
        },
    }
}

/// Appending one pair to the record appends its encoding.
proof fn lemma_enc_pairs_push(ps: Seq<(Seq<char>, Seq<char>)>, p: (Seq<char>, Seq<char>))
    ensures
        enc_pairs(ps.push(p)) == enc_pairs(ps) + enc_str(p.0) + enc_str(p.1),
    decreases ps.len(),
{
    if ps.len() == 0 {
        let q = ps.push(p);
        assert(q[0] == p);
        assert(q.drop_first() =~= Seq::<(Seq<char>, Seq<char>)>::empty());
        assert(enc_pairs(q.drop_first()) == Seq::<u8>::empty());
        assert(enc_pairs(q) == enc_str(p.0) + enc_str(p.1) + Seq::<u8>::empty());
        assert(enc_pairs(ps) == Seq::<u8>::empty());
        assert(enc_str(p.0) + enc_str(p.1) + Seq::<u8>::empty() =~= Seq::<u8>::empty() + enc_str(
            p.0,
        ) + enc_str(p.1));
    } else {
        assert(ps.push(p).drop_first() =~= ps.drop_first().push(p));
        lemma_enc_pairs_push(ps.drop_first(), p);
        assert(enc_pairs(ps.push(p)) =~= enc_pairs(ps) + enc_str(p.0) + enc_str(p.1));
    }
}

/// Computes [`kind_byte`].
fn kind_code(k: JwtType) -> (r: u8)
    ensures
        r == kind_byte(k),
{
    match k {
        JwtType::AccessToken => 1,
        JwtType::RefreshToken => 2,
    }
}

/// Serialises a claim set of the given kind into a signed token under the
/// key. Pure and synchronous; safe to run concurrently, the key is only read.
#[verifier::loop_isolation(false)]
pub fn encode_token(claims: &JwtClaims, kind: JwtType, key: &SigningKey) -> (t: Vec<u8>)
    ensures
        t@ == enc_token(claims@, kind, key@),
{
    let mut body: Vec<u8> = Vec::new();
    body.push(kind_code(kind));
    push_i64(&mut body, claims.exp);
    push_i64(&mut body, claims.nbf);
    push_i64(&mut body, claims.iat);
    push_opt_str(&mut body, &claims.iss);
    push_opt_str(&mut body, &claims.sub);
    push_opt_str(&mut body, &claims.aud);
    push_opt_str(&mut body, &claims.jti);
    push_u64(&mut body, claims.extra.len() as u64);
    let ghost prefix = body@;
    let mut i: usize = 0;
    proof {
        assert(claims@.extra.take(0) =~= Seq::empty());
        assert(body@ =~= prefix + enc_pairs(claims@.extra.take(0)));
    }
    while i < claims.extra.len()
        invariant
            i <= claims.extra.len(),
            body@ == prefix + enc_pairs(claims@.extra.take(i as int)),
        decreases claims.extra.len() - i,
    {
        push_str(&mut body, &claims.extra[i].0);
        push_str(&mut body, &claims.extra[i].1);
        proof {
            lemma_enc_pairs_push(claims@.extra.take(i as int), claims@.extra[i as int]);
            assert(claims@.extra.take(i + 1) =~= claims@.extra.take(i as int).push(
                claims@.extra[i as int],
            ));
            assert(body@ =~= prefix + enc_pairs(claims@.extra.take(i + 1)));
        }
        i += 1;
    }
    proof {
        assert(claims@.extra.take(claims.extra.len() as int) =~= claims@.extra);
        assert(body@ =~= enc_body(claims@, kind));
    }
    let tag = compute_tag(&key.material, &body);
    push_u64(&mut body, tag);
    body
}

// ---------------------------------------------------------------------------
// Decoding.
// ---------------------------------------------------------------------------
/// Relies on String::from_utf8: it succeeds exactly on valid UTF-8 input and
/// returns the string those bytes encode.
#[verifier::external_body]
fn string_from_utf8(v: Vec<u8>) -> (r: Option<String>)
    ensures
        r is Some <==> valid_utf8(v@),
        r matches Some(s) ==> s@ == decode_utf8(v@),
{
    String::from_utf8(v).ok()
}

/// Reads an unsigned word, mirroring [`sp_u64`].
fn read_u64(b: &Vec<u8>, i: usize) -> (r: Option<(u64, usize)>)
    ensures
        r matches Some((x, j)) ==> sp_u64(b@, i as int) == Some((x, j as int)) && i < j <= b.len(),
        r is None ==> sp_u64(b@, i as int) is None,
{
    if i <= b.len() && b.len() - i >= 8 {
        let s = slice_subrange(b.as_slice(), i, i + 8);
        let x = u64_from_le_bytes(s);
        Some((x, i + 8))
    } else {
        None
    }
}

/// Reads a length-prefixed string, mirroring [`sp_str`].
fn read_str(b: &Vec<u8>, i: usize) -> (r: Option<(String, usize)>)
    ensures
        r matches Some((s, j)) ==> sp_str(b@, i as int) == Some((s@, j as int)) && i < j
            <= b.len(),
        r is None ==> sp_str(b@, i as int) is None,
{
    match read_u64(b, i) {
        None => None,
        Some((n, j)) => {
            if n <= (b.len() - j) as u64 {
                let nn = n as usize;
                let sub = slice_to_vec(slice_subrange(b.as_slice(), j, j + nn));
                match string_from_utf8(sub) {
                    None => None,
                    Some(s) => Some((s, j + nn)),
                }
            } else {
                None
            }
        },
    }
}

/// Reads an optional string, mirroring [`sp_opt_str`].
fn read_opt_str(b: &Vec<u8>, i: usize) -> (r: Option<(Option<String>, usize)>)
    ensures
        r matches Some((s, j)) ==> sp_opt_str(b@, i as int) == Some((s.deep_view(), j as int))
            && i < j <= b.len(),
        r is None ==> sp_opt_str(b@, i as int) is None,
{
    if i < b.len() {
        let t = b[i];
        if t == 0 {
            Some((None, i + 1))
        } else if t == 1 {
            match read_str(b, i + 1) {
                None => None,
                Some((s, j)) => Some((Some(s), j)),
            }
        } else {
            None
        }
    } else {
        None
    }
}

/// Reads `count` extension pairs, mirroring [`sp_pairs`].
#[verifier::loop_isolation(false)]
fn read_pairs(b: &Vec<u8>, i: usize, count: u64) -> (r: Option<(Vec<(String, String)>, usize)>)
    ensures
        r matches Some((ps, j)) ==> sp_pairs(b@, i as int, count as nat) == Some(
            (ps.deep_view(), j as int),
        ),
        r is None ==> sp_pairs(b@, i as int, count as nat) is None,
{
    let mut acc: Vec<(String, String)> = Vec::new();
    let mut pos: usize = i;
    let mut c: u64 = 0;
    proof {
        assert(acc.deep_view() =~= Seq::<(Seq<char>, Seq<char>)>::empty());
    }
    while c < count
        invariant
            c <= count,
            i <= pos,
            c > 0 ==> pos <= b.len(),
            sp_pairs(b@, pos as int, (count - c) as nat) matches Some((rest, end)) ==> sp_pairs(
                b@,
                i as int,
                count as nat,
            ) == Some((acc.deep_view() + rest, end)),
            sp_pairs(b@, pos as int, (count - c) as nat) is None ==> sp_pairs(
                b@,
                i as int,
                count as nat,
            ) is None,
        decreases count - c,
    {
        let ghost n_left = (count - c) as nat;
        let k = match read_str(b, pos) {
            None => {
                proof {
                    assert(sp_pairs(b@, pos as int, n_left) is None);
                }
                return None;
            },
            Some(kj) => kj,
        };
        let v = match read_str(b, k.1) {
            None => {
                proof {
                    assert(sp_pairs(b@, pos as int, n_left) is None);
                }
                return None;
            },
            Some(vj) => vj,
        };
        let ghost old_acc = acc.deep_view();
        let next = v.1;
        acc.push((k.0, v.0));
        proof {
            let pair = acc.deep_view().last();
            assert(acc.deep_view() =~= old_acc.push(pair));
            match sp_pairs(b@, next as int, (n_left - 1) as nat) {
                Some(p2) => {
                    assert(sp_pairs(b@, pos as int, n_left) == Some((seq![pair] + p2.0, p2.1)));
                    assert(old_acc + (seq![pair] + p2.0) =~= acc.deep_view() + p2.0);
                },
                None => {},
            }
        }
        pos = next;
        c = c + 1;
    }
    proof {
        assert(sp_pairs(b@, pos as int, 0) == Some((Seq::<(Seq<char>, Seq<char>)>::empty(),
        pos as int)));
        assert(acc.deep_view() + Seq::<(Seq<char>, Seq<char>)>::empty() =~= acc.deep_view());
    }
    Some((acc, pos))
}

/// Parses a body, mirroring [`sp_body`].
fn parse_body(b: &Vec<u8>) -> (r: Option<(JwtClaims, JwtType)>)
    ensures
        r matches Some((c, k)) ==> sp_body(b@) == Some((c@, k)),
        r is None ==> sp_body(b@) is None,
{
    if b.len() < 1 {
        return None;
    }
    let kind = if b[0] == 1 {
        JwtType::AccessToken
    } else if b[0] == 2 {
        JwtType::RefreshToken
    } else {
        return None;
    };
    let (exp, i1) = match read_u64(b, 1) {
        None => return None,
        Some(x) => x,
    };
    let (nbf, i2) = match read_u64(b, i1) {
        None => return None,
        Some(x) => x,
    };
    let (iat, i3) = match read_u64(b, i2) {
        None => return None,
        Some(x) => x,
    };
    let (iss, i4) = match read_opt_str(b, i3) {
        None => return None,
        Some(x) => x,
    };
    let (sub, i5) = match read_opt_str(b, i4) {
        None => return None,
        Some(x) => x,
    };
    let (aud, i6) = match read_opt_str(b, i5) {
        None => return None,
        Some(x) => x,
    };
    let (jti, i7) = match read_opt_str(b, i6) {
        None => return None,
        Some(x) => x,
    };
    let (count, i8) = match read_u64(b, i7) {
        None => return None,
        Some(x) => x,
    };
    let (extra, end) = match read_pairs(b, i8, count) {
        None => return None,
        Some(x) => x,
    };
    if end != b.len() {
        return None;
    }
    let claims = JwtClaims {
        exp: u64_to_i64(exp),
        nbf: u64_to_i64(nbf),
        iat: u64_to_i64(iat),
        iss,
        sub,
        aud,
        jti,
        extra,
    };
    Some((claims, kind))
}

/// Parses and verifies a token under the key at the given time, allowing the
/// given clock skew. The result is exactly [`spec_decode`] of the bytes: a
/// framing failure or an unreadable body is malformed input, a wrong tag is a
/// signature failure, and a readable, well-signed body is rejected as not yet
/// valid or expired before it is accepted. The caller sees the parsed
/// `token_id` and owes the revocation check.
pub fn decode_token(bytes: &Vec<u8>, key: &SigningKey, now: i64, leeway: u32) -> (r: Result<
    (JwtClaims, JwtType),
    TokenError,
>)
    ensures
        r matches Ok((c, k)) ==> spec_decode(bytes@, key@, now, leeway) == Ok::<
            (ClaimsView, JwtType),
            TokenError,
        >((c@, k)),
        r matches Err(e) ==> spec_decode(bytes@, key@, now, leeway) == Err::<
            (ClaimsView, JwtType),
            TokenError,
        >(e),
{
    if bytes.len() < 45 {
        return Err(TokenError::Malformed);
    }
    let body_len = bytes.len() - 8;
    let body = slice_to_vec(slice_subrange(bytes.as_slice(), 0, body_len));
    let (tag, _) = match read_u64(bytes, body_len) {
        // Eight bytes always remain past the body of a full-length token.
        None => vstd::pervasive::unreached(),
        Some(x) => x,
    };
    let expected = compute_tag(&key.material, &body);
    if tag != expected {
        return Err(TokenError::SignatureInvalid);
    }
    match parse_body(&body) {
        None => Err(TokenError::Malformed),
        Some((claims, kind)) => {
            if (now as i128) + (leeway as i128) < (claims.nbf as i128) {
                Err(TokenError::NotYetValid)
            } else if (claims.exp as i128) + (leeway as i128) < (now as i128) {
                Err(TokenError::Expired)
            } else {
                Ok((claims, kind))
            }
        },
    }
}

/// Whether a token identifier stands on the revocation list.
pub open spec fn spec_revoked(jti: Option<Seq<char>>, revoked: Seq<Seq<char>>) -> bool {
    match jti {
        None => false,
        Some(id) => exists|i: int| 0 <= i < revoked.len() && #[trigger] revoked[i] == id,
    }
}

/// Checks a decoded claim set's token identifier against a revocation list.
/// Filling that list is the revocation store's business; the codec only
/// holds the identifier it parsed against it. A token without an identifier
/// cannot be revoked this way.
#[verifier::loop_isolation(false)]
pub fn check_revocation(claims: &JwtClaims, revoked: &Vec<String>) -> (r: Result<
    (),
    TokenError,
>)
    ensures
        r is Err <==> spec_revoked(claims@.jti, revoked.deep_view()),
        r matches Err(e) ==> e == TokenError::Revoked,
{
    match &claims.jti {
        None => Ok(()),
        Some(id) => {
            let mut i: usize = 0;
            while i < revoked.len()
                invariant
                    i <= revoked.len(),
                    forall|j: int| 0 <= j < i ==> #[trigger] revoked.deep_view()[j] != id@,
                decreases revoked.len() - i,
            {
                if revoked[i] == *id {
                    proof {
                        assert(revoked.deep_view()[i as int] == id@);
                    }
                    return Err(TokenError::Revoked);
                }
                i += 1;
            }
            Ok(())
        },
    }
}

// ---------------------------------------------------------------------------
// The laws of the codec. Together with the contracts of `encode_token` and
// `decode_token`, which tie the executable functions to `enc_token` and
// `spec_decode`, these state the round trip, the two time rejections, and
// tamper detection.
// ---------------------------------------------------------------------------
/// Reading a word where one was written yields it back.
proof fn lemma_sp_u64_at(b: Seq<u8>, i: int, x: u64)
    requires
        0 <= i,
        i + 8 <= b.len(),
        b.subrange(i, i + 8) == enc_u64(x),
    ensures
        sp_u64(b, i) == Some((x, i + 8)),
{
    lemma_auto_spec_u64_to_from_le_bytes();
}

/// Reading a string where one was written yields it back.
proof fn lemma_sp_str_at(b: Seq<u8>, i: int, s: Seq<char>)
    requires
        0 <= i,
        encode_utf8(s).len() < 0x10000000000000000,
        i + enc_str(s).len() <= b.len(),
        b.subrange(i, i + enc_str(s).len()) == enc_str(s),
    ensures
        sp_str(b, i) == Some((s, i + enc_str(s).len())),
{
    lemma_auto_spec_u64_to_from_le_bytes();
    let u = encode_utf8(s);
    let n = u.len() as u64;
    let l = enc_str(s).len();
    assert(enc_str(s) == enc_u64(n) + u);
    assert(l == 8 + u.len());
    assert forall|j: int| 0 <= j < 8 implies b.subrange(i, i + 8)[j] == enc_u64(n)[j] by {
        assert(b.subrange(i, i + l)[j] == enc_str(s)[j]);
    }
    assert(b.subrange(i, i + 8) =~= enc_u64(n));
    lemma_sp_u64_at(b, i, n);
    assert forall|j: int| 0 <= j < u.len() implies b.subrange(i + 8, i + l)[j] == u[j] by {
        assert(b.subrange(i, i + l)[8 + j] == enc_str(s)[8 + j]);
    }
    assert(b.subrange(i + 8, i + l) =~= u);
    encode_utf8_valid_utf8(s);
    encode_utf8_decode_utf8(s);
}

/// Reading an optional string where one was written yields it back.
proof fn lemma_sp_opt_str_at(b: Seq<u8>, i: int, o: Option<Seq<char>>)
    requires
        0 <= i,
        match o {
            Some(s) => encode_utf8(s).len() < 0x10000000000000000,
            None => true,
        },
        i + enc_opt_str(o).len() <= b.len(),
        b.subrange(i, i + enc_opt_str(o).len()) == enc_opt_str(o),
    ensures
        sp_opt_str(b, i) == Some((o, i + enc_opt_str(o).len())),
{
    match o {
        None => {
            assert(b.subrange(i, i + enc_opt_str(o).len())[0] == enc_opt_str(o)[0]);
        },
        Some(s) => {
            let le = enc_str(s).len();
            assert(b.subrange(i, i + enc_opt_str(o).len())[0] == enc_opt_str(o)[0]);
            assert forall|j: int| 0 <= j < le implies b.subrange(i + 1, i + 1 + le)[j] == enc_str(
                s,
            )[j] by {
                assert(b.subrange(i, i + enc_opt_str(o).len())[1 + j] == enc_opt_str(o)[1 + j]);
            }
            assert(b.subrange(i + 1, i + 1 + le) =~= enc_str(s));
            lemma_sp_str_at(b, i + 1, s);
        },
    }
}

/// Reading a run of pairs where one was written yields it back.
proof fn lemma_sp_pairs_at(b: Seq<u8>, i: int, ps: Seq<(Seq<char>, Seq<char>)>)
    requires
        0 <= i,
        forall|q: int|
            0 <= q < ps.len() ==> encode_utf8((#[trigger] ps[q]).0).len() < 0x10000000000000000
                && encode_utf8(ps[q].1).len() < 0x10000000000000000,
        i + enc_pairs(ps).len() <= b.len(),
        b.subrange(i, i + enc_pairs(ps).len()) == enc_pairs(ps),
    ensures
        sp_pairs(b, i, ps.len() as nat) == Some((ps, i + enc_pairs(ps).len())),
    decreases ps.len(),
{
    if ps.len() == 0 {
        assert(Seq::<(Seq<char>, Seq<char>)>::empty() =~= ps);
    } else {
        let k = ps[0].0;
        let v = ps[0].1;
        let rest = ps.drop_first();
        let lk = enc_str(k).len();
        let lv = enc_str(v).len();
        let lr = enc_pairs(rest).len();
        assert(enc_pairs(ps) == enc_str(k) + enc_str(v) + enc_pairs(rest));
        let lp = enc_pairs(ps).len();
        assert forall|j: int| 0 <= j < lk implies b.subrange(i, i + lk)[j] == enc_str(k)[j] by {
            assert(b.subrange(i, i + lp)[j] == enc_pairs(ps)[j]);
        }
        assert(b.subrange(i, i + lk) =~= enc_str(k));
        lemma_sp_str_at(b, i, k);
        assert forall|j: int| 0 <= j < lv implies b.subrange(i + lk, i + lk + lv)[j] == enc_str(
            v,
        )[j] by {
            assert(b.subrange(i, i + lp)[lk + j] == enc_pairs(ps)[lk + j]);
        }
        assert(b.subrange(i + lk, i + lk + lv) =~= enc_str(v));
        lemma_sp_str_at(b, i + lk, v);
        assert forall|j: int| 0 <= j < lr implies b.subrange(i + lk + lv, i + lk + lv + lr)[j]
            == enc_pairs(rest)[j] by {
            assert(b.subrange(i, i + lp)[lk + lv + j] == enc_pairs(ps)[lk + lv + j]);
        }
        assert(b.subrange(i + lk + lv, i + lk + lv + lr) =~= enc_pairs(rest));
        assert(forall|q: int| 0 <= q < rest.len() ==> rest[q] == ps[q + 1]);
        lemma_sp_pairs_at(b, i + lk + lv, rest);
        assert((ps.len() - 1) as nat == rest.len() as nat);
        assert(seq![(k, v)] + rest =~= ps);
        assert(i + lk + lv + lr == i + enc_pairs(ps).len());
    }
}

/// A token encodes its body and tag at their places, the body is never
/// shorter than the fixed fields demand, and parsing the body recovers the
/// claims and the kind exactly.
#[verifier::rlimit(100)]
#[verifier::spinoff_prover]
proof fn lemma_parse_of_enc(c: ClaimsView, k: JwtType, key: Seq<u8>)
    requires
        claims_fit(c),
    ensures
        enc_token(c, k, key).len() == enc_body(c, k).len() + 8,
        enc_body(c, k).len() >= 37,
        enc_token(c, k, key).subrange(0, enc_body(c, k).len() as int) == enc_body(c, k),
        spec_u64_from_le_bytes(
            enc_token(c, k, key).subrange(
                enc_body(c, k).len() as int,
                enc_token(c, k, key).len() as int,
            ),
        ) == tag_of(key, enc_body(c, k)),
        sp_body(enc_body(c, k)) == Some((c, k)),
{
    lemma_auto_spec_u64_to_from_le_bytes();
    let b = enc_body(c, k);
    let t = enc_token(c, k, key);
    let l_iss = enc_opt_str(c.iss).len();
    let l_sub = enc_opt_str(c.sub).len();
    let l_aud = enc_opt_str(c.aud).len();
    let l_jti = enc_opt_str(c.jti).len();
    let l_prs = enc_pairs(c.extra).len();
    let i3 = 25int;
    let i4 = i3 + l_iss;
    let i5 = i4 + l_sub;
    let i6 = i5 + l_aud;
    let i7 = i6 + l_jti;
    let i8 = i7 + 8;
    let end = i8 + l_prs;
    assert(b.len() == end);
    assert(t.subrange(0, b.len() as int) =~= b);
    assert(t.subrange(b.len() as int, t.len() as int) =~= enc_u64(tag_of(key, b)));
    // The kind byte and the three timestamps.
    assert(b[0] == kind_byte(k));
    assert(sp_kind(b[0]) == Some(k));
    assert(b.subrange(1, 9) =~= enc_u64(i64_as_u64(c.exp)));
    lemma_sp_u64_at(b, 1, i64_as_u64(c.exp));
    assert(b.subrange(9, 17) =~= enc_u64(i64_as_u64(c.nbf)));
    lemma_sp_u64_at(b, 9, i64_as_u64(c.nbf));
    assert(b.subrange(17, 25) =~= enc_u64(i64_as_u64(c.iat)));
    lemma_sp_u64_at(b, 17, i64_as_u64(c.iat));
    lemma_i64_u64_inverse(c.exp);
    lemma_i64_u64_inverse(c.nbf);
    lemma_i64_u64_inverse(c.iat);
    // The four optional identity fields.
    assert(b.subrange(i3, i4) =~= enc_opt_str(c.iss));
    lemma_sp_opt_str_at(b, i3, c.iss);
    assert(b.subrange(i4, i5) =~= enc_opt_str(c.sub));
    lemma_sp_opt_str_at(b, i4, c.sub);
    assert(b.subrange(i5, i6) =~= enc_opt_str(c.aud));
    lemma_sp_opt_str_at(b, i5, c.aud);
    assert(b.subrange(i6, i7) =~= enc_opt_str(c.jti));
    lemma_sp_opt_str_at(b, i6, c.jti);
    // The extension claims behind their count.
    assert(b.subrange(i7, i8) =~= enc_u64(c.extra.len() as u64));
    lemma_sp_u64_at(b, i7, c.extra.len() as u64);
    assert(b.subrange(i8, end) =~= enc_pairs(c.extra));
    lemma_sp_pairs_at(b, i8, c.extra);
    assert((c.extra.len() as u64) as nat == c.extra.len());
}

/// ROUND TRIP: a token decodes, under the key that signed it and at any time
/// within its validity window, to exactly the claims and the kind that were
/// encoded.
pub proof fn lemma_token_round_trip(
    c: ClaimsView,
    k: JwtType,
    key: Seq<u8>,
    now: i64,
    leeway: u32,
)
    requires
        claims_fit(c),
        c.nbf <= now + leeway,
        now <= c.exp + leeway,
    ensures
        spec_decode(enc_token(c, k, key), key, now, leeway) == Ok::<
            (ClaimsView, JwtType),
            TokenError,
        >((c, k)),
{
    lemma_parse_of_enc(c, k, key);
}

/// NOT-BEFORE ENFORCEMENT: a well-signed token whose not-before time lies
/// beyond the allowed clock skew in the future is rejected as not yet valid.
pub proof fn lemma_premature_token_rejected(
    c: ClaimsView,
    k: JwtType,
    key: Seq<u8>,
    now: i64,
    leeway: u32,
)
    requires
        claims_fit(c),
        now + leeway < c.nbf,
    ensures
        spec_decode(enc_token(c, k, key), key, now, leeway) == Err::<
            (ClaimsView, JwtType),
            TokenError,
        >(TokenError::NotYetValid),
{
    lemma_parse_of_enc(c, k, key);
}

/// EXPIRY ENFORCEMENT: a well-signed token whose expiry lies beyond the
/// allowed clock skew in the past is rejected as expired, however valid its
/// signature; the not-before bound below the expiry is what every built
/// claim set satisfies.
pub proof fn lemma_expired_token_rejected(
    c: ClaimsView,
    k: JwtType,
    key: Seq<u8>,
    now: i64,
    leeway: u32,
)
    requires
        claims_fit(c),
        c.nbf < c.exp,
        c.exp + leeway < now,
    ensures
        spec_decode(enc_token(c, k, key), key, now, leeway) == Err::<
            (ClaimsView, JwtType),
            TokenError,
        >(TokenError::Expired),
{
    lemma_parse_of_enc(c, k, key);
}

/// TAMPER DETECTION: changing any single byte of a token, in its body or in
/// its tag, makes decoding fail as a signature error; it never succeeds with
/// altered claims.
#[verifier::rlimit(100)]
#[verifier::spinoff_prover]
pub proof fn lemma_tampered_token_rejected(
    c: ClaimsView,
    k: JwtType,
    key: Seq<u8>,
    now: i64,
    leeway: u32,
    i: int,
    v: u8,
)
    requires
        claims_fit(c),
        0 <= i < enc_token(c, k, key).len(),
        v != enc_token(c, k, key)[i],
    ensures
        spec_decode(enc_token(c, k, key).update(i, v), key, now, leeway) == Err::<
            (ClaimsView, JwtType),
            TokenError,
        >(TokenError::SignatureInvalid),
{
    lemma_parse_of_enc(c, k, key);
    lemma_auto_spec_u64_to_from_le_bytes();
    let t = enc_token(c, k, key);
    let t2 = t.update(i, v);
    let bl = t.len() - 8;
    let body = t.subrange(0, bl);
    let tagb = t.subrange(bl, t.len() as int);
    let body2 = t2.subrange(0, bl);
    let tagb2 = t2.subrange(bl, t2.len() as int);
    assert(spec_u64_from_le_bytes(tagb) == tag_of(key, body));
    if i < bl {
        assert(tagb2 =~= tagb);
        assert(body2.len() == body.len());
        assert(body2[i] == v && body[i] == t[i]);
        lemma_tag_single_flip(key, body, body2, i);
        assert(spec_u64_from_le_bytes(tagb2) != tag_of(key, body2));
    } else {
        assert(body2 =~= body);
        if spec_u64_from_le_bytes(tagb2) == spec_u64_from_le_bytes(tagb) {
            assert(spec_u64_to_le_bytes(spec_u64_from_le_bytes(tagb2)) == tagb2);
            assert(spec_u64_to_le_bytes(spec_u64_from_le_bytes(tagb)) == tagb);
            assert(tagb2[i - bl] == v && tagb[i - bl] == t[i]);
            assert(false);
        }
    }
}

} // verus!
