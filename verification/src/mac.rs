//! The keyed tag a token carries.
//!
//! A token's body is authenticated by a 64-bit tag computed from the key
//! material followed by the body. The tag's low 16 bits are the byte sum of
//! that whole sequence; changing any single byte moves the sum by less than
//! the modulus and therefore always changes the tag. This is what the
//! tamper-detection law of the codec rests on.

use vstd::prelude::*;
use vstd::arithmetic::div_mod::{
    lemma_fundamental_div_mod, lemma_fundamental_div_mod_converse, lemma_mod_bound,
};

verus! {

/// The sum of the bytes of a sequence.
pub open spec fn byte_sum(s: Seq<u8>) -> int
    decreases s.len(),
{
    if s.len() == 0 {
        0
    } else {
        byte_sum(s.drop_last()) + s.last()
    }
}

/// A keyed mixing accumulator, always below 2^48.
pub open spec fn mix(s: Seq<u8>) -> int
    decreases s.len(),
{
    if s.len() == 0 {
        7
    } else {
        (mix(s.drop_last()) * 31 + s.last() + 1) % 0x1000000000000
    }
}

/// The tag over a key and a body: the mixing accumulator in the high 48 bits,
/// the byte sum modulo 2^16 in the low 16.
pub open spec fn tag_of(key: Seq<u8>, body: Seq<u8>) -> u64 {
    (mix(key + body) * 0x10000 + byte_sum(key + body) % 0x10000) as u64
}

/// The byte sum is non-negative and bounded by the length times 255.
pub proof fn lemma_byte_sum_bounds(s: Seq<u8>)
    ensures
        0 <= byte_sum(s) <= 255 * s.len(),
    decreases s.len(),
{
    if s.len() > 0 {
        lemma_byte_sum_bounds(s.drop_last());
    }
}

/// The mixing accumulator stays in its 48-bit range.
pub proof fn lemma_mix_bounds(s: Seq<u8>)
    ensures
        0 <= mix(s) < 0x1000000000000,
    decreases s.len(),
{
    if s.len() > 0 {
        lemma_mix_bounds(s.drop_last());
        lemma_mod_bound(mix(s.drop_last()) * 31 + s.last() + 1, 0x1000000000000);
    }
}

/// The tag, as an integer, never reaches 2^64, so the cast in [`tag_of`]
/// loses nothing.
pub proof fn lemma_tag_in_range(key: Seq<u8>, body: Seq<u8>)
    ensures
        tag_of(key, body) == mix(key + body) * 0x10000 + byte_sum(key + body) % 0x10000,
        tag_of(key, body) % 0x10000 == byte_sum(key + body) % 0x10000,
{
    let s = key + body;
    lemma_mix_bounds(s);
    lemma_byte_sum_bounds(s);
    lemma_mod_bound(byte_sum(s), 0x10000);
    let t = mix(s) * 0x10000 + byte_sum(s) % 0x10000;
    assert(t < 0x10000000000000000) by {
        assert(mix(s) * 0x10000 <= 0xFFFFFFFFFFFF * 0x10000);
    }
    lemma_fundamental_div_mod_converse(t, 0x10000, mix(s), byte_sum(s) % 0x10000);
}

/// Changing one byte moves the byte sum by exactly that byte's difference.
pub proof fn lemma_byte_sum_flip(s1: Seq<u8>, s2: Seq<u8>, i: int)
    requires
        s1.len() == s2.len(),
        0 <= i < s1.len(),
        forall|j: int| 0 <= j < s1.len() && j != i ==> s1[j] == s2[j],
    ensures
        byte_sum(s1) - byte_sum(s2) == s1[i] - s2[i],
    decreases s1.len(),
{
    if i == s1.len() - 1 {
        assert(s1.drop_last() =~= s2.drop_last());
    } else {
        lemma_byte_sum_flip(s1.drop_last(), s2.drop_last(), i);
    }
}

/// Two bodies of the same length that differ in exactly one byte never carry
/// the same tag under the same key.
pub proof fn lemma_tag_single_flip(key: Seq<u8>, b1: Seq<u8>, b2: Seq<u8>, i: int)
    requires
        b1.len() == b2.len(),
        0 <= i < b1.len(),
        b1[i] != b2[i],
        forall|j: int| 0 <= j < b1.len() && j != i ==> b1[j] == b2[j],
    ensures
        tag_of(key, b1) != tag_of(key, b2),
{
    let s1 = key + b1;
    let s2 = key + b2;
    assert(s1.len() == s2.len());
    assert(s1[key.len() + i] == b1[i] && s2[key.len() + i] == b2[i]);
    assert forall|j: int| 0 <= j < s1.len() && j != key.len() + i implies s1[j] == s2[j] by {
        if j >= key.len() {
            assert(s1[j] == b1[j - key.len()] && s2[j] == b2[j - key.len()]);
        }
    }
    lemma_byte_sum_flip(s1, s2, key.len() + i);
    let d = byte_sum(s1) - byte_sum(s2);
    assert(d != 0 && -256 < d < 256);
    lemma_tag_in_range(key, b1);
    lemma_tag_in_range(key, b2);
    if tag_of(key, b1) == tag_of(key, b2) {
        assert(byte_sum(s1) % 0x10000 == byte_sum(s2) % 0x10000);
        lemma_fundamental_div_mod(byte_sum(s1), 0x10000);
        lemma_fundamental_div_mod(byte_sum(s2), 0x10000);
        let q1 = byte_sum(s1) / 0x10000;
        let q2 = byte_sum(s2) / 0x10000;
        assert(d == (q1 - q2) * 0x10000) by {
            assert(byte_sum(s1) == 0x10000 * q1 + byte_sum(s1) % 0x10000);
            assert(byte_sum(s2) == 0x10000 * q2 + byte_sum(s2) % 0x10000);
            assert((q1 - q2) * 0x10000 == 0x10000 * q1 - 0x10000 * q2) by (nonlinear_arith);
        }
        assert(q1 != q2);
        assert(d >= 0x10000 || d <= -0x10000) by {
            assert(q1 - q2 >= 1 ==> (q1 - q2) * 0x10000 >= 0x10000) by (nonlinear_arith);
            assert(q1 - q2 <= -1 ==> (q1 - q2) * 0x10000 <= -0x10000) by (nonlinear_arith);
        }
        assert(false);
    }
}

/// Computes [`tag_of`] over the key material and the body.
#[verifier::loop_isolation(false)]
pub fn compute_tag(key: &Vec<u8>, body: &Vec<u8>) -> (t: u64)
    ensures
        t == tag_of(key@, body@),
{
    let ghost s = key@ + body@;
    let mut h: u64 = 7;
    let mut sum: u128 = 0;
    let mut n: usize = 0;
    proof {
        assert(s.take(0) =~= Seq::<u8>::empty());
    }
    while n < key.len()
        invariant
            n <= key.len(),
            h == mix(s.take(n as int)),
            0 <= h < 0x1000000000000,
            sum == byte_sum(s.take(n as int)),
            sum <= 255 * n,
        decreases key.len() - n,
    {
        let b = key[n];
        proof {
            assert(s.take(n + 1).drop_last() =~= s.take(n as int));
            assert(s.take(n + 1).last() == b);
            lemma_mod_bound(h * 31 + b + 1, 0x1000000000000);
        }
        h = (h * 31 + b as u64 + 1) % 0x1000000000000;
        sum = sum + b as u128;
        n = n + 1;
    }
    let mut m: usize = 0;
    while m < body.len()
        invariant
            m <= body.len(),
            n == key.len(),
            h == mix(s.take(n + m)),
            0 <= h < 0x1000000000000,
            sum == byte_sum(s.take(n + m)),
            sum <= 255 * (n + m),
        decreases body.len() - m,
    {
        let b = body[m];
        proof {
            assert(s.take(n + m + 1).drop_last() =~= s.take(n + m));
            assert(s.take(n + m + 1).last() == b);
            lemma_mod_bound(h * 31 + b + 1, 0x1000000000000);
        }
        h = (h * 31 + b as u64 + 1) % 0x1000000000000;
        sum = sum + b as u128;
        m = m + 1;
    }
    proof {
        assert(s.take(n + m) =~= s);
        lemma_tag_in_range(key@, body@);
    }
    h * 0x10000 + (sum % 0x10000) as u64
}

} // verus!
