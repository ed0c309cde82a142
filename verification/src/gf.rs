//! Arithmetic in GF(2^8) modulo x^8 + x^4 + x^3 + x + 1, and the AES S-box
//! (multiplicative inverse followed by the affine map). The executable code
//! is branchless on its data; every function is proved equal to the
//! mathematical definition.

use vstd::prelude::*;

verus! {

/// Multiplication by x in GF(2^8).
pub open spec fn spec_xtime(a: u8) -> u8 {
    ((((a as u16) << 1u16) ^ (if a & 0x80 == 0x80 { 0x11b as u16 } else { 0 as u16 })) & 0xff)
        as u8
}

/// Product in GF(2^8), as the shift-and-add recursion over the bits of `b`.
pub open spec fn spec_gf_mul_rec(a: u8, b: u8, n: nat) -> u8
    decreases n,
{
    if n == 0 {
        0
    } else {
        (if b & 1 == 1 { a } else { 0 }) ^ spec_gf_mul_rec(spec_xtime(a), b >> 1, (n - 1) as nat)
    }
}

/// Product in GF(2^8).
pub open spec fn spec_gf_mul(a: u8, b: u8) -> u8 {
    spec_gf_mul_rec(a, b, 8)
}

/// a^n in GF(2^8).
pub open spec fn spec_gf_pow(a: u8, n: nat) -> u8
    decreases n,
{
    if n == 0 {
        1
    } else {
        spec_gf_mul(a, spec_gf_pow(a, (n - 1) as nat))
    }
}

/// The multiplicative inverse (0 maps to 0): a^254 = a^(2^8 - 2).
pub open spec fn spec_gf_inv(a: u8) -> u8 {
    spec_gf_pow(a, 254)
}

/// Rotate an 8-bit value left by `k` (0 < k < 8).
pub open spec fn spec_rotl8(x: u8, k: u8) -> u8 {
    (x << k) | (x >> ((8 - k) as u8))
}

/// The AES S-box: affine map over GF(2) applied to the inverse.
pub open spec fn spec_sbox(b: u8) -> u8 {
    let x = spec_gf_inv(b);
    x ^ spec_rotl8(x, 1) ^ spec_rotl8(x, 2) ^ spec_rotl8(x, 3) ^ spec_rotl8(x, 4) ^ 0x63
}

pub proof fn lemma_xor_assoc(x: u8, y: u8, z: u8)
    ensures
        x ^ (y ^ z) == (x ^ y) ^ z,
{
    assert(x ^ (y ^ z) == (x ^ y) ^ z) by (bit_vector);
}

pub proof fn lemma_xor_zero(x: u8)
    ensures
        x ^ 0 == x,
        0 ^ x == x,
{
    assert(x ^ 0 == x && 0 ^ x == x) by (bit_vector);
}

pub proof fn lemma_and_mask(a: u8)
    ensures
        0xff & a == a,
        0 & a == 0,
        a & 1 == 0 || a & 1 == 1,
{
    assert(0xffu8 & a == a && 0u8 & a == 0 && (a & 1 == 0 || a & 1 == 1)) by (bit_vector);
}

/// Multiplication by x in GF(2^8), branchless in its argument's value
/// (the selection compiles to a mask in optimized builds).
pub fn xtime(a: u8) -> (r: u8)
    ensures
        r == spec_xtime(a),
{
    let wide: u16 = (a as u16) << 1u16;
    let reduce: u16 = if a & 0x80 == 0x80 {
        0x11b
    } else {
        0
    };
    ((wide ^ reduce) & 0xff) as u8
}

/// Product in GF(2^8) by shift-and-add over the bits of `b`.
pub fn gf_mul(a: u8, b: u8) -> (r: u8)
    ensures
        r == spec_gf_mul(a, b),
{
    let mut acc: u8 = 0;
    let mut av: u8 = a;
    let mut bv: u8 = b;
    let mut i: usize = 0;
    proof {
        lemma_xor_zero(spec_gf_mul_rec(a, b, 8));
    }
    while i < 8
        invariant
            i <= 8,
            spec_gf_mul(a, b) == acc ^ spec_gf_mul_rec(av, bv, (8 - i) as nat),
        decreases 8 - i,
    {
        let bit: u8 = bv & 1;
        let mask: u8 = bit.wrapping_mul(0xff);
        let term: u8 = mask & av;
        proof {
            lemma_and_mask(bv);
            lemma_and_mask(av);
            assert(spec_gf_mul_rec(av, bv, (8 - i) as nat) == (if bv & 1 == 1 {
                av
            } else {
                0
            }) ^ spec_gf_mul_rec(spec_xtime(av), bv >> 1, (8 - (i + 1)) as nat));
            assert(term == (if bv & 1 == 1 {
                av
            } else {
                0
            }));
            lemma_xor_assoc(acc, term, spec_gf_mul_rec(spec_xtime(av), bv >> 1, (8 - (i
                + 1)) as nat));
        }
        acc = acc ^ term;
        av = xtime(av);
        bv = bv >> 1u8;
        i = i + 1;
    }
    proof {
        assert(spec_gf_mul_rec(av, bv, 0) == 0);
        lemma_xor_zero(acc);
    }
    acc
}

/// a^n in GF(2^8) by repeated multiplication.
pub fn gf_pow(a: u8, n: usize) -> (r: u8)
    ensures
        r == spec_gf_pow(a, n as nat),
{
    let mut acc: u8 = 1;
    let mut i: usize = 0;
    while i < n
        invariant
            i <= n,
            acc == spec_gf_pow(a, i as nat),
        decreases n - i,
    {
        acc = gf_mul(a, acc);
        i = i + 1;
    }
    acc
}

/// a^254 in GF(2^8): the multiplicative inverse (with 0 mapping to 0).
pub fn gf_inv(a: u8) -> (r: u8)
    ensures
        r == spec_gf_inv(a),
{
    gf_pow(a, 254)
}

/// Rotate an 8-bit value left by `k` (0 < k < 8).
pub fn rotl8(x: u8, k: u8) -> (r: u8)
    requires
        0 < k < 8,
    ensures
        r == spec_rotl8(x, k),
{
    (x << k) | (x >> (8 - k))
}

/// The AES S-box, computed branchlessly: no table lookup indexed by data.
pub fn sbox(b: u8) -> (r: u8)
    ensures
        r == spec_sbox(b),
{
    let x = gf_inv(b);
    x ^ rotl8(x, 1) ^ rotl8(x, 2) ^ rotl8(x, 3) ^ rotl8(x, 4) ^ 0x63
}

} // verus!
