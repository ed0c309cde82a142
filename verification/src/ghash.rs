//! GHASH field arithmetic: multiplication in GF(2^128) with the reversed
//! (reflected) bit order used by GCM, its mathematical specification, and
//! conversions between 16-byte blocks and 128-bit field elements. The
//! executable multiplication is bit-serial and branchless on its data.

use vstd::prelude::*;

verus! {

/// The reduction constant of GCM's reflected representation:
/// x^128 = x^7 + x^2 + x + 1, reflected into the top byte.
pub const GHASH_R: u128 = 0xe100_0000_0000_0000_0000_0000_0000_0000;

/// One step of the shift-and-add multiplication, processing the bits of
/// `x` from the most significant (reflected bit order) downwards.
pub open spec fn spec_gmul_rec(v: u128, z: u128, x: u128, n: nat) -> u128
    decreases n,
{
    if n == 0 {
        z
    } else {
        let z2 = if (x >> 127u128) & 1 == 1 {
            z ^ v
        } else {
            z
        };
        let v2 = if v & 1 == 1 {
            (v >> 1u128) ^ GHASH_R
        } else {
            v >> 1u128
        };
        spec_gmul_rec(v2, z2, x << 1u128, (n - 1) as nat)
    }
}

/// The GHASH product x · h in GF(2^128), reflected representation.
pub open spec fn spec_ghash_mul(x: u128, h: u128) -> u128 {
    spec_gmul_rec(h, 0, x, 128)
}

proof fn lemma_u128_masks(b: u128, v: u128)
    requires
        b == 0 || b == 1,
    ensures
        (if b == 1 {
            0xffff_ffff_ffff_ffff_ffff_ffff_ffff_ffffu128
        } else {
            0u128
        }) & v == (if b == 1 {
            v
        } else {
            0u128
        }),
{
    assert(0xffff_ffff_ffff_ffff_ffff_ffff_ffff_ffffu128 & v == v && 0u128 & v == 0)
        by (bit_vector);
}

proof fn lemma_u128_xor_zero(x: u128)
    ensures
        x ^ 0 == x,
{
    assert(x ^ 0u128 == x) by (bit_vector);
}

proof fn lemma_u128_bits(x: u128, v: u128)
    ensures
        (x >> 127u128) & 1 == 0 || (x >> 127u128) & 1 == 1,
        v & 1 == 0 || v & 1 == 1,
{
    assert(((x >> 127u128) & 1 == 0 || (x >> 127u128) & 1 == 1) && (v & 1 == 0 || v & 1
        == 1)) by (bit_vector);
}

/// The GHASH product, computed bit-serially with masked selections
/// (branchless on the data).
pub fn ghash_mul(x: u128, h: u128) -> (r: u128)
    ensures
        r == spec_ghash_mul(x, h),
{
    let mut v: u128 = h;
    let mut z: u128 = 0;
    let mut xv: u128 = x;
    let mut i: usize = 0;
    while i < 128
        invariant
            i <= 128,
            spec_gmul_rec(v, z, xv, (128 - i) as nat) == spec_ghash_mul(x, h),
        decreases 128 - i,
    {
        let xbit: u128 = (xv >> 127u128) & 1;
        let xmask: u128 = if xbit == 1 {
            0xffff_ffff_ffff_ffff_ffff_ffff_ffff_ffff
        } else {
            0
        };
        let vbit: u128 = v & 1;
        let vmask: u128 = if vbit == 1 {
            0xffff_ffff_ffff_ffff_ffff_ffff_ffff_ffff
        } else {
            0
        };
        proof {
            lemma_u128_bits(xv, v);
            lemma_u128_masks(xbit, v);
            lemma_u128_masks(vbit, GHASH_R);
            lemma_u128_xor_zero(z);
            lemma_u128_xor_zero(v >> 1u128);
            assert(spec_gmul_rec(v, z, xv, (128 - i) as nat) == spec_gmul_rec(
                (if v & 1 == 1 {
                    (v >> 1u128) ^ GHASH_R
                } else {
                    v >> 1u128
                }),
                (if (xv >> 127u128) & 1 == 1 {
                    z ^ v
                } else {
                    z
                }),
                xv << 1u128,
                (128 - (i + 1)) as nat,
            ));
        }
        z = z ^ (xmask & v);
        v = (v >> 1u128) ^ (vmask & GHASH_R);
        xv = xv << 1u128;
        i = i + 1;
    }
    z
}

// --- Conversion between 16-byte blocks and 128-bit field elements.

/// The big-endian 128-bit value of 16 bytes.
pub open spec fn spec_be128(
    b0: u8,
    b1: u8,
    b2: u8,
    b3: u8,
    b4: u8,
    b5: u8,
    b6: u8,
    b7: u8,
    b8: u8,
    b9: u8,
    b10: u8,
    b11: u8,
    b12: u8,
    b13: u8,
    b14: u8,
    b15: u8,
) -> u128 {
    ((b0 as u128) << 120u128) | ((b1 as u128) << 112u128) | ((b2 as u128) << 104u128) | ((
    b3 as u128) << 96u128) | ((b4 as u128) << 88u128) | ((b5 as u128) << 80u128) | ((b6 as u128)
        << 72u128) | ((b7 as u128) << 64u128) | ((b8 as u128) << 56u128) | ((b9 as u128)
        << 48u128) | ((b10 as u128) << 40u128) | ((b11 as u128) << 32u128) | ((b12 as u128)
        << 24u128) | ((b13 as u128) << 16u128) | ((b14 as u128) << 8u128) | (b15 as u128)
}

/// The big-endian 128-bit value of a 16-byte block.
pub open spec fn spec_block_u128(b: Seq<u8>) -> u128 {
    spec_be128(
        b[0],
        b[1],
        b[2],
        b[3],
        b[4],
        b[5],
        b[6],
        b[7],
        b[8],
        b[9],
        b[10],
        b[11],
        b[12],
        b[13],
        b[14],
        b[15],
    )
}

/// Byte `k` (big-endian, 0 most significant) of a 128-bit value.
pub open spec fn spec_u128_byte(w: u128, k: u128) -> u8 {
    ((w >> ((120 - 8 * k) as u128)) & 0xff) as u8
}

/// The 16 bytes of a 128-bit value, big-endian.
pub open spec fn spec_u128_block(w: u128) -> Seq<u8> {
    Seq::new(16, |i: int| spec_u128_byte(w, i as u128))
}

/// The all-zero block is the zero field element.
pub proof fn lemma_u128_block_zero()
    ensures
        spec_block_u128(Seq::new(16, |i: int| 0u8)) == 0,
{
    assert(spec_be128(0, 0, 0, 0, 0, 0, 0, 0, 0, 0, 0, 0, 0, 0, 0, 0) == 0) by (bit_vector);
}

/// Writing a 128-bit value as bytes and reading it back recovers it.
pub proof fn lemma_u128_block_roundtrip(w: u128)
    ensures
        spec_block_u128(spec_u128_block(w)) == w,
{
    assert(spec_be128(
        spec_u128_byte(w, 0),
        spec_u128_byte(w, 1),
        spec_u128_byte(w, 2),
        spec_u128_byte(w, 3),
        spec_u128_byte(w, 4),
        spec_u128_byte(w, 5),
        spec_u128_byte(w, 6),
        spec_u128_byte(w, 7),
        spec_u128_byte(w, 8),
        spec_u128_byte(w, 9),
        spec_u128_byte(w, 10),
        spec_u128_byte(w, 11),
        spec_u128_byte(w, 12),
        spec_u128_byte(w, 13),
        spec_u128_byte(w, 14),
        spec_u128_byte(w, 15),
    ) == w) by (bit_vector);
}

/// The block value of a byte-wise exclusive-or is the exclusive-or of the
/// block values.
pub proof fn lemma_be128_xor(x: Seq<u8>, a: Seq<u8>)
    requires
        x.len() == 16,
        a.len() == 16,
    ensures
        spec_block_u128(Seq::new(16, |i: int| x[i] ^ a[i])) == spec_block_u128(x)
            ^ spec_block_u128(a),
{
    let x0 = x[0];
    let x1 = x[1];
    let x2 = x[2];
    let x3 = x[3];
    let x4 = x[4];
    let x5 = x[5];
    let x6 = x[6];
    let x7 = x[7];
    let x8 = x[8];
    let x9 = x[9];
    let x10 = x[10];
    let x11 = x[11];
    let x12 = x[12];
    let x13 = x[13];
    let x14 = x[14];
    let x15 = x[15];
    let a0 = a[0];
    let a1 = a[1];
    let a2 = a[2];
    let a3 = a[3];
    let a4 = a[4];
    let a5 = a[5];
    let a6 = a[6];
    let a7 = a[7];
    let a8 = a[8];
    let a9 = a[9];
    let a10 = a[10];
    let a11 = a[11];
    let a12 = a[12];
    let a13 = a[13];
    let a14 = a[14];
    let a15 = a[15];
    assert(spec_be128(
        x0 ^ a0,
        x1 ^ a1,
        x2 ^ a2,
        x3 ^ a3,
        x4 ^ a4,
        x5 ^ a5,
        x6 ^ a6,
        x7 ^ a7,
        x8 ^ a8,
        x9 ^ a9,
        x10 ^ a10,
        x11 ^ a11,
        x12 ^ a12,
        x13 ^ a13,
        x14 ^ a14,
        x15 ^ a15,
    ) == spec_be128(x0, x1, x2, x3, x4, x5, x6, x7, x8, x9, x10, x11, x12, x13, x14, x15)
        ^ spec_be128(
        a0,
        a1,
        a2,
        a3,
        a4,
        a5,
        a6,
        a7,
        a8,
        a9,
        a10,
        a11,
        a12,
        a13,
        a14,
        a15,
    )) by (bit_vector);
}

/// Read a 16-byte block as a big-endian 128-bit value.
pub fn block_to_u128(b: &[u8; 16]) -> (r: u128)
    ensures
        r == spec_block_u128(b@),
{
    ((b[0] as u128) << 120u128) | ((b[1] as u128) << 112u128) | ((b[2] as u128) << 104u128) | ((
    b[3] as u128) << 96u128) | ((b[4] as u128) << 88u128) | ((b[5] as u128) << 80u128) | ((
    b[6] as u128) << 72u128) | ((b[7] as u128) << 64u128) | ((b[8] as u128) << 56u128) | ((
    b[9] as u128) << 48u128) | ((b[10] as u128) << 40u128) | ((b[11] as u128) << 32u128) | ((
    b[12] as u128) << 24u128) | ((b[13] as u128) << 16u128) | ((b[14] as u128) << 8u128) | (
    b[15] as u128)
}

fn u128_byte(w: u128, k: u128) -> (r: u8)
    requires
        k < 16,
    ensures
        r == spec_u128_byte(w, k),
{
    ((w >> ((120 - 8 * (k as u32)) as u128)) & 0xff) as u8
}

/// Write a 128-bit value as a big-endian 16-byte block.
pub fn u128_to_block(w: u128) -> (r: [u8; 16])
    ensures
        r@ == spec_u128_block(w),
{
    let r = [
        u128_byte(w, 0),
        u128_byte(w, 1),
        u128_byte(w, 2),
        u128_byte(w, 3),
        u128_byte(w, 4),
        u128_byte(w, 5),
        u128_byte(w, 6),
        u128_byte(w, 7),
        u128_byte(w, 8),
        u128_byte(w, 9),
        u128_byte(w, 10),
        u128_byte(w, 11),
        u128_byte(w, 12),
        u128_byte(w, 13),
        u128_byte(w, 14),
        u128_byte(w, 15),
    ];
    proof {
        assert(r@ =~= spec_u128_block(w));
    }
    r
}

} // verus!
