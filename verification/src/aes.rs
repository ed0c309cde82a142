//! The AES block cipher in conventional (per-block) form: the round
//! transformation, its mathematical specification, and the round-key
//! expansion from 128- or 256-bit key material. The batched bitsliced
//! engine drives this round logic over whole batches.

use crate::gf::{
    gf_pow, sbox, spec_gf_pow, spec_sbox, spec_xtime, xtime,
};
use vstd::prelude::*;

verus! {

/// One AES block or one GF(2^128) element.
pub type Block = [u8; 16];

pub const BLOCK_LEN: usize = 16;

/// The largest round count (256-bit keys use 14 rounds).
pub const MAX_ROUNDS: usize = 14;

// --- Specification of the round transformation (state is column-major:
// --- byte i of a block holds state row i % 4, column i / 4).

pub open spec fn spec_sub_bytes(s: Seq<u8>) -> Seq<u8> {
    Seq::new(16, |i: int| spec_sbox(s[i]))
}

/// Source index of byte `i` under ShiftRows: row r rotates left by r columns.
pub open spec fn spec_shift_src(i: int) -> int {
    (i % 4) + 4 * ((i / 4 + i % 4) % 4)
}

pub open spec fn spec_shift_rows(s: Seq<u8>) -> Seq<u8> {
    Seq::new(16, |i: int| s[spec_shift_src(i)])
}

/// 2·a in GF(2^8).
pub open spec fn spec_m2(a: u8) -> u8 {
    spec_xtime(a)
}

/// 3·a in GF(2^8).
pub open spec fn spec_m3(a: u8) -> u8 {
    spec_xtime(a) ^ a
}

/// Byte `i` of the MixColumns image: the circulant (2 3 1 1) column mix.
pub open spec fn spec_mix_byte(s: Seq<u8>, i: int) -> u8 {
    let c = 4 * (i / 4);
    let r = i % 4;
    if r == 0 {
        spec_m2(s[c]) ^ spec_m3(s[c + 1]) ^ s[c + 2] ^ s[c + 3]
    } else if r == 1 {
        s[c] ^ spec_m2(s[c + 1]) ^ spec_m3(s[c + 2]) ^ s[c + 3]
    } else if r == 2 {
        s[c] ^ s[c + 1] ^ spec_m2(s[c + 2]) ^ spec_m3(s[c + 3])
    } else {
        spec_m3(s[c]) ^ s[c + 1] ^ s[c + 2] ^ spec_m2(s[c + 3])
    }
}

pub open spec fn spec_mix_columns(s: Seq<u8>) -> Seq<u8> {
    Seq::new(16, |i: int| spec_mix_byte(s, i))
}

pub open spec fn spec_add_round_key(s: Seq<u8>, rk: Seq<u8>) -> Seq<u8> {
    Seq::new(16, |i: int| s[i] ^ rk[i])
}

/// One full AES round.
pub open spec fn spec_round(s: Seq<u8>, rk: Seq<u8>) -> Seq<u8> {
    spec_add_round_key(spec_mix_columns(spec_shift_rows(spec_sub_bytes(s))), rk)
}

/// The last AES round omits MixColumns.
pub open spec fn spec_final_round(s: Seq<u8>, rk: Seq<u8>) -> Seq<u8> {
    spec_add_round_key(spec_shift_rows(spec_sub_bytes(s)), rk)
}

/// State after the initial whitening and `r` full rounds, with round-key
/// blocks `rks`.
pub open spec fn spec_aes_state_after(rks: Seq<Seq<u8>>, block: Seq<u8>, r: nat) -> Seq<u8>
    decreases r,
{
    if r == 0 {
        spec_add_round_key(block, rks[0])
    } else {
        spec_round(spec_aes_state_after(rks, block, (r - 1) as nat), rks[r as int])
    }
}

/// AES encryption of one block under round-key blocks `rks` (length nr + 1).
pub open spec fn spec_aes_encrypt(rks: Seq<Seq<u8>>, nr: nat, block: Seq<u8>) -> Seq<u8> {
    spec_final_round(spec_aes_state_after(rks, block, (nr - 1) as nat), rks[nr as int])
}

// --- Executable round transformation.

fn sub_bytes(s: &Block) -> (r: Block)
    ensures
        r@ == spec_sub_bytes(s@),
{
    let r = [
        sbox(s[0]),
        sbox(s[1]),
        sbox(s[2]),
        sbox(s[3]),
        sbox(s[4]),
        sbox(s[5]),
        sbox(s[6]),
        sbox(s[7]),
        sbox(s[8]),
        sbox(s[9]),
        sbox(s[10]),
        sbox(s[11]),
        sbox(s[12]),
        sbox(s[13]),
        sbox(s[14]),
        sbox(s[15]),
    ];
    proof {
        assert(r@ =~= spec_sub_bytes(s@));
    }
    r
}

fn shift_rows(s: &Block) -> (r: Block)
    ensures
        r@ == spec_shift_rows(s@),
{
    let r = [
        s[0],
        s[5],
        s[10],
        s[15],
        s[4],
        s[9],
        s[14],
        s[3],
        s[8],
        s[13],
        s[2],
        s[7],
        s[12],
        s[1],
        s[6],
        s[11],
    ];
    proof {
        assert(r@ =~= spec_shift_rows(s@));
    }
    r
}

/// 2·a in GF(2^8).
fn m2(a: u8) -> (r: u8)
    ensures
        r == spec_m2(a),
{
    xtime(a)
}

/// 3·a in GF(2^8).
fn m3(a: u8) -> (r: u8)
    ensures
        r == spec_m3(a),
{
    xtime(a) ^ a
}

fn mix_columns(s: &Block) -> (r: Block)
    ensures
        r@ == spec_mix_columns(s@),
{
    let r = [
        m2(s[0]) ^ m3(s[1]) ^ s[2] ^ s[3],
        s[0] ^ m2(s[1]) ^ m3(s[2]) ^ s[3],
        s[0] ^ s[1] ^ m2(s[2]) ^ m3(s[3]),
        m3(s[0]) ^ s[1] ^ s[2] ^ m2(s[3]),
        m2(s[4]) ^ m3(s[5]) ^ s[6] ^ s[7],
        s[4] ^ m2(s[5]) ^ m3(s[6]) ^ s[7],
        s[4] ^ s[5] ^ m2(s[6]) ^ m3(s[7]),
        m3(s[4]) ^ s[5] ^ s[6] ^ m2(s[7]),
        m2(s[8]) ^ m3(s[9]) ^ s[10] ^ s[11],
        s[8] ^ m2(s[9]) ^ m3(s[10]) ^ s[11],
        s[8] ^ s[9] ^ m2(s[10]) ^ m3(s[11]),
        m3(s[8]) ^ s[9] ^ s[10] ^ m2(s[11]),
        m2(s[12]) ^ m3(s[13]) ^ s[14] ^ s[15],
        s[12] ^ m2(s[13]) ^ m3(s[14]) ^ s[15],
        s[12] ^ s[13] ^ m2(s[14]) ^ m3(s[15]),
        m3(s[12]) ^ s[13] ^ s[14] ^ m2(s[15]),
    ];
    proof {
        assert(r@ =~= spec_mix_columns(s@));
    }
    r
}

fn add_round_key(s: &Block, rk: &Block) -> (r: Block)
    ensures
        r@ == spec_add_round_key(s@, rk@),
{
    let r = [
        s[0] ^ rk[0],
        s[1] ^ rk[1],
        s[2] ^ rk[2],
        s[3] ^ rk[3],
        s[4] ^ rk[4],
        s[5] ^ rk[5],
        s[6] ^ rk[6],
        s[7] ^ rk[7],
        s[8] ^ rk[8],
        s[9] ^ rk[9],
        s[10] ^ rk[10],
        s[11] ^ rk[11],
        s[12] ^ rk[12],
        s[13] ^ rk[13],
        s[14] ^ rk[14],
        s[15] ^ rk[15],
    ];
    proof {
        assert(r@ =~= spec_add_round_key(s@, rk@));
    }
    r
}

/// Encrypt one block with the given round-key blocks (`rks.len() == nr + 1`).
pub fn aes_encrypt_one(rks: &[Block], nr: usize, block: &Block) -> (r: Block)
    requires
        1 <= nr <= MAX_ROUNDS,
        rks@.len() == nr + 1,
    ensures
        r@ == spec_aes_encrypt(rks.deep_view(), nr as nat, block@),
{
    let mut state = add_round_key(block, &rks[0]);
    proof {
        assert(rks.deep_view().len() == nr + 1);
        assert(rks.deep_view()[0] == rks@[0]@);
        assert(state@ == spec_aes_state_after(rks.deep_view(), block@, 0));
    }
    let mut r: usize = 1;
    while r < nr
        invariant
            1 <= r <= nr,
            nr + 1 == rks@.len(),
            nr <= MAX_ROUNDS,
            state@ == spec_aes_state_after(rks.deep_view(), block@, (r - 1) as nat),
        decreases nr - r,
    {
        let rk = rks[r];
        proof {
            assert(rks.deep_view()[r as int] == rks@[r as int]@);
        }
        state = add_round_key(&mix_columns(&shift_rows(&sub_bytes(&state))), &rk);
        r = r + 1;
    }
    let rk = rks[nr];
    proof {
        assert(rks.deep_view()[nr as int] == rks@[nr as int]@);
    }
    add_round_key(&shift_rows(&sub_bytes(&state)), &rk)
}

// --- Key schedule.

/// Conventional expanded round-key material plus round count. Produced once
/// at key setup and immutable thereafter.
#[allow(non_camel_case_types)]
pub struct AES_KEY {
    pub rd_key: [u32; 60],
    pub rounds: u32,
}

/// Raw key material for the supported key sizes.
#[allow(non_camel_case_types)]
pub enum KeyBytes<'a> {
    AES_128(&'a [u8; 16]),
    AES_256(&'a [u8; 32]),
}

impl<'a> KeyBytes<'a> {
    pub open spec fn spec_bytes(&self) -> Seq<u8> {
        match *self {
            KeyBytes::AES_128(b) => b@,
            KeyBytes::AES_256(b) => b@,
        }
    }

    pub open spec fn spec_nk(&self) -> nat {
        match *self {
            KeyBytes::AES_128(_) => 4,
            KeyBytes::AES_256(_) => 8,
        }
    }

    pub open spec fn spec_rounds(&self) -> nat {
        match *self {
            KeyBytes::AES_128(_) => 10,
            KeyBytes::AES_256(_) => 14,
        }
    }
}

pub open spec fn spec_be_word(b0: u8, b1: u8, b2: u8, b3: u8) -> u32 {
    ((b0 as u32) << 24u32) | ((b1 as u32) << 16u32) | ((b2 as u32) << 8u32) | (b3 as u32)
}

/// Byte `r` (big-endian, 0 is most significant) of a schedule word.
pub open spec fn spec_word_byte(w: u32, r: int) -> u8 {
    ((w >> ((8 * (3 - r)) as u32)) & 0xff) as u8
}

pub open spec fn spec_sub_word(w: u32) -> u32 {
    spec_be_word(
        spec_sbox(spec_word_byte(w, 0)),
        spec_sbox(spec_word_byte(w, 1)),
        spec_sbox(spec_word_byte(w, 2)),
        spec_sbox(spec_word_byte(w, 3)),
    )
}

pub open spec fn spec_rot_word(w: u32) -> u32 {
    (w << 8u32) | (w >> 24u32)
}

/// The round constant: x^(j-1) in GF(2^8), placed in the top byte.
pub open spec fn spec_rcon(j: nat) -> u32 {
    (spec_gf_pow(2, (j - 1) as nat) as u32) << 24u32
}

/// Word `i` of the expanded key schedule for key material `key` with
/// `nk` words of key (4 or 8).
pub open spec fn spec_key_word(key: Seq<u8>, nk: nat, i: nat) -> u32
    decreases i,
    when nk >= 1
{
    if i < nk {
        spec_be_word(
            key[4 * i as int],
            key[4 * i as int + 1],
            key[4 * i as int + 2],
            key[4 * i as int + 3],
        )
    } else if i % nk == 0 {
        spec_key_word(key, nk, (i - nk) as nat) ^ (spec_sub_word(
            spec_rot_word(spec_key_word(key, nk, (i - 1) as nat)),
        ) ^ spec_rcon(i / nk))
    } else if nk == 8 && i % 8 == 4 {
        spec_key_word(key, nk, (i - nk) as nat) ^ spec_sub_word(
            spec_key_word(key, nk, (i - 1) as nat),
        )
    } else {
        spec_key_word(key, nk, (i - nk) as nat) ^ spec_key_word(key, nk, (i - 1) as nat)
    }
}

pub fn word_byte(w: u32, r: usize) -> (b: u8)
    requires
        r < 4,
    ensures
        b == spec_word_byte(w, r as int),
{
    ((w >> ((24 - 8 * (r as u32)) as u32)) & 0xff) as u8
}

fn sub_word(w: u32) -> (r: u32)
    ensures
        r == spec_sub_word(w),
{
    let b0 = sbox(word_byte(w, 0));
    let b1 = sbox(word_byte(w, 1));
    let b2 = sbox(word_byte(w, 2));
    let b3 = sbox(word_byte(w, 3));
    ((b0 as u32) << 24u32) | ((b1 as u32) << 16u32) | ((b2 as u32) << 8u32) | (b3 as u32)
}

fn rot_word(w: u32) -> (r: u32)
    ensures
        r == spec_rot_word(w),
{
    (w << 8u32) | (w >> 24u32)
}

fn rcon(j: usize) -> (r: u32)
    requires
        1 <= j,
        j <= 14,
    ensures
        r == spec_rcon(j as nat),
{
    let p = gf_pow(2, j - 1);
    (p as u32) << 24u32
}

/// Expand `key` material of `nk` words into words `0 .. nw` of `rd`.
fn expand_key(kb: &[u8], nk: usize, nw: usize, rd: &mut [u32; 60])
    requires
        nk == 4 || nk == 8,
        kb@.len() == 4 * nk,
        nw == if nk == 4 {
            44usize
        } else {
            60usize
        },
    ensures
        forall|i: int|
            0 <= i < nw ==> final(rd)@[i] == spec_key_word(kb@, nk as nat, i as nat),
        forall|i: int| nw <= i < 60 ==> final(rd)@[i] == old(rd)@[i],
{
    let mut i: usize = 0;
    while i < nw
        invariant
            i <= nw,
            nk == 4 || nk == 8,
            kb@.len() == 4 * nk,
            nw == if nk == 4 {
                44usize
            } else {
                60usize
            },
            forall|j: int| 0 <= j < i ==> rd@[j] == spec_key_word(kb@, nk as nat, j as nat),
            forall|j: int| nw <= j < 60 ==> rd@[j] == old(rd)@[j],
        decreases nw - i,
    {
        let w: u32 = if i < nk {
            be_word(kb[4 * i], kb[4 * i + 1], kb[4 * i + 2], kb[4 * i + 3])
        } else {
            let prev = rd[i - 1];
            let back = rd[i - nk];
            let t: u32 = if i % nk == 0 {
                sub_word(rot_word(prev)) ^ rcon(i / nk)
            } else if nk == 8 && i % 8 == 4 {
                sub_word(prev)
            } else {
                prev
            };
            back ^ t
        };
        rd[i] = w;
        proof {
            assert(rd@[i as int] == spec_key_word(kb@, nk as nat, i as nat));
        }
        i = i + 1;
    }
}

pub fn be_word(b0: u8, b1: u8, b2: u8, b3: u8) -> (r: u32)
    ensures
        r == spec_be_word(b0, b1, b2, b3),
{
    ((b0 as u32) << 24u32) | ((b1 as u32) << 16u32) | ((b2 as u32) << 8u32) | (b3 as u32)
}

/// Expand raw key material into the conventional round-key schedule.
pub fn set_encrypt_key(key: &mut AES_KEY, bytes: KeyBytes)
    ensures
        final(key).rounds == bytes.spec_rounds(),
        forall|i: int|
            0 <= i < 4 * (bytes.spec_rounds() + 1) ==> final(key).rd_key@[i] == spec_key_word(
                bytes.spec_bytes(),
                bytes.spec_nk(),
                i as nat,
            ),
{
    match bytes {
        KeyBytes::AES_128(kb) => {
            key.rounds = 10;
            expand_key(kb.as_slice(), 4, 44, &mut key.rd_key);
        },
        KeyBytes::AES_256(kb) => {
            key.rounds = 14;
            expand_key(kb.as_slice(), 8, 60, &mut key.rd_key);
        },
    }
}

impl AES_KEY {
    /// A schedule with every word zero; key setup overwrites it.
    pub fn zeroed() -> (r: AES_KEY)
        ensures
            r.rounds == 0,
    {
        AES_KEY { rd_key: [0; 60], rounds: 0 }
    }

    /// The key's round count is one the schedule was sized for.
    pub open spec fn wf(&self) -> bool {
        self.rounds == 10 || self.rounds == 12 || self.rounds == 14
    }

    /// Round-key block `r` of this key, as 16 bytes (big-endian within
    /// each schedule word).
    pub open spec fn spec_rk_block(&self, r: int) -> Seq<u8> {
        Seq::new(16, |i: int| spec_word_byte(self.rd_key@[4 * r + i / 4], i % 4))
    }

    /// All round-key blocks of this key.
    pub open spec fn spec_rk_blocks(&self) -> Seq<Seq<u8>> {
        Seq::new((self.rounds + 1) as nat, |r: int| self.spec_rk_block(r))
    }

    /// Encryption of `block` under this key.
    pub open spec fn spec_encrypt(&self, block: Seq<u8>) -> Seq<u8> {
        spec_aes_encrypt(self.spec_rk_blocks(), self.rounds as nat, block)
    }

    /// Round-key block `r`, materialized as bytes.
    pub fn rk_block(&self, r: usize) -> (b: Block)
        requires
            self.wf(),
            r <= self.rounds,
        ensures
            b@ == self.spec_rk_block(r as int),
    {
        let w0 = self.rd_key[4 * r];
        let w1 = self.rd_key[4 * r + 1];
        let w2 = self.rd_key[4 * r + 2];
        let w3 = self.rd_key[4 * r + 3];
        let b = [
            word_byte(w0, 0),
            word_byte(w0, 1),
            word_byte(w0, 2),
            word_byte(w0, 3),
            word_byte(w1, 0),
            word_byte(w1, 1),
            word_byte(w1, 2),
            word_byte(w1, 3),
            word_byte(w2, 0),
            word_byte(w2, 1),
            word_byte(w2, 2),
            word_byte(w2, 3),
            word_byte(w3, 0),
            word_byte(w3, 1),
            word_byte(w3, 2),
            word_byte(w3, 3),
        ];
        proof {
            assert(b@ =~= self.spec_rk_block(r as int));
        }
        b
    }
}

} // verus!
