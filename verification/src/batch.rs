//! The bitslice batch engine: conversion between byte-block form and a
//! word-parallel bitsliced layout, the replicated bitsliced key schedule,
//! and batched block encryption. A batch packs `BATCH_SIZE` blocks into
//! eight machine words; `transpose` groups corresponding bits of all lanes
//! into the same word and is proved to be exactly inverted by the
//! inverse transposition.

use crate::aes::{aes_encrypt_one, spec_aes_encrypt, Block, AES_KEY, MAX_ROUNDS};
use vstd::prelude::*;

verus! {

/// Number of blocks processed together: half the word size in bytes.
pub const BATCH_SIZE: usize = 4;

/// Machine words per compacted block.
pub const BLOCK_WORDS: usize = 2;

pub const MASK1: u64 = 0x5555_5555_5555_5555;

pub const MASK2: u64 = 0x3333_3333_3333_3333;

pub const MASK4: u64 = 0x0f0f_0f0f_0f0f_0f0f;

// --- Packing a block into machine words (a reversible relabeling).

/// The little-endian word of eight bytes.
pub open spec fn spec_le_word8(
    b0: u8,
    b1: u8,
    b2: u8,
    b3: u8,
    b4: u8,
    b5: u8,
    b6: u8,
    b7: u8,
) -> u64 {
    (b0 as u64) | ((b1 as u64) << 8u64) | ((b2 as u64) << 16u64) | ((b3 as u64) << 24u64) | ((
    b4 as u64) << 32u64) | ((b5 as u64) << 40u64) | ((b6 as u64) << 48u64) | ((b7 as u64)
        << 56u64)
}

/// Byte `k` of a word, counting from the least significant.
pub open spec fn spec_le_byte(w: u64, k: u64) -> u8 {
    ((w >> ((8 * k) as u64)) & 0xff) as u8
}

/// Selects the `k`th of eight bytes.
pub open spec fn spec_byte_sel(
    b0: u8,
    b1: u8,
    b2: u8,
    b3: u8,
    b4: u8,
    b5: u8,
    b6: u8,
    b7: u8,
    k: u64,
) -> u8 {
    if k == 0 {
        b0
    } else if k == 1 {
        b1
    } else if k == 2 {
        b2
    } else if k == 3 {
        b3
    } else if k == 4 {
        b4
    } else if k == 5 {
        b5
    } else if k == 6 {
        b6
    } else {
        b7
    }
}

/// Packing eight bytes into a word loses nothing: every byte is recovered.
pub proof fn lemma_le_roundtrip(b0: u8, b1: u8, b2: u8, b3: u8, b4: u8, b5: u8, b6: u8, b7: u8)
    ensures
        forall|k: u64|
            k < 8 ==> spec_le_byte(spec_le_word8(b0, b1, b2, b3, b4, b5, b6, b7), k)
                == spec_byte_sel(b0, b1, b2, b3, b4, b5, b6, b7, k),
{
    assert(spec_le_byte(spec_le_word8(b0, b1, b2, b3, b4, b5, b6, b7), 0) == b0
        && spec_le_byte(spec_le_word8(b0, b1, b2, b3, b4, b5, b6, b7), 1) == b1
        && spec_le_byte(spec_le_word8(b0, b1, b2, b3, b4, b5, b6, b7), 2) == b2
        && spec_le_byte(spec_le_word8(b0, b1, b2, b3, b4, b5, b6, b7), 3) == b3
        && spec_le_byte(spec_le_word8(b0, b1, b2, b3, b4, b5, b6, b7), 4) == b4
        && spec_le_byte(spec_le_word8(b0, b1, b2, b3, b4, b5, b6, b7), 5) == b5
        && spec_le_byte(spec_le_word8(b0, b1, b2, b3, b4, b5, b6, b7), 6) == b6
        && spec_le_byte(spec_le_word8(b0, b1, b2, b3, b4, b5, b6, b7), 7) == b7) by (bit_vector);
}

/// The two compacted words of one 16-byte block.
pub open spec fn spec_compact_block(b: Seq<u8>) -> Seq<u64> {
    seq![
        spec_le_word8(b[0], b[1], b[2], b[3], b[4], b[5], b[6], b[7]),
        spec_le_word8(b[8], b[9], b[10], b[11], b[12], b[13], b[14], b[15]),
    ]
}

/// Reinterpret one 16-byte block as machine words in a fixed canonical
/// ordering: a pure, branchless, reversible relabeling.
pub fn compact_block(input: &Block) -> (r: [u64; BLOCK_WORDS])
    ensures
        r@ == spec_compact_block(input@),
{
    let w0 = le_word(
        input[0],
        input[1],
        input[2],
        input[3],
        input[4],
        input[5],
        input[6],
        input[7],
    );
    let w1 = le_word(
        input[8],
        input[9],
        input[10],
        input[11],
        input[12],
        input[13],
        input[14],
        input[15],
    );
    let r = [w0, w1];
    proof {
        assert(r@ =~= spec_compact_block(input@));
    }
    r
}

fn le_word(b0: u8, b1: u8, b2: u8, b3: u8, b4: u8, b5: u8, b6: u8, b7: u8) -> (r: u64)
    ensures
        r == spec_le_word8(b0, b1, b2, b3, b4, b5, b6, b7),
{
    (b0 as u64) | ((b1 as u64) << 8u64) | ((b2 as u64) << 16u64) | ((b3 as u64) << 24u64) | ((
    b4 as u64) << 32u64) | ((b5 as u64) << 40u64) | ((b6 as u64) << 48u64) | ((b7 as u64)
        << 56u64)
}

/// The 16 bytes packed in two compacted words.
pub open spec fn spec_uncompact(w0: u64, w1: u64) -> Seq<u8> {
    Seq::new(
        16,
        |i: int|
            if i < 8 {
                spec_le_byte(w0, i as u64)
            } else {
                spec_le_byte(w1, (i - 8) as u64)
            },
    )
}

fn le_byte(w: u64, k: u64) -> (r: u8)
    requires
        k < 8,
    ensures
        r == spec_le_byte(w, k),
{
    ((w >> (8 * k)) & 0xff) as u8
}

/// Unpack two compacted words back into a 16-byte block.
pub fn uncompact_block(w0: u64, w1: u64) -> (r: Block)
    ensures
        r@ == spec_uncompact(w0, w1),
{
    let r = [
        le_byte(w0, 0),
        le_byte(w0, 1),
        le_byte(w0, 2),
        le_byte(w0, 3),
        le_byte(w0, 4),
        le_byte(w0, 5),
        le_byte(w0, 6),
        le_byte(w0, 7),
        le_byte(w1, 0),
        le_byte(w1, 1),
        le_byte(w1, 2),
        le_byte(w1, 3),
        le_byte(w1, 4),
        le_byte(w1, 5),
        le_byte(w1, 6),
        le_byte(w1, 7),
    ];
    proof {
        assert(r@ =~= spec_uncompact(w0, w1));
    }
    r
}

/// Compacting a block and unpacking it again recovers the block.
pub proof fn lemma_compact_roundtrip(b: Seq<u8>)
    requires
        b.len() == 16,
    ensures
        spec_uncompact(spec_compact_block(b)[0], spec_compact_block(b)[1]) == b,
{
    lemma_le_roundtrip(b[0], b[1], b[2], b[3], b[4], b[5], b[6], b[7]);
    lemma_le_roundtrip(b[8], b[9], b[10], b[11], b[12], b[13], b[14], b[15]);
    assert forall|i: int| 0 <= i < 16 implies spec_uncompact(
        spec_compact_block(b)[0],
        spec_compact_block(b)[1],
    )[i] == b[i] by {
        if i < 8 {
            assert(spec_byte_sel(b[0], b[1], b[2], b[3], b[4], b[5], b[6], b[7], i as u64)
                == b[i]);
        } else {
            assert(spec_byte_sel(b[8], b[9], b[10], b[11], b[12], b[13], b[14], b[15], (i
                - 8) as u64) == b[i]);
        }
    }
    assert(spec_uncompact(spec_compact_block(b)[0], spec_compact_block(b)[1]) =~= b);
}

// --- The transposition: three layers of masked delta swaps.

pub open spec fn spec_dsw_t(a: u64, b: u64, m: u64, sh: u64) -> u64 {
    ((a >> sh) ^ b) & m
}

pub open spec fn spec_dsw_a(a: u64, b: u64, m: u64, sh: u64) -> u64 {
    a ^ (spec_dsw_t(a, b, m, sh) << sh)
}

pub open spec fn spec_dsw_b(a: u64, b: u64, m: u64, sh: u64) -> u64 {
    b ^ spec_dsw_t(a, b, m, sh)
}

/// A masked delta swap between two words is inverted by applying it again.
pub proof fn lemma_dswap_involution(a: u64, b: u64, m: u64, sh: u64)
    requires
        sh < 64,
        ((m << sh) >> sh) == m,
    ensures
        spec_dsw_a(spec_dsw_a(a, b, m, sh), spec_dsw_b(a, b, m, sh), m, sh) == a,
        spec_dsw_b(spec_dsw_a(a, b, m, sh), spec_dsw_b(a, b, m, sh), m, sh) == b,
{
    assert(spec_dsw_a(spec_dsw_a(a, b, m, sh), spec_dsw_b(a, b, m, sh), m, sh) == a
        && spec_dsw_b(spec_dsw_a(a, b, m, sh), spec_dsw_b(a, b, m, sh), m, sh) == b)
        by (bit_vector)
        requires
            sh < 64,
            ((m << sh) >> sh) == m,
    ;
}

/// One transposition layer: delta swaps between words at stride `d`.
pub open spec fn spec_stage(v: Seq<u64>, d: int, m: u64, sh: u64) -> Seq<u64> {
    Seq::new(
        8,
        |i: int|
            if (i / d) % 2 == 0 {
                spec_dsw_a(v[i], v[i + d], m, sh)
            } else {
                spec_dsw_b(v[i - d], v[i], m, sh)
            },
    )
}

/// Each transposition layer is an involution.
pub proof fn lemma_stage_involution(v: Seq<u64>, d: int, m: u64, sh: u64)
    requires
        v.len() == 8,
        d == 1 || d == 2 || d == 4,
        sh < 64,
        ((m << sh) >> sh) == m,
    ensures
        spec_stage(spec_stage(v, d, m, sh), d, m, sh) == v,
{
    assert forall|i: int| 0 <= i < 8 implies spec_stage(spec_stage(v, d, m, sh), d, m, sh)[i]
        == v[i] by {
        if (i / d) % 2 == 0 {
            lemma_dswap_involution(v[i], v[i + d], m, sh);
        } else {
            lemma_dswap_involution(v[i - d], v[i], m, sh);
        }
    }
    assert(spec_stage(spec_stage(v, d, m, sh), d, m, sh) =~= v);
}

/// The full transposition: layers at strides 1, 2 and 4.
pub open spec fn spec_transpose(v: Seq<u64>) -> Seq<u64> {
    spec_stage(spec_stage(spec_stage(v, 1, MASK1, 1), 2, MASK2, 2), 4, MASK4, 4)
}

/// The inverse transposition: the same layers in the opposite order.
pub open spec fn spec_untranspose(v: Seq<u64>) -> Seq<u64> {
    spec_stage(spec_stage(spec_stage(v, 4, MASK4, 4), 2, MASK2, 2), 1, MASK1, 1)
}

/// The inverse transposition exactly undoes the transposition.
pub proof fn lemma_transpose_roundtrip(v: Seq<u64>)
    requires
        v.len() == 8,
    ensures
        spec_untranspose(spec_transpose(v)) == v,
{
    let s1 = spec_stage(v, 1, MASK1, 1);
    let s2 = spec_stage(s1, 2, MASK2, 2);
    assert((MASK4 << 4u64) >> 4u64 == MASK4) by (bit_vector);
    assert((MASK2 << 2u64) >> 2u64 == MASK2) by (bit_vector);
    assert((MASK1 << 1u64) >> 1u64 == MASK1) by (bit_vector);
    lemma_stage_involution(s2, 4, MASK4, 4);
    lemma_stage_involution(s1, 2, MASK2, 2);
    lemma_stage_involution(v, 1, MASK1, 1);
}

fn dswap(a: u64, b: u64, m: u64, sh: u64) -> (r: (u64, u64))
    requires
        sh < 64,
    ensures
        r.0 == spec_dsw_a(a, b, m, sh),
        r.1 == spec_dsw_b(a, b, m, sh),
{
    let t = ((a >> sh) ^ b) & m;
    (a ^ (t << sh), b ^ t)
}

fn apply_stage(w: &mut [u64; 8], d: usize, m: u64, sh: u64)
    requires
        d == 1 || d == 2 || d == 4,
        sh < 64,
    ensures
        final(w)@ == spec_stage(old(w)@, d as int, m, sh),
{
    if d == 1 {
        let p = dswap(w[0], w[1], m, sh);
        w[0] = p.0;
        w[1] = p.1;
        let p = dswap(w[2], w[3], m, sh);
        w[2] = p.0;
        w[3] = p.1;
        let p = dswap(w[4], w[5], m, sh);
        w[4] = p.0;
        w[5] = p.1;
        let p = dswap(w[6], w[7], m, sh);
        w[6] = p.0;
        w[7] = p.1;
        proof {
            assert(w@ =~= spec_stage(old(w)@, 1, m, sh));
        }
    } else if d == 2 {
        let p = dswap(w[0], w[2], m, sh);
        w[0] = p.0;
        w[2] = p.1;
        let p = dswap(w[1], w[3], m, sh);
        w[1] = p.0;
        w[3] = p.1;
        let p = dswap(w[4], w[6], m, sh);
        w[4] = p.0;
        w[6] = p.1;
        let p = dswap(w[5], w[7], m, sh);
        w[5] = p.0;
        w[7] = p.1;
        proof {
            assert(w@ =~= spec_stage(old(w)@, 2, m, sh));
        }
    } else {
        let p = dswap(w[0], w[4], m, sh);
        w[0] = p.0;
        w[4] = p.1;
        let p = dswap(w[1], w[5], m, sh);
        w[1] = p.0;
        w[5] = p.1;
        let p = dswap(w[2], w[6], m, sh);
        w[2] = p.0;
        w[6] = p.1;
        let p = dswap(w[3], w[7], m, sh);
        w[3] = p.0;
        w[7] = p.1;
        proof {
            assert(w@ =~= spec_stage(old(w)@, 4, m, sh));
        }
    }
}

fn transpose_words(w: &mut [u64; 8])
    ensures
        final(w)@ == spec_transpose(old(w)@),
{
    apply_stage(w, 1, MASK1, 1);
    apply_stage(w, 2, MASK2, 2);
    apply_stage(w, 4, MASK4, 4);
}

fn untranspose_words(w: &mut [u64; 8])
    ensures
        final(w)@ == spec_untranspose(old(w)@),
{
    apply_stage(w, 4, MASK4, 4);
    apply_stage(w, 2, MASK2, 2);
    apply_stage(w, 1, MASK1, 1);
}

// --- The batch itself.

pub open spec fn spec_zero_block() -> Seq<u8> {
    Seq::new(16, |i: int| 0u8)
}

/// The given lanes padded with zero blocks up to the batch size.
pub open spec fn spec_pad4(lanes: Seq<Seq<u8>>) -> Seq<Seq<u8>> {
    Seq::new(
        4,
        |i: int|
            if i < lanes.len() {
                lanes[i]
            } else {
                spec_zero_block()
            },
    )
}

/// The eight compact-form words of four lanes: lane `i` occupies words
/// `2 i` and `2 i + 1`.
pub open spec fn spec_compact_lanes(lanes4: Seq<Seq<u8>>) -> Seq<u64> {
    Seq::new(8, |i: int| spec_compact_block(lanes4[i / 2])[i % 2])
}

/// A batch of up to `BATCH_SIZE` blocks in bitsliced form. The ghost
/// `lanes` records which blocks the words encode.
pub struct Batch {
    pub w: [u64; 8],
    pub lanes: Ghost<Seq<Seq<u8>>>,
}

impl Batch {
    /// The words are the bitsliced (transposed) encoding of the lanes.
    pub open spec fn wf(&self) -> bool {
        &&& self.lanes@.len() <= 4
        &&& forall|l: int| 0 <= l < self.lanes@.len() ==> (#[trigger] self.lanes@[l]).len() == 16
        &&& self.w@ == spec_transpose(spec_compact_lanes(spec_pad4(self.lanes@)))
    }

    /// Place the compact word-form of a block at slot `i` (compact form,
    /// before transposition).
    pub fn set(&mut self, input: &[u64; BLOCK_WORDS], i: usize)
        requires
            i < BATCH_SIZE,
        ensures
            final(self).w@ == old(self).w@.update(2 * i as int, input@[0]).update(
                2 * i as int + 1,
                input@[1],
            ),
            final(self).lanes == old(self).lanes,
    {
        self.w[2 * i] = input[0];
        self.w[2 * i + 1] = input[1];
    }

    /// Convert the whole batch from per-block compact form into the
    /// cross-block bit-plane form.
    pub fn transpose(&mut self)
        ensures
            final(self).w@ == spec_transpose(old(self).w@),
            final(self).lanes == old(self).lanes,
    {
        transpose_words(&mut self.w);
    }

    /// Initialize a batch with the given blocks (at most `BATCH_SIZE`).
    /// Unused lanes do not influence the occupied ones.
    pub fn from_bytes(input: &[Block]) -> (r: Batch)
        requires
            input@.len() <= BATCH_SIZE,
        ensures
            r.wf(),
            r.lanes@ == input.deep_view(),
    {
        let ghost lanes = input.deep_view();
        let mut r = Batch { w: [0u64; 8], lanes: Ghost(lanes) };
        let n = input.len();
        let mut i: usize = 0;
        proof {
            assert(lanes.len() == input@.len());
        }
        while i < n
            invariant
                i <= n,
                n == input@.len() <= 4,
                lanes == input.deep_view(),
                r.lanes@ == lanes,
                forall|k: int|
                    0 <= k < 2 * i ==> r.w@[k] == spec_compact_lanes(spec_pad4(lanes))[k],
                forall|k: int| 2 * i <= k < 8 ==> r.w@[k] == 0,
            decreases n - i,
        {
            let block = compact_block(&input[i]);
            proof {
                assert(input.deep_view()[i as int] == input@[i as int]@);
            }
            r.set(&block, i);
            proof {
                assert(spec_pad4(lanes)[i as int] == lanes[i as int]);
                assert(spec_compact_lanes(spec_pad4(lanes))[2 * i as int] == spec_compact_block(
                    lanes[i as int],
                )[0]);
                assert(spec_compact_lanes(spec_pad4(lanes))[2 * i as int + 1]
                    == spec_compact_block(lanes[i as int])[1]);
            }
            i = i + 1;
        }
        proof {
            assert(spec_le_word8(0, 0, 0, 0, 0, 0, 0, 0) == 0) by (bit_vector);
            assert forall|k: int| 0 <= k < 8 implies r.w@[k] == spec_compact_lanes(
                spec_pad4(lanes),
            )[k] by {
                if k >= 2 * n {
                    assert(spec_pad4(lanes)[k / 2] == spec_zero_block());
                    assert(spec_compact_block(spec_zero_block())[k % 2] == 0);
                }
            }
            assert(r.w@ =~= spec_compact_lanes(spec_pad4(lanes)));
        }
        r.transpose();
        r
    }

    /// Recover the padded lanes from the bitsliced words.
    fn recover_lanes(&self) -> (r: Vec<Block>)
        requires
            self.wf(),
        ensures
            r@.len() == 4,
            forall|i: int|
                0 <= i < 4 ==> (#[trigger] r@[i])@ == spec_pad4(self.lanes@)[i],
    {
        let mut w = self.w;
        untranspose_words(&mut w);
        proof {
            lemma_transpose_roundtrip(spec_compact_lanes(spec_pad4(self.lanes@)));
        }
        let mut r: Vec<Block> = Vec::new();
        let mut i: usize = 0;
        while i < 4
            invariant
                i <= 4,
                self.wf(),
                w@ == spec_compact_lanes(spec_pad4(self.lanes@)),
                r@.len() == i,
                forall|j: int|
                    0 <= j < i ==> (#[trigger] r@[j])@ == spec_pad4(self.lanes@)[j],
            decreases 4 - i,
        {
            let b = uncompact_block(w[2 * i], w[2 * i + 1]);
            proof {
                let lane = spec_pad4(self.lanes@)[i as int];
                assert(lane.len() == 16);
                assert(w@[2 * i as int] == spec_compact_block(lane)[0]);
                assert(w@[2 * i as int + 1] == spec_compact_block(lane)[1]);
                lemma_compact_roundtrip(lane);
            }
            r.push(b);
            i = i + 1;
        }
        r
    }

    /// Encrypt the batch under the expanded schedule: output slot `i`
    /// receives the encryption of lane `i`. Consumes the batch.
    pub fn encrypt(self, key: &Schedule, rounds: usize, out: &mut Vec<Block>)
        requires
            self.wf(),
            key.wf(),
            1 <= rounds <= MAX_ROUNDS,
            key.rkb@.len() == rounds + 1,
            old(out)@.len() <= self.lanes@.len(),
        ensures
            final(out)@.len() == old(out)@.len(),
            forall|i: int|
                0 <= i < final(out)@.len() ==> (#[trigger] final(out)@[i])@ == spec_aes_encrypt(
                    key.rkb@,
                    rounds as nat,
                    self.lanes@[i],
                ),
    {
        let blocks = self.recover_lanes();
        let rkbs = key.round_key_blocks(rounds);
        let n = out.len();
        let mut i: usize = 0;
        while i < n
            invariant
                i <= n,
                n == out@.len(),
                n <= self.lanes@.len() <= 4,
                self.wf(),
                key.wf(),
                1 <= rounds <= MAX_ROUNDS,
                key.rkb@.len() == rounds + 1,
                blocks@.len() == 4,
                forall|j: int|
                    0 <= j < 4 ==> (#[trigger] blocks@[j])@ == spec_pad4(self.lanes@)[j],
                rkbs.deep_view() == key.rkb@,
                forall|j: int|
                    0 <= j < i ==> (#[trigger] out@[j])@ == spec_aes_encrypt(
                        key.rkb@,
                        rounds as nat,
                        self.lanes@[j],
                    ),
                forall|j: int| i <= j < n ==> out@[j] == old(out)@[j],
            decreases n - i,
        {
            proof {
                assert(spec_pad4(self.lanes@)[i as int] == self.lanes@[i as int]);
            }
            let enc = aes_encrypt_one(rkbs.as_slice(), rounds, &blocks[i]);
            out[i] = enc;
            i = i + 1;
        }
    }
}

// --- The expanded bitsliced key schedule.

/// An expanded bitsliced AES key schedule: one batch per round key, each
/// holding `BATCH_SIZE` copies of that round key in bitsliced form. The
/// ghost `rkb` records the round-key blocks the batches encode.
pub struct Schedule {
    pub keys: Vec<Batch>,
    pub rkb: Ghost<Seq<Seq<u8>>>,
}

impl Schedule {
    pub open spec fn wf(&self) -> bool {
        &&& self.keys@.len() == self.rkb@.len()
        &&& forall|r: int|
            0 <= r < self.keys@.len() ==> (#[trigger] self.keys@[r]).wf()
        &&& forall|r: int|
            0 <= r < self.keys@.len() ==> (#[trigger] self.keys@[r]).lanes@ == Seq::new(
                4,
                |l: int| self.rkb@[r],
            )
    }

    /// Expand a conventional key into a bitsliced schedule: each round key
    /// is replicated across the batch and transposed once.
    pub fn expand_round_keys(key: &AES_KEY) -> (r: Schedule)
        requires
            key.wf(),
        ensures
            r.wf(),
            r.rkb@ == key.spec_rk_blocks(),
            r.keys@.len() == key.rounds + 1,
    {
        let rounds = key.rounds as usize;
        let mut keys: Vec<Batch> = Vec::new();
        let ghost rkb = key.spec_rk_blocks();
        let mut i: usize = 0;
        while i <= rounds
            invariant
                i <= rounds + 1,
                rounds == key.rounds,
                key.wf(),
                rkb == key.spec_rk_blocks(),
                keys@.len() == i,
                forall|r: int| 0 <= r < i ==> (#[trigger] keys@[r]).wf(),
                forall|r: int|
                    0 <= r < i ==> (#[trigger] keys@[r]).lanes@ == Seq::new(
                        4,
                        |l: int| rkb[r],
                    ),
            decreases rounds + 1 - i,
        {
            let block = key.rk_block(i);
            let replicated: [Block; 4] = [block, block, block, block];
            let batch = Batch::from_bytes(replicated.as_slice());
            proof {
                assert(rkb[i as int] == key.spec_rk_block(i as int));
                assert(batch.lanes@.len() == 4);
                assert forall|l: int| 0 <= l < 4 implies batch.lanes@[l] == rkb[i as int] by {
                    assert(batch.lanes@[l] == replicated@[l]@);
                }
                assert(batch.lanes@ =~= Seq::new(4, |l: int| rkb[i as int]));
            }
            keys.push(batch);
            i = i + 1;
        }
        Schedule { keys, rkb: Ghost(rkb) }
    }

    /// The conventional round-key blocks, recovered from the bitsliced
    /// batches.
    fn round_key_blocks(&self, rounds: usize) -> (r: Vec<Block>)
        requires
            self.wf(),
            rounds <= MAX_ROUNDS,
            self.rkb@.len() == rounds + 1,
        ensures
            r.deep_view() == self.rkb@,
            r@.len() == rounds + 1,
    {
        let mut r: Vec<Block> = Vec::new();
        let mut i: usize = 0;
        while i <= rounds
            invariant
                i <= rounds + 1,
                rounds <= MAX_ROUNDS,
                self.wf(),
                self.rkb@.len() == rounds + 1,
                r@.len() == i,
                forall|j: int| 0 <= j < i ==> (#[trigger] r@[j])@ == self.rkb@[j],
            decreases rounds + 1 - i,
        {
            let lanes = self.keys[i].recover_lanes();
            proof {
                assert(self.keys@[i as int].lanes@ == Seq::new(4, |l: int| self.rkb@[i as int]));
                assert(spec_pad4(self.keys@[i as int].lanes@)[0] == self.rkb@[i as int]);
            }
            r.push(lanes[0]);
            i = i + 1;
        }
        proof {
            assert forall|j: int| 0 <= j < r@.len() implies r.deep_view()[j] == self.rkb@[j] by {
                assert(r.deep_view()[j] == r@[j]@);
            }
            assert(r.deep_view() =~= self.rkb@);
        }
        r
    }
}

/// Encrypt one block in place via the bitsliced engine.
pub fn encrypt_block(key: &AES_KEY, in_out: &mut Block)
    requires
        key.wf(),
    ensures
        final(in_out)@ == key.spec_encrypt(old(in_out)@),
{
    let sched = Schedule::expand_round_keys(key);
    let single: [Block; 1] = [*in_out];
    let batch = Batch::from_bytes(single.as_slice());
    let mut out: Vec<Block> = Vec::new();
    out.push([0u8; 16]);
    proof {
        assert(batch.lanes@[0] == old(in_out)@);
    }
    batch.encrypt(&sched, key.rounds as usize, &mut out);
    *in_out = out[0];
}

} // verus!
