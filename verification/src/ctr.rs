//! The counter-mode driver: generates successive counter blocks whose low
//! 32 bits carry a big-endian block counter, encrypts them in batches via
//! the bitslice engine, and exclusive-ors the keystream into the caller's
//! buffer in place.

use crate::aes::{
    be_word, spec_be_word, spec_word_byte, word_byte, Block, AES_KEY,
    MAX_ROUNDS,
};
use crate::batch::{Batch, Schedule, BATCH_SIZE};
use vstd::prelude::*;

verus! {

/// A 16-byte nonce-plus-counter value whose low 32 bits are a big-endian
/// block counter, mutated monotonically by increment-by-N.
pub struct Counter {
    pub bytes: Block,
}

/// The big-endian block counter packed into the low 32 bits.
pub open spec fn spec_low32(b: Seq<u8>) -> u32 {
    spec_be_word(b[12], b[13], b[14], b[15])
}

/// Addition on the 32-bit counter, wrapping silently.
pub open spec fn spec_add32(a: u32, n: nat) -> u32 {
    ((a + n) % 0x1_0000_0000) as u32
}

/// The counter value with its low 32 bits replaced by `v` (big-endian).
pub open spec fn spec_with_low32(b: Seq<u8>, v: u32) -> Seq<u8> {
    Seq::new(
        16,
        |i: int|
            if i < 12 {
                b[i]
            } else {
                spec_word_byte(v, i - 12)
            },
    )
}

/// Counter block `j` for initial counter value `c`: the low 32 bits are
/// advanced by `j`, the nonce bytes are kept.
pub open spec fn spec_ctr_block(c: Seq<u8>, j: nat) -> Seq<u8> {
    spec_with_low32(c, spec_add32(spec_low32(c), j))
}

/// Keystream block `j` of `key` over initial counter value `c`.
pub open spec fn spec_keystream_block(key: AES_KEY, c: Seq<u8>, j: nat) -> Seq<u8> {
    key.spec_encrypt(spec_ctr_block(c, j))
}

/// `data` exclusive-ored with the keystream of `key` over counter `c`,
/// block by block.
pub open spec fn spec_ctr_xor(key: AES_KEY, c: Seq<u8>, data: Seq<u8>) -> Seq<u8> {
    Seq::new(
        data.len(),
        |i: int| data[i] ^ spec_keystream_block(key, c, (i / 16) as nat)[i % 16],
    )
}

/// Replacing the low word reads back as that word.
pub proof fn lemma_low32_roundtrip(c: Seq<u8>, v: u32)
    requires
        c.len() == 16,
    ensures
        spec_low32(spec_with_low32(c, v)) == v,
{
    assert((((((v >> 24u32) & 0xff) as u8) as u32) << 24u32) | (((((v >> 16u32) & 0xff) as u8)
        as u32) << 16u32) | (((((v >> 8u32) & 0xff) as u8) as u32) << 8u32) | ((((v >> 0u32)
        & 0xff) as u8) as u32) == v) by (bit_vector);
}

/// Counter block `j` equals counter block `j - k` of the counter advanced
/// by `k`: the keystream does not depend on how calls are batched or
/// split.
pub proof fn lemma_ctr_block_shift(c: Seq<u8>, k: nat, j: nat)
    requires
        c.len() == 16,
        k <= j,
    ensures
        spec_ctr_block(c, j) == spec_ctr_block(spec_ctr_block(c, k), (j - k) as nat),
{
    let a = spec_low32(c);
    let ck = spec_ctr_block(c, k);
    lemma_low32_roundtrip(c, spec_add32(a, k));
    assert(spec_low32(ck) == spec_add32(a, k));
    let m = 0x1_0000_0000;
    assert(((a + k) % m + (j - k)) % m == (a + k + (j - k)) % m) by (nonlinear_arith)
        requires
            m == 0x1_0000_0000,
            0 <= a,
            0 <= k <= j,
    ;
    assert(spec_add32(spec_low32(ck), (j - k) as nat) == spec_add32(a, j));
    assert(spec_ctr_block(ck, (j - k) as nat) =~= spec_ctr_block(c, j));
}

/// Batch-boundary independence: encrypting a buffer in one call equals
/// encrypting the first `k` blocks from the same counter and the rest
/// from the counter advanced by `k`, for any split point.
pub proof fn lemma_ctr_split(key: AES_KEY, c: Seq<u8>, data: Seq<u8>, k: int)
    requires
        c.len() == 16,
        data.len() % 16 == 0,
        0 <= 16 * k <= data.len(),
    ensures
        spec_ctr_xor(key, c, data) == spec_ctr_xor(key, c, data.take(16 * k)) + spec_ctr_xor(
            key,
            spec_ctr_block(c, k as nat),
            data.skip(16 * k),
        ),
{
    let lhs = spec_ctr_xor(key, c, data);
    let rhs = spec_ctr_xor(key, c, data.take(16 * k)) + spec_ctr_xor(
        key,
        spec_ctr_block(c, k as nat),
        data.skip(16 * k),
    );
    assert forall|i: int| 0 <= i < data.len() implies lhs[i] == rhs[i] by {
        if i < 16 * k {
            assert((i / 16) < k && 0 <= i / 16) by (nonlinear_arith)
                requires
                    0 <= i < 16 * k,
            ;
        } else {
            let i2 = i - 16 * k;
            assert(i2 / 16 == i / 16 - k && i2 % 16 == i % 16 && k <= i / 16)
                by (nonlinear_arith)
                requires
                    i2 == i - 16 * k,
                    0 <= 16 * k <= i,
            ;
            lemma_ctr_block_shift(c, k as nat, (i / 16) as nat);
            assert(rhs[i] == data[i] ^ spec_keystream_block(
                key,
                spec_ctr_block(c, k as nat),
                ((i / 16) - k) as nat,
            )[i % 16]);
        }
    }
    assert(lhs =~= rhs);
}

/// Disjoint-range safety: the result over a range is a pure function of
/// that range's own data and its own pre-split counter, so two disjoint
/// ranges may be processed in either order — together they always compose
/// to the whole-range result.
pub proof fn lemma_ctr_disjoint_ranges(key: AES_KEY, c: Seq<u8>, d1: Seq<u8>, d2: Seq<u8>)
    requires
        c.len() == 16,
        d1.len() % 16 == 0,
        d2.len() % 16 == 0,
    ensures
        spec_ctr_xor(key, c, d1 + d2) == spec_ctr_xor(key, c, d1) + spec_ctr_xor(
            key,
            spec_ctr_block(c, (d1.len() / 16) as nat),
            d2,
        ),
{
    let k = d1.len() / 16;
    lemma_ctr_split(key, c, d1 + d2, k as int);
    assert((d1 + d2).take(16 * (k as int)) =~= d1);
    assert((d1 + d2).skip(16 * (k as int)) =~= d2);
}

impl Counter {
    /// The raw counter bytes; "less safe" because the caller takes over
    /// responsibility for counter discipline.
    pub fn as_bytes_less_safe(&self) -> (r: Block)
        ensures
            r == self.bytes,
    {
        self.bytes
    }

    /// Advance the block counter by `n`, wrapping silently in 32 bits.
    pub fn increment_by_less_safe(&mut self, n: u32)
        ensures
            final(self).bytes@ == spec_with_low32(
                old(self).bytes@,
                spec_add32(spec_low32(old(self).bytes@), n as nat),
            ),
    {
        let base = be_word(self.bytes[12], self.bytes[13], self.bytes[14], self.bytes[15]);
        let wide: u64 = (base as u64) + (n as u64);
        let v: u32 = (wide % 0x1_0000_0000) as u32;
        self.bytes[12] = word_byte(v, 0);
        self.bytes[13] = word_byte(v, 1);
        self.bytes[14] = word_byte(v, 2);
        self.bytes[15] = word_byte(v, 3);
        proof {
            assert(v == spec_add32(spec_low32(old(self).bytes@), n as nat));
            assert(self.bytes@ =~= spec_with_low32(
                old(self).bytes@,
                spec_add32(spec_low32(old(self).bytes@), n as nat),
            ));
        }
    }
}

/// Build counter block `j` for nonce bytes `c` and already-advanced low
/// word `v`.
fn make_iv(c: &Block, v: u32) -> (r: Block)
    ensures
        r@ == spec_with_low32(c@, v),
{
    let r = [
        c[0],
        c[1],
        c[2],
        c[3],
        c[4],
        c[5],
        c[6],
        c[7],
        c[8],
        c[9],
        c[10],
        c[11],
        word_byte(v, 0),
        word_byte(v, 1),
        word_byte(v, 2),
        word_byte(v, 3),
    ];
    proof {
        assert(r@ =~= spec_with_low32(c@, v));
    }
    r
}

/// Overwrite `in_out[src ..]` with its exclusive-or against the AES-CTR
/// keystream of `key`, advancing `ctr` by exactly the number of blocks
/// consumed (before the batches are computed, so that pre-split counter
/// ranges stay safe). The range must hold a whole number of blocks.
pub fn ctr32_encrypt_within(key: &AES_KEY, in_out: &mut Vec<u8>, src: usize, ctr: &mut Counter)
    requires
        key.wf(),
        src <= old(in_out)@.len(),
        (old(in_out)@.len() - src) % 16 == 0,
        (old(in_out)@.len() - src) / 16 <= 0xffff_ffff,
    ensures
        final(in_out)@.len() == old(in_out)@.len(),
        forall|i: int| 0 <= i < src ==> final(in_out)@[i] == old(in_out)@[i],
        final(in_out)@.subrange(src as int, old(in_out)@.len() as int) == spec_ctr_xor(
            *key,
            old(ctr).bytes@,
            old(in_out)@.subrange(src as int, old(in_out)@.len() as int),
        ),
        final(ctr).bytes@ == spec_with_low32(
            old(ctr).bytes@,
            spec_add32(
                spec_low32(old(ctr).bytes@),
                ((old(in_out)@.len() - src) / 16) as nat,
            ),
        ),
{
    let total = in_out.len();
    let nblocks = (total - src) / 16;
    let sched = Schedule::expand_round_keys(key);
    let rounds = key.rounds as usize;

    let iv0 = ctr.as_bytes_less_safe();
    let base = be_word(iv0[12], iv0[13], iv0[14], iv0[15]);
    ctr.increment_by_less_safe(nblocks as u32);
    proof {
        assert(nblocks as u32 == nblocks) by {
            assert(nblocks <= 0xffff_ffff);
        }
        assert(base == spec_low32(old(ctr).bytes@));
    }

    let ghost c0 = old(ctr).bytes@;
    let ghost data0 = old(in_out)@;
    let mut done: usize = 0;
    while done < nblocks
        invariant
            done <= nblocks,
            key.wf(),
            1 <= rounds <= MAX_ROUNDS,
            rounds == key.rounds,
            sched.wf(),
            sched.rkb@ == key.spec_rk_blocks(),
            sched.rkb@.len() == rounds + 1,
            total == in_out@.len() == data0.len(),
            src + 16 * nblocks == total,
            nblocks <= 0xffff_ffff,
            base == spec_low32(c0),
            iv0@ == c0,
            forall|i: int| 0 <= i < src ==> in_out@[i] == data0[i],
            forall|i: int|
                src <= i < src + 16 * done ==> in_out@[i] == data0[i] ^ spec_keystream_block(
                    *key,
                    c0,
                    (((i - src) / 16) as nat),
                )[(i - src) % 16],
            forall|i: int| src + 16 * done <= i < total ==> in_out@[i] == data0[i],
        decreases nblocks - done,
    {
        let todo = if nblocks - done < BATCH_SIZE {
            nblocks - done
        } else {
            BATCH_SIZE
        };
        // Fill the counter blocks for lanes done .. done + todo.
        let mut ivs: Vec<Block> = Vec::new();
        let mut l: usize = 0;
        while l < todo
            invariant
                l <= todo,
                done + todo <= nblocks <= 0xffff_ffff,
                base == spec_low32(c0),
                iv0@ == c0,
                ivs@.len() == l,
                forall|j: int|
                    0 <= j < l ==> (#[trigger] ivs@[j])@ == spec_ctr_block(
                        c0,
                        (done + j) as nat,
                    ),
            decreases todo - l,
        {
            let wide: u64 = (base as u64) + ((done + l) as u64);
            let v: u32 = (wide % 0x1_0000_0000) as u32;
            let iv = make_iv(&iv0, v);
            proof {
                assert(v == spec_add32(spec_low32(c0), (done + l) as nat));
            }
            ivs.push(iv);
            l = l + 1;
        }
        let batch = Batch::from_bytes(ivs.as_slice());
        let mut enc: Vec<Block> = Vec::new();
        let mut l: usize = 0;
        while l < todo
            invariant
                l <= todo,
                enc@.len() == l,
            decreases todo - l,
        {
            enc.push([0u8; 16]);
            l = l + 1;
        }
        proof {
            assert forall|j: int| 0 <= j < todo implies batch.lanes@[j] == spec_ctr_block(
                c0,
                (done + j) as nat,
            ) by {
                assert(batch.lanes@[j] == ivs@[j]@);
            }
        }
        batch.encrypt(&sched, rounds, &mut enc);
        // Exclusive-or the keystream into the buffer.
        let mut l: usize = 0;
        while l < todo
            invariant
                l <= todo,
                done + todo <= nblocks,
                total == in_out@.len() == data0.len(),
                src + 16 * nblocks == total,
                enc@.len() == todo,
                forall|j: int|
                    0 <= j < todo ==> (#[trigger] enc@[j])@ == spec_keystream_block(
                        *key,
                        c0,
                        (done + j) as nat,
                    ),
                forall|i: int| 0 <= i < src ==> in_out@[i] == data0[i],
                forall|i: int|
                    src <= i < src + 16 * (done + l) ==> in_out@[i] == data0[i]
                        ^ spec_keystream_block(*key, c0, (((i - src) / 16) as nat))[(i - src)
                        % 16],
                forall|i: int| src + 16 * (done + l) <= i < total ==> in_out@[i] == data0[i],
            decreases todo - l,
        {
            let blk = enc[l];
            let off = src + 16 * (done + l);
            let mut k: usize = 0;
            while k < 16
                invariant
                    k <= 16,
                    off == src + 16 * (done + l),
                    l < todo,
                    done + todo <= nblocks,
                    total == in_out@.len() == data0.len(),
                    src + 16 * nblocks == total,
                    blk@ == spec_keystream_block(*key, c0, (done + l) as nat),
                    forall|i: int| 0 <= i < src ==> in_out@[i] == data0[i],
                    forall|i: int|
                        src <= i < off + k ==> in_out@[i] == data0[i] ^ spec_keystream_block(
                            *key,
                            c0,
                            (((i - src) / 16) as nat),
                        )[(i - src) % 16],
                    forall|i: int| off + k <= i < total ==> in_out@[i] == data0[i],
                decreases 16 - k,
            {
                let idx = off + k;
                let b = in_out[idx];
                in_out[idx] = b ^ blk[k];
                proof {
                    assert(((idx - src) / 16) == done + l && ((idx - src) % 16) == k as int)
                        by (nonlinear_arith)
                        requires
                            idx == src + 16 * (done + l) + k,
                            0 <= k < 16,
                            0 <= done + l,
                    ;
                }
                k = k + 1;
            }
            l = l + 1;
        }
        done = done + todo;
    }
    proof {
        assert(in_out@.subrange(src as int, total as int) =~= spec_ctr_xor(
            *key,
            c0,
            data0.subrange(src as int, total as int),
        ));
    }
}

} // verus!
