//! The GCM universal-hash context: a hash subkey precomputed into a
//! backend-specific table (`Key`), and a `Context` owning the running
//! accumulator and byte-length counters, driving single-block and
//! multi-block hash updates and the final length-block step. The backend
//! is a pure function of a CPU-feature snapshot, re-derived from the same
//! snapshot on every call, so the table and every update agree.

use crate::aes::Block;
use crate::cpu::Features;
use crate::ghash::{
    block_to_u128, ghash_mul, lemma_be128_xor, lemma_u128_block_roundtrip, spec_block_u128,
    spec_ghash_mul, u128_to_block,
};
use vstd::prelude::*;

verus! {

/// The largest total plaintext/ciphertext byte length the protocol's
/// length encoding admits: (2^32 - 2) whole blocks.
pub const MAX_IN_OUT_LEN: u64 = (0x1_0000_0000 - 2) * 16;

/// The single opaque recoverable error: by design it does not say why.
#[derive(Clone, Copy, Debug, PartialEq, Eq, Structural)]
pub struct Unspecified;

/// An authentication tag, as produced by the caller-supplied finalization.
#[derive(Clone, Copy, Debug, PartialEq, Eq)]
pub struct Tag(pub Block);

// --- Backend selection.

/// The closed set of multiplication strategies.
#[allow(clippy::upper_case_acronyms)]
#[derive(Clone, Copy, Debug, PartialEq, Eq, Structural)]
pub enum Implementation {
    CLMUL,
    NEON,
    Fallback,
}

/// The backend selected for a feature snapshot: carry-less multiply where
/// the CPU offers it, then NEON, then the always-available fallback.
pub open spec fn spec_detect(f: Features) -> Implementation {
    if f.pmull {
        Implementation::CLMUL
    } else if f.fxsr && f.pclmulqdq {
        Implementation::CLMUL
    } else if f.neon {
        Implementation::NEON
    } else {
        Implementation::Fallback
    }
}

/// Pure function from a feature snapshot to a backend tag; never fails
/// (the fallback is always available).
pub fn detect_implementation(cpu_features: Features) -> (r: Implementation)
    ensures
        r == spec_detect(cpu_features),
{
    if cpu_features.pmull {
        Implementation::CLMUL
    } else if cpu_features.fxsr && cpu_features.pclmulqdq {
        Implementation::CLMUL
    } else if cpu_features.neon {
        Implementation::NEON
    } else {
        Implementation::Fallback
    }
}

/// Whether the wider vectorized carry-less variant is available.
pub fn has_avx_movbe(cpu_features: Features) -> (r: bool)
    ensures
        r == (cpu_features.avx && cpu_features.movbe),
{
    cpu_features.avx && cpu_features.movbe
}

// --- The hash-subkey table.

/// A 128-bit table entry, stored as two 64-bit halves.
#[derive(Clone, Copy)]
pub struct U128 {
    pub hi: u64,
    pub lo: u64,
}

pub const HTABLE_LEN: usize = 16;

/// The precomputed multiplication table for the hash subkey. Its on-entry
/// layout is backend-specific and must not be mixed across backends.
#[derive(Clone, Copy)]
#[allow(non_snake_case)]
pub struct HTable {
    pub Htable: [U128; HTABLE_LEN],
}

pub open spec fn spec_hi64(h: u128) -> u64 {
    (h >> 64u128) as u64
}

pub open spec fn spec_lo64(h: u128) -> u64 {
    h as u64
}

/// Which subkey a table encodes, per backend representation: the fallback
/// stores the halves directly; the carry-less layout exchanges them; the
/// NEON layout additionally precombines the Karatsuba middle term.
pub open spec fn spec_htable_encodes(ht: HTable, imp: Implementation, h: u128) -> bool {
    match imp {
        Implementation::Fallback => ht.Htable@[0].hi == spec_hi64(h) && ht.Htable@[0].lo
            == spec_lo64(h),
        Implementation::CLMUL => ht.Htable@[0].hi == spec_lo64(h) && ht.Htable@[0].lo
            == spec_hi64(h),
        Implementation::NEON => ht.Htable@[0].hi == spec_hi64(h) && ht.Htable@[0].lo
            == spec_lo64(h) && ht.Htable@[1].lo == (spec_hi64(h) ^ spec_lo64(h)),
    }
}

proof fn lemma_u128_halves(h: u128)
    ensures
        ((((h >> 64u128) as u64) as u128) << 64u128) | (((h as u64)) as u128) == h,
        (h >> 64u128) <= 0xffff_ffff_ffff_ffff,
{
    assert(((((h >> 64u128) as u64) as u128) << 64u128) | (((h as u64)) as u128) == h && (h
        >> 64u128) <= 0xffff_ffff_ffff_ffff) by (bit_vector);
}

/// The GHASH key: the hash subkey precomputed into one backend's table
/// representation, chosen once from the feature snapshot.
#[derive(Clone)]
pub struct Key {
    pub h_table: HTable,
    pub h: Ghost<u128>,
    pub imp: Ghost<Implementation>,
}

impl Key {
    /// The table encodes the subkey in the representation of the backend
    /// it was built for.
    pub open spec fn wf(&self) -> bool {
        spec_htable_encodes(self.h_table, self.imp@, self.h@)
    }

    /// Precompute the table for subkey `h_be` with the backend selected
    /// for `cpu_features`.
    pub fn new(h_be: Block, cpu_features: Features) -> (r: Key)
        ensures
            r.wf(),
            r.h@ == spec_block_u128(h_be@),
            r.imp@ == spec_detect(cpu_features),
    {
        let h = block_to_u128(&h_be);
        proof {
            lemma_u128_halves(h);
        }
        let hi = (h >> 64u128) as u64;
        let lo = h as u64;
        let mut t = [U128 { hi: 0, lo: 0 };HTABLE_LEN];
        match detect_implementation(cpu_features) {
            Implementation::CLMUL => {
                t[0] = U128 { hi: lo, lo: hi };
            },
            Implementation::NEON => {
                t[0] = U128 { hi, lo };
                t[1] = U128 { hi: 0, lo: hi ^ lo };
            },
            Implementation::Fallback => {
                t[0] = U128 { hi, lo };
            },
        }
        Key {
            h_table: HTable { Htable: t },
            h: Ghost(spec_block_u128(h_be@)),
            imp: Ghost(spec_detect(cpu_features)),
        }
    }
}

// --- The running accumulator.

/// The running GHASH accumulator.
pub struct Xi(pub Block);

impl Xi {
    /// Fold one block into the accumulator by exclusive-or.
    pub fn bitxor_assign(&mut self, a: Block)
        ensures
            final(self).0@ == Seq::new(16, |i: int| old(self).0@[i] ^ a@[i]),
    {
        self.0 = [
            self.0[0] ^ a[0],
            self.0[1] ^ a[1],
            self.0[2] ^ a[2],
            self.0[3] ^ a[3],
            self.0[4] ^ a[4],
            self.0[5] ^ a[5],
            self.0[6] ^ a[6],
            self.0[7] ^ a[7],
            self.0[8] ^ a[8],
            self.0[9] ^ a[9],
            self.0[10] ^ a[10],
            self.0[11] ^ a[11],
            self.0[12] ^ a[12],
            self.0[13] ^ a[13],
            self.0[14] ^ a[14],
            self.0[15] ^ a[15],
        ];
        proof {
            assert(self.0@ =~= Seq::new(16, |i: int| old(self).0@[i] ^ a@[i]));
        }
    }
}

// --- Per-backend multiplication of the accumulator by the subkey. Every
// --- backend computes the same field product; only its table layout
// --- differs, which is why a table must never meet another backend.

fn gmult_core(xi: &mut Xi, h: u128)
    ensures
        spec_block_u128(final(xi).0@) == spec_ghash_mul(spec_block_u128(old(xi).0@), h),
{
    let w = block_to_u128(&xi.0);
    let z = ghash_mul(w, h);
    xi.0 = u128_to_block(z);
    proof {
        lemma_u128_block_roundtrip(z);
    }
}

fn gmult_clmul(xi: &mut Xi, ht: &HTable, Ghost(h): Ghost<u128>)
    requires
        spec_htable_encodes(*ht, Implementation::CLMUL, h),
    ensures
        spec_block_u128(final(xi).0@) == spec_ghash_mul(spec_block_u128(old(xi).0@), h),
{
    let hw = ((ht.Htable[0].lo as u128) << 64u128) | (ht.Htable[0].hi as u128);
    proof {
        lemma_u128_halves(h);
    }
    gmult_core(xi, hw);
}

fn gmult_neon(xi: &mut Xi, ht: &HTable, Ghost(h): Ghost<u128>)
    requires
        spec_htable_encodes(*ht, Implementation::NEON, h),
    ensures
        spec_block_u128(final(xi).0@) == spec_ghash_mul(spec_block_u128(old(xi).0@), h),
{
    let hw = ((ht.Htable[0].hi as u128) << 64u128) | (ht.Htable[0].lo as u128);
    proof {
        lemma_u128_halves(h);
    }
    gmult_core(xi, hw);
}

fn gmult_nohw(xi: &mut Xi, ht: &HTable, Ghost(h): Ghost<u128>)
    requires
        spec_htable_encodes(*ht, Implementation::Fallback, h),
    ensures
        spec_block_u128(final(xi).0@) == spec_ghash_mul(spec_block_u128(old(xi).0@), h),
{
    let hw = ((ht.Htable[0].hi as u128) << 64u128) | (ht.Htable[0].lo as u128);
    proof {
        lemma_u128_halves(h);
    }
    gmult_core(xi, hw);
}

// --- Folding sequences of blocks into the accumulator.

/// The accumulator after folding `blocks` into `acc`: each step
/// exclusive-ors a block in and multiplies by the subkey.
pub open spec fn spec_ghash_blocks(h: u128, acc: u128, blocks: Seq<u128>) -> u128
    decreases blocks.len(),
{
    if blocks.len() == 0 {
        acc
    } else {
        spec_ghash_blocks(h, spec_ghash_mul(acc ^ blocks[0], h), blocks.drop_first())
    }
}

/// Folding one more block equals one more multiply-accumulate step:
/// hashing blocks one at a time agrees with hashing them as a run.
pub proof fn lemma_ghash_fold_push(h: u128, acc: u128, s: Seq<u128>, b: u128)
    ensures
        spec_ghash_blocks(h, acc, s.push(b)) == spec_ghash_mul(
            spec_ghash_blocks(h, acc, s) ^ b,
            h,
        ),
    decreases s.len(),
{
    let sp = s.push(b);
    if s.len() == 0 {
        assert(sp[0] == b);
        assert(sp.drop_first() =~= Seq::<u128>::empty());
        assert(spec_ghash_blocks(h, acc, sp) == spec_ghash_blocks(
            h,
            spec_ghash_mul(acc ^ b, h),
            sp.drop_first(),
        ));
        assert(spec_ghash_blocks(h, spec_ghash_mul(acc ^ b, h), sp.drop_first())
            == spec_ghash_mul(acc ^ b, h));
        assert(spec_ghash_blocks(h, acc, s) == acc);
    } else {
        assert(sp[0] == s[0]);
        assert(sp.drop_first() =~= s.drop_first().push(b));
        assert(spec_ghash_blocks(h, acc, sp) == spec_ghash_blocks(
            h,
            spec_ghash_mul(acc ^ s[0], h),
            sp.drop_first(),
        ));
        lemma_ghash_fold_push(h, spec_ghash_mul(acc ^ s[0], h), s.drop_first(), b);
        assert(spec_ghash_blocks(h, acc, s) == spec_ghash_blocks(
            h,
            spec_ghash_mul(acc ^ s[0], h),
            s.drop_first(),
        ));
    }
}

/// GHASH additivity: folding a concatenation equals folding the first run
/// and then the second, so any batching of updates yields the same
/// accumulator.
pub proof fn lemma_ghash_fold_append(h: u128, acc: u128, s1: Seq<u128>, s2: Seq<u128>)
    ensures
        spec_ghash_blocks(h, acc, s1 + s2) == spec_ghash_blocks(
            h,
            spec_ghash_blocks(h, acc, s1),
            s2,
        ),
    decreases s1.len(),
{
    if s1.len() == 0 {
        assert(s1 + s2 =~= s2);
    } else {
        assert((s1 + s2)[0] == s1[0]);
        assert((s1 + s2).drop_first() =~= s1.drop_first() + s2);
        lemma_ghash_fold_append(h, spec_ghash_mul(acc ^ s1[0], h), s1.drop_first(), s2);
    }
}

/// Backend agreement: contexts over the same subkey and accumulator reach
/// the same accumulator after the same updates, whatever backends their
/// feature snapshots select — every backend's multiplication meets the
/// same field-product contract, so the snapshot never reaches the result.
pub proof fn lemma_backend_agreement(c1: Context, c2: Context, blocks: Seq<u128>)
    requires
        c1.h == c2.h,
        c1.spec_xi() == c2.spec_xi(),
    ensures
        spec_ghash_blocks(c1.h@, c1.spec_xi(), blocks) == spec_ghash_blocks(
            c2.h@,
            c2.spec_xi(),
            blocks,
        ),
{
}

/// The 128-bit values of a run of blocks.
pub open spec fn spec_blocks_of(s: Seq<Seq<u8>>) -> Seq<u128> {
    Seq::new(s.len(), |i: int| spec_block_u128(s[i]))
}

// --- Associated data, folded in at construction.

/// The `j`th 16-byte chunk of the associated data, zero-padded.
pub open spec fn spec_pad_block(aad: Seq<u8>, j: int) -> Seq<u8> {
    Seq::new(
        16,
        |k: int|
            if 16 * j + k < aad.len() {
                aad[16 * j + k]
            } else {
                0u8
            },
    )
}

/// The number of (full or partial) chunks of the associated data.
pub open spec fn spec_aad_chunks(aad: Seq<u8>) -> nat {
    ((aad.len() + 15) / 16) as nat
}

/// The zero-padded chunks of the associated data as field elements.
pub open spec fn spec_aad_blocks(aad: Seq<u8>) -> Seq<u128> {
    Seq::new(spec_aad_chunks(aad), |j: int| spec_block_u128(spec_pad_block(aad, j)))
}

/// The accumulator value after folding in the associated data.
pub open spec fn spec_ghash_aad(h: u128, aad: Seq<u8>) -> u128 {
    spec_ghash_blocks(h, 0, spec_aad_blocks(aad))
}

// --- The context.

/// The accumulator and table, kept together in the fixed layout the
/// backends expect.
#[allow(non_snake_case)]
pub struct ContextInner {
    pub Xi: Xi,
    pub Htable: HTable,
}

/// A per-message GCM context: the running accumulator, the cumulative bit
/// lengths of associated data and ciphertext, and the feature snapshot
/// from which the backend selection is re-derived on every call.
pub struct Context {
    pub inner: ContextInner,
    pub aad_len: u64,
    pub in_out_len: u64,
    pub cpu_features: Features,
    pub h: Ghost<u128>,
}

impl Context {
    /// The table matches the backend selected for the stored snapshot.
    pub open spec fn wf(&self) -> bool {
        spec_htable_encodes(self.inner.Htable, spec_detect(self.cpu_features), self.h@)
    }

    /// The accumulator as a field element.
    pub open spec fn spec_xi(&self) -> u128 {
        spec_block_u128(self.inner.Xi.0@)
    }

    /// Construct a context for one message: rejects lengths the 64-bit
    /// bit-length encoding cannot represent or that exceed the protocol
    /// maximum, then folds every zero-padded chunk of the associated data
    /// into the accumulator.
    pub fn new(key: &Key, aad: &[u8], in_out_len: usize, cpu_features: Features) -> (r: Result<
        Context,
        Unspecified,
    >)
        requires
            key.wf(),
            key.imp@ == spec_detect(cpu_features),
        ensures
            match r {
                Ok(ctx) => {
                    &&& (in_out_len as u64) <= MAX_IN_OUT_LEN
                    &&& aad@.len() * 8 <= u64::MAX
                    &&& in_out_len * 8 <= u64::MAX
                    &&& ctx.wf()
                    &&& ctx.h == key.h
                    &&& ctx.cpu_features == cpu_features
                    &&& ctx.aad_len == aad@.len() * 8
                    &&& ctx.in_out_len == in_out_len * 8
                    &&& ctx.spec_xi() == spec_ghash_aad(key.h@, aad@)
                },
                Err(_) => (in_out_len as u64) > MAX_IN_OUT_LEN || aad@.len() * 8 > u64::MAX
                    || in_out_len * 8 > u64::MAX,
            },
    {
        if (in_out_len as u64) > MAX_IN_OUT_LEN {
            return Err(Unspecified);
        }
        if (aad.len() as u64) > u64::MAX / 8 {
            return Err(Unspecified);
        }
        if (in_out_len as u64) > u64::MAX / 8 {
            return Err(Unspecified);
        }
        let mut ctx = Context {
            inner: ContextInner { Xi: Xi([0u8; 16]), Htable: key.h_table },
            aad_len: (aad.len() as u64) * 8,
            in_out_len: (in_out_len as u64) * 8,
            cpu_features,
            h: Ghost(key.h@),
        };
        proof {
            assert(ctx.inner.Htable == key.h_table);
            assert(spec_block_u128(Seq::new(16, |i: int| 0u8)) == 0) by {
                crate::ghash::lemma_u128_block_zero();
            }
            assert(ctx.spec_xi() == 0);
        }
        let total_aad = aad.len();
        let nchunks = total_aad / 16 + (if total_aad % 16 != 0 {
            1
        } else {
            0
        });
        let mut j: usize = 0;
        while j < nchunks
            invariant
                j <= nchunks,
                total_aad == aad@.len(),
                nchunks == spec_aad_chunks(aad@),
                key.wf(),
                key.imp@ == spec_detect(cpu_features),
                ctx.wf(),
                ctx.h == key.h,
                ctx.cpu_features == cpu_features,
                ctx.aad_len == aad@.len() * 8,
                ctx.in_out_len == in_out_len * 8,
                ctx.spec_xi() == spec_ghash_blocks(
                    key.h@,
                    0,
                    spec_aad_blocks(aad@).take(j as int),
                ),
            decreases nchunks - j,
        {
            proof {
                assert(16 * (nchunks as int) <= aad@.len() + 15) by (nonlinear_arith)
                    requires
                        nchunks == ((aad@.len() + 15) as int) / 16,
                ;
                assert(16 * (j as int) + 16 <= 16 * (nchunks as int));
                assert(16 * (j as int) <= total_aad - 1);
            }
            let base = 16 * j;
            let mut block = [0u8; 16];
            let mut k: usize = 0;
            while k < 16
                invariant
                    k <= 16,
                    base == 16 * j,
                    j < nchunks == spec_aad_chunks(aad@),
                    forall|t: int| 0 <= t < k ==> block@[t] == spec_pad_block(aad@, j as int)[t],
                    forall|t: int| k <= t < 16 ==> block@[t] == 0,
                decreases 16 - k,
            {
                if k < aad.len() - base {
                    block[k] = aad[base + k];
                }
                k = k + 1;
            }
            proof {
                assert(block@ =~= spec_pad_block(aad@, j as int));
                assert(spec_aad_blocks(aad@).take(j as int + 1) =~= spec_aad_blocks(aad@).take(
                    j as int,
                ).push(spec_block_u128(spec_pad_block(aad@, j as int))));
                lemma_ghash_fold_push(
                    key.h@,
                    0,
                    spec_aad_blocks(aad@).take(j as int),
                    spec_block_u128(spec_pad_block(aad@, j as int)),
                );
            }
            ctx.update_block(block);
            j = j + 1;
        }
        proof {
            assert(spec_aad_blocks(aad@).take(nchunks as int) =~= spec_aad_blocks(aad@));
        }
        Ok(ctx)
    }

    /// Access to the table and accumulator for integrated implementations.
    pub fn inner(&self) -> (r: (&HTable, &Xi))
        ensures
            r.0 == self.inner.Htable,
            r.1 == self.inner.Xi,
    {
        (&self.inner.Htable, &self.inner.Xi)
    }

    /// Exclusive-or one block into the accumulator, then multiply by the
    /// subkey using the backend selected for the stored snapshot.
    pub fn update_block(&mut self, a: Block)
        requires
            old(self).wf(),
        ensures
            final(self).wf(),
            final(self).h == old(self).h,
            final(self).cpu_features == old(self).cpu_features,
            final(self).aad_len == old(self).aad_len,
            final(self).in_out_len == old(self).in_out_len,
            final(self).inner.Htable == old(self).inner.Htable,
            final(self).spec_xi() == spec_ghash_mul(
                old(self).spec_xi() ^ spec_block_u128(a@),
                old(self).h@,
            ),
    {
        self.inner.Xi.bitxor_assign(a);
        proof {
            lemma_be128_xor(old(self).inner.Xi.0@, a@);
        }
        match detect_implementation(self.cpu_features) {
            Implementation::CLMUL => {
                gmult_clmul(&mut self.inner.Xi, &self.inner.Htable, Ghost(self.h@));
            },
            Implementation::NEON => {
                gmult_neon(&mut self.inner.Xi, &self.inner.Htable, Ghost(self.h@));
            },
            Implementation::Fallback => {
                gmult_nohw(&mut self.inner.Xi, &self.inner.Htable, Ghost(self.h@));
            },
        }
    }

    /// Fold a non-empty run of whole blocks into the accumulator:
    /// functionally one `update_block` per block.
    pub fn update_blocks(&mut self, input: &[Block])
        requires
            old(self).wf(),
            input@.len() >= 1,
        ensures
            final(self).wf(),
            final(self).h == old(self).h,
            final(self).cpu_features == old(self).cpu_features,
            final(self).aad_len == old(self).aad_len,
            final(self).in_out_len == old(self).in_out_len,
            final(self).inner.Htable == old(self).inner.Htable,
            final(self).spec_xi() == spec_ghash_blocks(
                old(self).h@,
                old(self).spec_xi(),
                spec_blocks_of(input.deep_view()),
            ),
    {
        let ghost x0 = old(self).spec_xi();
        let ghost blocks = spec_blocks_of(input.deep_view());
        let n = input.len();
        let mut l: usize = 0;
        while l < n
            invariant
                l <= n,
                n == input@.len(),
                blocks == spec_blocks_of(input.deep_view()),
                blocks.len() == n,
                self.wf(),
                self.h == old(self).h,
                self.cpu_features == old(self).cpu_features,
                self.aad_len == old(self).aad_len,
                self.in_out_len == old(self).in_out_len,
                self.inner.Htable == old(self).inner.Htable,
                self.spec_xi() == spec_ghash_blocks(old(self).h@, x0, blocks.take(l as int)),
            decreases n - l,
        {
            proof {
                assert(input.deep_view()[l as int] == input@[l as int]@);
                assert(blocks.take(l as int + 1) =~= blocks.take(l as int).push(
                    blocks[l as int],
                ));
                lemma_ghash_fold_push(old(self).h@, x0, blocks.take(l as int), blocks[l as int]);
            }
            let b = input[l];
            self.update_block(b);
            l = l + 1;
        }
        proof {
            assert(blocks.take(n as int) =~= blocks);
        }
    }

    /// The final accumulator value: the length block (associated-data bit
    /// length, then ciphertext bit length, big-endian) folded in like any
    /// other block.
    pub open spec fn spec_final_xi(&self) -> u128 {
        spec_ghash_mul(
            self.spec_xi() ^ ((((self.aad_len as u128) << 64u128) | (self.in_out_len as u128))),
            self.h@,
        )
    }

    /// Fold in the length block, then hand the raw accumulator and the
    /// feature snapshot to the caller-supplied finalization. Consumes the
    /// context: no update is legal afterwards.
    pub fn pre_finish<F: FnOnce(Block, Features) -> Tag>(self, f: F) -> (r: Tag)
        requires
            self.wf(),
            forall|b: Block| call_requires(f, (b, self.cpu_features)),
        ensures
            exists|b: Block|
                spec_block_u128(b@) == self.spec_final_xi() && call_ensures(
                    f,
                    (b, self.cpu_features),
                    r,
                ),
    {
        let mut ctx = self;
        let len_block = u128_to_block(
            ((ctx.aad_len as u128) << 64u128) | (ctx.in_out_len as u128),
        );
        proof {
            lemma_u128_block_roundtrip(((ctx.aad_len as u128) << 64u128) | (ctx.in_out_len
                as u128));
        }
        ctx.update_block(len_block);
        let out = f(ctx.inner.Xi.0, ctx.cpu_features);
        proof {
            assert(spec_block_u128(ctx.inner.Xi.0@) == self.spec_final_xi() && call_ensures(
                f,
                (ctx.inner.Xi.0, self.cpu_features),
                out,
            ));
        }
        out
    }

    /// Whether the wider vectorized carry-less path applies.
    pub fn is_avx(&self) -> (r: bool)
        ensures
            r == (spec_detect(self.cpu_features) == Implementation::CLMUL
                && self.cpu_features.avx && self.cpu_features.movbe),
    {
        match detect_implementation(self.cpu_features) {
            Implementation::CLMUL => has_avx_movbe(self.cpu_features),
            _ => false,
        }
    }

    /// Whether the carry-less backend is selected.
    pub fn is_clmul(&self) -> (r: bool)
        ensures
            r == (spec_detect(self.cpu_features) == Implementation::CLMUL),
    {
        matches!(detect_implementation(self.cpu_features), Implementation::CLMUL)
    }
}

} // verus!
