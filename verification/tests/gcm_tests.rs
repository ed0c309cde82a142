use gcm_core::aes::{set_encrypt_key, KeyBytes, AES_KEY};
use gcm_core::batch::encrypt_block;
use gcm_core::cpu::Features;
use gcm_core::ctr::{ctr32_encrypt_within, Counter};
use gcm_core::gcm::{
    detect_implementation, has_avx_movbe, Context, Implementation, Key, Tag, Xi, MAX_IN_OUT_LEN,
};

fn hex(s: &str) -> Vec<u8> {
    let digits: Vec<u8> = s
        .bytes()
        .filter(|b| !b.is_ascii_whitespace())
        .map(|b| match b {
            b'0'..=b'9' => b - b'0',
            b'a'..=b'f' => b - b'a' + 10,
            b'A'..=b'F' => b - b'A' + 10,
            _ => panic!("bad hex"),
        })
        .collect();
    digits.chunks(2).map(|p| (p[0] << 4) | p[1]).collect()
}

fn block16(s: &str) -> [u8; 16] {
    let v = hex(s);
    let mut b = [0u8; 16];
    b.copy_from_slice(&v);
    b
}

fn no_features() -> Features {
    Features { pmull: false, neon: false, fxsr: false, pclmulqdq: false, avx: false, movbe: false }
}

fn arm_clmul() -> Features {
    Features { pmull: true, neon: true, fxsr: false, pclmulqdq: false, avx: false, movbe: false }
}

fn arm_neon() -> Features {
    Features { pmull: false, neon: true, fxsr: false, pclmulqdq: false, avx: false, movbe: false }
}

fn x86_clmul() -> Features {
    Features { pmull: false, neon: false, fxsr: true, pclmulqdq: true, avx: false, movbe: false }
}

fn x86_avx() -> Features {
    Features { pmull: false, neon: false, fxsr: true, pclmulqdq: true, avx: true, movbe: true }
}

fn aes_key(key_bytes: &[u8]) -> AES_KEY {
    let mut k = AES_KEY::zeroed();
    match key_bytes.len() {
        16 => {
            let mut kb = [0u8; 16];
            kb.copy_from_slice(key_bytes);
            set_encrypt_key(&mut k, KeyBytes::AES_128(&kb));
        }
        32 => {
            let mut kb = [0u8; 32];
            kb.copy_from_slice(key_bytes);
            set_encrypt_key(&mut k, KeyBytes::AES_256(&kb));
        }
        _ => panic!("bad key size"),
    }
    k
}

/// Seal one message with AES-GCM (96-bit IV), composing the library's
/// pieces the way the excluded AEAD layer does.
fn gcm_seal(key_bytes: &[u8], iv: &[u8], aad: &[u8], pt: &[u8], f: Features) -> (Vec<u8>, [u8; 16]) {
    assert_eq!(iv.len(), 12);
    let ak = aes_key(key_bytes);

    let mut h = [0u8; 16];
    encrypt_block(&ak, &mut h);
    let key = Key::new(h, f);
    let mut ctx = Context::new(&key, aad, pt.len(), f).unwrap();

    let mut j0 = [0u8; 16];
    j0[..12].copy_from_slice(iv);
    j0[15] = 1;
    let mut ek_j0 = j0;
    encrypt_block(&ak, &mut ek_j0);

    let mut ctr_bytes = j0;
    ctr_bytes[15] = 2;
    let mut ctr = Counter { bytes: ctr_bytes };

    let full = pt.len() / 16 * 16;
    let mut ct: Vec<u8> = pt[..full].to_vec();
    ctr32_encrypt_within(&ak, &mut ct, 0, &mut ctr);
    if pt.len() > full {
        let mut cb = ctr.as_bytes_less_safe();
        encrypt_block(&ak, &mut cb);
        for (i, &b) in pt[full..].iter().enumerate() {
            ct.push(b ^ cb[i]);
        }
    }

    if full > 0 {
        let blocks: Vec<[u8; 16]> = ct[..full]
            .chunks(16)
            .map(|c| {
                let mut b = [0u8; 16];
                b.copy_from_slice(c);
                b
            })
            .collect();
        ctx.update_blocks(&blocks);
    }
    if ct.len() > full {
        let mut last = [0u8; 16];
        last[..ct.len() - full].copy_from_slice(&ct[full..]);
        ctx.update_block(last);
    }

    let tag = ctx.pre_finish(|xi, _features| {
        let mut t = [0u8; 16];
        for i in 0..16 {
            t[i] = xi[i] ^ ek_j0[i];
        }
        Tag(t)
    });
    (ct, tag.0)
}

#[test]
fn nist_case_empty_message() {
    let key = hex("00000000000000000000000000000000");
    let iv = hex("000000000000000000000000");
    let (ct, tag) = gcm_seal(&key, &iv, &[], &[], no_features());
    assert!(ct.is_empty());
    assert_eq!(tag, block16("58e2fccefa7e3061367f1d57a4e7455a"));
}

#[test]
fn nist_case_single_zero_block() {
    let key = hex("00000000000000000000000000000000");
    let iv = hex("000000000000000000000000");
    let pt = hex("00000000000000000000000000000000");
    let (ct, tag) = gcm_seal(&key, &iv, &[], &pt, no_features());
    assert_eq!(ct, hex("0388dace60b6a392f328c2b971b2fe78"));
    assert_eq!(tag, block16("ab6e47d42cec13bdf53a67b21257bddf"));
}

#[test]
fn nist_case_four_blocks() {
    let key = hex("feffe9928665731c6d6a8f9467308308");
    let iv = hex("cafebabefacedbaddecaf888");
    let pt = hex(
        "d9313225f88406e5a55909c5aff5269a\
         86a7a9531534f7da2e4c303d8a318a72\
         1c3c0c95956809532fcf0e2449a6b525\
         b16aedf5aa0de657ba637b391aafd255",
    );
    let (ct, tag) = gcm_seal(&key, &iv, &[], &pt, no_features());
    assert_eq!(
        ct,
        hex(
            "42831ec2217774244b7221b784d0d49c\
             e3aa212f2c02a4e035c17e2329aca12e\
             21d514b25466931c7d8f6a5aac84aa05\
             1ba30b396a0aac973d58e091473f5985"
        )
    );
    assert_eq!(tag, block16("4d5c2af327cd64a62cf35abd2ba6fab4"));
}

#[test]
fn nist_case_with_aad_and_partial_block() {
    let key = hex("feffe9928665731c6d6a8f9467308308");
    let iv = hex("cafebabefacedbaddecaf888");
    let pt = hex(
        "d9313225f88406e5a55909c5aff5269a\
         86a7a9531534f7da2e4c303d8a318a72\
         1c3c0c95956809532fcf0e2449a6b525\
         b16aedf5aa0de657ba637b39",
    );
    let aad = hex("feedfacedeadbeeffeedfacedeadbeefabaddad2");
    let (ct, tag) = gcm_seal(&key, &iv, &aad, &pt, no_features());
    assert_eq!(
        ct,
        hex(
            "42831ec2217774244b7221b784d0d49c\
             e3aa212f2c02a4e035c17e2329aca12e\
             21d514b25466931c7d8f6a5aac84aa05\
             1ba30b396a0aac973d58e091"
        )
    );
    assert_eq!(tag, block16("5bc94fbc3221a5db94fae95ae7121a47"));
}

#[test]
fn nist_case_aes256_empty_message() {
    let key = hex("0000000000000000000000000000000000000000000000000000000000000000");
    let iv = hex("000000000000000000000000");
    let (ct, tag) = gcm_seal(&key, &iv, &[], &[], no_features());
    assert!(ct.is_empty());
    assert_eq!(tag, block16("530f8afbc74536b9a963b4f1c4cb738b"));
}

#[test]
fn nist_case_aes256_single_zero_block() {
    let key = hex("0000000000000000000000000000000000000000000000000000000000000000");
    let iv = hex("000000000000000000000000");
    let pt = hex("00000000000000000000000000000000");
    let (ct, tag) = gcm_seal(&key, &iv, &[], &pt, no_features());
    assert_eq!(ct, hex("cea7403d4d606b6e074ec5d3baf39d18"));
    assert_eq!(tag, block16("d0d1c8a799996bf0265b98b5d48ab919"));
}

#[test]
fn backend_agreement_on_fixed_message() {
    let key = hex("feffe9928665731c6d6a8f9467308308");
    let iv = hex("cafebabefacedbaddecaf888");
    let pt = hex(
        "d9313225f88406e5a55909c5aff5269a\
         86a7a9531534f7da2e4c303d8a318a72",
    );
    let aad = hex("feedfacedeadbeef");
    let reference = gcm_seal(&key, &iv, &aad, &pt, no_features());
    for f in [arm_clmul(), arm_neon(), x86_clmul(), x86_avx()] {
        let other = gcm_seal(&key, &iv, &aad, &pt, f);
        assert_eq!(reference, other);
    }
}

#[test]
fn ghash_additivity_single_vs_batched() {
    let key = hex("feffe9928665731c6d6a8f9467308308");
    let blocks: Vec<[u8; 16]> = (0u8..5)
        .map(|j| {
            let mut b = [0u8; 16];
            for i in 0..16 {
                b[i] = j.wrapping_mul(31).wrapping_add(i as u8).wrapping_mul(97);
            }
            b
        })
        .collect();
    for f in [no_features(), arm_clmul(), arm_neon(), x86_clmul(), x86_avx()] {
        let ak = aes_key(&key);
        let mut h = [0u8; 16];
        encrypt_block(&ak, &mut h);
        let k = Key::new(h, f);

        let mut one_at_a_time = Context::new(&k, &[], 0, f).unwrap();
        for b in &blocks {
            one_at_a_time.update_block(*b);
        }
        let mut batched = Context::new(&k, &[], 0, f).unwrap();
        batched.update_blocks(&blocks);

        assert_eq!(one_at_a_time.inner.Xi.0, batched.inner.Xi.0);
    }
}

#[test]
fn length_limit_enforced_exactly() {
    let key = hex("00000000000000000000000000000000");
    let ak = aes_key(&key);
    let mut h = [0u8; 16];
    encrypt_block(&ak, &mut h);
    let f = no_features();
    let k = Key::new(h, f);
    let max = MAX_IN_OUT_LEN as usize;
    assert!(Context::new(&k, &[], max, f).is_ok());
    assert!(Context::new(&k, &[], max + 1, f).is_err());
}

#[test]
fn aad_is_folded_at_construction() {
    // Hashing the associated data at construction equals hashing the same
    // zero-padded chunks through the update path.
    let key = hex("feffe9928665731c6d6a8f9467308308");
    let f = no_features();
    let ak = aes_key(&key);
    let mut h = [0u8; 16];
    encrypt_block(&ak, &mut h);
    let k = Key::new(h, f);
    let aad = hex("feedfacedeadbeeffeedfacedeadbeefabaddad2");

    let via_new = Context::new(&k, &aad, 0, f).unwrap();

    let mut manual = Context::new(&k, &[], 0, f).unwrap();
    let mut c0 = [0u8; 16];
    c0.copy_from_slice(&aad[..16]);
    manual.update_block(c0);
    let mut c1 = [0u8; 16];
    c1[..4].copy_from_slice(&aad[16..]);
    manual.update_block(c1);

    assert_eq!(via_new.inner.Xi.0, manual.inner.Xi.0);
}

#[test]
fn xi_bitxor_folds_bytewise() {
    let mut xi = Xi(block16("00ff00ff00ff00ff00ff00ff00ff00ff"));
    xi.bitxor_assign(block16("0f0f0f0f0f0f0f0f0f0f0f0f0f0f0f0f"));
    assert_eq!(xi.0, block16("0ff00ff00ff00ff00ff00ff00ff00ff0"));
}

#[test]
fn selector_is_deterministic_and_total() {
    assert!(matches!(detect_implementation(no_features()), Implementation::Fallback));
    assert!(matches!(detect_implementation(arm_clmul()), Implementation::CLMUL));
    assert!(matches!(detect_implementation(arm_neon()), Implementation::NEON));
    assert!(matches!(detect_implementation(x86_clmul()), Implementation::CLMUL));
    assert!(matches!(detect_implementation(x86_avx()), Implementation::CLMUL));
    assert!(has_avx_movbe(x86_avx()));
    assert!(!has_avx_movbe(x86_clmul()));
}

#[test]
fn context_reports_selected_path() {
    let key = hex("00000000000000000000000000000000");
    let ak = aes_key(&key);
    let mut h = [0u8; 16];
    encrypt_block(&ak, &mut h);
    for (f, avx, clmul) in [
        (no_features(), false, false),
        (x86_clmul(), false, true),
        (x86_avx(), true, true),
        (arm_clmul(), false, true),
        (arm_neon(), false, false),
    ] {
        let k = Key::new(h, f);
        let ctx = Context::new(&k, &[], 0, f).unwrap();
        assert_eq!(ctx.is_avx(), avx);
        assert_eq!(ctx.is_clmul(), clmul);
        let (_table, _xi) = ctx.inner();
    }
}
