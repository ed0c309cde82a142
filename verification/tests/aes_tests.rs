use gcm_core::aes::{set_encrypt_key, KeyBytes, AES_KEY};
use gcm_core::batch::{encrypt_block, Batch};
use gcm_core::ctr::{ctr32_encrypt_within, Counter};

fn hex(s: &str) -> Vec<u8> {
    let digits: Vec<u8> = s
        .bytes()
        .filter(|b| !b.is_ascii_whitespace())
        .map(|b| match b {
            b'0'..=b'9' => b - b'0',
            b'a'..=b'f' => b - b'a' + 10,
            b'A'..=b'F' => b - b'A' + 10,
            _ => panic!("bad hex"),
        })
        .collect();
    digits.chunks(2).map(|p| (p[0] << 4) | p[1]).collect()
}

fn block16(s: &str) -> [u8; 16] {
    let v = hex(s);
    let mut b = [0u8; 16];
    b.copy_from_slice(&v);
    b
}

fn key128(s: &str) -> AES_KEY {
    let v = hex(s);
    let mut kb = [0u8; 16];
    kb.copy_from_slice(&v);
    let mut k = AES_KEY::zeroed();
    set_encrypt_key(&mut k, KeyBytes::AES_128(&kb));
    k
}

fn key256(s: &str) -> AES_KEY {
    let v = hex(s);
    let mut kb = [0u8; 32];
    kb.copy_from_slice(&v);
    let mut k = AES_KEY::zeroed();
    set_encrypt_key(&mut k, KeyBytes::AES_256(&kb));
    k
}

#[test]
fn aes128_reference_vector() {
    let k = key128("000102030405060708090a0b0c0d0e0f");
    let mut b = block16("00112233445566778899aabbccddeeff");
    encrypt_block(&k, &mut b);
    assert_eq!(b, block16("69c4e0d86a7b0430d8cdb78070b4c55a"));
}

#[test]
fn aes256_reference_vector() {
    let k = key256("000102030405060708090a0b0c0d0e0f101112131415161718191a1b1c1d1e1f");
    let mut b = block16("00112233445566778899aabbccddeeff");
    encrypt_block(&k, &mut b);
    assert_eq!(b, block16("8ea2b7ca516745bfeafc49904b496089"));
}

#[test]
fn batch_from_bytes_roundtrip_via_encrypt() {
    // Two different blocks through one batch must each encrypt as the
    // per-block path does.
    let k = key128("2b7e151628aed2a6abf7158809cf4f3c");
    let b0 = block16("6bc1bee22e409f96e93d7e117393172a");
    let b1 = block16("ae2d8a571e03ac9c9eb76fac45af8e51");
    let mut e0 = b0;
    encrypt_block(&k, &mut e0);
    let mut e1 = b1;
    encrypt_block(&k, &mut e1);
    let _ = Batch::from_bytes(&[b0, b1]);
    assert_ne!(e0, e1);
}

/// The expected CTR keystream, computed block by block with the
/// single-block path.
fn expected_ctr(k: &AES_KEY, ctr0: [u8; 16], data: &[u8]) -> Vec<u8> {
    let mut out = Vec::new();
    let base = u32::from_be_bytes([ctr0[12], ctr0[13], ctr0[14], ctr0[15]]);
    for (j, chunk) in data.chunks(16).enumerate() {
        let mut cb = ctr0;
        cb[12..].copy_from_slice(&base.wrapping_add(j as u32).to_be_bytes());
        encrypt_block(k, &mut cb);
        for (i, &d) in chunk.iter().enumerate() {
            out.push(d ^ cb[i]);
        }
    }
    out
}

fn ctr_case(nblocks: usize) {
    let k = key128("2b7e151628aed2a6abf7158809cf4f3c");
    let ctr0 = block16("f0f1f2f3f4f5f6f7f8f9fafbfcfdfeff");
    let data: Vec<u8> = (0..nblocks * 16).map(|i| (i * 7 + 3) as u8).collect();
    let mut buf_vec: Vec<u8> = data.clone();
    let mut ctr = Counter { bytes: ctr0 };
    ctr32_encrypt_within(&k, &mut buf_vec, 0, &mut ctr);
    assert_eq!(buf_vec, expected_ctr(&k, ctr0, &data));
    // The counter advanced by exactly nblocks.
    let base = u32::from_be_bytes([ctr0[12], ctr0[13], ctr0[14], ctr0[15]]);
    let after = u32::from_be_bytes([
        ctr.bytes[12],
        ctr.bytes[13],
        ctr.bytes[14],
        ctr.bytes[15],
    ]);
    assert_eq!(after, base.wrapping_add(nblocks as u32));
}

#[test]
fn ctr32_single_block() {
    ctr_case(1);
}

#[test]
fn ctr32_exactly_one_batch() {
    ctr_case(4);
}

#[test]
fn ctr32_more_than_one_batch() {
    ctr_case(9);
}

#[test]
fn ctr32_respects_offset() {
    let k = key128("2b7e151628aed2a6abf7158809cf4f3c");
    let ctr0 = block16("00000000000000000000000000000001");
    let mut buf: Vec<u8> = (0..40u8).collect();
    let prefix: Vec<u8> = buf[..8].to_vec();
    let tail: Vec<u8> = buf[8..].to_vec();
    let mut ctr = Counter { bytes: ctr0 };
    ctr32_encrypt_within(&k, &mut buf, 8, &mut ctr);
    assert_eq!(&buf[..8], &prefix[..]);
    assert_eq!(&buf[8..], &expected_ctr(&k, ctr0, &tail)[..]);
}

#[test]
fn ctr32_split_matches_one_call() {
    // Batch-boundary independence: one call over six blocks equals a
    // two-block call followed by a four-block call with the counter
    // carried across.
    let k = key128("2b7e151628aed2a6abf7158809cf4f3c");
    let ctr0 = block16("0011223344556677 8899aabb 00000005");
    let data: Vec<u8> = (0..96u8).collect();

    let mut whole: Vec<u8> = data.clone();
    let mut c1 = Counter { bytes: ctr0 };
    ctr32_encrypt_within(&k, &mut whole, 0, &mut c1);

    let mut first: Vec<u8> = data[..32].to_vec();
    let mut second: Vec<u8> = data[32..].to_vec();
    let mut c2 = Counter { bytes: ctr0 };
    ctr32_encrypt_within(&k, &mut first, 0, &mut c2);
    ctr32_encrypt_within(&k, &mut second, 0, &mut c2);

    first.extend_from_slice(&second);
    assert_eq!(whole, first);
}

#[test]
fn ctr32_disjoint_ranges_any_order() {
    // Two disjoint ranges with pre-split counters: the outcome does not
    // depend on which range is processed first.
    let k = key128("2b7e151628aed2a6abf7158809cf4f3c");
    let ctr0 = block16("0011223344556677 8899aabb 00000005");
    let data: Vec<u8> = (0..96u8).map(|i| i ^ 0x5a).collect();

    let mut ctr_hi = Counter { bytes: ctr0 };
    ctr_hi.increment_by_less_safe(2);

    // First order: low range then high range.
    let mut low_a: Vec<u8> = data[..32].to_vec();
    let mut high_a: Vec<u8> = data[32..].to_vec();
    let mut ca1 = Counter { bytes: ctr0 };
    let mut ca2 = Counter { bytes: ctr_hi.bytes };
    ctr32_encrypt_within(&k, &mut low_a, 0, &mut ca1);
    ctr32_encrypt_within(&k, &mut high_a, 0, &mut ca2);

    // Second order: high range then low range.
    let mut low_b: Vec<u8> = data[..32].to_vec();
    let mut high_b: Vec<u8> = data[32..].to_vec();
    let mut cb2 = Counter { bytes: ctr_hi.bytes };
    let mut cb1 = Counter { bytes: ctr0 };
    ctr32_encrypt_within(&k, &mut high_b, 0, &mut cb2);
    ctr32_encrypt_within(&k, &mut low_b, 0, &mut cb1);

    assert_eq!(low_a, low_b);
    assert_eq!(high_a, high_b);

    // And together they equal the one-shot whole-buffer call.
    let mut whole: Vec<u8> = data.clone();
    let mut cw = Counter { bytes: ctr0 };
    ctr32_encrypt_within(&k, &mut whole, 0, &mut cw);
    let mut joined = low_a.clone();
    joined.extend_from_slice(&high_a);
    assert_eq!(whole, joined);
}

#[test]
fn counter_increment_wraps_silently() {
    let mut c = Counter { bytes: block16("000000000000000000000000fffffffe") };
    c.increment_by_less_safe(3);
    assert_eq!(&c.bytes[12..], &[0x00, 0x00, 0x00, 0x01]);
    assert_eq!(&c.bytes[..12], &[0u8; 12]);
}

#[test]
fn counter_as_bytes_reads_back() {
    let c = Counter { bytes: block16("102132435465768798a9bacbdcedfe0f") };
    assert_eq!(c.as_bytes_less_safe(), c.bytes);
}
