//! Known-answer vectors from FIPS-197 Appendix C, round-trip checks for
//! every variant and mode, counter-wrap behaviour and the rejected-input
//! cases.

use aes::{AES, AesError, Mode, Size};
use aes::{aes_cbc_decrypt_buffer, aes_cbc_encrypt_buffer, aes_ctr_xcrypt_buffer};
use aes::{aes_ecb_decrypt, aes_ecb_encrypt};
use aes::{get_sbox_invert, get_sbox_value, multiply, xtime};

fn nibble(c: u8) -> u8 {
    match c {
        b'0'..=b'9' => c - b'0',
        b'a'..=b'f' => c - b'a' + 10,
        b'A'..=b'F' => c - b'A' + 10,
        _ => panic!("not a hex digit"),
    }
}

fn as_vec(input: &str) -> Vec<u8> {
    let bytes = input.as_bytes();
    assert!(bytes.len() % 2 == 0);
    let mut out = Vec::new();
    let mut i = 0;
    while i < bytes.len() {
        out.push(nibble(bytes[i]) * 16 + nibble(bytes[i + 1]));
        i += 2;
    }
    out
}

fn new_aes(size: Size, mode: Mode, key: &str, iv: &str) -> AES {
    match AES::new(size, mode, as_vec(key).as_slice(), as_vec(iv).as_slice()) {
        Ok(ctx) => ctx,
        Err(_) => panic!("context rejected"),
    }
}

const ZERO_IV: &str = "00000000000000000000000000000000";

// FIPS-197 Appendix C.1: AES-128 single-block known answer.
#[test]
fn ecb_aes_128_fips_example() {
    let aes = new_aes(Size::AES128, Mode::ECB, "000102030405060708090a0b0c0d0e0f", ZERO_IV);
    let mut buf = as_vec("00112233445566778899aabbccddeeff");
    assert_eq!(aes_ecb_encrypt(&aes, &mut buf), Ok(()));
    assert_eq!(buf, as_vec("69c4e0d86a7b0430d8cdb78070b4c55a"));
}

// FIPS-197 Appendix C.2: AES-192 single-block known answer.
#[test]
fn ecb_aes_192_fips_example() {
    let aes = new_aes(
        Size::AES192,
        Mode::ECB,
        "000102030405060708090a0b0c0d0e0f1011121314151617",
        ZERO_IV,
    );
    let mut buf = as_vec("00112233445566778899aabbccddeeff");
    assert_eq!(aes_ecb_encrypt(&aes, &mut buf), Ok(()));
    assert_eq!(buf, as_vec("dda97ca4864cdfe06eaf70a0ec0d7191"));
    assert_eq!(aes_ecb_decrypt(&aes, &mut buf), Ok(()));
    assert_eq!(buf, as_vec("00112233445566778899aabbccddeeff"));
}

// FIPS-197 Appendix C.3: AES-256 single-block known answer.
#[test]
fn ecb_aes_256_fips_example() {
    let aes = new_aes(
        Size::AES256,
        Mode::ECB,
        "000102030405060708090a0b0c0d0e0f101112131415161718191a1b1c1d1e1f",
        ZERO_IV,
    );
    let mut buf = as_vec("00112233445566778899aabbccddeeff");
    assert_eq!(aes_ecb_encrypt(&aes, &mut buf), Ok(()));
    assert_eq!(buf, as_vec("8ea2b7ca516745bfeafc49904b496089"));
    assert_eq!(aes_ecb_decrypt(&aes, &mut buf), Ok(()));
    assert_eq!(buf, as_vec("00112233445566778899aabbccddeeff"));
}

// Nk/Nr pairs are fixed per variant: (128 -> 4, 10), (192 -> 6, 12),
// (256 -> 8, 14).
#[test]
fn variant_word_and_round_counts() {
    let key128 = "2b7e151628aed2a6abf7158809cf4f3c";
    let key192 = "000102030405060708090a0b0c0d0e0f1011121314151617";
    let key256 = "000102030405060708090a0b0c0d0e0f101112131415161718191a1b1c1d1e1f";
    let a = new_aes(Size::AES128, Mode::ECB, key128, ZERO_IV);
    assert_eq!((a.nk(), a.nr()), (4, 10));
    let b = new_aes(Size::AES192, Mode::ECB, key192, ZERO_IV);
    assert_eq!((b.nk(), b.nr()), (6, 12));
    let c = new_aes(Size::AES256, Mode::ECB, key256, ZERO_IV);
    assert_eq!((c.nk(), c.nr()), (8, 14));
}

// Deciphering a block undoes enciphering it, for each variant.
#[test]
fn block_round_trip_all_variants() {
    let key128 = "2b7e151628aed2a6abf7158809cf4f3c";
    let key192 = "8e73b0f7da0e6452c810f32b809079e562f8ead2522c6b7b";
    let key256 = "603deb1015ca71be2b73aef0857d77811f352c073b6108d72d9810a30914dff4";
    let block = "00112233445566778899aabbccddeeff";
    for (size, key) in [
        (Size::AES128, key128),
        (Size::AES192, key192),
        (Size::AES256, key256),
    ] {
        let aes = new_aes(size, Mode::ECB, key, ZERO_IV);
        let mut buf = as_vec(block);
        assert_eq!(aes_ecb_encrypt(&aes, &mut buf), Ok(()));
        assert_ne!(buf, as_vec(block));
        assert_eq!(aes_ecb_decrypt(&aes, &mut buf), Ok(()));
        assert_eq!(buf, as_vec(block));
    }
}

// CBC decryption under the same key and IV undoes CBC encryption over a
// multi-block buffer, and the chaining field tracks the last ciphertext
// block on both sides.
#[test]
fn cbc_round_trip_multi_block() {
    let key = "603deb1015ca71be2b73aef0857d77811f352c073b6108d72d9810a30914dff4";
    let iv = "000102030405060708090a0b0c0d0e0f";
    let plain = "6bc1bee22e409f96e93d7e117393172aae2d8a571e03ac9c9eb76fac45af8e51\
                 30c81c46a35ce411e5fbc1191a0a52ef";
    let mut aes = new_aes(Size::AES256, Mode::CBC, key, iv);
    let mut buf = as_vec(plain);
    assert_eq!(aes_cbc_encrypt_buffer(&mut aes, &mut buf), Ok(()));
    assert_ne!(buf, as_vec(plain));
    let last_cipher_block = buf[32..48].to_vec();
    assert_eq!(aes.iv().to_vec(), last_cipher_block);
    assert_eq!(aes.set_iv(as_vec(iv).as_slice()), Ok(()));
    assert_eq!(aes_cbc_decrypt_buffer(&mut aes, &mut buf), Ok(()));
    assert_eq!(buf, as_vec(plain));
    assert_eq!(aes.iv().to_vec(), last_cipher_block);
}

// CTR run twice from the same starting counter gives the buffer back,
// including a final partial block.
#[test]
fn ctr_round_trip_partial_length() {
    let key = "8e73b0f7da0e6452c810f32b809079e562f8ead2522c6b7b";
    let iv = "f0f1f2f3f4f5f6f7f8f9fafbfcfdfeff";
    let plain: Vec<u8> = (0u8..37u8).collect();
    let mut aes = new_aes(Size::AES192, Mode::CTR, key, iv);
    let mut buf = plain.clone();
    aes_ctr_xcrypt_buffer(&mut aes, &mut buf);
    assert_ne!(buf, plain);
    assert_eq!(aes.set_iv(as_vec(iv).as_slice()), Ok(()));
    aes_ctr_xcrypt_buffer(&mut aes, &mut buf);
    assert_eq!(buf, plain);
}

// A 20-byte CTR buffer is the first 20 bytes of the SP800-38A F.5.1
// ciphertext stream: one whole block and one partial block.
#[test]
fn ctr_partial_block_known_answer() {
    let key = "2b7e151628aed2a6abf7158809cf4f3c";
    let iv = "f0f1f2f3f4f5f6f7f8f9fafbfcfdfeff";
    let mut aes = new_aes(Size::AES128, Mode::CTR, key, iv);
    let mut buf = as_vec("6bc1bee22e409f96e93d7e117393172aae2d8a57");
    aes_ctr_xcrypt_buffer(&mut aes, &mut buf);
    assert_eq!(buf, as_vec("874d6191b620e3261bef6864990db6ce9806f66b"));
    // Two chunks were consumed, so the counter stepped twice.
    assert_eq!(aes.iv().to_vec(), as_vec("f0f1f2f3f4f5f6f7f8f9fafbfcfdff01"));
}

// Incrementing an all-0xff counter wraps it to all-0x00: after one CTR
// chunk under an all-0xff counter the context holds the zero counter.
#[test]
fn counter_wraps_to_zero() {
    let key = "2b7e151628aed2a6abf7158809cf4f3c";
    let mut aes = new_aes(Size::AES128, Mode::CTR, key, "ffffffffffffffffffffffffffffffff");
    let mut buf = vec![0u8; 16];
    aes_ctr_xcrypt_buffer(&mut aes, &mut buf);
    assert_eq!(aes.iv().to_vec(), vec![0u8; 16]);
}

// A byte-wise carry stops at the first byte below 0xff.
#[test]
fn counter_carry_stops() {
    let key = "2b7e151628aed2a6abf7158809cf4f3c";
    let mut aes = new_aes(Size::AES128, Mode::CTR, key, "00000000000000000000000000feffff");
    let mut buf = vec![0u8; 16];
    aes_ctr_xcrypt_buffer(&mut aes, &mut buf);
    assert_eq!(aes.iv().to_vec(), as_vec("00000000000000000000000000ff0000"));
}

// ECB and CBC reject a buffer that is not a whole number of blocks and
// leave it untouched.
#[test]
fn block_modes_reject_unaligned_buffer() {
    let key = "2b7e151628aed2a6abf7158809cf4f3c";
    let iv = "000102030405060708090a0b0c0d0e0f";
    let aes = new_aes(Size::AES128, Mode::ECB, key, iv);
    let mut buf: Vec<u8> = (0u8..17u8).collect();
    let copy = buf.clone();
    assert_eq!(aes_ecb_encrypt(&aes, &mut buf), Err(AesError::BufferLength));
    assert_eq!(buf, copy);
    assert_eq!(aes_ecb_decrypt(&aes, &mut buf), Err(AesError::BufferLength));
    assert_eq!(buf, copy);
    let mut aes = new_aes(Size::AES128, Mode::CBC, key, iv);
    assert_eq!(aes_cbc_encrypt_buffer(&mut aes, &mut buf), Err(AesError::BufferLength));
    assert_eq!(buf, copy);
    assert_eq!(aes_cbc_decrypt_buffer(&mut aes, &mut buf), Err(AesError::BufferLength));
    assert_eq!(buf, copy);
    assert_eq!(aes.iv().to_vec(), as_vec(iv));
}

// A key whose length does not match the variant is rejected, as is an IV
// that is not 16 bytes, at construction and at re-keying.
#[test]
fn construction_rejects_bad_lengths() {
    let key128 = as_vec("2b7e151628aed2a6abf7158809cf4f3c");
    let iv = as_vec("000102030405060708090a0b0c0d0e0f");
    let short_key = as_vec("2b7e151628aed2a6abf7158809cf4f");
    let short_iv = as_vec("000102030405060708090a0b0c0d0e");
    assert!(matches!(
        AES::new(Size::AES128, Mode::ECB, short_key.as_slice(), iv.as_slice()),
        Err(AesError::KeyLength)
    ));
    assert!(matches!(
        AES::new(Size::AES192, Mode::ECB, key128.as_slice(), iv.as_slice()),
        Err(AesError::KeyLength)
    ));
    assert!(matches!(
        AES::new(Size::AES128, Mode::CBC, key128.as_slice(), short_iv.as_slice()),
        Err(AesError::IvLength)
    ));
    let mut aes = new_aes(Size::AES128, Mode::CBC, "2b7e151628aed2a6abf7158809cf4f3c",
        "000102030405060708090a0b0c0d0e0f");
    assert_eq!(aes.set_iv(short_iv.as_slice()), Err(AesError::IvLength));
    assert_eq!(aes.iv().to_vec(), iv);
}

// Empty buffers are accepted by every mode and leave the chaining field
// alone.
#[test]
fn empty_buffers_are_no_ops() {
    let key = "2b7e151628aed2a6abf7158809cf4f3c";
    let iv = "000102030405060708090a0b0c0d0e0f";
    let mut aes = new_aes(Size::AES128, Mode::CBC, key, iv);
    let mut buf: Vec<u8> = Vec::new();
    assert_eq!(aes_ecb_encrypt(&aes, &mut buf), Ok(()));
    assert_eq!(aes_cbc_encrypt_buffer(&mut aes, &mut buf), Ok(()));
    assert_eq!(aes_cbc_decrypt_buffer(&mut aes, &mut buf), Ok(()));
    aes_ctr_xcrypt_buffer(&mut aes, &mut buf);
    assert!(buf.is_empty());
    assert_eq!(aes.iv().to_vec(), as_vec(iv));
}

// GF(2^8) arithmetic examples from FIPS-197 section 4.2.
#[test]
fn gf_arithmetic_examples() {
    assert_eq!(xtime(0x57), 0xae);
    assert_eq!(xtime(0xae), 0x47);
    assert_eq!(xtime(0x47), 0x8e);
    assert_eq!(xtime(0x8e), 0x07);
    assert_eq!(multiply(0x57, 0x13), 0xfe);
    assert_eq!(multiply(0x57, 0x01), 0x57);
    assert_eq!(multiply(0x00, 0x13), 0x00);
}

// Substitution-box spot checks, and the boxes invert one another on
// every byte value.
#[test]
fn sbox_tables_invert() {
    assert_eq!(get_sbox_value(0x00), 0x63);
    assert_eq!(get_sbox_value(0x53), 0xed);
    assert_eq!(get_sbox_invert(0x63), 0x00);
    assert_eq!(get_sbox_invert(0xed), 0x53);
    for b in 0u16..256u16 {
        assert_eq!(get_sbox_invert(get_sbox_value(b as u8)), b as u8);
        assert_eq!(get_sbox_value(get_sbox_invert(b as u8)), b as u8);
    }
}
