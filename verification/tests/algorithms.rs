//! Known answers of the algorithms.

use swtrust::tpm::constants::{alg, curve, rc};
use swtrust::tpm::crypto::aes::Aes;
use swtrust::tpm::crypto::bn::BigNum;
use swtrust::tpm::crypto::ecc::{ecdh, ecdsa_sign, ecdsa_verify, generate, Curve};
use swtrust::tpm::crypto::hash::{digest, digest_size, is_supported};
use swtrust::tpm::crypto::hmac::{hmac, kdfa_bytes, kdfe};
use swtrust::tpm::crypto::rand::{Drbg, Rng, SeededRng};
use swtrust::tpm::crypto::rsa::{private_op, public_op, RsaPrivate};
use swtrust::tpm::crypto::sym::{cfb_decrypt, cfb_encrypt, crypt, is_weak_key, Direction};
use swtrust::tpm::error::TpmRc;
use swtrust::util::text::{decode_hex, encode_hex};

fn octets(text: &str) -> Vec<u8> {
    decode_hex(text).unwrap()
}

#[test]
fn digests_of_a_short_message() {
    assert_eq!(
        encode_hex(&digest(alg::SHA1, b"abc").unwrap()),
        "a9993e364706816aba3e25717850c26c9cd0d89d"
    );
    assert_eq!(
        encode_hex(&digest(alg::SHA256, b"abc").unwrap()),
        "ba7816bf8f01cfea414140de5dae2223b00361a396177a9cb410ff61f20015ad"
    );
    assert_eq!(
        encode_hex(&digest(alg::SHA384, b"abc").unwrap()),
        "cb00753f45a35e8bb5a03d699ac65007272c32ab0eded1631a8b605a43ff5bed\
         8086072ba1e7cc2358baeca134c825a7"
    );
    assert_eq!(
        encode_hex(&digest(alg::SHA512, b"abc").unwrap()),
        "ddaf35a193617abacc417349ae20413112e6fa4e89a97ea20a9eeee64b55d39a\
         2192992a274fc1a836ba3c23a3feebbd454d4423643ce80e2a9ac94fa54ca49f"
    );
    assert_eq!(
        encode_hex(&digest(alg::SHA256, b"").unwrap()),
        "e3b0c44298fc1c149afbf4c8996fb92427ae41e4649b934ca495991b7852b855"
    );
}

#[test]
fn digests_of_messages_around_a_block() {
    // One octet short of the padding limit, on it, and past the block.
    assert_eq!(
        encode_hex(&digest(alg::SHA256, &[0x61; 55]).unwrap()),
        "9f4390f8d30c2dd92ec9f095b65e2b9ae9b0a925a5258e241c9f1e910f734318"
    );
    assert_eq!(
        encode_hex(&digest(alg::SHA256, &[0x61; 56]).unwrap()),
        "b35439a4ac6f0948b6d6f9e3c6af0f5f590ce20f1bde7090ef7970686ec6738a"
    );
    assert_eq!(
        encode_hex(&digest(alg::SHA256, &[0x61; 64]).unwrap()),
        "ffe054fe7ae0cb6dc65c3af9b61d5209f439851db43d0ba5997337df154668eb"
    );
}

#[test]
fn a_hash_that_is_not_there_is_refused() {
    assert!(!is_supported(alg::NULL));
    assert_eq!(digest(alg::NULL, b"abc").unwrap_err(), TpmRc(rc::HASH));
    assert_eq!(digest_size(alg::NULL).unwrap_err(), TpmRc(rc::HASH));
    assert_eq!(hmac(alg::NULL, b"k", b"m").unwrap_err(), TpmRc(rc::HASH));
}

#[test]
fn a_keyed_hash_of_a_short_message() {
    assert_eq!(
        encode_hex(&hmac(alg::SHA256, b"Jefe", b"what do ya want for nothing?").unwrap()),
        "5bdcc146bf60754e6a042426089575c75a003f089d2739839dec58b964ec3843"
    );
    // A key longer than a block is hashed first.
    assert_eq!(
        encode_hex(
            &hmac(
                alg::SHA256,
                &[0xaa; 131],
                b"Test Using Larger Than Block-Size Key - Hash Key First"
            )
            .unwrap()
        ),
        "60e431591ee0b67f0d8a26aacbf5b77f8e0bc6213728c5140546040f0ee37f54"
    );
}

#[test]
fn the_first_block_of_a_derivation_is_one_keyed_hash() {
    let mut message = vec![0, 0, 0, 1];
    message.extend_from_slice(b"LABEL\0");
    message.extend_from_slice(b"left");
    message.extend_from_slice(b"right");
    message.extend_from_slice(&[0, 0, 1, 0]);
    assert_eq!(
        kdfa_bytes(alg::SHA256, b"key", b"LABEL", b"left", b"right", 256).unwrap(),
        hmac(alg::SHA256, b"key", &message).unwrap()
    );

    let mut message = vec![0, 0, 0, 1];
    message.extend_from_slice(b"shared");
    message.extend_from_slice(b"LABEL\0");
    message.extend_from_slice(b"u");
    message.extend_from_slice(b"v");
    assert_eq!(
        kdfe(alg::SHA256, b"shared", b"LABEL\0", b"u", b"v").unwrap(),
        digest(alg::SHA256, &message).unwrap()
    );
}

#[test]
fn a_block_cipher_of_a_known_block() {
    let plain = octets("00112233445566778899aabbccddeeff");
    for (key, cipher) in [
        (
            "000102030405060708090a0b0c0d0e0f",
            "69c4e0d86a7b0430d8cdb78070b4c55a",
        ),
        (
            "000102030405060708090a0b0c0d0e0f1011121314151617",
            "dda97ca4864cdfe06eaf70a0ec0d7191",
        ),
        (
            "000102030405060708090a0b0c0d0e0f101112131415161718191a1b1c1d1e1f",
            "8ea2b7ca516745bfeafc49904b496089",
        ),
    ] {
        let aes = Aes::new(&octets(key)).unwrap();
        assert_eq!(encode_hex(&aes.encrypt(&plain)), cipher);
        assert_eq!(aes.decrypt(&octets(cipher)), plain);
    }
    assert!(Aes::new(&[0u8; 15]).is_none());
}

#[test]
fn the_modes_of_a_block_cipher() {
    let key = octets("2b7e151628aed2a6abf7158809cf4f3c");
    let iv = octets("000102030405060708090a0b0c0d0e0f");
    let plain = octets("6bc1bee22e409f96e93d7e117393172aae2d8a571e03ac9c9eb76fac45af8e51");
    for (mode, start, cipher) in [
        (
            alg::CFB,
            iv.clone(),
            "3b3fd92eb72dad20333449f8e83cfb4ac8a64537a0b3a93fcde3cdad9f1ce58b",
        ),
        (
            alg::OFB,
            iv.clone(),
            "3b3fd92eb72dad20333449f8e83cfb4a7789508d16918f03f53c52dac54ed825",
        ),
        (
            alg::CBC,
            iv.clone(),
            "7649abac8119b246cee98e9b12e9197d5086cb9b507219ee95db113a917678b2",
        ),
        (
            alg::CTR,
            octets("f0f1f2f3f4f5f6f7f8f9fafbfcfdfeff"),
            "874d6191b620e3261bef6864990db6ce9806f66b7970fdff8617187bb9fffdff",
        ),
    ] {
        let mut at = start.clone();
        let out = crypt(alg::AES, mode, &key, &mut at, &plain, Direction::Encrypt).unwrap();
        assert_eq!(encode_hex(&out), cipher, "mode {mode:#x}");
        let mut at = start;
        let back = crypt(alg::AES, mode, &key, &mut at, &out, Direction::Decrypt).unwrap();
        assert_eq!(back, plain, "mode {mode:#x}");
    }
    let mut none = Vec::new();
    let out = crypt(alg::AES, alg::ECB, &key, &mut none, &plain, Direction::Encrypt).unwrap();
    assert_eq!(
        encode_hex(&out),
        "3ad77bb40d7a3660a89ecaf32466ef97f5d3d58503b9699de785895a96fdbaaf"
    );
    let short = cfb_encrypt(&key, &iv, b"not a block").unwrap();
    assert_eq!(cfb_decrypt(&key, &iv, &short).unwrap(), b"not a block");
    assert!(!is_weak_key(alg::AES, &key));
}

#[test]
fn twice_the_generator_of_a_curve() {
    let c = Curve::new(curve::NIST_P256).unwrap();
    let two = c.multiply_base(&BigNum::small(2));
    assert_eq!(
        encode_hex(&two.x().to_bytes_padded(32)),
        "7cf27b188d034f7e8a52380304b51ac3c08969e277f21b35a60b48fc47669978"
    );
    assert_eq!(
        encode_hex(&two.y().to_bytes_padded(32)),
        "07775510db8ed040293d9ac69f7430dbba7dade63ce982299e04b79d227873d1"
    );
    // The order takes the generator to infinity.
    assert!(c.multiply_base(&c.order()).is_infinite());
    assert_eq!(Curve::new(0xFFFF).map(|_| ()).unwrap_err(), TpmRc(rc::CURVE));
}

#[test]
fn two_parties_agree_on_a_secret() {
    let mut rng = Drbg::new(&[7u8; 48], b"agreement").unwrap();
    let a = generate(curve::NIST_P256, &mut rng).unwrap();
    let b = generate(curve::NIST_P256, &mut rng).unwrap();
    let c = Curve::new(curve::NIST_P256).unwrap();
    let one = ecdh(&c, &a.private, &b.public_x, &b.public_y).unwrap();
    let other = ecdh(&c, &b.private, &a.public_x, &a.public_y).unwrap();
    assert_eq!(one, other);
    // A point off the curve is refused.
    assert!(ecdh(&c, &a.private, &[1u8; 32], &[1u8; 32]).is_err());
}

#[test]
fn a_signature_verifies_and_a_changed_digest_does_not() {
    let mut rng = Drbg::new(&[9u8; 48], b"signature").unwrap();
    let key = generate(curve::NIST_P256, &mut rng).unwrap();
    let c = Curve::new(curve::NIST_P256).unwrap();
    let message = digest(alg::SHA256, b"message").unwrap();
    let signature = ecdsa_sign(&c, &key.private, &message, &mut rng).unwrap();
    let (x, y) = (&key.public_x, &key.public_y);
    ecdsa_verify(&c, x, y, &message, &signature).unwrap();
    let other = digest(alg::SHA256, b"another message").unwrap();
    assert_eq!(
        ecdsa_verify(&c, x, y, &other, &signature).unwrap_err(),
        TpmRc(rc::SIGNATURE)
    );
}

#[test]
fn an_rsa_operation_is_undone_by_the_other() {
    // 61 * 53 = 3233, with the exponent 17.
    let key = RsaPrivate::from_prime(&[0x0c, 0xa1], 17, &[61]).unwrap();
    let sealed = public_op(key.public(), &[0, 65]).unwrap();
    assert_eq!(sealed, vec![0x0a, 0xe6]);
    assert_eq!(private_op(&key, &sealed).unwrap(), vec![0, 65]);
}

#[test]
fn a_seeded_generator_repeats_itself() {
    let draw = |context: &[u8]| {
        SeededRng::new(alg::SHA256, &[1u8; 32], b"label", context)
            .unwrap()
            .bytes(40)
            .unwrap()
    };
    assert_eq!(draw(b"a"), draw(b"a"));
    assert_ne!(draw(b"a"), draw(b"b"));
}

#[test]
fn numbers_are_reduced_and_written_out() {
    let n = BigNum::from_bytes(&octets("0123456789abcdef0123456789abcdef"));
    assert_eq!(n.bits(), 121);
    assert_eq!(encode_hex(&n.to_bytes()), "0123456789abcdef0123456789abcdef");
    let m = BigNum::from_bytes(&octets("ffffffff00000001"));
    assert_eq!(encode_hex(&n.modulo(&m).to_bytes()), "8acf1355fedcba99");
    assert_eq!(
        encode_hex(&n.add_word(17).to_bytes_padded(18)),
        "00000123456789abcdef0123456789abce00"
    );
    assert_eq!(encode_hex(&BigNum::small(256).sub_word(1).to_bytes()), "ff");
}
