//! Self tests: every algorithm is run on an input whose answer is known.

use vstd::prelude::*;

use crate::tpm::constants::{alg, rc};
use crate::tpm::crypto::bn::{number_of, BigNum};
use crate::tpm::crypto::ecc::{self, EccKey};
use crate::tpm::crypto::rsa::{self, RsaPrivate};
use crate::tpm::error::{TpmRc, TpmResult};
use crate::tpm::crypto::hash::{digest, hash_of};
use crate::tpm::crypto::hmac::{hmac, hmac_of};
use crate::tpm::crypto::sym::{crypt, crypted, Direction};
use crate::util::bytes::{constant_time_eq, to_vec};

verus! {

/// The message the hash tests run on, "abc".
pub const MESSAGE: [u8; 3] = [0x61, 0x62, 0x63];

pub const SHA1_ANSWER: [u8; 20] = [
    0xa9, 0x99, 0x3e, 0x36, 0x47, 0x06, 0x81, 0x6a, 0xba, 0x3e, 0x25, 0x71, 0x78, 0x50, 0xc2, 0x6c,
    0x9c, 0xd0, 0xd8, 0x9d,
];

pub const SHA256_ANSWER: [u8; 32] = [
    0xba, 0x78, 0x16, 0xbf, 0x8f, 0x01, 0xcf, 0xea, 0x41, 0x41, 0x40, 0xde, 0x5d, 0xae, 0x22, 0x23,
    0xb0, 0x03, 0x61, 0xa3, 0x96, 0x17, 0x7a, 0x9c, 0xb4, 0x10, 0xff, 0x61, 0xf2, 0x00, 0x15, 0xad,
];

pub const SHA384_ANSWER: [u8; 48] = [
    0xcb, 0x00, 0x75, 0x3f, 0x45, 0xa3, 0x5e, 0x8b, 0xb5, 0xa0, 0x3d, 0x69, 0x9a, 0xc6, 0x50, 0x07,
    0x27, 0x2c, 0x32, 0xab, 0x0e, 0xde, 0xd1, 0x63, 0x1a, 0x8b, 0x60, 0x5a, 0x43, 0xff, 0x5b, 0xed,
    0x80, 0x86, 0x07, 0x2b, 0xa1, 0xe7, 0xcc, 0x23, 0x58, 0xba, 0xec, 0xa1, 0x34, 0xc8, 0x25, 0xa7,
];

pub const SHA512_ANSWER: [u8; 64] = [
    0xdd, 0xaf, 0x35, 0xa1, 0x93, 0x61, 0x7a, 0xba, 0xcc, 0x41, 0x73, 0x49, 0xae, 0x20, 0x41, 0x31,
    0x12, 0xe6, 0xfa, 0x4e, 0x89, 0xa9, 0x7e, 0xa2, 0x0a, 0x9e, 0xee, 0xe6, 0x4b, 0x55, 0xd3, 0x9a,
    0x21, 0x92, 0x99, 0x2a, 0x27, 0x4f, 0xc1, 0xa8, 0x36, 0xba, 0x3c, 0x23, 0xa3, 0xfe, 0xeb, 0xbd,
    0x45, 0x4d, 0x44, 0x23, 0x64, 0x3c, 0xe8, 0x0e, 0x2a, 0x9a, 0xc9, 0x4f, 0xa5, 0x4c, 0xa4, 0x9f,
];

/// The key and the message of the HMAC test: twenty octets 0x0b and "Hi There".
pub const HMAC_KEY: [u8; 20] = [
    0x0b, 0x0b, 0x0b, 0x0b, 0x0b, 0x0b, 0x0b, 0x0b, 0x0b, 0x0b, 0x0b, 0x0b, 0x0b, 0x0b, 0x0b, 0x0b,
    0x0b, 0x0b, 0x0b, 0x0b,
];

pub const HMAC_MESSAGE: [u8; 8] = [0x48, 0x69, 0x20, 0x54, 0x68, 0x65, 0x72, 0x65];

pub const HMAC_ANSWER: [u8; 32] = [
    0xb0, 0x34, 0x4c, 0x61, 0xd8, 0xdb, 0x38, 0x53, 0x5c, 0xa8, 0xaf, 0xce, 0xaf, 0x0b, 0xf1, 0x2b,
    0x88, 0x1d, 0xc2, 0x00, 0xc9, 0x83, 0x3d, 0xa7, 0x26, 0xe9, 0x37, 0x6c, 0x2e, 0x32, 0xcf, 0xf7,
];

/// The cipher test: AES-128 in CFB mode, one block.
pub const AES_KEY: [u8; 16] = [
    0x2b, 0x7e, 0x15, 0x16, 0x28, 0xae, 0xd2, 0xa6, 0xab, 0xf7, 0x15, 0x88, 0x09, 0xcf, 0x4f, 0x3c,
];

pub const AES_IV: [u8; 16] = [
    0x00, 0x01, 0x02, 0x03, 0x04, 0x05, 0x06, 0x07, 0x08, 0x09, 0x0a, 0x0b, 0x0c, 0x0d, 0x0e, 0x0f,
];

pub const AES_PLAIN: [u8; 16] = [
    0x6b, 0xc1, 0xbe, 0xe2, 0x2e, 0x40, 0x9f, 0x96, 0xe9, 0x3d, 0x7e, 0x11, 0x73, 0x93, 0x17, 0x2a,
];

pub const AES_CIPHER: [u8; 16] = [
    0x3b, 0x3f, 0xd9, 0x2e, 0xb7, 0x2d, 0xad, 0x20, 0x33, 0x34, 0x49, 0xf8, 0xe8, 0x3c, 0xfb, 0x4a,
];

/// The algorithms a known answer test covers.
pub const TESTED: [u16; 8] = [
    alg::SHA1,
    alg::HMAC,
    alg::AES,
    alg::KEYEDHASH,
    alg::SHA256,
    alg::SHA384,
    alg::SHA512,
    alg::CFB,
];

/// The name of the test that failed.
#[derive(Debug)]
pub struct Failure(pub Vec<u8>);

/// "hash"
pub const NAME_HASH: [u8; 4] = [0x68, 0x61, 0x73, 0x68];

/// "hmac"
pub const NAME_HMAC: [u8; 4] = [0x68, 0x6d, 0x61, 0x63];

/// "cipher"
pub const NAME_CIPHER: [u8; 6] = [0x63, 0x69, 0x70, 0x68, 0x65, 0x72];

/// "integrity"
pub const NAME_INTEGRITY: [u8; 9] = [0x69, 0x6e, 0x74, 0x65, 0x67, 0x72, 0x69, 0x74, 0x79];

/// The hash functions answer as they should.
pub open spec fn hashes_hold() -> bool {
    &&& hash_of(alg::SHA1, MESSAGE@) == SHA1_ANSWER@
    &&& hash_of(alg::SHA256, MESSAGE@) == SHA256_ANSWER@
    &&& hash_of(alg::SHA384, MESSAGE@) == SHA384_ANSWER@
    &&& hash_of(alg::SHA512, MESSAGE@) == SHA512_ANSWER@
}

/// The HMAC answers as it should.
pub open spec fn hmac_holds() -> bool {
    hmac_of(alg::SHA256, HMAC_KEY@, HMAC_MESSAGE@) == HMAC_ANSWER@
}

/// The cipher answers as it should, in both directions.
pub open spec fn cipher_holds() -> bool {
    &&& crypted(alg::CFB, AES_KEY@, AES_IV@, AES_PLAIN@, Direction::Encrypt).0 == AES_CIPHER@
    &&& crypted(alg::CFB, AES_KEY@, AES_IV@, AES_CIPHER@, Direction::Decrypt).0 == AES_PLAIN@
}

/// The name of the first known answer test that fails.
pub open spec fn failing_test() -> Option<Seq<u8>> {
    if !hashes_hold() {
        Some(NAME_HASH@)
    } else if !hmac_holds() {
        Some(NAME_HMAC@)
    } else if !cipher_holds() {
        Some(NAME_CIPHER@)
    } else {
        None
    }
}

fn hash_test(hash_alg: u16, answer: &[u8]) -> (r: bool)
    requires
        crate::tpm::crypto::hash::supported(hash_alg),
    ensures
        r == (hash_of(hash_alg, MESSAGE@) == answer@),
{
    match digest(hash_alg, MESSAGE.as_slice()) {
        Ok(d) => constant_time_eq(d.as_slice(), answer),
        Err(_) => false,
    }
}

fn hmac_test() -> (r: bool)
    ensures
        r == hmac_holds(),
{
    match hmac(alg::SHA256, HMAC_KEY.as_slice(), HMAC_MESSAGE.as_slice()) {
        Ok(d) => constant_time_eq(d.as_slice(), HMAC_ANSWER.as_slice()),
        Err(_) => false,
    }
}

fn cipher_test(input: &[u8], answer: &[u8], d: Direction) -> (r: bool)
    ensures
        r == (crypted(alg::CFB, AES_KEY@, AES_IV@, input@, d).0 == answer@),
{
    let mut iv: Vec<u8> = to_vec(AES_IV.as_slice());
    match crypt(alg::AES, alg::CFB, AES_KEY.as_slice(), &mut iv, input, d) {
        Ok(out) => constant_time_eq(out.as_slice(), answer),
        Err(_) => false,
    }
}

/// Run every known answer test.
pub fn known_answer_tests() -> (r: Result<(), Failure>)
    ensures
        match failing_test() {
            None => r is Ok,
            Some(name) => r is Err && r->Err_0.0@ == name,
        },
{
    let hashes: bool = hash_test(alg::SHA1, SHA1_ANSWER.as_slice()) && hash_test(
        alg::SHA256,
        SHA256_ANSWER.as_slice(),
    ) && hash_test(alg::SHA384, SHA384_ANSWER.as_slice()) && hash_test(
        alg::SHA512,
        SHA512_ANSWER.as_slice(),
    );
    if !hashes {
        return Err(Failure(to_vec(NAME_HASH.as_slice())));
    }
    if !hmac_test() {
        return Err(Failure(to_vec(NAME_HMAC.as_slice())));
    }
    let cipher: bool = cipher_test(
        AES_PLAIN.as_slice(),
        AES_CIPHER.as_slice(),
        Direction::Encrypt,
    ) && cipher_test(AES_CIPHER.as_slice(), AES_PLAIN.as_slice(), Direction::Decrypt);
    if !cipher {
        return Err(Failure(to_vec(NAME_CIPHER.as_slice())));
    }
    Ok(())
}

/// The digest of the running image, where the platform measured it.
pub fn integrity(image_digest: &Option<Vec<u8>>) -> (r: Result<Vec<u8>, Failure>)
    ensures
        match image_digest {
            Some(d) => r is Ok && r->Ok_0@ == d@,
            None => r is Err && r->Err_0.0@ == NAME_INTEGRITY@,
        },
{
    match image_digest {
        Some(d) => Ok(to_vec(d.as_slice())),
        None => Err(Failure(to_vec(NAME_INTEGRITY.as_slice()))),
    }
}

/// True for an algorithm that a known answer test covers.
pub fn is_tested(alg_id: u16) -> (r: bool)
    ensures
        r == TESTED@.contains(alg_id),
{
    let mut i: usize = 0;
    while i < TESTED.len()
        invariant
            i <= TESTED@.len(),
            forall|j: int| 0 <= j < i ==> TESTED@[j] != alg_id,
        decreases TESTED@.len() - i,
    {
        if TESTED[i] == alg_id {
            assert(TESTED@[i as int] == alg_id);
            return true;
        }
        i = i + 1;
    }
    false
}

/// Test a new RSA key pair before it is used. One that is for neither signing
/// nor decryption is not tested.
pub fn pairwise_rsa(key: &RsaPrivate, signs: bool, decrypts: bool) -> (r: TpmResult<()>)
    requires
        key.wf(),
    ensures
        r is Ok <==> (signs || decrypts ==> rsa::pair_works(key.n(), key.e(), key.d())),
        r is Err ==> r->Err_0 == TpmRc(rc::FAILURE),
{
    if (signs || decrypts) && !rsa::test_pair(key) {
        return Err(TpmRc(rc::FAILURE));
    }
    Ok(())
}

/// Test a new ECC key pair before it is used. The public point is computed
/// again whatever the key is for, and a signing key also signs.
pub fn pairwise_ecc(key: &EccKey, signs: bool) -> (r: TpmResult<()>)
    requires
        key.curve.wf(),
    ensures
        r is Ok <==> ecc::pair_works(
            key.curve.model(),
            key.private@,
            number_of(key.public_x@),
            number_of(key.public_y@),
            signs,
        ),
        r is Err ==> r->Err_0 == TpmRc(rc::FAILURE),
{
    let x: BigNum = BigNum::from_bytes(key.public_x.as_slice());
    let y: BigNum = BigNum::from_bytes(key.public_y.as_slice());
    if !ecc::test_pair(&key.curve, &key.private, &x, &y, signs) {
        return Err(TpmRc(rc::FAILURE));
    }
    Ok(())
}

} // verus!
