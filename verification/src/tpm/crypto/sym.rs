//! Symmetric encryption.

use vstd::prelude::*;

use super::aes::{aes_key, decrypted_block, encrypted_block, xor, xored, Aes};
use super::aes_inverse::law_a_block_decrypts_to_what_was_encrypted;
use super::hmac::{kdfa, kdfa_bytes};
use crate::tpm::constants::{alg, rc};
use crate::tpm::crypto::hash::supported;
use crate::tpm::error::{TpmRc, TpmResult};
use crate::util::bytes::{sub_vec, to_vec};

verus! {

/// The label of XOR obfuscation.
pub const LABEL_XOR: [u8; 3] = [0x58, 0x4F, 0x52];

/// Which way data goes through a cipher.
#[derive(Debug, Clone, Copy, PartialEq, Eq, Structural)]
pub enum Direction {
    Encrypt,
    Decrypt,
}

/// True for a block cipher mode this TPM implements.
pub open spec fn spec_is_supported_mode(mode: u16) -> bool {
    mode == alg::CFB || mode == alg::CTR || mode == alg::OFB || mode == alg::CBC || mode == alg::ECB
}

/// True for a block cipher mode this TPM implements.
#[verifier::when_used_as_spec(spec_is_supported_mode)]
pub fn is_supported_mode(mode: u16) -> (r: bool)
    ensures
        r == spec_is_supported_mode(mode),
{
    mode == alg::CFB || mode == alg::CTR || mode == alg::OFB || mode == alg::CBC || mode == alg::ECB
}

/// Octets in a block of a cipher, or TPM_RC_SYMMETRIC.
pub fn block_size(algorithm: u16) -> (r: TpmResult<usize>)
    ensures
        r is Ok <==> algorithm == alg::AES,
        r matches Ok(n) ==> n == 16,
        r matches Err(e) ==> e == TpmRc(rc::SYMMETRIC),
{
    if algorithm == alg::AES {
        Ok(16)
    } else {
        Err(TpmRc(rc::SYMMETRIC))
    }
}

/// A big endian number one further on, zero after the largest.
pub open spec fn incremented(s: Seq<u8>) -> Seq<u8>
    decreases s.len(),
{
    if s.len() == 0 {
        s
    } else if s.last() == 0xFF {
        incremented(s.drop_last()).push(0)
    } else {
        s.drop_last().push((s.last() + 1) as u8)
    }
}

/// Octets with zeros behind them, to make a block.
pub open spec fn padded_block(s: Seq<u8>) -> Seq<u8> {
    Seq::new(
        16,
        |i: int|
            if i < s.len() {
                s[i]
            } else {
                0u8
            },
    )
}

/// One block, or what is left of the data, and the chaining value after it.
pub open spec fn step(mode: u16, key: Seq<u8>, iv: Seq<u8>, block: Seq<u8>, d: Direction) -> (
    Seq<u8>,
    Seq<u8>,
) {
    if mode == alg::CFB {
        let out = xored(block, encrypted_block(key, iv));
        (
            out,
            padded_block(
                if d == Direction::Encrypt {
                    out
                } else {
                    block
                },
            ),
        )
    } else if mode == alg::CTR {
        (xored(block, encrypted_block(key, iv)), incremented(iv))
    } else if mode == alg::OFB {
        (xored(block, encrypted_block(key, iv)), encrypted_block(key, iv))
    } else if mode == alg::CBC {
        if d == Direction::Encrypt {
            let out = encrypted_block(key, xored(block, iv));
            (out, out)
        } else {
            (xored(decrypted_block(key, block), iv), block)
        }
    } else if d == Direction::Encrypt {
        (encrypted_block(key, block), iv)
    } else {
        (decrypted_block(key, block), iv)
    }
}

/// How much of the data the first step takes.
pub open spec fn first(n: nat) -> int {
    if n < 16 {
        n as int
    } else {
        16
    }
}

/// Data put through a cipher, and the chaining value at the end.
pub open spec fn crypted(mode: u16, key: Seq<u8>, iv: Seq<u8>, data: Seq<u8>, d: Direction) -> (
    Seq<u8>,
    Seq<u8>,
)
    decreases data.len(),
{
    if data.len() == 0 {
        (Seq::empty(), iv)
    } else {
        let n = first(data.len());
        let one = step(mode, key, iv, data.take(n), d);
        let rest = crypted(mode, key, one.1, data.skip(n), d);
        (one.0 + rest.0, rest.1)
    }
}

/// Whether data can be put through a cipher, and the code if not.
pub open spec fn crypt_check(
    algorithm: u16,
    mode: u16,
    key: Seq<u8>,
    iv: Seq<u8>,
    data: Seq<u8>,
) -> TpmResult<()> {
    if algorithm != alg::AES {
        Err(TpmRc(rc::SYMMETRIC))
    } else if !is_supported_mode(mode) {
        Err(TpmRc(rc::MODE))
    } else if !aes_key(key.len()) {
        Err(TpmRc(rc::KEY_SIZE))
    } else if mode != alg::ECB && iv.len() != 16 {
        Err(TpmRc(rc::SIZE))
    } else if (mode == alg::CBC || mode == alg::ECB) && data.len() % 16 != 0 {
        Err(TpmRc(rc::SIZE))
    } else {
        Ok(())
    }
}

fn increment(s: &[u8]) -> (r: Vec<u8>)
    ensures
        r@ == incremented(s@),
        r@.len() == s@.len(),
    decreases s@.len(),
{
    if s.len() == 0 {
        return to_vec(s);
    }
    let head: Vec<u8> = sub_vec(s, 0, s.len() - 1);
    assert(head@ =~= s@.drop_last());
    let last: u8 = s[s.len() - 1];
    if last == 0xFF {
        let mut out: Vec<u8> = increment(head.as_slice());
        out.push(0);
        out
    } else {
        let mut out: Vec<u8> = head;
        out.push(last + 1);
        out
    }
}

fn pad_block(s: &[u8]) -> (r: Vec<u8>)
    requires
        s@.len() <= 16,
    ensures
        r@ == padded_block(s@),
        r@.len() == 16,
{
    let mut out: Vec<u8> = to_vec(s);
    while out.len() < 16
        invariant
            s@.len() <= out@.len() <= 16,
            forall|i: int|
                0 <= i < out@.len() ==> #[trigger] out@[i] == (if i < s@.len() {
                    s@[i]
                } else {
                    0u8
                }),
        decreases 16 - out@.len(),
    {
        out.push(0);
    }
    assert(out@ =~= padded_block(s@));
    out
}

fn step_with(aes: &Aes, mode: u16, iv: &[u8], block: &[u8], d: Direction) -> (r: (Vec<u8>, Vec<u8>))
    requires
        aes_key(aes.key().len()),
        is_supported_mode(mode),
        mode != alg::ECB ==> iv@.len() == 16,
        block@.len() <= 16,
        mode == alg::CBC || mode == alg::ECB ==> block@.len() == 16,
    ensures
        (r.0@, r.1@) == step(mode, aes.key(), iv@, block@, d),
        r.0@.len() == block@.len(),
        mode != alg::ECB ==> r.1@.len() == 16,
{
    if mode == alg::CFB {
        let k: Vec<u8> = aes.encrypt(iv);
        let out: Vec<u8> = xor(block, k.as_slice());
        let next: Vec<u8> = match d {
            Direction::Encrypt => pad_block(out.as_slice()),
            Direction::Decrypt => pad_block(block),
        };
        (out, next)
    } else if mode == alg::CTR {
        let k: Vec<u8> = aes.encrypt(iv);
        (xor(block, k.as_slice()), increment(iv))
    } else if mode == alg::OFB {
        let k: Vec<u8> = aes.encrypt(iv);
        (xor(block, k.as_slice()), k)
    } else if mode == alg::CBC {
        match d {
            Direction::Encrypt => {
                let x: Vec<u8> = xor(block, iv);
                let out: Vec<u8> = aes.encrypt(x.as_slice());
                let next: Vec<u8> = to_vec(out.as_slice());
                (out, next)
            },
            Direction::Decrypt => {
                let x: Vec<u8> = aes.decrypt(block);
                (xor(x.as_slice(), iv), to_vec(block))
            },
        }
    } else {
        match d {
            Direction::Encrypt => (aes.encrypt(block), to_vec(iv)),
            Direction::Decrypt => (aes.decrypt(block), to_vec(iv)),
        }
    }
}

/// Put data through a cipher. `iv` becomes the chaining value at the end.
pub fn crypt(
    algorithm: u16,
    mode: u16,
    key: &[u8],
    iv: &mut Vec<u8>,
    data: &[u8],
    d: Direction,
) -> (r: TpmResult<Vec<u8>>)
    ensures
        match crypt_check(algorithm, mode, key@, old(iv)@, data@) {
            Ok(_) => r is Ok && (r->Ok_0@, final(iv)@) == crypted(mode, key@, old(iv)@, data@, d)
                && r->Ok_0@.len() == data@.len() && final(iv)@.len() == old(iv)@.len(),
            Err(e) => r is Err && r->Err_0 == e && *final(iv) == *old(iv),
        },
{
    if algorithm != alg::AES {
        return Err(TpmRc(rc::SYMMETRIC));
    }
    if !is_supported_mode(mode) {
        return Err(TpmRc(rc::MODE));
    }
    let aes: Aes = match Aes::new(key) {
        Some(a) => a,
        None => {
            return Err(TpmRc(rc::KEY_SIZE));
        },
    };
    if mode != alg::ECB && iv.len() != 16 {
        return Err(TpmRc(rc::SIZE));
    }
    if (mode == alg::CBC || mode == alg::ECB) && data.len() % 16 != 0 {
        return Err(TpmRc(rc::SIZE));
    }
    let ghost whole = crypted(mode, key@, iv@, data@, d);
    let mut out: Vec<u8> = Vec::new();
    let mut at: usize = 0;
    assert(data@.skip(0) =~= data@);
    assert(out@ + whole.0 =~= whole.0);
    while at < data.len()
        invariant
            at <= data@.len(),
            out@.len() == at,
            aes.key() == key@,
            aes_key(key@.len()),
            is_supported_mode(mode),
            mode != alg::ECB ==> iv@.len() == 16,
            iv@.len() == old(iv)@.len(),
            mode == alg::CBC || mode == alg::ECB ==> data@.len() % 16 == 0 && at % 16 == 0,
            ({
                let rest = crypted(mode, key@, iv@, data@.skip(at as int), d);
                whole == (out@ + rest.0, rest.1)
            }),
        decreases data@.len() - at,
    {
        let left: usize = data.len() - at;
        let n: usize = if left < 16 {
            left
        } else {
            16
        };
        let block: Vec<u8> = sub_vec(data, at, at + n);
        let ghost rest = data@.skip(at as int);
        let ghost before = out@;
        assert(block@ =~= rest.take(n as int));
        assert(rest.skip(n as int) =~= data@.skip(at + n));
        let made: (Vec<u8>, Vec<u8>) = step_with(&aes, mode, iv.as_slice(), block.as_slice(), d);
        let mut piece: Vec<u8> = made.0;
        let ghost p = piece@;
        out.append(&mut piece);
        *iv = made.1;
        proof {
            let tail = crypted(mode, key@, iv@, data@.skip(at + n), d);
            assert(out@ =~= before + p);
            assert(before + (p + tail.0) =~= out@ + tail.0);
        }
        at = at + n;
    }
    proof {
        let rest = crypted(mode, key@, iv@, data@.skip(at as int), d);
        assert(out@ + rest.0 =~= out@);
    }
    Ok(out)
}

/// Encrypt with AES in CFB mode.
pub fn cfb_encrypt(key: &[u8], iv: &[u8], data: &[u8]) -> (r: TpmResult<Vec<u8>>)
    ensures
        match crypt_check(alg::AES, alg::CFB, key@, iv@, data@) {
            Ok(_) => r is Ok && r->Ok_0@ == crypted(
                alg::CFB,
                key@,
                iv@,
                data@,
                Direction::Encrypt,
            ).0 && r->Ok_0@.len() == data@.len(),
            Err(e) => r is Err && r->Err_0 == e,
        },
{
    let mut chain: Vec<u8> = to_vec(iv);
    crypt(alg::AES, alg::CFB, key, &mut chain, data, Direction::Encrypt)
}

/// Decrypt with AES in CFB mode.
pub fn cfb_decrypt(key: &[u8], iv: &[u8], data: &[u8]) -> (r: TpmResult<Vec<u8>>)
    ensures
        match crypt_check(alg::AES, alg::CFB, key@, iv@, data@) {
            Ok(_) => r is Ok && r->Ok_0@ == crypted(
                alg::CFB,
                key@,
                iv@,
                data@,
                Direction::Decrypt,
            ).0 && r->Ok_0@.len() == data@.len(),
            Err(e) => r is Err && r->Err_0 == e,
        },
{
    let mut chain: Vec<u8> = to_vec(iv);
    crypt(alg::AES, alg::CFB, key, &mut chain, data, Direction::Decrypt)
}

/// Data under XOR obfuscation.
pub open spec fn obfuscated(
    hash_alg: u16,
    key: Seq<u8>,
    newer: Seq<u8>,
    older: Seq<u8>,
    data: Seq<u8>,
) -> Seq<u8> {
    xored(data, kdfa(hash_alg, key, LABEL_XOR@, newer, older, (data.len() * 8) as u32))
}

/// Put data under XOR obfuscation, or take it out again.
pub fn xor_obfuscate(hash_alg: u16, key: &[u8], newer: &[u8], older: &[u8], data: &[u8]) -> (r:
    TpmResult<Vec<u8>>)
    requires
        data@.len() <= 0xFFFF,
    ensures
        r is Ok <==> supported(hash_alg),
        r matches Ok(v) ==> v@ == obfuscated(hash_alg, key@, newer@, older@, data@) && v@.len()
            == data@.len(),
        r matches Err(e) ==> e == TpmRc(rc::HASH),
{
    let mask: Vec<u8> = kdfa_bytes(
        hash_alg,
        key,
        LABEL_XOR.as_slice(),
        newer,
        older,
        (data.len() * 8) as u32,
    )?;
    Ok(xor(data, mask.as_slice()))
}

proof fn lemma_xor_twice(a: Seq<u8>, k: Seq<u8>)
    requires
        a.len() <= k.len(),
    ensures
        xored(xored(a, k), k) == a,
        xored(a, k).len() == a.len(),
{
    assert forall|i: int| 0 <= i < a.len() implies (a[i] ^ k[i]) ^ k[i] == a[i] by {
        let x = a[i];
        let y = k[i];
        assert((x ^ y) ^ y == x) by (bit_vector);
    }
    assert(xored(xored(a, k), k) =~= a);
}

/// What a mode encrypts, the same mode decrypts again.
pub proof fn law_decryption_undoes_encryption(mode: u16, key: Seq<u8>, iv: Seq<u8>, data: Seq<u8>)
    requires
        crypt_check(alg::AES, mode, key, iv, data) is Ok,
    ensures
        crypted(mode, key, iv, data, Direction::Encrypt).0.len() == data.len(),
        crypted(
            mode,
            key,
            iv,
            crypted(mode, key, iv, data, Direction::Encrypt).0,
            Direction::Decrypt,
        ).0 == data,
    decreases data.len(),
{
    if data.len() > 0 {
        let n = first(data.len());
        let block = data.take(n);
        let e = step(mode, key, iv, block, Direction::Encrypt);
        let rest = crypted(mode, key, e.1, data.skip(n), Direction::Encrypt);
        let cipher = e.0 + rest.0;
        if mode == alg::CBC {
            law_a_block_decrypts_to_what_was_encrypted(key, xored(block, iv));
            lemma_xor_twice(block, iv);
        } else if mode == alg::ECB {
            law_a_block_decrypts_to_what_was_encrypted(key, block);
        } else {
            lemma_xor_twice(block, encrypted_block(key, iv));
            lemma_incremented_len(iv);
        }
        law_decryption_undoes_encryption(mode, key, e.1, data.skip(n));
        assert(cipher.take(n) =~= e.0);
        assert(cipher.skip(n) =~= rest.0);
        assert(first(cipher.len()) == n);
        let d = step(mode, key, iv, cipher.take(n), Direction::Decrypt);
        assert(d.0 == block);
        assert(d.1 == e.1);
        assert(block + data.skip(n) =~= data);
    } else {
        assert(crypted(mode, key, iv, data, Direction::Encrypt).0 =~= data);
    }
}

proof fn lemma_incremented_len(s: Seq<u8>)
    ensures
        incremented(s).len() == s.len(),
    decreases s.len(),
{
    if s.len() > 0 {
        lemma_incremented_len(s.drop_last());
    }
}

/// Obfuscating twice gives the data back.
pub proof fn law_obfuscation_undoes_itself(
    hash_alg: u16,
    key: Seq<u8>,
    newer: Seq<u8>,
    older: Seq<u8>,
    data: Seq<u8>,
)
    requires
        supported(hash_alg),
        data.len() <= 0xFFFF,
    ensures
        obfuscated(
            hash_alg,
            key,
            newer,
            older,
            obfuscated(hash_alg, key, newer, older, data),
        ) == data,
{
    let bits = (data.len() * 8) as u32;
    super::hmac::lemma_kdfa_len(hash_alg, key, LABEL_XOR@, newer, older, bits);
    lemma_xor_twice(data, kdfa(hash_alg, key, LABEL_XOR@, newer, older, bits));
}

/// True for a key that no cipher should be given: an AES key whose upper half
/// is zero.
pub open spec fn weak_key(algorithm: u16, key: Seq<u8>) -> bool {
    algorithm == alg::AES && forall|i: int| 0 <= i < key.len() / 2 ==> #[trigger] key[i] == 0
}

/// True for a key that no cipher should be given.
pub fn is_weak_key(algorithm: u16, key: &[u8]) -> (r: bool)
    ensures
        r == weak_key(algorithm, key@),
{
    if algorithm != alg::AES {
        return false;
    }
    let mut i: usize = 0;
    while i < key.len() / 2
        invariant
            i <= key@.len() / 2,
            forall|k: int| 0 <= k < i ==> #[trigger] key@[k] == 0,
        decreases key@.len() / 2 - i,
    {
        if key[i] != 0 {
            assert(key@[i as int] != 0);
            return false;
        }
        i = i + 1;
    }
    true
}

} // verus!
