//! The encodings that RSA signs and encrypts.

use vstd::prelude::*;

use super::hash::{digest, digest_size, hash_of, lemma_hash_len, size_of, supported};
use super::rand::{draw, lemma_draw_len, Rng, RngModel};
use crate::tpm::constants::{alg, rc};
use crate::tpm::error::{TpmRc, TpmResult};
use crate::util::bytes::{octets32, push_be32, sub_vec, to_vec};

verus! {

/// What stands before a SHA-1 digest in a signature.
pub const INFO_SHA1: [u8; 15] = [
    0x30, 0x21, 0x30, 0x09, 0x06, 0x05, 0x2b, 0x0e, 0x03, 0x02, 0x1a, 0x05, 0x00, 0x04, 0x14,
];

/// What stands before a SHA-256 digest in a signature.
pub const INFO_SHA256: [u8; 19] = [
    0x30, 0x31, 0x30, 0x0d, 0x06, 0x09, 0x60, 0x86, 0x48, 0x01, 0x65, 0x03, 0x04, 0x02, 0x01, 0x05,
    0x00, 0x04, 0x20,
];

/// What stands before a SHA-384 digest in a signature.
pub const INFO_SHA384: [u8; 19] = [
    0x30, 0x41, 0x30, 0x0d, 0x06, 0x09, 0x60, 0x86, 0x48, 0x01, 0x65, 0x03, 0x04, 0x02, 0x02, 0x05,
    0x00, 0x04, 0x30,
];

/// What stands before a SHA-512 digest in a signature.
pub const INFO_SHA512: [u8; 19] = [
    0x30, 0x51, 0x30, 0x0d, 0x06, 0x09, 0x60, 0x86, 0x48, 0x01, 0x65, 0x03, 0x04, 0x02, 0x03, 0x05,
    0x00, 0x04, 0x40,
];

/// `n` octets of the same value.
pub open spec fn repeated(v: u8, n: nat) -> Seq<u8> {
    Seq::new(n, |i: int| v)
}

/// What stands before a digest in a signature.
pub open spec fn digest_info(h: u16) -> Seq<u8> {
    if h == alg::SHA1 {
        INFO_SHA1@
    } else if h == alg::SHA256 {
        INFO_SHA256@
    } else if h == alg::SHA384 {
        INFO_SHA384@
    } else {
        INFO_SHA512@
    }
}

/// A digest as the older signature scheme encodes it.
pub open spec fn signature_block(h: u16, d: Seq<u8>, size: nat) -> TpmResult<Seq<u8>> {
    if !supported(h) {
        Err(TpmRc(rc::HASH))
    } else if d.len() != size_of(h) || size < digest_info(h).len() + d.len() + 11 {
        Err(TpmRc(rc::SIZE))
    } else {
        Ok(
            seq![0u8, 1u8] + repeated(
                0xFF,
                (size - digest_info(h).len() - d.len() - 3) as nat,
            ) + seq![0u8] + digest_info(h) + d,
        )
    }
}

/// Two strings of octets added bit by bit.
pub open spec fn xored(a: Seq<u8>, b: Seq<u8>) -> Seq<u8> {
    Seq::new(a.len(), |i: int| a[i] ^ b[i])
}

/// The first `n` blocks of the mask that a seed generates.
pub open spec fn mask_blocks(h: u16, seed: Seq<u8>, n: nat) -> Seq<u8>
    decreases n,
{
    if n == 0 {
        Seq::empty()
    } else {
        mask_blocks(h, seed, (n - 1) as nat) + hash_of(h, seed + octets32((n - 1) as u32))
    }
}

/// The mask of `len` octets that a seed generates.
#[verifier::opaque]
pub open spec fn mask_of(h: u16, seed: Seq<u8>, len: nat) -> Seq<u8> {
    mask_blocks(h, seed, (len / size_of(h) + 1) as nat).take(len as int)
}

/// Where the first octet that is not zero stands, the length when there is none.
pub open spec fn first_nonzero(s: Seq<u8>, from: int) -> int
    decreases s.len() - from,
{
    if from < 0 || from >= s.len() || s[from] != 0 {
        from
    } else {
        first_nonzero(s, from + 1)
    }
}

/// Where the first octet of zero stands, the length when there is none.
pub open spec fn first_zero(s: Seq<u8>, from: int) -> int
    decreases s.len() - from,
{
    if from < 0 || from >= s.len() || s[from] == 0 {
        from
    } else {
        first_zero(s, from + 1)
    }
}

/// The data of an OAEP block before it is masked.
pub open spec fn oaep_data(h: u16, size: nat, message: Seq<u8>, label: Seq<u8>) -> Seq<u8> {
    hash_of(h, label) + repeated(0, (size - message.len() - 2 * size_of(h) - 2) as nat) + seq![1u8]
        + message
}

/// The OAEP block of a message with a given seed.
pub open spec fn oaep_block(h: u16, size: nat, message: Seq<u8>, label: Seq<u8>, seed: Seq<u8>)
    -> Seq<u8> {
    let data = xored(oaep_data(h, size, message, label), mask_of(h, seed, (size - size_of(h) - 1) as nat));
    seq![0u8] + xored(seed, mask_of(h, data, size_of(h))) + data
}

/// True when a message has room in an OAEP block.
pub open spec fn oaep_fits(h: u16, size: nat, message: Seq<u8>) -> bool {
    message.len() + 2 * size_of(h) + 2 <= size
}

/// Encoding a message for encryption, and what the generator is left with.
pub open spec fn oaep_encoded(
    h: u16,
    size: nat,
    message: Seq<u8>,
    label: Seq<u8>,
    m: RngModel,
) -> (TpmResult<Seq<u8>>, RngModel) {
    if !supported(h) {
        (Err(TpmRc(rc::HASH)), m)
    } else if !oaep_fits(h, size, message) {
        (Err(TpmRc(rc::VALUE)), m)
    } else {
        match draw(m, size_of(h)) {
            (Err(e), left) => (Err(e), left),
            (Ok(seed), left) => (Ok(oaep_block(h, size, message, label, seed)), left),
        }
    }
}

/// The data of an OAEP block after its mask is taken away.
pub open spec fn oaep_opened(h: u16, em: Seq<u8>) -> Seq<u8> {
    let n = size_of(h) as int;
    let masked = em.skip(1 + n);
    let seed = xored(em.subrange(1, 1 + n), mask_of(h, masked, n as nat));
    xored(masked, mask_of(h, seed, masked.len()))
}

/// The message that the opened data of an OAEP block holds.
pub open spec fn oaep_message(h: u16, first: u8, data: Seq<u8>, label: Seq<u8>) -> Option<
    Seq<u8>,
> {
    let n = size_of(h) as int;
    let at = first_nonzero(data, n);
    if first != 0 || data.take(n) != hash_of(h, label) || at >= data.len() || data[at] != 1 {
        None
    } else {
        Some(data.skip(at + 1))
    }
}

/// The message of an OAEP block.
pub open spec fn oaep_decoded(h: u16, em: Seq<u8>, label: Seq<u8>) -> TpmResult<Seq<u8>> {
    if !supported(h) {
        Err(TpmRc(rc::HASH))
    } else if em.len() < 2 * size_of(h) + 2 {
        Err(TpmRc(rc::VALUE))
    } else {
        match oaep_message(h, em[0], oaep_opened(h, em), label) {
            Some(m) => Ok(m),
            None => Err(TpmRc(rc::VALUE)),
        }
    }
}

/// How many octets a probabilistic signature block for a modulus of `bits`
/// takes.
pub open spec fn pss_len(bits: nat) -> nat {
    ((bits - 1 + 7) / 8) as nat
}

/// The low bits of the first octet that the modulus has room for.
pub open spec fn kept(v: u8, bits: nat) -> u8 {
    let spare = 8 * pss_len(bits) - (bits - 1);
    if spare == 0 {
        v
    } else if spare == 1 {
        v % 128
    } else if spare == 2 {
        v % 64
    } else if spare == 3 {
        v % 32
    } else if spare == 4 {
        v % 16
    } else if spare == 5 {
        v % 8
    } else if spare == 6 {
        v % 4
    } else {
        v % 2
    }
}

/// The hash that ends a probabilistic signature block.
pub open spec fn pss_hash(h: u16, d: Seq<u8>, salt: Seq<u8>) -> Seq<u8> {
    hash_of(h, repeated(0, 8) + d + salt)
}

/// The probabilistic signature block of a digest with a given salt.
pub open spec fn pss_block(h: u16, d: Seq<u8>, bits: nat, salt: Seq<u8>) -> Seq<u8> {
    let len = pss_len(bits);
    let tail = pss_hash(h, d, salt);
    let data = repeated(0, (len - salt.len() - size_of(h) - 2) as nat) + seq![1u8] + salt;
    let masked = xored(data, mask_of(h, tail, data.len()));
    masked.update(0, kept(masked[0], bits)) + tail + seq![0xBCu8]
}

/// Encoding a digest for a probabilistic signature, and what the generator is
/// left with.
pub open spec fn pss_encoded(h: u16, d: Seq<u8>, bits: nat, m: RngModel) -> (
    TpmResult<Seq<u8>>,
    RngModel,
) {
    if !supported(h) {
        (Err(TpmRc(rc::HASH)), m)
    } else if pss_len(bits) < 2 * size_of(h) + 2 {
        (Err(TpmRc(rc::SIZE)), m)
    } else {
        match draw(m, size_of(h)) {
            (Err(e), left) => (Err(e), left),
            (Ok(salt), left) => (Ok(pss_block(h, d, bits, salt)), left),
        }
    }
}

/// The data of a probabilistic signature block after its mask is taken away.
pub open spec fn pss_opened(h: u16, em: Seq<u8>, bits: nat) -> Seq<u8> {
    let n = em.len() - size_of(h) - 1;
    let tail = em.subrange(n, em.len() - 1);
    let data = xored(em.take(n), mask_of(h, tail, n as nat));
    data.update(0, kept(data[0], bits))
}

/// True when the block is a probabilistic signature block of the digest.
pub open spec fn pss_verifies(h: u16, d: Seq<u8>, em: Seq<u8>, bits: nat) -> bool {
    let n = em.len() - size_of(h) - 1;
    let tail = em.subrange(n, em.len() - 1);
    let data = pss_opened(h, em, bits);
    let at = first_nonzero(data, 0);
    &&& supported(h)
    &&& bits > 0
    &&& em.len() == pss_len(bits)
    &&& em.len() >= size_of(h) + 2
    &&& em.last() == 0xBC
    &&& kept(em[0], bits) == em[0]
    &&& at < data.len()
    &&& data[at] == 1
    &&& pss_hash(h, d, data.skip(at + 1)) == tail
}

/// An octet of filling, which is never zero.
pub open spec fn filling(v: u8) -> u8 {
    if v == 0 {
        0x55
    } else {
        v
    }
}

/// The older encryption block of a message with given filling.
pub open spec fn encryption_block(message: Seq<u8>, fill: Seq<u8>) -> Seq<u8> {
    seq![0u8, 2u8] + fill.map_values(|v: u8| filling(v)) + seq![0u8] + message
}

/// Padding a message for encryption, and what the generator is left with.
pub open spec fn encryption_padded(size: nat, message: Seq<u8>, m: RngModel) -> (
    TpmResult<Seq<u8>>,
    RngModel,
) {
    if message.len() + 11 > size {
        (Err(TpmRc(rc::VALUE)), m)
    } else {
        match draw(m, (size - message.len() - 3) as nat) {
            (Err(e), left) => (Err(e), left),
            (Ok(fill), left) => (Ok(encryption_block(message, fill)), left),
        }
    }
}

/// The message of an older encryption block.
pub open spec fn encryption_unpadded(em: Seq<u8>) -> TpmResult<Seq<u8>> {
    let at = first_zero(em, 2);
    if em.len() < 11 || em[0] != 0 || em[1] != 2 || at < 10 || at >= em.len() {
        Err(TpmRc(rc::VALUE))
    } else {
        Ok(em.skip(at + 1))
    }
}

proof fn lemma_blocks_len(h: u16, seed: Seq<u8>, n: nat)
    ensures
        mask_blocks(h, seed, n).len() == n * size_of(h),
    decreases n,
{
    broadcast use lemma_hash_len;

    if n > 0 {
        lemma_blocks_len(h, seed, (n - 1) as nat);
        let s = size_of(h);
        assert((n - 1) * s + s == n * s) by (nonlinear_arith);
    } else {
        assert(0 * size_of(h) == 0) by (nonlinear_arith);
    }
}

/// A mask is as long as it was asked to be.
pub proof fn lemma_mask_len(h: u16, seed: Seq<u8>, len: nat)
    requires
        supported(h),
    ensures
        mask_of(h, seed, len).len() == len,
        mask_blocks(h, seed, (len / size_of(h) + 1) as nat).len() >= len,
{
    reveal(mask_of);
    lemma_blocks_len(h, seed, (len / size_of(h) + 1) as nat);
    let s = size_of(h) as int;
    let l = len as int;
    assert((l / s + 1) * s >= l) by (nonlinear_arith)
        requires
            s > 0,
            l >= 0,
    ;
}

/// The mask of `len` octets that a seed generates.
fn mask(h: u16, seed: &[u8], len: usize) -> (r: Vec<u8>)
    requires
        supported(h),
        len <= 0xFFFF,
    ensures
        r@ == mask_of(h, seed@, len as nat),
        r@.len() == len,
{
    let size: usize = match digest_size(h) {
        Ok(n) => n,
        Err(_) => 20,
    };
    let blocks: usize = len / size + 1;
    let mut out: Vec<u8> = Vec::new();
    let mut i: usize = 0;
    assert(len / size <= len) by (nonlinear_arith)
        requires
            size >= 1,
            len >= 0,
    ;
    assert(out@ =~= mask_blocks(h, seed@, 0));
    while i < blocks
        invariant
            i <= blocks,
            blocks <= 0x1_0000,
            supported(h),
            out@ == mask_blocks(h, seed@, i as nat),
        decreases blocks - i,
    {
        let mut data: Vec<u8> = to_vec(seed);
        push_be32(&mut data, i as u32);
        assert(data@ =~= seed@ + octets32(i as u32));
        match digest(h, data.as_slice()) {
            Ok(d) => out.extend_from_slice(d.as_slice()),
            Err(_) => {},
        }
        assert(out@ =~= mask_blocks(h, seed@, (i + 1) as nat));
        i = i + 1;
    }
    proof {
        lemma_mask_len(h, seed@, len as nat);
        reveal(mask_of);
    }
    let ghost whole = out@;
    assert(blocks as nat == len as nat / size_of(h) + 1);
    out.truncate(len);
    assert(out@ =~= whole.take(len as int));
    out
}

/// Two strings of octets added bit by bit.
fn xor(a: &[u8], b: &[u8]) -> (r: Vec<u8>)
    requires
        a@.len() <= b@.len(),
    ensures
        r@ == xored(a@, b@),
        r@.len() == a@.len(),
{
    let mut out: Vec<u8> = Vec::new();
    let mut i: usize = 0;
    while i < a.len()
        invariant
            i <= a@.len(),
            a@.len() <= b@.len(),
            out@.len() == i,
            forall|k: int| 0 <= k < i ==> out@[k] == a@[k] ^ b@[k],
        decreases a@.len() - i,
    {
        out.push(a[i] ^ b[i]);
        i = i + 1;
    }
    assert(out@ =~= xored(a@, b@));
    out
}

/// Push `n` octets of the same value.
fn push_repeated(out: &mut Vec<u8>, v: u8, n: usize)
    ensures
        final(out)@ == old(out)@ + repeated(v, n as nat),
{
    let ghost start = out@;
    let mut i: usize = 0;
    assert(out@ =~= start + repeated(v, 0));
    while i < n
        invariant
            i <= n,
            out@ == start + repeated(v, i as nat),
        decreases n - i,
    {
        out.push(v);
        i = i + 1;
        assert(out@ =~= start + repeated(v, i as nat));
    }
}

/// Push what stands before a digest in a signature.
fn push_info(out: &mut Vec<u8>, h: u16)
    requires
        supported(h),
    ensures
        final(out)@ == old(out)@ + digest_info(h),
{
    if h == alg::SHA1 {
        out.extend_from_slice(INFO_SHA1.as_slice());
    } else if h == alg::SHA256 {
        out.extend_from_slice(INFO_SHA256.as_slice());
    } else if h == alg::SHA384 {
        out.extend_from_slice(INFO_SHA384.as_slice());
    } else {
        out.extend_from_slice(INFO_SHA512.as_slice());
    }
    assert(out@ =~= old(out)@ + digest_info(h));
}

/// Encode a digest as the older signature scheme does.
pub fn pkcs1v15_sign_encode(hash_alg: u16, digest: &[u8], size: usize) -> (r: TpmResult<Vec<u8>>)
    ensures
        match signature_block(hash_alg, digest@, size as nat) {
            Ok(s) => r is Ok && r->Ok_0@ == s && s.len() == size,
            Err(e) => r is Err && r->Err_0 == e,
        },
{
    let len: usize = digest_size(hash_alg)?;
    let info: usize = if hash_alg == alg::SHA1 {
        15
    } else {
        19
    };
    assert(info == digest_info(hash_alg).len());
    if digest.len() != len || size < info + digest.len() + 11 {
        return Err(TpmRc(rc::SIZE));
    }
    let mut out: Vec<u8> = Vec::new();
    out.push(0);
    out.push(1);
    push_repeated(&mut out, 0xFF, size - info - digest.len() - 3);
    out.push(0);
    push_info(&mut out, hash_alg);
    out.extend_from_slice(digest);
    assert(out@ =~= signature_block(hash_alg, digest@, size as nat)->Ok_0);
    Ok(out)
}

/// Where the first octet that is not zero stands.
fn find_nonzero(s: &[u8], from: usize) -> (r: usize)
    requires
        from <= s@.len(),
    ensures
        r == first_nonzero(s@, from as int),
        from <= r <= s@.len(),
{
    let mut i: usize = from;
    while i < s.len() && s[i] == 0
        invariant
            from <= i <= s@.len(),
            first_nonzero(s@, from as int) == first_nonzero(s@, i as int),
        decreases s@.len() - i,
    {
        i = i + 1;
    }
    i
}

/// Where the first octet of zero stands.
fn find_zero(s: &[u8], from: usize) -> (r: usize)
    requires
        from <= s@.len(),
    ensures
        r == first_zero(s@, from as int),
        from <= r <= s@.len(),
{
    let mut i: usize = from;
    while i < s.len() && s[i] != 0
        invariant
            from <= i <= s@.len(),
            first_zero(s@, from as int) == first_zero(s@, i as int),
        decreases s@.len() - i,
    {
        i = i + 1;
    }
    i
}

/// The hash of something short under a hash that is implemented.
fn hashed(h: u16, data: &[u8]) -> (r: Vec<u8>)
    requires
        supported(h),
    ensures
        r@ == hash_of(h, data@),
        r@.len() == size_of(h),
{
    broadcast use lemma_hash_len;

    match digest(h, data) {
        Ok(d) => d,
        Err(_) => Vec::new(),
    }
}

/// Encode a message for encryption.
pub fn oaep_encode<R: Rng>(hash_alg: u16, size: usize, message: &[u8], label: &[u8], rng: &mut R)
    -> (r: TpmResult<Vec<u8>>)
    requires
        size <= 0xFFFF,
        message@.len() <= 0xFFFF,
    ensures
        ({
            let out = oaep_encoded(hash_alg, size as nat, message@, label@, old(rng).model());
            &&& final(rng).model() == out.1
            &&& match out.0 {
                Ok(s) => r is Ok && r->Ok_0@ == s && s.len() == size,
                Err(e) => r is Err && r->Err_0 == e,
            }
        }),
{
    let len: usize = digest_size(hash_alg)?;
    if message.len() + 2 * len + 2 > size {
        return Err(TpmRc(rc::VALUE));
    }
    let seed: Vec<u8> = rng.bytes(len)?;
    let mut data: Vec<u8> = hashed(hash_alg, label);
    push_repeated(&mut data, 0, size - message.len() - 2 * len - 2);
    data.push(1);
    data.extend_from_slice(message);
    assert(data@ =~= oaep_data(hash_alg, size as nat, message@, label@));
    let data_mask: Vec<u8> = mask(hash_alg, seed.as_slice(), size - len - 1);
    let masked: Vec<u8> = xor(data.as_slice(), data_mask.as_slice());
    let seed_mask: Vec<u8> = mask(hash_alg, masked.as_slice(), len);
    let masked_seed: Vec<u8> = xor(seed.as_slice(), seed_mask.as_slice());
    let mut out: Vec<u8> = Vec::new();
    out.push(0);
    out.extend_from_slice(masked_seed.as_slice());
    out.extend_from_slice(masked.as_slice());
    assert(out@ =~= oaep_block(hash_alg, size as nat, message@, label@, seed@));
    Ok(out)
}

/// The message of a block that `oaep_encode` made.
pub fn oaep_decode(hash_alg: u16, em: &[u8], label: &[u8]) -> (r: TpmResult<Vec<u8>>)
    requires
        em@.len() <= 0xFFFF,
    ensures
        match oaep_decoded(hash_alg, em@, label@) {
            Ok(s) => r is Ok && r->Ok_0@ == s && s.len() <= em@.len(),
            Err(e) => r is Err && r->Err_0 == e,
        },
{
    let len: usize = digest_size(hash_alg)?;
    if em.len() < 2 * len + 2 {
        return Err(TpmRc(rc::VALUE));
    }
    let masked_seed: Vec<u8> = sub_vec(em, 1, 1 + len);
    let masked: Vec<u8> = sub_vec(em, 1 + len, em.len());
    assert(masked@ =~= em@.skip(1 + len));
    let seed_mask: Vec<u8> = mask(hash_alg, masked.as_slice(), len);
    let seed: Vec<u8> = xor(masked_seed.as_slice(), seed_mask.as_slice());
    let data_mask: Vec<u8> = mask(hash_alg, seed.as_slice(), masked.len());
    let data: Vec<u8> = xor(masked.as_slice(), data_mask.as_slice());
    assert(data@ == oaep_opened(hash_alg, em@));
    let expected: Vec<u8> = hashed(hash_alg, label);
    let found: Vec<u8> = sub_vec(data.as_slice(), 0, len);
    assert(found@ =~= data@.take(len as int));
    let at: usize = find_nonzero(data.as_slice(), len);
    if em[0] != 0 || !crate::util::bytes::constant_time_eq(found.as_slice(), expected.as_slice())
        || at >= data.len() || data[at] != 1 {
        return Err(TpmRc(rc::VALUE));
    }
    let message: Vec<u8> = sub_vec(data.as_slice(), at + 1, data.len());
    assert(message@ =~= data@.skip(at + 1));
    Ok(message)
}

/// The low bits of the first octet that the modulus has room for.
fn keep(v: u8, bits: usize) -> (r: u8)
    requires
        0 < bits <= 0xFFFF,
    ensures
        r == kept(v, bits as nat),
{
    let len: usize = (bits - 1 + 7) / 8;
    let spare: usize = 8 * len - (bits - 1);
    match spare {
        0 => v,
        1 => v % 128,
        2 => v % 64,
        3 => v % 32,
        4 => v % 16,
        5 => v % 8,
        6 => v % 4,
        _ => v % 2,
    }
}

/// The hash that ends a probabilistic signature block.
fn end_hash(h: u16, d: &[u8], salt: &[u8]) -> (r: Vec<u8>)
    requires
        supported(h),
    ensures
        r@ == pss_hash(h, d@, salt@),
        r@.len() == size_of(h),
{
    let mut data: Vec<u8> = Vec::new();
    push_repeated(&mut data, 0, 8);
    data.extend_from_slice(d);
    data.extend_from_slice(salt);
    assert(data@ =~= repeated(0, 8) + d@ + salt@);
    hashed(h, data.as_slice())
}

/// Encode a digest for a probabilistic signature with a modulus of `bits`.
pub fn pss_encode<R: Rng>(hash_alg: u16, digest: &[u8], bits: usize, rng: &mut R) -> (r: TpmResult<
    Vec<u8>,
>)
    requires
        0 < bits <= 0xFFFF,
    ensures
        ({
            let out = pss_encoded(hash_alg, digest@, bits as nat, old(rng).model());
            &&& final(rng).model() == out.1
            &&& match out.0 {
                Ok(s) => r is Ok && r->Ok_0@ == s && s.len() == pss_len(bits as nat),
                Err(e) => r is Err && r->Err_0 == e,
            }
        }),
{
    let len: usize = digest_size(hash_alg)?;
    let em_len: usize = (bits - 1 + 7) / 8;
    if em_len < 2 * len + 2 {
        return Err(TpmRc(rc::SIZE));
    }
    let salt: Vec<u8> = rng.bytes(len)?;
    let tail: Vec<u8> = end_hash(hash_alg, digest, salt.as_slice());
    let mut data: Vec<u8> = Vec::new();
    push_repeated(&mut data, 0, em_len - 2 * len - 2);
    data.push(1);
    data.extend_from_slice(salt.as_slice());
    assert(data@ =~= repeated(0, (pss_len(bits as nat) - salt@.len() - size_of(hash_alg) - 2) as nat)
        + seq![1u8] + salt@);
    let data_mask: Vec<u8> = mask(hash_alg, tail.as_slice(), data.len());
    let mut out: Vec<u8> = xor(data.as_slice(), data_mask.as_slice());
    let first: u8 = keep(out[0], bits);
    out.set(0, first);
    out.extend_from_slice(tail.as_slice());
    out.push(0xBC);
    assert(out@ =~= pss_block(hash_alg, digest@, bits as nat, salt@));
    Ok(out)
}

/// Verify a probabilistic signature block.
pub fn pss_verify(hash_alg: u16, digest: &[u8], em: &[u8], bits: usize) -> (r: TpmResult<()>)
    requires
        0 < bits <= 0xFFFF,
    ensures
        r is Ok <==> pss_verifies(hash_alg, digest@, em@, bits as nat),
        r is Err ==> r->Err_0 == TpmRc(rc::SIGNATURE),
{
    let len: usize = match digest_size(hash_alg) {
        Ok(n) => n,
        Err(_) => {
            return Err(TpmRc(rc::SIGNATURE));
        },
    };
    let em_len: usize = (bits - 1 + 7) / 8;
    if em.len() != em_len || em.len() < len + 2 {
        return Err(TpmRc(rc::SIGNATURE));
    }
    if em[em.len() - 1] != 0xBC || keep(em[0], bits) != em[0] {
        return Err(TpmRc(rc::SIGNATURE));
    }
    let n: usize = em.len() - len - 1;
    let masked: Vec<u8> = sub_vec(em, 0, n);
    let tail: Vec<u8> = sub_vec(em, n, em.len() - 1);
    assert(masked@ =~= em@.take(n as int));
    let data_mask: Vec<u8> = mask(hash_alg, tail.as_slice(), n);
    let mut data: Vec<u8> = xor(masked.as_slice(), data_mask.as_slice());
    let first: u8 = keep(data[0], bits);
    data.set(0, first);
    assert(data@ =~= pss_opened(hash_alg, em@, bits as nat));
    let at: usize = find_nonzero(data.as_slice(), 0);
    if at >= data.len() || data[at] != 1 {
        return Err(TpmRc(rc::SIGNATURE));
    }
    let salt: Vec<u8> = sub_vec(data.as_slice(), at + 1, data.len());
    assert(salt@ =~= data@.skip(at + 1));
    let expected: Vec<u8> = end_hash(hash_alg, digest, salt.as_slice());
    if !crate::util::bytes::constant_time_eq(expected.as_slice(), tail.as_slice()) {
        return Err(TpmRc(rc::SIGNATURE));
    }
    Ok(())
}

/// Pad a message for encryption as the older scheme does.
pub fn pkcs1v15_encrypt_pad<R: Rng>(size: usize, message: &[u8], rng: &mut R) -> (r: TpmResult<
    Vec<u8>,
>)
    requires
        size <= 0xFFFF,
        message@.len() <= 0xFFFF,
    ensures
        ({
            let out = encryption_padded(size as nat, message@, old(rng).model());
            &&& final(rng).model() == out.1
            &&& match out.0 {
                Ok(s) => r is Ok && r->Ok_0@ == s && s.len() == size,
                Err(e) => r is Err && r->Err_0 == e,
            }
        }),
{
    if message.len() + 11 > size {
        return Err(TpmRc(rc::VALUE));
    }
    let fill: Vec<u8> = rng.bytes(size - message.len() - 3)?;
    let mut out: Vec<u8> = Vec::new();
    out.push(0);
    out.push(2);
    let mut i: usize = 0;
    let ghost filled = fill@.map_values(|v: u8| filling(v));
    assert(out@ =~= seq![0u8, 2u8] + filled.take(0));
    while i < fill.len()
        invariant
            i <= fill@.len(),
            filled == fill@.map_values(|v: u8| filling(v)),
            out@ == seq![0u8, 2u8] + filled.take(i as int),
        decreases fill@.len() - i,
    {
        let v: u8 = if fill[i] == 0 {
            0x55
        } else {
            fill[i]
        };
        out.push(v);
        i = i + 1;
        assert(out@ =~= seq![0u8, 2u8] + filled.take(i as int));
    }
    assert(filled.take(i as int) =~= filled);
    out.push(0);
    out.extend_from_slice(message);
    assert(out@ =~= encryption_block(message@, fill@));
    Ok(out)
}

/// The message of a block that `pkcs1v15_encrypt_pad` made.
pub fn pkcs1v15_encrypt_unpad(em: &[u8]) -> (r: TpmResult<Vec<u8>>)
    ensures
        match encryption_unpadded(em@) {
            Ok(s) => r is Ok && r->Ok_0@ == s && s.len() <= em@.len(),
            Err(e) => r is Err && r->Err_0 == e,
        },
{
    if em.len() < 11 {
        return Err(TpmRc(rc::VALUE));
    }
    let at: usize = find_zero(em, 2);
    if em[0] != 0 || em[1] != 2 || at < 10 || at >= em.len() {
        return Err(TpmRc(rc::VALUE));
    }
    let message: Vec<u8> = sub_vec(em, at + 1, em.len());
    assert(message@ =~= em@.skip(at + 1));
    Ok(message)
}

proof fn lemma_xored_twice(a: Seq<u8>, b: Seq<u8>)
    ensures
        xored(xored(a, b), b) == a,
{
    assert forall|i: int| 0 <= i < a.len() implies xored(xored(a, b), b)[i] == a[i] by {
        let x = a[i];
        let y = b[i];
        assert((x ^ y) ^ y == x) by (bit_vector);
    }
    assert(xored(xored(a, b), b) =~= a);
}

proof fn lemma_skips_zeros(s: Seq<u8>, from: int, to: int)
    requires
        0 <= from <= to < s.len(),
        forall|i: int| from <= i < to ==> s[i] == 0,
        s[to] != 0,
    ensures
        first_nonzero(s, from) == to,
    decreases to - from,
{
    if from < to {
        lemma_skips_zeros(s, from + 1, to);
    }
}

proof fn lemma_skips_filling(s: Seq<u8>, from: int, to: int)
    requires
        0 <= from <= to < s.len(),
        forall|i: int| from <= i < to ==> s[i] != 0,
        s[to] == 0,
    ensures
        first_zero(s, from) == to,
    decreases to - from,
{
    if from < to {
        lemma_skips_filling(s, from + 1, to);
    }
}

/// Decoding an OAEP block gives back the message, whatever the seed was.
pub proof fn law_oaep_round_trips(h: u16, size: nat, message: Seq<u8>, label: Seq<u8>, seed: Seq<u8>)
    requires
        supported(h),
        oaep_fits(h, size, message),
        seed.len() == size_of(h),
    ensures
        oaep_decoded(h, oaep_block(h, size, message, label, seed), label) == Ok::<
            Seq<u8>,
            TpmRc,
        >(message),
{
    broadcast use lemma_hash_len;

    let n = size_of(h) as int;
    let data = oaep_data(h, size, message, label);
    let em = oaep_block(h, size, message, label, seed);
    let masked = xored(data, mask_of(h, seed, (size - n - 1) as nat));
    assert(data.len() == size - n - 1);
    assert(em.skip(1 + n) =~= masked);
    assert(em.subrange(1, 1 + n) =~= xored(seed, mask_of(h, masked, n as nat)));
    lemma_xored_twice(seed, mask_of(h, masked, n as nat));
    lemma_xored_twice(data, mask_of(h, seed, (size - n - 1) as nat));
    assert(oaep_opened(h, em) =~= data);
    let at = size - message.len() - n - 2;
    assert(data.take(n) =~= hash_of(h, label));
    assert(data[at] == 1);
    lemma_skips_zeros(data, n, at);
    assert(data.skip(at + 1) =~= message);
}

/// Taking the padding away gives back the message, whatever the filling was.
pub proof fn law_encryption_padding_round_trips(message: Seq<u8>, fill: Seq<u8>)
    requires
        fill.len() >= 8,
    ensures
        encryption_unpadded(encryption_block(message, fill)) == Ok::<Seq<u8>, TpmRc>(message),
{
    let em = encryption_block(message, fill);
    let filled = fill.map_values(|v: u8| filling(v));
    let at = 2 + fill.len() as int;
    assert forall|i: int| 2 <= i < at implies em[i] != 0 by {
        assert(em[i] == filled[i - 2]);
    }
    assert(em[at] == 0);
    lemma_skips_filling(em, 2, at);
    assert(em.skip(at + 1) =~= message);
}

/// The low bits of a sum with a mask, masked again, are those of the octet.
proof fn lemma_low_bits(v: u8, mask: u8)
    by (bit_vector)
    requires
        v < 2,
    ensures
        ((v ^ mask) % 128 ^ mask) % 128 == v && ((v ^ mask) % 128) % 128 == (v ^ mask) % 128,
        ((v ^ mask) % 64 ^ mask) % 64 == v && ((v ^ mask) % 64) % 64 == (v ^ mask) % 64,
        ((v ^ mask) % 32 ^ mask) % 32 == v && ((v ^ mask) % 32) % 32 == (v ^ mask) % 32,
        ((v ^ mask) % 16 ^ mask) % 16 == v && ((v ^ mask) % 16) % 16 == (v ^ mask) % 16,
        ((v ^ mask) % 8 ^ mask) % 8 == v && ((v ^ mask) % 8) % 8 == (v ^ mask) % 8,
        ((v ^ mask) % 4 ^ mask) % 4 == v && ((v ^ mask) % 4) % 4 == (v ^ mask) % 4,
        ((v ^ mask) % 2 ^ mask) % 2 == v && ((v ^ mask) % 2) % 2 == (v ^ mask) % 2,
        v ^ mask ^ mask == v,
{
}

/// What is kept of a sum with a mask gives the octet back under the mask.
proof fn lemma_kept(v: u8, mask: u8, bits: nat)
    requires
        v < 2,
    ensures
        kept(kept(v ^ mask, bits) ^ mask, bits) == v,
        kept(kept(v ^ mask, bits), bits) == kept(v ^ mask, bits),
{
    lemma_low_bits(v, mask);
}

/// A probabilistic signature block verifies for the digest it was made of,
/// whatever the salt was.
pub proof fn law_a_probabilistic_block_verifies(h: u16, d: Seq<u8>, bits: nat, salt: Seq<u8>)
    requires
        supported(h),
        bits > 0,
        salt.len() == size_of(h),
        pss_len(bits) >= 2 * size_of(h) + 2,
    ensures
        pss_verifies(h, d, pss_block(h, d, bits, salt), bits),
{
    broadcast use lemma_hash_len;

    let len = pss_len(bits) as int;
    let tail = pss_hash(h, d, salt);
    let zeros = len - salt.len() - size_of(h) - 2;
    let data = repeated(0, zeros as nat) + seq![1u8] + salt;
    let mask = mask_of(h, tail, data.len());
    lemma_mask_len(h, tail, data.len());
    let masked = xored(data, mask);
    let first = kept(masked[0], bits);
    let em = pss_block(h, d, bits, salt);
    let n = em.len() - size_of(h) - 1;
    assert(data.len() == n);
    assert(em =~= masked.update(0, first) + tail + seq![0xBCu8]);
    assert(em.subrange(n, em.len() - 1) =~= tail);
    assert(em.take(n) =~= masked.update(0, first));
    assert(data[0] < 2);
    lemma_kept(data[0], mask[0], bits);
    lemma_xored_twice(data, mask);
    let again = xored(em.take(n), mask);
    assert(again[0] == first ^ mask[0]);
    assert forall|i: int| 1 <= i < n implies again[i] == data[i] by {
        assert(again[i] == masked[i] ^ mask[i]);
        assert(xored(masked, mask)[i] == masked[i] ^ mask[i]);
    }
    assert(pss_opened(h, em, bits) =~= data);
    lemma_skips_zeros(data, 0, zeros);
    assert(data.skip(zeros + 1) =~= salt);
}

/// An encoded block is as long as asked for and decodes to the message.
pub proof fn lemma_oaep_comes_off(h: u16, size: nat, message: Seq<u8>, label: Seq<u8>, m: RngModel)
    requires
        oaep_encoded(h, size, message, label, m).0 is Ok,
    ensures
        ({
            let block = oaep_encoded(h, size, message, label, m).0->Ok_0;
            &&& block.len() == size
            &&& oaep_decoded(h, block, label) == Ok::<Seq<u8>, TpmRc>(message)
        }),
{
    broadcast use lemma_hash_len;

    lemma_draw_len(m, size_of(h));
    law_oaep_round_trips(h, size, message, label, draw(m, size_of(h)).0->Ok_0);
}

} // verus!
