//! Hash algorithms.

use vstd::prelude::*;

use super::sha::{
    compress1, compress256, compress512, init_sha1, init_sha256, init_sha384, init_sha512,
    sha1_block, sha256_block, sha512_block, start_sha1, start_sha256, start_sha384, start_sha512,
    D8, W5, W8,
};
use crate::tpm::constants::{alg, rc};
use crate::tpm::error::{TpmRc, TpmResult};
use crate::util::bytes::{octets32, octets64, push_be32, push_be64};

verus! {

/// True for a hash algorithm this TPM implements.
pub open spec fn supported(hash_alg: u16) -> bool {
    hash_alg == alg::SHA1 || hash_alg == alg::SHA256 || hash_alg == alg::SHA384 || hash_alg
        == alg::SHA512
}

/// Octets in a digest.
pub open spec fn size_of(hash_alg: u16) -> nat {
    if hash_alg == alg::SHA1 {
        20
    } else if hash_alg == alg::SHA256 {
        32
    } else if hash_alg == alg::SHA384 {
        48
    } else if hash_alg == alg::SHA512 {
        64
    } else {
        0
    }
}

/// Octets in the blocks a hash algorithm works on.
pub open spec fn block_of(hash_alg: u16) -> nat {
    if hash_alg == alg::SHA384 || hash_alg == alg::SHA512 {
        128
    } else {
        64
    }
}

/// Zero octets that bring a message of `len` octets and its marker to the
/// length field, which ends a block of `block` octets.
pub open spec fn zeros_after(len: nat, block: int) -> nat {
    ((2 * block - block / 8 - 1 - (len as int) % block) % block) as nat
}

/// The message with the marker, the zeros and the length in bits.
pub open spec fn padded(data: Seq<u8>, block: int) -> Seq<u8> {
    data + seq![0x80u8] + Seq::new(
        zeros_after(data.len(), block) + (block / 8 - 8) as nat,
        |i: int| 0u8,
    ) + octets64(((data.len() * 8) % 0x1_0000_0000_0000_0000) as u64)
}

/// SHA-1 over the first `n` blocks of `s`.
pub open spec fn fold1(s: Seq<u8>, n: int) -> W5
    decreases n,
{
    if n <= 0 {
        start_sha1()
    } else {
        compress1(fold1(s, n - 1), s.subrange(64 * (n - 1), 64 * n))
    }
}

/// SHA-256 over the first `n` blocks of `s`.
pub open spec fn fold256(s: Seq<u8>, n: int) -> W8
    decreases n,
{
    if n <= 0 {
        start_sha256()
    } else {
        compress256(fold256(s, n - 1), s.subrange(64 * (n - 1), 64 * n))
    }
}

/// SHA-512 over the first `n` blocks of `s`, from the words `start`.
pub open spec fn fold512(start: D8, s: Seq<u8>, n: int) -> D8
    decreases n,
{
    if n <= 0 {
        start
    } else {
        compress512(fold512(start, s, n - 1), s.subrange(128 * (n - 1), 128 * n))
    }
}

/// The octets of the five SHA-1 words.
pub open spec fn octets_w5(w: W5) -> Seq<u8> {
    octets32(w.a) + octets32(w.b) + octets32(w.c) + octets32(w.d) + octets32(w.e)
}

/// The octets of the eight SHA-256 words.
pub open spec fn octets_w8(w: W8) -> Seq<u8> {
    octets32(w.a) + octets32(w.b) + octets32(w.c) + octets32(w.d) + octets32(w.e) + octets32(w.f)
        + octets32(w.g) + octets32(w.h)
}

/// The octets of the first six SHA-512 words.
pub open spec fn octets_d6(w: D8) -> Seq<u8> {
    octets64(w.a) + octets64(w.b) + octets64(w.c) + octets64(w.d) + octets64(w.e) + octets64(w.f)
}

/// The octets of the eight SHA-512 words.
pub open spec fn octets_d8(w: D8) -> Seq<u8> {
    octets_d6(w) + octets64(w.g) + octets64(w.h)
}

/// The digest of `data`.
#[verifier::opaque]
pub open spec fn hash_of(hash_alg: u16, data: Seq<u8>) -> Seq<u8> {
    let block = block_of(hash_alg) as int;
    let p = padded(data, block);
    let n = p.len() as int / block;
    if hash_alg == alg::SHA1 {
        octets_w5(fold1(p, n))
    } else if hash_alg == alg::SHA256 {
        octets_w8(fold256(p, n))
    } else if hash_alg == alg::SHA384 {
        octets_d6(fold512(start_sha384(), p, n))
    } else if hash_alg == alg::SHA512 {
        octets_d8(fold512(start_sha512(), p, n))
    } else {
        Seq::empty()
    }
}

/// A digest has the size its algorithm gives.
pub broadcast proof fn lemma_hash_len(hash_alg: u16, data: Seq<u8>)
    ensures
        (#[trigger] hash_of(hash_alg, data)).len() == size_of(hash_alg),
{
    reveal(hash_of);
}

/// True when the TPM implements `hash_alg`.
pub fn is_supported(hash_alg: u16) -> (r: bool)
    ensures
        r == supported(hash_alg),
{
    hash_alg == alg::SHA1 || hash_alg == alg::SHA256 || hash_alg == alg::SHA384 || hash_alg
        == alg::SHA512
}

/// Octets in a digest of `hash_alg`.
pub fn digest_size(hash_alg: u16) -> (r: TpmResult<usize>)
    ensures
        r is Ok <==> supported(hash_alg),
        r matches Ok(n) ==> n == size_of(hash_alg),
        r matches Err(e) ==> e == TpmRc(rc::HASH),
{
    if hash_alg == alg::SHA1 {
        Ok(20)
    } else if hash_alg == alg::SHA256 {
        Ok(32)
    } else if hash_alg == alg::SHA384 {
        Ok(48)
    } else if hash_alg == alg::SHA512 {
        Ok(64)
    } else {
        Err(TpmRc(rc::HASH))
    }
}

/// Pad a message to whole blocks.
fn pad(data: &[u8], block: usize) -> (out: Vec<u8>)
    requires
        block == 64 || block == 128,
    ensures
        out@ == padded(data@, block as int),
        out@.len() % block as nat == 0,
{
    let mut out: Vec<u8> = Vec::with_capacity(data.len());
    out.extend_from_slice(data);
    assert(out@ =~= data@);
    out.push(0x80);
    let tail: usize = block - block / 8;
    let zeros: usize = (block + tail - 1 - data.len() % block) % block + (block / 8 - 8);
    let ghost head = data@ + seq![0x80u8];
    assert(out@ =~= head);
    let mut i: usize = 0;
    while i < zeros
        invariant
            i <= zeros,
            out@ == head + Seq::new(i as nat, |k: int| 0u8),
        decreases zeros - i,
    {
        out.push(0);
        i = i + 1;
        assert(out@ =~= head + Seq::new(i as nat, |k: int| 0u8));
    }
    let bits: u64 = (data.len() as u64).wrapping_mul(8);
    push_be64(&mut out, bits);
    proof {
        assert(zeros == zeros_after(data@.len(), block as int) + (block / 8 - 8) as nat);
        assert(out@ =~= padded(data@, block as int));
        let len = data@.len() as int;
        let b = block as int;
        assert(out@.len() == len + 1 + zeros + 8);
        if block == 64 {
            assert((len + 1 + (127 - 8 - len % 64) % 64 + 8) % 64 == 0);
        } else {
            assert((len + 1 + (255 - 16 - len % 128) % 128 + 16) % 128 == 0);
        }
    }
    out
}

/// The digest of `data`.
pub fn digest(hash_alg: u16, data: &[u8]) -> (r: TpmResult<Vec<u8>>)
    ensures
        r is Ok <==> supported(hash_alg),
        r matches Ok(d) ==> d@ == hash_of(hash_alg, data@),
        r matches Err(e) ==> e == TpmRc(rc::HASH),
{
    if !is_supported(hash_alg) {
        return Err(TpmRc(rc::HASH));
    }
    proof {
        reveal(hash_of);
    }
    let mut out: Vec<u8> = Vec::new();
    if hash_alg == alg::SHA1 {
        let p: Vec<u8> = pad(data, 64);
        let mut w: W5 = init_sha1();
        let mut at: usize = 0;
        while at < p.len()
            invariant
                at <= p@.len(),
                at % 64 == 0,
                p@.len() % 64 == 0,
                w == fold1(p@, at as int / 64),
            decreases p@.len() - at,
        {
            w = sha1_block(w, &p, at);
            at = at + 64;
        }
        push_be32(&mut out, w.a);
        push_be32(&mut out, w.b);
        push_be32(&mut out, w.c);
        push_be32(&mut out, w.d);
        push_be32(&mut out, w.e);
        assert(out@ =~= octets_w5(w));
    } else if hash_alg == alg::SHA256 {
        let p: Vec<u8> = pad(data, 64);
        let mut w: W8 = init_sha256();
        let mut at: usize = 0;
        while at < p.len()
            invariant
                at <= p@.len(),
                at % 64 == 0,
                p@.len() % 64 == 0,
                w == fold256(p@, at as int / 64),
            decreases p@.len() - at,
        {
            w = sha256_block(w, &p, at);
            at = at + 64;
        }
        push_be32(&mut out, w.a);
        push_be32(&mut out, w.b);
        push_be32(&mut out, w.c);
        push_be32(&mut out, w.d);
        push_be32(&mut out, w.e);
        push_be32(&mut out, w.f);
        push_be32(&mut out, w.g);
        push_be32(&mut out, w.h);
        assert(out@ =~= octets_w8(w));
    } else {
        let p: Vec<u8> = pad(data, 128);
        let long: bool = hash_alg == alg::SHA512;
        let start: D8 = if long {
            init_sha512()
        } else {
            init_sha384()
        };
        let mut w: D8 = start;
        let mut at: usize = 0;
        while at < p.len()
            invariant
                at <= p@.len(),
                at % 128 == 0,
                p@.len() % 128 == 0,
                w == fold512(start, p@, at as int / 128),
            decreases p@.len() - at,
        {
            w = sha512_block(w, &p, at);
            at = at + 128;
        }
        push_be64(&mut out, w.a);
        push_be64(&mut out, w.b);
        push_be64(&mut out, w.c);
        push_be64(&mut out, w.d);
        push_be64(&mut out, w.e);
        push_be64(&mut out, w.f);
        assert(out@ =~= octets_d6(w));
        if long {
            push_be64(&mut out, w.g);
            push_be64(&mut out, w.h);
            assert(out@ =~= octets_d8(w));
        }
    }
    Ok(out)
}

/// A digest over octets that arrive in pieces.
pub struct Hasher {
    hash_alg: u16,
    data: Vec<u8>,
}

impl Hasher {
    /// The algorithm the digest is made with.
    pub closed spec fn algorithm(&self) -> u16 {
        self.hash_alg
    }

    /// What has been hashed so far.
    pub closed spec fn message(&self) -> Seq<u8> {
        self.data@
    }

    /// Start a digest.
    pub fn new(hash_alg: u16) -> (r: TpmResult<Hasher>)
        ensures
            r is Ok <==> supported(hash_alg),
            r matches Ok(h) ==> h.algorithm() == hash_alg && h.message() == Seq::<u8>::empty(),
            r matches Err(e) ==> e == TpmRc(rc::HASH),
    {
        if is_supported(hash_alg) {
            Ok(Hasher { hash_alg, data: Vec::new() })
        } else {
            Err(TpmRc(rc::HASH))
        }
    }

    /// Add octets to the message.
    pub fn update(&mut self, data: &[u8])
        ensures
            final(self).algorithm() == old(self).algorithm(),
            final(self).message() == old(self).message() + data@,
    {
        self.data.extend_from_slice(data);
        assert(self.data@ =~= old(self).data@ + data@);
    }

    /// The digest of everything that was added.
    pub fn finish(self) -> (r: Vec<u8>)
        requires
            supported(self.algorithm()),
        ensures
            r@ == hash_of(self.algorithm(), self.message()),
    {
        match digest(self.hash_alg, &self.data) {
            Ok(d) => d,
            Err(_) => Vec::new(),
        }
    }
}

} // verus!
