//! The compression functions of SHA-1 and SHA-2.

use vstd::prelude::*;

use crate::util::bytes::{be32, be64, lemma_sub_be, read_be32, read_be64};

verus! {

/// Round constants of SHA-256.
pub const K256: [u32; 64] = [
    0x428a2f98, 0x71374491, 0xb5c0fbcf, 0xe9b5dba5, 0x3956c25b, 0x59f111f1,
    0x923f82a4, 0xab1c5ed5, 0xd807aa98, 0x12835b01, 0x243185be, 0x550c7dc3,
    0x72be5d74, 0x80deb1fe, 0x9bdc06a7, 0xc19bf174, 0xe49b69c1, 0xefbe4786,
    0x0fc19dc6, 0x240ca1cc, 0x2de92c6f, 0x4a7484aa, 0x5cb0a9dc, 0x76f988da,
    0x983e5152, 0xa831c66d, 0xb00327c8, 0xbf597fc7, 0xc6e00bf3, 0xd5a79147,
    0x06ca6351, 0x14292967, 0x27b70a85, 0x2e1b2138, 0x4d2c6dfc, 0x53380d13,
    0x650a7354, 0x766a0abb, 0x81c2c92e, 0x92722c85, 0xa2bfe8a1, 0xa81a664b,
    0xc24b8b70, 0xc76c51a3, 0xd192e819, 0xd6990624, 0xf40e3585, 0x106aa070,
    0x19a4c116, 0x1e376c08, 0x2748774c, 0x34b0bcb5, 0x391c0cb3, 0x4ed8aa4a,
    0x5b9cca4f, 0x682e6ff3, 0x748f82ee, 0x78a5636f, 0x84c87814, 0x8cc70208,
    0x90befffa, 0xa4506ceb, 0xbef9a3f7, 0xc67178f2,
];

/// Round constants of SHA-384 and SHA-512.
pub const K512: [u64; 80] = [
    0x428a2f98d728ae22, 0x7137449123ef65cd, 0xb5c0fbcfec4d3b2f, 0xe9b5dba58189dbbc,
    0x3956c25bf348b538, 0x59f111f1b605d019, 0x923f82a4af194f9b, 0xab1c5ed5da6d8118,
    0xd807aa98a3030242, 0x12835b0145706fbe, 0x243185be4ee4b28c, 0x550c7dc3d5ffb4e2,
    0x72be5d74f27b896f, 0x80deb1fe3b1696b1, 0x9bdc06a725c71235, 0xc19bf174cf692694,
    0xe49b69c19ef14ad2, 0xefbe4786384f25e3, 0x0fc19dc68b8cd5b5, 0x240ca1cc77ac9c65,
    0x2de92c6f592b0275, 0x4a7484aa6ea6e483, 0x5cb0a9dcbd41fbd4, 0x76f988da831153b5,
    0x983e5152ee66dfab, 0xa831c66d2db43210, 0xb00327c898fb213f, 0xbf597fc7beef0ee4,
    0xc6e00bf33da88fc2, 0xd5a79147930aa725, 0x06ca6351e003826f, 0x142929670a0e6e70,
    0x27b70a8546d22ffc, 0x2e1b21385c26c926, 0x4d2c6dfc5ac42aed, 0x53380d139d95b3df,
    0x650a73548baf63de, 0x766a0abb3c77b2a8, 0x81c2c92e47edaee6, 0x92722c851482353b,
    0xa2bfe8a14cf10364, 0xa81a664bbc423001, 0xc24b8b70d0f89791, 0xc76c51a30654be30,
    0xd192e819d6ef5218, 0xd69906245565a910, 0xf40e35855771202a, 0x106aa07032bbd1b8,
    0x19a4c116b8d2d0c8, 0x1e376c085141ab53, 0x2748774cdf8eeb99, 0x34b0bcb5e19b48a8,
    0x391c0cb3c5c95a63, 0x4ed8aa4ae3418acb, 0x5b9cca4f7763e373, 0x682e6ff3d6b2b8a3,
    0x748f82ee5defb2fc, 0x78a5636f43172f60, 0x84c87814a1f0ab72, 0x8cc702081a6439ec,
    0x90befffa23631e28, 0xa4506cebde82bde9, 0xbef9a3f7b2c67915, 0xc67178f2e372532b,
    0xca273eceea26619c, 0xd186b8c721c0c207, 0xeada7dd6cde0eb1e, 0xf57d4f7fee6ed178,
    0x06f067aa72176fba, 0x0a637dc5a2c898a6, 0x113f9804bef90dae, 0x1b710b35131c471b,
    0x28db77f523047d84, 0x32caab7b40c72493, 0x3c9ebe0a15c9bebc, 0x431d67c49c100d4c,
    0x4cc5d4becb3e42b6, 0x597f299cfc657e2a, 0x5fcb6fab3ad6faec, 0x6c44198c4a475817,
];

/// The five working words of SHA-1.
#[derive(Clone, Copy, PartialEq, Eq, Structural)]
pub struct W5 {
    pub a: u32,
    pub b: u32,
    pub c: u32,
    pub d: u32,
    pub e: u32,
}

/// The eight working words of SHA-256.
#[derive(Clone, Copy, PartialEq, Eq, Structural)]
pub struct W8 {
    pub a: u32,
    pub b: u32,
    pub c: u32,
    pub d: u32,
    pub e: u32,
    pub f: u32,
    pub g: u32,
    pub h: u32,
}

/// The eight working words of SHA-384 and SHA-512.
#[derive(Clone, Copy, PartialEq, Eq, Structural)]
pub struct D8 {
    pub a: u64,
    pub b: u64,
    pub c: u64,
    pub d: u64,
    pub e: u64,
    pub f: u64,
    pub g: u64,
    pub h: u64,
}

pub const INIT_SHA1: [u32; 5] = [
    0x67452301, 0xefcdab89, 0x98badcfe, 0x10325476, 0xc3d2e1f0,
];

/// The words a SHA1 computation starts with.
pub open spec fn start_sha1() -> W5 {
    W5 { a: INIT_SHA1@[0], b: INIT_SHA1@[1], c: INIT_SHA1@[2], d: INIT_SHA1@[3], e: INIT_SHA1@[4] }
}

/// The words a SHA1 computation starts with.
pub fn init_sha1() -> (r: W5)
    ensures
        r == start_sha1(),
{
    W5 { a: INIT_SHA1[0], b: INIT_SHA1[1], c: INIT_SHA1[2], d: INIT_SHA1[3], e: INIT_SHA1[4] }
}

pub const INIT_SHA256: [u32; 8] = [
    0x6a09e667, 0xbb67ae85, 0x3c6ef372, 0xa54ff53a, 0x510e527f, 0x9b05688c, 0x1f83d9ab, 0x5be0cd19,
];

/// The words a SHA256 computation starts with.
pub open spec fn start_sha256() -> W8 {
    W8 { a: INIT_SHA256@[0], b: INIT_SHA256@[1], c: INIT_SHA256@[2], d: INIT_SHA256@[3], e: INIT_SHA256@[4], f: INIT_SHA256@[5], g: INIT_SHA256@[6], h: INIT_SHA256@[7] }
}

/// The words a SHA256 computation starts with.
pub fn init_sha256() -> (r: W8)
    ensures
        r == start_sha256(),
{
    W8 { a: INIT_SHA256[0], b: INIT_SHA256[1], c: INIT_SHA256[2], d: INIT_SHA256[3], e: INIT_SHA256[4], f: INIT_SHA256[5], g: INIT_SHA256[6], h: INIT_SHA256[7] }
}

pub const INIT_SHA384: [u64; 8] = [
    0xcbbb9d5dc1059ed8, 0x629a292a367cd507, 0x9159015a3070dd17, 0x152fecd8f70e5939, 0x67332667ffc00b31, 0x8eb44a8768581511, 0xdb0c2e0d64f98fa7, 0x47b5481dbefa4fa4,
];

/// The words a SHA384 computation starts with.
pub open spec fn start_sha384() -> D8 {
    D8 { a: INIT_SHA384@[0], b: INIT_SHA384@[1], c: INIT_SHA384@[2], d: INIT_SHA384@[3], e: INIT_SHA384@[4], f: INIT_SHA384@[5], g: INIT_SHA384@[6], h: INIT_SHA384@[7] }
}

/// The words a SHA384 computation starts with.
pub fn init_sha384() -> (r: D8)
    ensures
        r == start_sha384(),
{
    D8 { a: INIT_SHA384[0], b: INIT_SHA384[1], c: INIT_SHA384[2], d: INIT_SHA384[3], e: INIT_SHA384[4], f: INIT_SHA384[5], g: INIT_SHA384[6], h: INIT_SHA384[7] }
}

pub const INIT_SHA512: [u64; 8] = [
    0x6a09e667f3bcc908, 0xbb67ae8584caa73b, 0x3c6ef372fe94f82b, 0xa54ff53a5f1d36f1, 0x510e527fade682d1, 0x9b05688c2b3e6c1f, 0x1f83d9abfb41bd6b, 0x5be0cd19137e2179,
];

/// The words a SHA512 computation starts with.
pub open spec fn start_sha512() -> D8 {
    D8 { a: INIT_SHA512@[0], b: INIT_SHA512@[1], c: INIT_SHA512@[2], d: INIT_SHA512@[3], e: INIT_SHA512@[4], f: INIT_SHA512@[5], g: INIT_SHA512@[6], h: INIT_SHA512@[7] }
}

/// The words a SHA512 computation starts with.
pub fn init_sha512() -> (r: D8)
    ensures
        r == start_sha512(),
{
    D8 { a: INIT_SHA512[0], b: INIT_SHA512[1], c: INIT_SHA512[2], d: INIT_SHA512[3], e: INIT_SHA512[4], f: INIT_SHA512[5], g: INIT_SHA512[6], h: INIT_SHA512[7] }
}

/// Rotate a word left.
pub open spec fn rotl(x: u32, n: u32) -> u32 {
    (x << n) | (x >> ((32 - n) as u32))
}

/// Rotate a word right.
pub open spec fn rotr(x: u32, n: u32) -> u32 {
    (x >> n) | (x << ((32 - n) as u32))
}

/// Rotate a double word right.
pub open spec fn rotr64(x: u64, n: u32) -> u64 {
    (x >> n) | (x << ((64 - n) as u32))
}

fn rot_left(x: u32, n: u32) -> (r: u32)
    requires
        0 < n < 32,
    ensures
        r == rotl(x, n),
{
    (x << n) | (x >> (32 - n))
}

fn rot_right(x: u32, n: u32) -> (r: u32)
    requires
        0 < n < 32,
    ensures
        r == rotr(x, n),
{
    (x >> n) | (x << (32 - n))
}

fn rot_right64(x: u64, n: u32) -> (r: u64)
    requires
        0 < n < 64,
    ensures
        r == rotr64(x, n),
{
    (x >> n) | (x << (64 - n))
}

/// Word `t` of the SHA-1 message schedule of a 64 octet block.
pub open spec fn schedule1(block: Seq<u8>, t: int) -> u32
    decreases t,
{
    if t < 16 {
        be32(block, 4 * t)
    } else {
        rotl(
            schedule1(block, t - 3) ^ schedule1(block, t - 8) ^ schedule1(block, t - 14)
                ^ schedule1(block, t - 16),
            1,
        )
    }
}

/// One SHA-1 round.
pub open spec fn round1(s: W5, t: int, w: u32) -> W5 {
    let (f, k): (u32, u32) = if t < 20 {
        ((s.b & s.c) | (!s.b & s.d), 0x5a827999)
    } else if t < 40 {
        (s.b ^ s.c ^ s.d, 0x6ed9eba1)
    } else if t < 60 {
        ((s.b & s.c) | (s.b & s.d) | (s.c & s.d), 0x8f1bbcdc)
    } else {
        (s.b ^ s.c ^ s.d, 0xca62c1d6)
    };
    W5 {
        a: rotl(s.a, 5).wrapping_add(f).wrapping_add(s.e).wrapping_add(k).wrapping_add(w),
        b: s.a,
        c: rotl(s.b, 30),
        d: s.c,
        e: s.d,
    }
}

/// The working words after `t` rounds over `block`.
pub open spec fn rounds1(s: W5, block: Seq<u8>, t: int) -> W5
    decreases t,
{
    if t <= 0 {
        s
    } else {
        round1(rounds1(s, block, t - 1), t - 1, schedule1(block, t - 1))
    }
}

/// The SHA-1 compression function.
pub open spec fn compress1(s: W5, block: Seq<u8>) -> W5 {
    let r = rounds1(s, block, 80);
    W5 {
        a: s.a.wrapping_add(r.a),
        b: s.b.wrapping_add(r.b),
        c: s.c.wrapping_add(r.c),
        d: s.d.wrapping_add(r.d),
        e: s.e.wrapping_add(r.e),
    }
}

/// Word `t` of the SHA-256 message schedule of a 64 octet block.
pub open spec fn schedule256(block: Seq<u8>, t: int) -> u32
    decreases t,
{
    if t < 16 {
        be32(block, 4 * t)
    } else {
        let x = schedule256(block, t - 15);
        let y = schedule256(block, t - 2);
        (rotr(y, 17) ^ rotr(y, 19) ^ (y >> 10u32)).wrapping_add(
            schedule256(block, t - 7),
        ).wrapping_add(rotr(x, 7) ^ rotr(x, 18) ^ (x >> 3u32)).wrapping_add(
            schedule256(block, t - 16),
        )
    }
}

/// One SHA-256 round with constant `k`.
pub open spec fn round256(s: W8, k: u32, w: u32) -> W8 {
    let t1 = s.h.wrapping_add(rotr(s.e, 6) ^ rotr(s.e, 11) ^ rotr(s.e, 25)).wrapping_add(
        (s.e & s.f) ^ (!s.e & s.g),
    ).wrapping_add(k).wrapping_add(w);
    let t2 = (rotr(s.a, 2) ^ rotr(s.a, 13) ^ rotr(s.a, 22)).wrapping_add(
        (s.a & s.b) ^ (s.a & s.c) ^ (s.b & s.c),
    );
    W8 {
        a: t1.wrapping_add(t2),
        b: s.a,
        c: s.b,
        d: s.c,
        e: s.d.wrapping_add(t1),
        f: s.e,
        g: s.f,
        h: s.g,
    }
}

/// The working words after `t` rounds over `block`.
pub open spec fn rounds256(s: W8, block: Seq<u8>, t: int) -> W8
    decreases t,
{
    if t <= 0 {
        s
    } else {
        round256(rounds256(s, block, t - 1), K256@[t - 1], schedule256(block, t - 1))
    }
}

/// The SHA-256 compression function.
pub open spec fn compress256(s: W8, block: Seq<u8>) -> W8 {
    let r = rounds256(s, block, 64);
    W8 {
        a: s.a.wrapping_add(r.a),
        b: s.b.wrapping_add(r.b),
        c: s.c.wrapping_add(r.c),
        d: s.d.wrapping_add(r.d),
        e: s.e.wrapping_add(r.e),
        f: s.f.wrapping_add(r.f),
        g: s.g.wrapping_add(r.g),
        h: s.h.wrapping_add(r.h),
    }
}

/// Double word `t` of the SHA-512 message schedule of a 128 octet block.
pub open spec fn schedule512(block: Seq<u8>, t: int) -> u64
    decreases t,
{
    if t < 16 {
        be64(block, 8 * t)
    } else {
        let x = schedule512(block, t - 15);
        let y = schedule512(block, t - 2);
        (rotr64(y, 19) ^ rotr64(y, 61) ^ (y >> 6u32)).wrapping_add(
            schedule512(block, t - 7),
        ).wrapping_add(rotr64(x, 1) ^ rotr64(x, 8) ^ (x >> 7u32)).wrapping_add(
            schedule512(block, t - 16),
        )
    }
}

/// One SHA-512 round with constant `k`.
pub open spec fn round512(s: D8, k: u64, w: u64) -> D8 {
    let t1 = s.h.wrapping_add(rotr64(s.e, 14) ^ rotr64(s.e, 18) ^ rotr64(s.e, 41)).wrapping_add(
        (s.e & s.f) ^ (!s.e & s.g),
    ).wrapping_add(k).wrapping_add(w);
    let t2 = (rotr64(s.a, 28) ^ rotr64(s.a, 34) ^ rotr64(s.a, 39)).wrapping_add(
        (s.a & s.b) ^ (s.a & s.c) ^ (s.b & s.c),
    );
    D8 {
        a: t1.wrapping_add(t2),
        b: s.a,
        c: s.b,
        d: s.c,
        e: s.d.wrapping_add(t1),
        f: s.e,
        g: s.f,
        h: s.g,
    }
}

/// The working words after `t` rounds over `block`.
pub open spec fn rounds512(s: D8, block: Seq<u8>, t: int) -> D8
    decreases t,
{
    if t <= 0 {
        s
    } else {
        round512(rounds512(s, block, t - 1), K512@[t - 1], schedule512(block, t - 1))
    }
}

/// The SHA-512 compression function.
pub open spec fn compress512(s: D8, block: Seq<u8>) -> D8 {
    let r = rounds512(s, block, 80);
    D8 {
        a: s.a.wrapping_add(r.a),
        b: s.b.wrapping_add(r.b),
        c: s.c.wrapping_add(r.c),
        d: s.d.wrapping_add(r.d),
        e: s.e.wrapping_add(r.e),
        f: s.f.wrapping_add(r.f),
        g: s.g.wrapping_add(r.g),
        h: s.h.wrapping_add(r.h),
    }
}

/// Compress one block into the SHA-1 state.
pub fn sha1_block(s: W5, data: &Vec<u8>, at: usize) -> (r: W5)
    requires
        at + 64 <= data@.len(),
    ensures
        r == compress1(s, data@.subrange(at as int, at + 64)),
{
    let ghost block = data@.subrange(at as int, at + 64);
    let mut w: Vec<u32> = Vec::with_capacity(80);
    while w.len() < 80
        invariant
            at + 64 <= data@.len(),
            block == data@.subrange(at as int, at + 64),
            w@.len() <= 80,
            forall|i: int| 0 <= i < w@.len() ==> w@[i] == schedule1(block, i),
        decreases 80 - w@.len(),
    {
        let t: usize = w.len();
        assert(data@.len() == data.len());
        proof {
            lemma_sub_be(data@, at as int, at + 64, 4 * t);
        }
        let v: u32 = if t < 16 {
            read_be32(data, at + 4 * t)
        } else {
            rot_left(w[t - 3] ^ w[t - 8] ^ w[t - 14] ^ w[t - 16], 1)
        };
        if t >= 16 {
            assert(w@[t - 3] == schedule1(block, t - 3));
            assert(w@[t - 8] == schedule1(block, t - 8));
            assert(w@[t - 14] == schedule1(block, t - 14));
            assert(w@[t - 16] == schedule1(block, t - 16));
        }
        w.push(v);
    }
    let mut x: W5 = s;
    let mut t: usize = 0;
    while t < 80
        invariant
            t <= 80,
            w@.len() == 80,
            forall|i: int| 0 <= i < w@.len() ==> w@[i] == schedule1(block, i),
            x == rounds1(s, block, t as int),
        decreases 80 - t,
    {
        let fk: (u32, u32) = if t < 20 {
            ((x.b & x.c) | (!x.b & x.d), 0x5a827999)
        } else if t < 40 {
            (x.b ^ x.c ^ x.d, 0x6ed9eba1)
        } else if t < 60 {
            ((x.b & x.c) | (x.b & x.d) | (x.c & x.d), 0x8f1bbcdc)
        } else {
            (x.b ^ x.c ^ x.d, 0xca62c1d6)
        };
        x = W5 {
            a: rot_left(x.a, 5).wrapping_add(fk.0).wrapping_add(x.e).wrapping_add(
                fk.1,
            ).wrapping_add(w[t]),
            b: x.a,
            c: rot_left(x.b, 30),
            d: x.c,
            e: x.d,
        };
        t = t + 1;
    }
    W5 {
        a: s.a.wrapping_add(x.a),
        b: s.b.wrapping_add(x.b),
        c: s.c.wrapping_add(x.c),
        d: s.d.wrapping_add(x.d),
        e: s.e.wrapping_add(x.e),
    }
}

/// Compress one block into the SHA-256 state.
pub fn sha256_block(s: W8, data: &Vec<u8>, at: usize) -> (r: W8)
    requires
        at + 64 <= data@.len(),
    ensures
        r == compress256(s, data@.subrange(at as int, at + 64)),
{
    let ghost block = data@.subrange(at as int, at + 64);
    let mut w: Vec<u32> = Vec::with_capacity(64);
    while w.len() < 64
        invariant
            at + 64 <= data@.len(),
            block == data@.subrange(at as int, at + 64),
            w@.len() <= 64,
            forall|i: int| 0 <= i < w@.len() ==> w@[i] == schedule256(block, i),
        decreases 64 - w@.len(),
    {
        let t: usize = w.len();
        assert(data@.len() == data.len());
        proof {
            lemma_sub_be(data@, at as int, at + 64, 4 * t);
        }
        let v: u32 = if t < 16 {
            read_be32(data, at + 4 * t)
        } else {
            let x: u32 = w[t - 15];
            let y: u32 = w[t - 2];
            (rot_right(y, 17) ^ rot_right(y, 19) ^ (y >> 10u32)).wrapping_add(w[t - 7]).wrapping_add(
                rot_right(x, 7) ^ rot_right(x, 18) ^ (x >> 3u32),
            ).wrapping_add(w[t - 16])
        };
        if t >= 16 {
            assert(w@[t - 2] == schedule256(block, t - 2));
            assert(w@[t - 7] == schedule256(block, t - 7));
            assert(w@[t - 15] == schedule256(block, t - 15));
            assert(w@[t - 16] == schedule256(block, t - 16));
        }
        w.push(v);
    }
    let mut x: W8 = s;
    let mut t: usize = 0;
    while t < 64
        invariant
            t <= 64,
            w@.len() == 64,
            forall|i: int| 0 <= i < w@.len() ==> w@[i] == schedule256(block, i),
            x == rounds256(s, block, t as int),
        decreases 64 - t,
    {
        let t1: u32 = x.h.wrapping_add(rot_right(x.e, 6) ^ rot_right(x.e, 11) ^ rot_right(x.e, 25)).wrapping_add(
            (x.e & x.f) ^ (!x.e & x.g),
        ).wrapping_add(K256[t]).wrapping_add(w[t]);
        let t2: u32 = (rot_right(x.a, 2) ^ rot_right(x.a, 13) ^ rot_right(x.a, 22)).wrapping_add(
            (x.a & x.b) ^ (x.a & x.c) ^ (x.b & x.c),
        );
        x = W8 {
            a: t1.wrapping_add(t2),
            b: x.a,
            c: x.b,
            d: x.c,
            e: x.d.wrapping_add(t1),
            f: x.e,
            g: x.f,
            h: x.g,
        };
        t = t + 1;
    }
    W8 {
        a: s.a.wrapping_add(x.a),
        b: s.b.wrapping_add(x.b),
        c: s.c.wrapping_add(x.c),
        d: s.d.wrapping_add(x.d),
        e: s.e.wrapping_add(x.e),
        f: s.f.wrapping_add(x.f),
        g: s.g.wrapping_add(x.g),
        h: s.h.wrapping_add(x.h),
    }
}

/// Compress one block into the SHA-512 state.
pub fn sha512_block(s: D8, data: &Vec<u8>, at: usize) -> (r: D8)
    requires
        at + 128 <= data@.len(),
    ensures
        r == compress512(s, data@.subrange(at as int, at + 128)),
{
    let ghost block = data@.subrange(at as int, at + 128);
    let mut w: Vec<u64> = Vec::with_capacity(80);
    while w.len() < 80
        invariant
            at + 128 <= data@.len(),
            block == data@.subrange(at as int, at + 128),
            w@.len() <= 80,
            forall|i: int| 0 <= i < w@.len() ==> w@[i] == schedule512(block, i),
        decreases 80 - w@.len(),
    {
        let t: usize = w.len();
        assert(data@.len() == data.len());
        proof {
            lemma_sub_be(data@, at as int, at + 128, 8 * t);
        }
        let v: u64 = if t < 16 {
            read_be64(data, at + 8 * t)
        } else {
            let x: u64 = w[t - 15];
            let y: u64 = w[t - 2];
            (rot_right64(y, 19) ^ rot_right64(y, 61) ^ (y >> 6u32)).wrapping_add(w[t - 7]).wrapping_add(
                rot_right64(x, 1) ^ rot_right64(x, 8) ^ (x >> 7u32),
            ).wrapping_add(w[t - 16])
        };
        if t >= 16 {
            assert(w@[t - 2] == schedule512(block, t - 2));
            assert(w@[t - 7] == schedule512(block, t - 7));
            assert(w@[t - 15] == schedule512(block, t - 15));
            assert(w@[t - 16] == schedule512(block, t - 16));
        }
        w.push(v);
    }
    let mut x: D8 = s;
    let mut t: usize = 0;
    while t < 80
        invariant
            t <= 80,
            w@.len() == 80,
            forall|i: int| 0 <= i < w@.len() ==> w@[i] == schedule512(block, i),
            x == rounds512(s, block, t as int),
        decreases 80 - t,
    {
        let t1: u64 = x.h.wrapping_add(rot_right64(x.e, 14) ^ rot_right64(x.e, 18) ^ rot_right64(x.e, 41)).wrapping_add(
            (x.e & x.f) ^ (!x.e & x.g),
        ).wrapping_add(K512[t]).wrapping_add(w[t]);
        let t2: u64 = (rot_right64(x.a, 28) ^ rot_right64(x.a, 34) ^ rot_right64(x.a, 39)).wrapping_add(
            (x.a & x.b) ^ (x.a & x.c) ^ (x.b & x.c),
        );
        x = D8 {
            a: t1.wrapping_add(t2),
            b: x.a,
            c: x.b,
            d: x.c,
            e: x.d.wrapping_add(t1),
            f: x.e,
            g: x.f,
            h: x.g,
        };
        t = t + 1;
    }
    D8 {
        a: s.a.wrapping_add(x.a),
        b: s.b.wrapping_add(x.b),
        c: s.c.wrapping_add(x.c),
        d: s.d.wrapping_add(x.d),
        e: s.e.wrapping_add(x.e),
        f: s.f.wrapping_add(x.f),
        g: s.g.wrapping_add(x.g),
        h: s.h.wrapping_add(x.h),
    }
}

} // verus!
