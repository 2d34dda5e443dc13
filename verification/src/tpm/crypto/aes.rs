//! The AES block cipher.

use vstd::prelude::*;

use crate::util::bytes::{sub_vec, to_vec};

verus! {

/// Octets in an AES block.
pub const BLOCK: usize = 16;

/// The AES substitution.
pub const SBOX: [u8; 256] = [
    0x63, 0x7C, 0x77, 0x7B, 0xF2, 0x6B, 0x6F, 0xC5, 0x30, 0x01, 0x67, 0x2B,
    0xFE, 0xD7, 0xAB, 0x76, 0xCA, 0x82, 0xC9, 0x7D, 0xFA, 0x59, 0x47, 0xF0,
    0xAD, 0xD4, 0xA2, 0xAF, 0x9C, 0xA4, 0x72, 0xC0, 0xB7, 0xFD, 0x93, 0x26,
    0x36, 0x3F, 0xF7, 0xCC, 0x34, 0xA5, 0xE5, 0xF1, 0x71, 0xD8, 0x31, 0x15,
    0x04, 0xC7, 0x23, 0xC3, 0x18, 0x96, 0x05, 0x9A, 0x07, 0x12, 0x80, 0xE2,
    0xEB, 0x27, 0xB2, 0x75, 0x09, 0x83, 0x2C, 0x1A, 0x1B, 0x6E, 0x5A, 0xA0,
    0x52, 0x3B, 0xD6, 0xB3, 0x29, 0xE3, 0x2F, 0x84, 0x53, 0xD1, 0x00, 0xED,
    0x20, 0xFC, 0xB1, 0x5B, 0x6A, 0xCB, 0xBE, 0x39, 0x4A, 0x4C, 0x58, 0xCF,
    0xD0, 0xEF, 0xAA, 0xFB, 0x43, 0x4D, 0x33, 0x85, 0x45, 0xF9, 0x02, 0x7F,
    0x50, 0x3C, 0x9F, 0xA8, 0x51, 0xA3, 0x40, 0x8F, 0x92, 0x9D, 0x38, 0xF5,
    0xBC, 0xB6, 0xDA, 0x21, 0x10, 0xFF, 0xF3, 0xD2, 0xCD, 0x0C, 0x13, 0xEC,
    0x5F, 0x97, 0x44, 0x17, 0xC4, 0xA7, 0x7E, 0x3D, 0x64, 0x5D, 0x19, 0x73,
    0x60, 0x81, 0x4F, 0xDC, 0x22, 0x2A, 0x90, 0x88, 0x46, 0xEE, 0xB8, 0x14,
    0xDE, 0x5E, 0x0B, 0xDB, 0xE0, 0x32, 0x3A, 0x0A, 0x49, 0x06, 0x24, 0x5C,
    0xC2, 0xD3, 0xAC, 0x62, 0x91, 0x95, 0xE4, 0x79, 0xE7, 0xC8, 0x37, 0x6D,
    0x8D, 0xD5, 0x4E, 0xA9, 0x6C, 0x56, 0xF4, 0xEA, 0x65, 0x7A, 0xAE, 0x08,
    0xBA, 0x78, 0x25, 0x2E, 0x1C, 0xA6, 0xB4, 0xC6, 0xE8, 0xDD, 0x74, 0x1F,
    0x4B, 0xBD, 0x8B, 0x8A, 0x70, 0x3E, 0xB5, 0x66, 0x48, 0x03, 0xF6, 0x0E,
    0x61, 0x35, 0x57, 0xB9, 0x86, 0xC1, 0x1D, 0x9E, 0xE1, 0xF8, 0x98, 0x11,
    0x69, 0xD9, 0x8E, 0x94, 0x9B, 0x1E, 0x87, 0xE9, 0xCE, 0x55, 0x28, 0xDF,
    0x8C, 0xA1, 0x89, 0x0D, 0xBF, 0xE6, 0x42, 0x68, 0x41, 0x99, 0x2D, 0x0F,
    0xB0, 0x54, 0xBB, 0x16,
];

/// The inverse of the AES substitution.
pub const INVERSE_SBOX: [u8; 256] = [
    0x52, 0x09, 0x6A, 0xD5, 0x30, 0x36, 0xA5, 0x38, 0xBF, 0x40, 0xA3, 0x9E,
    0x81, 0xF3, 0xD7, 0xFB, 0x7C, 0xE3, 0x39, 0x82, 0x9B, 0x2F, 0xFF, 0x87,
    0x34, 0x8E, 0x43, 0x44, 0xC4, 0xDE, 0xE9, 0xCB, 0x54, 0x7B, 0x94, 0x32,
    0xA6, 0xC2, 0x23, 0x3D, 0xEE, 0x4C, 0x95, 0x0B, 0x42, 0xFA, 0xC3, 0x4E,
    0x08, 0x2E, 0xA1, 0x66, 0x28, 0xD9, 0x24, 0xB2, 0x76, 0x5B, 0xA2, 0x49,
    0x6D, 0x8B, 0xD1, 0x25, 0x72, 0xF8, 0xF6, 0x64, 0x86, 0x68, 0x98, 0x16,
    0xD4, 0xA4, 0x5C, 0xCC, 0x5D, 0x65, 0xB6, 0x92, 0x6C, 0x70, 0x48, 0x50,
    0xFD, 0xED, 0xB9, 0xDA, 0x5E, 0x15, 0x46, 0x57, 0xA7, 0x8D, 0x9D, 0x84,
    0x90, 0xD8, 0xAB, 0x00, 0x8C, 0xBC, 0xD3, 0x0A, 0xF7, 0xE4, 0x58, 0x05,
    0xB8, 0xB3, 0x45, 0x06, 0xD0, 0x2C, 0x1E, 0x8F, 0xCA, 0x3F, 0x0F, 0x02,
    0xC1, 0xAF, 0xBD, 0x03, 0x01, 0x13, 0x8A, 0x6B, 0x3A, 0x91, 0x11, 0x41,
    0x4F, 0x67, 0xDC, 0xEA, 0x97, 0xF2, 0xCF, 0xCE, 0xF0, 0xB4, 0xE6, 0x73,
    0x96, 0xAC, 0x74, 0x22, 0xE7, 0xAD, 0x35, 0x85, 0xE2, 0xF9, 0x37, 0xE8,
    0x1C, 0x75, 0xDF, 0x6E, 0x47, 0xF1, 0x1A, 0x71, 0x1D, 0x29, 0xC5, 0x89,
    0x6F, 0xB7, 0x62, 0x0E, 0xAA, 0x18, 0xBE, 0x1B, 0xFC, 0x56, 0x3E, 0x4B,
    0xC6, 0xD2, 0x79, 0x20, 0x9A, 0xDB, 0xC0, 0xFE, 0x78, 0xCD, 0x5A, 0xF4,
    0x1F, 0xDD, 0xA8, 0x33, 0x88, 0x07, 0xC7, 0x31, 0xB1, 0x12, 0x10, 0x59,
    0x27, 0x80, 0xEC, 0x5F, 0x60, 0x51, 0x7F, 0xA9, 0x19, 0xB5, 0x4A, 0x0D,
    0x2D, 0xE5, 0x7A, 0x9F, 0x93, 0xC9, 0x9C, 0xEF, 0xA0, 0xE0, 0x3B, 0x4D,
    0xAE, 0x2A, 0xF5, 0xB0, 0xC8, 0xEB, 0xBB, 0x3C, 0x83, 0x53, 0x99, 0x61,
    0x17, 0x2B, 0x04, 0x7E, 0xBA, 0x77, 0xD6, 0x26, 0xE1, 0x69, 0x14, 0x63,
    0x55, 0x21, 0x0C, 0x7D,
];

/// Twice an element of the field AES works in.
pub open spec fn twice(b: u8) -> u8 {
    if b & 0x80 != 0 {
        (b << 1) ^ 0x1B
    } else {
        b << 1
    }
}

fn double(b: u8) -> (r: u8)
    ensures
        r == twice(b),
{
    if b & 0x80 != 0 {
        (b << 1) ^ 0x1B
    } else {
        b << 1
    }
}

/// An element times 9, 11, 13 or 14.
pub open spec fn times(b: u8, n: u8) -> u8 {
    let two = twice(b);
    let four = twice(two);
    let eight = twice(four);
    if n == 9 {
        eight ^ b
    } else if n == 11 {
        eight ^ two ^ b
    } else if n == 13 {
        eight ^ four ^ b
    } else {
        eight ^ four ^ two
    }
}

fn multiple(b: u8, n: u8) -> (r: u8)
    ensures
        r == times(b, n),
{
    let two: u8 = double(b);
    let four: u8 = double(two);
    let eight: u8 = double(four);
    if n == 9 {
        eight ^ b
    } else if n == 11 {
        eight ^ two ^ b
    } else if n == 13 {
        eight ^ four ^ b
    } else {
        eight ^ four ^ two
    }
}

/// Octets of `a` and `b` combined by exclusive or, as many as both have.
pub open spec fn xored(a: Seq<u8>, b: Seq<u8>) -> Seq<u8> {
    Seq::new(
        if a.len() <= b.len() {
            a.len()
        } else {
            b.len()
        },
        |i: int| a[i] ^ b[i],
    )
}

/// Octets of `a` and `b` combined by exclusive or, as many as both have.
pub fn xor(a: &[u8], b: &[u8]) -> (r: Vec<u8>)
    ensures
        r@ == xored(a@, b@),
{
    let n: usize = if a.len() <= b.len() {
        a.len()
    } else {
        b.len()
    };
    let mut out: Vec<u8> = Vec::new();
    let mut i: usize = 0;
    while i < n
        invariant
            i <= n,
            n <= a@.len(),
            n <= b@.len(),
            out@.len() == i,
            forall|j: int| 0 <= j < i ==> #[trigger] out@[j] == a@[j] ^ b@[j],
        decreases n - i,
    {
        out.push(a[i] ^ b[i]);
        i = i + 1;
    }
    assert(out@ =~= xored(a@, b@));
    out
}

/// True for the octets of an AES key.
pub open spec fn aes_key(n: nat) -> bool {
    n == 16 || n == 24 || n == 32
}

/// The constant of a key schedule round.
pub open spec fn round_constant(n: nat) -> u8
    decreases n,
{
    if n <= 1 {
        1
    } else {
        twice(round_constant((n - 1) as nat))
    }
}

/// Each octet of a word substituted.
pub open spec fn substituted(w: Seq<u8>) -> Seq<u8> {
    Seq::new(w.len(), |i: int| SBOX@[w[i] as int])
}

/// Word `i` of the key schedule.
pub open spec fn word(key: Seq<u8>, i: nat) -> Seq<u8>
    decreases i,
{
    let nk = key.len() / 4;
    if i < nk || nk == 0 {
        quad(key, i)
    } else {
        let t = word(key, (i - 1) as nat);
        let u = if i % nk == 0 {
            let rotated = seq![t[1], t[2], t[3], t[0]];
            let s = substituted(rotated);
            seq![s[0] ^ round_constant((i / nk) as nat), s[1], s[2], s[3]]
        } else if nk > 6 && i % nk == 4 {
            substituted(t)
        } else {
            t
        };
        xored(word(key, (i - nk) as nat), u)
    }
}

/// The rounds of a key of `n` octets.
pub open spec fn rounds(n: nat) -> nat {
    n / 4 + 6
}

/// The key of round `r`.
pub open spec fn round_key(key: Seq<u8>, r: nat) -> Seq<u8> {
    Seq::new(16, |k: int| word(key, (4 * r + k / 4) as nat)[k % 4])
}

proof fn lemma_word_len(key: Seq<u8>, i: nat)
    requires
        aes_key(key.len()),
    ensures
        word(key, i).len() == 4,
    decreases i,
{
    let nk = key.len() / 4;
    if i >= nk {
        lemma_word_len(key, (i - 1) as nat);
        lemma_word_len(key, (i - nk) as nat);
    }
}

/// Four octets of `s`, the ones of word `i`.
pub open spec fn quad(s: Seq<u8>, i: nat) -> Seq<u8> {
    s.subrange(4 * (i as int), 4 * (i as int) + 4)
}

/// True when `words` is the key schedule of `key`.
pub open spec fn is_schedule(words: Seq<u8>, key: Seq<u8>) -> bool {
    &&& aes_key(key.len())
    &&& words.len() == 16 * (rounds(key.len()) + 1)
    &&& forall|i: nat|
        i < 4 * (rounds(key.len()) + 1) ==> quad(words, i) == #[trigger] word(key, i)
}

/// The words of the key schedule, one after the other.
fn schedule(key: &[u8]) -> (r: Vec<u8>)
    requires
        aes_key(key@.len()),
    ensures
        is_schedule(r@, key@),
{
    let nk: usize = key.len() / 4;
    let total: usize = 4 * (nk + 7);
    let mut out: Vec<u8> = to_vec(key);
    let mut i: usize = nk;
    let mut constant: u8 = 1;
    assert forall|j: nat| j < nk implies quad(out@, j) == #[trigger] word(key@, j) by {}
    while i < total
        invariant
            aes_key(key@.len()),
            nk == key@.len() / 4,
            nk == 4 || nk == 6 || nk == 8,
            total == 4 * (nk + 7),
            nk <= i <= total,
            out@.len() == 4 * i,
            constant == round_constant(((i - 1) / nk as int + 1) as nat),
            forall|j: nat|
                j < i ==> quad(out@, j) == #[trigger] word(key@, j),
        decreases total - i,
    {
        let ghost before = out@;
        let ghost wi = word(key@, i as nat);
        let at: usize = 4 * (i - 1);
        let back: usize = 4 * (i - nk);
        proof {
            lemma_word_len(key@, (i - 1) as nat);
            lemma_word_len(key@, (i - nk) as nat);
            let t = word(key@, (i - 1) as nat);
            assert(quad(before, (i - 1) as nat) == t);
            assert(t[0] == before[at as int] && t[1] == before[at + 1] && t[2] == before[at + 2]
                && t[3] == before[at + 3]);
            let b = word(key@, (i - nk) as nat);
            assert(quad(before, (i - nk) as nat) == b);
            assert(b[0] == before[back as int] && b[1] == before[back + 1] && b[2] == before[back
                + 2] && b[3] == before[back + 3]);
        }
        let t0: u8 = out[at];
        let t1: u8 = out[at + 1];
        let t2: u8 = out[at + 2];
        let t3: u8 = out[at + 3];
        let mut u0: u8 = t0;
        let mut u1: u8 = t1;
        let mut u2: u8 = t2;
        let mut u3: u8 = t3;
        if i % nk == 0 {
            assert((i - 1) / nk as int + 1 == i / nk) by (nonlinear_arith)
                requires
                    i % nk == 0,
                    nk > 0,
                    i > 0,
            ;
            u0 = SBOX[t1 as usize] ^ constant;
            u1 = SBOX[t2 as usize];
            u2 = SBOX[t3 as usize];
            u3 = SBOX[t0 as usize];
        } else if nk > 6 && i % nk == 4 {
            u0 = SBOX[t0 as usize];
            u1 = SBOX[t1 as usize];
            u2 = SBOX[t2 as usize];
            u3 = SBOX[t3 as usize];
        }
        let b0: u8 = out[back];
        let b1: u8 = out[back + 1];
        let b2: u8 = out[back + 2];
        let b3: u8 = out[back + 3];
        out.push(b0 ^ u0);
        out.push(b1 ^ u1);
        out.push(b2 ^ u2);
        out.push(b3 ^ u3);
        proof {
            assert(quad(out@, i as nat) =~= wi);
            assert forall|j: nat| j < i + 1 implies quad(out@, j)
                == #[trigger] word(key@, j) by {
                if j < i {
                    assert(quad(out@, j) =~= quad(before, j));
                }
            }
        }
        if i % nk == 0 {
            constant = double(constant);
            assert((i + 1 - 1) / nk as int + 1 == (i - 1) / nk as int + 2) by (nonlinear_arith)
                requires
                    i % nk == 0,
                    nk > 0,
                    i > 0,
            ;
        } else {
            assert((i + 1 - 1) / nk as int == (i - 1) / nk as int) by (nonlinear_arith)
                requires
                    i % nk != 0,
                    nk > 0,
                    i > 0,
            ;
        }
        i = i + 1;
    }
    out
}

/// The key of round `r` out of the key schedule.
fn take_round_key(words: &[u8], r: usize, Ghost(key): Ghost<Seq<u8>>) -> (out: Vec<u8>)
    requires
        aes_key(key.len()),
        r <= rounds(key.len()),
        is_schedule(words@, key),
    ensures
        out@ == round_key(key, r as nat),
{
    let out: Vec<u8> = sub_vec(words, 16 * r, 16 * r + 16);
    assert forall|k: int| 0 <= k < 16 implies out@[k] == round_key(key, r as nat)[k] by {
        let i = (4 * r + k / 4) as nat;
        lemma_word_len(key, i);
        assert(quad(words@, i) == word(key, i));
        assert(quad(words@, i)[k % 4] == words@[4 * i + k % 4]);
    }
    assert(out@ =~= round_key(key, r as nat));
    out
}

/// The octets of a block substituted and its rows shifted.
pub open spec fn shifted(s: Seq<u8>) -> Seq<u8> {
    Seq::new(16, |i: int| SBOX@[s[(i + 4 * (i % 4)) % 16] as int])
}

/// The columns of a block mixed.
pub open spec fn mixed(s: Seq<u8>) -> Seq<u8> {
    Seq::new(
        16,
        |i: int|
            {
                let c = i - i % 4;
                let a = s[i];
                let b = s[c + (i + 1) % 4];
                twice(a) ^ twice(b) ^ b ^ s[c + (i + 2) % 4] ^ s[c + (i + 3) % 4]
            },
    )
}

/// A block after `r` rounds, of which none is the last.
pub open spec fn encrypting(key: Seq<u8>, block: Seq<u8>, r: nat) -> Seq<u8>
    decreases r,
{
    if r == 0 {
        xored(block, round_key(key, 0))
    } else {
        xored(mixed(shifted(encrypting(key, block, (r - 1) as nat))), round_key(key, r))
    }
}

/// An AES block encrypted.
pub open spec fn encrypted_block(key: Seq<u8>, block: Seq<u8>) -> Seq<u8> {
    let n = rounds(key.len());
    xored(shifted(encrypting(key, block, (n - 1) as nat)), round_key(key, n))
}

/// The rows of a block shifted back and its octets substituted back.
pub open spec fn unshifted(s: Seq<u8>) -> Seq<u8> {
    Seq::new(16, |i: int| INVERSE_SBOX@[s[(i + 12 * (i % 4)) % 16] as int])
}

/// The columns of a block as they were before they were mixed.
pub open spec fn unmixed(s: Seq<u8>) -> Seq<u8> {
    Seq::new(
        16,
        |i: int|
            {
                let c = i - i % 4;
                times(s[i], 14) ^ times(s[c + (i + 1) % 4], 11) ^ times(
                    s[c + (i + 2) % 4],
                    13,
                ) ^ times(s[c + (i + 3) % 4], 9)
            },
    )
}

/// A block with the rounds from the last down to `r` undone.
pub open spec fn decrypting(key: Seq<u8>, block: Seq<u8>, r: nat) -> Seq<u8>
    decreases rounds(key.len()) - r,
{
    let n = rounds(key.len());
    if r >= n {
        xored(block, round_key(key, n))
    } else {
        unmixed(xored(unshifted(decrypting(key, block, r + 1)), round_key(key, r)))
    }
}

/// An AES block decrypted.
pub open spec fn decrypted_block(key: Seq<u8>, block: Seq<u8>) -> Seq<u8> {
    xored(unshifted(decrypting(key, block, 1)), round_key(key, 0))
}

fn shift(s: &[u8]) -> (r: Vec<u8>)
    requires
        s@.len() == 16,
    ensures
        r@ == shifted(s@),
{
    let mut out: Vec<u8> = Vec::new();
    let mut i: usize = 0;
    while i < 16
        invariant
            i <= 16,
            s@.len() == 16,
            out@.len() == i,
            forall|j: int| 0 <= j < i ==> #[trigger] out@[j] == shifted(s@)[j],
        decreases 16 - i,
    {
        out.push(SBOX[s[(i + 4 * (i % 4)) % 16] as usize]);
        i = i + 1;
    }
    assert(out@ =~= shifted(s@));
    out
}

fn unshift(s: &[u8]) -> (r: Vec<u8>)
    requires
        s@.len() == 16,
    ensures
        r@ == unshifted(s@),
{
    let mut out: Vec<u8> = Vec::new();
    let mut i: usize = 0;
    while i < 16
        invariant
            i <= 16,
            s@.len() == 16,
            out@.len() == i,
            forall|j: int| 0 <= j < i ==> #[trigger] out@[j] == unshifted(s@)[j],
        decreases 16 - i,
    {
        out.push(INVERSE_SBOX[s[(i + 12 * (i % 4)) % 16] as usize]);
        i = i + 1;
    }
    assert(out@ =~= unshifted(s@));
    out
}

fn mix(s: &[u8]) -> (r: Vec<u8>)
    requires
        s@.len() == 16,
    ensures
        r@ == mixed(s@),
{
    let mut out: Vec<u8> = Vec::new();
    let mut i: usize = 0;
    while i < 16
        invariant
            i <= 16,
            s@.len() == 16,
            out@.len() == i,
            forall|j: int| 0 <= j < i ==> #[trigger] out@[j] == mixed(s@)[j],
        decreases 16 - i,
    {
        let c: usize = i - i % 4;
        let b: u8 = s[c + (i + 1) % 4];
        out.push(double(s[i]) ^ double(b) ^ b ^ s[c + (i + 2) % 4] ^ s[c + (i + 3) % 4]);
        i = i + 1;
    }
    assert(out@ =~= mixed(s@));
    out
}

fn unmix(s: &[u8]) -> (r: Vec<u8>)
    requires
        s@.len() == 16,
    ensures
        r@ == unmixed(s@),
{
    let mut out: Vec<u8> = Vec::new();
    let mut i: usize = 0;
    while i < 16
        invariant
            i <= 16,
            s@.len() == 16,
            out@.len() == i,
            forall|j: int| 0 <= j < i ==> #[trigger] out@[j] == unmixed(s@)[j],
        decreases 16 - i,
    {
        let c: usize = i - i % 4;
        out.push(
            multiple(s[i], 14) ^ multiple(s[c + (i + 1) % 4], 11) ^ multiple(
                s[c + (i + 2) % 4],
                13,
            ) ^ multiple(s[c + (i + 3) % 4], 9),
        );
        i = i + 1;
    }
    assert(out@ =~= unmixed(s@));
    out
}

/// Encrypt one block.
fn encrypt_block(words: &[u8], block: &[u8], Ghost(key): Ghost<Seq<u8>>) -> (r: Vec<u8>)
    requires
        aes_key(key.len()),
        block@.len() == 16,
        is_schedule(words@, key),
    ensures
        r@ == encrypted_block(key, block@),
        r@.len() == 16,
{
    let n: usize = words.len() / 16 - 1;
    let first: Vec<u8> = take_round_key(words, 0, Ghost(key));
    let mut s: Vec<u8> = xor(block, first.as_slice());
    let mut i: usize = 1;
    while i < n
        invariant
            aes_key(key.len()),
            n == rounds(key.len()),
            1 <= i <= n,
            block@.len() == 16,
            is_schedule(words@, key),
            s@.len() == 16,
            s@ == encrypting(key, block@, (i - 1) as nat),
        decreases n - i,
    {
        let a: Vec<u8> = shift(s.as_slice());
        let b: Vec<u8> = mix(a.as_slice());
        let k: Vec<u8> = take_round_key(words, i, Ghost(key));
        s = xor(b.as_slice(), k.as_slice());
        i = i + 1;
    }
    let a: Vec<u8> = shift(s.as_slice());
    let k: Vec<u8> = take_round_key(words, n, Ghost(key));
    xor(a.as_slice(), k.as_slice())
}

/// Decrypt one block.
fn decrypt_block(words: &[u8], block: &[u8], Ghost(key): Ghost<Seq<u8>>) -> (r: Vec<u8>)
    requires
        aes_key(key.len()),
        block@.len() == 16,
        is_schedule(words@, key),
    ensures
        r@ == decrypted_block(key, block@),
        r@.len() == 16,
{
    let n: usize = words.len() / 16 - 1;
    let last: Vec<u8> = take_round_key(words, n, Ghost(key));
    let mut s: Vec<u8> = xor(block, last.as_slice());
    let mut i: usize = n;
    while i > 1
        invariant
            aes_key(key.len()),
            n == rounds(key.len()),
            1 <= i <= n,
            block@.len() == 16,
            is_schedule(words@, key),
            s@.len() == 16,
            s@ == decrypting(key, block@, i as nat),
        decreases i,
    {
        i = i - 1;
        let a: Vec<u8> = unshift(s.as_slice());
        let k: Vec<u8> = take_round_key(words, i, Ghost(key));
        let b: Vec<u8> = xor(a.as_slice(), k.as_slice());
        s = unmix(b.as_slice());
    }
    let a: Vec<u8> = unshift(s.as_slice());
    let k: Vec<u8> = take_round_key(words, 0, Ghost(key));
    xor(a.as_slice(), k.as_slice())
}

/// An AES key, ready to be used.
pub struct Aes {
    words: Vec<u8>,
    key: Ghost<Seq<u8>>,
}

impl Aes {
    /// The octets of the key.
    pub closed spec fn key(&self) -> Seq<u8> {
        self.key@
    }

    #[verifier::type_invariant]
    spec fn expanded(self) -> bool {
        is_schedule(self.words@, self.key@)
    }

    /// A key of 16, 24 or 32 octets.
    pub fn new(key: &[u8]) -> (r: Option<Aes>)
        ensures
            r is Some <==> aes_key(key@.len()),
            r matches Some(a) ==> a.key() == key@,
    {
        if key.len() != 16 && key.len() != 24 && key.len() != 32 {
            return None;
        }
        let words: Vec<u8> = schedule(key);
        Some(Aes { words, key: Ghost(key@) })
    }

    /// Encrypt one block.
    pub fn encrypt(&self, block: &[u8]) -> (r: Vec<u8>)
        requires
            block@.len() == 16,
        ensures
            r@ == encrypted_block(self.key(), block@),
            r@.len() == 16,
    {
        proof {
            use_type_invariant(self);
        }
        encrypt_block(self.words.as_slice(), block, Ghost(self.key@))
    }

    /// Decrypt one block.
    pub fn decrypt(&self, block: &[u8]) -> (r: Vec<u8>)
        requires
            block@.len() == 16,
        ensures
            r@ == decrypted_block(self.key(), block@),
            r@.len() == 16,
    {
        proof {
            use_type_invariant(self);
        }
        decrypt_block(self.words.as_slice(), block, Ghost(self.key@))
    }
}

} // verus!
