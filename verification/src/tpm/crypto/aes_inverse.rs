//! Decrypting an AES block undoes encrypting it.

use vstd::prelude::*;

use super::aes::{
    aes_key, decrypted_block, decrypting, encrypted_block, encrypting, mixed, round_key, rounds,
    shifted, times, twice, unmixed, unshifted, xored, INVERSE_SBOX, SBOX,
};

verus! {

/// The inverse substitution takes every octet back.
proof fn lemma_substitution(b: int)
    requires
        0 <= b < 256,
    ensures
        INVERSE_SBOX@[SBOX@[b] as int] == b,
{
}

/// Doubling goes through a sum.
proof fn lemma_twice_sum(a: u8, b: u8)
    ensures
        twice(a ^ b) == twice(a) ^ twice(b),
{
    assert(twice(a ^ b) == twice(a) ^ twice(b)) by (bit_vector);
}

/// Doubling goes through a sum of five.
proof fn lemma_twice_five(a: u8, b: u8, c: u8, d: u8, e: u8)
    ensures
        twice(a ^ b ^ c ^ d ^ e) == twice(a) ^ twice(b) ^ twice(c) ^ twice(d) ^ twice(e),
{
    lemma_twice_sum(a, b);
    lemma_twice_sum(a ^ b, c);
    lemma_twice_sum(a ^ b ^ c, d);
    lemma_twice_sum(a ^ b ^ c ^ d, e);
}

/// The terms of a column mixed and unmixed cancel, all but one. `a1` stands for
/// twice `a`, `a2` for four times `a`, and so on.
proof fn lemma_cancel(
    a: u8,
    a1: u8,
    a2: u8,
    a3: u8,
    a4: u8,
    b: u8,
    b1: u8,
    b2: u8,
    b3: u8,
    b4: u8,
    c: u8,
    c1: u8,
    c2: u8,
    c3: u8,
    c4: u8,
    d: u8,
    d1: u8,
    d2: u8,
    d3: u8,
    d4: u8,
)
    ensures
        ((a4 ^ b4 ^ b3 ^ c3 ^ d3) ^ (a3 ^ b3 ^ b2 ^ c2 ^ d2) ^ (a2 ^ b2 ^ b1 ^ c1 ^ d1)) ^ ((b4
            ^ c4 ^ c3 ^ d3 ^ a3) ^ (b2 ^ c2 ^ c1 ^ d1 ^ a1) ^ (b1 ^ c1 ^ c ^ d ^ a))
            ^ ((c4 ^ d4 ^ d3 ^ a3 ^ b3) ^ (c3 ^ d3 ^ d2 ^ a2 ^ b2) ^ (c1 ^ d1 ^ d ^ a
            ^ b)) ^ ((d4 ^ a4 ^ a3 ^ b3 ^ c3) ^ (d1 ^ a1 ^ a ^ b ^ c)) == a,
{
    assert(((a4 ^ b4 ^ b3 ^ c3 ^ d3) ^ (a3 ^ b3 ^ b2 ^ c2 ^ d2) ^ (a2 ^ b2 ^ b1 ^ c1 ^ d1)) ^ ((b4 ^ c4
        ^ c3 ^ d3 ^ a3) ^ (b2 ^ c2 ^ c1 ^ d1 ^ a1) ^ (b1 ^ c1 ^ c ^ d ^ a)) ^ ((c4 ^ d4 ^ d3
        ^ a3 ^ b3) ^ (c3 ^ d3 ^ d2 ^ a2 ^ b2) ^ (c1 ^ d1 ^ d ^ a ^ b)) ^ ((d4 ^ a4 ^ a3 ^ b3
        ^ c3) ^ (d1 ^ a1 ^ a ^ b ^ c)) == a) by (bit_vector);
}

/// Mixing a column is undone in its first row.
proof fn lemma_column(a: u8, b: u8, c: u8, d: u8)
    ensures
        ({
            let p = twice(a) ^ twice(b) ^ b ^ c ^ d;
            let q = twice(b) ^ twice(c) ^ c ^ d ^ a;
            let r = twice(c) ^ twice(d) ^ d ^ a ^ b;
            let s = twice(d) ^ twice(a) ^ a ^ b ^ c;
            times(p, 14) ^ times(q, 11) ^ times(r, 13) ^ times(s, 9) == a
        }),
{
    let a1 = twice(a);
    let a2 = twice(a1);
    let a3 = twice(a2);
    let a4 = twice(a3);
    let b1 = twice(b);
    let b2 = twice(b1);
    let b3 = twice(b2);
    let b4 = twice(b3);
    let c1 = twice(c);
    let c2 = twice(c1);
    let c3 = twice(c2);
    let c4 = twice(c3);
    let d1 = twice(d);
    let d2 = twice(d1);
    let d3 = twice(d2);
    let d4 = twice(d3);
    lemma_twice_five(a1, b1, b, c, d);
    lemma_twice_five(a2, b2, b1, c1, d1);
    lemma_twice_five(a3, b3, b2, c2, d2);
    lemma_twice_five(b1, c1, c, d, a);
    lemma_twice_five(b2, c2, c1, d1, a1);
    lemma_twice_five(b3, c3, c2, d2, a2);
    lemma_twice_five(c1, d1, d, a, b);
    lemma_twice_five(c2, d2, d1, a1, b1);
    lemma_twice_five(c3, d3, d2, a2, b2);
    lemma_twice_five(d1, a1, a, b, c);
    lemma_twice_five(d2, a2, a1, b1, c1);
    lemma_twice_five(d3, a3, a2, b2, c2);
    lemma_cancel(
        a,
        a1,
        a2,
        a3,
        a4,
        b,
        b1,
        b2,
        b3,
        b4,
        c,
        c1,
        c2,
        c3,
        c4,
        d,
        d1,
        d2,
        d3,
        d4,
    );
}

/// Mixing the columns of a block is undone.
proof fn lemma_unmixed(s: Seq<u8>)
    requires
        s.len() == 16,
    ensures
        unmixed(mixed(s)) == s,
{
    let m = mixed(s);
    assert forall|i: int| 0 <= i < 16 implies unmixed(m)[i] == s[i] by {
        let c = i - i % 4;
        let i1 = c + (i + 1) % 4;
        let i2 = c + (i + 2) % 4;
        let i3 = c + (i + 3) % 4;
        assert(c == i1 - i1 % 4 && c == i2 - i2 % 4 && c == i3 - i3 % 4);
        assert(c + (i1 + 1) % 4 == i2 && c + (i1 + 2) % 4 == i3 && c + (i1 + 3) % 4 == i);
        assert(c + (i2 + 1) % 4 == i3 && c + (i2 + 2) % 4 == i && c + (i2 + 3) % 4 == i1);
        assert(c + (i3 + 1) % 4 == i && c + (i3 + 2) % 4 == i1 && c + (i3 + 3) % 4 == i2);
        lemma_column(s[i], s[i1], s[i2], s[i3]);
    }
    assert(unmixed(m) =~= s);
}

/// Substituting the octets of a block and shifting its rows is undone.
proof fn lemma_unshifted(s: Seq<u8>)
    requires
        s.len() == 16,
    ensures
        unshifted(shifted(s)) == s,
{
    let m = shifted(s);
    assert forall|i: int| 0 <= i < 16 implies unshifted(m)[i] == s[i] by {
        let j = (i + 12 * (i % 4)) % 16;
        assert((j + 4 * (j % 4)) % 16 == i);
        lemma_substitution(s[i] as int);
    }
    assert(unshifted(m) =~= s);
}

/// Adding a key twice is adding nothing.
proof fn lemma_added_twice(s: Seq<u8>, key: Seq<u8>)
    requires
        s.len() == 16,
        key.len() == 16,
    ensures
        xored(xored(s, key), key) == s,
{
    assert forall|i: int| 0 <= i < 16 implies (s[i] ^ key[i]) ^ key[i] == s[i] by {
        let x = s[i];
        let y = key[i];
        assert((x ^ y) ^ y == x) by (bit_vector);
    }
    assert(xored(xored(s, key), key) =~= s);
}

/// Undoing the rounds from the last down to `r` leaves the block as it was in
/// the middle of round `r`.
proof fn lemma_rounds_undone(key: Seq<u8>, block: Seq<u8>, r: nat)
    requires
        block.len() == 16,
        1 <= r <= rounds(key.len()),
    ensures
        decrypting(key, encrypted_block(key, block), r) == shifted(
            encrypting(key, block, (r - 1) as nat),
        ),
    decreases rounds(key.len()) - r,
{
    let n = rounds(key.len());
    if r == n {
        lemma_added_twice(shifted(encrypting(key, block, (n - 1) as nat)), round_key(key, n));
    } else {
        lemma_rounds_undone(key, block, r + 1);
        let before = shifted(encrypting(key, block, (r - 1) as nat));
        lemma_unshifted(encrypting(key, block, r));
        lemma_added_twice(mixed(before), round_key(key, r));
        lemma_unmixed(before);
    }
}

/// What a key encrypts, block by block, the same key decrypts again.
pub proof fn law_a_block_decrypts_to_what_was_encrypted(key: Seq<u8>, block: Seq<u8>)
    requires
        aes_key(key.len()),
        block.len() == 16,
    ensures
        decrypted_block(key, encrypted_block(key, block)) == block,
{
    lemma_rounds_undone(key, block, 1);
    lemma_unshifted(encrypting(key, block, 0));
    lemma_added_twice(block, round_key(key, 0));
}

} // verus!
