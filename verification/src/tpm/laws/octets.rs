//! How numbers and values stand on the wire.

use vstd::prelude::*;

use crate::tpm::marshal::sized;
use crate::util::bytes::{
    be16, be32, be64, lemma_octets16, lemma_octets32, lemma_octets64, octets16, octets32, octets64,
};

verus! {

proof fn lemma_shifts(a: u8, b: u8, c: u8, d: u8, hi: u32, lo: u32)
    by (bit_vector)
    ensures
        ((a as u16) << 8 | (b as u16)) >> 8 == a as u16,
        ((a as u16) << 8 | (b as u16)) & 0xFF == b as u16,
        ((a as u32) << 24 | (b as u32) << 16 | (c as u32) << 8 | (d as u32)) >> 24 == a as u32,
        ((a as u32) << 24 | (b as u32) << 16 | (c as u32) << 8 | (d as u32)) >> 16 & 0xFF
            == b as u32,
        ((a as u32) << 24 | (b as u32) << 16 | (c as u32) << 8 | (d as u32)) >> 8 & 0xFF
            == c as u32,
        ((a as u32) << 24 | (b as u32) << 16 | (c as u32) << 8 | (d as u32)) & 0xFF == d as u32,
        ((hi as u64) << 32 | (lo as u64)) >> 32 == hi as u64,
        ((hi as u64) << 32 | (lo as u64)) & 0xFFFFFFFF == lo as u64,
{
}

proof fn lemma_zero()
    by (bit_vector)
    ensures
        (0u16 >> 8) as u8 == 0u8,
        0u16 as u8 == 0u8,
{
}

/// A number is read with its most significant octet first.
pub proof fn law_numbers_are_big_endian(s: Seq<u8>, i: int)
    ensures
        be16(s, i) >> 8 == s[i],
        be16(s, i) & 0xFF == s[i + 1],
        be32(s, i) >> 24 == s[i],
        be32(s, i) >> 16 & 0xFF == s[i + 1],
        be32(s, i) >> 8 & 0xFF == s[i + 2],
        be32(s, i) & 0xFF == s[i + 3],
        be64(s, i) >> 32 == be32(s, i),
        be64(s, i) & 0xFFFFFFFF == be32(s, i + 4),
{
    lemma_shifts(s[i], s[i + 1], s[i + 2], s[i + 3], be32(s, i), be32(s, i + 4));
}

/// What is written of a number is what it is read from.
pub proof fn law_numbers_are_written_as_they_are_read(v: u16, w: u32, x: u64)
    ensures
        octets16(v).len() == 2,
        be16(octets16(v), 0) == v,
        octets32(w).len() == 4,
        be32(octets32(w), 0) == w,
        octets64(x).len() == 8,
        be64(octets64(x), 0) == x,
{
    lemma_octets16(v);
    lemma_octets32(w);
    lemma_octets64(x);
}

/// A value of variable size has its size before it, in two octets.
pub proof fn law_a_size_stands_before_a_value(v: Seq<u8>)
    requires
        v.len() <= 0xFFFF,
    ensures
        sized(v).len() == v.len() + 2,
        be16(sized(v), 0) == v.len(),
        sized(v).skip(2) == v,
{
    lemma_octets16(v.len() as u16);
    assert(sized(v).skip(2) =~= v);
}

/// An empty value is two zero octets.
pub proof fn lemma_nothing()
    ensures
        sized(Seq::empty()) == seq![0u8, 0u8],
{
    lemma_zero();
    assert(sized(Seq::empty()) =~= seq![0u8, 0u8]);
}

} // verus!
