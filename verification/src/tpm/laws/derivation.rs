//! How keys are derived.

use vstd::prelude::*;

use crate::tpm::crypto::hash::{hash_of, lemma_hash_len, size_of, supported};
use crate::tpm::crypto::hmac::{
    blocks_for, hmac_of, kdfa, kdfa_blocks, kdfa_input, kdfe_of, octets_for,
};
use crate::util::bytes::octets32;

verus! {

/// A key as long as the block of its hash: hashed where it is longer, and filled up
/// with zeros.
pub open spec fn filled_key(h: u16, key: Seq<u8>, i: int) -> u8 {
    let block: int = if h == 0x000C || h == 0x000D {
        128
    } else {
        64
    };
    let short = if key.len() > block {
        hash_of(h, key)
    } else {
        key
    };
    if i < short.len() {
        short[i]
    } else {
        0
    }
}

/// An HMAC hashes the data behind the key with 36, and the result behind the key with
/// 5C.
pub proof fn law_an_hmac_is_two_hashes(
    h: u16,
    key: Seq<u8>,
    data: Seq<u8>,
    inner: Seq<u8>,
    outer: Seq<u8>,
)
    requires
        inner.len() == if h == 0x000C || h == 0x000D {
            128int
        } else {
            64int
        },
        outer.len() == inner.len(),
        forall|i: int| 0 <= i < inner.len() ==> #[trigger] inner[i] == filled_key(h, key, i) ^ 0x36,
        forall|i: int| 0 <= i < outer.len() ==> #[trigger] outer[i] == filled_key(h, key, i) ^ 0x5C,
    ensures
        hmac_of(h, key, data) == hash_of(h, outer + hash_of(h, inner + data)),
{
    reveal(hmac_of);
    let k = crate::tpm::crypto::hmac::block_key(h, key);
    assert(k.map_values(|b: u8| b ^ 0x36u8) =~= inner);
    assert(k.map_values(|b: u8| b ^ 0x5cu8) =~= outer);
}

proof fn lemma_hmac_len(h: u16, key: Seq<u8>, data: Seq<u8>)
    requires
        supported(h),
    ensures
        hmac_of(h, key, data).len() == size_of(h),
{
    broadcast use lemma_hash_len;

    reveal(hmac_of);
}

proof fn lemma_blocks(h: u16, key: Seq<u8>, input: Seq<u8>, n: nat, i: int)
    requires
        supported(h),
        0 <= i,
    ensures
        kdfa_blocks(h, key, input, n).len() == n * size_of(h),
        i < n * size_of(h) ==> kdfa_blocks(h, key, input, n)[i] == hmac_of(
            h,
            key,
            octets32((i / size_of(h) as int + 1) as u32) + input,
        )[i % size_of(h) as int],
    decreases n,
{
    let size = size_of(h) as int;
    if n > 0 {
        lemma_blocks(h, key, input, (n - 1) as nat, i);
        lemma_hmac_len(h, key, octets32(n as u32) + input);
        assert(n * size == (n - 1) * size + size) by (nonlinear_arith);
        if (n - 1) * size <= i < n * size {
            assert(i / size == n - 1 && i % size == i - (n - 1) * size) by (nonlinear_arith)
                requires
                    size > 0,
                    (n - 1) * size <= i < (n - 1) * size + size,
            ;
        }
    } else {
        assert(n * size == 0) by (nonlinear_arith)
            requires
                n == 0,
        ;
    }
}

/// The octets that KDFa derives: octet `i` is octet `i % size` of the HMAC under the
/// key of the number `i / size + 1`, the label, a zero octet, both contexts and the
/// number of bits.
pub proof fn law_kdfa_counts_hmacs(
    h: u16,
    key: Seq<u8>,
    label: Seq<u8>,
    u: Seq<u8>,
    v: Seq<u8>,
    bits: u32,
    i: int,
)
    requires
        supported(h),
        bits % 8 == 0,
        0 <= i < bits / 8,
        label.len() > 0,
        label.last() != 0,
    ensures
        kdfa(h, key, label, u, v, bits).len() == bits / 8,
        kdfa(h, key, label, u, v, bits)[i] == hmac_of(
            h,
            key,
            octets32((i / size_of(h) as int + 1) as u32) + (label + seq![0u8] + u + v + octets32(
                bits,
            )),
        )[i % size_of(h) as int],
{
    reveal(kdfa);
    let size = size_of(h) as int;
    let want = octets_for(bits);
    let n = blocks_for(want, size_of(h));
    lemma_blocks(h, key, kdfa_input(label, u, v, bits), n, i);
    assert(want == bits / 8);
    assert(n * size >= want) by (nonlinear_arith)
        requires
            n == (want + size - 1) / size,
            size > 0,
    ;
}

/// A label that ends with a zero octet gives the same as without it.
pub proof fn law_a_label_ends_once(
    h: u16,
    key: Seq<u8>,
    label: Seq<u8>,
    u: Seq<u8>,
    v: Seq<u8>,
    bits: u32,
)
    requires
        label.len() > 0,
        label.last() != 0,
    ensures
        kdfa(h, key, label + seq![0u8], u, v, bits) == kdfa(h, key, label, u, v, bits),
{
    reveal(kdfa);
    let ended = label + seq![0u8];
    assert(ended + Seq::<u8>::empty() =~= ended);
}

/// KDFe hashes the number one, the shared secret, the label and both parties.
pub proof fn law_kdfe_hashes_the_secret(
    h: u16,
    z: Seq<u8>,
    label: Seq<u8>,
    u: Seq<u8>,
    v: Seq<u8>,
)
    ensures
        kdfe_of(h, z, label, u, v) == hash_of(h, seq![0u8, 0u8, 0u8, 1u8] + z + label + u + v),
{
    assert(octets32(1) =~= seq![0u8, 0u8, 0u8, 1u8]) by {
        lemma_one();
    }
}

proof fn lemma_one()
    by (bit_vector)
    ensures
        (1u32 >> 24) as u8 == 0u8,
        (1u32 >> 16) as u8 == 0u8,
        (1u32 >> 8) as u8 == 0u8,
        1u32 as u8 == 1u8,
{
}

} // verus!
