//! HMAC and the key derivation functions built on it.

use vstd::prelude::*;

use super::hash::{
    block_of, digest, digest_size, hash_of, is_supported, lemma_hash_len, size_of, supported,
};
use crate::tpm::constants::{alg, rc};
use crate::tpm::error::{TpmRc, TpmResult};
use crate::util::bytes::{octets32, push_be32, to_vec};

verus! {

/// The key as an HMAC uses it: hashed when it is longer than a block, then
/// filled with zeros to a whole block.
pub open spec fn block_key(hash_alg: u16, key: Seq<u8>) -> Seq<u8> {
    let block = block_of(hash_alg);
    let short = if key.len() > block {
        hash_of(hash_alg, key)
    } else {
        key
    };
    Seq::new(block, |i: int| if i < short.len() { short[i] } else { 0u8 })
}

/// HMAC of `data` under `key`.
#[verifier::opaque]
pub open spec fn hmac_of(hash_alg: u16, key: Seq<u8>, data: Seq<u8>) -> Seq<u8> {
    let k = block_key(hash_alg, key);
    let inner = k.map_values(|b: u8| b ^ 0x36u8);
    let outer = k.map_values(|b: u8| b ^ 0x5cu8);
    hash_of(hash_alg, outer + hash_of(hash_alg, inner + data))
}

/// An HMAC has the size of its digest.
pub broadcast proof fn lemma_hmac_len(hash_alg: u16, key: Seq<u8>, data: Seq<u8>)
    ensures
        (#[trigger] hmac_of(hash_alg, key, data)).len() == size_of(hash_alg),
{
    reveal(hmac_of);
    broadcast use lemma_hash_len;

}

/// HMAC of `data` under `key`.
pub fn hmac(hash_alg: u16, key: &[u8], data: &[u8]) -> (r: TpmResult<Vec<u8>>)
    ensures
        r is Ok <==> supported(hash_alg),
        r matches Ok(d) ==> d@ == hmac_of(hash_alg, key@, data@),
        r matches Err(e) ==> e == TpmRc(rc::HASH),
{
    broadcast use lemma_hash_len;

    if !is_supported(hash_alg) {
        return Err(TpmRc(rc::HASH));
    }
    proof {
        reveal(hmac_of);
    }
    let block: usize = if hash_alg == alg::SHA384 || hash_alg == alg::SHA512 {
        128
    } else {
        64
    };
    let short: Vec<u8> = if key.len() > block {
        digest(hash_alg, key)?
    } else {
        to_vec(key)
    };
    let ghost k = block_key(hash_alg, key@);
    let ghost ipad = k.map_values(|b: u8| b ^ 0x36u8);
    let ghost opad = k.map_values(|b: u8| b ^ 0x5cu8);
    let mut inner: Vec<u8> = Vec::with_capacity(block);
    let mut outer: Vec<u8> = Vec::with_capacity(block);
    let mut i: usize = 0;
    while i < block
        invariant
            i <= block,
            block == block_of(hash_alg),
            short@.len() <= block,
            k.len() == block,
            forall|j: int|
                0 <= j < block ==> k[j] == (if j < short@.len() {
                    short@[j]
                } else {
                    0u8
                }),
            ipad == k.map_values(|b: u8| b ^ 0x36u8),
            opad == k.map_values(|b: u8| b ^ 0x5cu8),
            inner@ == ipad.subrange(0, i as int),
            outer@ == opad.subrange(0, i as int),
        decreases block - i,
    {
        let b: u8 = if i < short.len() {
            short[i]
        } else {
            0
        };
        inner.push(b ^ 0x36);
        outer.push(b ^ 0x5c);
        i = i + 1;
        assert(inner@ =~= ipad.subrange(0, i as int));
        assert(outer@ =~= opad.subrange(0, i as int));
    }
    inner.extend_from_slice(data);
    assert(inner@ =~= ipad + data@);
    let first: Vec<u8> = digest(hash_alg, &inner)?;
    outer.extend_from_slice(&first);
    assert(outer@ =~= opad + first@);
    digest(hash_alg, &outer)
}

/// What KDFa feeds the HMAC after its counter: the label with its zero octet,
/// the two contexts and the number of bits asked for.
pub open spec fn kdfa_input(label: Seq<u8>, u: Seq<u8>, v: Seq<u8>, bits: u32) -> Seq<u8> {
    label + (if label.len() > 0 && label.last() == 0 {
        Seq::<u8>::empty()
    } else {
        seq![0u8]
    }) + u + v + octets32(bits)
}

/// The first `n` blocks of the KDFa stream.
pub open spec fn kdfa_blocks(hash_alg: u16, key: Seq<u8>, input: Seq<u8>, n: nat) -> Seq<u8>
    decreases n,
{
    if n == 0 {
        Seq::empty()
    } else {
        kdfa_blocks(hash_alg, key, input, (n - 1) as nat) + hmac_of(
            hash_alg,
            key,
            octets32(n as u32) + input,
        )
    }
}

/// Octets that hold `bits` bits.
pub open spec fn octets_for(bits: u32) -> nat {
    ((bits as int + 7) / 8) as nat
}

/// Blocks of `size` octets that hold `want` octets.
pub open spec fn blocks_for(want: nat, size: nat) -> nat {
    if size == 0 {
        0
    } else {
        ((want + size - 1) / (size as int)) as nat
    }
}

/// KDFa: the leading octets of the stream, with the bits above the number
/// asked for cleared in the first octet.
#[verifier::opaque]
pub open spec fn kdfa(
    hash_alg: u16,
    key: Seq<u8>,
    label: Seq<u8>,
    u: Seq<u8>,
    v: Seq<u8>,
    bits: u32,
) -> Seq<u8> {
    let want = octets_for(bits);
    let stream = kdfa_blocks(
        hash_alg,
        key,
        kdfa_input(label, u, v, bits),
        blocks_for(want, size_of(hash_alg)),
    ).take(want as int);
    if bits % 8 != 0 && want > 0 {
        stream.update(0, stream[0] & (0xffu8 >> ((8 - bits % 8) as u32)))
    } else {
        stream
    }
}

proof fn lemma_blocks_len(hash_alg: u16, key: Seq<u8>, input: Seq<u8>, n: nat)
    ensures
        kdfa_blocks(hash_alg, key, input, n).len() == n * size_of(hash_alg),
    decreases n,
{
    broadcast use lemma_hmac_len;

    if n > 0 {
        lemma_blocks_len(hash_alg, key, input, (n - 1) as nat);
        let size = size_of(hash_alg);
        assert((n - 1) * size + size == n * size) by (nonlinear_arith);
    }
}

proof fn lemma_blocks_enough(want: nat, size: nat)
    requires
        size > 0,
    ensures
        blocks_for(want, size) * size >= want,
        forall|m: nat| m < blocks_for(want, size) ==> #[trigger] (m * size) < want,
{
    let n = blocks_for(want, size);
    let s = size as int;
    assert(n * s >= want && (n - 1) * s < want) by (nonlinear_arith)
        requires
            s > 0,
            n == (want + s - 1) / s,
            want >= 0,
    ;
    assert forall|m: nat| m < n implies #[trigger] (m * size) < want by {
        assert(m * size <= (n - 1) * s) by (nonlinear_arith)
            requires
                m <= n - 1,
                s == size,
                s > 0,
        ;
    }
}

/// KDFa gives exactly the octets that hold the bits asked for.
pub proof fn lemma_kdfa_len(
    hash_alg: u16,
    key: Seq<u8>,
    label: Seq<u8>,
    u: Seq<u8>,
    v: Seq<u8>,
    bits: u32,
)
    requires
        supported(hash_alg),
    ensures
        kdfa(hash_alg, key, label, u, v, bits).len() == octets_for(bits),
{
    reveal(kdfa);
    let want = octets_for(bits);
    let n = blocks_for(want, size_of(hash_alg));
    lemma_blocks_len(hash_alg, key, kdfa_input(label, u, v, bits), n);
    lemma_blocks_enough(want, size_of(hash_alg));
}

/// KDFa with the label and the contexts as octets.
pub fn kdfa_bytes(hash_alg: u16, key: &[u8], label: &[u8], u: &[u8], v: &[u8], bits: u32) -> (r:
    TpmResult<Vec<u8>>)
    ensures
        r is Ok <==> supported(hash_alg),
        r matches Ok(d) ==> d@ == kdfa(hash_alg, key@, label@, u@, v@, bits) && d@.len()
            == octets_for(bits),
        r matches Err(e) ==> e == TpmRc(rc::HASH),
{
    let size: usize = digest_size(hash_alg)?;
    let want: usize = ((bits as u64 + 7) / 8) as usize;
    let ghost input = kdfa_input(label@, u@, v@, bits);
    let mut tail: Vec<u8> = to_vec(label);
    if label.len() == 0 || label[label.len() - 1] != 0 {
        tail.push(0);
    }
    tail.extend_from_slice(u);
    tail.extend_from_slice(v);
    push_be32(&mut tail, bits);
    assert(tail@ =~= input);
    let mut out: Vec<u8> = Vec::new();
    let mut counter: u32 = 0;
    proof {
        lemma_blocks_enough(want as nat, size as nat);
        assert(kdfa_blocks(hash_alg, key@, input, 0) =~= Seq::<u8>::empty());
    }
    while out.len() < want
        invariant
            supported(hash_alg),
            size == size_of(hash_alg),
            size >= 20,
            want == octets_for(bits),
            tail@ == input,
            out@ == kdfa_blocks(hash_alg, key@, input, counter as nat),
            out@.len() == counter * size,
            counter <= blocks_for(want as nat, size as nat),
            forall|m: nat| m < blocks_for(want as nat, size as nat) ==> #[trigger] (m * size_of(hash_alg)) < want,
            blocks_for(want as nat, size as nat) * size >= want,
        decreases blocks_for(want as nat, size as nat) - counter,
    {
        proof {
            let n = blocks_for(want as nat, size as nat);
            if counter >= n {
                assert(counter * size >= n * size) by (nonlinear_arith)
                    requires
                        counter >= n,
                ;
            }
            assert(counter < want) by (nonlinear_arith)
                requires
                    counter * size < want,
                    size >= 20,
            ;
            assert(want <= 0x2000_0000);
        }
        counter = counter + 1;
        let mut message: Vec<u8> = Vec::new();
        push_be32(&mut message, counter);
        message.extend_from_slice(&tail);
        assert(message@ =~= octets32(counter) + input);
        let block: Vec<u8> = hmac(hash_alg, key, &message)?;
        out.extend_from_slice(&block);
        proof {
            broadcast use lemma_hmac_len;

            assert(out@ =~= kdfa_blocks(hash_alg, key@, input, counter as nat));
            assert((counter - 1) * size + size == counter * size) by (nonlinear_arith);
        }
    }
    proof {
        let n = blocks_for(want as nat, size as nat);
        if counter < n {
            assert((counter as nat) * size_of(hash_alg) < want);
        }
        assert(counter == n);
        reveal(kdfa);
    }
    out.truncate(want);
    assert(out@ =~= kdfa_blocks(hash_alg, key@, input, counter as nat).take(want as int));
    if bits % 8 != 0 {
        let ghost before = out@;
        let spare: u32 = 8 - bits % 8;
        let masked: u8 = out[0] & (0xffu8 >> spare);
        out.set(0, masked);
        assert(out@ =~= before.update(0, before[0] & (0xffu8 >> ((8 - bits % 8) as u32))));
    }
    Ok(out)
}

/// The key that a shared secret gives, as long as a digest: the hash of a
/// counter, the secret, what the key is for, and the two parties.
pub open spec fn kdfe_of(
    hash_alg: u16,
    z: Seq<u8>,
    label: Seq<u8>,
    party_u: Seq<u8>,
    party_v: Seq<u8>,
) -> Seq<u8> {
    hash_of(hash_alg, octets32(1) + z + label + party_u + party_v)
}

/// The key that a shared secret gives, as long as a digest. The label ends in
/// an octet of zero.
pub fn kdfe(hash_alg: u16, z: &[u8], label: &[u8], party_u: &[u8], party_v: &[u8]) -> (r: TpmResult<
    Vec<u8>,
>)
    ensures
        r is Ok <==> supported(hash_alg),
        r matches Ok(k) ==> k@ == kdfe_of(hash_alg, z@, label@, party_u@, party_v@) && k@.len()
            == size_of(hash_alg),
        r matches Err(e) ==> e == TpmRc(rc::HASH),
{
    broadcast use crate::tpm::crypto::hash::lemma_hash_len;

    let mut data: Vec<u8> = Vec::new();
    push_be32(&mut data, 1);
    data.extend_from_slice(z);
    data.extend_from_slice(label);
    data.extend_from_slice(party_u);
    data.extend_from_slice(party_v);
    assert(data@ =~= octets32(1) + z@ + label@ + party_u@ + party_v@);
    digest(hash_alg, data.as_slice())
}

} // verus!
