//! What is signed, and what an accepted signature shows.

use vstd::prelude::*;

use crate::tpm::commands::signatures::{signature_made, signature_scheme_check, verification};
use crate::tpm::crypto::bn::{number_of, octet_length, octets_of, power_mod};
use crate::tpm::crypto::hash::{hash_of, lemma_hash_len, size_of, supported};
use crate::tpm::crypto::hmac::hmac_of;
use crate::tpm::crypto::rand::RngModel;
use crate::tpm::crypto::rsa_padding::{
    digest_info, mask_blocks, mask_of, signature_block, INFO_SHA1, INFO_SHA256, INFO_SHA384,
    INFO_SHA512,
};
use crate::tpm::engine::object::ObjectView;
use crate::tpm::structures::keys::IdView;
use crate::tpm::structures::schemes::Scheme;
use crate::tpm::structures::signature::SignatureView;
use crate::util::bytes::octets32;

verus! {

/// The octets in a digest, by the number of the hash algorithm.
pub proof fn law_digest_sizes(data: Seq<u8>)
    ensures
        hash_of(0x0004, data).len() == 20,
        hash_of(0x000B, data).len() == 32,
        hash_of(0x000C, data).len() == 48,
        hash_of(0x000D, data).len() == 64,
{
    broadcast use lemma_hash_len;

}

/// A DER value: its tag, the octets in it and those octets.
pub open spec fn der(tag: u8, body: Seq<u8>) -> Seq<u8> {
    seq![tag, body.len() as u8] + body
}

/// The DER body of the object identifier of a hash: 1.3.14.3.2.26 is SHA-1, and those
/// of SHA-256, SHA-384 and SHA-512 stand under 2.16.840.1.101.3.4.2.
pub open spec fn identifier(h: u16) -> Seq<u8> {
    if h == 0x0004 {
        seq![0x2Bu8, 0x0E, 0x03, 0x02, 0x1A]
    } else if h == 0x000B {
        seq![0x60u8, 0x86, 0x48, 0x01, 0x65, 0x03, 0x04, 0x02, 0x01]
    } else if h == 0x000C {
        seq![0x60u8, 0x86, 0x48, 0x01, 0x65, 0x03, 0x04, 0x02, 0x02]
    } else {
        seq![0x60u8, 0x86, 0x48, 0x01, 0x65, 0x03, 0x04, 0x02, 0x03]
    }
}

/// The DER of a DigestInfo: the identifier of the hash, with empty parameters, and the
/// digest.
pub open spec fn info_and_digest(h: u16, d: Seq<u8>) -> Seq<u8> {
    der(0x30, der(0x30, der(0x06, identifier(h)) + der(0x05, Seq::empty())) + der(0x04, d))
}

/// What stands before a digest in an RSASSA block is the DER of its DigestInfo: it
/// names the hash that the digest was made with, and ends with the size of the digest.
pub proof fn law_a_digest_info_names_its_hash(h: u16, d: Seq<u8>)
    requires
        h == 0x0004 || h == 0x000B || h == 0x000C || h == 0x000D,
        d.len() == size_of(h),
    ensures
        digest_info(h) + d == info_and_digest(h, d),
        digest_info(h).last() == d.len(),
{
    let oid = identifier(h);
    let head = der(0x30, der(0x06, oid) + der(0x05, Seq::empty()));
    let body = head + der(0x04, d);
    assert(der(0x05, Seq::empty()) =~= seq![0x05u8, 0u8]);
    assert(head =~= seq![0x30u8, (oid.len() + 4) as u8, 0x06u8, oid.len() as u8] + oid + seq![
        0x05u8,
        0u8,
    ]);
    assert(body.len() == oid.len() + 8 + d.len());
    let all = info_and_digest(h, d);
    assert(all =~= seq![0x30u8, body.len() as u8] + body);
    if h == 0x0004 {
        assert(digest_info(h) =~= INFO_SHA1@);
        assert(digest_info(h) + d =~= all);
    } else if h == 0x000B {
        assert(digest_info(h) =~= INFO_SHA256@);
        assert(digest_info(h) + d =~= all);
    } else if h == 0x000C {
        assert(digest_info(h) =~= INFO_SHA384@);
        assert(digest_info(h) + d =~= all);
    } else {
        assert(digest_info(h) =~= INFO_SHA512@);
        assert(digest_info(h) + d =~= all);
    }
}

/// No two hashes have the same DigestInfo, whatever the digests.
pub proof fn law_digest_infos_differ(a: u16, b: u16, d: Seq<u8>, e: Seq<u8>)
    requires
        a == 0x0004 || a == 0x000B || a == 0x000C || a == 0x000D,
        b == 0x0004 || b == 0x000B || b == 0x000C || b == 0x000D,
        a != b,
        d.len() == size_of(a),
        e.len() == size_of(b),
    ensures
        digest_info(a) != digest_info(b),
        digest_info(a) + d != digest_info(b) + e,
{
    law_a_digest_info_names_its_hash(a, d);
    law_a_digest_info_names_its_hash(b, e);
    let x = digest_info(a) + d;
    let y = digest_info(b) + e;
    assert(digest_info(a).last() != digest_info(b).last());
    if x == y {
        assert(x.len() == y.len());
        assert(x[1] == y[1]);
    }
}

/// The block that an RSASSA signature holds: 00 01, octets FF, 00 and the DigestInfo,
/// as long as the modulus.
pub open spec fn rsassa_block(h: u16, d: Seq<u8>, size: nat) -> Seq<u8> {
    seq![0u8, 1u8] + Seq::new(
        (size - 3 - info_and_digest(h, d).len()) as nat,
        |i: int| 0xFFu8,
    ) + seq![0u8] + info_and_digest(h, d)
}

/// A block is made for a digest of the size of its hash where the modulus leaves room
/// for at least eight octets of filling, and it is as long as the modulus.
pub proof fn law_an_rsassa_block_is_filled(h: u16, d: Seq<u8>, size: nat)
    requires
        h == 0x0004 || h == 0x000B || h == 0x000C || h == 0x000D,
        d.len() == size_of(h),
    ensures
        signature_block(h, d, size) is Ok <==> size >= info_and_digest(h, d).len() + 11,
        signature_block(h, d, size) is Ok ==> signature_block(h, d, size)->Ok_0 == rsassa_block(
            h,
            d,
            size,
        ) && rsassa_block(h, d, size).len() == size,
{
    law_a_digest_info_names_its_hash(h, d);
    if signature_block(h, d, size) is Ok {
        assert(signature_block(h, d, size)->Ok_0 =~= rsassa_block(h, d, size));
    }
}

/// An accepted RSASSA signature, raised to the public exponent, is the block of the
/// digest that was checked, under the hash that the signature names.
pub proof fn law_an_accepted_rsassa_signature_holds_the_digest(
    o: ObjectView,
    modulus: Seq<u8>,
    d: Seq<u8>,
    hash: u16,
    sig: Seq<u8>,
)
    requires
        o.public.unique == IdView::Rsa(modulus),
        verification(o, d, 0x0014, SignatureView::Rsa { hash, sig }) is Ok,
    ensures
        o.public.parameters is Rsa,
        hash == 0x0004 || hash == 0x000B || hash == 0x000C || hash == 0x000D,
        d.len() == size_of(hash),
        ({
            let e = o.public.parameters->Rsa_exponent;
            let n = number_of(modulus);
            &&& number_of(sig) < n
            &&& octets_of(
                power_mod(
                    number_of(sig),
                    if e == 0 {
                        65537
                    } else {
                        e as nat
                    },
                    n,
                ),
                octet_length(n),
            ) == rsassa_block(hash, d, octet_length(n))
        }),
{
    reveal(verification);
    law_an_rsassa_block_is_filled(hash, d, octet_length(number_of(modulus)));
}

/// A signature with a symmetric key is the HMAC of the digest under it, and that is
/// the only one that is accepted.
pub proof fn law_a_symmetric_signature_is_an_hmac(
    m: RngModel,
    o: ObjectView,
    scheme: Scheme,
    d: Seq<u8>,
    sig_alg: u16,
    hash: u16,
    digest: Seq<u8>,
)
    requires
        o.public.object_type == 0x0008,
        o.public.unique is KeyedHash,
    ensures
        signature_made(m, o, scheme, d).0 matches Ok((a, v)) ==> o.sensitive is Some && a == 0x0005
            && (v matches SignatureView::Hmac { hash: h, digest: x } && x == hmac_of(
            h,
            o.sensitive->0.sensitive,
            d,
        )),
        verification(o, d, sig_alg, SignatureView::Hmac { hash, digest }) is Ok ==> o.sensitive
            is Some && digest == hmac_of(hash, o.sensitive->0.sensitive, d),
        o.sensitive is Some && digest == hmac_of(hash, o.sensitive->0.sensitive, d)
            && signature_scheme_check(o.public, sig_alg, SignatureView::Hmac { hash, digest })
            is Ok ==> verification(o, d, sig_alg, SignatureView::Hmac { hash, digest }) is Ok,
{
    reveal(signature_made);
    reveal(verification);
}

/// The mask that MGF1 makes of a seed: octet `i` is octet `i % size` of the hash of the
/// seed and the number `i / size`.
pub proof fn law_a_mask_is_hashes_of_the_seed(h: u16, seed: Seq<u8>, len: nat, i: int)
    requires
        supported(h),
        0 <= i < len,
    ensures
        mask_of(h, seed, len).len() == len,
        mask_of(h, seed, len)[i] == hash_of(
            h,
            seed + octets32((i / size_of(h) as int) as u32),
        )[i % size_of(h) as int],
{
    broadcast use lemma_hash_len;

    let size = size_of(h);
    let n = (len / size + 1) as nat;
    lemma_masks(h, seed, n, i);
    assert(len <= n * size && i < n * size) by (nonlinear_arith)
        requires
            n == len / size + 1,
            size > 0,
            0 <= i < len,
    ;
    reveal(mask_of);
}

proof fn lemma_masks(h: u16, seed: Seq<u8>, n: nat, i: int)
    requires
        supported(h),
        0 <= i,
    ensures
        mask_blocks(h, seed, n).len() == n * size_of(h),
        i < n * size_of(h) ==> mask_blocks(h, seed, n)[i] == hash_of(
            h,
            seed + octets32((i / size_of(h) as int) as u32),
        )[i % size_of(h) as int],
    decreases n,
{
    broadcast use lemma_hash_len;

    let size = size_of(h) as int;
    if n > 0 {
        lemma_masks(h, seed, (n - 1) as nat, i);
        assert(n * size == (n - 1) * size + size) by (nonlinear_arith);
        if (n - 1) * size <= i < n * size {
            assert(i / size == n - 1 && i % size == i - (n - 1) * size) by (nonlinear_arith)
                requires
                    size > 0,
                    (n - 1) * size <= i < (n - 1) * size + size,
            ;
        }
    } else {
        assert(n * size == 0) by (nonlinear_arith)
            requires
                n == 0,
        ;
    }
}

} // verus!
