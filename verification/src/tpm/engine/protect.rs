//! Protecting what leaves the TPM for a parent or another TPM.

use vstd::prelude::*;

use crate::tpm::constants::{alg, rc};
use crate::tpm::crypto::bn::{
    lemma_octet_length, lemma_octets_len, number_of, octet_length, octets_of, BigNum,
};
use crate::tpm::crypto::ecc::{
    self, base_multiplied, curve_of, key_drawn, lemma_curve, shared, Curve, EccKey,
};
use crate::tpm::crypto::ecc_group::{is_group, law_two_keys_share_a_point};
use crate::tpm::crypto::hash::{digest_size, size_of, supported};
use crate::tpm::crypto::hmac::{
    hmac, hmac_of, kdfa, kdfa_bytes, kdfe, kdfe_of, lemma_hmac_len, lemma_kdfa_len,
};
use crate::tpm::crypto::rand::{draw, Rng, RngModel};
use crate::tpm::crypto::rsa::{self, exponent_of, private_of, raised, RsaPrivate, RsaPublic};
use crate::tpm::crypto::rsa_inverse::{law_a_raised_block_comes_back, of_primes};
use crate::tpm::crypto::rsa_padding::{lemma_oaep_comes_off, oaep_decoded, oaep_encoded};
use crate::tpm::crypto::sym::{cfb_decrypt, cfb_encrypt, crypted, Direction};
use crate::tpm::error::{TpmRc, TpmResult};
use crate::tpm::marshal::{parse_sized, sized, Reader, Writer};
use crate::tpm::structures::base::Tpm2bEccParameter;
use crate::tpm::structures::keys::{
    known_curve, IdView, PublicId, PublicParms, PublicView, SensitiveView, TpmtPublic,
    TpmtSensitive,
};
use crate::tpm::structures::schemes::{
    aes_bits, lemma_point_alone, point_octets, EccPoint, SymDef, Tpm2bEccPoint,
};
use crate::util::bytes::{constant_time_eq, filled, sub_vec, to_vec};

verus! {

/// What the key of the encryption is derived for.
pub const LABEL_STORAGE: [u8; 7] = [0x53, 0x54, 0x4f, 0x52, 0x41, 0x47, 0x45];

/// What the key of the integrity value is derived for.
pub const LABEL_INTEGRITY: [u8; 9] = [0x49, 0x4e, 0x54, 0x45, 0x47, 0x52, 0x49, 0x54, 0x59];

/// The key that encrypts under a seed.
pub open spec fn storage_key(name_alg: u16, seed: Seq<u8>, bits: u16, name: Seq<u8>) -> Seq<u8> {
    kdfa(name_alg, seed, LABEL_STORAGE@, name, Seq::empty(), bits as u32)
}

/// The key of the integrity value under a seed.
pub open spec fn integrity_key(name_alg: u16, seed: Seq<u8>) -> Seq<u8> {
    kdfa(
        name_alg,
        seed,
        LABEL_INTEGRITY@,
        Seq::empty(),
        Seq::empty(),
        (size_of(name_alg) * 8) as u32,
    )
}

/// The integrity value over what was encrypted and the Name.
pub open spec fn integrity_of(name_alg: u16, seed: Seq<u8>, hidden: Seq<u8>, name: Seq<u8>) -> Seq<
    u8,
> {
    hmac_of(name_alg, integrity_key(name_alg, seed), hidden + name)
}

/// A block of zeros.
pub open spec fn zero_iv() -> Seq<u8> {
    Seq::new(16, |i: int| 0u8)
}

/// Octets protected under a seed: encrypted, and with an integrity value that
/// ties them to a Name in front.
#[verifier::opaque]
pub open spec fn protected(
    name_alg: u16,
    seed: Seq<u8>,
    bits: u16,
    name: Seq<u8>,
    body: Seq<u8>,
) -> Seq<u8> {
    let hidden = crypted(
        alg::CFB,
        storage_key(name_alg, seed, bits, name),
        zero_iv(),
        body,
        Direction::Encrypt,
    ).0;
    sized(integrity_of(name_alg, seed, hidden, name)) + hidden
}

/// What protecting something under a parent takes: its hash and its cipher.
pub open spec fn protects(name_alg: u16, symmetric: SymDef) -> TpmResult<()> {
    if !supported(name_alg) {
        Err(TpmRc(rc::HASH))
    } else if symmetric.algorithm != alg::AES || !aes_bits(symmetric.key_bits) {
        Err(TpmRc(rc::SYMMETRIC))
    } else {
        Ok(())
    }
}

/// Recovering what was protected under a seed.
#[verifier::opaque]
pub open spec fn recovered(
    name_alg: u16,
    seed: Seq<u8>,
    bits: u16,
    name: Seq<u8>,
    blob: Seq<u8>,
) -> TpmResult<Seq<u8>> {
    match parse_sized(blob, 0, 64) {
        Err(_) => Err(TpmRc(rc::INTEGRITY)),
        Ok((given, next)) => {
            let hidden = blob.skip(next);
            if given != integrity_of(name_alg, seed, hidden, name) {
                Err(TpmRc(rc::INTEGRITY))
            } else {
                Ok(
                    crypted(
                        alg::CFB,
                        storage_key(name_alg, seed, bits, name),
                        zero_iv(),
                        hidden,
                        Direction::Decrypt,
                    ).0,
                )
            }
        },
    }
}

/// The two keys under a seed.
fn keys_for(name_alg: u16, seed: &[u8], bits: u16, name: &[u8]) -> (r: TpmResult<(Vec<u8>, Vec<u8>)>)
    requires
        supported(name_alg),
        aes_bits(bits),
    ensures
        r is Ok,
        (r->Ok_0).0@ == storage_key(name_alg, seed@, bits, name@),
        (r->Ok_0).1@ == integrity_key(name_alg, seed@),
        (r->Ok_0).0@.len() == bits / 8,
{
    let none: Vec<u8> = Vec::new();
    assert(none@ =~= Seq::<u8>::empty());
    let size: usize = digest_size(name_alg)?;
    let key: Vec<u8> = kdfa_bytes(
        name_alg,
        seed,
        LABEL_STORAGE.as_slice(),
        name,
        none.as_slice(),
        bits as u32,
    )?;
    let mac: Vec<u8> = kdfa_bytes(
        name_alg,
        seed,
        LABEL_INTEGRITY.as_slice(),
        none.as_slice(),
        none.as_slice(),
        (size * 8) as u32,
    )?;
    Ok((key, mac))
}

/// The integrity value over what was encrypted and the Name.
fn integrity(name_alg: u16, key: &[u8], hidden: &[u8], name: &[u8]) -> (r: Vec<u8>)
    requires
        supported(name_alg),
    ensures
        r@ == hmac_of(name_alg, key@, hidden@ + name@),
        r@.len() <= 64,
{
    broadcast use lemma_hmac_len;

    let mut data: Vec<u8> = to_vec(hidden);
    data.extend_from_slice(name);
    assert(data@ =~= hidden@ + name@);
    match hmac(name_alg, key, data.as_slice()) {
        Ok(h) => h,
        Err(_) => Vec::new(),
    }
}

/// Whether a parent can protect something.
fn check_protects(name_alg: u16, symmetric: &SymDef) -> (r: TpmResult<()>)
    ensures
        r == protects(name_alg, *symmetric),
{
    digest_size(name_alg)?;
    if symmetric.algorithm != alg::AES || (symmetric.key_bits != 128 && symmetric.key_bits != 192
        && symmetric.key_bits != 256) {
        return Err(TpmRc(rc::SYMMETRIC));
    }
    Ok(())
}

/// Protect octets under a seed.
pub fn wrap_private_body(
    name_alg: u16,
    seed: &[u8],
    symmetric: &SymDef,
    name: &[u8],
    body: &[u8],
) -> (r: TpmResult<Vec<u8>>)
    ensures
        match protects(name_alg, *symmetric) {
            Ok(_) => r is Ok && r->Ok_0@ == protected(
                name_alg,
                seed@,
                symmetric.key_bits,
                name@,
                body@,
            ) && r->Ok_0@.len() <= 66 + body@.len(),
            Err(e) => r is Err && r->Err_0 == e,
        },
{
    proof {
        reveal(protected);
    }
    check_protects(name_alg, symmetric)?;
    let (key, mac) = keys_for(name_alg, seed, symmetric.key_bits, name)?;
    let iv: Vec<u8> = filled(0, 16);
    assert(iv@ =~= zero_iv());
    let hidden: Vec<u8> = cfb_encrypt(key.as_slice(), iv.as_slice(), body)?;
    let value: Vec<u8> = integrity(name_alg, mac.as_slice(), hidden.as_slice(), name);
    let mut w: Writer = Writer::new();
    w.sized16(value.as_slice());
    w.bytes(hidden.as_slice());
    assert(w.written() =~= protected(name_alg, seed@, symmetric.key_bits, name@, body@));
    Ok(w.into_vec())
}

/// Recover what was protected under a seed.
pub fn unwrap_private_body(
    name_alg: u16,
    seed: &[u8],
    symmetric: &SymDef,
    name: &[u8],
    blob: &[u8],
) -> (r: TpmResult<Vec<u8>>)
    ensures
        match protects(name_alg, *symmetric) {
            Ok(_) => match recovered(name_alg, seed@, symmetric.key_bits, name@, blob@) {
                Ok(v) => r is Ok && r->Ok_0@ == v && v.len() <= blob@.len(),
                Err(e) => r is Err && r->Err_0 == e,
            },
            Err(e) => r is Err && r->Err_0 == e,
        },
{
    proof {
        reveal(recovered);
    }
    check_protects(name_alg, symmetric)?;
    let (key, mac) = keys_for(name_alg, seed, symmetric.key_bits, name)?;
    let mut reader: Reader = Reader::new(blob);
    let given: Vec<u8> = match crate::tpm::commands::wire::take_sized::<64>(&mut reader) {
        Ok(v) => v,
        Err(_) => {
            return Err(TpmRc(rc::INTEGRITY));
        },
    };
    let hidden: Vec<u8> = sub_vec(blob, 2 + given.len(), blob.len());
    assert(hidden@ =~= blob@.skip(2 + given@.len() as int));
    let expected: Vec<u8> = integrity(name_alg, mac.as_slice(), hidden.as_slice(), name);
    if !constant_time_eq(given.as_slice(), expected.as_slice()) {
        return Err(TpmRc(rc::INTEGRITY));
    }
    let iv: Vec<u8> = filled(0, 16);
    assert(iv@ =~= zero_iv());
    cfb_decrypt(key.as_slice(), iv.as_slice(), hidden.as_slice())
}

/// What was protected comes back, under the same seed and the same Name.
pub proof fn law_protection_round_trips(
    name_alg: u16,
    seed: Seq<u8>,
    bits: u16,
    name: Seq<u8>,
    body: Seq<u8>,
)
    requires
        supported(name_alg),
        aes_bits(bits),
    ensures
        recovered(name_alg, seed, bits, name, protected(name_alg, seed, bits, name, body)) == Ok::<
            Seq<u8>,
            TpmRc,
        >(body),
{
    let key = storage_key(name_alg, seed, bits, name);
    let hidden = crypted(alg::CFB, key, zero_iv(), body, Direction::Encrypt).0;
    let value = integrity_of(name_alg, seed, hidden, name);
    let blob = sized(value) + hidden;
    assert(protected(name_alg, seed, bits, name, body) == blob) by {
        reveal(protected);
    }
    lemma_integrity_len(name_alg, seed, hidden, name);
    lemma_framed(value, hidden);
    assert(crypted(alg::CFB, key, zero_iv(), hidden, Direction::Decrypt).0 == body) by {
        lemma_kdfa_len(name_alg, seed, LABEL_STORAGE@, name, Seq::empty(), bits as u32);
        crate::tpm::crypto::sym::law_decryption_undoes_encryption(alg::CFB, key, zero_iv(), body);
    }
    assert(recovered(name_alg, seed, bits, name, blob) == Ok::<Seq<u8>, TpmRc>(body)) by {
        reveal(recovered);
    }
}

proof fn lemma_integrity_len(name_alg: u16, seed: Seq<u8>, hidden: Seq<u8>, name: Seq<u8>)
    ensures
        integrity_of(name_alg, seed, hidden, name).len() <= 64,
{
    broadcast use lemma_hmac_len;

}

/// An integrity value and what it is over come apart again.
proof fn lemma_framed(value: Seq<u8>, hidden: Seq<u8>)
    requires
        value.len() <= 64,
    ensures
        parse_sized(sized(value) + hidden, 0, 64) == Ok::<(Seq<u8>, int), TpmRc>(
            (value, 2 + value.len() as int),
        ),
        (sized(value) + hidden).skip(2 + value.len() as int) == hidden,
{
    let blob = sized(value) + hidden;
    crate::tpm::marshal::law_sized_round_trip(Seq::empty(), value, hidden, 64);
    assert(Seq::<u8>::empty() + sized(value) + hidden =~= blob);
    assert(blob.skip(2 + value.len() as int) =~= hidden);
}

/// Octets that were changed, or protected for another Name, do not come back:
/// the integrity value has to be the one over them.
pub proof fn law_only_an_intact_blob_is_recovered(
    name_alg: u16,
    seed: Seq<u8>,
    bits: u16,
    name: Seq<u8>,
    blob: Seq<u8>,
)
    ensures
        recovered(name_alg, seed, bits, name, blob) is Ok ==> match parse_sized(blob, 0, 64) {
            Ok((given, next)) => given == integrity_of(name_alg, seed, blob.skip(next), name),
            Err(_) => false,
        },
{
    reveal(recovered);
}

/// A sensitive area protected for its parent.
pub fn wrap_private(name_alg: u16, seed: &[u8], symmetric: &SymDef, name: &[u8], sensitive: &[u8])
    -> (r: TpmResult<Vec<u8>>)
    requires
        sensitive@.len() <= 0xFFFF,
    ensures
        match protects(name_alg, *symmetric) {
            Ok(_) => r is Ok && r->Ok_0@ == protected(
                name_alg,
                seed@,
                symmetric.key_bits,
                name@,
                sized(sensitive@),
            ) && r->Ok_0@.len() <= 68 + sensitive@.len(),
            Err(e) => r is Err && r->Err_0 == e,
        },
{
    let mut w: Writer = Writer::new();
    w.sized16(sensitive);
    let body: Vec<u8> = w.into_vec();
    assert(body@ =~= sized(sensitive@));
    wrap_private_body(name_alg, seed, symmetric, name, body.as_slice())
}

/// The sensitive area behind its size and nothing else.
pub open spec fn sensitive_in(body: Seq<u8>) -> TpmResult<Seq<u8>> {
    match parse_sized(body, 0, 0xFFFF) {
        Err(_) => Err(TpmRc(rc::SENSITIVE)),
        Ok((v, next)) => if next != body.len() {
            Err(TpmRc(rc::SENSITIVE))
        } else {
            Ok(v)
        },
    }
}

/// Take the sensitive area out from behind its size.
pub fn sensitive_from_body(body: &[u8]) -> (r: TpmResult<Vec<u8>>)
    ensures
        match sensitive_in(body@) {
            Ok(v) => r is Ok && r->Ok_0@ == v,
            Err(e) => r is Err && r->Err_0 == e,
        },
{
    let mut reader: Reader = Reader::new(body);
    let v: Vec<u8> = match crate::tpm::commands::wire::take_sized::<0xFFFF>(&mut reader) {
        Ok(v) => v,
        Err(_) => {
            return Err(TpmRc(rc::SENSITIVE));
        },
    };
    if reader.expect_end().is_err() {
        return Err(TpmRc(rc::SENSITIVE));
    }
    Ok(v)
}

/// The sensitive area that was protected for its parent.
pub open spec fn private_of_parent(
    name_alg: u16,
    seed: Seq<u8>,
    symmetric: SymDef,
    name: Seq<u8>,
    blob: Seq<u8>,
) -> TpmResult<Seq<u8>> {
    match protects(name_alg, symmetric) {
        Err(e) => Err(e),
        Ok(_) => match recovered(name_alg, seed, symmetric.key_bits, name, blob) {
            Err(e) => Err(e),
            Ok(body) => sensitive_in(body),
        },
    }
}

/// The sensitive area that was protected for its parent.
pub fn unwrap_private(name_alg: u16, seed: &[u8], symmetric: &SymDef, name: &[u8], blob: &[u8])
    -> (r: TpmResult<Vec<u8>>)
    ensures
        match private_of_parent(name_alg, seed@, *symmetric, name@, blob@) {
            Ok(v) => r is Ok && r->Ok_0@ == v,
            Err(e) => r is Err && r->Err_0 == e,
        },
{
    let body: Vec<u8> = unwrap_private_body(name_alg, seed, symmetric, name, blob)?;
    sensitive_from_body(body.as_slice())
}

/// A sensitive area that was protected for its parent loads as what it was.
pub proof fn law_a_private_area_round_trips(
    name_alg: u16,
    seed: Seq<u8>,
    symmetric: SymDef,
    name: Seq<u8>,
    sensitive: Seq<u8>,
)
    requires
        protects(name_alg, symmetric) is Ok,
        sensitive.len() <= 0xFFFF,
    ensures
        private_of_parent(
            name_alg,
            seed,
            symmetric,
            name,
            protected(name_alg, seed, symmetric.key_bits, name, sized(sensitive)),
        ) == Ok::<Seq<u8>, TpmRc>(sensitive),
{
    law_protection_round_trips(name_alg, seed, symmetric.key_bits, name, sized(sensitive));
    crate::tpm::marshal::law_sized_round_trip(Seq::empty(), sensitive, Seq::empty(), 0xFFFF);
    assert(Seq::<u8>::empty() + sized(sensitive) + Seq::<u8>::empty() =~= sized(sensitive));
}

/// A seed and the secret that carries it to the holder of an RSA key, and what
/// the generator is left with.
pub open spec fn rsa_seed(m: RngModel, p: PublicView, modulus: Seq<u8>, exponent: u32, label: Seq<u8>)
    -> (TpmResult<(Seq<u8>, Seq<u8>)>, RngModel) {
    let n = number_of(modulus);
    if n == 0 {
        (Err(TpmRc(rc::VALUE)), m)
    } else {
        match draw(m, size_of(p.name_alg)) {
            (Err(e), left) => (Err(e), left),
            (Ok(seed), left) => match oaep_encoded(
                p.name_alg,
                octet_length(n),
                seed,
                label,
                left,
            ) {
                (Err(e), last) => (Err(e), last),
                (Ok(block), last) => match raised(
                    n,
                    exponent_of(exponent),
                    octet_length(n),
                    block,
                ) {
                    Err(e) => (Err(e), last),
                    Ok(secret) => (Ok((seed, secret)), last),
                },
            },
        }
    }
}

/// A seed and the secret that carries it to the holder of an ECC key, and what
/// the generator is left with.
pub open spec fn ecc_seed(
    m: RngModel,
    p: PublicView,
    x: Seq<u8>,
    y: Seq<u8>,
    curve_id: u16,
    label: Seq<u8>,
) -> (TpmResult<(Seq<u8>, Seq<u8>)>, RngModel) {
    let c = curve_of(curve_id);
    if !known_curve(curve_id) {
        (Err(TpmRc(rc::CURVE)), m)
    } else {
        match key_drawn(c, m) {
            (Err(e), left) => (Err(e), left),
            (Ok(d), left) => match shared(c, d, number_of(x), number_of(y)) {
                None => (
                    Err(
                        TpmRc(
                            if ecc::on_curve(c, number_of(x), number_of(y)) {
                                rc::NO_RESULT
                            } else {
                                rc::ECC_POINT
                            },
                        ),
                    ),
                    left,
                ),
                Some((zx, _)) => {
                    let e = base_multiplied(c, d)->0;
                    (
                        Ok(
                            (
                                kdfe_of(
                                    p.name_alg,
                                    octets_of(zx, c.size),
                                    label,
                                    octets_of(e.0, c.size),
                                    x,
                                ),
                                point_octets(octets_of(e.0, c.size), octets_of(e.1, c.size)),
                            ),
                        ),
                        left,
                    )
                },
            },
        }
    }
}

/// A seed and the secret that carries it to the holder of a key, and what the
/// generator is left with.
#[verifier::opaque]
pub open spec fn seed_made(m: RngModel, p: PublicView, label: Seq<u8>) -> (
    TpmResult<(Seq<u8>, Seq<u8>)>,
    RngModel,
) {
    if !supported(p.name_alg) {
        (Err(TpmRc(rc::HASH)), m)
    } else {
        match (p.parameters, p.unique) {
            (PublicParms::Rsa { exponent, .. }, IdView::Rsa(modulus)) => rsa_seed(
                m,
                p,
                modulus,
                exponent,
                label,
            ),
            (PublicParms::Ecc { curve_id, .. }, IdView::Ecc(x, y)) => ecc_seed(
                m,
                p,
                x,
                y,
                curve_id,
                label,
            ),
            _ => (Err(TpmRc(rc::TYPE)), m),
        }
    }
}

/// A seed and the secret for an RSA key.
fn seed_to_rsa<R: Rng>(public: &TpmtPublic, modulus: &[u8], exponent: u32, label: &[u8], rng: &mut R)
    -> (r: TpmResult<(Vec<u8>, Vec<u8>)>)
    requires
        supported(public.name_alg),
        modulus@.len() <= 512,
    ensures
        ({
            let out = rsa_seed(old(rng).model(), public@, modulus@, exponent, label@);
            &&& final(rng).model() == out.1
            &&& match out.0 {
                Ok((s, t)) => r is Ok && (r->Ok_0).0@ == s && (r->Ok_0).1@ == t && t.len() <= 512
                    && s.len() <= 64,
                Err(e) => r is Err && r->Err_0 == e,
            }
        }),
{
    proof {
        lemma_octet_length(modulus@);
    }
    let key: RsaPublic = RsaPublic::new(modulus, exponent)?;
    let size: usize = digest_size(public.name_alg)?;
    let seed: Vec<u8> = rng.bytes(size)?;
    let block: Vec<u8> = rsa::oaep_encode(
        public.name_alg,
        key.size(),
        seed.as_slice(),
        label,
        rng,
    )?;
    let secret: Vec<u8> = rsa::public_op(&key, block.as_slice())?;
    Ok((seed, secret))
}

/// A seed and the secret for an ECC key.
fn seed_to_ecc<R: Rng>(public: &TpmtPublic, point: &EccPoint, curve_id: u16, label: &[u8], rng: &mut R)
    -> (r: TpmResult<(Vec<u8>, Vec<u8>)>)
    requires
        supported(public.name_alg),
    ensures
        ({
            let out = ecc_seed(
                old(rng).model(),
                public@,
                point.x@,
                point.y@,
                curve_id,
                label@,
            );
            &&& final(rng).model() == out.1
            &&& match out.0 {
                Ok((s, t)) => r is Ok && (r->Ok_0).0@ == s && (r->Ok_0).1@ == t && t.len() <= 512
                    && s.len() <= 64,
                Err(e) => r is Err && r->Err_0 == e,
            }
        }),
{
    proof {
        lemma_curve(curve_id);
    }
    let key: EccKey = ecc::generate(curve_id, rng)?;
    let (zx, _) = ecc::ecdh(
        &key.curve,
        &key.private,
        point.x.as_slice(),
        point.y.as_slice(),
    )?;
    let seed: Vec<u8> = kdfe(
        public.name_alg,
        zx.as_slice(),
        label,
        key.public_x.as_slice(),
        point.x.as_slice(),
    )?;
    let ephemeral: Tpm2bEccPoint = Tpm2bEccPoint {
        point: EccPoint {
            x: Tpm2bEccParameter::new(key.public_x)?,
            y: Tpm2bEccParameter::new(key.public_y)?,
        },
    };
    let mut w: Writer = Writer::new();
    ephemeral.marshal(&mut w);
    let secret: Vec<u8> = w.into_vec();
    assert(secret@ =~= point_octets(ephemeral.point.x@, ephemeral.point.y@));
    Ok((seed, secret))
}

/// Make a seed and the secret that carries it to the holder of a key.
pub fn seed_to_public<R: Rng>(public: &TpmtPublic, label: &[u8], rng: &mut R) -> (r: TpmResult<
    (Vec<u8>, Vec<u8>),
>)
    ensures
        ({
            let out = seed_made(old(rng).model(), public@, label@);
            &&& final(rng).model() == out.1
            &&& match out.0 {
                Ok((s, t)) => r is Ok && (r->Ok_0).0@ == s && (r->Ok_0).1@ == t && t.len() <= 512
                    && s.len() <= 64,
                Err(e) => r is Err && r->Err_0 == e,
            }
        }),
{
    proof {
        reveal(seed_made);
    }
    digest_size(public.name_alg)?;
    match (&public.parameters, &public.unique) {
        (PublicParms::Rsa { exponent, .. }, PublicId::Rsa(modulus)) => {
            seed_to_rsa(public, modulus.as_slice(), *exponent, label, rng)
        },
        (PublicParms::Ecc { curve_id, .. }, PublicId::Ecc(point)) => seed_to_ecc(
            public,
            point,
            *curve_id,
            label,
            rng,
        ),
        _ => Err(TpmRc(rc::TYPE)),
    }
}

/// The seed that a secret carries to the holder of an RSA key. A secret that
/// cannot be decrypted is TPM_RC_VALUE.
pub open spec fn rsa_recovered(
    p: PublicView,
    s: SensitiveView,
    modulus: Seq<u8>,
    exponent: u32,
    secret: Seq<u8>,
    label: Seq<u8>,
) -> TpmResult<Seq<u8>> {
    let n = number_of(modulus);
    let d = private_of(n, exponent_of(exponent), number_of(s.sensitive));
    if n == 0 {
        Err(TpmRc(rc::VALUE))
    } else if d == 0 {
        Err(TpmRc(rc::BINDING))
    } else {
        match raised(n, d, octet_length(n), secret) {
            Err(_) => Err(TpmRc(rc::VALUE)),
            Ok(plain) => match oaep_decoded(p.name_alg, plain, label) {
                Err(_) => Err(TpmRc(rc::VALUE)),
                Ok(seed) => Ok(seed),
            },
        }
    }
}

/// The seed that a secret carries to the holder of an ECC key. A secret that
/// is no point of the curve is TPM_RC_VALUE.
pub open spec fn ecc_recovered(
    p: PublicView,
    s: SensitiveView,
    x: Seq<u8>,
    curve_id: u16,
    secret: Seq<u8>,
    label: Seq<u8>,
) -> TpmResult<Seq<u8>> {
    let c = curve_of(curve_id);
    match Tpm2bEccPoint::alone(secret) {
        Err(_) => Err(TpmRc(rc::VALUE)),
        Ok(peer) => if !known_curve(curve_id) {
            Err(TpmRc(rc::CURVE))
        } else {
            match shared(c, number_of(s.sensitive), number_of(peer.0), number_of(peer.1)) {
                None => Err(TpmRc(rc::VALUE)),
                Some((zx, _)) => if !supported(p.name_alg) {
                    Err(TpmRc(rc::HASH))
                } else {
                    Ok(kdfe_of(p.name_alg, octets_of(zx, c.size), label, peer.0, x))
                },
            }
        },
    }
}

/// The seed that a secret carries to the holder of a key.
#[verifier::opaque]
pub open spec fn seed_recovered(
    p: PublicView,
    s: SensitiveView,
    secret: Seq<u8>,
    label: Seq<u8>,
) -> TpmResult<Seq<u8>> {
    match (p.parameters, p.unique) {
        (PublicParms::Rsa { exponent, .. }, IdView::Rsa(modulus)) => rsa_recovered(
            p,
            s,
            modulus,
            exponent,
            secret,
            label,
        ),
        (PublicParms::Ecc { curve_id, .. }, IdView::Ecc(x, _)) => ecc_recovered(
            p,
            s,
            x,
            curve_id,
            secret,
            label,
        ),
        _ => Err(TpmRc(rc::TYPE)),
    }
}

/// The seed that a secret carries to the holder of a key.
pub fn seed_from_private(public: &TpmtPublic, sensitive: &TpmtSensitive, secret: &[u8], label: &[u8])
    -> (r: TpmResult<Vec<u8>>)
    ensures
        match seed_recovered(public@, sensitive@, secret@, label@) {
            Ok(v) => r is Ok && r->Ok_0@ == v && v.len() <= 512,
            Err(e) => r is Err && r->Err_0 == e,
        },
{
    proof {
        reveal(seed_recovered);
    }
    match (&public.parameters, &public.unique) {
        (PublicParms::Rsa { exponent, .. }, PublicId::Rsa(modulus)) => {
            proof {
                lemma_octet_length(modulus@);
            }
            let key: RsaPrivate = RsaPrivate::from_prime(
                modulus.as_slice(),
                *exponent,
                sensitive.sensitive.as_slice(),
            )?;
            let plain: Vec<u8> = match rsa::private_op(&key, secret) {
                Ok(v) => v,
                Err(_) => {
                    return Err(TpmRc(rc::VALUE));
                },
            };
            match rsa::oaep_decode(public.name_alg, plain.as_slice(), label) {
                Ok(v) => Ok(v),
                Err(_) => Err(TpmRc(rc::VALUE)),
            }
        },
        (PublicParms::Ecc { curve_id, .. }, PublicId::Ecc(point)) => {
            let peer: Tpm2bEccPoint = match Tpm2bEccPoint::from_bytes(secret) {
                Ok(p) => p,
                Err(_) => {
                    return Err(TpmRc(rc::VALUE));
                },
            };
            let curve: Curve = Curve::new(*curve_id)?;
            let private: BigNum = BigNum::from_bytes(sensitive.sensitive.as_slice());
            let (zx, _) = match ecc::ecdh(
                &curve,
                &private,
                peer.point.x.as_slice(),
                peer.point.y.as_slice(),
            ) {
                Ok(z) => z,
                Err(_) => {
                    return Err(TpmRc(rc::VALUE));
                },
            };
            kdfe(
                public.name_alg,
                zx.as_slice(),
                label,
                peer.point.x.as_slice(),
                point.x.as_slice(),
            )
        },
        _ => Err(TpmRc(rc::TYPE)),
    }
}

/// True when the two halves of an RSA key belong together and its modulus is
/// the product of two primes.
pub open spec fn sound_rsa(p: PublicView, s: SensitiveView) -> bool {
    match (p.parameters, p.unique) {
        (PublicParms::Rsa { exponent, .. }, IdView::Rsa(modulus)) => {
            let n = number_of(modulus);
            let f = number_of(s.sensitive);
            of_primes(n, f) && private_of(n, exponent_of(exponent), f) != 0
        },
        _ => false,
    }
}

/// The holder of an RSA key finds the seed in the secret that carries it. The
/// factors of the modulus have to be primes.
pub proof fn law_an_rsa_key_finds_the_seed(
    m: RngModel,
    p: PublicView,
    s: SensitiveView,
    label: Seq<u8>,
)
    requires
        sound_rsa(p, s),
        seed_made(m, p, label).0 is Ok,
    ensures
        ({
            let (seed, secret) = seed_made(m, p, label).0->Ok_0;
            seed_recovered(p, s, secret, label) == Ok::<Seq<u8>, TpmRc>(seed)
        }),
{
    reveal(seed_made);
    reveal(seed_recovered);
    match (p.parameters, p.unique) {
        (PublicParms::Rsa { exponent, .. }, IdView::Rsa(modulus)) => {
            let n = number_of(modulus);
            let size = octet_length(n);
            let (seed, left) = (draw(m, size_of(p.name_alg)).0->Ok_0, draw(
                m,
                size_of(p.name_alg),
            ).1);
            let block = oaep_encoded(p.name_alg, size, seed, label, left).0->Ok_0;
            lemma_oaep_comes_off(p.name_alg, size, seed, label, left);
            law_a_raised_block_comes_back(n, exponent_of(exponent), number_of(s.sensitive), block);
        },
        _ => {},
    }
}

/// True for the two halves of an ECC key whose curve is a group: the public point
/// is the multiple of the generator by the private half.
pub open spec fn sound_ecc(p: PublicView, s: SensitiveView) -> bool {
    match (p.parameters, p.unique) {
        (PublicParms::Ecc { curve_id, .. }, IdView::Ecc(x, y)) => is_group(curve_of(curve_id))
            && base_multiplied(curve_of(curve_id), number_of(s.sensitive)) == Some(
            (number_of(x), number_of(y)),
        ),
        _ => false,
    }
}

/// An ECC key finds the seed that was made for its public half, on a curve that is
/// a group.
pub proof fn law_an_ecc_key_finds_the_seed(
    m: RngModel,
    p: PublicView,
    s: SensitiveView,
    label: Seq<u8>,
)
    requires
        sound_ecc(p, s),
        seed_made(m, p, label).0 is Ok,
    ensures
        ({
            let (seed, secret) = seed_made(m, p, label).0->Ok_0;
            seed_recovered(p, s, secret, label) == Ok::<Seq<u8>, TpmRc>(seed)
        }),
{
    reveal(seed_made);
    reveal(seed_recovered);
    match (p.parameters, p.unique) {
        (PublicParms::Ecc { curve_id, .. }, IdView::Ecc(x, y)) => {
            let c = curve_of(curve_id);
            let d = key_drawn(c, m).0->Ok_0;
            let e = base_multiplied(c, d)->0;
            let own = number_of(s.sensitive);
            ecc::lemma_base_multiplied(curve_id, d);
            ecc::lemma_coordinate_size(curve_id);
            lemma_octets_len(e.0, c.size);
            lemma_octets_len(e.1, c.size);
            lemma_point_alone(octets_of(e.0, c.size), octets_of(e.1, c.size));
            law_two_keys_share_a_point(c, d, own, e, (number_of(x), number_of(y)));
        },
        _ => {},
    }
}

/// True for the two halves of an asymmetric key that belong together.
pub open spec fn sound_pair(p: PublicView, s: SensitiveView) -> bool {
    sound_rsa(p, s) || sound_ecc(p, s)
}

/// An asymmetric key finds the seed that was made for its public half.
pub proof fn law_a_key_finds_the_seed(m: RngModel, p: PublicView, s: SensitiveView, label: Seq<u8>)
    requires
        sound_pair(p, s),
        seed_made(m, p, label).0 is Ok,
    ensures
        ({
            let (seed, secret) = seed_made(m, p, label).0->Ok_0;
            seed_recovered(p, s, secret, label) == Ok::<Seq<u8>, TpmRc>(seed)
        }),
{
    if sound_rsa(p, s) {
        law_an_rsa_key_finds_the_seed(m, p, s, label);
    } else {
        law_an_ecc_key_finds_the_seed(m, p, s, label);
    }
}

} // verus!
