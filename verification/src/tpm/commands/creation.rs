//! Making the parts of a new object.

use vstd::prelude::*;

use crate::tpm::config;
use crate::tpm::constants::{alg, rc, rh, st};
use crate::tpm::crypto::bn::{lemma_octets_len, number_of, octets_of, BigNum};
use crate::tpm::crypto::ecc::{
    self, base_multiplied, curve_of, extra_drawn, key_drawn, lemma_base_multiplied,
    lemma_coordinate_size, lemma_extra_drawn, lemma_key_drawn, Curve, EccKey,
};
use crate::tpm::crypto::hash::{digest, digest_size, hash_of, lemma_hash_len, size_of, supported};
use crate::tpm::crypto::hmac::{hmac, hmac_of, kdfa, kdfa_bytes, lemma_hmac_len};
use crate::tpm::crypto::rand::{draw, lemma_draw_len, Rng, RngModel};
use crate::tpm::crypto::rsa::{
    self, exponent_of, factors_drawn, lemma_factors_drawn, totient, RsaPrivate,
};
use crate::tpm::engine::hierarchy::is_hierarchy;
use crate::tpm::engine::state::TpmState;
use crate::tpm::engine::validate::{binding_check, is_parent};
use crate::tpm::error::{TpmRc, TpmResult};
use crate::tpm::fips;
use crate::tpm::marshal::{parse_sized, sized, Reader, Writer};
use crate::tpm::structures::attest::{CreationData, CreationView};
use crate::tpm::structures::attributes::ObjectAttributes;
use crate::tpm::structures::base::{
    Tpm2bData, Tpm2bDigest, Tpm2bEccParameter, Tpm2bName, Tpm2bPrivateKeyRsa, Tpm2bPublicKeyRsa,
    Tpm2bSensitiveData, Tpm2bSymKey,
};
use crate::tpm::structures::keys::{
    composite_type, known_curve, IdView, PublicId, PublicParms, PublicView, SensitiveComposite,
    SensitiveView, Tpm2bSensitiveCreate, TpmtPublic, TpmtSensitive,
};
use crate::tpm::structures::lists::{PcrSelection, TpmlPcrSelection};
use crate::tpm::structures::schemes::EccPoint;
use crate::tpm::structures::signature::{Ticket, TicketView};
use crate::util::bytes::{octets16, push_be16, sub_vec, to_vec};

verus! {

/// The label the deterministic generator uses for a Primary Object, "PRIMARY".
pub const LABEL_PRIMARY: [u8; 7] = [0x50, 0x52, 0x49, 0x4d, 0x41, 0x52, 0x59];

/// The hash of an object, SHA-256 when it names none.
pub open spec fn effective(name_alg: u16) -> u16 {
    if name_alg == alg::NULL {
        alg::SHA256
    } else {
        name_alg
    }
}

/// The hash of an object, SHA-256 when it names none.
pub fn effective_alg(name_alg: u16) -> (r: u16)
    ensures
        r == effective(name_alg),
{
    if name_alg == alg::NULL {
        alg::SHA256
    } else {
        name_alg
    }
}

/// What a Primary Object is derived from besides its seed: every bit of the
/// template and the data the caller gave, and not the authorization value.
pub open spec fn primary_input(t: PublicView, data: Seq<u8>) -> Seq<u8> {
    hash_of(effective(t.name_alg), t.octets() + sized(data))
}

/// What a Primary Object is derived from besides its seed.
pub fn primary_context(template: &TpmtPublic, sensitive: &Tpm2bSensitiveCreate) -> (r: TpmResult<
    Vec<u8>,
>)
    ensures
        r is Ok <==> supported(effective(template.name_alg)),
        r is Err ==> r->Err_0 == TpmRc(rc::HASH),
        r matches Ok(c) ==> c@ == primary_input(template@, sensitive.sensitive.data@),
{
    let mut w: Writer = Writer::new();
    template.marshal(&mut w);
    sensitive.sensitive.data.marshal(&mut w);
    assert(w.written() =~= template@.octets() + sized(sensitive.sensitive.data@));
    let body: Vec<u8> = w.into_vec();
    digest(effective_alg(template.name_alg), body.as_slice())
}

/// True for an object that has a seed or an obfuscation value: a parent, and
/// everything symmetric.
pub open spec fn wants_seed(t: PublicView) -> bool {
    is_parent(t) || t.object_type == alg::KEYEDHASH || t.object_type == alg::SYMCIPHER
}

/// True for an object that has a seed or an obfuscation value.
fn needs_seed(template: &TpmtPublic) -> (r: bool)
    ensures
        r == wants_seed(template@),
{
    let a: ObjectAttributes = template.object_attributes;
    (a.has(ObjectAttributes::RESTRICTED) && a.has(ObjectAttributes::DECRYPT))
        || template.object_type == alg::KEYEDHASH || template.object_type == alg::SYMCIPHER
}

/// A new RSA key: one of its primes and its modulus.
pub open spec fn rsa_created(m: RngModel, t: PublicView, data: Seq<u8>) -> (
    TpmResult<(Seq<u8>, IdView)>,
    RngModel,
) {
    if data.len() != 0 {
        (Err(TpmRc(rc::VALUE).for_parameter(1)), m)
    } else {
        match t.parameters {
            PublicParms::Rsa { key_bits, exponent, .. } => match factors_drawn(
                m,
                key_bits,
                exponent,
            ) {
                (Err(e), left) => (Err(e), left),
                (Ok((p, q)), left) => {
                    let e = exponent_of(exponent);
                    let d = crate::tpm::crypto::bn::inverse(e, totient(p, q));
                    let used = t.object_attributes.has(ObjectAttributes::SIGN_ENCRYPT)
                        || t.object_attributes.has(ObjectAttributes::DECRYPT);
                    if used && !rsa::pair_works(p * q, e, d) {
                        (Err(TpmRc(rc::FAILURE)), left)
                    } else {
                        (
                            Ok(
                                (
                                    octets_of(p, (key_bits / 16) as nat),
                                    IdView::Rsa(octets_of(p * q, (key_bits / 8) as nat)),
                                ),
                            ),
                            left,
                        )
                    }
                },
            },
            _ => (Err(TpmRc(rc::TYPE)), m),
        }
    }
}

/// Whether a new ECC key pair works, and what it is as octets.
pub open spec fn ecc_parts(curve_id: u16, d: nat, signs: bool) -> TpmResult<(Seq<u8>, IdView)> {
    let c = curve_of(curve_id);
    match base_multiplied(c, d) {
        None => Err(TpmRc(rc::NO_RESULT)),
        Some((x, y)) => {
            let xs = octets_of(x, c.size);
            let ys = octets_of(y, c.size);
            if !ecc::pair_works(c, d, number_of(xs), number_of(ys), signs) {
                Err(TpmRc(rc::FAILURE))
            } else {
                Ok((octets_of(d, c.size), IdView::Ecc(xs, ys)))
            }
        },
    }
}

/// A new ECC key: its scalar and its point.
pub open spec fn ecc_created(m: RngModel, t: PublicView, data: Seq<u8>) -> (
    TpmResult<(Seq<u8>, IdView)>,
    RngModel,
) {
    if data.len() != 0 {
        (Err(TpmRc(rc::VALUE).for_parameter(1)), m)
    } else {
        match t.parameters {
            PublicParms::Ecc { curve_id, .. } => if !known_curve(curve_id) {
                (Err(TpmRc(rc::CURVE)), m)
            } else {
                match key_drawn(curve_of(curve_id), m) {
                    (Err(e), left) => (Err(e), left),
                    (Ok(d), left) => (
                        ecc_parts(
                            curve_id,
                            d,
                            t.object_attributes.has(ObjectAttributes::SIGN_ENCRYPT),
                        ),
                        left,
                    ),
                }
            },
            _ => (Err(TpmRc(rc::TYPE)), m),
        }
    }
}

/// New keyed hash data: the caller's, or the TPM's own when the object says
/// that it comes from the TPM. The identifier ties it to the seed.
pub open spec fn keyed_hash_created(m: RngModel, t: PublicView, seed: Seq<u8>, data: Seq<u8>) -> (
    TpmResult<(Seq<u8>, IdView)>,
    RngModel,
) {
    let h = effective(t.name_alg);
    if t.object_attributes.has(ObjectAttributes::SENSITIVE_DATA_ORIGIN) {
        if data.len() != 0 {
            (Err(TpmRc(rc::ATTRIBUTES).for_parameter(1)), m)
        } else {
            match draw(m, size_of(h)) {
                (Err(e), left) => (Err(e), left),
                (Ok(own), left) => (Ok((own, IdView::KeyedHash(hash_of(h, seed + own)))), left),
            }
        }
    } else if data.len() == 0 {
        (Err(TpmRc(rc::ATTRIBUTES).for_parameter(1)), m)
    } else {
        (Ok((data, IdView::KeyedHash(hash_of(h, seed + data)))), m)
    }
}

/// A symmetric key and the identifier that ties it to the seed.
pub open spec fn sym_parts(t: PublicView, bits: u16, seed: Seq<u8>, key: Seq<u8>) -> TpmResult<
    (Seq<u8>, IdView),
> {
    if key.len() != bits / 8 {
        Err(TpmRc(rc::KEY_SIZE).for_parameter(1))
    } else if key.len() > 32 {
        Err(TpmRc(rc::SIZE))
    } else {
        Ok((key, IdView::Sym(hash_of(effective(t.name_alg), seed + key))))
    }
}

/// A new symmetric key: the caller's, or the TPM's own.
pub open spec fn sym_created(m: RngModel, t: PublicView, seed: Seq<u8>, data: Seq<u8>) -> (
    TpmResult<(Seq<u8>, IdView)>,
    RngModel,
) {
    match t.parameters {
        PublicParms::SymCipher { sym } => if t.object_attributes.has(
            ObjectAttributes::SENSITIVE_DATA_ORIGIN,
        ) {
            if data.len() != 0 {
                (Err(TpmRc(rc::ATTRIBUTES).for_parameter(1)), m)
            } else {
                match draw(m, (sym.key_bits / 8) as nat) {
                    (Err(e), left) => (Err(e), left),
                    (Ok(own), left) => (sym_parts(t, sym.key_bits, seed, own), left),
                }
            }
        } else {
            (sym_parts(t, sym.key_bits, seed, data), m)
        },
        _ => (Err(TpmRc(rc::TYPE)), m),
    }
}

/// The secret and the identifier of a new object.
pub open spec fn secret_created(m: RngModel, t: PublicView, seed: Seq<u8>, data: Seq<u8>) -> (
    TpmResult<(Seq<u8>, IdView)>,
    RngModel,
) {
    if t.object_type == alg::RSA {
        rsa_created(m, t, data)
    } else if t.object_type == alg::ECC {
        ecc_created(m, t, data)
    } else if t.object_type == alg::KEYEDHASH {
        keyed_hash_created(m, t, seed, data)
    } else if t.object_type == alg::SYMCIPHER {
        sym_created(m, t, seed, data)
    } else {
        (Err(TpmRc(rc::TYPE)), m)
    }
}

/// The seed of a new object, which is empty for one that has none.
pub open spec fn seed_created(m: RngModel, t: PublicView) -> (TpmResult<Seq<u8>>, RngModel) {
    if wants_seed(t) {
        draw(m, size_of(effective(t.name_alg)))
    } else {
        (Ok(Seq::empty()), m)
    }
}

/// The sensitive area and the identifier of a new object, and what the
/// generator is left with.
#[verifier::opaque]
pub open spec fn created(m: RngModel, t: PublicView, auth: Seq<u8>, data: Seq<u8>) -> (
    TpmResult<(SensitiveView, IdView)>,
    RngModel,
) {
    if !supported(effective(t.name_alg)) {
        (Err(TpmRc(rc::HASH)), m)
    } else {
        match seed_created(m, t) {
            (Err(e), left) => (Err(e), left),
            (Ok(seed), left) => if auth.len() > size_of(effective(t.name_alg)) {
                (Err(TpmRc(rc::SIZE).for_parameter(1)), left)
            } else {
                match secret_created(left, t, seed, data) {
                    (Err(e), last) => (Err(e), last),
                    (Ok((secret, id)), last) => (
                        Ok(
                            (
                                SensitiveView {
                                    sensitive_type: t.object_type,
                                    auth_value: auth,
                                    seed_value: seed,
                                    composite: t.object_type,
                                    sensitive: secret,
                                },
                                id,
                            ),
                        ),
                        last,
                    ),
                }
            },
        }
    }
}

/// The key an object is made of does not depend on the authorization value it
/// is given.
pub proof fn law_a_key_does_not_depend_on_its_authorization(
    m: RngModel,
    t: PublicView,
    a: Seq<u8>,
    b: Seq<u8>,
    data: Seq<u8>,
)
    requires
        a.len() <= size_of(effective(t.name_alg)),
        b.len() <= size_of(effective(t.name_alg)),
    ensures
        match (created(m, t, a, data).0, created(m, t, b, data).0) {
            (Ok(x), Ok(y)) => x.1 == y.1 && x.0.sensitive == y.0.sensitive && x.0.seed_value
                == y.0.seed_value,
            (Err(x), Err(y)) => x == y,
            _ => false,
        },
{
    reveal(created);
}

/// Make an RSA key.
fn create_rsa<R: Rng>(rng: &mut R, template: &TpmtPublic, data: &[u8]) -> (r: TpmResult<
    (SensitiveComposite, PublicId),
>)
    ensures
        ({
            let out = rsa_created(old(rng).model(), template@, data@);
            &&& final(rng).model() == out.1
            &&& match out.0 {
                Ok((s, id)) => r is Ok && (r->Ok_0).0@ == s && composite_type((r->Ok_0).0)
                    == alg::RSA && (r->Ok_0).1@ == id,
                Err(e) => r is Err && r->Err_0 == e,
            }
        }),
{
    if data.len() != 0 {
        return Err(TpmRc(rc::VALUE).with_parameter(1));
    }
    match template.parameters {
        PublicParms::Rsa { key_bits, exponent, .. } => {
            let key: RsaPrivate = rsa::generate(rng, key_bits, exponent)?;
            let a: ObjectAttributes = template.object_attributes;
            fips::pairwise_rsa(
                &key,
                a.has(ObjectAttributes::SIGN_ENCRYPT),
                a.has(ObjectAttributes::DECRYPT),
            )?;
            let prime: Tpm2bPrivateKeyRsa = Tpm2bPrivateKeyRsa::new(key.prime_bytes())?;
            let modulus: Tpm2bPublicKeyRsa = Tpm2bPublicKeyRsa::new(key.modulus_bytes())?;
            Ok((SensitiveComposite::Rsa(prime), PublicId::Rsa(modulus)))
        },
        _ => Err(TpmRc(rc::TYPE)),
    }
}

/// Test an ECC key and take it apart.
fn take_ecc(key: EccKey, signs: bool) -> (r: TpmResult<(SensitiveComposite, PublicId)>)
    requires
        key.wf(),
    ensures
        match ecc_parts(key.curve.spec_id(), key.private@, signs) {
            Ok((s, id)) => r is Ok && (r->Ok_0).0@ == s && composite_type((r->Ok_0).0) == alg::ECC
                && (r->Ok_0).1@ == id,
            Err(e) => r is Err && r->Err_0 == e,
        },
{
    fips::pairwise_ecc(&key, signs)?;
    let size: usize = key.curve.coordinate_size();
    let scalar: Vec<u8> = key.private.to_bytes_padded(size);
    let d: Tpm2bEccParameter = Tpm2bEccParameter::new(scalar)?;
    let x: Tpm2bEccParameter = Tpm2bEccParameter::new(key.public_x)?;
    let y: Tpm2bEccParameter = Tpm2bEccParameter::new(key.public_y)?;
    Ok((SensitiveComposite::Ecc(d), PublicId::Ecc(EccPoint { x, y })))
}

/// Make an ECC key.
fn create_ecc<R: Rng>(rng: &mut R, template: &TpmtPublic, data: &[u8]) -> (r: TpmResult<
    (SensitiveComposite, PublicId),
>)
    ensures
        ({
            let out = ecc_created(old(rng).model(), template@, data@);
            &&& final(rng).model() == out.1
            &&& match out.0 {
                Ok((s, id)) => r is Ok && (r->Ok_0).0@ == s && composite_type((r->Ok_0).0)
                    == alg::ECC && (r->Ok_0).1@ == id,
                Err(e) => r is Err && r->Err_0 == e,
            }
        }),
{
    if data.len() != 0 {
        return Err(TpmRc(rc::VALUE).with_parameter(1));
    }
    match template.parameters {
        PublicParms::Ecc { curve_id, .. } => {
            let key: EccKey = ecc::generate(curve_id, rng)?;
            take_ecc(key, template.object_attributes.has(ObjectAttributes::SIGN_ENCRYPT))
        },
        _ => Err(TpmRc(rc::TYPE)),
    }
}

/// The hash of a seed and a secret.
fn seeded_digest(h: u16, seed: &[u8], secret: &[u8]) -> (r: Tpm2bDigest)
    requires
        supported(h),
    ensures
        r@ == hash_of(h, seed@ + secret@),
{
    broadcast use lemma_hash_len;

    let mut data: Vec<u8> = to_vec(seed);
    data.extend_from_slice(secret);
    assert(data@ =~= seed@ + secret@);
    match digest(h, data.as_slice()) {
        Ok(d) => match Tpm2bDigest::new(d) {
            Ok(v) => v,
            Err(_) => Tpm2bDigest::empty(),
        },
        Err(_) => Tpm2bDigest::empty(),
    }
}

/// Make keyed hash data.
fn create_keyed_hash<R: Rng>(rng: &mut R, template: &TpmtPublic, seed: &[u8], data: &[u8]) -> (r:
    TpmResult<(SensitiveComposite, PublicId)>)
    requires
        supported(effective(template.name_alg)),
        data@.len() <= 128,
    ensures
        ({
            let out = keyed_hash_created(old(rng).model(), template@, seed@, data@);
            &&& final(rng).model() == out.1
            &&& match out.0 {
                Ok((s, id)) => r is Ok && (r->Ok_0).0@ == s && composite_type((r->Ok_0).0)
                    == alg::KEYEDHASH && (r->Ok_0).1@ == id,
                Err(e) => r is Err && r->Err_0 == e,
            }
        }),
{
    let h: u16 = effective_alg(template.name_alg);
    let own: Vec<u8> = if template.object_attributes.has(ObjectAttributes::SENSITIVE_DATA_ORIGIN) {
        if data.len() != 0 {
            return Err(TpmRc(rc::ATTRIBUTES).with_parameter(1));
        }
        let size: usize = digest_size(h)?;
        rng.bytes(size)?
    } else {
        if data.len() == 0 {
            return Err(TpmRc(rc::ATTRIBUTES).with_parameter(1));
        }
        to_vec(data)
    };
    let unique: Tpm2bDigest = seeded_digest(h, seed, own.as_slice());
    Ok(
        (
            SensitiveComposite::Bits(Tpm2bSensitiveData::new(own)?),
            PublicId::KeyedHash(unique),
        ),
    )
}

/// Take a symmetric key apart.
fn take_sym(template: &TpmtPublic, bits: u16, seed: &[u8], key: Vec<u8>) -> (r: TpmResult<
    (SensitiveComposite, PublicId),
>)
    requires
        supported(effective(template.name_alg)),
    ensures
        match sym_parts(template@, bits, seed@, key@) {
            Ok((s, id)) => r is Ok && (r->Ok_0).0@ == s && composite_type((r->Ok_0).0)
                == alg::SYMCIPHER && (r->Ok_0).1@ == id,
            Err(e) => r is Err && r->Err_0 == e,
        },
{
    if key.len() != (bits / 8) as usize {
        return Err(TpmRc(rc::KEY_SIZE).with_parameter(1));
    }
    let unique: Tpm2bDigest = seeded_digest(
        effective_alg(template.name_alg),
        seed,
        key.as_slice(),
    );
    let held: Tpm2bSymKey = Tpm2bSymKey::new(key)?;
    Ok((SensitiveComposite::Sym(held), PublicId::Sym(unique)))
}

/// Make a symmetric key.
fn create_sym<R: Rng>(rng: &mut R, template: &TpmtPublic, seed: &[u8], data: &[u8]) -> (r: TpmResult<
    (SensitiveComposite, PublicId),
>)
    requires
        supported(effective(template.name_alg)),
    ensures
        ({
            let out = sym_created(old(rng).model(), template@, seed@, data@);
            &&& final(rng).model() == out.1
            &&& match out.0 {
                Ok((s, id)) => r is Ok && (r->Ok_0).0@ == s && composite_type((r->Ok_0).0)
                    == alg::SYMCIPHER && (r->Ok_0).1@ == id,
                Err(e) => r is Err && r->Err_0 == e,
            }
        }),
{
    match template.parameters {
        PublicParms::SymCipher { sym } => {
            let key: Vec<u8> = if template.object_attributes.has(
                ObjectAttributes::SENSITIVE_DATA_ORIGIN,
            ) {
                if data.len() != 0 {
                    return Err(TpmRc(rc::ATTRIBUTES).with_parameter(1));
                }
                rng.bytes((sym.key_bits / 8) as usize)?
            } else {
                to_vec(data)
            };
            take_sym(template, sym.key_bits, seed, key)
        },
        _ => Err(TpmRc(rc::TYPE)),
    }
}

/// Fill in the sensitive and unique areas of a new object.
///
/// The generator supplies every octet, so a deterministic one makes a
/// repeatable Primary Object and the TPM's own makes a fresh ordinary object.
pub fn create_sensitive<R: Rng>(
    rng: &mut R,
    template: &TpmtPublic,
    supplied: &Tpm2bSensitiveCreate,
) -> (r: TpmResult<(TpmtSensitive, PublicId)>)
    ensures
        ({
            let out = created(
                old(rng).model(),
                template@,
                supplied.sensitive.user_auth@,
                supplied.sensitive.data@,
            );
            &&& final(rng).model() == out.1
            &&& match out.0 {
                Ok((s, id)) => r is Ok && (r->Ok_0).0@ == s && (r->Ok_0).1@ == id,
                Err(e) => r is Err && r->Err_0 == e,
            }
        }),
{
    proof {
        reveal(created);
    }
    let h: u16 = effective_alg(template.name_alg);
    let size: usize = digest_size(h)?;
    let seed: Vec<u8> = if needs_seed(template) {
        rng.bytes(size)?
    } else {
        Vec::new()
    };
    assert(wants_seed(template@) || seed@ =~= Seq::<u8>::empty());
    if supplied.sensitive.user_auth.len() > size {
        return Err(TpmRc(rc::SIZE).with_parameter(1));
    }
    let data: &[u8] = supplied.sensitive.data.as_slice();
    let (composite, unique) = if template.object_type == alg::RSA {
        create_rsa(rng, template, data)?
    } else if template.object_type == alg::ECC {
        create_ecc(rng, template, data)?
    } else if template.object_type == alg::KEYEDHASH {
        create_keyed_hash(rng, template, seed.as_slice(), data)?
    } else if template.object_type == alg::SYMCIPHER {
        create_sym(rng, template, seed.as_slice(), data)?
    } else {
        return Err(TpmRc(rc::TYPE));
    };
    Ok(
        (
            TpmtSensitive {
                sensitive_type: template.object_type,
                auth_value: supplied.sensitive.user_auth.clone(),
                seed_value: Tpm2bDigest::new(seed)?,
                sensitive: composite,
            },
            unique,
        ),
    )
}

/// The octets a Derived Object is built from: one run of the KDF, handed out
/// from the front with none skipped. Running out is TPM_RC_NO_RESULT.
#[derive(Debug)]
pub struct DerivedOctets {
    pub buffer: Vec<u8>,
    pub offset: usize,
}

impl DerivedOctets {
    /// The octets that a parent's secret, a label and a context give.
    pub fn new(hash_alg: u16, sensitive: &[u8], label: &[u8], context: &[u8]) -> (r: TpmResult<
        DerivedOctets,
    >)
        ensures
            r is Ok <==> supported(hash_alg),
            r is Err ==> r->Err_0 == TpmRc(rc::HASH),
            r matches Ok(o) ==> o.offset == 0 && o.buffer@ == kdfa(
                hash_alg,
                sensitive@,
                label@,
                context@,
                Seq::empty(),
                8192,
            ) && o.buffer@.len() == 1024,
    {
        let none: Vec<u8> = Vec::new();
        assert(none@ =~= Seq::<u8>::empty());
        let buffer: Vec<u8> = kdfa_bytes(
            hash_alg,
            sensitive,
            label,
            context,
            none.as_slice(),
            8192,
        )?;
        Ok(DerivedOctets { buffer, offset: 0 })
    }
}

impl Rng for DerivedOctets {
    open spec fn model(&self) -> RngModel {
        RngModel::Fixed { octets: self.buffer@, used: self.offset as nat }
    }

    fn bytes(&mut self, n: usize) -> (r: TpmResult<Vec<u8>>) {
        proof {
            reveal(draw);
        }
        if self.offset > self.buffer.len() || n > self.buffer.len() - self.offset {
            return Err(TpmRc(rc::NO_RESULT));
        }
        let out: Vec<u8> = sub_vec(self.buffer.as_slice(), self.offset, self.offset + n);
        self.offset = self.offset + n;
        Ok(out)
    }
}

/// The secret of a Derived Object, and the point of a key that has one.
pub open spec fn secret_derived(m: RngModel, t: PublicView) -> (
    TpmResult<(Seq<u8>, Option<IdView>)>,
    RngModel,
) {
    if t.object_type == alg::ECC {
        match t.parameters {
            PublicParms::Ecc { curve_id, .. } => if !known_curve(curve_id) {
                (Err(TpmRc(rc::CURVE)), m)
            } else {
                match extra_drawn(curve_of(curve_id), m) {
                    (Err(e), left) => (Err(e), left),
                    (Ok(d), left) => match ecc_parts(
                        curve_id,
                        d,
                        t.object_attributes.has(ObjectAttributes::SIGN_ENCRYPT),
                    ) {
                        Err(e) => (Err(e), left),
                        Ok((s, id)) => (Ok((s, Some(id))), left),
                    },
                }
            },
            _ => (Err(TpmRc(rc::TYPE)), m),
        }
    } else if t.object_type == alg::SYMCIPHER {
        match t.parameters {
            PublicParms::SymCipher { sym } => match draw(m, (sym.key_bits / 8) as nat) {
                (Err(e), left) => (Err(e), left),
                (Ok(key), left) => if key.len() > 32 {
                    (Err(TpmRc(rc::SIZE)), left)
                } else {
                    (Ok((key, None)), left)
                },
            },
            _ => (Err(TpmRc(rc::TYPE)), m),
        }
    } else if t.object_type == alg::KEYEDHASH {
        match draw(m, size_of(effective(t.name_alg))) {
            (Err(e), left) => (Err(e), left),
            (Ok(bits), left) => (Ok((bits, None)), left),
        }
    } else {
        (Err(TpmRc(rc::TYPE).for_parameter(2)), m)
    }
}

/// The identifier of a Derived Object: the point of an asymmetric key, and
/// otherwise the hash of the seed and the secret.
pub open spec fn derived_id(t: PublicView, point: Option<IdView>, seed: Seq<u8>, secret: Seq<u8>)
    -> IdView {
    match point {
        Some(id) => id,
        None => if t.object_type == alg::SYMCIPHER {
            IdView::Sym(hash_of(effective(t.name_alg), seed + secret))
        } else {
            IdView::KeyedHash(hash_of(effective(t.name_alg), seed + secret))
        },
    }
}

/// The sensitive area and the identifier of a Derived Object: the secret first
/// and then the seed, with no octet rejected.
#[verifier::opaque]
pub open spec fn derived(m: RngModel, t: PublicView, auth: Seq<u8>) -> (
    TpmResult<(SensitiveView, IdView)>,
    RngModel,
) {
    let h = effective(t.name_alg);
    if !supported(h) {
        (Err(TpmRc(rc::HASH)), m)
    } else if auth.len() > size_of(h) {
        (Err(TpmRc(rc::SIZE).for_parameter(1)), m)
    } else {
        match secret_derived(m, t) {
            (Err(e), left) => (Err(e), left),
            (Ok((secret, point)), left) => match seed_created(left, t) {
                (Err(e), last) => (Err(e), last),
                (Ok(seed), last) => (
                    Ok(
                        (
                            SensitiveView {
                                sensitive_type: t.object_type,
                                auth_value: auth,
                                seed_value: seed,
                                composite: t.object_type,
                                sensitive: secret,
                            },
                            derived_id(t, point, seed, secret),
                        ),
                    ),
                    last,
                ),
            },
        }
    }
}

/// Derive the secret of an object.
fn derive_secret<R: Rng>(octets: &mut R, template: &TpmtPublic) -> (r: TpmResult<
    (SensitiveComposite, Option<PublicId>),
>)
    requires
        supported(effective(template.name_alg)),
    ensures
        ({
            let out = secret_derived(old(octets).model(), template@);
            &&& final(octets).model() == out.1
            &&& match out.0 {
                Ok((s, id)) => {
                    &&& r is Ok
                    &&& (r->Ok_0).0@ == s
                    &&& composite_type((r->Ok_0).0) == template.object_type
                    &&& match ((r->Ok_0).1, id) {
                        (Some(a), Some(b)) => a@ == b,
                        (None, None) => true,
                        _ => false,
                    }
                },
                Err(e) => r is Err && r->Err_0 == e,
            }
        }),
{
    if template.object_type == alg::ECC {
        match template.parameters {
            PublicParms::Ecc { curve_id, .. } => {
                let curve: Curve = Curve::new(curve_id)?;
                let private: BigNum = ecc::private_key_extra_bits(&curve, octets)?;
                let key: EccKey = ecc::key_from_private(curve, private)?;
                let (s, id) = take_ecc(
                    key,
                    template.object_attributes.has(ObjectAttributes::SIGN_ENCRYPT),
                )?;
                return Ok((s, Some(id)));
            },
            _ => {
                return Err(TpmRc(rc::TYPE));
            },
        }
    }
    if template.object_type == alg::SYMCIPHER {
        match template.parameters {
            PublicParms::SymCipher { sym } => {
                let key: Vec<u8> = octets.bytes((sym.key_bits / 8) as usize)?;
                return Ok((SensitiveComposite::Sym(Tpm2bSymKey::new(key)?), None));
            },
            _ => {
                return Err(TpmRc(rc::TYPE));
            },
        }
    }
    if template.object_type == alg::KEYEDHASH {
        let size: usize = digest_size(effective_alg(template.name_alg))?;
        let bits: Vec<u8> = octets.bytes(size)?;
        return Ok((SensitiveComposite::Bits(Tpm2bSensitiveData::new(bits)?), None));
    }
    Err(TpmRc(rc::TYPE).with_parameter(2))
}

/// Build the sensitive area of a Derived Object.
pub fn derived_sensitive<R: Rng>(
    octets: &mut R,
    template: &TpmtPublic,
    supplied: &Tpm2bSensitiveCreate,
) -> (r: TpmResult<(TpmtSensitive, PublicId)>)
    ensures
        ({
            let out = derived(old(octets).model(), template@, supplied.sensitive.user_auth@);
            &&& final(octets).model() == out.1
            &&& match out.0 {
                Ok((s, id)) => r is Ok && (r->Ok_0).0@ == s && (r->Ok_0).1@ == id,
                Err(e) => r is Err && r->Err_0 == e,
            }
        }),
{
    proof {
        reveal(derived);
    }
    let h: u16 = effective_alg(template.name_alg);
    let size: usize = digest_size(h)?;
    if supplied.sensitive.user_auth.len() > size {
        return Err(TpmRc(rc::SIZE).with_parameter(1));
    }
    let (composite, point) = derive_secret(octets, template)?;
    let seed: Vec<u8> = if needs_seed(template) {
        octets.bytes(size)?
    } else {
        Vec::new()
    };
    assert(wants_seed(template@) || seed@ =~= Seq::<u8>::empty());
    let unique: PublicId = match point {
        Some(id) => id,
        None => {
            let d: Tpm2bDigest = seeded_digest(h, seed.as_slice(), composite.as_slice());
            if template.object_type == alg::SYMCIPHER {
                PublicId::Sym(d)
            } else {
                PublicId::KeyedHash(d)
            }
        },
    };
    Ok(
        (
            TpmtSensitive {
                sensitive_type: template.object_type,
                auth_value: supplied.sensitive.user_auth.clone(),
                seed_value: Tpm2bDigest::new(seed)?,
                sensitive: composite,
            },
            unique,
        ),
    )
}

/// A label and a context and nothing else.
pub open spec fn derive_alone(d: Seq<u8>) -> TpmResult<(Seq<u8>, Seq<u8>)> {
    match parse_sized(d, 0, 32) {
        Err(e) => Err(e),
        Ok((label, n1)) => match parse_sized(d, n1, 32) {
            Err(e) => Err(e),
            Ok((context, n2)) => if n2 != d.len() {
                Err(TpmRc(rc::SIZE))
            } else {
                Ok((label, context))
            },
        },
    }
}

/// The label and the context of a template.
pub open spec fn derive_in(id: IdView) -> (Seq<u8>, Seq<u8>) {
    match id {
        IdView::Derive(l, c) => (l, c),
        _ => (Seq::empty(), Seq::empty()),
    }
}

/// The label and the context a Derived Object is derived with: what the
/// template gives comes first, field by field. Data that nothing is taken from
/// is not read.
pub open spec fn label_and_context_of(id: IdView, data: Seq<u8>) -> TpmResult<(Seq<u8>, Seq<u8>)> {
    let (label, context) = derive_in(id);
    if data.len() == 0 || (label.len() != 0 && context.len() != 0) {
        Ok((label, context))
    } else {
        match derive_alone(data) {
            Err(e) => Err(e),
            Ok((l, c)) => Ok(
                (
                    if label.len() == 0 {
                        l
                    } else {
                        label
                    },
                    if context.len() == 0 {
                        c
                    } else {
                        context
                    },
                ),
            ),
        }
    }
}

/// The label and the context a Derived Object is derived with.
pub fn label_and_context(template: &TpmtPublic, sensitive: &Tpm2bSensitiveCreate) -> (r: TpmResult<
    (Vec<u8>, Vec<u8>),
>)
    ensures
        match label_and_context_of(template@.unique, sensitive.sensitive.data@) {
            Ok((l, c)) => r is Ok && (r->Ok_0).0@ == l && (r->Ok_0).1@ == c,
            Err(e) => r is Err && r->Err_0 == e,
        },
{
    let (mut label, mut context) = match &template.unique {
        PublicId::Derive(d) => (d.label.to_vec(), d.context.to_vec()),
        _ => (Vec::new(), Vec::new()),
    };
    assert(label@ =~= derive_in(template@.unique).0);
    assert(context@ =~= derive_in(template@.unique).1);
    let data: &[u8] = sensitive.sensitive.data.as_slice();
    if data.len() != 0 && (label.len() == 0 || context.len() == 0) {
        let mut reader: Reader = Reader::new(data);
        let l: Vec<u8> = super::wire::take_sized::<32>(&mut reader)?;
        let c: Vec<u8> = super::wire::take_sized::<32>(&mut reader)?;
        reader.expect_end()?;
        if label.len() == 0 {
            label = l;
        }
        if context.len() == 0 {
            context = c;
        }
    }
    Ok((label, context))
}

/// What a locality is in creation data: a bit for the lower ones.
pub open spec fn locality_octet(l: u8) -> u8 {
    if l == 0 {
        1
    } else if l == 1 {
        2
    } else if l == 2 {
        4
    } else if l == 3 {
        8
    } else if l == 4 {
        16
    } else {
        l
    }
}

/// What a locality is in creation data.
fn locality_bits(l: u8) -> (r: u8)
    ensures
        r == locality_octet(l),
{
    match l {
        0 => 1,
        1 => 2,
        2 => 4,
        3 => 8,
        4 => 16,
        _ => l,
    }
}

/// The parent a new object reports.
pub struct ParentNames {
    pub name_alg: u16,
    pub name: Seq<u8>,
    pub qualified_name: Seq<u8>,
}

/// True when no selection takes in any register.
pub open spec fn nothing_selected(items: Seq<PcrSelection>) -> bool {
    forall|i: int| 0 <= i < items.len() ==> (#[trigger] items[i]).select.0 == 0
}

/// The creation data of a new object.
pub open spec fn creation_view(
    state: TpmState,
    parent: ParentNames,
    name_alg: u16,
    outside: Seq<u8>,
    items: Seq<PcrSelection>,
    locality: u8,
) -> CreationView {
    let kept = items.map_values(|s: PcrSelection| state.pcr.filtered(s));
    CreationView {
        pcr_select: kept,
        pcr_digest: if nothing_selected(kept) {
            Seq::empty()
        } else {
            state.pcr.digest_over(name_alg, kept)
        },
        locality: locality_octet(locality),
        parent_name_alg: parent.name_alg,
        parent_name: parent.name,
        parent_qualified_name: parent.qualified_name,
        outside_info: outside,
    }
}

/// True when no selection takes in any register.
fn is_nothing(items: &[PcrSelection]) -> (r: bool)
    ensures
        r == nothing_selected(items@),
{
    let mut i: usize = 0;
    while i < items.len()
        invariant
            i <= items@.len(),
            forall|k: int| 0 <= k < i ==> (#[trigger] items@[k]).select.0 == 0,
        decreases items@.len() - i,
    {
        if !items[i].select.is_empty_selection() {
            assert(items@[i as int].select.0 != 0);
            return false;
        }
        i = i + 1;
    }
    true
}

/// The creation data of a new object and the digest of it.
pub fn creation_data(
    state: &TpmState,
    parent_name: &[u8],
    parent_qualified_name: &[u8],
    parent_name_alg: u16,
    name_alg: u16,
    outside_info: &Tpm2bData,
    pcr_select: &TpmlPcrSelection,
    locality: u8,
) -> (r: TpmResult<(Vec<u8>, Vec<u8>)>)
    requires
        state.wf(),
        supported(name_alg),
        parent_name@.len() <= 68,
        parent_qualified_name@.len() <= 68,
        pcr_select.items@.len() <= 16,
    ensures
        ({
            let v = creation_view(
                *state,
                ParentNames {
                    name_alg: parent_name_alg,
                    name: parent_name@,
                    qualified_name: parent_qualified_name@,
                },
                name_alg,
                outside_info@,
                pcr_select.items@,
                locality,
            );
            &&& r is Ok
            &&& (r->Ok_0).0@ == v.octets()
            &&& (r->Ok_0).0@.len() <= 0x800
            &&& (r->Ok_0).1@ == hash_of(name_alg, v.octets())
            &&& (r->Ok_0).1@.len() <= 64
        }),
{
    broadcast use lemma_hash_len;

    let kept: Vec<PcrSelection> = state.pcr.filter_selection(pcr_select.items.as_slice());
    let pcr_digest: Vec<u8> = if is_nothing(kept.as_slice()) {
        Vec::new()
    } else {
        state.pcr.selection_digest(name_alg, kept.as_slice())?
    };
    let ghost v = creation_view(
        *state,
        ParentNames {
            name_alg: parent_name_alg,
            name: parent_name@,
            qualified_name: parent_qualified_name@,
        },
        name_alg,
        outside_info@,
        pcr_select.items@,
        locality,
    );
    assert(pcr_digest@ =~= v.pcr_digest);
    let data: CreationData = CreationData {
        pcr_select: TpmlPcrSelection { items: kept },
        pcr_digest: Tpm2bDigest::new(pcr_digest)?,
        locality: locality_bits(locality),
        parent_name_alg,
        parent_name: Tpm2bName::from_slice(parent_name)?,
        parent_qualified_name: Tpm2bName::from_slice(parent_qualified_name)?,
        outside_info: outside_info.clone(),
    };
    assert(data@ == v);
    let octets: Vec<u8> = data.to_bytes();
    let d: Vec<u8> = digest(name_alg, octets.as_slice())?;
    Ok((octets, d))
}

/// The HMAC of a creation ticket.
pub open spec fn creation_hmac(proof_value: Seq<u8>, name: Seq<u8>, d: Seq<u8>) -> Seq<u8> {
    hmac_of(
        config::CONTEXT_INTEGRITY_HASH_ALG,
        proof_value,
        octets16(st::CREATION) + name + d,
    )
}

/// The HMAC of a creation ticket.
pub fn creation_mac(proof_value: &[u8], name: &[u8], d: &[u8]) -> (r: Vec<u8>)
    ensures
        r@ == creation_hmac(proof_value@, name@, d@),
        r@.len() <= 64,
{
    broadcast use lemma_hmac_len;

    let mut data: Vec<u8> = Vec::new();
    push_be16(&mut data, st::CREATION);
    data.extend_from_slice(name);
    data.extend_from_slice(d);
    assert(data@ =~= octets16(st::CREATION) + name@ + d@);
    match hmac(config::CONTEXT_INTEGRITY_HASH_ALG, proof_value, data.as_slice()) {
        Ok(h) => h,
        Err(_) => Vec::new(),
    }
}

/// The ticket that says that this TPM created an object.
pub open spec fn creation_ticket_of(state: TpmState, hierarchy: u32, name: Seq<u8>, d: Seq<u8>)
    -> TpmResult<TicketView> {
    if hierarchy == rh::NULL {
        Ok(TicketView::null(st::CREATION))
    } else if !is_hierarchy(hierarchy) {
        Err(TpmRc(rc::VALUE))
    } else {
        Ok(
            TicketView {
                tag: st::CREATION,
                hierarchy,
                digest: creation_hmac(
                    state.hierarchies.spec_get(hierarchy).proof_value@,
                    name,
                    d,
                ),
            },
        )
    }
}

/// The ticket that says that this TPM created an object.
pub fn creation_ticket(state: &TpmState, hierarchy: u32, object_name: &[u8], creation_digest: &[u8])
    -> (r: TpmResult<Ticket>)
    ensures
        match creation_ticket_of(*state, hierarchy, object_name@, creation_digest@) {
            Ok(t) => r is Ok && r->Ok_0@ == t,
            Err(e) => r is Err && r->Err_0 == e,
        },
{
    if hierarchy == rh::NULL {
        return Ok(Ticket::null(st::CREATION));
    }
    let proof_value: &[u8] = state.hierarchy_proof(hierarchy)?;
    let h: Vec<u8> = creation_mac(proof_value, object_name, creation_digest);
    Ok(Ticket { tag: st::CREATION, hierarchy, digest: Tpm2bDigest::new(h)? })
}

/// Every part of a new sensitive area fits its field.
pub proof fn lemma_created_fits(m: RngModel, t: PublicView, auth: Seq<u8>, data: Seq<u8>)
    requires
        data.len() <= 128,
    ensures
        match created(m, t, auth, data).0 {
            Ok((s, _)) => s.fits(),
            Err(_) => true,
        },
{
    reveal(created);
    let h = effective(t.name_alg);
    lemma_draw_len(m, size_of(h));
    let left = seed_created(m, t).1;
    lemma_draw_len(left, size_of(h));
    match t.parameters {
        PublicParms::Rsa { key_bits, exponent, .. } => {
            match factors_drawn(left, key_bits, exponent).0 {
                Ok((p, _)) => {
                    lemma_octets_len(p, (key_bits / 16) as nat);
                },
                Err(_) => {},
            }
        },
        PublicParms::Ecc { curve_id, .. } => {
            lemma_coordinate_size(curve_id);
            match key_drawn(curve_of(curve_id), left).0 {
                Ok(d) => {
                    lemma_octets_len(d, curve_of(curve_id).size);
                },
                Err(_) => {},
            }
        },
        _ => {},
    }
}

/// The two halves of a new object belong together, as they have to for it to be
/// loaded.
pub proof fn lemma_created_binds(m: RngModel, t: PublicView, auth: Seq<u8>, data: Seq<u8>)
    ensures
        match created(m, t, auth, data).0 {
            Ok((s, id)) => binding_check(PublicView { unique: id, ..t }, s) == Ok::<(), TpmRc>(()),
            Err(_) => true,
        },
{
    reveal(created);
    reveal(binding_check);
    let left = seed_created(m, t).1;
    match t.parameters {
        PublicParms::Rsa { key_bits, exponent, .. } => {
            lemma_factors_drawn(left, key_bits, exponent);
        },
        PublicParms::Ecc { curve_id, .. } => {
            lemma_key_drawn(curve_id, left);
            match key_drawn(curve_of(curve_id), left).0 {
                Ok(d) => {
                    lemma_base_multiplied(curve_id, d);
                },
                Err(_) => {},
            }
        },
        _ => {},
    }
}

/// The identifier of a new object goes with its type.
pub proof fn lemma_created_id_fits(m: RngModel, t: PublicView, auth: Seq<u8>, data: Seq<u8>)
    ensures
        created(m, t, auth, data).0 matches Ok((_, id)) ==> id.fits(t.object_type),
{
    broadcast use lemma_hash_len;

    reveal(created);
    let left = seed_created(m, t).1;
    match t.parameters {
        PublicParms::Rsa { key_bits, exponent, .. } => {
            match factors_drawn(left, key_bits, exponent).0 {
                Ok((p, q)) => {
                    lemma_octets_len(p * q, (key_bits / 8) as nat);
                },
                Err(_) => {},
            }
        },
        PublicParms::Ecc { curve_id, .. } => {
            match key_drawn(curve_of(curve_id), left).0 {
                Ok(d) => {
                    lemma_point_fits(curve_id, d);
                },
                Err(_) => {},
            }
        },
        _ => {},
    }
}

proof fn lemma_point_fits(curve_id: u16, d: nat)
    ensures
        base_multiplied(curve_of(curve_id), d) matches Some((x, y)) ==> octets_of(
            x,
            curve_of(curve_id).size,
        ).len() <= 66 && octets_of(y, curve_of(curve_id).size).len() <= 66,
{
    lemma_coordinate_size(curve_id);
    match base_multiplied(curve_of(curve_id), d) {
        Some((x, y)) => {
            lemma_octets_len(x, curve_of(curve_id).size);
            lemma_octets_len(y, curve_of(curve_id).size);
        },
        None => {},
    }
}

/// Every part of a Derived Object fits its field, and its two halves belong
/// together.
pub proof fn lemma_derived_binds(m: RngModel, t: PublicView, auth: Seq<u8>)
    ensures
        match derived(m, t, auth).0 {
            Ok((s, id)) => s.fits() && id.fits(t.object_type) && binding_check(
                PublicView { unique: id, ..t },
                s,
            ) == Ok::<(), TpmRc>(()),
            Err(_) => true,
        },
{
    broadcast use lemma_hash_len;

    reveal(derived);
    reveal(binding_check);
    let h = effective(t.name_alg);
    let left = secret_derived(m, t).1;
    lemma_draw_len(m, size_of(h));
    lemma_draw_len(left, size_of(h));
    match t.parameters {
        PublicParms::Ecc { curve_id, .. } => {
            lemma_extra_drawn(curve_id, m);
            match extra_drawn(curve_of(curve_id), m).0 {
                Ok(d) => {
                    lemma_base_multiplied(curve_id, d);
                    lemma_point_fits(curve_id, d);
                    lemma_octets_len(d, curve_of(curve_id).size);
                    lemma_coordinate_size(curve_id);
                },
                Err(_) => {},
            }
        },
        _ => {},
    }
}

} // verus!
