//! Making and checking signatures and the tickets that vouch for them.

use vstd::prelude::*;

use crate::tpm::config;
use crate::tpm::constants::range::{is_persistent, is_transient};
use crate::tpm::constants::{alg, rc, rh, st};
use crate::tpm::crypto::bn::{
    bit_length, lemma_octet_length, lemma_octets_len, number_of, octet_length, octets_of, power_mod,
    BigNum,
};
use crate::tpm::crypto::ecc::{
    self, curve_of, digest_number, ecdsa_verifies, lemma_curve, schnorr_verifies, signed, Curve,
    EccSignature, Signing,
};
use crate::tpm::crypto::ecc_group::{law_an_ecc_signature_verifies, lemma_parts_read_back};
use crate::tpm::crypto::hash::{digest, digest_size, hash_of, lemma_hash_len, size_of, supported};
use crate::tpm::crypto::hmac::{hmac, hmac_of, lemma_hmac_len};
use crate::tpm::crypto::rand::{draw, lemma_draw_len, Rng, RngModel};
use crate::tpm::crypto::rsa::{self, exponent_of, private_of, raised, RsaPrivate, RsaPublic};
use crate::tpm::crypto::rsa_inverse::law_a_raised_block_comes_back;
use crate::tpm::crypto::rsa_padding::{
    law_a_probabilistic_block_verifies, pss_block, pss_encoded, pss_len, pss_verifies, repeated,
    signature_block,
};
use crate::tpm::engine::hierarchy::is_hierarchy;
use crate::tpm::engine::object::{Object, ObjectView};
use crate::tpm::engine::protect::{sound_ecc, sound_rsa};
use crate::tpm::engine::state::{persistent_wf, TpmState};
use crate::tpm::error::{TpmRc, TpmResult};
use crate::tpm::structures::attributes::ObjectAttributes;
use crate::tpm::structures::base::{Tpm2bDigest, Tpm2bEccParameter, Tpm2bPublicKeyRsa, TpmtHa};
use crate::tpm::structures::keys::{
    known_curve, IdView, PublicId, PublicParms, PublicView, SensitiveView,
};
use crate::tpm::structures::schemes::Scheme;
use crate::tpm::structures::signature::{
    SignatureEcc, SignatureRsa, SignatureValue, SignatureView, Ticket, TicketView, TpmtSignature,
};
use crate::util::bytes::{
    be32, constant_time_eq, filled, octets16, push_be16, read_be32, sub_vec, to_vec,
};

verus! {

/// The object a handle names, transient or persistent.
pub open spec fn object_named(state: TpmState, handle: u32) -> TpmResult<Object> {
    if is_transient(handle) {
        if state.objects.has_object(handle) {
            Ok(state.objects.object_at(handle))
        } else if state.objects.slots@.contains_key(handle) {
            Err(TpmRc(rc::TYPE))
        } else {
            Err(TpmRc(rc::HANDLE))
        }
    } else if is_persistent(handle) && state.persistent@.contains_key(handle) {
        Ok(state.persistent@[handle])
    } else {
        Err(TpmRc(rc::HANDLE))
    }
}

/// The object a handle names, transient or persistent.
pub fn object_of(state: &TpmState, handle: u32) -> (r: TpmResult<&Object>)
    requires
        state.wf(),
    ensures
        match object_named(*state, handle) {
            Ok(o) => r is Ok && *(r->Ok_0) == o && o.wf(),
            Err(e) => r is Err && r->Err_0 == e,
        },
{
    if is_transient(handle) {
        return state.objects.object(handle);
    }
    proof {
        reveal(persistent_wf);
    }
    if is_persistent(handle) {
        match state.persistent.get(handle) {
            Some(o) => {
                return Ok(o);
            },
            None => {},
        }
    }
    Err(TpmRc(rc::HANDLE))
}

/// The scheme of an object, none when its type has no scheme.
pub open spec fn scheme_of(p: PublicView) -> Scheme {
    match p.parameters.spec_scheme() {
        Some(s) => s,
        None => Scheme::spec_null(),
    }
}

/// The scheme of an object, none when its type has no scheme.
pub fn object_scheme(object: &Object) -> (r: Scheme)
    ensures
        r == scheme_of(object@.public),
{
    match object.public.parameters.scheme() {
        Some(s) => s,
        None => Scheme::null(),
    }
}

/// True when the object signs with HMAC.
pub open spec fn signs_with_hmac(p: PublicView) -> bool {
    p.object_type == alg::KEYEDHASH && (p.parameters matches PublicParms::KeyedHash { scheme }
        && scheme.scheme == alg::HMAC)
}

/// True when the object signs a message rather than a digest, which only HMAC
/// does.
pub fn signs_a_message(object: &Object) -> (r: bool)
    ensures
        r == signs_with_hmac(object@.public),
{
    if object.public.object_type != alg::KEYEDHASH {
        return false;
    }
    match object.public.parameters {
        PublicParms::KeyedHash { scheme } => scheme.scheme == alg::HMAC,
        _ => false,
    }
}

/// Whether an object may perform a signing command: it has to be able to sign,
/// to sign anything, and not to sign X.509 certificates alone.
pub open spec fn signing_key_check(o: ObjectView) -> TpmResult<()> {
    if !o.public.object_attributes.has(ObjectAttributes::SIGN_ENCRYPT) {
        Err(TpmRc(rc::KEY))
    } else if o.public.object_attributes.has(ObjectAttributes::X509_SIGN) {
        Err(TpmRc(rc::ATTRIBUTES))
    } else if o.public.object_type == alg::KEYEDHASH && !signs_with_hmac(o.public) {
        Err(TpmRc(rc::KEY))
    } else if o.sensitive is None {
        Err(TpmRc(rc::KEY))
    } else {
        Ok(())
    }
}

/// Check that an object may perform a signing command.
pub fn check_signing_key(object: &Object) -> (r: TpmResult<()>)
    ensures
        r == signing_key_check(object@),
{
    if !object.public.object_attributes.has(ObjectAttributes::SIGN_ENCRYPT) {
        return Err(TpmRc(rc::KEY));
    }
    if object.public.object_attributes.has(ObjectAttributes::X509_SIGN) {
        return Err(TpmRc(rc::ATTRIBUTES));
    }
    if object.public.object_type == alg::KEYEDHASH && !signs_a_message(object) {
        return Err(TpmRc(rc::KEY));
    }
    if object.sensitive.is_none() {
        return Err(TpmRc(rc::KEY));
    }
    Ok(())
}

/// Whether a signature was made with the scheme the key is restricted to, its
/// hash included. A key without a scheme is not restricted to any.
pub open spec fn signature_scheme_check(p: PublicView, sig_alg: u16, v: SignatureView) -> TpmResult<
    (),
> {
    let scheme = scheme_of(p);
    if scheme.scheme == alg::NULL {
        Ok(())
    } else if scheme.scheme != sig_alg {
        Err(TpmRc(rc::SCHEME))
    } else {
        match (scheme.spec_hash_alg(), v.hash_alg()) {
            (Some(a), Some(b)) => if a != b {
                Err(TpmRc(rc::SCHEME))
            } else {
                Ok(())
            },
            _ => Ok(()),
        }
    }
}

/// Check that a signature was made with the scheme the key is restricted to.
pub fn check_signature_scheme(object: &Object, signature: &TpmtSignature) -> (r: TpmResult<()>)
    ensures
        r == signature_scheme_check(object@.public, signature.sig_alg, signature.signature@),
{
    let scheme: Scheme = object_scheme(object);
    if scheme.is_null() {
        return Ok(());
    }
    if scheme.scheme != signature.sig_alg {
        return Err(TpmRc(rc::SCHEME));
    }
    match (scheme.hash_alg(), signature.hash_alg()) {
        (Some(a), Some(b)) => if a != b {
            Err(TpmRc(rc::SCHEME))
        } else {
            Ok(())
        },
        _ => Ok(()),
    }
}

/// Whether a digest is the size that the hash of the signature produces.
pub open spec fn digest_size_check(d: Seq<u8>, v: SignatureView) -> TpmResult<()> {
    match v.hash_alg() {
        None => Ok(()),
        Some(h) => if !supported(h) {
            Err(TpmRc(rc::HASH))
        } else if d.len() != size_of(h) {
            Err(TpmRc(rc::SIZE))
        } else {
            Ok(())
        },
    }
}

/// Check that a digest is the size that the hash of the signature produces.
pub fn check_digest_size(digest: &[u8], signature: &TpmtSignature) -> (r: TpmResult<()>)
    ensures
        r == digest_size_check(digest@, signature.signature@),
{
    match signature.hash_alg() {
        None => Ok(()),
        Some(h) => {
            let n: usize = digest_size(h)?;
            if digest.len() != n {
                return Err(TpmRc(rc::SIZE));
            }
            Ok(())
        },
    }
}

/// The HMAC of a signature verification ticket.
pub open spec fn verified_hmac(
    proof_value: Seq<u8>,
    tag: u16,
    signed: Seq<u8>,
    name: Seq<u8>,
    digest_alg: Option<u16>,
) -> Seq<u8> {
    hmac_of(
        config::CONTEXT_INTEGRITY_HASH_ALG,
        proof_value,
        octets16(tag) + signed + name + match digest_alg {
            Some(a) => octets16(a),
            None => Seq::empty(),
        },
    )
}

/// The HMAC of a signature verification ticket: it commits to the tag, to what
/// was verified, to the Name of the key, and to the hash where the tag has one.
pub fn verified_ticket_hmac(
    proof_value: &[u8],
    tag: u16,
    signed: &[u8],
    name: &[u8],
    digest_alg: Option<u16>,
) -> (r: TpmResult<Vec<u8>>)
    ensures
        r is Ok,
        r->Ok_0@ == verified_hmac(proof_value@, tag, signed@, name@, digest_alg),
        r->Ok_0@.len() <= 64,
{
    broadcast use lemma_hmac_len;

    let mut data: Vec<u8> = Vec::new();
    push_be16(&mut data, tag);
    data.extend_from_slice(signed);
    data.extend_from_slice(name);
    match digest_alg {
        Some(a) => push_be16(&mut data, a),
        None => {},
    }
    assert(data@ =~= octets16(tag) + signed@ + name@ + match digest_alg {
        Some(a) => octets16(a),
        None => Seq::empty(),
    });
    hmac(config::CONTEXT_INTEGRITY_HASH_ALG, proof_value, data.as_slice())
}

/// The HMAC of a hash check ticket.
pub open spec fn hash_check_hmac(proof_value: Seq<u8>, hash_alg: u16, d: Seq<u8>) -> Seq<u8> {
    hmac_of(
        config::CONTEXT_INTEGRITY_HASH_ALG,
        proof_value,
        octets16(st::HASHCHECK) + octets16(hash_alg) + d,
    )
}

/// The HMAC of a hash check ticket.
fn hash_hmac(proof_value: &[u8], hash_alg: u16, d: &[u8]) -> (r: Vec<u8>)
    ensures
        r@ == hash_check_hmac(proof_value@, hash_alg, d@),
        r@.len() <= 64,
{
    broadcast use lemma_hmac_len;

    let mut data: Vec<u8> = Vec::new();
    push_be16(&mut data, st::HASHCHECK);
    push_be16(&mut data, hash_alg);
    data.extend_from_slice(d);
    assert(data@ =~= octets16(st::HASHCHECK) + octets16(hash_alg) + d@);
    match hmac(config::CONTEXT_INTEGRITY_HASH_ALG, proof_value, data.as_slice()) {
        Ok(h) => h,
        Err(_) => Vec::new(),
    }
}

/// True for data that cannot be taken for an attestation of this TPM.
pub open spec fn is_safe(data: Seq<u8>) -> bool {
    data.len() < 4 || be32(data, 0) != st::GENERATED_VALUE
}

/// True for data that cannot be taken for an attestation of this TPM.
pub fn safe(data: &[u8]) -> (r: bool)
    ensures
        r == is_safe(data@),
{
    data.len() < 4 || read_be32(data, 0) != st::GENERATED_VALUE
}

/// The hash check ticket: it says that this TPM made the digest and that the
/// data did not start as an attestation does.
pub open spec fn hash_ticket_of(
    state: TpmState,
    hierarchy: u32,
    hash_alg: u16,
    data: Seq<u8>,
    d: Seq<u8>,
) -> TpmResult<TicketView> {
    if hierarchy == rh::NULL || !is_safe(data) {
        Ok(TicketView::null(st::HASHCHECK))
    } else if !is_hierarchy(hierarchy) {
        Err(TpmRc(rc::VALUE))
    } else {
        Ok(
            TicketView {
                tag: st::HASHCHECK,
                hierarchy,
                digest: hash_check_hmac(
                    state.hierarchies.spec_get(hierarchy).proof_value@,
                    hash_alg,
                    d,
                ),
            },
        )
    }
}

/// The hash check ticket.
pub fn hash_ticket(state: &TpmState, hierarchy: u32, hash_alg: u16, data: &[u8], d: &[u8]) -> (r:
    TpmResult<Ticket>)
    ensures
        match hash_ticket_of(*state, hierarchy, hash_alg, data@, d@) {
            Ok(t) => r is Ok && r->Ok_0@ == t,
            Err(e) => r is Err && r->Err_0 == e,
        },
{
    if hierarchy == rh::NULL || !safe(data) {
        return Ok(Ticket::null(st::HASHCHECK));
    }
    let proof_value: &[u8] = state.hierarchy_proof(hierarchy)?;
    let h: Vec<u8> = hash_hmac(proof_value, hash_alg, d);
    Ok(Ticket { tag: st::HASHCHECK, hierarchy, digest: Tpm2bDigest::new(h)? })
}

/// True when the ticket says that this TPM made the digest with that hash.
pub open spec fn hash_ticket_holds(state: TpmState, t: TicketView, hash_alg: u16, d: Seq<u8>)
    -> bool {
    t.digest.len() != 0 && is_hierarchy(t.hierarchy) && t.digest == hash_check_hmac(
        state.hierarchies.spec_get(t.hierarchy).proof_value@,
        hash_alg,
        d,
    )
}

/// Check a hash check ticket against the digest it is meant to cover. An error
/// names the ticket's parameter.
pub fn verify_hash_ticket(
    state: &TpmState,
    validation: &Ticket,
    hash_alg: u16,
    digest: &[u8],
    parameter: usize,
) -> (r: TpmResult<()>)
    ensures
        r is Ok <==> hash_ticket_holds(*state, validation@, hash_alg, digest@),
        r is Err ==> r->Err_0 == TpmRc(rc::TICKET).for_parameter(parameter as int),
{
    if validation.digest.is_empty() {
        return Err(TpmRc(rc::TICKET).with_parameter(parameter));
    }
    match state.hierarchy_proof(validation.hierarchy) {
        Err(_) => Err(TpmRc(rc::TICKET).with_parameter(parameter)),
        Ok(proof_value) => {
            let expected: Vec<u8> = hash_hmac(proof_value, hash_alg, digest);
            if !constant_time_eq(expected.as_slice(), validation.digest.as_slice()) {
                return Err(TpmRc(rc::TICKET).with_parameter(parameter));
            }
            Ok(())
        },
    }
}

/// The scheme a command signs with: the object's when it has one, otherwise
/// the caller's. The caller's scheme is parameter `n` of the command.
pub open spec fn chosen_scheme_at(p: PublicView, supplied: Scheme, n: int) -> TpmResult<Scheme> {
    let own = scheme_of(p);
    if own.scheme == alg::NULL {
        if supplied.scheme == alg::NULL {
            Err(TpmRc(rc::SCHEME).for_parameter(n))
        } else {
            Ok(supplied)
        }
    } else if supplied.scheme != alg::NULL && supplied.scheme != own.scheme {
        Err(TpmRc(rc::SCHEME).for_parameter(n))
    } else {
        Ok(own)
    }
}

/// The scheme a command signs with whose second parameter is the scheme.
pub open spec fn chosen_scheme(p: PublicView, supplied: Scheme) -> TpmResult<Scheme> {
    chosen_scheme_at(p, supplied, 2)
}

/// The scheme a command signs with. The caller's scheme is parameter `n`.
pub fn signing_scheme_at(object: &Object, supplied: &Scheme, n: usize) -> (r: TpmResult<Scheme>)
    ensures
        r == chosen_scheme_at(object@.public, *supplied, n as int),
{
    let own: Scheme = object_scheme(object);
    if own.is_null() {
        if supplied.is_null() {
            return Err(TpmRc(rc::SCHEME).with_parameter(n));
        }
        return Ok(*supplied);
    }
    if !supplied.is_null() && supplied.scheme != own.scheme {
        return Err(TpmRc(rc::SCHEME).with_parameter(n));
    }
    Ok(own)
}

/// The scheme a command signs with whose second parameter is the scheme.
pub fn signing_scheme(object: &Object, supplied: &Scheme) -> (r: TpmResult<Scheme>)
    ensures
        r == chosen_scheme(object@.public, *supplied),
{
    signing_scheme_at(object, supplied, 2)
}

/// The block an RSA scheme signs, and what the generator is left with.
pub open spec fn rsa_block(
    m: RngModel,
    scheme: u16,
    hash_alg: u16,
    d: Seq<u8>,
    key_bits: u16,
    size: nat,
) -> (TpmResult<Seq<u8>>, RngModel) {
    if scheme == alg::RSASSA {
        (signature_block(hash_alg, d, size), m)
    } else if scheme == alg::RSAPSS {
        if key_bits == 0 {
            (Err(TpmRc(rc::SIZE)), m)
        } else {
            match pss_encoded(hash_alg, d, key_bits as nat, m) {
                (Err(e), left) => (Err(e), left),
                (Ok(em), left) => if em.len() > size {
                    (Err(TpmRc(rc::SIZE)), left)
                } else {
                    (Ok(repeated(0, (size - em.len()) as nat) + em), left)
                },
            }
        }
    } else {
        (Err(TpmRc(rc::SCHEME).for_parameter(2)), m)
    }
}

/// An RSA signature of a digest, and what the generator is left with.
pub open spec fn rsa_signed(
    m: RngModel,
    p: PublicView,
    s: SensitiveView,
    scheme: u16,
    hash_alg: u16,
    d: Seq<u8>,
) -> (TpmResult<Seq<u8>>, RngModel) {
    match (p.parameters, p.unique) {
        (PublicParms::Rsa { key_bits, exponent, .. }, IdView::Rsa(modulus)) => {
            let n = number_of(modulus);
            let x = private_of(n, exponent_of(exponent), number_of(s.sensitive));
            let size = octet_length(n);
            if n == 0 {
                (Err(TpmRc(rc::VALUE)), m)
            } else if x == 0 {
                (Err(TpmRc(rc::BINDING)), m)
            } else {
                match rsa_block(m, scheme, hash_alg, d, key_bits, size) {
                    (Err(e), left) => (Err(e), left),
                    (Ok(block), left) => (raised(n, x, size, block), left),
                }
            }
        },
        _ => (Err(TpmRc(rc::TYPE)), m),
    }
}

/// An ECC signature of a digest, and what the generator is left with.
pub open spec fn ecc_signed(
    m: RngModel,
    p: PublicView,
    s: SensitiveView,
    scheme: u16,
    hash_alg: u16,
    d: Seq<u8>,
) -> (TpmResult<(nat, nat)>, RngModel) {
    match p.parameters {
        PublicParms::Ecc { curve_id, .. } => {
            let c = curve_of(curve_id);
            let x = number_of(s.sensitive);
            if !known_curve(curve_id) {
                (Err(TpmRc(rc::CURVE)), m)
            } else if scheme == alg::ECDSA {
                signed(
                    c,
                    x,
                    Signing::Ecdsa { e: digest_number(c, d) },
                    m,
                    ecc::DRAWS as nat,
                )
            } else if scheme == alg::ECSCHNORR {
                signed(c, x, Signing::Schnorr { hash_alg, digest: d }, m, ecc::DRAWS as nat)
            } else {
                (Err(TpmRc(rc::SCHEME).for_parameter(2)), m)
            }
        },
        _ => (Err(TpmRc(rc::TYPE)), m),
    }
}

/// The signature of a digest, and what the generator is left with.
#[verifier::opaque]
pub open spec fn signature_made(m: RngModel, o: ObjectView, scheme: Scheme, d: Seq<u8>) -> (
    TpmResult<(u16, SignatureView)>,
    RngModel,
) {
    match (o.sensitive, scheme.spec_hash_alg()) {
        (None, _) => (Err(TpmRc(rc::HANDLE).for_handle(1)), m),
        (_, None) => (Err(TpmRc(rc::SCHEME)), m),
        (Some(s), Some(h)) => if !supported(h) {
            (Err(TpmRc(rc::HASH)), m)
        } else if d.len() != size_of(h) {
            (Err(TpmRc(rc::SIZE).for_parameter(1)), m)
        } else if o.public.object_type == alg::RSA {
            match rsa_signed(m, o.public, s, scheme.scheme, h, d) {
                (Err(e), left) => (Err(e), left),
                (Ok(sig), left) => (
                    Ok((scheme.scheme, SignatureView::Rsa { hash: h, sig })),
                    left,
                ),
            }
        } else if o.public.object_type == alg::ECC {
            match ecc_signed(m, o.public, s, scheme.scheme, h, d) {
                (Err(e), left) => (Err(e), left),
                (Ok(rs), left) => (
                    Ok((scheme.scheme, ecc_view(o.public, h, rs))),
                    left,
                ),
            }
        } else if o.public.object_type == alg::KEYEDHASH {
            (
                Ok(
                    (
                        alg::HMAC,
                        SignatureView::Hmac { hash: h, digest: hmac_of(h, s.sensitive, d) },
                    ),
                ),
                m,
            )
        } else {
            (Err(TpmRc(rc::TYPE).for_handle(1)), m)
        },
    }
}

/// The two numbers of an ECC signature as octets.
pub open spec fn ecc_view(p: PublicView, h: u16, rs: (nat, nat)) -> SignatureView {
    match p.parameters {
        PublicParms::Ecc { curve_id, .. } => SignatureView::Ecc {
            hash: h,
            r: octets_of(rs.0, curve_of(curve_id).size),
            s: octets_of(rs.1, curve_of(curve_id).size),
        },
        _ => SignatureView::Empty,
    }
}

/// The block an RSA scheme signs.
fn make_rsa_block<R: Rng>(
    rng: &mut R,
    scheme: u16,
    hash_alg: u16,
    d: &[u8],
    key_bits: u16,
    size: usize,
) -> (r: TpmResult<Vec<u8>>)
    requires
        d@.len() <= 64,
    ensures
        ({
            let out = rsa_block(old(rng).model(), scheme, hash_alg, d@, key_bits, size as nat);
            &&& final(rng).model() == out.1
            &&& match out.0 {
                Ok(s) => r is Ok && r->Ok_0@ == s,
                Err(e) => r is Err && r->Err_0 == e,
            }
        }),
{
    if scheme == alg::RSASSA {
        return rsa::pkcs1v15_sign_encode(hash_alg, d, size);
    }
    if scheme == alg::RSAPSS {
        if key_bits == 0 {
            return Err(TpmRc(rc::SIZE));
        }
        let em: Vec<u8> = rsa::pss_encode(hash_alg, d, key_bits as usize, rng)?;
        if em.len() > size {
            return Err(TpmRc(rc::SIZE));
        }
        let mut block: Vec<u8> = filled(0, size - em.len());
        block.extend_from_slice(em.as_slice());
        assert(block@ =~= repeated(0, (size - em@.len()) as nat) + em@);
        return Ok(block);
    }
    Err(TpmRc(rc::SCHEME).with_parameter(2))
}

/// An RSA signature of a digest.
fn rsa_sign<R: Rng>(
    rng: &mut R,
    object: &Object,
    secret: &[u8],
    scheme: u16,
    hash_alg: u16,
    d: &[u8],
    Ghost(s): Ghost<SensitiveView>,
) -> (r: TpmResult<Tpm2bPublicKeyRsa>)
    requires
        d@.len() <= 64,
        secret@ == s.sensitive,
    ensures
        ({
            let out = rsa_signed(old(rng).model(), object@.public, s, scheme, hash_alg, d@);
            &&& final(rng).model() == out.1
            &&& match out.0 {
                Ok(v) => r is Ok && r->Ok_0@ == v,
                Err(e) => r is Err && r->Err_0 == e,
            }
        }),
{
    match (&object.public.parameters, &object.public.unique) {
        (PublicParms::Rsa { key_bits, exponent, .. }, PublicId::Rsa(modulus)) => {
            proof {
                lemma_octet_length(modulus@);
            }
            let key: RsaPrivate = RsaPrivate::from_prime(modulus.as_slice(), *exponent, secret)?;
            let block: Vec<u8> = make_rsa_block(rng, scheme, hash_alg, d, *key_bits, key.size())?;
            let sig: Vec<u8> = rsa::private_op(&key, block.as_slice())?;
            Tpm2bPublicKeyRsa::new(sig)
        },
        _ => Err(TpmRc(rc::TYPE)),
    }
}

/// An ECC signature of a digest.
fn ecc_sign<R: Rng>(
    rng: &mut R,
    object: &Object,
    secret: &[u8],
    scheme: u16,
    hash_alg: u16,
    d: &[u8],
    Ghost(s): Ghost<SensitiveView>,
) -> (r: TpmResult<EccSignature>)
    requires
        secret@ == s.sensitive,
        supported(hash_alg),
    ensures
        ({
            let out = ecc_signed(old(rng).model(), object@.public, s, scheme, hash_alg, d@);
            &&& final(rng).model() == out.1
            &&& match out.0 {
                Ok(rs) => {
                    &&& r is Ok
                    &&& ecc_view(object@.public, hash_alg, rs) == (SignatureView::Ecc {
                        hash: hash_alg,
                        r: r->Ok_0.r@,
                        s: r->Ok_0.s@,
                    })
                    &&& r->Ok_0.r@.len() <= 66
                    &&& r->Ok_0.s@.len() <= 66
                },
                Err(e) => r is Err && r->Err_0 == e,
            }
        }),
{
    match &object.public.parameters {
        PublicParms::Ecc { curve_id, .. } => {
            let curve: Curve = Curve::new(*curve_id)?;
            let private: BigNum = BigNum::from_bytes(secret);
            proof {
                lemma_curve(*curve_id);
            }
            if scheme == alg::ECDSA {
                return ecc::ecdsa_sign(&curve, &private, d, rng);
            }
            if scheme == alg::ECSCHNORR {
                return ecc::ecschnorr_sign(&curve, &private, hash_alg, d, rng);
            }
            Err(TpmRc(rc::SCHEME).with_parameter(2))
        },
        _ => Err(TpmRc(rc::TYPE)),
    }
}

/// Sign a digest with an object.
pub fn sign_with<R: Rng>(rng: &mut R, object: &Object, scheme: &Scheme, digest: &[u8]) -> (r:
    TpmResult<TpmtSignature>)
    ensures
        ({
            let out = signature_made(old(rng).model(), object@, *scheme, digest@);
            &&& final(rng).model() == out.1
            &&& match out.0 {
                Ok(v) => r is Ok && r->Ok_0.sig_alg == v.0 && r->Ok_0.signature@ == v.1
                    && r->Ok_0.wf(),
                Err(e) => r is Err && r->Err_0 == e,
            }
        }),
{
    broadcast use lemma_hmac_len;

    proof {
        reveal(signature_made);
    }
    match &object.sensitive {
        None => Err(TpmRc(rc::HANDLE).with_handle(1)),
        Some(s) => {
            let hash_alg: u16 = match scheme.hash_alg() {
                Some(h) => h,
                None => {
                    return Err(TpmRc(rc::SCHEME));
                },
            };
            let size: usize = digest_size(hash_alg)?;
            if digest.len() != size {
                return Err(TpmRc(rc::SIZE).with_parameter(1));
            }
            let secret: &[u8] = s.sensitive.as_slice();
            if object.public.object_type == alg::RSA {
                let sig: Tpm2bPublicKeyRsa = rsa_sign(
                    rng,
                    object,
                    secret,
                    scheme.scheme,
                    hash_alg,
                    digest,
                    Ghost(s@),
                )?;
                return Ok(
                    TpmtSignature {
                        sig_alg: scheme.scheme,
                        signature: SignatureValue::Rsa(SignatureRsa { hash: hash_alg, sig }),
                    },
                );
            }
            if object.public.object_type == alg::ECC {
                let sig: EccSignature = ecc_sign(
                    rng,
                    object,
                    secret,
                    scheme.scheme,
                    hash_alg,
                    digest,
                    Ghost(s@),
                )?;
                return Ok(
                    TpmtSignature {
                        sig_alg: scheme.scheme,
                        signature: SignatureValue::Ecc(
                            SignatureEcc {
                                hash: hash_alg,
                                signature_r: Tpm2bEccParameter::new(sig.r)?,
                                signature_s: Tpm2bEccParameter::new(sig.s)?,
                            },
                        ),
                    },
                );
            }
            if object.public.object_type == alg::KEYEDHASH {
                let d: Vec<u8> = hmac(hash_alg, secret, digest)?;
                return Ok(
                    TpmtSignature {
                        sig_alg: alg::HMAC,
                        signature: SignatureValue::Hmac(TpmtHa::new(hash_alg, d)?),
                    },
                );
            }
            Err(TpmRc(rc::TYPE).with_handle(1))
        },
    }
}

/// Sign `digest` with `object` using `scheme`.
pub fn sign_digest(state: &mut TpmState, object: &Object, scheme: &Scheme, digest: &[u8]) -> (r:
    TpmResult<TpmtSignature>)
    ensures
        *final(state) == (TpmState { rng: final(state).rng, ..*old(state) }),
        ({
            let out = signature_made(old(state).rng.model(), object@, *scheme, digest@);
            &&& final(state).rng.model() == out.1
            &&& match out.0 {
                Ok(v) => r is Ok && r->Ok_0.sig_alg == v.0 && r->Ok_0.signature@ == v.1
                    && r->Ok_0.wf(),
                Err(e) => r is Err && r->Err_0 == e,
            }
        }),
{
    sign_with(&mut state.rng, object, scheme, digest)
}

/// The signature of a whole message, and what the generator is left with.
pub open spec fn message_signature(m: RngModel, o: ObjectView, scheme: Scheme, message: Seq<u8>) -> (
    TpmResult<(u16, SignatureView)>,
    RngModel,
) {
    match scheme.spec_hash_alg() {
        None => if signs_with_hmac(o.public) && o.sensitive is None {
            (Err(TpmRc(rc::HANDLE).for_handle(1)), m)
        } else {
            (Err(TpmRc(rc::SCHEME)), m)
        },
        Some(h) => if !signs_with_hmac(o.public) {
            if !supported(h) {
                (Err(TpmRc(rc::HASH)), m)
            } else {
                signature_made(m, o, scheme, hash_of(h, message))
            }
        } else {
            match o.sensitive {
                None => (Err(TpmRc(rc::HANDLE).for_handle(1)), m),
                Some(s) => if !supported(h) {
                    (Err(TpmRc(rc::HASH)), m)
                } else {
                    (
                        Ok(
                            (
                                alg::HMAC,
                                SignatureView::Hmac {
                                    hash: h,
                                    digest: hmac_of(h, s.sensitive, message),
                                },
                            ),
                        ),
                        m,
                    )
                },
            }
        },
    }
}

/// Sign a whole message: an HMAC key takes the message itself, every other
/// algorithm its digest.
pub fn sign_message(state: &mut TpmState, object: &Object, scheme: &Scheme, message: &[u8]) -> (r:
    TpmResult<TpmtSignature>)
    ensures
        *final(state) == (TpmState { rng: final(state).rng, ..*old(state) }),
        ({
            let out = message_signature(old(state).rng.model(), object@, *scheme, message@);
            &&& final(state).rng.model() == out.1
            &&& match out.0 {
                Ok(v) => r is Ok && r->Ok_0.sig_alg == v.0 && r->Ok_0.signature@ == v.1
                    && r->Ok_0.wf(),
                Err(e) => r is Err && r->Err_0 == e,
            }
        }),
{
    broadcast use lemma_hmac_len;

    if !signs_a_message(object) {
        let hash_alg: u16 = match scheme.hash_alg() {
            Some(h) => h,
            None => {
                return Err(TpmRc(rc::SCHEME));
            },
        };
        let d: Vec<u8> = digest(hash_alg, message)?;
        return sign_digest(state, object, scheme, d.as_slice());
    }
    match &object.sensitive {
        None => Err(TpmRc(rc::HANDLE).with_handle(1)),
        Some(s) => {
            let hash_alg: u16 = match scheme.hash_alg() {
                Some(h) => h,
                None => {
                    return Err(TpmRc(rc::SCHEME));
                },
            };
            let d: Vec<u8> = hmac(hash_alg, s.sensitive.as_slice(), message)?;
            Ok(
                TpmtSignature {
                    sig_alg: alg::HMAC,
                    signature: SignatureValue::Hmac(TpmtHa::new(hash_alg, d)?),
                },
            )
        },
    }
}

/// Whether an RSA signature is one of the digest.
pub open spec fn rsa_verification(
    p: PublicView,
    modulus: Seq<u8>,
    sig_alg: u16,
    hash: u16,
    sig: Seq<u8>,
    d: Seq<u8>,
) -> TpmResult<()> {
    match p.parameters {
        PublicParms::Rsa { exponent, .. } => {
            let n = number_of(modulus);
            let size = octet_length(n);
            if n == 0 {
                Err(TpmRc(rc::VALUE))
            } else {
                match raised(n, exponent_of(exponent), size, sig) {
                    Err(_) => Err(TpmRc(rc::SIGNATURE).for_parameter(2)),
                    Ok(recovered) => if sig_alg == alg::RSASSA {
                        match signature_block(hash, d, size) {
                            Err(e) => Err(e),
                            Ok(block) => if recovered == block {
                                Ok(())
                            } else {
                                Err(TpmRc(rc::SIGNATURE).for_parameter(2))
                            },
                        }
                    } else if sig_alg == alg::RSAPSS {
                        if pss_verifies(
                            hash,
                            d,
                            recovered.skip(size - pss_len(bit_length(n))),
                            bit_length(n),
                        ) {
                            Ok(())
                        } else {
                            Err(TpmRc(rc::SIGNATURE).for_parameter(2))
                        }
                    } else {
                        Err(TpmRc(rc::SCHEME).for_parameter(2))
                    },
                }
            }
        },
        _ => Err(TpmRc(rc::TYPE)),
    }
}

/// Whether an ECC signature is one of the digest.
pub open spec fn ecc_verification(
    p: PublicView,
    x: Seq<u8>,
    y: Seq<u8>,
    sig_alg: u16,
    hash: u16,
    r: Seq<u8>,
    s: Seq<u8>,
    d: Seq<u8>,
) -> TpmResult<()> {
    match p.parameters {
        PublicParms::Ecc { curve_id, .. } => {
            let c = curve_of(curve_id);
            if !known_curve(curve_id) {
                Err(TpmRc(rc::CURVE))
            } else if sig_alg == alg::ECDSA && ecdsa_verifies(
                c,
                number_of(x),
                number_of(y),
                digest_number(c, d),
                number_of(r),
                number_of(s),
            ) {
                Ok(())
            } else if sig_alg == alg::ECSCHNORR && schnorr_verifies(
                c,
                number_of(x),
                number_of(y),
                hash,
                d,
                number_of(r),
                number_of(s),
            ) {
                Ok(())
            } else {
                Err(TpmRc(rc::SIGNATURE).for_parameter(2))
            }
        },
        _ => Err(TpmRc(rc::TYPE)),
    }
}

/// Whether a signature is one of the digest, made with the key of the object.
#[verifier::opaque]
pub open spec fn verification(o: ObjectView, d: Seq<u8>, sig_alg: u16, v: SignatureView)
    -> TpmResult<()> {
    match signature_scheme_check(o.public, sig_alg, v) {
        Err(e) => Err(e.for_parameter(2)),
        Ok(_) => match (o.public.unique, v) {
            (IdView::Rsa(modulus), SignatureView::Rsa { hash, sig }) => rsa_verification(
                o.public,
                modulus,
                sig_alg,
                hash,
                sig,
                d,
            ),
            (IdView::Ecc(x, y), SignatureView::Ecc { hash, r, s }) => ecc_verification(
                o.public,
                x,
                y,
                sig_alg,
                hash,
                r,
                s,
                d,
            ),
            (IdView::KeyedHash(_), SignatureView::Hmac { hash, digest }) => match o.sensitive {
                None => Err(TpmRc(rc::HANDLE).for_handle(1)),
                Some(s) => if digest == hmac_of(hash, s.sensitive, d) {
                    Ok(())
                } else {
                    Err(TpmRc(rc::SIGNATURE).for_parameter(2))
                },
            },
            _ => Err(TpmRc(rc::SIGNATURE).for_parameter(2)),
        },
    }
}

/// Verify an RSA signature.
fn rsa_verify(object: &Object, modulus: &[u8], sig_alg: u16, sig: &SignatureRsa, d: &[u8]) -> (r:
    TpmResult<()>)
    requires
        modulus@.len() <= 512,
    ensures
        r == rsa_verification(object@.public, modulus@, sig_alg, sig.hash, sig.sig@, d@),
{
    match &object.public.parameters {
        PublicParms::Rsa { exponent, .. } => {
            proof {
                lemma_octet_length(modulus@);
            }
            let public: RsaPublic = RsaPublic::new(modulus, *exponent)?;
            let recovered: Vec<u8> = match rsa::public_op(&public, sig.sig.as_slice()) {
                Ok(v) => v,
                Err(_) => {
                    return Err(TpmRc(rc::SIGNATURE).with_parameter(2));
                },
            };
            if sig_alg == alg::RSASSA {
                let expected: Vec<u8> = rsa::pkcs1v15_sign_encode(sig.hash, d, public.size())?;
                if !constant_time_eq(recovered.as_slice(), expected.as_slice()) {
                    return Err(TpmRc(rc::SIGNATURE).with_parameter(2));
                }
                return Ok(());
            }
            if sig_alg == alg::RSAPSS {
                let bits: usize = public.bits();
                let em_len: usize = (bits - 1 + 7) / 8;
                let em: Vec<u8> = sub_vec(
                    recovered.as_slice(),
                    recovered.len() - em_len,
                    recovered.len(),
                );
                assert(em@ =~= recovered@.skip(recovered@.len() - em_len));
                return match rsa::pss_verify(sig.hash, d, em.as_slice(), bits) {
                    Ok(_) => Ok(()),
                    Err(_) => Err(TpmRc(rc::SIGNATURE).with_parameter(2)),
                };
            }
            Err(TpmRc(rc::SCHEME).with_parameter(2))
        },
        _ => Err(TpmRc(rc::TYPE)),
    }
}

/// Verify an ECC signature.
fn ecc_verify(
    object: &Object,
    x: &[u8],
    y: &[u8],
    sig_alg: u16,
    sig: &SignatureEcc,
    d: &[u8],
) -> (r: TpmResult<()>)
    requires
        supported(sig.hash),
    ensures
        r == ecc_verification(
            object@.public,
            x@,
            y@,
            sig_alg,
            sig.hash,
            sig.signature_r@,
            sig.signature_s@,
            d@,
        ),
{
    match &object.public.parameters {
        PublicParms::Ecc { curve_id, .. } => {
            let curve: Curve = Curve::new(*curve_id)?;
            let value: EccSignature = EccSignature {
                r: sig.signature_r.to_vec(),
                s: sig.signature_s.to_vec(),
            };
            let verified: bool = if sig_alg == alg::ECDSA {
                ecc::ecdsa_verify(&curve, x, y, d, &value).is_ok()
            } else if sig_alg == alg::ECSCHNORR {
                ecc::ecschnorr_verify(&curve, x, y, sig.hash, d, &value).is_ok()
            } else {
                false
            };
            if verified {
                Ok(())
            } else {
                Err(TpmRc(rc::SIGNATURE).with_parameter(2))
            }
        },
        _ => Err(TpmRc(rc::TYPE)),
    }
}

/// Verify `signature` over `digest` with the public part of `object`.
pub fn verify_digest(object: &Object, digest: &[u8], signature: &TpmtSignature) -> (r: TpmResult<()>)
    requires
        signature.wf(),
    ensures
        r == verification(object@, digest@, signature.sig_alg, signature.signature@),
{
    proof {
        reveal(verification);
    }
    match check_signature_scheme(object, signature) {
        Ok(_) => {},
        Err(e) => {
            return Err(e.with_parameter(2));
        },
    }
    match (&object.public.unique, &signature.signature) {
        (PublicId::Rsa(modulus), SignatureValue::Rsa(sig)) => {
            rsa_verify(object, modulus.as_slice(), signature.sig_alg, sig, digest)
        },
        (PublicId::Ecc(point), SignatureValue::Ecc(sig)) => ecc_verify(
            object,
            point.x.as_slice(),
            point.y.as_slice(),
            signature.sig_alg,
            sig,
            digest,
        ),
        (PublicId::KeyedHash(_), SignatureValue::Hmac(ha)) => match &object.sensitive {
            None => Err(TpmRc(rc::HANDLE).with_handle(1)),
            Some(s) => {
                let expected: Vec<u8> = hmac(ha.hash_alg, s.sensitive.as_slice(), digest)?;
                if !constant_time_eq(expected.as_slice(), ha.digest.as_slice()) {
                    return Err(TpmRc(rc::SIGNATURE).with_parameter(2));
                }
                Ok(())
            },
        },
        _ => Err(TpmRc(rc::SIGNATURE).with_parameter(2)),
    }
}

/// Verify `signature` over `digest` with the public part of `object`.
pub fn verify_digest_public(object: &Object, digest: &[u8], signature: &TpmtSignature) -> (r:
    TpmResult<()>)
    requires
        signature.wf(),
    ensures
        r == verification(object@, digest@, signature.sig_alg, signature.signature@),
{
    verify_digest(object, digest, signature)
}

/// Whether a signature is one of the whole message.
pub open spec fn message_verification(
    o: ObjectView,
    message: Seq<u8>,
    sig_alg: u16,
    v: SignatureView,
) -> TpmResult<()> {
    if !signs_with_hmac(o.public) {
        match v.hash_alg() {
            None => Err(TpmRc(rc::SCHEME).for_parameter(1)),
            Some(h) => verification(o, hash_of(h, message), sig_alg, v),
        }
    } else {
        match (o.sensitive, v) {
            (None, _) => Err(TpmRc(rc::HANDLE).for_handle(1)),
            (Some(s), SignatureView::Hmac { hash, digest }) => if digest == hmac_of(
                hash,
                s.sensitive,
                message,
            ) {
                Ok(())
            } else {
                Err(TpmRc(rc::SIGNATURE).for_parameter(1))
            },
            _ => Err(TpmRc(rc::SIGNATURE).for_parameter(1)),
        }
    }
}

/// Check a signature over a whole message.
pub fn verify_message(object: &Object, message: &[u8], signature: &TpmtSignature) -> (r: TpmResult<
    (),
>)
    requires
        signature.wf(),
    ensures
        r == message_verification(object@, message@, signature.sig_alg, signature.signature@),
{
    broadcast use lemma_hash_len;

    if !signs_a_message(object) {
        return match signature.hash_alg() {
            None => Err(TpmRc(rc::SCHEME).with_parameter(1)),
            Some(h) => {
                let d: Vec<u8> = digest(h, message)?;
                verify_digest(object, d.as_slice(), signature)
            },
        };
    }
    match &object.sensitive {
        None => Err(TpmRc(rc::HANDLE).with_handle(1)),
        Some(s) => match &signature.signature {
            SignatureValue::Hmac(ha) => {
                let expected: Vec<u8> = hmac(ha.hash_alg, s.sensitive.as_slice(), message)?;
                if !constant_time_eq(expected.as_slice(), ha.digest.as_slice()) {
                    return Err(TpmRc(rc::SIGNATURE).with_parameter(1));
                }
                Ok(())
            },
            _ => Err(TpmRc(rc::SIGNATURE).with_parameter(1)),
        },
    }
}

/// True for an object that holds both halves of a sound RSA key.
pub open spec fn sound_key(o: ObjectView) -> bool {
    o.sensitive matches Some(s) && sound_rsa(o.public, s)
}

/// The block that an RSA scheme signs is as long as the modulus and passes for
/// the digest.
proof fn lemma_block_passes(
    m: RngModel,
    scheme: u16,
    hash_alg: u16,
    d: Seq<u8>,
    key_bits: u16,
    size: nat,
)
    requires
        rsa_block(m, scheme, hash_alg, d, key_bits, size).0 is Ok,
    ensures
        ({
            let block = rsa_block(m, scheme, hash_alg, d, key_bits, size).0->Ok_0;
            &&& block.len() == size
            &&& scheme == alg::RSASSA ==> signature_block(hash_alg, d, size) == Ok::<
                Seq<u8>,
                TpmRc,
            >(block)
            &&& scheme == alg::RSAPSS ==> pss_verifies(
                hash_alg,
                d,
                block.skip(size - pss_len(key_bits as nat)),
                key_bits as nat,
            )
            &&& scheme == alg::RSASSA || scheme == alg::RSAPSS
        }),
{
    broadcast use lemma_hash_len;

    let block = rsa_block(m, scheme, hash_alg, d, key_bits, size).0->Ok_0;
    if scheme == alg::RSAPSS {
        lemma_draw_len(m, size_of(hash_alg));
        let salt = draw(m, size_of(hash_alg)).0->Ok_0;
        let em = pss_block(hash_alg, d, key_bits as nat, salt);
        law_a_probabilistic_block_verifies(hash_alg, d, key_bits as nat, salt);
        assert(em.len() == pss_len(key_bits as nat));
        assert(block.skip(size - em.len()) =~= em);
    }
}

/// A signature that a key makes is accepted: what the key signed under a scheme
/// passes the check for the digest under the same scheme. The factors of an RSA
/// modulus have to be primes, and the curve of an ECC key has to be a group.
pub proof fn law_a_signature_is_accepted(m: RngModel, o: ObjectView, scheme: Scheme, d: Seq<u8>)
    requires
        signature_made(m, o, scheme, d).0 is Ok,
        ({
            let (sig_alg, v) = signature_made(m, o, scheme, d).0->Ok_0;
            signature_scheme_check(o.public, sig_alg, v) is Ok
        }),
        match o.public.unique {
            IdView::Rsa(modulus) => {
                &&& o.public.object_type == alg::RSA
                &&& sound_key(o)
                &&& o.public.parameters matches PublicParms::Rsa { key_bits, .. } && bit_length(
                    number_of(modulus),
                ) == key_bits
            },
            IdView::Ecc(_, _) => {
                &&& o.public.object_type == alg::ECC
                &&& o.sensitive matches Some(s) && sound_ecc(o.public, s)
            },
            IdView::KeyedHash(_) => o.public.object_type == alg::KEYEDHASH,
            _ => false,
        },
    ensures
        ({
            let (sig_alg, v) = signature_made(m, o, scheme, d).0->Ok_0;
            verification(o, d, sig_alg, v) == Ok::<(), TpmRc>(())
        }),
{
    reveal(signature_made);
    reveal(verification);
    match (o.public.parameters, o.public.unique, o.sensitive) {
        (PublicParms::Rsa { key_bits, exponent, .. }, IdView::Rsa(modulus), Some(s)) => {
            let n = number_of(modulus);
            let size = octet_length(n);
            let h = scheme.spec_hash_alg()->0;
            let block = rsa_block(m, scheme.scheme, h, d, key_bits, size).0->Ok_0;
            lemma_block_passes(m, scheme.scheme, h, d, key_bits, size);
            law_a_raised_block_comes_back(n, exponent_of(exponent), number_of(s.sensitive), block);
        },
        (PublicParms::Ecc { curve_id, .. }, IdView::Ecc(x, y), Some(s)) => {
            let h = scheme.spec_hash_alg()->0;
            let c = curve_of(curve_id);
            let what = if scheme.scheme == alg::ECDSA {
                Signing::Ecdsa { e: digest_number(c, d) }
            } else {
                Signing::Schnorr { hash_alg: h, digest: d }
            };
            law_an_ecc_signature_verifies(
                c,
                number_of(s.sensitive),
                number_of(x),
                number_of(y),
                what,
                m,
                ecc::DRAWS as nat,
            );
            let (r, t) = ecc_signed(m, o.public, s, scheme.scheme, h, d).0->Ok_0;
            lemma_parts_read_back(curve_id, number_of(x), number_of(y), what, r, t);
        },
        _ => {},
    }
}

/// An RSA signature of the older scheme with another value is refused. The
/// factors of the modulus have to be primes.
pub proof fn law_a_changed_signature_is_refused(
    m: RngModel,
    o: ObjectView,
    scheme: Scheme,
    d: Seq<u8>,
    hash: u16,
    sig: Seq<u8>,
    other: Seq<u8>,
)
    requires
        o.public.object_type == alg::RSA,
        sound_key(o),
        scheme.scheme == alg::RSASSA,
        signature_made(m, o, scheme, d).0 == Ok::<(u16, SignatureView), TpmRc>(
            (alg::RSASSA, SignatureView::Rsa { hash, sig }),
        ),
        signature_scheme_check(o.public, alg::RSASSA, SignatureView::Rsa { hash, sig }) is Ok,
        other.len() == sig.len(),
        other != sig,
    ensures
        verification(o, d, alg::RSASSA, SignatureView::Rsa { hash, sig: other }) == Err::<
            (),
            TpmRc,
        >(TpmRc(rc::SIGNATURE).for_parameter(2)),
{
    reveal(signature_made);
    reveal(verification);
    match (o.public.parameters, o.public.unique, o.sensitive) {
        (PublicParms::Rsa { key_bits, exponent, .. }, IdView::Rsa(modulus), Some(s)) => {
            let n = number_of(modulus);
            let size = octet_length(n);
            let e = exponent_of(exponent);
            let p = number_of(s.sensitive);
            let block = rsa_block(m, scheme.scheme, hash, d, key_bits, size).0->Ok_0;
            lemma_octets_len(power_mod(number_of(block), private_of(n, e, p), n), size);
            law_a_raised_block_comes_back(n, e, p, other);
        },
        _ => {},
    }
}

/// An RSA signature that is accepted is one that the key makes: it is a block that
/// passes for the digest, raised to the private exponent. Two signatures that differ
/// hold different blocks, so a changed one is accepted only where its own block
/// passes. Both are as long as the modulus, whose factors have to be primes.
pub proof fn law_an_accepted_signature_holds_a_block(
    o: ObjectView,
    modulus: Seq<u8>,
    d: Seq<u8>,
    sig_alg: u16,
    hash: u16,
    sig: Seq<u8>,
    other: Seq<u8>,
)
    requires
        sound_key(o),
        o.public.unique == IdView::Rsa(modulus),
        sig.len() == octet_length(number_of(modulus)),
        other.len() == sig.len(),
        verification(o, d, sig_alg, SignatureView::Rsa { hash, sig }) is Ok,
    ensures
        ({
            let n = number_of(modulus);
            let size = octet_length(n);
            let e = exponent_of(o.public.parameters->Rsa_exponent);
            let x = private_of(n, e, number_of(o.sensitive->0.sensitive));
            raised(n, e, size, sig) matches Ok(block) && {
                &&& raised(n, x, size, block) == Ok::<Seq<u8>, TpmRc>(sig)
                &&& sig_alg == alg::RSASSA ==> signature_block(hash, d, size) == Ok::<
                    Seq<u8>,
                    TpmRc,
                >(block)
                &&& sig_alg == alg::RSAPSS ==> pss_verifies(
                    hash,
                    d,
                    block.skip(size - pss_len(bit_length(n))),
                    bit_length(n),
                )
                &&& other != sig ==> raised(n, e, size, other) != Ok::<Seq<u8>, TpmRc>(block)
            }
        }),
{
    reveal(verification);
    let n = number_of(modulus);
    let e = exponent_of(o.public.parameters->Rsa_exponent);
    let p = number_of(o.sensitive->0.sensitive);
    law_a_raised_block_comes_back(n, e, p, sig);
    law_a_raised_block_comes_back(n, e, p, other);
}

/// The public half of a key is all that it takes to check an RSA or an ECC
/// signature.
pub proof fn law_the_public_half_verifies(
    o: ObjectView,
    d: Seq<u8>,
    sig_alg: u16,
    v: SignatureView,
)
    requires
        !(o.public.unique is KeyedHash),
    ensures
        verification(ObjectView { sensitive: None, ..o }, d, sig_alg, v) == verification(
            o,
            d,
            sig_alg,
            v,
        ),
{
    reveal(verification);
}

} // verus!
