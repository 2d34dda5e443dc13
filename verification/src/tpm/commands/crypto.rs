//! Signing, asymmetric operations, symmetric encryption and credentials.

use vstd::prelude::*;

use super::dispatch::{Request, RequestView, Response};
use super::execute::respond;
use super::sequences::same_answer;
use super::wire::{alone, answers_with, fails, raw_u16, raw_u8, take_sized};
use crate::tpm::constants::{alg, rc, rh, st};
use crate::tpm::crypto::bn::{
    lemma_octet_length, lemma_octets_len, number_of, octet_length, octets_of, BigNum,
};
use crate::tpm::crypto::ecc::{
    self, base_multiplied, curve_of, key_drawn, on_curve, shared, Curve, EccKey,
};
use crate::tpm::crypto::ecc_group::law_two_keys_share_a_point;
use crate::tpm::crypto::hash::{digest_size, size_of, supported};
use crate::tpm::crypto::rand::{draw, lemma_draw_len, Drbg, Rng, RngModel};
use crate::tpm::crypto::rsa::{self, exponent_of, private_of, raised, RsaPrivate, RsaPublic};
use crate::tpm::crypto::rsa_inverse::law_a_raised_block_comes_back;
use crate::tpm::crypto::rsa_padding::{
    encryption_padded, encryption_unpadded, law_encryption_padding_round_trips,
    lemma_oaep_comes_off, oaep_decoded, oaep_encoded,
};
use crate::tpm::crypto::sym::{self, crypt_check, crypted, Direction};
use crate::tpm::engine::hierarchy::is_hierarchy;
use crate::tpm::engine::object::{Object, ObjectView};
use crate::tpm::engine::protect::{
    integrity_of, protected, protects, recovered, sound_ecc, unwrap_private_body,
    wrap_private_body, zero_iv,
};
use crate::tpm::engine::state::TpmState;
use crate::tpm::engine::validate::is_parent;
use crate::tpm::error::{TpmRc, TpmResult};
use crate::tpm::marshal::{
    lemma_behind, lemma_two_fields, parse_sized, sized, Parsed, Reader, Writer,
};
use crate::tpm::structures::attributes::ObjectAttributes;
use crate::tpm::structures::base::{Tpm2bDigest, Tpm2bEccParameter};
use crate::tpm::structures::keys::{known_curve, IdView, PublicId, PublicParms, PublicView};
use crate::tpm::structures::schemes::{
    point_octets, EccPoint, Scheme, SchemeUse, SymDef, Tpm2bEccPoint,
};
use crate::tpm::structures::signature::{
    SignatureView, Ticket, TicketView, TpmtSignature, VerifiedTicket, VerifiedView,
};
use crate::util::bytes::{filled, octets16, to_vec};

pub use super::sequences::{
    event_sequence_complete, hash_command, hash_sequence_start, hmac_command, hmac_start,
    keyed_hash_data, sequence_complete, sequence_update,
};
pub use super::signatures::{
    check_digest_size, check_signature_scheme, check_signing_key, chosen_scheme, hash_ticket_holds,
    object_named, object_of, sign_digest, sign_message, signature_made, signing_key_check,
    signing_scheme, signs_a_message, sound_key, verification, verified_hmac, verified_ticket_hmac,
    verify_digest, verify_digest_public, verify_hash_ticket, verify_message,
};

verus! {

/// What a credential is encrypted for, "IDENTITY" and a zero.
pub const LABEL_IDENTITY: [u8; 9] = [0x49, 0x44, 0x45, 0x4e, 0x54, 0x49, 0x54, 0x59, 0x00];

/// The parameters of TPM2_Sign.
pub open spec fn parse_sign(d: Seq<u8>) -> Parsed<(Seq<u8>, Scheme, TicketView)> {
    match parse_sized(d, 0, 64) {
        Err(e) => Err(e),
        Ok((digest, n1)) => match Scheme::parse(d, n1, SchemeUse::Signature) {
            Err(e) => Err(e),
            Ok((scheme, n2)) => match TicketView::parse(d, n2, st::HASHCHECK, st::HASHCHECK) {
                Err(e) => Err(e),
                Ok((ticket, n3)) => Ok(((digest, scheme, ticket), n3)),
            },
        },
    }
}

/// The hash of a scheme, or that of the object.
pub open spec fn hash_or(scheme: Scheme, name_alg: u16) -> u16 {
    match scheme.spec_hash_alg() {
        Some(h) => h,
        None => name_alg,
    }
}

/// The hash of a scheme, or that of the object.
fn scheme_hash_or(scheme: &Scheme, name_alg: u16) -> (r: u16)
    ensures
        r == hash_or(*scheme, name_alg),
{
    match scheme.hash_alg() {
        Some(h) => h,
        None => name_alg,
    }
}

/// Whether a key may sign a digest: a restricted key only signs a digest that
/// this TPM made, and a ticket that is given has to hold.
pub open spec fn ticket_check(state: TpmState, o: ObjectView, scheme: Scheme, d: Seq<u8>, t: TicketView)
    -> TpmResult<()> {
    let h = hash_or(scheme, o.public.name_alg);
    if !o.public.object_attributes.has(ObjectAttributes::RESTRICTED) && t.digest.len() == 0 {
        Ok(())
    } else if !supported(h) {
        Err(TpmRc(rc::HASH))
    } else if size_of(h) != d.len() || !hash_ticket_holds(state, t, h, d) {
        Err(TpmRc(rc::TICKET).for_parameter(3))
    } else {
        Ok(())
    }
}

/// What TPM2_Sign signs with what.
pub open spec fn sign_check(state: TpmState, req: RequestView) -> TpmResult<
    (ObjectView, Scheme, Seq<u8>),
> {
    match (req.handle(0), alone(req.parameters, parse_sign(req.parameters))) {
        (Err(e), _) => Err(e),
        (_, Err(e)) => Err(e),
        (Ok(h), Ok((d, supplied, ticket))) => match object_named(state, h) {
            Err(e) => Err(e.for_handle(1)),
            Ok(o) => match (signing_key_check(o@), chosen_scheme(o@.public, supplied)) {
                (Err(e), _) => Err(e.for_handle(1)),
                (_, Err(e)) => Err(e),
                (_, Ok(scheme)) => match ticket_check(state, o@, scheme, d, ticket) {
                    Err(e) => Err(e),
                    Ok(_) => Ok((o@, scheme, d)),
                },
            },
        },
    }
}

/// TPM2_Sign.
pub open spec fn sign_ran(
    after: TpmState,
    before: TpmState,
    req: RequestView,
    r: TpmResult<Response>,
) -> bool {
    match sign_check(before, req) {
        Err(e) => after == before && fails(r, e),
        Ok((o, scheme, d)) => {
            let out = signature_made(before.rng.model(), o, scheme, d);
            &&& after == (TpmState { rng: after.rng, ..before })
            &&& after.rng.model() == out.1
            &&& match out.0 {
                Err(e) => fails(r, e),
                Ok(v) => answers_with(r, octets16(v.0) + v.1.octets()),
            }
        },
    }
}

/// Check that a key may sign a digest.
fn check_ticket(state: &TpmState, object: &Object, scheme: &Scheme, d: &[u8], ticket: &Ticket) -> (r:
    TpmResult<()>)
    ensures
        r == ticket_check(*state, object@, *scheme, d@, ticket@),
{
    let restricted: bool = object.public.object_attributes.has(ObjectAttributes::RESTRICTED);
    if restricted || !ticket.digest.is_empty() {
        let h: u16 = scheme_hash_or(scheme, object.public.name_alg);
        let size: usize = digest_size(h)?;
        if size != d.len() {
            return Err(TpmRc(rc::TICKET).with_parameter(3));
        }
        verify_hash_ticket(state, ticket, h, d, 3)?;
    }
    Ok(())
}

/// TPM2_Sign: sign a digest.
pub fn sign(state: &mut TpmState, request: &Request) -> (r: TpmResult<Response>)
    requires
        old(state).wf(),
    ensures
        final(state).wf(),
        sign_ran(*final(state), *old(state), request@, r),
{
    let handle: u32 = request.handle(0)?;
    let mut reader: Reader = request.reader();
    let d: Vec<u8> = take_sized::<64>(&mut reader)?;
    let supplied: Scheme = Scheme::unmarshal(&mut reader, SchemeUse::Signature)?;
    let ticket: Ticket = Ticket::unmarshal_tagged(&mut reader, st::HASHCHECK, st::HASHCHECK)?;
    reader.expect_end()?;
    let object: Object = match object_of(state, handle) {
        Ok(o) => o.clone(),
        Err(e) => {
            return Err(e.with_handle(1));
        },
    };
    match check_signing_key(&object) {
        Ok(_) => {},
        Err(e) => {
            return Err(e.with_handle(1));
        },
    }
    let scheme: Scheme = signing_scheme(&object, &supplied)?;
    check_ticket(state, &object, &scheme, d.as_slice(), &ticket)?;
    let signature: TpmtSignature = sign_digest(state, &object, &scheme, d.as_slice())?;
    let mut w: Writer = Writer::new();
    signature.marshal(&mut w);
    assert(w.written() =~= octets16(signature.sig_alg) + signature.signature@.octets());
    respond(w)
}

/// The ticket that says that this TPM verified a signature.
pub open spec fn verified_ticket(state: TpmState, o: Object, d: Seq<u8>) -> TpmResult<VerifiedView> {
    if o.hierarchy == rh::NULL {
        Ok(
            VerifiedView {
                tag: st::VERIFIED,
                hierarchy: rh::NULL,
                digest_alg: None,
                hmac: Seq::empty(),
            },
        )
    } else if !is_hierarchy(o.hierarchy) {
        Err(TpmRc(rc::VALUE))
    } else {
        Ok(
            VerifiedView {
                tag: st::VERIFIED,
                hierarchy: o.hierarchy,
                digest_alg: None,
                hmac: verified_hmac(
                    state.hierarchies.spec_get(o.hierarchy).proof_value@,
                    st::VERIFIED,
                    d,
                    o.name@,
                    None,
                ),
            },
        )
    }
}

/// The parameters of TPM2_VerifySignature.
pub open spec fn parse_verify(d: Seq<u8>) -> Parsed<(Seq<u8>, u16, SignatureView)> {
    match parse_sized(d, 0, 64) {
        Err(e) => Err(e),
        Ok((digest, n1)) => match TpmtSignature::parse(d, n1) {
            Err(e) => Err(e),
            Ok((s, n2)) => Ok(((digest, s.0, s.1), n2)),
        },
    }
}

/// TPM2_VerifySignature.
pub open spec fn verify_signature_ran(state: TpmState, req: RequestView, r: TpmResult<Response>)
    -> bool {
    match (req.handle(0), alone(req.parameters, parse_verify(req.parameters))) {
        (Err(e), _) => fails(r, e),
        (_, Err(e)) => fails(r, e),
        (Ok(h), Ok((d, sig_alg, v))) => match object_named(state, h) {
            Err(e) => fails(r, e.for_handle(1)),
            Ok(o) => match (verification(o@, d, sig_alg, v), verified_ticket(state, o, d)) {
                (Err(e), _) => fails(r, e),
                (_, Err(e)) => fails(r, e),
                (_, Ok(t)) => answers_with(r, t.octets()),
            },
        },
    }
}

/// TPM2_VerifySignature: check a signature, and say so in a ticket.
pub fn verify_signature(state: &TpmState, request: &Request) -> (r: TpmResult<Response>)
    requires
        state.wf(),
    ensures
        verify_signature_ran(*state, request@, r),
{
    let handle: u32 = request.handle(0)?;
    let mut reader: Reader = request.reader();
    let d: Vec<u8> = take_sized::<64>(&mut reader)?;
    let signature: TpmtSignature = TpmtSignature::unmarshal(&mut reader)?;
    reader.expect_end()?;
    let object: &Object = match object_of(state, handle) {
        Ok(o) => o,
        Err(e) => {
            return Err(e.with_handle(1));
        },
    };
    verify_digest(object, d.as_slice(), &signature)?;
    let ticket: VerifiedTicket = if object.hierarchy == rh::NULL {
        VerifiedTicket::null()
    } else {
        let proof_value: &[u8] = state.hierarchy_proof(object.hierarchy)?;
        let h: Vec<u8> = verified_ticket_hmac(
            proof_value,
            st::VERIFIED,
            d.as_slice(),
            object.name.as_slice(),
            None,
        )?;
        VerifiedTicket {
            tag: st::VERIFIED,
            hierarchy: object.hierarchy,
            digest_alg: None,
            hmac: Tpm2bDigest::new(h)?,
        }
    };
    let mut w: Writer = Writer::new();
    ticket.marshal(&mut w);
    assert(w.written() =~= ticket@.octets());
    respond(w)
}

/// The parameters of TPM2_RSA_Encrypt and TPM2_RSA_Decrypt.
pub open spec fn parse_rsa(d: Seq<u8>) -> Parsed<(Seq<u8>, Scheme, Seq<u8>)> {
    match parse_sized(d, 0, 512) {
        Err(e) => Err(e),
        Ok((message, n1)) => match Scheme::parse(d, n1, SchemeUse::RsaDecrypt) {
            Err(e) => Err(e),
            Ok((scheme, n2)) => match parse_sized(d, n2, 66) {
                Err(e) => Err(e),
                Ok((label, n3)) => Ok(((message, scheme, label), n3)),
            },
        },
    }
}

/// The scheme that encrypts: the one of the key where it agrees with the
/// caller's, and otherwise the caller's.
pub open spec fn encryption_scheme(p: PublicView, supplied: Scheme) -> Scheme {
    match chosen_scheme(p, supplied) {
        Ok(s) => s,
        Err(_) => supplied,
    }
}

/// The scheme that encrypts.
fn choose_encryption_scheme(object: &Object, supplied: Scheme) -> (r: Scheme)
    ensures
        r == encryption_scheme(object@.public, supplied),
{
    match signing_scheme(object, &supplied) {
        Ok(s) => s,
        Err(_) => supplied,
    }
}

/// A label ends in a zero.
pub open spec fn terminated(label: Seq<u8>) -> Seq<u8> {
    if label.len() > 0 && label.last() == 0 {
        label
    } else {
        label.push(0)
    }
}

/// A label that ends in a zero.
fn terminate(label: &[u8]) -> (r: Vec<u8>)
    ensures
        r@ == terminated(label@),
{
    let mut out: Vec<u8> = to_vec(label);
    if label.len() == 0 || label[label.len() - 1] != 0 {
        out.push(0);
    }
    out
}

/// The modulus and the exponent of an RSA decryption key.
pub open spec fn rsa_key_of(o: ObjectView) -> TpmResult<(Seq<u8>, u32)> {
    if o.public.object_type != alg::RSA {
        Err(TpmRc(rc::TYPE).for_handle(1))
    } else if !o.public.object_attributes.has(ObjectAttributes::DECRYPT) {
        Err(TpmRc(rc::ATTRIBUTES).for_handle(1))
    } else {
        match (o.public.parameters, o.public.unique) {
            (PublicParms::Rsa { exponent, .. }, IdView::Rsa(modulus)) => Ok((modulus, exponent)),
            _ => Err(TpmRc(rc::TYPE)),
        }
    }
}

/// The block that is encrypted, and what the generator is left with.
pub open spec fn rsa_padded(
    m: RngModel,
    scheme: Scheme,
    name_alg: u16,
    size: nat,
    message: Seq<u8>,
    label: Seq<u8>,
) -> (TpmResult<Seq<u8>>, RngModel) {
    if scheme.scheme == alg::OAEP {
        oaep_encoded(hash_or(scheme, name_alg), size, message, terminated(label), m)
    } else if scheme.scheme == alg::RSAES {
        encryption_padded(size, message, m)
    } else if scheme.scheme == alg::NULL {
        if message.len() != size {
            (Err(TpmRc(rc::SIZE).for_parameter(1)), m)
        } else {
            (Ok(message), m)
        }
    } else {
        (Err(TpmRc(rc::SCHEME).for_parameter(2)), m)
    }
}

/// A message encrypted to an object, and what the generator is left with.
pub open spec fn rsa_encrypted(
    m: RngModel,
    o: ObjectView,
    supplied: Scheme,
    message: Seq<u8>,
    label: Seq<u8>,
) -> (TpmResult<Seq<u8>>, RngModel) {
    match rsa_key_of(o) {
        Err(e) => (Err(e), m),
        Ok((modulus, exponent)) => {
            let n = number_of(modulus);
            let size = octet_length(n);
            if n == 0 {
                (Err(TpmRc(rc::VALUE)), m)
            } else {
                let scheme = encryption_scheme(o.public, supplied);
                match rsa_padded(m, scheme, o.public.name_alg, size, message, label) {
                    (Err(e), left) => (Err(e), left),
                    (Ok(block), left) => (raised(n, exponent_of(exponent), size, block), left),
                }
            }
        },
    }
}

/// TPM2_RSA_Encrypt.
pub open spec fn rsa_encrypt_ran(
    after: TpmState,
    before: TpmState,
    req: RequestView,
    r: TpmResult<Response>,
) -> bool {
    match (req.handle(0), alone(req.parameters, parse_rsa(req.parameters))) {
        (Err(e), _) => after == before && fails(r, e),
        (_, Err(e)) => after == before && fails(r, e),
        (Ok(h), Ok((message, supplied, label))) => match object_named(before, h) {
            Err(e) => after == before && fails(r, e.for_handle(1)),
            Ok(o) => {
                let out = rsa_encrypted(before.rng.model(), o@, supplied, message, label);
                &&& after == (TpmState { rng: after.rng, ..before })
                &&& after.rng.model() == out.1
                &&& match out.0 {
                    Err(e) => fails(r, e),
                    Ok(v) => answers_with(r, sized(v)),
                }
            },
        },
    }
}

/// The block that is encrypted.
fn rsa_pad(
    rng: &mut Drbg,
    scheme: &Scheme,
    name_alg: u16,
    size: usize,
    message: &[u8],
    label: &[u8],
) -> (r: TpmResult<Vec<u8>>)
    requires
        size <= 512,
        message@.len() <= 512,
    ensures
        ({
            let out = rsa_padded(
                old(rng).model(),
                *scheme,
                name_alg,
                size as nat,
                message@,
                label@,
            );
            &&& final(rng).model() == out.1
            &&& match out.0 {
                Ok(v) => r is Ok && r->Ok_0@ == v,
                Err(e) => r is Err && r->Err_0 == e,
            }
        }),
{
    if scheme.scheme == alg::OAEP {
        let l: Vec<u8> = terminate(label);
        return rsa::oaep_encode(
            scheme_hash_or(scheme, name_alg),
            size,
            message,
            l.as_slice(),
            rng,
        );
    }
    if scheme.scheme == alg::RSAES {
        return rsa::pkcs1v15_encrypt_pad(size, message, rng);
    }
    if scheme.scheme == alg::NULL {
        if message.len() != size {
            return Err(TpmRc(rc::SIZE).with_parameter(1));
        }
        return Ok(to_vec(message));
    }
    Err(TpmRc(rc::SCHEME).with_parameter(2))
}

/// Encrypt a message to an object.
fn encrypt_to(rng: &mut Drbg, object: &Object, supplied: Scheme, message: &[u8], label: &[u8]) -> (r:
    TpmResult<Vec<u8>>)
    requires
        message@.len() <= 512,
    ensures
        ({
            let out = rsa_encrypted(old(rng).model(), object@, supplied, message@, label@);
            &&& final(rng).model() == out.1
            &&& match out.0 {
                Ok(v) => r is Ok && r->Ok_0@ == v && v.len() <= 512,
                Err(e) => r is Err && r->Err_0 == e,
            }
        }),
{
    if object.public.object_type != alg::RSA {
        return Err(TpmRc(rc::TYPE).with_handle(1));
    }
    if !object.public.object_attributes.has(ObjectAttributes::DECRYPT) {
        return Err(TpmRc(rc::ATTRIBUTES).with_handle(1));
    }
    match (&object.public.parameters, &object.public.unique) {
        (PublicParms::Rsa { exponent, .. }, PublicId::Rsa(modulus)) => {
            proof {
                lemma_octet_length(modulus@);
            }
            let key: RsaPublic = RsaPublic::new(modulus.as_slice(), *exponent)?;
            let scheme: Scheme = choose_encryption_scheme(object, supplied);
            let block: Vec<u8> = rsa_pad(
                rng,
                &scheme,
                object.public.name_alg,
                key.size(),
                message,
                label,
            )?;
            rsa::public_op(&key, block.as_slice())
        },
        _ => Err(TpmRc(rc::TYPE)),
    }
}

/// TPM2_RSA_Encrypt: encrypt a message to a key.
pub fn rsa_encrypt(state: &mut TpmState, request: &Request) -> (r: TpmResult<Response>)
    requires
        old(state).wf(),
    ensures
        final(state).wf(),
        rsa_encrypt_ran(*final(state), *old(state), request@, r),
{
    let handle: u32 = request.handle(0)?;
    let mut reader: Reader = request.reader();
    let message: Vec<u8> = take_sized::<512>(&mut reader)?;
    let supplied: Scheme = Scheme::unmarshal(&mut reader, SchemeUse::RsaDecrypt)?;
    let label: Vec<u8> = take_sized::<66>(&mut reader)?;
    reader.expect_end()?;
    let object: Object = match object_of(state, handle) {
        Ok(o) => o.clone(),
        Err(e) => {
            return Err(e.with_handle(1));
        },
    };
    let out: Vec<u8> = encrypt_to(
        &mut state.rng,
        &object,
        supplied,
        message.as_slice(),
        label.as_slice(),
    )?;
    let mut w: Writer = Writer::new();
    w.sized16(out.as_slice());
    assert(w.written() =~= sized(out@));
    respond(w)
}

/// The message in a block that was encrypted.
pub open spec fn rsa_unpadded(scheme: Scheme, name_alg: u16, block: Seq<u8>, label: Seq<u8>)
    -> TpmResult<Seq<u8>> {
    if scheme.scheme == alg::OAEP {
        oaep_decoded(hash_or(scheme, name_alg), block, terminated(label))
    } else if scheme.scheme == alg::RSAES {
        encryption_unpadded(block)
    } else if scheme.scheme == alg::NULL {
        Ok(block)
    } else {
        Err(TpmRc(rc::SCHEME).for_parameter(2))
    }
}

/// A message that was encrypted to an object. A restricted key only decrypts
/// what the TPM itself protects.
pub open spec fn rsa_decrypted(o: ObjectView, supplied: Scheme, cipher: Seq<u8>, label: Seq<u8>)
    -> TpmResult<Seq<u8>> {
    if o.public.object_type != alg::RSA {
        Err(TpmRc(rc::TYPE).for_handle(1))
    } else if !o.public.object_attributes.has(ObjectAttributes::DECRYPT)
        || o.public.object_attributes.has(ObjectAttributes::RESTRICTED) {
        Err(TpmRc(rc::ATTRIBUTES).for_handle(1))
    } else {
        match (o.sensitive, o.public.parameters, o.public.unique) {
            (None, _, _) => Err(TpmRc(rc::HANDLE).for_handle(1)),
            (Some(s), PublicParms::Rsa { exponent, .. }, IdView::Rsa(modulus)) => {
                let n = number_of(modulus);
                let d = private_of(n, exponent_of(exponent), number_of(s.sensitive));
                if n == 0 {
                    Err(TpmRc(rc::VALUE))
                } else if d == 0 {
                    Err(TpmRc(rc::BINDING))
                } else {
                    match raised(n, d, octet_length(n), cipher) {
                        Err(e) => Err(e),
                        Ok(block) => rsa_unpadded(
                            encryption_scheme(o.public, supplied),
                            o.public.name_alg,
                            block,
                            label,
                        ),
                    }
                }
            },
            _ => Err(TpmRc(rc::TYPE)),
        }
    }
}

/// TPM2_RSA_Decrypt.
pub open spec fn rsa_decrypt_ran(state: TpmState, req: RequestView, r: TpmResult<Response>) -> bool {
    match (req.handle(0), alone(req.parameters, parse_rsa(req.parameters))) {
        (Err(e), _) => fails(r, e),
        (_, Err(e)) => fails(r, e),
        (Ok(h), Ok((cipher, supplied, label))) => match object_named(state, h) {
            Err(e) => fails(r, e.for_handle(1)),
            Ok(o) => match rsa_decrypted(o@, supplied, cipher, label) {
                Err(e) => fails(r, e),
                Ok(v) => answers_with(r, sized(v)),
            },
        },
    }
}

/// The message in a block that was encrypted.
fn rsa_unpad(scheme: &Scheme, name_alg: u16, block: Vec<u8>, label: &[u8]) -> (r: TpmResult<Vec<u8>>)
    requires
        block@.len() <= 512,
    ensures
        match rsa_unpadded(*scheme, name_alg, block@, label@) {
            Ok(v) => r is Ok && r->Ok_0@ == v && v.len() <= 512,
            Err(e) => r is Err && r->Err_0 == e,
        },
{
    if scheme.scheme == alg::OAEP {
        let l: Vec<u8> = terminate(label);
        return rsa::oaep_decode(scheme_hash_or(scheme, name_alg), block.as_slice(), l.as_slice());
    }
    if scheme.scheme == alg::RSAES {
        return rsa::pkcs1v15_encrypt_unpad(block.as_slice());
    }
    if scheme.scheme == alg::NULL {
        return Ok(block);
    }
    Err(TpmRc(rc::SCHEME).with_parameter(2))
}

/// Decrypt a message that was encrypted to an object.
fn decrypt_with(object: &Object, supplied: Scheme, cipher: &[u8], label: &[u8]) -> (r: TpmResult<
    Vec<u8>,
>)
    ensures
        match rsa_decrypted(object@, supplied, cipher@, label@) {
            Ok(v) => r is Ok && r->Ok_0@ == v && v.len() <= 512,
            Err(e) => r is Err && r->Err_0 == e,
        },
{
    if object.public.object_type != alg::RSA {
        return Err(TpmRc(rc::TYPE).with_handle(1));
    }
    if !object.public.object_attributes.has(ObjectAttributes::DECRYPT)
        || object.public.object_attributes.has(ObjectAttributes::RESTRICTED) {
        return Err(TpmRc(rc::ATTRIBUTES).with_handle(1));
    }
    match (&object.sensitive, &object.public.parameters, &object.public.unique) {
        (None, _, _) => Err(TpmRc(rc::HANDLE).with_handle(1)),
        (Some(s), PublicParms::Rsa { exponent, .. }, PublicId::Rsa(modulus)) => {
            proof {
                lemma_octet_length(modulus@);
            }
            let key: RsaPrivate = RsaPrivate::from_prime(
                modulus.as_slice(),
                *exponent,
                s.sensitive.as_slice(),
            )?;
            let block: Vec<u8> = rsa::private_op(&key, cipher)?;
            let scheme: Scheme = choose_encryption_scheme(object, supplied);
            rsa_unpad(&scheme, object.public.name_alg, block, label)
        },
        _ => Err(TpmRc(rc::TYPE)),
    }
}

/// TPM2_RSA_Decrypt: decrypt a message with a key.
pub fn rsa_decrypt(state: &TpmState, request: &Request) -> (r: TpmResult<Response>)
    requires
        state.wf(),
    ensures
        rsa_decrypt_ran(*state, request@, r),
{
    let handle: u32 = request.handle(0)?;
    let mut reader: Reader = request.reader();
    let cipher: Vec<u8> = take_sized::<512>(&mut reader)?;
    let supplied: Scheme = Scheme::unmarshal(&mut reader, SchemeUse::RsaDecrypt)?;
    let label: Vec<u8> = take_sized::<66>(&mut reader)?;
    reader.expect_end()?;
    let object: &Object = match object_of(state, handle) {
        Ok(o) => o,
        Err(e) => {
            return Err(e.with_handle(1));
        },
    };
    let out: Vec<u8> = decrypt_with(object, supplied, cipher.as_slice(), label.as_slice())?;
    let mut w: Writer = Writer::new();
    w.sized16(out.as_slice());
    assert(w.written() =~= sized(out@));
    respond(w)
}

/// A point of a curve as octets.
pub open spec fn coordinates(curve_id: u16, p: (nat, nat)) -> Seq<u8> {
    let size = curve_of(curve_id).size;
    point_octets(octets_of(p.0, size), octets_of(p.1, size))
}

/// Write a point.
fn write_point(w: &mut Writer, x: Vec<u8>, y: Vec<u8>)
    requires
        x@.len() <= 66,
        y@.len() <= 66,
    ensures
        final(w).written() == old(w).written() + point_octets(x@, y@),
        final(w).good() == old(w).good(),
{
    match (Tpm2bEccParameter::new(x), Tpm2bEccParameter::new(y)) {
        (Ok(x), Ok(y)) => {
            let p: Tpm2bEccPoint = Tpm2bEccPoint { point: EccPoint { x, y } };
            p.marshal(w);
        },
        _ => {},
    }
}

/// The error when two keys share no point.
pub open spec fn unshared(curve_id: u16, x: nat, y: nat) -> u32 {
    if on_curve(curve_of(curve_id), x, y) {
        rc::NO_RESULT
    } else {
        rc::ECC_POINT
    }
}

/// The point an ephemeral key shares with an object, the point of the ephemeral
/// key, and what the generator is left with.
pub open spec fn ecdh_made(m: RngModel, o: ObjectView) -> (TpmResult<Seq<u8>>, RngModel) {
    match (o.public.parameters, o.public.unique) {
        (PublicParms::Ecc { curve_id, .. }, IdView::Ecc(x, y)) => if !known_curve(curve_id) {
            (Err(TpmRc(rc::CURVE)), m)
        } else {
            match key_drawn(curve_of(curve_id), m) {
                (Err(e), left) => (Err(e), left),
                (Ok(d), left) => match shared(
                    curve_of(curve_id),
                    d,
                    number_of(x),
                    number_of(y),
                ) {
                    None => (Err(TpmRc(unshared(curve_id, number_of(x), number_of(y)))), left),
                    Some(z) => (
                        Ok(
                            coordinates(curve_id, z) + coordinates(
                                curve_id,
                                base_multiplied(curve_of(curve_id), d)->0,
                            ),
                        ),
                        left,
                    ),
                },
            }
        },
        _ => (Err(TpmRc(rc::TYPE).for_handle(1)), m),
    }
}

/// TPM2_ECDH_KeyGen.
pub open spec fn ecdh_key_gen_ran(
    after: TpmState,
    before: TpmState,
    req: RequestView,
    r: TpmResult<Response>,
) -> bool {
    match req.handle(0) {
        Err(e) => after == before && fails(r, e),
        Ok(h) => match object_named(before, h) {
            Err(e) => after == before && fails(r, e.for_handle(1)),
            Ok(o) => {
                let out = ecdh_made(before.rng.model(), o@);
                &&& after == (TpmState { rng: after.rng, ..before })
                &&& after.rng.model() == out.1
                &&& match out.0 {
                    Err(e) => fails(r, e),
                    Ok(v) => answers_with(r, v),
                }
            },
        },
    }
}

/// Share a point between an ephemeral key and an object.
fn make_ecdh(rng: &mut Drbg, object: &Object) -> (r: TpmResult<Writer>)
    ensures
        ({
            let out = ecdh_made(old(rng).model(), object@);
            &&& final(rng).model() == out.1
            &&& match out.0 {
                Ok(v) => r is Ok && r->Ok_0.written() == v && r->Ok_0.good(),
                Err(e) => r is Err && r->Err_0 == e,
            }
        }),
{
    match (&object.public.parameters, &object.public.unique) {
        (PublicParms::Ecc { curve_id, .. }, PublicId::Ecc(point)) => {
            proof {
                ecc::lemma_coordinate_size(*curve_id);
            }
            let key: EccKey = ecc::generate(*curve_id, rng)?;
            let (zx, zy) = ecc::ecdh(
                &key.curve,
                &key.private,
                point.x.as_slice(),
                point.y.as_slice(),
            )?;
            let ghost z = point_octets(zx@, zy@);
            let mut w: Writer = Writer::new();
            write_point(&mut w, zx, zy);
            write_point(&mut w, key.public_x, key.public_y);
            assert(w.written() =~= z + point_octets(key.public_x@, key.public_y@));
            Ok(w)
        },
        _ => Err(TpmRc(rc::TYPE).with_handle(1)),
    }
}

/// TPM2_ECDH_KeyGen: share a point with a key, and show the ephemeral one.
pub fn ecdh_key_gen(state: &mut TpmState, request: &Request) -> (r: TpmResult<Response>)
    requires
        old(state).wf(),
    ensures
        final(state).wf(),
        ecdh_key_gen_ran(*final(state), *old(state), request@, r),
{
    let handle: u32 = request.handle(0)?;
    let object: Object = match object_of(state, handle) {
        Ok(o) => o.clone(),
        Err(e) => {
            return Err(e.with_handle(1));
        },
    };
    let w: Writer = make_ecdh(&mut state.rng, &object)?;
    respond(w)
}

/// The point an object shares with a point.
pub open spec fn ecdh_of(o: ObjectView, x: Seq<u8>, y: Seq<u8>) -> TpmResult<Seq<u8>> {
    if o.public.object_type != alg::ECC {
        Err(TpmRc(rc::TYPE).for_handle(1))
    } else if !o.public.object_attributes.has(ObjectAttributes::DECRYPT) {
        Err(TpmRc(rc::ATTRIBUTES).for_handle(1))
    } else {
        match (o.sensitive, o.public.parameters) {
            (None, _) => Err(TpmRc(rc::HANDLE).for_handle(1)),
            (Some(s), PublicParms::Ecc { curve_id, .. }) => if !known_curve(curve_id) {
                Err(TpmRc(rc::CURVE))
            } else {
                match shared(
                    curve_of(curve_id),
                    number_of(s.sensitive),
                    number_of(x),
                    number_of(y),
                ) {
                    None => if on_curve(curve_of(curve_id), number_of(x), number_of(y)) {
                        Err(TpmRc(rc::NO_RESULT))
                    } else {
                        Err(TpmRc(rc::ECC_POINT).for_parameter(1))
                    },
                    Some(z) => Ok(coordinates(curve_id, z)),
                }
            },
            _ => Err(TpmRc(rc::TYPE)),
        }
    }
}

/// TPM2_ECDH_ZGen.
pub open spec fn ecdh_zgen_ran(state: TpmState, req: RequestView, r: TpmResult<Response>) -> bool {
    match (req.handle(0), alone(req.parameters, Tpm2bEccPoint::parse(req.parameters, 0))) {
        (Err(e), _) => fails(r, e),
        (_, Err(e)) => fails(r, e),
        (Ok(h), Ok((x, y))) => match object_named(state, h) {
            Err(e) => fails(r, e.for_handle(1)),
            Ok(o) => match ecdh_of(o@, x, y) {
                Err(e) => fails(r, e),
                Ok(v) => answers_with(r, v),
            },
        },
    }
}

/// Share a point between an object and a point.
fn share_with(object: &Object, x: &[u8], y: &[u8]) -> (r: TpmResult<Writer>)
    ensures
        match ecdh_of(object@, x@, y@) {
            Ok(v) => r is Ok && r->Ok_0.written() == v && r->Ok_0.good(),
            Err(e) => r is Err && r->Err_0 == e,
        },
{
    if object.public.object_type != alg::ECC {
        return Err(TpmRc(rc::TYPE).with_handle(1));
    }
    if !object.public.object_attributes.has(ObjectAttributes::DECRYPT) {
        return Err(TpmRc(rc::ATTRIBUTES).with_handle(1));
    }
    match (&object.sensitive, &object.public.parameters) {
        (None, _) => Err(TpmRc(rc::HANDLE).with_handle(1)),
        (Some(s), PublicParms::Ecc { curve_id, .. }) => {
            proof {
                ecc::lemma_coordinate_size(*curve_id);
            }
            let curve: Curve = Curve::new(*curve_id)?;
            let private: BigNum = BigNum::from_bytes(s.sensitive.as_slice());
            let (zx, zy) = match ecc::ecdh(&curve, &private, x, y) {
                Ok(z) => z,
                Err(e) => {
                    if e.0 == rc::ECC_POINT {
                        return Err(e.with_parameter(1));
                    }
                    return Err(e);
                },
            };
            let ghost z = point_octets(zx@, zy@);
            let mut w: Writer = Writer::new();
            write_point(&mut w, zx, zy);
            assert(w.written() =~= z);
            Ok(w)
        },
        _ => Err(TpmRc(rc::TYPE)),
    }
}

/// TPM2_ECDH_ZGen: the point a key shares with a point.
pub fn ecdh_zgen(state: &TpmState, request: &Request) -> (r: TpmResult<Response>)
    requires
        state.wf(),
    ensures
        ecdh_zgen_ran(*state, request@, r),
{
    let handle: u32 = request.handle(0)?;
    let mut reader: Reader = request.reader();
    let in_point: Tpm2bEccPoint = Tpm2bEccPoint::unmarshal(&mut reader)?;
    reader.expect_end()?;
    let object: &Object = match object_of(state, handle) {
        Ok(o) => o,
        Err(e) => {
            return Err(e.with_handle(1));
        },
    };
    let w: Writer = share_with(object, in_point.point.x.as_slice(), in_point.point.y.as_slice())?;
    respond(w)
}

/// The parameters of TPM2_EncryptDecrypt and TPM2_EncryptDecrypt2.
pub struct CipherInput {
    pub decrypt: u8,
    pub mode: u16,
    pub iv: Seq<u8>,
    pub data: Seq<u8>,
}

/// The parameters of TPM2_EncryptDecrypt and TPM2_EncryptDecrypt2, which puts
/// the data first.
pub open spec fn parse_cipher(d: Seq<u8>, data_first: bool) -> Parsed<CipherInput> {
    if data_first {
        match parse_sized(d, 0, 1024) {
            Err(e) => Err(e),
            Ok((data, n1)) => match parse_cipher_head(d, n1) {
                Err(e) => Err(e),
                Ok(((decrypt, mode, iv), n2)) => Ok((CipherInput { decrypt, mode, iv, data }, n2)),
            },
        }
    } else {
        match parse_cipher_head(d, 0) {
            Err(e) => Err(e),
            Ok(((decrypt, mode, iv), n1)) => match parse_sized(d, n1, 1024) {
                Err(e) => Err(e),
                Ok((data, n2)) => Ok((CipherInput { decrypt, mode, iv, data }, n2)),
            },
        }
    }
}

/// The direction, the mode and the initial value.
pub open spec fn parse_cipher_head(d: Seq<u8>, at: int) -> Parsed<(u8, u16, Seq<u8>)> {
    match raw_u8(d, at) {
        Err(e) => Err(e),
        Ok((decrypt, n1)) => match raw_u16(d, n1) {
            Err(e) => Err(e),
            Ok((mode, n2)) => match parse_sized(d, n2, 16) {
                Err(e) => Err(e),
                Ok((iv, n3)) => Ok(((decrypt, mode, iv), n3)),
            },
        },
    }
}

/// Data that a symmetric key encrypts or decrypts, and the initial value that
/// follows. Without a mode the key's own is used, and without an initial value
/// zeros are.
pub open spec fn ciphered(o: ObjectView, i: CipherInput) -> TpmResult<(Seq<u8>, Seq<u8>)> {
    if o.public.object_type != alg::SYMCIPHER {
        Err(TpmRc(rc::TYPE).for_handle(1))
    } else if o.public.object_attributes.has(ObjectAttributes::RESTRICTED) {
        Err(TpmRc(rc::ATTRIBUTES).for_handle(1))
    } else {
        match (o.sensitive, o.public.parameters) {
            (None, _) => Err(TpmRc(rc::HANDLE).for_handle(1)),
            (Some(s), PublicParms::SymCipher { sym }) => {
                let mode = if i.mode == alg::NULL {
                    sym.mode
                } else {
                    i.mode
                };
                if sym.mode != alg::NULL && mode != sym.mode {
                    Err(TpmRc(rc::VALUE).for_parameter(3))
                } else if mode != alg::ECB && i.iv.len() == 0 && sym.algorithm != alg::AES {
                    Err(TpmRc(rc::SYMMETRIC))
                } else {
                    let iv = if mode != alg::ECB && i.iv.len() == 0 {
                        zero_iv()
                    } else {
                        i.iv
                    };
                    match crypt_check(sym.algorithm, mode, s.sensitive, iv, i.data) {
                        Err(e) => Err(e),
                        Ok(_) => Ok(
                            crypted(
                                mode,
                                s.sensitive,
                                iv,
                                i.data,
                                if i.decrypt == 1 {
                                    Direction::Decrypt
                                } else {
                                    Direction::Encrypt
                                },
                            ),
                        ),
                    }
                }
            },
            _ => Err(TpmRc(rc::TYPE)),
        }
    }
}

/// TPM2_EncryptDecrypt and TPM2_EncryptDecrypt2.
pub open spec fn encrypt_decrypt_ran(
    state: TpmState,
    req: RequestView,
    data_first: bool,
    r: TpmResult<Response>,
) -> bool {
    match (req.handle(0), alone(req.parameters, parse_cipher(req.parameters, data_first))) {
        (Err(e), _) => fails(r, e),
        (_, Err(e)) => fails(r, e),
        (Ok(h), Ok(i)) => if i.decrypt > 1 {
            fails(r, TpmRc(rc::VALUE).for_parameter(2))
        } else {
            match object_named(state, h) {
                Err(e) => fails(r, e.for_handle(1)),
                Ok(o) => match ciphered(o@, i) {
                    Err(e) => fails(r, e),
                    Ok((out, iv)) => answers_with(r, sized(out) + sized(iv)),
                },
            }
        },
    }
}

/// Encrypt or decrypt with a symmetric key.
fn cipher(object: &Object, decrypt: u8, mode: u16, iv: Vec<u8>, data: &[u8]) -> (r: TpmResult<
    (Vec<u8>, Vec<u8>),
>)
    requires
        iv@.len() <= 16,
        data@.len() <= 1024,
    ensures
        match ciphered(object@, CipherInput { decrypt, mode, iv: iv@, data: data@ }) {
            Ok((out, next)) => r is Ok && (r->Ok_0).0@ == out && (r->Ok_0).1@ == next && out.len()
                <= 1024 && next.len() <= 16,
            Err(e) => r is Err && r->Err_0 == e,
        },
{
    if object.public.object_type != alg::SYMCIPHER {
        return Err(TpmRc(rc::TYPE).with_handle(1));
    }
    if object.public.object_attributes.has(ObjectAttributes::RESTRICTED) {
        return Err(TpmRc(rc::ATTRIBUTES).with_handle(1));
    }
    match (&object.sensitive, &object.public.parameters) {
        (None, _) => Err(TpmRc(rc::HANDLE).with_handle(1)),
        (Some(s), PublicParms::SymCipher { sym }) => {
            let used: u16 = if mode == alg::NULL {
                sym.mode
            } else {
                mode
            };
            if sym.mode != alg::NULL && used != sym.mode {
                return Err(TpmRc(rc::VALUE).with_parameter(3));
            }
            let mut chain: Vec<u8> = if used != alg::ECB && iv.len() == 0 {
                let n: usize = sym::block_size(sym.algorithm)?;
                let zeros: Vec<u8> = filled(0, n);
                assert(zeros@ =~= zero_iv());
                zeros
            } else {
                iv
            };
            let out: Vec<u8> = sym::crypt(
                sym.algorithm,
                used,
                s.sensitive.as_slice(),
                &mut chain,
                data,
                if decrypt == 1 {
                    Direction::Decrypt
                } else {
                    Direction::Encrypt
                },
            )?;
            Ok((out, chain))
        },
        _ => Err(TpmRc(rc::TYPE)),
    }
}

/// TPM2_EncryptDecrypt, and TPM2_EncryptDecrypt2, which puts the data first:
/// encrypt or decrypt with a symmetric key.
pub fn encrypt_decrypt(state: &TpmState, request: &Request, data_first: bool) -> (r: TpmResult<
    Response,
>)
    requires
        state.wf(),
    ensures
        encrypt_decrypt_ran(*state, request@, data_first, r),
{
    let handle: u32 = request.handle(0)?;
    let mut reader: Reader = request.reader();
    let mut data: Vec<u8> = Vec::new();
    if data_first {
        data = take_sized::<1024>(&mut reader)?;
    }
    let decrypt: u8 = reader.u8()?;
    let mode: u16 = reader.u16()?;
    let iv: Vec<u8> = take_sized::<16>(&mut reader)?;
    if !data_first {
        data = take_sized::<1024>(&mut reader)?;
    }
    reader.expect_end()?;
    if decrypt > 1 {
        return Err(TpmRc(rc::VALUE).with_parameter(2));
    }
    let object: &Object = match object_of(state, handle) {
        Ok(o) => o,
        Err(e) => {
            return Err(e.with_handle(1));
        },
    };
    let (out, next) = cipher(object, decrypt, mode, iv, data.as_slice())?;
    let mut w: Writer = Writer::new();
    w.sized16(out.as_slice());
    w.sized16(next.as_slice());
    assert(w.written() =~= sized(out@) + sized(next@));
    respond(w)
}

/// A credential protected for the object of a Name and carried to the holder
/// of a key: the protected credential, the secret, and what the generator is
/// left with.
pub open spec fn credential_made(m: RngModel, o: Object, credential: Seq<u8>, name: Seq<u8>) -> (
    TpmResult<(Seq<u8>, Seq<u8>)>,
    RngModel,
) {
    let p = o.public@;
    if !is_parent(p) {
        (Err(TpmRc(rc::TYPE).for_handle(1)), m)
    } else {
        match p.parameters.spec_symmetric() {
            None => (Err(TpmRc(rc::TYPE)), m),
            Some(sym) => if !supported(p.name_alg) {
                (Err(TpmRc(rc::HASH)), m)
            } else {
                match draw(m, size_of(p.name_alg)) {
                    (Err(e), left) => (Err(e), left),
                    (Ok(seed), left) => match secret_made(left, p, seed) {
                        (Err(e), last) => (Err(e), last),
                        (Ok(secret), last) => match protects(p.name_alg, sym) {
                            Err(e) => (Err(e), last),
                            Ok(_) => (
                                Ok(
                                    (
                                        protected(
                                            p.name_alg,
                                            seed,
                                            sym.key_bits,
                                            name,
                                            sized(credential),
                                        ),
                                        secret,
                                    ),
                                ),
                                last,
                            ),
                        },
                    },
                }
            },
        }
    }
}

/// A seed encrypted to an RSA key, and what the generator is left with.
pub open spec fn secret_made(m: RngModel, p: PublicView, seed: Seq<u8>) -> (
    TpmResult<Seq<u8>>,
    RngModel,
) {
    match p.unique {
        IdView::Rsa(modulus) => if p.object_type != alg::RSA {
            (Err(TpmRc(rc::TYPE).for_handle(1)), m)
        } else {
            match p.parameters {
                PublicParms::Rsa { exponent, .. } => {
                    let n = number_of(modulus);
                    let size = octet_length(n);
                    if n == 0 {
                        (Err(TpmRc(rc::VALUE)), m)
                    } else {
                        match oaep_encoded(p.name_alg, size, seed, LABEL_IDENTITY@, m) {
                            (Err(e), left) => (Err(e), left),
                            (Ok(block), left) => (
                                raised(n, exponent_of(exponent), size, block),
                                left,
                            ),
                        }
                    }
                },
                _ => (Err(TpmRc(rc::TYPE)), m),
            }
        },
        _ => (Err(TpmRc(rc::TYPE).for_handle(1)), m),
    }
}

/// The parameters of TPM2_MakeCredential.
pub open spec fn parse_make_credential(d: Seq<u8>) -> Parsed<(Seq<u8>, Seq<u8>)> {
    match parse_sized(d, 0, 64) {
        Err(e) => Err(e),
        Ok((credential, n1)) => match parse_sized(d, n1, 68) {
            Err(e) => Err(e),
            Ok((name, n2)) => Ok(((credential, name), n2)),
        },
    }
}

/// TPM2_MakeCredential.
pub open spec fn make_credential_ran(
    after: TpmState,
    before: TpmState,
    req: RequestView,
    r: TpmResult<Response>,
) -> bool {
    match (req.handle(0), alone(req.parameters, parse_make_credential(req.parameters))) {
        (Err(e), _) => after == before && fails(r, e),
        (_, Err(e)) => after == before && fails(r, e),
        (Ok(h), Ok((credential, name))) => match object_named(before, h) {
            Err(e) => after == before && fails(r, e.for_handle(1)),
            Ok(o) => {
                let out = credential_made(before.rng.model(), o, credential, name);
                &&& after == (TpmState { rng: after.rng, ..before })
                &&& after.rng.model() == out.1
                &&& match out.0 {
                    Err(e) => fails(r, e),
                    Ok((blob, secret)) => answers_with(r, sized(blob) + sized(secret)),
                }
            },
        },
    }
}

/// Encrypt a seed to an RSA key.
fn make_secret(rng: &mut Drbg, object: &Object, seed: &[u8]) -> (r: TpmResult<Vec<u8>>)
    requires
        seed@.len() <= 64,
    ensures
        ({
            let out = secret_made(old(rng).model(), object@.public, seed@);
            &&& final(rng).model() == out.1
            &&& match out.0 {
                Ok(v) => r is Ok && r->Ok_0@ == v && v.len() <= 512,
                Err(e) => r is Err && r->Err_0 == e,
            }
        }),
{
    match &object.public.unique {
        PublicId::Rsa(modulus) => {
            if object.public.object_type != alg::RSA {
                return Err(TpmRc(rc::TYPE).with_handle(1));
            }
            match &object.public.parameters {
                PublicParms::Rsa { exponent, .. } => {
                    proof {
                        lemma_octet_length(modulus@);
                    }
                    let key: RsaPublic = RsaPublic::new(modulus.as_slice(), *exponent)?;
                    let block: Vec<u8> = rsa::oaep_encode(
                        object.public.name_alg,
                        key.size(),
                        seed,
                        LABEL_IDENTITY.as_slice(),
                        rng,
                    )?;
                    rsa::public_op(&key, block.as_slice())
                },
                _ => Err(TpmRc(rc::TYPE)),
            }
        },
        _ => Err(TpmRc(rc::TYPE).with_handle(1)),
    }
}

/// Protect a credential and carry it to the holder of a key.
fn protect_credential(rng: &mut Drbg, object: &Object, credential: &[u8], name: &[u8]) -> (r:
    TpmResult<(Vec<u8>, Vec<u8>)>)
    requires
        credential@.len() <= 64,
    ensures
        ({
            let out = credential_made(old(rng).model(), *object, credential@, name@);
            &&& final(rng).model() == out.1
            &&& match out.0 {
                Ok((blob, secret)) => r is Ok && (r->Ok_0).0@ == blob && (r->Ok_0).1@ == secret
                    && blob.len() <= 196 && secret.len() <= 512,
                Err(e) => r is Err && r->Err_0 == e,
            }
        }),
{
    let a: ObjectAttributes = object.public.object_attributes;
    if !a.has(ObjectAttributes::RESTRICTED) || !a.has(ObjectAttributes::DECRYPT) {
        return Err(TpmRc(rc::TYPE).with_handle(1));
    }
    let symmetric: SymDef = match object.public.parameters.symmetric() {
        Some(s) => s,
        None => {
            return Err(TpmRc(rc::TYPE));
        },
    };
    let size: usize = digest_size(object.public.name_alg)?;
    let seed: Vec<u8> = rng.bytes(size)?;
    let secret: Vec<u8> = make_secret(rng, object, seed.as_slice())?;
    let mut w: Writer = Writer::new();
    w.sized16(credential);
    let body: Vec<u8> = w.into_vec();
    assert(body@ =~= sized(credential@));
    let blob: Vec<u8> = wrap_private_body(
        object.public.name_alg,
        seed.as_slice(),
        &symmetric,
        name,
        body.as_slice(),
    )?;
    Ok((blob, secret))
}

/// TPM2_MakeCredential: protect a credential for an object and the holder of a
/// key.
pub fn make_credential(state: &mut TpmState, request: &Request) -> (r: TpmResult<Response>)
    requires
        old(state).wf(),
    ensures
        final(state).wf(),
        make_credential_ran(*final(state), *old(state), request@, r),
{
    let handle: u32 = request.handle(0)?;
    let mut reader: Reader = request.reader();
    let credential: Vec<u8> = take_sized::<64>(&mut reader)?;
    let name: Vec<u8> = take_sized::<68>(&mut reader)?;
    reader.expect_end()?;
    let object: Object = match object_of(state, handle) {
        Ok(o) => o.clone(),
        Err(e) => {
            return Err(e.with_handle(1));
        },
    };
    let (blob, secret) = protect_credential(
        &mut state.rng,
        &object,
        credential.as_slice(),
        name.as_slice(),
    )?;
    let mut w: Writer = Writer::new();
    w.sized16(blob.as_slice());
    w.sized16(secret.as_slice());
    assert(w.written() =~= sized(blob@) + sized(secret@));
    respond(w)
}

/// The seed that a secret carries to an RSA storage key.
pub open spec fn secret_opened(o: ObjectView, secret: Seq<u8>) -> TpmResult<Seq<u8>> {
    match (o.sensitive, o.public.unique) {
        (None, _) => Err(TpmRc(rc::HANDLE).for_handle(2)),
        (Some(s), IdView::Rsa(modulus)) => if o.public.object_type != alg::RSA {
            Err(TpmRc(rc::TYPE).for_handle(2))
        } else {
            match o.public.parameters {
                PublicParms::Rsa { exponent, .. } => {
                    let n = number_of(modulus);
                    let d = private_of(n, exponent_of(exponent), number_of(s.sensitive));
                    if n == 0 {
                        Err(TpmRc(rc::VALUE))
                    } else if d == 0 {
                        Err(TpmRc(rc::BINDING))
                    } else {
                        match raised(n, d, octet_length(n), secret) {
                            Err(e) => Err(e),
                            Ok(block) => match oaep_decoded(
                                o.public.name_alg,
                                block,
                                LABEL_IDENTITY@,
                            ) {
                                Err(_) => Err(TpmRc(rc::VALUE).for_parameter(2)),
                                Ok(seed) => Ok(seed),
                            },
                        }
                    }
                },
                _ => Err(TpmRc(rc::TYPE)),
            }
        },
        _ => Err(TpmRc(rc::TYPE).for_handle(2)),
    }
}

/// The credential that was protected for the object of a Name.
pub open spec fn credential_opened(
    name_alg: u16,
    seed: Seq<u8>,
    sym: SymDef,
    name: Seq<u8>,
    blob: Seq<u8>,
) -> TpmResult<Seq<u8>> {
    match protects(name_alg, sym) {
        Err(e) => Err(e),
        Ok(_) => match recovered(name_alg, seed, sym.key_bits, name, blob) {
            Err(e) => Err(e),
            Ok(body) => alone(body, parse_sized(body, 0, 64)),
        },
    }
}

/// The parameters of TPM2_ActivateCredential.
pub open spec fn parse_activate(d: Seq<u8>) -> Parsed<(Seq<u8>, Seq<u8>)> {
    match parse_sized(d, 0, 196) {
        Err(e) => Err(e),
        Ok((blob, n1)) => match parse_sized(d, n1, 512) {
            Err(e) => Err(e),
            Ok((secret, n2)) => Ok(((blob, secret), n2)),
        },
    }
}

/// The seed and the cipher of a credential.
pub open spec fn credential_key(o: Object, secret: Seq<u8>) -> TpmResult<(Seq<u8>, SymDef)> {
    if !o.is_storage_key() {
        Err(TpmRc(rc::TYPE).for_handle(2))
    } else {
        match o.public.parameters.spec_symmetric() {
            None => Err(TpmRc(rc::TYPE).for_handle(2)),
            Some(sym) => match secret_opened(o@, secret) {
                Err(e) => Err(e),
                Ok(seed) => Ok((seed, sym)),
            },
        }
    }
}

/// TPM2_ActivateCredential.
pub open spec fn activate_credential_ran(state: TpmState, req: RequestView, r: TpmResult<Response>)
    -> bool {
    match (
        req.handle(0),
        req.handle(1),
        alone(req.parameters, parse_activate(req.parameters)),
    ) {
        (Err(e), _, _) => fails(r, e),
        (_, Err(e), _) => fails(r, e),
        (_, _, Err(e)) => fails(r, e),
        (Ok(activate), Ok(key), Ok((blob, secret))) => match object_named(state, key) {
            Err(e) => fails(r, e.for_handle(2)),
            Ok(o) => match (credential_key(o, secret), object_named(state, activate)) {
                (Err(e), _) => fails(r, e),
                (_, Err(e)) => fails(r, e.for_handle(1)),
                (Ok((seed, sym)), Ok(a)) => match credential_opened(
                    o.public.name_alg,
                    seed,
                    sym,
                    a.name@,
                    blob,
                ) {
                    Err(e) => fails(r, e),
                    Ok(credential) => answers_with(r, sized(credential)),
                },
            },
        },
    }
}

/// Open the seed that a secret carries.
fn open_secret(object: &Object, secret: &[u8]) -> (r: TpmResult<Vec<u8>>)
    ensures
        match secret_opened(object@, secret@) {
            Ok(v) => r is Ok && r->Ok_0@ == v,
            Err(e) => r is Err && r->Err_0 == e,
        },
{
    match (&object.sensitive, &object.public.unique) {
        (None, _) => Err(TpmRc(rc::HANDLE).with_handle(2)),
        (Some(s), PublicId::Rsa(modulus)) => {
            if object.public.object_type != alg::RSA {
                return Err(TpmRc(rc::TYPE).with_handle(2));
            }
            match &object.public.parameters {
                PublicParms::Rsa { exponent, .. } => {
                    proof {
                        lemma_octet_length(modulus@);
                    }
                    let key: RsaPrivate = RsaPrivate::from_prime(
                        modulus.as_slice(),
                        *exponent,
                        s.sensitive.as_slice(),
                    )?;
                    let block: Vec<u8> = rsa::private_op(&key, secret)?;
                    match rsa::oaep_decode(
                        object.public.name_alg,
                        block.as_slice(),
                        LABEL_IDENTITY.as_slice(),
                    ) {
                        Ok(v) => Ok(v),
                        Err(_) => Err(TpmRc(rc::VALUE).with_parameter(2)),
                    }
                },
                _ => Err(TpmRc(rc::TYPE)),
            }
        },
        _ => Err(TpmRc(rc::TYPE).with_handle(2)),
    }
}

/// Open a credential.
fn open_credential(name_alg: u16, seed: &[u8], symmetric: &SymDef, name: &[u8], blob: &[u8]) -> (r:
    TpmResult<Vec<u8>>)
    ensures
        match credential_opened(name_alg, seed@, *symmetric, name@, blob@) {
            Ok(v) => r is Ok && r->Ok_0@ == v && v.len() <= 64,
            Err(e) => r is Err && r->Err_0 == e,
        },
{
    let body: Vec<u8> = unwrap_private_body(name_alg, seed, symmetric, name, blob)?;
    let mut reader: Reader = Reader::new(body.as_slice());
    let credential: Vec<u8> = take_sized::<64>(&mut reader)?;
    reader.expect_end()?;
    Ok(credential)
}

/// TPM2_ActivateCredential: open a credential that was made for an object and
/// a storage key of this TPM.
pub fn activate_credential(state: &TpmState, request: &Request) -> (r: TpmResult<Response>)
    requires
        state.wf(),
    ensures
        activate_credential_ran(*state, request@, r),
{
    let activate_handle: u32 = request.handle(0)?;
    let key_handle: u32 = request.handle(1)?;
    let mut reader: Reader = request.reader();
    let blob: Vec<u8> = take_sized::<196>(&mut reader)?;
    let secret: Vec<u8> = take_sized::<512>(&mut reader)?;
    reader.expect_end()?;
    let key: &Object = match object_of(state, key_handle) {
        Ok(o) => o,
        Err(e) => {
            return Err(e.with_handle(2));
        },
    };
    if !key.is_storage_key() {
        return Err(TpmRc(rc::TYPE).with_handle(2));
    }
    let symmetric: SymDef = match key.public.parameters.symmetric() {
        Some(s) => s,
        None => {
            return Err(TpmRc(rc::TYPE).with_handle(2));
        },
    };
    let seed: Vec<u8> = open_secret(key, secret.as_slice())?;
    let activate: &Object = match object_of(state, activate_handle) {
        Ok(o) => o,
        Err(e) => {
            return Err(e.with_handle(1));
        },
    };
    let credential: Vec<u8> = open_credential(
        key.public.name_alg,
        seed.as_slice(),
        &symmetric,
        activate.name.as_slice(),
        blob.as_slice(),
    )?;
    let mut w: Writer = Writer::new();
    w.sized16(credential.as_slice());
    assert(w.written() =~= sized(credential@));
    respond(w)
}

/// A credential that was protected under a seed for a Name opens under the same
/// seed and Name, and is what it was.
pub proof fn law_a_credential_opens_for_its_name(
    name_alg: u16,
    seed: Seq<u8>,
    sym: SymDef,
    name: Seq<u8>,
    credential: Seq<u8>,
)
    requires
        protects(name_alg, sym) is Ok,
        credential.len() <= 64,
    ensures
        credential_opened(
            name_alg,
            seed,
            sym,
            name,
            protected(name_alg, seed, sym.key_bits, name, sized(credential)),
        ) == Ok::<Seq<u8>, TpmRc>(credential),
{
    crate::tpm::engine::protect::law_protection_round_trips(
        name_alg,
        seed,
        sym.key_bits,
        name,
        sized(credential),
    );
    crate::tpm::marshal::law_sized_round_trip(Seq::empty(), credential, Seq::empty(), 64);
    assert(Seq::<u8>::empty() + sized(credential) + Seq::<u8>::empty() =~= sized(credential));
}

/// The mode that a symmetric key works in.
pub open spec fn mode_used(o: ObjectView, i: CipherInput) -> u16 {
    match o.public.parameters {
        PublicParms::SymCipher { sym } => if i.mode == alg::NULL {
            sym.mode
        } else {
            i.mode
        },
        _ => i.mode,
    }
}

/// What a symmetric key encrypted, the same key decrypts in the same mode and
/// from the same initial value.
pub proof fn law_a_key_decrypts_what_it_encrypted(o: ObjectView, i: CipherInput)
    requires
        i.decrypt == 0,
    ensures
        match ciphered(o, i) {
            Ok((out, _)) => match ciphered(o, CipherInput { decrypt: 1, data: out, ..i }) {
                Ok((back, _)) => back == i.data,
                Err(_) => false,
            },
            Err(_) => true,
        },
{
    match (o.sensitive, o.public.parameters) {
        (Some(s), PublicParms::SymCipher { sym }) => {
            let mode = mode_used(o, i);
            let iv = if mode != alg::ECB && i.iv.len() == 0 {
                zero_iv()
            } else {
                i.iv
            };
            if ciphered(o, i) is Ok {
                sym::law_decryption_undoes_encryption(mode, s.sensitive, iv, i.data);
            }
        },
        _ => {},
    }
}

/// TPM2_EncryptDecrypt and TPM2_EncryptDecrypt2 in any combination: what one
/// encrypted is as long as the data, and the other decrypts it to the data with the
/// same key, mode and initial value.
pub proof fn law_the_commands_decrypt_what_they_encrypted(
    state: TpmState,
    encrypt: RequestView,
    decrypt: RequestView,
    encrypt_data_first: bool,
    decrypt_data_first: bool,
    h: u32,
    i: CipherInput,
    out: Seq<u8>,
    next_iv: Seq<u8>,
    a: TpmResult<Response>,
    b: TpmResult<Response>,
)
    requires
        encrypt.handle(0) == Ok::<u32, TpmRc>(h),
        decrypt.handle(0) == Ok::<u32, TpmRc>(h),
        i.decrypt == 0,
        i.data.len() <= 1024,
        out.len() <= 1024,
        alone(encrypt.parameters, parse_cipher(encrypt.parameters, encrypt_data_first)) == Ok::<
            CipherInput,
            TpmRc,
        >(i),
        encrypt_decrypt_ran(state, encrypt, encrypt_data_first, a),
        answers_with(a, sized(out) + sized(next_iv)),
        alone(decrypt.parameters, parse_cipher(decrypt.parameters, decrypt_data_first)) == Ok::<
            CipherInput,
            TpmRc,
        >(CipherInput { decrypt: 1, data: out, ..i }),
        encrypt_decrypt_ran(state, decrypt, decrypt_data_first, b),
    ensures
        out.len() == i.data.len(),
        exists|iv: Seq<u8>| answers_with(b, #[trigger] (sized(i.data) + sized(iv))),
{
    let o = object_named(state, h)->Ok_0@;
    law_a_key_decrypts_what_it_encrypted(o, i);
    let (c, iv) = ciphered(o, i)->Ok_0;
    match (o.sensitive, o.public.parameters) {
        (Some(s), PublicParms::SymCipher { sym }) => {
            let mode = mode_used(o, i);
            let first = if mode != alg::ECB && i.iv.len() == 0 {
                zero_iv()
            } else {
                i.iv
            };
            sym::law_decryption_undoes_encryption(mode, s.sensitive, first, i.data);
        },
        _ => {},
    }
    lemma_behind(c, sized(iv));
    lemma_behind(out, sized(next_iv));
    assert(c == out);
    let back = ciphered(o, CipherInput { decrypt: 1, data: out, ..i })->Ok_0;
    assert(answers_with(b, sized(i.data) + sized(back.1)));
}

/// TPM2_EncryptDecrypt and TPM2_EncryptDecrypt2 answer alike for the same values,
/// and both refuse a restricted key.
pub proof fn law_both_cipher_commands_answer_alike(
    state: TpmState,
    one: RequestView,
    two: RequestView,
    h: u32,
    i: CipherInput,
    a: TpmResult<Response>,
    b: TpmResult<Response>,
)
    requires
        one.handle(0) == Ok::<u32, TpmRc>(h),
        two.handle(0) == Ok::<u32, TpmRc>(h),
        alone(one.parameters, parse_cipher(one.parameters, false)) == Ok::<CipherInput, TpmRc>(i),
        alone(two.parameters, parse_cipher(two.parameters, true)) == Ok::<CipherInput, TpmRc>(i),
        encrypt_decrypt_ran(state, one, false, a),
        encrypt_decrypt_ran(state, two, true, b),
    ensures
        same_answer(a, b),
        object_named(state, h) matches Ok(o) ==> i.decrypt <= 1 && o@.public.object_type
            == alg::SYMCIPHER && o@.public.object_attributes.has(ObjectAttributes::RESTRICTED)
            ==> fails(a, TpmRc(rc::ATTRIBUTES).for_handle(1)),
{
}

/// A new ephemeral point, and what the generator is left with.
pub open spec fn ephemeral_made(m: RngModel, curve_id: u16) -> (TpmResult<Seq<u8>>, RngModel) {
    if !known_curve(curve_id) {
        (Err(TpmRc(rc::CURVE).for_parameter(1)), m)
    } else {
        match key_drawn(curve_of(curve_id), m) {
            (Err(_), left) => (Err(TpmRc(rc::CURVE).for_parameter(1)), left),
            (Ok(d), left) => (
                Ok(coordinates(curve_id, base_multiplied(curve_of(curve_id), d)->0) + octets16(0)),
                left,
            ),
        }
    }
}

/// TPM2_EC_Ephemeral.
pub open spec fn ec_ephemeral_ran(
    after: TpmState,
    before: TpmState,
    req: RequestView,
    r: TpmResult<Response>,
) -> bool {
    match alone(req.parameters, raw_u16(req.parameters, 0)) {
        Err(e) => after == before && fails(r, e),
        Ok(curve_id) => {
            let out = ephemeral_made(before.rng.model(), curve_id);
            &&& after == (TpmState { rng: after.rng, ..before })
            &&& after.rng.model() == out.1
            &&& match out.0 {
                Err(e) => fails(r, e),
                Ok(v) => answers_with(r, v),
            }
        },
    }
}

/// TPM2_EC_Ephemeral: a new ephemeral point. No commitment is kept, so the
/// counter behind it is zero.
pub fn ec_ephemeral(state: &mut TpmState, request: &Request) -> (r: TpmResult<Response>)
    requires
        old(state).wf(),
    ensures
        final(state).wf(),
        ec_ephemeral_ran(*final(state), *old(state), request@, r),
{
    let mut reader: Reader = request.reader();
    let curve_id: u16 = reader.u16()?;
    reader.expect_end()?;
    let key: EccKey = match ecc::generate(curve_id, &mut state.rng) {
        Ok(k) => k,
        Err(_) => {
            return Err(TpmRc(rc::CURVE).with_parameter(1));
        },
    };
    proof {
        ecc::lemma_coordinate_size(curve_id);
    }
    let ghost z = point_octets(key.public_x@, key.public_y@);
    let mut w: Writer = Writer::new();
    write_point(&mut w, key.public_x, key.public_y);
    w.u16(0);
    assert(w.written() =~= z + octets16(0));
    respond(w)
}

/// The block that is encrypted is as long as the modulus and holds the message.
proof fn lemma_padding_comes_off(
    m: RngModel,
    scheme: Scheme,
    name_alg: u16,
    size: nat,
    message: Seq<u8>,
    label: Seq<u8>,
)
    requires
        rsa_padded(m, scheme, name_alg, size, message, label).0 is Ok,
    ensures
        ({
            let block = rsa_padded(m, scheme, name_alg, size, message, label).0->Ok_0;
            &&& block.len() == size
            &&& rsa_unpadded(scheme, name_alg, block, label) == Ok::<Seq<u8>, TpmRc>(message)
        }),
{
    if scheme.scheme == alg::OAEP {
        lemma_oaep_comes_off(hash_or(scheme, name_alg), size, message, terminated(label), m);
    } else if scheme.scheme == alg::RSAES {
        let n = (size - message.len() - 3) as nat;
        lemma_draw_len(m, n);
        law_encryption_padding_round_trips(message, draw(m, n).0->Ok_0);
    }
}

/// What was encrypted to an RSA key, the key decrypts under the same scheme and
/// label. The factors of the modulus have to be primes.
pub proof fn law_an_rsa_key_decrypts_what_it_encrypted(
    m: RngModel,
    o: ObjectView,
    supplied: Scheme,
    message: Seq<u8>,
    label: Seq<u8>,
)
    requires
        o.public.object_type == alg::RSA,
        o.public.object_attributes.has(ObjectAttributes::DECRYPT),
        !o.public.object_attributes.has(ObjectAttributes::RESTRICTED),
        sound_key(o),
        rsa_encrypted(m, o, supplied, message, label).0 is Ok,
    ensures
        rsa_decrypted(o, supplied, rsa_encrypted(m, o, supplied, message, label).0->Ok_0, label)
            == Ok::<Seq<u8>, TpmRc>(message),
{
    match (o.public.parameters, o.public.unique, o.sensitive) {
        (PublicParms::Rsa { exponent, .. }, IdView::Rsa(modulus), Some(s)) => {
            let n = number_of(modulus);
            let size = octet_length(n);
            let scheme = encryption_scheme(o.public, supplied);
            let block = rsa_padded(m, scheme, o.public.name_alg, size, message, label).0->Ok_0;
            lemma_padding_comes_off(m, scheme, o.public.name_alg, size, message, label);
            law_a_raised_block_comes_back(n, exponent_of(exponent), number_of(s.sensitive), block);
        },
        _ => {},
    }
}

/// The holder of the private key finds the point that TPM2_ECDH_KeyGen made with its
/// public key: TPM2_ECDH_ZGen of the public point it returned answers with the point
/// that it shared. The curve has to be a group.
#[verifier::spinoff_prover]
#[verifier::rlimit(40)]
pub proof fn law_zgen_finds_the_shared_point(
    before: TpmState,
    after: TpmState,
    state: TpmState,
    make: RequestView,
    find: RequestView,
    h: u32,
    k: u32,
    p: Object,
    o: Object,
    z: (Seq<u8>, Seq<u8>),
    q: (Seq<u8>, Seq<u8>),
    a: TpmResult<Response>,
    b: TpmResult<Response>,
)
    requires
        make.handle(0) == Ok::<u32, TpmRc>(h),
        object_named(before, h) == Ok::<Object, TpmRc>(p),
        find.handle(0) == Ok::<u32, TpmRc>(k),
        object_named(state, k) == Ok::<Object, TpmRc>(o),
        p.public@ == o.public@,
        o.public.object_type == alg::ECC,
        o.public.object_attributes.has(ObjectAttributes::DECRYPT),
        o@.sensitive matches Some(s) && sound_ecc(o@.public, s),
        z.0.len() <= 66,
        z.1.len() <= 66,
        q.0.len() <= 66,
        q.1.len() <= 66,
        ecdh_key_gen_ran(after, before, make, a),
        answers_with(a, point_octets(z.0, z.1) + point_octets(q.0, q.1)),
        alone(find.parameters, Tpm2bEccPoint::parse(find.parameters, 0)) == Ok::<
            (Seq<u8>, Seq<u8>),
            TpmRc,
        >(q),
        ecdh_zgen_ran(state, find, b),
    ensures
        answers_with(b, point_octets(z.0, z.1)),
{
    let m = before.rng.model();
    lemma_key_gen_answers(after, before, make, h, p, a);
    let (w, e) = lemma_ecdh_agrees(m, p@, o@);
    lemma_two_points(z, q, w, e);
    lemma_zgen_answers(state, find, k, o, q, b);
}

/// What TPM2_ECDH_KeyGen answers with.
proof fn lemma_key_gen_answers(
    after: TpmState,
    before: TpmState,
    req: RequestView,
    h: u32,
    p: Object,
    r: TpmResult<Response>,
)
    requires
        req.handle(0) == Ok::<u32, TpmRc>(h),
        object_named(before, h) == Ok::<Object, TpmRc>(p),
        ecdh_key_gen_ran(after, before, req, r),
        r is Ok,
    ensures
        ecdh_made(before.rng.model(), p@).0 == Ok::<Seq<u8>, TpmRc>(r->Ok_0.parameters@),
{
}

/// What TPM2_ECDH_ZGen answers with.
proof fn lemma_zgen_answers(
    state: TpmState,
    req: RequestView,
    h: u32,
    o: Object,
    q: (Seq<u8>, Seq<u8>),
    r: TpmResult<Response>,
)
    requires
        req.handle(0) == Ok::<u32, TpmRc>(h),
        object_named(state, h) == Ok::<Object, TpmRc>(o),
        alone(req.parameters, Tpm2bEccPoint::parse(req.parameters, 0)) == Ok::<
            (Seq<u8>, Seq<u8>),
            TpmRc,
        >(q),
        ecdh_of(o@, q.0, q.1) is Ok,
        ecdh_zgen_ran(state, req, r),
    ensures
        answers_with(r, ecdh_of(o@, q.0, q.1)->Ok_0),
{
}

/// Two points are the same on the wire only where they are the same.
proof fn lemma_two_points(
    z: (Seq<u8>, Seq<u8>),
    q: (Seq<u8>, Seq<u8>),
    w: (Seq<u8>, Seq<u8>),
    e: (Seq<u8>, Seq<u8>),
)
    requires
        z.0.len() <= 66 && z.1.len() <= 66,
        q.0.len() <= 66 && q.1.len() <= 66,
        w.0.len() <= 66 && w.1.len() <= 66,
        e.0.len() <= 66 && e.1.len() <= 66,
        point_octets(z.0, z.1) + point_octets(q.0, q.1) == point_octets(w.0, w.1) + point_octets(
            e.0,
            e.1,
        ),
    ensures
        point_octets(z.0, z.1) == point_octets(w.0, w.1),
        q == e,
{
    lemma_two_fields(
        sized(z.0) + sized(z.1),
        sized(q.0) + sized(q.1),
        sized(w.0) + sized(w.1),
        sized(e.0) + sized(e.1),
    );
    lemma_two_fields(q.0, q.1, e.0, e.1);
}

/// The shared point and the public point of TPM2_ECDH_KeyGen, and that the holder
/// of the key finds the first from the second.
proof fn lemma_ecdh_agrees(m: RngModel, p: ObjectView, o: ObjectView) -> (r: (
    (Seq<u8>, Seq<u8>),
    (Seq<u8>, Seq<u8>),
))
    requires
        p.public == o.public,
        o.public.object_type == alg::ECC,
        o.public.object_attributes.has(ObjectAttributes::DECRYPT),
        o.sensitive matches Some(s) && sound_ecc(o.public, s),
        ecdh_made(m, p).0 is Ok,
    ensures
        r.0.0.len() <= 66 && r.0.1.len() <= 66,
        r.1.0.len() <= 66 && r.1.1.len() <= 66,
        ecdh_made(m, p).0 == Ok::<Seq<u8>, TpmRc>(
            point_octets(r.0.0, r.0.1) + point_octets(r.1.0, r.1.1),
        ),
        ecdh_of(o, r.1.0, r.1.1) == Ok::<Seq<u8>, TpmRc>(point_octets(r.0.0, r.0.1)),
{
    let curve_id = o.public.parameters->Ecc_curve_id;
    let (x, y) = (o.public.unique->Ecc_0, o.public.unique->Ecc_1);
    let c = curve_of(curve_id);
    let d = key_drawn(c, m).0->Ok_0;
    let e = base_multiplied(c, d)->0;
    let w = shared(c, d, number_of(x), number_of(y))->0;
    let own = number_of(o.sensitive->0.sensitive);
    ecc::lemma_base_multiplied(curve_id, d);
    ecc::lemma_coordinate_size(curve_id);
    lemma_octets_len(e.0, c.size);
    lemma_octets_len(e.1, c.size);
    lemma_octets_len(w.0, c.size);
    lemma_octets_len(w.1, c.size);
    law_two_keys_share_a_point(c, d, own, e, (number_of(x), number_of(y)));
    (
        (octets_of(w.0, c.size), octets_of(w.1, c.size)),
        (octets_of(e.0, c.size), octets_of(e.1, c.size)),
    )
}

/// TPM2_ActivateCredential opens what TPM2_MakeCredential made: the holder of
/// the key finds the seed in the secret, and under it the credential opens for
/// the Name it was made for. The factors of the modulus have to be primes.
pub proof fn law_a_credential_reaches_its_holder(
    m: RngModel,
    o: Object,
    credential: Seq<u8>,
    name: Seq<u8>,
)
    requires
        o.is_storage_key(),
        sound_key(o@),
        credential.len() <= 64,
        credential_made(m, o, credential, name).0 is Ok,
    ensures
        ({
            let (blob, secret) = credential_made(m, o, credential, name).0->Ok_0;
            match credential_key(o, secret) {
                Ok((seed, sym)) => credential_opened(o.public.name_alg, seed, sym, name, blob)
                    == Ok::<Seq<u8>, TpmRc>(credential),
                Err(_) => false,
            }
        }),
{
    let v = o@;
    let (seed, left) = (draw(m, size_of(v.public.name_alg)).0->Ok_0, draw(
        m,
        size_of(v.public.name_alg),
    ).1);
    match (v.public.parameters, v.public.unique, v.sensitive) {
        (PublicParms::Rsa { exponent, .. }, IdView::Rsa(modulus), Some(s)) => {
            let n = number_of(modulus);
            let size = octet_length(n);
            let h = v.public.name_alg;
            let block = oaep_encoded(h, size, seed, LABEL_IDENTITY@, left).0->Ok_0;
            lemma_oaep_comes_off(h, size, seed, LABEL_IDENTITY@, left);
            law_a_raised_block_comes_back(n, exponent_of(exponent), number_of(s.sensitive), block);
            let sym = v.public.parameters.spec_symmetric()->0;
            law_a_credential_opens_for_its_name(h, seed, sym, name, credential);
        },
        _ => {},
    }
}

/// At the commands: TPM2_ActivateCredential of what TPM2_MakeCredential returned
/// answers with the credential, when the object to activate has the Name the
/// credential was made for. For an object with another Name it fails, unless
/// both Names give one integrity value.
pub proof fn law_activating_answers_with_the_credential(
    m: RngModel,
    o: Object,
    credential: Seq<u8>,
    name: Seq<u8>,
    state: TpmState,
    req: RequestView,
    key: u32,
    active: u32,
    a: Object,
    r: TpmResult<Response>,
)
    requires
        o.is_storage_key(),
        sound_key(o@),
        credential.len() <= 64,
        credential_made(m, o, credential, name).0 is Ok,
        req.handle(0) == Ok::<u32, TpmRc>(active),
        req.handle(1) == Ok::<u32, TpmRc>(key),
        alone(req.parameters, parse_activate(req.parameters)) == credential_made(
            m,
            o,
            credential,
            name,
        ).0,
        object_named(state, key) == Ok::<Object, TpmRc>(o),
        object_named(state, active) == Ok::<Object, TpmRc>(a),
        activate_credential_ran(state, req, r),
    ensures
        a.name@ == name ==> answers_with(r, sized(credential)),
        ({
            let (blob, secret) = credential_made(m, o, credential, name).0->Ok_0;
            let seed = credential_key(o, secret)->Ok_0.0;
            match parse_sized(blob, 0, 64) {
                Ok((given, next)) => given != integrity_of(
                    o.public.name_alg,
                    seed,
                    blob.skip(next),
                    a.name@,
                ) ==> r is Err,
                Err(_) => r is Err,
            }
        }),
{
    law_a_credential_reaches_its_holder(m, o, credential, name);
    reveal(recovered);
}

} // verus!
