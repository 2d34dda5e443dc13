//! Moving objects between parents, and the commands of components that are not
//! here.

use vstd::prelude::*;

use super::dispatch::{Request, RequestView, Response};
use super::execute::respond;
use super::object::object_made;
use super::sequences::same_answer;
use super::signatures::{object_named, object_of};
use super::wire::{
    alone, answers_with, at_parameter, fails, in_sized, in_u32, numbered, read_sized, read_u32,
    take_sized,
};
use crate::tpm::constants::{alg, hc, rc, rh};
use crate::tpm::crypto::hash::{digest, hash_of, lemma_hash_len, supported};
use crate::tpm::crypto::rand::{draw, Drbg, Rng, RngModel};
use crate::tpm::crypto::sym::{
    self, cfb_decrypt, cfb_encrypt, crypt_check, crypted, weak_key, Direction,
};
use crate::tpm::engine::names::{is_well_formed, object_name, object_name_of, well_formed};
use crate::tpm::engine::object::{Object, Slot};
use crate::tpm::engine::protect::{
    law_a_key_finds_the_seed, law_protection_round_trips, protected, protects, recovered,
    seed_from_private, seed_made, seed_recovered, seed_to_public, sensitive_in, sound_pair,
    unwrap_private_body, wrap_private, wrap_private_body, zero_iv,
};
use crate::tpm::engine::state::TpmState;
use crate::tpm::engine::validate::{
    binding_check, check_binding, is_parent, loaded_check, validate_loaded_public,
};
use crate::tpm::error::{TpmRc, TpmResult};
use crate::tpm::marshal::{lemma_behind, lemma_two_fields, parse_sized, sized, Parsed, Reader, Writer};
use crate::tpm::structures::attributes::ObjectAttributes;
use crate::tpm::structures::keys::{
    parse_public, PublicView, SensitiveView, Tpm2bPublic, TpmtPublic, TpmtSensitive,
};
use crate::tpm::structures::schemes::SymDef;
use crate::util::bytes::{constant_time_eq, filled, octets32, sub_vec, to_vec};

pub use crate::tpm::engine::protect::sensitive_from_body;

verus! {

/// What a duplication seed is encrypted for, "DUPLICATE" and a zero.
pub const LABEL_DUPLICATE: [u8; 10] = [
    0x44, 0x55, 0x50, 0x4c, 0x49, 0x43, 0x41, 0x54, 0x45, 0x00,
];

/// The label a duplication seed is protected with.
pub fn duplicate_label() -> (r: &'static [u8])
    ensures
        r@ == LABEL_DUPLICATE@,
{
    LABEL_DUPLICATE.as_slice()
}

/// A sensitive area and what ties it to a Name, before the inner encryption.
pub open spec fn inner_body(name_alg: u16, name: Seq<u8>, body: Seq<u8>) -> Seq<u8> {
    sized(hash_of(name_alg, body + name)) + body
}

/// A sensitive area under the inner wrap: a digest ties it to a Name, and the
/// caller's key encrypts both.
pub open spec fn inner_wrapped(
    name_alg: u16,
    symmetric: SymDef,
    key: Seq<u8>,
    name: Seq<u8>,
    body: Seq<u8>,
) -> TpmResult<Seq<u8>> {
    if !supported(name_alg) {
        Err(TpmRc(rc::HASH))
    } else if symmetric.algorithm != alg::AES {
        Err(TpmRc(rc::SYMMETRIC))
    } else {
        let inner = inner_body(name_alg, name, body);
        match crypt_check(alg::AES, alg::CFB, key, zero_iv(), inner) {
            Err(e) => Err(e),
            Ok(_) => Ok(crypted(alg::CFB, key, zero_iv(), inner, Direction::Encrypt).0),
        }
    }
}

/// A block of zeros.
fn no_iv(algorithm: u16) -> (r: TpmResult<Vec<u8>>)
    ensures
        r is Ok <==> algorithm == alg::AES,
        r matches Ok(v) ==> v@ == zero_iv(),
        r matches Err(e) ==> e == TpmRc(rc::SYMMETRIC),
{
    let n: usize = sym::block_size(algorithm)?;
    let iv: Vec<u8> = filled(0, n);
    assert(iv@ =~= zero_iv());
    Ok(iv)
}

/// The digest that ties a sensitive area to a Name.
fn tie(name_alg: u16, name: &[u8], body: &[u8]) -> (r: TpmResult<Vec<u8>>)
    ensures
        r is Ok <==> supported(name_alg),
        r matches Ok(d) ==> d@ == hash_of(name_alg, body@ + name@) && d@.len() <= 64,
        r matches Err(e) ==> e == TpmRc(rc::HASH),
{
    broadcast use lemma_hash_len;

    let mut data: Vec<u8> = to_vec(body);
    data.extend_from_slice(name);
    assert(data@ =~= body@ + name@);
    digest(name_alg, data.as_slice())
}

/// Apply the inner wrap.
pub fn inner_wrap(name_alg: u16, symmetric: &SymDef, key: &[u8], name: &[u8], body: &[u8]) -> (r:
    TpmResult<Vec<u8>>)
    ensures
        match inner_wrapped(name_alg, *symmetric, key@, name@, body@) {
            Ok(v) => r is Ok && r->Ok_0@ == v && v.len() <= 66 + body@.len(),
            Err(e) => r is Err && r->Err_0 == e,
        },
{
    let d: Vec<u8> = tie(name_alg, name, body)?;
    let mut w: Writer = Writer::new();
    w.sized16(d.as_slice());
    w.bytes(body);
    let inner: Vec<u8> = w.into_vec();
    assert(inner@ =~= inner_body(name_alg, name@, body@));
    let iv: Vec<u8> = no_iv(symmetric.algorithm)?;
    cfb_encrypt(key, iv.as_slice(), inner.as_slice())
}

/// What an inner wrap holds. The digest has to be the one for the Name.
pub open spec fn inner_unwrapped(
    name_alg: u16,
    symmetric: SymDef,
    key: Seq<u8>,
    name: Seq<u8>,
    data: Seq<u8>,
) -> TpmResult<Seq<u8>> {
    if symmetric.algorithm != alg::AES {
        Err(TpmRc(rc::SYMMETRIC))
    } else {
        match crypt_check(alg::AES, alg::CFB, key, zero_iv(), data) {
            Err(e) => Err(e),
            Ok(_) => {
                let plain = crypted(alg::CFB, key, zero_iv(), data, Direction::Decrypt).0;
                match parse_sized(plain, 0, 0xFFFF) {
                    Err(_) => Err(TpmRc(rc::INTEGRITY)),
                    Ok((given, next)) => {
                        let body = plain.skip(next);
                        if !supported(name_alg) {
                            Err(TpmRc(rc::HASH))
                        } else if given != hash_of(name_alg, body + name) {
                            Err(TpmRc(rc::INTEGRITY))
                        } else {
                            Ok(body)
                        }
                    },
                }
            },
        }
    }
}

/// Undo [`inner_wrap`].
pub fn inner_unwrap(name_alg: u16, symmetric: &SymDef, key: &[u8], name: &[u8], data: &[u8]) -> (r:
    TpmResult<Vec<u8>>)
    ensures
        match inner_unwrapped(name_alg, *symmetric, key@, name@, data@) {
            Ok(v) => r is Ok && r->Ok_0@ == v,
            Err(e) => r is Err && r->Err_0 == e,
        },
{
    let iv: Vec<u8> = no_iv(symmetric.algorithm)?;
    let plain: Vec<u8> = cfb_decrypt(key, iv.as_slice(), data)?;
    let mut reader: Reader = Reader::new(plain.as_slice());
    let given: Vec<u8> = match take_sized::<0xFFFF>(&mut reader) {
        Ok(v) => v,
        Err(_) => {
            return Err(TpmRc(rc::INTEGRITY));
        },
    };
    let body: Vec<u8> = sub_vec(plain.as_slice(), 2 + given.len(), plain.len());
    assert(body@ =~= plain@.skip(2 + given@.len() as int));
    let expected: Vec<u8> = tie(name_alg, name, body.as_slice())?;
    if !constant_time_eq(given.as_slice(), expected.as_slice()) {
        return Err(TpmRc(rc::INTEGRITY));
    }
    Ok(body)
}

/// What went into the inner wrap comes out of it, under the same key and Name.
pub proof fn law_the_inner_wrap_round_trips(
    name_alg: u16,
    symmetric: SymDef,
    key: Seq<u8>,
    name: Seq<u8>,
    body: Seq<u8>,
)
    ensures
        match inner_wrapped(name_alg, symmetric, key, name, body) {
            Ok(v) => inner_unwrapped(name_alg, symmetric, key, name, v) == Ok::<Seq<u8>, TpmRc>(
                body,
            ),
            Err(_) => true,
        },
{
    broadcast use lemma_hash_len;

    if inner_wrapped(name_alg, symmetric, key, name, body) is Ok {
        let inner = inner_body(name_alg, name, body);
        sym::law_decryption_undoes_encryption(alg::CFB, key, zero_iv(), inner);
        lemma_behind(hash_of(name_alg, body + name), body);
    }
}

/// The first phase of a duplication: the sensitive area, under an inner wrap
/// when one was asked for, and the key the TPM made for it.
pub open spec fn first_phase(m: RngModel, o: Object, s: SensitiveView, key: Seq<u8>, symmetric: SymDef)
    -> (TpmResult<(Seq<u8>, Seq<u8>)>, RngModel) {
    let body = sized(s.octets());
    if symmetric.algorithm == alg::NULL {
        (Ok((Seq::empty(), body)), m)
    } else if key.len() == 0 {
        match draw(m, (symmetric.key_bits / 8) as nat) {
            (Err(e), left) => (Err(e), left),
            (Ok(k), left) => (
                match inner_wrapped(o.public.name_alg, symmetric, k, o.name@, body) {
                    Err(e) => Err(e),
                    Ok(v) => Ok((k, v)),
                },
                left,
            ),
        }
    } else if key.len() != symmetric.key_bits / 8 {
        (Err(TpmRc(rc::SIZE).for_parameter(1)), m)
    } else {
        (
            match inner_wrapped(o.public.name_alg, symmetric, key, o.name@, body) {
                Err(e) => Err(e),
                Ok(v) => Ok((Seq::empty(), v)),
            },
            m,
        )
    }
}

/// The second phase of a duplication: what the first one made, protected for a
/// new parent, and the secret that carries the seed to it. Without a parent it
/// stays as it is.
pub open spec fn second_phase(
    m: RngModel,
    state: TpmState,
    parent: u32,
    storage: bool,
    name: Seq<u8>,
    body: Seq<u8>,
) -> (TpmResult<(Seq<u8>, Seq<u8>)>, RngModel) {
    if parent == rh::NULL {
        (Ok((body, Seq::empty())), m)
    } else {
        match object_named(state, parent) {
            Err(e) => (Err(e.for_handle(2)), m),
            Ok(p) => if storage && !is_parent(p.public@) {
                (Err(TpmRc(rc::TYPE).for_handle(2)), m)
            } else {
                match p.public.parameters.spec_symmetric() {
                    None => (Err(TpmRc(rc::TYPE).for_handle(2)), m),
                    Some(s) => match seed_made(m, p.public@, LABEL_DUPLICATE@) {
                        (Err(e), left) => (Err(e.for_handle(2)), left),
                        (Ok((seed, secret)), left) => (
                            match protects(p.public.name_alg, s) {
                                Err(e) => Err(e),
                                Ok(_) => Ok(
                                    (
                                        protected(
                                            p.public.name_alg,
                                            seed,
                                            s.key_bits,
                                            name,
                                            body,
                                        ),
                                        secret,
                                    ),
                                ),
                            },
                            left,
                        ),
                    },
                }
            },
        }
    }
}

/// The first phase of a duplication.
fn wrap_inside(
    rng: &mut Drbg,
    object: &Object,
    sensitive: &TpmtSensitive,
    key: Vec<u8>,
    symmetric: &SymDef,
) -> (r: TpmResult<(Vec<u8>, Vec<u8>)>)
    requires
        key@.len() <= 32,
        symmetric.algorithm != alg::NULL ==> symmetric.key_bits <= 256,
    ensures
        ({
            let out = first_phase(old(rng).model(), *object, sensitive@, key@, *symmetric);
            &&& final(rng).model() == out.1
            &&& match out.0 {
                Ok((k, body)) => r is Ok && (r->Ok_0).0@ == k && (r->Ok_0).1@ == body && k.len()
                    <= 32 && body.len() <= 460,
                Err(e) => r is Err && r->Err_0 == e,
            }
        }),
{
    let octets: Vec<u8> = sensitive.to_bytes();
    let mut w: Writer = Writer::new();
    w.sized16(octets.as_slice());
    let body: Vec<u8> = w.into_vec();
    assert(body@ =~= sized(sensitive@.octets()));
    let none: Vec<u8> = Vec::new();
    assert(none@ =~= Seq::<u8>::empty());
    if symmetric.is_null() {
        return Ok((none, body));
    }
    if key.len() == 0 {
        let k: Vec<u8> = rng.bytes((symmetric.key_bits / 8) as usize)?;
        let wrapped: Vec<u8> = inner_wrap(
            object.public.name_alg,
            symmetric,
            k.as_slice(),
            object.name.as_slice(),
            body.as_slice(),
        )?;
        return Ok((k, wrapped));
    }
    if key.len() != (symmetric.key_bits / 8) as usize {
        return Err(TpmRc(rc::SIZE).with_parameter(1));
    }
    let wrapped: Vec<u8> = inner_wrap(
        object.public.name_alg,
        symmetric,
        key.as_slice(),
        object.name.as_slice(),
        body.as_slice(),
    )?;
    Ok((none, wrapped))
}

/// The second phase of a duplication.
fn wrap_outside(state: &mut TpmState, parent: u32, storage: bool, name: &[u8], body: Vec<u8>) -> (r:
    TpmResult<(Vec<u8>, Vec<u8>)>)
    requires
        old(state).wf(),
    ensures
        final(state).wf(),
        *final(state) == (TpmState { rng: final(state).rng, ..*old(state) }),
        ({
            let out = second_phase(
                old(state).rng.model(),
                *old(state),
                parent,
                storage,
                name@,
                body@,
            );
            &&& final(state).rng.model() == out.1
            &&& match out.0 {
                Ok((blob, secret)) => r is Ok && (r->Ok_0).0@ == blob && (r->Ok_0).1@ == secret
                    && blob.len() <= 66 + body@.len() && secret.len() <= 512,
                Err(e) => r is Err && r->Err_0 == e,
            }
        }),
{
    if parent == rh::NULL {
        let none: Vec<u8> = Vec::new();
        assert(none@ =~= Seq::<u8>::empty());
        return Ok((body, none));
    }
    let p: Object = match object_of(state, parent) {
        Ok(o) => o.clone(),
        Err(e) => {
            return Err(e.with_handle(2));
        },
    };
    let a: ObjectAttributes = p.public.object_attributes;
    if storage && !(a.has(ObjectAttributes::RESTRICTED) && a.has(ObjectAttributes::DECRYPT)) {
        return Err(TpmRc(rc::TYPE).with_handle(2));
    }
    let symmetric: SymDef = match p.public.parameters.symmetric() {
        Some(s) => s,
        None => {
            return Err(TpmRc(rc::TYPE).with_handle(2));
        },
    };
    let (seed, secret) = match seed_to_public(
        &p.public,
        LABEL_DUPLICATE.as_slice(),
        &mut state.rng,
    ) {
        Ok(v) => v,
        Err(e) => {
            return Err(e.with_handle(2));
        },
    };
    let blob: Vec<u8> = wrap_private_body(
        p.public.name_alg,
        seed.as_slice(),
        &symmetric,
        name,
        body.as_slice(),
    )?;
    Ok((blob, secret))
}

/// The parameters of TPM2_Duplicate.
pub open spec fn parse_duplicate(d: Seq<u8>) -> Parsed<(Seq<u8>, SymDef)> {
    match in_sized(d, 0, 32, 1) {
        Err(e) => Err(e),
        Ok((key, n1)) => match numbered(SymDef::parse(d, n1, false), 2) {
            Err(e) => Err(e),
            Ok((symmetric, n2)) => Ok(((key, symmetric), n2)),
        },
    }
}

/// What TPM2_Duplicate duplicates. An object that asks for it leaves only under
/// both wraps.
pub open spec fn duplicate_check(state: TpmState, req: RequestView) -> TpmResult<
    (Object, TpmtSensitive, u32, Seq<u8>, SymDef),
> {
    match (
        req.handle(0),
        req.handle(1),
        alone(req.parameters, parse_duplicate(req.parameters)),
    ) {
        (Err(e), _, _) => Err(e),
        (_, Err(e), _) => Err(e),
        (_, _, Err(e)) => Err(e),
        (Ok(h), Ok(parent), Ok((key, symmetric))) => match object_named(state, h) {
            Err(e) => Err(e.for_handle(1)),
            Ok(o) => if o.public.object_attributes.has(ObjectAttributes::FIXED_PARENT) {
                Err(TpmRc(rc::ATTRIBUTES).for_handle(1))
            } else {
                let needs = o.public.object_attributes.has(
                    ObjectAttributes::ENCRYPTED_DUPLICATION,
                );
                match o.sensitive {
                    None => Err(TpmRc(rc::HANDLE).for_handle(1)),
                    Some(s) => if needs && symmetric.algorithm == alg::NULL {
                        Err(TpmRc(rc::SYMMETRIC).for_parameter(2))
                    } else if needs && parent == rh::NULL {
                        Err(TpmRc(rc::HIERARCHY).for_handle(2))
                    } else {
                        Ok((o, s, parent, key, symmetric))
                    },
                }
            },
        },
    }
}

/// An object under the wraps of a duplication, the keys that open them, and
/// what the generator is left with.
pub open spec fn duplicated(
    m: RngModel,
    state: TpmState,
    o: Object,
    s: SensitiveView,
    parent: u32,
    key: Seq<u8>,
    symmetric: SymDef,
) -> (TpmResult<(Seq<u8>, Seq<u8>, Seq<u8>)>, RngModel) {
    match first_phase(m, o, s, key, symmetric) {
        (Err(e), left) => (Err(e), left),
        (Ok((k, body)), left) => match second_phase(left, state, parent, true, o.name@, body) {
            (Err(e), last) => (Err(e), last),
            (Ok((blob, secret)), last) => (Ok((k, blob, secret)), last),
        },
    }
}

/// TPM2_Duplicate.
pub open spec fn duplicate_ran(
    after: TpmState,
    before: TpmState,
    req: RequestView,
    r: TpmResult<Response>,
) -> bool {
    match duplicate_check(before, req) {
        Err(e) => after == before && fails(r, e),
        Ok((o, s, parent, key, symmetric)) => {
            let out = duplicated(before.rng.model(), before, o, s@, parent, key, symmetric);
            &&& after == (TpmState { rng: after.rng, ..before })
            &&& after.rng.model() == out.1
            &&& match out.0 {
                Err(e) => fails(r, e),
                Ok((k, blob, secret)) => answers_with(r, sized(k) + sized(blob) + sized(secret)),
            }
        },
    }
}

/// The second phase does not depend on the generator of the state.
proof fn lemma_second_phase(
    m: RngModel,
    a: TpmState,
    b: TpmState,
    parent: u32,
    storage: bool,
    name: Seq<u8>,
    body: Seq<u8>,
)
    requires
        a == (TpmState { rng: a.rng, ..b }),
    ensures
        second_phase(m, a, parent, storage, name, body) == second_phase(
            m,
            b,
            parent,
            storage,
            name,
            body,
        ),
{
}

/// TPM2_Duplicate: hand out an object for a new parent.
pub fn duplicate(state: &mut TpmState, request: &Request) -> (r: TpmResult<Response>)
    requires
        old(state).wf(),
    ensures
        final(state).wf(),
        duplicate_ran(*final(state), *old(state), request@, r),
{
    let handle: u32 = request.handle(0)?;
    let parent: u32 = request.handle(1)?;
    let mut reader: Reader = request.reader();
    let key: Vec<u8> = read_sized::<32>(&mut reader, 1)?;
    let symmetric: SymDef = at_parameter(SymDef::unmarshal(&mut reader, false), 2)?;
    reader.expect_end()?;
    let object: Object = match object_of(state, handle) {
        Ok(o) => {
            if o.public.object_attributes.has(ObjectAttributes::FIXED_PARENT) {
                return Err(TpmRc(rc::ATTRIBUTES).with_handle(1));
            }
            o.clone()
        },
        Err(e) => {
            return Err(e.with_handle(1));
        },
    };
    let sensitive: &TpmtSensitive = match &object.sensitive {
        Some(s) => s,
        None => {
            return Err(TpmRc(rc::HANDLE).with_handle(1));
        },
    };
    let needs: bool = object.public.object_attributes.has(ObjectAttributes::ENCRYPTED_DUPLICATION);
    if needs && symmetric.is_null() {
        return Err(TpmRc(rc::SYMMETRIC).with_parameter(2));
    }
    if needs && parent == rh::NULL {
        return Err(TpmRc(rc::HIERARCHY).with_handle(2));
    }
    let (key_out, body) = wrap_inside(&mut state.rng, &object, sensitive, key, &symmetric)?;
    proof {
        lemma_second_phase(
            state.rng.model(),
            *state,
            *old(state),
            parent,
            true,
            object.name@,
            body@,
        );
    }
    let (blob, secret) = wrap_outside(state, parent, true, object.name.as_slice(), body)?;
    let mut w: Writer = Writer::new();
    w.sized16(key_out.as_slice());
    w.sized16(blob.as_slice());
    w.sized16(secret.as_slice());
    assert(w.written() =~= sized(key_out@) + sized(blob@) + sized(secret@));
    respond(w)
}

/// The parameters of TPM2_Import.
pub struct ImportInput {
    pub key: Seq<u8>,
    pub public: PublicView,
    pub blob: Seq<u8>,
    pub secret: Seq<u8>,
    pub symmetric: SymDef,
}

/// The parameters of TPM2_Import.
pub open spec fn parse_import(d: Seq<u8>) -> Parsed<ImportInput> {
    match in_sized(d, 0, 32, 1) {
        Err(e) => Err(e),
        Ok((key, n1)) => match numbered(parse_public(d, n1), 2) {
            Err(e) => Err(e),
            Ok((public, n2)) => match in_sized(d, n2, 1024, 3) {
                Err(e) => Err(e),
                Ok((blob, n3)) => match in_sized(d, n3, 512, 4) {
                    Err(e) => Err(e),
                    Ok((secret, n4)) => match numbered(SymDef::parse(d, n4, false), 5) {
                        Err(e) => Err(e),
                        Ok((symmetric, n5)) => Ok(
                            (ImportInput { key, public, blob, secret, symmetric }, n5),
                        ),
                    },
                },
            },
        },
    }
}

/// Whether an object may be imported under a parent.
pub open spec fn import_check(p: Object, i: ImportInput) -> TpmResult<SymDef> {
    let a = i.public.object_attributes;
    if !is_parent(p.public@) {
        Err(TpmRc(rc::TYPE).for_handle(1))
    } else {
        match (p.public.parameters.spec_symmetric(), loaded_check(i.public)) {
            (None, _) => Err(TpmRc(rc::TYPE).for_handle(1)),
            (_, Err(e)) => Err(e.for_parameter(2)),
            (Some(s), _) => if a.has(ObjectAttributes::FIXED_TPM) || a.has(
                ObjectAttributes::FIXED_PARENT,
            ) {
                Err(TpmRc(rc::ATTRIBUTES).for_parameter(2))
            } else if a.has(ObjectAttributes::ENCRYPTED_DUPLICATION) && i.secret.len() == 0 {
                Err(TpmRc(rc::ATTRIBUTES).for_parameter(4))
            } else if a.has(ObjectAttributes::ENCRYPTED_DUPLICATION) && i.key.len() == 0 {
                Err(TpmRc(rc::ATTRIBUTES).for_parameter(1))
            } else {
                Ok(s)
            },
        }
    }
}

/// The seed that a secret carries to a parent, the `n`th parameter.
pub open spec fn seed_carried(p: Object, secret: Seq<u8>, n: int) -> TpmResult<Seq<u8>> {
    match p.sensitive {
        None => Err(TpmRc(rc::HANDLE).for_parameter(n)),
        Some(s) => match seed_recovered(p.public@, s@, secret, LABEL_DUPLICATE@) {
            Err(e) => Err(e.for_parameter(n)),
            Ok(v) => Ok(v),
        },
    }
}

/// What the outer wrap of a duplication holds.
pub open spec fn outer_unwrapped(
    p: Object,
    s: SymDef,
    secret: Seq<u8>,
    n: int,
    name: Seq<u8>,
    blob: Seq<u8>,
) -> TpmResult<Seq<u8>> {
    match (seed_carried(p, secret, n), protects(p.public.name_alg, s)) {
        (Err(e), _) => Err(e),
        (_, Err(e)) => Err(e),
        (Ok(seed), _) => recovered(p.public.name_alg, seed, s.key_bits, name, blob),
    }
}

/// The sensitive area of an object that is imported, with both wraps undone.
pub open spec fn imported(p: Object, s: SymDef, i: ImportInput) -> TpmResult<SensitiveView> {
    let name = object_name_of(i.public);
    let outer = if i.secret.len() == 0 {
        Ok(i.blob)
    } else {
        outer_unwrapped(p, s, i.secret, 4, name, i.blob)
    };
    match outer {
        Err(e) => Err(e),
        Ok(body) => match inner_opened(i, name, body) {
            Err(e) => Err(e),
            Ok(plain) => match sensitive_in(plain) {
                Err(e) => Err(e),
                Ok(octets) => match TpmtSensitive::alone(octets) {
                    Err(_) => Err(TpmRc(rc::SENSITIVE)),
                    Ok(v) => match binding_check(i.public, v) {
                        Err(e) => Err(e.for_parameter(3)),
                        Ok(_) => Ok(v),
                    },
                },
            },
        },
    }
}

/// The inner wrap undone, when there was one. A weak key is refused.
pub open spec fn inner_opened(i: ImportInput, name: Seq<u8>, body: Seq<u8>) -> TpmResult<Seq<u8>> {
    if i.symmetric.algorithm == alg::NULL {
        Ok(body)
    } else if i.key.len() != i.symmetric.key_bits / 8 {
        Err(TpmRc(rc::SIZE).for_parameter(1))
    } else if weak_key(i.symmetric.algorithm, i.key) {
        Err(TpmRc(rc::KEY).for_parameter(1))
    } else {
        inner_unwrapped(i.public.name_alg, i.symmetric, i.key, name, body)
    }
}

/// What TPM2_Import returns: the object protected for its new parent.
pub open spec fn import_outcome(state: TpmState, req: RequestView) -> TpmResult<Seq<u8>> {
    match (req.handle(0), alone(req.parameters, parse_import(req.parameters))) {
        (Err(e), _) => Err(e),
        (_, Err(e)) => Err(e),
        (Ok(h), Ok(i)) => match object_named(state, h) {
            Err(e) => Err(e.for_handle(1)),
            Ok(p) => match import_check(p, i) {
                Err(e) => Err(e),
                Ok(s) => match (imported(p, s, i), protects(p.public.name_alg, s)) {
                    (Err(e), _) => Err(e),
                    (_, Err(e)) => Err(e),
                    (Ok(v), _) => Ok(
                        protected(
                            p.public.name_alg,
                            p.seed_of(),
                            s.key_bits,
                            object_name_of(i.public),
                            sized(v.octets()),
                        ),
                    ),
                },
            },
        },
    }
}

/// TPM2_Import.
pub open spec fn import_ran(state: TpmState, req: RequestView, r: TpmResult<Response>) -> bool {
    match import_outcome(state, req) {
        Err(e) => fails(r, e),
        Ok(private) => answers_with(r, sized(private)),
    }
}

/// The parameters of TPM2_Import.
#[derive(Debug)]
struct Imported {
    key: Vec<u8>,
    public: TpmtPublic,
    blob: Vec<u8>,
    secret: Vec<u8>,
    symmetric: SymDef,
}

impl View for Imported {
    type V = ImportInput;

    closed spec fn view(&self) -> ImportInput {
        ImportInput {
            key: self.key@,
            public: self.public@,
            blob: self.blob@,
            secret: self.secret@,
            symmetric: self.symmetric,
        }
    }
}

/// Check that an object may be imported under a parent.
fn check_import(p: &Object, i: &Imported) -> (r: TpmResult<SymDef>)
    ensures
        r == import_check(*p, i@),
{
    let pa: ObjectAttributes = p.public.object_attributes;
    if !(pa.has(ObjectAttributes::RESTRICTED) && pa.has(ObjectAttributes::DECRYPT)) {
        return Err(TpmRc(rc::TYPE).with_handle(1));
    }
    let symmetric: SymDef = match p.public.parameters.symmetric() {
        Some(s) => s,
        None => {
            return Err(TpmRc(rc::TYPE).with_handle(1));
        },
    };
    at_parameter(validate_loaded_public(&i.public), 2)?;
    let a: ObjectAttributes = i.public.object_attributes;
    if a.has(ObjectAttributes::FIXED_TPM) || a.has(ObjectAttributes::FIXED_PARENT) {
        return Err(TpmRc(rc::ATTRIBUTES).with_parameter(2));
    }
    if a.has(ObjectAttributes::ENCRYPTED_DUPLICATION) {
        if i.secret.len() == 0 {
            return Err(TpmRc(rc::ATTRIBUTES).with_parameter(4));
        }
        if i.key.len() == 0 {
            return Err(TpmRc(rc::ATTRIBUTES).with_parameter(1));
        }
    }
    Ok(symmetric)
}

/// Undo the outer wrap of a duplication.
fn unwrap_outside(p: &Object, symmetric: &SymDef, secret: &[u8], n: usize, name: &[u8], blob: &[u8])
    -> (r: TpmResult<Vec<u8>>)
    ensures
        match outer_unwrapped(*p, *symmetric, secret@, n as int, name@, blob@) {
            Ok(v) => r is Ok && r->Ok_0@ == v && v.len() <= blob@.len(),
            Err(e) => r is Err && r->Err_0 == e,
        },
{
    let seed: Vec<u8> = match &p.sensitive {
        None => {
            return Err(TpmRc(rc::HANDLE).with_parameter(n));
        },
        Some(s) => at_parameter(
            seed_from_private(&p.public, s, secret, LABEL_DUPLICATE.as_slice()),
            n,
        )?,
    };
    unwrap_private_body(p.public.name_alg, seed.as_slice(), symmetric, name, blob)
}

/// Undo the inner wrap, when there was one.
fn open_inside(i: &Imported, name: &[u8], body: Vec<u8>) -> (r: TpmResult<Vec<u8>>)
    ensures
        match inner_opened(i@, name@, body@) {
            Ok(v) => r is Ok && r->Ok_0@ == v,
            Err(e) => r is Err && r->Err_0 == e,
        },
{
    if i.symmetric.is_null() {
        return Ok(body);
    }
    if i.key.len() != (i.symmetric.key_bits / 8) as usize {
        return Err(TpmRc(rc::SIZE).with_parameter(1));
    }
    if sym::is_weak_key(i.symmetric.algorithm, i.key.as_slice()) {
        return Err(TpmRc(rc::KEY).with_parameter(1));
    }
    inner_unwrap(i.public.name_alg, &i.symmetric, i.key.as_slice(), name, body.as_slice())
}

/// Undo both wraps.
fn take_in(p: &Object, symmetric: &SymDef, i: &Imported, name: &[u8]) -> (r: TpmResult<
    TpmtSensitive,
>)
    requires
        name@ == object_name_of(i@.public),
    ensures
        match imported(*p, *symmetric, i@) {
            Ok(v) => r is Ok && r->Ok_0@ == v,
            Err(e) => r is Err && r->Err_0 == e,
        },
{
    let body: Vec<u8> = if i.secret.len() == 0 {
        to_vec(i.blob.as_slice())
    } else {
        unwrap_outside(p, symmetric, i.secret.as_slice(), 4, name, i.blob.as_slice())?
    };
    let plain: Vec<u8> = open_inside(i, name, body)?;
    let octets: Vec<u8> = sensitive_from_body(plain.as_slice())?;
    let sensitive: TpmtSensitive = match TpmtSensitive::from_bytes(octets.as_slice()) {
        Ok(s) => s,
        Err(_) => {
            return Err(TpmRc(rc::SENSITIVE));
        },
    };
    at_parameter(check_binding(&i.public, &sensitive), 3)?;
    Ok(sensitive)
}

/// Read the parameters of TPM2_Import.
fn read_import(request: &Request) -> (r: TpmResult<Imported>)
    ensures
        match alone(request@.parameters, parse_import(request@.parameters)) {
            Ok(v) => r is Ok && r->Ok_0@ == v,
            Err(e) => r is Err && r->Err_0 == e,
        },
{
    let mut reader: Reader = request.reader();
    let key: Vec<u8> = read_sized::<32>(&mut reader, 1)?;
    let public: Tpm2bPublic = at_parameter(Tpm2bPublic::unmarshal(&mut reader), 2)?;
    let blob: Vec<u8> = read_sized::<1024>(&mut reader, 3)?;
    let secret: Vec<u8> = read_sized::<512>(&mut reader, 4)?;
    let symmetric: SymDef = at_parameter(SymDef::unmarshal(&mut reader, false), 5)?;
    reader.expect_end()?;
    Ok(Imported { key, public: public.public_area, blob, secret, symmetric })
}

/// TPM2_Import: take in an object that was handed out for a parent of this TPM.
pub fn import(state: &mut TpmState, request: &Request) -> (r: TpmResult<Response>)
    requires
        old(state).wf(),
    ensures
        *final(state) == *old(state),
        import_ran(*old(state), request@, r),
{
    let handle: u32 = request.handle(0)?;
    let i: Imported = read_import(request)?;
    let p: &Object = match object_of(state, handle) {
        Ok(o) => o,
        Err(e) => {
            return Err(e.with_handle(1));
        },
    };
    let symmetric: SymDef = check_import(p, &i)?;
    let name: Vec<u8> = object_name(&i.public);
    let sensitive: TpmtSensitive = take_in(p, &symmetric, &i, name.as_slice())?;
    let octets: Vec<u8> = sensitive.to_bytes();
    let seed: Vec<u8> = p.seed_value();
    let private: Vec<u8> = wrap_private(
        p.public.name_alg,
        seed.as_slice(),
        &symmetric,
        name.as_slice(),
        octets.as_slice(),
    )?;
    let mut w: Writer = Writer::new();
    w.sized16(private.as_slice());
    assert(w.written() =~= sized(private@));
    respond(w)
}

/// The parameters of TPM2_Rewrap.
pub open spec fn parse_rewrap(d: Seq<u8>) -> Parsed<(Seq<u8>, Seq<u8>, Seq<u8>)> {
    match in_sized(d, 0, 1024, 1) {
        Err(e) => Err(e),
        Ok((blob, n1)) => match in_sized(d, n1, 68, 2) {
            Err(e) => Err(e),
            Ok((name, n2)) => match in_sized(d, n2, 512, 3) {
                Err(e) => Err(e),
                Ok((secret, n3)) => Ok(((blob, name, secret), n3)),
            },
        },
    }
}

/// What TPM2_Rewrap takes out of the old parent's wrap, with the Name of the
/// object and its new parent.
pub open spec fn rewrap_check(state: TpmState, req: RequestView) -> TpmResult<
    (Seq<u8>, Seq<u8>, u32),
> {
    match (
        req.handle(0),
        req.handle(1),
        alone(req.parameters, parse_rewrap(req.parameters)),
    ) {
        (Err(e), _, _) => Err(e),
        (_, Err(e), _) => Err(e),
        (_, _, Err(e)) => Err(e),
        (Ok(from), Ok(to), Ok((blob, name, secret))) => if !well_formed(name) {
            Err(TpmRc(rc::SIZE).for_parameter(2))
        } else if from == rh::NULL {
            Ok((blob, name, to))
        } else {
            match object_named(state, from) {
                Err(e) => Err(e.for_handle(1)),
                Ok(p) => match p.public.parameters.spec_symmetric() {
                    None => Err(TpmRc(rc::TYPE).for_handle(1)),
                    Some(s) => match outer_unwrapped(p, s, secret, 3, name, blob) {
                        Err(e) => Err(e),
                        Ok(body) => Ok((body, name, to)),
                    },
                },
            }
        },
    }
}

/// TPM2_Rewrap.
pub open spec fn rewrap_ran(
    after: TpmState,
    before: TpmState,
    req: RequestView,
    r: TpmResult<Response>,
) -> bool {
    match rewrap_check(before, req) {
        Err(e) => after == before && fails(r, e),
        Ok((body, name, to)) => {
            let out = second_phase(before.rng.model(), before, to, false, name, body);
            &&& after == (TpmState { rng: after.rng, ..before })
            &&& after.rng.model() == out.1
            &&& match out.0 {
                Err(e) => fails(r, e),
                Ok((blob, secret)) => if blob.len() > 1024 {
                    fails(r, TpmRc(rc::SIZE))
                } else {
                    answers_with(r, sized(blob) + sized(secret))
                },
            }
        },
    }
}

/// Take a duplication out of the old parent's wrap.
fn unwrap_old(state: &TpmState, request: &Request) -> (r: TpmResult<(Vec<u8>, Vec<u8>, u32)>)
    requires
        state.wf(),
    ensures
        match rewrap_check(*state, request@) {
            Ok((body, name, to)) => r is Ok && (r->Ok_0).0@ == body && (r->Ok_0).1@ == name && (
            r->Ok_0).2 == to && body.len() <= 1024,
            Err(e) => r is Err && r->Err_0 == e,
        },
{
    let from: u32 = request.handle(0)?;
    let to: u32 = request.handle(1)?;
    let mut reader: Reader = request.reader();
    let blob: Vec<u8> = read_sized::<1024>(&mut reader, 1)?;
    let name: Vec<u8> = read_sized::<68>(&mut reader, 2)?;
    let secret: Vec<u8> = read_sized::<512>(&mut reader, 3)?;
    reader.expect_end()?;
    if !is_well_formed(name.as_slice()) {
        return Err(TpmRc(rc::SIZE).with_parameter(2));
    }
    if from == rh::NULL {
        return Ok((blob, name, to));
    }
    let p: &Object = match object_of(state, from) {
        Ok(o) => o,
        Err(e) => {
            return Err(e.with_handle(1));
        },
    };
    let symmetric: SymDef = match p.public.parameters.symmetric() {
        Some(s) => s,
        None => {
            return Err(TpmRc(rc::TYPE).with_handle(1));
        },
    };
    let body: Vec<u8> = unwrap_outside(
        p,
        &symmetric,
        secret.as_slice(),
        3,
        name.as_slice(),
        blob.as_slice(),
    )?;
    Ok((body, name, to))
}

/// TPM2_Rewrap: put a duplication under the outer wrap of another parent.
pub fn rewrap(state: &mut TpmState, request: &Request) -> (r: TpmResult<Response>)
    requires
        old(state).wf(),
    ensures
        final(state).wf(),
        rewrap_ran(*final(state), *old(state), request@, r),
{
    let (body, name, to) = unwrap_old(state, request)?;
    let (blob, secret) = wrap_outside(state, to, false, name.as_slice(), body)?;
    if blob.len() > 1024 {
        return Err(TpmRc(rc::SIZE));
    }
    let mut w: Writer = Writer::new();
    w.sized16(blob.as_slice());
    w.sized16(secret.as_slice());
    assert(w.written() =~= sized(blob@) + sized(secret@));
    respond(w)
}

/// TPM2_ACT_SetTimeout.
pub open spec fn act_set_timeout_ran(
    after: TpmState,
    before: TpmState,
    req: RequestView,
    r: TpmResult<Response>,
) -> bool {
    &&& after == before
    &&& match (req.handle(0), alone(req.parameters, in_u32(req.parameters, 0, 1))) {
        (Err(e), _) => fails(r, e),
        (_, Err(e)) => fails(r, e),
        (Ok(_), Ok(_)) => fails(r, TpmRc(rc::VALUE).for_handle(1)),
    }
}

/// TPM2_ACT_SetTimeout: there is no authenticated timer to set, so every handle
/// of one is refused.
pub fn act_set_timeout(state: &mut TpmState, request: &Request) -> (r: TpmResult<Response>)
    requires
        old(state).wf(),
    ensures
        final(state).wf(),
        act_set_timeout_ran(*final(state), *old(state), request@, r),
{
    let _handle: u32 = request.handle(0)?;
    let mut reader: Reader = request.reader();
    let _seconds: u32 = read_u32(&mut reader, 1)?;
    reader.expect_end()?;
    Err(TpmRc(rc::VALUE).with_handle(1))
}

/// True for the handle of an attached component.
pub open spec fn names_component(h: u32) -> bool {
    hc::AC_FIRST <= h <= hc::AC_LAST
}

/// The parameters of TPM2_AC_GetCapability.
pub open spec fn parse_ac_get(d: Seq<u8>) -> Parsed<(u32, u32)> {
    match in_u32(d, 0, 1) {
        Err(e) => Err(e),
        Ok((capability, n1)) => match in_u32(d, n1, 2) {
            Err(e) => Err(e),
            Ok((count, n2)) => Ok(((capability, count), n2)),
        },
    }
}

/// TPM2_AC_GetCapability.
pub open spec fn ac_get_capability_ran(req: RequestView, r: TpmResult<Response>) -> bool {
    match req.handle(0) {
        Err(e) => fails(r, e),
        Ok(ac) => if !names_component(ac) {
            fails(r, TpmRc(rc::VALUE).for_handle(1))
        } else {
            match alone(req.parameters, parse_ac_get(req.parameters)) {
                Err(e) => fails(r, e),
                Ok(_) => answers_with(r, seq![0u8] + octets32(0)),
            }
        },
    }
}

/// TPM2_AC_GetCapability: no component is attached, so the list is empty.
pub fn ac_get_capability(_state: &TpmState, request: &Request) -> (r: TpmResult<Response>)
    ensures
        ac_get_capability_ran(request@, r),
{
    let ac: u32 = request.handle(0)?;
    if ac < hc::AC_FIRST || ac > hc::AC_LAST {
        return Err(TpmRc(rc::VALUE).with_handle(1));
    }
    let mut reader: Reader = request.reader();
    let _capability: u32 = read_u32(&mut reader, 1)?;
    let _count: u32 = read_u32(&mut reader, 2)?;
    reader.expect_end()?;
    let mut w: Writer = Writer::new();
    w.u8(0);
    w.u32(0);
    assert(w.written() =~= seq![0u8] + octets32(0));
    respond(w)
}

/// TPM2_AC_Send.
pub open spec fn ac_send_ran(req: RequestView, r: TpmResult<Response>) -> bool {
    match req.handle(2) {
        Err(e) => fails(r, e),
        Ok(_) => fails(r, TpmRc(rc::VALUE).for_handle(3)),
    }
}

/// TPM2_AC_Send: no component is attached to send to.
pub fn ac_send(_state: &mut TpmState, request: &Request) -> (r: TpmResult<Response>)
    ensures
        *final(_state) == *old(_state),
        ac_send_ran(request@, r),
{
    let _ac: u32 = request.handle(2)?;
    Err(TpmRc(rc::VALUE).with_handle(3))
}

/// Load a duplicated object under a parent.
pub fn load_duplicated(
    state: &mut TpmState,
    parent: &Object,
    public: TpmtPublic,
    sensitive: TpmtSensitive,
) -> (r: TpmResult<u32>)
    requires
        old(state).wf(),
    ensures
        final(state).wf(),
        *final(state) == (TpmState { objects: final(state).objects, ..*old(state) }),
        r is Ok <==> old(state).objects.has_room(),
        r matches Err(e) ==> e == TpmRc(rc::OBJECT_MEMORY) && *final(state) == *old(state),
        r matches Ok(h) ==> {
            &&& old(state).objects.is_next(h)
            &&& final(state).objects.slots@ == old(state).objects.slots@.insert(
                h,
                final(state).objects.slots@[h],
            )
            &&& final(state).objects.has_object(h)
            &&& final(state).objects.object_at(h)@ == object_made(
                public@,
                Some(sensitive@),
                parent.hierarchy,
                parent.qualified_name@,
                false,
                false,
            )
        },
{
    let object: Object = Object::new(
        public,
        Some(sensitive),
        parent.hierarchy,
        parent.qualified_name.as_slice(),
        false,
    );
    state.objects.insert(Slot::Object(Box::new(object)))
}

/// What was handed out without an outer wrap is taken in again, under the same
/// Name and key: the sensitive area that comes out is the one that went in.
pub proof fn law_a_duplication_comes_back(
    m: RngModel,
    o: Object,
    s: SensitiveView,
    key: Seq<u8>,
    symmetric: SymDef,
)
    requires
        s.fits(),
        key.len() <= 32,
        o.name@ == object_name_of(o.public@),
        symmetric.algorithm == alg::NULL || !weak_key(symmetric.algorithm, key),
        symmetric.algorithm == alg::NULL || key.len() > 0,
    ensures
        match first_phase(m, o, s, key, symmetric).0 {
            Ok((_, body)) => {
                let i = ImportInput {
                    key,
                    public: o.public@,
                    blob: body,
                    secret: Seq::empty(),
                    symmetric,
                };
                match inner_opened(i, o.name@, body) {
                    Ok(plain) => sensitive_in(plain) == Ok::<Seq<u8>, TpmRc>(s.octets())
                        && TpmtSensitive::alone(s.octets()) == Ok::<SensitiveView, TpmRc>(s),
                    Err(_) => false,
                }
            },
            Err(_) => true,
        },
{
    let body = sized(s.octets());
    assert(sensitive_in(body) == Ok::<Seq<u8>, TpmRc>(s.octets())) by {
        crate::tpm::marshal::law_sized_round_trip(Seq::empty(), s.octets(), Seq::empty(), 0xFFFF);
        assert(Seq::<u8>::empty() + body + Seq::<u8>::empty() =~= body);
    }
    assert(TpmtSensitive::alone(s.octets()) == Ok::<SensitiveView, TpmRc>(s)) by {
        crate::tpm::structures::keys::law_a_sensitive_area_round_trips(s);
    }
    law_the_inner_wrap_round_trips(o.public.name_alg, symmetric, key, o.name@, body);
    lemma_opened(o, s, key, symmetric, body);
}

/// The inner wrap of the first phase opens to what went into it.
proof fn lemma_opened(o: Object, s: SensitiveView, key: Seq<u8>, symmetric: SymDef, body: Seq<u8>)
    requires
        body == sized(s.octets()),
        symmetric.algorithm == alg::NULL || !weak_key(symmetric.algorithm, key),
        match inner_wrapped(o.public.name_alg, symmetric, key, o.name@, body) {
            Ok(v) => inner_unwrapped(o.public.name_alg, symmetric, key, o.name@, v) == Ok::<
                Seq<u8>,
                TpmRc,
            >(body),
            Err(_) => true,
        },
    ensures
        match inner_wrapped(o.public.name_alg, symmetric, key, o.name@, body) {
            Ok(v) => symmetric.algorithm != alg::NULL && key.len() == symmetric.key_bits / 8
                ==> inner_opened(
                ImportInput {
                    key,
                    public: o.public@,
                    blob: v,
                    secret: Seq::empty(),
                    symmetric,
                },
                o.name@,
                v,
            ) == Ok::<Seq<u8>, TpmRc>(body),
            Err(_) => true,
        },
{
}

/// The outer wrap comes off as it was put on: whoever finds the seed in the
/// secret takes out what went in. TPM2_Rewrap puts what it took out of one
/// parent's wrap under another's, so what is inside stays as it was.
pub proof fn law_the_outer_wrap_comes_off(
    m: RngModel,
    state: TpmState,
    parent: u32,
    storage: bool,
    p: Object,
    s: SymDef,
    n: int,
    name: Seq<u8>,
    body: Seq<u8>,
)
    requires
        parent != rh::NULL,
        object_named(state, parent) == Ok::<Object, TpmRc>(p),
        p.public.parameters.spec_symmetric() == Some(s),
        second_phase(m, state, parent, storage, name, body).0 is Ok,
        seed_carried(p, second_phase(m, state, parent, storage, name, body).0->Ok_0.1, n) == Ok::<
            Seq<u8>,
            TpmRc,
        >(seed_made(m, p.public@, LABEL_DUPLICATE@).0->Ok_0.0),
    ensures
        ({
            let (blob, secret) = second_phase(m, state, parent, storage, name, body).0->Ok_0;
            outer_unwrapped(p, s, secret, n, name, blob) == Ok::<Seq<u8>, TpmRc>(body)
        }),
{
    let seed = seed_made(m, p.public@, LABEL_DUPLICATE@).0->Ok_0.0;
    law_protection_round_trips(p.public.name_alg, seed, s.key_bits, name, body);
}

/// A parent takes off the outer wrap that was put on for it, and what is inside is
/// what went in. The factors of an RSA modulus have to be primes, and the curve of
/// an ECC key has to be a group.
pub proof fn law_a_parent_takes_the_wrap_off(
    m: RngModel,
    state: TpmState,
    parent: u32,
    storage: bool,
    p: Object,
    s: SymDef,
    n: int,
    name: Seq<u8>,
    body: Seq<u8>,
)
    requires
        parent != rh::NULL,
        object_named(state, parent) == Ok::<Object, TpmRc>(p),
        p.public.parameters.spec_symmetric() == Some(s),
        p.sensitive matches Some(x) && sound_pair(p.public@, x@),
        second_phase(m, state, parent, storage, name, body).0 is Ok,
    ensures
        ({
            let (blob, secret) = second_phase(m, state, parent, storage, name, body).0->Ok_0;
            outer_unwrapped(p, s, secret, n, name, blob) == Ok::<Seq<u8>, TpmRc>(body)
        }),
{
    law_a_key_finds_the_seed(m, p.public@, p.sensitive->0@, LABEL_DUPLICATE@);
    law_the_outer_wrap_comes_off(m, state, parent, storage, p, s, n, name, body);
}

/// A duplication that TPM2_Rewrap put under a new parent comes out of that parent's
/// wrap as it came out of the old one's: asked for without a new parent, both
/// answers are the same. The factors of an RSA modulus have to be primes, and the
/// curve of an ECC key has to be a group.
pub proof fn law_a_rewrapped_duplication_is_the_same(
    before: TpmState,
    mid: TpmState,
    after: TpmState,
    aside: TpmState,
    over: RequestView,
    back: RequestView,
    plain: RequestView,
    from: u32,
    to: u32,
    p: Object,
    blob: Seq<u8>,
    name: Seq<u8>,
    secret: Seq<u8>,
    new_blob: Seq<u8>,
    new_secret: Seq<u8>,
    a: TpmResult<Response>,
    b: TpmResult<Response>,
    c: TpmResult<Response>,
)
    requires
        to != rh::NULL,
        object_named(before, to) == Ok::<Object, TpmRc>(p),
        p.sensitive matches Some(x) && sound_pair(p.public@, x@),
        over.handle(0) == Ok::<u32, TpmRc>(from),
        over.handle(1) == Ok::<u32, TpmRc>(to),
        alone(over.parameters, parse_rewrap(over.parameters)) == Ok::<
            (Seq<u8>, Seq<u8>, Seq<u8>),
            TpmRc,
        >((blob, name, secret)),
        rewrap_ran(mid, before, over, a),
        answers_with(a, sized(new_blob) + sized(new_secret)),
        new_blob.len() <= 1024,
        new_secret.len() <= 512,
        back.handle(0) == Ok::<u32, TpmRc>(to),
        back.handle(1) == Ok::<u32, TpmRc>(rh::NULL),
        alone(back.parameters, parse_rewrap(back.parameters)) == Ok::<
            (Seq<u8>, Seq<u8>, Seq<u8>),
            TpmRc,
        >((new_blob, name, new_secret)),
        rewrap_ran(after, mid, back, b),
        plain.handle(0) == Ok::<u32, TpmRc>(from),
        plain.handle(1) == Ok::<u32, TpmRc>(rh::NULL),
        alone(plain.parameters, parse_rewrap(plain.parameters)) == Ok::<
            (Seq<u8>, Seq<u8>, Seq<u8>),
            TpmRc,
        >((blob, name, secret)),
        rewrap_ran(aside, before, plain, c),
    ensures
        same_answer(b, c),
        b matches Ok(r) ==> exists|body: Seq<u8>|
            answers_with(b, #[trigger] (sized(body) + sized(Seq::empty()))),
{
    let body = (rewrap_check(before, over)->Ok_0).0;
    let m = before.rng.model();
    let (w, x) = second_phase(m, before, to, false, name, body).0->Ok_0;
    lemma_two_fields(w, x, new_blob, new_secret);
    let s = p.public.parameters.spec_symmetric()->0;
    law_a_parent_takes_the_wrap_off(m, before, to, false, p, s, 3, name, body);
    assert(object_named(mid, to) == object_named(before, to));
    assert(rewrap_check(mid, back) == Ok::<(Seq<u8>, Seq<u8>, u32), TpmRc>((body, name, rh::NULL)));
    assert(rewrap_check(before, plain) == Ok::<(Seq<u8>, Seq<u8>, u32), TpmRc>(
        (body, name, rh::NULL),
    ));
    if b is Ok {
        assert(answers_with(b, sized(body) + sized(Seq::empty())));
    }
}

/// Between two null parents TPM2_Rewrap hands back what it was given, and it
/// refuses a Name that is none.
pub proof fn law_a_rewrap_without_parents_changes_nothing(
    before: TpmState,
    after: TpmState,
    req: RequestView,
    from: u32,
    to: u32,
    blob: Seq<u8>,
    name: Seq<u8>,
    secret: Seq<u8>,
    r: TpmResult<Response>,
)
    requires
        req.handle(0) == Ok::<u32, TpmRc>(from),
        req.handle(1) == Ok::<u32, TpmRc>(to),
        alone(req.parameters, parse_rewrap(req.parameters)) == Ok::<
            (Seq<u8>, Seq<u8>, Seq<u8>),
            TpmRc,
        >((blob, name, secret)),
        blob.len() <= 1024,
        rewrap_ran(after, before, req, r),
    ensures
        from == rh::NULL && to == rh::NULL && well_formed(name) ==> answers_with(
            r,
            sized(blob) + sized(Seq::empty()),
        ),
        !well_formed(name) ==> after == before && fails(r, TpmRc(rc::SIZE).for_parameter(2)),
{
}

} // verus!
