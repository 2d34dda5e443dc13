//! Attestation and the audit digests.

use vstd::prelude::*;

use super::authorize::{auth_is_policy, by_policy};
use super::creation::{creation_hmac, creation_mac, creation_ticket_of};
use super::dispatch::{Request, RequestView, Response};
use super::execute::respond;
use super::hierarchy::put_in;
use super::management::{clock_info, clock_info_of};
use super::nv::{check_read_authority, may_read};
use super::signatures::{
    chosen_scheme_at, hash_ticket_holds, hash_ticket_of, object_named, object_of, sign_digest,
    signature_made, signing_scheme_at,
};
use super::table::{found, lookup};
use super::wire::{
    alone, answers_nothing, answers_with, at_parameter, fails, in_sized, in_u16, nothing, numbered,
    read_u16,
};
use crate::tpm::config;
use crate::tpm::constants::{alg, cc, rc, rh, st};
use crate::tpm::crypto::hash::{digest, hash_of, is_supported, lemma_hash_len, supported};
use crate::tpm::crypto::hmac::{kdfa, kdfa_bytes};
use crate::tpm::crypto::rand::{Rng, RngModel};
use crate::tpm::engine::hierarchy::is_hierarchy;
use crate::tpm::engine::nv::NvIndex;
use crate::tpm::engine::object::Object;
use crate::tpm::engine::session::Session;
use crate::tpm::engine::state::{Audit, TpmState};
use crate::tpm::error::{TpmRc, TpmResult};
use crate::tpm::marshal::{sized, Parsed, Reader, Writer};
use crate::tpm::structures::attest::{
    Attest, AttestView, Attested, AttestedView, ClockInfo, TimeInfo,
};
use crate::tpm::structures::attributes::ObjectAttributes;
use crate::tpm::structures::base::{
    Tpm2bAttest, Tpm2bData, Tpm2bDigest, Tpm2bMaxNvBuffer, Tpm2bName,
};
use crate::tpm::structures::lists::{PcrSelection, TpmlCc, TpmlPcrSelection};
use crate::tpm::structures::schemes::{anonymous, is_anonymous, Scheme, SchemeUse};
use crate::tpm::structures::signature::{SignatureView, Ticket, TicketView, TpmtSignature};
use crate::util::bytes::{
    be32, be64, constant_time_eq, lemma_octets32, octets16, octets32, push_be32, read_be32,
    read_be64, to_vec,
};
use crate::util::listing::ascending;

verus! {

/// What hides the counters of an attestation is derived for this.
pub const LABEL_OBFUSCATE: [u8; 9] = [0x4f, 0x42, 0x46, 0x55, 0x53, 0x43, 0x41, 0x54, 0x45];

/// The key a handle names, which has to be one that signs. It need not be
/// restricted.
pub open spec fn signing_key(state: TpmState, handle: u32) -> TpmResult<Object> {
    match object_named(state, handle) {
        Err(e) => Err(e),
        Ok(o) => if !o.public.object_attributes.has(ObjectAttributes::SIGN_ENCRYPT) {
            Err(TpmRc(rc::KEY))
        } else {
            Ok(o)
        },
    }
}

/// The object a signing handle names.
pub fn signing_object(state: &TpmState, handle: u32) -> (r: TpmResult<Object>)
    requires
        state.wf(),
    ensures
        match signing_key(*state, handle) {
            Ok(o) => r is Ok && r->Ok_0@ == o@ && r->Ok_0.wf() && o.wf(),
            Err(e) => r is Err && r->Err_0 == e,
        },
{
    let object: &Object = object_of(state, handle)?;
    if !object.public.object_attributes.has(ObjectAttributes::SIGN_ENCRYPT) {
        return Err(TpmRc(rc::KEY));
    }
    Ok(object.clone())
}

/// The counters and the firmware version with 128 bits of a KDF added to them.
pub open spec fn hidden(state: TpmState, name_alg: u16, qualified_name: Seq<u8>) -> TpmResult<
    (ClockInfo, u64),
> {
    let v = kdfa(
        name_alg,
        state.hierarchies.spec_get(rh::OWNER).proof_value@,
        LABEL_OBFUSCATE@,
        qualified_name,
        Seq::empty(),
        128,
    );
    let c = clock_info_of(state);
    if !supported(name_alg) {
        Err(TpmRc(rc::HASH))
    } else {
        Ok(
            (
                ClockInfo {
                    reset_count: c.reset_count.wrapping_add(be32(v, 8)),
                    restart_count: c.restart_count.wrapping_add(be32(v, 12)),
                    ..c
                },
                (config::FIRMWARE_VERSION_1 as u64).wrapping_add(be64(v, 0)),
            ),
        )
    }
}

/// The counters and the firmware version an attestation shows. Only a key of
/// the Endorsement or the Platform hierarchy shows them as they are.
#[verifier::opaque]
pub open spec fn shown(state: TpmState, sign_handle: u32, qualified_name: Seq<u8>) -> TpmResult<
    (ClockInfo, u64),
> {
    if sign_handle == rh::NULL {
        hidden(state, config::CONTEXT_INTEGRITY_HASH_ALG, qualified_name)
    } else {
        match signing_key(state, sign_handle) {
            Err(e) => Err(e),
            Ok(o) => if o.hierarchy == rh::ENDORSEMENT || o.hierarchy == rh::PLATFORM {
                Ok((clock_info_of(state), config::FIRMWARE_VERSION_1 as u64))
            } else {
                hidden(state, o.public.name_alg, qualified_name)
            },
        }
    }
}

/// Hide the values that would let a verifier correlate attestations.
pub fn obfuscated(state: &TpmState, sign_handle: u32, qualified_name: &[u8]) -> (r: TpmResult<
    (ClockInfo, u64),
>)
    requires
        state.wf(),
    ensures
        r == shown(*state, sign_handle, qualified_name@),
{
    proof {
        reveal(shown);
    }
    let clock: ClockInfo = clock_info(state);
    let name_alg: u16 = if sign_handle == rh::NULL {
        config::CONTEXT_INTEGRITY_HASH_ALG
    } else {
        let object: Object = signing_object(state, sign_handle)?;
        if object.hierarchy == rh::ENDORSEMENT || object.hierarchy == rh::PLATFORM {
            return Ok((clock, config::FIRMWARE_VERSION_1 as u64));
        }
        object.public.name_alg
    };
    let proof_value: &[u8] = state.hierarchy_proof(rh::OWNER)?;
    let none: Vec<u8> = Vec::new();
    assert(none@ =~= Seq::<u8>::empty());
    let v: Vec<u8> = kdfa_bytes(
        name_alg,
        proof_value,
        LABEL_OBFUSCATE.as_slice(),
        qualified_name,
        none.as_slice(),
        128,
    )?;
    let firmware: u64 = (config::FIRMWARE_VERSION_1 as u64).wrapping_add(
        read_be64(v.as_slice(), 0),
    );
    Ok(
        (
            ClockInfo {
                clock: clock.clock,
                reset_count: clock.reset_count.wrapping_add(read_be32(v.as_slice(), 8)),
                restart_count: clock.restart_count.wrapping_add(read_be32(v.as_slice(), 12)),
                safe: clock.safe,
            },
            firmware,
        ),
    )
}

/// The key that signs and its scheme, or none for an attestation that is not
/// signed.
#[verifier::opaque]
pub open spec fn signer(state: TpmState, h: u32, number: int, supplied: Scheme, parameter: int)
    -> TpmResult<Option<(Object, Scheme)>> {
    if h == rh::NULL {
        Ok(None)
    } else {
        match signing_key(state, h) {
            Err(e) => Err(e.for_handle(number)),
            Ok(o) => match chosen_scheme_at(o@.public, supplied, parameter) {
                Err(e) => Err(e),
                Ok(scheme) => Ok(Some((o, scheme))),
            },
        }
    }
}

/// True when the signature does not say which key made it.
pub open spec fn unnamed(by: Option<(Object, Scheme)>) -> bool {
    by matches Some(pair) && anonymous(pair.1.scheme)
}

/// What is attested to. An anonymous signature leaves out the qualified name
/// of a certified key.
pub open spec fn attested_by(by: Option<(Object, Scheme)>, a: AttestedView) -> AttestedView {
    match a {
        AttestedView::Certify { name, .. } => if unnamed(by) {
            AttestedView::Certify { name, qualified_name: Seq::empty() }
        } else {
            a
        },
        _ => a,
    }
}

/// The name the counters are hidden under.
pub open spec fn hiding_name(by: Option<(Object, Scheme)>) -> Seq<u8> {
    match by {
        None => octets32(rh::NULL),
        Some((o, _)) => o.qualified_name@,
    }
}

/// The attestation structure. An anonymous signature leaves out the signer.
#[verifier::opaque]
pub open spec fn structure_of(
    by: Option<(Object, Scheme)>,
    extra: Seq<u8>,
    show: (ClockInfo, u64),
    a: AttestedView,
) -> AttestView {
    AttestView {
        qualified_signer: match by {
            Some((o, _)) => if unnamed(by) {
                Seq::empty()
            } else {
                o.qualified_name@
            },
            None => Seq::empty(),
        },
        extra_data: extra,
        clock_info: show.0,
        firmware_version: show.1,
        attested: attested_by(by, a),
    }
}

/// What is signed of an attestation. For an anonymous signature the structure
/// is hashed without the caller's data, which is hashed in front of it.
pub open spec fn attest_digest(scheme: Scheme, h: u16, v: AttestView) -> Seq<u8> {
    if anonymous(scheme.scheme) {
        let blinded = AttestView {
            qualified_signer: Seq::empty(),
            extra_data: Seq::empty(),
            ..v
        };
        hash_of(h, v.extra_data + hash_of(h, blinded.octets()))
    } else {
        hash_of(h, v.octets())
    }
}

/// The error of a signature, for a command whose parameter `n` is the scheme.
pub open spec fn scheme_error(e: TpmRc, n: int) -> TpmRc {
    if e == TpmRc(rc::SCHEME).for_parameter(2) {
        TpmRc(rc::SCHEME).for_parameter(n)
    } else {
        e
    }
}

/// The signature of an attestation, and what the generator is left with.
#[verifier::opaque]
pub open spec fn attest_signature(
    m: RngModel,
    by: Option<(Object, Scheme)>,
    v: AttestView,
    parameter: int,
) -> (TpmResult<(u16, SignatureView)>, RngModel) {
    match by {
        None => (Ok((alg::NULL, SignatureView::Empty)), m),
        Some((o, scheme)) => match scheme.spec_hash_alg() {
            None => (Err(TpmRc(rc::SCHEME).for_parameter(1)), m),
            Some(h) => if !supported(h) {
                (Err(TpmRc(rc::HASH)), m)
            } else {
                match signature_made(m, o@, scheme, attest_digest(scheme, h, v)) {
                    (Err(e), left) => (Err(scheme_error(e, parameter)), left),
                    (Ok(s), left) => (Ok(s), left),
                }
            },
        },
    }
}

/// An attestation and its signature, and what the generator is left with.
#[verifier::opaque]
pub open spec fn attestation(
    state: TpmState,
    sign_handle: u32,
    number: int,
    supplied: Scheme,
    extra: Seq<u8>,
    a: AttestedView,
    parameter: int,
) -> (TpmResult<(Seq<u8>, u16, SignatureView)>, RngModel) {
    let m = state.rng.model();
    match signer(state, sign_handle, number, supplied, parameter) {
        Err(e) => (Err(e), m),
        Ok(by) => match shown(state, sign_handle, hiding_name(by)) {
            Err(e) => (Err(e), m),
            Ok(show) => {
                let v = structure_of(by, extra, show, a);
                match attest_signature(m, by, v, parameter) {
                    (Err(e), left) => (Err(e), left),
                    (Ok(s), left) => (Ok((v.octets(), s.0, s.1)), left),
                }
            },
        },
    }
}

/// What is signed of an attestation.
fn digest_to_sign(scheme: &Scheme, hash_alg: u16, attest: &Attest, body: &[u8]) -> (r: TpmResult<
    Vec<u8>,
>)
    requires
        body@ == attest@.octets(),
        attest.attested.wf(),
        attest.magic == st::GENERATED_VALUE,
    ensures
        r is Ok <==> supported(hash_alg),
        r is Ok ==> r->Ok_0@ == attest_digest(*scheme, hash_alg, attest@),
        r is Err ==> r->Err_0 == TpmRc(rc::HASH),
{
    if !is_anonymous(scheme.scheme) {
        return digest(hash_alg, body);
    }
    let mut w: Writer = Writer::new();
    w.u32(attest.magic);
    w.u16(attest.attested.tag());
    w.u16(0);
    w.u16(0);
    attest.clock_info.marshal(&mut w);
    w.u64(attest.firmware_version);
    attest.attested.marshal(&mut w);
    proof {
        reveal(AttestView::octets);
        let blinded = AttestView {
            qualified_signer: Seq::empty(),
            extra_data: Seq::empty(),
            ..attest@
        };
        assert(sized(Seq::<u8>::empty()) =~= octets16(0));
        assert(w.written() =~= blinded.octets());
    }
    let inner: Vec<u8> = digest(hash_alg, w.into_vec().as_slice())?;
    let mut data: Vec<u8> = attest.extra_data.to_vec();
    data.extend_from_slice(inner.as_slice());
    assert(data@ =~= attest@.extra_data + inner@);
    digest(hash_alg, data.as_slice())
}

/// The key that signs and its scheme.
fn choose_signer(state: &TpmState, h: u32, number: usize, supplied: &Scheme, parameter: usize) -> (r:
    TpmResult<Option<(Object, Scheme)>>)
    requires
        state.wf(),
    ensures
        match signer(*state, h, number as int, *supplied, parameter as int) {
            Err(e) => r is Err && r->Err_0 == e,
            Ok(None) => r is Ok && r->Ok_0 is None,
            Ok(Some((o, scheme))) => {
                &&& r is Ok
                &&& r->Ok_0 is Some
                &&& (r->Ok_0->Some_0).0@ == o@
                &&& (r->Ok_0->Some_0).1 == scheme
                &&& o.wf()
            },
        },
{
    proof {
        reveal(signer);
    }
    if h == rh::NULL {
        return Ok(None);
    }
    let object: Object = match signing_object(state, h) {
        Ok(o) => o,
        Err(e) => {
            return Err(e.with_handle(number));
        },
    };
    let scheme: Scheme = signing_scheme_at(&object, supplied, parameter)?;
    Ok(Some((object, scheme)))
}

/// What is attested to, without what an anonymous signature leaves out.
fn without_signer(attested: Attested, hide: bool, Ghost(by): Ghost<Option<(Object, Scheme)>>) -> (r:
    Attested)
    requires
        attested.wf(),
        hide == unnamed(by),
    ensures
        r@ == attested_by(by, attested@),
        r.wf(),
{
    match attested {
        Attested::Certify { name, qualified_name } => if hide {
            Attested::Certify { name, qualified_name: Tpm2bName::empty() }
        } else {
            Attested::Certify { name, qualified_name }
        },
        other => other,
    }
}

/// Sign an attestation, when there is a key to sign it with.
fn sign_attestation(
    state: &mut TpmState,
    by: Option<(Object, Scheme)>,
    attest: &Attest,
    body: &[u8],
    scheme_parameter: usize,
    Ghost(named): Ghost<Option<(Object, Scheme)>>,
) -> (r: TpmResult<TpmtSignature>)
    requires
        body@ == attest@.octets(),
        attest.attested.wf(),
        attest.magic == st::GENERATED_VALUE,
        match named {
            None => by is None,
            Some((o, scheme)) => by is Some && (by->Some_0).0@ == o@ && (by->Some_0).1 == scheme,
        },
    ensures
        *final(state) == (TpmState { rng: final(state).rng, ..*old(state) }),
        ({
            let out = attest_signature(
                old(state).rng.model(),
                named,
                attest@,
                scheme_parameter as int,
            );
            &&& final(state).rng.model() == out.1
            &&& match out.0 {
                Err(e) => r is Err && r->Err_0 == e,
                Ok(v) => r is Ok && r->Ok_0.sig_alg == v.0 && r->Ok_0.signature@ == v.1
                    && r->Ok_0.wf(),
            }
        }),
{
    proof {
        reveal(attest_signature);
    }
    match by {
        None => Ok(TpmtSignature::null()),
        Some((object, scheme)) => {
            let hash_alg: u16 = match scheme.hash_alg() {
                Some(h) => h,
                None => {
                    return Err(TpmRc(rc::SCHEME).with_parameter(1));
                },
            };
            let d: Vec<u8> = digest_to_sign(&scheme, hash_alg, attest, body)?;
            match sign_digest(state, &object, &scheme, d.as_slice()) {
                Ok(s) => Ok(s),
                Err(e) => {
                    let second: TpmRc = TpmRc(rc::SCHEME).with_parameter(2);
                    if e.0 == second.0 {
                        Err(TpmRc(rc::SCHEME).with_parameter(scheme_parameter))
                    } else {
                        Err(e)
                    }
                },
            }
        },
    }
}

/// The attestation structure.
fn build_attest(
    state: &TpmState,
    sign_handle: u32,
    by: &Option<(Object, Scheme)>,
    extra_data: &Tpm2bData,
    attested: Attested,
    Ghost(named): Ghost<Option<(Object, Scheme)>>,
) -> (r: TpmResult<Attest>)
    requires
        state.wf(),
        attested.wf(),
        match named {
            None => by is None,
            Some((o, scheme)) => by is Some && (by->Some_0).0@ == o@ && (by->Some_0).1 == scheme
                && o.wf(),
        },
    ensures
        match shown(*state, sign_handle, hiding_name(named)) {
            Err(e) => r is Err && r->Err_0 == e,
            Ok(show) => {
                &&& r is Ok
                &&& r->Ok_0@ == structure_of(named, extra_data@, show, attested@)
                &&& r->Ok_0.magic == st::GENERATED_VALUE
                &&& r->Ok_0.attested.wf()
            },
        },
{
    proof {
        reveal(structure_of);
    }
    let (hide, signed, qualified_name) = match by {
        Some((o, scheme)) => (
            is_anonymous(scheme.scheme),
            true,
            to_vec(o.qualified_name.as_slice()),
        ),
        None => {
            let mut v: Vec<u8> = Vec::new();
            push_be32(&mut v, rh::NULL);
            assert(v@ =~= octets32(rh::NULL));
            (false, false, v)
        },
    };
    assert(qualified_name@ == hiding_name(named));
    let (clock, firmware) = obfuscated(state, sign_handle, qualified_name.as_slice())?;
    let qualified_signer: Tpm2bName = if !signed || hide {
        Tpm2bName::empty()
    } else {
        Tpm2bName::new(qualified_name)?
    };
    let extra: Tpm2bData = Tpm2bData::new(extra_data.to_vec())?;
    Ok(
        Attest::new(
            qualified_signer,
            extra,
            clock,
            firmware,
            without_signer(attested, hide, Ghost(named)),
        ),
    )
}

/// Build and sign an attestation structure. With TPM_RH_NULL as the key the
/// structure is returned without a signature.
pub fn attest_and_sign(
    state: &mut TpmState,
    sign_handle: u32,
    sign_handle_number: usize,
    in_scheme: &Scheme,
    extra_data: &Tpm2bData,
    attested: Attested,
    scheme_parameter: usize,
) -> (r: TpmResult<(Tpm2bAttest, TpmtSignature)>)
    requires
        old(state).wf(),
        attested.wf(),
    ensures
        final(state).wf(),
        *final(state) == (TpmState { rng: final(state).rng, ..*old(state) }),
        ({
            let out = attestation(
                *old(state),
                sign_handle,
                sign_handle_number as int,
                *in_scheme,
                extra_data@,
                attested@,
                scheme_parameter as int,
            );
            &&& final(state).rng.model() == out.1
            &&& match out.0 {
                Err(e) => r is Err && r->Err_0 == e,
                Ok(v) => {
                    &&& r is Ok
                    &&& (r->Ok_0).0@ == v.0
                    &&& (r->Ok_0).1.sig_alg == v.1
                    &&& (r->Ok_0).1.signature@ == v.2
                    &&& (r->Ok_0).1.wf()
                },
            }
        }),
{
    proof {
        reveal(attestation);
    }
    let by: Option<(Object, Scheme)> = choose_signer(
        state,
        sign_handle,
        sign_handle_number,
        in_scheme,
        scheme_parameter,
    )?;
    let ghost named = signer(
        *state,
        sign_handle,
        sign_handle_number as int,
        *in_scheme,
        scheme_parameter as int,
    )->Ok_0;
    let attest: Attest = build_attest(
        state,
        sign_handle,
        &by,
        extra_data,
        attested,
        Ghost(named),
    )?;
    let body: Vec<u8> = attest.to_bytes();
    let signature: TpmtSignature = sign_attestation(
        state,
        by,
        &attest,
        body.as_slice(),
        scheme_parameter,
        Ghost(named),
    )?;
    Ok((Tpm2bAttest::new(body)?, signature))
}

/// No ticket vouches for data that starts as an attestation does, so that a
/// restricted key signs an attestation only when this TPM made it.
pub proof fn law_an_attestation_has_no_hash_ticket(
    state: TpmState,
    hierarchy: u32,
    hash_alg: u16,
    v: AttestView,
    d: Seq<u8>,
)
    ensures
        hash_ticket_of(state, hierarchy, hash_alg, v.octets(), d) == Ok::<TicketView, TpmRc>(
            TicketView::null(st::HASHCHECK),
        ),
        !hash_ticket_holds(state, TicketView::null(st::HASHCHECK), hash_alg, d),
{
    let octets = v.octets();
    reveal(AttestView::octets);
    lemma_octets32(st::GENERATED_VALUE);
    assert(octets.len() >= 4);
    assert(octets.subrange(0, 4) =~= octets32(st::GENERATED_VALUE));
    assert(octets[0] == octets.subrange(0, 4)[0]);
    assert(octets[1] == octets.subrange(0, 4)[1]);
    assert(octets[2] == octets.subrange(0, 4)[2]);
    assert(octets[3] == octets.subrange(0, 4)[3]);
    assert(be32(octets, 0) == be32(octets32(st::GENERATED_VALUE), 0));
}

/// A command that attests to something, or is refused before it does. `check`
/// gives the key, its scheme, the caller's data and what is attested to.
pub open spec fn attests(
    after: TpmState,
    before: TpmState,
    check: TpmResult<(u32, Scheme, Seq<u8>, AttestedView)>,
    number: int,
    parameter: int,
    r: TpmResult<Response>,
) -> bool {
    match check {
        Err(e) => after == before && fails(r, e),
        Ok((h, scheme, extra, a)) => {
            let out = attestation(before, h, number, scheme, extra, a, parameter);
            &&& after == (TpmState { rng: after.rng, ..before })
            &&& after.rng.model() == out.1
            &&& match out.0 {
                Err(e) => fails(r, e),
                Ok((body, sig_alg, sig)) => answers_with(
                    r,
                    sized(body) + octets16(sig_alg) + sig.octets(),
                ),
            }
        },
    }
}

/// Attest and answer with the structure and its signature.
fn answer_attested(
    state: &mut TpmState,
    sign_handle: u32,
    number: usize,
    in_scheme: &Scheme,
    extra_data: &Tpm2bData,
    attested: Attested,
    parameter: usize,
) -> (r: TpmResult<Response>)
    requires
        old(state).wf(),
        attested.wf(),
    ensures
        final(state).wf(),
        attests(
            *final(state),
            *old(state),
            Ok((sign_handle, *in_scheme, extra_data@, attested@)),
            number as int,
            parameter as int,
            r,
        ),
{
    let (info, signature) = attest_and_sign(
        state,
        sign_handle,
        number,
        in_scheme,
        extra_data,
        attested,
        parameter,
    )?;
    let mut w: Writer = Writer::new();
    info.marshal(&mut w);
    signature.marshal(&mut w);
    assert(w.written() =~= sized(info@) + octets16(signature.sig_alg)
        + signature.signature@.octets());
    respond(w)
}

/// The caller's data and the scheme, parameter `n`, that most of the commands
/// are given.
pub open spec fn attest_input(p: Seq<u8>, n: int) -> Parsed<(Seq<u8>, Scheme)> {
    match in_sized(p, 0, 66, 1) {
        Err(e) => Err(e),
        Ok((extra, at)) => match numbered(Scheme::parse(p, at, SchemeUse::Signature), n) {
            Err(e) => Err(e),
            Ok((scheme, end)) => Ok(((extra, scheme), end)),
        },
    }
}

/// Read the caller's data and the scheme.
fn read_attest_input(r: &mut Reader) -> (out: TpmResult<(Tpm2bData, Scheme)>)
    requires
        old(r).at() == 0,
    ensures
        final(r).data() == old(r).data(),
        0 <= old(r).at() <= final(r).at() <= final(r).data().len(),
        match attest_input(old(r).data(), 2) {
            Ok((v, next)) => {
                &&& out is Ok
                &&& (out->Ok_0).0@ == v.0
                &&& (out->Ok_0).1 == v.1
                &&& final(r).at() == next
            },
            Err(e) => out is Err && out->Err_0 == e,
        },
{
    let extra: Tpm2bData = at_parameter(Tpm2bData::unmarshal(r), 1)?;
    let scheme: Scheme = at_parameter(Scheme::unmarshal(r, SchemeUse::Signature), 2)?;
    Ok((extra, scheme))
}

/// What TPM2_Certify attests to.
pub open spec fn certify_check(state: TpmState, req: RequestView) -> TpmResult<
    (u32, Scheme, Seq<u8>, AttestedView),
> {
    match (
        req.handle(0),
        req.handle(1),
        alone(req.parameters, attest_input(req.parameters, 2)),
    ) {
        (Err(e), _, _) => Err(e),
        (_, Err(e), _) => Err(e),
        (_, _, Err(e)) => Err(e),
        (Ok(h), Ok(sign), Ok((extra, scheme))) => match object_named(state, h) {
            Err(e) => Err(e.for_handle(1)),
            Ok(o) => Ok(
                (
                    sign,
                    scheme,
                    extra,
                    AttestedView::Certify { name: o.name@, qualified_name: o.qualified_name@ },
                ),
            ),
        },
    }
}

/// TPM2_Certify: attest that an object is loaded.
pub fn certify(state: &mut TpmState, request: &Request) -> (r: TpmResult<Response>)
    requires
        old(state).wf(),
    ensures
        final(state).wf(),
        attests(*final(state), *old(state), certify_check(*old(state), request@), 2, 2, r),
{
    let object_handle: u32 = request.handle(0)?;
    let sign_handle: u32 = request.handle(1)?;
    let mut reader: Reader = request.reader();
    let (extra, in_scheme) = read_attest_input(&mut reader)?;
    reader.expect_end()?;
    let attested: Attested = match object_of(state, object_handle) {
        Ok(o) => Attested::Certify {
            name: Tpm2bName::from_slice(o.name.as_slice())?,
            qualified_name: Tpm2bName::from_slice(o.qualified_name.as_slice())?,
        },
        Err(e) => {
            return Err(e.with_handle(1));
        },
    };
    answer_attested(state, sign_handle, 2, &in_scheme, &extra, attested, 2)
}

/// The parameters of TPM2_CertifyCreation: the caller's data, the digest of the
/// creation data, the scheme and the ticket.
pub open spec fn creation_input(p: Seq<u8>) -> Parsed<(Seq<u8>, Seq<u8>, Scheme, TicketView)> {
    match in_sized(p, 0, 66, 1) {
        Err(e) => Err(e),
        Ok((extra, n1)) => match in_sized(p, n1, 64, 2) {
            Err(e) => Err(e),
            Ok((d, n2)) => match numbered(Scheme::parse(p, n2, SchemeUse::Signature), 3) {
                Err(e) => Err(e),
                Ok((scheme, n3)) => match numbered(
                    TicketView::parse(p, n3, st::CREATION, st::CREATION),
                    4,
                ) {
                    Err(e) => Err(e),
                    Ok((ticket, n4)) => Ok(((extra, d, scheme, ticket), n4)),
                },
            },
        },
    }
}

/// What TPM2_CertifyCreation attests to. The ticket has to be the one that this
/// TPM made for the object and its creation data.
pub open spec fn certify_creation_check(state: TpmState, req: RequestView) -> TpmResult<
    (u32, Scheme, Seq<u8>, AttestedView),
> {
    match (
        req.handle(0),
        req.handle(1),
        alone(req.parameters, creation_input(req.parameters)),
    ) {
        (Err(e), _, _) => Err(e),
        (_, Err(e), _) => Err(e),
        (_, _, Err(e)) => Err(e),
        (Ok(sign), Ok(h), Ok((extra, d, scheme, ticket))) => match object_named(state, h) {
            Err(e) => Err(e.for_handle(2)),
            Ok(o) => if !is_hierarchy(ticket.hierarchy) || ticket.digest != creation_hmac(
                state.hierarchies.spec_get(ticket.hierarchy).proof_value@,
                o.name@,
                d,
            ) {
                Err(TpmRc(rc::TICKET).for_parameter(4))
            } else {
                Ok(
                    (
                        sign,
                        scheme,
                        extra,
                        AttestedView::Creation { object_name: o.name@, creation_hash: d },
                    ),
                )
            },
        },
    }
}

/// Check that a creation ticket is the one this TPM made.
fn check_creation_ticket(state: &TpmState, name: &[u8], d: &[u8], ticket: &Ticket) -> (r: TpmResult<
    (),
>)
    ensures
        r is Ok <==> is_hierarchy(ticket.hierarchy) && ticket@.digest == creation_hmac(
            state.hierarchies.spec_get(ticket.hierarchy).proof_value@,
            name@,
            d@,
        ),
        r is Err ==> r->Err_0 == TpmRc(rc::TICKET).for_parameter(4),
{
    match state.hierarchy_proof(ticket.hierarchy) {
        Err(_) => Err(TpmRc(rc::TICKET).with_parameter(4)),
        Ok(proof_value) => {
            let expected: Vec<u8> = creation_mac(proof_value, name, d);
            if !constant_time_eq(expected.as_slice(), ticket.digest.as_slice()) {
                return Err(TpmRc(rc::TICKET).with_parameter(4));
            }
            Ok(())
        },
    }
}

/// TPM2_CertifyCreation: attest that this TPM created an object, and how.
pub fn certify_creation(state: &mut TpmState, request: &Request) -> (r: TpmResult<Response>)
    requires
        old(state).wf(),
    ensures
        final(state).wf(),
        attests(*final(state), *old(state), certify_creation_check(*old(state), request@), 1, 3, r),
{
    let sign_handle: u32 = request.handle(0)?;
    let object_handle: u32 = request.handle(1)?;
    let mut reader: Reader = request.reader();
    let extra: Tpm2bData = at_parameter(Tpm2bData::unmarshal(&mut reader), 1)?;
    let creation_hash: Tpm2bDigest = at_parameter(Tpm2bDigest::unmarshal(&mut reader), 2)?;
    let in_scheme: Scheme = at_parameter(
        Scheme::unmarshal(&mut reader, SchemeUse::Signature),
        3,
    )?;
    let ticket: Ticket = at_parameter(
        Ticket::unmarshal_tagged(&mut reader, st::CREATION, st::CREATION),
        4,
    )?;
    reader.expect_end()?;
    let object_name: Tpm2bName = match object_of(state, object_handle) {
        Ok(o) => Tpm2bName::from_slice(o.name.as_slice())?,
        Err(e) => {
            return Err(e.with_handle(2));
        },
    };
    check_creation_ticket(state, object_name.as_slice(), creation_hash.as_slice(), &ticket)?;
    answer_attested(
        state,
        sign_handle,
        1,
        &in_scheme,
        &extra,
        Attested::Creation { object_name, creation_hash },
        3,
    )
}

/// The ticket that this TPM gave with an object is accepted for the object and
/// the digest of its creation data, as long as the proof of the hierarchy is
/// the same. With another digest it is refused, unless both give one HMAC.
pub proof fn law_a_creation_ticket_is_accepted(
    before: TpmState,
    state: TpmState,
    req: RequestView,
    hierarchy: u32,
    o: Object,
    made: Seq<u8>,
    sign: u32,
    h: u32,
    extra: Seq<u8>,
    scheme: Scheme,
    d: Seq<u8>,
)
    requires
        hierarchy != rh::NULL,
        creation_ticket_of(before, hierarchy, o.name@, made) is Ok,
        state.hierarchies.spec_get(hierarchy).proof_value@ == before.hierarchies.spec_get(
            hierarchy,
        ).proof_value@,
        req.handle(0) == Ok::<u32, TpmRc>(sign),
        req.handle(1) == Ok::<u32, TpmRc>(h),
        object_named(state, h) == Ok::<Object, TpmRc>(o),
        alone(req.parameters, creation_input(req.parameters)) == Ok::<
            (Seq<u8>, Seq<u8>, Scheme, TicketView),
            TpmRc,
        >((extra, d, scheme, creation_ticket_of(before, hierarchy, o.name@, made)->Ok_0)),
    ensures
        d == made ==> certify_creation_check(state, req) == Ok::<
            (u32, Scheme, Seq<u8>, AttestedView),
            TpmRc,
        >((sign, scheme, extra, AttestedView::Creation { object_name: o.name@, creation_hash: d })),
        ({
            let proof_value = state.hierarchies.spec_get(hierarchy).proof_value@;
            creation_hmac(proof_value, o.name@, d) != creation_hmac(proof_value, o.name@, made)
                ==> certify_creation_check(state, req) == Err::<
                (u32, Scheme, Seq<u8>, AttestedView),
                TpmRc,
            >(TpmRc(rc::TICKET).for_parameter(4))
        }),
{
}

/// The hash of the scheme that the key signs with, or of the caller's scheme
/// where nothing is signed.
pub open spec fn quote_hash(state: TpmState, sign: u32, supplied: Scheme) -> TpmResult<u16> {
    match signer(state, sign, 1, supplied, 2) {
        Err(e) => Err(e),
        Ok(by) => {
            let scheme = match by {
                None => supplied,
                Some((_, scheme)) => scheme,
            };
            match scheme.spec_hash_alg() {
                None => Err(TpmRc(rc::SCHEME).for_parameter(2)),
                Some(h) => Ok(h),
            }
        },
    }
}

/// The hash of the scheme that the key signs with.
fn hash_of_scheme(state: &TpmState, sign: u32, supplied: &Scheme) -> (r: TpmResult<u16>)
    requires
        state.wf(),
    ensures
        r == quote_hash(*state, sign, *supplied),
{
    let by: Option<(Object, Scheme)> = choose_signer(state, sign, 1, supplied, 2)?;
    let h: Option<u16> = match &by {
        None => supplied.hash_alg(),
        Some((_, scheme)) => scheme.hash_alg(),
    };
    match h {
        None => Err(TpmRc(rc::SCHEME).with_parameter(2)),
        Some(h) => Ok(h),
    }
}

/// The parameters of TPM2_Quote.
pub open spec fn quote_input(p: Seq<u8>) -> Parsed<(Seq<u8>, Scheme, Seq<PcrSelection>)> {
    match attest_input(p, 2) {
        Err(e) => Err(e),
        Ok(((extra, scheme), at)) => match numbered(TpmlPcrSelection::parse(p, at), 3) {
            Err(e) => Err(e),
            Ok((selection, end)) => Ok(((extra, scheme, selection), end)),
        },
    }
}

/// What TPM2_Quote attests to: the registers there are of those selected, and
/// the digest over their values.
pub open spec fn quote_check(state: TpmState, req: RequestView) -> TpmResult<
    (u32, Scheme, Seq<u8>, AttestedView),
> {
    match (req.handle(0), alone(req.parameters, quote_input(req.parameters))) {
        (Err(e), _) => Err(e),
        (_, Err(e)) => Err(e),
        (Ok(sign), Ok((extra, scheme, selection))) => match quote_hash(state, sign, scheme) {
            Err(e) => Err(e),
            Ok(h) => {
                let filtered = selection.map_values(|s: PcrSelection| state.pcr.filtered(s));
                if !supported(h) {
                    Err(TpmRc(rc::HASH))
                } else {
                    Ok(
                        (
                            sign,
                            scheme,
                            extra,
                            AttestedView::Quote {
                                pcr_select: filtered,
                                pcr_digest: state.pcr.digest_over(h, filtered),
                            },
                        ),
                    )
                }
            },
        },
    }
}

/// TPM2_Quote: attest to the values of registers.
pub fn quote(state: &mut TpmState, request: &Request) -> (r: TpmResult<Response>)
    requires
        old(state).wf(),
    ensures
        final(state).wf(),
        attests(*final(state), *old(state), quote_check(*old(state), request@), 1, 2, r),
{
    broadcast use lemma_hash_len;

    let sign_handle: u32 = request.handle(0)?;
    let mut reader: Reader = request.reader();
    let (extra, in_scheme) = read_attest_input(&mut reader)?;
    let selection: TpmlPcrSelection = at_parameter(TpmlPcrSelection::unmarshal(&mut reader), 3)?;
    reader.expect_end()?;
    let hash_alg: u16 = hash_of_scheme(state, sign_handle, &in_scheme)?;
    let filtered: Vec<PcrSelection> = state.pcr.filter_selection(selection.items.as_slice());
    let pcr_digest: Vec<u8> = state.pcr.selection_digest(hash_alg, filtered.as_slice())?;
    let attested: Attested = Attested::Quote {
        pcr_select: TpmlPcrSelection { items: filtered },
        pcr_digest: Tpm2bDigest::new(pcr_digest)?,
    };
    answer_attested(state, sign_handle, 1, &in_scheme, &extra, attested, 2)
}

/// What TPM2_GetTime attests to.
pub open spec fn get_time_check(state: TpmState, req: RequestView) -> TpmResult<
    (u32, Scheme, Seq<u8>, AttestedView),
> {
    match (req.handle(1), alone(req.parameters, attest_input(req.parameters, 2))) {
        (Err(e), _) => Err(e),
        (_, Err(e)) => Err(e),
        (Ok(sign), Ok((extra, scheme))) => Ok(
            (
                sign,
                scheme,
                extra,
                AttestedView::Time {
                    time: TimeInfo { time: state.clock.time, clock_info: clock_info_of(state) },
                    firmware_version: config::FIRMWARE_VERSION_1 as u64,
                },
            ),
        ),
    }
}

/// TPM2_GetTime: attest to Time and Clock.
pub fn get_time(state: &mut TpmState, request: &Request) -> (r: TpmResult<Response>)
    requires
        old(state).wf(),
    ensures
        final(state).wf(),
        attests(*final(state), *old(state), get_time_check(*old(state), request@), 2, 2, r),
{
    let sign_handle: u32 = request.handle(1)?;
    let mut reader: Reader = request.reader();
    let (extra, in_scheme) = read_attest_input(&mut reader)?;
    reader.expect_end()?;
    let attested: Attested = Attested::Time {
        time: TimeInfo { time: state.clock.time, clock_info: clock_info(state) },
        firmware_version: config::FIRMWARE_VERSION_1 as u64,
    };
    answer_attested(state, sign_handle, 2, &in_scheme, &extra, attested, 2)
}

/// The parameters of TPM2_NV_Certify.
pub open spec fn nv_certify_input(p: Seq<u8>) -> Parsed<(Seq<u8>, Scheme, u16, u16)> {
    match attest_input(p, 2) {
        Err(e) => Err(e),
        Ok(((extra, scheme), at)) => match in_u16(p, at, 3) {
            Err(e) => Err(e),
            Ok((size, n)) => match in_u16(p, n, 4) {
                Err(e) => Err(e),
                Ok((offset, end)) => Ok(((extra, scheme, size, offset), end)),
            },
        },
    }
}

/// What is attested to of an Index: some of its octets, or the digest over all
/// of them when neither a size nor an offset is given.
pub open spec fn index_attested(
    state: TpmState,
    i: NvIndex,
    sign: u32,
    scheme: Scheme,
    size: u16,
    offset: u16,
) -> TpmResult<AttestedView> {
    if size == 0 && offset == 0 {
        if !i.written() {
            Err(TpmRc(rc::NV_UNINITIALIZED))
        } else {
            match quote_hash(state, sign, scheme) {
                Err(e) => Err(e),
                Ok(h) => if !supported(h) {
                    Err(TpmRc(rc::HASH))
                } else {
                    Ok(
                        AttestedView::NvDigest {
                            index_name: i.name_of(),
                            nv_digest: hash_of(h, i.data@),
                        },
                    )
                },
            }
        }
    } else {
        match i.reading(offset, size) {
            Err(e) => Err(e),
            Ok(v) => if v.len() > config::MAX_NV_BUFFER_SIZE {
                Err(TpmRc(rc::SIZE))
            } else {
                Ok(AttestedView::Nv { index_name: i.name_of(), offset, nv_contents: v })
            },
        }
    }
}

/// What TPM2_NV_Certify attests to.
pub open spec fn nv_certify_check(state: TpmState, req: RequestView) -> TpmResult<
    (u32, Scheme, Seq<u8>, AttestedView),
> {
    match (
        req.handle(0),
        req.handle(1),
        req.handle(2),
        alone(req.parameters, nv_certify_input(req.parameters)),
    ) {
        (Err(e), _, _, _) => Err(e),
        (_, Err(e), _, _) => Err(e),
        (_, _, Err(e), _) => Err(e),
        (_, _, _, Err(e)) => Err(e),
        (Ok(sign), Ok(auth), Ok(h), Ok((extra, scheme, size, offset))) => {
            let i = state.nv.indices@[h];
            if !state.nv.indices@.contains_key(h) {
                Err(TpmRc(rc::HANDLE).for_handle(3))
            } else if !may_read(i, auth, by_policy(state, req.sessions, 1)) {
                Err(TpmRc(rc::NV_AUTHORIZATION).for_handle(2))
            } else if i.read_locked {
                Err(TpmRc(rc::NV_LOCKED))
            } else {
                match index_attested(state, i, sign, scheme, size, offset) {
                    Err(e) => Err(e),
                    Ok(a) => Ok((sign, scheme, extra, a)),
                }
            }
        },
    }
}

/// What is attested to of an Index.
fn attest_index(
    state: &TpmState,
    index: &NvIndex,
    sign: u32,
    scheme: &Scheme,
    size: u16,
    offset: u16,
) -> (r: TpmResult<Attested>)
    requires
        state.wf(),
        index.wf(),
    ensures
        match index_attested(*state, *index, sign, *scheme, size, offset) {
            Ok(a) => r is Ok && r->Ok_0@ == a && r->Ok_0.wf(),
            Err(e) => r is Err && r->Err_0 == e,
        },
{
    broadcast use lemma_hash_len;

    let index_name: Tpm2bName = Tpm2bName::new(index.name())?;
    if size == 0 && offset == 0 {
        if !index.written() {
            return Err(TpmRc(rc::NV_UNINITIALIZED));
        }
        let hash_alg: u16 = hash_of_scheme(state, sign, scheme)?;
        let d: Vec<u8> = digest(hash_alg, index.data.as_slice())?;
        return Ok(Attested::NvDigest { index_name, nv_digest: Tpm2bDigest::new(d)? });
    }
    let data: Vec<u8> = index.read(offset, size)?;
    Ok(Attested::Nv { index_name, offset, nv_contents: Tpm2bMaxNvBuffer::new(data)? })
}

/// TPM2_NV_Certify: attest to the contents of an Index.
pub fn nv_certify(state: &mut TpmState, request: &Request) -> (r: TpmResult<Response>)
    requires
        old(state).wf(),
    ensures
        final(state).wf(),
        attests(*final(state), *old(state), nv_certify_check(*old(state), request@), 1, 2, r),
{
    let sign_handle: u32 = request.handle(0)?;
    let auth_handle: u32 = request.handle(1)?;
    let nv_handle: u32 = request.handle(2)?;
    let mut reader: Reader = request.reader();
    let (extra, in_scheme) = read_attest_input(&mut reader)?;
    let size: u16 = read_u16(&mut reader, 3)?;
    let offset: u16 = read_u16(&mut reader, 4)?;
    reader.expect_end()?;
    let index: &NvIndex = match state.nv.get(nv_handle) {
        Ok(i) => i,
        Err(e) => {
            return Err(e.with_handle(3));
        },
    };
    let is_policy: bool = auth_is_policy(state, request, 1);
    match check_read_authority(index, auth_handle, is_policy) {
        Ok(_) => {},
        Err(e) => {
            return Err(e.with_handle(2));
        },
    }
    if index.read_locked {
        return Err(TpmRc(rc::NV_LOCKED));
    }
    let attested: Attested = attest_index(state, index, sign_handle, &in_scheme, size, offset)?;
    answer_attested(state, sign_handle, 1, &in_scheme, &extra, attested, 2)
}

/// What TPM2_GetSessionAuditDigest attests to.
pub open spec fn session_audit_check(state: TpmState, req: RequestView) -> TpmResult<
    (u32, Scheme, Seq<u8>, AttestedView),
> {
    match (
        req.handle(1),
        req.handle(2),
        alone(req.parameters, attest_input(req.parameters, 2)),
    ) {
        (Err(e), _, _) => Err(e),
        (_, Err(e), _) => Err(e),
        (_, _, Err(e)) => Err(e),
        (Ok(sign), Ok(h), Ok((extra, scheme))) => {
            let s = state.sessions.loaded@[h];
            if !state.sessions.loaded@.contains_key(h) {
                Err(TpmRc(rc::HANDLE).for_handle(3))
            } else if !s.audit.is_audit {
                Err(TpmRc(rc::TYPE).for_handle(3))
            } else {
                Ok(
                    (
                        sign,
                        scheme,
                        extra,
                        AttestedView::SessionAudit {
                            exclusive_session: state.audit.exclusive_session == h,
                            session_digest: s.audit.digest@,
                        },
                    ),
                )
            }
        },
    }
}

/// TPM2_GetSessionAuditDigest: attest to the commands a session audited.
pub fn get_session_audit_digest(state: &mut TpmState, request: &Request) -> (r: TpmResult<Response>)
    requires
        old(state).wf(),
    ensures
        final(state).wf(),
        attests(*final(state), *old(state), session_audit_check(*old(state), request@), 2, 2, r),
{
    let sign_handle: u32 = request.handle(1)?;
    let session_handle: u32 = request.handle(2)?;
    let mut reader: Reader = request.reader();
    let (extra, in_scheme) = read_attest_input(&mut reader)?;
    reader.expect_end()?;
    let session: &Session = match state.sessions.get(session_handle) {
        Ok(s) => s,
        Err(e) => {
            return Err(e.with_handle(3));
        },
    };
    if !session.audit.is_audit {
        return Err(TpmRc(rc::TYPE).with_handle(3));
    }
    let attested: Attested = Attested::SessionAudit {
        exclusive_session: state.audit.exclusive_session == session_handle,
        session_digest: Tpm2bDigest::from_slice(session.audit.digest.as_slice())?,
    };
    answer_attested(state, sign_handle, 2, &in_scheme, &extra, attested, 2)
}

/// What TPM2_GetCommandAuditDigest attests to.
pub open spec fn command_audit_check(state: TpmState, req: RequestView) -> TpmResult<
    (u32, Scheme, Seq<u8>, AttestedView),
> {
    match (req.handle(1), alone(req.parameters, attest_input(req.parameters, 2))) {
        (Err(e), _) => Err(e),
        (_, Err(e)) => Err(e),
        (Ok(sign), Ok((extra, scheme))) => Ok(
            (
                sign,
                scheme,
                extra,
                AttestedView::CommandAudit {
                    audit_counter: state.audit.counter,
                    digest_alg: state.audit.alg,
                    audit_digest: state.audit.digest@,
                    command_digest: hash_of(
                        state.audit.alg,
                        TpmlCc::items_octets(state.audit.commands@),
                    ),
                },
            ),
        ),
    }
}

/// TPM2_GetCommandAuditDigest. A report that is signed ends the log; one that
/// is not leaves it running. The counter stays.
pub open spec fn get_command_audit_digest_ran(
    after: TpmState,
    before: TpmState,
    req: RequestView,
    r: TpmResult<Response>,
) -> bool {
    &&& attests(
        TpmState { audit: before.audit, ..after },
        before,
        command_audit_check(before, req),
        2,
        2,
        r,
    )
    &&& if r is Ok && req.handles[1] != rh::NULL {
        &&& after.audit == (Audit { digest: after.audit.digest, ..before.audit })
        &&& after.audit.digest@.len() == 0
    } else {
        after.audit == before.audit
    }
}

/// The codes one after the other.
fn code_octets(codes: &[u32]) -> (r: Vec<u8>)
    ensures
        r@ == TpmlCc::items_octets(codes@),
{
    let mut out: Vec<u8> = Vec::new();
    let mut i: usize = 0;
    assert(codes@.take(0) =~= Seq::<u32>::empty());
    assert(out@ =~= TpmlCc::items_octets(codes@.take(0)));
    while i < codes.len()
        invariant
            i <= codes@.len(),
            out@ == TpmlCc::items_octets(codes@.take(i as int)),
        decreases codes@.len() - i,
    {
        push_be32(&mut out, codes[i]);
        proof {
            let s = codes@.take(i + 1);
            assert(s.drop_last() =~= codes@.take(i as int));
            assert(s.last() == codes@[i as int]);
        }
        i = i + 1;
        assert(out@ =~= TpmlCc::items_octets(codes@.take(i as int)));
    }
    assert(codes@.take(i as int) =~= codes@);
    out
}

/// TPM2_GetCommandAuditDigest: attest to the commands that were audited.
pub fn get_command_audit_digest(state: &mut TpmState, request: &Request) -> (r: TpmResult<Response>)
    requires
        old(state).wf(),
    ensures
        final(state).wf(),
        get_command_audit_digest_ran(*final(state), *old(state), request@, r),
{
    broadcast use lemma_hash_len;

    let sign_handle: u32 = request.handle(1)?;
    let mut reader: Reader = request.reader();
    let (extra, in_scheme) = read_attest_input(&mut reader)?;
    reader.expect_end()?;
    let codes: Vec<u8> = code_octets(state.audit.commands.as_slice());
    let command_digest: Vec<u8> = digest(state.audit.alg, codes.as_slice())?;
    let attested: Attested = Attested::CommandAudit {
        audit_counter: state.audit.counter,
        digest_alg: state.audit.alg,
        audit_digest: Tpm2bDigest::from_slice(state.audit.digest.as_slice())?,
        command_digest: Tpm2bDigest::new(command_digest)?,
    };
    let answer: Response = answer_attested(
        state,
        sign_handle,
        2,
        &in_scheme,
        &extra,
        attested,
        2,
    )?;
    if sign_handle != rh::NULL {
        state.audit.digest.clear();
    }
    Ok(answer)
}

/// The parameters of TPM2_SetCommandCodeAuditStatus: the hash, the commands to
/// audit and those not to.
pub open spec fn audit_status_input(p: Seq<u8>) -> Parsed<(u16, Seq<u32>, Seq<u32>)> {
    match in_u16(p, 0, 1) {
        Err(e) => Err(e),
        Ok((a, n1)) => match numbered(TpmlCc::parse(p, n1), 2) {
            Err(e) => Err(e),
            Ok((set, n2)) => match numbered(TpmlCc::parse(p, n2), 3) {
                Err(e) => Err(e),
                Ok((clear, n3)) => Ok(((a, set, clear), n3)),
            },
        },
    }
}

/// TPM2_SetCommandCodeAuditStatus. One command changes the hash or the list,
/// never both. A command that is not there is passed over, a command in both
/// lists ends up not audited, and this command is always audited.
pub open spec fn set_command_code_audit_status_ran(
    after: TpmState,
    before: TpmState,
    req: RequestView,
    r: TpmResult<Response>,
) -> bool {
    match alone(req.parameters, audit_status_input(req.parameters)) {
        Err(e) => after == before && fails(r, e),
        Ok((a, set, clear)) => if a != alg::NULL && !supported(a) {
            after == before && fails(r, TpmRc(rc::HASH).for_parameter(1))
        } else if a != alg::NULL && a != before.audit.alg {
            if set.len() != 0 || clear.len() != 0 {
                after == before && fails(r, TpmRc(rc::VALUE).for_parameter(1))
            } else {
                &&& answers_nothing(r)
                &&& after == (TpmState {
                    audit: after.audit,
                    command_audit_suppressed: true,
                    ..before
                })
                &&& after.audit == (Audit { alg: a, digest: after.audit.digest, ..before.audit })
                &&& after.audit.digest@.len() == 0
            }
        } else {
            &&& answers_nothing(r)
            &&& after == (TpmState { audit: after.audit, ..before })
            &&& after.audit == (Audit { commands: after.audit.commands, ..before.audit })
            &&& ascending(after.audit.commands@)
            &&& forall|c: u32| #[trigger]
                after.audit.commands@.contains(c) <==> (before.audit.commands@.contains(c) || (
                set.contains(c) && found(c) is Some)) && (c == cc::SetCommandCodeAuditStatus
                    || !clear.contains(c))
        },
    }
}

/// The commands that may be taken out of the list: all but the one that sets
/// it.
fn clearable(list: &[u32]) -> (r: Vec<u32>)
    ensures
        forall|c: u32| #[trigger]
            r@.contains(c) <==> list@.contains(c) && c != cc::SetCommandCodeAuditStatus,
{
    let mut out: Vec<u32> = Vec::new();
    let mut i: usize = 0;
    while i < list.len()
        invariant
            i <= list@.len(),
            forall|c: u32| #[trigger]
                out@.contains(c) <==> list@.take(i as int).contains(c) && c
                    != cc::SetCommandCodeAuditStatus,
        decreases list@.len() - i,
    {
        let ghost before = out@;
        if list[i] != cc::SetCommandCodeAuditStatus {
            out.push(list[i]);
        }
        proof {
            lemma_grown(list@, i as int);
            lemma_pushed(before, list@[i as int]);
        }
        i = i + 1;
    }
    assert(list@.take(i as int) =~= list@);
    out
}

/// The commands that are there.
fn implemented(list: &[u32]) -> (r: Vec<u32>)
    ensures
        forall|c: u32| #[trigger] r@.contains(c) <==> list@.contains(c) && found(c) is Some,
{
    let mut out: Vec<u32> = Vec::new();
    let mut i: usize = 0;
    while i < list.len()
        invariant
            i <= list@.len(),
            forall|c: u32| #[trigger]
                out@.contains(c) <==> list@.take(i as int).contains(c) && found(c) is Some,
        decreases list@.len() - i,
    {
        let ghost before = out@;
        if lookup(list[i]).is_some() {
            out.push(list[i]);
        }
        proof {
            lemma_grown(list@, i as int);
            lemma_pushed(before, list@[i as int]);
        }
        i = i + 1;
    }
    assert(list@.take(i as int) =~= list@);
    out
}

/// One more item of a list is one more that it holds.
proof fn lemma_grown(s: Seq<u32>, i: int)
    requires
        0 <= i < s.len(),
    ensures
        forall|c: u32| #[trigger]
            s.take(i + 1).contains(c) <==> s.take(i).contains(c) || c == s[i],
{
    assert(s.take(i + 1) =~= s.take(i).push(s[i]));
    lemma_pushed(s.take(i), s[i]);
}

/// A list that an item is put behind holds it.
proof fn lemma_pushed(s: Seq<u32>, x: u32)
    ensures
        forall|c: u32| #[trigger] s.push(x).contains(c) <==> s.contains(c) || c == x,
{
    assert forall|c: u32| #[trigger] s.push(x).contains(c) <==> s.contains(c) || c == x by {
        if s.contains(c) {
            let k = choose|k: int| 0 <= k < s.len() && s[k] == c;
            assert(s.push(x)[k] == c);
        }
        assert(s.push(x)[s.len() as int] == x);
    }
}

/// TPM2_SetCommandCodeAuditStatus: choose the commands that are audited.
pub fn set_command_code_audit_status(state: &mut TpmState, request: &Request) -> (r: TpmResult<
    Response,
>)
    requires
        old(state).wf(),
    ensures
        final(state).wf(),
        set_command_code_audit_status_ran(*final(state), *old(state), request@, r),
{
    let mut reader: Reader = request.reader();
    let audit_alg: u16 = read_u16(&mut reader, 1)?;
    let set_list: TpmlCc = at_parameter(TpmlCc::unmarshal(&mut reader), 2)?;
    let clear_list: TpmlCc = at_parameter(TpmlCc::unmarshal(&mut reader), 3)?;
    reader.expect_end()?;
    if audit_alg != alg::NULL && !is_supported(audit_alg) {
        return Err(TpmRc(rc::HASH).with_parameter(1));
    }
    if audit_alg != alg::NULL && audit_alg != state.audit.alg {
        if set_list.items.len() != 0 || clear_list.items.len() != 0 {
            return Err(TpmRc(rc::VALUE).with_parameter(1));
        }
        state.audit.alg = audit_alg;
        state.audit.digest.clear();
        state.command_audit_suppressed = true;
        return nothing();
    }
    let clear: Vec<u32> = clearable(clear_list.items.as_slice());
    let set: Vec<u32> = implemented(set_list.items.as_slice());
    let mut commands: Vec<u32> = Vec::new();
    put_in(&mut commands, state.audit.commands.as_slice(), clear.as_slice());
    put_in(&mut commands, set.as_slice(), clear.as_slice());
    state.audit.commands = commands;
    nothing()
}

} // verus!
