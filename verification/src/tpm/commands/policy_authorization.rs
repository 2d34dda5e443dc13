//! Policy commands that rest on somebody's authorization.

use vstd::prelude::*;

use super::dispatch::{handle_name, name_of, Request, RequestView, Response};
use super::execute::respond;
use super::policy::{assert_policy, moved, policy_at, policy_session};
use super::signatures::{
    object_named, object_of, verification, verified_hmac, verified_ticket_hmac,
    verify_digest_public,
};
use super::wire::{alone, answers_with, fails, nothing, raw_u32, take_sized};
use crate::tpm::config;
use crate::tpm::constants::range::is_transient;
use crate::tpm::constants::{cc, rc, rh, st};
use crate::tpm::crypto::hash::{digest, digest_size, hash_of, lemma_hash_len, size_of, supported};
use crate::tpm::crypto::hmac::{hmac, hmac_of, lemma_hmac_len};
use crate::tpm::engine::hierarchy::is_hierarchy;
use crate::tpm::engine::object::Object;
use crate::tpm::engine::session::{PolicyState, PolicyView, Session};
use crate::tpm::engine::state::TpmState;
use crate::tpm::error::{TpmRc, TpmResult};
use crate::tpm::marshal::{parse_sized, sized, Parsed, Reader, Writer};
use crate::tpm::structures::attributes::NvAttributes;
use crate::tpm::structures::base::Tpm2bDigest;
use crate::tpm::structures::signature::{
    SignatureView, Ticket, TicketView, TpmtSignature, VerifiedTicket, VerifiedView,
};
use crate::util::bytes::{
    be16, be64, constant_time_eq, octets16, octets32, octets64, push_be16, push_be32, push_be64,
    read_be16, read_be64, to_vec,
};

verus! {

/// The bit of a timeout that records that it also expires on a TPM Reset. A
/// timeout counts milliseconds, so the bit is never part of one.
pub const EXPIRES_ON_RESET: u64 = 0x8000_0000_0000_0000;

/// True when a timeout is not all zeros.
pub open spec fn expires(timeout: Seq<u8>) -> bool {
    exists|i: int| 0 <= i < timeout.len() && timeout[i] != 0
}

/// What an authorization ticket commits to: which counters go in depends on
/// whether it expires and on whether the authorization covered a nonce.
pub open spec fn ticket_data(
    state: TpmState,
    tag: u16,
    cp_hash_a: Seq<u8>,
    policy_ref: Seq<u8>,
    auth_name: Seq<u8>,
    timeout: Seq<u8>,
    with_nonce: bool,
) -> Seq<u8> {
    octets16(tag) + cp_hash_a + policy_ref + auth_name + timeout + (if expires(timeout) {
        octets64(state.clock.time_epoch) + (if with_nonce {
            Seq::empty()
        } else {
            octets64(state.clock.total_reset_count)
        })
    } else {
        Seq::empty()
    })
}

/// The HMAC of an authorization ticket.
pub open spec fn ticket_hmac_of(
    state: TpmState,
    hierarchy: u32,
    tag: u16,
    cp_hash_a: Seq<u8>,
    policy_ref: Seq<u8>,
    auth_name: Seq<u8>,
    timeout: Seq<u8>,
    with_nonce: bool,
) -> Seq<u8> {
    hmac_of(
        config::CONTEXT_INTEGRITY_HASH_ALG,
        state.hierarchies.spec_get(hierarchy).proof_value@,
        ticket_data(state, tag, cp_hash_a, policy_ref, auth_name, timeout, with_nonce),
    )
}

/// True when a timeout is not all zeros.
fn does_expire(timeout: &[u8]) -> (r: bool)
    ensures
        r == expires(timeout@),
{
    let mut i: usize = 0;
    while i < timeout.len()
        invariant
            i <= timeout@.len(),
            forall|k: int| 0 <= k < i ==> timeout@[k] == 0,
        decreases timeout@.len() - i,
    {
        if timeout[i] != 0 {
            assert(timeout@[i as int] != 0);
            return true;
        }
        i = i + 1;
    }
    false
}

/// The HMAC of an authorization ticket, or TPM_RC_VALUE when there is no such
/// hierarchy.
pub fn authorization_ticket_hmac(
    state: &TpmState,
    hierarchy: u32,
    tag: u16,
    cp_hash_a: &[u8],
    policy_ref: &[u8],
    auth_name: &[u8],
    timeout: &[u8],
    with_nonce: bool,
) -> (r: TpmResult<Vec<u8>>)
    ensures
        r is Ok <==> is_hierarchy(hierarchy),
        r is Err ==> r->Err_0 == TpmRc(rc::VALUE),
        r matches Ok(h) ==> h@.len() <= 64 && h@ == ticket_hmac_of(
            *state,
            hierarchy,
            tag,
            cp_hash_a@,
            policy_ref@,
            auth_name@,
            timeout@,
            with_nonce,
        ),
{
    broadcast use lemma_hmac_len;

    let proof_value: &[u8] = state.hierarchy_proof(hierarchy)?;
    let mut data: Vec<u8> = Vec::new();
    push_be16(&mut data, tag);
    data.extend_from_slice(cp_hash_a);
    data.extend_from_slice(policy_ref);
    data.extend_from_slice(auth_name);
    data.extend_from_slice(timeout);
    if does_expire(timeout) {
        push_be64(&mut data, state.clock.time_epoch);
        if !with_nonce {
            push_be64(&mut data, state.clock.total_reset_count);
        }
    }
    assert(data@ =~= ticket_data(
        *state,
        tag,
        cp_hash_a@,
        policy_ref@,
        auth_name@,
        timeout@,
        with_nonce,
    ));
    hmac(config::CONTEXT_INTEGRITY_HASH_ALG, proof_value, data.as_slice())
}

/// The hierarchy whose proof keys a ticket: that of the authorizing entity, so
/// that a change of its seed makes the ticket worthless.
pub open spec fn ticket_hierarchy_of(state: TpmState, handle: u32) -> u32 {
    if is_hierarchy(handle) {
        handle
    } else if is_transient(handle) && state.objects.has_object(handle) {
        state.objects.object_at(handle).hierarchy
    } else if state.persistent@.contains_key(handle) {
        state.persistent@[handle].hierarchy
    } else if state.nv.indices@.contains_key(handle) {
        if state.nv.indices@[handle].public.attributes.has(NvAttributes::PLATFORMCREATE) {
            rh::PLATFORM
        } else {
            rh::OWNER
        }
    } else if handle == rh::LOCKOUT || handle == rh::PLATFORM_NV {
        rh::PLATFORM
    } else {
        rh::OWNER
    }
}

/// The hierarchy whose proof keys a ticket for `auth_handle`.
pub fn ticket_hierarchy(state: &TpmState, auth_handle: u32) -> (r: u32)
    requires
        state.wf(),
    ensures
        r == ticket_hierarchy_of(*state, auth_handle),
{
    proof {
        reveal(crate::tpm::engine::state::persistent_wf);
    }
    if is_hierarchy(auth_handle) {
        return auth_handle;
    }
    if is_transient(auth_handle) {
        match state.objects.object(auth_handle) {
            Ok(o) => {
                return o.hierarchy;
            },
            Err(_) => {},
        }
    }
    match state.persistent.get(auth_handle) {
        Some(o) => {
            return o.hierarchy;
        },
        None => {},
    }
    match state.nv.get(auth_handle) {
        Ok(index) => {
            if index.public.attributes.has(NvAttributes::PLATFORMCREATE) {
                return rh::PLATFORM;
            }
            return rh::OWNER;
        },
        Err(_) => {},
    }
    if auth_handle == rh::LOCKOUT || auth_handle == rh::PLATFORM_NV {
        return rh::PLATFORM;
    }
    rh::OWNER
}

/// The number a UINT32 stands for as an INT32.
pub open spec fn as_signed(v: u32) -> int {
    if v < 0x8000_0000 {
        v as int
    } else {
        v - 0x1_0000_0000
    }
}

/// The number a UINT32 stands for as an INT32.
fn to_signed(v: u32) -> (r: i32)
    ensures
        r == as_signed(v),
{
    if v < 0x8000_0000 {
        v as i32
    } else {
        -((0xFFFF_FFFF - v) as i32) - 1
    }
}

/// The time at which an authorization stops, before the flag is put in.
pub open spec fn limit_of(start: u64, expiration: int, without_nonce: bool) -> u64 {
    let span = -expiration * 1000;
    if without_nonce {
        span as u64
    } else if start + span > u64::MAX {
        u64::MAX
    } else {
        (start + span) as u64
    }
}

/// The timeout an authorization returns: none when it does not expire, and
/// measured from the start of the session when a nonce tied it to that.
pub open spec fn timeout_of(start: u64, expiration: int, without_nonce: bool) -> Seq<u8> {
    if expiration >= 0 {
        Seq::empty()
    } else if without_nonce {
        octets64(limit_of(start, expiration, true) | EXPIRES_ON_RESET)
    } else {
        octets64(limit_of(start, expiration, false))
    }
}

/// The timeout an authorization returns.
pub fn authorization_timeout(session_start_time: u64, expiration: i32, without_nonce: bool) -> (r:
    Vec<u8>)
    ensures
        r@ == timeout_of(session_start_time, expiration as int, without_nonce),
        r@.len() <= 8,
{
    let mut out: Vec<u8> = Vec::new();
    if expiration >= 0 {
        assert(out@ =~= Seq::<u8>::empty());
        return out;
    }
    let span: u64 = (-(expiration as i64)) as u64 * 1000;
    if without_nonce {
        push_be64(&mut out, span | EXPIRES_ON_RESET);
    } else {
        push_be64(&mut out, session_start_time.saturating_add(span));
    }
    assert(out@ =~= timeout_of(session_start_time, expiration as int, without_nonce));
    out
}

/// The time in a timeout, without the flag.
pub open spec fn time_in(timeout: Seq<u8>) -> Option<u64> {
    if timeout.len() != 8 {
        None
    } else {
        Some(be64(timeout, 0) & 0x7FFF_FFFF_FFFF_FFFF)
    }
}

/// The time in a timeout, without the flag.
pub fn timeout_value(timeout: &[u8]) -> (r: Option<u64>)
    ensures
        r == time_in(timeout@),
{
    if timeout.len() != 8 {
        return None;
    }
    Some(read_be64(timeout, 0) & 0x7FFF_FFFF_FFFF_FFFF)
}

/// Whether a session takes a command restriction: a second may not name a
/// different command.
pub open spec fn cp_check(v: PolicyView, hash_alg: u16, cp: Seq<u8>) -> TpmResult<()> {
    if cp.len() == 0 {
        Ok(())
    } else {
        match v.cp_hash {
            Some(c) => if c != cp {
                Err(TpmRc(rc::CPHASH))
            } else {
                Ok(())
            },
            None => if cp.len() != size_of(hash_alg) {
                Err(TpmRc(rc::SIZE).for_parameter(2))
            } else {
                Ok(())
            },
        }
    }
}

/// Check the command restriction an authorization carries.
pub fn check_cp_hash(s: &Session, cp_hash_a: &[u8]) -> (r: TpmResult<()>)
    requires
        supported(s.auth_hash),
    ensures
        r == cp_check(s.policy@, s.auth_hash, cp_hash_a@),
{
    if cp_hash_a.len() == 0 {
        return Ok(());
    }
    match &s.policy.cp_hash {
        Some(c) => {
            if !constant_time_eq(c.as_slice(), cp_hash_a) {
                return Err(TpmRc(rc::CPHASH));
            }
            return Ok(());
        },
        None => {},
    }
    let size: usize = digest_size(s.auth_hash)?;
    if cp_hash_a.len() != size {
        return Err(TpmRc(rc::SIZE).with_parameter(2));
    }
    Ok(())
}

/// A policy with a command restriction put in.
pub open spec fn restricted(v: PolicyView, cp: Seq<u8>) -> PolicyView {
    if cp.len() == 0 {
        v
    } else {
        PolicyView { cp_hash: Some(cp), ..v }
    }
}

/// Put a command restriction in a policy.
fn restrict(policy: &mut PolicyState, cp: &[u8])
    ensures
        final(policy)@ == restricted(old(policy)@, cp@),
{
    if cp.len() != 0 {
        policy.cp_hash = Some(to_vec(cp));
    }
}

/// Apply the command restriction, once [`check_cp_hash`] has accepted it.
pub fn set_cp_hash(s: &mut Session, cp_hash_a: &[u8])
    ensures
        *final(s) == (Session { policy: final(s).policy, ..*old(s) }),
        final(s).policy@ == restricted(old(s).policy@, cp_hash_a@),
{
    restrict(&mut s.policy, cp_hash_a);
}

/// A policy with a limit put in, which may only be lowered.
pub open spec fn limited(v: PolicyView, timeout: Seq<u8>) -> PolicyView {
    match time_in(timeout) {
        None => v,
        Some(t) => PolicyView {
            expiration: Some(
                match v.expiration {
                    Some(now) => if now < t {
                        now
                    } else {
                        t
                    },
                    None => t,
                },
            ),
            ..v
        },
    }
}

/// Put a limit in a policy.
fn limit(policy: &mut PolicyState, timeout: &[u8])
    ensures
        final(policy)@ == limited(old(policy)@, timeout@),
{
    match timeout_value(timeout) {
        None => {},
        Some(t) => {
            let now: u64 = match policy.expiration {
                Some(e) => if e < t {
                    e
                } else {
                    t
                },
                None => t,
            };
            policy.expiration = Some(now);
        },
    }
}

/// Record an expiry on a policy session.
pub fn record_expiration(s: &mut Session, timeout: &[u8])
    ensures
        *final(s) == (Session { policy: final(s).policy, ..*old(s) }),
        final(s).policy@ == limited(old(s).policy@, timeout@),
{
    limit(&mut s.policy, timeout);
}

/// An expiry may only be lowered: a later authorization never extends what an
/// earlier one allowed.
pub proof fn law_an_expiry_is_only_lowered(v: PolicyView, timeout: Seq<u8>)
    ensures
        v.expiration matches Some(now) ==> match limited(v, timeout).expiration {
            Some(after) => after <= now,
            None => false,
        },
{
}

/// A command restriction stays: what a later authorization carries is refused
/// unless it names the same command.
pub proof fn law_a_command_restriction_may_not_be_replaced(
    v: PolicyView,
    hash_alg: u16,
    cp: Seq<u8>,
)
    requires
        cp_check(v, hash_alg, cp) is Ok,
        v.cp_hash is Some,
    ensures
        restricted(v, cp).cp_hash == v.cp_hash,
{
}

/// The parameters of an authorization.
pub struct AuthorizationView {
    pub nonce: Seq<u8>,
    pub cp_hash: Seq<u8>,
    pub policy_ref: Seq<u8>,
    pub expiration: u32,
}

/// The parameters of an authorization.
struct Authorization {
    nonce: Vec<u8>,
    cp_hash: Vec<u8>,
    policy_ref: Vec<u8>,
    expiration: u32,
}

/// The parameters that start an authorization.
pub open spec fn parse_authorization(d: Seq<u8>) -> Parsed<AuthorizationView> {
    match parse_sized(d, 0, 64) {
        Err(e) => Err(e),
        Ok((nonce, n1)) => match parse_sized(d, n1, 64) {
            Err(e) => Err(e),
            Ok((cp_hash, n2)) => match parse_sized(d, n2, 64) {
                Err(e) => Err(e),
                Ok((policy_ref, n3)) => match raw_u32(d, n3) {
                    Err(e) => Err(e),
                    Ok((expiration, n4)) => Ok(
                        (AuthorizationView { nonce, cp_hash, policy_ref, expiration }, n4),
                    ),
                },
            },
        },
    }
}

impl Authorization {
    spec fn view(&self) -> AuthorizationView {
        AuthorizationView {
            nonce: self.nonce@,
            cp_hash: self.cp_hash@,
            policy_ref: self.policy_ref@,
            expiration: self.expiration,
        }
    }
}

/// Read the parameters that start an authorization.
fn read_authorization(reader: &mut Reader) -> (out: TpmResult<Authorization>)
    requires
        old(reader).at() == 0,
    ensures
        final(reader).data() == old(reader).data(),
        0 <= old(reader).at() <= final(reader).at() <= final(reader).data().len(),
        match parse_authorization(old(reader).data()) {
            Ok((v, next)) => out is Ok && out->Ok_0.view() == v && v.cp_hash.len() <= 64
                && final(reader).at() == next,
            Err(e) => out is Err && out->Err_0 == e,
        },
{
    let nonce: Vec<u8> = take_sized::<64>(reader)?;
    let cp_hash: Vec<u8> = take_sized::<64>(reader)?;
    let policy_ref: Vec<u8> = take_sized::<64>(reader)?;
    let expiration: u32 = reader.u32()?;
    Ok(Authorization { nonce, cp_hash, policy_ref, expiration })
}

/// The timeout an authorization returns in a session.
pub open spec fn session_timeout(s: Session, a: AuthorizationView) -> Seq<u8> {
    timeout_of(s.start_time, as_signed(a.expiration), a.nonce.len() == 0)
}

/// The ticket an authorization returns. One that does not expire carries
/// nothing forward, and a trial session proves nothing.
pub open spec fn ticket_given(
    state: TpmState,
    tag: u16,
    auth: u32,
    name: Seq<u8>,
    s: Session,
    a: AuthorizationView,
) -> TpmResult<TicketView> {
    if as_signed(a.expiration) >= 0 || s.is_trial() {
        Ok(TicketView::null(tag))
    } else if !is_hierarchy(ticket_hierarchy_of(state, auth)) {
        Err(TpmRc(rc::VALUE))
    } else {
        Ok(
            TicketView {
                tag,
                hierarchy: ticket_hierarchy_of(state, auth),
                digest: ticket_hmac_of(
                    state,
                    ticket_hierarchy_of(state, auth),
                    tag,
                    a.cp_hash,
                    a.policy_ref,
                    name,
                    session_timeout(s, a),
                    a.nonce.len() != 0,
                ),
            },
        )
    }
}

/// What a session asserts after an authorization.
pub open spec fn authorized_policy(
    s: Session,
    code: u32,
    name: Seq<u8>,
    policy_ref: Seq<u8>,
    cp_hash: Seq<u8>,
    timeout: Seq<u8>,
) -> PolicyView {
    limited(
        restricted(s.policy@.authorized(s.auth_hash, code, name, policy_ref), cp_hash),
        timeout,
    )
}

/// An authorization that was proven: what the session asserts, the timeout and
/// the ticket. One whose limit has gone by is refused.
pub open spec fn granted(
    state: TpmState,
    tag: u16,
    code: u32,
    auth: u32,
    name: Seq<u8>,
    s: Session,
    a: AuthorizationView,
) -> TpmResult<(PolicyView, Seq<u8>, TicketView)> {
    let timeout = session_timeout(s, a);
    if time_in(timeout) matches Some(t) && (s.time_epoch != state.clock.time_epoch || t
        < state.clock.time) {
        Err(TpmRc(rc::EXPIRED).for_parameter(4))
    } else {
        match (
            ticket_given(state, tag, auth, name, s, a),
            cp_check(s.policy@, s.auth_hash, a.cp_hash),
        ) {
            (Err(e), _) => Err(e),
            (_, Err(e)) => Err(e),
            (Ok(t), Ok(_)) => Ok(
                (authorized_policy(s, code, name, a.policy_ref, a.cp_hash, timeout), timeout, t),
            ),
        }
    }
}

/// Grant an authorization that was proven.
fn grant(state: &TpmState, tag: u16, code: u32, auth: u32, name: &[u8], s: &Session, a: &Authorization)
    -> (r: TpmResult<(PolicyState, Vec<u8>, Ticket)>)
    requires
        state.wf(),
        s.wf(),
        a.view().cp_hash.len() <= 64,
    ensures
        match granted(*state, tag, code, auth, name@, *s, a.view()) {
            Ok((v, timeout, t)) => {
                &&& r is Ok
                &&& (r->Ok_0).0@ == v
                &&& (r->Ok_0).0.wf(s.auth_hash)
                &&& (r->Ok_0).1@ == timeout
                &&& timeout.len() <= 8
                &&& (r->Ok_0).2@ == t
            },
            Err(e) => r is Err && r->Err_0 == e,
        },
{
    let expiration: i32 = to_signed(a.expiration);
    let with_nonce: bool = a.nonce.len() != 0;
    let timeout: Vec<u8> = authorization_timeout(s.start_time, expiration, !with_nonce);
    match timeout_value(timeout.as_slice()) {
        Some(t) => {
            if s.time_epoch != state.clock.time_epoch || t < state.clock.time {
                return Err(TpmRc(rc::EXPIRED).with_parameter(4));
            }
        },
        None => {},
    }
    let hierarchy: u32 = ticket_hierarchy(state, auth);
    let ticket: Ticket = if expiration >= 0 || s.is_trial() {
        Ticket::null(tag)
    } else {
        let h: Vec<u8> = authorization_ticket_hmac(
            state,
            hierarchy,
            tag,
            a.cp_hash.as_slice(),
            a.policy_ref.as_slice(),
            name,
            timeout.as_slice(),
            with_nonce,
        )?;
        Ticket { tag, hierarchy, digest: Tpm2bDigest::new(h)? }
    };
    check_cp_hash(s, a.cp_hash.as_slice())?;
    let mut policy: PolicyState = s.policy.copy();
    policy.authorize(s.auth_hash, code, name, a.policy_ref.as_slice());
    restrict(&mut policy, a.cp_hash.as_slice());
    limit(&mut policy, timeout.as_slice());
    Ok((policy, timeout, ticket))
}

/// A command that an authorization rests on left the session with what it
/// asserts, or changed nothing.
pub open spec fn settled(
    after: TpmState,
    before: TpmState,
    outcome: TpmResult<(u32, PolicyView, Seq<u8>, TicketView)>,
    r: TpmResult<Response>,
) -> bool {
    match outcome {
        Err(e) => after == before && fails(r, e),
        Ok((h, v, timeout, t)) => moved(after, before, h, v) && answers_with(
            r,
            sized(timeout) + t.octets(),
        ),
    }
}

/// Answer with a timeout and a ticket.
fn settle(state: &mut TpmState, handle: u32, policy: PolicyState, timeout: Vec<u8>, ticket: Ticket)
    -> (r: TpmResult<Response>)
    requires
        old(state).wf(),
        old(state).sessions.loaded@.contains_key(handle),
        policy.wf(old(state).sessions.loaded@[handle].auth_hash),
        timeout@.len() <= 8,
    ensures
        final(state).wf(),
        moved(*final(state), *old(state), handle, policy@),
        answers_with(r, sized(timeout@) + ticket@.octets()),
{
    assert_policy(state, handle, policy);
    let mut w: Writer = Writer::new();
    w.sized16(timeout.as_slice());
    ticket.marshal(&mut w);
    assert(w.written() =~= sized(timeout@) + ticket@.octets());
    respond(w)
}

/// What the key that authorizes signs.
pub open spec fn to_be_signed(h: u16, a: AuthorizationView) -> Seq<u8> {
    hash_of(h, a.nonce + octets32(a.expiration) + a.cp_hash + a.policy_ref)
}

/// Whether an authorization was signed by the object. The nonce, if there is
/// one, has to be that of the session.
pub open spec fn signed_check(
    state: TpmState,
    auth: u32,
    s: Session,
    a: AuthorizationView,
    sig_alg: u16,
    v: SignatureView,
) -> TpmResult<()> {
    if s.is_trial() {
        Ok(())
    } else if a.nonce.len() != 0 && a.nonce != s.nonce_tpm@ {
        Err(TpmRc(rc::VALUE).for_parameter(1))
    } else {
        match object_named(state, auth) {
            Err(e) => Err(e.for_handle(1)),
            Ok(o) => {
                let h = match v.hash_alg() {
                    Some(h) => h,
                    None => s.auth_hash,
                };
                if verification(o@, to_be_signed(h, a), sig_alg, v) is Ok {
                    Ok(())
                } else {
                    Err(TpmRc(rc::POLICY_FAIL))
                }
            },
        }
    }
}

/// Whether an authorization was signed by the object.
fn check_signed(
    state: &TpmState,
    auth: u32,
    s: &Session,
    a: &Authorization,
    signature: &TpmtSignature,
) -> (r: TpmResult<()>)
    requires
        state.wf(),
        s.wf(),
        signature.wf(),
    ensures
        r == signed_check(*state, auth, *s, a.view(), signature.sig_alg, signature.signature@),
{
    broadcast use lemma_hash_len;

    if s.is_trial() {
        return Ok(());
    }
    if a.nonce.len() != 0 && !constant_time_eq(a.nonce.as_slice(), s.nonce_tpm.as_slice()) {
        return Err(TpmRc(rc::VALUE).with_parameter(1));
    }
    let mut data: Vec<u8> = to_vec(a.nonce.as_slice());
    push_be32(&mut data, a.expiration);
    data.extend_from_slice(a.cp_hash.as_slice());
    data.extend_from_slice(a.policy_ref.as_slice());
    assert(data@ =~= a.nonce@ + octets32(a.expiration) + a.cp_hash@ + a.policy_ref@);
    let hash_alg: u16 = match signature.hash_alg() {
        Some(h) => h,
        None => s.auth_hash,
    };
    let d: Vec<u8> = digest(hash_alg, data.as_slice())?;
    let object: &Object = match object_of(state, auth) {
        Ok(o) => o,
        Err(e) => {
            return Err(e.with_handle(1));
        },
    };
    match verify_digest_public(object, d.as_slice(), signature) {
        Ok(_) => Ok(()),
        Err(_) => Err(TpmRc(rc::POLICY_FAIL)),
    }
}

/// An authorization and a signature.
pub open spec fn parse_signed(d: Seq<u8>) -> Parsed<(AuthorizationView, u16, SignatureView)> {
    match parse_authorization(d) {
        Err(e) => Err(e),
        Ok((a, n1)) => match TpmtSignature::parse(d, n1) {
            Err(e) => Err(e),
            Ok((s, n2)) => Ok(((a, s.0, s.1), n2)),
        },
    }
}

/// TPM2_PolicySigned.
pub open spec fn policy_signed_outcome(state: TpmState, req: RequestView) -> TpmResult<
    (u32, PolicyView, Seq<u8>, TicketView),
> {
    match (
        req.handle(0),
        req.handle(1),
        alone(req.parameters, parse_signed(req.parameters)),
    ) {
        (Err(e), _, _) => Err(e),
        (_, Err(e), _) => Err(e),
        (_, _, Err(e)) => Err(e),
        (Ok(auth), Ok(h), Ok((a, sig_alg, v))) => match (name_of(state, auth), policy_at(state, h)) {
            (Err(e), _) => Err(e.for_handle(1)),
            (_, Err(e)) => Err(e),
            (Ok(name), Ok(s)) => match signed_check(state, auth, s, a, sig_alg, v) {
                Err(e) => Err(e),
                Ok(_) => match granted(
                    state,
                    st::AUTH_SIGNED,
                    cc::PolicySigned,
                    auth,
                    name,
                    s,
                    a,
                ) {
                    Err(e) => Err(e),
                    Ok((p, timeout, t)) => Ok((h, p, timeout, t)),
                },
            },
        },
    }
}

/// TPM2_PolicySigned.
pub fn policy_signed(state: &mut TpmState, request: &Request) -> (r: TpmResult<Response>)
    requires
        old(state).wf(),
    ensures
        final(state).wf(),
        settled(*final(state), *old(state), policy_signed_outcome(*old(state), request@), r),
{
    let auth: u32 = request.handle(0)?;
    let handle: u32 = request.handle(1)?;
    let mut reader: Reader = request.reader();
    let a: Authorization = read_authorization(&mut reader)?;
    let signature: TpmtSignature = TpmtSignature::unmarshal(&mut reader)?;
    reader.expect_end()?;
    let name: Vec<u8> = match handle_name(state, auth) {
        Ok(n) => n,
        Err(e) => {
            return Err(e.with_handle(1));
        },
    };
    let s: &Session = policy_session(state, handle)?;
    check_signed(state, auth, s, &a, &signature)?;
    let (policy, timeout, ticket) = grant(
        state,
        st::AUTH_SIGNED,
        cc::PolicySigned,
        auth,
        name.as_slice(),
        s,
        &a,
    )?;
    settle(state, handle, policy, timeout, ticket)
}

/// TPM2_PolicySecret.
pub open spec fn policy_secret_outcome(state: TpmState, req: RequestView) -> TpmResult<
    (u32, PolicyView, Seq<u8>, TicketView),
> {
    match (
        req.handle(0),
        req.handle(1),
        alone(req.parameters, parse_authorization(req.parameters)),
    ) {
        (Err(e), _, _) => Err(e),
        (_, Err(e), _) => Err(e),
        (_, _, Err(e)) => Err(e),
        (Ok(auth), Ok(h), Ok(a)) => match (name_of(state, auth), policy_at(state, h)) {
            (Err(e), _) => Err(e.for_handle(1)),
            (_, Err(e)) => Err(e),
            (Ok(name), Ok(s)) => if !s.is_trial() && a.nonce.len() != 0 && a.nonce
                != s.nonce_tpm@ {
                Err(TpmRc(rc::VALUE).for_parameter(1))
            } else {
                match granted(state, st::AUTH_SECRET, cc::PolicySecret, auth, name, s, a) {
                    Err(e) => Err(e),
                    Ok((p, timeout, t)) => Ok((h, p, timeout, t)),
                }
            },
        },
    }
}

/// TPM2_PolicySecret.
pub fn policy_secret(state: &mut TpmState, request: &Request) -> (r: TpmResult<Response>)
    requires
        old(state).wf(),
    ensures
        final(state).wf(),
        settled(*final(state), *old(state), policy_secret_outcome(*old(state), request@), r),
{
    let auth: u32 = request.handle(0)?;
    let handle: u32 = request.handle(1)?;
    let mut reader: Reader = request.reader();
    let a: Authorization = read_authorization(&mut reader)?;
    reader.expect_end()?;
    let name: Vec<u8> = match handle_name(state, auth) {
        Ok(n) => n,
        Err(e) => {
            return Err(e.with_handle(1));
        },
    };
    let s: &Session = policy_session(state, handle)?;
    if !s.is_trial() && a.nonce.len() != 0 && !constant_time_eq(
        a.nonce.as_slice(),
        s.nonce_tpm.as_slice(),
    ) {
        return Err(TpmRc(rc::VALUE).with_parameter(1));
    }
    let (policy, timeout, ticket) = grant(
        state,
        st::AUTH_SECRET,
        cc::PolicySecret,
        auth,
        name.as_slice(),
        s,
        &a,
    )?;
    settle(state, handle, policy, timeout, ticket)
}

/// The parameters of TPM2_PolicyTicket.
pub struct TicketInput {
    pub timeout: Seq<u8>,
    pub cp_hash: Seq<u8>,
    pub policy_ref: Seq<u8>,
    pub name: Seq<u8>,
    pub ticket: TicketView,
}

/// The parameters of TPM2_PolicyTicket.
pub open spec fn parse_ticket(d: Seq<u8>) -> Parsed<TicketInput> {
    match parse_sized(d, 0, 8) {
        Err(e) => Err(e),
        Ok((timeout, n1)) => match parse_sized(d, n1, 64) {
            Err(e) => Err(e),
            Ok((cp_hash, n2)) => match parse_sized(d, n2, 64) {
                Err(e) => Err(e),
                Ok((policy_ref, n3)) => match parse_sized(d, n3, 68) {
                    Err(e) => Err(e),
                    Ok((name, n4)) => match TicketView::parse(
                        d,
                        n4,
                        st::AUTH_SIGNED,
                        st::AUTH_SECRET,
                    ) {
                        Err(e) => Err(e),
                        Ok((ticket, n5)) => Ok(
                            (TicketInput { timeout, cp_hash, policy_ref, name, ticket }, n5),
                        ),
                    },
                },
            },
        },
    }
}

/// True when the flag in the timeout says that it expires on a TPM Reset too.
pub open spec fn reset_flag(timeout: Seq<u8>) -> bool {
    timeout.len() > 0 && timeout[0] >= 128
}

/// True when a ticket is one this TPM made for exactly these values.
pub open spec fn ticket_holds(state: TpmState, t: TicketInput) -> bool {
    t.ticket.digest.len() != 0 && is_hierarchy(t.ticket.hierarchy) && t.ticket.digest
        == ticket_hmac_of(
        state,
        t.ticket.hierarchy,
        t.ticket.tag,
        t.cp_hash,
        t.policy_ref,
        t.name,
        t.timeout,
        !reset_flag(t.timeout),
    )
}

/// TPM2_PolicyTicket: the ticket stands for the authorization it was given for.
pub open spec fn policy_ticket_outcome(state: TpmState, req: RequestView) -> TpmResult<
    (u32, PolicyView),
> {
    match (req.handle(0), alone(req.parameters, parse_ticket(req.parameters))) {
        (Err(e), _) => Err(e),
        (_, Err(e)) => Err(e),
        (Ok(h), Ok(t)) => if !ticket_holds(state, t) {
            Err(TpmRc(rc::TICKET).for_parameter(5))
        } else if time_in(t.timeout) matches Some(limit) && state.clock.time > limit {
            Err(TpmRc(rc::EXPIRED).for_parameter(1))
        } else {
            match policy_at(state, h) {
                Err(e) => Err(e),
                Ok(s) => match cp_check(s.policy@, s.auth_hash, t.cp_hash) {
                    Err(e) => Err(e),
                    Ok(_) => Ok(
                        (
                            h,
                            authorized_policy(
                                s,
                                if t.ticket.tag == st::AUTH_SIGNED {
                                    cc::PolicySigned
                                } else {
                                    cc::PolicySecret
                                },
                                t.name,
                                t.policy_ref,
                                t.cp_hash,
                                t.timeout,
                            ),
                        ),
                    ),
                },
            }
        },
    }
}

/// Whether a ticket is one this TPM made for these values.
fn check_ticket(
    state: &TpmState,
    ticket: &Ticket,
    timeout: &[u8],
    cp_hash: &[u8],
    policy_ref: &[u8],
    name: &[u8],
) -> (r: bool)
    ensures
        r == ticket_holds(
            *state,
            TicketInput {
                timeout: timeout@,
                cp_hash: cp_hash@,
                policy_ref: policy_ref@,
                name: name@,
                ticket: ticket@,
            },
        ),
{
    if ticket.digest.is_empty() {
        return false;
    }
    let on_reset: bool = timeout.len() > 0 && timeout[0] >= 128;
    match authorization_ticket_hmac(
        state,
        ticket.hierarchy,
        ticket.tag,
        cp_hash,
        policy_ref,
        name,
        timeout,
        !on_reset,
    ) {
        Ok(expected) => constant_time_eq(expected.as_slice(), ticket.digest.as_slice()),
        Err(_) => false,
    }
}

/// TPM2_PolicyTicket.
pub fn policy_ticket(state: &mut TpmState, request: &Request) -> (r: TpmResult<Response>)
    requires
        old(state).wf(),
    ensures
        final(state).wf(),
        super::policy::concluded(
            *final(state),
            *old(state),
            policy_ticket_outcome(*old(state), request@),
            r,
        ),
{
    let handle: u32 = request.handle(0)?;
    let mut reader: Reader = request.reader();
    let timeout: Vec<u8> = take_sized::<8>(&mut reader)?;
    let cp_hash: Vec<u8> = take_sized::<64>(&mut reader)?;
    let policy_ref: Vec<u8> = take_sized::<64>(&mut reader)?;
    let name: Vec<u8> = take_sized::<68>(&mut reader)?;
    let ticket: Ticket = Ticket::unmarshal_tagged(&mut reader, st::AUTH_SIGNED, st::AUTH_SECRET)?;
    reader.expect_end()?;
    if !check_ticket(
        state,
        &ticket,
        timeout.as_slice(),
        cp_hash.as_slice(),
        policy_ref.as_slice(),
        name.as_slice(),
    ) {
        return Err(TpmRc(rc::TICKET).with_parameter(5));
    }
    match timeout_value(timeout.as_slice()) {
        Some(t) => {
            if state.clock.time > t {
                return Err(TpmRc(rc::EXPIRED).with_parameter(1));
            }
        },
        None => {},
    }
    let code: u32 = if ticket.tag == st::AUTH_SIGNED {
        cc::PolicySigned
    } else {
        cc::PolicySecret
    };
    let s: &Session = policy_session(state, handle)?;
    check_cp_hash(s, cp_hash.as_slice())?;
    let mut policy: PolicyState = s.policy.copy();
    policy.authorize(s.auth_hash, code, name.as_slice(), policy_ref.as_slice());
    restrict(&mut policy, cp_hash.as_slice());
    limit(&mut policy, timeout.as_slice());
    assert_policy(state, handle, policy);
    nothing()
}

/// The parameters of TPM2_PolicyAuthorize.
pub struct ApprovalInput {
    pub approved: Seq<u8>,
    pub policy_ref: Seq<u8>,
    pub key_sign: Seq<u8>,
    pub ticket: VerifiedView,
}

/// The parameters of TPM2_PolicyAuthorize.
pub open spec fn parse_approval(d: Seq<u8>) -> Parsed<ApprovalInput> {
    match parse_sized(d, 0, 64) {
        Err(e) => Err(e),
        Ok((approved, n1)) => match parse_sized(d, n1, 64) {
            Err(e) => Err(e),
            Ok((policy_ref, n2)) => match parse_sized(d, n2, 68) {
                Err(e) => Err(e),
                Ok((key_sign, n3)) => match VerifiedView::parse(d, n3) {
                    Err(e) => Err(e),
                    Ok((ticket, n4)) => Ok(
                        (ApprovalInput { approved, policy_ref, key_sign, ticket }, n4),
                    ),
                },
            },
        },
    }
}

/// The hash of a Name that is a hash and a digest of its size.
pub open spec fn name_hash_of(name: Seq<u8>) -> TpmResult<u16> {
    if name.len() < 2 {
        Err(TpmRc(rc::SIZE).for_parameter(3))
    } else if !supported(be16(name, 0)) {
        Err(TpmRc(rc::HASH).for_parameter(3))
    } else if name.len() != 2 + size_of(be16(name, 0)) {
        Err(TpmRc(rc::SIZE).for_parameter(3))
    } else {
        Ok(be16(name, 0))
    }
}

/// The hash of a Name that is a hash and a digest of its size.
fn name_hash(name: &[u8]) -> (r: TpmResult<u16>)
    ensures
        r == name_hash_of(name@),
        r matches Ok(h) ==> supported(h),
{
    if name.len() < 2 {
        return Err(TpmRc(rc::SIZE).with_parameter(3));
    }
    let h: u16 = read_be16(name, 0);
    match digest_size(h) {
        Ok(n) => {
            if name.len() != 2 + n {
                return Err(TpmRc(rc::SIZE).with_parameter(3));
            }
            Ok(h)
        },
        Err(_) => Err(TpmRc(rc::HASH).with_parameter(3)),
    }
}

/// What a ticket for an approved policy vouches for, which depends on the
/// command that made it.
pub open spec fn approval_signed(a: ApprovalInput, name_alg: u16) -> Seq<u8> {
    let data = a.approved + a.policy_ref;
    if a.ticket.tag == st::MESSAGE_VERIFIED {
        data
    } else {
        match a.ticket.digest_alg {
            Some(h) => hash_of(h, data),
            None => hash_of(name_alg, data),
        }
    }
}

/// Whether a policy is approved: it has to be what the session asserts, and
/// the ticket has to vouch for it.
pub open spec fn approval_check(state: TpmState, s: Session, a: ApprovalInput, name_alg: u16)
    -> TpmResult<()> {
    if s.is_trial() {
        Ok(())
    } else if s.policy.digest@ != a.approved {
        Err(TpmRc(rc::VALUE).for_parameter(1))
    } else if a.ticket.hmac.len() == 0 || !is_hierarchy(a.ticket.hierarchy) || a.ticket.hmac
        != verified_hmac(
        state.hierarchies.spec_get(a.ticket.hierarchy).proof_value@,
        a.ticket.tag,
        approval_signed(a, name_alg),
        a.key_sign,
        a.ticket.digest_alg,
    ) {
        Err(TpmRc(rc::POLICY))
    } else {
        Ok(())
    }
}

/// TPM2_PolicyAuthorize: the digest starts over and records who approved it.
pub open spec fn policy_authorize_outcome(state: TpmState, req: RequestView) -> TpmResult<
    (u32, PolicyView),
> {
    match (req.handle(0), alone(req.parameters, parse_approval(req.parameters))) {
        (Err(e), _) => Err(e),
        (_, Err(e)) => Err(e),
        (Ok(h), Ok(a)) => match (name_hash_of(a.key_sign), policy_at(state, h)) {
            (Err(e), _) => Err(e),
            (_, Err(e)) => Err(e),
            (Ok(name_alg), Ok(s)) => match approval_check(state, s, a, name_alg) {
                Err(e) => Err(e),
                Ok(_) => Ok(
                    (
                        h,
                        s.policy@.restarted(s.auth_hash).authorized(
                            s.auth_hash,
                            cc::PolicyAuthorize,
                            a.key_sign,
                            a.policy_ref,
                        ),
                    ),
                ),
            },
        },
    }
}

/// Whether a policy is approved.
fn check_approval(
    state: &TpmState,
    s: &Session,
    approved: &[u8],
    policy_ref: &[u8],
    key_sign: &[u8],
    ticket: &VerifiedTicket,
    name_alg: u16,
) -> (r: TpmResult<()>)
    requires
        supported(name_alg),
        ticket.digest_alg matches Some(h) ==> supported(h),
    ensures
        r == approval_check(
            *state,
            *s,
            ApprovalInput {
                approved: approved@,
                policy_ref: policy_ref@,
                key_sign: key_sign@,
                ticket: ticket@,
            },
            name_alg,
        ),
{
    if s.is_trial() {
        return Ok(());
    }
    if !constant_time_eq(s.policy.digest.as_slice(), approved) {
        return Err(TpmRc(rc::VALUE).with_parameter(1));
    }
    if ticket.hmac.is_empty() {
        return Err(TpmRc(rc::POLICY));
    }
    let mut data: Vec<u8> = to_vec(approved);
    data.extend_from_slice(policy_ref);
    assert(data@ =~= approved@ + policy_ref@);
    let signed: Vec<u8> = if ticket.tag == st::MESSAGE_VERIFIED {
        data
    } else {
        let h: u16 = match ticket.digest_alg {
            Some(h) => h,
            None => name_alg,
        };
        digest(h, data.as_slice())?
    };
    match state.hierarchy_proof(ticket.hierarchy) {
        Err(_) => Err(TpmRc(rc::POLICY)),
        Ok(proof_value) => {
            let expected: Vec<u8> = verified_ticket_hmac(
                proof_value,
                ticket.tag,
                signed.as_slice(),
                key_sign,
                ticket.digest_alg,
            )?;
            if !constant_time_eq(expected.as_slice(), ticket.hmac.as_slice()) {
                return Err(TpmRc(rc::POLICY));
            }
            Ok(())
        },
    }
}

/// TPM2_PolicyAuthorize.
pub fn policy_authorize(state: &mut TpmState, request: &Request) -> (r: TpmResult<Response>)
    requires
        old(state).wf(),
    ensures
        final(state).wf(),
        super::policy::concluded(
            *final(state),
            *old(state),
            policy_authorize_outcome(*old(state), request@),
            r,
        ),
{
    let handle: u32 = request.handle(0)?;
    let mut reader: Reader = request.reader();
    let approved: Vec<u8> = take_sized::<64>(&mut reader)?;
    let policy_ref: Vec<u8> = take_sized::<64>(&mut reader)?;
    let key_sign: Vec<u8> = take_sized::<68>(&mut reader)?;
    let ticket: VerifiedTicket = VerifiedTicket::unmarshal(&mut reader)?;
    reader.expect_end()?;
    let name_alg: u16 = name_hash(key_sign.as_slice())?;
    let s: &Session = policy_session(state, handle)?;
    check_approval(
        state,
        s,
        approved.as_slice(),
        policy_ref.as_slice(),
        key_sign.as_slice(),
        &ticket,
        name_alg,
    )?;
    let mut policy: PolicyState = s.policy.copy();
    policy.restart_digest(s.auth_hash);
    policy.authorize(s.auth_hash, cc::PolicyAuthorize, key_sign.as_slice(), policy_ref.as_slice());
    assert_policy(state, handle, policy);
    nothing()
}

/// A ticket that does not expire commits to neither counter, so it does not
/// matter whether the authorization covered a nonce.
pub proof fn law_a_ticket_without_a_timeout_leaves_out_the_counters(
    state: TpmState,
    other: TpmState,
    tag: u16,
    cp: Seq<u8>,
    policy_ref: Seq<u8>,
    name: Seq<u8>,
    a: bool,
    b: bool,
)
    ensures
        ticket_data(state, tag, cp, policy_ref, name, Seq::empty(), a) == ticket_data(
            other,
            tag,
            cp,
            policy_ref,
            name,
            Seq::empty(),
            b,
        ),
{
}

/// The flag of a timeout says whether the authorization covered a nonce.
proof fn lemma_reset_flag(start: u64, expiration: int, without_nonce: bool)
    requires
        expiration < 0,
        without_nonce || limit_of(start, expiration, false) < EXPIRES_ON_RESET,
    ensures
        reset_flag(timeout_of(start, expiration, without_nonce)) == without_nonce,
{
    let v = if without_nonce {
        limit_of(start, expiration, true) | EXPIRES_ON_RESET
    } else {
        limit_of(start, expiration, false)
    };
    assert(((((v >> 32) as u32) >> 24) as u8 >= 128) == (v >= 0x8000_0000_0000_0000u64))
        by (bit_vector);
    let l = limit_of(start, expiration, true);
    assert(l | 0x8000_0000_0000_0000u64 >= 0x8000_0000_0000_0000u64) by (bit_vector);
}

/// A ticket stands for its authorization: while it has not expired, and while
/// the proof and the counters of the TPM are the same, TPM2_PolicyTicket does to
/// a session what the authorization itself would have done to it. The limit has
/// to leave room for the flag in the timeout.
pub proof fn law_a_ticket_stands_for_its_authorization(
    before: TpmState,
    state: TpmState,
    req: RequestView,
    signed: bool,
    auth: u32,
    name: Seq<u8>,
    s: Session,
    a: AuthorizationView,
    h: u32,
    other: Session,
)
    requires
        as_signed(a.expiration) < 0,
        !s.is_trial(),
        a.nonce.len() == 0 || limit_of(s.start_time, as_signed(a.expiration), false)
            < EXPIRES_ON_RESET,
        ({
            let tag = if signed {
                st::AUTH_SIGNED
            } else {
                st::AUTH_SECRET
            };
            let code = if signed {
                cc::PolicySigned
            } else {
                cc::PolicySecret
            };
            let out = granted(before, tag, code, auth, name, s, a);
            &&& out is Ok
            &&& alone(req.parameters, parse_ticket(req.parameters)) == Ok::<TicketInput, TpmRc>(
                (TicketInput {
                    timeout: out->Ok_0.1,
                    cp_hash: a.cp_hash,
                    policy_ref: a.policy_ref,
                    name,
                    ticket: out->Ok_0.2,
                }),
            )
        }),
        req.handle(0) == Ok::<u32, TpmRc>(h),
        policy_at(state, h) == Ok::<Session, TpmRc>(other),
        cp_check(other.policy@, other.auth_hash, a.cp_hash) is Ok,
        state.hierarchies.spec_get(ticket_hierarchy_of(before, auth)).proof_value@
            == before.hierarchies.spec_get(ticket_hierarchy_of(before, auth)).proof_value@,
        state.clock.time_epoch == before.clock.time_epoch,
        state.clock.total_reset_count == before.clock.total_reset_count,
        time_in(session_timeout(s, a)) matches Some(limit) ==> state.clock.time <= limit,
    ensures
        policy_ticket_outcome(state, req) == Ok::<(u32, PolicyView), TpmRc>(
            (
                h,
                authorized_policy(
                    other,
                    if signed {
                        cc::PolicySigned
                    } else {
                        cc::PolicySecret
                    },
                    name,
                    a.policy_ref,
                    a.cp_hash,
                    session_timeout(s, a),
                ),
            ),
        ),
{
    broadcast use lemma_hmac_len;

    lemma_reset_flag(s.start_time, as_signed(a.expiration), a.nonce.len() == 0);
}

} // verus!
