//! Policy assertions.

use vstd::prelude::*;

use super::capability::{capability_property, property_of};
use super::dispatch::{Request, RequestView, Response};
use super::execute::respond;
use super::management::{clock_info, clock_info_of};
use super::table::lookup;
use super::wire::{
    alone, answers_nothing, answers_with, fails, nothing, raw_u16, raw_u32, raw_u8, take_sized,
};
use crate::tpm::constants::{alg, cc, eo, rc, se};
use crate::tpm::crypto::bn::{number_of, BigNum};
use crate::tpm::crypto::hash::{
    digest, digest_size, hash_of, is_supported, lemma_hash_len, size_of, supported,
};
use crate::tpm::engine::session::{PolicyState, PolicyView, Session};
use crate::tpm::engine::session_store::SessionStore;
use crate::tpm::engine::state::TpmState;
use crate::tpm::error::{TpmRc, TpmResult};
use crate::tpm::marshal::{parse_sized, sized, Parsed, Reader, Writer};
use crate::tpm::structures::attest::yes_no_octet;
use crate::tpm::structures::base::TpmtHa;
use crate::tpm::structures::lists::{contents, PcrSelection, TpmlDigest, TpmlPcrSelection};
use crate::util::bytes::{
    octets16, octets32, octets64, push_be16, push_be32, sub_vec, to_vec,
};

pub use super::policy_authorization::{
    authorization_ticket_hmac, authorization_timeout, check_cp_hash, policy_authorize,
    policy_secret, policy_signed, policy_ticket, record_expiration, set_cp_hash,
    ticket_hierarchy, timeout_value,
};
pub use super::session_commands::{flush_context, policy_restart, start_auth_session};

verus! {

/// The policy session a handle names.
pub open spec fn policy_at(state: TpmState, handle: u32) -> TpmResult<Session> {
    if !state.sessions.loaded@.contains_key(handle) {
        Err(TpmRc(rc::HANDLE).for_handle(1))
    } else if !state.sessions.loaded@[handle].is_policy() {
        Err(TpmRc(rc::MODE).for_handle(1))
    } else {
        Ok(state.sessions.loaded@[handle])
    }
}

/// The policy session a handle names.
pub fn policy_session(state: &TpmState, handle: u32) -> (r: TpmResult<&Session>)
    requires
        state.wf(),
    ensures
        match policy_at(*state, handle) {
            Ok(s) => r is Ok && *(r->Ok_0) == s && s.wf(),
            Err(e) => r is Err && r->Err_0 == e,
        },
{
    let s: &Session = match state.sessions.get(handle) {
        Ok(s) => s,
        Err(e) => {
            return Err(e.with_handle(1));
        },
    };
    if !s.is_policy() {
        return Err(TpmRc(rc::MODE).with_handle(1));
    }
    Ok(s)
}

/// The session has asserted `v`, and nothing else is different.
pub open spec fn moved(after: TpmState, before: TpmState, h: u32, v: PolicyView) -> bool {
    &&& before.sessions.loaded@.contains_key(h)
    &&& after == (TpmState { sessions: after.sessions, ..before })
    &&& after.sessions == (SessionStore { loaded: after.sessions.loaded, ..before.sessions })
    &&& after.sessions.loaded@ == before.sessions.loaded@.insert(h, after.sessions.loaded@[h])
    &&& after.sessions.loaded@[h] == (Session {
        policy: after.sessions.loaded@[h].policy,
        ..before.sessions.loaded@[h]
    })
    &&& after.sessions.loaded@[h].policy@ == v
}

/// A policy command left the session with what it asserts, or changed nothing.
pub open spec fn concluded(
    after: TpmState,
    before: TpmState,
    outcome: TpmResult<(u32, PolicyView)>,
    r: TpmResult<Response>,
) -> bool {
    match outcome {
        Err(e) => after == before && fails(r, e),
        Ok((h, v)) => moved(after, before, h, v) && answers_nothing(r),
    }
}

/// Give a session what a policy command asserts.
pub fn assert_policy(state: &mut TpmState, handle: u32, policy: PolicyState)
    requires
        old(state).wf(),
        old(state).sessions.loaded@.contains_key(handle),
        policy.wf(old(state).sessions.loaded@[handle].auth_hash),
    ensures
        final(state).wf(),
        moved(*final(state), *old(state), handle, policy@),
{
    match state.sessions.get_mut(handle) {
        Ok(s) => {
            s.policy = policy;
        },
        Err(_) => {},
    }
}

/// Give a session what a policy command asserts, and answer nothing.
fn conclude(state: &mut TpmState, handle: u32, policy: PolicyState) -> (r: TpmResult<Response>)
    requires
        old(state).wf(),
        old(state).sessions.loaded@.contains_key(handle),
        policy.wf(old(state).sessions.loaded@[handle].auth_hash),
    ensures
        final(state).wf(),
        moved(*final(state), *old(state), handle, policy@),
        answers_nothing(r),
{
    assert_policy(state, handle, policy);
    nothing()
}

/// Digests one after the other.
pub open spec fn all_of(items: Seq<Seq<u8>>) -> Seq<u8>
    decreases items.len(),
{
    if items.len() == 0 {
        Seq::empty()
    } else {
        all_of(items.drop_last()) + items.last()
    }
}

/// TPM2_PolicyOR: the digest must be one of the branches, and starts over from
/// all of them. A trial session satisfies any.
pub open spec fn policy_or_outcome(state: TpmState, req: RequestView) -> TpmResult<
    (u32, PolicyView),
> {
    match (req.handle(0), alone(req.parameters, TpmlDigest::parse(req.parameters, 0))) {
        (Err(e), _) => Err(e),
        (_, Err(e)) => Err(e),
        (Ok(h), Ok(items)) => match policy_at(state, h) {
            Err(e) => Err(e),
            Ok(s) => if !s.is_trial() && !items.contains(s.policy.digest@) {
                Err(TpmRc(rc::VALUE).for_parameter(1))
            } else {
                Ok(
                    (
                        h,
                        s.policy@.restarted(s.auth_hash).extended(
                            s.auth_hash,
                            cc::PolicyOR,
                            all_of(items),
                        ),
                    ),
                )
            },
        },
    }
}

/// True when a digest is among the items.
fn is_branch(list: &TpmlDigest, d: &[u8]) -> (r: bool)
    ensures
        r == contents(list.digests@).contains(d@),
{
    let mut i: usize = 0;
    while i < list.digests.len()
        invariant
            i <= list.digests@.len(),
            forall|k: int| 0 <= k < i ==> contents(list.digests@)[k] != d@,
        decreases list.digests@.len() - i,
    {
        if crate::util::bytes::constant_time_eq(list.digests[i].as_slice(), d) {
            assert(contents(list.digests@)[i as int] == d@);
            return true;
        }
        i = i + 1;
    }
    false
}

/// Digests one after the other.
fn join_digests(list: &TpmlDigest) -> (r: Vec<u8>)
    ensures
        r@ == all_of(contents(list.digests@)),
{
    let mut out: Vec<u8> = Vec::new();
    let mut i: usize = 0;
    let ghost items = contents(list.digests@);
    while i < list.digests.len()
        invariant
            i <= list.digests@.len(),
            items == contents(list.digests@),
            out@ == all_of(items.take(i as int)),
        decreases list.digests@.len() - i,
    {
        out.extend_from_slice(list.digests[i].as_slice());
        assert(items.take(i + 1).drop_last() =~= items.take(i as int));
        assert(out@ =~= all_of(items.take(i as int)) + items[i as int]);
        i = i + 1;
    }
    assert(items.take(i as int) =~= items);
    out
}

/// TPM2_PolicyOR.
pub fn policy_or(state: &mut TpmState, request: &Request) -> (r: TpmResult<Response>)
    requires
        old(state).wf(),
    ensures
        final(state).wf(),
        concluded(*final(state), *old(state), policy_or_outcome(*old(state), request@), r),
{
    let handle: u32 = request.handle(0)?;
    let mut reader: Reader = request.reader();
    let list: TpmlDigest = TpmlDigest::unmarshal(&mut reader)?;
    reader.expect_end()?;
    let s: &Session = policy_session(state, handle)?;
    if !s.is_trial() && !is_branch(&list, s.policy.digest.as_slice()) {
        return Err(TpmRc(rc::VALUE).with_parameter(1));
    }
    let mut policy: PolicyState = s.policy.copy();
    let hash_alg: u16 = s.auth_hash;
    let data: Vec<u8> = join_digests(&list);
    policy.restart_digest(hash_alg);
    policy.extend(hash_alg, cc::PolicyOR, data.as_slice());
    conclude(state, handle, policy)
}

/// A digest and a list of selections.
pub open spec fn parse_pcr(d: Seq<u8>) -> Parsed<(Seq<u8>, Seq<PcrSelection>)> {
    match parse_sized(d, 0, 64) {
        Err(e) => Err(e),
        Ok((expected, n1)) => match TpmlPcrSelection::parse(d, n1) {
            Err(e) => Err(e),
            Ok((items, n2)) => Ok(((expected, items), n2)),
        },
    }
}

/// TPM2_PolicyPCR: the registers must be what the caller says they are. A
/// trial session takes the caller's word.
pub open spec fn policy_pcr_outcome(state: TpmState, req: RequestView) -> TpmResult<
    (u32, PolicyView),
> {
    match (req.handle(0), alone(req.parameters, parse_pcr(req.parameters))) {
        (Err(e), _) => Err(e),
        (_, Err(e)) => Err(e),
        (Ok(h), Ok((expected, items))) => match policy_at(state, h) {
            Err(e) => Err(e),
            Ok(s) => {
                let kept = items.map_values(|i: PcrSelection| state.pcr.filtered(i));
                let now = state.pcr.digest_over(s.auth_hash, kept);
                if !s.is_trial() && expected.len() != 0 && expected != now {
                    Err(TpmRc(rc::VALUE).for_parameter(1))
                } else {
                    let claimed = if s.is_trial() && expected.len() != 0 {
                        expected
                    } else {
                        now
                    };
                    let v = s.policy@.extended(
                        s.auth_hash,
                        cc::PolicyPCR,
                        TpmlPcrSelection::octets_of(kept) + claimed,
                    );
                    Ok(
                        (
                            h,
                            if s.is_trial() {
                                v
                            } else {
                                PolicyView { pcr_update_counter: Some(state.pcr.counter), ..v }
                            },
                        ),
                    )
                }
            },
        },
    }
}

/// TPM2_PolicyPCR.
pub fn policy_pcr(state: &mut TpmState, request: &Request) -> (r: TpmResult<Response>)
    requires
        old(state).wf(),
    ensures
        final(state).wf(),
        concluded(*final(state), *old(state), policy_pcr_outcome(*old(state), request@), r),
{
    let handle: u32 = request.handle(0)?;
    let mut reader: Reader = request.reader();
    let expected: Vec<u8> = take_sized::<64>(&mut reader)?;
    let selection: TpmlPcrSelection = TpmlPcrSelection::unmarshal(&mut reader)?;
    reader.expect_end()?;
    let s: &Session = policy_session(state, handle)?;
    let hash_alg: u16 = s.auth_hash;
    let kept: TpmlPcrSelection = TpmlPcrSelection {
        items: state.pcr.filter_selection(selection.items.as_slice()),
    };
    let now: Vec<u8> = state.pcr.selection_digest(hash_alg, kept.items.as_slice())?;
    let trial: bool = s.is_trial();
    if !trial && expected.len() != 0 && !crate::util::bytes::constant_time_eq(
        expected.as_slice(),
        now.as_slice(),
    ) {
        return Err(TpmRc(rc::VALUE).with_parameter(1));
    }
    let mut data: Vec<u8> = kept.to_bytes();
    if trial && expected.len() != 0 {
        data.extend_from_slice(expected.as_slice());
    } else {
        data.extend_from_slice(now.as_slice());
    }
    let ghost claimed = if trial && expected@.len() != 0 {
        expected@
    } else {
        now@
    };
    assert(data@ =~= TpmlPcrSelection::octets_of(kept.items@) + claimed);
    let mut policy: PolicyState = s.policy.copy();
    policy.extend(hash_alg, cc::PolicyPCR, data.as_slice());
    if !trial {
        policy.pcr_update_counter = Some(state.pcr.update_counter());
    }
    conclude(state, handle, policy)
}

/// TPM2_PolicyLocality: a second call may only narrow what the first allowed.
pub open spec fn policy_locality_outcome(state: TpmState, req: RequestView) -> TpmResult<
    (u32, PolicyView),
> {
    match (req.handle(0), alone(req.parameters, raw_u8(req.parameters, 0))) {
        (Err(e), _) => Err(e),
        (_, Err(e)) => Err(e),
        (Ok(h), Ok(l)) => if l == 0 {
            Err(TpmRc(rc::RANGE).for_parameter(1))
        } else {
            match policy_at(state, h) {
                Err(e) => Err(e),
                Ok(s) => {
                    let both = match s.policy.locality {
                        Some(before) => before & l,
                        None => l,
                    };
                    if both == 0 {
                        Err(TpmRc(rc::RANGE).for_parameter(1))
                    } else {
                        Ok(
                            (
                                h,
                                PolicyView {
                                    locality: Some(both),
                                    ..s.policy@.extended(
                                        s.auth_hash,
                                        cc::PolicyLocality,
                                        seq![l],
                                    )
                                },
                            ),
                        )
                    }
                },
            }
        },
    }
}

/// TPM2_PolicyLocality.
pub fn policy_locality(state: &mut TpmState, request: &Request) -> (r: TpmResult<Response>)
    requires
        old(state).wf(),
    ensures
        final(state).wf(),
        concluded(*final(state), *old(state), policy_locality_outcome(*old(state), request@), r),
{
    let handle: u32 = request.handle(0)?;
    let mut reader: Reader = request.reader();
    let locality: u8 = reader.u8()?;
    reader.expect_end()?;
    if locality == 0 {
        return Err(TpmRc(rc::RANGE).with_parameter(1));
    }
    let s: &Session = policy_session(state, handle)?;
    let both: u8 = match s.policy.locality {
        Some(before) => before & locality,
        None => locality,
    };
    if both == 0 {
        return Err(TpmRc(rc::RANGE).with_parameter(1));
    }
    let mut policy: PolicyState = s.policy.copy();
    let hash_alg: u16 = s.auth_hash;
    let data: [u8; 1] = [locality];
    assert(data@ =~= seq![locality]);
    policy.extend(hash_alg, cc::PolicyLocality, data.as_slice());
    policy.locality = Some(both);
    conclude(state, handle, policy)
}

/// TPM2_PolicyCommandCode.
pub open spec fn policy_command_code_outcome(state: TpmState, req: RequestView) -> TpmResult<
    (u32, PolicyView),
> {
    match (req.handle(0), alone(req.parameters, raw_u32(req.parameters, 0))) {
        (Err(e), _) => Err(e),
        (_, Err(e)) => Err(e),
        (Ok(h), Ok(code)) => if super::table::found(code) is None {
            Err(TpmRc(rc::VALUE).for_parameter(1))
        } else {
            match policy_at(state, h) {
                Err(e) => Err(e),
                Ok(s) => if s.policy.command_code matches Some(c) && c != code {
                    Err(TpmRc(rc::VALUE).for_parameter(1))
                } else {
                    Ok(
                        (
                            h,
                            PolicyView {
                                command_code: Some(code),
                                ..s.policy@.extended(
                                    s.auth_hash,
                                    cc::PolicyCommandCode,
                                    octets32(code),
                                )
                            },
                        ),
                    )
                },
            }
        },
    }
}

/// TPM2_PolicyCommandCode.
pub fn policy_command_code(state: &mut TpmState, request: &Request) -> (r: TpmResult<Response>)
    requires
        old(state).wf(),
    ensures
        final(state).wf(),
        concluded(
            *final(state),
            *old(state),
            policy_command_code_outcome(*old(state), request@),
            r,
        ),
{
    let handle: u32 = request.handle(0)?;
    let mut reader: Reader = request.reader();
    let code: u32 = reader.u32()?;
    reader.expect_end()?;
    if lookup(code).is_none() {
        return Err(TpmRc(rc::VALUE).with_parameter(1));
    }
    let s: &Session = policy_session(state, handle)?;
    match s.policy.command_code {
        Some(c) => {
            if c != code {
                return Err(TpmRc(rc::VALUE).with_parameter(1));
            }
        },
        None => {},
    }
    let mut policy: PolicyState = s.policy.copy();
    let hash_alg: u16 = s.auth_hash;
    let mut data: Vec<u8> = Vec::new();
    push_be32(&mut data, code);
    assert(data@ =~= octets32(code));
    policy.extend(hash_alg, cc::PolicyCommandCode, data.as_slice());
    policy.command_code = Some(code);
    conclude(state, handle, policy)
}

/// A policy command without parameters.
pub open spec fn plain_outcome(
    state: TpmState,
    req: RequestView,
    code: u32,
    f: spec_fn(PolicyView) -> PolicyView,
) -> TpmResult<(u32, PolicyView)> {
    match req.handle(0) {
        Err(e) => Err(e),
        Ok(h) => match policy_at(state, h) {
            Err(e) => Err(e),
            Ok(s) => Ok((h, f(s.policy@.extended(s.auth_hash, code, Seq::empty())))),
        },
    }
}

/// A policy extended with a command that has no parameters.
fn plain(s: &Session, code: u32) -> (r: PolicyState)
    requires
        s.wf(),
    ensures
        r@ == s.policy@.extended(s.auth_hash, code, Seq::empty()),
        r.wf(s.auth_hash),
{
    let mut policy: PolicyState = s.policy.copy();
    let none: Vec<u8> = Vec::new();
    assert(none@ =~= Seq::<u8>::empty());
    policy.extend(s.auth_hash, code, none.as_slice());
    policy
}

/// TPM2_PolicyPhysicalPresence.
pub open spec fn policy_physical_presence_outcome(state: TpmState, req: RequestView) -> TpmResult<
    (u32, PolicyView),
> {
    plain_outcome(
        state,
        req,
        cc::PolicyPhysicalPresence,
        |v: PolicyView| PolicyView { physical_presence_required: true, ..v },
    )
}

/// TPM2_PolicyPhysicalPresence.
pub fn policy_physical_presence(state: &mut TpmState, request: &Request) -> (r: TpmResult<Response>)
    requires
        old(state).wf(),
    ensures
        final(state).wf(),
        concluded(
            *final(state),
            *old(state),
            policy_physical_presence_outcome(*old(state), request@),
            r,
        ),
{
    let handle: u32 = request.handle(0)?;
    let s: &Session = policy_session(state, handle)?;
    let mut policy: PolicyState = plain(s, cc::PolicyPhysicalPresence);
    policy.physical_presence_required = true;
    conclude(state, handle, policy)
}

/// TPM2_PolicyAuthValue.
pub open spec fn policy_auth_value_outcome(state: TpmState, req: RequestView) -> TpmResult<
    (u32, PolicyView),
> {
    plain_outcome(
        state,
        req,
        cc::PolicyAuthValue,
        |v: PolicyView| PolicyView { auth_value_needed: true, password_needed: false, ..v },
    )
}

/// TPM2_PolicyAuthValue.
pub fn policy_auth_value(state: &mut TpmState, request: &Request) -> (r: TpmResult<Response>)
    requires
        old(state).wf(),
    ensures
        final(state).wf(),
        concluded(*final(state), *old(state), policy_auth_value_outcome(*old(state), request@), r),
{
    let handle: u32 = request.handle(0)?;
    let s: &Session = policy_session(state, handle)?;
    let mut policy: PolicyState = plain(s, cc::PolicyAuthValue);
    policy.auth_value_needed = true;
    policy.password_needed = false;
    conclude(state, handle, policy)
}

/// TPM2_PolicyPassword: the digest is that of TPM2_PolicyAuthValue, so that a
/// policy can be satisfied either way.
pub open spec fn policy_password_outcome(state: TpmState, req: RequestView) -> TpmResult<
    (u32, PolicyView),
> {
    plain_outcome(
        state,
        req,
        cc::PolicyAuthValue,
        |v: PolicyView| PolicyView { auth_value_needed: false, password_needed: true, ..v },
    )
}

/// TPM2_PolicyPassword.
pub fn policy_password(state: &mut TpmState, request: &Request) -> (r: TpmResult<Response>)
    requires
        old(state).wf(),
    ensures
        final(state).wf(),
        concluded(*final(state), *old(state), policy_password_outcome(*old(state), request@), r),
{
    let handle: u32 = request.handle(0)?;
    let s: &Session = policy_session(state, handle)?;
    let mut policy: PolicyState = plain(s, cc::PolicyAuthValue);
    policy.password_needed = true;
    policy.auth_value_needed = false;
    conclude(state, handle, policy)
}

/// A password and an HMAC assertion leave the same digest.
pub proof fn law_a_password_stands_for_an_auth_value(state: TpmState, req: RequestView)
    ensures
        match (
            policy_password_outcome(state, req),
            policy_auth_value_outcome(state, req),
        ) {
            (Ok(a), Ok(b)) => a.0 == b.0 && a.1.digest == b.1.digest,
            (Err(a), Err(b)) => a == b,
            _ => false,
        },
{
}

/// TPM2_PolicyTransportSPDM: there is no such transport, so only a trial
/// session can assert it.
pub open spec fn policy_transport_spdm_outcome(state: TpmState, req: RequestView) -> TpmResult<
    (u32, PolicyView),
> {
    match req.handle(0) {
        Err(e) => Err(e),
        Ok(h) => match policy_at(state, h) {
            Err(e) => Err(e),
            Ok(s) => if !s.is_trial() {
                Err(TpmRc(rc::CHANNEL))
            } else {
                Ok(
                    (
                        h,
                        s.policy@.extended(s.auth_hash, cc::PolicyTransportSPDM, Seq::empty()),
                    ),
                )
            },
        },
    }
}

/// TPM2_PolicyTransportSPDM.
pub fn policy_transport_spdm(state: &mut TpmState, request: &Request) -> (r: TpmResult<Response>)
    requires
        old(state).wf(),
    ensures
        final(state).wf(),
        concluded(
            *final(state),
            *old(state),
            policy_transport_spdm_outcome(*old(state), request@),
            r,
        ),
{
    let handle: u32 = request.handle(0)?;
    let s: &Session = policy_session(state, handle)?;
    if !s.is_trial() {
        return Err(TpmRc(rc::CHANNEL));
    }
    let policy: PolicyState = plain(s, cc::PolicyTransportSPDM);
    conclude(state, handle, policy)
}

/// A digest that a policy command is given, which has to be one of the session's
/// hash.
pub open spec fn digest_given(state: TpmState, req: RequestView) -> TpmResult<
    (u32, Session, Seq<u8>),
> {
    match (req.handle(0), alone(req.parameters, parse_sized(req.parameters, 0, 64))) {
        (Err(e), _) => Err(e),
        (_, Err(e)) => Err(e),
        (Ok(h), Ok(d)) => match policy_at(state, h) {
            Err(e) => Err(e),
            Ok(s) => if d.len() != size_of(s.auth_hash) {
                Err(TpmRc(rc::SIZE).for_parameter(1))
            } else {
                Ok((h, s, d))
            },
        },
    }
}

/// A digest that a policy command is given.
fn given_digest<'a>(state: &'a TpmState, request: &Request) -> (r: TpmResult<
    (u32, &'a Session, Vec<u8>),
>)
    requires
        state.wf(),
    ensures
        match digest_given(*state, request@) {
            Ok((h, s, d)) => {
                &&& r is Ok
                &&& (r->Ok_0).0 == h
                &&& *((r->Ok_0).1) == s
                &&& (r->Ok_0).2@ == d
                &&& s.wf()
                &&& d.len() <= 64
                &&& state.sessions.loaded@.contains_key(h)
                &&& state.sessions.loaded@[h] == s
            },
            Err(e) => r is Err && r->Err_0 == e,
        },
{
    let handle: u32 = request.handle(0)?;
    let mut reader: Reader = request.reader();
    let d: Vec<u8> = take_sized::<64>(&mut reader)?;
    reader.expect_end()?;
    let s: &Session = policy_session(state, handle)?;
    let size: usize = digest_size(s.auth_hash)?;
    if d.len() != size {
        return Err(TpmRc(rc::SIZE).with_parameter(1));
    }
    Ok((handle, s, d))
}

/// TPM2_PolicyCpHash.
pub open spec fn policy_cp_hash_outcome(state: TpmState, req: RequestView) -> TpmResult<
    (u32, PolicyView),
> {
    match digest_given(state, req) {
        Err(e) => Err(e),
        Ok((h, s, d)) => if s.policy@.cp_hash matches Some(c) && c != d {
            Err(TpmRc(rc::CPHASH))
        } else {
            Ok(
                (
                    h,
                    PolicyView {
                        cp_hash: Some(d),
                        ..s.policy@.extended(s.auth_hash, cc::PolicyCpHash, d)
                    },
                ),
            )
        },
    }
}

/// TPM2_PolicyCpHash.
pub fn policy_cp_hash(state: &mut TpmState, request: &Request) -> (r: TpmResult<Response>)
    requires
        old(state).wf(),
    ensures
        final(state).wf(),
        concluded(*final(state), *old(state), policy_cp_hash_outcome(*old(state), request@), r),
{
    let (handle, s, d) = given_digest(state, request)?;
    match &s.policy.cp_hash {
        Some(c) => {
            if !crate::util::bytes::constant_time_eq(c.as_slice(), d.as_slice()) {
                return Err(TpmRc(rc::CPHASH));
            }
        },
        None => {},
    }
    let mut policy: PolicyState = s.policy.copy();
    policy.extend(s.auth_hash, cc::PolicyCpHash, d.as_slice());
    policy.cp_hash = Some(d);
    conclude(state, handle, policy)
}

/// TPM2_PolicyNameHash.
pub open spec fn policy_name_hash_outcome(state: TpmState, req: RequestView) -> TpmResult<
    (u32, PolicyView),
> {
    match digest_given(state, req) {
        Err(e) => Err(e),
        Ok((h, s, d)) => if s.policy@.cp_hash is Some {
            Err(TpmRc(rc::CPHASH))
        } else {
            Ok(
                (
                    h,
                    PolicyView {
                        name_hash: Some(d),
                        ..s.policy@.extended(s.auth_hash, cc::PolicyNameHash, d)
                    },
                ),
            )
        },
    }
}

/// TPM2_PolicyNameHash.
pub fn policy_name_hash(state: &mut TpmState, request: &Request) -> (r: TpmResult<Response>)
    requires
        old(state).wf(),
    ensures
        final(state).wf(),
        concluded(*final(state), *old(state), policy_name_hash_outcome(*old(state), request@), r),
{
    let (handle, s, d) = given_digest(state, request)?;
    if s.policy.cp_hash.is_some() {
        return Err(TpmRc(rc::CPHASH));
    }
    let mut policy: PolicyState = s.policy.copy();
    policy.extend(s.auth_hash, cc::PolicyNameHash, d.as_slice());
    policy.name_hash = Some(d);
    conclude(state, handle, policy)
}

/// TPM2_PolicyTemplate.
pub open spec fn policy_template_outcome(state: TpmState, req: RequestView) -> TpmResult<
    (u32, PolicyView),
> {
    match digest_given(state, req) {
        Err(e) => Err(e),
        Ok((h, s, d)) => if s.policy@.cp_hash is Some {
            Err(TpmRc(rc::CPHASH))
        } else {
            Ok(
                (
                    h,
                    PolicyView {
                        template_hash: Some(d),
                        ..s.policy@.extended(s.auth_hash, cc::PolicyTemplate, d)
                    },
                ),
            )
        },
    }
}

/// TPM2_PolicyTemplate.
pub fn policy_template(state: &mut TpmState, request: &Request) -> (r: TpmResult<Response>)
    requires
        old(state).wf(),
    ensures
        final(state).wf(),
        concluded(*final(state), *old(state), policy_template_outcome(*old(state), request@), r),
{
    let (handle, s, d) = given_digest(state, request)?;
    if s.policy.cp_hash.is_some() {
        return Err(TpmRc(rc::CPHASH));
    }
    let mut policy: PolicyState = s.policy.copy();
    policy.extend(s.auth_hash, cc::PolicyTemplate, d.as_slice());
    policy.template_hash = Some(d);
    conclude(state, handle, policy)
}

/// TPM2_PolicyParameters.
pub open spec fn policy_parameters_outcome(state: TpmState, req: RequestView) -> TpmResult<
    (u32, PolicyView),
> {
    match digest_given(state, req) {
        Err(e) => Err(e),
        Ok((h, s, d)) => Ok(
            (
                h,
                PolicyView {
                    parameters_hash: Some(d),
                    ..s.policy@.extended(s.auth_hash, cc::PolicyParameters, d)
                },
            ),
        ),
    }
}

/// TPM2_PolicyParameters.
pub fn policy_parameters(state: &mut TpmState, request: &Request) -> (r: TpmResult<Response>)
    requires
        old(state).wf(),
    ensures
        final(state).wf(),
        concluded(*final(state), *old(state), policy_parameters_outcome(*old(state), request@), r),
{
    let (handle, s, d) = given_digest(state, request)?;
    let mut policy: PolicyState = s.policy.copy();
    policy.extend(s.auth_hash, cc::PolicyParameters, d.as_slice());
    policy.parameters_hash = Some(d);
    conclude(state, handle, policy)
}

/// TPM2_PolicyGetDigest.
pub open spec fn policy_get_digest_ran(state: TpmState, req: RequestView, r: TpmResult<Response>)
    -> bool {
    match req.handle(0) {
        Err(e) => fails(r, e),
        Ok(h) => match policy_at(state, h) {
            Err(e) => fails(r, e),
            Ok(s) => answers_with(r, sized(s.policy.digest@)),
        },
    }
}

/// TPM2_PolicyGetDigest.
pub fn policy_get_digest(state: &TpmState, request: &Request) -> (r: TpmResult<Response>)
    requires
        state.wf(),
    ensures
        policy_get_digest_ran(*state, request@, r),
{
    let handle: u32 = request.handle(0)?;
    let s: &Session = policy_session(state, handle)?;
    let mut w: Writer = Writer::new();
    w.sized16(s.policy.digest.as_slice());
    assert(w.written() =~= sized(s.policy.digest@));
    respond(w)
}

/// A TPMI_YES_NO that ends the parameters at position `n`.
pub open spec fn yes_no_at(p: Seq<u8>, at: int, n: int) -> TpmResult<bool> {
    match raw_u8(p, at) {
        Err(e) => Err(e),
        Ok((v, next)) => if v > 1 {
            Err(TpmRc(rc::VALUE).for_parameter(n))
        } else if next != p.len() {
            Err(TpmRc(rc::SIZE))
        } else {
            Ok(v == 1)
        },
    }
}

/// Read a TPMI_YES_NO that ends the parameters.
fn read_yes_no(reader: &mut Reader, n: usize) -> (r: TpmResult<bool>)
    requires
        0 <= old(reader).at() <= old(reader).data().len(),
    ensures
        r == yes_no_at(old(reader).data(), old(reader).at(), n as int),
{
    let v: u8 = reader.u8()?;
    if v > 1 {
        return Err(TpmRc(rc::VALUE).with_parameter(n));
    }
    reader.expect_end()?;
    Ok(v == 1)
}

/// TPM2_PolicyNvWritten.
pub open spec fn policy_nv_written_outcome(state: TpmState, req: RequestView) -> TpmResult<
    (u32, PolicyView),
> {
    match (req.handle(0), yes_no_at(req.parameters, 0, 1)) {
        (Err(e), _) => Err(e),
        (_, Err(e)) => Err(e),
        (Ok(h), Ok(written)) => match policy_at(state, h) {
            Err(e) => Err(e),
            Ok(s) => if s.policy.nv_written matches Some(b) && b != written {
                Err(TpmRc(rc::VALUE).for_parameter(1))
            } else {
                Ok(
                    (
                        h,
                        PolicyView {
                            nv_written: Some(written),
                            ..s.policy@.extended(
                                s.auth_hash,
                                cc::PolicyNvWritten,
                                seq![yes_no_octet(written)],
                            )
                        },
                    ),
                )
            },
        },
    }
}

/// TPM2_PolicyNvWritten.
pub fn policy_nv_written(state: &mut TpmState, request: &Request) -> (r: TpmResult<Response>)
    requires
        old(state).wf(),
    ensures
        final(state).wf(),
        concluded(*final(state), *old(state), policy_nv_written_outcome(*old(state), request@), r),
{
    let handle: u32 = request.handle(0)?;
    let mut reader: Reader = request.reader();
    let written: bool = read_yes_no(&mut reader, 1)?;
    let s: &Session = policy_session(state, handle)?;
    match s.policy.nv_written {
        Some(b) => {
            if b != written {
                return Err(TpmRc(rc::VALUE).with_parameter(1));
            }
        },
        None => {},
    }
    let mut policy: PolicyState = s.policy.copy();
    let octet: u8 = if written {
        1
    } else {
        0
    };
    let data: [u8; 1] = [octet];
    assert(data@ =~= seq![yes_no_octet(written)]);
    policy.extend(s.auth_hash, cc::PolicyNvWritten, data.as_slice());
    policy.nv_written = Some(written);
    conclude(state, handle, policy)
}

/// True for octets whose first bit is set, which a signed comparison takes for
/// a negative number.
pub open spec fn negative(a: Seq<u8>) -> bool {
    a.len() > 0 && a[0] >= 128
}

/// True when `a` is below `b` as unsigned numbers.
pub open spec fn below(a: Seq<u8>, b: Seq<u8>) -> bool {
    number_of(a) < number_of(b)
}

/// True when `a` is below `b` as signed numbers.
pub open spec fn signed_below(a: Seq<u8>, b: Seq<u8>) -> bool {
    if negative(a) != negative(b) {
        negative(a)
    } else {
        below(a, b)
    }
}

/// What a comparison of two operands of the same length says. An operation
/// that is not known and operands of different lengths have no answer.
pub open spec fn comparison(a: Seq<u8>, b: Seq<u8>, operation: u16) -> Option<bool> {
    if a.len() != b.len() {
        None
    } else if operation == eo::EQ {
        Some(a == b)
    } else if operation == eo::NEQ {
        Some(a != b)
    } else if operation == eo::SIGNED_GT {
        Some(signed_below(b, a))
    } else if operation == eo::UNSIGNED_GT {
        Some(below(b, a))
    } else if operation == eo::SIGNED_LT {
        Some(signed_below(a, b))
    } else if operation == eo::UNSIGNED_LT {
        Some(below(a, b))
    } else if operation == eo::SIGNED_GE {
        Some(!signed_below(a, b))
    } else if operation == eo::UNSIGNED_GE {
        Some(!below(a, b))
    } else if operation == eo::SIGNED_LE {
        Some(!signed_below(b, a))
    } else if operation == eo::UNSIGNED_LE {
        Some(!below(b, a))
    } else if operation == eo::BITSET {
        Some(forall|i: int| 0 <= i < a.len() ==> a[i] & b[i] == #[trigger] b[i])
    } else if operation == eo::BITCLEAR {
        Some(forall|i: int| 0 <= i < a.len() ==> #[trigger] a[i] & b[i] == 0)
    } else {
        None
    }
}

/// True when `a` is below `b` as unsigned numbers.
fn is_below(a: &[u8], b: &[u8]) -> (r: bool)
    ensures
        r == below(a@, b@),
{
    BigNum::from_bytes(a).less(&BigNum::from_bytes(b))
}

/// True when `a` is below `b` as signed numbers.
fn is_signed_below(a: &[u8], b: &[u8]) -> (r: bool)
    ensures
        r == signed_below(a@, b@),
{
    let first: bool = a.len() > 0 && a[0] >= 128;
    let second: bool = b.len() > 0 && b[0] >= 128;
    if first != second {
        return first;
    }
    is_below(a, b)
}

/// True when every bit of `b` is set in `a`.
fn has_bits(a: &[u8], b: &[u8]) -> (r: bool)
    requires
        a@.len() == b@.len(),
    ensures
        r == (forall|i: int| 0 <= i < a@.len() ==> a@[i] & b@[i] == #[trigger] b@[i]),
{
    let mut i: usize = 0;
    while i < a.len()
        invariant
            i <= a@.len(),
            a@.len() == b@.len(),
            forall|k: int| 0 <= k < i ==> a@[k] & b@[k] == #[trigger] b@[k],
        decreases a@.len() - i,
    {
        if a[i] & b[i] != b[i] {
            assert(a@[i as int] & b@[i as int] != b@[i as int]);
            return false;
        }
        i = i + 1;
    }
    true
}

/// True when no bit of `b` is set in `a`.
fn lacks_bits(a: &[u8], b: &[u8]) -> (r: bool)
    requires
        a@.len() == b@.len(),
    ensures
        r == (forall|i: int| 0 <= i < a@.len() ==> #[trigger] a@[i] & b@[i] == 0),
{
    let mut i: usize = 0;
    while i < a.len()
        invariant
            i <= a@.len(),
            a@.len() == b@.len(),
            forall|k: int| 0 <= k < i ==> #[trigger] a@[k] & b@[k] == 0,
        decreases a@.len() - i,
    {
        if a[i] & b[i] != 0 {
            assert(a@[i as int] & b@[i as int] != 0);
            return false;
        }
        i = i + 1;
    }
    true
}

/// Compare two operands of the same length.
pub fn compare(a: &[u8], b: &[u8], operation: u16) -> (r: Option<bool>)
    ensures
        r == comparison(a@, b@, operation),
{
    if a.len() != b.len() {
        return None;
    }
    if operation == eo::EQ {
        Some(crate::util::bytes::constant_time_eq(a, b))
    } else if operation == eo::NEQ {
        Some(!crate::util::bytes::constant_time_eq(a, b))
    } else if operation == eo::SIGNED_GT {
        Some(is_signed_below(b, a))
    } else if operation == eo::UNSIGNED_GT {
        Some(is_below(b, a))
    } else if operation == eo::SIGNED_LT {
        Some(is_signed_below(a, b))
    } else if operation == eo::UNSIGNED_LT {
        Some(is_below(a, b))
    } else if operation == eo::SIGNED_GE {
        Some(!is_signed_below(a, b))
    } else if operation == eo::UNSIGNED_GE {
        Some(!is_below(a, b))
    } else if operation == eo::SIGNED_LE {
        Some(!is_signed_below(b, a))
    } else if operation == eo::UNSIGNED_LE {
        Some(!is_below(b, a))
    } else if operation == eo::BITSET {
        Some(has_bits(a, b))
    } else if operation == eo::BITCLEAR {
        Some(lacks_bits(a, b))
    } else {
        None
    }
}

/// An operand, where to compare it and how.
pub open spec fn parse_operand(d: Seq<u8>) -> Parsed<(Seq<u8>, u16, u16)> {
    match parse_sized(d, 0, 64) {
        Err(e) => Err(e),
        Ok((operand, n1)) => match raw_u16(d, n1) {
            Err(e) => Err(e),
            Ok((offset, n2)) => match raw_u16(d, n2) {
                Err(e) => Err(e),
                Ok((operation, n3)) => Ok(((operand, offset, operation), n3)),
            },
        },
    }
}

/// Read an operand, where to compare it and how.
fn read_operand(reader: &mut Reader) -> (out: TpmResult<(Vec<u8>, u16, u16)>)
    requires
        old(reader).at() == 0,
    ensures
        final(reader).data() == old(reader).data(),
        0 <= old(reader).at() <= final(reader).at() <= final(reader).data().len(),
        match parse_operand(old(reader).data()) {
            Ok((v, next)) => {
                &&& out is Ok
                &&& (out->Ok_0).0@ == v.0
                &&& (out->Ok_0).1 == v.1
                &&& (out->Ok_0).2 == v.2
                &&& v.0.len() <= 64
                &&& final(reader).at() == next
            },
            Err(e) => out is Err && out->Err_0 == e,
        },
{
    let operand: Vec<u8> = take_sized::<64>(reader)?;
    let offset: u16 = reader.u16()?;
    let operation: u16 = reader.u16()?;
    Ok((operand, offset, operation))
}

/// What a comparison adds to a policy digest.
pub open spec fn operand_hash(h: u16, operand: Seq<u8>, offset: u16, operation: u16) -> Seq<u8> {
    hash_of(h, operand + octets16(offset) + octets16(operation))
}

/// What a comparison adds to a policy digest.
fn hash_operand(h: u16, operand: &[u8], offset: u16, operation: u16) -> (r: Vec<u8>)
    requires
        supported(h),
    ensures
        r@ == operand_hash(h, operand@, offset, operation),
{
    let mut data: Vec<u8> = to_vec(operand);
    push_be16(&mut data, offset);
    push_be16(&mut data, operation);
    assert(data@ =~= operand@ + octets16(offset) + octets16(operation));
    match digest(h, data.as_slice()) {
        Ok(d) => d,
        Err(_) => Vec::new(),
    }
}

/// The time that TPM2_PolicyCounterTimer compares with.
pub open spec fn time_octets(state: TpmState) -> Seq<u8> {
    octets64(state.clock.time) + clock_info_of(state).octets()
}

/// The time that TPM2_PolicyCounterTimer compares with.
fn time_bytes(state: &TpmState) -> (r: Vec<u8>)
    ensures
        r@ == time_octets(*state),
        r@.len() == 25,
{
    let mut w: Writer = Writer::new();
    w.u64(state.clock.time);
    clock_info(state).marshal(&mut w);
    assert(w.written() =~= time_octets(*state));
    w.into_vec()
}

/// TPM2_PolicyCounterTimer: the comparison with the time must hold, which a
/// trial session does not need.
pub open spec fn policy_counter_timer_outcome(state: TpmState, req: RequestView) -> TpmResult<
    (u32, PolicyView),
> {
    match (req.handle(0), alone(req.parameters, parse_operand(req.parameters))) {
        (Err(e), _) => Err(e),
        (_, Err(e)) => Err(e),
        (Ok(h), Ok((operand, offset, operation))) => if offset + operand.len() > 25 {
            Err(TpmRc(rc::RANGE).for_parameter(2))
        } else {
            match (
                comparison(
                    time_octets(state).subrange(offset as int, offset + operand.len()),
                    operand,
                    operation,
                ),
                policy_at(state, h),
            ) {
                (None, _) => Err(TpmRc(rc::VALUE).for_parameter(3)),
                (_, Err(e)) => Err(e),
                (Some(holds), Ok(s)) => if !holds && !s.is_trial() {
                    Err(TpmRc(rc::POLICY))
                } else {
                    Ok(
                        (
                            h,
                            s.policy@.extended(
                                s.auth_hash,
                                cc::PolicyCounterTimer,
                                operand_hash(s.auth_hash, operand, offset, operation),
                            ),
                        ),
                    )
                },
            }
        },
    }
}

/// TPM2_PolicyCounterTimer.
pub fn policy_counter_timer(state: &mut TpmState, request: &Request) -> (r: TpmResult<Response>)
    requires
        old(state).wf(),
    ensures
        final(state).wf(),
        concluded(
            *final(state),
            *old(state),
            policy_counter_timer_outcome(*old(state), request@),
            r,
        ),
{
    let handle: u32 = request.handle(0)?;
    let mut reader: Reader = request.reader();
    let (operand, offset, operation) = read_operand(&mut reader)?;
    reader.expect_end()?;
    let bytes: Vec<u8> = time_bytes(state);
    let start: usize = offset as usize;
    let end: usize = start + operand.len();
    if end > bytes.len() {
        return Err(TpmRc(rc::RANGE).with_parameter(2));
    }
    let part: Vec<u8> = sub_vec(bytes.as_slice(), start, end);
    let holds: bool = match compare(part.as_slice(), operand.as_slice(), operation) {
        Some(b) => b,
        None => {
            return Err(TpmRc(rc::VALUE).with_parameter(3));
        },
    };
    let s: &Session = policy_session(state, handle)?;
    if !holds && !s.is_trial() {
        return Err(TpmRc(rc::POLICY));
    }
    let args: Vec<u8> = hash_operand(s.auth_hash, operand.as_slice(), offset, operation);
    let mut policy: PolicyState = s.policy.copy();
    policy.extend(s.auth_hash, cc::PolicyCounterTimer, args.as_slice());
    conclude(state, handle, policy)
}

/// Two Names and whether the first is part of the policy.
pub open spec fn parse_names(d: Seq<u8>) -> TpmResult<(Seq<u8>, Seq<u8>, bool)> {
    match parse_sized(d, 0, 68) {
        Err(e) => Err(e),
        Ok((object, n1)) => match parse_sized(d, n1, 68) {
            Err(e) => Err(e),
            Ok((parent, n2)) => match yes_no_at(d, n2, 3) {
                Err(e) => Err(e),
                Ok(with) => Ok((object, parent, with)),
            },
        },
    }
}

/// The Names that a selection puts in the policy digest.
pub open spec fn selected_names(object: Seq<u8>, rest: Seq<u8>, with: bool) -> Seq<u8> {
    (if with {
        object
    } else {
        Seq::empty()
    }) + rest + seq![yes_no_octet(with)]
}

/// The Names that a selection puts in the policy digest.
fn join_names(object: &[u8], rest: &[u8], with: bool) -> (r: Vec<u8>)
    ensures
        r@ == selected_names(object@, rest@, with),
{
    let mut data: Vec<u8> = Vec::new();
    if with {
        data.extend_from_slice(object);
    }
    data.extend_from_slice(rest);
    data.push(
        if with {
            1
        } else {
            0
        },
    );
    assert(data@ =~= selected_names(object@, rest@, with));
    data
}

/// TPM2_PolicyDuplicationSelect: the Names are those of an object and its new
/// parent, and only a duplication may follow.
pub open spec fn policy_duplication_select_outcome(state: TpmState, req: RequestView) -> TpmResult<
    (u32, PolicyView),
> {
    match (req.handle(0), parse_names(req.parameters)) {
        (Err(e), _) => Err(e),
        (_, Err(e)) => Err(e),
        (Ok(h), Ok((object, parent, with))) => match policy_at(state, h) {
            Err(e) => Err(e),
            Ok(s) => if s.policy@.cp_hash is Some {
                Err(TpmRc(rc::CPHASH))
            } else {
                Ok(
                    (
                        h,
                        PolicyView {
                            name_hash: Some(hash_of(s.auth_hash, object + parent)),
                            command_code: Some(cc::Duplicate),
                            ..s.policy@.extended(
                                s.auth_hash,
                                cc::PolicyDuplicationSelect,
                                selected_names(object, parent, with),
                            )
                        },
                    ),
                )
            },
        },
    }
}

/// TPM2_PolicyDuplicationSelect.
pub fn policy_duplication_select(state: &mut TpmState, request: &Request) -> (r: TpmResult<Response>)
    requires
        old(state).wf(),
    ensures
        final(state).wf(),
        concluded(
            *final(state),
            *old(state),
            policy_duplication_select_outcome(*old(state), request@),
            r,
        ),
{
    broadcast use lemma_hash_len;

    let handle: u32 = request.handle(0)?;
    let mut reader: Reader = request.reader();
    let object: Vec<u8> = take_sized::<68>(&mut reader)?;
    let parent: Vec<u8> = take_sized::<68>(&mut reader)?;
    let with: bool = read_yes_no(&mut reader, 3)?;
    let s: &Session = policy_session(state, handle)?;
    if s.policy.cp_hash.is_some() {
        return Err(TpmRc(rc::CPHASH));
    }
    let mut both: Vec<u8> = to_vec(object.as_slice());
    both.extend_from_slice(parent.as_slice());
    assert(both@ =~= object@ + parent@);
    let name_hash: Vec<u8> = digest(s.auth_hash, both.as_slice())?;
    let data: Vec<u8> = join_names(object.as_slice(), parent.as_slice(), with);
    let mut policy: PolicyState = s.policy.copy();
    policy.extend(s.auth_hash, cc::PolicyDuplicationSelect, data.as_slice());
    policy.name_hash = Some(name_hash);
    policy.command_code = Some(cc::Duplicate);
    conclude(state, handle, policy)
}

/// Three Names and whether the first is part of the policy.
pub open spec fn parse_ac_names(d: Seq<u8>) -> TpmResult<(Seq<u8>, Seq<u8>, bool)> {
    match parse_sized(d, 0, 68) {
        Err(e) => Err(e),
        Ok((object, n1)) => match parse_sized(d, n1, 68) {
            Err(e) => Err(e),
            Ok((auth, n2)) => match parse_sized(d, n2, 68) {
                Err(e) => Err(e),
                Ok((ac, n3)) => match yes_no_at(d, n3, 4) {
                    Err(e) => Err(e),
                    Ok(with) => Ok((object, auth + ac, with)),
                },
            },
        },
    }
}

/// TPM2_Policy_AC_SendSelect.
pub open spec fn policy_ac_send_select_outcome(state: TpmState, req: RequestView) -> TpmResult<
    (u32, PolicyView),
> {
    match (req.handle(0), parse_ac_names(req.parameters)) {
        (Err(e), _) => Err(e),
        (_, Err(e)) => Err(e),
        (Ok(h), Ok((object, rest, with))) => match policy_at(state, h) {
            Err(e) => Err(e),
            Ok(s) => Ok(
                (
                    h,
                    PolicyView {
                        command_code: Some(cc::AC_Send),
                        ..s.policy@.extended(
                            s.auth_hash,
                            cc::Policy_AC_SendSelect,
                            selected_names(object, rest, with),
                        )
                    },
                ),
            ),
        },
    }
}

/// TPM2_Policy_AC_SendSelect.
pub fn policy_ac_send_select(state: &mut TpmState, request: &Request) -> (r: TpmResult<Response>)
    requires
        old(state).wf(),
    ensures
        final(state).wf(),
        concluded(
            *final(state),
            *old(state),
            policy_ac_send_select_outcome(*old(state), request@),
            r,
        ),
{
    let handle: u32 = request.handle(0)?;
    let mut reader: Reader = request.reader();
    let object: Vec<u8> = take_sized::<68>(&mut reader)?;
    let auth: Vec<u8> = take_sized::<68>(&mut reader)?;
    let ac: Vec<u8> = take_sized::<68>(&mut reader)?;
    let with: bool = read_yes_no(&mut reader, 4)?;
    let s: &Session = policy_session(state, handle)?;
    let mut rest: Vec<u8> = to_vec(auth.as_slice());
    rest.extend_from_slice(ac.as_slice());
    assert(rest@ =~= auth@ + ac@);
    let data: Vec<u8> = join_names(object.as_slice(), rest.as_slice(), with);
    let mut policy: PolicyState = s.policy.copy();
    policy.extend(s.auth_hash, cc::Policy_AC_SendSelect, data.as_slice());
    policy.command_code = Some(cc::AC_Send);
    conclude(state, handle, policy)
}

/// TPM2_PolicyNV: the comparison with the contents of the Index must hold,
/// which a trial session does not need.
pub open spec fn policy_nv_outcome(state: TpmState, req: RequestView) -> TpmResult<
    (u32, PolicyView),
> {
    match (
        req.handle(1),
        req.handle(2),
        alone(req.parameters, parse_operand(req.parameters)),
    ) {
        (Err(e), _, _) => Err(e),
        (_, Err(e), _) => Err(e),
        (_, _, Err(e)) => Err(e),
        (Ok(n), Ok(h), Ok((operand, offset, operation))) => if !state.nv.indices@.contains_key(n) {
            Err(TpmRc(rc::HANDLE).for_handle(2))
        } else if state.nv.indices@[n].read_locked {
            Err(TpmRc(rc::NV_LOCKED))
        } else {
            match state.nv.indices@[n].reading(offset, operand.len() as u16) {
                Err(e) => Err(e),
                Ok(data) => match (comparison(data, operand, operation), policy_at(state, h)) {
                    (None, _) => Err(TpmRc(rc::VALUE).for_parameter(3)),
                    (_, Err(e)) => Err(e),
                    (Some(holds), Ok(s)) => if !holds && !s.is_trial() {
                        Err(TpmRc(rc::POLICY))
                    } else {
                        Ok(
                            (
                                h,
                                s.policy@.extended(
                                    s.auth_hash,
                                    cc::PolicyNV,
                                    operand_hash(s.auth_hash, operand, offset, operation)
                                        + state.nv.indices@[n].name_of(),
                                ),
                            ),
                        )
                    },
                },
            }
        },
    }
}

/// TPM2_PolicyNV.
pub fn policy_nv(state: &mut TpmState, request: &Request) -> (r: TpmResult<Response>)
    requires
        old(state).wf(),
    ensures
        final(state).wf(),
        concluded(*final(state), *old(state), policy_nv_outcome(*old(state), request@), r),
{
    let nv_handle: u32 = request.handle(1)?;
    let handle: u32 = request.handle(2)?;
    let mut reader: Reader = request.reader();
    let (operand, offset, operation) = read_operand(&mut reader)?;
    reader.expect_end()?;
    let index = match state.nv.get(nv_handle) {
        Ok(i) => i,
        Err(e) => {
            return Err(e.with_handle(2));
        },
    };
    if index.read_locked {
        return Err(TpmRc(rc::NV_LOCKED));
    }
    let data: Vec<u8> = index.read(offset, operand.len() as u16)?;
    let name: Vec<u8> = index.name();
    let holds: bool = match compare(data.as_slice(), operand.as_slice(), operation) {
        Some(b) => b,
        None => {
            return Err(TpmRc(rc::VALUE).with_parameter(3));
        },
    };
    let s: &Session = policy_session(state, handle)?;
    if !holds && !s.is_trial() {
        return Err(TpmRc(rc::POLICY));
    }
    let mut payload: Vec<u8> = hash_operand(s.auth_hash, operand.as_slice(), offset, operation);
    payload.extend_from_slice(name.as_slice());
    assert(payload@ =~= operand_hash(s.auth_hash, operand@, offset, operation) + name@);
    let mut policy: PolicyState = s.policy.copy();
    policy.extend(s.auth_hash, cc::PolicyNV, payload.as_slice());
    conclude(state, handle, policy)
}

/// Whether what an Index holds starts with the policy of the session.
pub open spec fn stored_policy(stored: Seq<u8>, s: Session) -> TpmResult<()> {
    match TpmtHa::parse(stored, 0, true) {
        Err(e) => Err(e),
        Ok((ha, _)) => if ha.0 != s.auth_hash || ha.1 != s.policy.digest@ {
            Err(TpmRc(rc::VALUE).for_handle(2))
        } else {
            Ok(())
        },
    }
}

/// TPM2_PolicyAuthorizeNV: the Index holds the policy that is approved.
pub open spec fn policy_authorize_nv_outcome(state: TpmState, req: RequestView) -> TpmResult<
    (u32, PolicyView),
> {
    match (req.handle(1), req.handle(2)) {
        (Err(e), _) => Err(e),
        (_, Err(e)) => Err(e),
        (Ok(n), Ok(h)) => if !state.nv.indices@.contains_key(n) {
            Err(TpmRc(rc::HANDLE).for_handle(2))
        } else if state.nv.indices@[n].read_locked {
            Err(TpmRc(rc::NV_LOCKED))
        } else {
            let index = state.nv.indices@[n];
            match (index.reading(0, index.public.data_size), policy_at(state, h)) {
                (Err(e), _) => Err(e),
                (_, Err(e)) => Err(e),
                (Ok(stored), Ok(s)) => if !s.is_trial() && stored_policy(stored, s) is Err {
                    Err(stored_policy(stored, s)->Err_0)
                } else {
                    Ok(
                        (
                            h,
                            s.policy@.restarted(s.auth_hash).extended(
                                s.auth_hash,
                                cc::PolicyAuthorizeNV,
                                index.name_of(),
                            ),
                        ),
                    )
                },
            }
        },
    }
}

/// Whether what an Index holds starts with the policy of the session.
fn check_stored(stored: &[u8], s: &Session) -> (r: TpmResult<()>)
    ensures
        r == stored_policy(stored@, *s),
{
    let mut reader: Reader = Reader::new(stored);
    let ha: TpmtHa = TpmtHa::unmarshal(&mut reader, true)?;
    if ha.hash_alg != s.auth_hash || !crate::util::bytes::constant_time_eq(
        ha.digest.as_slice(),
        s.policy.digest.as_slice(),
    ) {
        return Err(TpmRc(rc::VALUE).with_handle(2));
    }
    Ok(())
}

/// TPM2_PolicyAuthorizeNV.
pub fn policy_authorize_nv(state: &mut TpmState, request: &Request) -> (r: TpmResult<Response>)
    requires
        old(state).wf(),
    ensures
        final(state).wf(),
        concluded(*final(state), *old(state), policy_authorize_nv_outcome(*old(state), request@), r),
{
    let nv_handle: u32 = request.handle(1)?;
    let handle: u32 = request.handle(2)?;
    let index = match state.nv.get(nv_handle) {
        Ok(i) => i,
        Err(e) => {
            return Err(e.with_handle(2));
        },
    };
    if index.read_locked {
        return Err(TpmRc(rc::NV_LOCKED));
    }
    let stored: Vec<u8> = index.read(0, index.public.data_size)?;
    let name: Vec<u8> = index.name();
    let s: &Session = policy_session(state, handle)?;
    if !s.is_trial() {
        check_stored(stored.as_slice(), s)?;
    }
    let mut policy: PolicyState = s.policy.copy();
    policy.restart_digest(s.auth_hash);
    policy.extend(s.auth_hash, cc::PolicyAuthorizeNV, name.as_slice());
    conclude(state, handle, policy)
}

/// An operand, where to compare it, how, and with which property.
pub open spec fn parse_property(d: Seq<u8>) -> Parsed<(Seq<u8>, u16, u16, u32, u32)> {
    match parse_operand(d) {
        Err(e) => Err(e),
        Ok((o, n1)) => match raw_u32(d, n1) {
            Err(e) => Err(e),
            Ok((capability, n2)) => match raw_u32(d, n2) {
                Err(e) => Err(e),
                Ok((property, n3)) => Ok(((o.0, o.1, o.2, capability, property), n3)),
            },
        },
    }
}

/// Whether a property of the TPM compares with an operand as a policy asks for.
/// A property that the TPM does not have satisfies no comparison, so it is
/// answered as one that fails.
pub open spec fn property_check(
    state: TpmState,
    operand: Seq<u8>,
    offset: u16,
    operation: u16,
    capability: u32,
    property: u32,
) -> TpmResult<()> {
    match property_of(state, capability, property) {
        Err(e) => Err(e),
        Ok(None) => Err(TpmRc(rc::POLICY)),
        Ok(Some(d)) => if offset + operand.len() > d.len() {
            Err(TpmRc(rc::RANGE).for_parameter(2))
        } else {
            match comparison(
                d.subrange(offset as int, offset + operand.len()),
                operand,
                operation,
            ) {
                None => Err(TpmRc(rc::VALUE).for_parameter(3)),
                Some(holds) => if holds {
                    Ok(())
                } else {
                    Err(TpmRc(rc::POLICY))
                },
            }
        },
    }
}

/// TPM2_PolicyCapability: the property has to compare with the operand, unless
/// the session only tries the policy out.
pub open spec fn policy_capability_outcome(state: TpmState, req: RequestView) -> TpmResult<
    (u32, PolicyView),
> {
    match (req.handle(0), alone(req.parameters, parse_property(req.parameters))) {
        (Err(e), _) => Err(e),
        (_, Err(e)) => Err(e),
        (Ok(h), Ok((operand, offset, operation, capability, property))) => match policy_at(
            state,
            h,
        ) {
            Err(e) => Err(e),
            Ok(s) => match property_check(
                state,
                operand,
                offset,
                operation,
                capability,
                property,
            ) {
                Err(e) if !s.is_trial() => Err(e),
                _ => Ok(
                    (
                        h,
                        s.policy@.extended(
                            s.auth_hash,
                            cc::PolicyCapability,
                            hash_of(
                                s.auth_hash,
                                operand + octets16(offset) + octets16(operation) + octets32(
                                    capability,
                                ) + octets32(property),
                            ),
                        ),
                    ),
                ),
            },
        },
    }
}

/// Check that a property of the TPM compares with an operand.
fn check_property(
    state: &TpmState,
    operand: &[u8],
    offset: u16,
    operation: u16,
    capability: u32,
    property: u32,
) -> (r: TpmResult<()>)
    requires
        state.wf(),
        operand@.len() <= 0xFFFF,
    ensures
        r == property_check(*state, operand@, offset, operation, capability, property),
{
    let d: Vec<u8> = match capability_property(state, capability, property)? {
        Some(d) => d,
        None => {
            return Err(TpmRc(rc::POLICY));
        },
    };
    let start: usize = offset as usize;
    let end: usize = start + operand.len();
    if end > d.len() {
        return Err(TpmRc(rc::RANGE).with_parameter(2));
    }
    let held: Vec<u8> = sub_vec(d.as_slice(), start, end);
    match compare(held.as_slice(), operand, operation) {
        None => Err(TpmRc(rc::VALUE).with_parameter(3)),
        Some(true) => Ok(()),
        Some(false) => Err(TpmRc(rc::POLICY)),
    }
}

/// TPM2_PolicyCapability.
pub fn policy_capability(state: &mut TpmState, request: &Request) -> (r: TpmResult<Response>)
    requires
        old(state).wf(),
    ensures
        final(state).wf(),
        concluded(*final(state), *old(state), policy_capability_outcome(*old(state), request@), r),
{
    let handle: u32 = request.handle(0)?;
    let mut reader: Reader = request.reader();
    let (operand, offset, operation) = read_operand(&mut reader)?;
    let capability: u32 = reader.u32()?;
    let property: u32 = reader.u32()?;
    reader.expect_end()?;
    let s: &Session = policy_session(state, handle)?;
    if !s.is_trial() {
        check_property(state, operand.as_slice(), offset, operation, capability, property)?;
    }
    let mut data: Vec<u8> = to_vec(operand.as_slice());
    push_be16(&mut data, offset);
    push_be16(&mut data, operation);
    push_be32(&mut data, capability);
    push_be32(&mut data, property);
    assert(data@ =~= operand@ + octets16(offset) + octets16(operation) + octets32(capability)
        + octets32(property));
    let args: Vec<u8> = digest(s.auth_hash, data.as_slice())?;
    let mut policy: PolicyState = s.policy.copy();
    policy.extend(s.auth_hash, cc::PolicyCapability, args.as_slice());
    conclude(state, handle, policy)
}

/// True when `alg_id` may be the hash of a session.
pub fn is_session_hash(alg_id: u16) -> (r: bool)
    ensures
        r == supported(alg_id),
{
    alg_id != alg::NULL && is_supported(alg_id)
}

/// The name of a session type.
pub open spec fn session_label(session_type: u8) -> Seq<char> {
    if session_type == se::HMAC {
        "HMAC"@
    } else if session_type == se::POLICY {
        "policy"@
    } else if session_type == se::TRIAL {
        "trial"@
    } else {
        "unknown"@
    }
}

/// The name of a session type, for messages.
pub fn session_type_name(session_type: u8) -> (r: &'static str)
    ensures
        r@ == session_label(session_type),
{
    if session_type == se::HMAC {
        "HMAC"
    } else if session_type == se::POLICY {
        "policy"
    } else if session_type == se::TRIAL {
        "trial"
    } else {
        "unknown"
    }
}

/// A policy command that fails changes nothing, and one that succeeds changes
/// only what its own session asserts.
pub proof fn law_a_policy_command_moves_one_session(
    after: TpmState,
    before: TpmState,
    outcome: TpmResult<(u32, PolicyView)>,
    r: TpmResult<Response>,
    other: u32,
)
    requires
        concluded(after, before, outcome, r),
        outcome matches Ok((h, _)) ==> h != other,
    ensures
        r is Err ==> after == before,
        after.sessions.loaded@.contains_key(other) == before.sessions.loaded@.contains_key(other),
        after.sessions.loaded@[other] == before.sessions.loaded@[other],
{
}

} // verus!
