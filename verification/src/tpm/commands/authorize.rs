//! Authorization.

use vstd::prelude::*;

use super::dispatch::{
    handle_name, name_of, Entity, EntityView, Request, RequestView, SessionInput,
};
use super::handles::{access_of, nv_access, role, role_of, NvAccess, Role};
use super::parameters::{body_at, find_first, first_sized_parameter_at, first_with};
use crate::tpm::constants::range::is_nv;
use crate::tpm::constants::{cc, nt, rc, rh};
use crate::tpm::crypto::hash::{digest, hash_of};
use crate::tpm::engine::nv::NvIndex;
use crate::tpm::engine::session::{
    auth_hmac_accepted, auth_hmac_of, auth_hmac_with_nonces, cp_hash, cp_hash_of, hmac_accepted,
    trim_auth, trimmed, Session,
};
use crate::tpm::engine::state::{Lockout, TpmState};
use crate::tpm::error::{TpmRc, TpmResult};
use crate::tpm::structures::attributes::{NvAttributes, SessionAttributes};
use crate::tpm::structures::auth::AuthView;
use crate::tpm::structures::nv::NvPinCounterParameters;
use crate::util::bytes::{
    be32, constant_time_eq, lemma_octets32, octets32, push_be32, to_vec,
};

verus! {

/// The nonceTPM of the session at a place, empty when it is not loaded.
pub open spec fn nonce_of(state: TpmState, s: Seq<AuthView>, place: Option<int>) -> Seq<u8> {
    match place {
        Some(i) => if state.sessions.loaded@.contains_key(s[i].handle) {
            state.sessions.loaded@[s[i].handle].nonce_tpm@
        } else {
            Seq::empty()
        },
        None => Seq::empty(),
    }
}

/// The nonceTPM of the sessions that decrypt and encrypt, which the HMAC of the
/// first session covers.
pub open spec fn extra_nonces(state: TpmState, s: Seq<AuthView>, index: int) -> (Seq<u8>, Seq<u8>) {
    if index != 0 {
        (Seq::empty(), Seq::empty())
    } else {
        let d = first_with(s, SessionAttributes::DECRYPT, 0);
        let e = first_with(s, SessionAttributes::ENCRYPT, 0);
        (
            nonce_of(state, s, d),
            if e != d {
                nonce_of(state, s, e)
            } else {
                Seq::empty()
            },
        )
    }
}

fn nonce_at(state: &TpmState, request: &Request, place: Option<usize>) -> (r: Vec<u8>)
    requires
        state.wf(),
        place matches Some(i) ==> i < request.sessions@.len(),
    ensures
        r@ == nonce_of(
            *state,
            request@.sessions,
            match place {
                Some(i) => Some(i as int),
                None => None,
            },
        ),
{
    let none: Vec<u8> = Vec::new();
    assert(none@ =~= Seq::<u8>::empty());
    match place {
        Some(i) => {
            assert(request@.sessions[i as int] == request.sessions@[i as int]@);
            match state.sessions.get(request.sessions[i].handle) {
                Ok(s) => to_vec(s.nonce_tpm.as_slice()),
                Err(_) => none,
            }
        },
        None => none,
    }
}

/// The nonceTPM of the sessions that decrypt and encrypt.
///
/// They go into the HMAC of the first session only, so that an encryption
/// session cannot be taken out of a command unnoticed. The decrypt nonce goes
/// in even when that session is the first one itself, and the encrypt nonce is
/// left out when one session does both.
pub fn auxiliary_nonces(state: &TpmState, request: &Request, for_index: usize) -> (r: (
    Vec<u8>,
    Vec<u8>,
))
    requires
        state.wf(),
    ensures
        (r.0@, r.1@) == extra_nonces(*state, request@.sessions, for_index as int),
{
    let none: Vec<u8> = Vec::new();
    assert(none@ =~= Seq::<u8>::empty());
    if for_index != 0 {
        let other: Vec<u8> = Vec::new();
        assert(other@ =~= Seq::<u8>::empty());
        return (none, other);
    }
    let d: Option<usize> = find_first(request, SessionAttributes::DECRYPT);
    let e: Option<usize> = find_first(request, SessionAttributes::ENCRYPT);
    let same: bool = match (d, e) {
        (Some(a), Some(b)) => a == b,
        (None, None) => true,
        _ => false,
    };
    let first: Vec<u8> = nonce_at(state, request, d);
    if same {
        (first, none)
    } else {
        (first, nonce_at(state, request, e))
    }
}

/// True when a failed authorization counts against the lockout: when the
/// entity is protected, or the entity that the session is bound to.
pub open spec fn counted(state: TpmState, input: AuthView, e: EntityView) -> bool {
    e.uses_lockout || (input.handle != rh::RS_PW && state.sessions.loaded@.contains_key(
        input.handle,
    ) && state.sessions.loaded@[input.handle].bind_uses_lockout)
}

/// True when a failed authorization counts against the lockout.
///
/// Without the second half, the value of a protected entity could be guessed
/// by binding a session to it and using that session against an exempt one.
fn da_protected(state: &TpmState, request: &Request, index: usize, entity: &Entity) -> (r: bool)
    requires
        state.wf(),
        index < request.sessions@.len(),
    ensures
        r == counted(*state, request@.sessions[index as int], entity@),
{
    assert(request@.sessions[index as int] == request.sessions@[index as int]@);
    if entity.uses_lockout {
        return true;
    }
    let handle: u32 = request.sessions[index].handle;
    if handle == rh::RS_PW {
        return false;
    }
    match state.sessions.get(handle) {
        Ok(s) => s.bind_uses_lockout,
        Err(_) => false,
    }
}

/// True when an authorization uses an authorization value: as a password, in
/// the HMAC, or in the key of a bound session. A policy that never calls for
/// the value does not.
pub open spec fn uses_value(state: TpmState, input: AuthView) -> bool {
    if input.handle == rh::RS_PW || !state.sessions.loaded@.contains_key(input.handle) {
        true
    } else {
        let s = state.sessions.loaded@[input.handle];
        s.bind_uses_lockout || !s.is_policy() || s.policy.auth_value_needed
            || s.policy.password_needed
    }
}

/// True when Lockout mode bars the entity, or the special lockout bars
/// lockoutAuth. TPM2_DictionaryAttackLockReset is how a caller leaves Lockout
/// mode, so it is let through.
pub open spec fn barred(state: TpmState, req: RequestView, index: int, protected: bool) -> bool {
    ((protected && state.lockout.locked_out()) || (state.lockout.in_lockout && req.names(
        index,
        rh::LOCKOUT,
    ))) && req.code != cc::DictionaryAttackLockReset
}

/// What [`check_lockout`] answers.
#[verifier::opaque]
pub open spec fn lockout_check(
    state: TpmState,
    req: RequestView,
    index: int,
    protected: bool,
) -> TpmResult<()> {
    if barred(state, req, index, protected) && uses_value(state, req.sessions[index]) {
        Err(TpmRc(rc::LOCKOUT))
    } else {
        Ok(())
    }
}

/// Refuse an authorization that Lockout mode bars.
fn check_lockout(state: &TpmState, request: &Request, index: usize, protected: bool) -> (r:
    TpmResult<()>)
    requires
        state.wf(),
        index < request.sessions@.len(),
    ensures
        r == lockout_check(*state, request@, index as int, protected),
{
    proof {
        reveal(lockout_check);
    }
    assert(request@.sessions[index as int] == request.sessions@[index as int]@);
    let stopped: bool = (protected && state.lockout.locked_out()) || (state.lockout.in_lockout
        && request.names(index, rh::LOCKOUT));
    if !stopped || request.code == cc::DictionaryAttackLockReset {
        return Ok(());
    }
    let handle: u32 = request.sessions[index].handle;
    let uses: bool = if handle == rh::RS_PW {
        true
    } else {
        match state.sessions.get(handle) {
            Ok(s) => s.bind_uses_lockout || !s.is_policy() || s.policy.auth_value_needed
                || s.policy.password_needed,
            Err(_) => true,
        }
    };
    if uses {
        Err(TpmRc(rc::LOCKOUT))
    } else {
        Ok(())
    }
}

/// True when the session of authorization `i` carries a policy.
pub open spec fn by_policy(state: TpmState, s: Seq<AuthView>, i: int) -> bool {
    0 <= i < s.len() && s[i].handle != rh::RS_PW && state.sessions.loaded@.contains_key(s[i].handle)
        && state.sessions.loaded@[s[i].handle].is_policy()
}

/// True when authorization `index` comes from a policy session.
pub fn auth_is_policy(state: &TpmState, request: &Request, index: usize) -> (r: bool)
    requires
        state.wf(),
    ensures
        r == by_policy(*state, request@.sessions, index as int),
{
    if index >= request.sessions.len() {
        return false;
    }
    assert(request@.sessions[index as int] == request.sessions@[index as int]@);
    let handle: u32 = request.sessions[index].handle;
    if handle == rh::RS_PW {
        return false;
    }
    match state.sessions.get(handle) {
        Ok(s) => s.is_policy(),
        Err(_) => false,
    }
}

/// The attribute an Index needs to authorize its own use.
pub open spec fn needed_attribute(access: NvAccess, policy: bool) -> u32 {
    match (access, policy) {
        (NvAccess::Write, true) => NvAttributes::POLICYWRITE,
        (NvAccess::Write, false) => NvAttributes::AUTHWRITE,
        (NvAccess::Read, true) => NvAttributes::POLICYREAD,
        (NvAccess::Read, false) => NvAttributes::AUTHREAD,
    }
}

/// What [`check_nv_authorization_available`] answers.
#[verifier::opaque]
pub open spec fn nv_check(state: TpmState, req: RequestView, index: int, role: Role) -> TpmResult<
    (),
> {
    if role != Role::User {
        Ok(())
    } else {
        match access_of(req.code) {
            None => Ok(()),
            Some(access) => match req.handle(index) {
                Err(e) => Err(e),
                Ok(handle) => if !is_nv(handle) {
                    Ok(())
                } else if !state.nv.indices@.contains_key(handle) {
                    Err(TpmRc(rc::HANDLE))
                } else if state.nv.indices@[handle].public.attributes.has(
                    needed_attribute(access, by_policy(state, req.sessions, index)),
                ) {
                    Ok(())
                } else {
                    Err(TpmRc(rc::AUTH_UNAVAILABLE).for_session(index + 1))
                },
            },
        }
    }
}

/// Check that the authorization the caller chose for an Index is available.
///
/// An Index that authorizes its own use has an attribute for each method. This
/// comes before the value is compared, so that a wrong value against a method
/// that is not available does not count as a failed authorization.
fn check_nv_authorization_available(
    state: &TpmState,
    request: &Request,
    index: usize,
    role: Role,
) -> (r: TpmResult<()>)
    requires
        state.wf(),
        index < usize::MAX,
    ensures
        r == nv_check(*state, request@, index as int, role),
{
    proof {
        reveal(nv_check);
    }
    if role != Role::User {
        return Ok(());
    }
    let access: NvAccess = match nv_access(request.code) {
        Some(a) => a,
        None => {
            return Ok(());
        },
    };
    let handle: u32 = request.handle(index)?;
    if !is_nv(handle) {
        return Ok(());
    }
    let attributes: NvAttributes = state.nv.get(handle)?.public.attributes;
    let policy: bool = auth_is_policy(state, request, index);
    let needed: u32 = match access {
        NvAccess::Write => if policy {
            NvAttributes::POLICYWRITE
        } else {
            NvAttributes::AUTHWRITE
        },
        NvAccess::Read => if policy {
            NvAttributes::POLICYREAD
        } else {
            NvAttributes::AUTHREAD
        },
    };
    if attributes.has(needed) {
        Ok(())
    } else {
        Err(TpmRc(rc::AUTH_UNAVAILABLE).with_session(index + 1))
    }
}

/// True when a role lets an authorization value stand for a policy. The DUP
/// role never does, and the ADMIN role only where the entity allows it.
pub open spec fn role_allows_value(role: Role, e: EntityView) -> bool {
    role != Role::Dup && !(role == Role::Admin && e.admin_with_policy)
}

fn role_allows(role: Role, entity: &Entity) -> (r: bool)
    ensures
        r == role_allows_value(role, entity@),
{
    match role {
        Role::Dup => false,
        Role::Admin => !entity.admin_with_policy,
        _ => true,
    }
}

/// Whether a PIN Index may authorize: one that was written and whose count is
/// below its limit.
pub open spec fn pin_check(state: TpmState, pin: Option<u32>) -> TpmResult<()> {
    match pin {
        None => Ok(()),
        Some(h) => if !state.nv.indices@.contains_key(h) {
            Err(TpmRc(rc::HANDLE))
        } else {
            let i = state.nv.indices@[h];
            if !i.written() {
                Err(TpmRc(rc::AUTH_UNAVAILABLE))
            } else if i.data@.len() != 8 {
                Err(TpmRc(rc::NV_UNINITIALIZED))
            } else if i.pins().pin_count >= i.pins().pin_limit {
                Err(TpmRc(rc::AUTH_FAIL))
            } else {
                Ok(())
            }
        },
    }
}

/// Refuse a PIN Index that has nothing to authorize with yet, or has run out.
fn check_pin_available(state: &TpmState, entity: &Entity) -> (r: TpmResult<()>)
    requires
        state.wf(),
    ensures
        r == pin_check(*state, entity.pin),
{
    let handle: u32 = match entity.pin {
        Some(h) => h,
        None => {
            return Ok(());
        },
    };
    let index: &NvIndex = state.nv.get(handle)?;
    if !index.written() {
        return Err(TpmRc(rc::AUTH_UNAVAILABLE));
    }
    let counters: NvPinCounterParameters = index.pin_counters()?;
    if counters.pin_count >= counters.pin_limit {
        return Err(TpmRc(rc::AUTH_FAIL));
    }
    Ok(())
}

/// The count of a PIN Index after an authorization was judged.
///
/// A PIN Fail Index counts failures and forgets them at a success. A PIN Pass
/// Index counts successes.
pub open spec fn pin_count_after(i: NvIndex, accepted: bool) -> u32 {
    let c = i.pins().pin_count;
    if i.index_type() == nt::PIN_FAIL && accepted {
        0
    } else if (i.index_type() == nt::PIN_FAIL) == accepted || c == u32::MAX {
        c
    } else {
        (c + 1) as u32
    }
}

/// The Indices after an authorization with a PIN Index was judged.
pub open spec fn pins_moved(
    after: TpmState,
    before: TpmState,
    pin: Option<u32>,
    accepted: bool,
) -> bool {
    match pin {
        None => after.nv == before.nv,
        Some(h) => {
            let i = before.nv.indices@[h];
            &&& after.nv.indices@ == before.nv.indices@.insert(h, after.nv.indices@[h])
            &&& after.nv.indices@[h].now_holds(
                i,
                (NvPinCounterParameters {
                    pin_count: pin_count_after(i, accepted),
                    pin_limit: i.pins().pin_limit,
                }).octets(),
            )
        },
    }
}

/// Move the count of a PIN Index after an authorization was judged.
fn record_pin_attempt(state: &mut TpmState, pin: Option<u32>, accepted: bool)
    requires
        old(state).wf(),
        pin_check(*old(state), pin) is Ok,
    ensures
        final(state).wf(),
        *final(state) == (TpmState { nv: final(state).nv, ..*old(state) }),
        pins_moved(*final(state), *old(state), pin, accepted),
{
    let handle: u32 = match pin {
        Some(h) => h,
        None => {
            return ;
        },
    };
    if let Ok(index) = state.nv.get_mut(handle) {
        if let Ok(c) = index.pin_counters() {
            let fails: bool = index.index_type() == nt::PIN_FAIL;
            let count: u32 = if fails && accepted {
                0
            } else if fails == accepted || c.pin_count == u32::MAX {
                c.pin_count
            } else {
                c.pin_count + 1
            };
            let _ = index.set_pin_counters(
                NvPinCounterParameters { pin_count: count, pin_limit: c.pin_limit },
            );
        }
    }
}

/// The Time `seconds` from `time`.
pub open spec fn later(time: u64, seconds: u32) -> u64 {
    if time + seconds * 1000 > u64::MAX {
        u64::MAX
    } else {
        (time + seconds * 1000) as u64
    }
}

/// Dictionary attack protection after a failed authorization.
pub open spec fn after_failure(l: Lockout, time: u64, protected: bool) -> Lockout {
    if !protected || l.protection_off() {
        l
    } else {
        Lockout {
            failed_tries: if l.failed_tries == u32::MAX {
                u32::MAX
            } else {
                (l.failed_tries + 1) as u32
            },
            next_recovery: later(time, l.recovery_time),
            ..l
        }
    }
}

/// Note a failed authorization against the dictionary attack counter.
///
/// An exempt entity does not count, and nothing counts while the protection is
/// off. One recovery time after a failure the counter goes down by one.
pub fn record_failure(state: &mut TpmState, uses_lockout: bool)
    ensures
        *final(state) == (TpmState {
            lockout: after_failure(old(state).lockout, old(state).clock.time, uses_lockout),
            ..*old(state)
        }),
{
    if !uses_lockout || state.lockout.protection_off() {
        return ;
    }
    state.lockout.failed_tries = state.lockout.failed_tries.saturating_add(1);
    state.lockout.next_recovery = state.clock.time.saturating_add(
        state.lockout.recovery_time as u64 * 1000,
    );
}

/// Dictionary attack protection after a failure against lockoutAuth.
pub open spec fn after_lockout_failure(l: Lockout, time: u64) -> Lockout {
    Lockout {
        in_lockout: true,
        lockout_until: if l.lockout_recovery == 0 {
            0
        } else {
            later(time, l.lockout_recovery)
        },
        ..l
    }
}

/// Note a failed authorization that used lockoutAuth.
///
/// It bars lockoutAuth whatever the counter says, for the lockout recovery
/// time, or until the next startup when that is zero.
pub fn record_lockout_failure(state: &mut TpmState)
    ensures
        *final(state) == (TpmState {
            lockout: after_lockout_failure(old(state).lockout, old(state).clock.time),
            ..*old(state)
        }),
{
    state.lockout.in_lockout = true;
    state.lockout.lockout_until = if state.lockout.lockout_recovery == 0 {
        0
    } else {
        state.clock.time.saturating_add(state.lockout.lockout_recovery as u64 * 1000)
    };
}

/// Put the dictionary attack counter back.
///
/// Only TPM2_DictionaryAttackLockReset, a change of owner and TPM2_Clear do
/// so. An ordinary success does not.
pub fn clear_failures(state: &mut TpmState)
    ensures
        *final(state) == (TpmState {
            lockout: Lockout {
                failed_tries: 0,
                next_recovery: 0,
                in_lockout: false,
                lockout_until: 0,
                ..old(state).lockout
            },
            ..*old(state)
        }),
{
    state.lockout.failed_tries = 0;
    state.lockout.next_recovery = 0;
    state.lockout.in_lockout = false;
    state.lockout.lockout_until = 0;
}

/// How an authorization was judged.
pub enum Judgement {
    /// It was not judged at all, and changes nothing.
    Refused(TpmRc),
    /// A value was compared.
    Judged {
        accepted: bool,
        /// A failure counts against the lockout.
        protected: bool,
        /// The PIN Index whose counter moves.
        pin: Option<u32>,
        /// A failure bars lockoutAuth by itself.
        special: bool,
    },
}

/// The result of an authorization.
pub open spec fn outcome(j: Judgement, position: int) -> TpmResult<()> {
    match j {
        Judgement::Refused(e) => Err(e),
        Judgement::Judged { accepted, protected, .. } => if accepted {
            Ok(())
        } else {
            Err(
                TpmRc(
                    if protected {
                        rc::AUTH_FAIL
                    } else {
                        rc::BAD_AUTH
                    },
                ).for_session(position),
            )
        },
    }
}

/// Dictionary attack protection after an authorization.
pub open spec fn lockout_after(l: Lockout, time: u64, j: Judgement) -> Lockout {
    match j {
        Judgement::Judged { accepted: false, protected, special, .. } => after_failure(
            if special {
                after_lockout_failure(l, time)
            } else {
                l
            },
            time,
            protected,
        ),
        _ => l,
    }
}

/// The state after an authorization: only the dictionary attack counters and
/// the counters of a PIN Index move.
#[verifier::opaque]
pub open spec fn judged_state(after: TpmState, before: TpmState, j: Judgement) -> bool {
    &&& after == (TpmState {
        nv: after.nv,
        lockout: lockout_after(before.lockout, before.clock.time, j),
        ..before
    })
    &&& match j {
        Judgement::Refused(_) => after.nv == before.nv,
        Judgement::Judged { accepted, pin, .. } => pins_moved(after, before, pin, accepted),
    }
}

/// An authorization that was not judged changes nothing.
proof fn lemma_refused(state: TpmState)
    ensures
        forall|e: TpmRc| #[trigger]
            judged_state(state, state, Judgement::Refused(e)),
{
    reveal(judged_state);
}

/// Record how an authorization was judged.
fn settle(
    state: &mut TpmState,
    accepted: bool,
    protected: bool,
    pin: Option<u32>,
    special: bool,
    position: usize,
) -> (r: TpmResult<()>)
    requires
        old(state).wf(),
        pin_check(*old(state), pin) is Ok,
    ensures
        final(state).wf(),
        judged_state(
            *final(state),
            *old(state),
            (Judgement::Judged { accepted, protected, pin, special }),
        ),
        r == outcome(
            (Judgement::Judged { accepted, protected, pin, special }),
            position as int,
        ),
{
    proof {
        reveal(judged_state);
    }
    record_pin_attempt(state, pin, accepted);
    if accepted {
        return Ok(());
    }
    if special {
        record_lockout_failure(state);
    }
    record_failure(state, protected);
    let code: u32 = if protected {
        rc::AUTH_FAIL
    } else {
        rc::BAD_AUTH
    };
    Err(TpmRc(code).with_session(position))
}

/// The Names of the first `n` handles, one after the other.
pub open spec fn names_upto(state: TpmState, handles: Seq<u32>, n: nat) -> TpmResult<Seq<u8>>
    decreases n,
{
    if n == 0 {
        Ok(Seq::empty())
    } else {
        match names_upto(state, handles, (n - 1) as nat) {
            Err(e) => Err(e),
            Ok(s) => match name_of(state, handles[n - 1]) {
                Err(e) => Err(e),
                Ok(v) => Ok(s + v),
            },
        }
    }
}

proof fn lemma_names_stop(state: TpmState, handles: Seq<u32>, i: nat, n: nat)
    requires
        i < n,
        names_upto(state, handles, i) is Ok,
        name_of(state, handles[i as int]) is Err,
    ensures
        names_upto(state, handles, n) == Err::<Seq<u8>, TpmRc>(
            name_of(state, handles[i as int])->Err_0,
        ),
    decreases n,
{
    if n > i + 1 {
        lemma_names_stop(state, handles, i, (n - 1) as nat);
    }
}

fn all_names(state: &TpmState, handles: &[u32]) -> (r: TpmResult<Vec<u8>>)
    requires
        state.wf(),
    ensures
        match names_upto(*state, handles@, handles@.len()) {
            Ok(v) => r is Ok && r->Ok_0@ == v,
            Err(e) => r is Err && r->Err_0 == e,
        },
{
    let mut out: Vec<u8> = Vec::new();
    assert(out@ =~= Seq::<u8>::empty());
    let mut i: usize = 0;
    while i < handles.len()
        invariant
            i <= handles@.len(),
            state.wf(),
            names_upto(*state, handles@, i as nat) == Ok::<Seq<u8>, TpmRc>(out@),
        decreases handles@.len() - i,
    {
        let ghost before = out@;
        match handle_name(state, handles[i]) {
            Ok(v) => {
                out.extend_from_slice(v.as_slice());
                assert(out@ =~= before + v@);
            },
            Err(e) => {
                proof {
                    lemma_names_stop(*state, handles@, i as nat, handles@.len());
                }
                return Err(e);
            },
        }
        i = i + 1;
    }
    Ok(out)
}

/// The bit of a locality, and none for an extended locality.
pub open spec fn locality_bit(locality: u8) -> u8 {
    if locality < 5 {
        1u8 << locality
    } else {
        0
    }
}

/// Whether the assertions a policy recorded hold. TPM_RC_POLICY_FAIL and the
/// other codes that name the session carry its number.
#[verifier::opaque]
pub open spec fn policy_check(
    state: TpmState,
    req: RequestView,
    index: int,
    e: EntityView,
    cp: Seq<u8>,
    s: Session,
) -> TpmResult<()> {
    let p = s.policy;
    let at = index + 1;
    let fail = Err::<(), TpmRc>(TpmRc(rc::POLICY_FAIL).for_session(at));
    if e.policy is None {
        Err(TpmRc(rc::AUTH_UNAVAILABLE).for_session(at))
    } else if e.policy->Some_0.0 != s.auth_hash || p.digest@ != e.policy->Some_0.1 {
        fail
    } else if p.command_code is Some && p.command_code->Some_0 != req.code {
        Err(TpmRc(rc::POLICY_CC).for_session(at))
    } else if p.cp_hash is Some && p.cp_hash->Some_0@ != cp {
        fail
    } else if p.locality is Some && p.locality->Some_0 & locality_bit(req.locality) == 0 {
        Err(TpmRc(rc::LOCALITY))
    } else if p.pcr_update_counter is Some && p.pcr_update_counter->Some_0 != state.pcr.counter {
        Err(TpmRc(rc::PCR_CHANGED).for_session(at))
    } else if p.expiration is Some && (s.time_epoch != state.clock.time_epoch || state.clock.time
        > p.expiration->Some_0) {
        Err(TpmRc(rc::EXPIRED).for_session(at))
    } else if p.secure_channel_required {
        Err(TpmRc(rc::CHANNEL))
    } else if p.physical_presence_required && !state.physical_presence {
        Err(TpmRc(rc::PP))
    } else if p.nv_written is Some && !(req.handles.len() > 0 && state.nv.indices@.contains_key(
        req.handles[0],
    ) && state.nv.indices@[req.handles[0]].written() == p.nv_written->Some_0) {
        fail
    } else {
        policy_hash_check(state, req, index, s)
    }
}

/// Whether the digests a policy recorded of the Names, the template and the
/// parameters are those of the command.
pub open spec fn policy_hash_check(
    state: TpmState,
    req: RequestView,
    index: int,
    s: Session,
) -> TpmResult<()> {
    let p = s.policy;
    let fail = Err::<(), TpmRc>(TpmRc(rc::POLICY_FAIL).for_session(index + 1));
    let names = names_upto(state, req.handles, req.handles.len());
    if p.name_hash is Some && names is Err {
        Err(names->Err_0)
    } else if p.name_hash is Some && p.name_hash->Some_0@ != hash_of(s.auth_hash, names->Ok_0) {
        fail
    } else if p.template_hash is Some && body_at(req.parameters, 1) is None {
        fail
    } else if p.template_hash is Some && p.template_hash->Some_0@ != hash_of(
        s.auth_hash,
        body_at(req.parameters, 1)->Some_0,
    ) {
        fail
    } else if p.parameters_hash is Some && p.parameters_hash->Some_0@ != hash_of(
        s.auth_hash,
        octets32(req.code) + req.parameters,
    ) {
        fail
    } else {
        Ok(())
    }
}

fn check_policy_hashes(state: &TpmState, request: &Request, index: usize, s: &Session) -> (r:
    TpmResult<()>)
    requires
        state.wf(),
        s.wf(),
        index < usize::MAX,
    ensures
        r == policy_hash_check(*state, request@, index as int, *s),
{
    let fail = TpmRc(rc::POLICY_FAIL).with_session(index + 1);
    if let Some(expected) = &s.policy.name_hash {
        let names: Vec<u8> = all_names(state, request.handles.as_slice())?;
        let got: Vec<u8> = digest(s.auth_hash, names.as_slice())?;
        if !constant_time_eq(expected.as_slice(), got.as_slice()) {
            return Err(fail);
        }
    }
    if let Some(expected) = &s.policy.template_hash {
        match first_sized_parameter_at(request.parameters.as_slice(), 1) {
            None => {
                return Err(fail);
            },
            Some(template) => {
                let got: Vec<u8> = digest(s.auth_hash, template.as_slice())?;
                if !constant_time_eq(expected.as_slice(), got.as_slice()) {
                    return Err(fail);
                }
            },
        }
    }
    if let Some(expected) = &s.policy.parameters_hash {
        let mut input: Vec<u8> = Vec::new();
        push_be32(&mut input, request.code);
        input.extend_from_slice(request.parameters.as_slice());
        assert(input@ =~= octets32(request.code) + request.parameters@);
        let got: Vec<u8> = digest(s.auth_hash, input.as_slice())?;
        if !constant_time_eq(expected.as_slice(), got.as_slice()) {
            return Err(fail);
        }
    }
    Ok(())
}

/// Check that the assertions a policy session recorded hold for the command.
fn check_policy_assertions(
    state: &TpmState,
    request: &Request,
    index: usize,
    entity: &Entity,
    cp: &[u8],
    s: &Session,
) -> (r: TpmResult<()>)
    requires
        state.wf(),
        s.wf(),
        index < usize::MAX,
    ensures
        r == policy_check(*state, request@, index as int, entity@, cp@, *s),
{
    proof {
        reveal(policy_check);
    }
    let at: usize = index + 1;
    let fail = TpmRc(rc::POLICY_FAIL).with_session(at);
    match &entity.policy {
        None => {
            return Err(TpmRc(rc::AUTH_UNAVAILABLE).with_session(at));
        },
        Some(p) => {
            if p.0 != s.auth_hash || !constant_time_eq(s.policy.digest.as_slice(), p.1.as_slice()) {
                return Err(fail);
            }
        },
    }
    if let Some(code) = s.policy.command_code {
        if code != request.code {
            return Err(TpmRc(rc::POLICY_CC).with_session(at));
        }
    }
    if let Some(expected) = &s.policy.cp_hash {
        if !constant_time_eq(expected.as_slice(), cp) {
            return Err(fail);
        }
    }
    if let Some(mask) = s.policy.locality {
        let bit: u8 = if request.locality < 5 {
            1u8 << request.locality
        } else {
            0
        };
        if mask & bit == 0 {
            return Err(TpmRc(rc::LOCALITY));
        }
    }
    if let Some(counter) = s.policy.pcr_update_counter {
        if counter != state.pcr.update_counter() {
            return Err(TpmRc(rc::PCR_CHANGED).with_session(at));
        }
    }
    if let Some(expiration) = s.policy.expiration {
        if s.time_epoch != state.clock.time_epoch || state.clock.time > expiration {
            return Err(TpmRc(rc::EXPIRED).with_session(at));
        }
    }
    if s.policy.secure_channel_required {
        return Err(TpmRc(rc::CHANNEL));
    }
    if s.policy.physical_presence_required && !state.physical_presence {
        return Err(TpmRc(rc::PP));
    }
    if let Some(expected) = s.policy.nv_written {
        if request.handles.len() == 0 {
            return Err(fail);
        }
        match state.nv.get(request.handles[0]) {
            Ok(i) => {
                if i.written() != expected {
                    return Err(fail);
                }
            },
            Err(_) => {
                return Err(fail);
            },
        }
    }
    check_policy_hashes(state, request, index, s)
}

/// The HMAC that proves the key of session `index`.
pub open spec fn expected_hmac(
    state: TpmState,
    req: RequestView,
    index: int,
    key: Seq<u8>,
    cp: Seq<u8>,
    s: Session,
) -> Seq<u8> {
    let input = req.sessions[index];
    let extra = extra_nonces(state, req.sessions, index);
    auth_hmac_of(
        s.auth_hash,
        key,
        cp,
        input.nonce,
        s.nonce_tpm@,
        extra.0,
        extra.1,
        input.attributes,
    )
}

fn hmac_proves(
    state: &TpmState,
    request: &Request,
    index: usize,
    key: &[u8],
    cp: &[u8],
    s: &Session,
) -> (r: bool)
    requires
        state.wf(),
        s.wf(),
        index < request.sessions@.len(),
    ensures
        r == hmac_accepted(
            key@,
            expected_hmac(*state, request@, index as int, key@, cp@, *s),
            request@.sessions[index as int].hmac,
        ),
{
    let input: &SessionInput = &request.sessions[index];
    assert(request@.sessions[index as int] == input@);
    let extra: (Vec<u8>, Vec<u8>) = auxiliary_nonces(state, request, index);
    match auth_hmac_with_nonces(
        s.auth_hash,
        key,
        cp,
        input.nonce_caller.as_slice(),
        s.nonce_tpm.as_slice(),
        extra.0.as_slice(),
        extra.1.as_slice(),
        input.attributes,
    ) {
        Ok(expected) => auth_hmac_accepted(key, expected.as_slice(), input.hmac.as_slice()),
        Err(_) => false,
    }
}

/// How a value in the clear is judged.
#[verifier::opaque]
pub open spec fn password_judgement(
    state: TpmState,
    req: RequestView,
    index: int,
    e: EntityView,
    protected: bool,
) -> Judgement {
    match pin_check(state, e.pin) {
        Err(r) => Judgement::Refused(r.for_session(index + 1)),
        Ok(_) => Judgement::Judged {
            accepted: trimmed(req.sessions[index].hmac) == trimmed(e.auth),
            protected,
            pin: e.pin,
            special: req.names(index, rh::LOCKOUT),
        },
    }
}

/// How an HMAC is judged. A policy that does not call for the authorization
/// value leaves a PIN Index alone.
#[verifier::opaque]
pub open spec fn hmac_judgement(
    state: TpmState,
    req: RequestView,
    index: int,
    e: EntityView,
    cp: Seq<u8>,
    s: Session,
    protected: bool,
) -> Judgement {
    let key = s.hmac_key_for(e.name, e.auth);
    let pin = if s.is_policy() && !s.policy.auth_value_needed {
        None
    } else {
        e.pin
    };
    match pin_check(state, pin) {
        Err(r) => Judgement::Refused(r.for_session(index + 1)),
        Ok(_) => Judgement::Judged {
            accepted: hmac_accepted(
                key,
                expected_hmac(state, req, index, key, cp, s),
                req.sessions[index].hmac,
            ),
            protected,
            pin,
            special: !s.is_policy() && req.names(index, rh::LOCKOUT),
        },
    }
}

/// How a session authorizes an entity.
#[verifier::opaque]
pub open spec fn session_judgement(
    state: TpmState,
    req: RequestView,
    index: int,
    e: EntityView,
    cp: Seq<u8>,
    s: Session,
    protected: bool,
) -> Judgement {
    let role = role_of(req.code, index);
    if s.is_trial() {
        Judgement::Refused(TpmRc(rc::AUTH_TYPE).for_session(index + 1))
    } else if s.is_policy() {
        if (role == Role::Admin || role == Role::Dup) && s.policy.command_code != Some(req.code) {
            Judgement::Refused(TpmRc(rc::POLICY_FAIL).for_session(index + 1))
        } else {
            match policy_check(state, req, index, e, cp, s) {
                Err(r) => Judgement::Refused(r),
                Ok(_) => if s.policy.password_needed {
                    password_judgement(state, req, index, e, protected)
                } else {
                    hmac_judgement(state, req, index, e, cp, s, protected)
                },
            }
        }
    } else if !role_allows_value(role, e) || !e.user_with_auth {
        Judgement::Refused(TpmRc(rc::AUTH_TYPE).for_session(index + 1))
    } else {
        hmac_judgement(state, req, index, e, cp, s, protected)
    }
}

/// How authorization `index` of a command is judged for an entity.
pub open spec fn judgement(
    state: TpmState,
    req: RequestView,
    index: int,
    e: EntityView,
    cp: Seq<u8>,
) -> Judgement {
    let input = req.sessions[index];
    let protected = counted(state, input, e);
    let role = role_of(req.code, index);
    match lockout_check(state, req, index, protected) {
        Err(r) => Judgement::Refused(r),
        Ok(_) => match nv_check(state, req, index, role) {
            Err(r) => Judgement::Refused(r),
            Ok(_) => if input.handle == rh::RS_PW {
                if !role_allows_value(role, e) || !e.user_with_auth {
                    Judgement::Refused(TpmRc(rc::AUTH_TYPE).for_session(index + 1))
                } else {
                    password_judgement(state, req, index, e, protected)
                }
            } else if !state.sessions.loaded@.contains_key(input.handle) {
                Judgement::Refused(TpmRc(rc::HANDLE))
            } else {
                session_judgement(
                    state,
                    req,
                    index,
                    e,
                    cp,
                    state.sessions.loaded@[input.handle],
                    protected,
                )
            },
        },
    }
}

fn passwords_match(request: &Request, index: usize, entity: &Entity) -> (r: bool)
    requires
        index < request.sessions@.len(),
    ensures
        r == (trimmed(request@.sessions[index as int].hmac) == trimmed(entity@.auth)),
{
    assert(request@.sessions[index as int] == request.sessions@[index as int]@);
    let given: Vec<u8> = trim_auth(request.sessions[index].hmac.as_slice());
    let expected: Vec<u8> = trim_auth(entity.auth.as_slice());
    constant_time_eq(given.as_slice(), expected.as_slice())
}

/// Judge a value in the clear.
fn check_password(
    state: &mut TpmState,
    request: &Request,
    index: usize,
    entity: &Entity,
    protected: bool,
) -> (r: TpmResult<()>)
    requires
        old(state).wf(),
        index < request.sessions@.len(),
        index < usize::MAX,
    ensures
        final(state).wf(),
        ({
            let j = password_judgement(*old(state), request@, index as int, entity@, protected);
            judged_state(*final(state), *old(state), j) && r == outcome(j, index + 1)
        }),
{
    proof {
        lemma_refused(*state);
        reveal(password_judgement);
    }
    if let Err(e) = check_pin_available(state, entity) {
        return Err(e.with_session(index + 1));
    }
    let accepted: bool = passwords_match(request, index, entity);
    let special: bool = request.names(index, rh::LOCKOUT);
    settle(state, accepted, protected, entity.pin, special, index + 1)
}

/// Judge a policy session.
///
/// A policy that calls for the authorization value has it proven as well, and
/// that counts as a use of the value. A policy that proves only itself does
/// not move the counter of a PIN Index.
fn check_policy(
    state: &mut TpmState,
    request: &Request,
    index: usize,
    entity: &Entity,
    cp: &[u8],
    protected: bool,
) -> (r: TpmResult<()>)
    requires
        old(state).wf(),
        index < request.sessions@.len(),
        index < usize::MAX,
        old(state).sessions.loaded@.contains_key(request@.sessions[index as int].handle),
        old(state).sessions.loaded@[request@.sessions[index as int].handle].is_policy(),
        !old(state).sessions.loaded@[request@.sessions[index as int].handle].is_trial(),
        ({
            let s = old(state).sessions.loaded@[request@.sessions[index as int].handle];
            let role = role_of(request.code, index as int);
            !((role == Role::Admin || role == Role::Dup) && s.policy.command_code != Some(
                request.code,
            ))
        }),
    ensures
        final(state).wf(),
        ({
            let s = old(state).sessions.loaded@[request@.sessions[index as int].handle];
            let j = session_judgement(
                *old(state),
                request@,
                index as int,
                entity@,
                cp@,
                s,
                protected,
            );
            judged_state(*final(state), *old(state), j) && r == outcome(j, index + 1)
        }),
{
    proof {
        lemma_refused(*state);
        reveal(session_judgement);
        reveal(hmac_judgement);
    }
    assert(request@.sessions[index as int] == request.sessions@[index as int]@);
    let s: &Session = state.sessions.get(request.sessions[index].handle)?;
    check_policy_assertions(state, request, index, entity, cp, s)?;
    if s.policy.password_needed {
        return check_password(state, request, index, entity, protected);
    }
    let pin: Option<u32> = if s.policy.auth_value_needed {
        entity.pin
    } else {
        None
    };
    let key: Vec<u8> = s.hmac_key(entity.name.as_slice(), entity.auth.as_slice());
    let accepted: bool = hmac_proves(state, request, index, key.as_slice(), cp, s);
    if pin.is_some() {
        if let Err(e) = check_pin_available(state, entity) {
            return Err(e.with_session(index + 1));
        }
    }
    settle(state, accepted, protected, pin, false, index + 1)
}

/// Judge an HMAC session.
fn check_hmac(
    state: &mut TpmState,
    request: &Request,
    index: usize,
    entity: &Entity,
    cp: &[u8],
    protected: bool,
) -> (r: TpmResult<()>)
    requires
        old(state).wf(),
        index < request.sessions@.len(),
        index < usize::MAX,
        old(state).sessions.loaded@.contains_key(request@.sessions[index as int].handle),
        !old(state).sessions.loaded@[request@.sessions[index as int].handle].is_policy(),
    ensures
        final(state).wf(),
        ({
            let s = old(state).sessions.loaded@[request@.sessions[index as int].handle];
            let j = hmac_judgement(*old(state), request@, index as int, entity@, cp@, s, protected);
            judged_state(*final(state), *old(state), j) && r == outcome(j, index + 1)
        }),
{
    proof {
        lemma_refused(*state);
        reveal(hmac_judgement);
    }
    assert(request@.sessions[index as int] == request.sessions@[index as int]@);
    let s: &Session = state.sessions.get(request.sessions[index].handle)?;
    let key: Vec<u8> = s.hmac_key(entity.name.as_slice(), entity.auth.as_slice());
    let accepted: bool = hmac_proves(state, request, index, key.as_slice(), cp, s);
    if let Err(e) = check_pin_available(state, entity) {
        return Err(e.with_session(index + 1));
    }
    let special: bool = request.names(index, rh::LOCKOUT);
    settle(state, accepted, protected, entity.pin, special, index + 1)
}

/// Judge a session that authorizes an entity.
fn check_session(
    state: &mut TpmState,
    request: &Request,
    index: usize,
    entity: &Entity,
    cp: &[u8],
    protected: bool,
) -> (r: TpmResult<()>)
    requires
        old(state).wf(),
        index < request.sessions@.len(),
        index < usize::MAX,
        old(state).sessions.loaded@.contains_key(request@.sessions[index as int].handle),
    ensures
        final(state).wf(),
        ({
            let s = old(state).sessions.loaded@[request@.sessions[index as int].handle];
            let j = session_judgement(
                *old(state),
                request@,
                index as int,
                entity@,
                cp@,
                s,
                protected,
            );
            judged_state(*final(state), *old(state), j) && r == outcome(j, index + 1)
        }),
{
    proof {
        lemma_refused(*state);
        reveal(session_judgement);
    }
    assert(request@.sessions[index as int] == request.sessions@[index as int]@);
    let position: usize = index + 1;
    let role: Role = role(request.code, index);
    let s: &Session = state.sessions.get(request.sessions[index].handle)?;
    if s.is_trial() {
        return Err(TpmRc(rc::AUTH_TYPE).with_session(position));
    }
    if s.is_policy() {
        let named: bool = match s.policy.command_code {
            Some(c) => c == request.code,
            None => false,
        };
        if (role == Role::Admin || role == Role::Dup) && !named {
            return Err(TpmRc(rc::POLICY_FAIL).with_session(position));
        }
        return check_policy(state, request, index, entity, cp, protected);
    }
    if !role_allows(role, entity) || !entity.user_with_auth {
        return Err(TpmRc(rc::AUTH_TYPE).with_session(position));
    }
    check_hmac(state, request, index, entity, cp, protected)
}

/// Check one authorization of a command.
///
/// Only an authorization whose value was compared changes anything, and then
/// only the counters that guard against guessing.
pub fn check_authorization(
    state: &mut TpmState,
    request: &Request,
    index: usize,
    entity: &Entity,
    cp: &[u8],
) -> (r: TpmResult<()>)
    requires
        old(state).wf(),
        index < request.sessions@.len(),
        index < usize::MAX,
    ensures
        final(state).wf(),
        ({
            let j = judgement(*old(state), request@, index as int, entity@, cp@);
            judged_state(*final(state), *old(state), j) && r == outcome(j, index + 1)
        }),
{
    proof {
        lemma_refused(*state);
    }
    assert(request@.sessions[index as int] == request.sessions@[index as int]@);
    let handle: u32 = request.sessions[index].handle;
    let protected: bool = da_protected(state, request, index, entity);
    let role: Role = role(request.code, index);
    check_lockout(state, request, index, protected)?;
    check_nv_authorization_available(state, request, index, role)?;
    if handle == rh::RS_PW {
        if !role_allows(role, entity) || !entity.user_with_auth {
            return Err(TpmRc(rc::AUTH_TYPE).with_session(index + 1));
        }
        return check_password(state, request, index, entity, protected);
    }
    if !state.sessions.contains(handle) {
        return Err(TpmRc(rc::HANDLE));
    }
    check_session(state, request, index, entity, cp, protected)
}

/// What [`check_unauthorized_session`] answers.
pub open spec fn bystander_check(
    state: TpmState,
    req: RequestView,
    index: int,
    names: Seq<Vec<u8>>,
) -> TpmResult<()> {
    let input = req.sessions[index];
    if !state.sessions.loaded@.contains_key(input.handle) {
        Err(TpmRc(rc::HANDLE))
    } else {
        let s = state.sessions.loaded@[input.handle];
        let cp = cp_hash_of(s.auth_hash, req.code, names, req.parameters);
        if hmac_accepted(
            s.session_key@,
            expected_hmac(state, req, index, s.session_key@, cp, s),
            input.hmac,
        ) {
            Ok(())
        } else {
            Err(TpmRc(rc::AUTH_FAIL).for_session(index + 1))
        }
    }
}

/// Check a session that carries no authorization but asks to encrypt, decrypt
/// or audit.
///
/// It has to prove that it holds the session key. One without a key may leave
/// the HMAC out, but may not send a wrong one.
pub fn check_unauthorized_session(
    state: &TpmState,
    request: &Request,
    index: usize,
    names: &[Vec<u8>],
) -> (r: TpmResult<()>)
    requires
        state.wf(),
        index < request.sessions@.len(),
        index < usize::MAX,
    ensures
        r == bystander_check(*state, request@, index as int, names@),
{
    assert(request@.sessions[index as int] == request.sessions@[index as int]@);
    let s: &Session = state.sessions.get(request.sessions[index].handle)?;
    let cp: Vec<u8> = cp_hash(s.auth_hash, request.code, names, request.parameters.as_slice())?;
    if hmac_proves(state, request, index, s.session_key.as_slice(), cp.as_slice(), s) {
        Ok(())
    } else {
        Err(TpmRc(rc::AUTH_FAIL).with_session(index + 1))
    }
}

/// No authorization lowers the dictionary attack counter, and one that succeeds
/// leaves the protection as it was.
pub proof fn law_an_authorization_never_lowers_the_counter(
    after: TpmState,
    before: TpmState,
    j: Judgement,
    position: int,
)
    requires
        judged_state(after, before, j),
    ensures
        after.lockout.failed_tries >= before.lockout.failed_tries,
        outcome(j, position) is Ok ==> after.lockout == before.lockout,
{
    reveal(judged_state);
}

/// A wrong value counts by one where it is protected, and not at all where it is
/// exempt or the protection is off.
pub proof fn law_a_wrong_value_counts_where_it_is_protected(
    after: TpmState,
    before: TpmState,
    protected: bool,
    pin: Option<u32>,
    special: bool,
)
    requires
        judged_state(
            after,
            before,
            (Judgement::Judged { accepted: false, protected, pin, special }),
        ),
        before.lockout.failed_tries < u32::MAX,
    ensures
        after.lockout.failed_tries == before.lockout.failed_tries + (if protected
            && !before.lockout.protection_off() {
            1int
        } else {
            0
        }),
{
    reveal(judged_state);
}

/// In Lockout mode a protected value is refused, right or wrong, and trying it
/// changes nothing.
pub proof fn law_lockout_mode_refuses_the_right_value_too(
    after: TpmState,
    before: TpmState,
    req: RequestView,
    index: int,
    e: EntityView,
    cp: Seq<u8>,
    position: int,
)
    requires
        before.lockout.locked_out(),
        counted(before, req.sessions[index], e),
        uses_value(before, req.sessions[index]),
        req.code != cc::DictionaryAttackLockReset,
        judged_state(after, before, judgement(before, req, index, e, cp)),
    ensures
        outcome(judgement(before, req, index, e, cp), position) == Err::<(), TpmRc>(
            TpmRc(rc::LOCKOUT),
        ),
        after == before,
{
    reveal(judged_state);
    reveal(lockout_check);
}

/// A failure against lockoutAuth bars lockoutAuth by itself, whatever the
/// counter says.
pub proof fn law_a_failure_bars_the_lockout_value(
    after: TpmState,
    before: TpmState,
    protected: bool,
    pin: Option<u32>,
    req: RequestView,
    index: int,
)
    requires
        judged_state(
            after,
            before,
            (Judgement::Judged { accepted: false, protected, pin, special: true }),
        ),
        req.names(index, rh::LOCKOUT),
        req.code != cc::DictionaryAttackLockReset,
    ensures
        barred(after, req, index, protected),
{
    reveal(judged_state);
}

/// A PIN Fail Index counts its failures and forgets them at a success. A PIN
/// Pass Index counts its successes. The limit of either stays as it is.
pub proof fn law_a_pin_index_keeps_its_count(
    after: TpmState,
    before: TpmState,
    h: u32,
    accepted: bool,
    protected: bool,
    special: bool,
)
    requires
        pin_check(before, Some(h)) is Ok,
        judged_state(
            after,
            before,
            (Judgement::Judged { accepted, protected, pin: Some(h), special }),
        ),
    ensures
        ({
            let was = before.nv.indices@[h].pins();
            let now = after.nv.indices@[h].pins();
            &&& now.pin_limit == was.pin_limit
            &&& now.pin_count == (if before.nv.indices@[h].index_type() == nt::PIN_FAIL {
                if accepted {
                    0int
                } else {
                    was.pin_count + 1
                }
            } else {
                if accepted {
                    was.pin_count + 1
                } else {
                    was.pin_count as int
                }
            })
        }),
{
    reveal(judged_state);
    let i = before.nv.indices@[h];
    let c = pin_count_after(i, accepted);
    let d = after.nv.indices@[h].data@;
    lemma_octets32(c);
    lemma_octets32(i.pins().pin_limit);
    assert(d == octets32(c) + octets32(i.pins().pin_limit));
    assert(be32(d, 0) == be32(octets32(c), 0));
    assert(be32(d, 4) == be32(octets32(i.pins().pin_limit), 0));
}

} // verus!
