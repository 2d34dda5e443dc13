//! Starting sessions and flushing what is loaded.

use vstd::prelude::*;

use super::dispatch::{
    entity, entity_of, handle_name, name_of, Entity, Request, RequestView, Response,
};
use super::execute::respond_with_handle;
use super::signatures::{object_named, object_of};
use super::wire::{alone, answers_handle, answers_nothing, fails, nothing, raw_u16, raw_u32, raw_u8, take_sized};
use crate::tpm::config;
use crate::tpm::constants::range::{is_session, is_transient};
use crate::tpm::constants::{rc, rh};
use crate::tpm::crypto::hash::{digest_size, size_of, supported};
use crate::tpm::crypto::rand::{draw, Rng};
use crate::tpm::engine::object::{Object, ObjectView};
use crate::tpm::engine::protect::{seed_from_private, seed_recovered};
use crate::tpm::engine::session::{
    bind_identity, derive_session_key, is_session_type, session_key_of, trimmed, Session,
};
use crate::tpm::engine::session_store::{session_handle, SessionStore};
use crate::tpm::engine::state::TpmState;
use crate::tpm::error::{TpmRc, TpmResult};
use crate::tpm::marshal::{parse_sized, sized, Parsed, Reader, Writer};
use crate::tpm::structures::attributes::ObjectAttributes;
use crate::tpm::structures::schemes::SymDef;

verus! {

/// What a salt is encrypted for.
pub const LABEL_SECRET: [u8; 7] = [0x53, 0x45, 0x43, 0x52, 0x45, 0x54, 0x00];

/// The parameters of TPM2_StartAuthSession.
pub struct StartInput {
    pub nonce: Seq<u8>,
    pub encrypted: Seq<u8>,
    pub session_type: u8,
    pub symmetric: SymDef,
    pub auth_hash: u16,
}

/// The parameters of TPM2_StartAuthSession.
pub open spec fn parse_start(d: Seq<u8>) -> Parsed<StartInput> {
    match parse_sized(d, 0, 64) {
        Err(e) => Err(e),
        Ok((nonce, n1)) => match parse_sized(d, n1, 512) {
            Err(e) => Err(e),
            Ok((encrypted, n2)) => match raw_u8(d, n2) {
                Err(e) => Err(e),
                Ok((session_type, n3)) => match SymDef::parse(d, n3, true) {
                    Err(e) => Err(e),
                    Ok((symmetric, n4)) => match raw_u16(d, n4) {
                        Err(e) => Err(e),
                        Ok((auth_hash, n5)) => Ok(
                            (
                                StartInput { nonce, encrypted, session_type, symmetric, auth_hash },
                                n5,
                            ),
                        ),
                    },
                },
            },
        },
    }
}

/// The salt that was encrypted to an object.
pub open spec fn salt_of(o: ObjectView, encrypted: Seq<u8>) -> TpmResult<Seq<u8>> {
    if !o.public.object_attributes.has(ObjectAttributes::DECRYPT) {
        Err(TpmRc(rc::ATTRIBUTES).for_handle(1))
    } else {
        match o.sensitive {
            None => Err(TpmRc(rc::HANDLE).for_handle(1)),
            Some(s) => match seed_recovered(o.public, s, encrypted, LABEL_SECRET@) {
                Ok(v) => Ok(v),
                Err(e) => if e == TpmRc(rc::VALUE) {
                    Err(TpmRc(rc::VALUE).for_parameter(2))
                } else if e == TpmRc(rc::TYPE) {
                    Err(TpmRc(rc::TYPE).for_handle(1))
                } else {
                    Err(e)
                },
            },
        }
    }
}

/// The salt that a session starts with, which is empty without a key.
pub open spec fn salt_given(state: TpmState, tpm_key: u32, encrypted: Seq<u8>) -> TpmResult<
    Seq<u8>,
> {
    if tpm_key == rh::NULL {
        if encrypted.len() != 0 {
            Err(TpmRc(rc::VALUE).for_parameter(2))
        } else {
            Ok(Seq::empty())
        }
    } else {
        match object_named(state, tpm_key) {
            Err(e) => Err(e.for_handle(1)),
            Ok(o) => salt_of(o@, encrypted),
        }
    }
}

/// What a session is bound to: the authorization value, what identifies the
/// entity, and whether it has dictionary attack protection. A PIN Index cannot
/// be bound to.
pub open spec fn binding(state: TpmState, bind: u32) -> TpmResult<(Seq<u8>, Seq<u8>, bool)> {
    if bind == rh::NULL {
        Ok((Seq::empty(), Seq::empty(), false))
    } else {
        match entity_of(state, bind) {
            Err(e) => Err(e.for_handle(2)),
            Ok(e) => if e.pin is Some {
                Err(TpmRc(rc::HANDLE).for_handle(2))
            } else {
                match name_of(state, bind) {
                    Err(x) => Err(x),
                    Ok(name) => Ok((e.auth, bind_identity(name, e.auth), e.uses_lockout)),
                }
            },
        }
    }
}

/// Everything a session starts with but its nonce.
pub struct Start {
    pub input: StartInput,
    pub salt: Seq<u8>,
    pub bind: u32,
    pub bind_auth: Seq<u8>,
    pub bind_name: Seq<u8>,
    pub uses_lockout: bool,
}

/// Everything a session starts with but its nonce.
pub open spec fn start_check(state: TpmState, req: RequestView) -> TpmResult<Start> {
    match (
        req.handle(0),
        req.handle(1),
        alone(req.parameters, parse_start(req.parameters)),
    ) {
        (Err(e), _, _) => Err(e),
        (_, Err(e), _) => Err(e),
        (_, _, Err(e)) => Err(e),
        (Ok(tpm_key), Ok(bind), Ok(i)) => if !is_session_type(i.session_type) {
            Err(TpmRc(rc::VALUE).for_parameter(3))
        } else if !supported(i.auth_hash) {
            Err(TpmRc(rc::HASH).for_parameter(5))
        } else if i.nonce.len() < 16 || i.nonce.len() > size_of(i.auth_hash) {
            Err(TpmRc(rc::SIZE).for_parameter(1))
        } else {
            match (salt_given(state, tpm_key, i.encrypted), binding(state, bind)) {
                (Err(e), _) => Err(e),
                (_, Err(e)) => Err(e),
                (Ok(salt), Ok(b)) => Ok(
                    Start {
                        input: i,
                        salt,
                        bind,
                        bind_auth: b.0,
                        bind_name: b.1,
                        uses_lockout: b.2,
                    },
                ),
            }
        },
    }
}

/// The first free handle for a session of type `t` is `h`.
pub open spec fn is_next(sessions: SessionStore, t: u8, h: u32) -> bool {
    exists|n: int|
        {
            &&& 0 <= n < config::MAX_ACTIVE_SESSIONS
            &&& #[trigger] sessions.is_free(n)
            &&& h == session_handle(t, n)
            &&& forall|m: int| 0 <= m < n ==> !#[trigger] sessions.is_free(m)
        }
}

/// No handle is free for another session.
pub open spec fn all_taken(sessions: SessionStore) -> bool {
    forall|m: int| 0 <= m < config::MAX_ACTIVE_SESSIONS ==> !#[trigger] sessions.is_free(m)
}

/// The session is as it starts.
pub open spec fn is_started(s: Session, h: u32, i: Start, nonce_tpm: Seq<u8>, state: TpmState)
    -> bool {
    &&& s.handle == h
    &&& s.session_type == i.input.session_type
    &&& s.auth_hash == i.input.auth_hash
    &&& s.nonce_tpm@ == nonce_tpm
    &&& s.nonce_caller@ == i.input.nonce
    &&& s.session_key@ == session_key_of(
        i.input.auth_hash,
        i.bind_auth,
        i.salt,
        nonce_tpm,
        i.input.nonce,
    )
    &&& s.bind == i.bind
    &&& s.bind_name@ == i.bind_name
    &&& s.bind_uses_lockout == i.uses_lockout
    &&& s.start_time == state.clock.time
    &&& s.time_epoch == state.clock.time_epoch
    &&& s.symmetric == i.input.symmetric
    &&& s.policy.is_fresh(i.input.auth_hash)
    &&& !s.audit.is_audit
    &&& s.audit.digest@.len() == 0
}

/// TPM2_StartAuthSession.
pub open spec fn start_auth_session_ran(
    after: TpmState,
    before: TpmState,
    req: RequestView,
    r: TpmResult<Response>,
) -> bool {
    match start_check(before, req) {
        Err(e) => after == before && fails(r, e),
        Ok(i) => {
            let drawn = draw(before.rng.model(), size_of(i.input.auth_hash));
            &&& after == (TpmState { rng: after.rng, sessions: after.sessions, ..before })
            &&& after.rng.model() == drawn.1
            &&& match drawn.0 {
                Err(e) => after.sessions == before.sessions && fails(r, e),
                Ok(nonce_tpm) => if all_taken(before.sessions) {
                    after.sessions == before.sessions && fails(r, TpmRc(rc::SESSION_HANDLES))
                } else if !before.sessions.has_room() {
                    after.sessions == before.sessions && fails(r, TpmRc(rc::SESSION_MEMORY))
                } else {
                    let h = r->Ok_0.handle->0;
                    &&& answers_handle(r, h, sized(nonce_tpm))
                    &&& is_next(before.sessions, i.input.session_type, h)
                    &&& after.sessions == (SessionStore {
                        loaded: after.sessions.loaded,
                        ..before.sessions
                    })
                    &&& after.sessions.loaded@ == before.sessions.loaded@.insert(
                        h,
                        after.sessions.loaded@[h],
                    )
                    &&& is_started(after.sessions.loaded@[h], h, i, nonce_tpm, before)
                },
            }
        },
    }
}

/// The salt that a session starts with.
fn decrypt_salt(state: &TpmState, tpm_key: u32, encrypted: &[u8]) -> (r: TpmResult<Vec<u8>>)
    requires
        state.wf(),
    ensures
        match salt_given(*state, tpm_key, encrypted@) {
            Ok(v) => r is Ok && r->Ok_0@ == v,
            Err(e) => r is Err && r->Err_0 == e,
        },
{
    if tpm_key == rh::NULL {
        if encrypted.len() != 0 {
            return Err(TpmRc(rc::VALUE).with_parameter(2));
        }
        let none: Vec<u8> = Vec::new();
        assert(none@ =~= Seq::<u8>::empty());
        return Ok(none);
    }
    let object: &Object = match object_of(state, tpm_key) {
        Ok(o) => o,
        Err(e) => {
            return Err(e.with_handle(1));
        },
    };
    if !object.public.object_attributes.has(ObjectAttributes::DECRYPT) {
        return Err(TpmRc(rc::ATTRIBUTES).with_handle(1));
    }
    match &object.sensitive {
        None => Err(TpmRc(rc::HANDLE).with_handle(1)),
        Some(s) => match seed_from_private(&object.public, s, encrypted, LABEL_SECRET.as_slice()) {
            Ok(v) => Ok(v),
            Err(e) => if e.0 == rc::VALUE {
                Err(TpmRc(rc::VALUE).with_parameter(2))
            } else if e.0 == rc::TYPE {
                Err(TpmRc(rc::TYPE).with_handle(1))
            } else {
                Err(e)
            },
        },
    }
}

/// What a session is bound to.
fn bind_to(state: &TpmState, bind: u32) -> (r: TpmResult<(Vec<u8>, Vec<u8>, bool)>)
    requires
        state.wf(),
    ensures
        match binding(*state, bind) {
            Ok(b) => r is Ok && (r->Ok_0).0@ == b.0 && (r->Ok_0).1@ == b.1 && (r->Ok_0).2 == b.2
                && b.1.len() <= 1024,
            Err(e) => r is Err && r->Err_0 == e,
        },
{
    if bind == rh::NULL {
        let a: Vec<u8> = Vec::new();
        let b: Vec<u8> = Vec::new();
        assert(a@ =~= Seq::<u8>::empty());
        return Ok((a, b, false));
    }
    let e: Entity = match entity(state, bind) {
        Ok(e) => e,
        Err(e) => {
            return Err(e.with_handle(2));
        },
    };
    if e.pin.is_some() {
        return Err(TpmRc(rc::HANDLE).with_handle(2));
    }
    let name: Vec<u8> = handle_name(state, bind)?;
    let id: Vec<u8> = Session::bind_id(name.as_slice(), e.auth.as_slice());
    proof {
        lemma_trimmed_len(e.auth@);
    }
    Ok((e.auth, id, e.uses_lockout))
}

proof fn lemma_trimmed_len(v: Seq<u8>)
    ensures
        trimmed(v).len() <= v.len(),
    decreases v.len(),
{
    if v.len() > 0 && v.last() == 0 {
        lemma_trimmed_len(v.drop_last());
    }
}

/// Start a session with a nonce that was drawn.
fn begin(
    state: &mut TpmState,
    nonce_caller: Vec<u8>,
    nonce_tpm: Vec<u8>,
    session_type: u8,
    symmetric: SymDef,
    auth_hash: u16,
    salt: &[u8],
    bind: u32,
    bound: (Vec<u8>, Vec<u8>, bool),
    Ghost(i): Ghost<Start>,
) -> (r: TpmResult<Response>)
    requires
        old(state).wf(),
        is_session_type(session_type),
        supported(auth_hash),
        nonce_caller@.len() <= 64,
        nonce_tpm@.len() <= 64,
        bound.1@.len() <= 1024,
        symmetric.algorithm == crate::tpm::constants::alg::XOR ==> supported(symmetric.key_bits),
        symmetric.algorithm == crate::tpm::constants::alg::AES
            ==> crate::tpm::structures::schemes::aes_bits(symmetric.key_bits),
        i.input.nonce == nonce_caller@,
        i.input.session_type == session_type,
        i.input.symmetric == symmetric,
        i.input.auth_hash == auth_hash,
        i.salt == salt@,
        i.bind == bind,
        i.bind_auth == bound.0@,
        i.bind_name == bound.1@,
        i.uses_lockout == bound.2,
    ensures
        final(state).wf(),
        *final(state) == (TpmState { sessions: final(state).sessions, ..*old(state) }),
        if all_taken(old(state).sessions) {
            final(state).sessions == old(state).sessions && fails(r, TpmRc(rc::SESSION_HANDLES))
        } else if !old(state).sessions.has_room() {
            final(state).sessions == old(state).sessions && fails(r, TpmRc(rc::SESSION_MEMORY))
        } else {
            let h = r->Ok_0.handle->0;
            &&& answers_handle(r, h, sized(nonce_tpm@))
            &&& is_next(old(state).sessions, session_type, h)
            &&& final(state).sessions == (SessionStore {
                loaded: final(state).sessions.loaded,
                ..old(state).sessions
            })
            &&& final(state).sessions.loaded@ == old(state).sessions.loaded@.insert(
                h,
                final(state).sessions.loaded@[h],
            )
            &&& is_started(final(state).sessions.loaded@[h], h, i, nonce_tpm@, *old(state))
        },
{
    let key: Vec<u8> = match derive_session_key(
        auth_hash,
        bound.0.as_slice(),
        salt,
        nonce_tpm.as_slice(),
        nonce_caller.as_slice(),
    ) {
        Ok(k) => k,
        Err(_) => Vec::new(),
    };
    let handle: u32 = match state.sessions.allocate_handle(session_type) {
        Ok(h) => h,
        Err(e) => {
            return Err(e);
        },
    };
    assert(is_next(state.sessions, session_type, handle));
    assert(!all_taken(state.sessions));
    let mut w: Writer = Writer::new();
    w.sized16(nonce_tpm.as_slice());
    assert(w.written() =~= sized(nonce_tpm@));
    let mut s: Session = Session::new(
        handle,
        session_type,
        auth_hash,
        nonce_tpm,
        nonce_caller,
        key,
        bind,
        bound.1,
        symmetric,
    )?;
    s.bind_uses_lockout = bound.2;
    s.start_time = state.clock.time;
    s.time_epoch = state.clock.time_epoch;
    state.sessions.insert(s)?;
    respond_with_handle(handle, w)
}

/// TPM2_StartAuthSession.
pub fn start_auth_session(state: &mut TpmState, request: &Request) -> (r: TpmResult<Response>)
    requires
        old(state).wf(),
    ensures
        final(state).wf(),
        start_auth_session_ran(*final(state), *old(state), request@, r),
{
    let tpm_key: u32 = request.handle(0)?;
    let bind: u32 = request.handle(1)?;
    let mut reader: Reader = request.reader();
    let nonce_caller: Vec<u8> = take_sized::<64>(&mut reader)?;
    let encrypted: Vec<u8> = take_sized::<512>(&mut reader)?;
    let session_type: u8 = reader.u8()?;
    let symmetric: SymDef = SymDef::unmarshal(&mut reader, true)?;
    let auth_hash: u16 = reader.u16()?;
    reader.expect_end()?;
    if !is_session_type(session_type) {
        return Err(TpmRc(rc::VALUE).with_parameter(3));
    }
    let size: usize = match digest_size(auth_hash) {
        Ok(n) => n,
        Err(_) => {
            return Err(TpmRc(rc::HASH).with_parameter(5));
        },
    };
    if nonce_caller.len() < 16 || nonce_caller.len() > size {
        return Err(TpmRc(rc::SIZE).with_parameter(1));
    }
    let salt: Vec<u8> = decrypt_salt(state, tpm_key, encrypted.as_slice())?;
    let bound: (Vec<u8>, Vec<u8>, bool) = bind_to(state, bind)?;
    let nonce_tpm: Vec<u8> = state.rng.bytes(size)?;
    let ghost i = start_check(*old(state), request@)->Ok_0;
    begin(
        state,
        nonce_caller,
        nonce_tpm,
        session_type,
        symmetric,
        auth_hash,
        salt.as_slice(),
        bind,
        bound,
        Ghost(i),
    )
}

/// TPM2_PolicyRestart: the session forgets every assertion.
pub open spec fn policy_restart_ran(
    after: TpmState,
    before: TpmState,
    req: RequestView,
    r: TpmResult<Response>,
) -> bool {
    match req.handle(0) {
        Err(e) => after == before && fails(r, e),
        Ok(h) => if !before.sessions.loaded@.contains_key(h) {
            after == before && fails(r, TpmRc(rc::HANDLE).for_handle(1))
        } else {
            let was = before.sessions.loaded@[h];
            let now = after.sessions.loaded@[h];
            &&& answers_nothing(r)
            &&& after == (TpmState { sessions: after.sessions, ..before })
            &&& after.sessions == (SessionStore {
                loaded: after.sessions.loaded,
                ..before.sessions
            })
            &&& after.sessions.loaded@ == before.sessions.loaded@.insert(h, now)
            &&& now == (Session { policy: now.policy, ..was })
            &&& now.policy.is_fresh(was.auth_hash)
        },
    }
}

/// TPM2_PolicyRestart.
pub fn policy_restart(state: &mut TpmState, request: &Request) -> (r: TpmResult<Response>)
    requires
        old(state).wf(),
    ensures
        final(state).wf(),
        policy_restart_ran(*final(state), *old(state), request@, r),
{
    let handle: u32 = request.handle(0)?;
    if !state.sessions.contains(handle) {
        return Err(TpmRc(rc::HANDLE).with_handle(1));
    }
    match state.sessions.get_mut(handle) {
        Ok(s) => {
            s.restart_policy();
        },
        Err(_) => {},
    }
    nothing()
}

/// The sessions after what `bind` names is gone.
pub open spec fn unbound(after: SessionStore, before: SessionStore, bind: u32) -> bool {
    &&& after == (SessionStore { loaded: after.loaded, ..before })
    &&& forall|h: u32| #[trigger]
        after.loaded@.contains_key(h) <==> before.loaded@.contains_key(h) && before.loaded@[h].bind
            != bind
    &&& forall|h: u32| #[trigger]
        after.loaded@.contains_key(h) ==> after.loaded@[h] == before.loaded@[h]
}

/// TPM2_FlushContext: a transient object goes together with the sessions bound
/// to it. Any other handle names the session under it, or where there is none
/// the session with its number, whatever its type.
pub open spec fn flush_context_ran(
    after: TpmState,
    before: TpmState,
    req: RequestView,
    r: TpmResult<Response>,
) -> bool {
    match alone(req.parameters, raw_u32(req.parameters, 0)) {
        Err(e) => after == before && fails(r, e),
        Ok(handle) => if is_transient(handle) {
            if !before.objects.slots@.contains_key(handle) {
                after == before && fails(r, TpmRc(rc::HANDLE).for_parameter(1))
            } else {
                &&& answers_nothing(r)
                &&& after == (TpmState {
                    objects: after.objects,
                    sessions: after.sessions,
                    ..before
                })
                &&& after.objects.slots@ == before.objects.slots@.remove(handle)
                &&& unbound(after.sessions, before.sessions, handle)
            }
        } else {
            match before.sessions.named_by(handle) {
                None => after == before && fails(
                    r,
                    TpmRc(
                        if is_session(handle) {
                            rc::HANDLE
                        } else {
                            rc::VALUE
                        },
                    ).for_parameter(1),
                ),
                Some(h) => {
                    &&& answers_nothing(r)
                    &&& after == (TpmState { sessions: after.sessions, audit: after.audit, ..before })
                    &&& after.sessions.loaded@ == before.sessions.loaded@.remove(h)
                    &&& after.sessions.saved@ == before.sessions.saved@.remove(h)
                    &&& after.sessions.counter == before.sessions.counter
                    &&& after.audit == (crate::tpm::engine::state::Audit {
                        exclusive_session: if before.audit.exclusive_session == h {
                            rh::UNASSIGNED
                        } else {
                            before.audit.exclusive_session
                        },
                        ..before.audit
                    })
                },
            }
        },
    }
}

/// TPM2_FlushContext.
pub fn flush_context(state: &mut TpmState, request: &Request) -> (r: TpmResult<Response>)
    requires
        old(state).wf(),
    ensures
        final(state).wf(),
        flush_context_ran(*final(state), *old(state), request@, r),
{
    let mut reader: Reader = request.reader();
    let handle: u32 = reader.u32()?;
    reader.expect_end()?;
    if is_transient(handle) {
        match state.objects.remove(handle) {
            Ok(_) => {},
            Err(e) => {
                return Err(e.with_parameter(1));
            },
        }
        state.sessions.flush_bound_to(handle);
        return nothing();
    }
    match state.sessions.aliased(handle) {
        None => Err(
            TpmRc(
                if is_session(handle) {
                    rc::HANDLE
                } else {
                    rc::VALUE
                },
            ).with_parameter(1),
        ),
        Some(h) => {
            match state.sessions.remove(h) {
                Ok(_) => {},
                Err(e) => {
                    return Err(e);
                },
            }
            if state.audit.exclusive_session == h {
                state.audit.exclusive_session = rh::UNASSIGNED;
            }
            nothing()
        },
    }
}

/// A session that TPM2_StartAuthSession started has an encryption that can be written
/// down and read back, so that it can be saved and restored.
pub proof fn law_a_started_session_can_be_restored(
    after: TpmState,
    before: TpmState,
    req: RequestView,
    r: TpmResult<Response>,
)
    requires
        start_auth_session_ran(after, before, req, r),
        r is Ok,
    ensures
        after.sessions.loaded@.contains_key(r->Ok_0.handle->0),
        SymDef::fits(after.sessions.loaded@[r->Ok_0.handle->0].symmetric, true),
{
}

} // verus!
