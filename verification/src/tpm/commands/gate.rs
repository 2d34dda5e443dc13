//! What is checked of a command before any authorization.

use vstd::prelude::*;

use super::dispatch::{
    availability, check_handle_available, check_session_handles, handle_is_present, handle_name,
    name_of, present, session_handles_from, Request, RequestView,
};
use super::handles::{
    allowed, allows, kind, kind_of, takes_no_parameters, without_parameters, Handle,
};
use super::sessions::{attributes_from, check_session_attributes, listed};
use super::table::{
    read_only_needs_a_volatile_index, read_only_refuses, read_only_volatile, refused_when_read_only,
};
use crate::tpm::constants::range::is_nv;
use crate::tpm::constants::{cc, rc, rh};
use crate::tpm::engine::nv::NvIndex;
use crate::tpm::engine::state::TpmState;
use crate::tpm::error::{TpmRc, TpmResult};
use crate::tpm::structures::attributes::{NvAttributes, StartupClearAttributes};

verus! {

/// True when a command may change NV: one the table marks, and one with an
/// authorization, which may fail and be counted.
pub open spec fn may_write_nv(req: RequestView) -> bool {
    req.info.nv || req.info.auth_handles > 0
}

/// True when one of the handles that need an authorization is the platform.
pub open spec fn platform_authorizes(req: RequestView) -> bool {
    exists|i: int|
        0 <= i < req.handles.len() && i < req.info.auth_handles && #[trigger] req.handles[i]
            == rh::PLATFORM
}

/// True when a command needs physical presence. TPM2_PP_Commands always does,
/// and a listed command where the platform authorizes it.
pub open spec fn needs_presence(state: TpmState, req: RequestView) -> bool {
    req.code == cc::PP_Commands || (state.pp_commands@.contains(req.code) && platform_authorizes(
        req,
    ))
}

/// What the first checks of a command answer.
pub open spec fn state_check(state: TpmState, req: RequestView) -> TpmResult<()> {
    if !state.started && req.code != cc::Startup {
        Err(TpmRc(rc::INITIALIZE))
    } else if (!state.nv_available || state.nv_write_failed) && may_write_nv(req) {
        Err(TpmRc(rc::NV_UNAVAILABLE))
    } else if state.started && req.code == cc::Startup {
        Err(TpmRc(rc::INITIALIZE))
    } else if needs_presence(state, req) && !state.physical_presence {
        Err(TpmRc(rc::PP))
    } else if without_parameters(req.code) && req.parameters.len() > 0 {
        Err(TpmRc(rc::SIZE))
    } else {
        Ok(())
    }
}

fn named_platform(request: &Request) -> (r: bool)
    ensures
        r == platform_authorizes(request@),
{
    let mut i: usize = 0;
    while i < request.handles.len() && i < request.info.auth_handles
        invariant
            i <= request.handles@.len(),
            forall|j: int| 0 <= j < i ==> #[trigger] request.handles@[j] != rh::PLATFORM,
        decreases request.handles@.len() - i,
    {
        if request.handles[i] == rh::PLATFORM {
            assert(request@.handles[i as int] == rh::PLATFORM);
            return true;
        }
        i = i + 1;
    }
    false
}

/// Check a command against the state the TPM is in.
fn check_state(state: &TpmState, request: &Request) -> (r: TpmResult<()>)
    ensures
        r == state_check(*state, request@),
{
    if !state.started && request.code != cc::Startup {
        return Err(TpmRc(rc::INITIALIZE));
    }
    if (!state.nv_available || state.nv_write_failed) && (request.info.nv
        || request.info.auth_handles > 0) {
        return Err(TpmRc(rc::NV_UNAVAILABLE));
    }
    if state.started && request.code == cc::Startup {
        return Err(TpmRc(rc::INITIALIZE));
    }
    let gated: bool = request.code == cc::PP_Commands || (listed(
        state.pp_commands.as_slice(),
        request.code,
    ) && named_platform(request));
    if gated && !state.physical_presence {
        return Err(TpmRc(rc::PP));
    }
    if takes_no_parameters(request.code) && request.parameters.len() > 0 {
        return Err(TpmRc(rc::SIZE));
    }
    Ok(())
}

/// The fault with the handle values from `i` on: the first one that the command
/// does not allow at its place.
pub open spec fn handle_values_from(req: RequestView, i: int) -> TpmResult<()>
    decreases req.handles.len() - i,
{
    if i >= req.handles.len() {
        Ok(())
    } else if kind_of(req.code, i) is Some && !allowed(
        kind_of(req.code, i)->Some_0,
        req.handles[i],
    ) {
        Err(TpmRc(rc::VALUE).for_handle(i + 1))
    } else {
        handle_values_from(req, i + 1)
    }
}

/// Check that every handle has a value that the command allows at its place.
fn check_handle_values(request: &Request) -> (r: TpmResult<()>)
    ensures
        r == handle_values_from(request@, 0),
{
    let mut i: usize = 0;
    while i < request.handles.len()
        invariant
            i <= request.handles@.len(),
            handle_values_from(request@, 0) == handle_values_from(request@, i as int),
        decreases request.handles@.len() - i,
    {
        assert(i < request.handles.len());
        let k: Option<Handle> = kind(request.code, i);
        if let Some(h) = k {
            if !allows(h, request.handles[i]) {
                return Err(TpmRc(rc::VALUE).with_handle(i + 1));
            }
        }
        i = i + 1;
    }
    Ok(())
}

/// True for an Index whose data is kept in memory alone.
pub open spec fn volatile(i: NvIndex) -> bool {
    i.public.attributes.has(NvAttributes::ORDERLY) && i.public.attributes.has(
        NvAttributes::CLEAR_STCLEAR,
    )
}

/// The Index a command in Read-Only mode is judged by: the second handle, or
/// the only one.
pub open spec fn judged_handle(req: RequestView) -> TpmResult<u32> {
    if req.handle(1) is Ok {
        req.handle(1)
    } else {
        req.handle(0)
    }
}

/// What [`check_read_only`] answers.
///
/// Read-Only mode refuses a command before its authorization is looked at. A
/// PIN Index is no authorization there, because using it moves its counter.
pub open spec fn read_only_check(state: TpmState, req: RequestView) -> TpmResult<()> {
    if !state.startup_clear.has(StartupClearAttributes::READ_ONLY) {
        Ok(())
    } else if read_only_refuses(req.code) {
        Err(TpmRc(rc::READ_ONLY))
    } else {
        let h = judged_handle(req);
        if read_only_volatile(req.code) && h is Err {
            Err(h->Err_0)
        } else if read_only_volatile(req.code) && !state.nv.indices@.contains_key(h->Ok_0) {
            Err(TpmRc(rc::HANDLE).for_handle(1))
        } else if read_only_volatile(req.code) && !volatile(state.nv.indices@[h->Ok_0]) {
            Err(TpmRc(rc::READ_ONLY))
        } else if req.code != cc::PolicySecret {
            Ok(())
        } else if req.handle(0) is Err {
            Err(req.handle(0)->Err_0)
        } else if is_nv(req.handle(0)->Ok_0) && state.nv.indices@.contains_key(req.handle(0)->Ok_0)
            && state.nv.indices@[req.handle(0)->Ok_0].is_pin() {
            Err(TpmRc(rc::READ_ONLY))
        } else {
            Ok(())
        }
    }
}

/// Refuse what Read-Only mode does not allow.
fn check_read_only(state: &TpmState, request: &Request) -> (r: TpmResult<()>)
    requires
        state.wf(),
    ensures
        r == read_only_check(*state, request@),
{
    if !state.startup_clear.has(StartupClearAttributes::READ_ONLY) {
        return Ok(());
    }
    if refused_when_read_only(request.code) {
        return Err(TpmRc(rc::READ_ONLY));
    }
    if read_only_needs_a_volatile_index(request.code) {
        let handle: u32 = match request.handle(1) {
            Ok(h) => h,
            Err(_) => request.handle(0)?,
        };
        match state.nv.get(handle) {
            Err(e) => {
                return Err(e.with_handle(1));
            },
            Ok(i) => {
                if !(i.public.attributes.has(NvAttributes::ORDERLY) && i.public.attributes.has(
                    NvAttributes::CLEAR_STCLEAR,
                )) {
                    return Err(TpmRc(rc::READ_ONLY));
                }
            },
        }
    }
    if request.code == cc::PolicySecret {
        let handle: u32 = request.handle(0)?;
        if is_nv(handle) {
            if let Ok(i) = state.nv.get(handle) {
                if i.is_pin() {
                    return Err(TpmRc(rc::READ_ONLY));
                }
            }
        }
    }
    Ok(())
}

/// The fault with handle `i`: what it names is not in memory, cannot be used
/// now, or is not there.
pub open spec fn handle_fault(state: TpmState, req: RequestView, i: int) -> TpmResult<Seq<u8>> {
    let h = req.handles[i];
    if !present(state, h) {
        Err(TpmRc((rc::REFERENCE_H0 + i) as u32))
    } else {
        match availability(state, h) {
            Err(e) => Err(e.for_handle(i + 1)),
            Ok(_) => match name_of(state, h) {
                Err(e) => Err(e.for_handle(i + 1)),
                Ok(v) => Ok(v),
            },
        }
    }
}

/// The Names of the first `n` handles.
pub open spec fn names_of(state: TpmState, req: RequestView, n: nat) -> TpmResult<Seq<Seq<u8>>>
    decreases n,
{
    if n == 0 {
        Ok(Seq::empty())
    } else {
        match names_of(state, req, (n - 1) as nat) {
            Err(e) => Err(e),
            Ok(list) => match handle_fault(state, req, n - 1) {
                Err(e) => Err(e),
                Ok(v) => Ok(list.push(v)),
            },
        }
    }
}

proof fn lemma_names_of_stop(state: TpmState, req: RequestView, i: nat, n: nat)
    requires
        i < n,
        names_of(state, req, i) is Ok,
        handle_fault(state, req, i as int) is Err,
    ensures
        names_of(state, req, n) == Err::<Seq<Seq<u8>>, TpmRc>(
            handle_fault(state, req, i as int)->Err_0,
        ),
    decreases n,
{
    if i + 1 < n {
        lemma_names_of_stop(state, req, i, (n - 1) as nat);
    }
}

fn resolve_handle(state: &TpmState, request: &Request, i: usize) -> (r: TpmResult<Vec<u8>>)
    requires
        state.wf(),
        i < request.handles@.len() <= 7,
    ensures
        match handle_fault(*state, request@, i as int) {
            Ok(v) => r is Ok && r->Ok_0@ == v,
            Err(e) => r is Err && r->Err_0 == e,
        },
{
    let h: u32 = request.handles[i];
    if !handle_is_present(state, h) {
        return Err(TpmRc(rc::REFERENCE_H0 + i as u32));
    }
    if let Err(e) = check_handle_available(state, h) {
        return Err(e.with_handle(i + 1));
    }
    match handle_name(state, h) {
        Ok(v) => Ok(v),
        Err(e) => Err(e.with_handle(i + 1)),
    }
}

/// Resolve the handle area into the Names of what it names.
fn resolve_handles(state: &TpmState, request: &Request) -> (r: TpmResult<Vec<Vec<u8>>>)
    requires
        state.wf(),
        request.handles@.len() <= 7,
    ensures
        match names_of(*state, request@, request@.handles.len()) {
            Ok(v) => r is Ok && r->Ok_0@.map_values(|x: Vec<u8>| x@) == v,
            Err(e) => r is Err && r->Err_0 == e,
        },
{
    let mut out: Vec<Vec<u8>> = Vec::new();
    let ghost f = |x: Vec<u8>| x@;
    assert(out@.map_values(f) =~= Seq::<Seq<u8>>::empty());
    let mut i: usize = 0;
    while i < request.handles.len()
        invariant
            i <= request.handles@.len() <= 7,
            state.wf(),
            f == (|x: Vec<u8>| x@),
            names_of(*state, request@, i as nat) == Ok::<Seq<Seq<u8>>, TpmRc>(out@.map_values(f)),
        decreases request.handles@.len() - i,
    {
        let ghost before = out@;
        match resolve_handle(state, request, i) {
            Ok(v) => {
                out.push(v);
                assert(out@.map_values(f) =~= before.map_values(f).push(v@));
            },
            Err(e) => {
                proof {
                    lemma_names_of_stop(*state, request@, i as nat, request@.handles.len());
                }
                return Err(e);
            },
        }
        i = i + 1;
    }
    Ok(out)
}

/// What is checked of a command before any authorization: the Names of its
/// handles when nothing is wrong.
#[verifier::opaque]
pub open spec fn gate_result(state: TpmState, req: RequestView) -> TpmResult<Seq<Seq<u8>>> {
    match state_check(state, req) {
        Err(e) => Err(e),
        Ok(_) => match handle_values_from(req, 0) {
            Err(e) => Err(e),
            Ok(_) => match read_only_check(state, req) {
                Err(e) => Err(e),
                Ok(_) => match names_of(state, req, req.handles.len()) {
                    Err(e) => Err(e),
                    Ok(names) => match session_handles_from(state, req.sessions, 0) {
                        Err(e) => Err(e),
                        Ok(_) => match attributes_from(
                            req.sessions,
                            req.info.auth_handles as int,
                            0,
                        ) {
                            Err(e) => Err(e),
                            Ok(_) => Ok(names),
                        },
                    },
                },
            },
        },
    }
}

/// Check a command before any of its authorizations, and return the Names of
/// its handles.
pub fn let_in(state: &TpmState, request: &Request) -> (r: TpmResult<Vec<Vec<u8>>>)
    requires
        state.wf(),
        request.handles@.len() <= 7,
        request.sessions@.len() <= 7,
    ensures
        match gate_result(*state, request@) {
            Ok(v) => r is Ok && r->Ok_0@.map_values(|x: Vec<u8>| x@) == v,
            Err(e) => r is Err && r->Err_0 == e,
        },
{
    proof {
        reveal(gate_result);
    }
    check_state(state, request)?;
    check_handle_values(request)?;
    check_read_only(state, request)?;
    let names: Vec<Vec<u8>> = resolve_handles(state, request)?;
    check_session_handles(state, request)?;
    check_session_attributes(request)?;
    Ok(names)
}

} // verus!
