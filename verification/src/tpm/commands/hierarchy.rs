//! The administration of the hierarchies and of the dictionary attack
//! protection.

use vstd::prelude::*;

use super::dispatch::{Request, RequestView, Response};
use super::management::{is_pp_eligible, pp_eligible};
use super::sessions::listed;
use super::wire::{
    alone, answers_nothing, fails, nothing, raw_u16, raw_u32, raw_u8, take_sized,
};
use crate::tpm::config;
use crate::tpm::constants::{alg, hc, rc, rh};
use crate::tpm::crypto::hash::{digest_size, size_of, supported};
use crate::tpm::crypto::rand::Rng;
use crate::tpm::engine::handle_map::HandleMap;
use crate::tpm::engine::hierarchy::{draw_seed, seed_drawn, Hierarchies, Hierarchy};
use crate::tpm::engine::lifecycle::{clear_drawn, cleared, drop_platform_range};
use crate::tpm::engine::object::{Object, ObjectSlots};
use crate::tpm::engine::state::{Lockout, TpmState};
use crate::tpm::error::{TpmRc, TpmResult};
use crate::tpm::marshal::parse_sized;
use crate::tpm::structures::attributes::{PermanentAttributes, StartupClearAttributes};
use crate::tpm::structures::base::TpmtHa;
use crate::tpm::structures::lists::TpmlCc;
use crate::util::listing::{ascending, insert};

verus! {

/// A TPMI_YES_NO.
pub open spec fn is_yes(value: u8) -> TpmResult<bool> {
    if value <= 1 {
        Ok(value == 1)
    } else {
        Err(TpmRc(rc::VALUE))
    }
}

/// Read a TPMI_YES_NO: zero or one, and nothing else.
pub fn yes_no(value: u8) -> (r: TpmResult<bool>)
    ensures
        r == is_yes(value),
{
    if value <= 1 {
        Ok(value == 1)
    } else {
        Err(TpmRc(rc::VALUE))
    }
}

/// One octet that is parameter `n` and says yes or no.
pub open spec fn choice(p: Seq<u8>, at: int, n: int) -> TpmResult<bool> {
    match raw_u8(p, at) {
        Err(e) => Err(e),
        Ok((v, next)) => match is_yes(v) {
            Err(e) => Err(e.for_parameter(n)),
            Ok(yes) => if next == p.len() {
                Ok(yes)
            } else {
                Err(TpmRc(rc::SIZE))
            },
        },
    }
}

/// The loaded objects once those of a hierarchy are gone.
pub open spec fn flushed_from(after: ObjectSlots, before: ObjectSlots, hierarchy: u32) -> bool {
    &&& forall|h: u32| #[trigger]
        after.slots@.contains_key(h) <==> before.slots@.contains_key(h) && !ObjectSlots::belongs(
            before.slots@[h],
            hierarchy,
        )
    &&& forall|h: u32| #[trigger]
        after.slots@.contains_key(h) ==> after.slots@[h] == before.slots@[h]
}

/// What TPM2_HierarchyControl is given: what to turn on or off, and which.
pub open spec fn control_input(p: Seq<u8>) -> TpmResult<(u32, bool)> {
    match raw_u32(p, 0) {
        Err(e) => Err(e),
        Ok((enable, next)) => match choice(p, next, 2) {
            Err(e) => Err(e),
            Ok(on) => Ok((enable, on)),
        },
    }
}

/// Whether `auth` may turn `enable` on or off. Only the platform turns
/// anything on, and only it controls its own hierarchy and its NV.
pub open spec fn control_check(auth: u32, enable: u32, on: bool) -> TpmResult<()> {
    if (enable == rh::PLATFORM || enable == rh::PLATFORM_NV || on) && auth != rh::PLATFORM {
        Err(TpmRc(rc::AUTH_TYPE).for_handle(1))
    } else if enable == rh::PLATFORM || enable == rh::PLATFORM_NV {
        Ok(())
    } else if enable != rh::OWNER && enable != rh::ENDORSEMENT {
        Err(TpmRc(rc::VALUE).for_parameter(1))
    } else if auth != rh::PLATFORM && auth != enable {
        Err(TpmRc(rc::AUTH_TYPE).for_handle(1))
    } else {
        Ok(())
    }
}

/// The hierarchies with one of them turned on or off.
pub open spec fn controlled(h: Hierarchies, enable: u32, on: bool) -> Hierarchies {
    if enable == rh::PLATFORM {
        Hierarchies { platform: Hierarchy { enabled: on, ..h.platform }, ..h }
    } else if enable == rh::OWNER {
        Hierarchies { owner: Hierarchy { enabled: on, ..h.owner }, ..h }
    } else if enable == rh::ENDORSEMENT {
        Hierarchies { endorsement: Hierarchy { enabled: on, ..h.endorsement }, ..h }
    } else {
        Hierarchies { platform_nv_enabled: on, ..h }
    }
}

/// The attribute that reports whether something is on.
pub open spec fn enable_bit(enable: u32) -> u32 {
    if enable == rh::PLATFORM {
        StartupClearAttributes::PH_ENABLE
    } else if enable == rh::OWNER {
        StartupClearAttributes::SH_ENABLE
    } else if enable == rh::ENDORSEMENT {
        StartupClearAttributes::EH_ENABLE
    } else {
        StartupClearAttributes::PH_ENABLE_NV
    }
}

/// Something that is turned on or off.
pub open spec fn turned(after: TpmState, before: TpmState, enable: u32, on: bool) -> bool {
    &&& after == (TpmState {
        hierarchies: controlled(before.hierarchies, enable, on),
        startup_clear: before.startup_clear.put(enable_bit(enable), on),
        objects: after.objects,
        ..before
    })
    &&& if on || enable == rh::PLATFORM_NV {
        after.objects == before.objects
    } else {
        flushed_from(after.objects, before.objects, enable)
    }
}

fn turn(state: &mut TpmState, enable: u32, on: bool)
    requires
        old(state).wf(),
        enable == rh::PLATFORM || enable == rh::OWNER || enable == rh::ENDORSEMENT || enable
            == rh::PLATFORM_NV,
    ensures
        final(state).wf(),
        turned(*final(state), *old(state), enable, on),
{
    if enable == rh::PLATFORM {
        state.hierarchies.platform.enabled = on;
        state.startup_clear.set(StartupClearAttributes::PH_ENABLE, on);
    } else if enable == rh::OWNER {
        state.hierarchies.owner.enabled = on;
        state.startup_clear.set(StartupClearAttributes::SH_ENABLE, on);
    } else if enable == rh::ENDORSEMENT {
        state.hierarchies.endorsement.enabled = on;
        state.startup_clear.set(StartupClearAttributes::EH_ENABLE, on);
    } else {
        state.hierarchies.platform_nv_enabled = on;
        state.startup_clear.set(StartupClearAttributes::PH_ENABLE_NV, on);
    }
    if !on && enable != rh::PLATFORM_NV {
        state.objects.flush_hierarchy(enable);
    }
}

/// TPM2_HierarchyControl. A hierarchy that is turned off loses its loaded
/// objects.
pub open spec fn hierarchy_control_ran(
    after: TpmState,
    before: TpmState,
    req: RequestView,
    r: TpmResult<Response>,
) -> bool {
    match req.handle(0) {
        Err(e) => fails(r, e) && after == before,
        Ok(auth) => match control_input(req.parameters) {
            Err(e) => fails(r, e) && after == before,
            Ok((enable, on)) => match control_check(auth, enable, on) {
                Err(e) => fails(r, e) && after == before,
                Ok(_) => answers_nothing(r) && turned(after, before, enable, on),
            },
        },
    }
}

/// TPM2_HierarchyControl.
pub fn hierarchy_control(state: &mut TpmState, request: &Request) -> (r: TpmResult<Response>)
    requires
        old(state).wf(),
    ensures
        final(state).wf(),
        hierarchy_control_ran(*final(state), *old(state), request@, r),
{
    let auth: u32 = request.handle(0)?;
    let mut reader = request.reader();
    let enable: u32 = reader.u32()?;
    let octet: u8 = reader.u8()?;
    let on: bool = match yes_no(octet) {
        Ok(v) => v,
        Err(e) => {
            return Err(e.with_parameter(2));
        },
    };
    reader.expect_end()?;
    let platform: bool = enable == rh::PLATFORM || enable == rh::PLATFORM_NV;
    if (platform || on) && auth != rh::PLATFORM {
        return Err(TpmRc(rc::AUTH_TYPE).with_handle(1));
    }
    if !platform {
        if enable != rh::OWNER && enable != rh::ENDORSEMENT {
            return Err(TpmRc(rc::VALUE).with_parameter(1));
        }
        if auth != rh::PLATFORM && auth != enable {
            return Err(TpmRc(rc::AUTH_TYPE).with_handle(1));
        }
    }
    turn(state, enable, on);
    nothing()
}

/// What TPM2_SetPrimaryPolicy is given: a digest and its algorithm.
pub open spec fn policy_input(p: Seq<u8>) -> TpmResult<(Seq<u8>, u16)> {
    match parse_sized(p, 0, 64) {
        Err(e) => Err(e),
        Ok((policy, next)) => match alone(p, raw_u16(p, next)) {
            Err(e) => Err(e),
            Ok(hash_alg) => Ok((policy, hash_alg)),
        },
    }
}

/// Whether a digest goes with its algorithm. No algorithm goes with no digest.
pub open spec fn policy_fits(policy: Seq<u8>, hash_alg: u16) -> TpmResult<()> {
    if hash_alg != alg::NULL && !supported(hash_alg) {
        Err(TpmRc(rc::HASH).for_parameter(2))
    } else if policy.len() != (if hash_alg == alg::NULL {
        0
    } else {
        size_of(hash_alg)
    }) {
        Err(TpmRc(rc::SIZE).for_parameter(1))
    } else {
        Ok(())
    }
}

/// Check that a digest goes with its algorithm, and put the two together.
pub fn fitting_policy(policy: Vec<u8>, hash_alg: u16) -> (r: TpmResult<TpmtHa>)
    ensures
        match policy_fits(policy@, hash_alg) {
            Ok(_) => r is Ok && r->Ok_0.valid() && r->Ok_0.hash_alg == hash_alg
                && r->Ok_0.digest@ == policy@,
            Err(e) => r is Err && r->Err_0 == e,
        },
{
    if hash_alg == alg::NULL {
        if policy.len() != 0 {
            return Err(TpmRc(rc::SIZE).with_parameter(1));
        }
    } else {
        match digest_size(hash_alg) {
            Err(_) => {
                return Err(TpmRc(rc::HASH).with_parameter(2));
            },
            Ok(size) => {
                if policy.len() != size {
                    return Err(TpmRc(rc::SIZE).with_parameter(1));
                }
            },
        }
    }
    TpmtHa::new(hash_alg, policy)
}

/// True for the handles of what has an authorization of its own and is always
/// there.
pub open spec fn administered(handle: u32) -> bool {
    handle == rh::LOCKOUT || handle == rh::PLATFORM || handle == rh::OWNER || handle
        == rh::ENDORSEMENT
}

/// The state with the policy of a permanent handle changed.
pub open spec fn policy_set(after: TpmState, before: TpmState, handle: u32, p: TpmtHa) -> bool {
    if handle == rh::LOCKOUT {
        after == (TpmState { lockout_policy: p, ..before })
    } else {
        let h = before.hierarchies;
        after == (TpmState {
            hierarchies: if handle == rh::PLATFORM {
                Hierarchies { platform: Hierarchy { policy: p, ..h.platform }, ..h }
            } else if handle == rh::OWNER {
                Hierarchies { owner: Hierarchy { policy: p, ..h.owner }, ..h }
            } else {
                Hierarchies { endorsement: Hierarchy { policy: p, ..h.endorsement }, ..h }
            },
            ..before
        })
    }
}

/// TPM2_SetPrimaryPolicy.
pub open spec fn set_primary_policy_ran(
    after: TpmState,
    before: TpmState,
    req: RequestView,
    r: TpmResult<Response>,
) -> bool {
    match req.handle(0) {
        Err(e) => fails(r, e) && after == before,
        Ok(handle) => match policy_input(req.parameters) {
            Err(e) => fails(r, e) && after == before,
            Ok((policy, hash_alg)) => match policy_fits(policy, hash_alg) {
                Err(e) => fails(r, e) && after == before,
                Ok(_) => if !administered(handle) {
                    fails(r, TpmRc(rc::VALUE).for_handle(1)) && after == before
                } else {
                    answers_nothing(r) && exists|p: TpmtHa|
                        p.hash_alg == hash_alg && p.digest@ == policy && #[trigger] policy_set(
                            after,
                            before,
                            handle,
                            p,
                        )
                },
            },
        },
    }
}

/// TPM2_SetPrimaryPolicy.
pub fn set_primary_policy(state: &mut TpmState, request: &Request) -> (r: TpmResult<Response>)
    requires
        old(state).wf(),
    ensures
        final(state).wf(),
        set_primary_policy_ran(*final(state), *old(state), request@, r),
{
    let handle: u32 = request.handle(0)?;
    let mut reader = request.reader();
    let policy: Vec<u8> = take_sized::<64>(&mut reader)?;
    let hash_alg: u16 = reader.u16()?;
    reader.expect_end()?;
    let value: TpmtHa = fitting_policy(policy, hash_alg)?;
    let ghost p = value;
    if handle == rh::LOCKOUT {
        state.lockout_policy = value;
    } else if handle == rh::PLATFORM {
        state.hierarchies.platform.policy = value;
    } else if handle == rh::OWNER {
        state.hierarchies.owner.policy = value;
    } else if handle == rh::ENDORSEMENT {
        state.hierarchies.endorsement.policy = value;
    } else {
        return Err(TpmRc(rc::VALUE).with_handle(1));
    }
    assert(policy_set(*state, *old(state), handle, p));
    nothing()
}

/// A hierarchy with a new seed and no authorization.
pub open spec fn reseeded(after: Hierarchy, before: Hierarchy, seed: Seq<u8>, proof_value: Seq<u8>) -> bool {
    &&& after.enabled == before.enabled
    &&& after.auth@.len() == 0
    &&& after.policy.hash_alg == alg::NULL
    &&& after.seed@ == seed
    &&& after.proof_value@ == proof_value
}

/// The persistent objects that are not in the platform's range.
pub open spec fn platform_dropped(after: HandleMap<Object>, before: HandleMap<Object>) -> bool {
    &&& forall|h: u32| #[trigger]
        after@.contains_key(h) <==> before@.contains_key(h) && h < hc::PLATFORM_PERSISTENT
    &&& forall|h: u32| #[trigger] after@.contains_key(h) ==> after@[h] == before@[h]
}

/// TPM2_ChangePPS: everything the platform owns goes with its seed, and the
/// default PCR banks come back at the next reset.
pub open spec fn change_pps_ran(after: TpmState, before: TpmState, r: TpmResult<Response>) -> bool {
    let drawn = seed_drawn(before.rng.model());
    &&& after.rng.model() == drawn.1
    &&& match drawn.0 {
        Err(e) => fails(r, e) && after == (TpmState { rng: after.rng, ..before }),
        Ok((seed, proof_value)) => {
            &&& answers_nothing(r)
            &&& after == (TpmState {
                rng: after.rng,
                hierarchies: Hierarchies {
                    platform: after.hierarchies.platform,
                    ..before.hierarchies
                },
                objects: after.objects,
                persistent: after.persistent,
                pcr_allocation: after.pcr_allocation,
                ..before
            })
            &&& reseeded(
                after.hierarchies.platform,
                before.hierarchies.platform,
                seed,
                proof_value,
            )
            &&& flushed_from(after.objects, before.objects, rh::PLATFORM)
            &&& platform_dropped(after.persistent, before.persistent)
            &&& after.pcr_allocation@ == config::DEFAULT_PCR_BANKS@
        },
    }
}

/// TPM2_ChangePPS.
pub fn change_pps(state: &mut TpmState, _request: &Request) -> (r: TpmResult<Response>)
    requires
        old(state).wf(),
    ensures
        final(state).wf(),
        change_pps_ran(*final(state), *old(state), r),
{
    let drawn: (Vec<u8>, Vec<u8>) = draw_seed(&mut state.rng)?;
    state.hierarchies.platform.seed = drawn.0;
    state.hierarchies.platform.proof_value = drawn.1;
    state.hierarchies.platform.clear_authorization();
    state.objects.flush_hierarchy(rh::PLATFORM);
    drop_platform_range(&mut state.persistent);
    let mut banks: Vec<u16> = Vec::new();
    banks.push(config::DEFAULT_PCR_BANKS[0]);
    banks.push(config::DEFAULT_PCR_BANKS[1]);
    assert(banks@ =~= config::DEFAULT_PCR_BANKS@);
    state.pcr_allocation = banks;
    nothing()
}

/// TPM2_ChangeEPS: the seed is no longer the one the manufacturer put in.
pub open spec fn change_eps_ran(after: TpmState, before: TpmState, r: TpmResult<Response>) -> bool {
    let drawn = seed_drawn(before.rng.model());
    &&& after.rng.model() == drawn.1
    &&& match drawn.0 {
        Err(e) => fails(r, e) && after == (TpmState { rng: after.rng, ..before }),
        Ok((seed, proof_value)) => {
            &&& answers_nothing(r)
            &&& after == (TpmState {
                rng: after.rng,
                hierarchies: Hierarchies {
                    endorsement: after.hierarchies.endorsement,
                    ..before.hierarchies
                },
                objects: after.objects,
                permanent: before.permanent.without(PermanentAttributes::TPM_GENERATED_EPS),
                ..before
            })
            &&& reseeded(
                after.hierarchies.endorsement,
                before.hierarchies.endorsement,
                seed,
                proof_value,
            )
            &&& flushed_from(after.objects, before.objects, rh::ENDORSEMENT)
        },
    }
}

/// TPM2_ChangeEPS.
pub fn change_eps(state: &mut TpmState, _request: &Request) -> (r: TpmResult<Response>)
    requires
        old(state).wf(),
    ensures
        final(state).wf(),
        change_eps_ran(*final(state), *old(state), r),
{
    let drawn: (Vec<u8>, Vec<u8>) = draw_seed(&mut state.rng)?;
    state.hierarchies.endorsement.seed = drawn.0;
    state.hierarchies.endorsement.proof_value = drawn.1;
    state.hierarchies.endorsement.clear_authorization();
    state.objects.flush_hierarchy(rh::ENDORSEMENT);
    state.permanent = state.permanent.without(PermanentAttributes::TPM_GENERATED_EPS);
    nothing()
}

/// TPM2_Clear: what belongs to the owner goes, and lockoutAuth with it.
pub open spec fn clear_ran(after: TpmState, before: TpmState, r: TpmResult<Response>) -> bool {
    let drawn = clear_drawn(before.rng.model());
    if before.permanent.has(PermanentAttributes::DISABLE_CLEAR) {
        fails(r, TpmRc(rc::DISABLED)) && after == before
    } else {
        match drawn.0 {
            Err(e) => {
                &&& fails(r, e)
                &&& after == (TpmState { rng: after.rng, ..before })
                &&& after.rng.model() == drawn.1
            },
            Ok(_) => {
                &&& answers_nothing(r)
                &&& after.lockout_auth@.len() == 0
                &&& after.lockout_policy.hash_alg == alg::NULL
                &&& exists|mid: TpmState|
                    #[trigger] cleared(mid, before) && after == (TpmState {
                        lockout_auth: after.lockout_auth,
                        lockout_policy: after.lockout_policy,
                        ..mid
                    })
            },
        }
    }
}

/// TPM2_Clear.
pub fn clear(state: &mut TpmState, _request: &Request) -> (r: TpmResult<Response>)
    requires
        old(state).wf(),
    ensures
        final(state).wf(),
        clear_ran(*final(state), *old(state), r),
{
    if state.permanent.has(PermanentAttributes::DISABLE_CLEAR) {
        return Err(TpmRc(rc::DISABLED));
    }
    state.on_clear()?;
    let ghost mid = *state;
    assert(cleared(mid, *old(state)));
    state.lockout_auth = Vec::new();
    state.lockout_policy = TpmtHa::null();
    nothing()
}

/// TPM2_ClearControl: only the platform allows TPM2_Clear again.
pub open spec fn clear_control_ran(
    after: TpmState,
    before: TpmState,
    req: RequestView,
    r: TpmResult<Response>,
) -> bool {
    match req.handle(0) {
        Err(e) => fails(r, e) && after == before,
        Ok(auth) => match choice(req.parameters, 0, 1) {
            Err(e) => fails(r, e) && after == before,
            Ok(disable) => if !disable && auth != rh::PLATFORM {
                fails(r, TpmRc(rc::AUTH_TYPE).for_handle(1)) && after == before
            } else {
                answers_nothing(r) && after == (TpmState {
                    permanent: before.permanent.put(PermanentAttributes::DISABLE_CLEAR, disable),
                    ..before
                })
            },
        },
    }
}

/// TPM2_ClearControl.
pub fn clear_control(state: &mut TpmState, request: &Request) -> (r: TpmResult<Response>)
    requires
        old(state).wf(),
    ensures
        final(state).wf(),
        clear_control_ran(*final(state), *old(state), request@, r),
{
    let auth: u32 = request.handle(0)?;
    let mut reader = request.reader();
    let octet: u8 = reader.u8()?;
    let disable: bool = match yes_no(octet) {
        Ok(v) => v,
        Err(e) => {
            return Err(e.with_parameter(1));
        },
    };
    reader.expect_end()?;
    if !disable && auth != rh::PLATFORM {
        return Err(TpmRc(rc::AUTH_TYPE).with_handle(1));
    }
    state.permanent.set(PermanentAttributes::DISABLE_CLEAR, disable);
    nothing()
}

/// The state with the authorization value of a permanent handle changed.
pub open spec fn auth_set(after: TpmState, before: TpmState, handle: u32, v: Vec<u8>) -> bool {
    if handle == rh::LOCKOUT {
        after == (TpmState { lockout_auth: v, ..before })
    } else {
        let h = before.hierarchies;
        after == (TpmState {
            hierarchies: if handle == rh::PLATFORM {
                Hierarchies { platform: Hierarchy { auth: v, ..h.platform }, ..h }
            } else if handle == rh::OWNER {
                Hierarchies { owner: Hierarchy { auth: v, ..h.owner }, ..h }
            } else {
                Hierarchies { endorsement: Hierarchy { auth: v, ..h.endorsement }, ..h }
            },
            ..before
        })
    }
}

/// TPM2_HierarchyChangeAuth.
pub open spec fn hierarchy_change_auth_ran(
    after: TpmState,
    before: TpmState,
    req: RequestView,
    r: TpmResult<Response>,
) -> bool {
    match req.handle(0) {
        Err(e) => fails(r, e) && after == before,
        Ok(handle) => match alone(req.parameters, parse_sized(req.parameters, 0, 64)) {
            Err(e) => fails(r, e) && after == before,
            Ok(auth) => if !administered(handle) {
                fails(r, TpmRc(rc::VALUE).for_handle(1)) && after == before
            } else {
                answers_nothing(r) && exists|v: Vec<u8>|
                    v@ == auth && #[trigger] auth_set(after, before, handle, v)
            },
        },
    }
}

/// TPM2_HierarchyChangeAuth.
pub fn hierarchy_change_auth(state: &mut TpmState, request: &Request) -> (r: TpmResult<Response>)
    requires
        old(state).wf(),
    ensures
        final(state).wf(),
        hierarchy_change_auth_ran(*final(state), *old(state), request@, r),
{
    let handle: u32 = request.handle(0)?;
    let mut reader = request.reader();
    let value: Vec<u8> = take_sized::<64>(&mut reader)?;
    reader.expect_end()?;
    let ghost v = value;
    if handle == rh::LOCKOUT {
        state.lockout_auth = value;
    } else if handle == rh::PLATFORM {
        state.hierarchies.platform.auth = value;
    } else if handle == rh::OWNER {
        state.hierarchies.owner.auth = value;
    } else if handle == rh::ENDORSEMENT {
        state.hierarchies.endorsement.auth = value;
    } else {
        return Err(TpmRc(rc::VALUE).with_handle(1));
    }
    assert(auth_set(*state, *old(state), handle, v));
    nothing()
}

/// TPM2_DictionaryAttackLockReset.
pub fn dictionary_attack_lock_reset(state: &mut TpmState, _request: &Request) -> (r: TpmResult<
    Response,
>)
    requires
        old(state).wf(),
    ensures
        final(state).wf(),
        answers_nothing(r),
        *final(state) == (TpmState {
            lockout: Lockout { failed_tries: 0, in_lockout: false, ..old(state).lockout },
            ..*old(state)
        }),
{
    state.lockout.failed_tries = 0;
    state.lockout.in_lockout = false;
    nothing()
}

/// What TPM2_DictionaryAttackParameters is given.
pub open spec fn da_input(p: Seq<u8>) -> TpmResult<(u32, u32, u32)> {
    match raw_u32(p, 0) {
        Err(e) => Err(e),
        Ok((tries, a)) => match raw_u32(p, a) {
            Err(e) => Err(e),
            Ok((recovery, b)) => match alone(p, raw_u32(p, b)) {
                Err(e) => Err(e),
                Ok(lockout) => Ok((tries, recovery, lockout)),
            },
        },
    }
}

/// TPM2_DictionaryAttackParameters. Setting them clears the counter.
pub open spec fn dictionary_attack_parameters_ran(
    after: TpmState,
    before: TpmState,
    req: RequestView,
    r: TpmResult<Response>,
) -> bool {
    match da_input(req.parameters) {
        Err(e) => fails(r, e) && after == before,
        Ok((tries, recovery, lockout)) => if tries == 0 {
            fails(r, TpmRc(rc::VALUE).for_parameter(1)) && after == before
        } else {
            answers_nothing(r) && after == (TpmState {
                lockout: Lockout {
                    max_tries: tries,
                    recovery_time: recovery,
                    lockout_recovery: lockout,
                    failed_tries: 0,
                    in_lockout: false,
                    ..before.lockout
                },
                ..before
            })
        },
    }
}

/// TPM2_DictionaryAttackParameters.
pub fn dictionary_attack_parameters(state: &mut TpmState, request: &Request) -> (r: TpmResult<
    Response,
>)
    requires
        old(state).wf(),
    ensures
        final(state).wf(),
        dictionary_attack_parameters_ran(*final(state), *old(state), request@, r),
{
    let mut reader = request.reader();
    let max_tries: u32 = reader.u32()?;
    let recovery_time: u32 = reader.u32()?;
    let lockout_recovery: u32 = reader.u32()?;
    reader.expect_end()?;
    if max_tries == 0 {
        return Err(TpmRc(rc::VALUE).with_parameter(1));
    }
    state.lockout.max_tries = max_tries;
    state.lockout.recovery_time = recovery_time;
    state.lockout.lockout_recovery = lockout_recovery;
    state.lockout.failed_tries = 0;
    state.lockout.in_lockout = false;
    nothing()
}

/// What TPM2_PP_Commands is given: the commands to put in the list and those to
/// take out.
pub open spec fn pp_input(p: Seq<u8>) -> TpmResult<(Seq<u32>, Seq<u32>)> {
    match TpmlCc::parse(p, 0) {
        Err(e) => Err(e),
        Ok((set, next)) => match alone(p, TpmlCc::parse(p, next)) {
            Err(e) => Err(e),
            Ok(clear) => Ok((set, clear)),
        },
    }
}

/// True when every command may need physical presence.
pub open spec fn all_eligible(s: Seq<u32>) -> bool {
    forall|i: int| 0 <= i < s.len() ==> pp_eligible(#[trigger] s[i])
}

/// TPM2_PP_Commands. Nothing changes unless every command to put in may be.
pub open spec fn pp_commands_ran(
    after: TpmState,
    before: TpmState,
    req: RequestView,
    r: TpmResult<Response>,
) -> bool {
    match pp_input(req.parameters) {
        Err(e) => fails(r, e) && after == before,
        Ok((set, clear)) => if !all_eligible(set) {
            fails(r, TpmRc(rc::VALUE).for_parameter(1)) && after == before
        } else {
            &&& answers_nothing(r)
            &&& after == (TpmState { pp_commands: after.pp_commands, ..before })
            &&& ascending(after.pp_commands@)
            &&& forall|c: u32| #[trigger]
                after.pp_commands@.contains(c) <==> (before.pp_commands@.contains(c)
                    || set.contains(c)) && !clear.contains(c)
        },
    }
}

/// Put the items that are not in `clear` in the list.
pub fn put_in(out: &mut Vec<u32>, list: &[u32], clear: &[u32])
    requires
        ascending(old(out)@),
    ensures
        ascending(final(out)@),
        forall|c: u32| #[trigger]
            final(out)@.contains(c) <==> old(out)@.contains(c) || (list@.contains(c)
                && !clear@.contains(c)),
{
    let ghost start = out@;
    let mut i: usize = 0;
    while i < list.len()
        invariant
            i <= list@.len(),
            ascending(out@),
            forall|c: u32| #[trigger]
                out@.contains(c) <==> start.contains(c) || (list@.take(i as int).contains(c)
                    && !clear@.contains(c)),
        decreases list@.len() - i,
    {
        let ghost before = out@;
        if !listed(clear, list[i]) {
            insert(out, list[i]);
        }
        proof {
            let a = list@.take(i as int);
            let b = list@.take(i + 1);
            assert(b =~= a.push(list@[i as int]));
            assert forall|c: u32| #[trigger] b.contains(c) <==> a.contains(c) || c
                == list@[i as int] by {
                if a.contains(c) {
                    let k = choose|k: int| 0 <= k < a.len() && a[k] == c;
                    assert(b[k] == c);
                }
                if b.contains(c) {
                    let k = choose|k: int| 0 <= k < b.len() && b[k] == c;
                    if k < a.len() {
                        assert(a[k] == c);
                    }
                }
                assert(b[a.len() as int] == list@[i as int]);
            }
        }
        i = i + 1;
    }
    assert(list@.take(i as int) =~= list@);
}

fn eligible(list: &[u32]) -> (r: bool)
    ensures
        r == all_eligible(list@),
{
    let mut i: usize = 0;
    while i < list.len()
        invariant
            i <= list@.len(),
            forall|j: int| 0 <= j < i ==> pp_eligible(#[trigger] list@[j]),
        decreases list@.len() - i,
    {
        if !is_pp_eligible(list[i]) {
            assert(!pp_eligible(list@[i as int]));
            return false;
        }
        i = i + 1;
    }
    true
}

/// TPM2_PP_Commands.
pub fn pp_commands(state: &mut TpmState, request: &Request) -> (r: TpmResult<Response>)
    requires
        old(state).wf(),
    ensures
        final(state).wf(),
        pp_commands_ran(*final(state), *old(state), request@, r),
{
    let mut reader = request.reader();
    let set: TpmlCc = TpmlCc::unmarshal(&mut reader)?;
    let clear: TpmlCc = TpmlCc::unmarshal(&mut reader)?;
    reader.expect_end()?;
    if !eligible(set.items.as_slice()) {
        return Err(TpmRc(rc::VALUE).with_parameter(1));
    }
    let mut out: Vec<u32> = Vec::new();
    put_in(&mut out, state.pp_commands.as_slice(), clear.items.as_slice());
    put_in(&mut out, set.items.as_slice(), clear.items.as_slice());
    state.pp_commands = out;
    nothing()
}

/// TPM2_SetAlgorithmSet.
pub open spec fn set_algorithm_set_ran(
    after: TpmState,
    before: TpmState,
    req: RequestView,
    r: TpmResult<Response>,
) -> bool {
    match alone(req.parameters, raw_u32(req.parameters, 0)) {
        Err(e) => fails(r, e) && after == before,
        Ok(set) => answers_nothing(r) && after == (TpmState { algorithm_set: set, ..before }),
    }
}

/// TPM2_SetAlgorithmSet.
pub fn set_algorithm_set(state: &mut TpmState, request: &Request) -> (r: TpmResult<Response>)
    requires
        old(state).wf(),
    ensures
        final(state).wf(),
        set_algorithm_set_ran(*final(state), *old(state), request@, r),
{
    let mut reader = request.reader();
    let set: u32 = reader.u32()?;
    reader.expect_end()?;
    state.algorithm_set = set;
    nothing()
}

/// TPM2_ReadOnlyControl.
pub open spec fn read_only_control_ran(
    after: TpmState,
    before: TpmState,
    req: RequestView,
    r: TpmResult<Response>,
) -> bool {
    match choice(req.parameters, 0, 1) {
        Err(e) => fails(r, e) && after == before,
        Ok(on) => answers_nothing(r) && after == (TpmState {
            startup_clear: before.startup_clear.put(StartupClearAttributes::READ_ONLY, on),
            ..before
        }),
    }
}

/// TPM2_ReadOnlyControl.
pub fn read_only_control(state: &mut TpmState, request: &Request) -> (r: TpmResult<Response>)
    requires
        old(state).wf(),
    ensures
        final(state).wf(),
        read_only_control_ran(*final(state), *old(state), request@, r),
{
    let mut reader = request.reader();
    let octet: u8 = reader.u8()?;
    let on: bool = match yes_no(octet) {
        Ok(v) => v,
        Err(e) => {
            return Err(e.with_parameter(1));
        },
    };
    reader.expect_end()?;
    state.startup_clear.set(StartupClearAttributes::READ_ONLY, on);
    nothing()
}

} // verus!
