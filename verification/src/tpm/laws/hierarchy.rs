//! Who controls the hierarchies, and what becomes of what they hold.

use vstd::prelude::*;

use crate::tpm::commands::authorize::{lockout_after, Judgement};
use crate::tpm::commands::dispatch::{RequestView, Response};
use crate::tpm::commands::hierarchy::{
    change_eps_ran, change_pps_ran, clear_control_ran, clear_ran, dictionary_attack_parameters_ran,
    hierarchy_change_auth_ran, hierarchy_control_ran, set_primary_policy_ran,
};
use crate::tpm::commands::{hierarchy_ran, pcr_ran, ran, startup_ran};
use crate::tpm::engine::object::{Object, Slot};
use crate::tpm::engine::state::{Lockout, TpmState};
use crate::tpm::error::TpmResult;
use crate::tpm::marshal::{
    holds, lemma_holds_all, lemma_holds_both, lemma_holds_sized, lemma_holds_u16, sized,
};
use crate::util::bytes::{be32, octets16};

verus! {

/// True when a hierarchy can be used.
pub open spec fn enabled(state: TpmState, h: u32) -> bool {
    if h == 0x4000_0001 {
        state.hierarchies.owner.enabled
    } else if h == 0x4000_000B {
        state.hierarchies.endorsement.enabled
    } else if h == 0x4000_000C {
        state.hierarchies.platform.enabled
    } else {
        state.hierarchies.platform_nv_enabled
    }
}

/// The authorization value of what a permanent handle names.
pub open spec fn value(state: TpmState, h: u32) -> Seq<u8> {
    if h == 0x4000_0001 {
        state.hierarchies.owner.auth@
    } else if h == 0x4000_000B {
        state.hierarchies.endorsement.auth@
    } else if h == 0x4000_000C {
        state.hierarchies.platform.auth@
    } else {
        state.lockout_auth@
    }
}

/// The policy of what a permanent handle names.
pub open spec fn policy(state: TpmState, h: u32) -> (u16, Seq<u8>) {
    if h == 0x4000_0001 {
        (state.hierarchies.owner.policy.hash_alg, state.hierarchies.owner.policy.digest@)
    } else if h == 0x4000_000B {
        (state.hierarchies.endorsement.policy.hash_alg, state.hierarchies.endorsement.policy.digest@)
    } else if h == 0x4000_000C {
        (state.hierarchies.platform.policy.hash_alg, state.hierarchies.platform.policy.digest@)
    } else {
        (state.lockout_policy.hash_alg, state.lockout_policy.digest@)
    }
}

/// The Primary Seed of a hierarchy.
pub open spec fn seed(state: TpmState, h: u32) -> Seq<u8> {
    if h == 0x4000_0001 {
        state.hierarchies.owner.seed@
    } else if h == 0x4000_000B {
        state.hierarchies.endorsement.seed@
    } else if h == 0x4000_000C {
        state.hierarchies.platform.seed@
    } else {
        state.hierarchies.null.seed@
    }
}

/// True when a handle has a loaded object of a hierarchy.
pub open spec fn object_of(state: TpmState, at: u32, hierarchy: u32) -> bool {
    state.objects.slots@.contains_key(at) && (state.objects.slots@[at] matches Slot::Object(o)
        && o.hierarchy == hierarchy)
}

/// True for the hierarchies that hold objects.
pub open spec fn holds_objects(h: u32) -> bool {
    h == 0x4000_0001 || h == 0x4000_000B || h == 0x4000_000C
}

/// HierarchyControl turns one hierarchy on or off and no other. Only the platform turns
/// one on, or turns the platform or its NV off; an owner turns off its own. The objects
/// of a hierarchy go when it is turned off, and only then.
pub proof fn law_a_hierarchy_is_turned_by_who_may(
    after: TpmState,
    before: TpmState,
    req: RequestView,
    r: TpmResult<Response>,
    other: u32,
    at: u32,
)
    requires
        hierarchy_control_ran(after, before, req, r),
        r is Ok,
        other == 0x4000_0001 || other == 0x4000_000B || other == 0x4000_000C || other
            == 0x4000_000D,
    ensures
        req.handles.len() > 0,
        req.parameters.len() == 5,
        ({
            let auth = req.handles[0];
            let h = be32(req.parameters, 0);
            let on = req.parameters[4] == 1;
            &&& req.parameters[4] <= 1
            &&& auth == 0x4000_000C || (!on && auth == h && (h == 0x4000_0001 || h
                == 0x4000_000B))
            &&& enabled(after, h) == on
            &&& other != h ==> enabled(after, other) == enabled(before, other)
            &&& value(after, other) == value(before, other)
            &&& seed(after, other) == seed(before, other)
            &&& if !on && holds_objects(h) && object_of(before, at, h) {
                !after.objects.slots@.contains_key(at)
            } else {
                after.objects.slots@.contains_key(at) <==> before.objects.slots@.contains_key(at)
            }
        }),
{
}

/// The bits of the startup attributes follow: phEnable, shEnable, ehEnable and
/// phEnableNV.
pub proof fn law_the_attributes_show_what_is_on(
    after: TpmState,
    before: TpmState,
    req: RequestView,
    r: TpmResult<Response>,
)
    requires
        hierarchy_control_ran(after, before, req, r),
        r is Ok,
    ensures
        ({
            let h = be32(req.parameters, 0);
            let mask: u32 = if h == 0x4000_000C {
                1
            } else if h == 0x4000_0001 {
                2
            } else if h == 0x4000_000B {
                4
            } else {
                8
            };
            &&& req.parameters[4] == 1 ==> after.startup_clear.0 == before.startup_clear.0 | mask
            &&& req.parameters[4] == 0 ==> after.startup_clear.0 == before.startup_clear.0 & !mask
        }),
{
}

/// HierarchyChangeAuth gives one hierarchy, or the lockout, the value that was sent, and
/// changes nothing else.
pub proof fn law_a_new_value_is_the_one_sent(
    after: TpmState,
    before: TpmState,
    req: RequestView,
    r: TpmResult<Response>,
    v: Seq<u8>,
    other: u32,
)
    requires
        hierarchy_change_auth_ran(after, before, req, r),
        req.handles.len() > 0,
        v.len() <= 64,
        req.parameters == sized(v),
        other == 0x4000_0001 || other == 0x4000_000B || other == 0x4000_000C || other
            == 0x4000_000A,
    ensures
        ({
            let h = req.handles[0];
            &&& r is Ok <==> h == 0x4000_0001 || h == 0x4000_000B || h == 0x4000_000C || h
                == 0x4000_000A
            &&& r is Ok ==> value(after, h) == v
            &&& other != h || r is Err ==> value(after, other) == value(before, other)
            &&& seed(after, other) == seed(before, other)
            &&& policy(after, other) == policy(before, other)
            &&& after.objects == before.objects
            &&& after.nv == before.nv
            &&& after.lockout == before.lockout
        }),
{
    lemma_holds_all(req.parameters);
    lemma_holds_sized(req.parameters, 0, v, 64);
}

/// SetPrimaryPolicy gives one hierarchy, or the lockout, the policy that was sent.
pub proof fn law_a_new_policy_is_the_one_sent(
    after: TpmState,
    before: TpmState,
    req: RequestView,
    r: TpmResult<Response>,
    d: Seq<u8>,
    hash_alg: u16,
    other: u32,
)
    requires
        set_primary_policy_ran(after, before, req, r),
        req.handles.len() > 0,
        d.len() <= 64,
        holds(req.parameters, 0, sized(d) + octets16(hash_alg)),
        r is Ok,
        other == 0x4000_0001 || other == 0x4000_000B || other == 0x4000_000C || other
            == 0x4000_000A,
    ensures
        ({
            let h = req.handles[0];
            &&& h == 0x4000_0001 || h == 0x4000_000B || h == 0x4000_000C || h == 0x4000_000A
            &&& policy(after, h) == (hash_alg, d)
            &&& other != h ==> policy(after, other) == policy(before, other)
            &&& value(after, other) == value(before, other)
            &&& hash_alg == 0x0010 ==> d.len() == 0
            &&& hash_alg == 0x000B ==> d.len() == 32
        }),
{
    lemma_holds_both(req.parameters, 0, sized(d), octets16(hash_alg));
    lemma_holds_sized(req.parameters, 0, d, 64);
    lemma_holds_u16(req.parameters, sized(d).len() as int, hash_alg);
}

/// ChangePPS and ChangeEPS leave their hierarchy without a value, a policy and loaded
/// objects, and leave the other hierarchies alone.
pub proof fn law_a_changed_seed_starts_anew(
    after: TpmState,
    before: TpmState,
    r: TpmResult<Response>,
    at: u32,
)
    requires
        r is Ok,
    ensures
        change_pps_ran(after, before, r) ==> {
            &&& value(after, 0x4000_000C).len() == 0
            &&& policy(after, 0x4000_000C).0 == 0x0010
            &&& object_of(before, at, 0x4000_000C) ==> !after.objects.slots@.contains_key(at)
            &&& !object_of(before, at, 0x4000_000C) ==> (after.objects.slots@.contains_key(at) <==>
                before.objects.slots@.contains_key(at))
            &&& after.persistent@.contains_key(at) <==> before.persistent@.contains_key(at) && at
                < 0x8180_0000
            &&& after.hierarchies.owner == before.hierarchies.owner
            &&& after.hierarchies.endorsement == before.hierarchies.endorsement
            &&& after.nv == before.nv
        },
        change_eps_ran(after, before, r) ==> {
            &&& value(after, 0x4000_000B).len() == 0
            &&& policy(after, 0x4000_000B).0 == 0x0010
            &&& object_of(before, at, 0x4000_000B) ==> !after.objects.slots@.contains_key(at)
            &&& !object_of(before, at, 0x4000_000B) ==> (after.objects.slots@.contains_key(at) <==>
                before.objects.slots@.contains_key(at))
            &&& after.hierarchies.owner == before.hierarchies.owner
            &&& after.hierarchies.platform == before.hierarchies.platform
            &&& after.nv == before.nv
        },
{
}

/// Clear takes away all that the owner and the endorsement hierarchy hold: their
/// values and policies, their objects, loaded and persistent, and the Indices that the
/// owner defined. What the platform has stays. It is refused while it is disabled.
pub proof fn law_clear_leaves_what_the_platform_has(
    after: TpmState,
    before: TpmState,
    r: TpmResult<Response>,
    at: u32,
)
    requires
        clear_ran(after, before, r),
    ensures
        before.permanent.0 & 0x100 == 0x100 ==> r is Err && after == before,
        r is Ok ==> {
            &&& value(after, 0x4000_0001).len() == 0
            &&& value(after, 0x4000_000B).len() == 0
            &&& value(after, 0x4000_000A).len() == 0
            &&& policy(after, 0x4000_0001).0 == 0x0010
            &&& policy(after, 0x4000_000B).0 == 0x0010
            &&& policy(after, 0x4000_000A).0 == 0x0010
            &&& enabled(after, 0x4000_0001)
            &&& enabled(after, 0x4000_000B)
            &&& after.hierarchies.platform == before.hierarchies.platform
            &&& seed(after, 0x4000_000B) == seed(before, 0x4000_000B)
            &&& after.objects.slots@.contains_key(at) <==> before.objects.slots@.contains_key(at)
                && !object_of(before, at, 0x4000_0001) && !object_of(before, at, 0x4000_000B)
            &&& after.persistent@.contains_key(at) <==> before.persistent@.contains_key(at)
                && before.persistent@[at].hierarchy != 0x4000_0001
                && before.persistent@[at].hierarchy != 0x4000_000B
            &&& after.nv.indices@.contains_key(at) <==> before.nv.indices@.contains_key(at)
                && before.nv.indices@[at].public.attributes.0 & 0x4000_0000 == 0x4000_0000
            &&& after.nv.indices@.contains_key(at) ==> after.nv.indices@[at]
                == before.nv.indices@[at]
            &&& after.clock.clock == 0
            &&& after.clock.reset_count == 0
            &&& after.clock.restart_count == 0
        },
{
}

/// ClearControl allows or forbids Clear. Only the platform allows it again.
pub proof fn law_only_the_platform_allows_clear_again(
    after: TpmState,
    before: TpmState,
    req: RequestView,
    r: TpmResult<Response>,
)
    requires
        clear_control_ran(after, before, req, r),
        req.handles.len() > 0,
    ensures
        r is Ok <==> req.parameters.len() == 1 && (req.parameters[0] == 1 || (req.parameters[0] == 0
            && req.handles[0] == 0x4000_000C)),
        r is Ok && req.parameters[0] == 1 ==> after.permanent.0 == before.permanent.0 | 0x100,
        r is Ok && req.parameters[0] == 0 ==> after.permanent.0 == before.permanent.0 & !0x100u32,
        r is Err ==> after == before,
{
}

/// DictionaryAttackParameters takes the number of tries and both times, and forgets the
/// failures so far.
pub proof fn law_the_protection_is_as_set(
    after: TpmState,
    before: TpmState,
    req: RequestView,
    r: TpmResult<Response>,
)
    requires
        dictionary_attack_parameters_ran(after, before, req, r),
    ensures
        r is Ok <==> req.parameters.len() == 12 && be32(req.parameters, 0) != 0,
        r is Ok ==> {
            &&& after.lockout.max_tries == be32(req.parameters, 0)
            &&& after.lockout.recovery_time == be32(req.parameters, 4)
            &&& after.lockout.lockout_recovery == be32(req.parameters, 8)
            &&& after.lockout.failed_tries == 0
            &&& !after.lockout.in_lockout
        },
        after == (TpmState { lockout: after.lockout, ..before }),
{
}

/// DictionaryAttackLockReset forgets the failures, and changes none of the settings.
pub proof fn law_a_lock_reset_forgets_the_failures(
    after: TpmState,
    before: TpmState,
    req: RequestView,
    r: TpmResult<Response>,
)
    requires
        ran(after, before, req, r),
        req.code == 0x139,
    ensures
        r is Ok,
        after.lockout.failed_tries == 0,
        !after.lockout.in_lockout,
        after.lockout.max_tries == before.lockout.max_tries,
        after.lockout.recovery_time == before.lockout.recovery_time,
        after.lockout.lockout_recovery == before.lockout.lockout_recovery,
        after == (TpmState { lockout: after.lockout, ..before }),
{
    reveal(startup_ran);
    reveal(pcr_ran);
    reveal(hierarchy_ran);
}

/// A failed try against a protected value counts once and puts off the recovery; an
/// accepted one, and one against a value that is exempt, counts nothing. A failure
/// against the lockout bars it.
pub proof fn law_a_failed_try_counts(
    l: Lockout,
    time: u64,
    accepted: bool,
    protected: bool,
    pin: Option<u32>,
    special: bool,
)
    requires
        time < 0x4000_0000_0000_0000,
        l.failed_tries < u32::MAX,
    ensures
        ({
            let now = lockout_after(
                l,
                time,
                Judgement::Judged { accepted, protected, pin, special },
            );
            &&& accepted ==> now == l
            &&& !accepted && protected && l.recovery_time != 0 ==> now.failed_tries
                == l.failed_tries + 1 && now.next_recovery == time + 1000 * l.recovery_time
            &&& !accepted && (!protected || l.recovery_time == 0) ==> now.failed_tries
                == l.failed_tries
            &&& !accepted && special ==> now.in_lockout && now.lockout_until == if l.lockout_recovery
                == 0 {
                0
            } else {
                time + 1000 * l.lockout_recovery
            }
            &&& !special ==> now.in_lockout == l.in_lockout
            &&& now.max_tries == l.max_tries
        }),
{
}

/// The protection bars once as many tries have failed as are allowed.
pub proof fn law_too_many_failures_lock(l: Lockout)
    ensures
        l.locked_out() <==> l.failed_tries >= l.max_tries,
{
}

} // verus!
