//! Whose value and policy authorize, and what has to hold before a command runs.

use vstd::prelude::*;

use super::authorize::uses_session;
use super::hierarchy::value;
use super::pcr::strung;
use crate::tpm::commands::authorize::{
    judged_state, lockout_check, names_upto, nv_check, password_judgement, policy_check,
    session_judgement,
};
use crate::tpm::commands::dispatch::{availability, entity_of, name_of, EntityView, RequestView};
use crate::tpm::commands::execute::{accepts, refuses};
use crate::tpm::commands::gate::{gate_result, handle_fault, names_of};
use crate::tpm::commands::handles::{access_of, role_of, Role};
use crate::tpm::commands::sessions::AuthContext;
use crate::tpm::crypto::hash::hash_of;
use crate::tpm::engine::object::Object;
use crate::tpm::engine::session::trimmed;
use crate::tpm::engine::state::TpmState;
use crate::tpm::error::TpmRc;
use crate::util::bytes::{be16, octets32};

verus! {

/// A hierarchy and the lockout authorize with their own value. Only the lockout is
/// protected against guessing.
pub proof fn law_hierarchies_authorize_with_their_value(state: TpmState, h: u32)
    requires
        h == 0x4000_0001 || h == 0x4000_000A || h == 0x4000_000B || h == 0x4000_000C,
    ensures
        entity_of(state, h) is Ok,
        ({
            let e = entity_of(state, h)->Ok_0;
            let p = super::hierarchy::policy(state, h);
            &&& e.name == octets32(h)
            &&& e.auth == value(state, h)
            &&& e.uses_lockout == (h == 0x4000_000A)
            &&& e.user_with_auth
            &&& e.pin is None
            &&& e.policy == if p.0 == 0x0010 || p.1.len() == 0 {
                None
            } else {
                Some(p)
            }
        }),
{
    reveal(entity_of);
    reveal(name_of);
}

/// What an object authorizes with: its value where userWithAuth is set, its policy, and
/// the protection against guessing unless noDA is set.
pub open spec fn authorizes_as(e: EntityView, o: Object) -> bool {
    let a = o.public.object_attributes.0;
    &&& e.name == o.name@
    &&& o.sensitive is Some ==> e.auth == o.sensitive->0.auth_value@
    &&& e.uses_lockout == (a & 0x400 != 0x400)
    &&& e.user_with_auth == (a & 0x40 == 0x40)
    &&& e.admin_with_policy == (a & 0x80 == 0x80)
    &&& e.pin is None
    &&& e.policy == if o.public.auth_policy@.len() == 0 {
        None
    } else {
        Some((o.public.name_alg, o.public.auth_policy@))
    }
}

/// Objects and Indices authorize as their public areas say.
pub proof fn law_objects_and_indices_authorize_as_their_attributes_say(state: TpmState, h: u32)
    requires
        entity_of(state, h) is Ok,
    ensures
        0x8000_0000 <= h < 0x8100_0000 && state.objects.has_object(h) ==> authorizes_as(
            entity_of(state, h)->Ok_0,
            state.objects.object_at(h),
        ),
        0x8100_0000 <= h < 0x8200_0000 && state.persistent@.contains_key(h) ==> authorizes_as(
            entity_of(state, h)->Ok_0,
            state.persistent@[h],
        ),
        0x0100_0000 <= h < 0x0200_0000 && state.nv.indices@.contains_key(h) ==> ({
            let e = entity_of(state, h)->Ok_0;
            let i = state.nv.indices@[h];
            &&& e.auth == i.auth@
            &&& e.uses_lockout == (i.public.attributes.0 & 0x0200_0000 != 0x0200_0000)
            &&& e.user_with_auth
            &&& e.policy == if i.public.auth_policy@.len() == 0 {
                None
            } else {
                Some((i.public.name_alg, i.public.auth_policy@))
            }
        }),
{
    reveal(entity_of);
    reveal(name_of);
}

/// True when authorization `i` shows a value: a password, or a session that is no
/// policy session.
pub open spec fn shows_value(state: TpmState, req: RequestView, i: int) -> bool {
    req.sessions[i].handle == 0x4000_0009 || uses_session(state, req, i, 0)
}

/// Once as many tries have failed as are allowed, no protected value is accepted, not
/// even the right one. The lockout itself can still be reset.
pub proof fn law_a_locked_value_is_not_accepted(
    after: TpmState,
    before: TpmState,
    req: RequestView,
    names: Seq<Vec<u8>>,
    i: int,
    used: AuthContext,
)
    requires
        0 <= i < req.sessions.len(),
        i < req.handles.len(),
        shows_value(before, req, i),
        before.lockout.failed_tries >= before.lockout.max_tries,
        entity_of(before, req.handles[i]) is Ok,
        entity_of(before, req.handles[i])->Ok_0.uses_lockout,
        req.code != 0x139,
    ensures
        !accepts(after, before, req, names, i, used),
{
    reveal(lockout_check);
}

/// A value does not stand in for a duplication policy, nor where the administrator of an
/// object is its policy.
pub proof fn law_some_roles_need_a_policy(
    after: TpmState,
    before: TpmState,
    req: RequestView,
    names: Seq<Vec<u8>>,
    i: int,
    used: AuthContext,
)
    requires
        0 <= i < req.sessions.len(),
        i < req.handles.len(),
        shows_value(before, req, i),
        accepts(after, before, req, names, i, used),
    ensures
        entity_of(before, req.handles[i]) is Ok,
        role_of(req.code, i) != Role::Dup,
        role_of(req.code, i) == Role::Admin ==> !entity_of(
            before,
            req.handles[i],
        )->Ok_0.admin_with_policy,
{
    reveal(session_judgement);
}

/// A wrong password for a protected value counts, and no other failure is forgotten; a
/// right one counts nothing.
pub proof fn law_a_wrong_password_counts(
    after: TpmState,
    before: TpmState,
    req: RequestView,
    names: Seq<Vec<u8>>,
    i: int,
    used: AuthContext,
    error: TpmRc,
)
    requires
        0 <= i < req.sessions.len(),
        i < req.handles.len(),
        req.sessions[i].handle == 0x4000_0009,
        entity_of(before, req.handles[i]) is Ok,
        entity_of(before, req.handles[i])->Ok_0.user_with_auth,
        entity_of(before, req.handles[i])->Ok_0.pin is None,
        role_of(req.code, i) == Role::User,
        nv_check(before, req, i, Role::User) is Ok,
        before.lockout.failed_tries < before.lockout.max_tries,
        before.lockout.recovery_time > 0,
        !before.lockout.in_lockout,
        before.lockout.failed_tries < u32::MAX,
    ensures
        ({
            let e = entity_of(before, req.handles[i])->Ok_0;
            &&& refuses(after, before, req, names, i, error) && e.uses_lockout ==> trimmed(
                req.sessions[i].hmac,
            ) != trimmed(e.auth) && after.lockout.failed_tries == before.lockout.failed_tries + 1
            &&& refuses(after, before, req, names, i, error) && !e.uses_lockout
                ==> after.lockout.failed_tries == before.lockout.failed_tries
            &&& accepts(after, before, req, names, i, used) ==> after.lockout == before.lockout
        }),
{
    reveal(lockout_check);
    reveal(password_judgement);
    reveal(judged_state);
}

/// An Index is read or written with its own value, or its own policy, only where its
/// attributes allow that: AUTHWRITE and POLICYWRITE, AUTHREAD and POLICYREAD.
pub proof fn law_an_index_allows_its_own_value_or_policy(
    after: TpmState,
    before: TpmState,
    req: RequestView,
    names: Seq<Vec<u8>>,
    i: int,
    used: AuthContext,
)
    requires
        0 <= i < req.sessions.len(),
        i < req.handles.len(),
        accepts(after, before, req, names, i, used),
        role_of(req.code, i) == Role::User,
        0x0100_0000 <= req.handles[i] < 0x0200_0000,
        before.nv.indices@.contains_key(req.handles[i]),
    ensures
        ({
            let a = before.nv.indices@[req.handles[i]].public.attributes.0;
            let writes = req.code == 0x137 || req.code == 0x134 || req.code == 0x136 || req.code
                == 0x135 || req.code == 0x138;
            let reads = req.code == 0x14E || req.code == 0x14F || req.code == 0x184 || req.code
                == 0x149 || req.code == 0x192;
            let policy = uses_session(before, req, i, 1) || uses_session(before, req, i, 3);
            &&& writes && policy ==> a & 8 == 8
            &&& writes && !policy ==> a & 4 == 4
            &&& reads && policy ==> a & 0x80000 == 0x80000
            &&& reads && !policy ==> a & 0x40000 == 0x40000
        }),
{
    reveal(nv_check);
    reveal(access_of);
}

proof fn lemma_names_upto(state: TpmState, handles: Seq<u32>, n: nat, names: Seq<Seq<u8>>)
    requires
        n <= handles.len(),
        names.len() == n,
        forall|i: int|
            0 <= i < n ==> name_of(state, handles[i]) == Ok::<Seq<u8>, TpmRc>(#[trigger] names[i]),
    ensures
        names_upto(state, handles, n) == Ok::<Seq<u8>, TpmRc>(strung(names)),
    decreases n,
{
    if n > 0 {
        lemma_names_upto(state, handles, (n - 1) as nat, names.drop_last());
        assert(name_of(state, handles[n - 1]) == Ok::<Seq<u8>, TpmRc>(names[n - 1]));
    }
}

/// A policy that recorded the hash of the Names, or of a template, authorizes only a
/// command whose handles have those Names, or whose second parameter is that template.
pub proof fn law_a_policy_holds_to_names_and_templates(
    after: TpmState,
    before: TpmState,
    req: RequestView,
    names: Seq<Vec<u8>>,
    i: int,
    used: AuthContext,
    views: Seq<Seq<u8>>,
)
    requires
        accepts(after, before, req, names, i, used),
        uses_session(before, req, i, 1),
        views.len() == req.handles.len(),
        forall|k: int|
            0 <= k < views.len() ==> name_of(before, req.handles[k]) == Ok::<Seq<u8>, TpmRc>(
                #[trigger] views[k],
            ),
    ensures
        ({
            let s = before.sessions.loaded@[req.sessions[i].handle];
            let at = 2 + be16(req.parameters, 0) as int;
            let rest = req.parameters.skip(at);
            &&& s.policy.name_hash matches Some(d) ==> d@ == hash_of(s.auth_hash, strung(views))
            &&& s.policy.template_hash matches Some(d) ==> d@ == hash_of(
                s.auth_hash,
                rest.subrange(2, 2 + be16(rest, 0)),
            )
        }),
{
    reveal(session_judgement);
    reveal(policy_check);
    lemma_names_upto(before, req.handles, req.handles.len(), views);
    reveal_with_fuel(crate::tpm::commands::parameters::body_at, 2);
}

proof fn lemma_gate_names(state: TpmState, req: RequestView, n: nat)
    requires
        n <= req.handles.len(),
    ensures
        names_of(state, req, n) matches Ok(v) ==> v.len() == n && forall|i: int|
            0 <= i < n ==> name_of(state, req.handles[i]) == Ok::<Seq<u8>, TpmRc>(#[trigger] v[i]),
    decreases n,
{
    if n > 0 {
        lemma_gate_names(state, req, (n - 1) as nat);
    }
}

/// A command is let through with the Names of its handles in their order, only after
/// Startup, and Startup only before. What needs physical presence has it.
pub proof fn law_the_gate_gives_the_names(state: TpmState, req: RequestView)
    requires
        gate_result(state, req) is Ok,
    ensures
        ({
            let names = gate_result(state, req)->Ok_0;
            &&& names.len() == req.handles.len()
            &&& forall|i: int|
                0 <= i < names.len() ==> name_of(state, req.handles[i]) == Ok::<Seq<u8>, TpmRc>(
                    #[trigger] names[i],
                )
        }),
        state.started <==> req.code != 0x144,
        req.code == 0x12D ==> state.physical_presence,
        state.pp_commands@.contains(req.code) && req.handles.len() > 0 && req.handles[0]
            == 0x4000_000C && req.info.auth_handles > 0 ==> state.physical_presence,
{
    reveal(gate_result);
    lemma_gate_names(state, req, req.handles.len());
    if state.pp_commands@.contains(req.code) && req.handles.len() > 0 && req.handles[0]
        == 0x4000_000C && req.info.auth_handles > 0 {
        assert(req.handles[0] == 0x4000_000C);
    }
}

/// A handle of a hierarchy that is off, or of an object in one, is refused.
pub proof fn law_what_is_off_is_refused(state: TpmState, req: RequestView, i: int)
    requires
        gate_result(state, req) is Ok,
        0 <= i < req.handles.len(),
    ensures
        req.handles[i] == 0x4000_0001 ==> state.hierarchies.owner.enabled,
        req.handles[i] == 0x4000_000B ==> state.hierarchies.endorsement.enabled,
        req.handles[i] == 0x4000_000C ==> state.hierarchies.platform.enabled,
        0x8100_0000 <= req.handles[i] < 0x8200_0000 ==> state.persistent@.contains_key(
            req.handles[i],
        ) && (state.persistent@[req.handles[i]].hierarchy == 0x4000_0001
            ==> state.hierarchies.owner.enabled) && (state.persistent@[req.handles[i]].hierarchy
            == 0x4000_000B ==> state.hierarchies.endorsement.enabled),
        0x8000_0000 <= req.handles[i] < 0x8100_0000 ==> state.objects.slots@.contains_key(
            req.handles[i],
        ),
{
    reveal(gate_result);
    lemma_each_named(state, req, req.handles.len(), i);
    reveal(name_of);
    reveal(availability);
}

proof fn lemma_each_named(state: TpmState, req: RequestView, n: nat, i: int)
    requires
        0 <= i < n <= req.handles.len(),
        names_of(state, req, n) is Ok,
    ensures
        handle_fault(state, req, i) is Ok,
    decreases n,
{
    if i < n - 1 {
        lemma_each_named(state, req, (n - 1) as nat, i);
    }
}

} // verus!
