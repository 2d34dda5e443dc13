//! What authorizes a command, over the octets of the request and of the session.

use vstd::prelude::*;

use super::octets::lemma_nothing;
use super::pcr::strung;
use crate::tpm::commands::authorize::{
    bystander_check, expected_hmac, hmac_judgement, lockout_check, nv_check, password_judgement,
    policy_check, session_judgement,
};
use crate::tpm::commands::dispatch::{entity_of, RequestView};
use crate::tpm::commands::execute::{accepts, refuses};
use crate::tpm::commands::handles::{role_of, Role};
use crate::tpm::commands::parameters::first_with;
use crate::tpm::commands::sessions::{answers, AuthContext};
use crate::tpm::constants::rh;
use crate::tpm::crypto::hash::hash_of;
use crate::tpm::crypto::hmac::hmac_of;
use crate::tpm::engine::session::{joined, trimmed, Session};
use crate::tpm::engine::state::TpmState;
use crate::tpm::error::TpmRc;
use crate::tpm::marshal::sized;
use crate::tpm::structures::auth::AuthView;
use crate::util::bytes::octets32;

verus! {

/// The octets of the Names.
pub open spec fn octets_in(names: Seq<Vec<u8>>) -> Seq<Seq<u8>> {
    names.map_values(|v: Vec<u8>| v@)
}

proof fn lemma_joined(names: Seq<Vec<u8>>)
    ensures
        joined(names) == strung(octets_in(names)),
    decreases names.len(),
{
    if names.len() > 0 {
        lemma_joined(names.drop_last());
        assert(octets_in(names).drop_last() =~= octets_in(names.drop_last()));
    }
}

/// A value without the zero octets that end it: it does not end in one, and zeros
/// are all that was taken off.
pub open spec fn without_zeros(v: Seq<u8>, short: Seq<u8>) -> bool {
    &&& short.len() <= v.len()
    &&& short == v.take(short.len() as int)
    &&& forall|i: int| short.len() <= i < v.len() ==> #[trigger] v[i] == 0
    &&& short.len() > 0 ==> short.last() != 0
}

/// An authorization value counts without the zero octets that end it, and nothing
/// else is taken off.
pub proof fn law_zeros_at_the_end_do_not_count(v: Seq<u8>)
    ensures
        without_zeros(v, trimmed(v)),
    decreases v.len(),
{
    if v.len() > 0 && v.last() == 0 {
        let w = v.drop_last();
        law_zeros_at_the_end_do_not_count(w);
        let t = trimmed(w);
        assert(v.take(t.len() as int) =~= w.take(t.len() as int));
        assert forall|i: int| t.len() <= i < v.len() implies #[trigger] v[i] == 0 by {
            if i < w.len() {
                assert(w[i] == v[i]);
            }
        }
    } else {
        assert(v.take(v.len() as int) =~= v);
    }
}

/// The first session from `i` on that has the bit.
pub open spec fn first_marked(s: Seq<AuthView>, mask: u8, i: int) -> Option<int>
    decreases s.len() - i,
{
    if i >= s.len() {
        None
    } else if s[i].attributes.0 & mask == mask {
        Some(i)
    } else {
        first_marked(s, mask, i + 1)
    }
}

proof fn lemma_marked(s: Seq<AuthView>, mask: u8, i: int)
    ensures
        first_with(s, mask, i) == first_marked(s, mask, i),
    decreases s.len() - i,
{
    if i < s.len() {
        lemma_marked(s, mask, i + 1);
    }
}

/// The nonceTPM of the session at a place of the request.
pub open spec fn nonce_there(state: TpmState, s: Seq<AuthView>, place: Option<int>) -> Seq<u8> {
    match place {
        Some(i) => if state.sessions.loaded@.contains_key(s[i].handle) {
            state.sessions.loaded@[s[i].handle].nonce_tpm@
        } else {
            Seq::empty()
        },
        None => Seq::empty(),
    }
}

/// What a caller has to compute to prove a key in session `i`: the HMAC over the hash
/// of the command, the caller's nonce, the TPM's nonce, for the first session the
/// nonces of the sessions that decrypt and encrypt, and the attributes. The hash of
/// the command is over its code, the Names of its handles and its parameters.
pub open spec fn proof_of(
    state: TpmState,
    req: RequestView,
    names: Seq<Vec<u8>>,
    i: int,
    key: Seq<u8>,
    s: Session,
) -> Seq<u8> {
    let d = first_marked(req.sessions, 0x20, 0);
    let e = first_marked(req.sessions, 0x40, 0);
    let cp = hash_of(
        s.auth_hash,
        octets32(req.code) + strung(octets_in(names)) + req.parameters,
    );
    hmac_of(
        s.auth_hash,
        key,
        cp + req.sessions[i].nonce + s.nonce_tpm@ + (if i == 0 {
            nonce_there(state, req.sessions, d)
        } else {
            Seq::empty()
        }) + (if i == 0 && e != d {
            nonce_there(state, req.sessions, e)
        } else {
            Seq::empty()
        }) + seq![req.sessions[i].attributes.0],
    )
}

/// The key of a session for an entity. In a policy session the authorization value
/// counts where the policy asked for it; in an HMAC session unless the session is
/// bound to that entity with that value. Where it counts, it stands behind the
/// session key.
pub open spec fn key_with(s: Session, name: Seq<u8>, auth: Seq<u8>) -> Seq<u8> {
    let counts = if s.session_type == 1 || s.session_type == 3 {
        s.policy.auth_value_needed
    } else {
        s.bind == 0x40000007 || s.bind_name@ != name + trimmed(auth)
    };
    if counts {
        s.session_key@ + trimmed(auth)
    } else {
        s.session_key@
    }
}

/// True when authorization `i` uses a loaded session of type `t`.
pub open spec fn uses_session(state: TpmState, req: RequestView, i: int, t: u8) -> bool {
    &&& 0 <= i < req.sessions.len()
    &&& i < req.handles.len()
    &&& req.sessions[i].handle != rh::RS_PW
    &&& state.sessions.loaded@.contains_key(req.sessions[i].handle)
    &&& state.sessions.loaded@[req.sessions[i].handle].session_type == t
}

/// The session of authorization `i`.
pub open spec fn session_in(state: TpmState, req: RequestView, i: int) -> Session {
    state.sessions.loaded@[req.sessions[i].handle]
}

proof fn lemma_expected(
    state: TpmState,
    req: RequestView,
    names: Seq<Vec<u8>>,
    i: int,
    key: Seq<u8>,
    s: Session,
)
    ensures
        expected_hmac(
            state,
            req,
            i,
            key,
            crate::tpm::engine::session::cp_hash_of(s.auth_hash, req.code, names, req.parameters),
            s,
        ) == proof_of(state, req, names, i, key, s),
{
    lemma_joined(names);
    lemma_marked(req.sessions, 0x20, 0);
    lemma_marked(req.sessions, 0x40, 0);
}

/// An HMAC session is accepted only with the HMAC that proves its key. Where the key
/// is empty the HMAC may be left out.
pub proof fn law_an_hmac_session_has_to_prove_its_key(
    after: TpmState,
    before: TpmState,
    req: RequestView,
    names: Seq<Vec<u8>>,
    i: int,
    used: AuthContext,
)
    requires
        accepts(after, before, req, names, i, used),
        uses_session(before, req, i, 0),
    ensures
        entity_of(before, req.handles[i]) is Ok,
        ({
            let e = entity_of(before, req.handles[i])->Ok_0;
            let s = session_in(before, req, i);
            let key = key_with(s, e.name, e.auth);
            &&& req.sessions[i].hmac == proof_of(before, req, names, i, key, s) || (key.len() == 0
                && req.sessions[i].hmac.len() == 0)
            &&& e.user_with_auth
        }),
{
    let e = entity_of(before, req.handles[i])->Ok_0;
    let s = session_in(before, req, i);
    reveal(session_judgement);
    reveal(hmac_judgement);
    lemma_expected(before, req, names, i, key_with(s, e.name, e.auth), s);
}

/// A caller that knows the key and computes the HMAC on its own is not refused, where
/// neither the dictionary attack protection nor the entity bars the use of its value.
pub proof fn law_the_right_hmac_is_accepted(
    after: TpmState,
    before: TpmState,
    req: RequestView,
    names: Seq<Vec<u8>>,
    i: int,
    error: TpmRc,
)
    requires
        uses_session(before, req, i, 0),
        entity_of(before, req.handles[i]) is Ok,
        ({
            let e = entity_of(before, req.handles[i])->Ok_0;
            let s = session_in(before, req, i);
            &&& req.sessions[i].hmac == proof_of(
                before,
                req,
                names,
                i,
                key_with(s, e.name, e.auth),
                s,
            )
            &&& e.user_with_auth
            &&& role_of(req.code, i) == Role::User
            &&& e.pin is None
            &&& nv_check(before, req, i, Role::User) is Ok
            &&& !before.lockout.locked_out()
            &&& !before.lockout.in_lockout
        }),
    ensures
        !refuses(after, before, req, names, i, error),
{
    let e = entity_of(before, req.handles[i])->Ok_0;
    let s = session_in(before, req, i);
    reveal(session_judgement);
    reveal(hmac_judgement);
    reveal(lockout_check);
    lemma_expected(before, req, names, i, key_with(s, e.name, e.auth), s);
}

/// A password is accepted only where it is the authorization value, zeros at the end
/// aside, and the right one is not refused.
pub proof fn law_a_password_is_the_value(
    after: TpmState,
    before: TpmState,
    req: RequestView,
    names: Seq<Vec<u8>>,
    i: int,
    used: AuthContext,
    error: TpmRc,
)
    requires
        0 <= i < req.sessions.len(),
        i < req.handles.len(),
        req.sessions[i].handle == rh::RS_PW,
        entity_of(before, req.handles[i]) is Ok,
    ensures
        ({
            let e = entity_of(before, req.handles[i])->Ok_0;
            &&& accepts(after, before, req, names, i, used) ==> trimmed(req.sessions[i].hmac)
                == trimmed(e.auth) && e.user_with_auth
            &&& trimmed(req.sessions[i].hmac) == trimmed(e.auth) && e.user_with_auth && role_of(
                req.code,
                i,
            ) == Role::User && e.pin is None && nv_check(before, req, i, Role::User) is Ok
                && !before.lockout.locked_out() && !before.lockout.in_lockout ==> !refuses(
                after,
                before,
                req,
                names,
                i,
                error,
            )
        }),
{
    reveal(password_judgement);
    reveal(lockout_check);
}

/// A trial session authorizes nothing.
pub proof fn law_a_trial_session_authorizes_nothing(
    after: TpmState,
    before: TpmState,
    req: RequestView,
    names: Seq<Vec<u8>>,
    i: int,
    used: AuthContext,
)
    requires
        uses_session(before, req, i, 3),
    ensures
        !accepts(after, before, req, names, i, used),
{
    reveal(session_judgement);
}

/// A policy session is accepted only for an entity whose policy is its digest, by the
/// same hash, and only where everything the policy recorded holds of the command: the
/// command code, the hash of the command, the locality, the registers unchanged, the
/// time, physical presence, whether an Index is written, and the hashes of the Names,
/// the template and the parameters. Where it asked for the password, that is the
/// value; else the HMAC proves the key.
pub proof fn law_a_policy_session_has_to_hold(
    after: TpmState,
    before: TpmState,
    req: RequestView,
    names: Seq<Vec<u8>>,
    i: int,
    used: AuthContext,
)
    requires
        accepts(after, before, req, names, i, used),
        uses_session(before, req, i, 1),
    ensures
        entity_of(before, req.handles[i]) is Ok,
        ({
            let e = entity_of(before, req.handles[i])->Ok_0;
            let s = session_in(before, req, i);
            let p = s.policy;
            let key = key_with(s, e.name, e.auth);
            &&& e.policy == Some((s.auth_hash, p.digest@))
            &&& p.command_code matches Some(c) ==> c == req.code
            &&& p.cp_hash matches Some(c) ==> c@ == hash_of(
                s.auth_hash,
                octets32(req.code) + strung(octets_in(names)) + req.parameters,
            )
            &&& p.locality matches Some(l) ==> req.locality < 5 && l & (1u8 << req.locality) != 0
            &&& p.pcr_update_counter matches Some(n) ==> n == before.pcr.counter
            &&& p.expiration matches Some(t) ==> before.clock.time <= t && s.time_epoch
                == before.clock.time_epoch
            &&& p.physical_presence_required ==> before.physical_presence
            &&& !p.secure_channel_required
            &&& p.nv_written matches Some(w) ==> req.handles.len() > 0
                && before.nv.indices@.contains_key(req.handles[0]) && super::nv::was_written(
                before.nv.indices@[req.handles[0]],
            ) == w
            &&& p.parameters_hash matches Some(c) ==> c@ == hash_of(
                s.auth_hash,
                octets32(req.code) + req.parameters,
            )
            &&& role_of(req.code, i) == Role::Admin || role_of(req.code, i) == Role::Dup
                ==> p.command_code == Some(req.code)
            &&& p.password_needed ==> trimmed(req.sessions[i].hmac) == trimmed(e.auth)
            &&& !p.password_needed ==> req.sessions[i].hmac == proof_of(
                before,
                req,
                names,
                i,
                key,
                s,
            ) || (key.len() == 0 && req.sessions[i].hmac.len() == 0)
        }),
{
    let e = entity_of(before, req.handles[i])->Ok_0;
    let s = session_in(before, req, i);
    reveal(session_judgement);
    reveal(hmac_judgement);
    reveal(password_judgement);
    reveal(policy_check);
    lemma_joined(names);
    lemma_expected(before, req, names, i, key_with(s, e.name, e.auth), s);
    if s.policy.locality is Some {
        lemma_no_locality(s.policy.locality->0);
    }
    if req.handles.len() > 0 {
        super::nv::lemma_attribute_bits(before.nv.indices@[req.handles[0]].public.attributes.0);
    }
}

proof fn lemma_no_locality(l: u8)
    by (bit_vector)
    ensures
        l & 0 == 0,
{
}

/// A session that authorizes nothing has to prove that it holds the session key.
pub proof fn law_a_bystander_proves_its_session_key(
    state: TpmState,
    req: RequestView,
    names: Seq<Vec<u8>>,
    i: int,
)
    requires
        0 <= i < req.sessions.len(),
        bystander_check(state, req, i, names) is Ok,
    ensures
        state.sessions.loaded@.contains_key(req.sessions[i].handle),
        ({
            let s = session_in(state, req, i);
            req.sessions[i].hmac == proof_of(state, req, names, i, s.session_key@, s) || (
            s.session_key@.len() == 0 && req.sessions[i].hmac.len() == 0)
        }),
{
    let s = session_in(state, req, i);
    lemma_expected(state, req, names, i, s.session_key@, s);
}

/// The attributes in the answer to a session: those that were sent, with
/// auditExclusive saying whether the session is exclusive.
pub open spec fn attributes_back(state: TpmState, input: AuthView) -> u8 {
    if input.attributes.0 & 0x80 == 0x80 && state.audit.exclusive_session == input.handle {
        input.attributes.0 & 0xFD | 2
    } else {
        input.attributes.0 & 0xFD
    }
}

proof fn lemma_exclusive(a: u8)
    by (bit_vector)
    ensures
        a | 2 == a & 0xFD | 2,
        a & !2u8 == a & 0xFD,
{
}

/// What answers a session: the new nonce of the TPM, the attributes and, where the
/// session sent an HMAC, an HMAC over the hash of the response, the TPM's new nonce,
/// the caller's nonce and the attributes. The hash of the response is over the
/// response code, the command code and the parameters. A password is answered with
/// neither a nonce nor an HMAC.
pub open spec fn answer_to(
    state: TpmState,
    req: RequestView,
    i: int,
    code: u32,
    parameters: Seq<u8>,
    nonce: Seq<u8>,
    key: Seq<u8>,
) -> Seq<u8> {
    let input = req.sessions[i];
    let s = state.sessions.loaded@[input.handle];
    let back = seq![attributes_back(state, input)];
    if input.handle == rh::RS_PW {
        seq![0u8, 0u8, 1u8, 0u8, 0u8]
    } else if input.hmac.len() == 0 {
        sized(nonce) + back + sized(Seq::empty())
    } else {
        let rp = hash_of(s.auth_hash, octets32(code) + octets32(req.code) + parameters);
        sized(nonce) + back + sized(hmac_of(s.auth_hash, key, rp + nonce + input.nonce + back))
    }
}

/// Each session is answered in its place, under the key that it was used with: that
/// of the entity it authorized, or the session key where it authorized none.
pub proof fn law_a_response_proves_the_key(
    state: TpmState,
    req: RequestView,
    code: u32,
    parameters: Seq<u8>,
    nonces: Seq<Vec<u8>>,
    contexts: Seq<AuthContext>,
    n: nat,
)
    requires
        0 < n <= req.sessions.len(),
        n <= nonces.len(),
        n <= req.info.auth_handles ==> n <= contexts.len(),
        state.sessions.loaded@.contains_key(req.sessions[n - 1].handle),
        answers(state, req, code, parameters, nonces, contexts, n) is Ok,
    ensures
        answers(state, req, code, parameters, nonces, contexts, (n - 1) as nat) is Ok,
        ({
            let before = answers(state, req, code, parameters, nonces, contexts, (n - 1) as nat);
            let area = answers(state, req, code, parameters, nonces, contexts, n);
            let s = state.sessions.loaded@[req.sessions[n - 1].handle];
            let key = if n <= req.info.auth_handles {
                key_with(s, contexts[n - 1].name@, contexts[n - 1].auth@)
            } else {
                s.session_key@
            };
            area->Ok_0 == before->Ok_0 + answer_to(
                state,
                req,
                n - 1,
                code,
                parameters,
                nonces[n - 1]@,
                key,
            )
        }),
{
    let input = req.sessions[n - 1];
    lemma_exclusive(input.attributes.0);
    let s = state.sessions.loaded@[input.handle];
    let back = seq![attributes_back(state, input)];
    let rp = hash_of(s.auth_hash, octets32(code) + octets32(req.code) + parameters);
    lemma_nothing();
    assert(sized(Seq::empty()) + seq![1u8] + sized(Seq::empty()) =~= seq![0u8, 0u8, 1u8, 0u8, 0u8]);
    assert(rp + nonces[n - 1]@ + input.nonce + Seq::<u8>::empty() + Seq::<u8>::empty() + back
        =~= rp + nonces[n - 1]@ + input.nonce + back);
}

} // verus!
