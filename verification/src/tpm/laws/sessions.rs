//! What sessions start with, hold and leave.

use vstd::prelude::*;

use super::authorize::{first_marked, octets_in};
use super::pcr::strung;
use super::policy::zeros;
use crate::tpm::commands::dispatch::{entity_of, name_of, RequestView, Response};
use crate::tpm::commands::execute::{nonces_rolled, response_octets};
use crate::tpm::commands::parameters::{decrypted, encrypted, first_with, transformed};
use crate::tpm::commands::session_commands::{
    flush_context_ran, parse_start, policy_restart_ran, start_auth_session_ran, start_check,
    StartInput,
};
use crate::tpm::commands::sessions::{
    command_logged, last_use, released, rolled, session_audited, sessions_closed, spends, unbinds,
};
use crate::tpm::commands::wire::alone;
use crate::tpm::crypto::hash::{hash_of, size_of};
use crate::tpm::crypto::hmac::kdfa;
use crate::tpm::crypto::rand::Rng;
use crate::tpm::crypto::sym::{crypted, Direction};
use crate::tpm::engine::session::{joined, trimmed, PolicyState, Session};
use crate::tpm::engine::session_store::SessionStore;
use crate::tpm::engine::state::{Audit, TpmState};
use crate::tpm::error::{TpmRc, TpmResult};
use crate::tpm::marshal::sized;
use crate::tpm::structures::auth::AuthView;
use crate::util::bytes::{be16, be32, octets16, octets32};

verus! {

/// A policy that has asserted nothing and asks for nothing.
pub open spec fn asserts_nothing(p: PolicyState, hash_alg: u16) -> bool {
    &&& p.digest@ == zeros(hash_alg)
    &&& p.command_code is None
    &&& p.cp_hash is None
    &&& p.name_hash is None
    &&& p.template_hash is None
    &&& p.parameters_hash is None
    &&& p.locality is None
    &&& p.pcr_update_counter is None
    &&& p.expiration is None
    &&& p.nv_written is None
    &&& !p.auth_value_needed
    &&& !p.password_needed
    &&& !p.physical_presence_required
}

/// The key that a session starts with, from a value, a salt and both nonces, under the
/// label ATH.
pub open spec fn first_key(
    h: u16,
    value: Seq<u8>,
    salt: Seq<u8>,
    nonce_tpm: Seq<u8>,
    nonce_caller: Seq<u8>,
) -> Seq<u8> {
    if value.len() == 0 && salt.len() == 0 {
        Seq::empty()
    } else {
        kdfa(
            h,
            value + salt,
            seq![0x41u8, 0x54u8, 0x48u8],
            nonce_tpm,
            nonce_caller,
            (size_of(h) * 8) as u32,
        )
    }
}

/// The value of the entity that a session is bound to.
pub open spec fn bound_value(state: TpmState, bind: u32) -> Seq<u8> {
    if bind == 0x4000_0007 {
        Seq::empty()
    } else {
        entity_of(state, bind)->Ok_0.auth
    }
}

/// A session starts with what was asked for, a new nonce of the TPM and a key derived
/// from the value of the entity it is bound to, the salt and both nonces. Without a
/// value and a salt it has no key.
pub proof fn law_a_session_starts_with_a_derived_key(
    after: TpmState,
    before: TpmState,
    req: RequestView,
    r: TpmResult<Response>,
    i: StartInput,
)
    requires
        start_auth_session_ran(after, before, req, r),
        alone(req.parameters, parse_start(req.parameters)) == Ok::<StartInput, TpmRc>(i),
        r is Ok,
    ensures
        r->Ok_0.handle is Some,
        req.handles.len() > 1,
        ({
            let h = r->Ok_0.handle->0;
            let s = after.sessions.loaded@[h];
            let bind = req.handles[1];
            let value = bound_value(before, bind);
            &&& if i.session_type == 0 {
                0x0200_0000 <= h < 0x0200_0040
            } else {
                0x0300_0000 <= h < 0x0300_0040
            }
            &&& !before.sessions.loaded@.contains_key(h)
            &&& after.sessions.loaded@ == before.sessions.loaded@.insert(h, s)
            &&& s.session_type == i.session_type
            &&& s.auth_hash == i.auth_hash
            &&& s.nonce_caller@ == i.nonce
            &&& 16 <= i.nonce.len() <= size_of(i.auth_hash)
            &&& r->Ok_0.parameters@ == sized(s.nonce_tpm@)
            &&& s.bind == bind
            &&& bind != 0x4000_0007 ==> name_of(before, bind) is Ok && s.bind_name@ == name_of(
                before,
                bind,
            )->Ok_0 + trimmed(value)
            &&& s.start_time == before.clock.time
            &&& asserts_nothing(s.policy, i.auth_hash)
            &&& !s.audit.is_audit
            &&& exists|salt: Seq<u8>|
                (req.handles[0] == 0x4000_0007 ==> salt.len() == 0) && s.session_key@
                    == #[trigger] first_key(i.auth_hash, value, salt, s.nonce_tpm@, i.nonce)
        }),
{
    let h = r->Ok_0.handle->0;
    let s = after.sessions.loaded@[h];
    let start = start_check(before, req)->Ok_0;
    let value = bound_value(before, req.handles[1]);
    assert(value == start.bind_auth);
    assert(crate::tpm::engine::session::LABEL_SESSION_KEY@ =~= seq![0x41u8, 0x54u8, 0x48u8]);
    assert(s.session_key@ == first_key(i.auth_hash, value, start.salt, s.nonce_tpm@, i.nonce));
}

/// PolicyRestart brings a session back to a policy that has asserted nothing, and
/// changes nothing else of it.
pub proof fn law_a_restart_asserts_nothing(
    after: TpmState,
    before: TpmState,
    req: RequestView,
    r: TpmResult<Response>,
)
    requires
        policy_restart_ran(after, before, req, r),
        req.handles.len() > 0,
        before.sessions.loaded@.contains_key(req.handles[0]),
    ensures
        r is Ok,
        ({
            let h = req.handles[0];
            let was = before.sessions.loaded@[h];
            let now = after.sessions.loaded@[h];
            &&& asserts_nothing(now.policy, was.auth_hash)
            &&& now == (Session { policy: now.policy, ..was })
            &&& forall|k: u32|
                k != h && before.sessions.loaded@.contains_key(k) ==> after.sessions.loaded@[k]
                    == #[trigger] before.sessions.loaded@[k]
        }),
{
}

proof fn lemma_last(s: Seq<AuthView>, handle: u32, n: nat, k: int)
    requires
        0 <= k < n,
        s[k].handle == handle,
        forall|j: int| k < j < n ==> #[trigger] s[j].handle != handle,
    ensures
        last_use(s, handle, n) == Some(k),
    decreases n,
{
    if k < n - 1 {
        lemma_last(s, handle, (n - 1) as nat, k);
    }
}

/// A session that a command used has the nonces of that command afterwards: the
/// caller's, and the new one of the TPM that goes into the response.
pub proof fn law_nonces_roll(
    after: TpmState,
    before: TpmState,
    req: RequestView,
    nonces: Seq<Vec<u8>>,
    k: int,
)
    requires
        nonces_rolled(after, before, req, nonces),
        req.tag == 0x8002,
        0 <= k < req.sessions.len(),
        req.sessions[k].handle != 0x4000_0009,
        before.sessions.loaded@.contains_key(req.sessions[k].handle),
        before.sessions.loaded@[req.sessions[k].handle].handle == req.sessions[k].handle,
        forall|j: int|
            k < j < req.sessions.len() ==> #[trigger] req.sessions[j].handle
                != req.sessions[k].handle,
    ensures
        k < nonces.len(),
        ({
            let h = req.sessions[k].handle;
            let was = before.sessions.loaded@[h];
            let now = after.sessions.loaded@[h];
            &&& now.nonce_tpm@ == nonces[k]@
            &&& now.nonce_caller@ == req.sessions[k].nonce
            &&& now == (Session {
                nonce_tpm: now.nonce_tpm,
                nonce_caller: now.nonce_caller,
                ..was
            })
        }),
{
    let s = req.sessions;
    lemma_last(s, s[k].handle, s.len(), k);
    lemma_rolled(before, s, s.len());
    let all = rolled(before.rng.model(), before.sessions, s, s.len()).0->Ok_0;
    assert(all == nonces.map_values(|x: Vec<u8>| x@));
    assert(all[k] == nonces[k]@);
}

proof fn lemma_rolled(state: TpmState, s: Seq<AuthView>, n: nat)
    ensures
        rolled(state.rng.model(), state.sessions, s, n).0 matches Ok(v) ==> v.len() == n,
    decreases n,
{
    if n > 0 {
        lemma_rolled(state, s, (n - 1) as nat);
    }
}

/// What encrypts the first parameter of a command or a response: the body alone is
/// changed, and its size and what is behind it stay. The key comes from the session
/// key and the value, the newer nonce and the older one. In a command the caller's
/// nonce is the newer, in a response the TPM's.
pub proof fn law_parameters_are_encrypted_under_both_nonces(
    s: Session,
    nonce_caller: Seq<u8>,
    auth: Seq<u8>,
    body: Seq<u8>,
)
    requires
        s.symmetric.algorithm == 0x0006,
    ensures
        ({
            let key = s.session_key@ + trimmed(auth);
            let cfb = seq![0x43u8, 0x46u8, 0x42u8];
            let bits = (s.symmetric.key_bits + 128) as u32;
            let n = s.symmetric.key_bits as int / 8;
            let command = kdfa(s.auth_hash, key, cfb, nonce_caller, s.nonce_tpm@, bits);
            let response = kdfa(s.auth_hash, key, cfb, s.nonce_tpm@, nonce_caller, bits);
            &&& transformed(s, nonce_caller, auth, body, false) == Ok::<Seq<u8>, TpmRc>(
                crypted(0x0043, command.take(n), command.skip(n), body, Direction::Decrypt).0,
            )
            &&& transformed(s, nonce_caller, auth, body, true) == Ok::<Seq<u8>, TpmRc>(
                crypted(0x0043, response.take(n), response.skip(n), body, Direction::Encrypt).0,
            )
        }),
{
    reveal(transformed);
    assert(crate::tpm::engine::session::LABEL_CFB@ =~= seq![0x43u8, 0x46u8, 0x42u8]);
}

/// Without a session that decrypts, the parameters of a command are what arrived, and
/// without one that encrypts, those of the response are sent as they are.
pub proof fn law_plain_parameters_stay(
    state: TpmState,
    req: RequestView,
    parameters: Seq<u8>,
    values: Seq<Vec<u8>>,
)
    ensures
        first_marked(req.sessions, 0x20, 0) is None ==> decrypted(state, req, values) == Ok::<
            Seq<u8>,
            TpmRc,
        >(req.parameters),
        first_marked(req.sessions, 0x40, 0) is None ==> encrypted(state, req, parameters, values)
            == Ok::<Seq<u8>, TpmRc>(parameters),
{
    lemma_first(req.sessions, 0x20, 0);
    lemma_first(req.sessions, 0x40, 0);
}

proof fn lemma_first(s: Seq<AuthView>, mask: u8, i: int)
    ensures
        first_with(s, mask, i) == first_marked(s, mask, i),
    decreases s.len() - i,
{
    if i < s.len() {
        lemma_first(s, mask, i + 1);
    }
}

/// An audit digest moves on: the hash of the digest before, or of zeros where there is
/// none, the hash of the command and the hash of the response.
pub open spec fn audit_of(
    h: u16,
    was: Seq<u8>,
    code: u32,
    names: Seq<Vec<u8>>,
    command: Seq<u8>,
    response: Seq<u8>,
) -> Seq<u8> {
    hash_of(
        h,
        (if was.len() == size_of(h) {
            was
        } else {
            zeros(h)
        }) + hash_of(h, octets32(code) + strung(octets_in(names)) + command) + hash_of(
            h,
            octets32(0) + octets32(code) + response,
        ),
    )
}

proof fn lemma_joined(names: Seq<Vec<u8>>)
    ensures
        joined(names) == strung(octets_in(names)),
    decreases names.len(),
{
    if names.len() > 0 {
        lemma_joined(names.drop_last());
        assert(octets_in(names).drop_last() =~= octets_in(names.drop_last()));
    }
}

/// A session that audits a command holds its digest moved on with that command, and
/// starts from zeros where it did not audit yet or was asked to begin again. No other
/// session changes.
pub proof fn law_a_session_audits(
    after: SessionStore,
    before: SessionStore,
    req: RequestView,
    names: Seq<Vec<u8>>,
    command: Seq<u8>,
    response: Seq<u8>,
    i: int,
)
    requires
        session_audited(after, before, req, names, command, response),
        first_marked(req.sessions, 0x80, 0) == Some(i),
        before.loaded@.contains_key(req.sessions[i].handle),
    ensures
        ({
            let h = req.sessions[i].handle;
            let s = before.loaded@[h];
            let t = after.loaded@[h];
            &&& t == (Session { audit: t.audit, ..s })
            &&& t.audit.is_audit
            &&& t.audit.digest@ == audit_of(
                s.auth_hash,
                if req.sessions[i].attributes.0 & 4 == 4 || !s.audit.is_audit {
                    Seq::empty()
                } else {
                    s.audit.digest@
                },
                req.code,
                names,
                command,
                response,
            )
            &&& forall|k: u32|
                k != h && before.loaded@.contains_key(k) ==> after.loaded@[k]
                    == #[trigger] before.loaded@[k]
        }),
{
    lemma_first(req.sessions, 0x80, 0);
    lemma_joined(names);
}

/// The command audit holds the commands that were asked for, moves its digest on with
/// each of them, and counts where it starts anew. It holds nothing of the others.
pub proof fn law_commands_are_audited(
    after: Audit,
    before: TpmState,
    req: RequestView,
    names: Seq<Vec<u8>>,
    command: Seq<u8>,
    response: Seq<u8>,
)
    requires
        command_logged(after, before, req, names, command, response),
        !before.failure_mode,
        !before.command_audit_suppressed,
        req.code != 0x145,
    ensures
        ({
            let a = before.audit;
            if req.code == 0x140 || a.commands@.contains(req.code) {
                &&& after.digest@ == audit_of(a.alg, a.digest@, req.code, names, command, response)
                &&& a.digest@.len() == size_of(a.alg) ==> after.counter == a.counter
                &&& a.digest@.len() != size_of(a.alg) && a.counter < u64::MAX ==> after.counter
                    == a.counter + 1
            } else {
                after.digest == a.digest && after.counter == a.counter
            }
        }),
{
    lemma_joined(names);
}

proof fn lemma_uses(s: Seq<AuthView>, handle: u32, auth_handles: int, n: nat)
    ensures
        released(s, handle, n) <==> exists|k: int|
            0 <= k < n && #[trigger] s[k].handle == handle && handle != 0x4000_0009
                && s[k].attributes.0 & 1 != 1,
        unbinds(s, handle, n) <==> exists|k: int|
            0 <= k < n && #[trigger] s[k].handle == handle && s[k].attributes.0 & 1 == 1
                && s[k].attributes.0 & 0x80 == 0x80,
        spends(s, handle, auth_handles, n) <==> exists|k: int|
            0 <= k < n && #[trigger] s[k].handle == handle && s[k].attributes.0 & 1 == 1 && k
                < auth_handles,
    decreases n,
{
    if n > 0 {
        lemma_uses(s, handle, auth_handles, (n - 1) as nat);
        assert(s[n - 1].handle == s[n - 1].handle);
    }
}

/// A session goes when a command that succeeded used it without asking to keep it, and
/// only then. A policy session that authorized and is kept asserts nothing afterwards.
pub proof fn law_sessions_are_kept_where_asked(
    after: SessionStore,
    before: SessionStore,
    s: Seq<AuthView>,
    auth_handles: int,
    h: u32,
)
    requires
        sessions_closed(after, before, s, auth_handles, s.len()),
        before.loaded@.contains_key(h),
        h != 0x4000_0009,
    ensures
        after.loaded@.contains_key(h) <==> forall|k: int|
            0 <= k < s.len() && #[trigger] s[k].handle == h ==> s[k].attributes.0 & 1 == 1,
        after.loaded@.contains_key(h) ==> ({
            let was = before.loaded@[h];
            let now = after.loaded@[h];
            let spent = exists|k: int|
                0 <= k < s.len() && #[trigger] s[k].handle == h && k < auth_handles;
            &&& now.nonce_tpm == was.nonce_tpm
            &&& now.session_key == was.session_key
            &&& if spent && was.session_type != 0 && (was.session_type == 1 || was.session_type
                == 3) {
                asserts_nothing(now.policy, was.auth_hash)
            } else {
                now.policy == was.policy
            }
        }),
{
    lemma_uses(s, h, auth_handles, s.len());
    assert(after.loaded@.contains_key(h) <==> !released(s, h, s.len()));
}

/// A response names its size and success, and with sessions the size of its parameters
/// stands before them and the answers to the sessions behind them.
pub proof fn law_a_response_is_framed(
    tag: u16,
    handle: Option<u32>,
    parameters: Seq<u8>,
    area: Seq<u8>,
)
    requires
        parameters.len() < 0x1000_0000,
        area.len() < 0x1000_0000,
    ensures
        ({
            let out = response_octets(tag, handle, parameters, area);
            let start = (if handle is Some {
                octets32(handle->0)
            } else {
                Seq::empty()
            });
            &&& be16(out, 0) == tag
            &&& be32(out, 2) == out.len()
            &&& be32(out, 6) == 0
            &&& out.skip(10) == start + if tag == 0x8002 {
                octets32(parameters.len() as u32) + parameters + area
            } else {
                parameters
            }
        }),
{
    let out = response_octets(tag, handle, parameters, area);
    crate::util::bytes::lemma_octets16(tag);
    crate::util::bytes::lemma_octets32(out.len() as u32);
    crate::util::bytes::lemma_octets32(0);
    let start = (if handle is Some {
        octets32(handle->0)
    } else {
        Seq::empty()
    });
    let body = start + if tag == 0x8002 {
        octets32(parameters.len() as u32) + parameters + area
    } else {
        parameters
    };
    assert(out.skip(10) =~= body);
    assert(out.len() == 10 + body.len());
    assert(be16(out, 0) == be16(octets16(tag), 0));
    assert(be32(out, 2) == be32(octets32(out.len() as u32), 0));
    assert(be32(out, 6) == be32(octets32(0), 0));
}

/// A flushed object or session is gone, with the sessions bound to the object.
pub proof fn law_what_is_flushed_is_gone(
    after: TpmState,
    before: TpmState,
    req: RequestView,
    r: TpmResult<Response>,
)
    requires
        flush_context_ran(after, before, req, r),
        r is Ok,
    ensures
        req.parameters.len() == 4,
        ({
            let h = be32(req.parameters, 0);
            &&& !after.objects.slots@.contains_key(h) || before.sessions.named_by(h) is Some
            &&& 0x8000_0000 <= h < 0x8100_0000 ==> before.objects.slots@.contains_key(h)
                && after.objects.slots@ == before.objects.slots@.remove(h) && forall|k: u32| #[trigger]
                after.sessions.loaded@.contains_key(k) ==> before.sessions.loaded@.contains_key(k)
                    && before.sessions.loaded@[k].bind != h && after.sessions.loaded@[k]
                    == before.sessions.loaded@[k]
        }),
{
}

} // verus!
