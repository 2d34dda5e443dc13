//! The sessions of a command: what they may ask for, and what they become once
//! it has run.

use vstd::prelude::*;

use super::dispatch::{requires_no_sessions, without_sessions, Request, RequestView, SessionInput};
use super::parameters::{find_first, first_with};
use crate::tpm::constants::{cc, rc, rh};
use crate::tpm::crypto::hash::{digest_size, size_of};
use crate::tpm::crypto::rand::{draw, RngModel, Rng};
use crate::tpm::engine::session::{
    audit_extended, auth_hmac, auth_hmac_of, cp_hash, cp_hash_of, extend_audit, rp_hash, rp_hash_of,
    AuditState, Session,
};
use crate::tpm::engine::session_store::SessionStore;
use crate::tpm::engine::state::{Audit, TpmState};
use crate::tpm::error::{TpmRc, TpmResult};
use crate::tpm::marshal::Writer;
use crate::tpm::structures::attributes::SessionAttributes;
use crate::tpm::structures::auth::{answer_octets, AuthResponse, AuthView};
use crate::tpm::structures::base::{Tpm2bAuth, Tpm2bNonce};
use crate::util::bytes::to_vec;

verus! {

/// How many octets the nonceTPM of a session has, none when it is not loaded.
pub open spec fn nonce_size(store: SessionStore, handle: u32) -> nat {
    if handle != rh::RS_PW && store.loaded@.contains_key(handle) {
        store.loaded@[handle].nonce_tpm@.len()
    } else {
        0
    }
}

/// True when a session gets a new nonce.
pub open spec fn rolls(store: SessionStore, handle: u32) -> bool {
    handle != rh::RS_PW && store.loaded@.contains_key(handle)
}

/// The new nonces of the first `n` sessions, and the generator once they are
/// drawn.
pub open spec fn rolled(m: RngModel, store: SessionStore, s: Seq<AuthView>, n: nat) -> (
    TpmResult<Seq<Seq<u8>>>,
    RngModel,
)
    decreases n,
{
    if n == 0 {
        (Ok(Seq::empty()), m)
    } else {
        let before = rolled(m, store, s, (n - 1) as nat);
        match before.0 {
            Err(e) => before,
            Ok(list) => if rolls(store, s[n - 1].handle) {
                match draw(before.1, nonce_size(store, s[n - 1].handle)) {
                    (Ok(v), m2) => (Ok(list.push(v)), m2),
                    (Err(e), m2) => (Err(e), m2),
                }
            } else {
                (Ok(list.push(Seq::empty())), before.1)
            },
        }
    }
}

/// The last place before `n` at which a handle is used.
pub open spec fn last_use(s: Seq<AuthView>, handle: u32, n: nat) -> Option<int>
    decreases n,
{
    if n == 0 {
        None
    } else if s[n - 1].handle == handle {
        Some(n - 1)
    } else {
        last_use(s, handle, (n - 1) as nat)
    }
}

/// A session once its nonces have moved on.
pub open spec fn nonces_moved(
    after: Session,
    before: Session,
    s: Seq<AuthView>,
    nonces: Seq<Seq<u8>>,
    n: nat,
) -> bool {
    match last_use(s, before.handle, n) {
        None => after == before,
        Some(k) => {
            &&& after == (Session {
                nonce_tpm: after.nonce_tpm,
                nonce_caller: after.nonce_caller,
                ..before
            })
            &&& after.nonce_tpm@ == nonces[k]
            &&& after.nonce_caller@ == s[k].nonce
        },
    }
}

/// The sessions once the nonces of the first `n` authorizations have moved on.
pub open spec fn store_moved(
    after: SessionStore,
    before: SessionStore,
    s: Seq<AuthView>,
    nonces: Seq<Seq<u8>>,
    n: nat,
) -> bool {
    &&& after == (SessionStore { loaded: after.loaded, ..before })
    &&& after.loaded@.dom() == before.loaded@.dom()
    &&& forall|h: u32| #[trigger]
        before.loaded@.contains_key(h) ==> nonces_moved(
            after.loaded@[h],
            before.loaded@[h],
            s,
            nonces,
            n,
        )
}

proof fn lemma_last_use(s: Seq<AuthView>, handle: u32, n: nat)
    ensures
        last_use(s, handle, n) matches Some(k) ==> 0 <= k < n && s[k].handle == handle,
    decreases n,
{
    if n > 0 {
        lemma_last_use(s, handle, (n - 1) as nat);
    }
}

proof fn lemma_rolled(m: RngModel, store: SessionStore, s: Seq<AuthView>, n: nat, total: nat)
    requires
        n <= total,
    ensures
        rolled(m, store, s, n).0 is Err ==> rolled(m, store, s, total) == rolled(m, store, s, n),
        rolled(m, store, s, n).0 is Ok ==> rolled(m, store, s, n).0->Ok_0.len() == n,
    decreases total,
{
    if n < total {
        lemma_rolled(m, store, s, n, (total - 1) as nat);
    } else if n > 0 {
        lemma_rolled(m, store, s, (n - 1) as nat, (n - 1) as nat);
    }
}

proof fn lemma_moved_step(
    now: SessionStore,
    earlier: SessionStore,
    store: SessionStore,
    s: Seq<AuthView>,
    list: Seq<Seq<u8>>,
    nonce: Seq<u8>,
    i: int,
)
    requires
        store.wf(),
        0 <= i < s.len(),
        list.len() == i,
        store_moved(earlier, store, s, list, i as nat),
        now.loaded@.dom() == store.loaded@.dom(),
        now == (SessionStore { loaded: now.loaded, ..earlier }),
        ({
            let h = s[i].handle;
            if rolls(store, h) {
                let t = now.loaded@[h];
                &&& now.loaded@ == earlier.loaded@.insert(h, t)
                &&& t == (Session {
                    nonce_tpm: t.nonce_tpm,
                    nonce_caller: t.nonce_caller,
                    ..earlier.loaded@[h]
                })
                &&& t.nonce_tpm@ == nonce
                &&& t.nonce_caller@ == s[i].nonce
            } else {
                now == earlier
            }
        }),
    ensures
        store_moved(now, store, s, list.push(nonce), (i + 1) as nat),
{
    reveal(SessionStore::wf);
    let next = list.push(nonce);
    assert forall|h: u32| #[trigger] store.loaded@.contains_key(h) implies nonces_moved(
        now.loaded@[h],
        store.loaded@[h],
        s,
        next,
        (i + 1) as nat,
    ) by {
        assert(nonces_moved(earlier.loaded@[h], store.loaded@[h], s, list, i as nat));
        assert(store.loaded@[h].handle == h);
        assert(h != rh::RS_PW);
        if h != s[i].handle {
            lemma_last_use(s, h, i as nat);
            assert(last_use(s, h, (i + 1) as nat) == last_use(s, h, i as nat));
        }
    }
}

/// Give a session its new nonces.
fn move_nonces(store: &mut SessionStore, input: &SessionInput, nonce: &[u8])
    requires
        old(store).wf(),
        old(store).loaded@.contains_key(input.handle),
        nonce@.len() == old(store).loaded@[input.handle].nonce_tpm@.len(),
        input.nonce_caller@.len() <= 64,
    ensures
        final(store).wf(),
        *final(store) == (SessionStore { loaded: final(store).loaded, ..*old(store) }),
        ({
            let before = old(store).loaded@[input.handle];
            let after = final(store).loaded@[input.handle];
            &&& final(store).loaded@ == old(store).loaded@.insert(input.handle, after)
            &&& after == (Session {
                nonce_tpm: after.nonce_tpm,
                nonce_caller: after.nonce_caller,
                ..before
            })
            &&& after.nonce_tpm@ == nonce@
            &&& after.nonce_caller@ == input.nonce_caller@
        }),
{
    if let Ok(s) = store.get_mut(input.handle) {
        s.nonce_tpm = to_vec(nonce);
        s.nonce_caller = to_vec(input.nonce_caller.as_slice());
    }
}

/// Roll the nonce of one session forward. A session that is not loaded, and a
/// password, has none.
fn roll_one(state: &mut TpmState, input: &SessionInput) -> (r: TpmResult<Vec<u8>>)
    requires
        old(state).wf(),
        input.nonce_caller@.len() <= 64,
    ensures
        final(state).wf(),
        *final(state) == (TpmState {
            sessions: final(state).sessions,
            rng: final(state).rng,
            ..*old(state)
        }),
        ({
            let h = input.handle;
            let store = old(state).sessions;
            let now = final(state).sessions;
            if rolls(store, h) {
                let drawn = draw(old(state).rng.model(), nonce_size(store, h));
                &&& final(state).rng.model() == drawn.1
                &&& match drawn.0 {
                    Err(e) => r is Err && r->Err_0 == e,
                    Ok(v) => {
                        let t = now.loaded@[h];
                        &&& r is Ok && r->Ok_0@ == v && v.len() <= 64
                        &&& v.len() == nonce_size(store, h)
                        &&& now == (SessionStore { loaded: now.loaded, ..store })
                        &&& now.loaded@ == store.loaded@.insert(h, t)
                        &&& t == (Session {
                            nonce_tpm: t.nonce_tpm,
                            nonce_caller: t.nonce_caller,
                            ..store.loaded@[h]
                        })
                        &&& t.nonce_tpm@ == v
                        &&& t.nonce_caller@ == input.nonce_caller@
                    },
                }
            } else {
                &&& *final(state) == *old(state)
                &&& r is Ok && r->Ok_0@ == Seq::<u8>::empty()
            }
        }),
{
    let none: Vec<u8> = Vec::new();
    assert(none@ =~= Seq::<u8>::empty());
    if input.handle == rh::RS_PW {
        return Ok(none);
    }
    let size: usize = match state.sessions.get(input.handle) {
        Ok(s) => s.nonce_tpm.len(),
        Err(_) => {
            return Ok(none);
        },
    };
    let nonce: Vec<u8> = state.rng.bytes(size)?;
    move_nonces(&mut state.sessions, input, nonce.as_slice());
    Ok(nonce)
}

/// A session has as many octets of nonceTPM as it started with.
proof fn lemma_nonce_size(
    now: SessionStore,
    store: SessionStore,
    s: Seq<AuthView>,
    list: Seq<Seq<u8>>,
    i: nat,
    handle: u32,
)
    requires
        store.wf(),
        i <= s.len(),
        list.len() == i,
        store_moved(now, store, s, list, i),
        forall|k: int|
            0 <= k < i && rolls(store, #[trigger] s[k].handle) ==> list[k].len() == nonce_size(
                store,
                s[k].handle,
            ),
    ensures
        rolls(now, handle) == rolls(store, handle),
        nonce_size(now, handle) == nonce_size(store, handle),
{
    reveal(SessionStore::wf);
    assert(now.loaded@.contains_key(handle) == store.loaded@.contains_key(handle));
    if rolls(store, handle) {
        assert(nonces_moved(now.loaded@[handle], store.loaded@[handle], s, list, i));
        lemma_last_use(s, handle, i);
    }
}

/// Roll the nonce of every session forward and return the new values.
///
/// This comes before a response parameter is encrypted, because the new
/// nonceTPM keys that encryption.
pub fn roll_response_nonces(state: &mut TpmState, request: &Request) -> (r: TpmResult<Vec<Vec<u8>>>)
    requires
        old(state).wf(),
        request@.wf(),
    ensures
        final(state).wf(),
        *final(state) == (TpmState {
            sessions: final(state).sessions,
            rng: final(state).rng,
            ..*old(state)
        }),
        ({
            let s = request@.sessions;
            let all = rolled(old(state).rng.model(), old(state).sessions, s, s.len());
            &&& final(state).rng.model() == all.1
            &&& match all.0 {
                Ok(v) => {
                    &&& r is Ok
                    &&& r->Ok_0@.map_values(|x: Vec<u8>| x@) == v
                    &&& forall|i: int| 0 <= i < v.len() ==> (#[trigger] v[i]).len() <= 64
                    &&& store_moved(final(state).sessions, old(state).sessions, s, v, s.len())
                },
                Err(e) => r is Err && r->Err_0 == e,
            }
        }),
{
    let mut out: Vec<Vec<u8>> = Vec::new();
    let ghost m = state.rng.model();
    let ghost store = state.sessions;
    let ghost s = request@.sessions;
    let ghost f = |x: Vec<u8>| x@;
    assert(out@.map_values(f) =~= Seq::<Seq<u8>>::empty());
    let mut i: usize = 0;
    while i < request.sessions.len()
        invariant
            i <= request.sessions@.len(),
            request@.wf(),
            s == request@.sessions,
            s.len() == request.sessions@.len(),
            m == old(state).rng.model(),
            store == old(state).sessions,
            store.wf(),
            f == (|x: Vec<u8>| x@),
            state.wf(),
            *state == (TpmState { sessions: state.sessions, rng: state.rng, ..*old(state) }),
            rolled(m, store, s, i as nat).0 == Ok::<Seq<Seq<u8>>, TpmRc>(out@.map_values(f)),
            rolled(m, store, s, i as nat).1 == state.rng.model(),
            out@.len() == i,
            forall|k: int| 0 <= k < i ==> (#[trigger] out@.map_values(f)[k]).len() <= 64,
            forall|k: int|
                0 <= k < i && rolls(store, #[trigger] s[k].handle) ==> out@.map_values(f)[k].len()
                    == nonce_size(store, s[k].handle),
            store_moved(state.sessions, store, s, out@.map_values(f), i as nat),
        decreases request.sessions@.len() - i,
    {
        let input: &SessionInput = &request.sessions[i];
        assert(s[i as int] == input@);
        let ghost list = out@.map_values(f);
        let ghost earlier = state.sessions;
        proof {
            lemma_rolled(m, store, s, (i + 1) as nat, s.len());
            lemma_nonce_size(earlier, store, s, list, i as nat, input.handle);
        }
        let nonce: Vec<u8> = match roll_one(state, input) {
            Ok(v) => v,
            Err(e) => {
                return Err(e);
            },
        };
        out.push(nonce);
        proof {
            assert(out@.map_values(f) =~= list.push(nonce@));
            assert(state.sessions.loaded@.dom() =~= store.loaded@.dom());
            lemma_moved_step(state.sessions, earlier, store, s, list, nonce@, i as int);
        }
        i = i + 1;
    }
    Ok(out)
}

/// True when one of the first `i` sessions has the attribute.
pub open spec fn seen(s: Seq<AuthView>, mask: u8, i: int) -> bool {
    exists|j: int| 0 <= j < i && (#[trigger] s[j]).attributes.has(mask)
}

/// The attributes that give a session a reason to be in a command that it does
/// not authorize.
pub const USES: u8 = 0xE0;

/// Whether the attributes of session `i` can be granted.
///
/// One session may audit, one may decrypt and one may encrypt. A password
/// session does none of these. The audit session authorizes nothing, only an
/// audit session asks for exclusivity or a reset, and a session that authorizes
/// nothing has to do at least one of the three.
pub open spec fn granted(s: Seq<AuthView>, auth_handles: int, i: int) -> bool {
    let a = s[i].attributes;
    &&& !(s[i].handle == rh::RS_PW && a.any(USES))
    &&& a.has(SessionAttributes::AUDIT) || !a.any(
        SessionAttributes::AUDIT_EXCLUSIVE | SessionAttributes::AUDIT_RESET,
    )
    &&& a.has(SessionAttributes::AUDIT) ==> !seen(s, SessionAttributes::AUDIT, i) && i
        >= auth_handles
    &&& a.has(SessionAttributes::DECRYPT) ==> !seen(s, SessionAttributes::DECRYPT, i)
    &&& a.has(SessionAttributes::ENCRYPT) ==> !seen(s, SessionAttributes::ENCRYPT, i)
    &&& i >= auth_handles ==> a.any(USES)
}

/// The fault with the attributes of the sessions from `i` on: the first one
/// that cannot be granted.
pub open spec fn attributes_from(s: Seq<AuthView>, auth_handles: int, i: int) -> TpmResult<()>
    decreases s.len() - i,
{
    if i >= s.len() {
        Ok(())
    } else if !granted(s, auth_handles, i) {
        Err(TpmRc(rc::ATTRIBUTES).for_session(i + 1))
    } else {
        attributes_from(s, auth_handles, i + 1)
    }
}

/// Check that the sessions ask for a consistent set of things.
pub fn check_session_attributes(request: &Request) -> (r: TpmResult<()>)
    ensures
        r == attributes_from(request@.sessions, request.info.auth_handles as int, 0),
{
    let count: usize = request.info.auth_handles;
    let ghost s = request@.sessions;
    let mut audit: bool = false;
    let mut decrypt: bool = false;
    let mut encrypt: bool = false;
    let mut i: usize = 0;
    while i < request.sessions.len()
        invariant
            i <= request.sessions@.len(),
            s == request@.sessions,
            count == request.info.auth_handles,
            audit == seen(s, SessionAttributes::AUDIT, i as int),
            decrypt == seen(s, SessionAttributes::DECRYPT, i as int),
            encrypt == seen(s, SessionAttributes::ENCRYPT, i as int),
            attributes_from(s, count as int, 0) == attributes_from(s, count as int, i as int),
        decreases request.sessions@.len() - i,
    {
        let input: &SessionInput = &request.sessions[i];
        assert(s[i as int] == input@);
        let a: SessionAttributes = input.attributes;
        let fault: bool = (input.handle == rh::RS_PW && a.any(USES)) || (!a.has(
            SessionAttributes::AUDIT,
        ) && a.any(SessionAttributes::AUDIT_EXCLUSIVE | SessionAttributes::AUDIT_RESET)) || (a.has(
            SessionAttributes::AUDIT,
        ) && (audit || i < count)) || (a.has(SessionAttributes::DECRYPT) && decrypt) || (a.has(
            SessionAttributes::ENCRYPT,
        ) && encrypt) || (i >= count && !a.any(USES));
        assert(fault == !granted(s, count as int, i as int));
        if fault {
            return Err(TpmRc(rc::ATTRIBUTES).with_session(i + 1));
        }
        proof {
            assert forall|mask: u8| #[trigger] seen(s, mask, i + 1) == (seen(s, mask, i as int)
                || a.has(mask)) by {
                if seen(s, mask, i as int) {
                    let j = choose|j: int| 0 <= j < i && (#[trigger] s[j]).attributes.has(mask);
                    assert(s[j].attributes.has(mask));
                }
                if a.has(mask) {
                    assert(s[i as int].attributes.has(mask));
                }
            }
        }
        audit = audit || a.has(SessionAttributes::AUDIT);
        decrypt = decrypt || a.has(SessionAttributes::DECRYPT);
        encrypt = encrypt || a.has(SessionAttributes::ENCRYPT);
        i = i + 1;
    }
    Ok(())
}

/// The place of the session that asks to audit the command.
pub open spec fn audit_place(req: RequestView) -> Option<int> {
    first_with(req.sessions, SessionAttributes::AUDIT, 0)
}

/// The place of the session that asks to audit the command.
pub fn audit_session_index(request: &Request) -> (r: Option<usize>)
    ensures
        match r {
            Some(i) => audit_place(request@) == Some(i as int) && i < request.sessions@.len(),
            None => audit_place(request@) is None,
        },
{
    find_first(request, SessionAttributes::AUDIT)
}

/// What [`check_audit_session`] answers.
pub open spec fn audit_check(state: TpmState, req: RequestView) -> TpmResult<()> {
    match audit_place(req) {
        None => Ok(()),
        Some(i) => {
            let input = req.sessions[i];
            if !state.sessions.loaded@.contains_key(input.handle) {
                Err(TpmRc(rc::HANDLE))
            } else if !state.sessions.loaded@[input.handle].is_hmac() {
                Err(TpmRc(rc::ATTRIBUTES).for_session(i + 1))
            } else if input.attributes.has(SessionAttributes::AUDIT_EXCLUSIVE)
                && state.audit.exclusive_session != input.handle {
                Err(TpmRc(rc::EXCLUSIVE))
            } else {
                Ok(())
            }
        },
    }
}

/// Check the audit session before the command runs: only an HMAC session
/// audits, and one that asks to be exclusive has to be so already.
pub fn check_audit_session(state: &TpmState, request: &Request) -> (r: TpmResult<()>)
    requires
        state.wf(),
    ensures
        r == audit_check(*state, request@),
{
    let i: usize = match audit_session_index(request) {
        Some(i) => i,
        None => {
            return Ok(());
        },
    };
    let input: &SessionInput = &request.sessions[i];
    assert(request@.sessions[i as int] == input@);
    assert(i < request.sessions.len());
    let s: &Session = state.sessions.get(input.handle)?;
    if !s.is_hmac() {
        return Err(TpmRc(rc::ATTRIBUTES).with_session(i + 1));
    }
    if input.attributes.has(SessionAttributes::AUDIT_EXCLUSIVE) && state.audit.exclusive_session
        != input.handle {
        return Err(TpmRc(rc::EXCLUSIVE));
    }
    Ok(())
}

/// True when the TPM records a command in the command audit.
///
/// TPM2_SetCommandCodeAuditStatus always is, and TPM2_Shutdown never, whatever
/// the list of audited commands says.
pub open spec fn audited(state: TpmState, code: u32) -> bool {
    code != cc::Shutdown && !state.failure_mode && !state.command_audit_suppressed && (code
        == cc::SetCommandCodeAuditStatus || state.audit.commands@.contains(code))
}

/// True when `code` is in the list.
pub fn listed(list: &[u32], code: u32) -> (r: bool)
    ensures
        r == list@.contains(code),
{
    let mut i: usize = 0;
    while i < list.len()
        invariant
            i <= list@.len(),
            forall|j: int| 0 <= j < i ==> list@[j] != code,
        decreases list@.len() - i,
    {
        if list[i] == code {
            return true;
        }
        i = i + 1;
    }
    false
}

/// True when the TPM records a command in the command audit.
pub fn command_audit_applies(state: &TpmState, code: u32) -> (r: bool)
    ensures
        r == audited(*state, code),
{
    if code == cc::Shutdown || state.failure_mode || state.command_audit_suppressed {
        return false;
    }
    code == cc::SetCommandCodeAuditStatus || listed(state.audit.commands.as_slice(), code)
}

/// The digest an audit session extends: none when it starts a new log.
pub open spec fn audit_start(s: Session, a: SessionAttributes) -> Seq<u8> {
    if a.has(SessionAttributes::AUDIT_RESET) || !s.audit.is_audit {
        Seq::empty()
    } else {
        s.audit.digest@
    }
}

/// The sessions once the command has been audited.
pub open spec fn session_audited(
    after: SessionStore,
    before: SessionStore,
    req: RequestView,
    names: Seq<Vec<u8>>,
    command: Seq<u8>,
    response: Seq<u8>,
) -> bool {
    match audit_place(req) {
        None => after == before,
        Some(i) => {
            let h = req.sessions[i].handle;
            if !before.loaded@.contains_key(h) {
                after == before
            } else {
                let s = before.loaded@[h];
                let t = after.loaded@[h];
                &&& after == (SessionStore { loaded: after.loaded, ..before })
                &&& after.loaded@ == before.loaded@.insert(h, t)
                &&& t == (Session { audit: t.audit, ..s })
                &&& t.audit.is_audit
                &&& t.audit.digest@ == audit_extended(
                    s.auth_hash,
                    audit_start(s, req.sessions[i].attributes),
                    cp_hash_of(s.auth_hash, req.code, names, command),
                    rp_hash_of(s.auth_hash, rc::SUCCESS, req.code, response),
                )
            }
        },
    }
}

/// The session that is exclusive once a command has run. A command that may
/// have no session leaves it alone.
pub open spec fn exclusive_after(before: u32, req: RequestView) -> u32 {
    if without_sessions(req.code) {
        before
    } else {
        match audit_place(req) {
            Some(i) => req.sessions[i].handle,
            None => rh::UNASSIGNED,
        }
    }
}

/// The command audit once a command has run. The counter moves when a command
/// starts a new log.
pub open spec fn command_audited(
    after: Audit,
    before: TpmState,
    req: RequestView,
    names: Seq<Vec<u8>>,
    command: Seq<u8>,
    response: Seq<u8>,
) -> bool {
    &&& after.alg == before.audit.alg
    &&& after.commands == before.audit.commands
    &&& after.exclusive_session == exclusive_after(before.audit.exclusive_session, req)
    &&& command_logged(after, before, req, names, command, response)
}

/// The log of the command audit once a command has run.
pub open spec fn command_logged(
    after: Audit,
    before: TpmState,
    req: RequestView,
    names: Seq<Vec<u8>>,
    command: Seq<u8>,
    response: Seq<u8>,
) -> bool {
    let a = before.audit;
    if audited(before, req.code) {
        &&& after.counter == (if a.digest@.len() != size_of(a.alg) {
            a.counter.wrapping_add(1)
        } else {
            a.counter
        })
        &&& after.digest@ == audit_extended(
            a.alg,
            a.digest@,
            cp_hash_of(a.alg, req.code, names, command),
            rp_hash_of(a.alg, rc::SUCCESS, req.code, response),
        )
    } else {
        after.counter == a.counter && after.digest == a.digest
    }
}

/// Note a command in the log of the session that audits it.
fn audit_in_session(
    state: &mut TpmState,
    request: &Request,
    names: &[Vec<u8>],
    command: &[u8],
    response: &[u8],
) -> (r: TpmResult<()>)
    requires
        old(state).wf(),
    ensures
        r is Ok,
        final(state).wf(),
        *final(state) == (TpmState { sessions: final(state).sessions, ..*old(state) }),
        session_audited(
            final(state).sessions,
            old(state).sessions,
            request@,
            names@,
            command@,
            response@,
        ),
{
    broadcast use crate::tpm::crypto::hash::lemma_hash_len;

    let i: usize = match audit_session_index(request) {
        Some(i) => i,
        None => {
            return Ok(());
        },
    };
    let input: &SessionInput = &request.sessions[i];
    assert(request@.sessions[i as int] == input@);
    if let Ok(s) = state.sessions.get_mut(input.handle) {
        let mut start: Vec<u8> = Vec::new();
        assert(start@ =~= Seq::<u8>::empty());
        if !input.attributes.has(SessionAttributes::AUDIT_RESET) && s.audit.is_audit {
            start = to_vec(s.audit.digest.as_slice());
        }
        let cp: Vec<u8> = cp_hash(s.auth_hash, request.code, names, command)?;
        let rp: Vec<u8> = rp_hash(s.auth_hash, rc::SUCCESS, request.code, response)?;
        let digest: Vec<u8> = extend_audit(
            s.auth_hash,
            start.as_slice(),
            cp.as_slice(),
            rp.as_slice(),
        )?;
        s.audit = AuditState { is_audit: true, digest };
    }
    Ok(())
}

/// Note a command in the command audit, where it is audited.
fn audit_command(
    state: &mut TpmState,
    request: &Request,
    names: &[Vec<u8>],
    command_parameters: &[u8],
    response_parameters: &[u8],
) -> (r: TpmResult<()>)
    requires
        old(state).wf(),
    ensures
        r is Ok,
        final(state).wf(),
        *final(state) == (TpmState {
            audit: Audit {
                counter: final(state).audit.counter,
                digest: final(state).audit.digest,
                ..old(state).audit
            },
            ..*old(state)
        }),
        command_logged(
            final(state).audit,
            *old(state),
            request@,
            names@,
            command_parameters@,
            response_parameters@,
        ),
{
    broadcast use crate::tpm::crypto::hash::lemma_hash_len;

    if command_audit_applies(state, request.code) {
        let hash: u16 = state.audit.alg;
        let cp: Vec<u8> = cp_hash(hash, request.code, names, command_parameters)?;
        let rp: Vec<u8> = rp_hash(hash, rc::SUCCESS, request.code, response_parameters)?;
        let size: usize = digest_size(hash)?;
        if state.audit.digest.len() != size {
            state.audit.counter = state.audit.counter.wrapping_add(1);
        }
        let digest: Vec<u8> = extend_audit(
            hash,
            state.audit.digest.as_slice(),
            cp.as_slice(),
            rp.as_slice(),
        )?;
        state.audit.digest = digest;
    }
    Ok(())
}

/// Update the audit digests after the command has succeeded.
///
/// The command parameters are as they arrived and the response parameters as
/// they are returned, encrypted where a session asked for it.
pub fn update_audit(
    state: &mut TpmState,
    request: &Request,
    names: &[Vec<u8>],
    command_parameters: &[u8],
    response_parameters: &[u8],
) -> (r: TpmResult<()>)
    requires
        old(state).wf(),
    ensures
        r is Ok,
        final(state).wf(),
        *final(state) == (TpmState {
            sessions: final(state).sessions,
            audit: final(state).audit,
            ..*old(state)
        }),
        session_audited(
            final(state).sessions,
            old(state).sessions,
            request@,
            names@,
            command_parameters@,
            response_parameters@,
        ),
        command_audited(
            final(state).audit,
            *old(state),
            request@,
            names@,
            command_parameters@,
            response_parameters@,
        ),
{
    audit_in_session(state, request, names, command_parameters, response_parameters)?;
    if !requires_no_sessions(request.code) {
        state.audit.exclusive_session = match audit_session_index(request) {
            Some(i) => {
                assert(request@.sessions[i as int] == request.sessions@[i as int]@);
                request.sessions[i].handle
            },
            None => rh::UNASSIGNED,
        };
    }
    audit_command(state, request, names, command_parameters, response_parameters)
}

/// What an authorization used before the command ran.
///
/// A command may change the Name of an entity or take it away, and the
/// response is still keyed by what authorized the command.
#[derive(Debug)]
pub struct AuthContext {
    pub name: Vec<u8>,
    pub auth: Vec<u8>,
}

/// The attributes echoed for a session: only auditExclusive differs from what
/// the command sent, and says whether the session is exclusive now.
pub open spec fn echoed(state: TpmState, input: AuthView) -> SessionAttributes {
    input.attributes.put(
        SessionAttributes::AUDIT_EXCLUSIVE,
        input.attributes.has(SessionAttributes::AUDIT) && input.handle != rh::RS_PW
            && state.audit.exclusive_session == input.handle,
    )
}

fn response_attributes(state: &TpmState, input: &SessionInput) -> (r: SessionAttributes)
    ensures
        r == echoed(*state, input@),
{
    let mut a: SessionAttributes = input.attributes;
    a.set(
        SessionAttributes::AUDIT_EXCLUSIVE,
        input.attributes.has(SessionAttributes::AUDIT) && input.handle != rh::RS_PW
            && state.audit.exclusive_session == input.handle,
    );
    a
}

/// The key of the HMAC of the response for session `i`. One that authorized
/// nothing keys with its session key alone.
pub open spec fn answer_key(req: RequestView, i: int, contexts: Seq<AuthContext>, s: Session) -> Seq<
    u8,
> {
    if i >= req.info.auth_handles {
        s.session_key@
    } else if i < contexts.len() {
        s.hmac_key_for(contexts[i].name@, contexts[i].auth@)
    } else {
        s.hmac_key_for(Seq::empty(), Seq::empty())
    }
}

/// What the response says for session `i`.
///
/// A command that carried no HMAC is answered with none.
pub open spec fn answer(
    state: TpmState,
    req: RequestView,
    i: int,
    code: u32,
    parameters: Seq<u8>,
    nonces: Seq<Vec<u8>>,
    contexts: Seq<AuthContext>,
) -> TpmResult<Seq<u8>> {
    let input = req.sessions[i];
    let nonce = if i < nonces.len() {
        nonces[i]@
    } else {
        Seq::empty()
    };
    let attributes = echoed(state, input);
    if input.handle == rh::RS_PW {
        Ok(
            answer_octets(
                Seq::empty(),
                SessionAttributes(SessionAttributes::CONTINUE_SESSION),
                Seq::empty(),
            ),
        )
    } else if nonce.len() > 64 {
        Err(TpmRc(rc::SIZE))
    } else if !state.sessions.loaded@.contains_key(input.handle) || input.hmac.len() == 0 {
        Ok(answer_octets(nonce, attributes, Seq::empty()))
    } else {
        let s = state.sessions.loaded@[input.handle];
        Ok(
            answer_octets(
                nonce,
                attributes,
                auth_hmac_of(
                    s.auth_hash,
                    answer_key(req, i, contexts, s),
                    rp_hash_of(s.auth_hash, code, req.code, parameters),
                    nonce,
                    input.nonce,
                    Seq::empty(),
                    Seq::empty(),
                    attributes,
                ),
            ),
        )
    }
}

/// The authorization area of a response, for the first `n` sessions.
pub open spec fn answers(
    state: TpmState,
    req: RequestView,
    code: u32,
    parameters: Seq<u8>,
    nonces: Seq<Vec<u8>>,
    contexts: Seq<AuthContext>,
    n: nat,
) -> TpmResult<Seq<u8>>
    decreases n,
{
    if n == 0 {
        Ok(Seq::empty())
    } else {
        match answers(state, req, code, parameters, nonces, contexts, (n - 1) as nat) {
            Err(e) => Err(e),
            Ok(area) => match answer(state, req, n - 1, code, parameters, nonces, contexts) {
                Err(e) => Err(e),
                Ok(v) => Ok(area + v),
            },
        }
    }
}

proof fn lemma_answers_stop(
    state: TpmState,
    req: RequestView,
    code: u32,
    parameters: Seq<u8>,
    nonces: Seq<Vec<u8>>,
    contexts: Seq<AuthContext>,
    i: nat,
    n: nat,
)
    requires
        i < n,
        answers(state, req, code, parameters, nonces, contexts, i) is Ok,
        answer(state, req, i as int, code, parameters, nonces, contexts) is Err,
    ensures
        answers(state, req, code, parameters, nonces, contexts, n) == Err::<Seq<u8>, TpmRc>(
            answer(state, req, i as int, code, parameters, nonces, contexts)->Err_0,
        ),
    decreases n,
{
    if i + 1 < n {
        lemma_answers_stop(state, req, code, parameters, nonces, contexts, i, (n - 1) as nat);
    }
}

/// The HMAC of the response for session `i`.
fn answer_hmac(
    state: &TpmState,
    request: &Request,
    i: usize,
    code: u32,
    parameters: &[u8],
    nonce: &[u8],
    contexts: &[AuthContext],
    s: &Session,
) -> (r: TpmResult<Vec<u8>>)
    requires
        s.wf(),
        i < request.sessions@.len(),
    ensures
        r is Ok,
        r->Ok_0@.len() <= 64,
        r->Ok_0@ == auth_hmac_of(
            s.auth_hash,
            answer_key(request@, i as int, contexts@, *s),
            rp_hash_of(s.auth_hash, code, request.code, parameters@),
            nonce@,
            request@.sessions[i as int].nonce,
            Seq::empty(),
            Seq::empty(),
            echoed(*state, request@.sessions[i as int]),
        ),
{
    broadcast use crate::tpm::crypto::hmac::lemma_hmac_len;

    let input: &SessionInput = &request.sessions[i];
    assert(request@.sessions[i as int] == input@);
    let none: Vec<u8> = Vec::new();
    assert(none@ =~= Seq::<u8>::empty());
    let rp: Vec<u8> = rp_hash(s.auth_hash, code, request.code, parameters)?;
    let key: Vec<u8> = if i >= request.info.auth_handles {
        to_vec(s.session_key.as_slice())
    } else if i < contexts.len() {
        s.hmac_key(contexts[i].name.as_slice(), contexts[i].auth.as_slice())
    } else {
        s.hmac_key(none.as_slice(), none.as_slice())
    };
    auth_hmac(
        s.auth_hash,
        key.as_slice(),
        rp.as_slice(),
        nonce,
        input.nonce_caller.as_slice(),
        response_attributes(state, input),
    )
}

/// Build what the response says for session `i`.
fn build_answer(
    state: &TpmState,
    request: &Request,
    i: usize,
    code: u32,
    parameters: &[u8],
    nonces: &[Vec<u8>],
    contexts: &[AuthContext],
) -> (r: TpmResult<AuthResponse>)
    requires
        state.wf(),
        i < request.sessions@.len(),
    ensures
        match answer(*state, request@, i as int, code, parameters@, nonces@, contexts@) {
            Ok(v) => r is Ok && answer_octets(
                r->Ok_0.nonce@,
                r->Ok_0.session_attributes,
                r->Ok_0.hmac@,
            ) == v,
            Err(e) => r is Err && r->Err_0 == e,
        },
{
    let input: &SessionInput = &request.sessions[i];
    assert(request@.sessions[i as int] == input@);
    if input.handle == rh::RS_PW {
        return Ok(
            AuthResponse {
                nonce: Tpm2bNonce::empty(),
                session_attributes: SessionAttributes(SessionAttributes::CONTINUE_SESSION),
                hmac: Tpm2bAuth::empty(),
            },
        );
    }
    let none: Vec<u8> = Vec::new();
    assert(none@ =~= Seq::<u8>::empty());
    let nonce: Vec<u8> = if i < nonces.len() {
        to_vec(nonces[i].as_slice())
    } else {
        none
    };
    let session_attributes: SessionAttributes = response_attributes(state, input);
    let held = Tpm2bNonce::from_slice(nonce.as_slice())?;
    let mut hmac = Tpm2bAuth::empty();
    if let Ok(s) = state.sessions.get(input.handle) {
        if input.hmac.len() != 0 {
            let v: Vec<u8> = answer_hmac(
                state,
                request,
                i,
                code,
                parameters,
                nonce.as_slice(),
                contexts,
                s,
            )?;
            hmac = Tpm2bAuth::new(v)?;
        }
    }
    Ok(AuthResponse { nonce: held, session_attributes, hmac })
}

/// Build the authorization area of a response.
///
/// `nonces` holds what [`roll_response_nonces`] returned and `contexts` what
/// each authorization used.
pub fn build_response_sessions(
    state: &TpmState,
    request: &Request,
    response_code: u32,
    parameters: &[u8],
    nonces: &[Vec<u8>],
    contexts: &[AuthContext],
) -> (r: TpmResult<Vec<u8>>)
    requires
        state.wf(),
    ensures
        match answers(
            *state,
            request@,
            response_code,
            parameters@,
            nonces@,
            contexts@,
            request@.sessions.len(),
        ) {
            Ok(v) => r is Ok && r->Ok_0@ == v,
            Err(e) => r is Err && r->Err_0 == e,
        },
{
    let mut w = Writer::new();
    let mut i: usize = 0;
    while i < request.sessions.len()
        invariant
            i <= request.sessions@.len(),
            request.sessions@.len() == request@.sessions.len(),
            state.wf(),
            w.good(),
            answers(*state, request@, response_code, parameters@, nonces@, contexts@, i as nat)
                == Ok::<Seq<u8>, TpmRc>(w.written()),
        decreases request.sessions@.len() - i,
    {
        match build_answer(state, request, i, response_code, parameters, nonces, contexts) {
            Ok(a) => a.marshal(&mut w),
            Err(e) => {
                proof {
                    lemma_answers_stop(
                        *state,
                        request@,
                        response_code,
                        parameters@,
                        nonces@,
                        contexts@,
                        i as nat,
                        request@.sessions.len(),
                    );
                }
                return Err(e);
            },
        }
        i = i + 1;
    }
    w.finish()
}

/// True when one of the first `n` authorizations uses session `handle` and does
/// not ask to keep it.
pub open spec fn released(s: Seq<AuthView>, handle: u32, n: nat) -> bool
    decreases n,
{
    n > 0 && (released(s, handle, (n - 1) as nat) || (s[n - 1].handle == handle && handle
        != rh::RS_PW && !s[n - 1].attributes.has(SessionAttributes::CONTINUE_SESSION)))
}

/// True when one of the first `n` authorizations keeps session `handle` and
/// audits with it.
pub open spec fn unbinds(s: Seq<AuthView>, handle: u32, n: nat) -> bool
    decreases n,
{
    n > 0 && (unbinds(s, handle, (n - 1) as nat) || (s[n - 1].handle == handle
        && s[n - 1].attributes.has(SessionAttributes::CONTINUE_SESSION)
        && s[n - 1].attributes.has(SessionAttributes::AUDIT)))
}

/// True when one of the first `n` authorizations keeps session `handle` and
/// authorizes a handle of the command with it.
pub open spec fn spends(s: Seq<AuthView>, handle: u32, auth_handles: int, n: nat) -> bool
    decreases n,
{
    n > 0 && (spends(s, handle, auth_handles, (n - 1) as nat) || (s[n - 1].handle == handle
        && s[n - 1].attributes.has(SessionAttributes::CONTINUE_SESSION) && n - 1 < auth_handles))
}

/// A session that was kept: one that audited is no longer bound, and a policy
/// that authorized something has to be satisfied anew.
pub open spec fn kept(after: Session, before: Session, unbound: bool, spent: bool) -> bool {
    &&& after == (Session {
        bind: after.bind,
        bind_name: after.bind_name,
        policy: after.policy,
        ..before
    })
    &&& if unbound {
        after.bind == rh::NULL && after.bind_name@.len() == 0
    } else {
        after.bind == before.bind && after.bind_name == before.bind_name
    }
    &&& if spent && before.is_policy() {
        after.policy.is_fresh(before.auth_hash)
    } else {
        after.policy == before.policy
    }
}

/// The sessions once the first `n` authorizations are done with.
pub open spec fn sessions_closed(
    after: SessionStore,
    before: SessionStore,
    s: Seq<AuthView>,
    auth_handles: int,
    n: nat,
) -> bool {
    &&& after.counter == before.counter
    &&& forall|h: u32| #[trigger]
        after.loaded@.contains_key(h) <==> before.loaded@.contains_key(h) && !released(s, h, n)
    &&& forall|h: u32| #[trigger]
        after.saved@.contains_key(h) <==> before.saved@.contains_key(h) && !released(s, h, n)
    &&& forall|h: u32| #[trigger]
        after.saved@.contains_key(h) ==> after.saved@[h] == before.saved@[h]
    &&& forall|h: u32| #[trigger]
        after.loaded@.contains_key(h) ==> kept(
            after.loaded@[h],
            before.loaded@[h],
            unbinds(s, h, n),
            spends(s, h, auth_handles, n),
        )
}

/// Take what a kept session gave away.
fn keep_session(store: &mut SessionStore, handle: u32, unbound: bool, spent: bool)
    requires
        old(store).wf(),
    ensures
        final(store).wf(),
        *final(store) == (SessionStore { loaded: final(store).loaded, ..*old(store) }),
        if old(store).loaded@.contains_key(handle) {
            &&& final(store).loaded@ == old(store).loaded@.insert(
                handle,
                final(store).loaded@[handle],
            )
            &&& kept(
                final(store).loaded@[handle],
                old(store).loaded@[handle],
                unbound,
                spent,
            )
        } else {
            *final(store) == *old(store)
        },
{
    if let Ok(s) = store.get_mut(handle) {
        if unbound {
            s.bind = rh::NULL;
            s.bind_name = Vec::new();
        }
        if spent && s.is_policy() {
            s.restart_policy();
        }
    }
}

/// One authorization more is done with.
pub open spec fn closes(
    now: SessionStore,
    earlier: SessionStore,
    input: AuthView,
    authorizes: bool,
) -> bool {
    let h = input.handle;
    if h == rh::RS_PW {
        now == earlier
    } else if !input.attributes.has(SessionAttributes::CONTINUE_SESSION) {
        &&& now.counter == earlier.counter
        &&& now.loaded@ == earlier.loaded@.remove(h)
        &&& now.saved@ == earlier.saved@.remove(h)
    } else {
        &&& now == (SessionStore { loaded: now.loaded, ..earlier })
        &&& if earlier.loaded@.contains_key(h) {
            &&& now.loaded@ == earlier.loaded@.insert(h, now.loaded@[h])
            &&& kept(
                now.loaded@[h],
                earlier.loaded@[h],
                input.attributes.has(SessionAttributes::AUDIT),
                authorizes,
            )
        } else {
            now == earlier
        }
    }
}

proof fn lemma_closed_step(
    now: SessionStore,
    earlier: SessionStore,
    store: SessionStore,
    s: Seq<AuthView>,
    count: int,
    i: int,
)
    requires
        store.wf(),
        0 <= i < s.len(),
        sessions_closed(earlier, store, s, count, i as nat),
        closes(now, earlier, s[i], i < count),
    ensures
        sessions_closed(now, store, s, count, (i + 1) as nat),
{
    reveal(SessionStore::wf);
    let n = (i + 1) as nat;
    assert forall|h: u32| #[trigger] now.loaded@.contains_key(h) <==> store.loaded@.contains_key(h)
        && !released(s, h, n) by {
        assert(earlier.loaded@.contains_key(h) <==> store.loaded@.contains_key(h) && !released(
            s,
            h,
            i as nat,
        ));
    }
    assert forall|h: u32| #[trigger] now.saved@.contains_key(h) <==> store.saved@.contains_key(h)
        && !released(s, h, n) by {
        assert(earlier.saved@.contains_key(h) <==> store.saved@.contains_key(h) && !released(
            s,
            h,
            i as nat,
        ));
    }
    assert forall|h: u32| #[trigger] now.saved@.contains_key(h) implies now.saved@[h]
        == store.saved@[h] by {
        assert(earlier.saved@.contains_key(h));
    }
    assert forall|h: u32| #[trigger] now.loaded@.contains_key(h) implies kept(
        now.loaded@[h],
        store.loaded@[h],
        unbinds(s, h, n),
        spends(s, h, count, n),
    ) by {
        assert(earlier.loaded@.contains_key(h));
        assert(store.loaded@.contains_key(h));
        assert(h != rh::RS_PW);
        assert(kept(
            earlier.loaded@[h],
            store.loaded@[h],
            unbinds(s, h, i as nat),
            spends(s, h, count, i as nat),
        ));
        assert(unbinds(s, h, n) == (unbinds(s, h, i as nat) || (s[i].handle == h
            && s[i].attributes.has(SessionAttributes::CONTINUE_SESSION) && s[i].attributes.has(
            SessionAttributes::AUDIT,
        ))));
        assert(spends(s, h, count, n) == (spends(s, h, count, i as nat) || (s[i].handle == h
            && s[i].attributes.has(SessionAttributes::CONTINUE_SESSION) && i < count)));
    }
}

/// Close every session the caller did not ask to keep.
///
/// A policy that is kept starts again, so that one satisfied policy does not
/// authorize any number of later commands. A session that audited is no longer
/// bound from the next command on.
pub fn close_sessions(state: &mut TpmState, request: &Request)
    requires
        old(state).wf(),
    ensures
        final(state).wf(),
        *final(state) == (TpmState {
            sessions: final(state).sessions,
            audit: Audit {
                exclusive_session: if released(
                    request@.sessions,
                    old(state).audit.exclusive_session,
                    request@.sessions.len(),
                ) {
                    rh::UNASSIGNED
                } else {
                    old(state).audit.exclusive_session
                },
                ..old(state).audit
            },
            ..*old(state)
        }),
        sessions_closed(
            final(state).sessions,
            old(state).sessions,
            request@.sessions,
            request.info.auth_handles as int,
            request@.sessions.len(),
        ),
{
    let ghost s = request@.sessions;
    let ghost store = state.sessions;
    let count: usize = request.info.auth_handles;
    let exclusive: u32 = state.audit.exclusive_session;
    let mut i: usize = 0;
    while i < request.sessions.len()
        invariant
            i <= request.sessions@.len(),
            s == request@.sessions,
            s.len() == request.sessions@.len(),
            store == old(state).sessions,
            store.wf(),
            count == request.info.auth_handles,
            exclusive == old(state).audit.exclusive_session,
            state.wf(),
            *state == (TpmState {
                sessions: state.sessions,
                audit: Audit {
                    exclusive_session: if released(s, exclusive, i as nat) {
                        rh::UNASSIGNED
                    } else {
                        exclusive
                    },
                    ..old(state).audit
                },
                ..*old(state)
            }),
            sessions_closed(state.sessions, store, s, count as int, i as nat),
        decreases request.sessions@.len() - i,
    {
        let input: &SessionInput = &request.sessions[i];
        assert(s[i as int] == input@);
        assert(i < request.sessions.len());
        let ghost earlier = state.sessions;
        let goes_on: bool = input.attributes.has(SessionAttributes::CONTINUE_SESSION);
        if input.handle != rh::RS_PW {
            if !goes_on {
                let _ = state.sessions.remove(input.handle);
                assert(state.sessions.loaded@ =~= earlier.loaded@.remove(input.handle));
                assert(state.sessions.saved@ =~= earlier.saved@.remove(input.handle));
                if state.audit.exclusive_session == input.handle {
                    state.audit.exclusive_session = rh::UNASSIGNED;
                }
            } else {
                let unbound: bool = input.attributes.has(SessionAttributes::AUDIT);
                let spent: bool = i < count;
                keep_session(&mut state.sessions, input.handle, unbound, spent);
            }
        }
        proof {
            lemma_closed_step(state.sessions, earlier, store, s, count as int, i as int);
        }
        i = i + 1;
    }
}

} // verus!
