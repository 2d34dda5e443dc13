//! The execution of a command: from a command buffer to a response buffer.

use vstd::prelude::*;

use super::authorize::{
    bystander_check, check_authorization, check_unauthorized_session, hmac_judgement, judged_state,
    judgement, outcome, password_judgement, pin_check, session_judgement, Judgement,
};
use super::dispatch::{
    entity, entity_of, parse, reports_failure, request_of, Entity, EntityView, Request, RequestView,
    Response,
};
use super::gate::{gate_result, let_in, may_write_nv};
use super::parameters::{decrypt_parameters, decrypted, encrypt_parameters, encrypted};
use super::sessions::{
    answers, audit_check, build_response_sessions, check_audit_session, close_sessions,
    command_audited, released, roll_response_nonces, rolled, session_audited, sessions_closed,
    store_moved, update_audit, AuthContext,
};
use super::{ran, run_command};
use crate::tpm::constants::{alg, cc, rc, rh, st};
use crate::tpm::crypto::rand::Rng;
use crate::tpm::device::{error_octets, error_response, header_of, parse_header};
use crate::tpm::engine::nv::NvIndex;
use crate::tpm::engine::nv_store::NvStore;
use crate::tpm::engine::object::ObjectSlots;
use crate::tpm::engine::session::{cp_hash, cp_hash_of};
use crate::tpm::engine::snapshot::alike;
use crate::tpm::engine::state::{Audit, TpmState};
use crate::tpm::error::{TpmRc, TpmResult};
use crate::tpm::engine::handle_map::Copied;
use crate::tpm::marshal::Writer;
use crate::tpm::structures::nv::{NvPublic, NvPublicView};
use crate::util::bytes::{
    be16, be32, lemma_be16, lemma_octets16, lemma_octets32, octets16, octets32, to_vec,
};

verus! {

/// What a failed check of a command that already ran is reported as.
pub const CONDITIONAL_TEST: [u8; 21] = [
    0x63, 0x6f, 0x6e, 0x64, 0x69, 0x74, 0x69, 0x6f, 0x6e, 0x61, 0x6c, 0x20, 0x73, 0x65, 0x6c, 0x66,
    0x20, 0x74, 0x65, 0x73, 0x74,
];

/// What an authorization is judged by: the entity and the cpHash.
pub open spec fn auth_ready(
    state: TpmState,
    req: RequestView,
    names: Seq<Vec<u8>>,
    i: int,
) -> TpmResult<(EntityView, Seq<u8>)> {
    if i >= req.sessions.len() {
        Err(TpmRc(rc::AUTH_MISSING).for_session(i + 1))
    } else {
        match req.handle(i) {
            Err(e) => Err(e),
            Ok(h) => match entity_of(state, h) {
                Err(e) => Err(e.for_handle(i + 1)),
                Ok(e) => {
                    let session = req.sessions[i].handle;
                    if session == rh::RS_PW {
                        Ok((e, cp_hash_of(alg::SHA256, req.code, names, req.parameters)))
                    } else if !state.sessions.loaded@.contains_key(session) {
                        Err(TpmRc(rc::HANDLE))
                    } else {
                        let hash = state.sessions.loaded@[session].auth_hash;
                        Ok((e, cp_hash_of(hash, req.code, names, req.parameters)))
                    }
                },
            },
        }
    }
}

/// Authorization `i` was accepted in state `before` and left `after`.
pub open spec fn accepts(
    after: TpmState,
    before: TpmState,
    req: RequestView,
    names: Seq<Vec<u8>>,
    i: int,
    used: AuthContext,
) -> bool {
    match auth_ready(before, req, names, i) {
        Err(_) => false,
        Ok((e, cp)) => {
            let j = judgement(before, req, i, e, cp);
            &&& judged_state(after, before, j)
            &&& outcome(j, i + 1) is Ok
            &&& used.name@ == e.name
            &&& used.auth@ == e.auth
        },
    }
}

/// Authorization `i` was refused in state `before` and left `after`.
pub open spec fn refuses(
    after: TpmState,
    before: TpmState,
    req: RequestView,
    names: Seq<Vec<u8>>,
    i: int,
    error: TpmRc,
) -> bool {
    match auth_ready(before, req, names, i) {
        Err(e) => error == e && after == before,
        Ok((e, cp)) => {
            let j = judgement(before, req, i, e, cp);
            &&& judged_state(after, before, j)
            &&& outcome(j, i + 1) == Err::<(), TpmRc>(error)
        },
    }
}

/// The first `n` authorizations were accepted one after the other.
pub open spec fn authorized(
    after: TpmState,
    before: TpmState,
    req: RequestView,
    names: Seq<Vec<u8>>,
    used: Seq<AuthContext>,
    n: nat,
) -> bool
    decreases n,
{
    if n == 0 {
        after == before && used.len() == 0
    } else {
        used.len() == n && exists|mid: TpmState|
            authorized(mid, before, req, names, used.drop_last(), (n - 1) as nat)
                && #[trigger] accepts(after, mid, req, names, n - 1, used.last())
    }
}

/// One of the authorizations was refused after those before it were accepted.
pub open spec fn unauthorized(
    after: TpmState,
    before: TpmState,
    req: RequestView,
    names: Seq<Vec<u8>>,
    error: TpmRc,
) -> bool {
    exists|mid: TpmState, used: Seq<AuthContext>, n: nat|
        n < req.info.auth_handles && #[trigger] authorized(mid, before, req, names, used, n)
            && refuses(after, mid, req, names, n as int, error)
}

/// What a state may differ in after a command was refused: the dictionary
/// attack counters and the counters of PIN Indices.
pub open spec fn counters_only(after: TpmState, before: TpmState) -> bool {
    &&& after == (TpmState { nv: after.nv, lockout: after.lockout, ..before })
    &&& counts_only(after.nv, before.nv)
}

/// True when the Indices are the same but for what a PIN Index counts, which is
/// what it holds.
pub open spec fn counts_only(after: NvStore, before: NvStore) -> bool {
    &&& after.indices@.dom() == before.indices@.dom()
    &&& forall|h: u32| #[trigger]
        after.indices@.contains_key(h) ==> count_only(after.indices@[h], before.indices@[h])
}

/// True when an Index is the same but for what it counts.
pub open spec fn count_only(a: NvIndex, b: NvIndex) -> bool {
    a == (NvIndex {
        data: a.data,
        public: NvPublic { attributes: a.public.attributes, ..b.public },
        ..b
    })
}

proof fn lemma_judged(
    after: TpmState,
    before: TpmState,
    req: RequestView,
    i: int,
    e: EntityView,
    cp: Seq<u8>,
)
    requires
        judged_state(after, before, judgement(before, req, i, e, cp)),
    ensures
        counters_only(after, before),
        after.sessions == before.sessions,
{
    reveal(judged_state);
    reveal(session_judgement);
    reveal(hmac_judgement);
    reveal(password_judgement);
    let j = judgement(before, req, i, e, cp);
    if let Judgement::Judged { accepted, pin: Some(h), .. } = j {
        assert(pin_check(before, Some(h)) is Ok);
        assert(after.nv.indices@.dom() =~= before.nv.indices@.dom());
    }
}

/// Check one authorization and note what it used.
fn authorize_one(
    state: &mut TpmState,
    request: &Request,
    names: &[Vec<u8>],
    i: usize,
) -> (r: TpmResult<AuthContext>)
    requires
        old(state).wf(),
        i < 7,
    ensures
        final(state).wf(),
        counters_only(*final(state), *old(state)),
        match r {
            Ok(used) => accepts(*final(state), *old(state), request@, names@, i as int, used),
            Err(e) => refuses(*final(state), *old(state), request@, names@, i as int, e),
        },
{
    if i >= request.sessions.len() {
        return Err(TpmRc(rc::AUTH_MISSING).with_session(i + 1));
    }
    assert(request@.sessions[i as int] == request.sessions@[i as int]@);
    let handle: u32 = request.handle(i)?;
    let e: Entity = match entity(state, handle) {
        Ok(e) => e,
        Err(e) => {
            return Err(e.with_handle(i + 1));
        },
    };
    let session: u32 = request.sessions[i].handle;
    let hash: u16 = if session == rh::RS_PW {
        alg::SHA256
    } else {
        state.sessions.get(session)?.auth_hash
    };
    let cp: Vec<u8> = cp_hash(hash, request.code, names, request.parameters.as_slice())?;
    let ghost before = *state;
    let result: TpmResult<()> = check_authorization(state, request, i, &e, cp.as_slice());
    proof {
        lemma_judged(*state, before, request@, i as int, e@, cp@);
    }
    match result {
        Ok(_) => Ok(
            AuthContext { name: to_vec(e.name.as_slice()), auth: to_vec(e.auth.as_slice()) },
        ),
        Err(err) => Err(err),
    }
}

/// Check every authorization in order.
fn authorize_all(state: &mut TpmState, request: &Request, names: &[Vec<u8>]) -> (r: TpmResult<
    Vec<AuthContext>,
>)
    requires
        old(state).wf(),
        request.info.auth_handles <= 7,
    ensures
        final(state).wf(),
        counters_only(*final(state), *old(state)),
        match r {
            Ok(used) => authorized(
                *final(state),
                *old(state),
                request@,
                names@,
                used@,
                request.info.auth_handles as nat,
            ),
            Err(e) => unauthorized(*final(state), *old(state), request@, names@, e),
        },
{
    let mut used: Vec<AuthContext> = Vec::new();
    assert(used@ =~= Seq::<AuthContext>::empty());
    let mut i: usize = 0;
    while i < request.info.auth_handles
        invariant
            i <= request.info.auth_handles <= 7,
            state.wf(),
            counters_only(*state, *old(state)),
            authorized(*state, *old(state), request@, names@, used@, i as nat),
        decreases request.info.auth_handles - i,
    {
        let ghost mid = *state;
        let ghost before = used@;
        match authorize_one(state, request, names, i) {
            Ok(u) => {
                used.push(u);
                proof {
                    assert(used@.drop_last() =~= before);
                    assert(accepts(*state, mid, request@, names@, i as int, used@.last()));
                }
            },
            Err(e) => {
                assert(authorized(mid, *old(state), request@, names@, before, i as nat));
                return Err(e);
            },
        }
        i = i + 1;
    }
    Ok(used)
}

/// The fault with the sessions from `i` on that authorize nothing: the first
/// one that does not prove its key.
pub open spec fn bystanders_from(
    state: TpmState,
    req: RequestView,
    names: Seq<Vec<u8>>,
    i: int,
) -> TpmResult<()>
    decreases req.sessions.len() - i,
{
    if i >= req.sessions.len() {
        Ok(())
    } else {
        match bystander_check(state, req, i, names) {
            Err(e) => Err(e),
            Ok(_) => bystanders_from(state, req, names, i + 1),
        }
    }
}

fn check_bystanders(state: &TpmState, request: &Request, names: &[Vec<u8>]) -> (r: TpmResult<()>)
    requires
        state.wf(),
    ensures
        r == bystanders_from(*state, request@, names@, request.info.auth_handles as int),
{
    let ghost start = request.info.auth_handles as int;
    let mut i: usize = request.info.auth_handles;
    while i < request.sessions.len()
        invariant
            start == request.info.auth_handles,
            state.wf(),
            request@.sessions.len() == request.sessions@.len(),
            bystanders_from(*state, request@, names@, start) == bystanders_from(
                *state,
                request@,
                names@,
                i as int,
            ),
        decreases request.sessions@.len() - i,
    {
        assert(i < request.sessions.len());
        check_unauthorized_session(state, request, i, names)?;
        i = i + 1;
    }
    Ok(())
}

/// A command that may run.
#[derive(Debug)]
pub struct Prepared {
    /// The command, with its first parameter decrypted where a session asked.
    pub request: Request,
    /// The Names of its handles.
    pub names: Vec<Vec<u8>>,
    /// What each authorization used.
    pub used: Vec<AuthContext>,
    /// The parameters as they arrived.
    pub arrived: Vec<u8>,
}

/// What is settled by the header alone while the TPM is in failure mode.
pub open spec fn failure_check(state: TpmState, command: Seq<u8>) -> TpmResult<()> {
    if !state.failure_mode {
        Ok(())
    } else {
        match header_of(command) {
            Err(e) => Err(e),
            Ok(h) => if reports_failure(h.code) && h.tag == st::NO_SESSIONS {
                Ok(())
            } else {
                Err(TpmRc(rc::FAILURE))
            },
        }
    }
}

/// A command buffer was turned into a command that may run.
pub open spec fn prepares(
    after: TpmState,
    before: TpmState,
    locality: u8,
    command: Seq<u8>,
    p: Prepared,
) -> bool {
    &&& failure_check(before, command) is Ok
    &&& request_of(command, locality) matches Ok(req) && {
        &&& p.request@ == (RequestView { parameters: p.request.parameters@, ..req })
        &&& p.arrived@ == req.parameters
        &&& gate_result(before, req) == Ok::<Seq<Seq<u8>>, TpmRc>(
            p.names@.map_values(|x: Vec<u8>| x@),
        )
        &&& authorized(after, before, req, p.names@, p.used@, req.info.auth_handles as nat)
        &&& ready_to_run(after, req, p)
    }
}

/// The checks that follow the authorizations found nothing wrong.
pub open spec fn ready_to_run(state: TpmState, req: RequestView, p: Prepared) -> bool {
    &&& bystanders_from(state, req, p.names@, req.info.auth_handles as int) is Ok
    &&& audit_check(state, req) is Ok
    &&& exists|values: Seq<Vec<u8>>|
        same_values(values, p.used@) && #[trigger] decrypted(state, req, values) == Ok::<
            Seq<u8>,
            TpmRc,
        >(p.request.parameters@)
}

/// The values are those that were used.
pub open spec fn same_values(values: Seq<Vec<u8>>, used: Seq<AuthContext>) -> bool {
    &&& values.len() == used.len()
    &&& forall|i: int| 0 <= i < used.len() ==> (#[trigger] values[i])@ == used[i].auth@
}

/// A command buffer was refused before the command ran.
pub open spec fn not_prepared(
    after: TpmState,
    before: TpmState,
    locality: u8,
    command: Seq<u8>,
    error: TpmRc,
) -> bool {
    match failure_check(before, command) {
        Err(e) => error == e && after == before,
        Ok(_) => match request_of(command, locality) {
            Err(e) => error == e && after == before,
            Ok(req) => match gate_result(before, req) {
                Err(e) => error == e && after == before,
                Ok(views) => exists|names: Seq<Vec<u8>>|
                    names.map_values(|x: Vec<u8>| x@) == views && #[trigger] late_refused(
                        after,
                        before,
                        req,
                        names,
                        error,
                    ),
            },
        },
    }
}

/// A command was refused by an authorization or by a check that follows them.
pub open spec fn late_refused(
    after: TpmState,
    before: TpmState,
    req: RequestView,
    names: Seq<Vec<u8>>,
    error: TpmRc,
) -> bool {
    ||| unauthorized(after, before, req, names, error)
    ||| exists|used: Seq<AuthContext>|
        #[trigger] authorized(after, before, req, names, used, req.info.auth_handles as nat)
            && refused_late(after, req, names, used, error)
}

/// A check that follows the authorizations refused the command.
pub open spec fn refused_late(
    state: TpmState,
    req: RequestView,
    names: Seq<Vec<u8>>,
    used: Seq<AuthContext>,
    error: TpmRc,
) -> bool {
    match bystanders_from(state, req, names, req.info.auth_handles as int) {
        Err(e) => error == e,
        Ok(_) => match audit_check(state, req) {
            Err(e) => error == e,
            Ok(_) => exists|values: Seq<Vec<u8>>|
                same_values(values, used) && #[trigger] decrypted(state, req, values) == Err::<
                    Seq<u8>,
                    TpmRc,
                >(error),
        },
    }
}

/// Copies of the authorization values that were used.
fn copy_values(used: &[AuthContext]) -> (r: Vec<Vec<u8>>)
    ensures
        same_values(r@, used@),
{
    let mut out: Vec<Vec<u8>> = Vec::new();
    let mut i: usize = 0;
    while i < used.len()
        invariant
            i <= used@.len(),
            out@.len() == i,
            forall|j: int| 0 <= j < i ==> (#[trigger] out@[j])@ == used@[j].auth@,
        decreases used@.len() - i,
    {
        out.push(to_vec(used[i].auth.as_slice()));
        i = i + 1;
    }
    out
}

/// Check that a TPM in failure mode may answer a command.
fn check_failure_mode(state: &TpmState, command: &[u8]) -> (r: TpmResult<()>)
    ensures
        r == failure_check(*state, command@),
{
    if state.failure_mode {
        let header = parse_header(command)?;
        if !super::dispatch::allowed_in_failure_mode(header.code) || header.tag != st::NO_SESSIONS {
            return Err(TpmRc(rc::FAILURE));
        }
    }
    Ok(())
}

/// Authorize a command and decrypt its first parameter.
fn settle_request(
    state: &mut TpmState,
    request: Request,
    names: Vec<Vec<u8>>,
) -> (r: TpmResult<Prepared>)
    requires
        old(state).wf(),
        request@.wf(),
        request.info.auth_handles <= 7,
    ensures
        final(state).wf(),
        counters_only(*final(state), *old(state)),
        match r {
            Ok(p) => {
                &&& p.request@ == (RequestView {
                    parameters: p.request.parameters@,
                    ..request@
                })
                &&& p.arrived@ == request.parameters@
                &&& p.names == names
                &&& authorized(
                    *final(state),
                    *old(state),
                    request@,
                    names@,
                    p.used@,
                    request.info.auth_handles as nat,
                )
                &&& ready_to_run(*final(state), request@, p)
            },
            Err(e) => late_refused(*final(state), *old(state), request@, names@, e),
        },
{
    let used: Vec<AuthContext> = authorize_all(state, &request, names.as_slice())?;
    check_bystanders(state, &request, names.as_slice())?;
    check_audit_session(state, &request)?;
    let arrived: Vec<u8> = to_vec(request.parameters.as_slice());
    let values: Vec<Vec<u8>> = copy_values(used.as_slice());
    let mut request: Request = request;
    decrypt_parameters(state, &mut request, values.as_slice())?;
    Ok(Prepared { request, names, used, arrived })
}

/// Turn a command buffer into a command that may run.
///
/// A command that is refused leaves the TPM as it was, but for the counters
/// that guard against guessing.
pub fn prepare(state: &mut TpmState, locality: u8, command: &[u8]) -> (r: TpmResult<Prepared>)
    requires
        old(state).wf(),
    ensures
        final(state).wf(),
        counters_only(*final(state), *old(state)),
        match r {
            Ok(p) => prepares(*final(state), *old(state), locality, command@, p)
                && p.request@.wf(),
            Err(e) => not_prepared(*final(state), *old(state), locality, command@, e),
        },
{
    check_failure_mode(state, command)?;
    let request: Request = parse(state, command, locality)?;
    let names: Vec<Vec<u8>> = let_in(state, &request)?;
    settle_request(state, request, names)
}

/// Drop the sequence a command with the flushed attribute completed. Only
/// TPM2_EventSequenceComplete names another handle first.
pub open spec fn flushed_handle(req: RequestView) -> Option<u32> {
    let i = if req.code == cc::EventSequenceComplete {
        1int
    } else {
        0int
    };
    if req.info.flushed && i < req.handles.len() {
        Some(req.handles[i])
    } else {
        None
    }
}

/// The loaded objects once a completed sequence is gone.
pub open spec fn objects_flushed(after: ObjectSlots, before: ObjectSlots, req: RequestView) -> bool {
    match flushed_handle(req) {
        None => after == before,
        Some(h) => after.slots@ == before.slots@.remove(h),
    }
}

fn flush_if_needed(state: &mut TpmState, request: &Request)
    requires
        old(state).wf(),
    ensures
        final(state).wf(),
        *final(state) == (TpmState { objects: final(state).objects, ..*old(state) }),
        objects_flushed(final(state).objects, old(state).objects, request@),
{
    if !request.info.flushed {
        return ;
    }
    let i: usize = if request.code == cc::EventSequenceComplete {
        1
    } else {
        0
    };
    if i < request.handles.len() {
        let h: u32 = request.handles[i];
        let _ = state.objects.remove(h);
        assert(state.objects.slots@ =~= old(state).objects.slots@.remove(h));
    }
}

/// The authorization value that keys the response of the first session.
///
/// A response is keyed by what authorized the command, with two exceptions.
/// TPM2_Clear with lockoutAuth leaves that value empty, and
/// TPM2_HierarchyChangeAuth answers with the new value.
pub open spec fn first_value(state: TpmState, req: RequestView, before: Seq<u8>) -> Seq<u8> {
    if req.code == cc::Clear && req.names(0, rh::LOCKOUT) {
        Seq::empty()
    } else if req.code == cc::HierarchyChangeAuth && req.handle(0) is Ok && entity_of(
        state,
        req.handle(0)->Ok_0,
    ) is Ok {
        entity_of(state, req.handle(0)->Ok_0)->Ok_0.auth
    } else {
        before
    }
}

/// What each session's response is keyed by.
pub open spec fn keyed_by(
    now: Seq<AuthContext>,
    used: Seq<AuthContext>,
    state: TpmState,
    req: RequestView,
) -> bool {
    &&& now.len() == used.len()
    &&& forall|i: int| 0 <= i < used.len() ==> (#[trigger] now[i]).name@ == used[i].name@
    &&& forall|i: int| 1 <= i < used.len() ==> (#[trigger] now[i]).auth@ == used[i].auth@
    &&& used.len() > 0 ==> now[0].auth@ == first_value(state, req, used[0].auth@)
}

fn response_contexts(state: &TpmState, request: &Request, used: &[AuthContext]) -> (r: Vec<
    AuthContext,
>)
    requires
        state.wf(),
    ensures
        keyed_by(r@, used@, *state, request@),
{
    let mut out: Vec<AuthContext> = Vec::new();
    let mut i: usize = 0;
    while i < used.len()
        invariant
            i <= used@.len(),
            state.wf(),
            out@.len() == i,
            forall|j: int| 0 <= j < i ==> (#[trigger] out@[j]).name@ == used@[j].name@,
            forall|j: int| 1 <= j < i ==> (#[trigger] out@[j]).auth@ == used@[j].auth@,
            i > 0 ==> out@[0].auth@ == first_value(*state, request@, used@[0].auth@),
        decreases used@.len() - i,
    {
        let mut auth: Vec<u8> = to_vec(used[i].auth.as_slice());
        if i == 0 {
            if request.code == cc::Clear && request.names(0, rh::LOCKOUT) {
                auth = Vec::new();
                assert(auth@ =~= Seq::<u8>::empty());
            } else if request.code == cc::HierarchyChangeAuth {
                if let Ok(h) = request.handle(0) {
                    if let Ok(e) = entity(state, h) {
                        auth = e.auth;
                    }
                }
            }
        }
        out.push(AuthContext { name: to_vec(used[i].name.as_slice()), auth });
        i = i + 1;
    }
    out
}

/// A response buffer.
pub open spec fn response_octets(
    tag: u16,
    handle: Option<u32>,
    parameters: Seq<u8>,
    area: Seq<u8>,
) -> Seq<u8> {
    let body = (match handle {
        Some(h) => octets32(h),
        None => Seq::empty(),
    }) + (if tag == st::SESSIONS {
        octets32(parameters.len() as u32) + parameters + area
    } else {
        parameters
    });
    octets16(tag) + octets32((10 + body.len()) as u32) + octets32(rc::SUCCESS) + body
}

fn build_response(tag: u16, handle: Option<u32>, parameters: &[u8], area: &[u8]) -> (r: Vec<u8>)
    requires
        parameters@.len() + area@.len() <= 0xFFFF_0000,
    ensures
        r@ == response_octets(tag, handle, parameters@, area@),
{
    let mut body = Writer::new();
    if let Some(h) = handle {
        body.u32(h);
    }
    let ghost lead = body.written();
    if tag == st::SESSIONS {
        body.u32(parameters.len() as u32);
        body.bytes(parameters);
        body.bytes(area);
        assert(body.written() =~= lead + (octets32(parameters@.len() as u32) + parameters@
            + area@));
    } else {
        body.bytes(parameters);
        assert(body.written() =~= lead + parameters@);
    }
    let octets: Vec<u8> = body.into_vec();
    let mut w = Writer::new();
    w.u16(tag);
    w.u32(10 + octets.len() as u32);
    w.u32(rc::SUCCESS);
    w.bytes(octets.as_slice());
    assert(w.written() =~= response_octets(tag, handle, parameters@, area@));
    w.into_vec()
}

/// The state once the nonces of the sessions moved on. A command without
/// sessions has none.
pub open spec fn nonces_rolled(
    after: TpmState,
    before: TpmState,
    req: RequestView,
    nonces: Seq<Vec<u8>>,
) -> bool {
    if req.tag != st::SESSIONS {
        after == before && nonces.len() == 0
    } else {
        let s = req.sessions;
        let all = rolled(before.rng.model(), before.sessions, s, s.len());
        &&& after == (TpmState { sessions: after.sessions, rng: after.rng, ..before })
        &&& after.rng.model() == all.1
        &&& all.0 == Ok::<Seq<Seq<u8>>, TpmRc>(nonces.map_values(|x: Vec<u8>| x@))
        &&& store_moved(after.sessions, before.sessions, s, all.0->Ok_0, s.len())
    }
}

/// The state once the audit digests took a command in.
pub open spec fn audits_updated(
    after: TpmState,
    before: TpmState,
    p: Prepared,
    parameters: Seq<u8>,
) -> bool {
    &&& after == (TpmState { sessions: after.sessions, audit: after.audit, ..before })
    &&& session_audited(
        after.sessions,
        before.sessions,
        p.request@,
        p.names@,
        p.arrived@,
        parameters,
    )
    &&& command_audited(after.audit, before, p.request@, p.names@, p.arrived@, parameters)
}

/// The state once the sessions that are not kept are closed and a completed
/// sequence is gone.
pub open spec fn wound_up(after: TpmState, before: TpmState, req: RequestView) -> bool {
    let s = req.sessions;
    &&& after == (TpmState {
        sessions: after.sessions,
        objects: after.objects,
        audit: Audit {
            exclusive_session: if released(s, before.audit.exclusive_session, s.len()) {
                rh::UNASSIGNED
            } else {
                before.audit.exclusive_session
            },
            ..before.audit
        },
        ..before
    })
    &&& sessions_closed(
        after.sessions,
        before.sessions,
        s,
        req.info.auth_handles as int,
        s.len(),
    )
    &&& objects_flushed(after.objects, before.objects, req)
}

/// The response to a command that ran.
pub open spec fn answered(
    rolled_state: TpmState,
    audited_state: TpmState,
    p: Prepared,
    response: Response,
    nonces: Seq<Vec<u8>>,
    contexts: Seq<AuthContext>,
    values: Seq<Vec<u8>>,
    out: Seq<u8>,
) -> bool {
    let req = p.request@;
    let parameters = encrypted(rolled_state, req, response.parameters@, values);
    &&& same_values(values, p.used@)
    &&& keyed_by(contexts, p.used@, rolled_state, req)
    &&& parameters is Ok
    &&& audits_updated(audited_state, rolled_state, p, parameters->Ok_0)
    &&& {
        let area = area_of(audited_state, req, parameters->Ok_0, nonces, contexts);
        &&& area is Ok
        &&& sendable(parameters->Ok_0, area->Ok_0)
        &&& out == response_octets(req.tag, response.handle, parameters->Ok_0, area->Ok_0)
    }
}

/// The longest parameters, and the longest authorization area, of a response.
pub const MAX_PART: usize = 0x7FFF_0000;

/// True when a response with these parts has a size its header can hold.
pub open spec fn sendable(parameters: Seq<u8>, area: Seq<u8>) -> bool {
    parameters.len() <= MAX_PART && area.len() <= MAX_PART
}

/// The authorization area of a response, nothing when the command carries no
/// sessions.
pub open spec fn area_of(
    state: TpmState,
    req: RequestView,
    parameters: Seq<u8>,
    nonces: Seq<Vec<u8>>,
    contexts: Seq<AuthContext>,
) -> TpmResult<Seq<u8>> {
    if req.tag == st::SESSIONS {
        answers(state, req, rc::SUCCESS, parameters, nonces, contexts, req.sessions.len())
    } else {
        Ok(Seq::empty())
    }
}

/// What follows a command that ran.
#[verifier::opaque]
pub open spec fn completed(
    after: TpmState,
    before: TpmState,
    p: Prepared,
    response: Response,
    out: Seq<u8>,
) -> bool {
    exists|
        rolled_state: TpmState,
        audited_state: TpmState,
        nonces: Seq<Vec<u8>>,
        contexts: Seq<AuthContext>,
        values: Seq<Vec<u8>>,
    |
        nonces_rolled(rolled_state, before, p.request@, nonces) && wound_up(
            after,
            audited_state,
            p.request@,
        ) && #[trigger] answered(
            rolled_state,
            audited_state,
            p,
            response,
            nonces,
            contexts,
            values,
            out,
        )
}

/// The nonces of the sessions could not move on: the generator failed.
pub open spec fn nonces_stuck(after: TpmState, before: TpmState, req: RequestView, e: TpmRc) -> bool {
    let s = req.sessions;
    let all = rolled(before.rng.model(), before.sessions, s, s.len());
    &&& req.tag == st::SESSIONS
    &&& all.0 == Err::<Seq<Seq<u8>>, TpmRc>(e)
    &&& after == (TpmState { sessions: after.sessions, rng: after.rng, ..before })
    &&& after.rng.model() == all.1
}

/// The parameters of the response could not be encrypted.
pub open spec fn not_encrypted(
    rolled_state: TpmState,
    before: TpmState,
    p: Prepared,
    response: Response,
    nonces: Seq<Vec<u8>>,
    values: Seq<Vec<u8>>,
    e: TpmRc,
) -> bool {
    &&& nonces_rolled(rolled_state, before, p.request@, nonces)
    &&& same_values(values, p.used@)
    &&& encrypted(rolled_state, p.request@, response.parameters@, values) == Err::<Seq<u8>, TpmRc>(
        e,
    )
}

/// The authorization area of the response could not be built, or the response
/// is too long.
pub open spec fn not_framed(
    rolled_state: TpmState,
    audited_state: TpmState,
    p: Prepared,
    response: Response,
    nonces: Seq<Vec<u8>>,
    contexts: Seq<AuthContext>,
    values: Seq<Vec<u8>>,
    e: TpmRc,
) -> bool {
    let req = p.request@;
    let parameters = encrypted(rolled_state, req, response.parameters@, values);
    &&& same_values(values, p.used@)
    &&& keyed_by(contexts, p.used@, rolled_state, req)
    &&& parameters is Ok
    &&& audits_updated(audited_state, rolled_state, p, parameters->Ok_0)
    &&& match area_of(audited_state, req, parameters->Ok_0, nonces, contexts) {
        Err(x) => e == x,
        Ok(area) => !sendable(parameters->Ok_0, area) && e == TpmRc(rc::SIZE),
    }
}

/// A command ran, and its response could not be built.
#[verifier::opaque]
pub open spec fn lost(
    after: TpmState,
    before: TpmState,
    p: Prepared,
    response: Response,
    e: TpmRc,
) -> bool {
    ||| nonces_stuck(after, before, p.request@, e)
    ||| exists|nonces: Seq<Vec<u8>>, values: Seq<Vec<u8>>|
        #[trigger] not_encrypted(after, before, p, response, nonces, values, e)
    ||| exists|
        rolled_state: TpmState,
        nonces: Seq<Vec<u8>>,
        contexts: Seq<AuthContext>,
        values: Seq<Vec<u8>>,
    |
        nonces_rolled(rolled_state, before, p.request@, nonces) && #[trigger] not_framed(
            rolled_state,
            after,
            p,
            response,
            nonces,
            contexts,
            values,
            e,
        )
}

/// The nonces of the response, none when the command carries no sessions.
fn next_nonces(state: &mut TpmState, request: &Request) -> (r: TpmResult<Vec<Vec<u8>>>)
    requires
        old(state).wf(),
        request@.wf(),
    ensures
        final(state).wf(),
        match r {
            Ok(v) => nonces_rolled(*final(state), *old(state), request@, v@),
            Err(e) => nonces_stuck(*final(state), *old(state), request@, e),
        },
{
    if request.tag == st::SESSIONS {
        roll_response_nonces(state, request)
    } else {
        Ok(Vec::new())
    }
}

/// The authorization area of the response, nothing when the command carries no
/// sessions.
fn response_area(
    state: &TpmState,
    request: &Request,
    parameters: &[u8],
    nonces: &[Vec<u8>],
    contexts: &[AuthContext],
) -> (r: TpmResult<Vec<u8>>)
    requires
        state.wf(),
    ensures
        match area_of(*state, request@, parameters@, nonces@, contexts@) {
            Ok(v) => r is Ok && r->Ok_0@ == v,
            Err(e) => r is Err && r->Err_0 == e,
        },
{
    if request.tag == st::SESSIONS {
        build_response_sessions(state, request, rc::SUCCESS, parameters, nonces, contexts)
    } else {
        let none: Vec<u8> = Vec::new();
        assert(none@ =~= Seq::<u8>::empty());
        Ok(none)
    }
}

/// Turn what a command produced into a response buffer, and wind the command
/// up.
///
/// The nonces move on first, because the new nonceTPM keys the encryption of
/// the response. The audit digests take the command in once the response is
/// known. A response that would not fit its size field is TPM_RC_SIZE.
pub fn complete(state: &mut TpmState, p: &Prepared, response: &Response) -> (r: TpmResult<Vec<u8>>)
    requires
        old(state).wf(),
        p.request@.wf(),
    ensures
        final(state).wf(),
        match r {
            Ok(v) => completed(*final(state), *old(state), *p, *response, v@),
            Err(e) => lost(*final(state), *old(state), *p, *response, e),
        },
{
    proof {
        reveal(completed);
        reveal(lost);
    }
    let nonces: Vec<Vec<u8>> = next_nonces(state, &p.request)?;
    let ghost rolled_state = *state;
    let contexts: Vec<AuthContext> = response_contexts(state, &p.request, p.used.as_slice());
    let values: Vec<Vec<u8>> = copy_values(p.used.as_slice());
    let mut parameters: Vec<u8> = to_vec(response.parameters.as_slice());
    if let Err(e) = encrypt_parameters(state, &p.request, &mut parameters, values.as_slice()) {
        assert(not_encrypted(*state, *old(state), *p, *response, nonces@, values@, e));
        return Err(e);
    }
    update_audit(
        state,
        &p.request,
        p.names.as_slice(),
        p.arrived.as_slice(),
        parameters.as_slice(),
    )?;
    let ghost audited_state = *state;
    let area: Vec<u8> = match response_area(
        state,
        &p.request,
        parameters.as_slice(),
        nonces.as_slice(),
        contexts.as_slice(),
    ) {
        Ok(area) => area,
        Err(e) => {
            assert(not_framed(
                rolled_state,
                *state,
                *p,
                *response,
                nonces@,
                contexts@,
                values@,
                e,
            ));
            return Err(e);
        },
    };
    if parameters.len() > MAX_PART || area.len() > MAX_PART {
        assert(not_framed(
            rolled_state,
            *state,
            *p,
            *response,
            nonces@,
            contexts@,
            values@,
            TpmRc(rc::SIZE),
        ));
        return Err(TpmRc(rc::SIZE));
    }
    let out: Vec<u8> = build_response(
        p.request.tag,
        response.handle,
        parameters.as_slice(),
        area.as_slice(),
    );
    close_sessions(state, &p.request);
    flush_if_needed(state, &p.request);
    proof {
        assert(wound_up(*state, audited_state, p.request@));
        assert(answered(
            rolled_state,
            audited_state,
            *p,
            *response,
            nonces@,
            contexts@,
            values@,
            out@,
        ));
    }
    Ok(out)
}

/// The state once a command answered TPM_RC_FAILURE: the TPM enters failure
/// mode, so that it produces nothing more it cannot stand for.
pub open spec fn failed(after: TpmState, before: TpmState) -> bool {
    &&& after == (TpmState {
        failure_mode: true,
        self_test_done: false,
        test_failure: after.test_failure,
        ..before
    })
    &&& match before.test_failure {
        Some(_) => after.test_failure == before.test_failure,
        None => after.test_failure is Some && after.test_failure->Some_0@ == CONDITIONAL_TEST@,
    }
}

fn enter_failure_mode(state: &mut TpmState)
    requires
        old(state).wf(),
    ensures
        final(state).wf(),
        failed(*final(state), *old(state)),
{
    state.failure_mode = true;
    state.self_test_done = false;
    if state.test_failure.is_none() {
        state.test_failure = Some(to_vec(CONDITIONAL_TEST.as_slice()));
    }
}

/// Everything is back to what it was in `start`, but for the generator and for
/// what failure mode is about, which are as in `left`.
pub open spec fn undone(after: TpmState, start: TpmState, left: TpmState) -> bool {
    &&& alike(after, start)
    &&& after.rng == left.rng
    &&& after.failure_mode == left.failure_mode
    &&& after.self_test_done == left.self_test_done
    &&& after.test_failure == left.test_failure
}

/// What a command that answered with an error leaves.
pub open spec fn failing(left: TpmState, mid: TpmState, e: TpmRc) -> bool {
    if e.0 == rc::FAILURE {
        failed(left, mid)
    } else {
        left == mid
    }
}

/// Run a command and build its response.
fn try_prepared(state: &mut TpmState, p: &Prepared) -> (r: TpmResult<Vec<u8>>)
    requires
        old(state).wf(),
        p.request@.wf(),
    ensures
        final(state).wf(),
        tried(*final(state), *old(state), *p, r),
{
    proof {
        reveal(tried);
    }
    let ghost start = *state;
    let result: TpmResult<Response> = run_command(state, &p.request);
    let ghost mid = *state;
    assert(ran(mid, start, p.request@, result));
    match result {
        Ok(response) => complete(state, p, &response),
        Err(e) => {
            if e.0 == rc::FAILURE {
                enter_failure_mode(state);
            }
            Err(e)
        },
    }
}

/// A command ran from `start`, and its response was built or was not.
#[verifier::opaque]
pub open spec fn tried(
    left: TpmState,
    start: TpmState,
    p: Prepared,
    r: TpmResult<Vec<u8>>,
) -> bool {
    exists|mid: TpmState, result: TpmResult<Response>|
        #[trigger] ran(mid, start, p.request@, result) && match result {
            Err(e) => r == Err::<Vec<u8>, TpmRc>(e) && failing(left, mid, e),
            Ok(response) => match r {
                Ok(v) => completed(left, mid, p, response, v@),
                Err(e) => lost(left, mid, p, response, e),
            },
        }
}

/// Run a command that may run, and build its response.
///
/// A command that answers TPM_RC_FAILURE puts the TPM in failure mode. One that
/// is not answered with success changes nothing else.
fn run_prepared(state: &mut TpmState, p: &Prepared) -> (r: TpmResult<Vec<u8>>)
    requires
        old(state).wf(),
        p.request@.wf(),
    ensures
        final(state).wf(),
        performed(*final(state), *old(state), *p, r),
{
    state.command_audit_suppressed = false;
    let ghost start = *state;
    let saved: TpmState = state.copy();
    let r: TpmResult<Vec<u8>> = try_prepared(state, p);
    let ghost left = *state;
    assert(tried(left, start, *p, r));
    if r.is_err() {
        state.put_back(saved);
        assert(undone(*state, start, left));
    }
    r
}

/// A command that may run ran, and was answered. Without success it is as if it
/// had not run.
pub open spec fn performed(
    after: TpmState,
    before: TpmState,
    p: Prepared,
    r: TpmResult<Vec<u8>>,
) -> bool {
    let start = TpmState { command_audit_suppressed: false, ..before };
    exists|left: TpmState|
        #[trigger] tried(left, start, p, r) && if r is Ok {
            after == left
        } else {
            undone(after, start, left)
        }
}

/// A command buffer was executed.
pub open spec fn executed(
    after: TpmState,
    before: TpmState,
    locality: u8,
    command: Seq<u8>,
    r: TpmResult<Vec<u8>>,
) -> bool {
    ||| r is Err && not_prepared(after, before, locality, command, r->Err_0)
    ||| exists|mid: TpmState, p: Prepared|
        #[trigger] prepares(mid, before, locality, command, p) && performed(after, mid, p, r)
}

/// Execute one command buffer.
fn execute(state: &mut TpmState, locality: u8, command: &[u8]) -> (r: TpmResult<Vec<u8>>)
    requires
        old(state).wf(),
    ensures
        final(state).wf(),
        executed(*final(state), *old(state), locality, command@, r),
{
    let p: Prepared = prepare(state, locality, command)?;
    let ghost mid = *state;
    assert(prepares(mid, *old(state), locality, command@, p));
    run_prepared(state, &p)
}

/// A command buffer was answered with a response buffer: that of the command,
/// or the one that reports the error.
pub open spec fn responded(
    after: TpmState,
    before: TpmState,
    locality: u8,
    command: Seq<u8>,
    response: Seq<u8>,
) -> bool {
    exists|result: TpmResult<Vec<u8>>|
        #[trigger] executed(after, before, locality, command, result) && response == (
        match result {
            Ok(v) => v@,
            Err(e) => error_octets(e),
        })
}

/// Run one command buffer and produce the response buffer.
pub fn run(state: &mut TpmState, locality: u8, command: &[u8]) -> (r: Vec<u8>)
    requires
        old(state).wf(),
    ensures
        final(state).wf(),
        responded(*final(state), *old(state), locality, command@, r@),
{
    let result: TpmResult<Vec<u8>> = execute(state, locality, command);
    assert(executed(*state, *old(state), locality, command@, result));
    match result {
        Ok(v) => v,
        Err(e) => error_response(e),
    }
}

/// A response without a handle.
pub fn respond(w: Writer) -> (r: TpmResult<Response>)
    ensures
        r is Ok <==> w.good(),
        r matches Ok(a) ==> a.handle is None && a.parameters@ == w.written(),
        r matches Err(e) ==> e == TpmRc(rc::SIZE),
{
    Response::from_writer(w)
}

/// A response that leads with a handle.
pub fn respond_with_handle(handle: u32, w: Writer) -> (r: TpmResult<Response>)
    ensures
        r is Ok <==> w.good(),
        r matches Ok(a) ==> a.handle == Some(handle) && a.parameters@ == w.written(),
        r matches Err(e) ==> e == TpmRc(rc::SIZE),
{
    Response::with_handle(handle, w)
}

proof fn lemma_authorized(
    after: TpmState,
    before: TpmState,
    req: RequestView,
    names: Seq<Vec<u8>>,
    used: Seq<AuthContext>,
    n: nat,
)
    requires
        authorized(after, before, req, names, used, n),
    ensures
        counters_only(after, before),
    decreases n,
{
    if n > 0 {
        let mid = choose|mid: TpmState|
            authorized(mid, before, req, names, used.drop_last(), (n - 1) as nat)
                && #[trigger] accepts(after, mid, req, names, n - 1, used.last());
        lemma_authorized(mid, before, req, names, used.drop_last(), (n - 1) as nat);
        let ready = auth_ready(mid, req, names, n - 1)->Ok_0;
        lemma_judged(after, mid, req, n - 1, ready.0, ready.1);
    }
}

/// A command that is refused before it runs leaves everything as it was but
/// the counters that guard against guessing.
pub proof fn law_a_refused_command_moves_counters_only(
    after: TpmState,
    before: TpmState,
    locality: u8,
    command: Seq<u8>,
    error: TpmRc,
)
    requires
        not_prepared(after, before, locality, command, error),
    ensures
        counters_only(after, before),
{
    if failure_check(before, command) is Ok && request_of(command, locality) is Ok && gate_result(
        before,
        request_of(command, locality)->Ok_0,
    ) is Ok {
        let req = request_of(command, locality)->Ok_0;
        let views = gate_result(before, req)->Ok_0;
        let names = choose|names: Seq<Vec<u8>>|
            names.map_values(|x: Vec<u8>| x@) == views && #[trigger] late_refused(
                after,
                before,
                req,
                names,
                error,
            );
        if unauthorized(after, before, req, names, error) {
            let (mid, used, n) = choose|mid: TpmState, used: Seq<AuthContext>, n: nat|
                n < req.info.auth_handles && #[trigger] authorized(
                    mid,
                    before,
                    req,
                    names,
                    used,
                    n,
                ) && refuses(after, mid, req, names, n as int, error);
            lemma_authorized(mid, before, req, names, used, n);
            if auth_ready(mid, req, names, n as int) is Ok {
                let ready = auth_ready(mid, req, names, n as int)->Ok_0;
                lemma_judged(after, mid, req, n as int, ready.0, ready.1);
            }
        } else {
            let used = choose|used: Seq<AuthContext>|
                #[trigger] authorized(
                    after,
                    before,
                    req,
                    names,
                    used,
                    req.info.auth_handles as nat,
                ) && refused_late(after, req, names, used, error);
            lemma_authorized(after, before, req, names, used, req.info.auth_handles as nat);
        }
    }
}

/// A command that is not answered with success leaves everything as it was, but
/// for the counters that guard against guessing, the generator, and what failure
/// mode is about. It does not matter how far the command came.
pub proof fn law_a_failed_command_leaves_the_tpm_alone(
    after: TpmState,
    before: TpmState,
    locality: u8,
    command: Seq<u8>,
    error: TpmRc,
)
    requires
        executed(after, before, locality, command, Err(error)),
    ensures
        alike(
            after,
            TpmState {
                lockout: after.lockout,
                nv: after.nv,
                command_audit_suppressed: after.command_audit_suppressed,
                ..before
            },
        ),
        after.nv.indices@.dom() == before.nv.indices@.dom(),
        forall|h: u32| #[trigger]
            after.nv.indices@.contains_key(h) ==> same_but_count(
                after.nv.indices@[h],
                before.nv.indices@[h],
            ),
{
    if not_prepared(after, before, locality, command, error) {
        law_a_refused_command_moves_counters_only(after, before, locality, command, error);
    } else {
        let (mid, p) = choose|mid: TpmState, p: Prepared|
            #[trigger] prepares(mid, before, locality, command, p) && performed(
                after,
                mid,
                p,
                Err(error),
            );
        let req = request_of(command, locality)->Ok_0;
        lemma_authorized(mid, before, req, p.names@, p.used@, req.info.auth_handles as nat);
        assert forall|h: u32| #[trigger] after.nv.indices@.contains_key(h) implies same_but_count(
            after.nv.indices@[h],
            before.nv.indices@[h],
        ) by {
            assert(after.nv.indices@[h].same(mid.nv.indices@[h]));
            assert(mid.nv.indices@.dom().contains(h));
            assert(count_only(mid.nv.indices@[h], before.nv.indices@[h]));
        }
    }
}

/// True when an Index holds the same but for what it counts.
pub open spec fn same_but_count(a: NvIndex, b: NvIndex) -> bool {
    &&& a.public@ == (NvPublicView { attributes: a.public@.attributes, ..b.public@ })
    &&& a.auth@ == b.auth@
    &&& a.read_locked == b.read_locked
    &&& a.write_locked == b.write_locked
}

/// A response leads with the tag of its command where it tells of success, and
/// with its own size and the code in every case.
pub proof fn law_a_response_frames_itself(
    after: TpmState,
    before: TpmState,
    locality: u8,
    command: Seq<u8>,
    r: TpmResult<Vec<u8>>,
)
    requires
        executed(after, before, locality, command, r),
    ensures
        ({
            let out = match r {
                Ok(v) => v@,
                Err(e) => error_octets(e),
            };
            &&& out.len() >= 10
            &&& be32(out, 2) == out.len()
            &&& match r {
                Ok(_) => out.take(2) == command.take(2) && be32(out, 6) == rc::SUCCESS,
                Err(e) => be16(out, 0) == error_tag(e) && be32(out, 6) == e.0,
            }
        }),
{
    match r {
        Err(e) => {
            lemma_framed(error_tag(e), e.0, Seq::empty());
            assert(error_octets(e) =~= framed(error_tag(e), e.0, Seq::empty()));
        },
        Ok(v) => {
            let (mid, p) = choose|mid: TpmState, p: Prepared|
                #[trigger] prepares(mid, before, locality, command, p) && performed(
                    after,
                    mid,
                    p,
                    r,
                );
            assert(prepares(mid, before, locality, command, p) && performed(after, mid, p, r));
            lemma_answer_frames(after, mid, p, v);
            lemma_request_tag(command, locality);
        },
    }
}

/// The tag of a response that tells of an error. It has no sessions, and a bad
/// tag is answered with the tag of a response from before there were any.
pub open spec fn error_tag(e: TpmRc) -> u16 {
    if e.0 == rc::BAD_TAG {
        st::RSP_COMMAND
    } else {
        st::NO_SESSIONS
    }
}

proof fn lemma_request_tag(command: Seq<u8>, locality: u8)
    requires
        request_of(command, locality) is Ok,
    ensures
        command.take(2) == octets16(request_of(command, locality)->Ok_0.tag),
{
    reveal(request_of);
    let tag = request_of(command, locality)->Ok_0.tag;
    assert(header_of(command) is Ok);
    assert(tag == be16(command, 0));
    lemma_be16(command[0], command[1]);
    assert(be16(command, 0) == be16(seq![command[0], command[1]], 0));
    assert(command.take(2) =~= seq![command[0], command[1]]);
}

/// A tag, the size of the whole, a code and a body.
pub open spec fn framed(tag: u16, code: u32, body: Seq<u8>) -> Seq<u8> {
    octets16(tag) + octets32((10 + body.len()) as u32) + octets32(code) + body
}

proof fn lemma_framed(tag: u16, code: u32, body: Seq<u8>)
    requires
        body.len() <= 0xFFFF_FFF0,
    ensures
        framed(tag, code, body).len() == 10 + body.len(),
        framed(tag, code, body).take(2) == octets16(tag),
        be16(framed(tag, code, body), 0) == tag,
        be32(framed(tag, code, body), 2) == 10 + body.len(),
        be32(framed(tag, code, body), 6) == code,
{
    let d = framed(tag, code, body);
    let size = (10 + body.len()) as u32;
    lemma_octets16(tag);
    lemma_octets32(size);
    lemma_octets32(code);
    assert(d.take(2) =~= octets16(tag));
    assert(be16(d, 0) == be16(octets16(tag), 0));
    assert(be32(d, 2) == be32(octets32(size), 0));
    assert(be32(d, 6) == be32(octets32(code), 0));
}

proof fn lemma_answer_frames(after: TpmState, before: TpmState, p: Prepared, v: Vec<u8>)
    requires
        performed(after, before, p, Ok(v)),
    ensures
        v@.len() >= 10,
        v@.take(2) == octets16(p.request@.tag),
        be16(v@, 0) == p.request@.tag,
        be32(v@, 2) == v@.len(),
        be32(v@, 6) == rc::SUCCESS,
{
    reveal(tried);
    reveal(completed);
    let start = TpmState { command_audit_suppressed: false, ..before };
    let left = choose|left: TpmState| #[trigger]
        tried(left, start, p, Ok::<Vec<u8>, TpmRc>(v)) && after == left;
    let (mid, result) = choose|mid: TpmState, result: TpmResult<Response>|
        #[trigger] ran(mid, start, p.request@, result) && match result {
            Err(e) => false,
            Ok(response) => completed(left, mid, p, response, v@),
        };
    let response = result->Ok_0;
    let (rolled_state, audited_state, nonces, contexts, values) = choose|
        rolled_state: TpmState,
        audited_state: TpmState,
        nonces: Seq<Vec<u8>>,
        contexts: Seq<AuthContext>,
        values: Seq<Vec<u8>>,
    |
        nonces_rolled(rolled_state, mid, p.request@, nonces) && wound_up(
            left,
            audited_state,
            p.request@,
        ) && #[trigger] answered(
            rolled_state,
            audited_state,
            p,
            response,
            nonces,
            contexts,
            values,
            v@,
        );
    let req = p.request@;
    let parameters = encrypted(rolled_state, req, response.parameters@, values)->Ok_0;
    let area = area_of(audited_state, req, parameters, nonces, contexts)->Ok_0;
    let lead = match response.handle {
        Some(h) => octets32(h),
        None => Seq::empty(),
    };
    let body = lead + (if req.tag == st::SESSIONS {
        octets32(parameters.len() as u32) + parameters + area
    } else {
        parameters
    });
    lemma_framed(req.tag, rc::SUCCESS, body);
    assert(v@ == framed(req.tag, rc::SUCCESS, body));
}

/// Before TPM2_Startup no other command runs, and afterwards TPM2_Startup does
/// not run again.
pub proof fn law_startup_comes_first_and_once(state: TpmState, req: RequestView)
    requires
        state.started == (req.code == cc::Startup),
        !may_write_nv(req) || (state.nv_available && !state.nv_write_failed),
    ensures
        gate_result(state, req) == Err::<Seq<Seq<u8>>, TpmRc>(TpmRc(rc::INITIALIZE)),
{
    reveal(gate_result);
}

/// A TPM in failure mode answers only the commands that report the failure.
pub proof fn law_failure_mode_answers_reports_only(
    state: TpmState,
    command: Seq<u8>,
)
    requires
        state.failure_mode,
        header_of(command) matches Ok(h) && !(reports_failure(h.code) && h.tag == st::NO_SESSIONS),
    ensures
        failure_check(state, command) == Err::<(), TpmRc>(TpmRc(rc::FAILURE)),
{
}

} // verus!
