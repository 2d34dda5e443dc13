//! Commands taken apart, and the entities their handles name.

use vstd::prelude::*;

use super::table::{found, lookup, CommandInfo};
use crate::tpm::config;
use crate::tpm::constants::range::{is_nv, is_pcr, is_persistent, is_session, is_transient};
use crate::tpm::constants::{alg, cc, rc, rh, se, st};
use crate::tpm::device::{header_of, parse_header};
use crate::tpm::engine::hierarchy::{base_of, is_hierarchy, is_limited};
use crate::tpm::engine::names::{handle_name as own_name, name_is_handle};
use crate::tpm::engine::object::{Object, Slot};
use crate::tpm::engine::state::{persistent_wf, TpmState};
use crate::tpm::error::{TpmRc, TpmResult};
use crate::tpm::marshal::{Reader, Writer};
use crate::tpm::structures::attributes::{
    NvAttributes, ObjectAttributes, SessionAttributes, StartupClearAttributes,
};
use crate::tpm::structures::auth::{AuthCommand, AuthView};
use crate::tpm::structures::base::TpmtHa;
use crate::tpm::structures::keys::TpmtPublic;
use crate::util::bytes::{be32, octets32, to_vec};

pub use super::authorize::{
    auth_is_policy, auxiliary_nonces, check_authorization, check_unauthorized_session,
    clear_failures, record_failure, record_lockout_failure,
};
pub use super::handles::{allows as handle_allows, kind as handle_kind};
pub use super::parameters::{
    decrypt_parameters, encrypt_parameters, first_sized_parameter, first_sized_parameter_at,
};
pub use super::sessions::{
    audit_session_index, build_response_sessions, check_audit_session, check_session_attributes,
    close_sessions, command_audit_applies, roll_response_nonces, update_audit,
};
pub use crate::tpm::device::HEADER_SIZE;

verus! {

/// One authorization of a command.
#[derive(Debug)]
pub struct SessionInput {
    pub handle: u32,
    pub nonce_caller: Vec<u8>,
    pub attributes: SessionAttributes,
    pub hmac: Vec<u8>,
}

impl View for SessionInput {
    type V = AuthView;

    open spec fn view(&self) -> AuthView {
        AuthView {
            handle: self.handle,
            nonce: self.nonce_caller@,
            attributes: self.attributes,
            hmac: self.hmac@,
        }
    }
}

/// A command taken apart.
#[derive(Debug)]
pub struct Request {
    pub info: CommandInfo,
    pub tag: u16,
    pub code: u32,
    pub handles: Vec<u32>,
    pub sessions: Vec<SessionInput>,
    /// The parameter area, decrypted once a session asked for it.
    pub parameters: Vec<u8>,
    pub locality: u8,
}

/// What a command holds.
#[verifier::ext_equal]
pub struct RequestView {
    pub info: CommandInfo,
    pub tag: u16,
    pub code: u32,
    pub handles: Seq<u32>,
    pub sessions: Seq<AuthView>,
    pub parameters: Seq<u8>,
    pub locality: u8,
}

impl View for Request {
    type V = RequestView;

    open spec fn view(&self) -> RequestView {
        RequestView {
            info: self.info,
            tag: self.tag,
            code: self.code,
            handles: self.handles@,
            sessions: self.sessions@.map_values(|s: SessionInput| s@),
            parameters: self.parameters@,
            locality: self.locality,
        }
    }
}

impl RequestView {
    /// There are no more handles and sessions than a command can have, and
    /// every nonce is one a session can hold.
    pub open spec fn wf(self) -> bool {
        &&& self.handles.len() <= 7
        &&& self.sessions.len() <= 7
        &&& self.info.auth_handles <= 7
        &&& forall|i: int| 0 <= i < self.sessions.len() ==> (#[trigger] self.sessions[i]).nonce.len() <= 64
    }

    /// The handle at `i`, or TPM_RC_VALUE when there are fewer.
    pub open spec fn handle(self, i: int) -> TpmResult<u32> {
        if 0 <= i < self.handles.len() {
            Ok(self.handles[i])
        } else {
            Err(TpmRc(rc::VALUE))
        }
    }

    /// True when handle `i` is there and is `h`.
    pub open spec fn names(self, i: int, h: u32) -> bool {
        0 <= i < self.handles.len() && self.handles[i] == h
    }
}

impl Request {
    /// A reader over the parameter area.
    pub fn reader(&self) -> (r: Reader<'_>)
        ensures
            r.data() == self.parameters@,
            r.at() == 0,
    {
        Reader::new(self.parameters.as_slice())
    }

    /// True when a reader over the parameter area has read every octet.
    pub fn parameters_fully_read(&self, r: &Reader) -> (out: bool)
        requires
            r.data() == self.parameters@,
        ensures
            out == (r.at() == self.parameters@.len()),
    {
        r.is_empty()
    }

    /// Refuse a parameter area that holds more than a command reads.
    ///
    /// Every command calls this once it has read its parameters and before it
    /// changes anything, so surplus octets leave the TPM as it was.
    pub fn end_of_parameters(&self, r: &Reader) -> (out: TpmResult<()>)
        requires
            r.data() == self.parameters@,
        ensures
            out is Ok <==> r.at() == self.parameters@.len(),
            out matches Err(e) ==> e == TpmRc(rc::SIZE),
    {
        if self.parameters_fully_read(r) {
            Ok(())
        } else {
            Err(TpmRc(rc::SIZE))
        }
    }

    /// The handle at `index`, or TPM_RC_VALUE when there are fewer.
    pub fn handle(&self, index: usize) -> (r: TpmResult<u32>)
        ensures
            r == self@.handle(index as int),
    {
        if index < self.handles.len() {
            Ok(self.handles[index])
        } else {
            Err(TpmRc(rc::VALUE))
        }
    }

    /// True when the handle at `index` is there and is `h`.
    pub fn names(&self, index: usize, h: u32) -> (r: bool)
        ensures
            r == self@.names(index as int, h),
    {
        index < self.handles.len() && self.handles[index] == h
    }
}

/// What a command produces.
#[derive(Debug)]
pub struct Response {
    /// The handle that leads the response, when the command returns one.
    pub handle: Option<u32>,
    /// The response parameters.
    pub parameters: Vec<u8>,
}

impl Response {
    /// No handle and no parameters.
    pub fn empty() -> (r: Response)
        ensures
            r.handle is None,
            r.parameters@ == Seq::<u8>::empty(),
    {
        let parameters: Vec<u8> = Vec::new();
        assert(parameters@ =~= Seq::<u8>::empty());
        Response { handle: None, parameters }
    }

    /// Parameters without a handle.
    pub fn from_writer(w: Writer) -> (r: TpmResult<Response>)
        ensures
            r is Ok <==> w.good(),
            r matches Ok(a) ==> a.handle is None && a.parameters@ == w.written(),
            r matches Err(e) ==> e == TpmRc(rc::SIZE),
    {
        let parameters: Vec<u8> = w.finish()?;
        Ok(Response { handle: None, parameters })
    }

    /// Parameters behind a handle.
    pub fn with_handle(handle: u32, w: Writer) -> (r: TpmResult<Response>)
        ensures
            r is Ok <==> w.good(),
            r matches Ok(a) ==> a.handle == Some(handle) && a.parameters@ == w.written(),
            r matches Err(e) ==> e == TpmRc(rc::SIZE),
    {
        let parameters: Vec<u8> = w.finish()?;
        Ok(Response { handle: Some(handle), parameters })
    }
}

/// `n` handles from `at` on.
pub open spec fn handles_at(d: Seq<u8>, at: int, n: nat) -> Seq<u32> {
    Seq::new(n, |i: int| be32(d, at + 4 * i))
}

/// The sessions of a session area from `at` on, when `n` came before.
pub open spec fn sessions_from(d: Seq<u8>, at: int, n: nat) -> TpmResult<Seq<AuthView>>
    decreases 4 - n,
{
    if at >= d.len() {
        Ok(Seq::empty())
    } else if n >= config::MAX_SESSION_NUM {
        Err(TpmRc(rc::AUTHSIZE))
    } else {
        match AuthView::parse(d, at) {
            Err(e) => Err(e),
            Ok((a, next)) => match sessions_from(d, next, n + 1) {
                Err(e) => Err(e),
                Ok(rest) => Ok(seq![a] + rest),
            },
        }
    }
}

/// True for the commands whose tag has to be TPM_ST_NO_SESSIONS.
pub open spec fn without_sessions(code: u32) -> bool {
    code == cc::ContextSave || code == cc::ContextLoad || code == cc::FlushContext || code
        == cc::Startup
}

/// True for the commands whose tag has to be TPM_ST_NO_SESSIONS.
///
/// They can carry no audit session, so the current exclusive audit session is
/// left alone when one of them runs.
pub fn requires_no_sessions(code: u32) -> (r: bool)
    ensures
        r == without_sessions(code),
{
    code == cc::ContextSave || code == cc::ContextLoad || code == cc::FlushContext || code
        == cc::Startup
}

/// The session area at `at`, and where the parameters start.
pub open spec fn session_area(buf: Seq<u8>, at: int) -> TpmResult<(Seq<AuthView>, int)> {
    if at + 4 > buf.len() {
        Err(TpmRc(rc::INSUFFICIENT))
    } else if be32(buf, at) < 9 || at + 4 + be32(buf, at) > buf.len() {
        Err(TpmRc(rc::AUTHSIZE))
    } else {
        let end = at + 4 + be32(buf, at);
        match sessions_from(buf.subrange(at + 4, end), 0, 0) {
            Err(e) => Err(e),
            Ok(s) => Ok((s, end)),
        }
    }
}

/// What a command buffer holds.
#[verifier::opaque]
pub open spec fn request_of(buf: Seq<u8>, locality: u8) -> TpmResult<RequestView> {
    match header_of(buf) {
        Err(e) => Err(e),
        Ok(header) => match found(header.code) {
            None => Err(TpmRc(rc::COMMAND_CODE)),
            Some(info) => {
                let at = 10 + 4 * info.handles;
                if at > buf.len() {
                    Err(TpmRc(rc::INSUFFICIENT))
                } else {
                    let handles = handles_at(buf, 10, info.handles as nat);
                    if header.tag == st::SESSIONS {
                        if without_sessions(header.code) {
                            Err(TpmRc(rc::AUTH_CONTEXT))
                        } else {
                            match session_area(buf, at) {
                                Err(e) => Err(e),
                                Ok((sessions, start)) => Ok(
                                    RequestView {
                                        info,
                                        tag: header.tag,
                                        code: header.code,
                                        handles,
                                        sessions,
                                        parameters: buf.skip(start),
                                        locality,
                                    },
                                ),
                            }
                        }
                    } else if info.auth_handles > 0 {
                        Err(TpmRc(rc::AUTH_MISSING))
                    } else {
                        Ok(
                            RequestView {
                                info,
                                tag: header.tag,
                                code: header.code,
                                handles,
                                sessions: Seq::empty(),
                                parameters: buf.skip(at),
                                locality,
                            },
                        )
                    }
                }
            },
        },
    }
}

/// Read a session area.
fn parse_sessions(d: &[u8]) -> (r: TpmResult<Vec<SessionInput>>)
    ensures
        match sessions_from(d@, 0, 0) {
            Ok(v) => r is Ok && r->Ok_0@.map_values(|s: SessionInput| s@) == v,
            Err(e) => r is Err && r->Err_0 == e,
        },
        r matches Ok(v) ==> v@.len() <= 3 && forall|i: int|
            0 <= i < v@.len() ==> (#[trigger] v@[i]).nonce_caller@.len() <= 64,
{
    let mut r = Reader::new(d);
    let mut out: Vec<SessionInput> = Vec::new();
    let ghost whole = sessions_from(d@, 0, 0);
    let ghost f = |s: SessionInput| s@;
    proof {
        if whole is Ok {
            assert(out@.map_values(f) + whole->Ok_0 =~= whole->Ok_0);
        }
    }
    while !r.is_empty()
        invariant
            r.data() == d@,
            0 <= r.at() <= d@.len(),
            out@.len() <= 3,
            f == (|s: SessionInput| s@),
            whole == sessions_from(d@, 0, 0),
            forall|i: int| 0 <= i < out@.len() ==> (#[trigger] out@[i]).nonce_caller@.len() <= 64,
            match sessions_from(d@, r.at(), out@.len()) {
                Ok(rest) => whole == Ok::<Seq<AuthView>, TpmRc>(out@.map_values(f) + rest),
                Err(e) => whole == Err::<Seq<AuthView>, TpmRc>(e),
            },
        decreases 4 - out@.len(),
    {
        if out.len() >= config::MAX_SESSION_NUM {
            return Err(TpmRc(rc::AUTHSIZE));
        }
        let ghost before = out@;
        let ghost at = r.at();
        let a: AuthCommand = match AuthCommand::unmarshal(&mut r) {
            Ok(a) => a,
            Err(e) => {
                return Err(e);
            },
        };
        let input = SessionInput {
            handle: a.session_handle,
            nonce_caller: a.nonce.to_vec(),
            attributes: a.session_attributes,
            hmac: a.hmac.to_vec(),
        };
        out.push(input);
        proof {
            assert(input@ == a@);
            assert(out@.map_values(f) =~= before.map_values(f).push(a@));
            match sessions_from(d@, r.at(), out@.len()) {
                Ok(rest) => {
                    assert(before.map_values(f) + (seq![a@] + rest) =~= out@.map_values(f) + rest);
                },
                Err(_) => {},
            }
        }
    }
    proof {
        let rest = sessions_from(d@, r.at(), out@.len())->Ok_0;
        assert(out@.map_values(f) + rest =~= out@.map_values(f));
    }
    Ok(out)
}

/// Take a command buffer apart.
///
/// The parameters are as they arrived. One that a session encrypted is
/// decrypted once the sessions are known.
pub fn parse(_state: &TpmState, buf: &[u8], locality: u8) -> (r: TpmResult<Request>)
    ensures
        match request_of(buf@, locality) {
            Ok(v) => r is Ok && r->Ok_0@ == v && v.wf(),
            Err(e) => r is Err && r->Err_0 == e,
        },
{
    proof {
        reveal(request_of);
    }
    let header = parse_header(buf)?;
    let info: CommandInfo = match lookup(header.code) {
        Some(i) => i,
        None => {
            return Err(TpmRc(rc::COMMAND_CODE));
        },
    };
    let mut r = Reader::new(buf);
    let _ = r.take(HEADER_SIZE)?;
    let mut handles: Vec<u32> = Vec::new();
    let mut i: usize = 0;
    while i < info.handles
        invariant
            i <= info.handles,
            r.data() == buf@,
            r.at() == 10 + 4 * i,
            r.at() <= buf@.len(),
            handles@.len() == i,
            header_of(buf@) == Ok::<crate::tpm::device::Header, TpmRc>(header),
            info.handles <= 7,
            info.auth_handles <= 7,
            found(header.code) == Some(info),
            forall|j: int| 0 <= j < i ==> #[trigger] handles@[j] == be32(buf@, 10 + 4 * j),
        decreases info.handles - i,
    {
        let h: u32 = match r.u32() {
            Ok(h) => h,
            Err(e) => {
                proof {
                    reveal(request_of);
                }
                return Err(e);
            },
        };
        handles.push(h);
        i = i + 1;
    }
    assert(handles@ =~= handles_at(buf@, 10, info.handles as nat));
    let mut sessions: Vec<SessionInput> = Vec::new();
    assert(sessions@.map_values(|s: SessionInput| s@) =~= Seq::<AuthView>::empty());
    if header.tag == st::SESSIONS {
        if requires_no_sessions(header.code) {
            return Err(TpmRc(rc::AUTH_CONTEXT));
        }
        let size: u32 = r.u32()?;
        if size < 9 || size as usize > r.remaining() {
            return Err(TpmRc(rc::AUTHSIZE));
        }
        let area: Vec<u8> = r.take(size as usize)?;
        sessions = parse_sessions(area.as_slice())?;
    } else if info.auth_handles > 0 {
        return Err(TpmRc(rc::AUTH_MISSING));
    }
    let ghost start = r.at();
    let parameters: Vec<u8> = r.take_rest();
    assert(parameters@ =~= buf@.skip(start));
    Ok(
        Request {
            info,
            tag: header.tag,
            code: header.code,
            handles,
            sessions,
            parameters,
            locality,
        },
    )
}

/// The Name of what a handle names.
#[verifier::opaque]
pub open spec fn name_of(state: TpmState, handle: u32) -> TpmResult<Seq<u8>> {
    if name_is_handle(handle) {
        Ok(octets32(handle))
    } else if is_transient(handle) {
        if state.objects.slots@.contains_key(handle) {
            Ok(state.objects.slots@[handle].name_of())
        } else {
            Err(TpmRc(rc::HANDLE))
        }
    } else if is_persistent(handle) {
        if state.persistent@.contains_key(handle) {
            Ok(state.persistent@[handle].name@)
        } else {
            Err(TpmRc(rc::HANDLE))
        }
    } else if state.nv.indices@.contains_key(handle) {
        Ok(state.nv.indices@[handle].name_of())
    } else {
        Err(TpmRc(rc::HANDLE))
    }
}

/// The Name of what a handle names, for the cpHash.
pub fn handle_name(state: &TpmState, handle: u32) -> (r: TpmResult<Vec<u8>>)
    requires
        state.wf(),
    ensures
        match name_of(*state, handle) {
            Ok(v) => r is Ok && r->Ok_0@ == v && v.len() <= 68,
            Err(e) => r is Err && r->Err_0 == e,
        },
{
    proof {
        reveal(persistent_wf);
        reveal(name_of);
    }
    if name_is_handle(handle) {
        return Ok(own_name(handle));
    }
    if is_transient(handle) {
        let slot: &Slot = state.objects.get(handle)?;
        return Ok(slot.name());
    }
    if is_persistent(handle) {
        return match state.persistent.get(handle) {
            Some(o) => Ok(to_vec(o.name.as_slice())),
            None => Err(TpmRc(rc::HANDLE)),
        };
    }
    let index = state.nv.get(handle)?;
    Ok(index.name())
}

/// What [`check_session_handles`] answers for the sessions from `i` on.
pub open spec fn session_handles_from(state: TpmState, s: Seq<AuthView>, i: int) -> TpmResult<()>
    decreases s.len() - i,
{
    if i >= s.len() {
        Ok(())
    } else if s[i].handle == rh::RS_PW {
        session_handles_from(state, s, i + 1)
    } else if !is_session(s[i].handle) {
        Err(TpmRc(rc::HANDLE).for_session(i + 1))
    } else if !state.sessions.loaded@.contains_key(s[i].handle) {
        Err(TpmRc((rc::REFERENCE_S0 + i) as u32))
    } else {
        session_handles_from(state, s, i + 1)
    }
}

/// Check every session handle of a command.
///
/// A handle outside both session ranges can never be loaded, so it is an
/// error. One inside them may be swapped out, which the warning
/// TPM_RC_REFERENCE_S0 tells a resource manager. Sessions that authorize
/// nothing are checked as well.
pub fn check_session_handles(state: &TpmState, request: &Request) -> (r: TpmResult<()>)
    requires
        state.wf(),
        request.sessions@.len() <= 7,
    ensures
        r == session_handles_from(*state, request@.sessions, 0),
{
    let mut i: usize = 0;
    while i < request.sessions.len()
        invariant
            i <= request.sessions@.len() <= 7,
            state.wf(),
            session_handles_from(*state, request@.sessions, 0) == session_handles_from(
                *state,
                request@.sessions,
                i as int,
            ),
        decreases request.sessions@.len() - i,
    {
        let handle: u32 = request.sessions[i].handle;
        assert(request@.sessions[i as int].handle == handle);
        if handle != rh::RS_PW {
            if !is_session(handle) {
                return Err(TpmRc(rc::HANDLE).with_session(i + 1));
            }
            if !state.sessions.contains(handle) {
                return Err(TpmRc(rc::REFERENCE_S0 + i as u32));
            }
        }
        i = i + 1;
    }
    Ok(())
}

/// True unless a handle names a transient object or a session that is not in
/// memory.
pub open spec fn present(state: TpmState, handle: u32) -> bool {
    if is_transient(handle) {
        state.objects.slots@.contains_key(handle)
    } else if is_session(handle) {
        state.sessions.loaded@.contains_key(handle)
    } else {
        true
    }
}

/// True unless a handle names a transient object or a session that is not in
/// memory.
///
/// The caller of a command with such a handle is told to load the context and
/// send the command again. Every other kind of handle is judged by the checks
/// that follow.
pub fn handle_is_present(state: &TpmState, handle: u32) -> (r: bool)
    requires
        state.wf(),
    ensures
        r == present(*state, handle),
{
    if is_transient(handle) {
        return state.objects.get(handle).is_ok();
    }
    if is_session(handle) {
        return state.sessions.contains(handle);
    }
    true
}

/// True when an NV Index may be reached: one the platform created while
/// phEnableNV is SET, and any other while shEnable is.
pub open spec fn nv_reachable(state: TpmState, a: NvAttributes) -> bool {
    if a.has(NvAttributes::PLATFORMCREATE) {
        state.hierarchies.platform_nv_enabled
    } else {
        state.hierarchies.owner.enabled
    }
}

fn nv_is_reachable(state: &TpmState, a: NvAttributes) -> (r: bool)
    ensures
        r == nv_reachable(*state, a),
{
    if a.has(NvAttributes::PLATFORMCREATE) {
        state.hierarchies.platform_nv_enabled
    } else {
        state.hierarchies.owner.enabled
    }
}

/// What [`check_handle_available`] answers.
#[verifier::opaque]
pub open spec fn availability(state: TpmState, handle: u32) -> TpmResult<()> {
    if is_limited(handle) || is_hierarchy(handle) {
        if state.hierarchies.is_enabled(handle) {
            Ok(())
        } else {
            Err(TpmRc(rc::HIERARCHY))
        }
    } else if is_persistent(handle) {
        if state.persistent@.contains_key(handle) && !state.hierarchies.is_enabled(
            state.persistent@[handle].hierarchy,
        ) {
            Err(TpmRc(rc::HIERARCHY))
        } else {
            Ok(())
        }
    } else if is_transient(handle) {
        if state.objects.has_object(handle) && !state.hierarchies.is_enabled(
            state.objects.object_at(handle).hierarchy,
        ) {
            Err(TpmRc(rc::HIERARCHY))
        } else {
            Ok(())
        }
    } else if is_nv(handle) {
        if state.nv.indices@.contains_key(handle) && !nv_reachable(
            state,
            state.nv.indices@[handle].public.attributes,
        ) {
            Err(TpmRc(rc::HANDLE))
        } else {
            Ok(())
        }
    } else {
        Ok(())
    }
}

/// Refuse a handle whose hierarchy has been turned off.
///
/// Turning a hierarchy off stops the use of every object of it, loaded or
/// persistent. Turning off the owner hierarchy stops the Indices the owner
/// defined, and phEnableNV those the platform defined. A limited hierarchy is
/// there while its base is.
pub fn check_handle_available(state: &TpmState, handle: u32) -> (r: TpmResult<()>)
    requires
        state.wf(),
    ensures
        r == availability(*state, handle),
{
    proof {
        reveal(persistent_wf);
        reveal(availability);
    }
    if is_limited(handle) || is_hierarchy(handle) {
        if !state.hierarchies.is_enabled(handle) {
            return Err(TpmRc(rc::HIERARCHY));
        }
        return Ok(());
    }
    if is_persistent(handle) {
        if let Some(object) = state.persistent.get(handle) {
            if !state.hierarchies.is_enabled(object.hierarchy) {
                return Err(TpmRc(rc::HIERARCHY));
            }
        }
        return Ok(());
    }
    if is_transient(handle) {
        if let Ok(object) = state.objects.object(handle) {
            if !state.hierarchies.is_enabled(object.hierarchy) {
                return Err(TpmRc(rc::HIERARCHY));
            }
        }
        return Ok(());
    }
    if is_nv(handle) {
        if let Ok(index) = state.nv.get(handle) {
            if !nv_is_reachable(state, index.public.attributes) {
                return Err(TpmRc(rc::HANDLE));
            }
        }
    }
    Ok(())
}

/// The entity an authorization applies to.
#[derive(Debug)]
pub struct Entity {
    pub name: Vec<u8>,
    pub auth: Vec<u8>,
    pub policy: Option<(u16, Vec<u8>)>,
    /// True when authorization failures count against the lockout.
    pub uses_lockout: bool,
    /// True when the entity accepts its authValue for user role actions.
    pub user_with_auth: bool,
    /// The handle of the Index, when this entity is a PIN Index.
    ///
    /// Such an Index has a counter of its own, which an authorization moves.
    pub pin: Option<u32>,
    /// True when an ADMIN role action needs a policy session: always for an
    /// NV Index and for a hierarchy, and for an object when its attributes say
    /// so.
    pub admin_with_policy: bool,
}

/// What an entity is.
#[verifier::ext_equal]
pub struct EntityView {
    pub name: Seq<u8>,
    pub auth: Seq<u8>,
    pub policy: Option<(u16, Seq<u8>)>,
    pub uses_lockout: bool,
    pub user_with_auth: bool,
    pub pin: Option<u32>,
    pub admin_with_policy: bool,
}

impl View for Entity {
    type V = EntityView;

    open spec fn view(&self) -> EntityView {
        EntityView {
            name: self.name@,
            auth: self.auth@,
            policy: match self.policy {
                Some(p) => Some((p.0, p.1@)),
                None => None,
            },
            uses_lockout: self.uses_lockout,
            user_with_auth: self.user_with_auth,
            pin: self.pin,
            admin_with_policy: self.admin_with_policy,
        }
    }
}

/// The policy a TPMT_HA stands for.
pub open spec fn policy_in(p: TpmtHa) -> Option<(u16, Seq<u8>)> {
    if p.hash_alg == alg::NULL || p.digest@.len() == 0 {
        None
    } else {
        Some((p.hash_alg, p.digest@))
    }
}

fn policy_of(p: &TpmtHa) -> (r: Option<(u16, Vec<u8>)>)
    ensures
        match policy_in(*p) {
            Some(v) => r is Some && r->Some_0.0 == v.0 && r->Some_0.1@ == v.1,
            None => r is None,
        },
{
    if p.hash_alg == alg::NULL || p.digest.len() == 0 {
        None
    } else {
        Some((p.hash_alg, to_vec(p.digest.as_slice())))
    }
}

/// The policy of an object.
pub open spec fn policy_in_public(name_alg: u16, policy: Seq<u8>) -> Option<(u16, Seq<u8>)> {
    if policy.len() == 0 {
        None
    } else {
        Some((name_alg, policy))
    }
}

fn object_policy(public: &TpmtPublic) -> (r: Option<(u16, Vec<u8>)>)
    ensures
        match policy_in_public(public.name_alg, public.auth_policy@) {
            Some(v) => r is Some && r->Some_0.0 == v.0 && r->Some_0.1@ == v.1,
            None => r is None,
        },
{
    if public.auth_policy.is_empty() {
        None
    } else {
        Some((public.name_alg, public.auth_policy.to_vec()))
    }
}

/// An entity with an authorization value and a policy of its own, which is
/// exempt from dictionary attack protection.
pub open spec fn plain_entity(
    name: Seq<u8>,
    auth: Seq<u8>,
    policy: Option<(u16, Seq<u8>)>,
) -> EntityView {
    EntityView {
        name,
        auth,
        policy,
        uses_lockout: false,
        user_with_auth: true,
        pin: None,
        admin_with_policy: true,
    }
}

/// The entity an object is.
pub open spec fn object_entity(o: Object) -> EntityView {
    let a = o.public.object_attributes;
    EntityView {
        name: o.name@,
        auth: o.auth_of(),
        policy: policy_in_public(o.public.name_alg, o.public.auth_policy@),
        uses_lockout: !a.has(ObjectAttributes::NO_DA),
        user_with_auth: a.has(ObjectAttributes::USER_WITH_AUTH),
        pin: None,
        admin_with_policy: a.has(ObjectAttributes::ADMIN_WITH_POLICY),
    }
}

/// The entity an NV Index is.
pub open spec fn index_entity(i: crate::tpm::engine::nv::NvIndex) -> EntityView {
    EntityView {
        name: i.name_of(),
        auth: i.auth@,
        policy: policy_in_public(i.public.name_alg, i.public.auth_policy@),
        uses_lockout: !i.public.attributes.has(NvAttributes::NO_DA),
        user_with_auth: true,
        pin: if i.is_pin() {
            Some(i.public.nv_index)
        } else {
            None
        },
        admin_with_policy: true,
    }
}

/// The handle whose authorization a handle takes: its base for a limited
/// hierarchy, and itself otherwise.
pub open spec fn authorizing(handle: u32) -> u32 {
    match base_of(handle) {
        Some(b) => b,
        None => handle,
    }
}

/// What [`entity`] answers.
#[verifier::opaque]
pub open spec fn entity_of(state: TpmState, handle: u32) -> TpmResult<EntityView> {
    match name_of(state, handle) {
        Err(e) => Err(e),
        Ok(name) => if is_hierarchy(authorizing(handle)) {
            let h = state.hierarchies.spec_get(authorizing(handle));
            Ok(plain_entity(name, h.auth@, policy_in(h.policy)))
        } else if handle == rh::LOCKOUT {
            Ok(
                EntityView {
                    uses_lockout: true,
                    ..plain_entity(name, state.lockout_auth@, policy_in(state.lockout_policy))
                },
            )
        } else if rh::ACT_0 <= handle <= rh::ACT_F {
            let on = state.startup_clear.has(StartupClearAttributes::PH_ENABLE);
            Ok(
                EntityView {
                    user_with_auth: on,
                    ..plain_entity(
                        name,
                        if on {
                            state.hierarchies.platform.auth@
                        } else {
                            Seq::empty()
                        },
                        policy_in(state.act.policy),
                    )
                },
            )
        } else if handle == rh::PLATFORM_NV {
            Ok(
                plain_entity(
                    name,
                    state.hierarchies.platform.auth@,
                    policy_in(state.hierarchies.platform.policy),
                ),
            )
        } else if is_pcr(handle) {
            Ok(plain_entity(name, state.pcr_auth@, policy_in(state.pcr_policy)))
        } else if is_transient(handle) {
            match state.objects.slots@[handle] {
                Slot::Object(o) => if o.is_public_only() {
                    Err(TpmRc(rc::AUTH_UNAVAILABLE))
                } else {
                    Ok(object_entity(*o))
                },
                Slot::Sequence(s) => Ok(
                    EntityView {
                        name,
                        auth: s.auth@,
                        policy: None,
                        uses_lockout: false,
                        user_with_auth: true,
                        pin: None,
                        admin_with_policy: false,
                    },
                ),
            }
        } else if is_persistent(handle) {
            let o = state.persistent@[handle];
            if !state.hierarchies.is_enabled(o.hierarchy) {
                Err(TpmRc(rc::HIERARCHY))
            } else if o.is_public_only() {
                Err(TpmRc(rc::AUTH_UNAVAILABLE))
            } else {
                Ok(object_entity(o))
            }
        } else if is_nv(handle) {
            let i = state.nv.indices@[handle];
            if !nv_reachable(state, i.public.attributes) {
                Err(TpmRc(rc::HANDLE))
            } else {
                Ok(index_entity(i))
            }
        } else {
            Err(TpmRc(rc::HANDLE))
        },
    }
}

fn entity_from_object(name: Vec<u8>, o: &Object) -> (r: Entity)
    requires
        name@ == o.name@,
    ensures
        r@ == object_entity(*o),
        r.auth@.len() <= 64,
{
    let a = o.public.object_attributes;
    Entity {
        name,
        auth: o.auth_value(),
        policy: object_policy(&o.public),
        uses_lockout: !a.has(ObjectAttributes::NO_DA),
        user_with_auth: a.has(ObjectAttributes::USER_WITH_AUTH),
        pin: None,
        admin_with_policy: a.has(ObjectAttributes::ADMIN_WITH_POLICY),
    }
}

/// The authorization values of what a handle names.
///
/// A permanent entity is exempt from dictionary attack protection, because its
/// authorization value is expected to be strong or well known. TPM_RH_LOCKOUT
/// alone is protected. An object needs both halves to authorize, because the
/// authorization value lives in the sensitive area.
pub fn entity(state: &TpmState, handle: u32) -> (r: TpmResult<Entity>)
    requires
        state.wf(),
    ensures
        match entity_of(*state, handle) {
            Ok(v) => r is Ok && r->Ok_0@ == v && v.auth.len() <= 64,
            Err(e) => r is Err && r->Err_0 == e,
        },
{
    proof {
        reveal(persistent_wf);
        reveal(name_of);
        reveal(entity_of);
    }
    let name: Vec<u8> = handle_name(state, handle)?;
    let base: u32 = match base_of(handle) {
        Some(b) => b,
        None => handle,
    };
    if is_hierarchy(base) {
        let h = state.hierarchies.get(base);
        return Ok(
            Entity {
                name,
                auth: to_vec(h.auth.as_slice()),
                policy: policy_of(&h.policy),
                uses_lockout: false,
                user_with_auth: true,
                pin: None,
                admin_with_policy: true,
            },
        );
    }
    if handle == rh::LOCKOUT {
        return Ok(
            Entity {
                name,
                auth: to_vec(state.lockout_auth.as_slice()),
                policy: policy_of(&state.lockout_policy),
                uses_lockout: true,
                user_with_auth: true,
                pin: None,
                admin_with_policy: true,
            },
        );
    }
    if rh::ACT_0 <= handle && handle <= rh::ACT_F {
        let on: bool = state.startup_clear.has(StartupClearAttributes::PH_ENABLE);
        let mut auth: Vec<u8> = Vec::new();
        assert(auth@ =~= Seq::<u8>::empty());
        if on {
            auth = to_vec(state.hierarchies.platform.auth.as_slice());
        }
        return Ok(
            Entity {
                name,
                auth,
                policy: policy_of(&state.act.policy),
                uses_lockout: false,
                user_with_auth: on,
                pin: None,
                admin_with_policy: true,
            },
        );
    }
    if handle == rh::PLATFORM_NV {
        return Ok(
            Entity {
                name,
                auth: to_vec(state.hierarchies.platform.auth.as_slice()),
                policy: policy_of(&state.hierarchies.platform.policy),
                uses_lockout: false,
                user_with_auth: true,
                pin: None,
                admin_with_policy: true,
            },
        );
    }
    if is_pcr(handle) {
        return Ok(
            Entity {
                name,
                auth: to_vec(state.pcr_auth.as_slice()),
                policy: policy_of(&state.pcr_policy),
                uses_lockout: false,
                user_with_auth: true,
                pin: None,
                admin_with_policy: true,
            },
        );
    }
    if is_transient(handle) {
        let slot: &Slot = state.objects.get(handle)?;
        return match slot {
            Slot::Object(o) => {
                if o.is_public_only() {
                    return Err(TpmRc(rc::AUTH_UNAVAILABLE));
                }
                Ok(entity_from_object(name, o))
            },
            Slot::Sequence(s) => Ok(
                Entity {
                    name,
                    auth: to_vec(s.auth.as_slice()),
                    policy: None,
                    uses_lockout: false,
                    user_with_auth: true,
                    pin: None,
                    admin_with_policy: false,
                },
            ),
        };
    }
    if is_persistent(handle) {
        return match state.persistent.get(handle) {
            None => Err(TpmRc(rc::HANDLE)),
            Some(o) => {
                if !state.hierarchies.is_enabled(o.hierarchy) {
                    return Err(TpmRc(rc::HIERARCHY));
                }
                if o.is_public_only() {
                    return Err(TpmRc(rc::AUTH_UNAVAILABLE));
                }
                Ok(entity_from_object(name, o))
            },
        };
    }
    if is_nv(handle) {
        let index = state.nv.get(handle)?;
        if !nv_is_reachable(state, index.public.attributes) {
            return Err(TpmRc(rc::HANDLE));
        }
        let policy: Option<(u16, Vec<u8>)> = if index.public.auth_policy.is_empty() {
            None
        } else {
            Some((index.public.name_alg, index.public.auth_policy.to_vec()))
        };
        return Ok(
            Entity {
                name,
                auth: to_vec(index.auth.as_slice()),
                policy,
                uses_lockout: !index.public.attributes.has(NvAttributes::NO_DA),
                user_with_auth: true,
                pin: if index.is_pin() {
                    Some(index.public.nv_index)
                } else {
                    None
                },
                admin_with_policy: true,
            },
        );
    }
    Err(TpmRc(rc::HANDLE))
}

/// True for the one command that may come before TPM2_Startup.
pub fn allowed_before_startup(code: u32) -> (r: bool)
    ensures
        r == (code == cc::Startup),
{
    code == cc::Startup
}

/// True for a command that a TPM in failure mode still accepts: the two that
/// let a caller learn why.
pub open spec fn reports_failure(code: u32) -> bool {
    code == cc::GetTestResult || code == cc::GetCapability
}

/// True for a command that a TPM in failure mode still accepts.
pub fn allowed_in_failure_mode(code: u32) -> (r: bool)
    ensures
        r == reports_failure(code),
{
    code == cc::GetTestResult || code == cc::GetCapability
}

/// True for a session type that may authorize an entity.
pub fn session_can_authorize(session_type: u8) -> (r: bool)
    ensures
        r == (session_type == se::HMAC || session_type == se::POLICY),
{
    session_type == se::HMAC || session_type == se::POLICY
}

} // verus!
