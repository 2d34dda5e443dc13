//! NV storage.

use vstd::prelude::*;

use super::authorize::{auth_is_policy, by_policy};
use super::dispatch::{Request, RequestView, Response};
use super::execute::respond;
use super::wire::{
    alone, answers_nothing, answers_with, fails, nothing, raw_u16, raw_u64, take_sized,
};
use crate::tpm::config;
use crate::tpm::constants::range::is_nv;
use crate::tpm::constants::{ht, nt, rc, rh};
use crate::tpm::crypto::hash::{digest_size, hash_of, supported};
use crate::tpm::engine::nv::{fixed_size, overlaid, NvIndex};
use crate::tpm::engine::nv_store::{counters, globally_locked};
use crate::tpm::engine::state::TpmState;
use crate::tpm::error::{TpmRc, TpmResult};
use crate::tpm::marshal::{parse_sized, sized, Writer};
use crate::tpm::structures::attributes::{NvAttributes, StartupClearAttributes};
use crate::tpm::structures::nv::{NvPublic, NvPublic2, NvPublic2View, NvPublicView};
use crate::util::bytes::octets64;

verus! {

/// Whether `auth` may write the Index: the platform, the owner, or the Index
/// itself with the method its attributes name.
pub open spec fn may_write(i: NvIndex, auth: u32, is_policy: bool) -> bool {
    let a = i.public.attributes;
    if auth == rh::PLATFORM {
        a.has(NvAttributes::PPWRITE)
    } else if auth == rh::OWNER {
        a.has(NvAttributes::OWNERWRITE)
    } else if auth != i.public.nv_index {
        false
    } else if is_policy {
        a.has(NvAttributes::POLICYWRITE)
    } else {
        a.has(NvAttributes::AUTHWRITE)
    }
}

/// Whether `auth` may read the Index.
pub open spec fn may_read(i: NvIndex, auth: u32, is_policy: bool) -> bool {
    let a = i.public.attributes;
    if auth == rh::PLATFORM {
        a.has(NvAttributes::PPREAD)
    } else if auth == rh::OWNER {
        a.has(NvAttributes::OWNERREAD)
    } else if auth != i.public.nv_index {
        false
    } else if is_policy {
        a.has(NvAttributes::POLICYREAD)
    } else {
        a.has(NvAttributes::AUTHREAD)
    }
}

/// Check that the authorization handle may write this Index.
pub fn check_write_authority(index: &NvIndex, auth_handle: u32, is_policy: bool) -> (r: TpmResult<()>)
    ensures
        r is Ok <==> may_write(*index, auth_handle, is_policy),
        r matches Err(e) ==> e == TpmRc(rc::NV_AUTHORIZATION),
{
    let a: NvAttributes = index.public.attributes;
    let allowed: bool = if auth_handle == rh::PLATFORM {
        a.has(NvAttributes::PPWRITE)
    } else if auth_handle == rh::OWNER {
        a.has(NvAttributes::OWNERWRITE)
    } else if auth_handle != index.public.nv_index {
        false
    } else if is_policy {
        a.has(NvAttributes::POLICYWRITE)
    } else {
        a.has(NvAttributes::AUTHWRITE)
    };
    if allowed {
        Ok(())
    } else {
        Err(TpmRc(rc::NV_AUTHORIZATION))
    }
}

/// Check that the authorization handle may read this Index.
pub fn check_read_authority(index: &NvIndex, auth_handle: u32, is_policy: bool) -> (r: TpmResult<()>)
    ensures
        r is Ok <==> may_read(*index, auth_handle, is_policy),
        r matches Err(e) ==> e == TpmRc(rc::NV_AUTHORIZATION),
{
    let a: NvAttributes = index.public.attributes;
    let allowed: bool = if auth_handle == rh::PLATFORM {
        a.has(NvAttributes::PPREAD)
    } else if auth_handle == rh::OWNER {
        a.has(NvAttributes::OWNERREAD)
    } else if auth_handle != index.public.nv_index {
        false
    } else if is_policy {
        a.has(NvAttributes::POLICYREAD)
    } else {
        a.has(NvAttributes::AUTHREAD)
    };
    if allowed {
        Ok(())
    } else {
        Err(TpmRc(rc::NV_AUTHORIZATION))
    }
}

/// The authorization handle and the Index that a command names, where the
/// command may write it.
pub open spec fn write_check(state: TpmState, req: RequestView) -> TpmResult<u32> {
    match req.handle(0) {
        Err(e) => Err(e),
        Ok(auth) => match req.handle(1) {
            Err(e) => Err(e),
            Ok(h) => if !state.nv.indices@.contains_key(h) {
                Err(TpmRc(rc::HANDLE).for_handle(2))
            } else if !may_write(
                state.nv.indices@[h],
                auth,
                by_policy(state, req.sessions, 0),
            ) {
                Err(TpmRc(rc::NV_AUTHORIZATION))
            } else if state.nv.indices@[h].write_locked {
                Err(TpmRc(rc::NV_LOCKED))
            } else {
                Ok(h)
            },
        },
    }
}

/// The Index that a command names and may write.
fn writable<'a>(state: &'a TpmState, request: &Request, auth: u32, handle: u32) -> (r: TpmResult<
    &'a NvIndex,
>)
    requires
        state.wf(),
        request@.handle(0) == Ok::<u32, TpmRc>(auth),
        request@.handle(1) == Ok::<u32, TpmRc>(handle),
    ensures
        match write_check(*state, request@) {
            Ok(h) => r is Ok && h == handle && state.nv.indices@.contains_key(h) && *(r->Ok_0)
                == state.nv.indices@[h] && r->Ok_0.wf(),
            Err(e) => r is Err && r->Err_0 == e,
        },
{
    let is_policy: bool = auth_is_policy(state, request, 0);
    let index: &NvIndex = match state.nv.get(handle) {
        Ok(i) => i,
        Err(e) => {
            return Err(e.with_handle(2));
        },
    };
    check_write_authority(index, auth, is_policy)?;
    if index.write_locked {
        return Err(TpmRc(rc::NV_LOCKED));
    }
    Ok(index)
}

/// True when some way to write and some way to read are named.
pub open spec fn has_access(a: NvAttributes) -> bool {
    &&& a.has(NvAttributes::PPWRITE) || a.has(NvAttributes::OWNERWRITE) || a.has(
        NvAttributes::AUTHWRITE,
    ) || a.has(NvAttributes::POLICYWRITE)
    &&& a.has(NvAttributes::PPREAD) || a.has(NvAttributes::OWNERREAD) || a.has(
        NvAttributes::AUTHREAD,
    ) || a.has(NvAttributes::POLICYREAD)
}

/// True for a type of Index there is.
pub open spec fn known_type(kind: u8) -> bool {
    kind == nt::ORDINARY || kind == nt::COUNTER || kind == nt::BITS || kind == nt::EXTEND || kind
        == nt::PIN_FAIL || kind == nt::PIN_PASS
}

/// Octets an Index has to have, where its type decides.
pub open spec fn required_size(p: NvPublicView) -> Option<nat> {
    if p.attributes.index_type() == nt::EXTEND && !supported(p.name_alg) {
        None
    } else {
        fixed_size(p.attributes.index_type(), p.name_alg)
    }
}

/// What [`validate_new_public`] answers.
pub open spec fn new_public_check(state: TpmState, p: NvPublicView, auth: u32) -> TpmResult<()> {
    let a = p.attributes;
    let refused = Err::<(), TpmRc>(TpmRc(rc::ATTRIBUTES).for_parameter(2));
    if !is_nv(p.nv_index) {
        Err(TpmRc(rc::HANDLE).for_parameter(2))
    } else if state.nv.indices@.contains_key(p.nv_index) {
        Err(TpmRc(rc::NV_DEFINED))
    } else if !has_access(a) {
        refused
    } else if a.has(NvAttributes::POLICY_DELETE) && auth != rh::PLATFORM {
        refused
    } else if (a.has(NvAttributes::POLICYWRITE) || a.has(NvAttributes::POLICYREAD))
        && p.auth_policy.len() == 0 {
        refused
    } else if a.has(NvAttributes::WRITTEN) {
        refused
    } else if !known_type(a.index_type()) {
        refused
    } else if required_size(p) is Some && required_size(p)->Some_0 != p.data_size {
        Err(TpmRc(rc::SIZE).for_parameter(2))
    } else if p.data_size > config::MAX_NV_INDEX_SIZE {
        Err(TpmRc(rc::SIZE).for_parameter(2))
    } else {
        Ok(())
    }
}

/// Check the public area of a new Index.
///
/// Some way to write and some way to read have to be named. Only the platform
/// may ask for an Index that a policy deletes, and the written bit is the TPM's
/// to set. The size has to fit the type.
pub fn validate_new_public(state: &TpmState, public: &NvPublic, auth_handle: u32) -> (r: TpmResult<()>)
    requires
        state.wf(),
    ensures
        r == new_public_check(*state, public@, auth_handle),
{
    if !is_nv(public.nv_index) {
        return Err(TpmRc(rc::HANDLE).with_parameter(2));
    }
    if state.nv.contains(public.nv_index) {
        return Err(TpmRc(rc::NV_DEFINED));
    }
    let refused = TpmRc(rc::ATTRIBUTES).with_parameter(2);
    let a: NvAttributes = public.attributes;
    let writes: bool = a.has(NvAttributes::PPWRITE) || a.has(NvAttributes::OWNERWRITE) || a.has(
        NvAttributes::AUTHWRITE,
    ) || a.has(NvAttributes::POLICYWRITE);
    let reads: bool = a.has(NvAttributes::PPREAD) || a.has(NvAttributes::OWNERREAD) || a.has(
        NvAttributes::AUTHREAD,
    ) || a.has(NvAttributes::POLICYREAD);
    if !writes || !reads {
        return Err(refused);
    }
    if a.has(NvAttributes::POLICY_DELETE) && auth_handle != rh::PLATFORM {
        return Err(refused);
    }
    if (a.has(NvAttributes::POLICYWRITE) || a.has(NvAttributes::POLICYREAD))
        && public.auth_policy.is_empty() {
        return Err(refused);
    }
    if a.has(NvAttributes::WRITTEN) {
        return Err(refused);
    }
    let kind: u8 = a.index_type();
    let size: usize = public.data_size as usize;
    if kind == nt::COUNTER || kind == nt::BITS || kind == nt::PIN_FAIL || kind == nt::PIN_PASS {
        if size != 8 {
            return Err(TpmRc(rc::SIZE).with_parameter(2));
        }
    } else if kind == nt::EXTEND {
        if let Ok(n) = digest_size(public.name_alg) {
            if size != n {
                return Err(TpmRc(rc::SIZE).with_parameter(2));
            }
        }
    } else if kind != nt::ORDINARY {
        return Err(refused);
    }
    if size > config::MAX_NV_INDEX_SIZE {
        return Err(TpmRc(rc::SIZE).with_parameter(2));
    }
    Ok(())
}

/// The attributes of an Index, with who defined it noted.
pub open spec fn defined_by(a: NvAttributes, auth: u32) -> NvAttributes {
    a.put(NvAttributes::PLATFORMCREATE, auth == rh::PLATFORM)
}

/// Whether an Index may be defined.
pub open spec fn define_check(state: TpmState, auth: u32, p: NvPublicView) -> TpmResult<()> {
    match new_public_check(state, p, auth) {
        Err(e) => Err(e),
        Ok(_) => if p.attributes.index_type() == nt::COUNTER && counters(
            state.nv.indices.listed(),
        ) >= config::MIN_COUNTER_INDICES {
            Err(TpmRc(rc::NV_SPACE))
        } else if !state.nv.has_room(p.data_size) {
            Err(TpmRc(rc::NV_SPACE))
        } else {
            Ok(())
        },
    }
}

/// An Index was defined.
pub open spec fn defined(
    after: TpmState,
    before: TpmState,
    auth_handle: u32,
    auth: Seq<u8>,
    p: NvPublicView,
) -> bool {
    let i = after.nv.indices@[p.nv_index];
    &&& after == (TpmState { nv: after.nv, ..before })
    &&& after.nv.indices@ == before.nv.indices@.insert(p.nv_index, i)
    &&& i.public@ == (NvPublicView { attributes: defined_by(p.attributes, auth_handle), ..p })
    &&& i.auth@ == auth
    &&& i.data@.len() == 0
    &&& !i.read_locked
    &&& !i.write_locked
}

/// Noting who defined an Index leaves its type and the written bit alone.
proof fn lemma_defined_by(a: u32)
    by (bit_vector)
    ensures
        (a | 0x4000_0000u32) & 0xF0 == a & 0xF0,
        (a | 0x4000_0000u32) & 0x2000_0000 == a & 0x2000_0000,
        (a & !0x4000_0000u32) & 0xF0 == a & 0xF0,
        (a & !0x4000_0000u32) & 0x2000_0000 == a & 0x2000_0000,
{
}

/// Define an Index.
fn define(state: &mut TpmState, auth_handle: u32, auth: Vec<u8>, public: NvPublic) -> (r: TpmResult<
    Response,
>)
    requires
        old(state).wf(),
        auth@.len() <= 64,
        supported(public.name_alg),
    ensures
        final(state).wf(),
        match define_check(*old(state), auth_handle, public@) {
            Err(e) => fails(r, e) && *final(state) == *old(state),
            Ok(_) => answers_nothing(r) && defined(
                *final(state),
                *old(state),
                auth_handle,
                auth@,
                public@,
            ),
        },
{
    validate_new_public(state, &public, auth_handle)?;
    if public.attributes.index_type() == nt::COUNTER && state.nv.counter_count() as u64
        >= config::MIN_COUNTER_INDICES as u64 {
        return Err(TpmRc(rc::NV_SPACE));
    }
    let mut public: NvPublic = public;
    proof {
        lemma_defined_by(public.attributes.0);
    }
    public.attributes.set(NvAttributes::PLATFORMCREATE, auth_handle == rh::PLATFORM);
    let index = NvIndex {
        public,
        auth,
        data: Vec::new(),
        read_locked: false,
        write_locked: false,
    };
    state.nv.define(index)?;
    nothing()
}

/// What TPM2_NV_DefineSpace is given.
pub open spec fn define_input(p: Seq<u8>) -> TpmResult<(Seq<u8>, NvPublicView)> {
    match parse_sized(p, 0, 64) {
        Err(e) => Err(e),
        Ok((auth, next)) => match alone(p, NvPublic::parse_2b(p, next)) {
            Err(e) => Err(e),
            Ok(public) => Ok((auth, public)),
        },
    }
}

/// An Index was defined, or why not.
pub open spec fn define_ran(
    after: TpmState,
    before: TpmState,
    auth_handle: u32,
    auth: Seq<u8>,
    p: NvPublicView,
    r: TpmResult<Response>,
) -> bool {
    match define_check(before, auth_handle, p) {
        Err(e) => fails(r, e) && after == before,
        Ok(_) => answers_nothing(r) && defined(after, before, auth_handle, auth, p),
    }
}

/// TPM2_NV_DefineSpace.
pub open spec fn nv_define_space_ran(
    after: TpmState,
    before: TpmState,
    req: RequestView,
    r: TpmResult<Response>,
) -> bool {
    match req.handle(0) {
        Err(e) => fails(r, e) && after == before,
        Ok(auth_handle) => match define_input(req.parameters) {
            Err(e) => fails(r, e) && after == before,
            Ok((auth, p)) => define_ran(after, before, auth_handle, auth, p, r),
        },
    }
}

/// TPM2_NV_DefineSpace.
pub fn nv_define_space(state: &mut TpmState, request: &Request) -> (r: TpmResult<Response>)
    requires
        old(state).wf(),
    ensures
        final(state).wf(),
        nv_define_space_ran(*final(state), *old(state), request@, r),
{
    let auth_handle: u32 = request.handle(0)?;
    let mut reader = request.reader();
    let auth: Vec<u8> = take_sized::<64>(&mut reader)?;
    let public: NvPublic = NvPublic::unmarshal_2b(&mut reader)?;
    reader.expect_end()?;
    define(state, auth_handle, auth, public)
}

/// What TPM2_NV_DefineSpace2 is given.
pub open spec fn define2_input(p: Seq<u8>) -> TpmResult<(Seq<u8>, NvPublic2View)> {
    match parse_sized(p, 0, 64) {
        Err(e) => Err(e),
        Ok((auth, next)) => match alone(p, NvPublic2View::parse_2b(p, next)) {
            Err(e) => Err(e),
            Ok(public) => Ok((auth, public)),
        },
    }
}

/// TPM2_NV_DefineSpace2. There is no external NV, so that an external
/// definition is refused.
pub open spec fn nv_define_space2_ran(
    after: TpmState,
    before: TpmState,
    req: RequestView,
    r: TpmResult<Response>,
) -> bool {
    match req.handle(0) {
        Err(e) => fails(r, e) && after == before,
        Ok(auth_handle) => match define2_input(req.parameters) {
            Err(e) => fails(r, e) && after == before,
            Ok((auth, p)) => match p {
                NvPublic2View::External => {
                    fails(r, TpmRc(rc::ATTRIBUTES).for_parameter(2)) && after == before
                },
                NvPublic2View::Index(v) => define_ran(after, before, auth_handle, auth, v, r),
                NvPublic2View::Permanent(v) => define_ran(after, before, auth_handle, auth, v, r),
            },
        },
    }
}

/// TPM2_NV_DefineSpace2.
pub fn nv_define_space2(state: &mut TpmState, request: &Request) -> (r: TpmResult<Response>)
    requires
        old(state).wf(),
    ensures
        final(state).wf(),
        nv_define_space2_ran(*final(state), *old(state), request@, r),
{
    let auth_handle: u32 = request.handle(0)?;
    let mut reader = request.reader();
    let auth: Vec<u8> = take_sized::<64>(&mut reader)?;
    let public: NvPublic2 = NvPublic2::unmarshal_2b(&mut reader)?;
    reader.expect_end()?;
    match public {
        NvPublic2::External => Err(TpmRc(rc::ATTRIBUTES).with_parameter(2)),
        NvPublic2::Index(p) => define(state, auth_handle, auth, p),
        NvPublic2::Permanent(p) => define(state, auth_handle, auth, p),
    }
}

/// Whether `auth` may take an Index away: whoever defined it, and only where no
/// policy does.
pub open spec fn undefine_check(state: TpmState, auth: u32, h: u32) -> TpmResult<()> {
    if !state.nv.indices@.contains_key(h) {
        Err(TpmRc(rc::HANDLE).for_handle(2))
    } else {
        let a = state.nv.indices@[h].public.attributes;
        if a.has(NvAttributes::POLICY_DELETE) {
            Err(TpmRc(rc::ATTRIBUTES).for_handle(2))
        } else if auth != (if a.has(NvAttributes::PLATFORMCREATE) {
            rh::PLATFORM
        } else {
            rh::OWNER
        }) {
            Err(TpmRc(rc::NV_AUTHORIZATION).for_handle(1))
        } else {
            Ok(())
        }
    }
}

/// An Index is gone.
pub open spec fn undefined(after: TpmState, before: TpmState, h: u32) -> bool {
    &&& after == (TpmState { nv: after.nv, ..before })
    &&& after.nv.indices@ == before.nv.indices@.remove(h)
}

/// TPM2_NV_UndefineSpace.
pub open spec fn nv_undefine_space_ran(
    after: TpmState,
    before: TpmState,
    req: RequestView,
    r: TpmResult<Response>,
) -> bool {
    match req.handle(0) {
        Err(e) => fails(r, e) && after == before,
        Ok(auth) => match req.handle(1) {
            Err(e) => fails(r, e) && after == before,
            Ok(h) => match undefine_check(before, auth, h) {
                Err(e) => fails(r, e) && after == before,
                Ok(_) => answers_nothing(r) && undefined(after, before, h),
            },
        },
    }
}

/// TPM2_NV_UndefineSpace.
pub fn nv_undefine_space(state: &mut TpmState, request: &Request) -> (r: TpmResult<Response>)
    requires
        old(state).wf(),
    ensures
        final(state).wf(),
        nv_undefine_space_ran(*final(state), *old(state), request@, r),
{
    let auth: u32 = request.handle(0)?;
    let handle: u32 = request.handle(1)?;
    let a: NvAttributes = match state.nv.get(handle) {
        Ok(i) => i.public.attributes,
        Err(e) => {
            return Err(e.with_handle(2));
        },
    };
    if a.has(NvAttributes::POLICY_DELETE) {
        return Err(TpmRc(rc::ATTRIBUTES).with_handle(2));
    }
    let owner: u32 = if a.has(NvAttributes::PLATFORMCREATE) {
        rh::PLATFORM
    } else {
        rh::OWNER
    };
    if auth != owner {
        return Err(TpmRc(rc::NV_AUTHORIZATION).with_handle(1));
    }
    state.nv.undefine(handle)?;
    nothing()
}

/// TPM2_NV_UndefineSpaceSpecial, which takes away what a policy deletes.
pub open spec fn nv_undefine_space_special_ran(
    after: TpmState,
    before: TpmState,
    req: RequestView,
    r: TpmResult<Response>,
) -> bool {
    match req.handle(0) {
        Err(e) => fails(r, e) && after == before,
        Ok(h) => match req.handle(1) {
            Err(e) => fails(r, e) && after == before,
            Ok(platform) => if platform != rh::PLATFORM {
                fails(r, TpmRc(rc::AUTH_TYPE).for_handle(2)) && after == before
            } else if !before.nv.indices@.contains_key(h) {
                fails(r, TpmRc(rc::HANDLE).for_handle(1)) && after == before
            } else if !before.nv.indices@[h].public.attributes.has(NvAttributes::POLICY_DELETE) {
                fails(r, TpmRc(rc::ATTRIBUTES).for_handle(1)) && after == before
            } else {
                answers_nothing(r) && undefined(after, before, h)
            },
        },
    }
}

/// TPM2_NV_UndefineSpaceSpecial.
pub fn nv_undefine_space_special(state: &mut TpmState, request: &Request) -> (r: TpmResult<
    Response,
>)
    requires
        old(state).wf(),
    ensures
        final(state).wf(),
        nv_undefine_space_special_ran(*final(state), *old(state), request@, r),
{
    let handle: u32 = request.handle(0)?;
    let platform: u32 = request.handle(1)?;
    if platform != rh::PLATFORM {
        return Err(TpmRc(rc::AUTH_TYPE).with_handle(2));
    }
    let a: NvAttributes = match state.nv.get(handle) {
        Ok(i) => i.public.attributes,
        Err(e) => {
            return Err(e.with_handle(1));
        },
    };
    if !a.has(NvAttributes::POLICY_DELETE) {
        return Err(TpmRc(rc::ATTRIBUTES).with_handle(1));
    }
    state.nv.undefine(handle)?;
    nothing()
}

/// The Index that a command names first.
pub open spec fn named_index(state: TpmState, req: RequestView) -> TpmResult<NvIndex> {
    match req.handle(0) {
        Err(e) => Err(e),
        Ok(h) => if state.nv.indices@.contains_key(h) {
            Ok(state.nv.indices@[h])
        } else {
            Err(TpmRc(rc::HANDLE).for_handle(1))
        },
    }
}

fn first_index<'a>(state: &'a TpmState, request: &Request) -> (r: TpmResult<&'a NvIndex>)
    requires
        state.wf(),
    ensures
        match named_index(*state, request@) {
            Ok(i) => r is Ok && *(r->Ok_0) == i && i.wf(),
            Err(e) => r is Err && r->Err_0 == e,
        },
{
    let handle: u32 = request.handle(0)?;
    match state.nv.get(handle) {
        Ok(i) => Ok(i),
        Err(e) => Err(e.with_handle(1)),
    }
}

/// TPM2_NV_ReadPublic.
pub open spec fn nv_read_public_ran(state: TpmState, req: RequestView, r: TpmResult<Response>) -> bool {
    match named_index(state, req) {
        Err(e) => fails(r, e),
        Ok(i) => answers_with(r, sized(i.public@.octets()) + sized(i.name_of())),
    }
}

/// TPM2_NV_ReadPublic.
pub fn nv_read_public(state: &TpmState, request: &Request) -> (r: TpmResult<Response>)
    requires
        state.wf(),
    ensures
        nv_read_public_ran(*state, request@, r),
{
    let index: &NvIndex = first_index(state, request)?;
    let name: Vec<u8> = index.name();
    let mut w = Writer::new();
    index.public.marshal_2b(&mut w);
    w.sized16(name.as_slice());
    assert(w.written() =~= sized(index.public@.octets()) + sized(index.name_of()));
    respond(w)
}

/// TPM2_NV_ReadPublic2.
pub open spec fn nv_read_public2_ran(state: TpmState, req: RequestView, r: TpmResult<Response>) -> bool {
    match named_index(state, req) {
        Err(e) => fails(r, e),
        Ok(i) => answers_with(
            r,
            sized(seq![ht::NV_INDEX] + i.public@.octets()) + sized(i.name_of()),
        ),
    }
}

/// TPM2_NV_ReadPublic2.
pub fn nv_read_public2(state: &TpmState, request: &Request) -> (r: TpmResult<Response>)
    requires
        state.wf(),
    ensures
        nv_read_public2_ran(*state, request@, r),
{
    let index: &NvIndex = first_index(state, request)?;
    let name: Vec<u8> = index.name();
    let mut body: Vec<u8> = Vec::new();
    body.push(ht::NV_INDEX);
    let mut public: Vec<u8> = index.public.to_bytes();
    body.append(&mut public);
    assert(body@ =~= seq![ht::NV_INDEX] + index.public@.octets());
    let mut w = Writer::new();
    w.sized16(body.as_slice());
    w.sized16(name.as_slice());
    assert(w.written() =~= sized(seq![ht::NV_INDEX] + index.public@.octets()) + sized(
        index.name_of(),
    ));
    respond(w)
}

/// An Index now holds `data`. A write to an orderly Index moves it away from
/// what NV holds.
pub open spec fn wrote(after: TpmState, before: TpmState, h: u32, data: Seq<u8>) -> bool {
    let i = before.nv.indices@[h];
    &&& after == (TpmState {
        nv: after.nv,
        startup_clear: if i.public.attributes.has(NvAttributes::ORDERLY) {
            before.startup_clear.put(StartupClearAttributes::ORDERLY, false)
        } else {
            before.startup_clear
        },
        ..before
    })
    &&& after.nv.indices@ == before.nv.indices@.insert(h, after.nv.indices@[h])
    &&& after.nv.indices@[h].now_holds(i, data)
}

/// What TPM2_NV_Write is given.
pub open spec fn write_input(p: Seq<u8>) -> TpmResult<(Seq<u8>, u16)> {
    match parse_sized(p, 0, 1024) {
        Err(e) => Err(e),
        Ok((data, next)) => match alone(p, raw_u16(p, next)) {
            Err(e) => Err(e),
            Ok(offset) => Ok((data, offset)),
        },
    }
}

/// The two handles of a command, the first of which authorizes it.
pub open spec fn both_handles(req: RequestView) -> TpmResult<(u32, u32)> {
    match req.handle(0) {
        Err(e) => Err(e),
        Ok(a) => match req.handle(1) {
            Err(e) => Err(e),
            Ok(b) => Ok((a, b)),
        },
    }
}

/// True when an Index has the octets, and takes them at once where it is only
/// written as a whole.
pub open spec fn takes(i: NvIndex, data: Seq<u8>, offset: u16) -> bool {
    &&& offset + data.len() <= i.public.data_size
    &&& i.public.attributes.has(NvAttributes::WRITEALL) ==> data.len() == i.public.data_size
}

/// TPM2_NV_Write.
pub open spec fn nv_write_ran(
    after: TpmState,
    before: TpmState,
    req: RequestView,
    r: TpmResult<Response>,
) -> bool {
    match both_handles(req) {
        Err(e) => fails(r, e) && after == before,
        Ok(_) => match write_input(req.parameters) {
            Err(e) => fails(r, e) && after == before,
            Ok((data, offset)) => match write_check(before, req) {
                Err(e) => fails(r, e) && after == before,
                Ok(h) => {
                    let i = before.nv.indices@[h];
                    if i.index_type() != nt::ORDINARY {
                        fails(r, TpmRc(rc::ATTRIBUTES).for_handle(2)) && after == before
                    } else if !takes(i, data, offset) {
                        fails(r, TpmRc(rc::NV_RANGE)) && after == before
                    } else {
                        answers_nothing(r) && wrote(
                            after,
                            before,
                            h,
                            overlaid(i.held(), offset as int, data),
                        )
                    }
                },
            },
        },
    }
}

/// TPM2_NV_Write.
pub fn nv_write(state: &mut TpmState, request: &Request) -> (r: TpmResult<Response>)
    requires
        old(state).wf(),
    ensures
        final(state).wf(),
        nv_write_ran(*final(state), *old(state), request@, r),
{
    let auth: u32 = request.handle(0)?;
    let handle: u32 = request.handle(1)?;
    let mut reader = request.reader();
    let data: Vec<u8> = take_sized::<1024>(&mut reader)?;
    let offset: u16 = reader.u16()?;
    reader.expect_end()?;
    let index: &NvIndex = writable(state, request, auth, handle)?;
    if index.index_type() != nt::ORDINARY {
        return Err(TpmRc(rc::ATTRIBUTES).with_handle(2));
    }
    let size: usize = index.public.data_size as usize;
    if offset as usize + data.len() > size || (index.public.attributes.has(NvAttributes::WRITEALL)
        && data.len() != size) {
        return Err(TpmRc(rc::NV_RANGE));
    }
    let orderly: bool = index.public.attributes.has(NvAttributes::ORDERLY);
    if let Ok(i) = state.nv.get_mut(handle) {
        let _ = i.write(offset, data.as_slice());
    }
    if orderly {
        state.nv_is_no_longer_orderly();
    }
    nothing()
}

/// The next count of a counter, zero after the largest.
pub open spec fn next_number(n: u64) -> u64 {
    if n == u64::MAX {
        0
    } else {
        (n + 1) as u64
    }
}

/// TPM2_NV_Increment.
pub open spec fn nv_increment_ran(
    after: TpmState,
    before: TpmState,
    req: RequestView,
    r: TpmResult<Response>,
) -> bool {
    match write_check(before, req) {
        Err(e) => fails(r, e) && after == before,
        Ok(h) => {
            let i = before.nv.indices@[h];
            if i.index_type() != nt::COUNTER {
                fails(r, TpmRc(rc::ATTRIBUTES)) && after == before
            } else {
                answers_nothing(r) && wrote(after, before, h, octets64(next_number(i.number())))
            }
        },
    }
}

/// TPM2_NV_Increment.
pub fn nv_increment(state: &mut TpmState, request: &Request) -> (r: TpmResult<Response>)
    requires
        old(state).wf(),
    ensures
        final(state).wf(),
        nv_increment_ran(*final(state), *old(state), request@, r),
{
    let auth: u32 = request.handle(0)?;
    let handle: u32 = request.handle(1)?;
    let index: &NvIndex = writable(state, request, auth, handle)?;
    if index.index_type() != nt::COUNTER {
        return Err(TpmRc(rc::ATTRIBUTES));
    }
    let orderly: bool = index.public.attributes.has(NvAttributes::ORDERLY);
    if let Ok(i) = state.nv.get_mut(handle) {
        let _ = i.increment();
    }
    if orderly {
        state.nv_is_no_longer_orderly();
    }
    nothing()
}

/// TPM2_NV_Extend.
pub open spec fn nv_extend_ran(
    after: TpmState,
    before: TpmState,
    req: RequestView,
    r: TpmResult<Response>,
) -> bool {
    match both_handles(req) {
        Err(e) => fails(r, e) && after == before,
        Ok(_) => match alone(req.parameters, parse_sized(req.parameters, 0, 1024)) {
            Err(e) => fails(r, e) && after == before,
            Ok(data) => match write_check(before, req) {
                Err(e) => fails(r, e) && after == before,
                Ok(h) => {
                    let i = before.nv.indices@[h];
                    if i.index_type() != nt::EXTEND {
                        fails(r, TpmRc(rc::ATTRIBUTES)) && after == before
                    } else {
                        answers_nothing(r) && wrote(
                            after,
                            before,
                            h,
                            hash_of(i.public.name_alg, i.measured() + data),
                        )
                    }
                },
            },
        },
    }
}

/// TPM2_NV_Extend.
pub fn nv_extend(state: &mut TpmState, request: &Request) -> (r: TpmResult<Response>)
    requires
        old(state).wf(),
    ensures
        final(state).wf(),
        nv_extend_ran(*final(state), *old(state), request@, r),
{
    let auth: u32 = request.handle(0)?;
    let handle: u32 = request.handle(1)?;
    let mut reader = request.reader();
    let data: Vec<u8> = take_sized::<1024>(&mut reader)?;
    reader.expect_end()?;
    let index: &NvIndex = writable(state, request, auth, handle)?;
    if index.index_type() != nt::EXTEND {
        return Err(TpmRc(rc::ATTRIBUTES));
    }
    let orderly: bool = index.public.attributes.has(NvAttributes::ORDERLY);
    if let Ok(i) = state.nv.get_mut(handle) {
        let _ = i.extend(data.as_slice());
    }
    if orderly {
        state.nv_is_no_longer_orderly();
    }
    nothing()
}

/// TPM2_NV_SetBits.
pub open spec fn nv_set_bits_ran(
    after: TpmState,
    before: TpmState,
    req: RequestView,
    r: TpmResult<Response>,
) -> bool {
    match both_handles(req) {
        Err(e) => fails(r, e) && after == before,
        Ok(_) => match alone(req.parameters, raw_u64(req.parameters, 0)) {
            Err(e) => fails(r, e) && after == before,
            Ok(bits) => match write_check(before, req) {
                Err(e) => fails(r, e) && after == before,
                Ok(h) => {
                    let i = before.nv.indices@[h];
                    if i.index_type() != nt::BITS {
                        fails(r, TpmRc(rc::ATTRIBUTES)) && after == before
                    } else {
                        answers_nothing(r) && wrote(
                            after,
                            before,
                            h,
                            octets64(i.number() | bits),
                        )
                    }
                },
            },
        },
    }
}

/// TPM2_NV_SetBits.
pub fn nv_set_bits(state: &mut TpmState, request: &Request) -> (r: TpmResult<Response>)
    requires
        old(state).wf(),
    ensures
        final(state).wf(),
        nv_set_bits_ran(*final(state), *old(state), request@, r),
{
    let auth: u32 = request.handle(0)?;
    let handle: u32 = request.handle(1)?;
    let mut reader = request.reader();
    let bits: u64 = reader.u64()?;
    reader.expect_end()?;
    let index: &NvIndex = writable(state, request, auth, handle)?;
    if index.index_type() != nt::BITS {
        return Err(TpmRc(rc::ATTRIBUTES));
    }
    let orderly: bool = index.public.attributes.has(NvAttributes::ORDERLY);
    if let Ok(i) = state.nv.get_mut(handle) {
        let _ = i.set_bits(bits);
    }
    if orderly {
        state.nv_is_no_longer_orderly();
    }
    nothing()
}

/// An Index with a lock turned on.
pub open spec fn locked(after: TpmState, before: TpmState, h: u32, i: NvIndex) -> bool {
    &&& after == (TpmState { nv: after.nv, ..before })
    &&& after.nv.indices@ == before.nv.indices@.insert(h, i)
}

/// The Index locked against writes.
pub open spec fn write_lock_on(i: NvIndex) -> NvIndex {
    NvIndex {
        write_locked: true,
        public: NvPublic {
            attributes: i.public.attributes.put(NvAttributes::WRITELOCKED, true),
            ..i.public
        },
        ..i
    }
}

/// The Index locked against reads.
pub open spec fn read_lock_on(i: NvIndex) -> NvIndex {
    NvIndex {
        read_locked: true,
        public: NvPublic {
            attributes: i.public.attributes.put(NvAttributes::READLOCKED, true),
            ..i.public
        },
        ..i
    }
}

/// TPM2_NV_WriteLock.
pub open spec fn nv_write_lock_ran(
    after: TpmState,
    before: TpmState,
    req: RequestView,
    r: TpmResult<Response>,
) -> bool {
    match both_handles(req) {
        Err(e) => fails(r, e) && after == before,
        Ok((auth, h)) => if !before.nv.indices@.contains_key(h) {
            fails(r, TpmRc(rc::HANDLE).for_handle(2)) && after == before
        } else {
            let i = before.nv.indices@[h];
            let a = i.public.attributes;
            if !may_write(i, auth, by_policy(before, req.sessions, 0)) {
                fails(r, TpmRc(rc::NV_AUTHORIZATION)) && after == before
            } else if !a.has(NvAttributes::WRITEDEFINE) && !a.has(NvAttributes::WRITE_STCLEAR) {
                fails(r, TpmRc(rc::ATTRIBUTES).for_handle(2)) && after == before
            } else {
                answers_nothing(r) && locked(after, before, h, write_lock_on(i))
            }
        },
    }
}

/// TPM2_NV_WriteLock.
pub fn nv_write_lock(state: &mut TpmState, request: &Request) -> (r: TpmResult<Response>)
    requires
        old(state).wf(),
    ensures
        final(state).wf(),
        nv_write_lock_ran(*final(state), *old(state), request@, r),
{
    let auth: u32 = request.handle(0)?;
    let handle: u32 = request.handle(1)?;
    let is_policy: bool = auth_is_policy(state, request, 0);
    let index: &NvIndex = match state.nv.get(handle) {
        Ok(i) => i,
        Err(e) => {
            return Err(e.with_handle(2));
        },
    };
    check_write_authority(index, auth, is_policy)?;
    let a: NvAttributes = index.public.attributes;
    if !a.has(NvAttributes::WRITEDEFINE) && !a.has(NvAttributes::WRITE_STCLEAR) {
        return Err(TpmRc(rc::ATTRIBUTES).with_handle(2));
    }
    if let Ok(i) = state.nv.get_mut(handle) {
        i.set_write_lock(true);
    }
    nothing()
}

/// TPM2_NV_GlobalWriteLock.
pub open spec fn nv_global_write_lock_ran(after: TpmState, before: TpmState, r: TpmResult<Response>) -> bool {
    &&& answers_nothing(r)
    &&& after == (TpmState { nv: after.nv, ..before })
    &&& forall|h: u32| #[trigger]
        after.nv.indices@.contains_key(h) <==> before.nv.indices@.contains_key(h)
    &&& forall|h: u32| #[trigger]
        before.nv.indices@.contains_key(h) ==> after.nv.indices@[h] == globally_locked(
            before.nv.indices@[h],
        )
}

/// TPM2_NV_GlobalWriteLock.
pub fn nv_global_write_lock(state: &mut TpmState, _request: &Request) -> (r: TpmResult<Response>)
    requires
        old(state).wf(),
    ensures
        final(state).wf(),
        nv_global_write_lock_ran(*final(state), *old(state), r),
{
    state.nv.global_write_lock();
    nothing()
}

/// What TPM2_NV_Read is given.
pub open spec fn read_input(p: Seq<u8>) -> TpmResult<(u16, u16)> {
    match raw_u16(p, 0) {
        Err(e) => Err(e),
        Ok((size, next)) => match alone(p, raw_u16(p, next)) {
            Err(e) => Err(e),
            Ok(offset) => Ok((size, offset)),
        },
    }
}

/// TPM2_NV_Read.
pub open spec fn nv_read_ran(state: TpmState, req: RequestView, r: TpmResult<Response>) -> bool {
    match both_handles(req) {
        Err(e) => fails(r, e),
        Ok((auth, h)) => match read_input(req.parameters) {
            Err(e) => fails(r, e),
            Ok((size, offset)) => if !state.nv.indices@.contains_key(h) {
                fails(r, TpmRc(rc::HANDLE).for_handle(2))
            } else {
                let i = state.nv.indices@[h];
                if !may_read(i, auth, by_policy(state, req.sessions, 0)) {
                    fails(r, TpmRc(rc::NV_AUTHORIZATION))
                } else if i.read_locked {
                    fails(r, TpmRc(rc::NV_LOCKED))
                } else if size > config::MAX_NV_BUFFER_SIZE {
                    fails(r, TpmRc(rc::VALUE).for_parameter(1))
                } else {
                    match i.reading(offset, size) {
                        Err(e) => fails(r, e),
                        Ok(v) => answers_with(r, sized(v)),
                    }
                }
            },
        },
    }
}

/// TPM2_NV_Read.
pub fn nv_read(state: &TpmState, request: &Request) -> (r: TpmResult<Response>)
    requires
        state.wf(),
    ensures
        nv_read_ran(*state, request@, r),
{
    let auth: u32 = request.handle(0)?;
    let handle: u32 = request.handle(1)?;
    let mut reader = request.reader();
    let size: u16 = reader.u16()?;
    let offset: u16 = reader.u16()?;
    reader.expect_end()?;
    let index: &NvIndex = match state.nv.get(handle) {
        Ok(i) => i,
        Err(e) => {
            return Err(e.with_handle(2));
        },
    };
    check_read_authority(index, auth, auth_is_policy(state, request, 0))?;
    if index.read_locked {
        return Err(TpmRc(rc::NV_LOCKED));
    }
    if size as usize > config::MAX_NV_BUFFER_SIZE {
        return Err(TpmRc(rc::VALUE).with_parameter(1));
    }
    let data: Vec<u8> = index.read(offset, size)?;
    let mut w = Writer::new();
    w.sized16(data.as_slice());
    assert(w.written() =~= sized(data@));
    respond(w)
}

/// TPM2_NV_ReadLock.
pub open spec fn nv_read_lock_ran(
    after: TpmState,
    before: TpmState,
    req: RequestView,
    r: TpmResult<Response>,
) -> bool {
    match both_handles(req) {
        Err(e) => fails(r, e) && after == before,
        Ok((auth, h)) => if !before.nv.indices@.contains_key(h) {
            fails(r, TpmRc(rc::HANDLE).for_handle(2)) && after == before
        } else {
            let i = before.nv.indices@[h];
            if !may_read(i, auth, by_policy(before, req.sessions, 0)) {
                fails(r, TpmRc(rc::NV_AUTHORIZATION)) && after == before
            } else if !i.public.attributes.has(NvAttributes::READ_STCLEAR) {
                fails(r, TpmRc(rc::ATTRIBUTES).for_handle(2)) && after == before
            } else {
                answers_nothing(r) && locked(after, before, h, read_lock_on(i))
            }
        },
    }
}

/// TPM2_NV_ReadLock.
pub fn nv_read_lock(state: &mut TpmState, request: &Request) -> (r: TpmResult<Response>)
    requires
        old(state).wf(),
    ensures
        final(state).wf(),
        nv_read_lock_ran(*final(state), *old(state), request@, r),
{
    let auth: u32 = request.handle(0)?;
    let handle: u32 = request.handle(1)?;
    let is_policy: bool = auth_is_policy(state, request, 0);
    let index: &NvIndex = match state.nv.get(handle) {
        Ok(i) => i,
        Err(e) => {
            return Err(e.with_handle(2));
        },
    };
    check_read_authority(index, auth, is_policy)?;
    if !index.public.attributes.has(NvAttributes::READ_STCLEAR) {
        return Err(TpmRc(rc::ATTRIBUTES).with_handle(2));
    }
    if let Ok(i) = state.nv.get_mut(handle) {
        i.set_read_lock(true);
    }
    nothing()
}

/// TPM2_NV_ChangeAuth.
pub open spec fn nv_change_auth_ran(
    after: TpmState,
    before: TpmState,
    req: RequestView,
    r: TpmResult<Response>,
) -> bool {
    match req.handle(0) {
        Err(e) => fails(r, e) && after == before,
        Ok(h) => match alone(req.parameters, parse_sized(req.parameters, 0, 64)) {
            Err(e) => fails(r, e) && after == before,
            Ok(auth) => if !before.nv.indices@.contains_key(h) {
                fails(r, TpmRc(rc::HANDLE).for_handle(1)) && after == before
            } else {
                let i = after.nv.indices@[h];
                &&& answers_nothing(r)
                &&& after == (TpmState { nv: after.nv, ..before })
                &&& after.nv.indices@ == before.nv.indices@.insert(h, i)
                &&& i == (NvIndex { auth: i.auth, ..before.nv.indices@[h] })
                &&& i.auth@ == auth
            },
        },
    }
}

/// TPM2_NV_ChangeAuth.
pub fn nv_change_auth(state: &mut TpmState, request: &Request) -> (r: TpmResult<Response>)
    requires
        old(state).wf(),
    ensures
        final(state).wf(),
        nv_change_auth_ran(*final(state), *old(state), request@, r),
{
    let handle: u32 = request.handle(0)?;
    let mut reader = request.reader();
    let auth: Vec<u8> = take_sized::<64>(&mut reader)?;
    reader.expect_end()?;
    match state.nv.get_mut(handle) {
        Ok(i) => {
            i.auth = auth;
        },
        Err(e) => {
            return Err(e.with_handle(1));
        },
    }
    nothing()
}

/// What TPM2_NV_Write put in an Index, TPM2_NV_Read gives back.
pub proof fn law_a_read_returns_what_was_written(
    before: TpmState,
    after: TpmState,
    h: u32,
    offset: u16,
    data: Seq<u8>,
)
    requires
        before.nv.indices@.contains_key(h),
        before.nv.indices@[h].wf(),
        takes(before.nv.indices@[h], data, offset),
        wrote(after, before, h, overlaid(before.nv.indices@[h].held(), offset as int, data)),
    ensures
        after.nv.indices@[h].reading(offset, data.len() as u16) == Ok::<Seq<u8>, TpmRc>(data),
{
    let i = before.nv.indices@[h];
    let now = after.nv.indices@[h];
    let a = i.public.attributes.0;
    assert((a | 0x2000_0000u32) & 0x2000_0000 == 0x2000_0000) by (bit_vector);
    let d = overlaid(i.held(), offset as int, data);
    assert(d.subrange(offset as int, offset + data.len()) =~= data);
}

} // verus!
