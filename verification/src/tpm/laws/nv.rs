//! What NV Indices keep.

use vstd::prelude::*;

use crate::tpm::commands::dispatch::{RequestView, Response};
use crate::tpm::commands::nv::{
    define_input, nv_change_auth_ran, nv_define_space_ran, nv_extend_ran, nv_global_write_lock_ran,
    nv_increment_ran, nv_read_lock_ran, nv_read_public_ran, nv_read_ran, nv_set_bits_ran,
    nv_undefine_space_ran, nv_undefine_space_special_ran, nv_write_lock_ran, nv_write_ran,
};
use crate::tpm::constants::rh;
use crate::tpm::crypto::hash::hash_of;
use crate::tpm::engine::nv::NvIndex;
use crate::tpm::engine::state::TpmState;
use crate::tpm::error::TpmResult;
use crate::tpm::marshal::sized;
use crate::util::bytes::{be16, be64, lemma_octets64};

verus! {

/// Bit `k` of a number.
pub open spec fn bit(v: u64, k: u64) -> bool {
    (v >> k) & 1 == 1
}

/// True when TPMA_NV_WRITTEN is set.
pub open spec fn was_written(i: NvIndex) -> bool {
    i.public.attributes.0 & 0x2000_0000 != 0
}

/// The type in the attributes of an Index.
pub open spec fn type_bits(i: NvIndex) -> u32 {
    (i.public.attributes.0 & 0xF0) >> 4
}

/// The number an Index of eight octets holds, zero before the first write.
pub open spec fn counted(i: NvIndex) -> u64 {
    if was_written(i) {
        be64(i.data@, 0)
    } else {
        0
    }
}

/// The Index that a command with an authorization handle names.
pub open spec fn index_in(state: TpmState, req: RequestView) -> NvIndex {
    state.nv.indices@[req.handles[1]]
}

/// Every Index but one is as it was, and there are no others.
pub open spec fn others_kept(after: TpmState, before: TpmState, h: u32) -> bool {
    &&& forall|k: u32| #[trigger]
        after.nv.indices@.contains_key(k) <==> before.nv.indices@.contains_key(k)
    &&& forall|k: u32|
        before.nv.indices@.contains_key(k) && k != h ==> after.nv.indices@[k]
            == #[trigger] before.nv.indices@[k]
}

/// An Index is the same but for what it holds, and is written now.
pub open spec fn only_written(now: NvIndex, was: NvIndex) -> bool {
    &&& was_written(now)
    &&& now.public.nv_index == was.public.nv_index
    &&& now.public.name_alg == was.public.name_alg
    &&& now.public.auth_policy == was.public.auth_policy
    &&& now.public.data_size == was.public.data_size
    &&& now.public.attributes.0 & 0xDFFF_FFFF == was.public.attributes.0 & 0xDFFF_FFFF
    &&& now.auth == was.auth
    &&& now.read_locked == was.read_locked
    &&& now.write_locked == was.write_locked
}

/// What the flags and the type in the attributes of an Index come down to.
pub proof fn lemma_attribute_bits(a: u32)
    by (bit_vector)
    ensures
        (a & 0x2000_0000 == 0x2000_0000) <==> (a & 0x2000_0000 != 0),
        (a | 0x2000_0000) & 0x2000_0000 == 0x2000_0000,
        (a | 0x2000_0000) & 0xDFFF_FFFF == a & 0xDFFF_FFFF,
        (a | 0x2000_0000) & 0xF0 == a & 0xF0,
        (a | 0x800) & 0xFFFF_F7FF == a & 0xFFFF_F7FF,
        (a | 0x800) & 0x800 == 0x800,
        (a | 0x1000_0000) & 0xEFFF_FFFF == a & 0xEFFF_FFFF,
        (a | 0x1000_0000) & 0x1000_0000 == 0x1000_0000,
        (a & 1 == 1) <==> (a & 1 != 0),
        (a & 2 == 2) <==> (a & 2 != 0),
        (a & 4 == 4) <==> (a & 4 != 0),
        (a & 8 == 8) <==> (a & 8 != 0),
        (a & 0x1000 == 0x1000) <==> (a & 0x1000 != 0),
        (a & 0x2000 == 0x2000) <==> (a & 0x2000 != 0),
        (a & 0x4000 == 0x4000) <==> (a & 0x4000 != 0),
        (a & 0x8000 == 0x8000) <==> (a & 0x8000 != 0),
        (a & 0x10000 == 0x10000) <==> (a & 0x10000 != 0),
        (a & 0x20000 == 0x20000) <==> (a & 0x20000 != 0),
        (a & 0x40000 == 0x40000) <==> (a & 0x40000 != 0),
        (a & 0x80000 == 0x80000) <==> (a & 0x80000 != 0),
        (a & 0x400 == 0x400) <==> (a & 0x400 != 0),
        (a & 0x4000_0000 == 0x4000_0000) <==> (a & 0x4000_0000 != 0),
        (a & 0x8000_0000 == 0x8000_0000) <==> (a & 0x8000_0000 != 0),
        (((a & 0xF0) >> 4) as u8) as u32 == (a & 0xF0) >> 4,
        a & 4 != 0 || a & 8 != 0 ==> a & 0xC != 0,
        a & 0x40000 != 0 || a & 0x80000 != 0 ==> a & 0xC0000 != 0,
        a & 0x2000 != 0 || a & 0x4000 != 0 ==> a & 0x6000 != 0,
        (a | 0x800) & 0x800 != 0,
        (a | 0x1000_0000) & 0x1000_0000 != 0,
        (a | 0x4000_0000) & 0x4000_0000 != 0,
        (a & !0x4000_0000u32) & 0x4000_0000 == 0,
        (a | 0x4000_0000) & 0x2000_0000 == a & 0x2000_0000,
        (a & !0x4000_0000u32) & 0x2000_0000 == a & 0x2000_0000,
{
}

proof fn lemma_or(a: u64, b: u64, k: u64)
    by (bit_vector)
    requires
        k < 64,
    ensures
        (((a | b) >> k) & 1 == 1) <==> ((a >> k) & 1 == 1 || (b >> k) & 1 == 1),
        a | 0 == a,
{
}

/// After TPM2_NV_SetBits every bit that was asked for is set, every bit that was
/// set still is, and no other is. Nothing else about the Index changes, and nothing
/// about the others.
pub proof fn law_setting_bits_sets_those_asked_for(
    after: TpmState,
    before: TpmState,
    req: RequestView,
    r: TpmResult<Response>,
)
    requires
        nv_set_bits_ran(after, before, req, r),
        r is Ok,
    ensures
        req.parameters.len() == 8,
        before.nv.indices@.contains_key(req.handles[1]),
        type_bits(index_in(before, req)) == 2,
        others_kept(after, before, req.handles[1]),
        only_written(index_in(after, req), index_in(before, req)),
        index_in(after, req).data@.len() == 8,
        forall|k: u64|
            k < 64 ==> (#[trigger] bit(be64(index_in(after, req).data@, 0), k) <==> bit(
                counted(index_in(before, req)),
                k,
            ) || bit(be64(req.parameters, 0), k)),
        be64(req.parameters, 0) == 0 ==> be64(index_in(after, req).data@, 0) == counted(
            index_in(before, req),
        ),
{
    let was = index_in(before, req);
    lemma_attribute_bits(was.public.attributes.0);
    lemma_or(counted(was), 0, 0);
    lemma_octets64(counted(was) | be64(req.parameters, 0));
    assert forall|k: u64| k < 64 implies (#[trigger] bit(
        be64(index_in(after, req).data@, 0),
        k,
    ) <==> bit(counted(was), k) || bit(be64(req.parameters, 0), k)) by {
        lemma_or(counted(was), be64(req.parameters, 0), k);
    }
}

/// TPM2_NV_Increment adds one to the count, which starts at zero.
pub proof fn law_incrementing_adds_one(
    after: TpmState,
    before: TpmState,
    req: RequestView,
    r: TpmResult<Response>,
)
    requires
        nv_increment_ran(after, before, req, r),
        r is Ok,
    ensures
        before.nv.indices@.contains_key(req.handles[1]),
        type_bits(index_in(before, req)) == 1,
        others_kept(after, before, req.handles[1]),
        only_written(index_in(after, req), index_in(before, req)),
        index_in(after, req).data@.len() == 8,
        counted(index_in(before, req)) < u64::MAX ==> be64(index_in(after, req).data@, 0)
            == counted(index_in(before, req)) + 1,
        counted(index_in(before, req)) == u64::MAX ==> be64(index_in(after, req).data@, 0) == 0,
{
    let was = index_in(before, req);
    lemma_attribute_bits(was.public.attributes.0);
    if counted(was) < u64::MAX {
        lemma_octets64((counted(was) + 1) as u64);
    } else {
        lemma_octets64(0);
    }
}

/// TPM2_NV_Extend leaves the hash of what the Index held, zeros before the first
/// write, and the data it was given.
pub proof fn law_extending_hashes_old_and_new(
    after: TpmState,
    before: TpmState,
    req: RequestView,
    data: Seq<u8>,
    r: TpmResult<Response>,
)
    requires
        nv_extend_ran(after, before, req, r),
        r is Ok,
        req.parameters.len() == 2 + data.len(),
        be16(req.parameters, 0) == data.len(),
        req.parameters.skip(2) == data,
    ensures
        before.nv.indices@.contains_key(req.handles[1]),
        type_bits(index_in(before, req)) == 4,
        others_kept(after, before, req.handles[1]),
        only_written(index_in(after, req), index_in(before, req)),
        ({
            let was = index_in(before, req);
            let held = if was_written(was) {
                was.data@
            } else {
                Seq::new(was.public.data_size as nat, |i: int| 0u8)
            };
            index_in(after, req).data@ == hash_of(was.public.name_alg, held + data)
        }),
{
    let was = index_in(before, req);
    lemma_attribute_bits(was.public.attributes.0);
    assert(req.parameters.subrange(2, 2int + data.len()) =~= data);
}

/// The octets of a TPM2_NV_Write: the data behind its size, then the offset.
pub open spec fn asks_to_write(req: RequestView, data: Seq<u8>, offset: u16) -> bool {
    &&& req.parameters.len() == 4 + data.len()
    &&& be16(req.parameters, 0) == data.len()
    &&& req.parameters.subrange(2, 2int + data.len()) == data
    &&& be16(req.parameters, 2 + data.len() as int) == offset
}

/// After TPM2_NV_Write each octet of the range is the one given, and each octet
/// outside it is the one before, all ones where none was written.
pub proof fn law_a_write_changes_its_range_alone(
    after: TpmState,
    before: TpmState,
    req: RequestView,
    data: Seq<u8>,
    offset: u16,
    r: TpmResult<Response>,
)
    requires
        nv_write_ran(after, before, req, r),
        r is Ok,
        asks_to_write(req, data, offset),
        index_in(before, req).wf(),
    ensures
        before.nv.indices@.contains_key(req.handles[1]),
        type_bits(index_in(before, req)) == 0,
        others_kept(after, before, req.handles[1]),
        only_written(index_in(after, req), index_in(before, req)),
        offset + data.len() <= index_in(before, req).public.data_size,
        index_in(after, req).data@.len() == index_in(before, req).public.data_size,
        forall|i: int|
            0 <= i < index_in(after, req).data@.len() ==> #[trigger] index_in(after, req).data@[i]
                == (if offset <= i < offset + data.len() {
                data[i - offset]
            } else if was_written(index_in(before, req)) {
                index_in(before, req).data@[i]
            } else {
                0xFFu8
            }),
{
    let was = index_in(before, req);
    lemma_attribute_bits(was.public.attributes.0);
}

/// The octets of a TPM2_NV_Read: the size, then the offset.
pub open spec fn asks_to_read(req: RequestView, size: u16, offset: u16) -> bool {
    &&& req.parameters.len() == 4
    &&& be16(req.parameters, 0) == size
    &&& be16(req.parameters, 2) == offset
}

/// TPM2_NV_Read answers with the octets of the Index from the offset on, as many as
/// were asked for, behind their number. The Index was written and is not locked.
pub proof fn law_a_read_answers_with_the_octets(
    state: TpmState,
    req: RequestView,
    size: u16,
    offset: u16,
    r: TpmResult<Response>,
)
    requires
        nv_read_ran(state, req, r),
        r is Ok,
        asks_to_read(req, size, offset),
        index_in(state, req).wf(),
    ensures
        state.nv.indices@.contains_key(req.handles[1]),
        was_written(index_in(state, req)),
        !index_in(state, req).read_locked,
        offset + size <= index_in(state, req).data@.len(),
        r->Ok_0.parameters@.len() == 2 + size,
        be16(r->Ok_0.parameters@, 0) == size,
        forall|i: int|
            0 <= i < size ==> #[trigger] r->Ok_0.parameters@[2 + i] == index_in(
                state,
                req,
            ).data@[offset + i],
{
    let i = index_in(state, req);
    lemma_attribute_bits(i.public.attributes.0);
    crate::util::bytes::lemma_octets16(size);
    let v = i.data@.subrange(offset as int, offset + size);
    assert(r->Ok_0.parameters@[0] == crate::util::bytes::octets16(size)[0]);
    assert(r->Ok_0.parameters@[1] == crate::util::bytes::octets16(size)[1]);
    assert forall|k: int| 0 <= k < size implies #[trigger] r->Ok_0.parameters@[2 + k] == i.data@[
    offset + k] by {
        assert(r->Ok_0.parameters@[2 + k] == v[k]);
    }
}

/// A command that writes an Index is one its attributes allow: the platform, the
/// owner, or the Index itself, each by its own attribute, while it is not locked.
pub open spec fn write_allowed(i: NvIndex, auth: u32) -> bool {
    let a = i.public.attributes.0;
    &&& !i.write_locked
    &&& auth == rh::PLATFORM ==> a & 0x1 != 0
    &&& auth == rh::OWNER ==> a & 0x2 != 0
    &&& auth != rh::PLATFORM && auth != rh::OWNER ==> auth == i.public.nv_index && a & 0xC != 0
}

/// The same for a command that reads an Index.
pub open spec fn read_allowed(i: NvIndex, auth: u32) -> bool {
    let a = i.public.attributes.0;
    &&& !i.read_locked
    &&& auth == rh::PLATFORM ==> a & 0x10000 != 0
    &&& auth == rh::OWNER ==> a & 0x20000 != 0
    &&& auth != rh::PLATFORM && auth != rh::OWNER ==> auth == i.public.nv_index && a & 0xC0000 != 0
}

/// No command writes or reads an Index that is locked, or by an authorization its
/// attributes do not name.
pub proof fn law_an_index_is_used_as_its_attributes_say(
    after: TpmState,
    before: TpmState,
    req: RequestView,
    r: TpmResult<Response>,
)
    requires
        r is Ok,
    ensures
        nv_write_ran(after, before, req, r) ==> write_allowed(
            index_in(before, req),
            req.handles[0],
        ),
        nv_increment_ran(after, before, req, r) ==> write_allowed(
            index_in(before, req),
            req.handles[0],
        ),
        nv_extend_ran(after, before, req, r) ==> write_allowed(
            index_in(before, req),
            req.handles[0],
        ),
        nv_set_bits_ran(after, before, req, r) ==> write_allowed(
            index_in(before, req),
            req.handles[0],
        ),
        nv_read_ran(before, req, r) ==> read_allowed(index_in(before, req), req.handles[0]),
{
    let a = index_in(before, req).public.attributes.0;
    lemma_attribute_bits(a);
}

/// TPM2_NV_WriteLock locks the Index and says so in its attributes. Nothing it holds
/// changes, and it takes an Index whose attributes allow the lock.
pub proof fn law_a_write_lock_stops_writes(
    after: TpmState,
    before: TpmState,
    req: RequestView,
    r: TpmResult<Response>,
)
    requires
        nv_write_lock_ran(after, before, req, r),
        r is Ok,
    ensures
        ({
            let was = index_in(before, req);
            let now = index_in(after, req);
            &&& before.nv.indices@.contains_key(req.handles[1])
            &&& others_kept(after, before, req.handles[1])
            &&& now.write_locked
            &&& now.public.attributes.0 & 0x800 != 0
            &&& now.public.attributes.0 & 0xFFFF_F7FF == was.public.attributes.0 & 0xFFFF_F7FF
            &&& was.public.attributes.0 & 0x6000 != 0
            &&& now.data == was.data
            &&& now.auth == was.auth
            &&& now.read_locked == was.read_locked
        }),
        forall|last: TpmState, again: RequestView, s: TpmResult<Response>|
            again.handles.len() > 1 && again.handles[1] == req.handles[1] && #[trigger] nv_write_ran(
                last,
                after,
                again,
                s,
            ) ==> s is Err && last == after,
{
    let a = index_in(before, req).public.attributes.0;
    lemma_attribute_bits(a);
}

/// TPM2_NV_ReadLock locks the Index against reads, as its attributes allow, and says
/// so in them. Nothing it holds changes.
pub proof fn law_a_read_lock_stops_reads(
    after: TpmState,
    before: TpmState,
    req: RequestView,
    r: TpmResult<Response>,
)
    requires
        nv_read_lock_ran(after, before, req, r),
        r is Ok,
    ensures
        ({
            let was = index_in(before, req);
            let now = index_in(after, req);
            &&& before.nv.indices@.contains_key(req.handles[1])
            &&& others_kept(after, before, req.handles[1])
            &&& now.read_locked
            &&& now.public.attributes.0 & 0x1000_0000 != 0
            &&& now.public.attributes.0 & 0xEFFF_FFFF == was.public.attributes.0 & 0xEFFF_FFFF
            &&& was.public.attributes.0 & 0x8000_0000 != 0
            &&& now.data == was.data
            &&& now.auth == was.auth
            &&& now.write_locked == was.write_locked
        }),
        forall|again: RequestView, s: TpmResult<Response>|
            again.handles.len() > 1 && again.handles[1] == req.handles[1] && #[trigger] nv_read_ran(
                after,
                again,
                s,
            ) ==> s is Err,
{
    let a = index_in(before, req).public.attributes.0;
    lemma_attribute_bits(a);
}

/// TPM2_NV_GlobalWriteLock locks exactly the Indices whose attributes ask for it, and
/// changes nothing of the others.
pub proof fn law_the_global_lock_takes_those_that_ask(
    after: TpmState,
    before: TpmState,
    r: TpmResult<Response>,
    h: u32,
)
    requires
        nv_global_write_lock_ran(after, before, r),
        before.nv.indices@.contains_key(h),
    ensures
        r is Ok,
        after.nv.indices@.contains_key(h),
        after.nv.indices@[h].data == before.nv.indices@[h].data,
        before.nv.indices@[h].public.attributes.0 & 0x8000 != 0 ==> after.nv.indices@[h].write_locked
            && after.nv.indices@[h].public.attributes.0 & 0x800 != 0,
        before.nv.indices@[h].public.attributes.0 & 0x8000 == 0 ==> after.nv.indices@[h]
            == before.nv.indices@[h],
{
    let a = before.nv.indices@[h].public.attributes.0;
    lemma_attribute_bits(a);
}

/// TPM2_NV_ChangeAuth puts in the value given, and changes nothing else.
pub proof fn law_changing_the_value_of_an_index(
    after: TpmState,
    before: TpmState,
    req: RequestView,
    value: Seq<u8>,
    r: TpmResult<Response>,
)
    requires
        nv_change_auth_ran(after, before, req, r),
        r is Ok,
        req.parameters.len() == 2 + value.len(),
        be16(req.parameters, 0) == value.len(),
        req.parameters.skip(2) == value,
    ensures
        ({
            let h = req.handles[0];
            let was = before.nv.indices@[h];
            let now = after.nv.indices@[h];
            &&& others_kept(after, before, h)
            &&& now.auth@ == value
            &&& now.data == was.data
            &&& now.public == was.public
            &&& now.read_locked == was.read_locked
            &&& now.write_locked == was.write_locked
        }),
{
    assert(req.parameters.subrange(2, 2int + value.len()) =~= value);
}

/// TPM2_NV_DefineSpace adds one Index that holds nothing yet: it is neither written
/// nor locked, and a read of it fails. The others stay.
pub proof fn law_a_defined_index_is_empty(
    after: TpmState,
    before: TpmState,
    req: RequestView,
    h: u32,
    r: TpmResult<Response>,
)
    requires
        nv_define_space_ran(after, before, req, r),
        r is Ok,
        after.nv.indices@.contains_key(h),
        !before.nv.indices@.contains_key(h),
    ensures
        ({
            let i = after.nv.indices@[h];
            &&& i.public.nv_index == h
            &&& !was_written(i)
            &&& !i.read_locked
            &&& !i.write_locked
            &&& i.auth@ == req.parameters.subrange(2, 2 + be16(req.parameters, 0))
            &&& (i.public.attributes.0 & 0x4000_0000 != 0) <==> req.handles[0] == rh::PLATFORM
        }),
        after.nv.indices@.remove(h) == before.nv.indices@,
        forall|k: u32| k != h && #[trigger] after.nv.indices@.contains_key(k)
            ==> before.nv.indices@.contains_key(k),
        forall|read: RequestView, s: TpmResult<Response>|
            read.handles.len() > 1 && read.handles[1] == h && #[trigger] nv_read_ran(
                after,
                read,
                s,
            ) ==> s is Err,
{
    let i = after.nv.indices@[h];
    let (auth, p) = define_input(req.parameters)->Ok_0;
    lemma_attribute_bits(i.public.attributes.0);
    lemma_attribute_bits(p.attributes.0);
    assert(h == p.nv_index);
    assert(after.nv.indices@.remove(h) =~= before.nv.indices@);
}

/// TPM2_NV_UndefineSpace removes the Index it names and no other, and only on the
/// authority of who defined it. One that asks for a policy is removed by
/// TPM2_NV_UndefineSpaceSpecial alone.
pub proof fn law_an_index_is_removed_by_who_defined_it(
    after: TpmState,
    before: TpmState,
    req: RequestView,
    r: TpmResult<Response>,
)
    requires
        r is Ok,
    ensures
        nv_undefine_space_ran(after, before, req, r) ==> {
            let a = index_in(before, req).public.attributes.0;
            &&& before.nv.indices@.contains_key(req.handles[1])
            &&& after.nv.indices@ == before.nv.indices@.remove(req.handles[1])
            &&& a & 0x400 == 0
            &&& req.handles[0] == (if a & 0x4000_0000 != 0 {
                rh::PLATFORM
            } else {
                rh::OWNER
            })
        },
        nv_undefine_space_special_ran(after, before, req, r) ==> {
            &&& before.nv.indices@.contains_key(req.handles[0])
            &&& after.nv.indices@ == before.nv.indices@.remove(req.handles[0])
            &&& before.nv.indices@[req.handles[0]].public.attributes.0 & 0x400 != 0
            &&& req.handles[1] == rh::PLATFORM
        },
{
    lemma_attribute_bits(index_in(before, req).public.attributes.0);
    lemma_attribute_bits(before.nv.indices@[req.handles[0]].public.attributes.0);
}

/// NV_ReadPublic answers with the public area of an Index and its Name.
pub proof fn law_read_public_answers_with_the_name(
    state: TpmState,
    req: RequestView,
    r: TpmResult<Response>,
)
    requires
        nv_read_public_ran(state, req, r),
        r is Ok,
    ensures
        req.handles.len() > 0,
        state.nv.indices@.contains_key(req.handles[0]),
        ({
            let i = state.nv.indices@[req.handles[0]];
            r->Ok_0.parameters@ == sized(i.public@.octets()) + sized(i.name_of())
        }),
{
}

} // verus!
