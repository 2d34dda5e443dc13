//! What the TPM says of itself.

use vstd::prelude::*;

use crate::tpm::commands::capability::{
    capability_is, fixed_value, has_handle, properties_from, property_value, variable_value,
    PROPERTIES,
};
use crate::tpm::commands::table::{attributes_of, CommandInfo};
use crate::tpm::engine::state::TpmState;
use crate::tpm::structures::capability::Capabilities;

verus! {

proof fn lemma_permanent(p: u32, o: bool, e: bool, l: bool, i: bool)
    by (bit_vector)
    ensures
        ({
            let a = if o {
                p | 1
            } else {
                p & !1u32
            };
            let b = if e {
                a | 2
            } else {
                a & !2u32
            };
            let c = if l {
                b | 4
            } else {
                b & !4u32
            };
            let d = if i {
                c | 0x200
            } else {
                c & !0x200u32
            };
            &&& (d & 1 == 1) == o
            &&& (d & 2 == 2) == e
            &&& (d & 4 == 4) == l
            &&& (d & 0x200 == 0x200) == i
            &&& d & 0xFFFF_FDF8 == p & 0xFFFF_FDF8
        }),
{
}

/// The permanent attributes show which values are set and whether the lockout is barred.
pub proof fn law_the_permanent_attributes_show_the_values(state: TpmState)
    ensures
        ({
            let v = property_value(state, 0x200);
            &&& (v & 1 == 1) == (state.hierarchies.owner.auth@.len() > 0)
            &&& (v & 2 == 2) == (state.hierarchies.endorsement.auth@.len() > 0)
            &&& (v & 4 == 4) == (state.lockout_auth@.len() > 0)
            &&& (v & 0x200 == 0x200) == state.lockout.in_lockout
            &&& v & 0xFFFF_FDF8 == state.permanent.0 & 0xFFFF_FDF8
        }),
{
    reveal(variable_value);
    lemma_permanent(
        state.permanent.0,
        state.hierarchies.owner.auth@.len() > 0,
        state.hierarchies.endorsement.auth@.len() > 0,
        state.lockout_auth@.len() > 0,
        state.lockout.in_lockout,
    );
}

proof fn lemma_counter(c: u64)
    by (bit_vector)
    ensures
        ((c >> 32) as u32) as u64 == c >> 32,
        (c as u32) as u64 == c & 0xFFFF_FFFF,
{
}

/// The properties that vary are those of the state.
pub proof fn law_the_variable_properties(state: TpmState)
    ensures
        property_value(state, 0x201) == state.startup_clear.0,
        state.nv.indices@.dom().len() <= u32::MAX ==> property_value(state, 0x202)
            == state.nv.indices@.dom().len(),
        state.objects.slots@.dom().len() <= 3 ==> property_value(state, 0x203)
            == state.objects.slots@.dom().len() && property_value(state, 0x204) == 3
            - state.objects.slots@.dom().len() && property_value(state, 0x207) == 3
            - state.objects.slots@.dom().len(),
        state.sessions.loaded@.dom().len() + state.sessions.saved@.dom().len() <= 64
            ==> property_value(state, 0x205) == state.sessions.loaded@.dom().len()
            + state.sessions.saved@.dom().len() && property_value(state, 0x206) == 64 - (
        state.sessions.loaded@.dom().len() + state.sessions.saved@.dom().len()),
        state.persistent@.dom().len() <= 7 ==> property_value(state, 0x208)
            == state.persistent@.dom().len() && property_value(state, 0x209) == 7
            - state.persistent@.dom().len(),
        property_value(state, 0x20C) == state.algorithm_set,
        property_value(state, 0x20E) == state.lockout.failed_tries,
        property_value(state, 0x20F) == state.lockout.max_tries,
        property_value(state, 0x210) == state.lockout.recovery_time,
        property_value(state, 0x211) == state.lockout.lockout_recovery,
        property_value(state, 0x213) == state.audit.counter >> 32,
        property_value(state, 0x214) == state.audit.counter & 0xFFFF_FFFF,
{
    reveal(variable_value);
    lemma_counter(state.audit.counter);
}

/// The properties that are fixed do not depend on the state: the family, the number of
/// registers, the largest digest and the sizes that the TPM keeps to.
pub proof fn law_the_fixed_properties(state: TpmState, other: TpmState, code: u32)
    ensures
        code < 0x200 ==> property_value(state, code) == property_value(other, code),
        property_value(state, 0x100) == 0x322E_3000,
        property_value(state, 0x10E) == 3,
        property_value(state, 0x10F) == 7,
        property_value(state, 0x110) == 3,
        property_value(state, 0x111) == 64,
        property_value(state, 0x112) == 24,
        property_value(state, 0x113) == 3,
        property_value(state, 0x117) == 2048,
        property_value(state, 0x11A) == 0x000B,
        property_value(state, 0x11B) == 0x0006,
        property_value(state, 0x11C) == 256,
        property_value(state, 0x11E) == 4096,
        property_value(state, 0x11F) == 4096,
        property_value(state, 0x120) == 64,
        property_value(state, 0x12C) == 1024,
        property_value(state, 0x12E) == 1024,
{
    reveal(fixed_value);
}

proof fn lemma_properties(state: TpmState, least: u32, n: nat)
    requires
        n <= PROPERTIES@.len(),
    ensures
        forall|i: int|
            0 <= i < properties_from(state, least, n).len() ==> (#[trigger] properties_from(
                state,
                least,
                n,
            )[i]).property >= least && properties_from(state, least, n)[i].value == property_value(
                state,
                properties_from(state, least, n)[i].property,
            ),
        forall|k: int|
            0 <= k < n && PROPERTIES@[k] >= least ==> exists|i: int|
                0 <= i < properties_from(state, least, n).len() && (#[trigger] properties_from(
                    state,
                    least,
                    n,
                )[i]).property == #[trigger] PROPERTIES@[k],
    decreases n,
{
    if n > 0 {
        lemma_properties(state, least, (n - 1) as nat);
        let was = properties_from(state, least, (n - 1) as nat);
        let now = properties_from(state, least, n);
        assert forall|k: int| 0 <= k < n && PROPERTIES@[k] >= least implies exists|i: int|
            0 <= i < now.len() && (#[trigger] now[i]).property == #[trigger] PROPERTIES@[k] by {
            if k == n - 1 {
                assert(now[now.len() - 1].property == PROPERTIES@[k]);
            } else {
                let i = choose|i: int|
                    0 <= i < was.len() && (#[trigger] was[i]).property == PROPERTIES@[k];
                assert(now[i] == was[i]);
            }
        }
    }
}

/// The properties answered are those from the one asked for on, with their values, no
/// more than were asked for, and `more` says whether there are others.
pub proof fn law_properties_are_answered_with_their_values(
    state: TpmState,
    property: u32,
    count: nat,
    more: bool,
    data: Capabilities,
    i: int,
)
    requires
        capability_is(state, 6, property, count, more, data),
        data matches Capabilities::TpmProperties(l) && 0 <= i < l.items@.len(),
    ensures
        data matches Capabilities::TpmProperties(l) && {
            &&& l.items@[i].property >= property
            &&& l.items@[i].value == property_value(state, l.items@[i].property)
            &&& l.items@.len() <= count
        },
{
    reveal(capability_is);
    lemma_properties(state, property, PROPERTIES@.len());
    let all = properties_from(state, property, PROPERTIES@.len());
    match data {
        Capabilities::TpmProperties(l) => {
            assert(l.items@[i] == all[i]);
        },
        _ => {},
    }
}

proof fn lemma_range(property: u32)
    by (bit_vector)
    ensures
        0x8000_0000 <= property < 0x8100_0000 ==> (property >> 24) as u8 == 0x80,
        0x8100_0000 <= property < 0x8200_0000 ==> (property >> 24) as u8 == 0x81,
        0x0100_0000 <= property < 0x0200_0000 ==> (property >> 24) as u8 == 0x01,
        0x0200_0000 <= property < 0x0300_0000 ==> (property >> 24) as u8 == 0x02,
        0x0300_0000 <= property < 0x0400_0000 ==> (property >> 24) as u8 == 0x03,
{
}

/// The handles answered are in use, from the one asked for on, in order. Where `more`
/// is not said, none is left out.
pub proof fn law_handles_answered_are_in_use(
    state: TpmState,
    property: u32,
    count: nat,
    more: bool,
    data: Capabilities,
    h: u32,
)
    requires
        capability_is(state, 1, property, count, more, data),
        data is Handles,
        h >= property,
    ensures
        ({
            let items = data->Handles_0.items@;
            let used = if property >= 0x8100_0000 {
                state.persistent@.contains_key(h)
            } else if property >= 0x8000_0000 {
                state.objects.slots@.contains_key(h)
            } else {
                state.nv.indices@.contains_key(h)
            };
            (0x0100_0000 <= property < 0x0200_0000 || 0x8000_0000 <= property < 0x8200_0000) ==> {
                &&& items.contains(h) ==> used
                &&& !more && used ==> items.contains(h)
                &&& items.len() <= count
                &&& forall|a: int, b: int|
                    0 <= a < b < items.len() ==> #[trigger] items[a] < #[trigger] items[b]
            }
        }),
{
    reveal(capability_is);
    lemma_range(property);
    let items = data->Handles_0.items@;
    let all = choose|all: Seq<u32>| #[trigger]
        crate::tpm::commands::capability::handle_list(all, state, property)
            && crate::tpm::commands::capability::part_of(
            items,
            more,
            all,
            count,
            crate::tpm::structures::capability::MAX_CAP_HANDLES as nat,
        );
    assert(all.contains(h) <==> has_handle(state, (property >> 24) as u8, h) && h >= property);
    if items.contains(h) {
        let k = choose|k: int| 0 <= k < items.len() && items[k] == h;
        assert(all[k] == h);
    }
}

/// The attributes of a command: its index, whether it writes NV, flushes much or its
/// own context, how many handles it has, whether it answers with one and whether it is
/// the vendor's.
pub proof fn law_command_attributes(info: CommandInfo)
    requires
        info.handles <= 3,
    ensures
        ({
            let a = attributes_of(info);
            &&& a & 0xFFFF == info.code & 0xFFFF
            &&& (a & 0x0040_0000 != 0) == info.nv
            &&& (a & 0x0080_0000 != 0) == info.extensive
            &&& (a & 0x0100_0000 != 0) == info.flushed
            &&& (a >> 25) & 7 == info.handles
            &&& (a & 0x1000_0000 != 0) == info.response_handle
            &&& (a & 0x2000_0000 != 0) == (info.code >= 0x2000_0000)
        }),
{
    lemma_attributes(
        info.code,
        info.handles as u32,
        if info.nv {
            0x0040_0000
        } else {
            0
        },
        if info.extensive {
            0x0080_0000
        } else {
            0
        },
        if info.flushed {
            0x0100_0000
        } else {
            0
        },
        if info.response_handle {
            0x1000_0000
        } else {
            0
        },
        if info.code >= 0x2000_0000 {
            0x2000_0000
        } else {
            0
        },
    );
}

proof fn lemma_attributes(code: u32, n: u32, nv: u32, many: u32, own: u32, handle: u32, vendor: u32)
    by (bit_vector)
    requires
        n <= 3,
        nv == 0 || nv == 0x0040_0000,
        many == 0 || many == 0x0080_0000,
        own == 0 || own == 0x0100_0000,
        handle == 0 || handle == 0x1000_0000,
        vendor == 0 || vendor == 0x2000_0000,
    ensures
        ({
            let a = (code & 0xFFFF) | nv | many | own | (n << 25) | handle | vendor;
            &&& a & 0xFFFF == code & 0xFFFF
            &&& a & 0x0040_0000 == nv
            &&& a & 0x0080_0000 == many
            &&& a & 0x0100_0000 == own
            &&& (a >> 25) & 7 == n
            &&& a & 0x1000_0000 == handle
            &&& a & 0x2000_0000 == vendor
        }),
{
}

} // verus!
