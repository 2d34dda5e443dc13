//! TPM2_GetCapability.

use vstd::prelude::*;

use super::dispatch::{Request, RequestView, Response};
use super::execute::respond;
use super::table::{
    at, attributes, attributes_of, info_of, CommandInfo, COMMANDS, COMMAND_COUNT, LIBRARY_COUNT,
    ROWS,
};
use super::wire::{alone, answers_with, fails, in_u32, read_u32};
use crate::tpm::config;
use crate::tpm::constants::{alg, cap, hc, ht, pt, pt_pcr, rc, rh};
use crate::tpm::engine::nv_store::counters;
use crate::tpm::engine::pcr::{
    counts, extend_localities, is_saved, reset_localities, spec_extend_localities,
    spec_reset_localities, starts_at_ones,
};
use crate::tpm::engine::state::{persistent_wf, TpmState};
use crate::tpm::error::{TpmRc, TpmResult};
use crate::tpm::marshal::Writer;
use crate::tpm::structures::attest::yes_no_octet;
use crate::tpm::structures::attributes::PermanentAttributes;
use crate::tpm::structures::base::TpmtHa;
use crate::tpm::structures::capability::{
    items_octets, ActData, AlgProperty, Capabilities, ListItem, TaggedPcrSelect, TaggedPolicy,
    TaggedProperty, Tpml, MAX_ACT_DATA, MAX_CAP_ALGS, MAX_CAP_CC, MAX_CAP_HANDLES, MAX_ECC_CURVES, MAX_PCR_PROPERTIES,
    MAX_TAGGED_POLICIES, MAX_TPM_PROPERTIES,
};
use crate::tpm::structures::lists::{PcrSelect, PcrSelection};
use crate::util::bytes::{octets16, octets32, sub_vec};
use crate::util::listing::{
    ascending, at_least, first_of, keep_from, lemma_at_least, lemma_one_list, take,
};

verus! {

/// TPMA_MEMORY: objects and NV share their memory.
pub const MEMORY_SHARED_NV: u32 = 0x0000_0002;

/// A count that fits a property.
pub open spec fn capped(n: int) -> u32 {
    if n > u32::MAX {
        u32::MAX
    } else {
        n as u32
    }
}

/// How many are left of `limit`.
pub open spec fn left(limit: int, used: int) -> u32 {
    if used >= limit {
        0
    } else {
        (limit - used) as u32
    }
}

fn cap32(n: usize) -> (r: u32)
    ensures
        r == capped(n as int),
{
    if n as u64 > 0xFFFF_FFFF {
        u32::MAX
    } else {
        n as u32
    }
}

fn left_of(limit: usize, used: usize) -> (r: u32)
    requires
        limit <= 0xFFFF_FFFF,
    ensures
        r == left(limit as int, used as int),
{
    if used >= limit {
        0
    } else {
        (limit - used) as u32
    }
}

/// How many sessions are active, as many as can be counted.
pub open spec fn active_count(state: TpmState) -> int {
    let n = state.sessions.loaded@.dom().len() + state.sessions.saved@.dom().len();
    if n > usize::MAX {
        usize::MAX as int
    } else {
        n as int
    }
}

/// TPMA_PERMANENT as it stands now.
pub open spec fn permanent_of(state: TpmState) -> PermanentAttributes {
    state.permanent.put(
        PermanentAttributes::OWNER_AUTH_SET,
        state.hierarchies.owner.auth@.len() > 0,
    ).put(
        PermanentAttributes::ENDORSEMENT_AUTH_SET,
        state.hierarchies.endorsement.auth@.len() > 0,
    ).put(PermanentAttributes::LOCKOUT_AUTH_SET, state.lockout_auth@.len() > 0).put(
        PermanentAttributes::IN_LOCKOUT,
        state.lockout.in_lockout,
    )
}

/// TPMA_PERMANENT as it stands now.
pub fn permanent_attributes(state: &TpmState) -> (r: PermanentAttributes)
    ensures
        r == permanent_of(*state),
{
    let mut a: PermanentAttributes = state.permanent;
    a.set(PermanentAttributes::OWNER_AUTH_SET, state.hierarchies.owner.has_auth());
    a.set(PermanentAttributes::ENDORSEMENT_AUTH_SET, state.hierarchies.endorsement.has_auth());
    a.set(PermanentAttributes::LOCKOUT_AUTH_SET, state.lockout_auth.len() > 0);
    a.set(PermanentAttributes::IN_LOCKOUT, state.lockout.in_lockout);
    a
}

/// The TPM properties there are, ascending.
pub const PROPERTIES: [u32; 70] = [
    pt::FAMILY_INDICATOR,
    pt::LEVEL,
    pt::REVISION,
    pt::ERRATA,
    pt::YEAR,
    pt::MANUFACTURER,
    pt::VENDOR_STRING_1,
    pt::VENDOR_STRING_2,
    pt::VENDOR_STRING_3,
    pt::VENDOR_STRING_4,
    pt::VENDOR_TPM_TYPE,
    pt::FIRMWARE_VERSION_1,
    pt::FIRMWARE_VERSION_2,
    pt::INPUT_BUFFER,
    pt::HR_TRANSIENT_MIN,
    pt::HR_PERSISTENT_MIN,
    pt::HR_LOADED_MIN,
    pt::ACTIVE_SESSIONS_MAX,
    pt::PCR_COUNT,
    pt::PCR_SELECT_MIN,
    pt::CONTEXT_GAP_MAX,
    pt::NV_COUNTERS_MAX,
    pt::NV_INDEX_MAX,
    pt::MEMORY,
    pt::CLOCK_UPDATE,
    pt::CONTEXT_HASH,
    pt::CONTEXT_SYM,
    pt::CONTEXT_SYM_SIZE,
    pt::ORDERLY_COUNT,
    pt::MAX_COMMAND_SIZE,
    pt::MAX_RESPONSE_SIZE,
    pt::MAX_DIGEST,
    pt::MAX_OBJECT_CONTEXT,
    pt::MAX_SESSION_CONTEXT,
    pt::PS_FAMILY_INDICATOR,
    pt::PS_LEVEL,
    pt::PS_REVISION,
    pt::PS_DAY_OF_YEAR,
    pt::PS_YEAR,
    pt::SPLIT_MAX,
    pt::TOTAL_COMMANDS,
    pt::LIBRARY_COMMANDS,
    pt::VENDOR_COMMANDS,
    pt::NV_BUFFER_MAX,
    pt::MODES,
    pt::MAX_CAP_BUFFER,
    pt::FIRMWARE_SVN,
    pt::FIRMWARE_MAX_SVN,
    pt::ML_PARAMETER_SETS,
    pt::PERMANENT,
    pt::STARTUP_CLEAR,
    pt::HR_NV_INDEX,
    pt::HR_LOADED,
    pt::HR_LOADED_AVAIL,
    pt::HR_ACTIVE,
    pt::HR_ACTIVE_AVAIL,
    pt::HR_TRANSIENT_AVAIL,
    pt::HR_PERSISTENT,
    pt::HR_PERSISTENT_AVAIL,
    pt::NV_COUNTERS,
    pt::NV_COUNTERS_AVAIL,
    pt::ALGORITHM_SET,
    pt::LOADED_CURVES,
    pt::LOCKOUT_COUNTER,
    pt::MAX_AUTH_FAIL,
    pt::LOCKOUT_INTERVAL,
    pt::LOCKOUT_RECOVERY,
    pt::NV_WRITE_RECOVERY,
    pt::AUDIT_COUNTER_0,
    pt::AUDIT_COUNTER_1,
];

/// A property that never changes.
#[verifier::opaque]
pub open spec fn fixed_value(code: u32) -> u32 {
    if code == pt::FAMILY_INDICATOR {
        pt::SPEC_FAMILY
    } else if code == pt::LEVEL {
        pt::SPEC_LEVEL
    } else if code == pt::REVISION {
        pt::SPEC_VERSION
    } else if code == pt::ERRATA {
        pt::SPEC_ERRATA
    } else if code == pt::YEAR {
        pt::SPEC_YEAR
    } else if code == pt::MANUFACTURER {
        config::MANUFACTURER
    } else if code == pt::VENDOR_STRING_1 {
        config::VENDOR_STRING_1
    } else if code == pt::VENDOR_STRING_2 {
        config::VENDOR_STRING_2
    } else if code == pt::VENDOR_STRING_3 {
        config::VENDOR_STRING_3
    } else if code == pt::VENDOR_STRING_4 {
        config::VENDOR_STRING_4
    } else if code == pt::VENDOR_TPM_TYPE {
        config::VENDOR_TPM_TYPE
    } else if code == pt::FIRMWARE_VERSION_1 {
        config::FIRMWARE_VERSION_1
    } else if code == pt::FIRMWARE_VERSION_2 {
        config::FIRMWARE_VERSION_2
    } else if code == pt::INPUT_BUFFER {
        config::MAX_COMMAND_SIZE
    } else if code == pt::HR_TRANSIENT_MIN {
        config::MAX_LOADED_OBJECTS as u32
    } else if code == pt::HR_PERSISTENT_MIN {
        config::MIN_EVICT_OBJECTS as u32
    } else if code == pt::HR_LOADED_MIN {
        config::MAX_LOADED_SESSIONS as u32
    } else if code == pt::ACTIVE_SESSIONS_MAX {
        config::MAX_ACTIVE_SESSIONS as u32
    } else if code == pt::PCR_COUNT {
        config::IMPLEMENTATION_PCR as u32
    } else if code == pt::PCR_SELECT_MIN {
        config::PCR_SELECT_MIN as u32
    } else if code == pt::CONTEXT_GAP_MAX {
        config::CONTEXT_GAP_MAX
    } else if code == pt::NV_COUNTERS_MAX {
        config::MIN_COUNTER_INDICES
    } else if code == pt::NV_INDEX_MAX {
        config::MAX_NV_INDEX_SIZE as u32
    } else if code == pt::MEMORY {
        MEMORY_SHARED_NV
    } else if code == pt::CLOCK_UPDATE {
        config::NV_CLOCK_UPDATE_INTERVAL
    } else if code == pt::CONTEXT_HASH {
        config::CONTEXT_INTEGRITY_HASH_ALG as u32
    } else if code == pt::CONTEXT_SYM {
        config::CONTEXT_ENCRYPT_ALG as u32
    } else if code == pt::CONTEXT_SYM_SIZE {
        config::CONTEXT_ENCRYPT_KEY_BITS as u32
    } else if code == pt::ORDERLY_COUNT {
        255
    } else if code == pt::MAX_COMMAND_SIZE {
        config::MAX_COMMAND_SIZE
    } else if code == pt::MAX_RESPONSE_SIZE {
        config::MAX_RESPONSE_SIZE
    } else if code == pt::MAX_DIGEST {
        64
    } else if code == pt::MAX_OBJECT_CONTEXT {
        config::MAX_OBJECT_CONTEXT
    } else if code == pt::MAX_SESSION_CONTEXT {
        config::MAX_SESSION_CONTEXT
    } else if code == pt::PS_FAMILY_INDICATOR {
        pt::PS_PC
    } else if code == pt::PS_LEVEL {
        0
    } else if code == pt::PS_REVISION {
        config::PS_REVISION
    } else if code == pt::PS_DAY_OF_YEAR {
        0
    } else if code == pt::PS_YEAR {
        0
    } else if code == pt::SPLIT_MAX {
        config::MAX_COMMIT_SEQUENCES as u32
    } else if code == pt::TOTAL_COMMANDS {
        COMMAND_COUNT as u32
    } else if code == pt::LIBRARY_COMMANDS {
        LIBRARY_COUNT as u32
    } else if code == pt::VENDOR_COMMANDS {
        (COMMAND_COUNT - LIBRARY_COUNT) as u32
    } else if code == pt::NV_BUFFER_MAX {
        config::MAX_NV_BUFFER_SIZE as u32
    } else if code == pt::MODES {
        0
    } else if code == pt::MAX_CAP_BUFFER {
        config::MAX_CAP_BUFFER as u32
    } else if code == pt::FIRMWARE_SVN {
        0
    } else if code == pt::FIRMWARE_MAX_SVN {
        0
    } else if code == pt::ML_PARAMETER_SETS {
        0
    } else {
        0
    }
}

fn read_fixed(code: u32) -> (r: u32)
    ensures
        r == fixed_value(code),
{
    proof {
        reveal(fixed_value);
    }
    if code == pt::FAMILY_INDICATOR {
        pt::SPEC_FAMILY
    } else if code == pt::LEVEL {
        pt::SPEC_LEVEL
    } else if code == pt::REVISION {
        pt::SPEC_VERSION
    } else if code == pt::ERRATA {
        pt::SPEC_ERRATA
    } else if code == pt::YEAR {
        pt::SPEC_YEAR
    } else if code == pt::MANUFACTURER {
        config::MANUFACTURER
    } else if code == pt::VENDOR_STRING_1 {
        config::VENDOR_STRING_1
    } else if code == pt::VENDOR_STRING_2 {
        config::VENDOR_STRING_2
    } else if code == pt::VENDOR_STRING_3 {
        config::VENDOR_STRING_3
    } else if code == pt::VENDOR_STRING_4 {
        config::VENDOR_STRING_4
    } else if code == pt::VENDOR_TPM_TYPE {
        config::VENDOR_TPM_TYPE
    } else if code == pt::FIRMWARE_VERSION_1 {
        config::FIRMWARE_VERSION_1
    } else if code == pt::FIRMWARE_VERSION_2 {
        config::FIRMWARE_VERSION_2
    } else if code == pt::INPUT_BUFFER {
        config::MAX_COMMAND_SIZE
    } else if code == pt::HR_TRANSIENT_MIN {
        config::MAX_LOADED_OBJECTS as u32
    } else if code == pt::HR_PERSISTENT_MIN {
        config::MIN_EVICT_OBJECTS as u32
    } else if code == pt::HR_LOADED_MIN {
        config::MAX_LOADED_SESSIONS as u32
    } else if code == pt::ACTIVE_SESSIONS_MAX {
        config::MAX_ACTIVE_SESSIONS as u32
    } else if code == pt::PCR_COUNT {
        config::IMPLEMENTATION_PCR as u32
    } else if code == pt::PCR_SELECT_MIN {
        config::PCR_SELECT_MIN as u32
    } else if code == pt::CONTEXT_GAP_MAX {
        config::CONTEXT_GAP_MAX
    } else if code == pt::NV_COUNTERS_MAX {
        config::MIN_COUNTER_INDICES
    } else if code == pt::NV_INDEX_MAX {
        config::MAX_NV_INDEX_SIZE as u32
    } else if code == pt::MEMORY {
        MEMORY_SHARED_NV
    } else if code == pt::CLOCK_UPDATE {
        config::NV_CLOCK_UPDATE_INTERVAL
    } else if code == pt::CONTEXT_HASH {
        config::CONTEXT_INTEGRITY_HASH_ALG as u32
    } else if code == pt::CONTEXT_SYM {
        config::CONTEXT_ENCRYPT_ALG as u32
    } else if code == pt::CONTEXT_SYM_SIZE {
        config::CONTEXT_ENCRYPT_KEY_BITS as u32
    } else if code == pt::ORDERLY_COUNT {
        255
    } else if code == pt::MAX_COMMAND_SIZE {
        config::MAX_COMMAND_SIZE
    } else if code == pt::MAX_RESPONSE_SIZE {
        config::MAX_RESPONSE_SIZE
    } else if code == pt::MAX_DIGEST {
        64
    } else if code == pt::MAX_OBJECT_CONTEXT {
        config::MAX_OBJECT_CONTEXT
    } else if code == pt::MAX_SESSION_CONTEXT {
        config::MAX_SESSION_CONTEXT
    } else if code == pt::PS_FAMILY_INDICATOR {
        pt::PS_PC
    } else if code == pt::PS_LEVEL {
        0
    } else if code == pt::PS_REVISION {
        config::PS_REVISION
    } else if code == pt::PS_DAY_OF_YEAR {
        0
    } else if code == pt::PS_YEAR {
        0
    } else if code == pt::SPLIT_MAX {
        config::MAX_COMMIT_SEQUENCES as u32
    } else if code == pt::TOTAL_COMMANDS {
        COMMAND_COUNT as u32
    } else if code == pt::LIBRARY_COMMANDS {
        LIBRARY_COUNT as u32
    } else if code == pt::VENDOR_COMMANDS {
        (COMMAND_COUNT - LIBRARY_COUNT) as u32
    } else if code == pt::NV_BUFFER_MAX {
        config::MAX_NV_BUFFER_SIZE as u32
    } else if code == pt::MODES {
        0
    } else if code == pt::MAX_CAP_BUFFER {
        config::MAX_CAP_BUFFER as u32
    } else if code == pt::FIRMWARE_SVN {
        0
    } else if code == pt::FIRMWARE_MAX_SVN {
        0
    } else if code == pt::ML_PARAMETER_SETS {
        0
    } else {
        0
    }
}

/// A property that follows the state.
#[verifier::opaque]
pub open spec fn variable_value(state: TpmState, code: u32) -> u32 {
    if code == pt::PERMANENT {
        permanent_of(state).0
    } else if code == pt::STARTUP_CLEAR {
        state.startup_clear.0
    } else if code == pt::HR_NV_INDEX {
        capped(state.nv.indices@.dom().len() as int)
    } else if code == pt::HR_LOADED {
        capped(state.objects.slots@.dom().len() as int)
    } else if code == pt::HR_LOADED_AVAIL {
        left(config::MAX_LOADED_OBJECTS as int, state.objects.slots@.dom().len() as int)
    } else if code == pt::HR_ACTIVE {
        capped(active_count(state))
    } else if code == pt::HR_ACTIVE_AVAIL {
        left(config::MAX_ACTIVE_SESSIONS as int, active_count(state))
    } else if code == pt::HR_TRANSIENT_AVAIL {
        left(config::MAX_LOADED_OBJECTS as int, state.objects.slots@.dom().len() as int)
    } else if code == pt::HR_PERSISTENT {
        capped(state.persistent@.dom().len() as int)
    } else if code == pt::HR_PERSISTENT_AVAIL {
        left(config::MIN_EVICT_OBJECTS as int, state.persistent@.dom().len() as int)
    } else if code == pt::NV_COUNTERS {
        capped(counters(state.nv.indices.listed()) as int)
    } else if code == pt::NV_COUNTERS_AVAIL {
        left(config::MIN_COUNTER_INDICES as int, counters(state.nv.indices.listed()) as int)
    } else if code == pt::ALGORITHM_SET {
        state.algorithm_set
    } else if code == pt::LOADED_CURVES {
        3
    } else if code == pt::LOCKOUT_COUNTER {
        state.lockout.failed_tries
    } else if code == pt::MAX_AUTH_FAIL {
        state.lockout.max_tries
    } else if code == pt::LOCKOUT_INTERVAL {
        state.lockout.recovery_time
    } else if code == pt::LOCKOUT_RECOVERY {
        state.lockout.lockout_recovery
    } else if code == pt::NV_WRITE_RECOVERY {
        0
    } else if code == pt::AUDIT_COUNTER_0 {
        (state.audit.counter >> 32) as u32
    } else if code == pt::AUDIT_COUNTER_1 {
        state.audit.counter as u32
    } else {
        0
    }
}

fn read_variable(state: &TpmState, code: u32) -> (r: u32)
    requires
        state.wf(),
    ensures
        r == variable_value(*state, code),
{
    proof {
        reveal(variable_value);
        reveal(persistent_wf);
    }
    if code == pt::PERMANENT {
        permanent_attributes(state).0
    } else if code == pt::STARTUP_CLEAR {
        state.startup_clear.0
    } else if code == pt::HR_NV_INDEX {
        cap32(state.nv.len())
    } else if code == pt::HR_LOADED {
        cap32(state.objects.len())
    } else if code == pt::HR_LOADED_AVAIL {
        left_of(config::MAX_LOADED_OBJECTS, state.objects.len())
    } else if code == pt::HR_ACTIVE {
        cap32(state.sessions.active())
    } else if code == pt::HR_ACTIVE_AVAIL {
        left_of(config::MAX_ACTIVE_SESSIONS, state.sessions.active())
    } else if code == pt::HR_TRANSIENT_AVAIL {
        left_of(config::MAX_LOADED_OBJECTS, state.objects.len())
    } else if code == pt::HR_PERSISTENT {
        cap32(state.persistent.len())
    } else if code == pt::HR_PERSISTENT_AVAIL {
        left_of(config::MIN_EVICT_OBJECTS, state.persistent.len())
    } else if code == pt::NV_COUNTERS {
        cap32(state.nv.counter_count())
    } else if code == pt::NV_COUNTERS_AVAIL {
        left_of(config::MIN_COUNTER_INDICES as usize, state.nv.counter_count())
    } else if code == pt::ALGORITHM_SET {
        state.algorithm_set
    } else if code == pt::LOADED_CURVES {
        config::IMPLEMENTED_CURVES.len() as u32
    } else if code == pt::LOCKOUT_COUNTER {
        state.lockout.failed_tries
    } else if code == pt::MAX_AUTH_FAIL {
        state.lockout.max_tries
    } else if code == pt::LOCKOUT_INTERVAL {
        state.lockout.recovery_time
    } else if code == pt::LOCKOUT_RECOVERY {
        state.lockout.lockout_recovery
    } else if code == pt::NV_WRITE_RECOVERY {
        0
    } else if code == pt::AUDIT_COUNTER_0 {
        (state.audit.counter >> 32) as u32
    } else if code == pt::AUDIT_COUNTER_1 {
        state.audit.counter as u32
    } else {
        0
    }
}

/// The value of a TPM property.
pub open spec fn property_value(state: TpmState, code: u32) -> u32 {
    if code < pt::PT_VAR {
        fixed_value(code)
    } else {
        variable_value(state, code)
    }
}

/// The TPM properties among the first `n` that are at least `least`.
pub open spec fn properties_from(state: TpmState, least: u32, n: nat) -> Seq<TaggedProperty>
    decreases n,
{
    if n == 0 {
        Seq::empty()
    } else {
        let code = PROPERTIES@[n - 1];
        let before = properties_from(state, least, (n - 1) as nat);
        if code >= least {
            before.push(TaggedProperty { property: code, value: property_value(state, code) })
        } else {
            before
        }
    }
}

/// The TPM properties from `property` on, ascending.
pub fn tpm_properties(state: &TpmState, property: u32) -> (r: Vec<TaggedProperty>)
    requires
        state.wf(),
    ensures
        r@ == properties_from(*state, property, PROPERTIES@.len()),
{
    let mut out: Vec<TaggedProperty> = Vec::new();
    let mut i: usize = 0;
    assert(out@ =~= properties_from(*state, property, 0));
    while i < PROPERTIES.len()
        invariant
            i <= PROPERTIES@.len(),
            state.wf(),
            out@ == properties_from(*state, property, i as nat),
        decreases PROPERTIES@.len() - i,
    {
        let code: u32 = PROPERTIES[i];
        if code >= property {
            let value: u32 = if code < pt::PT_VAR {
                read_fixed(code)
            } else {
                read_variable(state, code)
            };
            out.push(TaggedProperty { property: code, value });
        }
        i = i + 1;
    }
    out
}

/// The localities that can reset a register: by a command, or locality four by
/// the event that starts a dynamic root of trust.
pub open spec fn reset_capability(i: int) -> u8 {
    if starts_at_ones(i) {
        spec_reset_localities(i) | 0x10
    } else {
        spec_reset_localities(i)
    }
}

/// True when register `i` has the PCR property.
pub open spec fn pcr_has(tag: u32, i: int) -> bool {
    if tag == pt_pcr::SAVE {
        is_saved(i)
    } else if tag == pt_pcr::EXTEND_L0 {
        spec_extend_localities(i) & 0x01 != 0
    } else if tag == pt_pcr::EXTEND_L1 {
        spec_extend_localities(i) & 0x02 != 0
    } else if tag == pt_pcr::EXTEND_L2 {
        spec_extend_localities(i) & 0x04 != 0
    } else if tag == pt_pcr::EXTEND_L3 {
        spec_extend_localities(i) & 0x08 != 0
    } else if tag == pt_pcr::EXTEND_L4 {
        spec_extend_localities(i) & 0x10 != 0
    } else if tag == pt_pcr::RESET_L0 {
        reset_capability(i) & 0x01 != 0
    } else if tag == pt_pcr::RESET_L1 {
        reset_capability(i) & 0x02 != 0
    } else if tag == pt_pcr::RESET_L2 {
        reset_capability(i) & 0x04 != 0
    } else if tag == pt_pcr::RESET_L3 {
        reset_capability(i) & 0x08 != 0
    } else if tag == pt_pcr::RESET_L4 {
        reset_capability(i) & 0x10 != 0
    } else if tag == pt_pcr::NO_INCREMENT {
        !counts(i)
    } else {
        tag == pt_pcr::DRTM_RESET && starts_at_ones(i)
    }
}

fn has_pcr_property(tag: u32, i: u16) -> (r: bool)
    ensures
        r == pcr_has(tag, i as int),
{
    let ones: bool = 17 <= i && i <= 22;
    let extend: u8 = extend_localities(i);
    let reset: u8 = if ones {
        reset_localities(i) | 0x10
    } else {
        reset_localities(i)
    };
    if tag == pt_pcr::SAVE {
        i < 16
    } else if tag == pt_pcr::EXTEND_L0 {
        extend & 0x01 != 0
    } else if tag == pt_pcr::EXTEND_L1 {
        extend & 0x02 != 0
    } else if tag == pt_pcr::EXTEND_L2 {
        extend & 0x04 != 0
    } else if tag == pt_pcr::EXTEND_L3 {
        extend & 0x08 != 0
    } else if tag == pt_pcr::EXTEND_L4 {
        extend & 0x10 != 0
    } else if tag == pt_pcr::RESET_L0 {
        reset & 0x01 != 0
    } else if tag == pt_pcr::RESET_L1 {
        reset & 0x02 != 0
    } else if tag == pt_pcr::RESET_L2 {
        reset & 0x04 != 0
    } else if tag == pt_pcr::RESET_L3 {
        reset & 0x08 != 0
    } else if tag == pt_pcr::RESET_L4 {
        reset & 0x10 != 0
    } else if tag == pt_pcr::NO_INCREMENT {
        i == 16 || i == 21 || i == 22 || i == 23
    } else {
        tag == pt_pcr::DRTM_RESET && ones
    }
}

/// The PCR properties there are, ascending.
pub const PCR_TAGS: [u32; 15] = [
    pt_pcr::SAVE,
    pt_pcr::EXTEND_L0,
    pt_pcr::RESET_L0,
    pt_pcr::EXTEND_L1,
    pt_pcr::RESET_L1,
    pt_pcr::EXTEND_L2,
    pt_pcr::RESET_L2,
    pt_pcr::EXTEND_L3,
    pt_pcr::RESET_L3,
    pt_pcr::EXTEND_L4,
    pt_pcr::RESET_L4,
    pt_pcr::NO_INCREMENT,
    pt_pcr::DRTM_RESET,
    pt_pcr::POLICY,
    pt_pcr::AUTH,
];

/// The registers below `n` that have a property, one bit each.
pub open spec fn pcr_mask(tag: u32, n: nat) -> u32
    decreases n,
{
    if n == 0 {
        0
    } else if pcr_has(tag, n - 1) {
        pcr_mask(tag, (n - 1) as nat) | (1u32 << ((n - 1) as u32))
    } else {
        pcr_mask(tag, (n - 1) as nat)
    }
}

fn select_pcrs(tag: u32) -> (r: PcrSelect)
    ensures
        r == PcrSelect(pcr_mask(tag, 24)),
{
    let mut mask: u32 = 0;
    let mut i: u16 = 0;
    while i < 24
        invariant
            i <= 24,
            mask == pcr_mask(tag, i as nat),
        decreases 24 - i,
    {
        if has_pcr_property(tag, i) {
            mask = mask | (1u32 << (i as u32));
        }
        i = i + 1;
    }
    PcrSelect(mask)
}

/// The PCR properties among the first `n` that are at least `least`.
pub open spec fn pcr_properties_from(least: u32, n: nat) -> Seq<TaggedPcrSelect>
    decreases n,
{
    if n == 0 {
        Seq::empty()
    } else {
        let tag = PCR_TAGS@[n - 1];
        let before = pcr_properties_from(least, (n - 1) as nat);
        if tag >= least {
            before.push(TaggedPcrSelect { tag, select: PcrSelect(pcr_mask(tag, 24)) })
        } else {
            before
        }
    }
}

/// The PCR properties from `property` on, ascending.
pub fn pcr_properties(property: u32) -> (r: Vec<TaggedPcrSelect>)
    ensures
        r@ == pcr_properties_from(property, PCR_TAGS@.len()),
{
    let mut out: Vec<TaggedPcrSelect> = Vec::new();
    let mut i: usize = 0;
    assert(out@ =~= pcr_properties_from(property, 0));
    while i < PCR_TAGS.len()
        invariant
            i <= PCR_TAGS@.len(),
            out@ == pcr_properties_from(property, i as nat),
        decreases PCR_TAGS@.len() - i,
    {
        let tag: u32 = PCR_TAGS[i];
        if tag >= property {
            out.push(TaggedPcrSelect { tag, select: select_pcrs(tag) });
        }
        i = i + 1;
    }
    out
}

/// The permanent handles there are, ascending.
pub const PERMANENT_HANDLES: [u32; 6] = [
    rh::OWNER,
    rh::NULL,
    rh::LOCKOUT,
    rh::ENDORSEMENT,
    rh::PLATFORM,
    rh::PLATFORM_NV,
];

/// True when the TPM has something under `h`, which is in range `range`.
pub open spec fn has_handle(state: TpmState, range: u8, h: u32) -> bool {
    if range == ht::PCR {
        h < 24
    } else if range == ht::NV_INDEX {
        state.nv.indices@.contains_key(h)
    } else if range == ht::HMAC_SESSION {
        state.sessions.is_active(h) && hc::HMAC_SESSION_FIRST <= h <= hc::HMAC_SESSION_LAST
    } else if range == ht::POLICY_SESSION {
        state.sessions.is_active(h) && hc::POLICY_SESSION_FIRST <= h <= hc::POLICY_SESSION_LAST
    } else if range == ht::PERMANENT {
        PERMANENT_HANDLES@.contains(h)
    } else if range == ht::TRANSIENT {
        state.objects.slots@.contains_key(h)
    } else {
        range == ht::PERSISTENT && state.persistent@.contains_key(h)
    }
}

/// The handles in the range of `property` that are at least as high, ascending.
pub open spec fn handle_list(s: Seq<u32>, state: TpmState, property: u32) -> bool {
    &&& ascending(s)
    &&& forall|h: u32| #[trigger]
        s.contains(h) <==> has_handle(state, (property >> 24) as u8, h) && h >= property
}

/// The handles below `limit`.
fn up_to(list: &[u32], first: u32, last: u32) -> (r: Vec<u32>)
    requires
        ascending(list@),
    ensures
        ascending(r@),
        forall|h: u32| #[trigger] r@.contains(h) <==> list@.contains(h) && first <= h <= last,
{
    let high: Vec<u32> = keep_from(list, first);
    proof {
        lemma_at_least(list@, first);
    }
    let mut out: Vec<u32> = Vec::new();
    let mut i: usize = 0;
    while i < high.len()
        invariant
            i <= high@.len(),
            ascending(high@),
            ascending(out@),
            forall|k: int, m: int|
                0 <= k < out@.len() && i <= m < high@.len() ==> #[trigger] out@[k]
                    < #[trigger] high@[m],
            forall|k: int|
                0 <= k < out@.len() ==> high@.contains(#[trigger] out@[k]) && out@[k] <= last,
            forall|k: int|
                0 <= k < i && high@[k] <= last ==> out@.contains(#[trigger] high@[k]),
        decreases high@.len() - i,
    {
        let ghost before = out@;
        if high[i] <= last {
            out.push(high[i]);
            proof {
                assert(high@.contains(high@[i as int]));
                assert(out@[before.len() as int] == high@[i as int]);
                assert forall|y: u32| before.contains(y) implies out@.contains(y) by {
                    let k = choose|k: int| 0 <= k < before.len() && before[k] == y;
                    assert(out@[k] == y);
                }
            }
        }
        i = i + 1;
    }
    proof {
        assert forall|h: u32| #[trigger] out@.contains(h) <==> list@.contains(h) && first <= h
            <= last by {
            if out@.contains(h) {
                let k = choose|k: int| 0 <= k < out@.len() && out@[k] == h;
                assert(high@.contains(out@[k]));
            }
            if list@.contains(h) && first <= h <= last {
                assert(high@.contains(h));
                let k = choose|k: int| 0 <= k < high@.len() && high@[k] == h;
                assert(out@.contains(high@[k]));
            }
        }
    }
    out
}

fn pcr_handles() -> (r: Vec<u32>)
    ensures
        ascending(r@),
        forall|h: u32| #[trigger] r@.contains(h) <==> h < 24,
{
    let mut out: Vec<u32> = Vec::new();
    let mut i: u32 = 0;
    while i < 24
        invariant
            i <= 24,
            out@ == Seq::new(i as nat, |k: int| k as u32),
        decreases 24 - i,
    {
        out.push(i);
        i = i + 1;
        assert(out@ =~= Seq::new(i as nat, |k: int| k as u32));
    }
    assert forall|h: u32| #[trigger] out@.contains(h) <==> h < 24 by {
        if h < 24 {
            assert(out@[h as int] == h);
        }
    }
    out
}

fn permanent_list() -> (r: Vec<u32>)
    ensures
        ascending(r@),
        r@ == PERMANENT_HANDLES@,
{
    let mut out: Vec<u32> = Vec::new();
    let mut i: usize = 0;
    while i < 6
        invariant
            i <= 6,
            out@ == PERMANENT_HANDLES@.take(i as int),
        decreases 6 - i,
    {
        out.push(PERMANENT_HANDLES[i]);
        i = i + 1;
        assert(out@ =~= PERMANENT_HANDLES@.take(i as int));
    }
    assert(out@ =~= PERMANENT_HANDLES@);
    out
}

/// The handles in the range of `property` that are at least as high.
pub fn handles_in_range(state: &TpmState, property: u32) -> (r: Vec<u32>)
    requires
        state.wf(),
    ensures
        handle_list(r@, *state, property),
{
    proof {
        reveal(persistent_wf);
    }
    let range: u8 = (property >> 24) as u8;
    let all: Vec<u32> = if range == ht::PCR {
        pcr_handles()
    } else if range == ht::NV_INDEX {
        state.nv.handles()
    } else if range == ht::HMAC_SESSION {
        up_to(
            state.sessions.active_handles().as_slice(),
            hc::HMAC_SESSION_FIRST,
            hc::HMAC_SESSION_LAST,
        )
    } else if range == ht::POLICY_SESSION {
        up_to(
            state.sessions.active_handles().as_slice(),
            hc::POLICY_SESSION_FIRST,
            hc::POLICY_SESSION_LAST,
        )
    } else if range == ht::PERMANENT {
        permanent_list()
    } else if range == ht::TRANSIENT {
        state.objects.handles()
    } else if range == ht::PERSISTENT {
        state.persistent.keys()
    } else {
        Vec::new()
    };
    proof {
        assert forall|h: u32| #[trigger] all@.contains(h) <==> has_handle(*state, range, h) by {}
        lemma_at_least(all@, property);
    }
    keep_from(all.as_slice(), property)
}

/// The algorithms among the first `n` that are at least `least`.
pub open spec fn algorithms_from(least: u32, n: nat) -> Seq<AlgProperty>
    decreases n,
{
    if n == 0 {
        Seq::empty()
    } else {
        let a = config::IMPLEMENTED_ALGORITHMS@[n - 1];
        let before = algorithms_from(least, (n - 1) as nat);
        if a as u32 >= least {
            before.push(AlgProperty { alg: a, alg_properties: 0 })
        } else {
            before
        }
    }
}

fn list_algorithms(least: u32) -> (r: Vec<AlgProperty>)
    ensures
        r@ == algorithms_from(least, config::IMPLEMENTED_ALGORITHMS@.len()),
{
    let mut out: Vec<AlgProperty> = Vec::new();
    let mut i: usize = 0;
    assert(out@ =~= algorithms_from(least, 0));
    while i < config::IMPLEMENTED_ALGORITHMS.len()
        invariant
            i <= config::IMPLEMENTED_ALGORITHMS@.len(),
            out@ == algorithms_from(least, i as nat),
        decreases config::IMPLEMENTED_ALGORITHMS@.len() - i,
    {
        let a: u16 = config::IMPLEMENTED_ALGORITHMS[i];
        if a as u32 >= least {
            out.push(AlgProperty { alg: a, alg_properties: 0 });
        }
        i = i + 1;
    }
    out
}

/// The curves among the first `n` that are at least `least`.
pub open spec fn curves_from(least: u32, n: nat) -> Seq<u16>
    decreases n,
{
    if n == 0 {
        Seq::empty()
    } else {
        let c = config::IMPLEMENTED_CURVES@[n - 1];
        let before = curves_from(least, (n - 1) as nat);
        if c as u32 >= least {
            before.push(c)
        } else {
            before
        }
    }
}

fn list_curves(least: u32) -> (r: Vec<u16>)
    ensures
        r@ == curves_from(least, config::IMPLEMENTED_CURVES@.len()),
{
    let mut out: Vec<u16> = Vec::new();
    let mut i: usize = 0;
    assert(out@ =~= curves_from(least, 0));
    while i < config::IMPLEMENTED_CURVES.len()
        invariant
            i <= config::IMPLEMENTED_CURVES@.len(),
            out@ == curves_from(least, i as nat),
        decreases config::IMPLEMENTED_CURVES@.len() - i,
    {
        let c: u16 = config::IMPLEMENTED_CURVES[i];
        if c as u32 >= least {
            out.push(c);
        }
        i = i + 1;
    }
    out
}

/// True for a command of the vendor.
pub open spec fn vendor_command(code: u32) -> bool {
    code >= 0x2000_0000
}

/// TPMA_CC of the commands among the first `n` that are at least `least`.
pub open spec fn commands_from(vendor: bool, least: u32, n: nat) -> Seq<u32>
    decreases n,
{
    if n == 0 {
        Seq::empty()
    } else {
        let code = COMMANDS@[n - 1];
        let before = commands_from(vendor, least, (n - 1) as nat);
        if code >= least && vendor_command(code) == vendor {
            before.push(attributes_of(info_of(code, ROWS@[n - 1])))
        } else {
            before
        }
    }
}

/// TPMA_CC of the commands from `least` on, by their index: the vendor counts
/// its own from zero.
pub open spec fn command_list(least: u32) -> Seq<u32> {
    commands_from(true, least, COMMAND_COUNT as nat) + commands_from(
        false,
        least,
        COMMAND_COUNT as nat,
    )
}

fn list_commands(vendor: bool, least: u32) -> (r: Vec<u32>)
    ensures
        r@ == commands_from(vendor, least, COMMAND_COUNT as nat),
{
    let mut out: Vec<u32> = Vec::new();
    let mut i: usize = 0;
    assert(out@ =~= commands_from(vendor, least, 0));
    while i < COMMAND_COUNT
        invariant
            i <= COMMAND_COUNT,
            out@ == commands_from(vendor, least, i as nat),
        decreases COMMAND_COUNT - i,
    {
        let info: CommandInfo = at(i);
        if info.code >= least && (info.code >= 0x2000_0000) == vendor {
            out.push(attributes(info));
        }
        i = i + 1;
    }
    out
}

/// Every bank with every register.
pub open spec fn assigned(state: TpmState) -> Seq<PcrSelection> {
    Seq::new(
        state.pcr.banks@.len(),
        |i: int| PcrSelection { hash_alg: state.pcr.banks@[i].alg, select: PcrSelect(0x00FF_FFFF) },
    )
}

fn list_banks(state: &TpmState) -> (r: Vec<PcrSelection>)
    ensures
        r@ == assigned(*state),
{
    let mut out: Vec<PcrSelection> = Vec::new();
    let mut i: usize = 0;
    while i < state.pcr.banks.len()
        invariant
            i <= state.pcr.banks@.len(),
            out@ == assigned(*state).take(i as int),
        decreases state.pcr.banks@.len() - i,
    {
        out.push(
            PcrSelection { hash_alg: state.pcr.banks[i].alg, select: PcrSelect(0x00FF_FFFF) },
        );
        i = i + 1;
        assert(out@ =~= assigned(*state).take(i as int));
    }
    assert(out@ =~= assigned(*state));
    out
}

/// The permanent handles that may have a policy.
pub const POLICY_HANDLES: [u32; 4] = [rh::OWNER, rh::ENDORSEMENT, rh::PLATFORM, rh::LOCKOUT];

/// The policy of a permanent handle.
pub open spec fn policy_at(state: TpmState, handle: u32) -> TpmtHa {
    if handle == rh::LOCKOUT {
        state.lockout_policy
    } else {
        state.hierarchies.spec_get(handle).policy
    }
}

/// The policies among the first `n` that are set and at least `least`.
pub open spec fn policies_from(state: TpmState, least: u32, n: nat) -> Seq<(u32, u16, Seq<u8>)>
    decreases n,
{
    if n == 0 {
        Seq::empty()
    } else {
        let h = POLICY_HANDLES@[n - 1];
        let p = policy_at(state, h);
        let before = policies_from(state, least, (n - 1) as nat);
        if h >= least && p.hash_alg != alg::NULL {
            before.push((h, p.hash_alg, p.digest@))
        } else {
            before
        }
    }
}

/// What a list of policies holds.
pub open spec fn policy_items(s: Seq<TaggedPolicy>) -> Seq<(u32, u16, Seq<u8>)> {
    s.map_values(|p: TaggedPolicy| (p.handle, p.policy_hash.hash_alg, p.policy_hash.digest@))
}

fn list_policies(state: &TpmState, least: u32) -> (r: Vec<TaggedPolicy>)
    ensures
        policy_items(r@) == policies_from(*state, least, POLICY_HANDLES@.len()),
{
    let mut out: Vec<TaggedPolicy> = Vec::new();
    let mut i: usize = 0;
    assert(policy_items(out@) =~= policies_from(*state, least, 0));
    while i < 4
        invariant
            i <= 4,
            policy_items(out@) == policies_from(*state, least, i as nat),
        decreases 4 - i,
    {
        let handle: u32 = POLICY_HANDLES[i];
        let policy: &TpmtHa = if handle == rh::LOCKOUT {
            &state.lockout_policy
        } else if handle == rh::OWNER {
            &state.hierarchies.owner.policy
        } else if handle == rh::ENDORSEMENT {
            &state.hierarchies.endorsement.policy
        } else {
            &state.hierarchies.platform.policy
        };
        assert(i == 0 || i == 1 || i == 2 || i == 3);
        assert(*policy == policy_at(*state, handle));
        let ghost before = out@;
        if handle >= least && policy.hash_alg != alg::NULL {
            out.push(TaggedPolicy { handle, policy_hash: policy.clone() });
            assert(policy_items(out@) =~= policy_items(before).push(
                (handle, policy.hash_alg, policy.digest@),
            ));
        }
        i = i + 1;
    }
    out
}

/// The timer, when it is at least `property`.
pub open spec fn timers_from(state: TpmState, property: u32) -> Seq<ActData> {
    if property <= rh::ACT_0 {
        seq![
            ActData {
                handle: rh::ACT_0,
                timeout: state.act.remaining,
                attributes: state.act.attribute_bits(),
            },
        ]
    } else {
        Seq::empty()
    }
}

fn list_timers(state: &TpmState, property: u32) -> (r: Vec<ActData>)
    ensures
        r@ == timers_from(*state, property),
{
    let mut out: Vec<ActData> = Vec::new();
    if property <= rh::ACT_0 {
        out.push(
            ActData {
                handle: rh::ACT_0,
                timeout: state.act.timeout(),
                attributes: state.act.attributes(),
            },
        );
    }
    assert(out@ =~= timers_from(*state, property));
    out
}

/// The smaller of what was asked for and what fits.
pub open spec fn limit_of(count: nat, max: nat) -> nat {
    if count < max {
        count
    } else {
        max
    }
}

fn limit(count: usize, max: usize) -> (r: usize)
    ensures
        r == limit_of(count as nat, max as nat),
        r <= max,
{
    if count < max {
        count
    } else {
        max
    }
}

/// The items returned, and whether there are more, of all there are.
pub open spec fn part_of<T>(items: Seq<T>, more: bool, all: Seq<T>, count: nat, max: nat) -> bool {
    items == first_of(all, limit_of(count, max)) && more == (all.len() > limit_of(count, max))
}

/// The code that refuses a capability.
pub open spec fn capability_fault(capability: u32, property: u32) -> Option<TpmRc> {
    if capability > cap::SPDM_SESSION_INFO && capability != cap::VENDOR_PROPERTY {
        Some(TpmRc(rc::VALUE).for_parameter(1))
    } else if capability == cap::ACT && !(rh::ACT_0 <= property <= rh::ACT_F) {
        Some(TpmRc(rc::VALUE).for_parameter(2))
    } else {
        None
    }
}

/// What a capability holds: the first values from `property` on, and whether
/// more follow.
#[verifier::opaque]
pub open spec fn capability_is(
    state: TpmState,
    capability: u32,
    property: u32,
    count: nat,
    more: bool,
    data: Capabilities,
) -> bool {
    &&& data.selector() == capability
    &&& match data {
        Capabilities::Algorithms(l) => part_of(
            l.items@,
            more,
            algorithms_from(property, config::IMPLEMENTED_ALGORITHMS@.len()),
            count,
            MAX_CAP_ALGS as nat,
        ),
        Capabilities::Handles(l) => exists|all: Seq<u32>| #[trigger]
            handle_list(all, state, property) && part_of(
                l.items@,
                more,
                all,
                count,
                MAX_CAP_HANDLES as nat,
            ),
        Capabilities::Command(l) => part_of(
            l.items@,
            more,
            command_list(property),
            count,
            MAX_CAP_CC as nat,
        ),
        Capabilities::PpCommands(l) => part_of(
            l.items@,
            more,
            at_least(state.pp_commands@, property),
            count,
            MAX_CAP_CC as nat,
        ),
        Capabilities::AuditCommands(l) => part_of(
            l.items@,
            more,
            at_least(state.audit.commands@, property),
            count,
            MAX_CAP_CC as nat,
        ),
        Capabilities::AssignedPcr(l) => l.items@ == assigned(state) && !more,
        Capabilities::TpmProperties(l) => part_of(
            l.items@,
            more,
            properties_from(state, property, PROPERTIES@.len()),
            count,
            MAX_TPM_PROPERTIES as nat,
        ),
        Capabilities::PcrProperties(l) => part_of(
            l.items@,
            more,
            pcr_properties_from(property, PCR_TAGS@.len()),
            count,
            MAX_PCR_PROPERTIES as nat,
        ),
        Capabilities::EccCurves(l) => part_of(
            l.items@,
            more,
            curves_from(property, config::IMPLEMENTED_CURVES@.len()),
            count,
            MAX_ECC_CURVES as nat,
        ),
        Capabilities::AuthPolicies(l) => part_of(
            policy_items(l.items@),
            more,
            policies_from(state, property, POLICY_HANDLES@.len()),
            count,
            MAX_TAGGED_POLICIES as nat,
        ),
        Capabilities::Act(l) => part_of(
            l.items@,
            more,
            timers_from(state, property),
            count,
            MAX_ACT_DATA as nat,
        ),
        _ => !more,
    }
}

/// Collect the capabilities that list handles and commands.
fn build_lists(state: &TpmState, capability: u32, property: u32, count: usize) -> (r: (
    bool,
    Capabilities,
))
    requires
        state.wf(),
        capability <= cap::PCRS,
    ensures
        capability_is(*state, capability, property, count as nat, r.0, r.1),
        r.1.fits(),
{
    proof {
        reveal(capability_is);
    }
    if capability == cap::ALGS {
        let all = take(list_algorithms(property), limit(count, MAX_CAP_ALGS));
        return (all.1, Capabilities::Algorithms(Tpml { items: all.0 }));
    }
    if capability == cap::HANDLES {
        let list: Vec<u32> = handles_in_range(state, property);
        assert(handle_list(list@, *state, property));
        let all = take(list, limit(count, MAX_CAP_HANDLES));
        return (all.1, Capabilities::Handles(Tpml { items: all.0 }));
    }
    if capability == cap::COMMANDS {
        let mut list: Vec<u32> = list_commands(true, property);
        let mut rest: Vec<u32> = list_commands(false, property);
        list.append(&mut rest);
        assert(list@ =~= command_list(property));
        let all = take(list, limit(count, MAX_CAP_CC));
        return (all.1, Capabilities::Command(Tpml { items: all.0 }));
    }
    if capability == cap::PP_COMMANDS {
        let all = take(
            keep_from(state.pp_commands.as_slice(), property),
            limit(count, MAX_CAP_CC),
        );
        return (all.1, Capabilities::PpCommands(Tpml { items: all.0 }));
    }
    if capability == cap::AUDIT_COMMANDS {
        let all = take(
            keep_from(state.audit.commands.as_slice(), property),
            limit(count, MAX_CAP_CC),
        );
        return (all.1, Capabilities::AuditCommands(Tpml { items: all.0 }));
    }
    let items: Vec<PcrSelection> = list_banks(state);
    proof {
        reveal(crate::tpm::engine::pcr::PcrBanks::wf);
    }
    (false, Capabilities::AssignedPcr(Tpml { items }))
}

/// Collect one capability, and say whether more values follow.
pub fn build_capability(state: &TpmState, capability: u32, property: u32, count: usize) -> (r:
    TpmResult<(bool, Capabilities)>)
    requires
        state.wf(),
    ensures
        match capability_fault(capability, property) {
            Some(e) => r is Err && r->Err_0 == e,
            None => {
                &&& r is Ok
                &&& capability_is(
                    *state,
                    capability,
                    property,
                    count as nat,
                    r->Ok_0.0,
                    r->Ok_0.1,
                )
                &&& r->Ok_0.1.fits()
                &&& r->Ok_0.1.selector() == capability
            },
        },
{
    if capability <= cap::PCRS {
        proof {
            reveal(capability_is);
        }
        return Ok(build_lists(state, capability, property, count));
    }
    proof {
        reveal(capability_is);
    }
    if capability == cap::TPM_PROPERTIES {
        let all = take(tpm_properties(state, property), limit(count, MAX_TPM_PROPERTIES));
        return Ok((all.1, Capabilities::TpmProperties(Tpml { items: all.0 })));
    }
    if capability == cap::PCR_PROPERTIES {
        let all = take(pcr_properties(property), limit(count, MAX_PCR_PROPERTIES));
        return Ok((all.1, Capabilities::PcrProperties(Tpml { items: all.0 })));
    }
    if capability == cap::ECC_CURVES {
        let all = take(list_curves(property), limit(count, MAX_ECC_CURVES));
        return Ok((all.1, Capabilities::EccCurves(Tpml { items: all.0 })));
    }
    if capability == cap::AUTH_POLICIES {
        let list: Vec<TaggedPolicy> = list_policies(state, property);
        let ghost whole = list@;
        let all = take(list, limit(count, MAX_TAGGED_POLICIES));
        assert(policy_items(all.0@) =~= first_of(
            policy_items(whole),
            limit_of(count as nat, MAX_TAGGED_POLICIES as nat),
        ));
        return Ok((all.1, Capabilities::AuthPolicies(Tpml { items: all.0 })));
    }
    if capability == cap::ACT {
        if property < rh::ACT_0 || property > rh::ACT_F {
            return Err(TpmRc(rc::VALUE).with_parameter(2));
        }
        let all = take(list_timers(state, property), limit(count, MAX_ACT_DATA));
        return Ok((all.1, Capabilities::Act(Tpml { items: all.0 })));
    }
    if capability == cap::PUB_KEYS {
        return Ok((false, Capabilities::PubKeys));
    }
    if capability == cap::SPDM_SESSION_INFO {
        return Ok((false, Capabilities::SpdmSessionInfo));
    }
    if capability == cap::VENDOR_PROPERTY {
        return Ok((false, Capabilities::VendorProperty));
    }
    Err(TpmRc(rc::VALUE).with_parameter(1))
}

/// The capability, the property and the count that TPM2_GetCapability is given.
pub open spec fn capability_input(p: Seq<u8>) -> TpmResult<(u32, u32, u32)> {
    match in_u32(p, 0, 1) {
        Err(e) => Err(e),
        Ok((capability, a)) => match in_u32(p, a, 2) {
            Err(e) => Err(e),
            Ok((property, b)) => match alone(p, in_u32(p, b, 3)) {
                Err(e) => Err(e),
                Ok(count) => Ok((capability, property, count)),
            },
        },
    }
}

/// TPM2_GetCapability.
pub open spec fn get_capability_ran(state: TpmState, req: RequestView, r: TpmResult<Response>) -> bool {
    match capability_input(req.parameters) {
        Err(e) => fails(r, e),
        Ok((capability, property, count)) => match capability_fault(capability, property) {
            Some(e) => fails(r, e),
            None => capability_answered(state, capability, property, count as nat, r),
        },
    }
}

/// A capability was returned.
pub open spec fn capability_answered(
    state: TpmState,
    capability: u32,
    property: u32,
    count: nat,
    r: TpmResult<Response>,
) -> bool {
    exists|more: bool, data: Capabilities|
        #[trigger] capability_is(state, capability, property, count, more, data) && answers_with(
            r,
            seq![yes_no_octet(more)] + octets32(capability) + data.octets(),
        )
}

/// TPM2_GetCapability.
pub fn get_capability(state: &TpmState, request: &Request) -> (r: TpmResult<Response>)
    requires
        state.wf(),
    ensures
        get_capability_ran(*state, request@, r),
{
    let mut reader = request.reader();
    let capability: u32 = read_u32(&mut reader, 1)?;
    let property: u32 = read_u32(&mut reader, 2)?;
    let count: u32 = read_u32(&mut reader, 3)?;
    reader.expect_end()?;
    let found: (bool, Capabilities) = build_capability(state, capability, property, count as usize)?;
    let mut w = Writer::new();
    w.u8(
        if found.0 {
            1
        } else {
            0
        },
    );
    w.u32(found.1.capability());
    found.1.marshal(&mut w);
    assert(w.written() =~= seq![yes_no_octet(found.0)] + octets32(capability) + found.1.octets());
    let r: TpmResult<Response> = respond(w);
    assert(capability_is(*state, capability, property, count as nat, found.0, found.1));
    assert(capability_answered(*state, capability, property, count as nat, r));
    r
}

/// True for a capability whose properties TPM2_PolicyCapability can compare.
/// The PCR allocation is none of them.
pub open spec fn comparable(capability: u32) -> bool {
    (capability <= cap::SPDM_SESSION_INFO && capability != cap::PCRS) || capability
        == cap::VENDOR_PROPERTY
}

/// The property that the first item is.
pub open spec fn first_property(data: Capabilities) -> Option<u32> {
    match data {
        Capabilities::Algorithms(l) => if l.items@.len() > 0 {
            Some(l.items@[0].alg as u32)
        } else {
            None
        },
        Capabilities::Handles(l) => if l.items@.len() > 0 {
            Some(l.items@[0])
        } else {
            None
        },
        Capabilities::Command(l) => if l.items@.len() > 0 {
            Some(l.items@[0] & 0xFFFF)
        } else {
            None
        },
        Capabilities::PpCommands(l) => if l.items@.len() > 0 {
            Some(l.items@[0])
        } else {
            None
        },
        Capabilities::AuditCommands(l) => if l.items@.len() > 0 {
            Some(l.items@[0])
        } else {
            None
        },
        Capabilities::TpmProperties(l) => if l.items@.len() > 0 {
            Some(l.items@[0].property)
        } else {
            None
        },
        Capabilities::PcrProperties(l) => if l.items@.len() > 0 {
            Some(l.items@[0].tag)
        } else {
            None
        },
        Capabilities::EccCurves(l) => if l.items@.len() > 0 {
            Some(l.items@[0] as u32)
        } else {
            None
        },
        Capabilities::AuthPolicies(l) => if l.items@.len() > 0 {
            Some(l.items@[0].handle)
        } else {
            None
        },
        Capabilities::Act(l) => if l.items@.len() > 0 {
            Some(l.items@[0].handle)
        } else {
            None
        },
        _ => None,
    }
}

fn leading_property(data: &Capabilities) -> (r: Option<u32>)
    ensures
        r == first_property(*data),
{
    match data {
        Capabilities::Algorithms(l) => if l.items.len() > 0 {
            Some(l.items[0].alg as u32)
        } else {
            None
        },
        Capabilities::Handles(l) => if l.items.len() > 0 {
            Some(l.items[0])
        } else {
            None
        },
        Capabilities::Command(l) => if l.items.len() > 0 {
            Some(l.items[0] & 0xFFFF)
        } else {
            None
        },
        Capabilities::PpCommands(l) => if l.items.len() > 0 {
            Some(l.items[0])
        } else {
            None
        },
        Capabilities::AuditCommands(l) => if l.items.len() > 0 {
            Some(l.items[0])
        } else {
            None
        },
        Capabilities::TpmProperties(l) => if l.items.len() > 0 {
            Some(l.items[0].property)
        } else {
            None
        },
        Capabilities::PcrProperties(l) => if l.items.len() > 0 {
            Some(l.items[0].tag)
        } else {
            None
        },
        Capabilities::EccCurves(l) => if l.items.len() > 0 {
            Some(l.items[0] as u32)
        } else {
            None
        },
        Capabilities::AuthPolicies(l) => if l.items.len() > 0 {
            Some(l.items[0].handle)
        } else {
            None
        },
        Capabilities::Act(l) => if l.items.len() > 0 {
            Some(l.items[0].handle)
        } else {
            None
        },
        _ => None,
    }
}

/// The octets of the first item of a list, when it is the one asked for.
pub open spec fn leading<T: ListItem>(s: Seq<T>, asked_for: bool) -> Option<Seq<u8>> {
    if s.len() > 0 && asked_for {
        Some(s[0].octets())
    } else {
        None
    }
}

/// The octets of a property, and `None` where the TPM has no such property.
///
/// A list starts at the property named and goes on to what follows, so that its
/// first item is the one asked for only when it carries the same value.
pub open spec fn property_octets(state: TpmState, capability: u32, property: u32) -> Option<
    Seq<u8>,
> {
    if capability == cap::ALGS {
        let all = algorithms_from(property, config::IMPLEMENTED_ALGORITHMS@.len());
        leading(all, all[0].alg as u32 == property)
    } else if capability == cap::HANDLES {
        if has_handle(state, (property >> 24) as u8, property) {
            Some(octets32(property))
        } else {
            None
        }
    } else if capability == cap::COMMANDS {
        let all = command_list(property);
        leading(all, all[0] & 0xFFFF == property)
    } else if capability == cap::PP_COMMANDS {
        let all = at_least(state.pp_commands@, property);
        leading(all, all[0] == property)
    } else if capability == cap::AUDIT_COMMANDS {
        let all = at_least(state.audit.commands@, property);
        leading(all, all[0] == property)
    } else if capability == cap::TPM_PROPERTIES {
        let all = properties_from(state, property, PROPERTIES@.len());
        leading(all, all[0].property == property)
    } else if capability == cap::PCR_PROPERTIES {
        let all = pcr_properties_from(property, PCR_TAGS@.len());
        leading(all, all[0].tag == property)
    } else if capability == cap::ECC_CURVES {
        let all = curves_from(property, config::IMPLEMENTED_CURVES@.len());
        leading(all, all[0] as u32 == property)
    } else if capability == cap::AUTH_POLICIES {
        let all = policies_from(state, property, POLICY_HANDLES@.len());
        if all.len() > 0 && all[0].0 == property {
            Some(octets32(all[0].0) + octets16(all[0].1) + all[0].2)
        } else {
            None
        }
    } else if capability == cap::ACT {
        let all = timers_from(state, property);
        leading(all, all[0].handle == property)
    } else {
        None
    }
}

/// The property that TPM2_PolicyCapability compares. Its errors are numbered for
/// that command, whose fourth parameter is the capability and whose fifth is
/// the property.
pub open spec fn property_of(state: TpmState, capability: u32, property: u32) -> TpmResult<
    Option<Seq<u8>>,
> {
    if !comparable(capability) {
        Err(TpmRc(rc::VALUE).for_parameter(4))
    } else {
        match capability_fault(capability, property) {
            Some(e) => Err(e.moved_to_parameter(5)),
            None => Ok(property_octets(state, capability, property)),
        }
    }
}

/// The first item of a list with one item.
proof fn lemma_leading<T: ListItem>(items: Seq<T>, more: bool, all: Seq<T>, max: nat)
    requires
        part_of(items, more, all, 1, max),
        max > 0,
    ensures
        items.len() == (if all.len() > 0 {
            1int
        } else {
            0
        }),
        all.len() > 0 ==> items[0] == all[0] && items_octets(items) == all[0].octets(),
{
    reveal_with_fuel(items_octets, 2);
    if all.len() > 0 {
        assert(items.drop_last() =~= Seq::<T>::empty());
        assert(items_octets(items) =~= all[0].octets());
    }
}

/// What is collected for one property is the property, or another that follows.
proof fn lemma_property(
    state: TpmState,
    capability: u32,
    property: u32,
    more: bool,
    data: Capabilities,
)
    requires
        capability_is(state, capability, property, 1, more, data),
        comparable(capability),
    ensures
        property_octets(state, capability, property) == (if first_property(data) == Some(
            property,
        ) {
            Some(data.item_octets())
        } else {
            None
        }),
{
    reveal(capability_is);
    match data {
        Capabilities::Algorithms(l) => {
            let all = algorithms_from(property, config::IMPLEMENTED_ALGORITHMS@.len());
            lemma_leading(l.items@, more, all, MAX_CAP_ALGS as nat);
        },
        Capabilities::Handles(l) => {
            let all = choose|all: Seq<u32>| #[trigger]
                handle_list(all, state, property) && part_of(
                    l.items@,
                    more,
                    all,
                    1,
                    MAX_CAP_HANDLES as nat,
                );
            lemma_leading(l.items@, more, all, MAX_CAP_HANDLES as nat);
            if all.contains(property) {
                let i = choose|i: int| 0 <= i < all.len() && all[i] == property;
                assert(all.contains(all[0]));
                assert(i == 0);
            }
            if all.len() > 0 {
                assert(all.contains(all[0]));
            }
        },
        Capabilities::Command(l) => {
            lemma_leading(l.items@, more, command_list(property), MAX_CAP_CC as nat);
        },
        Capabilities::PpCommands(l) => {
            let all = at_least(state.pp_commands@, property);
            lemma_leading(l.items@, more, all, MAX_CAP_CC as nat);
        },
        Capabilities::AuditCommands(l) => {
            let all = at_least(state.audit.commands@, property);
            lemma_leading(l.items@, more, all, MAX_CAP_CC as nat);
        },
        Capabilities::TpmProperties(l) => {
            let all = properties_from(state, property, PROPERTIES@.len());
            lemma_leading(l.items@, more, all, MAX_TPM_PROPERTIES as nat);
        },
        Capabilities::PcrProperties(l) => {
            let all = pcr_properties_from(property, PCR_TAGS@.len());
            lemma_leading(l.items@, more, all, MAX_PCR_PROPERTIES as nat);
        },
        Capabilities::EccCurves(l) => {
            let all = curves_from(property, config::IMPLEMENTED_CURVES@.len());
            lemma_leading(l.items@, more, all, MAX_ECC_CURVES as nat);
        },
        Capabilities::AuthPolicies(l) => {
            let all = policies_from(state, property, POLICY_HANDLES@.len());
            assert(policy_items(l.items@).len() == l.items@.len());
            reveal_with_fuel(items_octets, 2);
            if all.len() > 0 {
                assert(policy_items(l.items@)[0] == all[0]);
                assert(l.items@.drop_last() =~= Seq::<TaggedPolicy>::empty());
                assert(items_octets(l.items@) =~= l.items@[0].octets());
            }
        },
        Capabilities::Act(l) => {
            lemma_leading(l.items@, more, timers_from(state, property), MAX_ACT_DATA as nat);
        },
        _ => {},
    }
}

/// The property structure that TPM2_PolicyCapability compares, and `None` where
/// the TPM has no such property.
pub fn capability_property(state: &TpmState, capability: u32, property: u32) -> (r: TpmResult<
    Option<Vec<u8>>,
>)
    requires
        state.wf(),
    ensures
        match property_of(*state, capability, property) {
            Ok(p) => r is Ok && (match p {
                Some(d) => r->Ok_0 is Some && r->Ok_0->Some_0@ == d,
                None => r->Ok_0 is None,
            }),
            Err(e) => r is Err && r->Err_0 == e,
        },
{
    let known: bool = (capability <= cap::SPDM_SESSION_INFO && capability != cap::PCRS)
        || capability == cap::VENDOR_PROPERTY;
    if !known {
        return Err(TpmRc(rc::VALUE).with_parameter(4));
    }
    let found: (bool, Capabilities) = match build_capability(state, capability, property, 1) {
        Ok(v) => v,
        Err(e) => {
            return Err(e.at_parameter(5));
        },
    };
    proof {
        lemma_property(*state, capability, property, found.0, found.1);
    }
    let first: Option<u32> = leading_property(&found.1);
    let same: bool = match first {
        Some(p) => p == property,
        None => false,
    };
    if !same {
        return Ok(None);
    }
    let mut w = Writer::new();
    found.1.marshal(&mut w);
    let octets: Vec<u8> = w.into_vec();
    assert(octets@ =~= found.1.octets());
    let items: Vec<u8> = sub_vec(octets.as_slice(), 4, octets.len());
    assert(items@ =~= found.1.item_octets());
    Ok(Some(items))
}

/// True when one list starts the other.
pub open spec fn starts_list<T>(a: Seq<T>, b: Seq<T>) -> bool {
    a.len() <= b.len() && a == b.take(a.len() as int)
}

/// True when the items of one capability start those of the other.
pub open spec fn starts_items(a: Capabilities, b: Capabilities) -> bool {
    match (a, b) {
        (Capabilities::Algorithms(x), Capabilities::Algorithms(y)) => starts_list(
            x.items@,
            y.items@,
        ),
        (Capabilities::Handles(x), Capabilities::Handles(y)) => starts_list(x.items@, y.items@),
        (Capabilities::Command(x), Capabilities::Command(y)) => starts_list(x.items@, y.items@),
        (Capabilities::PpCommands(x), Capabilities::PpCommands(y)) => starts_list(
            x.items@,
            y.items@,
        ),
        (Capabilities::AuditCommands(x), Capabilities::AuditCommands(y)) => starts_list(
            x.items@,
            y.items@,
        ),
        (Capabilities::AssignedPcr(x), Capabilities::AssignedPcr(y)) => starts_list(
            x.items@,
            y.items@,
        ),
        (Capabilities::TpmProperties(x), Capabilities::TpmProperties(y)) => starts_list(
            x.items@,
            y.items@,
        ),
        (Capabilities::PcrProperties(x), Capabilities::PcrProperties(y)) => starts_list(
            x.items@,
            y.items@,
        ),
        (Capabilities::EccCurves(x), Capabilities::EccCurves(y)) => starts_list(
            x.items@,
            y.items@,
        ),
        (Capabilities::AuthPolicies(x), Capabilities::AuthPolicies(y)) => starts_list(
            policy_items(x.items@),
            policy_items(y.items@),
        ),
        (Capabilities::Act(x), Capabilities::Act(y)) => starts_list(x.items@, y.items@),
        _ => true,
    }
}

proof fn lemma_parts<T>(
    a: Seq<T>,
    b: Seq<T>,
    more: bool,
    still: bool,
    all: Seq<T>,
    few: nat,
    many: nat,
    max: nat,
)
    requires
        few <= many,
        part_of(a, more, all, few, max),
        part_of(b, still, all, many, max),
    ensures
        starts_list(a, b),
        a.len() < b.len() ==> more,
        !more ==> a == b && !still,
{
    assert(a =~= b.take(a.len() as int));
}

/// Whoever asks for fewer values gets the first of those that whoever asks for
/// more gets. Where some are missing the answer says that there are more, and
/// where it says that there are no more, the list is whole.
pub proof fn law_a_shorter_list_starts_a_longer_one(
    state: TpmState,
    capability: u32,
    property: u32,
    few: nat,
    many: nat,
    more: bool,
    still: bool,
    a: Capabilities,
    b: Capabilities,
)
    requires
        few <= many,
        capability_is(state, capability, property, few, more, a),
        capability_is(state, capability, property, many, still, b),
    ensures
        starts_items(a, b),
        starts_items(b, a) || more,
        !more ==> !still,
{
    reveal(capability_is);
    match (a, b) {
        (Capabilities::Algorithms(x), Capabilities::Algorithms(y)) => {
            let all = algorithms_from(property, config::IMPLEMENTED_ALGORITHMS@.len());
            lemma_parts(x.items@, y.items@, more, still, all, few, many, MAX_CAP_ALGS as nat);
        },
        (Capabilities::Handles(x), Capabilities::Handles(y)) => {
            let all = choose|all: Seq<u32>| #[trigger]
                handle_list(all, state, property) && part_of(
                    x.items@,
                    more,
                    all,
                    few,
                    MAX_CAP_HANDLES as nat,
                );
            let other = choose|all: Seq<u32>| #[trigger]
                handle_list(all, state, property) && part_of(
                    y.items@,
                    still,
                    all,
                    many,
                    MAX_CAP_HANDLES as nat,
                );
            lemma_one_list(all, other);
            lemma_parts(x.items@, y.items@, more, still, all, few, many, MAX_CAP_HANDLES as nat);
        },
        (Capabilities::Command(x), Capabilities::Command(y)) => {
            let all = command_list(property);
            lemma_parts(x.items@, y.items@, more, still, all, few, many, MAX_CAP_CC as nat);
        },
        (Capabilities::PpCommands(x), Capabilities::PpCommands(y)) => {
            let all = at_least(state.pp_commands@, property);
            lemma_parts(x.items@, y.items@, more, still, all, few, many, MAX_CAP_CC as nat);
        },
        (Capabilities::AuditCommands(x), Capabilities::AuditCommands(y)) => {
            let all = at_least(state.audit.commands@, property);
            lemma_parts(x.items@, y.items@, more, still, all, few, many, MAX_CAP_CC as nat);
        },
        (Capabilities::AssignedPcr(x), Capabilities::AssignedPcr(y)) => {
            assert(x.items@ =~= y.items@.take(x.items@.len() as int));
        },
        (Capabilities::TpmProperties(x), Capabilities::TpmProperties(y)) => {
            let all = properties_from(state, property, PROPERTIES@.len());
            lemma_parts(x.items@, y.items@, more, still, all, few, many, MAX_TPM_PROPERTIES as nat);
        },
        (Capabilities::PcrProperties(x), Capabilities::PcrProperties(y)) => {
            let all = pcr_properties_from(property, PCR_TAGS@.len());
            lemma_parts(x.items@, y.items@, more, still, all, few, many, MAX_PCR_PROPERTIES as nat);
        },
        (Capabilities::EccCurves(x), Capabilities::EccCurves(y)) => {
            let all = curves_from(property, config::IMPLEMENTED_CURVES@.len());
            lemma_parts(x.items@, y.items@, more, still, all, few, many, MAX_ECC_CURVES as nat);
        },
        (Capabilities::AuthPolicies(x), Capabilities::AuthPolicies(y)) => {
            lemma_parts(
                policy_items(x.items@),
                policy_items(y.items@),
                more,
                still,
                policies_from(state, property, POLICY_HANDLES@.len()),
                few,
                many,
                MAX_TAGGED_POLICIES as nat,
            );
        },
        (Capabilities::Act(x), Capabilities::Act(y)) => {
            let all = timers_from(state, property);
            lemma_parts(x.items@, y.items@, more, still, all, few, many, MAX_ACT_DATA as nat);
        },
        _ => {},
    }
}

/// How many items a capability holds.
pub open spec fn item_count(data: Capabilities) -> nat {
    match data {
        Capabilities::Algorithms(l) => l.items@.len(),
        Capabilities::Handles(l) => l.items@.len(),
        Capabilities::Command(l) => l.items@.len(),
        Capabilities::PpCommands(l) => l.items@.len(),
        Capabilities::AuditCommands(l) => l.items@.len(),
        Capabilities::AssignedPcr(l) => l.items@.len(),
        Capabilities::TpmProperties(l) => l.items@.len(),
        Capabilities::PcrProperties(l) => l.items@.len(),
        Capabilities::EccCurves(l) => l.items@.len(),
        Capabilities::AuthPolicies(l) => policy_items(l.items@).len(),
        Capabilities::Act(l) => l.items@.len(),
        _ => 0,
    }
}

/// A capability has no more items than were asked for. The PCR allocation alone is
/// returned whole.
pub proof fn law_no_more_items_than_asked_for(
    state: TpmState,
    capability: u32,
    property: u32,
    count: nat,
    more: bool,
    data: Capabilities,
)
    requires
        capability_is(state, capability, property, count, more, data),
        capability != cap::PCRS,
    ensures
        item_count(data) <= count,
{
    reveal(capability_is);
}

/// TPM2_GetCapability refuses a capability that is none.
pub proof fn law_an_unknown_capability_is_refused(
    state: TpmState,
    req: RequestView,
    capability: u32,
    property: u32,
    count: u32,
    r: TpmResult<Response>,
)
    requires
        capability_input(req.parameters) == Ok::<(u32, u32, u32), TpmRc>(
            (capability, property, count),
        ),
        capability > cap::SPDM_SESSION_INFO,
        capability != cap::VENDOR_PROPERTY,
        get_capability_ran(state, req, r),
    ensures
        fails(r, TpmRc(rc::VALUE).for_parameter(1)),
{
}

/// The TPM properties stand in ascending order.
proof fn lemma_properties_ascend(i: int)
    requires
        0 <= i < PROPERTIES@.len() - 1,
    ensures
        PROPERTIES@[i] < PROPERTIES@[i + 1],
{
}

/// True when the properties ascend from `least` up to `most`.
spec fn ascends(all: Seq<TaggedProperty>, least: u32, most: int) -> bool {
    &&& forall|i: int, j: int|
        0 <= i < j < all.len() ==> (#[trigger] all[i]).property < (#[trigger] all[j]).property
    &&& forall|i: int|
        0 <= i < all.len() ==> least <= (#[trigger] all[i]).property && all[i].property <= most
}

proof fn lemma_properties_from(state: TpmState, least: u32, n: nat)
    requires
        n <= PROPERTIES@.len(),
    ensures
        ascends(
            properties_from(state, least, n),
            least,
            if n == 0 {
                -1
            } else {
                PROPERTIES@[n - 1] as int
            },
        ),
    decreases n,
{
    if n > 0 {
        let before = properties_from(state, least, (n - 1) as nat);
        lemma_properties_from(state, least, (n - 1) as nat);
        if n > 1 {
            lemma_properties_ascend(n - 2);
            assert(PROPERTIES@[n - 2] < PROPERTIES@[n - 1]);
        }
        assert(forall|i: int|
            0 <= i < before.len() ==> (#[trigger] before[i]).property < PROPERTIES@[n - 1]);
    }
}

/// The TPM properties are returned in strictly ascending order, and none is below
/// the one that was asked for.
pub proof fn law_the_properties_ascend(
    state: TpmState,
    capability: u32,
    property: u32,
    count: nat,
    more: bool,
    data: Capabilities,
)
    requires
        capability_is(state, capability, property, count, more, data),
        capability == cap::TPM_PROPERTIES,
    ensures
        data matches Capabilities::TpmProperties(l) && {
            &&& forall|i: int, j: int|
                0 <= i < j < l.items@.len() ==> (#[trigger] l.items@[i]).property < (
                #[trigger] l.items@[j]).property
            &&& forall|i: int|
                0 <= i < l.items@.len() ==> property <= (#[trigger] l.items@[i]).property
        },
{
    reveal(capability_is);
    lemma_properties_from(state, property, PROPERTIES@.len());
}

} // verus!
