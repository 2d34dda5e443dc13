//! TPM_PT.

use vstd::prelude::*;

verus! {

pub const PT_FIXED: u32 = 0x00000100;
pub const FAMILY_INDICATOR: u32 = 0x00000100;
pub const LEVEL: u32 = 0x00000101;
pub const REVISION: u32 = 0x00000102;
pub const ERRATA: u32 = 0x00000103;
pub const YEAR: u32 = 0x00000104;
pub const MANUFACTURER: u32 = 0x00000105;
pub const VENDOR_STRING_1: u32 = 0x00000106;
pub const VENDOR_STRING_2: u32 = 0x00000107;
pub const VENDOR_STRING_3: u32 = 0x00000108;
pub const VENDOR_STRING_4: u32 = 0x00000109;
pub const VENDOR_TPM_TYPE: u32 = 0x0000010A;
pub const FIRMWARE_VERSION_1: u32 = 0x0000010B;
pub const FIRMWARE_VERSION_2: u32 = 0x0000010C;
pub const INPUT_BUFFER: u32 = 0x0000010D;
pub const HR_TRANSIENT_MIN: u32 = 0x0000010E;
pub const HR_PERSISTENT_MIN: u32 = 0x0000010F;
pub const HR_LOADED_MIN: u32 = 0x00000110;
pub const ACTIVE_SESSIONS_MAX: u32 = 0x00000111;
pub const PCR_COUNT: u32 = 0x00000112;
pub const PCR_SELECT_MIN: u32 = 0x00000113;
pub const CONTEXT_GAP_MAX: u32 = 0x00000114;
pub const NV_COUNTERS_MAX: u32 = 0x00000116;
pub const NV_INDEX_MAX: u32 = 0x00000117;
pub const MEMORY: u32 = 0x00000118;
pub const CLOCK_UPDATE: u32 = 0x00000119;
pub const CONTEXT_HASH: u32 = 0x0000011A;
pub const CONTEXT_SYM: u32 = 0x0000011B;
pub const CONTEXT_SYM_SIZE: u32 = 0x0000011C;
pub const ORDERLY_COUNT: u32 = 0x0000011D;
pub const MAX_COMMAND_SIZE: u32 = 0x0000011E;
pub const MAX_RESPONSE_SIZE: u32 = 0x0000011F;
pub const MAX_DIGEST: u32 = 0x00000120;
pub const MAX_OBJECT_CONTEXT: u32 = 0x00000121;
pub const MAX_SESSION_CONTEXT: u32 = 0x00000122;
pub const PS_FAMILY_INDICATOR: u32 = 0x00000123;
pub const PS_LEVEL: u32 = 0x00000124;
pub const PS_REVISION: u32 = 0x00000125;
pub const PS_DAY_OF_YEAR: u32 = 0x00000126;
pub const PS_YEAR: u32 = 0x00000127;
pub const SPLIT_MAX: u32 = 0x00000128;
pub const TOTAL_COMMANDS: u32 = 0x00000129;
pub const LIBRARY_COMMANDS: u32 = 0x0000012A;
pub const VENDOR_COMMANDS: u32 = 0x0000012B;
pub const NV_BUFFER_MAX: u32 = 0x0000012C;
pub const MODES: u32 = 0x0000012D;
pub const MAX_CAP_BUFFER: u32 = 0x0000012E;
pub const FIRMWARE_SVN: u32 = 0x0000012F;
pub const FIRMWARE_MAX_SVN: u32 = 0x00000130;
pub const ML_PARAMETER_SETS: u32 = 0x00000131;
pub const PT_VAR: u32 = 0x00000200;
pub const PERMANENT: u32 = 0x00000200;
pub const STARTUP_CLEAR: u32 = 0x00000201;
pub const HR_NV_INDEX: u32 = 0x00000202;
pub const HR_LOADED: u32 = 0x00000203;
pub const HR_LOADED_AVAIL: u32 = 0x00000204;
pub const HR_ACTIVE: u32 = 0x00000205;
pub const HR_ACTIVE_AVAIL: u32 = 0x00000206;
pub const HR_TRANSIENT_AVAIL: u32 = 0x00000207;
pub const HR_PERSISTENT: u32 = 0x00000208;
pub const HR_PERSISTENT_AVAIL: u32 = 0x00000209;
pub const NV_COUNTERS: u32 = 0x0000020A;
pub const NV_COUNTERS_AVAIL: u32 = 0x0000020B;
pub const ALGORITHM_SET: u32 = 0x0000020C;
pub const LOADED_CURVES: u32 = 0x0000020D;
pub const LOCKOUT_COUNTER: u32 = 0x0000020E;
pub const MAX_AUTH_FAIL: u32 = 0x0000020F;
pub const LOCKOUT_INTERVAL: u32 = 0x00000210;
pub const LOCKOUT_RECOVERY: u32 = 0x00000211;
pub const NV_WRITE_RECOVERY: u32 = 0x00000212;
pub const AUDIT_COUNTER_0: u32 = 0x00000213;
pub const AUDIT_COUNTER_1: u32 = 0x00000214;

pub const SPEC_FAMILY: u32 = 0x322E3000;
pub const SPEC_LEVEL: u32 = 0;
pub const SPEC_VERSION: u32 = 185;
pub const SPEC_ERRATA: u32 = 0;
pub const SPEC_YEAR: u32 = 2025;

/// TPM_PS_PC.
pub const PS_PC: u32 = 1;

} // verus!
