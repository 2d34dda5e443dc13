//! TPM_CAP.

use vstd::prelude::*;

verus! {

pub const ALGS: u32 = 0x00000000;
pub const HANDLES: u32 = 0x00000001;
pub const COMMANDS: u32 = 0x00000002;
pub const PP_COMMANDS: u32 = 0x00000003;
pub const AUDIT_COMMANDS: u32 = 0x00000004;
pub const PCRS: u32 = 0x00000005;
pub const TPM_PROPERTIES: u32 = 0x00000006;
pub const PCR_PROPERTIES: u32 = 0x00000007;
pub const ECC_CURVES: u32 = 0x00000008;
pub const AUTH_POLICIES: u32 = 0x00000009;
pub const ACT: u32 = 0x0000000A;
pub const PUB_KEYS: u32 = 0x0000000B;
pub const SPDM_SESSION_INFO: u32 = 0x0000000C;
pub const VENDOR_PROPERTY: u32 = 0x00000100;

} // verus!
