//! TPM_RH and TPM_RS.

use vstd::prelude::*;

verus! {

pub const FIRST: u32 = 0x40000000;
pub const OWNER: u32 = 0x40000001;
pub const NULL: u32 = 0x40000007;
pub const UNASSIGNED: u32 = 0x40000008;
pub const RS_PW: u32 = 0x40000009;
pub const LOCKOUT: u32 = 0x4000000A;
pub const ENDORSEMENT: u32 = 0x4000000B;
pub const PLATFORM: u32 = 0x4000000C;
pub const PLATFORM_NV: u32 = 0x4000000D;
pub const ACT_0: u32 = 0x40000110;
pub const ACT_F: u32 = 0x4000011F;
pub const FW_OWNER: u32 = 0x40000140;
pub const FW_ENDORSEMENT: u32 = 0x40000141;
pub const FW_PLATFORM: u32 = 0x40000142;
pub const FW_NULL: u32 = 0x40000143;
pub const SVN_OWNER_BASE: u32 = 0x40010000;
pub const SVN_ENDORSEMENT_BASE: u32 = 0x40020000;
pub const SVN_PLATFORM_BASE: u32 = 0x40030000;
pub const SVN_NULL_BASE: u32 = 0x40040000;

} // verus!
