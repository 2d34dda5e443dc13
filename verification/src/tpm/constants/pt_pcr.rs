//! TPM_PT_PCR.

use vstd::prelude::*;

verus! {

pub const SAVE: u32 = 0x00000000;
pub const EXTEND_L0: u32 = 0x00000001;
pub const RESET_L0: u32 = 0x00000002;
pub const EXTEND_L1: u32 = 0x00000003;
pub const RESET_L1: u32 = 0x00000004;
pub const EXTEND_L2: u32 = 0x00000005;
pub const RESET_L2: u32 = 0x00000006;
pub const EXTEND_L3: u32 = 0x00000007;
pub const RESET_L3: u32 = 0x00000008;
pub const EXTEND_L4: u32 = 0x00000009;
pub const RESET_L4: u32 = 0x0000000A;
pub const NO_INCREMENT: u32 = 0x00000011;
pub const DRTM_RESET: u32 = 0x00000012;
pub const POLICY: u32 = 0x00000013;
pub const AUTH: u32 = 0x00000014;

} // verus!
