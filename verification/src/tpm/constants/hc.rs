//! Ranges of handle values.

use vstd::prelude::*;

verus! {

pub const PCR_FIRST: u32 = 0x00000000;
pub const PCR_LAST: u32 = 0x00000017;
pub const NV_INDEX_FIRST: u32 = 0x01000000;
pub const NV_INDEX_LAST: u32 = 0x01FFFFFF;
pub const HMAC_SESSION_FIRST: u32 = 0x02000000;
pub const HMAC_SESSION_LAST: u32 = 0x02FFFFFF;
pub const POLICY_SESSION_FIRST: u32 = 0x03000000;
pub const POLICY_SESSION_LAST: u32 = 0x03FFFFFF;
pub const TRANSIENT_FIRST: u32 = 0x80000000;
pub const TRANSIENT_LAST: u32 = 0x80FFFFFF;
pub const PERSISTENT_FIRST: u32 = 0x81000000;
pub const PERSISTENT_LAST: u32 = 0x81FFFFFF;
pub const AC_FIRST: u32 = 0x90000000;
pub const AC_LAST: u32 = 0x9000FFFF;
pub const PLATFORM_PERSISTENT: u32 = 0x81800000;

/// Bits below the handle type.
pub const HR_SHIFT: u32 = 24;

} // verus!
