//! TPM_HT.

use vstd::prelude::*;

verus! {

pub const PCR: u8 = 0x00;
pub const NV_INDEX: u8 = 0x01;
pub const HMAC_SESSION: u8 = 0x02;
pub const POLICY_SESSION: u8 = 0x03;
pub const EXTERNAL_NV: u8 = 0x11;
pub const PERMANENT_NV: u8 = 0x12;
pub const PERMANENT: u8 = 0x40;
pub const TRANSIENT: u8 = 0x80;
pub const PERSISTENT: u8 = 0x81;

} // verus!
