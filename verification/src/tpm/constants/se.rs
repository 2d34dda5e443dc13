//! TPM_SE.

use vstd::prelude::*;

verus! {

pub const HMAC: u8 = 0x00;
pub const POLICY: u8 = 0x01;
pub const TRIAL: u8 = 0x03;

} // verus!
