//! TPM_NT.

use vstd::prelude::*;

verus! {

pub const ORDINARY: u8 = 0x00;
pub const COUNTER: u8 = 0x01;
pub const BITS: u8 = 0x02;
pub const EXTEND: u8 = 0x04;
pub const PIN_FAIL: u8 = 0x08;
pub const PIN_PASS: u8 = 0x09;

} // verus!
