//! TPM_SU.

use vstd::prelude::*;

verus! {

pub const CLEAR: u16 = 0x0000;
pub const STATE: u16 = 0x0001;

} // verus!
