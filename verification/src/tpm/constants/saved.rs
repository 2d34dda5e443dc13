//! The handles of saved objects.

use vstd::prelude::*;

verus! {

pub const TRANSIENT_OBJECT: u32 = 0x80000000;
pub const SEQUENCE_OBJECT: u32 = 0x80000001;
pub const TRANSIENT_STCLEAR: u32 = 0x80000002;

} // verus!
