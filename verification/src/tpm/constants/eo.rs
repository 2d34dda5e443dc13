//! TPM_EO.

use vstd::prelude::*;

verus! {

pub const EQ: u16 = 0x0000;
pub const NEQ: u16 = 0x0001;
pub const SIGNED_GT: u16 = 0x0002;
pub const UNSIGNED_GT: u16 = 0x0003;
pub const SIGNED_LT: u16 = 0x0004;
pub const UNSIGNED_LT: u16 = 0x0005;
pub const SIGNED_GE: u16 = 0x0006;
pub const UNSIGNED_GE: u16 = 0x0007;
pub const SIGNED_LE: u16 = 0x0008;
pub const UNSIGNED_LE: u16 = 0x0009;
pub const BITSET: u16 = 0x000A;
pub const BITCLEAR: u16 = 0x000B;

} // verus!
