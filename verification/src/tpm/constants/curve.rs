//! TPM_ECC_CURVE.

use vstd::prelude::*;

verus! {

pub const NONE: u16 = 0x0000;
pub const NIST_P192: u16 = 0x0001;
pub const NIST_P224: u16 = 0x0002;
pub const NIST_P256: u16 = 0x0003;
pub const NIST_P384: u16 = 0x0004;
pub const NIST_P521: u16 = 0x0005;
pub const BN_P256: u16 = 0x0010;
pub const SM2_P256: u16 = 0x0020;

} // verus!
