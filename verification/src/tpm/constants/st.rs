//! TPM_ST.

use vstd::prelude::*;

verus! {

pub const RSP_COMMAND: u16 = 0x00C4;
pub const NULL: u16 = 0x8000;
pub const NO_SESSIONS: u16 = 0x8001;
pub const SESSIONS: u16 = 0x8002;
pub const ATTEST_NV: u16 = 0x8014;
pub const ATTEST_COMMAND_AUDIT: u16 = 0x8015;
pub const ATTEST_SESSION_AUDIT: u16 = 0x8016;
pub const ATTEST_CERTIFY: u16 = 0x8017;
pub const ATTEST_QUOTE: u16 = 0x8018;
pub const ATTEST_TIME: u16 = 0x8019;
pub const ATTEST_CREATION: u16 = 0x801A;
pub const ATTEST_NV_DIGEST: u16 = 0x801C;
pub const CREATION: u16 = 0x8021;
pub const VERIFIED: u16 = 0x8022;
pub const AUTH_SECRET: u16 = 0x8023;
pub const HASHCHECK: u16 = 0x8024;
pub const AUTH_SIGNED: u16 = 0x8025;
pub const DIGEST_VERIFIED: u16 = 0x8027;
pub const MESSAGE_VERIFIED: u16 = 0x8026;

/// Starts every attestation structure the TPM makes.
pub const GENERATED_VALUE: u32 = 0xFF544347;

} // verus!
