//! TPM_RC.

use vstd::prelude::*;

verus! {

pub const SUCCESS: u32 = 0x000;
pub const BAD_TAG: u32 = 0x01E;
pub const INITIALIZE: u32 = 0x100;
pub const FAILURE: u32 = 0x101;
pub const SEQUENCE: u32 = 0x103;
pub const DISABLED: u32 = 0x120;
pub const EXCLUSIVE: u32 = 0x121;
pub const AUTH_TYPE: u32 = 0x124;
pub const AUTH_MISSING: u32 = 0x125;
pub const POLICY: u32 = 0x126;
pub const PCR: u32 = 0x127;
pub const PCR_CHANGED: u32 = 0x128;
pub const UPGRADE: u32 = 0x12D;
pub const TOO_MANY_CONTEXTS: u32 = 0x12E;
pub const AUTH_UNAVAILABLE: u32 = 0x12F;
pub const REBOOT: u32 = 0x130;
pub const UNBALANCED: u32 = 0x131;
pub const COMMAND_SIZE: u32 = 0x142;
pub const COMMAND_CODE: u32 = 0x143;
pub const AUTHSIZE: u32 = 0x144;
pub const AUTH_CONTEXT: u32 = 0x145;
pub const NV_RANGE: u32 = 0x146;
pub const NV_SIZE: u32 = 0x147;
pub const NV_LOCKED: u32 = 0x148;
pub const NV_AUTHORIZATION: u32 = 0x149;
pub const NV_UNINITIALIZED: u32 = 0x14A;
pub const NV_SPACE: u32 = 0x14B;
pub const NV_DEFINED: u32 = 0x14C;
pub const BAD_CONTEXT: u32 = 0x150;
pub const CPHASH: u32 = 0x151;
pub const PARENT: u32 = 0x152;
pub const NEEDS_TEST: u32 = 0x153;
pub const NO_RESULT: u32 = 0x154;
pub const SENSITIVE: u32 = 0x155;
pub const READ_ONLY: u32 = 0x156;
pub const CHANNEL: u32 = 0x157;

pub const ASYMMETRIC: u32 = 0x081;
pub const ATTRIBUTES: u32 = 0x082;
pub const HASH: u32 = 0x083;
pub const VALUE: u32 = 0x084;
pub const HIERARCHY: u32 = 0x085;
pub const KEY_SIZE: u32 = 0x087;
pub const MGF: u32 = 0x088;
pub const MODE: u32 = 0x089;
pub const TYPE: u32 = 0x08A;
pub const HANDLE: u32 = 0x08B;
pub const KDF: u32 = 0x08C;
pub const RANGE: u32 = 0x08D;
pub const AUTH_FAIL: u32 = 0x08E;
pub const NONCE: u32 = 0x08F;
pub const PP: u32 = 0x090;
pub const SCHEME: u32 = 0x092;
pub const SIZE: u32 = 0x095;
pub const SYMMETRIC: u32 = 0x096;
pub const TAG: u32 = 0x097;
pub const SELECTOR: u32 = 0x098;
pub const INSUFFICIENT: u32 = 0x09A;
pub const SIGNATURE: u32 = 0x09B;
pub const KEY: u32 = 0x09C;
pub const POLICY_FAIL: u32 = 0x09D;
pub const INTEGRITY: u32 = 0x09F;
pub const TICKET: u32 = 0x0A0;
pub const RESERVED_BITS: u32 = 0x0A1;
pub const BAD_AUTH: u32 = 0x0A2;
pub const EXPIRED: u32 = 0x0A3;
pub const POLICY_CC: u32 = 0x0A4;
pub const BINDING: u32 = 0x0A5;
pub const CURVE: u32 = 0x0A6;
pub const ECC_POINT: u32 = 0x0A7;

pub const CONTEXT_GAP: u32 = 0x901;
pub const OBJECT_MEMORY: u32 = 0x902;
pub const SESSION_MEMORY: u32 = 0x903;
pub const MEMORY: u32 = 0x904;
pub const SESSION_HANDLES: u32 = 0x905;
pub const OBJECT_HANDLES: u32 = 0x906;
pub const LOCALITY: u32 = 0x907;
pub const YIELDED: u32 = 0x908;
pub const CANCELED: u32 = 0x909;
pub const TESTING: u32 = 0x90A;
pub const REFERENCE_H0: u32 = 0x910;
pub const REFERENCE_S0: u32 = 0x918;
pub const NV_RATE: u32 = 0x920;
pub const LOCKOUT: u32 = 0x921;
pub const RETRY: u32 = 0x922;
pub const NV_UNAVAILABLE: u32 = 0x923;

} // verus!
