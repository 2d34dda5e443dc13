//! TPM_ALG_ID.

use vstd::prelude::*;

verus! {

pub const ERROR: u16 = 0x0000;
pub const RSA: u16 = 0x0001;
pub const SHA1: u16 = 0x0004;
pub const HMAC: u16 = 0x0005;
pub const AES: u16 = 0x0006;
pub const MGF1: u16 = 0x0007;
pub const KEYEDHASH: u16 = 0x0008;
pub const XOR: u16 = 0x000A;
pub const SHA256: u16 = 0x000B;
pub const SHA384: u16 = 0x000C;
pub const SHA512: u16 = 0x000D;
pub const NULL: u16 = 0x0010;
pub const SM3_256: u16 = 0x0012;
pub const SM4: u16 = 0x0013;
pub const RSASSA: u16 = 0x0014;
pub const RSAES: u16 = 0x0015;
pub const RSAPSS: u16 = 0x0016;
pub const OAEP: u16 = 0x0017;
pub const ECDSA: u16 = 0x0018;
pub const ECDH: u16 = 0x0019;
pub const ECDAA: u16 = 0x001A;
pub const SM2: u16 = 0x001B;
pub const ECSCHNORR: u16 = 0x001C;
pub const ECMQV: u16 = 0x001D;
pub const KDF1_SP800_56A: u16 = 0x0020;
pub const KDF2: u16 = 0x0021;
pub const KDF1_SP800_108: u16 = 0x0022;
pub const ECC: u16 = 0x0023;
pub const SYMCIPHER: u16 = 0x0025;
pub const CAMELLIA: u16 = 0x0026;
pub const CTR: u16 = 0x0040;
pub const OFB: u16 = 0x0041;
pub const CBC: u16 = 0x0042;
pub const CFB: u16 = 0x0043;
pub const ECB: u16 = 0x0044;

} // verus!
