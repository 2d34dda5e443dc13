//! The choices this implementation makes.

use vstd::prelude::*;

use crate::tpm::constants::{alg, curve};

verus! {

pub const MANUFACTURER: u32 = 0x5357_5400;
pub const VENDOR_STRING_1: u32 = 0x5357_5400;
pub const VENDOR_STRING_2: u32 = 0;
pub const VENDOR_STRING_3: u32 = 0;
pub const VENDOR_STRING_4: u32 = 0;
pub const VENDOR_TPM_TYPE: u32 = 0;
pub const FIRMWARE_VERSION_1: u32 = 0x0001_0000;
pub const FIRMWARE_VERSION_2: u32 = 0;
pub const PS_REVISION: u32 = 0x0107;

pub const MAX_COMMAND_SIZE: u32 = 4096;
pub const MAX_RESPONSE_SIZE: u32 = 4096;
pub const MAX_SESSION_NUM: usize = 3;
pub const MAX_LOADED_OBJECTS: usize = 3;
pub const MAX_LOADED_SESSIONS: usize = 3;
pub const MAX_ACTIVE_SESSIONS: usize = 64;
pub const MIN_EVICT_OBJECTS: usize = 7;
pub const IMPLEMENTATION_PCR: u16 = 24;
pub const PCR_SELECT_MIN: usize = 3;
pub const CONTEXT_GAP_MAX: u32 = 0xFFFF;
pub const MIN_COUNTER_INDICES: u32 = 8;
pub const MAX_NV_INDEX_SIZE: usize = 2048;
pub const MAX_NV_BUFFER_SIZE: usize = 1024;
pub const NV_MEMORY_SIZE: usize = 16384;
pub const NV_CLOCK_UPDATE_INTERVAL: u32 = 4096;
pub const MAX_CLOCK: u64 = 0xFFFF_0000_0000_0000;
pub const CONTEXT_INTEGRITY_HASH_ALG: u16 = alg::SHA256;
pub const CONTEXT_ENCRYPT_ALG: u16 = alg::AES;
pub const CONTEXT_ENCRYPT_KEY_BITS: u16 = 256;
pub const ORDERLY_BITS: u32 = 8;
pub const MAX_OBJECT_CONTEXT: u32 = 2048;
pub const MAX_SESSION_CONTEXT: u32 = 512;
pub const MAX_COMMIT_SEQUENCES: usize = 0;
pub const MAX_CAP_BUFFER: usize = 1024;
pub const MAX_RNG_ENTROPY_SIZE: usize = 128;
pub const MAX_DIGEST_BUFFER: usize = 1024;
pub const HASH_COUNT: usize = 4;

/// The PCR banks a manufactured TPM allocates.
pub const DEFAULT_PCR_BANKS: [u16; 2] = [alg::SHA1, alg::SHA256];

/// The hash algorithms a PCR bank may have.
pub const IMPLEMENTED_PCR_BANKS: [u16; 4] = [alg::SHA1, alg::SHA256, alg::SHA384, alg::SHA512];

/// The algorithms there are, in ascending order.
pub const IMPLEMENTED_ALGORITHMS: [u16; 25] = [
    alg::RSA,
    alg::SHA1,
    alg::HMAC,
    alg::AES,
    alg::MGF1,
    alg::KEYEDHASH,
    alg::XOR,
    alg::SHA256,
    alg::SHA384,
    alg::SHA512,
    alg::RSASSA,
    alg::RSAES,
    alg::RSAPSS,
    alg::OAEP,
    alg::ECDSA,
    alg::ECDH,
    alg::KDF1_SP800_56A,
    alg::KDF1_SP800_108,
    alg::ECC,
    alg::SYMCIPHER,
    alg::CTR,
    alg::OFB,
    alg::CBC,
    alg::CFB,
    alg::ECB,
];

/// The curves an ECC key may be on.
pub const IMPLEMENTED_CURVES: [u16; 3] = [curve::NIST_P256, curve::NIST_P384, curve::NIST_P521];

/// True when `id` is in the list.
pub fn in_list(list: &[u16], id: u16) -> (r: bool)
    ensures
        r == list@.contains(id),
{
    let mut i: usize = 0;
    while i < list.len()
        invariant
            i <= list@.len(),
            forall|j: int| 0 <= j < i ==> list@[j] != id,
        decreases list@.len() - i,
    {
        if list[i] == id {
            assert(list@[i as int] == id);
            return true;
        }
        i = i + 1;
    }
    false
}

} // verus!
