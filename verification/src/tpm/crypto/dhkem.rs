//! Key encapsulation over Diffie-Hellman.

use vstd::prelude::*;

use crate::tpm::constants::{alg, curve};
use crate::tpm::structures::schemes::Scheme;

verus! {

/// True when a curve and the hash of a KDF make a KEM: each curve goes with one
/// hash.
pub open spec fn kem_suite(curve_id: u16, kdf: Scheme) -> bool {
    match kdf.spec_hash_alg() {
        Some(h) => (curve_id == curve::NIST_P256 && h == alg::SHA256) || (curve_id
            == curve::NIST_P384 && h == alg::SHA384) || (curve_id == curve::NIST_P521 && h
            == alg::SHA512),
        None => false,
    }
}

/// True when a curve and the hash of a KDF make a KEM.
pub fn is_kem_suite(curve_id: u16, kdf: &Scheme) -> (r: bool)
    ensures
        r == kem_suite(curve_id, *kdf),
{
    match kdf.hash_alg() {
        Some(h) => (curve_id == curve::NIST_P256 && h == alg::SHA256) || (curve_id
            == curve::NIST_P384 && h == alg::SHA384) || (curve_id == curve::NIST_P521 && h
            == alg::SHA512),
        None => false,
    }
}

} // verus!
