//! Cryptographic primitives.

pub mod aes;
pub mod aes_inverse;
pub mod bn;
pub mod curves;
pub mod dhkem;
pub mod ecc;
pub mod ecc_group;
pub mod hash;
pub mod hmac;
pub mod rand;
pub mod rsa;
pub mod rsa_inverse;
pub mod rsa_padding;
pub mod sha;
pub mod sym;
