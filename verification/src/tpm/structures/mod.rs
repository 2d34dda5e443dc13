//! The structures of the TPM library.

pub mod attest;
pub mod attributes;
pub mod auth;
pub mod base;
pub mod capability;
pub mod context;
pub mod keys;
pub mod lists;
pub mod nv;
pub mod schemes;
pub mod signature;
