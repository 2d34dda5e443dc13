//! The TPM itself.

pub mod commands;
pub mod config;
pub mod constants;
pub mod engine;
pub mod crypto;
pub mod device;
pub mod error;
pub mod fips;
pub mod laws;
pub mod machine;
pub mod marshal;
pub mod structures;
