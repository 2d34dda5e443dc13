//! A software TPM 2.0.

pub mod cli;
pub mod console;
pub mod logging;
pub mod server;
pub mod tpm;
pub mod util;
