//! The state of the TPM and the rules it keeps.

pub mod handle_map;
pub mod hierarchy;
pub mod lifecycle;
pub mod names;
pub mod nv;
pub mod nv_store;
pub mod object;
pub mod pcr;
pub mod protect;
pub mod saved_object;
pub mod saved_session;
pub mod session;
pub mod session_store;
pub mod snapshot;
pub mod state;
pub mod validate;
