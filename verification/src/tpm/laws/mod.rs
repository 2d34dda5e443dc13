//! What the commands are for: laws over requests, responses and states, stated
//! without the functions that compute them.

pub mod nv;
pub mod pcr;
pub mod attest;
pub mod authorize;
pub mod octets;
pub mod policy;
pub mod signing;
pub mod approval;
pub mod derivation;
pub mod sessions;
pub mod codes;
pub mod hierarchy;
pub mod lifecycle;
pub mod cryptography;
pub mod objects;
pub mod entities;
pub mod capability;
