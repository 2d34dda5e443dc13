//! Numbers the TPM library defines.

pub mod alg;
pub mod cap;
pub mod cc;
pub mod curve;
pub mod eo;
pub mod hc;
pub mod ht;
pub mod nt;
pub mod pt;
pub mod pt_pcr;
pub mod range;
pub mod rc;
pub mod rh;
pub mod saved;
pub mod se;
pub mod st;
pub mod su;
