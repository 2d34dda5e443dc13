//! Transports that carry TPM command buffers.
//!
//! * `socket` speaks the TPM simulator TCP protocol on a command port and a
//!   platform control port, which is what existing TPM tooling expects.
//! * `pipe` carries bare TPM command and response buffers.
//! * `qemu` splits the two apart the way a virtual machine monitor expects: a
//!   data channel carrying bare command and response buffers, and a control
//!   channel carrying the platform requests.
//!
//! The modules frame octets and decide what each request asks for. Moving the
//! octets is left to the program around the library.

pub mod device;
pub mod laws;
pub mod pipe;
pub mod qemu;
pub mod simulator;
pub mod socket;
