//! The header of a command and of a response.

use vstd::prelude::*;

use crate::tpm::config;
use crate::tpm::constants::{rc, st};
use crate::tpm::error::{TpmRc, TpmResult};
use crate::util::bytes::{
    be16, be32, octets16, octets32, push_be16, push_be32, read_be16, read_be32,
};

verus! {

/// Octets in the header of a command or of a response.
pub const HEADER_SIZE: usize = 10;

/// The header of a command.
#[derive(Debug, Clone, Copy, PartialEq, Eq, Structural)]
pub struct Header {
    pub tag: u16,
    pub size: u32,
    pub code: u32,
}

/// The header of a command buffer.
pub open spec fn header_of(buf: Seq<u8>) -> TpmResult<Header> {
    if buf.len() < 10 {
        Err(TpmRc(rc::COMMAND_SIZE))
    } else if be16(buf, 0) != st::NO_SESSIONS && be16(buf, 0) != st::SESSIONS {
        Err(TpmRc(rc::BAD_TAG))
    } else if be32(buf, 2) != buf.len() || be32(buf, 2) > config::MAX_COMMAND_SIZE {
        Err(TpmRc(rc::COMMAND_SIZE))
    } else {
        Ok(Header { tag: be16(buf, 0), size: be32(buf, 2), code: be32(buf, 6) })
    }
}

/// Read the header of a command buffer.
///
/// TPM_RC_COMMAND_SIZE when the size it gives is not the size of the buffer,
/// and TPM_RC_BAD_TAG for any but the two tags of a command.
pub fn parse_header(buf: &[u8]) -> (r: TpmResult<Header>)
    ensures
        r == header_of(buf@),
{
    if buf.len() < HEADER_SIZE {
        return Err(TpmRc(rc::COMMAND_SIZE));
    }
    let tag: u16 = read_be16(buf, 0);
    if tag != st::NO_SESSIONS && tag != st::SESSIONS {
        return Err(TpmRc(rc::BAD_TAG));
    }
    let size: u32 = read_be32(buf, 2);
    if size as usize != buf.len() || size > config::MAX_COMMAND_SIZE {
        return Err(TpmRc(rc::COMMAND_SIZE));
    }
    Ok(Header { tag, size, code: read_be32(buf, 6) })
}

/// A response that holds a code and nothing else.
///
/// TPM_RC_BAD_TAG is answered in the form a TPM of the earlier family uses.
pub open spec fn error_octets(e: TpmRc) -> Seq<u8> {
    octets16(
        if e.0 == rc::BAD_TAG {
            st::RSP_COMMAND
        } else {
            st::NO_SESSIONS
        },
    ) + octets32(10) + octets32(e.0)
}

/// A response that holds a code and nothing else.
pub fn error_response(e: TpmRc) -> (r: Vec<u8>)
    ensures
        r@ == error_octets(e),
        r@.len() == 10,
{
    let mut out: Vec<u8> = Vec::new();
    let tag: u16 = if e.0 == rc::BAD_TAG {
        st::RSP_COMMAND
    } else {
        st::NO_SESSIONS
    };
    push_be16(&mut out, tag);
    push_be32(&mut out, 10);
    push_be32(&mut out, e.0);
    assert(out@ =~= error_octets(e));
    out
}

} // verus!
