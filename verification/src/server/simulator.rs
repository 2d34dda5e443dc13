//! The TPM simulator TCP protocol.
//!
//! Requests are a UINT32 opcode followed by opcode specific fields. All
//! integers are big endian. Most requests end with a UINT32 acknowledgement of
//! zero. Tools such as the TSS libraries speak this protocol.

use vstd::prelude::*;

use crate::tpm::marshal::Reader;
use crate::util::bytes::{be32, octets32, push_be32};

verus! {

pub const SIGNAL_POWER_ON: u32 = 1;
pub const SIGNAL_POWER_OFF: u32 = 2;
pub const SIGNAL_PHYS_PRES_ON: u32 = 3;
pub const SIGNAL_PHYS_PRES_OFF: u32 = 4;
pub const SIGNAL_HASH_START: u32 = 5;
pub const SIGNAL_HASH_DATA: u32 = 6;
pub const SIGNAL_HASH_END: u32 = 7;
pub const SEND_COMMAND: u32 = 8;
pub const SIGNAL_CANCEL_ON: u32 = 9;
pub const SIGNAL_CANCEL_OFF: u32 = 10;
pub const SIGNAL_NV_ON: u32 = 11;
pub const SIGNAL_NV_OFF: u32 = 12;
pub const SIGNAL_KEY_CACHE_ON: u32 = 13;
pub const SIGNAL_KEY_CACHE_OFF: u32 = 14;
pub const REMOTE_HANDSHAKE: u32 = 15;
pub const SET_ALTERNATIVE_RESULT: u32 = 16;
pub const SIGNAL_RESET: u32 = 17;
pub const SIGNAL_RESTART: u32 = 18;
pub const SESSION_END: u32 = 20;
pub const STOP: u32 = 21;
pub const GET_COMMAND_RESPONSE_SIZES: u32 = 25;
pub const ACT_GET_SIGNALED: u32 = 26;
pub const TEST_FAILURE_MODE: u32 = 30;

/// Protocol version reported in the handshake.
pub const SERVER_VERSION: u32 = 1;

pub const PLATFORM_AVAILABLE: u32 = 0x01;
pub const USES_TBS: u32 = 0x02;
pub const IN_RAW_MODE: u32 = 0x04;
pub const SUPPORTS_PP: u32 = 0x08;
pub const NO_POWER_CTL: u32 = 0x10;
pub const NO_LOCALITY_CTL: u32 = 0x20;

/// What this endpoint supports: a separate platform port and physical presence
/// signalling.
pub const ENDPOINT_INFO: u32 = PLATFORM_AVAILABLE | SUPPORTS_PP;

/// Acknowledgement value appended to most replies.
pub const ACK_OK: u32 = 0;

/// Largest buffer accepted from a client, which bounds memory use if a peer
/// sends a bogus length.
pub const MAX_TRANSFER: u32 = 65536;

/// Why a stream could not be read on.
#[derive(Debug, Clone, Copy, PartialEq, Eq, Structural)]
pub enum StreamError {
    /// The stream ended inside a field.
    UnexpectedEof,
    /// A counted transfer asks for more than [`MAX_TRANSFER`] octets.
    TransferTooLarge(u32),
    /// A command header gives a size no command can have.
    BadCommandSize(u32),
    /// A request number this protocol does not have.
    UnknownRequest(u32),
}

/// The two ways a stream fails.
#[derive(Debug, Clone, Copy, PartialEq, Eq, Structural)]
pub enum ErrorKind {
    UnexpectedEof,
    InvalidData,
}

impl StreamError {
    /// Whether the octets stopped early or were not usable.
    pub open spec fn spec_kind(self) -> ErrorKind {
        match self {
            StreamError::UnexpectedEof => ErrorKind::UnexpectedEof,
            _ => ErrorKind::InvalidData,
        }
    }

    /// Whether the octets stopped early or were not usable.
    pub fn kind(self) -> (k: ErrorKind)
        ensures
            k == self.spec_kind(),
    {
        match self {
            StreamError::UnexpectedEof => ErrorKind::UnexpectedEof,
            _ => ErrorKind::InvalidData,
        }
    }
}

/// Read a UINT32, or `None` at a clean end of stream.
pub fn read_u32_opt(r: &mut Reader) -> (out: Result<Option<u32>, StreamError>)
    ensures
        final(r).data() == old(r).data(),
        0 <= old(r).at() <= final(r).at() <= final(r).data().len(),
        old(r).at() == old(r).data().len() ==> out == Ok::<Option<u32>, StreamError>(None),
        old(r).at() < old(r).data().len() < old(r).at() + 4 ==> out == Err::<
            Option<u32>,
            StreamError,
        >(StreamError::UnexpectedEof),
        old(r).at() + 4 <= old(r).data().len() ==> out == Ok::<Option<u32>, StreamError>(
            Some(be32(old(r).data(), old(r).at())),
        ) && final(r).at() == old(r).at() + 4,
{
    if r.remaining() == 0 {
        return Ok(None);
    }
    match r.u32() {
        Ok(v) => Ok(Some(v)),
        Err(_) => Err(StreamError::UnexpectedEof),
    }
}

/// Read a UINT32.
pub fn read_u32(r: &mut Reader) -> (out: Result<u32, StreamError>)
    ensures
        final(r).data() == old(r).data(),
        0 <= old(r).at() <= final(r).at() <= final(r).data().len(),
        out is Ok <==> old(r).at() + 4 <= old(r).data().len(),
        out matches Ok(v) ==> v == be32(old(r).data(), old(r).at()) && final(r).at() == old(r).at()
            + 4,
        out matches Err(e) ==> e == StreamError::UnexpectedEof,
{
    match r.u32() {
        Ok(v) => Ok(v),
        Err(_) => Err(StreamError::UnexpectedEof),
    }
}

/// Read one octet.
pub fn read_u8(r: &mut Reader) -> (out: Result<u8, StreamError>)
    ensures
        final(r).data() == old(r).data(),
        0 <= old(r).at() <= final(r).at() <= final(r).data().len(),
        out is Ok <==> old(r).at() + 1 <= old(r).data().len(),
        out matches Ok(v) ==> v == old(r).data()[old(r).at()] && final(r).at() == old(r).at() + 1,
        out matches Err(e) ==> e == StreamError::UnexpectedEof,
{
    match r.u8() {
        Ok(v) => Ok(v),
        Err(_) => Err(StreamError::UnexpectedEof),
    }
}

/// The octets a counted transfer at `at` carries and where it ends.
pub open spec fn blob_at(d: Seq<u8>, at: int) -> Result<(Seq<u8>, int), StreamError> {
    if at + 4 > d.len() {
        Err(StreamError::UnexpectedEof)
    } else if be32(d, at) > MAX_TRANSFER {
        Err(StreamError::TransferTooLarge(be32(d, at)))
    } else if at + 4 + be32(d, at) > d.len() {
        Err(StreamError::UnexpectedEof)
    } else {
        Ok((d.subrange(at + 4, at + 4 + be32(d, at)), at + 4 + be32(d, at)))
    }
}

/// Read a UINT32 length followed by that many octets.
///
/// A length above [`MAX_TRANSFER`] is refused before anything is read for it.
pub fn read_blob(r: &mut Reader) -> (out: Result<Vec<u8>, StreamError>)
    ensures
        final(r).data() == old(r).data(),
        0 <= old(r).at() <= final(r).at() <= final(r).data().len(),
        match blob_at(old(r).data(), old(r).at()) {
            Ok((b, next)) => out is Ok && out->Ok_0@ == b && final(r).at() == next,
            Err(e) => out is Err && out->Err_0 == e,
        },
{
    let len: u32 = read_u32(r)?;
    if len > MAX_TRANSFER {
        return Err(StreamError::TransferTooLarge(len));
    }
    match r.take(len as usize) {
        Ok(v) => Ok(v),
        Err(_) => Err(StreamError::UnexpectedEof),
    }
}

/// Write a UINT32.
pub fn write_u32(out: &mut Vec<u8>, v: u32)
    ensures
        final(out)@ == old(out)@ + octets32(v),
{
    push_be32(out, v);
}

/// A UINT32 length followed by the octets.
pub open spec fn blob(b: Seq<u8>) -> Seq<u8> {
    octets32(b.len() as u32) + b
}

/// Write a UINT32 length followed by the octets.
pub fn write_blob(out: &mut Vec<u8>, b: &[u8])
    ensures
        final(out)@ == old(out)@ + blob(b@),
{
    push_be32(out, b.len() as u32);
    out.extend_from_slice(b);
    assert(out@ =~= old(out)@ + blob(b@));
}

/// Write the standard acknowledgement.
pub fn write_ack(out: &mut Vec<u8>)
    ensures
        final(out)@ == old(out)@ + octets32(ACK_OK),
{
    push_be32(out, ACK_OK);
}

/// A transfer that is not too large is read back as it was written.
pub proof fn law_blob_round_trip(before: Seq<u8>, b: Seq<u8>, after: Seq<u8>)
    requires
        b.len() <= MAX_TRANSFER,
    ensures
        blob_at(before + blob(b) + after, before.len() as int) == Ok::<(Seq<u8>, int), StreamError>(
            (b, before.len() + 4int + b.len()),
        ),
{
    let d = before + blob(b) + after;
    let at = before.len() as int;
    let n = b.len() as u32;
    crate::util::bytes::lemma_octets32(n);
    assert(d[at] == octets32(n)[0]);
    assert(d[at + 1] == octets32(n)[1]);
    assert(d[at + 2] == octets32(n)[2]);
    assert(d[at + 3] == octets32(n)[3]);
    assert(be32(d, at) == n);
    assert(d.subrange(at + 4, at + 4 + b.len()) =~= b);
}

} // verus!
