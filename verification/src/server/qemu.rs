//! Transport for a virtual machine monitor that drives an external TPM.
//!
//! QEMU talks to an external TPM over two stream connections rather than one.
//! A control channel carries the platform requests that have no command form:
//! initialise, stop, set the locality, read and clear the establishment flag,
//! and agree a buffer size. A data channel carries bare TPM command and
//! response buffers.
//!
//! Every control request is a UINT32 request number followed by a payload whose
//! length is fixed for that request. Every reply begins with a UINT32 result,
//! and carries its remaining fields only when the result is zero: the caller
//! reads the result first and stops there when it is not zero, so any further
//! octets would be read as the beginning of the next reply.

use vstd::prelude::*;

use super::device::{
    all_calls, flag_in, made, perform_all, signal_view, signal_views, signals_in, Call, Device,
    Signal, Told,
};
use super::pipe::commands_run;
use super::simulator::{
    blob_at, read_blob, read_u32, read_u32_opt, write_u32, StreamError, MAX_TRANSFER,
};
use crate::tpm::config;
use crate::tpm::constants::rc;
use crate::tpm::marshal::Reader;
use crate::util::bytes::{be32, octets32, read_be32};

verus! {

pub const GET_CAPABILITY: u32 = 1;
pub const INIT: u32 = 2;
pub const SHUTDOWN: u32 = 3;
pub const GET_ESTABLISHED: u32 = 4;
pub const SET_LOCALITY: u32 = 5;
pub const HASH_START: u32 = 6;
pub const HASH_DATA: u32 = 7;
pub const HASH_END: u32 = 8;
pub const CANCEL: u32 = 9;
pub const STORE_VOLATILE: u32 = 10;
pub const RESET_ESTABLISHED: u32 = 11;
pub const GET_STATEBLOB: u32 = 12;
pub const SET_STATEBLOB: u32 = 13;
pub const STOP: u32 = 14;
pub const GET_CONFIG: u32 = 15;
pub const SET_DATAFD: u32 = 16;
pub const SET_BUFFERSIZE: u32 = 17;
pub const GET_INFO: u32 = 18;
pub const LOCK_STORAGE: u32 = 19;

pub const CAP_INIT: u32 = 0x0001;
pub const CAP_SHUTDOWN: u32 = 0x0002;
pub const CAP_GET_ESTABLISHED: u32 = 0x0004;
pub const CAP_SET_LOCALITY: u32 = 0x0008;
pub const CAP_HASHING: u32 = 0x0010;
pub const CAP_CANCEL: u32 = 0x0020;
pub const CAP_STORE_VOLATILE: u32 = 0x0040;
pub const CAP_RESET_ESTABLISHED: u32 = 0x0080;
pub const CAP_GET_STATEBLOB: u32 = 0x0100;
pub const CAP_SET_STATEBLOB: u32 = 0x0200;
pub const CAP_STOP: u32 = 0x0400;
pub const CAP_GET_CONFIG: u32 = 0x0800;
pub const CAP_SET_DATAFD: u32 = 0x1000;
pub const CAP_SET_BUFFERSIZE: u32 = 0x2000;
pub const CAP_GET_INFO: u32 = 0x4000;
pub const CAP_SEND_COMMAND_HEADER: u32 = 0x8000;
pub const CAP_LOCK_STORAGE: u32 = 0x1_0000;

/// What this transport answers to a capability request.
///
/// Only what is actually done is claimed. Two omissions are deliberate:
///
/// * The request that passes an already connected data channel as a descriptor
///   is not offered. This transport is given its data channel directly, so
///   there is no descriptor to pass and nothing for that request to do.
/// * Cancelling a running command is not offered. A command here runs to
///   completion and nothing samples a cancel signal part way through, so
///   claiming the capability would promise an effect that would never happen.
///
/// The state blob requests are likewise absent, which is how a caller is told
/// that the virtual machine cannot be migrated while this TPM is attached.
pub const CAPABILITIES: u32 = CAP_INIT | CAP_SHUTDOWN | CAP_GET_ESTABLISHED | CAP_SET_LOCALITY
    | CAP_HASHING | CAP_RESET_ESTABLISHED | CAP_STOP | CAP_SET_BUFFERSIZE;

/// Smallest command and response buffer that will be agreed.
pub const MIN_BUFFER_SIZE: u32 = 1024;

/// Largest command and response buffer that will be agreed.
pub const MAX_BUFFER_SIZE: u32 = config::MAX_RESPONSE_SIZE;

/// Highest locality a platform may select.
pub const MAX_LOCALITY: u8 = 4;

/// Length of a command header.
pub const HEADER_SIZE: usize = 10;

/// State the two channels share.
///
/// The locality is chosen on the control channel and applies to every command
/// that arrives on the data channel until it is chosen again.
#[derive(Debug)]
pub struct Link {
    locality: u8,
    buffer_size: u32,
}

/// The size agreed when `wanted` is asked for and `current` is in use.
pub open spec fn agreed_size(wanted: u32, current: u32) -> u32 {
    if wanted == 0 {
        current
    } else if wanted < MIN_BUFFER_SIZE {
        MIN_BUFFER_SIZE
    } else if wanted > MAX_BUFFER_SIZE {
        MAX_BUFFER_SIZE
    } else {
        wanted
    }
}

impl Link {
    /// The locality commands run at.
    pub closed spec fn chosen_locality(&self) -> u8 {
        self.locality
    }

    /// The buffer size in use.
    pub closed spec fn chosen_size(&self) -> u32 {
        self.buffer_size
    }

    /// The locality is one a platform may select and the size one that may be
    /// agreed.
    #[verifier::type_invariant]
    spec fn in_range(self) -> bool {
        self.locality <= MAX_LOCALITY && MIN_BUFFER_SIZE <= self.buffer_size <= MAX_BUFFER_SIZE
    }

    /// The locality commands run at.
    pub fn locality(&self) -> (r: u8)
        ensures
            r == self.chosen_locality(),
            r <= MAX_LOCALITY,
    {
        proof {
            use_type_invariant(&*self);
        }
        self.locality
    }

    /// The buffer size in use.
    pub fn buffer_size(&self) -> (r: u32)
        ensures
            r == self.chosen_size(),
            MIN_BUFFER_SIZE <= r <= MAX_BUFFER_SIZE,
    {
        proof {
            use_type_invariant(&*self);
        }
        self.buffer_size
    }

    /// Agree a buffer size. A request of zero asks what is in use without
    /// changing it; anything else is held to the supported range.
    ///
    /// The caller compares what it asked for against what is returned and
    /// refuses to continue if they differ, so a request outside the range is
    /// answered with the nearest supported size rather than accepted.
    pub fn agree_buffer_size(&mut self, wanted: u32) -> (size: u32)
        ensures
            size == agreed_size(wanted, old(self).chosen_size()),
            final(self).chosen_size() == size,
            final(self).chosen_locality() == old(self).chosen_locality(),
    {
        proof {
            use_type_invariant(&*self);
        }
        if wanted == 0 {
            return self.buffer_size;
        }
        let size: u32 = if wanted < MIN_BUFFER_SIZE {
            MIN_BUFFER_SIZE
        } else if wanted > MAX_BUFFER_SIZE {
            MAX_BUFFER_SIZE
        } else {
            wanted
        };
        self.buffer_size = size;
        size
    }

    /// Choose a locality, or refuse one no platform may select.
    pub fn choose_locality(&mut self, locality: u8) -> (done: bool)
        ensures
            done == (locality <= MAX_LOCALITY),
            final(self).chosen_locality() == (if done {
                locality
            } else {
                old(self).chosen_locality()
            }),
            final(self).chosen_size() == old(self).chosen_size(),
    {
        proof {
            use_type_invariant(&*self);
        }
        if locality > MAX_LOCALITY {
            return false;
        }
        self.locality = locality;
        true
    }
}

impl Default for Link {
    fn default() -> (r: Self)
        ensures
            r.chosen_locality() == 0,
            r.chosen_size() == MAX_BUFFER_SIZE,
    {
        Link { locality: 0, buffer_size: MAX_BUFFER_SIZE }
    }
}

/// A buffer size that may be agreed is agreed exactly.
pub proof fn law_a_supported_size_is_agreed(wanted: u32, current: u32)
    requires
        MIN_BUFFER_SIZE <= wanted <= MAX_BUFFER_SIZE,
    ensures
        agreed_size(wanted, current) == wanted,
{
}

/// Take the locality out of a four octet payload.
///
/// The locality is the first octet on the wire. The three that follow are
/// padding to the width of a result and are not always cleared by the caller,
/// so they are ignored rather than checked.
pub open spec fn locality_in(payload: u32) -> u8 {
    (payload >> 24) as u8
}

/// Take the locality out of a four octet payload.
pub fn locality_of(payload: u32) -> (r: u8)
    ensures
        r == locality_in(payload),
{
    (payload >> 24) as u8
}

/// The locality in a payload is its first octet whatever the others hold.
pub proof fn law_the_locality_is_the_first_octet(d: Seq<u8>, at: int)
    ensures
        locality_in(be32(d, at)) == d[at],
{
    let (a, b, c, e) = (d[at], d[at + 1], d[at + 2], d[at + 3]);
    assert((((a as u32) << 24 | (b as u32) << 16 | (c as u32) << 8 | (e as u32)) >> 24) as u8 == a)
        by (bit_vector);
}

/// One request of the control channel. `B` holds octets.
pub enum Control<B> {
    GetCapability,
    /// The flag word asks for the volatile state file to be dropped after it
    /// is read. This TPM keeps one state file and reloads it when it starts,
    /// so there is nothing to drop.
    Init(u32),
    Stop,
    Shutdown,
    GetEstablished,
    ResetEstablished(u8),
    SetLocality(u8),
    SetBufferSize(u32),
    HashStart,
    HashData(B),
    HashEnd,
}

/// The same request over the octets themselves.
pub open spec fn control_view(c: Control<Vec<u8>>) -> Control<Seq<u8>> {
    match c {
        Control::GetCapability => Control::GetCapability,
        Control::Init(f) => Control::Init(f),
        Control::Stop => Control::Stop,
        Control::Shutdown => Control::Shutdown,
        Control::GetEstablished => Control::GetEstablished,
        Control::ResetEstablished(l) => Control::ResetEstablished(l),
        Control::SetLocality(l) => Control::SetLocality(l),
        Control::SetBufferSize(s) => Control::SetBufferSize(s),
        Control::HashStart => Control::HashStart,
        Control::HashData(b) => Control::HashData(b@),
        Control::HashEnd => Control::HashEnd,
    }
}

/// The control request that starts at `at`, and `None` at a clean end of
/// stream.
///
/// A request whose payload length is not known cannot be skipped without
/// losing the framing of everything after it, so it is refused.
pub open spec fn control_at(d: Seq<u8>, at: int) -> Result<
    Option<(Control<Seq<u8>>, int)>,
    StreamError,
> {
    if at >= d.len() {
        Ok(None)
    } else if at + 4 > d.len() {
        Err(StreamError::UnexpectedEof)
    } else {
        let number = be32(d, at);
        if number == GET_CAPABILITY {
            Ok(Some((Control::GetCapability, at + 4)))
        } else if number == STOP {
            Ok(Some((Control::Stop, at + 4)))
        } else if number == SHUTDOWN {
            Ok(Some((Control::Shutdown, at + 4)))
        } else if number == GET_ESTABLISHED {
            Ok(Some((Control::GetEstablished, at + 4)))
        } else if number == HASH_START {
            Ok(Some((Control::HashStart, at + 4)))
        } else if number == HASH_END {
            Ok(Some((Control::HashEnd, at + 4)))
        } else if number == HASH_DATA {
            match blob_at(d, at + 4) {
                Ok((b, next)) => Ok(Some((Control::HashData(b), next))),
                Err(e) => Err(e),
            }
        } else if number == INIT || number == RESET_ESTABLISHED || number == SET_LOCALITY || number
            == SET_BUFFERSIZE {
            if at + 8 > d.len() {
                Err(StreamError::UnexpectedEof)
            } else {
                let word = be32(d, at + 4);
                let control = if number == INIT {
                    Control::Init(word)
                } else if number == RESET_ESTABLISHED {
                    Control::ResetEstablished(locality_in(word))
                } else if number == SET_LOCALITY {
                    Control::SetLocality(locality_in(word))
                } else {
                    Control::SetBufferSize(word)
                };
                Ok(Some((control, at + 8)))
            }
        } else {
            Err(StreamError::UnknownRequest(number))
        }
    }
}

/// Read one control request.
pub fn read_control(r: &mut Reader) -> (out: Result<Option<Control<Vec<u8>>>, StreamError>)
    ensures
        final(r).data() == old(r).data(),
        0 <= old(r).at() <= final(r).at() <= final(r).data().len(),
        match control_at(old(r).data(), old(r).at()) {
            Ok(None) => out == Ok::<Option<Control<Vec<u8>>>, StreamError>(None),
            Ok(Some((q, next))) => out is Ok && out->Ok_0 is Some && control_view(out->Ok_0->Some_0)
                == q && final(r).at() == next && next > old(r).at(),
            Err(e) => out is Err && out->Err_0 == e,
        },
{
    let number: u32 = match read_u32_opt(r)? {
        Some(v) => v,
        None => {
            return Ok(None);
        },
    };
    let control: Control<Vec<u8>> = if number == GET_CAPABILITY {
        Control::GetCapability
    } else if number == STOP {
        Control::Stop
    } else if number == SHUTDOWN {
        Control::Shutdown
    } else if number == GET_ESTABLISHED {
        Control::GetEstablished
    } else if number == HASH_START {
        Control::HashStart
    } else if number == HASH_END {
        Control::HashEnd
    } else if number == HASH_DATA {
        Control::HashData(read_blob(r)?)
    } else if number == INIT {
        Control::Init(read_u32(r)?)
    } else if number == RESET_ESTABLISHED {
        Control::ResetEstablished(locality_of(read_u32(r)?))
    } else if number == SET_LOCALITY {
        Control::SetLocality(locality_of(read_u32(r)?))
    } else if number == SET_BUFFERSIZE {
        Control::SetBufferSize(read_u32(r)?)
    } else {
        return Err(StreamError::UnknownRequest(number));
    };
    Ok(Some(control))
}

/// The calls a control request makes on the device, in order.
pub open spec fn control_signals(c: Control<Seq<u8>>) -> Seq<Signal<Seq<u8>>> {
    match c {
        Control::Init(_) => seq![Signal::PowerOn, Signal::NvOn],
        Control::Stop | Control::Shutdown => seq![Signal::PowerOff],
        Control::GetEstablished => seq![Signal::Established],
        Control::ResetEstablished(l) => if l > MAX_LOCALITY {
            Seq::empty()
        } else {
            seq![Signal::ResetEstablished(l)]
        },
        Control::HashStart => seq![Signal::HashStart],
        Control::HashData(b) => seq![Signal::HashData(b)],
        Control::HashEnd => seq![Signal::HashEnd],
        _ => Seq::empty(),
    }
}

/// What a control request gives the caller back.
#[derive(Debug, Clone, Copy, PartialEq, Eq, Structural)]
pub enum ControlReply {
    /// The result alone.
    Done,
    /// A locality no platform may select.
    BadLocality,
    /// The result and the capability bits.
    Capability,
    /// The result, the establishment flag and three octets of padding. The
    /// caller reads this reply in one go.
    Established,
    /// The result, the size agreed and the two bounds.
    Size(u32),
    /// The result, after which the TPM shuts down.
    Shutdown,
}

/// The reply to a control request when `size` is the buffer size in use.
pub open spec fn control_reply(c: Control<Seq<u8>>, size: u32) -> ControlReply {
    match c {
        Control::GetCapability => ControlReply::Capability,
        Control::Shutdown => ControlReply::Shutdown,
        Control::GetEstablished => ControlReply::Established,
        Control::ResetEstablished(l) | Control::SetLocality(l) => if l > MAX_LOCALITY {
            ControlReply::BadLocality
        } else {
            ControlReply::Done
        },
        Control::SetBufferSize(wanted) => ControlReply::Size(agreed_size(wanted, size)),
        _ => ControlReply::Done,
    }
}

/// Decide what a control request does: to the link, to the device and as a
/// reply.
pub fn control(link: &mut Link, c: Control<Vec<u8>>) -> (out: (Vec<Signal<Vec<u8>>>, ControlReply))
    ensures
        out.0@.len() == control_signals(control_view(c)).len(),
        forall|i: int|
            0 <= i < out.0@.len() ==> signal_view(#[trigger] out.0@[i]) == control_signals(
                control_view(c),
            )[i],
        out.1 == control_reply(control_view(c), old(link).chosen_size()),
        final(link).chosen_locality() == (match c {
            Control::SetLocality(l) => if l <= MAX_LOCALITY {
                l
            } else {
                old(link).chosen_locality()
            },
            _ => old(link).chosen_locality(),
        }),
        final(link).chosen_size() == (match c {
            Control::SetBufferSize(w) => agreed_size(w, old(link).chosen_size()),
            _ => old(link).chosen_size(),
        }),
{
    let mut out: Vec<Signal<Vec<u8>>> = Vec::new();
    match c {
        Control::GetCapability => (out, ControlReply::Capability),
        Control::Init(_) => {
            out.push(Signal::PowerOn);
            out.push(Signal::NvOn);
            (out, ControlReply::Done)
        },
        Control::Stop => {
            out.push(Signal::PowerOff);
            (out, ControlReply::Done)
        },
        Control::Shutdown => {
            out.push(Signal::PowerOff);
            (out, ControlReply::Shutdown)
        },
        Control::GetEstablished => {
            out.push(Signal::Established);
            (out, ControlReply::Established)
        },
        Control::ResetEstablished(locality) => {
            if locality > MAX_LOCALITY {
                (out, ControlReply::BadLocality)
            } else {
                out.push(Signal::ResetEstablished(locality));
                (out, ControlReply::Done)
            }
        },
        Control::SetLocality(locality) => {
            if link.choose_locality(locality) {
                (out, ControlReply::Done)
            } else {
                (out, ControlReply::BadLocality)
            }
        },
        Control::SetBufferSize(wanted) => {
            let size: u32 = link.agree_buffer_size(wanted);
            (out, ControlReply::Size(size))
        },
        Control::HashStart => {
            out.push(Signal::HashStart);
            (out, ControlReply::Done)
        },
        Control::HashData(data) => {
            out.push(Signal::HashData(data));
            (out, ControlReply::Done)
        },
        Control::HashEnd => {
            out.push(Signal::HashEnd);
            (out, ControlReply::Done)
        },
    }
}

/// The octets of a control reply, given the establishment flag.
pub open spec fn control_octets(r: ControlReply, established: bool) -> Seq<u8> {
    match r {
        ControlReply::Done | ControlReply::Shutdown => octets32(rc::SUCCESS),
        ControlReply::BadLocality => octets32(rc::LOCALITY),
        ControlReply::Capability => octets32(rc::SUCCESS) + octets32(CAPABILITIES),
        ControlReply::Established => octets32(rc::SUCCESS) + seq![
            if established {
                1u8
            } else {
                0u8
            },
            0u8,
            0u8,
            0u8,
        ],
        ControlReply::Size(size) => octets32(rc::SUCCESS) + octets32(size) + octets32(
            MIN_BUFFER_SIZE,
        ) + octets32(MAX_BUFFER_SIZE),
    }
}

/// Write a control reply, given the establishment flag.
pub fn write_control(out: &mut Vec<u8>, r: ControlReply, established: bool)
    ensures
        final(out)@ == old(out)@ + control_octets(r, established),
{
    match r {
        ControlReply::Done | ControlReply::Shutdown => write_u32(out, rc::SUCCESS),
        ControlReply::BadLocality => write_u32(out, rc::LOCALITY),
        ControlReply::Capability => {
            write_u32(out, rc::SUCCESS);
            write_u32(out, CAPABILITIES);
        },
        ControlReply::Established => {
            write_u32(out, rc::SUCCESS);
            out.push(
                if established {
                    1
                } else {
                    0
                },
            );
            out.push(0);
            out.push(0);
            out.push(0);
        },
        ControlReply::Size(size) => {
            write_u32(out, rc::SUCCESS);
            write_u32(out, size);
            write_u32(out, MIN_BUFFER_SIZE);
            write_u32(out, MAX_BUFFER_SIZE);
        },
    }
    assert(out@ =~= old(out)@ + control_octets(r, established));
}

/// Carry out what was decided on a control request: make the calls, write the
/// reply to `out`, and say whether the TPM shuts down with it.
pub fn answer_control<D: Device>(
    device: &mut D,
    decided: &(Vec<Signal<Vec<u8>>>, ControlReply),
    out: &mut Vec<u8>,
) -> (ending: bool)
    ensures
        ({
            let new = made(final(device).calls(), old(device).calls());
            &&& final(device).calls() == old(device).calls() + new
            &&& signals_in(new) == signal_views(decided.0@)
            &&& final(out)@ == old(out)@ + control_octets(decided.1, flag_in(new))
            &&& ending == (decided.1 == ControlReply::Shutdown)
        }),
{
    let told: Told = perform_all(device, &decided.0);
    write_control(out, decided.1, told.flag);
    decided.1 == ControlReply::Shutdown
}

/// How a control connection ended.
#[derive(Debug, Clone, Copy, PartialEq, Eq, Structural)]
pub enum ControlEnded {
    /// The caller closed the connection between two requests.
    Closed,
    /// The caller asked the TPM to shut down.
    Shutdown,
    /// The octets could not be read on.
    Failed(StreamError),
}

/// How a control stream that goes on at `at` ends.
pub open spec fn control_ended(d: Seq<u8>, at: int) -> ControlEnded
    decreases d.len() - at,
{
    match control_at(d, at) {
        Ok(Some((c, next))) if 0 <= at < next => if c is Shutdown {
            ControlEnded::Shutdown
        } else {
            control_ended(d, next)
        },
        Err(e) => ControlEnded::Failed(e),
        _ => ControlEnded::Closed,
    }
}

/// The locality and the buffer size a link has after a control stream that
/// goes on at `at`.
pub open spec fn link_after(d: Seq<u8>, at: int, locality: u8, size: u32) -> (u8, u32)
    decreases d.len() - at,
{
    match control_at(d, at) {
        Ok(Some((c, next))) if 0 <= at < next => match c {
            Control::Shutdown => (locality, size),
            Control::SetLocality(l) => link_after(
                d,
                next,
                if l <= MAX_LOCALITY {
                    l
                } else {
                    locality
                },
                size,
            ),
            Control::SetBufferSize(w) => link_after(d, next, locality, agreed_size(w, size)),
            _ => link_after(d, next, locality, size),
        },
        _ => (locality, size),
    }
}

/// The replies a control stream is owed from `at` on, when `size` is the
/// buffer size in use.
pub open spec fn control_replies(d: Seq<u8>, at: int, size: u32) -> Seq<ControlReply>
    decreases d.len() - at,
{
    match control_at(d, at) {
        Ok(Some((c, next))) if 0 <= at < next => if c is Shutdown {
            seq![control_reply(c, size)]
        } else {
            seq![control_reply(c, size)] + control_replies(
                d,
                next,
                match c {
                    Control::SetBufferSize(w) => agreed_size(w, size),
                    _ => size,
                },
            )
        },
        _ => Seq::empty(),
    }
}

/// The control requests a stream is served from `at` on. A shutdown is the last.
pub open spec fn controls_from(d: Seq<u8>, at: int) -> Seq<Control<Seq<u8>>>
    decreases d.len() - at,
{
    match control_at(d, at) {
        Ok(Some((c, next))) if 0 <= at < next => if c is Shutdown {
            seq![c]
        } else {
            seq![c] + controls_from(d, next)
        },
        _ => Seq::empty(),
    }
}

/// True when `groups` holds, request by request, the calls that the control
/// requests make.
pub open spec fn made_for(controls: Seq<Control<Seq<u8>>>, groups: Seq<Seq<Call>>) -> bool {
    &&& groups.len() == controls.len()
    &&& forall|k: int|
        0 <= k < controls.len() ==> signals_in(#[trigger] groups[k]) == control_signals(controls[k])
}

/// The octets of control replies, each with the establishment flag that its
/// calls found.
pub open spec fn control_replies_octets(
    replies: Seq<ControlReply>,
    groups: Seq<Seq<Call>>,
) -> Seq<u8>
    decreases replies.len(),
{
    if replies.len() == 0 {
        Seq::empty()
    } else {
        control_replies_octets(replies.drop_last(), groups) + control_octets(
            replies.last(),
            flag_in(groups[replies.len() - 1]),
        )
    }
}

proof fn lemma_replies_prefix(
    replies: Seq<ControlReply>,
    a: Seq<Seq<Call>>,
    b: Seq<Seq<Call>>,
)
    requires
        a.len() >= replies.len(),
        b.len() >= replies.len(),
        forall|i: int| 0 <= i < replies.len() ==> a[i] == b[i],
    ensures
        control_replies_octets(replies, a) == control_replies_octets(replies, b),
    decreases replies.len(),
{
    if replies.len() > 0 {
        lemma_replies_prefix(replies.drop_last(), a, b);
    }
}

/// Handle a control connection over everything it sent.
///
/// The device gets the calls of each request, in order, and no others. The
/// octets of the answer are the replies the requests are owed, with the
/// establishment flag as the device gave it.
pub fn serve_control<D: Device>(input: &[u8], device: &mut D, link: &mut Link) -> (out: (
    ControlEnded,
    Vec<u8>,
))
    ensures
        out.0 == control_ended(input@, 0),
        (final(link).chosen_locality(), final(link).chosen_size()) == link_after(
            input@,
            0,
            old(link).chosen_locality(),
            old(link).chosen_size(),
        ),
        exists|groups: Seq<Seq<Call>>|
            #![trigger all_calls(groups)]
            {
                &&& made_for(controls_from(input@, 0), groups)
                &&& final(device).calls() == old(device).calls() + all_calls(groups)
                &&& out.1@ == control_replies_octets(
                    control_replies(input@, 0, old(link).chosen_size()),
                    groups,
                )
            },
{
    let mut r: Reader = Reader::new(input);
    let mut output: Vec<u8> = Vec::new();
    let ghost size0 = link.chosen_size();
    let ghost start = device.calls();
    let ghost all = control_replies(input@, 0, size0);
    let ghost asked = controls_from(input@, 0);
    let ghost goal = link_after(input@, 0, link.chosen_locality(), size0);
    let ghost mut groups: Seq<Seq<Call>> = Seq::empty();
    let ghost mut sent: Seq<ControlReply> = Seq::empty();
    let ghost mut served: Seq<Control<Seq<u8>>> = Seq::empty();
    proof {
        assert(sent + all =~= all);
        assert(served + asked =~= asked);
        assert(start + all_calls(groups) =~= start);
    }
    loop
        invariant
            r.data() == input@,
            0 <= r.at() <= input@.len(),
            start == old(device).calls(),
            made_for(served, groups),
            device.calls() == start + all_calls(groups),
            groups.len() == sent.len(),
            asked == controls_from(input@, 0),
            asked == served + controls_from(input@, r.at()),
            all == sent + control_replies(input@, r.at(), link.chosen_size()),
            goal == link_after(input@, r.at(), link.chosen_locality(), link.chosen_size()),
            control_ended(input@, 0) == control_ended(input@, r.at()),
            output@ == control_replies_octets(sent, groups),
            all == control_replies(input@, 0, old(link).chosen_size()),
            goal == link_after(
                input@,
                0,
                old(link).chosen_locality(),
                old(link).chosen_size(),
            ),
        decreases input@.len() - r.at(),
    {
        match read_control(&mut r) {
            Ok(Some(request)) => {
                let ghost c = control_view(request);
                let ghost before = device.calls();
                let decided: (Vec<Signal<Vec<u8>>>, ControlReply) = control(link, request);
                let ending: bool = answer_control(device, &decided, &mut output);
                proof {
                    let new = made(device.calls(), before);
                    let more = groups.push(new);
                    let grown = sent.push(decided.1);
                    let done = served.push(c);
                    assert(signal_views(decided.0@) =~= control_signals(c));
                    assert(more.drop_last() =~= groups);
                    assert(grown.drop_last() =~= sent);
                    assert(device.calls() =~= start + all_calls(more));
                    lemma_replies_prefix(sent, groups, more);
                    if ending {
                        assert(all =~= grown);
                        assert(asked =~= done);
                    } else {
                        assert(all =~= grown + control_replies(
                            input@,
                            r.at(),
                            link.chosen_size(),
                        ));
                        assert(asked =~= done + controls_from(input@, r.at()));
                    }
                    groups = more;
                    sent = grown;
                    served = done;
                }
                if ending {
                    return (ControlEnded::Shutdown, output);
                }
            },
            Ok(None) => {
                assert(all =~= sent);
                assert(asked =~= served);
                return (ControlEnded::Closed, output);
            },
            Err(e) => {
                assert(all =~= sent);
                assert(asked =~= served);
                return (ControlEnded::Failed(e), output);
            },
        }
    }
}

/// A locality no platform may select is refused without a call of the device,
/// whether it is to be selected or to clear the establishment flag, and the
/// answer says so.
pub proof fn law_a_refused_locality_reaches_no_device(
    controls: Seq<Control<Seq<u8>>>,
    groups: Seq<Seq<Call>>,
    locality: u8,
    size: u32,
)
    requires
        controls == seq![Control::<Seq<u8>>::ResetEstablished(locality)] || controls
            == seq![Control::<Seq<u8>>::SetLocality(locality)],
        locality > MAX_LOCALITY,
        made_for(controls, groups),
    ensures
        all_calls(groups).len() == 0,
        control_reply(controls[0], size) == ControlReply::BadLocality,
        control_octets(control_reply(controls[0], size), flag_in(groups[0])) == octets32(
            rc::LOCALITY,
        ),
{
    reveal_with_fuel(all_calls, 2);
    assert(signals_in(groups[0]) == control_signals(controls[0]));
    assert(signals_in(groups[0]).len() == groups[0].len());
}

/// True for a size the data channel reads a command of. Whether it is one this
/// TPM will accept is for the TPM itself to answer.
pub open spec fn readable_size(size: u32) -> bool {
    HEADER_SIZE <= size <= MAX_TRANSFER
}

/// The command on the data channel that starts at `at`, and `None` at a clean
/// end of stream.
pub open spec fn data_at(d: Seq<u8>, at: int) -> Result<Option<Seq<u8>>, StreamError> {
    if at >= d.len() {
        Ok(None)
    } else if at + HEADER_SIZE > d.len() {
        Err(StreamError::UnexpectedEof)
    } else if !readable_size(be32(d, at + 2)) {
        Err(StreamError::BadCommandSize(be32(d, at + 2)))
    } else if at + be32(d, at + 2) > d.len() {
        Err(StreamError::UnexpectedEof)
    } else {
        Ok(Some(d.subrange(at, at + be32(d, at + 2))))
    }
}

/// Read one command from the data channel.
pub fn read_data(r: &mut Reader) -> (out: Result<Option<Vec<u8>>, StreamError>)
    ensures
        final(r).data() == old(r).data(),
        0 <= old(r).at() <= final(r).at() <= final(r).data().len(),
        match data_at(old(r).data(), old(r).at()) {
            Ok(None) => out == Ok::<Option<Vec<u8>>, StreamError>(None),
            Ok(Some(c)) => out is Ok && out->Ok_0 is Some && out->Ok_0->Some_0@ == c
                && final(r).at() == old(r).at() + c.len() && c.len() >= HEADER_SIZE,
            Err(e) => out is Err && out->Err_0 == e,
        },
{
    let ghost d = r.data();
    let ghost at = r.at();
    if r.remaining() == 0 {
        return Ok(None);
    }
    let mut head: Vec<u8> = match r.take(HEADER_SIZE) {
        Ok(v) => v,
        Err(_) => {
            return Err(StreamError::UnexpectedEof);
        },
    };
    proof {
        crate::util::bytes::lemma_sub_be(d, at, at + HEADER_SIZE, 2);
    }
    let size: u32 = read_be32(head.as_slice(), 2);
    if (size as usize) < HEADER_SIZE || size > MAX_TRANSFER {
        return Err(StreamError::BadCommandSize(size));
    }
    let mut rest: Vec<u8> = match r.take(size as usize - HEADER_SIZE) {
        Ok(v) => v,
        Err(_) => {
            return Err(StreamError::UnexpectedEof);
        },
    };
    head.append(&mut rest);
    assert(head@ =~= d.subrange(at, at + size));
    Ok(Some(head))
}

/// The commands a data stream carries from `at` on.
pub open spec fn data_from(d: Seq<u8>, at: int) -> Seq<Seq<u8>>
    decreases d.len() - at,
{
    match data_at(d, at) {
        Ok(Some(c)) if 0 <= at && c.len() > 0 => seq![c] + data_from(d, at + c.len()),
        _ => Seq::empty(),
    }
}

/// How a data stream that goes on at `at` ends.
pub open spec fn data_ended(d: Seq<u8>, at: int) -> Result<(), StreamError>
    decreases d.len() - at,
{
    match data_at(d, at) {
        Ok(Some(c)) if 0 <= at && c.len() > 0 => data_ended(d, at + c.len()),
        Err(e) => Err(e),
        _ => Ok(()),
    }
}

/// True when the caller will refuse a response of `length` octets because it
/// agreed a smaller buffer.
pub fn above_agreed(link: &Link, length: usize) -> (r: bool)
    ensures
        r == (length > link.chosen_size()),
{
    length > link.buffer_size() as usize
}

/// Handle a data connection over everything it sent, with the locality the
/// link has. The second part is the response to each command, in order.
pub fn serve_data<D: Device>(input: &[u8], device: &mut D, link: &Link) -> (out: (
    Result<(), StreamError>,
    Vec<Vec<u8>>,
))
    ensures
        out.0 == data_ended(input@, 0),
        out.1@.len() == data_from(input@, 0).len(),
        final(device).calls() == old(device).calls() + commands_run(
            link.chosen_locality(),
            data_from(input@, 0),
            out.1@,
        ),
{
    let mut r: Reader = Reader::new(input);
    let mut responses: Vec<Vec<u8>> = Vec::new();
    let ghost start = device.calls();
    let ghost locality = link.chosen_locality();
    let ghost mut done: Seq<Seq<u8>> = Seq::empty();
    proof {
        assert(done + data_from(input@, 0) =~= data_from(input@, 0));
        assert(start + commands_run(locality, done, responses@) =~= start);
    }
    loop
        invariant
            r.data() == input@,
            0 <= r.at() <= input@.len(),
            start == old(device).calls(),
            locality == link.chosen_locality(),
            data_from(input@, 0) == done + data_from(input@, r.at()),
            done.len() == responses@.len(),
            device.calls() == start + commands_run(locality, done, responses@),
            data_ended(input@, 0) == data_ended(input@, r.at()),
        decreases input@.len() - r.at(),
    {
        match read_data(&mut r) {
            Ok(Some(command)) => {
                let response: Vec<u8> = device.execute(link.locality(), command.as_slice());
                responses.push(response);
                proof {
                    let more = done.push(command@);
                    assert(data_from(input@, 0) =~= more + data_from(input@, r.at()));
                    assert(device.calls() =~= start + commands_run(locality, more, responses@));
                    done = more;
                }
            },
            Ok(None) => {
                assert(data_from(input@, 0) =~= done);
                return (Ok(()), responses);
            },
            Err(e) => {
                assert(data_from(input@, 0) =~= done);
                return (Err(e), responses);
            },
        }
    }
}

} // verus!
