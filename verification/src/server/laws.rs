//! What the protocols mean: the numbers of the requests and the octets of the replies.

use vstd::prelude::*;

use super::device::Signal;
use super::pipe::command_at;
use super::qemu::{control_at, control_octets, control_reply, control_signals, data_at, Control};
use super::simulator::{blob, blob_at};
use super::socket::{end_of, reply_octets, reply_of, request_at, signals_of, Ended, Request};
use crate::util::bytes::{be32, octets32};

verus! {

/// Octets behind their number, in four octets.
pub proof fn law_a_blob_is_behind_its_size(d: Seq<u8>, at: int, b: Seq<u8>, next: int)
    ensures
        blob(b) == octets32(b.len() as u32) + b,
        0 <= at && blob_at(d, at) == Ok::<(Seq<u8>, int), super::simulator::StreamError>((b, next))
            ==> next == at + 4 + be32(d, at) && next <= d.len() && b == d.subrange(at + 4, next),
{
}

/// The requests of the simulator protocol by their numbers. A command comes with its
/// locality and is as long as its size says.
pub proof fn law_simulator_requests(d: Seq<u8>, at: int, q: Request<Seq<u8>>, next: int)
    requires
        0 <= at,
        at + 4 <= d.len(),
        request_at(d, at) == Ok::<
            Option<(Request<Seq<u8>>, int)>,
            super::simulator::StreamError,
        >(Some((q, next))),
    ensures
        ({
            let n = be32(d, at);
            &&& n == 1 ==> q is PowerOn && next == at + 4
            &&& n == 2 ==> q is PowerOff && next == at + 4
            &&& n == 3 ==> q == Request::<Seq<u8>>::PhysicalPresence(true)
            &&& n == 4 ==> q == Request::<Seq<u8>>::PhysicalPresence(false)
            &&& n == 5 ==> q is HashStart
            &&& n == 6 ==> q == Request::HashData(d.subrange(at + 8, next)) && next == at + 8
                + be32(d, at + 4)
            &&& n == 7 ==> q is HashEnd
            &&& n == 8 ==> q == Request::SendCommand(d[at + 4], d.subrange(at + 9, next)) && next
                == at + 9 + be32(d, at + 5)
            &&& n == 9 ==> q == Request::<Seq<u8>>::Cancel(true)
            &&& n == 10 ==> q == Request::<Seq<u8>>::Cancel(false)
            &&& n == 11 ==> q is NvOn
            &&& n == 12 ==> q is NvOff
            &&& n == 15 ==> q == Request::<Seq<u8>>::RemoteHandshake(be32(d, at + 4)) && next == at
                + 8
            &&& n == 17 || n == 18 ==> q is Reset
            &&& n == 20 ==> q is SessionEnd
            &&& n == 21 ==> q is Stop
            &&& n == 26 ==> q == Request::<Seq<u8>>::ActGetSignaled(be32(d, at + 4))
        }),
{
}

/// What a request does to the device: a command is run as it came, at its locality, and
/// a reset is a loss of power and its return.
pub proof fn law_simulator_signals(q: Request<Seq<u8>>)
    ensures
        q matches Request::SendCommand(l, c) ==> signals_of(q) == seq![Signal::Execute(l, c)],
        q is PowerOn ==> signals_of(q) == seq![Signal::<Seq<u8>>::PowerOn],
        q is PowerOff ==> signals_of(q) == seq![Signal::<Seq<u8>>::PowerOff],
        q is Reset ==> signals_of(q) == seq![
            Signal::<Seq<u8>>::PowerOff,
            Signal::<Seq<u8>>::PowerOn,
        ],
        q is NvOn ==> signals_of(q) == seq![Signal::<Seq<u8>>::NvOn],
        q is NvOff ==> signals_of(q) == seq![Signal::<Seq<u8>>::NvOff],
        q matches Request::PhysicalPresence(b) ==> signals_of(q) == seq![
            Signal::<Seq<u8>>::PhysicalPresence(b),
        ],
        q matches Request::Cancel(b) ==> signals_of(q) == seq![Signal::<Seq<u8>>::Cancel(b)],
        q is HashStart ==> signals_of(q) == seq![Signal::<Seq<u8>>::HashStart],
        q matches Request::HashData(b) ==> signals_of(q) == seq![Signal::HashData(b)],
        q is HashEnd ==> signals_of(q) == seq![Signal::<Seq<u8>>::HashEnd],
        q is SessionEnd || q is Stop || q is RemoteHandshake ==> signals_of(q).len() == 0,
        q is SessionEnd ==> end_of(q) == Some(Ended::Session),
        q is Stop ==> end_of(q) == Some(Ended::Stop),
        !(q is SessionEnd) && !(q is Stop) ==> end_of(q) is None,
{
}

/// What is written back: the response behind its size and a zero, the version and what
/// the endpoint can do, a flag, or the zero alone. The end of a session is not answered.
pub proof fn law_simulator_replies(q: Request<Seq<u8>>, response: Seq<u8>, flag: bool)
    ensures
        ({
            let out = reply_octets(reply_of(q), response, flag);
            &&& q is SendCommand ==> out == octets32(response.len() as u32) + response + octets32(0)
            &&& q is RemoteHandshake ==> out == octets32(1) + octets32(9) + octets32(0)
            &&& q is ActGetSignaled ==> out == octets32(
                if flag {
                    1
                } else {
                    0
                },
            ) + octets32(0)
            &&& q is SessionEnd ==> out.len() == 0
            &&& q is PowerOn || q is PowerOff || q is Reset || q is NvOn || q is NvOff || q is HashEnd
                || q is Stop ==> out == octets32(0)
        }),
{
    lemma_endpoint();
}

proof fn lemma_endpoint()
    by (bit_vector)
    ensures
        1u32 | 8 == 9,
{
}

/// A bare command is as long as the number behind its tag says.
pub proof fn law_a_bare_command_says_its_size(d: Seq<u8>, at: int, c: Seq<u8>)
    requires
        0 <= at < d.len(),
    ensures
        command_at(d, at) == Ok::<Option<Seq<u8>>, super::simulator::StreamError>(Some(c))
            ==> c.len() == be32(d, at + 2) && 10 <= c.len() && c == d.subrange(at, at + c.len()),
        data_at(d, at) == Ok::<Option<Seq<u8>>, super::simulator::StreamError>(Some(c)) ==> c.len()
            == be32(d, at + 2) && 10 <= c.len() && c == d.subrange(at, at + c.len()),
{
}

/// The requests of the control channel by their numbers.
pub proof fn law_control_requests(d: Seq<u8>, at: int, c: Control<Seq<u8>>, next: int)
    requires
        0 <= at,
        at + 4 <= d.len(),
        control_at(d, at) == Ok::<
            Option<(Control<Seq<u8>>, int)>,
            super::simulator::StreamError,
        >(Some((c, next))),
    ensures
        ({
            let n = be32(d, at);
            &&& n == 1 ==> c is GetCapability && next == at + 4
            &&& n == 2 ==> c == Control::<Seq<u8>>::Init(be32(d, at + 4)) && next == at + 8
            &&& n == 3 ==> c is Shutdown
            &&& n == 4 ==> c is GetEstablished
            &&& n == 5 ==> (c matches Control::SetLocality(l) && next == at + 8)
            &&& n == 6 ==> c is HashStart
            &&& n == 7 ==> c == Control::HashData(d.subrange(at + 8, next)) && next == at + 8
                + be32(d, at + 4)
            &&& n == 8 ==> c is HashEnd
            &&& n == 11 ==> c is ResetEstablished
            &&& n == 14 ==> c is Stop
            &&& n == 17 ==> c == Control::<Seq<u8>>::SetBufferSize(be32(d, at + 4))
        }),
{
}

/// What the control channel does to the device, and what it answers.
pub proof fn law_control_answers(c: Control<Seq<u8>>, size: u32, flag: bool)
    ensures
        c is Init ==> control_signals(c) == seq![
            Signal::<Seq<u8>>::PowerOn,
            Signal::<Seq<u8>>::NvOn,
        ],
        c is Stop || c is Shutdown ==> control_signals(c) == seq![Signal::<Seq<u8>>::PowerOff],
        c is GetEstablished ==> control_signals(c) == seq![Signal::<Seq<u8>>::Established]
            && control_octets(control_reply(c, size), flag) == octets32(0) + seq![
            if flag {
                1u8
            } else {
                0u8
            },
            0u8,
            0u8,
            0u8,
        ],
        c is HashStart ==> control_signals(c) == seq![Signal::<Seq<u8>>::HashStart],
        c matches Control::HashData(b) ==> control_signals(c) == seq![Signal::HashData(b)],
        c is HashEnd ==> control_signals(c) == seq![Signal::<Seq<u8>>::HashEnd],
        c matches Control::SetLocality(l) ==> control_octets(control_reply(c, size), flag)
            == octets32(
            if l > 4 {
                0x907
            } else {
                0
            },
        ),
        c matches Control::SetBufferSize(w) ==> control_octets(control_reply(c, size), flag)
            == octets32(0) + octets32(
            if w == 0 {
                size
            } else if w < 1024 {
                1024
            } else if w > 4096 {
                4096
            } else {
                w
            },
        ) + octets32(1024) + octets32(4096),
        c is Init || c is Stop || c is Shutdown || c is HashEnd ==> control_octets(
            control_reply(c, size),
            flag,
        ) == octets32(0),
{
}

} // verus!
