//! The simulator protocol as a transport.
//!
//! The command port carries TPM command buffers and the platform port, always
//! the command port plus one, carries the platform signals. Both ports accept
//! the same opcode set, so one loop serves either.

use vstd::prelude::*;

use super::device::{
    all_calls, flag_in, made, perform_all, response_in, signal_view, signal_views, signals_in, Call,
    Device, Signal, Told,
};
use super::simulator::{
    blob, blob_at, read_blob, read_u32, read_u32_opt, read_u8, write_ack, write_blob, write_u32,
    StreamError, ACK_OK, ACT_GET_SIGNALED, ENDPOINT_INFO, GET_COMMAND_RESPONSE_SIZES,
    REMOTE_HANDSHAKE, SEND_COMMAND, SERVER_VERSION, SESSION_END, SET_ALTERNATIVE_RESULT,
    SIGNAL_CANCEL_OFF, SIGNAL_CANCEL_ON, SIGNAL_HASH_DATA, SIGNAL_HASH_END, SIGNAL_HASH_START,
    SIGNAL_KEY_CACHE_OFF, SIGNAL_KEY_CACHE_ON, SIGNAL_NV_OFF, SIGNAL_NV_ON, SIGNAL_PHYS_PRES_OFF,
    SIGNAL_PHYS_PRES_ON, SIGNAL_POWER_OFF, SIGNAL_POWER_ON, SIGNAL_RESET, SIGNAL_RESTART, STOP,
    TEST_FAILURE_MODE,
};
use crate::tpm::marshal::Reader;
use crate::util::bytes::{be32, octets32};

verus! {

/// Largest number of connections served at once, across both ports.
///
/// A client that connects and then stalls holds a thread and its buffers, so
/// the count is capped and further connections are closed immediately.
pub const MAX_CONNECTIONS: usize = 64;

/// True when one more connection may be served beside `active` others.
pub fn admits(active: usize) -> (r: bool)
    ensures
        r == (active < MAX_CONNECTIONS),
{
    active < MAX_CONNECTIONS
}

/// One request of the simulator protocol. `B` holds octets.
pub enum Request<B> {
    SendCommand(u8, B),
    RemoteHandshake(u32),
    PowerOn,
    PowerOff,
    /// A reset or a restart: power is removed and applied again.
    Reset,
    NvOn,
    NvOff,
    PhysicalPresence(bool),
    Cancel(bool),
    HashStart,
    HashData(B),
    HashEnd,
    ActGetSignaled(u32),
    /// Accepted and ignored: key caching and the failure mode switch.
    Ignored,
    /// Accepted and ignored with the word it carries.
    AlternativeResult(u32),
    CommandResponseSizes,
    SessionEnd,
    Stop,
}

/// The same request over the octets themselves.
pub open spec fn request_view(r: Request<Vec<u8>>) -> Request<Seq<u8>> {
    match r {
        Request::SendCommand(l, c) => Request::SendCommand(l, c@),
        Request::RemoteHandshake(v) => Request::RemoteHandshake(v),
        Request::PowerOn => Request::PowerOn,
        Request::PowerOff => Request::PowerOff,
        Request::Reset => Request::Reset,
        Request::NvOn => Request::NvOn,
        Request::NvOff => Request::NvOff,
        Request::PhysicalPresence(b) => Request::PhysicalPresence(b),
        Request::Cancel(b) => Request::Cancel(b),
        Request::HashStart => Request::HashStart,
        Request::HashData(b) => Request::HashData(b@),
        Request::HashEnd => Request::HashEnd,
        Request::ActGetSignaled(a) => Request::ActGetSignaled(a),
        Request::Ignored => Request::Ignored,
        Request::AlternativeResult(v) => Request::AlternativeResult(v),
        Request::CommandResponseSizes => Request::CommandResponseSizes,
        Request::SessionEnd => Request::SessionEnd,
        Request::Stop => Request::Stop,
    }
}

/// What an opcode with no fields asks for.
pub open spec fn bare_request(opcode: u32) -> Option<Request<Seq<u8>>> {
    if opcode == SIGNAL_POWER_ON {
        Some(Request::PowerOn)
    } else if opcode == SIGNAL_POWER_OFF {
        Some(Request::PowerOff)
    } else if opcode == SIGNAL_RESET || opcode == SIGNAL_RESTART {
        Some(Request::Reset)
    } else if opcode == SIGNAL_NV_ON {
        Some(Request::NvOn)
    } else if opcode == SIGNAL_NV_OFF {
        Some(Request::NvOff)
    } else if opcode == SIGNAL_PHYS_PRES_ON {
        Some(Request::PhysicalPresence(true))
    } else if opcode == SIGNAL_PHYS_PRES_OFF {
        Some(Request::PhysicalPresence(false))
    } else if opcode == SIGNAL_CANCEL_ON {
        Some(Request::Cancel(true))
    } else if opcode == SIGNAL_CANCEL_OFF {
        Some(Request::Cancel(false))
    } else if opcode == SIGNAL_HASH_START {
        Some(Request::HashStart)
    } else if opcode == SIGNAL_HASH_END {
        Some(Request::HashEnd)
    } else if opcode == SIGNAL_KEY_CACHE_ON || opcode == SIGNAL_KEY_CACHE_OFF || opcode
        == TEST_FAILURE_MODE {
        Some(Request::Ignored)
    } else if opcode == GET_COMMAND_RESPONSE_SIZES {
        Some(Request::CommandResponseSizes)
    } else if opcode == SESSION_END {
        Some(Request::SessionEnd)
    } else if opcode == STOP {
        Some(Request::Stop)
    } else {
        None
    }
}

/// The request that starts at `at`, and `None` at a clean end of stream.
pub open spec fn request_at(d: Seq<u8>, at: int) -> Result<
    Option<(Request<Seq<u8>>, int)>,
    StreamError,
> {
    if at >= d.len() {
        Ok(None)
    } else if at + 4 > d.len() {
        Err(StreamError::UnexpectedEof)
    } else {
        let opcode = be32(d, at);
        if opcode == SEND_COMMAND {
            if at + 5 > d.len() {
                Err(StreamError::UnexpectedEof)
            } else {
                match blob_at(d, at + 5) {
                    Ok((c, next)) => Ok(Some((Request::SendCommand(d[at + 4], c), next))),
                    Err(e) => Err(e),
                }
            }
        } else if opcode == SIGNAL_HASH_DATA {
            match blob_at(d, at + 4) {
                Ok((b, next)) => Ok(Some((Request::HashData(b), next))),
                Err(e) => Err(e),
            }
        } else if opcode == REMOTE_HANDSHAKE || opcode == ACT_GET_SIGNALED || opcode
            == SET_ALTERNATIVE_RESULT {
            if at + 8 > d.len() {
                Err(StreamError::UnexpectedEof)
            } else {
                let word = be32(d, at + 4);
                let request = if opcode == REMOTE_HANDSHAKE {
                    Request::RemoteHandshake(word)
                } else if opcode == ACT_GET_SIGNALED {
                    Request::ActGetSignaled(word)
                } else {
                    Request::AlternativeResult(word)
                };
                Ok(Some((request, at + 8)))
            }
        } else {
            match bare_request(opcode) {
                Some(request) => Ok(Some((request, at + 4))),
                None => Err(StreamError::UnknownRequest(opcode)),
            }
        }
    }
}

/// Read one request.
pub fn read_request(r: &mut Reader) -> (out: Result<Option<Request<Vec<u8>>>, StreamError>)
    ensures
        final(r).data() == old(r).data(),
        0 <= old(r).at() <= final(r).at() <= final(r).data().len(),
        match request_at(old(r).data(), old(r).at()) {
            Ok(None) => out == Ok::<Option<Request<Vec<u8>>>, StreamError>(None),
            Ok(Some((q, next))) => out is Ok && out->Ok_0 is Some && request_view(out->Ok_0->Some_0)
                == q && final(r).at() == next && next > old(r).at(),
            Err(e) => out is Err && out->Err_0 == e,
        },
{
    let opcode: u32 = match read_u32_opt(r)? {
        Some(v) => v,
        None => {
            return Ok(None);
        },
    };
    let request: Request<Vec<u8>> = if opcode == SEND_COMMAND {
        let locality: u8 = read_u8(r)?;
        let command: Vec<u8> = read_blob(r)?;
        Request::SendCommand(locality, command)
    } else if opcode == SIGNAL_HASH_DATA {
        Request::HashData(read_blob(r)?)
    } else if opcode == REMOTE_HANDSHAKE {
        Request::RemoteHandshake(read_u32(r)?)
    } else if opcode == ACT_GET_SIGNALED {
        Request::ActGetSignaled(read_u32(r)?)
    } else if opcode == SET_ALTERNATIVE_RESULT {
        Request::AlternativeResult(read_u32(r)?)
    } else if opcode == SIGNAL_POWER_ON {
        Request::PowerOn
    } else if opcode == SIGNAL_POWER_OFF {
        Request::PowerOff
    } else if opcode == SIGNAL_RESET || opcode == SIGNAL_RESTART {
        Request::Reset
    } else if opcode == SIGNAL_NV_ON {
        Request::NvOn
    } else if opcode == SIGNAL_NV_OFF {
        Request::NvOff
    } else if opcode == SIGNAL_PHYS_PRES_ON {
        Request::PhysicalPresence(true)
    } else if opcode == SIGNAL_PHYS_PRES_OFF {
        Request::PhysicalPresence(false)
    } else if opcode == SIGNAL_CANCEL_ON {
        Request::Cancel(true)
    } else if opcode == SIGNAL_CANCEL_OFF {
        Request::Cancel(false)
    } else if opcode == SIGNAL_HASH_START {
        Request::HashStart
    } else if opcode == SIGNAL_HASH_END {
        Request::HashEnd
    } else if opcode == SIGNAL_KEY_CACHE_ON || opcode == SIGNAL_KEY_CACHE_OFF || opcode
        == TEST_FAILURE_MODE {
        Request::Ignored
    } else if opcode == GET_COMMAND_RESPONSE_SIZES {
        Request::CommandResponseSizes
    } else if opcode == SESSION_END {
        Request::SessionEnd
    } else if opcode == STOP {
        Request::Stop
    } else {
        return Err(StreamError::UnknownRequest(opcode));
    };
    Ok(Some(request))
}

/// The calls a request makes on the device, in order.
pub open spec fn signals_of(q: Request<Seq<u8>>) -> Seq<Signal<Seq<u8>>> {
    match q {
        Request::SendCommand(l, c) => seq![Signal::Execute(l, c)],
        Request::PowerOn => seq![Signal::PowerOn],
        Request::PowerOff => seq![Signal::PowerOff],
        Request::Reset => seq![Signal::PowerOff, Signal::PowerOn],
        Request::NvOn => seq![Signal::NvOn],
        Request::NvOff => seq![Signal::NvOff],
        Request::PhysicalPresence(b) => seq![Signal::PhysicalPresence(b)],
        Request::Cancel(b) => seq![Signal::Cancel(b)],
        Request::HashStart => seq![Signal::HashStart],
        Request::HashData(b) => seq![Signal::HashData(b)],
        Request::HashEnd => seq![Signal::HashEnd],
        Request::ActGetSignaled(a) => seq![Signal::ActGetSignaled(a)],
        _ => Seq::empty(),
    }
}

/// The calls a request makes on the device, in order.
pub fn signals(q: Request<Vec<u8>>) -> (out: Vec<Signal<Vec<u8>>>)
    ensures
        out@.len() == signals_of(request_view(q)).len(),
        forall|i: int|
            0 <= i < out@.len() ==> signal_view(#[trigger] out@[i]) == signals_of(
                request_view(q),
            )[i],
{
    let mut out: Vec<Signal<Vec<u8>>> = Vec::new();
    match q {
        Request::SendCommand(locality, command) => out.push(Signal::Execute(locality, command)),
        Request::PowerOn => out.push(Signal::PowerOn),
        Request::PowerOff => out.push(Signal::PowerOff),
        Request::Reset => {
            out.push(Signal::PowerOff);
            out.push(Signal::PowerOn);
        },
        Request::NvOn => out.push(Signal::NvOn),
        Request::NvOff => out.push(Signal::NvOff),
        Request::PhysicalPresence(asserted) => out.push(Signal::PhysicalPresence(asserted)),
        Request::Cancel(asserted) => out.push(Signal::Cancel(asserted)),
        Request::HashStart => out.push(Signal::HashStart),
        Request::HashData(data) => out.push(Signal::HashData(data)),
        Request::HashEnd => out.push(Signal::HashEnd),
        Request::ActGetSignaled(act) => out.push(Signal::ActGetSignaled(act)),
        _ => {},
    }
    out
}

/// What a request gives the client back.
#[derive(Debug, Clone, Copy, PartialEq, Eq, Structural)]
pub enum Reply {
    /// The response buffer and the acknowledgement.
    Response,
    /// The protocol version, the endpoint flags and the acknowledgement.
    Handshake,
    /// The answer of a timer question and the acknowledgement.
    Flag,
    /// Two zero sizes and the acknowledgement.
    Sizes,
    /// The acknowledgement alone.
    Ack,
    /// The acknowledgement, after which the connection and the TPM stop.
    AckAndStop,
    /// Nothing, after which the connection ends.
    End,
}

/// What a request gives the client back.
pub open spec fn reply_of(q: Request<Seq<u8>>) -> Reply {
    match q {
        Request::SendCommand(_, _) => Reply::Response,
        Request::RemoteHandshake(_) => Reply::Handshake,
        Request::ActGetSignaled(_) => Reply::Flag,
        Request::CommandResponseSizes => Reply::Sizes,
        Request::SessionEnd => Reply::End,
        Request::Stop => Reply::AckAndStop,
        _ => Reply::Ack,
    }
}

/// What a request gives the client back.
pub fn reply(q: &Request<Vec<u8>>) -> (r: Reply)
    ensures
        r == reply_of(request_view(*q)),
{
    match q {
        Request::SendCommand(_, _) => Reply::Response,
        Request::RemoteHandshake(_) => Reply::Handshake,
        Request::ActGetSignaled(_) => Reply::Flag,
        Request::CommandResponseSizes => Reply::Sizes,
        Request::SessionEnd => Reply::End,
        Request::Stop => Reply::AckAndStop,
        _ => Reply::Ack,
    }
}

/// The octets of a reply, given what the device told.
pub open spec fn reply_octets(r: Reply, response: Seq<u8>, flag: bool) -> Seq<u8> {
    match r {
        Reply::Response => blob(response) + octets32(ACK_OK),
        Reply::Handshake => octets32(SERVER_VERSION) + octets32(ENDPOINT_INFO) + octets32(ACK_OK),
        Reply::Flag => octets32(
            if flag {
                1
            } else {
                0
            },
        ) + octets32(ACK_OK),
        Reply::Sizes => octets32(0) + octets32(0) + octets32(ACK_OK),
        Reply::Ack | Reply::AckAndStop => octets32(ACK_OK),
        Reply::End => Seq::empty(),
    }
}

/// Write a reply, given what the device told.
pub fn write_reply(out: &mut Vec<u8>, r: Reply, told: &Told)
    ensures
        final(out)@ == old(out)@ + reply_octets(r, told.response@, told.flag),
{
    match r {
        Reply::Response => {
            write_blob(out, told.response.as_slice());
            write_ack(out);
        },
        Reply::Handshake => {
            write_u32(out, SERVER_VERSION);
            write_u32(out, ENDPOINT_INFO);
            write_ack(out);
        },
        Reply::Flag => {
            write_u32(
                out,
                if told.flag {
                    1
                } else {
                    0
                },
            );
            write_ack(out);
        },
        Reply::Sizes => {
            write_u32(out, 0);
            write_u32(out, 0);
            write_ack(out);
        },
        Reply::Ack | Reply::AckAndStop => write_ack(out),
        Reply::End => {},
    }
    assert(out@ =~= old(out)@ + reply_octets(r, told.response@, told.flag));
}

/// How a connection ended.
#[derive(Debug, Clone, Copy, PartialEq, Eq, Structural)]
pub enum Ended {
    /// The client closed the connection between two requests.
    Closed,
    /// The client ended its session.
    Session,
    /// The client asked the TPM to stop.
    Stop,
    /// The octets could not be read on.
    Failed(StreamError),
}

/// The requests a stream is served from `at` on. A session end and a stop are
/// the last request that is served.
pub open spec fn requests_from(d: Seq<u8>, at: int) -> Seq<Request<Seq<u8>>>
    decreases d.len() - at,
{
    match request_at(d, at) {
        Ok(Some((q, next))) if 0 <= at < next => {
            if end_of(q) is Some {
                seq![q]
            } else {
                seq![q] + requests_from(d, next)
            }
        },
        _ => Seq::empty(),
    }
}

/// How a stream that goes on at `at` ends.
pub open spec fn ended_from(d: Seq<u8>, at: int) -> Ended
    decreases d.len() - at,
{
    match request_at(d, at) {
        Ok(Some((q, next))) if 0 <= at < next => match end_of(q) {
            Some(end) => end,
            None => ended_from(d, next),
        },
        Err(e) => Ended::Failed(e),
        _ => Ended::Closed,
    }
}

/// True when `groups` holds, request by request, the calls that the requests
/// make.
pub open spec fn made_for(requests: Seq<Request<Seq<u8>>>, groups: Seq<Seq<Call>>) -> bool {
    &&& groups.len() == requests.len()
    &&& forall|k: int|
        0 <= k < requests.len() ==> signals_in(#[trigger] groups[k]) == signals_of(requests[k])
}

/// The octets requests are answered with, when the device answered their calls
/// as `groups` says.
pub open spec fn conversation(requests: Seq<Request<Seq<u8>>>, groups: Seq<Seq<Call>>) -> Seq<u8>
    decreases requests.len(),
{
    if requests.len() == 0 {
        Seq::empty()
    } else {
        let last = groups[requests.len() - 1];
        conversation(requests.drop_last(), groups) + reply_octets(
            reply_of(requests.last()),
            response_in(last),
            flag_in(last),
        )
    }
}

/// The end of a connection that a request brings, and `None` where the
/// connection goes on.
pub open spec fn end_of(q: Request<Seq<u8>>) -> Option<Ended> {
    match q {
        Request::SessionEnd => Some(Ended::Session),
        Request::Stop => Some(Ended::Stop),
        _ => None,
    }
}

/// Serve one request: make its calls, write the reply to `out`, and say whether
/// the connection ends with it.
pub fn answer<D: Device>(device: &mut D, request: Request<Vec<u8>>, out: &mut Vec<u8>) -> (ended:
    Option<Ended>)
    ensures
        ({
            let q = request_view(request);
            let new = made(final(device).calls(), old(device).calls());
            &&& final(device).calls() == old(device).calls() + new
            &&& signals_in(new) == signals_of(q)
            &&& final(out)@ == old(out)@ + reply_octets(
                reply_of(q),
                response_in(new),
                flag_in(new),
            )
            &&& ended == end_of(q)
        }),
{
    let kind: Reply = reply(&request);
    let ghost q = request_view(request);
    let calls: Vec<Signal<Vec<u8>>> = signals(request);
    let told: Told = perform_all(device, &calls);
    write_reply(out, kind, &told);
    assert(signal_views(calls@) =~= signals_of(q));
    match kind {
        Reply::End => Some(Ended::Session),
        Reply::AckAndStop => Some(Ended::Stop),
        _ => None,
    }
}

/// Handle one connection over everything it sent.
///
/// The device is called request by request: with the calls of each request, in
/// order, and with no others. What comes back is how the connection ended and
/// every octet it was answered with, made of what the device answered.
pub fn serve_connection<D: Device>(input: &[u8], device: &mut D) -> (out: (Ended, Vec<u8>))
    ensures
        out.0 == ended_from(input@, 0),
        exists|groups: Seq<Seq<Call>>|
            #![trigger all_calls(groups)]
            {
                &&& made_for(requests_from(input@, 0), groups)
                &&& final(device).calls() == old(device).calls() + all_calls(groups)
                &&& out.1@ == conversation(requests_from(input@, 0), groups)
            },
{
    let mut r: Reader = Reader::new(input);
    let mut output: Vec<u8> = Vec::new();
    let ghost start = device.calls();
    let ghost all = requests_from(input@, 0);
    let ghost mut groups: Seq<Seq<Call>> = Seq::empty();
    let ghost mut served: Seq<Request<Seq<u8>>> = Seq::empty();
    proof {
        assert(served + all =~= all);
        assert(start + all_calls(groups) =~= start);
    }
    loop
        invariant
            r.data() == input@,
            0 <= r.at() <= input@.len(),
            start == old(device).calls(),
            all == requests_from(input@, 0),
            made_for(served, groups),
            device.calls() == start + all_calls(groups),
            all == served + requests_from(input@, r.at()),
            ended_from(input@, 0) == ended_from(input@, r.at()),
            output@ == conversation(served, groups),
        decreases input@.len() - r.at(),
    {
        match read_request(&mut r) {
            Ok(Some(request)) => {
                let ghost q = request_view(request);
                let ghost before = device.calls();
                let ended: Option<Ended> = answer(device, request, &mut output);
                proof {
                    let new = made(device.calls(), before);
                    let more = groups.push(new);
                    let grown = served.push(q);
                    assert(more.drop_last() =~= groups);
                    assert(grown.drop_last() =~= served);
                    assert(device.calls() =~= start + all_calls(more));
                    lemma_conversation_prefix(served, groups, more);
                    if ended is Some {
                        assert(all =~= grown);
                    } else {
                        assert(all =~= grown + requests_from(input@, r.at()));
                    }
                    groups = more;
                    served = grown;
                }
                if let Some(end) = ended {
                    return (end, output);
                }
            },
            Ok(None) => {
                assert(all =~= served);
                return (Ended::Closed, output);
            },
            Err(e) => {
                assert(all =~= served);
                return (Ended::Failed(e), output);
            },
        }
    }
}

proof fn lemma_conversation_prefix(
    requests: Seq<Request<Seq<u8>>>,
    a: Seq<Seq<Call>>,
    b: Seq<Seq<Call>>,
)
    requires
        a.len() >= requests.len(),
        b.len() >= requests.len(),
        forall|i: int| 0 <= i < requests.len() ==> a[i] == b[i],
    ensures
        conversation(requests, a) == conversation(requests, b),
    decreases requests.len(),
{
    if requests.len() > 0 {
        lemma_conversation_prefix(requests.drop_last(), a, b);
    }
}

/// One command sent to the command port is one call of the device, with its
/// locality and its octets, and the answer is the response of that call and
/// the acknowledgement.
pub proof fn law_a_command_is_one_call(
    requests: Seq<Request<Seq<u8>>>,
    groups: Seq<Seq<Call>>,
    locality: u8,
    command: Seq<u8>,
)
    requires
        requests == seq![Request::SendCommand(locality, command)],
        made_for(requests, groups),
    ensures
        all_calls(groups).len() == 1,
        all_calls(groups)[0].signal == Signal::<Seq<u8>>::Execute(locality, command),
        conversation(requests, groups) == blob(all_calls(groups)[0].response) + octets32(ACK_OK),
{
    let only = groups[0];
    reveal_with_fuel(all_calls, 2);
    reveal_with_fuel(conversation, 2);
    assert(signals_in(only) == signals_of(requests[0]));
    assert(signals_in(only).len() == only.len());
    assert(signals_in(only)[0] == only[0].signal);
    assert(all_calls(groups) =~= only);
    assert(conversation(requests, groups) =~= blob(only[0].response) + octets32(ACK_OK));
}

} // verus!
