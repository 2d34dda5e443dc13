//! Bare command and response buffers on one stream.
//!
//! A command is framed by its own header: octets 2 through 5 hold
//! `commandSize`, which covers the whole command including the header. The
//! response goes back the same way, framed by the `responseSize` field.

use vstd::prelude::*;

use super::device::{Call, Device, Signal};
use super::simulator::StreamError;
use crate::tpm::marshal::Reader;
use crate::util::bytes::{be32, read_be32};

verus! {

/// Smallest well formed command: tag, commandSize and commandCode.
pub const HEADER_SIZE: usize = 10;

/// Octets needed before `commandSize` can be read.
pub const SIZE_FIELD_END: usize = 6;

/// Largest command accepted from a client.
///
/// The TPM itself rejects anything above its own limit. This larger bound is
/// what the transport is willing to read into memory before handing the buffer
/// over, so a bad length cannot cause a large allocation.
pub const MAX_COMMAND: u32 = 65536;

/// Largest number of pipe clients served at once.
pub const MAX_CONNECTIONS: usize = 64;

/// True for a `commandSize` a command may have.
pub open spec fn usable_size(size: u32) -> bool {
    HEADER_SIZE <= size <= MAX_COMMAND
}

/// Read the `commandSize` field out of a partial header.
pub fn command_size(prefix: &[u8]) -> (r: Result<u32, StreamError>)
    ensures
        prefix@.len() < SIZE_FIELD_END ==> r == Err::<u32, StreamError>(StreamError::UnexpectedEof),
        prefix@.len() >= SIZE_FIELD_END && !usable_size(be32(prefix@, 2)) ==> r == Err::<
            u32,
            StreamError,
        >(StreamError::BadCommandSize(be32(prefix@, 2))),
        prefix@.len() >= SIZE_FIELD_END && usable_size(be32(prefix@, 2)) ==> r == Ok::<
            u32,
            StreamError,
        >(be32(prefix@, 2)),
{
    if prefix.len() < SIZE_FIELD_END {
        return Err(StreamError::UnexpectedEof);
    }
    let size: u32 = read_be32(prefix, 2);
    if (size as usize) < HEADER_SIZE || size > MAX_COMMAND {
        return Err(StreamError::BadCommandSize(size));
    }
    Ok(size)
}

/// The command that starts at `at`, and `None` where the stream ends before
/// anything is sent.
pub open spec fn command_at(d: Seq<u8>, at: int) -> Result<Option<Seq<u8>>, StreamError> {
    if at >= d.len() {
        Ok(None)
    } else if at + SIZE_FIELD_END > d.len() {
        Err(StreamError::UnexpectedEof)
    } else if !usable_size(be32(d, at + 2)) {
        Err(StreamError::BadCommandSize(be32(d, at + 2)))
    } else if at + be32(d, at + 2) > d.len() {
        Err(StreamError::UnexpectedEof)
    } else {
        Ok(Some(d.subrange(at, at + be32(d, at + 2))))
    }
}

/// Read one complete command buffer.
///
/// Returns `None` when the peer closed the connection before sending anything.
pub fn read_command(r: &mut Reader) -> (out: Result<Option<Vec<u8>>, StreamError>)
    ensures
        final(r).data() == old(r).data(),
        0 <= old(r).at() <= final(r).at() <= final(r).data().len(),
        match command_at(old(r).data(), old(r).at()) {
            Ok(None) => out == Ok::<Option<Vec<u8>>, StreamError>(None),
            Ok(Some(c)) => out is Ok && out->Ok_0 is Some && out->Ok_0->Some_0@ == c
                && final(r).at() == old(r).at() + c.len() && c.len() >= HEADER_SIZE,
            Err(e) => out is Err && out->Err_0 == e,
        },
{
    let ghost d = r.data();
    let ghost at = r.at();
    if r.remaining() == 0 {
        return Ok(None);
    }
    let mut head: Vec<u8> = match r.take(SIZE_FIELD_END) {
        Ok(v) => v,
        Err(_) => {
            return Err(StreamError::UnexpectedEof);
        },
    };
    proof {
        crate::util::bytes::lemma_sub_be(d, at, at + SIZE_FIELD_END, 2);
    }
    let size: u32 = command_size(head.as_slice())?;
    let mut rest: Vec<u8> = match r.take(size as usize - SIZE_FIELD_END) {
        Ok(v) => v,
        Err(_) => {
            return Err(StreamError::UnexpectedEof);
        },
    };
    head.append(&mut rest);
    assert(head@ =~= d.subrange(at, at + size));
    Ok(Some(head))
}

/// The commands a stream carries from `at` on, up to the first octet that is
/// not one.
pub open spec fn commands_from(d: Seq<u8>, at: int) -> Seq<Seq<u8>>
    decreases d.len() - at,
{
    match command_at(d, at) {
        Ok(Some(c)) if 0 <= at && c.len() > 0 => seq![c] + commands_from(d, at + c.len()),
        _ => Seq::empty(),
    }
}

/// How a stream ends after its commands.
pub open spec fn end_from(d: Seq<u8>, at: int) -> Result<(), StreamError>
    decreases d.len() - at,
{
    match command_at(d, at) {
        Ok(Some(c)) if 0 <= at && c.len() > 0 => end_from(d, at + c.len()),
        Err(e) => Err(e),
        _ => Ok(()),
    }
}

/// The calls of commands that were run in order at one locality, each with its
/// response.
pub open spec fn commands_run(locality: u8, commands: Seq<Seq<u8>>, responses: Seq<Vec<u8>>) -> Seq<
    Call,
> {
    Seq::new(
        commands.len(),
        |i: int|
            Call {
                signal: Signal::Execute(locality, commands[i]),
                response: responses[i]@,
                flag: false,
            },
    )
}

/// Serve one connection: read commands, execute them, collect the responses.
///
/// The locality of a pipe client is always zero because the transport carries
/// no locality field. The first part of the answer says how the stream ended,
/// the second is the response to each command it carried, in order.
pub fn serve_connection<D: Device>(input: &[u8], device: &mut D) -> (out: (
    Result<(), StreamError>,
    Vec<Vec<u8>>,
))
    ensures
        out.0 == end_from(input@, 0),
        out.1@.len() == commands_from(input@, 0).len(),
        final(device).calls() == old(device).calls() + commands_run(
            0,
            commands_from(input@, 0),
            out.1@,
        ),
{
    let mut r: Reader = Reader::new(input);
    let mut responses: Vec<Vec<u8>> = Vec::new();
    let ghost start = device.calls();
    let ghost mut done: Seq<Seq<u8>> = Seq::empty();
    proof {
        assert(done + commands_from(input@, 0) =~= commands_from(input@, 0));
        assert(start + commands_run(0, done, responses@) =~= start);
    }
    loop
        invariant
            r.data() == input@,
            0 <= r.at() <= input@.len(),
            start == old(device).calls(),
            commands_from(input@, 0) == done + commands_from(input@, r.at()),
            done.len() == responses@.len(),
            device.calls() == start + commands_run(0, done, responses@),
            end_from(input@, 0) == end_from(input@, r.at()),
        decreases input@.len() - r.at(),
    {
        match read_command(&mut r) {
            Ok(Some(command)) => {
                let response: Vec<u8> = device.execute(0, command.as_slice());
                responses.push(response);
                proof {
                    let more = done.push(command@);
                    assert(commands_from(input@, 0) =~= more + commands_from(input@, r.at()));
                    assert(device.calls() =~= start + commands_run(0, more, responses@));
                    done = more;
                }
            },
            Ok(None) => {
                assert(commands_from(input@, 0) =~= done);
                return (Ok(()), responses);
            },
            Err(e) => {
                assert(commands_from(input@, 0) =~= done);
                return (Err(e), responses);
            },
        }
    }
}

/// The stream that holds frames one after the other.
pub open spec fn joined(frames: Seq<Seq<u8>>) -> Seq<u8>
    decreases frames.len(),
{
    if frames.len() == 0 {
        Seq::empty()
    } else {
        frames[0] + joined(frames.skip(1))
    }
}

/// True for octets that frame themselves as a command.
pub open spec fn is_frame(c: Seq<u8>) -> bool {
    HEADER_SIZE <= c.len() <= MAX_COMMAND && be32(c, 2) == c.len()
}

proof fn lemma_first_frame(before: Seq<u8>, c: Seq<u8>, after: Seq<u8>)
    requires
        is_frame(c),
    ensures
        command_at(before + c + after, before.len() as int) == Ok::<Option<Seq<u8>>, StreamError>(
            Some(c),
        ),
{
    let d = before + c + after;
    let at = before.len() as int;
    assert(d.subrange(at, at + c.len()) =~= c);
    assert(be32(d, at + 2) == be32(c, 2));
}

proof fn lemma_frames_from(before: Seq<u8>, frames: Seq<Seq<u8>>)
    requires
        forall|i: int| 0 <= i < frames.len() ==> is_frame(#[trigger] frames[i]),
    ensures
        commands_from(before + joined(frames), before.len() as int) == frames,
        end_from(before + joined(frames), before.len() as int) is Ok,
    decreases frames.len(),
{
    let d = before + joined(frames);
    if frames.len() == 0 {
        assert(d =~= before);
        assert(commands_from(d, before.len() as int) =~= frames);
    } else {
        let c = frames[0];
        let rest = frames.skip(1);
        assert(d =~= before + c + joined(rest));
        lemma_first_frame(before, c, joined(rest));
        assert forall|i: int| 0 <= i < rest.len() implies is_frame(#[trigger] rest[i]) by {
            assert(rest[i] == frames[i + 1]);
        }
        lemma_frames_from(before + c, rest);
        assert((before + c).len() == before.len() + c.len());
        assert(seq![c] + rest =~= frames);
    }
}

/// Frames sent back to back are read one by one, in order and to the end.
pub proof fn law_frames_are_read_one_by_one(frames: Seq<Seq<u8>>)
    requires
        forall|i: int| 0 <= i < frames.len() ==> is_frame(#[trigger] frames[i]),
    ensures
        commands_from(joined(frames), 0) == frames,
        end_from(joined(frames), 0) is Ok,
{
    let none = Seq::<u8>::empty();
    assert(none + joined(frames) =~= joined(frames));
    lemma_frames_from(none, frames);
}

/// A stream that ends inside a frame ends in an error, after the frames before
/// it were read.
pub proof fn law_a_cut_frame_is_an_error(before: Seq<u8>, c: Seq<u8>, n: int)
    requires
        is_frame(c),
        0 < n < c.len(),
    ensures
        command_at(before + c.take(n), before.len() as int) == Err::<Option<Seq<u8>>, StreamError>(
            StreamError::UnexpectedEof,
        ),
{
    let d = before + c.take(n);
    let at = before.len() as int;
    if n >= SIZE_FIELD_END {
        assert(be32(d, at + 2) == be32(c, 2));
    }
}

/// Where the frame after the first `k` starts.
pub open spec fn frame_start(frames: Seq<Seq<u8>>, k: int) -> int {
    joined(frames.take(k)).len() as int
}

proof fn lemma_joined_split(frames: Seq<Seq<u8>>, k: int)
    requires
        0 <= k <= frames.len(),
    ensures
        joined(frames) == joined(frames.take(k)) + joined(frames.skip(k)),
    decreases k,
{
    if k == 0 {
        assert(frames.skip(0) =~= frames);
        assert(joined(frames) =~= joined(frames.take(0)) + joined(frames.skip(0)));
    } else {
        let rest = frames.skip(1);
        lemma_joined_split(rest, k - 1);
        assert(frames.take(k).skip(1) =~= rest.take(k - 1));
        assert(frames.skip(k) =~= rest.skip(k - 1));
        assert(joined(frames.take(k)) == frames[0] + joined(rest.take(k - 1)));
        assert(joined(frames) =~= joined(frames.take(k)) + joined(frames.skip(k)));
    }
}

/// Of frames sent back to back, each call reads the next one and goes on exactly
/// behind it, whatever is sent after. Once all are read the stream is at its end,
/// and where it was cut inside one more frame that is an error.
pub proof fn law_each_call_reads_one_frame(frames: Seq<Seq<u8>>, tail: Seq<u8>)
    requires
        forall|i: int| 0 <= i < frames.len() ==> is_frame(#[trigger] frames[i]),
    ensures
        frame_start(frames, 0) == 0,
        forall|k: int|
            0 <= k < frames.len() ==> command_at(
                joined(frames) + tail,
                #[trigger] frame_start(frames, k),
            ) == Ok::<Option<Seq<u8>>, StreamError>(Some(frames[k])) && frame_start(frames, k + 1)
                == frame_start(frames, k) + frames[k].len(),
        tail.len() == 0 ==> command_at(
            joined(frames) + tail,
            frame_start(frames, frames.len() as int),
        ) == Ok::<Option<Seq<u8>>, StreamError>(None),
        forall|c: Seq<u8>, n: int|
            is_frame(c) && 0 < n < c.len() && tail == #[trigger] c.take(n) ==> command_at(
                joined(frames) + tail,
                frame_start(frames, frames.len() as int),
            ) == Err::<Option<Seq<u8>>, StreamError>(StreamError::UnexpectedEof),
{
    assert forall|k: int| 0 <= k < frames.len() implies command_at(
        joined(frames) + tail,
        #[trigger] frame_start(frames, k),
    ) == Ok::<Option<Seq<u8>>, StreamError>(Some(frames[k])) && frame_start(frames, k + 1)
        == frame_start(frames, k) + frames[k].len() by {
        lemma_joined_split(frames, k);
        let rest = frames.skip(k);
        assert(rest[0] == frames[k]);
        assert(joined(rest) == frames[k] + joined(rest.skip(1)));
        assert(joined(frames) + tail =~= joined(frames.take(k)) + frames[k] + (joined(rest.skip(1))
            + tail));
        lemma_first_frame(joined(frames.take(k)), frames[k], joined(rest.skip(1)) + tail);
        let more = frames.take(k + 1);
        lemma_joined_split(more, k);
        assert(more.take(k) =~= frames.take(k));
        let one = more.skip(k);
        assert(one.len() == 1 && one[0] == frames[k]);
        assert(one.skip(1).len() == 0);
        assert(joined(one) =~= frames[k] + joined(one.skip(1)));
        assert(joined(one.skip(1)) =~= Seq::<u8>::empty());
    }
    assert(frames.take(frames.len() as int) =~= frames);
    assert forall|c: Seq<u8>, n: int|
        is_frame(c) && 0 < n < c.len() && tail == #[trigger] c.take(n) implies command_at(
        joined(frames) + tail,
        frame_start(frames, frames.len() as int),
    ) == Err::<Option<Seq<u8>>, StreamError>(StreamError::UnexpectedEof) by {
        law_a_cut_frame_is_an_error(joined(frames), c, n);
    }
}

} // verus!
