//! Hashes and HMACs, at once and in sequences.

use vstd::prelude::*;

use super::dispatch::{Request, RequestView, Response};
use super::execute::{respond, respond_with_handle};
use super::pcr::{digest_list, extended, pcr_index};
use super::signatures::{hash_ticket, hash_ticket_of, object_named, object_of};
use super::wire::{
    alone, answers_handle, answers_nothing, answers_with, fails, nothing, raw_u16, raw_u32,
    take_sized,
};
use crate::tpm::constants::{alg, hc, rc, rh, st};
use crate::tpm::crypto::hash::{digest, hash_of, is_supported, lemma_hash_len, supported};
use crate::tpm::crypto::hmac::{hmac, hmac_of, lemma_hmac_len};
use crate::tpm::engine::object::{
    Object, Sequence, SequenceKind, SequenceKindView, SequenceView, Slot, MAX_SEQUENCE_BYTES,
};
use crate::tpm::engine::pcr::{pair_views, spec_admits, spec_extend_localities, PcrBanks};
use crate::tpm::engine::state::TpmState;
use crate::tpm::error::{TpmRc, TpmResult};
use crate::tpm::marshal::{parse_sized, sized, Parsed, Reader, Writer};
use crate::tpm::structures::attributes::ObjectAttributes;
use crate::tpm::structures::base::Tpm2bSensitiveData;
use crate::tpm::structures::keys::PublicParms;
use crate::tpm::structures::lists::TpmlDigestValues;
use crate::tpm::structures::signature::{Ticket, TicketView};
use crate::util::bytes::to_vec;

verus! {

/// The parameters of TPM2_Hash.
pub open spec fn parse_hash_command(d: Seq<u8>) -> Parsed<(Seq<u8>, u16, u32)> {
    match parse_sized(d, 0, 1024) {
        Err(e) => Err(e),
        Ok((data, n1)) => match raw_u16(d, n1) {
            Err(e) => Err(e),
            Ok((hash_alg, n2)) => match raw_u32(d, n2) {
                Err(e) => Err(e),
                Ok((hierarchy, n3)) => Ok(((data, hash_alg, hierarchy), n3)),
            },
        },
    }
}

/// TPM2_Hash.
pub open spec fn hash_command_ran(state: TpmState, req: RequestView, r: TpmResult<Response>) -> bool {
    match alone(req.parameters, parse_hash_command(req.parameters)) {
        Err(e) => fails(r, e),
        Ok((data, hash_alg, hierarchy)) => if !supported(hash_alg) {
            fails(r, TpmRc(rc::HASH).for_parameter(2))
        } else {
            let d = hash_of(hash_alg, data);
            match hash_ticket_of(state, hierarchy, hash_alg, data, d) {
                Err(e) => fails(r, e),
                Ok(t) => answers_with(r, sized(d) + t.octets()),
            }
        },
    }
}

/// TPM2_Hash: a digest, and a ticket that says that this TPM made it.
pub fn hash_command(state: &TpmState, request: &Request) -> (r: TpmResult<Response>)
    ensures
        hash_command_ran(*state, request@, r),
{
    broadcast use lemma_hash_len;

    let mut reader: Reader = request.reader();
    let data: Vec<u8> = take_sized::<1024>(&mut reader)?;
    let hash_alg: u16 = reader.u16()?;
    let hierarchy: u32 = reader.u32()?;
    reader.expect_end()?;
    let d: Vec<u8> = match digest(hash_alg, data.as_slice()) {
        Ok(d) => d,
        Err(_) => {
            return Err(TpmRc(rc::HASH).with_parameter(2));
        },
    };
    let ticket: Ticket = hash_ticket(state, hierarchy, hash_alg, data.as_slice(), d.as_slice())?;
    let mut w: Writer = Writer::new();
    w.sized16(d.as_slice());
    ticket.marshal(&mut w);
    assert(w.written() =~= sized(d@) + ticket@.octets());
    respond(w)
}

/// The hash that a keyed hash object computes an HMAC with: its own, or the
/// caller's when it has none.
pub open spec fn hmac_alg(p: PublicParms, requested: u16) -> TpmResult<u16> {
    let own = match p {
        PublicParms::KeyedHash { scheme } => if scheme.scheme == alg::NULL {
            Ok(None)
        } else if scheme.scheme != alg::HMAC {
            Err(TpmRc(rc::SCHEME).for_handle(1))
        } else {
            Ok(scheme.spec_hash_alg())
        },
        _ => Ok(None),
    };
    match own {
        Err(e) => Err(e),
        Ok(Some(h)) => if requested != alg::NULL && requested != h {
            Err(TpmRc(rc::VALUE).for_parameter(2))
        } else if !supported(h) {
            Err(TpmRc(rc::HASH).for_parameter(2))
        } else {
            Ok(h)
        },
        Ok(None) => if requested == alg::NULL {
            Err(TpmRc(rc::VALUE).for_parameter(2))
        } else if !supported(requested) {
            Err(TpmRc(rc::HASH).for_parameter(2))
        } else {
            Ok(requested)
        },
    }
}

/// The key and the hash of a keyed hash object that computes an HMAC.
pub open spec fn hmac_key_of(state: TpmState, handle: u32, requested: u16) -> TpmResult<
    (Seq<u8>, u16),
> {
    match object_named(state, handle) {
        Err(e) => Err(e.for_handle(1)),
        Ok(o) => if o.public.object_type != alg::KEYEDHASH {
            Err(TpmRc(rc::TYPE).for_handle(1))
        } else if !o.public.object_attributes.has(ObjectAttributes::SIGN_ENCRYPT) {
            Err(TpmRc(rc::ATTRIBUTES).for_handle(1))
        } else {
            match o.sensitive {
                None => Err(TpmRc(rc::HANDLE).for_handle(1)),
                Some(s) => match hmac_alg(o.public.parameters, requested) {
                    Err(e) => Err(e),
                    Ok(h) => Ok((s.sensitive@, h)),
                },
            }
        },
    }
}

/// The hash that a keyed hash object computes an HMAC with.
fn choose_hmac_alg(p: &PublicParms, requested: u16) -> (r: TpmResult<u16>)
    ensures
        r == hmac_alg(*p, requested),
{
    let own: Option<u16> = match p {
        PublicParms::KeyedHash { scheme } => {
            if scheme.is_null() {
                None
            } else {
                if scheme.scheme != alg::HMAC {
                    return Err(TpmRc(rc::SCHEME).with_handle(1));
                }
                scheme.hash_alg()
            }
        },
        _ => None,
    };
    let h: u16 = match own {
        Some(h) => {
            if requested != alg::NULL && requested != h {
                return Err(TpmRc(rc::VALUE).with_parameter(2));
            }
            h
        },
        None => {
            if requested == alg::NULL {
                return Err(TpmRc(rc::VALUE).with_parameter(2));
            }
            requested
        },
    };
    if !is_supported(h) {
        return Err(TpmRc(rc::HASH).with_parameter(2));
    }
    Ok(h)
}

/// The key and the hash of a keyed hash object that computes an HMAC.
fn hmac_key(state: &TpmState, handle: u32, requested: u16) -> (r: TpmResult<(Vec<u8>, u16)>)
    requires
        state.wf(),
    ensures
        match hmac_key_of(*state, handle, requested) {
            Ok((k, h)) => r is Ok && (r->Ok_0).0@ == k && (r->Ok_0).1 == h && k.len() <= 0xFFFF
                && supported(h),
            Err(e) => r is Err && r->Err_0 == e,
        },
{
    let object: &Object = match object_of(state, handle) {
        Ok(o) => o,
        Err(e) => {
            return Err(e.with_handle(1));
        },
    };
    if object.public.object_type != alg::KEYEDHASH {
        return Err(TpmRc(rc::TYPE).with_handle(1));
    }
    if !object.public.object_attributes.has(ObjectAttributes::SIGN_ENCRYPT) {
        return Err(TpmRc(rc::ATTRIBUTES).with_handle(1));
    }
    match &object.sensitive {
        None => Err(TpmRc(rc::HANDLE).with_handle(1)),
        Some(s) => {
            let h: u16 = choose_hmac_alg(&object.public.parameters, requested)?;
            Ok((to_vec(s.sensitive.as_slice()), h))
        },
    }
}

/// Octets behind their size and a hash.
pub open spec fn parse_buffer_and_alg(d: Seq<u8>, max: int) -> Parsed<(Seq<u8>, u16)> {
    match parse_sized(d, 0, max) {
        Err(e) => Err(e),
        Ok((data, n1)) => match raw_u16(d, n1) {
            Err(e) => Err(e),
            Ok((hash_alg, n2)) => Ok(((data, hash_alg), n2)),
        },
    }
}

/// TPM2_HMAC.
pub open spec fn hmac_command_ran(state: TpmState, req: RequestView, r: TpmResult<Response>) -> bool {
    match (req.handle(0), alone(req.parameters, parse_buffer_and_alg(req.parameters, 1024))) {
        (Err(e), _) => fails(r, e),
        (_, Err(e)) => fails(r, e),
        (Ok(h), Ok((data, requested))) => match hmac_key_of(state, h, requested) {
            Err(e) => fails(r, e),
            Ok((key, hash_alg)) => answers_with(r, sized(hmac_of(hash_alg, key, data))),
        },
    }
}

/// TPM2_HMAC: the HMAC of a keyed hash object over a buffer.
pub fn hmac_command(state: &TpmState, request: &Request) -> (r: TpmResult<Response>)
    requires
        state.wf(),
    ensures
        hmac_command_ran(*state, request@, r),
{
    broadcast use lemma_hmac_len;

    let handle: u32 = request.handle(0)?;
    let mut reader: Reader = request.reader();
    let data: Vec<u8> = take_sized::<1024>(&mut reader)?;
    let requested: u16 = reader.u16()?;
    reader.expect_end()?;
    let (key, hash_alg) = hmac_key(state, handle, requested)?;
    let d: Vec<u8> = hmac(hash_alg, key.as_slice(), data.as_slice())?;
    let mut w: Writer = Writer::new();
    w.sized16(d.as_slice());
    assert(w.written() =~= sized(d@));
    respond(w)
}

/// The sequence is loaded under the lowest free handle, or there is no room
/// for it and nothing changes.
pub open spec fn starts(
    after: TpmState,
    before: TpmState,
    out: TpmResult<SequenceView>,
    r: TpmResult<Response>,
) -> bool {
    match out {
        Err(e) => after == before && fails(r, e),
        Ok(s) => if !before.objects.has_room() {
            after == before && fails(r, TpmRc(rc::OBJECT_MEMORY))
        } else {
            let h = r->Ok_0.handle->0;
            &&& answers_handle(r, h, Seq::empty())
            &&& before.objects.is_next(h)
            &&& after == (TpmState { objects: after.objects, ..before })
            &&& after.objects.slots@ == before.objects.slots@.insert(h, after.objects.slots@[h])
            &&& after.objects.slots@[h] is Sequence
            &&& (*after.objects.slots@[h]->Sequence_0)@ == s
        },
    }
}

/// Load a sequence and answer with its handle.
fn start(state: &mut TpmState, kind: SequenceKind, auth: Vec<u8>) -> (r: TpmResult<Response>)
    requires
        old(state).wf(),
        auth@.len() <= 64,
        kind matches SequenceKind::Hmac { key, .. } ==> key@.len() <= 0xFFFF,
    ensures
        final(state).wf(),
        starts(
            *final(state),
            *old(state),
            Ok(SequenceView { kind: kind@, auth: auth@, buffer: Seq::empty() }),
            r,
        ),
{
    let buffer: Vec<u8> = Vec::new();
    assert(buffer@ =~= Seq::<u8>::empty());
    let sequence: Sequence = Sequence { kind, auth, buffer };
    let handle: u32 = state.objects.insert(Slot::Sequence(Box::new(sequence)))?;
    let w: Writer = Writer::new();
    assert(w.written() =~= Seq::<u8>::empty());
    respond_with_handle(handle, w)
}

/// What TPM2_HashSequenceStart starts: without a hash, an event sequence, which
/// feeds every PCR bank.
pub open spec fn hash_sequence_start_outcome(req: RequestView) -> TpmResult<SequenceView> {
    match alone(req.parameters, parse_buffer_and_alg(req.parameters, 64)) {
        Err(e) => Err(e),
        Ok((auth, hash_alg)) => if hash_alg == alg::NULL {
            Ok(SequenceView { kind: SequenceKindView::Event, auth, buffer: Seq::empty() })
        } else if !supported(hash_alg) {
            Err(TpmRc(rc::HASH).for_parameter(2))
        } else {
            Ok(
                SequenceView {
                    kind: SequenceKindView::Hash { hash_alg },
                    auth,
                    buffer: Seq::empty(),
                },
            )
        },
    }
}

/// TPM2_HashSequenceStart: start a hash sequence or an event sequence.
pub fn hash_sequence_start(state: &mut TpmState, request: &Request) -> (r: TpmResult<Response>)
    requires
        old(state).wf(),
    ensures
        final(state).wf(),
        starts(*final(state), *old(state), hash_sequence_start_outcome(request@), r),
{
    let mut reader: Reader = request.reader();
    let auth: Vec<u8> = take_sized::<64>(&mut reader)?;
    let hash_alg: u16 = reader.u16()?;
    reader.expect_end()?;
    if hash_alg == alg::NULL {
        return start(state, SequenceKind::Event, auth);
    }
    if !is_supported(hash_alg) {
        return Err(TpmRc(rc::HASH).with_parameter(2));
    }
    start(state, SequenceKind::Hash { hash_alg }, auth)
}

/// What TPM2_HMAC_Start starts.
pub open spec fn hmac_start_outcome(state: TpmState, req: RequestView) -> TpmResult<SequenceView> {
    match (req.handle(0), alone(req.parameters, parse_buffer_and_alg(req.parameters, 64))) {
        (Err(e), _) => Err(e),
        (_, Err(e)) => Err(e),
        (Ok(h), Ok((auth, requested))) => match hmac_key_of(state, h, requested) {
            Err(e) => Err(e),
            Ok((key, hash_alg)) => Ok(
                SequenceView {
                    kind: SequenceKindView::Hmac { hash_alg, key },
                    auth,
                    buffer: Seq::empty(),
                },
            ),
        },
    }
}

/// TPM2_HMAC_Start: start an HMAC sequence.
pub fn hmac_start(state: &mut TpmState, request: &Request) -> (r: TpmResult<Response>)
    requires
        old(state).wf(),
    ensures
        final(state).wf(),
        starts(*final(state), *old(state), hmac_start_outcome(*old(state), request@), r),
{
    let handle: u32 = request.handle(0)?;
    let mut reader: Reader = request.reader();
    let auth: Vec<u8> = take_sized::<64>(&mut reader)?;
    let requested: u16 = reader.u16()?;
    reader.expect_end()?;
    let (key, hash_alg) = hmac_key(state, handle, requested)?;
    start(state, SequenceKind::Hmac { hash_alg, key }, auth)
}

/// The sequence a handle names, the `n`th of the command. TPM_RC_MODE for an
/// object.
pub open spec fn sequence_named(state: TpmState, handle: u32, n: int) -> TpmResult<Sequence> {
    if !state.objects.slots@.contains_key(handle) {
        Err(TpmRc(rc::HANDLE).for_handle(n))
    } else {
        match state.objects.slots@[handle] {
            Slot::Sequence(s) => Ok(*s),
            Slot::Object(_) => Err(TpmRc(rc::MODE)),
        }
    }
}

/// The sequence a handle names.
fn sequence_of(state: &TpmState, handle: u32, n: usize) -> (r: TpmResult<&Sequence>)
    requires
        state.wf(),
    ensures
        match sequence_named(*state, handle, n as int) {
            Ok(s) => r is Ok && *(r->Ok_0) == s && s.wf(),
            Err(e) => r is Err && r->Err_0 == e,
        },
{
    match state.objects.get(handle) {
        Err(e) => Err(e.with_handle(n)),
        Ok(slot) => match slot {
            Slot::Sequence(s) => Ok(s),
            Slot::Object(_) => Err(TpmRc(rc::MODE)),
        },
    }
}

/// TPM2_SequenceUpdate.
pub open spec fn sequence_update_ran(
    after: TpmState,
    before: TpmState,
    req: RequestView,
    r: TpmResult<Response>,
) -> bool {
    match (req.handle(0), alone(req.parameters, parse_sized(req.parameters, 0, 1024))) {
        (Err(e), _) => after == before && fails(r, e),
        (_, Err(e)) => after == before && fails(r, e),
        (Ok(h), Ok(data)) => match sequence_named(before, h, 1) {
            Err(e) => after == before && fails(r, e),
            Ok(s) => if s.buffer@.len() + data.len() > MAX_SEQUENCE_BYTES {
                after == before && fails(r, TpmRc(rc::MEMORY))
            } else {
                &&& answers_nothing(r)
                &&& after == (TpmState { objects: after.objects, ..before })
                &&& after.objects.slots@ == before.objects.slots@.insert(
                    h,
                    after.objects.slots@[h],
                )
                &&& after.objects.slots@[h] is Sequence
                &&& (*after.objects.slots@[h]->Sequence_0)@ == (SequenceView {
                    buffer: s.buffer@ + data,
                    ..s@
                })
            },
        },
    }
}

/// TPM2_SequenceUpdate: give a sequence more data.
pub fn sequence_update(state: &mut TpmState, request: &Request) -> (r: TpmResult<Response>)
    requires
        old(state).wf(),
    ensures
        final(state).wf(),
        sequence_update_ran(*final(state), *old(state), request@, r),
{
    let handle: u32 = request.handle(0)?;
    let mut reader: Reader = request.reader();
    let data: Vec<u8> = take_sized::<1024>(&mut reader)?;
    reader.expect_end()?;
    let held: usize = sequence_of(state, handle, 1)?.buffer.len();
    if held > MAX_SEQUENCE_BYTES - data.len() {
        return Err(TpmRc(rc::MEMORY));
    }
    match state.objects.get_mut(handle) {
        Ok(slot) => match slot {
            Slot::Sequence(s) => {
                s.buffer.extend_from_slice(data.as_slice());
            },
            Slot::Object(_) => {},
        },
        Err(_) => {},
    }
    proof {
        let before = sequence_named(*old(state), handle, 1)->Ok_0;
        let x = *state.objects.slots@[handle]->Sequence_0;
        assert(state.objects.slots@[handle] is Sequence);
        assert(x.buffer@ =~= before.buffer@ + data@);
        assert(x.kind == before.kind);
        assert(x.auth == before.auth);
        assert(*state == (TpmState { objects: state.objects, ..*old(state) }));
        assert(state.objects.slots@ == old(state).objects.slots@.insert(
            handle,
            state.objects.slots@[handle],
        ));
    }
    nothing()
}

/// The digest of a sequence over all it was given, and the ticket for it. An
/// HMAC has no ticket.
pub open spec fn sequence_result(state: TpmState, s: Sequence, last: Seq<u8>, hierarchy: u32)
    -> TpmResult<(Seq<u8>, TicketView)> {
    let data = s.buffer@ + last;
    match s.kind {
        SequenceKind::Hash { hash_alg } => if !supported(hash_alg) {
            Err(TpmRc(rc::HASH))
        } else {
            let d = hash_of(hash_alg, data);
            match hash_ticket_of(state, hierarchy, hash_alg, data, d) {
                Err(e) => Err(e),
                Ok(t) => Ok((d, t)),
            }
        },
        SequenceKind::Hmac { hash_alg, key } => if !supported(hash_alg) {
            Err(TpmRc(rc::HASH))
        } else {
            Ok((hmac_of(hash_alg, key@, data), TicketView::null(st::HASHCHECK)))
        },
        SequenceKind::Event => Err(TpmRc(rc::MODE).for_handle(1)),
    }
}

/// Octets behind their size and a hierarchy.
pub open spec fn parse_sequence_complete(d: Seq<u8>) -> Parsed<(Seq<u8>, u32)> {
    match parse_sized(d, 0, 1024) {
        Err(e) => Err(e),
        Ok((data, n1)) => match raw_u32(d, n1) {
            Err(e) => Err(e),
            Ok((hierarchy, n2)) => Ok(((data, hierarchy), n2)),
        },
    }
}

/// TPM2_SequenceComplete.
pub open spec fn sequence_complete_ran(state: TpmState, req: RequestView, r: TpmResult<Response>)
    -> bool {
    match (req.handle(0), alone(req.parameters, parse_sequence_complete(req.parameters))) {
        (Err(e), _) => fails(r, e),
        (_, Err(e)) => fails(r, e),
        (Ok(h), Ok((data, hierarchy))) => match sequence_named(state, h, 1) {
            Err(e) => fails(r, e),
            Ok(s) => match sequence_result(state, s, data, hierarchy) {
                Err(e) => fails(r, e),
                Ok((d, t)) => answers_with(r, sized(d) + t.octets()),
            },
        },
    }
}

/// The digest of a sequence over all it was given, and the ticket for it.
fn complete(state: &TpmState, s: &Sequence, last: &[u8], hierarchy: u32) -> (r: TpmResult<
    (Vec<u8>, Ticket),
>)
    ensures
        match sequence_result(*state, *s, last@, hierarchy) {
            Ok((d, t)) => r is Ok && (r->Ok_0).0@ == d && (r->Ok_0).1@ == t && d.len() <= 64,
            Err(e) => r is Err && r->Err_0 == e,
        },
{
    broadcast use lemma_hmac_len;
    broadcast use lemma_hash_len;

    let mut data: Vec<u8> = to_vec(s.buffer.as_slice());
    data.extend_from_slice(last);
    assert(data@ =~= s.buffer@ + last@);
    match &s.kind {
        SequenceKind::Hash { hash_alg } => {
            let d: Vec<u8> = digest(*hash_alg, data.as_slice())?;
            let t: Ticket = hash_ticket(
                state,
                hierarchy,
                *hash_alg,
                data.as_slice(),
                d.as_slice(),
            )?;
            Ok((d, t))
        },
        SequenceKind::Hmac { hash_alg, key } => {
            let d: Vec<u8> = hmac(*hash_alg, key.as_slice(), data.as_slice())?;
            Ok((d, Ticket::null(st::HASHCHECK)))
        },
        SequenceKind::Event => Err(TpmRc(rc::MODE).with_handle(1)),
    }
}

/// TPM2_SequenceComplete: the digest of a hash sequence or an HMAC sequence.
/// The sequence is flushed once the command has succeeded.
pub fn sequence_complete(state: &mut TpmState, request: &Request) -> (r: TpmResult<Response>)
    requires
        old(state).wf(),
    ensures
        *final(state) == *old(state),
        sequence_complete_ran(*old(state), request@, r),
{
    let handle: u32 = request.handle(0)?;
    let mut reader: Reader = request.reader();
    let data: Vec<u8> = take_sized::<1024>(&mut reader)?;
    let hierarchy: u32 = reader.u32()?;
    reader.expect_end()?;
    let s: &Sequence = sequence_of(state, handle, 1)?;
    let (d, ticket) = complete(state, s, data.as_slice(), hierarchy)?;
    let mut w: Writer = Writer::new();
    w.sized16(d.as_slice());
    ticket.marshal(&mut w);
    assert(w.written() =~= sized(d@) + ticket@.octets());
    respond(w)
}

/// TPM2_EventSequenceComplete. With the null handle the event is only hashed.
pub open spec fn event_sequence_complete_ran(
    after: TpmState,
    before: TpmState,
    req: RequestView,
    r: TpmResult<Response>,
) -> bool {
    match (
        req.handle(0),
        req.handle(1),
        alone(req.parameters, parse_sized(req.parameters, 0, 1024)),
    ) {
        (Err(e), _, _) => after == before && fails(r, e),
        (_, Err(e), _) => after == before && fails(r, e),
        (_, _, Err(e)) => after == before && fails(r, e),
        (Ok(h), Ok(sequence), Ok(last)) => match sequence_named(before, sequence, 2) {
            Err(e) => after == before && fails(r, e),
            Ok(s) => if !(s.kind is Event) {
                after == before && fails(r, TpmRc(rc::MODE).for_handle(2))
            } else {
                let digests = before.pcr.digests_of(s.buffer@ + last);
                if h == rh::NULL {
                    after == before && answers_with(r, TpmlDigestValues::octets_of(digests))
                } else if h > hc::PCR_LAST {
                    after == before && fails(r, TpmRc(rc::VALUE).for_handle(1))
                } else if !spec_admits(spec_extend_localities(h as int), req.locality) {
                    after == before && fails(r, TpmRc(rc::LOCALITY))
                } else {
                    &&& answers_with(r, TpmlDigestValues::octets_of(digests))
                    &&& after == (TpmState { pcr: after.pcr, ..before })
                    &&& extended(after.pcr, before.pcr, h as int, digests)
                }
            },
        },
    }
}

/// TPM2_EventSequenceComplete: extend a register with the digests of an event
/// sequence.
pub fn event_sequence_complete(state: &mut TpmState, request: &Request) -> (r: TpmResult<Response>)
    requires
        old(state).wf(),
    ensures
        final(state).wf(),
        event_sequence_complete_ran(*final(state), *old(state), request@, r),
{
    let pcr_handle: u32 = request.handle(0)?;
    let handle: u32 = request.handle(1)?;
    let mut reader: Reader = request.reader();
    let last: Vec<u8> = take_sized::<1024>(&mut reader)?;
    reader.expect_end()?;
    let s: &Sequence = sequence_of(state, handle, 2)?;
    match s.kind {
        SequenceKind::Event => {},
        _ => {
            return Err(TpmRc(rc::MODE).with_handle(2));
        },
    }
    let mut data: Vec<u8> = to_vec(s.buffer.as_slice());
    data.extend_from_slice(last.as_slice());
    assert(data@ =~= s.buffer@ + last@);
    proof {
        reveal(PcrBanks::wf);
    }
    if pcr_handle == rh::NULL {
        let digests: Vec<(u16, Vec<u8>)> = state.pcr.digests(data.as_slice());
        assert(pair_views(digests@).len() == digests@.len());
        return digest_list(digests);
    }
    let index: u16 = match pcr_index(pcr_handle) {
        Ok(i) => i,
        Err(e) => {
            return Err(e.with_handle(1));
        },
    };
    let digests: Vec<(u16, Vec<u8>)> = state.pcr.event(
        index,
        request.locality,
        data.as_slice(),
    )?;
    assert(pair_views(digests@).len() == digests@.len());
    digest_list(digests)
}

/// The data of a keyed hash object.
pub fn keyed_hash_data(object: &Object) -> (r: TpmResult<Tpm2bSensitiveData>)
    ensures
        match object.sensitive {
            None => r is Err && r->Err_0 == TpmRc(rc::HANDLE),
            Some(s) => if s.sensitive@.len() > 128 {
                r is Err && r->Err_0 == TpmRc(rc::SIZE)
            } else {
                r is Ok && r->Ok_0@ == s.sensitive@
            },
        },
{
    match &object.sensitive {
        None => Err(TpmRc(rc::HANDLE)),
        Some(s) => Tpm2bSensitiveData::from_slice(s.sensitive.as_slice()),
    }
}

/// A sequence gives the digest that hashing everything at once gives, however
/// the data was cut into pieces.
pub proof fn law_a_sequence_hashes_what_it_was_given(
    state: TpmState,
    a: Sequence,
    b: Sequence,
    piece: Seq<u8>,
    rest: Seq<u8>,
    hierarchy: u32,
)
    requires
        a.kind == b.kind,
        b.buffer@ == a.buffer@ + piece,
    ensures
        sequence_result(state, b, rest, hierarchy) == sequence_result(
            state,
            a,
            piece + rest,
            hierarchy,
        ),
{
    assert(b.buffer@ + rest =~= a.buffer@ + (piece + rest));
}

/// TPM2_SequenceComplete answers as TPM2_Hash does for everything the sequence
/// was given: the same digest and the same ticket, or the same error.
pub proof fn law_a_sequence_answers_as_one_hash_does(
    state: TpmState,
    complete: RequestView,
    whole: RequestView,
    h: u32,
    s: Sequence,
    hash_alg: u16,
    last: Seq<u8>,
    hierarchy: u32,
    a: TpmResult<Response>,
    b: TpmResult<Response>,
)
    requires
        complete.handle(0) == Ok::<u32, TpmRc>(h),
        alone(complete.parameters, parse_sequence_complete(complete.parameters)) == Ok::<
            (Seq<u8>, u32),
            TpmRc,
        >((last, hierarchy)),
        sequence_named(state, h, 1) == Ok::<Sequence, TpmRc>(s),
        s.kind == (SequenceKind::Hash { hash_alg }),
        supported(hash_alg),
        alone(whole.parameters, parse_hash_command(whole.parameters)) == Ok::<
            (Seq<u8>, u16, u32),
            TpmRc,
        >((s.buffer@ + last, hash_alg, hierarchy)),
        sequence_complete_ran(state, complete, a),
        hash_command_ran(state, whole, b),
    ensures
        same_answer(a, b),
{
}

/// All the pieces, one after the other.
pub open spec fn all_of(pieces: Seq<Seq<u8>>) -> Seq<u8>
    decreases pieces.len(),
{
    if pieces.len() == 0 {
        Seq::empty()
    } else {
        all_of(pieces.drop_last()) + pieces.last()
    }
}

/// TPM2_SequenceUpdate succeeded for a piece.
pub open spec fn update_ran(
    after: TpmState,
    before: TpmState,
    request: RequestView,
    response: TpmResult<Response>,
    h: u32,
    piece: Seq<u8>,
) -> bool {
    &&& request.handle(0) == Ok::<u32, TpmRc>(h)
    &&& alone(request.parameters, parse_sized(request.parameters, 0, 1024)) == Ok::<Seq<u8>, TpmRc>(
        piece,
    )
    &&& sequence_update_ran(after, before, request, response)
    &&& response is Ok
}

/// TPM2_SequenceUpdate succeeded for each piece in turn, on the same sequence.
pub open spec fn updates_ran(
    states: Seq<TpmState>,
    requests: Seq<RequestView>,
    responses: Seq<TpmResult<Response>>,
    h: u32,
    pieces: Seq<Seq<u8>>,
) -> bool {
    &&& states.len() == pieces.len() + 1
    &&& requests.len() == pieces.len()
    &&& responses.len() == pieces.len()
    &&& forall|i: int|
        0 <= i < pieces.len() ==> update_ran(
            states[i + 1],
            states[i],
            requests[i],
            responses[i],
            h,
            #[trigger] pieces[i],
        )
}

/// After any number of updates a sequence holds what it held and then every
/// piece, and nothing else has changed.
proof fn lemma_updates(
    states: Seq<TpmState>,
    requests: Seq<RequestView>,
    responses: Seq<TpmResult<Response>>,
    h: u32,
    pieces: Seq<Seq<u8>>,
    s: Sequence,
)
    requires
        updates_ran(states, requests, responses, h, pieces),
        sequence_named(states[0], h, 1) == Ok::<Sequence, TpmRc>(s),
    ensures
        sequence_named(states.last(), h, 1) matches Ok(t) && t@ == (SequenceView {
            buffer: s.buffer@ + all_of(pieces),
            ..s@
        }),
        states.last() == (TpmState { objects: states.last().objects, ..states[0] }),
    decreases pieces.len(),
{
    if pieces.len() == 0 {
        assert(s.buffer@ + all_of(pieces) =~= s.buffer@);
    } else {
        let n = pieces.len() - 1;
        let less = pieces.drop_last();
        let fewer = states.drop_last();
        let asked = requests.drop_last();
        let answered = responses.drop_last();
        assert forall|i: int| 0 <= i < less.len() implies update_ran(
            fewer[i + 1],
            fewer[i],
            asked[i],
            answered[i],
            h,
            #[trigger] less[i],
        ) by {
            assert(less[i] == pieces[i]);
            assert(fewer[i + 1] == states[i + 1]);
            assert(fewer[i] == states[i]);
            assert(asked[i] == requests[i]);
            assert(answered[i] == responses[i]);
        }
        lemma_updates(fewer, asked, answered, h, less, s);
        assert(fewer.last() == states[n]);
        assert(states.last() == states[n + 1]);
        let t = sequence_named(states[n], h, 1)->Ok_0;
        assert(pieces[n] == pieces.last());
        assert(t.buffer@ + pieces[n] =~= s.buffer@ + all_of(pieces));
    }
}

/// A hash sequence that is started, given any number of pieces and completed
/// answers with the digest of all of them and the ticket for it, as TPM2_Hash did
/// before it was started: the same octets, or the same error.
pub proof fn law_a_hash_sequence_hashes_every_piece(
    before: TpmState,
    start: RequestView,
    started: TpmResult<Response>,
    auth: Seq<u8>,
    hash_alg: u16,
    states: Seq<TpmState>,
    requests: Seq<RequestView>,
    responses: Seq<TpmResult<Response>>,
    pieces: Seq<Seq<u8>>,
    complete: RequestView,
    last: Seq<u8>,
    hierarchy: u32,
    a: TpmResult<Response>,
)
    requires
        alone(start.parameters, parse_buffer_and_alg(start.parameters, 64)) == Ok::<
            (Seq<u8>, u16),
            TpmRc,
        >((auth, hash_alg)),
        supported(hash_alg),
        states.len() > 0,
        starts(states[0], before, hash_sequence_start_outcome(start), started),
        started is Ok,
        updates_ran(states, requests, responses, started->Ok_0.handle->0, pieces),
        complete.handle(0) == Ok::<u32, TpmRc>(started->Ok_0.handle->0),
        alone(complete.parameters, parse_sequence_complete(complete.parameters)) == Ok::<
            (Seq<u8>, u32),
            TpmRc,
        >((last, hierarchy)),
        sequence_complete_ran(states.last(), complete, a),
    ensures
        ({
            let data = all_of(pieces) + last;
            let d = hash_of(hash_alg, data);
            match hash_ticket_of(before, hierarchy, hash_alg, data, d) {
                Ok(t) => answers_with(a, sized(d) + t.octets()),
                Err(e) => fails(a, e),
            }
        }),
        forall|whole: RequestView, b: TpmResult<Response>|
            alone(whole.parameters, parse_hash_command(whole.parameters)) == Ok::<
                (Seq<u8>, u16, u32),
                TpmRc,
            >((all_of(pieces) + last, hash_alg, hierarchy)) && #[trigger] hash_command_ran(
                before,
                whole,
                b,
            ) ==> same_answer(a, b),
{
    let h = started->Ok_0.handle->0;
    let s = *states[0].objects.slots@[h]->Sequence_0;
    lemma_updates(states, requests, responses, h, pieces, s);
    assert(s.buffer@ + all_of(pieces) =~= all_of(pieces));
}

/// Two responses that are the same on the wire, or the same error.
pub open spec fn same_answer(a: TpmResult<Response>, b: TpmResult<Response>) -> bool {
    match (a, b) {
        (Ok(x), Ok(y)) => x.handle == y.handle && x.parameters@ == y.parameters@,
        (Err(x), Err(y)) => x == y,
        _ => false,
    }
}

/// TPM2_SequenceComplete refuses an event sequence, whatever it was given.
pub proof fn law_an_event_sequence_is_not_completed_as_a_hash(
    state: TpmState,
    complete: RequestView,
    h: u32,
    s: Sequence,
    a: TpmResult<Response>,
)
    requires
        complete.handle(0) == Ok::<u32, TpmRc>(h),
        alone(complete.parameters, parse_sequence_complete(complete.parameters)) is Ok,
        sequence_named(state, h, 1) == Ok::<Sequence, TpmRc>(s),
        s.kind is Event,
        sequence_complete_ran(state, complete, a),
    ensures
        fails(a, TpmRc(rc::MODE).for_handle(1)),
{
}

} // verus!
