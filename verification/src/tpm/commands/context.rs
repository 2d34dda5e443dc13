//! Saving and loading contexts, and persistent objects.

use vstd::prelude::*;

use super::dispatch::{Request, RequestView, Response};
use super::execute::{respond, respond_with_handle};
use super::object::loads;
use super::sequences::starts;
use super::wire::{
    alone, answers_handle, answers_nothing, answers_with, at_parameter, fails, in_u32, nothing,
    numbered, read_u32, take_sized,
};
use crate::tpm::config;
use crate::tpm::constants::range::{is_persistent, is_session};
use crate::tpm::constants::{alg, hc, rc, rh, saved, se};
use crate::tpm::crypto::hmac::{hmac, hmac_of, kdfa, kdfa_bytes, lemma_hmac_len, lemma_kdfa_len};
use crate::tpm::crypto::sym::{self, cfb_decrypt, cfb_encrypt, crypted, Direction};
use crate::tpm::engine::hierarchy::is_hierarchy;
use crate::tpm::engine::object::{Object, ObjectView, Sequence, SequenceView, Slot};
use crate::tpm::engine::protect::zero_iv;
use crate::tpm::engine::saved_object::{
    law_a_sequence_context_round_trips, law_an_object_context_round_trips,
    lemma_read_object_restorable, object_octets, parse_object, parse_sequence, restorable,
    sequence_octets,
};
use crate::tpm::engine::saved_session::{parse_session, session_octets, SessionView};
use crate::tpm::engine::session::{handle_fits, Session};
use crate::tpm::engine::session_store::SessionStore;
use crate::tpm::engine::state::{persistent_wf, TpmState};
use crate::tpm::error::{TpmRc, TpmResult};
use crate::tpm::marshal::{sized, Reader, Writer};
use crate::tpm::structures::base::Tpm2bContextData;
use crate::tpm::structures::context::{
    context_data, law_a_context_round_trips, lemma_context_data, Context, ContextView,
};
use crate::tpm::structures::schemes::SymDef;
use crate::util::bytes::{constant_time_eq, filled, octets32, octets64, push_be32, push_be64};

pub use crate::tpm::engine::saved_object::{
    marshal_object, marshal_sequence, unmarshal_object, unmarshal_sequence,
};
pub use crate::tpm::engine::saved_session::{marshal_session, unmarshal_session};

verus! {

/// What the key that encrypts a context is derived for.
pub const LABEL_CONTEXT: [u8; 7] = [0x43, 0x4f, 0x4e, 0x54, 0x45, 0x58, 0x54];

/// What the key of the integrity value of a context is derived for.
pub const LABEL_INTEGRITY: [u8; 9] = [0x49, 0x4e, 0x54, 0x45, 0x47, 0x52, 0x49, 0x54, 0x59];

/// The key that encrypts a context.
pub open spec fn context_key(proof_value: Seq<u8>, sequence: u64) -> Seq<u8> {
    kdfa(
        config::CONTEXT_INTEGRITY_HASH_ALG,
        proof_value,
        LABEL_CONTEXT@,
        octets64(sequence),
        Seq::empty(),
        config::CONTEXT_ENCRYPT_KEY_BITS as u32,
    )
}

/// The key of the integrity value of a context.
pub open spec fn context_mac_key(proof_value: Seq<u8>, sequence: u64) -> Seq<u8> {
    kdfa(
        config::CONTEXT_INTEGRITY_HASH_ALG,
        proof_value,
        LABEL_INTEGRITY@,
        octets64(sequence),
        Seq::empty(),
        256,
    )
}

/// The counters a context is tied to: the resets of the TPM, and for an object
/// that goes away at a TPM Restart the restarts too.
pub open spec fn counters_of(state: TpmState, saved_handle: u32) -> Seq<u8> {
    if saved_handle == saved::TRANSIENT_STCLEAR {
        octets64(state.clock.total_reset_count) + octets32(state.clock.clear_count)
    } else {
        octets64(state.clock.total_reset_count)
    }
}

/// The integrity value of a context.
pub open spec fn context_mac(
    state: TpmState,
    hierarchy: u32,
    sequence: u64,
    saved_handle: u32,
    encrypted: Seq<u8>,
) -> Seq<u8> {
    hmac_of(
        config::CONTEXT_INTEGRITY_HASH_ALG,
        context_mac_key(state.hierarchies.spec_get(hierarchy).proof_value@, sequence),
        counters_of(state, saved_handle) + octets64(sequence) + octets32(saved_handle) + encrypted,
    )
}

/// The body of a context, encrypted.
pub open spec fn context_hidden(state: TpmState, hierarchy: u32, sequence: u64, body: Seq<u8>)
    -> Seq<u8> {
    crypted(
        alg::CFB,
        context_key(state.hierarchies.spec_get(hierarchy).proof_value@, sequence),
        zero_iv(),
        body,
        Direction::Encrypt,
    ).0
}

/// A context that is encrypted, and that shows when it was changed.
#[verifier::opaque]
pub open spec fn sealed(
    state: TpmState,
    hierarchy: u32,
    sequence: u64,
    saved_handle: u32,
    body: Seq<u8>,
) -> TpmResult<Seq<u8>> {
    let hidden = context_hidden(state, hierarchy, sequence, body);
    if !is_hierarchy(hierarchy) {
        Err(TpmRc(rc::VALUE))
    } else if body.len() + 36 > 0xFFFF {
        Err(TpmRc(rc::SIZE))
    } else {
        Ok(
            sized(context_mac(state, hierarchy, sequence, saved_handle, hidden)) + sized(hidden),
        )
    }
}

/// The body of a context whose integrity value is right.
#[verifier::opaque]
pub open spec fn opened(state: TpmState, c: ContextView) -> TpmResult<Seq<u8>> {
    if !is_hierarchy(c.hierarchy) {
        Err(TpmRc(rc::VALUE))
    } else {
        match context_data(c.blob) {
            Err(_) => Err(TpmRc(rc::BAD_CONTEXT).for_parameter(1)),
            Ok((integrity, hidden)) => if integrity != context_mac(
                state,
                c.hierarchy,
                c.sequence,
                c.saved_handle,
                hidden,
            ) {
                Err(TpmRc(rc::INTEGRITY).for_parameter(1))
            } else {
                Ok(
                    crypted(
                        alg::CFB,
                        context_key(
                            state.hierarchies.spec_get(c.hierarchy).proof_value@,
                            c.sequence,
                        ),
                        zero_iv(),
                        hidden,
                        Direction::Decrypt,
                    ).0,
                )
            },
        }
    }
}

/// A context that was sealed opens to what went into it, while the TPM has the
/// same proof and counters.
pub proof fn law_a_sealed_context_opens(
    state: TpmState,
    hierarchy: u32,
    sequence: u64,
    saved_handle: u32,
    body: Seq<u8>,
)
    ensures
        match sealed(state, hierarchy, sequence, saved_handle, body) {
            Ok(blob) => opened(
                state,
                ContextView { sequence, saved_handle, hierarchy, blob },
            ) == Ok::<Seq<u8>, TpmRc>(body),
            Err(_) => true,
        },
{
    broadcast use lemma_hmac_len;

    if sealed(state, hierarchy, sequence, saved_handle, body) is Ok {
        let proof_value = state.hierarchies.spec_get(hierarchy).proof_value@;
        let key = context_key(proof_value, sequence);
        let hidden = context_hidden(state, hierarchy, sequence, body);
        let mac = context_mac(state, hierarchy, sequence, saved_handle, hidden);
        lemma_kdfa_len(
            config::CONTEXT_INTEGRITY_HASH_ALG,
            proof_value,
            LABEL_CONTEXT@,
            octets64(sequence),
            Seq::empty(),
            256,
        );
        assert(body.len() + 36 <= 0xFFFF) by {
            reveal(sealed);
        }
        sym::law_decryption_undoes_encryption(alg::CFB, key, zero_iv(), body);
        lemma_context_data(mac, hidden);
        reveal(sealed);
        reveal(opened);
    }
}

/// A context only opens when its integrity value is the one for its handle, its
/// sequence number and the counters of the TPM.
pub proof fn law_only_an_intact_context_opens(state: TpmState, c: ContextView)
    ensures
        opened(state, c) is Ok ==> match context_data(c.blob) {
            Ok((integrity, hidden)) => integrity == context_mac(
                state,
                c.hierarchy,
                c.sequence,
                c.saved_handle,
                hidden,
            ),
            Err(_) => false,
        },
{
    reveal(opened);
}

/// The keys of a context.
fn context_keys(proof_value: &[u8], sequence: u64) -> (r: TpmResult<(Vec<u8>, Vec<u8>)>)
    ensures
        r is Ok,
        (r->Ok_0).0@ == context_key(proof_value@, sequence),
        (r->Ok_0).0@.len() == 32,
        (r->Ok_0).1@ == context_mac_key(proof_value@, sequence),
{
    let mut u: Vec<u8> = Vec::new();
    push_be64(&mut u, sequence);
    assert(u@ =~= octets64(sequence));
    let none: Vec<u8> = Vec::new();
    assert(none@ =~= Seq::<u8>::empty());
    let key: Vec<u8> = kdfa_bytes(
        config::CONTEXT_INTEGRITY_HASH_ALG,
        proof_value,
        LABEL_CONTEXT.as_slice(),
        u.as_slice(),
        none.as_slice(),
        config::CONTEXT_ENCRYPT_KEY_BITS as u32,
    )?;
    let mac: Vec<u8> = kdfa_bytes(
        config::CONTEXT_INTEGRITY_HASH_ALG,
        proof_value,
        LABEL_INTEGRITY.as_slice(),
        u.as_slice(),
        none.as_slice(),
        256,
    )?;
    Ok((key, mac))
}

/// The integrity value of a context.
fn compute_mac(
    state: &TpmState,
    key: &[u8],
    sequence: u64,
    saved_handle: u32,
    encrypted: &[u8],
) -> (r: Vec<u8>)
    ensures
        r@ == hmac_of(
            config::CONTEXT_INTEGRITY_HASH_ALG,
            key@,
            counters_of(*state, saved_handle) + octets64(sequence) + octets32(saved_handle)
                + encrypted@,
        ),
        r@.len() == 32,
{
    broadcast use lemma_hmac_len;

    let mut data: Vec<u8> = Vec::new();
    push_be64(&mut data, state.clock.total_reset_count);
    if saved_handle == saved::TRANSIENT_STCLEAR {
        push_be32(&mut data, state.clock.clear_count);
    }
    assert(data@ =~= counters_of(*state, saved_handle));
    push_be64(&mut data, sequence);
    push_be32(&mut data, saved_handle);
    data.extend_from_slice(encrypted);
    assert(data@ =~= counters_of(*state, saved_handle) + octets64(sequence) + octets32(
        saved_handle,
    ) + encrypted@);
    match hmac(config::CONTEXT_INTEGRITY_HASH_ALG, key, data.as_slice()) {
        Ok(h) => h,
        Err(_) => filled(0, 32),
    }
}

/// Encrypt the body of a context and protect it against changes.
pub fn seal_context(
    state: &TpmState,
    hierarchy: u32,
    sequence: u64,
    saved_handle: u32,
    body: &[u8],
) -> (r: TpmResult<Tpm2bContextData>)
    ensures
        match sealed(*state, hierarchy, sequence, saved_handle, body@) {
            Ok(v) => r is Ok && r->Ok_0@ == v,
            Err(e) => r is Err && r->Err_0 == e,
        },
{
    proof {
        reveal(sealed);
    }
    let proof_value: &[u8] = state.hierarchy_proof(hierarchy)?;
    if body.len() > 0xFFFF - 36 {
        return Err(TpmRc(rc::SIZE));
    }
    let (key, mac_key) = context_keys(proof_value, sequence)?;
    let iv: Vec<u8> = filled(0, 16);
    assert(iv@ =~= zero_iv());
    let hidden: Vec<u8> = cfb_encrypt(key.as_slice(), iv.as_slice(), body)?;
    let mac: Vec<u8> = compute_mac(
        state,
        mac_key.as_slice(),
        sequence,
        saved_handle,
        hidden.as_slice(),
    );
    let mut w: Writer = Writer::new();
    w.sized16(mac.as_slice());
    w.sized16(hidden.as_slice());
    assert(w.written() =~= sized(mac@) + sized(hidden@));
    Tpm2bContextData::new(w.into_vec())
}

/// Check and decrypt a saved context.
pub fn open_context(state: &TpmState, context: &Context) -> (r: TpmResult<Vec<u8>>)
    ensures
        match opened(*state, context@) {
            Ok(v) => r is Ok && r->Ok_0@ == v,
            Err(e) => r is Err && r->Err_0 == e,
        },
{
    proof {
        reveal(opened);
    }
    let proof_value: &[u8] = state.hierarchy_proof(context.hierarchy)?;
    let (key, mac_key) = context_keys(proof_value, context.sequence)?;
    let (integrity, hidden) = match take_apart(context.context_blob.as_slice()) {
        Ok(v) => v,
        Err(_) => {
            return Err(TpmRc(rc::BAD_CONTEXT).with_parameter(1));
        },
    };
    let expected: Vec<u8> = compute_mac(
        state,
        mac_key.as_slice(),
        context.sequence,
        context.saved_handle,
        hidden.as_slice(),
    );
    if !constant_time_eq(expected.as_slice(), integrity.as_slice()) {
        return Err(TpmRc(rc::INTEGRITY).with_parameter(1));
    }
    let iv: Vec<u8> = filled(0, 16);
    assert(iv@ =~= zero_iv());
    cfb_decrypt(key.as_slice(), iv.as_slice(), hidden.as_slice())
}

/// The integrity value and the encrypted body of a context.
fn take_apart(blob: &[u8]) -> (r: TpmResult<(Vec<u8>, Vec<u8>)>)
    ensures
        match context_data(blob@) {
            Ok((a, b)) => r is Ok && (r->Ok_0).0@ == a && (r->Ok_0).1@ == b,
            Err(e) => r is Err && r->Err_0 == e,
        },
{
    let mut reader: Reader = Reader::new(blob);
    let integrity: Vec<u8> = take_sized::<64>(&mut reader)?;
    let hidden: Vec<u8> = take_sized::<0xFFFF>(&mut reader)?;
    reader.expect_end()?;
    Ok((integrity, hidden))
}

/// What a context of a slot is saved as: its hierarchy, the handle that tells
/// what it holds, and the body.
pub open spec fn slot_body(slot: Slot) -> (u32, u32, Seq<u8>) {
    match slot {
        Slot::Object(o) => (
            o.hierarchy,
            if o.state_clear {
                saved::TRANSIENT_STCLEAR
            } else {
                saved::TRANSIENT_OBJECT
            },
            object_octets((*o)@),
        ),
        Slot::Sequence(s) => (rh::NULL, saved::SEQUENCE_OBJECT, sequence_octets((*s)@)),
    }
}

/// What TPM2_ContextSave saves: the hierarchy, the handle that tells what it
/// holds, and the body.
pub open spec fn save_check(state: TpmState, req: RequestView) -> TpmResult<(u32, u32, Seq<u8>)> {
    match req.handle(0) {
        Err(e) => Err(e),
        Ok(h) => if is_session(h) {
            if !state.sessions.loaded@.contains_key(h) {
                Err(TpmRc(rc::HANDLE).for_handle(1))
            } else {
                Ok((rh::NULL, h, session_octets(state.sessions.loaded@[h]@)))
            }
        } else if !state.objects.slots@.contains_key(h) {
            Err(TpmRc(rc::HANDLE).for_handle(1))
        } else {
            Ok(slot_body(state.objects.slots@[h]))
        },
    }
}

/// The context TPM2_ContextSave returns. It has the next sequence number.
pub open spec fn save_outcome(state: TpmState, req: RequestView) -> TpmResult<ContextView> {
    match save_check(state, req) {
        Err(e) => Err(e),
        Ok((hierarchy, saved_handle, body)) => if state.sessions.counter == u64::MAX {
            Err(TpmRc(rc::TOO_MANY_CONTEXTS))
        } else {
            let sequence = (state.sessions.counter + 1) as u64;
            match sealed(state, hierarchy, sequence, saved_handle, body) {
                Err(e) => Err(e),
                Ok(blob) => Ok(ContextView { sequence, saved_handle, hierarchy, blob }),
            }
        },
    }
}

/// TPM2_ContextSave. A session leaves memory and is known as saved; an object
/// stays.
pub open spec fn context_save_ran(
    after: TpmState,
    before: TpmState,
    req: RequestView,
    r: TpmResult<Response>,
) -> bool {
    match save_outcome(before, req) {
        Err(e) => after == before && fails(r, e),
        Ok(c) => {
            let h = req.handles[0];
            &&& answers_with(r, c.octets())
            &&& after == (TpmState { sessions: after.sessions, ..before })
            &&& if is_session(h) {
                &&& after.sessions.loaded@ == before.sessions.loaded@.remove(h)
                &&& after.sessions.saved@ == before.sessions.saved@.insert(h, c.sequence)
                &&& after.sessions.counter == c.sequence
            } else {
                after.sessions == (SessionStore { counter: c.sequence, ..before.sessions })
            }
        },
    }
}

/// What TPM2_ContextSave saves.
fn body_of(state: &TpmState, handle: u32) -> (r: TpmResult<(u32, u32, Vec<u8>)>)
    requires
        state.wf(),
    ensures
        match (if is_session(handle) {
            if !state.sessions.loaded@.contains_key(handle) {
                Err::<(u32, u32, Seq<u8>), TpmRc>(TpmRc(rc::HANDLE).for_handle(1))
            } else {
                Ok((rh::NULL, handle, session_octets(state.sessions.loaded@[handle]@)))
            }
        } else if !state.objects.slots@.contains_key(handle) {
            Err(TpmRc(rc::HANDLE).for_handle(1))
        } else {
            Ok(slot_body(state.objects.slots@[handle]))
        }) {
            Ok((a, b, body)) => r is Ok && (r->Ok_0).0 == a && (r->Ok_0).1 == b && (r->Ok_0).2@
                == body,
            Err(e) => r is Err && r->Err_0 == e,
        },
{
    if is_session(handle) {
        let session: &Session = match state.sessions.get(handle) {
            Ok(s) => s,
            Err(e) => {
                return Err(e.with_handle(1));
            },
        };
        let body: Vec<u8> = marshal_session(session)?;
        return Ok((rh::NULL, handle, body));
    }
    match state.objects.get(handle) {
        Err(e) => Err(e.with_handle(1)),
        Ok(slot) => match slot {
            Slot::Object(o) => {
                let saved_handle: u32 = if o.state_clear {
                    saved::TRANSIENT_STCLEAR
                } else {
                    saved::TRANSIENT_OBJECT
                };
                let body: Vec<u8> = marshal_object(o)?;
                Ok((o.hierarchy, saved_handle, body))
            },
            Slot::Sequence(s) => {
                let body: Vec<u8> = marshal_sequence(s)?;
                Ok((rh::NULL, saved::SEQUENCE_OBJECT, body))
            },
        },
    }
}

/// TPM2_ContextSave: hand out what a handle names so that it can be loaded
/// again.
pub fn context_save(state: &mut TpmState, request: &Request) -> (r: TpmResult<Response>)
    requires
        old(state).wf(),
    ensures
        final(state).wf(),
        context_save_ran(*final(state), *old(state), request@, r),
{
    let handle: u32 = request.handle(0)?;
    let (hierarchy, saved_handle, body) = body_of(state, handle)?;
    let sequence: u64 = state.sessions.next_context_id()?;
    let context_blob: Tpm2bContextData = seal_context(
        state,
        hierarchy,
        sequence,
        saved_handle,
        body.as_slice(),
    )?;
    let context: Context = Context { sequence, saved_handle, hierarchy, context_blob };
    let mut w: Writer = Writer::new();
    context.marshal(&mut w);
    assert(w.written() =~= context@.octets());
    if is_session(handle) {
        match state.sessions.save(handle, sequence) {
            Ok(_) => {},
            Err(e) => {
                return Err(e.with_handle(1));
            },
        }
    } else {
        proof {
            reveal(SessionStore::wf);
        }
        state.sessions.note_context(sequence);
    }
    respond(w)
}

/// The body of the context TPM2_ContextLoad is given.
pub open spec fn load_check(state: TpmState, req: RequestView) -> TpmResult<(ContextView, Seq<u8>)> {
    match alone(req.parameters, numbered(ContextView::parse(req.parameters, 0), 1)) {
        Err(e) => Err(e),
        Ok(c) => if c.sequence > state.sessions.counter {
            Err(TpmRc(rc::VALUE).for_parameter(1))
        } else {
            match opened(state, c) {
                Err(e) => Err(e),
                Ok(body) => Ok((c, body)),
            }
        },
    }
}

/// The session of a context.
pub open spec fn session_in(c: ContextView, body: Seq<u8>) -> TpmResult<SessionView> {
    match parse_session(body) {
        Err(_) => Err(TpmRc(rc::BAD_CONTEXT)),
        Ok(s) => if s.handle != c.saved_handle || !handle_fits(s.handle, s.session_type) {
            Err(TpmRc(rc::BAD_CONTEXT).for_parameter(1))
        } else {
            Ok(s)
        },
    }
}

/// The session is loaded again. It has to be one that is saved.
pub open spec fn restores(
    after: TpmState,
    before: TpmState,
    out: TpmResult<SessionView>,
    r: TpmResult<Response>,
) -> bool {
    match out {
        Err(e) => after == before && fails(r, e),
        Ok(s) => if !before.sessions.saved@.contains_key(s.handle) {
            after == before && fails(r, TpmRc(rc::HANDLE))
        } else if !before.sessions.has_room() {
            after == before && fails(r, TpmRc(rc::SESSION_MEMORY))
        } else {
            &&& answers_handle(r, s.handle, Seq::empty())
            &&& after == (TpmState { sessions: after.sessions, ..before })
            &&& after.sessions.loaded@ == before.sessions.loaded@.insert(
                s.handle,
                after.sessions.loaded@[s.handle],
            )
            &&& after.sessions.loaded@[s.handle]@ == s
            &&& after.sessions.saved@ == before.sessions.saved@.remove(s.handle)
            &&& after.sessions.counter == before.sessions.counter
        },
    }
}

/// The sequence of a context.
pub open spec fn sequence_in(body: Seq<u8>) -> TpmResult<SequenceView> {
    match parse_sequence(body) {
        Err(_) => Err(TpmRc(rc::BAD_CONTEXT)),
        Ok(s) => Ok(s),
    }
}

/// The object of a context, and nothing to return behind its handle.
pub open spec fn object_in(c: ContextView, body: Seq<u8>) -> TpmResult<(ObjectView, Seq<u8>)> {
    match parse_object(body, c.saved_handle == saved::TRANSIENT_STCLEAR) {
        Err(_) => Err(TpmRc(rc::BAD_CONTEXT)),
        Ok(o) => Ok((o, Seq::empty())),
    }
}

/// TPM2_ContextLoad.
pub open spec fn context_load_ran(
    after: TpmState,
    before: TpmState,
    req: RequestView,
    r: TpmResult<Response>,
) -> bool {
    match load_check(before, req) {
        Err(e) => after == before && fails(r, e),
        Ok((c, body)) => if is_session(c.saved_handle) {
            restores(after, before, session_in(c, body), r)
        } else if c.saved_handle == saved::SEQUENCE_OBJECT {
            starts(after, before, sequence_in(body), r)
        } else if c.saved_handle == saved::TRANSIENT_OBJECT || c.saved_handle
            == saved::TRANSIENT_STCLEAR {
            &&& after == (TpmState { objects: after.objects, ..before })
            &&& loads(after, before, object_in(c, body), r)
        } else {
            after == before && fails(r, TpmRc(rc::VALUE).for_parameter(1))
        },
    }
}

/// A response of a handle alone.
fn handle_alone(handle: u32) -> (r: TpmResult<Response>)
    ensures
        answers_handle(r, handle, Seq::empty()),
{
    let w: Writer = Writer::new();
    assert(w.written() =~= Seq::<u8>::empty());
    respond_with_handle(handle, w)
}

/// Load a session again.
fn restore_session(state: &mut TpmState, context: &Context, body: &[u8]) -> (r: TpmResult<Response>)
    requires
        old(state).wf(),
    ensures
        final(state).wf(),
        restores(*final(state), *old(state), session_in(context@, body@), r),
{
    let session: Session = match unmarshal_session(body) {
        Ok(s) => s,
        Err(_) => {
            return Err(TpmRc(rc::BAD_CONTEXT));
        },
    };
    let fits: bool = if session.session_type == se::HMAC {
        crate::tpm::constants::range::is_hmac_session(session.handle)
    } else {
        crate::tpm::constants::range::is_policy_session(session.handle)
    };
    if session.handle != context.saved_handle || !fits {
        return Err(TpmRc(rc::BAD_CONTEXT).with_parameter(1));
    }
    let handle: u32 = state.sessions.restore(session)?;
    handle_alone(handle)
}

/// Load a sequence again.
fn restore_sequence(state: &mut TpmState, body: &[u8]) -> (r: TpmResult<Response>)
    requires
        old(state).wf(),
    ensures
        final(state).wf(),
        starts(*final(state), *old(state), sequence_in(body@), r),
{
    let sequence: Sequence = match unmarshal_sequence(body) {
        Ok(s) => s,
        Err(_) => {
            return Err(TpmRc(rc::BAD_CONTEXT));
        },
    };
    let handle: u32 = state.objects.insert(Slot::Sequence(Box::new(sequence)))?;
    handle_alone(handle)
}

/// Load an object again.
fn restore_object(state: &mut TpmState, context: &Context, body: &[u8]) -> (r: TpmResult<Response>)
    requires
        old(state).wf(),
    ensures
        final(state).wf(),
        *final(state) == (TpmState { objects: final(state).objects, ..*old(state) }),
        loads(*final(state), *old(state), object_in(context@, body@), r),
{
    let object: Object = match unmarshal_object(
        body,
        context.saved_handle == saved::TRANSIENT_STCLEAR,
    ) {
        Ok(o) => o,
        Err(_) => {
            return Err(TpmRc(rc::BAD_CONTEXT));
        },
    };
    let handle: u32 = state.objects.insert(Slot::Object(Box::new(object)))?;
    handle_alone(handle)
}

/// TPM2_ContextLoad: load what was saved.
pub fn context_load(state: &mut TpmState, request: &Request) -> (r: TpmResult<Response>)
    requires
        old(state).wf(),
    ensures
        final(state).wf(),
        context_load_ran(*final(state), *old(state), request@, r),
{
    let mut reader: Reader = request.reader();
    let context: Context = at_parameter(Context::unmarshal(&mut reader), 1)?;
    reader.expect_end()?;
    if context.sequence > state.sessions.context_counter() {
        return Err(TpmRc(rc::VALUE).with_parameter(1));
    }
    let body: Vec<u8> = open_context(state, &context)?;
    if is_session(context.saved_handle) {
        return restore_session(state, &context, body.as_slice());
    }
    if context.saved_handle == saved::SEQUENCE_OBJECT {
        return restore_sequence(state, body.as_slice());
    }
    if context.saved_handle == saved::TRANSIENT_OBJECT || context.saved_handle
        == saved::TRANSIENT_STCLEAR {
        return restore_object(state, &context, body.as_slice());
    }
    Err(TpmRc(rc::VALUE).with_parameter(1))
}

/// True for the part of the persistent range that the platform owns.
pub open spec fn platform_owned(handle: u32) -> bool {
    handle >= hc::PLATFORM_PERSISTENT
}

/// Whether an object may be made persistent under a handle.
pub open spec fn persist_check(state: TpmState, auth: u32, object: u32, persistent: u32) -> TpmResult<
    Object,
> {
    if (auth == rh::PLATFORM) != platform_owned(persistent) {
        Err(TpmRc(rc::RANGE).for_parameter(1))
    } else if !state.objects.has_object(object) {
        Err(
            TpmRc(
                if state.objects.slots@.contains_key(object) {
                    rc::TYPE
                } else {
                    rc::HANDLE
                },
            ).for_handle(2),
        )
    } else {
        let o = state.objects.object_at(object);
        let proper = if auth == rh::PLATFORM {
            o.hierarchy == rh::PLATFORM
        } else {
            o.hierarchy == rh::OWNER || o.hierarchy == rh::ENDORSEMENT
        };
        if o.hierarchy == rh::NULL {
            Err(TpmRc(rc::ATTRIBUTES).for_handle(2))
        } else if !proper {
            Err(TpmRc(rc::HIERARCHY).for_handle(2))
        } else if o.state_clear {
            Err(TpmRc(rc::ATTRIBUTES).for_handle(2))
        } else if state.persistent@.contains_key(persistent) {
            Err(TpmRc(rc::NV_DEFINED).for_parameter(1))
        } else if state.persistent@.dom().len() >= config::MIN_EVICT_OBJECTS {
            Err(TpmRc(rc::NV_SPACE))
        } else {
            Ok(o)
        }
    }
}

/// Whether a persistent object may be removed.
pub open spec fn remove_check(state: TpmState, auth: u32, object: u32, persistent: u32) -> TpmResult<
    (),
> {
    if auth == rh::OWNER && platform_owned(object) {
        Err(TpmRc(rc::RANGE).for_handle(2))
    } else if object != persistent || !state.persistent@.contains_key(persistent) {
        Err(TpmRc(rc::HANDLE).for_handle(2))
    } else {
        Ok(())
    }
}

/// TPM2_EvictControl.
pub open spec fn evict_control_ran(
    after: TpmState,
    before: TpmState,
    req: RequestView,
    r: TpmResult<Response>,
) -> bool {
    match (
        req.handle(0),
        req.handle(1),
        alone(req.parameters, in_u32(req.parameters, 0, 1)),
    ) {
        (Err(e), _, _) => after == before && fails(r, e),
        (_, Err(e), _) => after == before && fails(r, e),
        (_, _, Err(e)) => after == before && fails(r, e),
        (Ok(auth), Ok(object), Ok(persistent)) => if !is_persistent(persistent) {
            after == before && fails(r, TpmRc(rc::VALUE).for_parameter(1))
        } else if auth != rh::PLATFORM && auth != rh::OWNER {
            after == before && fails(r, TpmRc(rc::AUTH_TYPE).for_handle(1))
        } else if is_persistent(object) {
            match remove_check(before, auth, object, persistent) {
                Err(e) => after == before && fails(r, e),
                Ok(_) => {
                    &&& answers_nothing(r)
                    &&& after == (TpmState { persistent: after.persistent, ..before })
                    &&& after.persistent@ == before.persistent@.remove(persistent)
                },
            }
        } else {
            match persist_check(before, auth, object, persistent) {
                Err(e) => after == before && fails(r, e),
                Ok(o) => {
                    &&& answers_nothing(r)
                    &&& after == (TpmState { persistent: after.persistent, ..before })
                    &&& after.persistent@ == before.persistent@.insert(
                        persistent,
                        after.persistent@[persistent],
                    )
                    &&& after.persistent@[persistent]@ == o@
                },
            }
        },
    }
}

/// A copy of an object that may be made persistent.
fn check_persist(state: &TpmState, auth: u32, object: u32, persistent: u32) -> (r: TpmResult<Object>)
    requires
        state.wf(),
        auth == rh::PLATFORM || auth == rh::OWNER,
    ensures
        match persist_check(*state, auth, object, persistent) {
            Ok(o) => r is Ok && r->Ok_0@ == o@ && r->Ok_0.wf(),
            Err(e) => r is Err && r->Err_0 == e,
        },
{
    proof {
        reveal(persistent_wf);
        state.persistent.lemma_listed();
    }
    if (auth == rh::PLATFORM) != (persistent >= hc::PLATFORM_PERSISTENT) {
        return Err(TpmRc(rc::RANGE).with_parameter(1));
    }
    let o: &Object = match state.objects.object(object) {
        Ok(o) => o,
        Err(e) => {
            return Err(e.with_handle(2));
        },
    };
    if o.hierarchy == rh::NULL {
        return Err(TpmRc(rc::ATTRIBUTES).with_handle(2));
    }
    let proper: bool = if auth == rh::PLATFORM {
        o.hierarchy == rh::PLATFORM
    } else {
        o.hierarchy == rh::OWNER || o.hierarchy == rh::ENDORSEMENT
    };
    if !proper {
        return Err(TpmRc(rc::HIERARCHY).with_handle(2));
    }
    if o.state_clear {
        return Err(TpmRc(rc::ATTRIBUTES).with_handle(2));
    }
    if state.persistent.contains(persistent) {
        return Err(TpmRc(rc::NV_DEFINED).with_parameter(1));
    }
    if state.persistent.len() >= config::MIN_EVICT_OBJECTS {
        return Err(TpmRc(rc::NV_SPACE));
    }
    Ok(o.clone())
}

/// TPM2_EvictControl: make an object persistent, or remove a persistent one.
pub fn evict_control(state: &mut TpmState, request: &Request) -> (r: TpmResult<Response>)
    requires
        old(state).wf(),
    ensures
        final(state).wf(),
        evict_control_ran(*final(state), *old(state), request@, r),
{
    let auth: u32 = request.handle(0)?;
    let object: u32 = request.handle(1)?;
    let mut reader: Reader = request.reader();
    let persistent: u32 = read_u32(&mut reader, 1)?;
    reader.expect_end()?;
    if !is_persistent(persistent) {
        return Err(TpmRc(rc::VALUE).with_parameter(1));
    }
    if auth != rh::PLATFORM && auth != rh::OWNER {
        return Err(TpmRc(rc::AUTH_TYPE).with_handle(1));
    }
    proof {
        reveal(persistent_wf);
    }
    if is_persistent(object) {
        if auth == rh::OWNER && object >= hc::PLATFORM_PERSISTENT {
            return Err(TpmRc(rc::RANGE).with_handle(2));
        }
        if object != persistent {
            return Err(TpmRc(rc::HANDLE).with_handle(2));
        }
        return match state.persistent.remove(persistent) {
            Some(_) => nothing(),
            None => Err(TpmRc(rc::HANDLE).with_handle(2)),
        };
    }
    let copy: Object = check_persist(state, auth, object, persistent)?;
    state.persistent.insert(persistent, copy);
    nothing()
}

/// True for the handle of a saved object or sequence.
pub fn is_saved_object_handle(handle: u32) -> (r: bool)
    ensures
        r == (handle == saved::TRANSIENT_OBJECT || handle == saved::SEQUENCE_OBJECT || handle
            == saved::TRANSIENT_STCLEAR),
{
    handle == saved::TRANSIENT_OBJECT || handle == saved::SEQUENCE_OBJECT || handle
        == saved::TRANSIENT_STCLEAR
}

/// The hash that protects contexts.
pub fn context_hash() -> (r: u16)
    ensures
        r == config::CONTEXT_INTEGRITY_HASH_ALG,
{
    config::CONTEXT_INTEGRITY_HASH_ALG
}

/// A session that was saved comes back: the context that TPM2_ContextSave
/// returned for it opens, while the proof and the counters are the same, and
/// holds the session.
pub proof fn law_a_saved_session_comes_back(before: TpmState, after: TpmState, s: Session, c: ContextView)
    requires
        s.wf(),
        SymDef::fits(s.symmetric, true),
        handle_fits(s.handle, s.session_type),
        sealed(before, rh::NULL, c.sequence, s.handle, session_octets(s@)) == Ok::<Seq<u8>, TpmRc>(
            c.blob,
        ),
        c.hierarchy == rh::NULL,
        c.saved_handle == s.handle,
        secrets_kept(before, after, rh::NULL),
    ensures
        match opened(after, c) {
            Ok(body) => session_in(c, body) == Ok::<SessionView, TpmRc>(s@),
            Err(_) => false,
        },
{
    law_a_sealed_context_opens(before, rh::NULL, c.sequence, s.handle, session_octets(s@));
    lemma_opens_alike(before, after, c);
    assert(c == (ContextView {
        sequence: c.sequence,
        saved_handle: s.handle,
        hierarchy: rh::NULL,
        blob: c.blob,
    }));
    crate::tpm::engine::saved_session::law_a_session_context_round_trips(s);
}

/// True where nothing changed between two states that a saved context rests on:
/// the proof value of its hierarchy and the counts of resets and restarts.
pub open spec fn secrets_kept(before: TpmState, after: TpmState, hierarchy: u32) -> bool {
    &&& after.hierarchies.spec_get(hierarchy).proof_value@ == before.hierarchies.spec_get(
        hierarchy,
    ).proof_value@
    &&& after.clock.total_reset_count == before.clock.total_reset_count
    &&& after.clock.clear_count == before.clock.clear_count
}

/// An object that was saved can be loaded again, whatever was done in between
/// that keeps the proof value and the counts: TPM2_ContextLoad of the context that
/// TPM2_ContextSave returned loads the object as it was.
pub proof fn law_a_saved_object_comes_back(
    before: TpmState,
    mid: TpmState,
    after: TpmState,
    save: RequestView,
    load: RequestView,
    h: u32,
    o: Object,
    c: ContextView,
    r: TpmResult<Response>,
)
    requires
        save.handle(0) == Ok::<u32, TpmRc>(h),
        !is_session(h),
        before.objects.slots@.contains_key(h),
        before.objects.slots@[h] matches Slot::Object(x) && *x == o,
        restorable(o@),
        save_outcome(before, save) == Ok::<ContextView, TpmRc>(c),
        secrets_kept(before, mid, c.hierarchy),
        c.sequence <= mid.sessions.counter,
        load.parameters == c.octets(),
        context_load_ran(after, mid, load, r),
    ensures
        after == (TpmState { objects: after.objects, ..mid }),
        loads(after, mid, Ok((o@, Seq::empty())), r),
{
    let (hierarchy, saved_handle, body) = slot_body(before.objects.slots@[h]);
    law_a_sealed_context_opens(before, hierarchy, c.sequence, saved_handle, body);
    lemma_opens_alike(before, mid, c);
    lemma_sealed_fits(before, hierarchy, c.sequence, saved_handle, body);
    law_a_context_round_trips(c);
    law_an_object_context_round_trips(o@);
    assert(load_check(mid, load) == Ok::<(ContextView, Seq<u8>), TpmRc>((c, body)));
    assert(object_in(c, body) == Ok::<(ObjectView, Seq<u8>), TpmRc>((o@, Seq::empty())));
}

/// A hash sequence that was saved can be loaded again as it was, whatever was done
/// in between that keeps the proof value and the counts.
pub proof fn law_a_saved_sequence_comes_back(
    before: TpmState,
    mid: TpmState,
    after: TpmState,
    save: RequestView,
    load: RequestView,
    h: u32,
    s: Sequence,
    c: ContextView,
    r: TpmResult<Response>,
)
    requires
        save.handle(0) == Ok::<u32, TpmRc>(h),
        !is_session(h),
        before.objects.slots@.contains_key(h),
        before.objects.slots@[h] matches Slot::Sequence(x) && *x == s,
        s.wf(),
        save_outcome(before, save) == Ok::<ContextView, TpmRc>(c),
        secrets_kept(before, mid, c.hierarchy),
        c.sequence <= mid.sessions.counter,
        load.parameters == c.octets(),
        context_load_ran(after, mid, load, r),
    ensures
        starts(after, mid, Ok(s@), r),
{
    let (hierarchy, saved_handle, body) = slot_body(before.objects.slots@[h]);
    law_a_sealed_context_opens(before, hierarchy, c.sequence, saved_handle, body);
    lemma_opens_alike(before, mid, c);
    lemma_sealed_fits(before, hierarchy, c.sequence, saved_handle, body);
    law_a_context_round_trips(c);
    law_a_sequence_context_round_trips(s);
    assert(load_check(mid, load) == Ok::<(ContextView, Seq<u8>), TpmRc>((c, body)));
}

/// Whether a context opens depends on the proof value and the counts alone.
proof fn lemma_opens_alike(before: TpmState, mid: TpmState, c: ContextView)
    requires
        secrets_kept(before, mid, c.hierarchy),
    ensures
        opened(mid, c) == opened(before, c),
{
    reveal(opened);
    assert(counters_of(mid, c.saved_handle) == counters_of(before, c.saved_handle));
}

/// A sealed context names a hierarchy and goes into its field.
proof fn lemma_sealed_fits(
    state: TpmState,
    hierarchy: u32,
    sequence: u64,
    saved_handle: u32,
    body: Seq<u8>,
)
    ensures
        sealed(state, hierarchy, sequence, saved_handle, body) matches Ok(blob) ==> is_hierarchy(
            hierarchy,
        ) && blob.len() <= 0xFFFF,
{
    broadcast use lemma_hmac_len;

    reveal(sealed);
    if body.len() + 36 <= 0xFFFF {
        let proof_value = state.hierarchies.spec_get(hierarchy).proof_value@;
        lemma_kdfa_len(
            config::CONTEXT_INTEGRITY_HASH_ALG,
            proof_value,
            LABEL_CONTEXT@,
            octets64(sequence),
            Seq::empty(),
            256,
        );
        sym::law_decryption_undoes_encryption(
            alg::CFB,
            context_key(proof_value, sequence),
            zero_iv(),
            body,
        );
    }
}

/// TPM2_ContextLoad refuses a context with a changed sequence number, handle,
/// hierarchy or blob, and changes nothing, unless the integrity value in the blob
/// is by chance the HMAC of what is there now.
pub proof fn law_a_changed_context_is_refused(
    after: TpmState,
    before: TpmState,
    load: RequestView,
    c: ContextView,
    r: TpmResult<Response>,
)
    requires
        load.parameters == c.octets(),
        is_hierarchy(c.hierarchy),
        c.blob.len() <= 0xFFFF,
        context_data(c.blob) matches Ok((integrity, hidden)) ==> integrity != context_mac(
            before,
            c.hierarchy,
            c.sequence,
            c.saved_handle,
            hidden,
        ),
        context_load_ran(after, before, load, r),
    ensures
        after == before,
        r is Err,
        c.sequence <= before.sessions.counter ==> fails(
            r,
            if context_data(c.blob) is Ok {
                TpmRc(rc::INTEGRITY).for_parameter(1)
            } else {
                TpmRc(rc::BAD_CONTEXT).for_parameter(1)
            },
        ),
        c.sequence > before.sessions.counter ==> fails(r, TpmRc(rc::VALUE).for_parameter(1)),
{
    law_a_context_round_trips(c);
    reveal(opened);
}

/// The context of one slot does not open under another sequence number, handle or
/// hierarchy, unless the two HMACs are the same.
pub proof fn law_a_context_opens_as_what_it_was_saved(
    state: TpmState,
    hierarchy: u32,
    sequence: u64,
    saved_handle: u32,
    body: Seq<u8>,
    c: ContextView,
)
    requires
        sealed(state, hierarchy, sequence, saved_handle, body) == Ok::<Seq<u8>, TpmRc>(c.blob),
        opened(state, c) is Ok,
    ensures
        ({
            let hidden = context_hidden(state, hierarchy, sequence, body);
            context_mac(state, c.hierarchy, c.sequence, c.saved_handle, hidden) == context_mac(
                state,
                hierarchy,
                sequence,
                saved_handle,
                hidden,
            )
        }),
{
    broadcast use lemma_hmac_len;

    let hidden = context_hidden(state, hierarchy, sequence, body);
    let mac = context_mac(state, hierarchy, sequence, saved_handle, hidden);
    lemma_kdfa_len(
        config::CONTEXT_INTEGRITY_HASH_ALG,
        state.hierarchies.spec_get(hierarchy).proof_value@,
        LABEL_CONTEXT@,
        octets64(sequence),
        Seq::empty(),
        256,
    );
    assert(body.len() + 36 <= 0xFFFF) by {
        reveal(sealed);
    }
    sym::law_decryption_undoes_encryption(
        alg::CFB,
        context_key(state.hierarchies.spec_get(hierarchy).proof_value@, sequence),
        zero_iv(),
        body,
    );
    lemma_context_data(mac, hidden);
    reveal(sealed);
    reveal(opened);
}

/// What TPM2_ContextLoad loads can be saved and restored again.
pub proof fn law_what_is_restored_can_be_restored_again(c: ContextView, body: Seq<u8>)
    ensures
        object_in(c, body) matches Ok((o, _)) ==> restorable(o),
{
    lemma_read_object_restorable(body, c.saved_handle == saved::TRANSIENT_STCLEAR);
}

/// A session that was saved is loaded again as it was, once: TPM2_ContextLoad of the
/// context that TPM2_ContextSave returned restores it while the proof value and the
/// counts are the same and it is still known as saved, and a second load is refused.
pub proof fn law_a_saved_session_is_loaded_once(
    before: TpmState,
    mid: TpmState,
    after: TpmState,
    last: TpmState,
    save: RequestView,
    load: RequestView,
    h: u32,
    c: ContextView,
    r: TpmResult<Response>,
    again: TpmResult<Response>,
)
    requires
        before.sessions.wf(),
        save.handle(0) == Ok::<u32, TpmRc>(h),
        is_session(h),
        before.sessions.loaded@.contains_key(h),
        SymDef::fits(before.sessions.loaded@[h].symmetric, true),
        save_outcome(before, save) == Ok::<ContextView, TpmRc>(c),
        secrets_kept(before, mid, rh::NULL),
        c.sequence <= mid.sessions.counter,
        mid.sessions.saved@.contains_key(h),
        mid.sessions.has_room(),
        load.parameters == c.octets(),
        context_load_ran(after, mid, load, r),
        context_load_ran(last, after, load, again),
    ensures
        answers_handle(r, h, Seq::empty()),
        after.sessions.loaded@.contains_key(h),
        after.sessions.loaded@[h]@ == before.sessions.loaded@[h]@,
        last == after,
        fails(again, TpmRc(rc::HANDLE)),
{
    lemma_session_restores(before, mid, after, save, load, h, c, r);
    lemma_session_restores(before, after, last, save, load, h, c, again);
}

/// What a load of a saved session comes down to.
proof fn lemma_session_restores(
    before: TpmState,
    mid: TpmState,
    after: TpmState,
    save: RequestView,
    load: RequestView,
    h: u32,
    c: ContextView,
    r: TpmResult<Response>,
)
    requires
        before.sessions.wf(),
        save.handle(0) == Ok::<u32, TpmRc>(h),
        is_session(h),
        before.sessions.loaded@.contains_key(h),
        SymDef::fits(before.sessions.loaded@[h].symmetric, true),
        save_outcome(before, save) == Ok::<ContextView, TpmRc>(c),
        secrets_kept(before, mid, rh::NULL),
        c.sequence <= mid.sessions.counter,
        load.parameters == c.octets(),
        context_load_ran(after, mid, load, r),
    ensures
        restores(after, mid, Ok(before.sessions.loaded@[h]@), r),
        before.sessions.loaded@[h]@.handle == h,
{
    let s = before.sessions.loaded@[h];
    let body = session_octets(s@);
    assert(s.wf() && s.handle == h && handle_fits(h, s.session_type)) by {
        reveal(SessionStore::wf);
    }
    law_a_saved_session_comes_back(before, mid, s, c);
    law_a_sealed_context_opens(before, rh::NULL, c.sequence, h, body);
    lemma_opens_alike(before, mid, c);
    lemma_sealed_fits(before, rh::NULL, c.sequence, h, body);
    lemma_loaded(mid, load, c, body);
}

/// The context that TPM2_ContextLoad was given is the one it opens.
proof fn lemma_loaded(state: TpmState, load: RequestView, c: ContextView, body: Seq<u8>)
    requires
        is_hierarchy(c.hierarchy),
        c.blob.len() <= 0xFFFF,
        c.sequence <= state.sessions.counter,
        load.parameters == c.octets(),
        opened(state, c) == Ok::<Seq<u8>, TpmRc>(body),
    ensures
        load_check(state, load) == Ok::<(ContextView, Seq<u8>), TpmRc>((c, body)),
{
    law_a_context_round_trips(c);
}

} // verus!
