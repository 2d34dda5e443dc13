//! Objects and sequences as a saved context holds them.

use vstd::prelude::*;

use super::names::{object_name, object_name_of};
use super::object::{
    Object, ObjectView, Sequence, SequenceKind, SequenceKindView, SequenceView, MAX_SEQUENCE_BYTES,
};
use super::validate::{binding_check, check_binding, loaded_check, validate_loaded_public};
use crate::tpm::commands::wire::{raw_u16, raw_u32, raw_u8, take_sized};
use crate::tpm::constants::rc;
use crate::tpm::error::{TpmRc, TpmResult};
use crate::tpm::marshal::{
    holds, lemma_holds_all, lemma_holds_both, lemma_holds_sized, lemma_holds_u16, lemma_holds_u32,
    lemma_holds_u8, parse_sized, sized, Parsed, Reader, Writer,
};
use crate::tpm::structures::attest::yes_no_octet;
use crate::tpm::structures::keys::{
    lemma_public_reads, lemma_read_public_fits, lemma_read_sensitive_fits, PublicView,
    SensitiveView, TpmtPublic, TpmtSensitive,
};
use crate::util::bytes::{octets16, octets32};

verus! {

/// The sensitive area of an object behind whether there is one.
pub open spec fn sensitive_part(s: Option<SensitiveView>) -> Seq<u8> {
    match s {
        Some(v) => seq![1u8] + v.octets(),
        None => seq![0u8],
    }
}

/// An object as octets.
pub open spec fn object_octets(o: ObjectView) -> Seq<u8> {
    octets32(o.hierarchy) + (seq![yes_no_octet(o.tpm_generated)] + (o.public.octets() + (
    sensitive_part(o.sensitive) + sized(o.qualified_name))))
}

/// Whether an object may come back: it has to pass what loading would apply to
/// it, whatever saved it.
pub open spec fn restored_check(p: PublicView, s: Option<SensitiveView>) -> TpmResult<()> {
    match loaded_check(p) {
        Err(e) => Err(e),
        Ok(_) => match s {
            Some(v) => binding_check(p, v),
            None => Ok(()),
        },
    }
}

/// True for an object that comes back out of its context: every part fits its
/// field, the Name is that of the public area, and it passes what loading would
/// apply to it.
pub open spec fn restorable(o: ObjectView) -> bool {
    &&& o.public.fits()
    &&& o.sensitive matches Some(s) ==> s.fits()
    &&& o.qualified_name.len() <= 68
    &&& o.name == object_name_of(o.public)
    &&& restored_check(o.public, o.sensitive) is Ok
}

/// Check that an object may come back.
pub fn validate_restored(public: &TpmtPublic, sensitive: &Option<TpmtSensitive>) -> (r: TpmResult<()>)
    ensures
        r == restored_check(
            public@,
            match sensitive {
                Some(s) => Some(s@),
                None => None,
            },
        ),
{
    validate_loaded_public(public)?;
    match sensitive {
        Some(s) => check_binding(public, s),
        None => Ok(()),
    }
}

/// The sensitive area of an object at `at`, when there is one.
pub open spec fn parse_sensitive_part(d: Seq<u8>, at: int) -> Parsed<Option<SensitiveView>> {
    match raw_u8(d, at) {
        Err(e) => Err(e),
        Ok((there, n1)) => if there == 0 {
            Ok((None, n1))
        } else {
            match SensitiveView::parse(d, n1) {
                Err(e) => Err(e),
                Ok((s, n2)) => Ok((Some(s), n2)),
            }
        },
    }
}

/// The object that octets hold.
pub open spec fn parse_object(d: Seq<u8>, state_clear: bool) -> TpmResult<ObjectView> {
    match raw_u32(d, 0) {
        Err(e) => Err(e),
        Ok((hierarchy, n1)) => match raw_u8(d, n1) {
            Err(e) => Err(e),
            Ok((generated, n2)) => match PublicView::parse(d, n2, false) {
                Err(e) => Err(e),
                Ok((public, n3)) => match parse_sensitive_part(d, n3) {
                    Err(e) => Err(e),
                    Ok((sensitive, n4)) => match parse_sized(d, n4, 68) {
                        Err(e) => Err(e),
                        Ok((qualified_name, _)) => match restored_check(public, sensitive) {
                            Err(e) => Err(e),
                            Ok(_) => Ok(
                                ObjectView {
                                    public,
                                    sensitive,
                                    name: object_name_of(public),
                                    qualified_name,
                                    hierarchy,
                                    tpm_generated: generated != 0,
                                    state_clear,
                                },
                            ),
                        },
                    },
                },
            },
        },
    }
}

/// Write an object into the body of a context.
pub fn marshal_object(object: &Object) -> (r: TpmResult<Vec<u8>>)
    requires
        object.wf(),
    ensures
        r is Ok,
        r->Ok_0@ == object_octets(object@),
        r->Ok_0@.len() <= 0x1000,
{
    let public: Vec<u8> = object.public.to_bytes();
    let mut w: Writer = Writer::new();
    w.u32(object.hierarchy);
    w.u8(
        if object.tpm_generated {
            1
        } else {
            0
        },
    );
    w.bytes(public.as_slice());
    let ghost before = w.written();
    match &object.sensitive {
        Some(s) => {
            let octets: Vec<u8> = s.to_bytes();
            w.u8(1);
            w.bytes(octets.as_slice());
        },
        None => {
            w.u8(0);
        },
    }
    assert(w.written() =~= before + sensitive_part(object@.sensitive));
    w.sized16(object.qualified_name.as_slice());
    assert(w.written() =~= object_octets(object@));
    w.finish()
}

/// Read an object out of the body of a context.
pub fn unmarshal_object(body: &[u8], state_clear: bool) -> (out: TpmResult<Object>)
    ensures
        match parse_object(body@, state_clear) {
            Ok(v) => out is Ok && out->Ok_0@ == v && out->Ok_0.wf(),
            Err(e) => out is Err && out->Err_0 == e,
        },
{
    let mut r: Reader = Reader::new(body);
    let hierarchy: u32 = r.u32()?;
    let tpm_generated: bool = r.u8()? != 0;
    let public: TpmtPublic = TpmtPublic::unmarshal(&mut r, false)?;
    let sensitive: Option<TpmtSensitive> = if r.u8()? != 0 {
        Some(TpmtSensitive::unmarshal(&mut r)?)
    } else {
        None
    };
    let qualified_name: Vec<u8> = take_sized::<68>(&mut r)?;
    validate_restored(&public, &sensitive)?;
    let name: Vec<u8> = object_name(&public);
    Ok(Object { public, sensitive, name, qualified_name, hierarchy, tpm_generated, state_clear })
}

/// A sensitive area is read where it stands.
proof fn lemma_sensitive_part(d: Seq<u8>, at: int, s: Option<SensitiveView>)
    requires
        holds(d, at, sensitive_part(s)),
        s matches Some(v) ==> v.fits(),
    ensures
        parse_sensitive_part(d, at) == Ok::<(Option<SensitiveView>, int), TpmRc>(
            (s, at + sensitive_part(s).len()),
        ),
{
    match s {
        Some(v) => {
            lemma_holds_both(d, at, seq![1u8], v.octets());
            lemma_holds_u8(d, at, 1u8);
            crate::tpm::structures::keys::lemma_sensitive_reads(d, at + 1, v);
        },
        None => {
            lemma_holds_u8(d, at, 0u8);
        },
    }
}

/// An object is read where it stands.
proof fn lemma_object_reads(d: Seq<u8>, o: ObjectView)
    requires
        holds(d, 0, object_octets(o)),
        o.public.fits(),
        o.sensitive matches Some(s) ==> s.fits(),
        o.qualified_name.len() <= 68,
        o.name == object_name_of(o.public),
        restored_check(o.public, o.sensitive) is Ok,
    ensures
        parse_object(d, o.state_clear) == Ok::<ObjectView, TpmRc>(o),
{
    let a = octets32(o.hierarchy);
    let b = seq![yes_no_octet(o.tpm_generated)];
    let c = o.public.octets();
    let e = sensitive_part(o.sensitive);
    let f = sized(o.qualified_name);
    lemma_holds_both(d, 0, a, b + (c + (e + f)));
    lemma_holds_both(d, 4, b, c + (e + f));
    lemma_holds_both(d, 5, c, e + f);
    lemma_holds_both(d, 5 + c.len() as int, e, f);
    lemma_holds_u32(d, 0, o.hierarchy);
    lemma_holds_u8(d, 4, yes_no_octet(o.tpm_generated));
    lemma_public_reads(d, 5, o.public);
    lemma_sensitive_part(d, 5 + c.len() as int, o.sensitive);
    lemma_holds_sized(d, 5 + (c.len() + e.len()) as int, o.qualified_name, 68);
}

/// An object comes back out of its context as it was, when it passes what
/// loading would apply to it.
pub proof fn law_an_object_context_round_trips(o: ObjectView)
    requires
        restorable(o),
    ensures
        parse_object(object_octets(o), o.state_clear) == Ok::<ObjectView, TpmRc>(o),
{
    lemma_holds_all(object_octets(o));
    lemma_object_reads(object_octets(o), o);
}

/// What a sequence computes, as octets.
pub open spec fn kind_octets(k: SequenceKindView) -> Seq<u8> {
    match k {
        SequenceKindView::Hash { hash_alg } => seq![0u8] + octets16(hash_alg),
        SequenceKindView::Hmac { hash_alg, key } => seq![1u8] + (octets16(hash_alg) + sized(key)),
        SequenceKindView::Event => seq![2u8],
    }
}

/// A sequence as octets.
pub open spec fn sequence_octets(s: SequenceView) -> Seq<u8> {
    kind_octets(s.kind) + (sized(s.auth) + (octets32(s.buffer.len() as u32) + s.buffer))
}

/// What a sequence computes, at `at`.
pub open spec fn parse_kind(d: Seq<u8>, at: int) -> Parsed<SequenceKindView> {
    match raw_u8(d, at) {
        Err(e) => Err(e),
        Ok((k, n1)) => if k == 0 {
            match raw_u16(d, n1) {
                Err(e) => Err(e),
                Ok((hash_alg, n2)) => Ok((SequenceKindView::Hash { hash_alg }, n2)),
            }
        } else if k == 1 {
            match raw_u16(d, n1) {
                Err(e) => Err(e),
                Ok((hash_alg, n2)) => match parse_sized(d, n2, 0xFFFF) {
                    Err(e) => Err(e),
                    Ok((key, n3)) => Ok((SequenceKindView::Hmac { hash_alg, key }, n3)),
                },
            }
        } else if k == 2 {
            Ok((SequenceKindView::Event, n1))
        } else {
            Err(TpmRc(rc::BAD_CONTEXT))
        },
    }
}

/// The sequence that octets hold.
pub open spec fn parse_sequence(d: Seq<u8>) -> TpmResult<SequenceView> {
    match parse_kind(d, 0) {
        Err(e) => Err(e),
        Ok((kind, n1)) => match parse_sized(d, n1, 64) {
            Err(e) => Err(e),
            Ok((auth, n2)) => match raw_u32(d, n2) {
                Err(e) => Err(e),
                Ok((len, n3)) => if len > MAX_SEQUENCE_BYTES {
                    Err(TpmRc(rc::BAD_CONTEXT))
                } else if n3 + len > d.len() {
                    Err(TpmRc(rc::INSUFFICIENT))
                } else {
                    Ok(SequenceView { kind, auth, buffer: d.subrange(n3, n3 + len) })
                },
            },
        },
    }
}

/// Write a sequence into the body of a context.
pub fn marshal_sequence(sequence: &Sequence) -> (r: TpmResult<Vec<u8>>)
    requires
        sequence.wf(),
    ensures
        r is Ok,
        r->Ok_0@ == sequence_octets(sequence@),
{
    let mut w: Writer = Writer::new();
    match &sequence.kind {
        SequenceKind::Hash { hash_alg } => {
            w.u8(0);
            w.u16(*hash_alg);
        },
        SequenceKind::Hmac { hash_alg, key } => {
            w.u8(1);
            w.u16(*hash_alg);
            w.sized16(key.as_slice());
        },
        SequenceKind::Event => {
            w.u8(2);
        },
    }
    assert(w.written() =~= kind_octets(sequence@.kind));
    w.sized16(sequence.auth.as_slice());
    w.u32(sequence.buffer.len() as u32);
    w.bytes(sequence.buffer.as_slice());
    assert(w.written() =~= sequence_octets(sequence@));
    w.finish()
}

/// Read a sequence out of the body of a context.
pub fn unmarshal_sequence(body: &[u8]) -> (out: TpmResult<Sequence>)
    ensures
        match parse_sequence(body@) {
            Ok(v) => out is Ok && out->Ok_0@ == v && out->Ok_0.wf(),
            Err(e) => out is Err && out->Err_0 == e,
        },
{
    let mut r: Reader = Reader::new(body);
    let k: u8 = r.u8()?;
    let kind: SequenceKind = if k == 0 {
        let hash_alg: u16 = r.u16()?;
        SequenceKind::Hash { hash_alg }
    } else if k == 1 {
        let hash_alg: u16 = r.u16()?;
        let key: Vec<u8> = take_sized::<0xFFFF>(&mut r)?;
        SequenceKind::Hmac { hash_alg, key }
    } else if k == 2 {
        SequenceKind::Event
    } else {
        return Err(TpmRc(rc::BAD_CONTEXT));
    };
    let auth: Vec<u8> = take_sized::<64>(&mut r)?;
    let len: u32 = r.u32()?;
    if len > MAX_SEQUENCE_BYTES as u32 {
        return Err(TpmRc(rc::BAD_CONTEXT));
    }
    let buffer: Vec<u8> = r.take(len as usize)?;
    Ok(Sequence { kind, auth, buffer })
}

/// What a sequence computes is read where it stands.
proof fn lemma_kind_reads(d: Seq<u8>, k: SequenceKindView)
    requires
        holds(d, 0, kind_octets(k)),
        k matches SequenceKindView::Hmac { key, .. } ==> key.len() <= 0xFFFF,
    ensures
        parse_kind(d, 0) == Ok::<(SequenceKindView, int), TpmRc>((k, kind_octets(k).len() as int)),
{
    match k {
        SequenceKindView::Hash { hash_alg } => {
            lemma_holds_both(d, 0, seq![0u8], octets16(hash_alg));
            lemma_holds_u8(d, 0, 0u8);
            lemma_holds_u16(d, 1, hash_alg);
        },
        SequenceKindView::Hmac { hash_alg, key } => {
            lemma_holds_both(d, 0, seq![1u8], octets16(hash_alg) + sized(key));
            lemma_holds_both(d, 1, octets16(hash_alg), sized(key));
            lemma_holds_u8(d, 0, 1u8);
            lemma_holds_u16(d, 1, hash_alg);
            lemma_holds_sized(d, 3, key, 0xFFFF);
        },
        SequenceKindView::Event => {
            lemma_holds_u8(d, 0, 2u8);
        },
    }
}

/// A sequence is read where it stands.
proof fn lemma_sequence_reads(d: Seq<u8>, v: SequenceView)
    requires
        holds(d, 0, sequence_octets(v)),
        v.auth.len() <= 64,
        v.buffer.len() <= MAX_SEQUENCE_BYTES,
        v.kind matches SequenceKindView::Hmac { key, .. } ==> key.len() <= 0xFFFF,
    ensures
        parse_sequence(d) == Ok::<SequenceView, TpmRc>(v),
{
    let a = kind_octets(v.kind);
    let b = sized(v.auth);
    let c = octets32(v.buffer.len() as u32);
    let n1 = a.len() as int;
    let n2 = n1 + b.len();
    lemma_holds_both(d, 0, a, b + (c + v.buffer));
    lemma_holds_both(d, n1, b, c + v.buffer);
    lemma_holds_both(d, n2, c, v.buffer);
    lemma_kind_reads(d, v.kind);
    lemma_holds_sized(d, n1, v.auth, 64);
    lemma_holds_u32(d, n2, v.buffer.len() as u32);
}

/// A sequence comes back out of its context as it was.
pub proof fn law_a_sequence_context_round_trips(s: Sequence)
    requires
        s.wf(),
    ensures
        parse_sequence(sequence_octets(s@)) == Ok::<SequenceView, TpmRc>(s@),
{
    lemma_holds_all(sequence_octets(s@));
    lemma_sequence_reads(sequence_octets(s@), s@);
}

/// An object that was read can be restored again.
pub proof fn lemma_read_object_restorable(d: Seq<u8>, state_clear: bool)
    ensures
        parse_object(d, state_clear) matches Ok(o) ==> restorable(o),
{
    if parse_object(d, state_clear) is Ok {
        lemma_read_public_fits(d, 5, false);
        let n = PublicView::parse(d, 5, false)->Ok_0.1;
        lemma_read_sensitive_fits(d, n + 1);
    }
}

} // verus!
