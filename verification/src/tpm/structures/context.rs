//! Saved contexts.

use vstd::prelude::*;

use super::base::Tpm2bContextData;
use crate::tpm::commands::wire::{raw_u32, raw_u64};
use crate::tpm::constants::rc;
use crate::tpm::engine::hierarchy::is_hierarchy;
use crate::tpm::error::{TpmRc, TpmResult};
use crate::tpm::marshal::{
    holds, lemma_holds_all, lemma_holds_both, lemma_holds_sized, lemma_holds_u32, lemma_holds_u64,
    parse_sized, sized, Parsed, Reader, Writer,
};
use crate::util::bytes::{octets32, octets64};

verus! {

/// TPMS_CONTEXT.
#[derive(Debug)]
pub struct Context {
    pub sequence: u64,
    pub saved_handle: u32,
    pub hierarchy: u32,
    pub context_blob: Tpm2bContextData,
}

/// What a saved context holds.
pub struct ContextView {
    pub sequence: u64,
    pub saved_handle: u32,
    pub hierarchy: u32,
    pub blob: Seq<u8>,
}

impl ContextView {
    /// The canonical form.
    pub open spec fn octets(self) -> Seq<u8> {
        octets64(self.sequence) + octets32(self.saved_handle) + octets32(self.hierarchy) + sized(
            self.blob,
        )
    }

    /// The context at `at`.
    pub open spec fn parse(d: Seq<u8>, at: int) -> Parsed<ContextView> {
        match raw_u64(d, at) {
            Err(e) => Err(e),
            Ok((sequence, n1)) => match raw_u32(d, n1) {
                Err(e) => Err(e),
                Ok((saved_handle, n2)) => match raw_u32(d, n2) {
                    Err(e) => Err(e),
                    Ok((hierarchy, n3)) => if !is_hierarchy(hierarchy) {
                        Err(TpmRc(rc::VALUE))
                    } else {
                        match parse_sized(d, n3, 0xFFFF) {
                            Err(e) => Err(e),
                            Ok((blob, n4)) => Ok(
                                (ContextView { sequence, saved_handle, hierarchy, blob }, n4),
                            ),
                        }
                    },
                },
            },
        }
    }
}

impl View for Context {
    type V = ContextView;

    open spec fn view(&self) -> ContextView {
        ContextView {
            sequence: self.sequence,
            saved_handle: self.saved_handle,
            hierarchy: self.hierarchy,
            blob: self.context_blob@,
        }
    }
}

impl Context {
    /// Write the canonical form.
    pub fn marshal(&self, w: &mut Writer)
        ensures
            final(w).written() == old(w).written() + self@.octets(),
            final(w).good() == old(w).good(),
    {
        w.u64(self.sequence);
        w.u32(self.saved_handle);
        w.u32(self.hierarchy);
        self.context_blob.marshal(w);
        assert(w.written() =~= old(w).written() + self@.octets());
    }

    /// Read a context.
    pub fn unmarshal(r: &mut Reader) -> (out: TpmResult<Context>)
        ensures
            final(r).data() == old(r).data(),
            0 <= old(r).at() <= final(r).at() <= final(r).data().len(),
            match ContextView::parse(old(r).data(), old(r).at()) {
                Ok((v, next)) => out is Ok && out->Ok_0@ == v && final(r).at() == next,
                Err(e) => out is Err && out->Err_0 == e,
            },
    {
        let sequence: u64 = r.u64()?;
        let saved_handle: u32 = r.u32()?;
        let hierarchy: u32 = r.u32()?;
        if !is_hierarchy(hierarchy) {
            return Err(TpmRc(rc::VALUE));
        }
        let context_blob: Tpm2bContextData = Tpm2bContextData::unmarshal(r)?;
        Ok(Context { sequence, saved_handle, hierarchy, context_blob })
    }
}

impl Clone for Context {
    fn clone(&self) -> (r: Self)
        ensures
            r@ == self@,
    {
        Context {
            sequence: self.sequence,
            saved_handle: self.saved_handle,
            hierarchy: self.hierarchy,
            context_blob: self.context_blob.clone(),
        }
    }
}

/// A context is read where it stands.
proof fn lemma_context_reads(d: Seq<u8>, c: ContextView)
    requires
        holds(d, 0, c.octets()),
        is_hierarchy(c.hierarchy),
        c.blob.len() <= 0xFFFF,
    ensures
        ContextView::parse(d, 0) == Ok::<(ContextView, int), TpmRc>((c, c.octets().len() as int)),
{
    let e = octets64(c.sequence);
    let f = octets32(c.saved_handle);
    let g = octets32(c.hierarchy);
    lemma_holds_both(d, 0, e + f + g, sized(c.blob));
    lemma_holds_both(d, 0, e + f, g);
    lemma_holds_both(d, 0, e, f);
    lemma_holds_u64(d, 0, c.sequence);
    lemma_holds_u32(d, 8, c.saved_handle);
    lemma_holds_u32(d, 12, c.hierarchy);
    lemma_holds_sized(d, 16, c.blob, 0xFFFF);
}

/// A context is read back as it was written.
pub proof fn law_a_context_round_trips(c: ContextView)
    requires
        is_hierarchy(c.hierarchy),
        c.blob.len() <= 0xFFFF,
    ensures
        ContextView::parse(c.octets(), 0) == Ok::<(ContextView, int), TpmRc>(
            (c, c.octets().len() as int),
        ),
{
    lemma_holds_all(c.octets());
    lemma_context_reads(c.octets(), c);
}

/// The integrity value and the encrypted body of a context, and nothing else.
pub open spec fn context_data(d: Seq<u8>) -> TpmResult<(Seq<u8>, Seq<u8>)> {
    match parse_sized(d, 0, 64) {
        Err(e) => Err(e),
        Ok((integrity, n1)) => match parse_sized(d, n1, 0xFFFF) {
            Err(e) => Err(e),
            Ok((encrypted, n2)) => if n2 != d.len() {
                Err(TpmRc(rc::SIZE))
            } else {
                Ok((integrity, encrypted))
            },
        },
    }
}

/// The parts of a context come apart as they were put together.
pub proof fn lemma_context_data(integrity: Seq<u8>, encrypted: Seq<u8>)
    requires
        integrity.len() <= 64,
        encrypted.len() <= 0xFFFF,
    ensures
        context_data(sized(integrity) + sized(encrypted)) == Ok::<(Seq<u8>, Seq<u8>), TpmRc>(
            (integrity, encrypted),
        ),
{
    let d = sized(integrity) + sized(encrypted);
    lemma_holds_all(d);
    lemma_holds_both(d, 0, sized(integrity), sized(encrypted));
    lemma_holds_sized(d, 0, integrity, 64);
    lemma_holds_sized(d, 2 + integrity.len() as int, encrypted, 0xFFFF);
}

} // verus!
