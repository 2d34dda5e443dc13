//! The public area of an NV Index and the values it holds.

use vstd::prelude::*;

use super::attributes::NvAttributes;
use super::base::Tpm2bDigest;
use crate::tpm::constants::{ht, rc};
use crate::tpm::crypto::hash::{is_supported, supported};
use crate::tpm::error::{TpmRc, TpmResult};
use crate::tpm::marshal::{parse_sized, sized, Parsed, Reader, Writer};
use crate::util::bytes::{be16, be32, octets16, octets32};

verus! {

/// TPMS_NV_PUBLIC.
#[derive(Debug, PartialEq, Eq)]
pub struct NvPublic {
    pub nv_index: u32,
    pub name_alg: u16,
    pub attributes: NvAttributes,
    pub auth_policy: Tpm2bDigest,
    pub data_size: u16,
}

/// What a TPMS_NV_PUBLIC holds.
#[verifier::ext_equal]
pub struct NvPublicView {
    pub nv_index: u32,
    pub name_alg: u16,
    pub attributes: NvAttributes,
    pub auth_policy: Seq<u8>,
    pub data_size: u16,
}

impl NvPublicView {
    /// The canonical form.
    pub open spec fn octets(self) -> Seq<u8> {
        octets32(self.nv_index) + octets16(self.name_alg) + octets32(self.attributes.0) + sized(
            self.auth_policy,
        ) + octets16(self.data_size)
    }

    /// The public area at `at`.
    pub open spec fn parse(d: Seq<u8>, at: int) -> Parsed<NvPublicView> {
        if at + 6 > d.len() {
            Err(TpmRc(rc::INSUFFICIENT))
        } else if !supported(be16(d, at + 4)) {
            Err(TpmRc(rc::HASH))
        } else if at + 10 > d.len() {
            Err(TpmRc(rc::INSUFFICIENT))
        } else {
            match parse_sized(d, at + 10, 64) {
                Err(e) => Err(e),
                Ok((auth_policy, next)) => if next + 2 > d.len() {
                    Err(TpmRc(rc::INSUFFICIENT))
                } else {
                    Ok(
                        (
                            NvPublicView {
                                nv_index: be32(d, at),
                                name_alg: be16(d, at + 4),
                                attributes: NvAttributes(be32(d, at + 6)),
                                auth_policy,
                                data_size: be16(d, next),
                            },
                            next + 2,
                        ),
                    )
                },
            }
        }
    }
}

impl View for NvPublic {
    type V = NvPublicView;

    open spec fn view(&self) -> NvPublicView {
        NvPublicView {
            nv_index: self.nv_index,
            name_alg: self.name_alg,
            attributes: self.attributes,
            auth_policy: self.auth_policy@,
            data_size: self.data_size,
        }
    }
}

impl NvPublic {
    /// Write the canonical form.
    pub fn marshal(&self, w: &mut Writer)
        ensures
            final(w).written() == old(w).written() + self@.octets(),
            final(w).good() == old(w).good(),
    {
        w.u32(self.nv_index);
        w.u16(self.name_alg);
        w.u32(self.attributes.0);
        self.auth_policy.marshal(w);
        w.u16(self.data_size);
        assert(w.written() =~= old(w).written() + self@.octets());
    }

    /// The canonical form.
    pub fn to_bytes(&self) -> (r: Vec<u8>)
        ensures
            r@ == self@.octets(),
            r@.len() <= 0x100,
    {
        let n: usize = self.auth_policy.len();
        let mut w = Writer::new();
        self.marshal(&mut w);
        assert(w.written() =~= self@.octets());
        assert(n == self.auth_policy@.len());
        w.into_vec()
    }

    /// Read the canonical form.
    pub fn unmarshal(r: &mut Reader) -> (out: TpmResult<NvPublic>)
        ensures
            final(r).data() == old(r).data(),
            0 <= old(r).at() <= final(r).at() <= final(r).data().len(),
            match NvPublicView::parse(old(r).data(), old(r).at()) {
                Ok((v, next)) => out is Ok && out->Ok_0@ == v && final(r).at() == next,
                Err(e) => out is Err && out->Err_0 == e,
            },
    {
        let nv_index: u32 = r.u32()?;
        let name_alg: u16 = r.u16()?;
        if !is_supported(name_alg) {
            return Err(TpmRc(rc::HASH));
        }
        let attributes: u32 = r.u32()?;
        let auth_policy = Tpm2bDigest::unmarshal(r)?;
        let data_size: u16 = r.u16()?;
        Ok(
            NvPublic {
                nv_index,
                name_alg,
                attributes: NvAttributes(attributes),
                auth_policy,
                data_size,
            },
        )
    }

    /// The public area in a TPM2B at `at`, which holds nothing else.
    pub open spec fn parse_2b(d: Seq<u8>, at: int) -> Parsed<NvPublicView> {
        match parse_sized(d, at, 0xFFFF) {
            Err(e) => Err(e),
            Ok((body, next)) => match NvPublicView::parse(body, 0) {
                Err(e) => Err(e),
                Ok((v, end)) => if end == body.len() {
                    Ok((v, next))
                } else {
                    Err(TpmRc(rc::SIZE))
                },
            },
        }
    }

    /// Read a TPM2B_NV_PUBLIC.
    pub fn unmarshal_2b(r: &mut Reader) -> (out: TpmResult<NvPublic>)
        ensures
            final(r).data() == old(r).data(),
            0 <= old(r).at() <= final(r).at() <= final(r).data().len(),
            match Self::parse_2b(old(r).data(), old(r).at()) {
                Ok((v, next)) => out is Ok && out->Ok_0@ == v && final(r).at() == next,
                Err(e) => out is Err && out->Err_0 == e,
            },
    {
        let size: u16 = r.u16()?;
        let body: Vec<u8> = r.take(size as usize)?;
        let mut inner = Reader::new(body.as_slice());
        let public = NvPublic::unmarshal(&mut inner)?;
        inner.expect_end()?;
        Ok(public)
    }

    /// Write a TPM2B_NV_PUBLIC.
    pub fn marshal_2b(&self, w: &mut Writer)
        ensures
            final(w).written() == old(w).written() + sized(self@.octets()),
            final(w).good() == old(w).good(),
    {
        let body: Vec<u8> = self.to_bytes();
        w.sized16(body.as_slice());
    }
}

impl Clone for NvPublic {
    fn clone(&self) -> (r: Self)
        ensures
            r@ == self@,
    {
        NvPublic {
            nv_index: self.nv_index,
            name_alg: self.name_alg,
            attributes: self.attributes,
            auth_policy: self.auth_policy.clone(),
            data_size: self.data_size,
        }
    }
}

/// TPMT_NV_PUBLIC_2.
#[derive(Debug)]
pub enum NvPublic2 {
    Index(NvPublic),
    /// An Index kept outside of the TPM, which this one does not implement.
    External,
    Permanent(NvPublic),
}

/// What a TPMT_NV_PUBLIC_2 holds.
pub enum NvPublic2View {
    Index(NvPublicView),
    External,
    Permanent(NvPublicView),
}

impl View for NvPublic2 {
    type V = NvPublic2View;

    open spec fn view(&self) -> NvPublic2View {
        match self {
            NvPublic2::Index(p) => NvPublic2View::Index(p@),
            NvPublic2::External => NvPublic2View::External,
            NvPublic2::Permanent(p) => NvPublic2View::Permanent(p@),
        }
    }
}

impl NvPublic2View {
    /// The body of a TPM2B_NV_PUBLIC_2. What an external Index holds is not
    /// looked at.
    pub open spec fn parse_body(d: Seq<u8>) -> TpmResult<NvPublic2View> {
        if d.len() < 1 {
            Err(TpmRc(rc::INSUFFICIENT))
        } else if d[0] == ht::EXTERNAL_NV {
            Ok(NvPublic2View::External)
        } else if d[0] != ht::NV_INDEX && d[0] != ht::PERMANENT_NV {
            Err(TpmRc(rc::VALUE))
        } else {
            match NvPublicView::parse(d, 1) {
                Err(e) => Err(e),
                Ok((v, end)) => if end != d.len() {
                    Err(TpmRc(rc::SIZE))
                } else if d[0] == ht::NV_INDEX {
                    Ok(NvPublic2View::Index(v))
                } else {
                    Ok(NvPublic2View::Permanent(v))
                },
            }
        }
    }

    /// The TPM2B_NV_PUBLIC_2 at `at`.
    pub open spec fn parse_2b(d: Seq<u8>, at: int) -> Parsed<NvPublic2View> {
        match parse_sized(d, at, 0xFFFF) {
            Err(e) => Err(e),
            Ok((body, next)) => match NvPublic2View::parse_body(body) {
                Err(e) => Err(e),
                Ok(v) => Ok((v, next)),
            },
        }
    }
}

impl NvPublic2 {
    /// Read a TPM2B_NV_PUBLIC_2.
    pub fn unmarshal_2b(r: &mut Reader) -> (out: TpmResult<NvPublic2>)
        ensures
            final(r).data() == old(r).data(),
            0 <= old(r).at() <= final(r).at() <= final(r).data().len(),
            match NvPublic2View::parse_2b(old(r).data(), old(r).at()) {
                Ok((v, next)) => out is Ok && out->Ok_0@ == v && final(r).at() == next,
                Err(e) => out is Err && out->Err_0 == e,
            },
    {
        let size: u16 = r.u16()?;
        let body: Vec<u8> = r.take(size as usize)?;
        let mut inner = Reader::new(body.as_slice());
        let kind: u8 = inner.u8()?;
        if kind == ht::EXTERNAL_NV {
            return Ok(NvPublic2::External);
        }
        if kind != ht::NV_INDEX && kind != ht::PERMANENT_NV {
            return Err(TpmRc(rc::VALUE));
        }
        let public = NvPublic::unmarshal(&mut inner)?;
        inner.expect_end()?;
        if kind == ht::NV_INDEX {
            Ok(NvPublic2::Index(public))
        } else {
            Ok(NvPublic2::Permanent(public))
        }
    }
}

/// TPMS_NV_PIN_COUNTER_PARAMETERS.
#[derive(Debug, Clone, Copy, PartialEq, Eq, Structural)]
pub struct NvPinCounterParameters {
    pub pin_count: u32,
    pub pin_limit: u32,
}

impl NvPinCounterParameters {
    /// The canonical form.
    pub open spec fn octets(self) -> Seq<u8> {
        octets32(self.pin_count) + octets32(self.pin_limit)
    }
}

} // verus!
