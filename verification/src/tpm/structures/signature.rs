//! Signatures and tickets.

use vstd::prelude::*;

use super::base::{Tpm2bDigest, Tpm2bEccParameter, Tpm2bPublicKeyRsa, TpmtHa};
use crate::tpm::constants::{alg, rc, rh, st};
use crate::tpm::crypto::hash::{is_supported, supported};
use crate::tpm::engine::hierarchy::is_hierarchy;
use crate::tpm::error::{TpmRc, TpmResult};
use crate::tpm::marshal::{parse_sized, sized, Parsed, Reader, Writer};
use crate::util::bytes::{be16, be32, octets16, octets32};

verus! {

/// TPMS_SIGNATURE_RSA.
#[derive(Debug)]
pub struct SignatureRsa {
    pub hash: u16,
    pub sig: Tpm2bPublicKeyRsa,
}

/// TPMS_SIGNATURE_ECC.
#[derive(Debug)]
pub struct SignatureEcc {
    pub hash: u16,
    pub signature_r: Tpm2bEccParameter,
    pub signature_s: Tpm2bEccParameter,
}

/// TPMU_SIGNATURE.
#[derive(Debug)]
pub enum SignatureValue {
    Rsa(SignatureRsa),
    Ecc(SignatureEcc),
    Hmac(TpmtHa),
    /// Nothing is signed.
    Empty,
}

/// What a signature holds.
pub enum SignatureView {
    Rsa { hash: u16, sig: Seq<u8> },
    Ecc { hash: u16, r: Seq<u8>, s: Seq<u8> },
    Hmac { hash: u16, digest: Seq<u8> },
    Empty,
}

impl SignatureView {
    /// The canonical form.
    pub open spec fn octets(self) -> Seq<u8> {
        match self {
            SignatureView::Rsa { hash, sig } => octets16(hash) + sized(sig),
            SignatureView::Ecc { hash, r, s } => octets16(hash) + sized(r) + sized(s),
            SignatureView::Hmac { hash, digest } => octets16(hash) + digest,
            SignatureView::Empty => Seq::empty(),
        }
    }

    /// The hash the signature is over.
    pub open spec fn hash_alg(self) -> Option<u16> {
        match self {
            SignatureView::Rsa { hash, .. } => Some(hash),
            SignatureView::Ecc { hash, .. } => Some(hash),
            SignatureView::Hmac { hash, .. } => Some(hash),
            SignatureView::Empty => None,
        }
    }
}

/// TPMT_SIGNATURE.
#[derive(Debug)]
pub struct TpmtSignature {
    pub sig_alg: u16,
    pub signature: SignatureValue,
}

impl View for SignatureValue {
    type V = SignatureView;

    open spec fn view(&self) -> SignatureView {
        match self {
            SignatureValue::Rsa(s) => SignatureView::Rsa { hash: s.hash, sig: s.sig@ },
            SignatureValue::Ecc(s) => SignatureView::Ecc {
                hash: s.hash,
                r: s.signature_r@,
                s: s.signature_s@,
            },
            SignatureValue::Hmac(h) => SignatureView::Hmac {
                hash: h.hash_alg,
                digest: h.digest@,
            },
            SignatureValue::Empty => SignatureView::Empty,
        }
    }
}

/// True for a scheme whose signature is one number.
pub open spec fn rsa_scheme(scheme: u16) -> bool {
    scheme == alg::RSASSA || scheme == alg::RSAPSS
}

/// True for a scheme whose signature is two numbers.
pub open spec fn ecc_scheme(scheme: u16) -> bool {
    scheme == alg::ECDSA || scheme == alg::ECSCHNORR
}

/// A hash algorithm at `at`.
pub open spec fn parse_hash(d: Seq<u8>, at: int) -> Parsed<u16> {
    if at + 2 > d.len() {
        Err(TpmRc(rc::INSUFFICIENT))
    } else if !supported(be16(d, at)) {
        Err(TpmRc(rc::HASH))
    } else {
        Ok((be16(d, at), at + 2))
    }
}

/// Read a hash algorithm.
pub fn read_hash(r: &mut Reader) -> (out: TpmResult<u16>)
    ensures
        final(r).data() == old(r).data(),
        0 <= old(r).at() <= final(r).at() <= final(r).data().len(),
        match parse_hash(old(r).data(), old(r).at()) {
            Ok((v, next)) => out == Ok::<u16, TpmRc>(v) && final(r).at() == next && supported(v),
            Err(e) => out == Err::<u16, TpmRc>(e),
        },
{
    let h: u16 = r.u16()?;
    if !is_supported(h) {
        return Err(TpmRc(rc::HASH));
    }
    Ok(h)
}

impl TpmtSignature {
    /// True when the hash is one this TPM implements.
    pub open spec fn wf(&self) -> bool {
        self.signature@.hash_alg() matches Some(h) ==> supported(h)
    }

    /// The canonical form.
    pub open spec fn octets(&self) -> Seq<u8> {
        octets16(self.sig_alg) + self.signature@.octets()
    }

    /// No signature.
    pub fn null() -> (r: TpmtSignature)
        ensures
            r.sig_alg == alg::NULL,
            r.signature@ == SignatureView::Empty,
            r.wf(),
    {
        TpmtSignature { sig_alg: alg::NULL, signature: SignatureValue::Empty }
    }

    /// True for no signature.
    pub fn is_null(&self) -> (r: bool)
        ensures
            r == (self.sig_alg == alg::NULL),
    {
        self.sig_alg == alg::NULL
    }

    /// The hash the signature is over.
    pub fn hash_alg(&self) -> (r: Option<u16>)
        ensures
            r == self.signature@.hash_alg(),
    {
        match &self.signature {
            SignatureValue::Rsa(s) => Some(s.hash),
            SignatureValue::Ecc(s) => Some(s.hash),
            SignatureValue::Hmac(h) => Some(h.hash_alg),
            SignatureValue::Empty => None,
        }
    }

    /// Write the canonical form.
    pub fn marshal(&self, w: &mut Writer)
        ensures
            final(w).written() == old(w).written() + self.octets(),
            final(w).good() == old(w).good(),
    {
        w.u16(self.sig_alg);
        match &self.signature {
            SignatureValue::Rsa(s) => {
                w.u16(s.hash);
                s.sig.marshal(w);
            },
            SignatureValue::Ecc(s) => {
                w.u16(s.hash);
                s.signature_r.marshal(w);
                s.signature_s.marshal(w);
            },
            SignatureValue::Hmac(h) => h.marshal(w),
            SignatureValue::Empty => {},
        }
        assert(w.written() =~= old(w).written() + self.octets());
    }

    /// The signature at `at`.
    pub open spec fn parse(d: Seq<u8>, at: int) -> Parsed<(u16, SignatureView)> {
        if at + 2 > d.len() {
            Err(TpmRc(rc::INSUFFICIENT))
        } else {
            let scheme = be16(d, at);
            if rsa_scheme(scheme) {
                match parse_hash(d, at + 2) {
                    Err(e) => Err(e),
                    Ok((hash, n1)) => match parse_sized(d, n1, 512) {
                        Err(e) => Err(e),
                        Ok((sig, n2)) => Ok(((scheme, SignatureView::Rsa { hash, sig }), n2)),
                    },
                }
            } else if ecc_scheme(scheme) {
                match parse_hash(d, at + 2) {
                    Err(e) => Err(e),
                    Ok((hash, n1)) => match parse_sized(d, n1, 66) {
                        Err(e) => Err(e),
                        Ok((r, n2)) => match parse_sized(d, n2, 66) {
                            Err(e) => Err(e),
                            Ok((s, n3)) => Ok(((scheme, SignatureView::Ecc { hash, r, s }), n3)),
                        },
                    },
                }
            } else if scheme == alg::HMAC {
                match TpmtHa::parse(d, at + 2, false) {
                    Err(e) => Err(e),
                    Ok((h, next)) => Ok(
                        ((scheme, SignatureView::Hmac { hash: h.0, digest: h.1 }), next),
                    ),
                }
            } else {
                Err(TpmRc(rc::SCHEME))
            }
        }
    }

    /// Read a signature.
    pub fn unmarshal(r: &mut Reader) -> (out: TpmResult<TpmtSignature>)
        ensures
            final(r).data() == old(r).data(),
            0 <= old(r).at() <= final(r).at() <= final(r).data().len(),
            match Self::parse(old(r).data(), old(r).at()) {
                Ok((v, next)) => out is Ok && out->Ok_0.sig_alg == v.0 && out->Ok_0.signature@
                    == v.1 && out->Ok_0.wf() && final(r).at() == next,
                Err(e) => out is Err && out->Err_0 == e,
            },
    {
        let sig_alg: u16 = r.u16()?;
        if sig_alg == alg::RSASSA || sig_alg == alg::RSAPSS {
            let hash: u16 = read_hash(r)?;
            let sig: Tpm2bPublicKeyRsa = Tpm2bPublicKeyRsa::unmarshal(r)?;
            return Ok(
                TpmtSignature { sig_alg, signature: SignatureValue::Rsa(SignatureRsa { hash, sig }) },
            );
        }
        if sig_alg == alg::ECDSA || sig_alg == alg::ECSCHNORR {
            let hash: u16 = read_hash(r)?;
            let signature_r: Tpm2bEccParameter = Tpm2bEccParameter::unmarshal(r)?;
            let signature_s: Tpm2bEccParameter = Tpm2bEccParameter::unmarshal(r)?;
            return Ok(
                TpmtSignature {
                    sig_alg,
                    signature: SignatureValue::Ecc(SignatureEcc { hash, signature_r, signature_s }),
                },
            );
        }
        if sig_alg == alg::HMAC {
            let ha: TpmtHa = TpmtHa::unmarshal(r, false)?;
            return Ok(TpmtSignature { sig_alg, signature: SignatureValue::Hmac(ha) });
        }
        Err(TpmRc(rc::SCHEME))
    }
}

/// A ticket: proof that this TPM did something.
#[derive(Debug)]
pub struct Ticket {
    pub tag: u16,
    pub hierarchy: u32,
    pub digest: Tpm2bDigest,
}

/// What a ticket holds.
pub struct TicketView {
    pub tag: u16,
    pub hierarchy: u32,
    pub digest: Seq<u8>,
}

impl TicketView {
    /// The canonical form.
    pub open spec fn octets(self) -> Seq<u8> {
        octets16(self.tag) + octets32(self.hierarchy) + sized(self.digest)
    }

    /// A ticket that proves nothing.
    pub open spec fn null(tag: u16) -> TicketView {
        TicketView { tag, hierarchy: rh::NULL, digest: Seq::empty() }
    }

    /// The ticket at `at`, which must have one of two tags.
    pub open spec fn parse(d: Seq<u8>, at: int, a: u16, b: u16) -> Parsed<TicketView> {
        if at + 2 > d.len() {
            Err(TpmRc(rc::INSUFFICIENT))
        } else if be16(d, at) != a && be16(d, at) != b {
            Err(TpmRc(rc::TAG))
        } else if at + 6 > d.len() {
            Err(TpmRc(rc::INSUFFICIENT))
        } else if !is_hierarchy(be32(d, at + 2)) {
            Err(TpmRc(rc::VALUE))
        } else {
            match parse_sized(d, at + 6, 64) {
                Err(e) => Err(e),
                Ok((digest, next)) => Ok(
                    (
                        TicketView { tag: be16(d, at), hierarchy: be32(d, at + 2), digest },
                        next,
                    ),
                ),
            }
        }
    }
}

impl View for Ticket {
    type V = TicketView;

    open spec fn view(&self) -> TicketView {
        TicketView { tag: self.tag, hierarchy: self.hierarchy, digest: self.digest@ }
    }
}

impl Ticket {
    /// A ticket that proves nothing.
    pub fn null(tag: u16) -> (r: Ticket)
        ensures
            r@ == TicketView::null(tag),
    {
        Ticket { tag, hierarchy: rh::NULL, digest: Tpm2bDigest::empty() }
    }

    /// Write the canonical form.
    pub fn marshal(&self, w: &mut Writer)
        ensures
            final(w).written() == old(w).written() + self@.octets(),
            final(w).good() == old(w).good(),
    {
        w.u16(self.tag);
        w.u32(self.hierarchy);
        self.digest.marshal(w);
        assert(w.written() =~= old(w).written() + self@.octets());
    }

    /// Read a ticket that has one of two tags.
    pub fn unmarshal_tagged(r: &mut Reader, a: u16, b: u16) -> (out: TpmResult<Ticket>)
        ensures
            final(r).data() == old(r).data(),
            0 <= old(r).at() <= final(r).at() <= final(r).data().len(),
            match TicketView::parse(old(r).data(), old(r).at(), a, b) {
                Ok((v, next)) => out is Ok && out->Ok_0@ == v && final(r).at() == next,
                Err(e) => out is Err && out->Err_0 == e,
            },
    {
        let tag: u16 = r.u16()?;
        if tag != a && tag != b {
            return Err(TpmRc(rc::TAG));
        }
        let hierarchy: u32 = r.u32()?;
        if !is_hierarchy(hierarchy) {
            return Err(TpmRc(rc::VALUE));
        }
        let digest: Tpm2bDigest = Tpm2bDigest::unmarshal(r)?;
        Ok(Ticket { tag, hierarchy, digest })
    }
}

/// TPMT_TK_VERIFIED: proof that this TPM verified a signature. Its tag says
/// over what, and only one over a digest names the hash that made it.
#[derive(Debug)]
pub struct VerifiedTicket {
    pub tag: u16,
    pub hierarchy: u32,
    pub digest_alg: Option<u16>,
    pub hmac: Tpm2bDigest,
}

/// What a verification ticket holds.
pub struct VerifiedView {
    pub tag: u16,
    pub hierarchy: u32,
    pub digest_alg: Option<u16>,
    pub hmac: Seq<u8>,
}

/// True for the three tags of a verification ticket.
pub open spec fn verified_tag(tag: u16) -> bool {
    tag == st::VERIFIED || tag == st::DIGEST_VERIFIED || tag == st::MESSAGE_VERIFIED
}

impl VerifiedView {
    /// The canonical form.
    pub open spec fn octets(self) -> Seq<u8> {
        octets16(self.tag) + octets32(self.hierarchy) + match self.digest_alg {
            Some(a) => octets16(a),
            None => Seq::empty(),
        } + sized(self.hmac)
    }

    /// The ticket at `at`.
    pub open spec fn parse(d: Seq<u8>, at: int) -> Parsed<VerifiedView> {
        if at + 2 > d.len() {
            Err(TpmRc(rc::INSUFFICIENT))
        } else if !verified_tag(be16(d, at)) {
            Err(TpmRc(rc::TAG))
        } else if at + 6 > d.len() {
            Err(TpmRc(rc::INSUFFICIENT))
        } else if !is_hierarchy(be32(d, at + 2)) {
            Err(TpmRc(rc::VALUE))
        } else {
            let tag = be16(d, at);
            let hierarchy = be32(d, at + 2);
            if tag == st::DIGEST_VERIFIED {
                match parse_hash(d, at + 6) {
                    Err(e) => Err(e),
                    Ok((h, n1)) => match parse_sized(d, n1, 64) {
                        Err(e) => Err(e),
                        Ok((hmac, n2)) => Ok(
                            (VerifiedView { tag, hierarchy, digest_alg: Some(h), hmac }, n2),
                        ),
                    },
                }
            } else {
                match parse_sized(d, at + 6, 64) {
                    Err(e) => Err(e),
                    Ok((hmac, n2)) => Ok(
                        (VerifiedView { tag, hierarchy, digest_alg: None, hmac }, n2),
                    ),
                }
            }
        }
    }
}

impl View for VerifiedTicket {
    type V = VerifiedView;

    open spec fn view(&self) -> VerifiedView {
        VerifiedView {
            tag: self.tag,
            hierarchy: self.hierarchy,
            digest_alg: self.digest_alg,
            hmac: self.hmac@,
        }
    }
}

impl VerifiedTicket {
    /// A ticket that proves nothing.
    pub fn null() -> (r: VerifiedTicket)
        ensures
            r@ == (VerifiedView {
                tag: st::VERIFIED,
                hierarchy: rh::NULL,
                digest_alg: None,
                hmac: Seq::empty(),
            }),
    {
        VerifiedTicket {
            tag: st::VERIFIED,
            hierarchy: rh::NULL,
            digest_alg: None,
            hmac: Tpm2bDigest::empty(),
        }
    }

    /// Write the canonical form.
    pub fn marshal(&self, w: &mut Writer)
        ensures
            final(w).written() == old(w).written() + self@.octets(),
            final(w).good() == old(w).good(),
    {
        w.u16(self.tag);
        w.u32(self.hierarchy);
        match self.digest_alg {
            Some(a) => w.u16(a),
            None => {},
        }
        self.hmac.marshal(w);
        assert(w.written() =~= old(w).written() + self@.octets());
    }

    /// Read a ticket.
    pub fn unmarshal(r: &mut Reader) -> (out: TpmResult<VerifiedTicket>)
        ensures
            final(r).data() == old(r).data(),
            0 <= old(r).at() <= final(r).at() <= final(r).data().len(),
            match VerifiedView::parse(old(r).data(), old(r).at()) {
                Ok((v, next)) => out is Ok && out->Ok_0@ == v && final(r).at() == next,
                Err(e) => out is Err && out->Err_0 == e,
            },
    {
        let tag: u16 = r.u16()?;
        if tag != st::VERIFIED && tag != st::DIGEST_VERIFIED && tag != st::MESSAGE_VERIFIED {
            return Err(TpmRc(rc::TAG));
        }
        let hierarchy: u32 = r.u32()?;
        if !is_hierarchy(hierarchy) {
            return Err(TpmRc(rc::VALUE));
        }
        let digest_alg: Option<u16> = if tag == st::DIGEST_VERIFIED {
            Some(read_hash(r)?)
        } else {
            None
        };
        let hmac: Tpm2bDigest = Tpm2bDigest::unmarshal(r)?;
        Ok(VerifiedTicket { tag, hierarchy, digest_alg, hmac })
    }
}

} // verus!
