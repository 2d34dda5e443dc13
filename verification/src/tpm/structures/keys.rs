//! The public and sensitive areas of objects.

use vstd::prelude::*;

use super::attributes::ObjectAttributes;
use super::base::{
    Tpm2b, Tpm2bDigest, Tpm2bEccParameter, Tpm2bLabel, Tpm2bPrivateKeyRsa, Tpm2bPublicKeyRsa,
    Tpm2bSensitiveData, Tpm2bSymKey,
};
use super::schemes::{lemma_scheme_reads, lemma_sym_reads, EccPoint, Scheme, SchemeUse, SymDef};
use crate::tpm::constants::{alg, curve, rc};
use crate::tpm::crypto::hash::{is_supported, supported};
use crate::tpm::error::{TpmRc, TpmResult};
use crate::tpm::marshal::{
    holds, lemma_holds_all, lemma_holds_both, lemma_holds_sized, lemma_holds_u16, lemma_holds_u32,
    parse_sized, sized, Parsed, Reader, Writer,
};
use crate::util::bytes::{be16, be32, octets16, octets32};

verus! {

/// TPMU_PUBLIC_PARMS.
#[derive(Debug, Clone, Copy, PartialEq, Eq, Structural)]
pub enum PublicParms {
    KeyedHash { scheme: Scheme },
    SymCipher { sym: SymDef },
    Rsa { symmetric: SymDef, scheme: Scheme, key_bits: u16, exponent: u32 },
    Ecc { symmetric: SymDef, scheme: Scheme, curve_id: u16, kdf: Scheme },
}

/// True for an RSA key size this TPM implements.
pub open spec fn rsa_bits(bits: u16) -> bool {
    bits == 1024 || bits == 2048 || bits == 3072 || bits == 4096
}

/// True for a curve this TPM implements.
pub open spec fn known_curve(id: u16) -> bool {
    id == curve::NIST_P256 || id == curve::NIST_P384 || id == curve::NIST_P521
}

impl PublicParms {
    /// The canonical form.
    pub open spec fn octets(self) -> Seq<u8> {
        match self {
            PublicParms::KeyedHash { scheme } => scheme.octets(),
            PublicParms::SymCipher { sym } => sym.octets(),
            PublicParms::Rsa { symmetric, scheme, key_bits, exponent } => symmetric.octets()
                + scheme.octets() + octets16(key_bits) + octets32(exponent),
            PublicParms::Ecc { symmetric, scheme, curve_id, kdf } => symmetric.octets()
                + scheme.octets() + octets16(curve_id) + kdf.octets(),
        }
    }

    /// The symmetric algorithm that protects children.
    pub open spec fn spec_symmetric(self) -> Option<SymDef> {
        match self {
            PublicParms::KeyedHash { .. } => None,
            PublicParms::SymCipher { sym } => Some(sym),
            PublicParms::Rsa { symmetric, .. } => Some(symmetric),
            PublicParms::Ecc { symmetric, .. } => Some(symmetric),
        }
    }

    /// The symmetric algorithm that protects children.
    pub fn symmetric(&self) -> (r: Option<SymDef>)
        ensures
            r == self.spec_symmetric(),
    {
        match self {
            PublicParms::KeyedHash { .. } => None,
            PublicParms::SymCipher { sym } => Some(*sym),
            PublicParms::Rsa { symmetric, .. } => Some(*symmetric),
            PublicParms::Ecc { symmetric, .. } => Some(*symmetric),
        }
    }

    /// The scheme of the key.
    pub open spec fn spec_scheme(self) -> Option<Scheme> {
        match self {
            PublicParms::KeyedHash { scheme } => Some(scheme),
            PublicParms::SymCipher { .. } => None,
            PublicParms::Rsa { scheme, .. } => Some(scheme),
            PublicParms::Ecc { scheme, .. } => Some(scheme),
        }
    }

    /// The scheme of the key.
    pub fn scheme(&self) -> (r: Option<Scheme>)
        ensures
            r == self.spec_scheme(),
    {
        match self {
            PublicParms::KeyedHash { scheme } => Some(*scheme),
            PublicParms::SymCipher { .. } => None,
            PublicParms::Rsa { scheme, .. } => Some(*scheme),
            PublicParms::Ecc { scheme, .. } => Some(*scheme),
        }
    }

    /// Write the canonical form.
    pub fn marshal(&self, w: &mut Writer)
        ensures
            final(w).written() == old(w).written() + self.octets(),
            final(w).good() == old(w).good(),
    {
        match self {
            PublicParms::KeyedHash { scheme } => scheme.marshal(w),
            PublicParms::SymCipher { sym } => sym.marshal(w),
            PublicParms::Rsa { symmetric, scheme, key_bits, exponent } => {
                symmetric.marshal(w);
                scheme.marshal(w);
                w.u16(*key_bits);
                w.u32(*exponent);
            },
            PublicParms::Ecc { symmetric, scheme, curve_id, kdf } => {
                symmetric.marshal(w);
                scheme.marshal(w);
                w.u16(*curve_id);
                kdf.marshal(w);
            },
        }
        assert(w.written() =~= old(w).written() + self.octets());
    }

    /// The parameters of an object of type `object_type` at `at`.
    pub open spec fn parse(d: Seq<u8>, at: int, object_type: u16) -> Parsed<PublicParms> {
        if object_type == alg::KEYEDHASH {
            match Scheme::parse(d, at, SchemeUse::KeyedHash) {
                Err(e) => Err(e),
                Ok((scheme, next)) => Ok((PublicParms::KeyedHash { scheme }, next)),
            }
        } else if object_type == alg::SYMCIPHER {
            match SymDef::parse(d, at, false) {
                Err(e) => Err(e),
                Ok((sym, next)) => Ok((PublicParms::SymCipher { sym }, next)),
            }
        } else if object_type == alg::RSA {
            match SymDef::parse(d, at, false) {
                Err(e) => Err(e),
                Ok((symmetric, n1)) => match Scheme::parse(d, n1, SchemeUse::Rsa) {
                    Err(e) => Err(e),
                    Ok((scheme, n2)) => if n2 + 2 > d.len() {
                        Err(TpmRc(rc::INSUFFICIENT))
                    } else if !rsa_bits(be16(d, n2)) {
                        Err(TpmRc(rc::VALUE))
                    } else if n2 + 6 > d.len() {
                        Err(TpmRc(rc::INSUFFICIENT))
                    } else {
                        Ok(
                            (
                                PublicParms::Rsa {
                                    symmetric,
                                    scheme,
                                    key_bits: be16(d, n2),
                                    exponent: be32(d, n2 + 2),
                                },
                                n2 + 6,
                            ),
                        )
                    },
                },
            }
        } else {
            match SymDef::parse(d, at, false) {
                Err(e) => Err(e),
                Ok((symmetric, n1)) => match Scheme::parse(d, n1, SchemeUse::Ecc) {
                    Err(e) => Err(e),
                    Ok((scheme, n2)) => if n2 + 2 > d.len() {
                        Err(TpmRc(rc::INSUFFICIENT))
                    } else if !known_curve(be16(d, n2)) {
                        Err(TpmRc(rc::CURVE))
                    } else {
                        match Scheme::parse(d, n2 + 2, SchemeUse::Kdf) {
                            Err(e) => Err(e),
                            Ok((kdf, n3)) => Ok(
                                (
                                    PublicParms::Ecc {
                                        symmetric,
                                        scheme,
                                        curve_id: be16(d, n2),
                                        kdf,
                                    },
                                    n3,
                                ),
                            ),
                        }
                    },
                },
            }
        }
    }

    /// Read the parameters of an object of type `object_type`.
    pub fn unmarshal(r: &mut Reader, object_type: u16) -> (out: TpmResult<PublicParms>)
        ensures
            final(r).data() == old(r).data(),
            0 <= old(r).at() <= final(r).at() <= final(r).data().len(),
            match Self::parse(old(r).data(), old(r).at(), object_type) {
                Ok((v, next)) => out == Ok::<PublicParms, TpmRc>(v) && final(r).at() == next,
                Err(e) => out == Err::<PublicParms, TpmRc>(e),
            },
    {
        if object_type == alg::KEYEDHASH {
            let scheme: Scheme = Scheme::unmarshal(r, SchemeUse::KeyedHash)?;
            return Ok(PublicParms::KeyedHash { scheme });
        }
        if object_type == alg::SYMCIPHER {
            let sym: SymDef = SymDef::unmarshal(r, false)?;
            return Ok(PublicParms::SymCipher { sym });
        }
        let symmetric: SymDef = SymDef::unmarshal(r, false)?;
        if object_type == alg::RSA {
            let scheme: Scheme = Scheme::unmarshal(r, SchemeUse::Rsa)?;
            let key_bits: u16 = r.u16()?;
            if !(key_bits == 1024 || key_bits == 2048 || key_bits == 3072 || key_bits == 4096) {
                return Err(TpmRc(rc::VALUE));
            }
            let exponent: u32 = r.u32()?;
            return Ok(PublicParms::Rsa { symmetric, scheme, key_bits, exponent });
        }
        let scheme: Scheme = Scheme::unmarshal(r, SchemeUse::Ecc)?;
        let curve_id: u16 = r.u16()?;
        if !(curve_id == curve::NIST_P256 || curve_id == curve::NIST_P384 || curve_id
            == curve::NIST_P521) {
            return Err(TpmRc(rc::CURVE));
        }
        let kdf: Scheme = Scheme::unmarshal(r, SchemeUse::Kdf)?;
        Ok(PublicParms::Ecc { symmetric, scheme, curve_id, kdf })
    }
}

/// TPMS_DERIVE.
#[derive(Debug, PartialEq, Eq)]
pub struct Derive {
    pub label: Tpm2bLabel,
    pub context: Tpm2bLabel,
}

/// TPMU_PUBLIC_ID.
#[derive(Debug, PartialEq, Eq)]
pub enum PublicId {
    Rsa(Tpm2bPublicKeyRsa),
    Ecc(EccPoint),
    KeyedHash(Tpm2bDigest),
    Sym(Tpm2bDigest),
    /// Stands in a template that a derivation parent is given.
    Derive(Derive),
}

/// What an identifier holds.
pub enum IdView {
    Rsa(Seq<u8>),
    Ecc(Seq<u8>, Seq<u8>),
    KeyedHash(Seq<u8>),
    Sym(Seq<u8>),
    Derive(Seq<u8>, Seq<u8>),
}

impl IdView {
    /// The canonical form.
    pub open spec fn octets(self) -> Seq<u8> {
        match self {
            IdView::Rsa(m) => sized(m),
            IdView::Ecc(x, y) => sized(x) + sized(y),
            IdView::KeyedHash(d) => sized(d),
            IdView::Sym(d) => sized(d),
            IdView::Derive(l, c) => sized(l) + sized(c),
        }
    }

    /// The identifier of an object of type `object_type` at `at`.
    pub open spec fn parse(d: Seq<u8>, at: int, object_type: u16, derive: bool) -> Parsed<IdView> {
        if derive {
            match parse_sized(d, at, 32) {
                Err(e) => Err(e),
                Ok((l, n1)) => match parse_sized(d, n1, 32) {
                    Err(e) => Err(e),
                    Ok((c, n2)) => Ok((IdView::Derive(l, c), n2)),
                },
            }
        } else if object_type == alg::RSA {
            match parse_sized(d, at, 512) {
                Err(e) => Err(e),
                Ok((m, next)) => Ok((IdView::Rsa(m), next)),
            }
        } else if object_type == alg::ECC {
            match EccPoint::parse(d, at) {
                Err(e) => Err(e),
                Ok((p, next)) => Ok((IdView::Ecc(p.0, p.1), next)),
            }
        } else {
            match parse_sized(d, at, 64) {
                Err(e) => Err(e),
                Ok((v, next)) => Ok(
                    (
                        if object_type == alg::KEYEDHASH {
                            IdView::KeyedHash(v)
                        } else {
                            IdView::Sym(v)
                        },
                        next,
                    ),
                ),
            }
        }
    }
}

impl View for PublicId {
    type V = IdView;

    open spec fn view(&self) -> IdView {
        match self {
            PublicId::Rsa(m) => IdView::Rsa(m@),
            PublicId::Ecc(p) => IdView::Ecc(p.x@, p.y@),
            PublicId::KeyedHash(d) => IdView::KeyedHash(d@),
            PublicId::Sym(d) => IdView::Sym(d@),
            PublicId::Derive(d) => IdView::Derive(d.label@, d.context@),
        }
    }
}

impl PublicId {
    /// Write the canonical form.
    pub fn marshal(&self, w: &mut Writer)
        ensures
            final(w).written() == old(w).written() + self@.octets(),
            final(w).good() == old(w).good(),
            self@.octets().len() <= 0x400,
    {
        match self {
            PublicId::Rsa(m) => m.marshal(w),
            PublicId::Ecc(p) => p.marshal(w),
            PublicId::KeyedHash(d) => d.marshal(w),
            PublicId::Sym(d) => d.marshal(w),
            PublicId::Derive(d) => {
                d.label.marshal(w);
                d.context.marshal(w);
            },
        }
        assert(w.written() =~= old(w).written() + self@.octets());
    }

    /// Read the identifier of an object of type `object_type`.
    pub fn unmarshal(r: &mut Reader, object_type: u16, derive: bool) -> (out: TpmResult<PublicId>)
        ensures
            final(r).data() == old(r).data(),
            0 <= old(r).at() <= final(r).at() <= final(r).data().len(),
            match IdView::parse(old(r).data(), old(r).at(), object_type, derive) {
                Ok((v, next)) => out is Ok && out->Ok_0@ == v && final(r).at() == next,
                Err(e) => out is Err && out->Err_0 == e,
            },
    {
        if derive {
            let label: Tpm2bLabel = Tpm2bLabel::unmarshal(r)?;
            let context: Tpm2bLabel = Tpm2bLabel::unmarshal(r)?;
            return Ok(PublicId::Derive(Derive { label, context }));
        }
        if object_type == alg::RSA {
            return Ok(PublicId::Rsa(Tpm2bPublicKeyRsa::unmarshal(r)?));
        }
        if object_type == alg::ECC {
            return Ok(PublicId::Ecc(EccPoint::unmarshal(r)?));
        }
        let digest: Tpm2bDigest = Tpm2bDigest::unmarshal(r)?;
        if object_type == alg::KEYEDHASH {
            Ok(PublicId::KeyedHash(digest))
        } else {
            Ok(PublicId::Sym(digest))
        }
    }
}

impl Clone for PublicId {
    fn clone(&self) -> (r: Self)
        ensures
            r@ == self@,
    {
        match self {
            PublicId::Rsa(m) => PublicId::Rsa(m.clone()),
            PublicId::Ecc(p) => PublicId::Ecc(p.clone()),
            PublicId::KeyedHash(d) => PublicId::KeyedHash(d.clone()),
            PublicId::Sym(d) => PublicId::Sym(d.clone()),
            PublicId::Derive(d) => PublicId::Derive(
                Derive { label: d.label.clone(), context: d.context.clone() },
            ),
        }
    }
}

/// TPMT_PUBLIC.
#[derive(Debug, PartialEq, Eq)]
pub struct TpmtPublic {
    pub object_type: u16,
    pub name_alg: u16,
    pub object_attributes: ObjectAttributes,
    pub auth_policy: Tpm2bDigest,
    pub parameters: PublicParms,
    pub unique: PublicId,
}

/// What a public area holds.
pub struct PublicView {
    pub object_type: u16,
    pub name_alg: u16,
    pub object_attributes: ObjectAttributes,
    pub auth_policy: Seq<u8>,
    pub parameters: PublicParms,
    pub unique: IdView,
}

impl PublicView {
    /// The canonical form.
    pub open spec fn octets(self) -> Seq<u8> {
        octets16(self.object_type) + octets16(self.name_alg) + octets32(self.object_attributes.0)
            + sized(self.auth_policy) + self.parameters.octets() + self.unique.octets()
    }

    /// The public area at `at`. The identifier of a template for a derivation
    /// parent has the form `derive` asks for.
    pub open spec fn parse(d: Seq<u8>, at: int, derive: bool) -> Parsed<PublicView> {
        if at + 2 > d.len() {
            Err(TpmRc(rc::INSUFFICIENT))
        } else {
            let t = be16(d, at);
            if !(t == alg::RSA || t == alg::ECC || t == alg::KEYEDHASH || t == alg::SYMCIPHER) {
                Err(TpmRc(rc::TYPE))
            } else if at + 4 > d.len() {
                Err(TpmRc(rc::INSUFFICIENT))
            } else if be16(d, at + 2) != alg::NULL && !supported(be16(d, at + 2)) {
                Err(TpmRc(rc::HASH))
            } else if at + 8 > d.len() {
                Err(TpmRc(rc::INSUFFICIENT))
            } else if be32(d, at + 4) & 0xFFF0_F009u32 != 0 {
                Err(TpmRc(rc::RESERVED_BITS))
            } else {
                match parse_sized(d, at + 8, 64) {
                    Err(e) => Err(e),
                    Ok((policy, n1)) => match PublicParms::parse(d, n1, t) {
                        Err(e) => Err(e),
                        Ok((parameters, n2)) => match IdView::parse(d, n2, t, derive) {
                            Err(e) => Err(e),
                            Ok((unique, n3)) => Ok(
                                (
                                    PublicView {
                                        object_type: t,
                                        name_alg: be16(d, at + 2),
                                        object_attributes: ObjectAttributes(be32(d, at + 4)),
                                        auth_policy: policy,
                                        parameters,
                                        unique,
                                    },
                                    n3,
                                ),
                            ),
                        },
                    },
                }
            }
        }
    }
}

impl View for TpmtPublic {
    type V = PublicView;

    open spec fn view(&self) -> PublicView {
        PublicView {
            object_type: self.object_type,
            name_alg: self.name_alg,
            object_attributes: self.object_attributes,
            auth_policy: self.auth_policy@,
            parameters: self.parameters,
            unique: self.unique@,
        }
    }
}

impl TpmtPublic {
    /// Write the canonical form.
    pub fn marshal(&self, w: &mut Writer)
        ensures
            final(w).written() == old(w).written() + self@.octets(),
            final(w).good() == old(w).good(),
            self@.octets().len() <= 0x800,
    {
        w.u16(self.object_type);
        w.u16(self.name_alg);
        w.u32(self.object_attributes.0);
        self.auth_policy.marshal(w);
        self.parameters.marshal(w);
        self.unique.marshal(w);
        assert(w.written() =~= old(w).written() + self@.octets());
    }

    /// The canonical form.
    pub fn to_bytes(&self) -> (r: Vec<u8>)
        ensures
            r@ == self@.octets(),
            r@.len() <= 0x800,
    {
        let mut w: Writer = Writer::new();
        self.marshal(&mut w);
        let r: Vec<u8> = w.into_vec();
        assert(r@ =~= self@.octets());
        r
    }

    /// Read a public area.
    pub fn unmarshal(r: &mut Reader, derive: bool) -> (out: TpmResult<TpmtPublic>)
        ensures
            final(r).data() == old(r).data(),
            0 <= old(r).at() <= final(r).at() <= final(r).data().len(),
            match PublicView::parse(old(r).data(), old(r).at(), derive) {
                Ok((v, next)) => out is Ok && out->Ok_0@ == v && final(r).at() == next,
                Err(e) => out is Err && out->Err_0 == e,
            },
    {
        let object_type: u16 = r.u16()?;
        if !(object_type == alg::RSA || object_type == alg::ECC || object_type == alg::KEYEDHASH
            || object_type == alg::SYMCIPHER) {
            return Err(TpmRc(rc::TYPE));
        }
        let name_alg: u16 = r.u16()?;
        if name_alg != alg::NULL && !is_supported(name_alg) {
            return Err(TpmRc(rc::HASH));
        }
        let attributes: u32 = r.u32()?;
        if attributes & 0xFFF0_F009u32 != 0 {
            return Err(TpmRc(rc::RESERVED_BITS));
        }
        let auth_policy: Tpm2bDigest = Tpm2bDigest::unmarshal(r)?;
        let parameters: PublicParms = PublicParms::unmarshal(r, object_type)?;
        let unique: PublicId = PublicId::unmarshal(r, object_type, derive)?;
        Ok(
            TpmtPublic {
                object_type,
                name_alg,
                object_attributes: ObjectAttributes(attributes),
                auth_policy,
                parameters,
                unique,
            },
        )
    }
}

impl Clone for TpmtPublic {
    fn clone(&self) -> (r: Self)
        ensures
            r@ == self@,
    {
        TpmtPublic {
            object_type: self.object_type,
            name_alg: self.name_alg,
            object_attributes: self.object_attributes,
            auth_policy: self.auth_policy.clone(),
            parameters: self.parameters,
            unique: self.unique.clone(),
        }
    }
}

/// TPMU_SENSITIVE_COMPOSITE.
#[derive(Debug, PartialEq, Eq)]
pub enum SensitiveComposite {
    Rsa(Tpm2bPrivateKeyRsa),
    Ecc(Tpm2bEccParameter),
    Bits(Tpm2bSensitiveData),
    Sym(Tpm2bSymKey),
}

impl View for SensitiveComposite {
    type V = Seq<u8>;

    open spec fn view(&self) -> Seq<u8> {
        match self {
            SensitiveComposite::Rsa(p) => p@,
            SensitiveComposite::Ecc(d) => d@,
            SensitiveComposite::Bits(b) => b@,
            SensitiveComposite::Sym(k) => k@,
        }
    }
}

/// The type of object a composite belongs to.
pub open spec fn composite_type(c: SensitiveComposite) -> u16 {
    match c {
        SensitiveComposite::Rsa(_) => alg::RSA,
        SensitiveComposite::Ecc(_) => alg::ECC,
        SensitiveComposite::Bits(_) => alg::KEYEDHASH,
        SensitiveComposite::Sym(_) => alg::SYMCIPHER,
    }
}

impl SensitiveComposite {
    /// The octets of the key or the data.
    pub fn as_slice(&self) -> (r: &[u8])
        ensures
            r@ == self@,
            r@.len() <= 256,
    {
        match self {
            SensitiveComposite::Rsa(p) => p.as_slice(),
            SensitiveComposite::Ecc(d) => d.as_slice(),
            SensitiveComposite::Bits(b) => b.as_slice(),
            SensitiveComposite::Sym(k) => k.as_slice(),
        }
    }

    /// Write the canonical form.
    pub fn marshal(&self, w: &mut Writer)
        ensures
            final(w).written() == old(w).written() + sized(self@),
            final(w).good() == old(w).good(),
            self@.len() <= 256,
    {
        match self {
            SensitiveComposite::Rsa(p) => p.marshal(w),
            SensitiveComposite::Ecc(d) => d.marshal(w),
            SensitiveComposite::Bits(b) => b.marshal(w),
            SensitiveComposite::Sym(k) => k.marshal(w),
        }
    }
}

impl Clone for SensitiveComposite {
    fn clone(&self) -> (r: Self)
        ensures
            r@ == self@,
            composite_type(r) == composite_type(*self),
    {
        match self {
            SensitiveComposite::Rsa(p) => SensitiveComposite::Rsa(p.clone()),
            SensitiveComposite::Ecc(d) => SensitiveComposite::Ecc(d.clone()),
            SensitiveComposite::Bits(b) => SensitiveComposite::Bits(b.clone()),
            SensitiveComposite::Sym(k) => SensitiveComposite::Sym(k.clone()),
        }
    }
}

/// TPMT_SENSITIVE.
#[derive(Debug, PartialEq, Eq)]
pub struct TpmtSensitive {
    pub sensitive_type: u16,
    pub auth_value: Tpm2bDigest,
    pub seed_value: Tpm2bDigest,
    pub sensitive: SensitiveComposite,
}

/// What a sensitive area holds.
pub struct SensitiveView {
    pub sensitive_type: u16,
    pub auth_value: Seq<u8>,
    pub seed_value: Seq<u8>,
    pub composite: u16,
    pub sensitive: Seq<u8>,
}

/// The largest key or data of an object of type `t`.
pub open spec fn composite_max(t: u16) -> int {
    if t == alg::RSA {
        256
    } else if t == alg::ECC {
        66
    } else if t == alg::KEYEDHASH {
        128
    } else {
        32
    }
}

impl SensitiveView {
    /// The canonical form.
    pub open spec fn octets(self) -> Seq<u8> {
        octets16(self.sensitive_type) + sized(self.auth_value) + sized(self.seed_value) + sized(
            self.sensitive,
        )
    }

    /// The sensitive area at `at`.
    pub open spec fn parse(d: Seq<u8>, at: int) -> Parsed<SensitiveView> {
        if at + 2 > d.len() {
            Err(TpmRc(rc::INSUFFICIENT))
        } else {
            let t = be16(d, at);
            if !(t == alg::RSA || t == alg::ECC || t == alg::KEYEDHASH || t == alg::SYMCIPHER) {
                Err(TpmRc(rc::TYPE))
            } else {
                match parse_sized(d, at + 2, 64) {
                    Err(e) => Err(e),
                    Ok((auth_value, n1)) => match parse_sized(d, n1, 64) {
                        Err(e) => Err(e),
                        Ok((seed_value, n2)) => match parse_sized(d, n2, composite_max(t)) {
                            Err(e) => Err(e),
                            Ok((sensitive, n3)) => Ok(
                                (
                                    SensitiveView {
                                        sensitive_type: t,
                                        auth_value,
                                        seed_value,
                                        composite: t,
                                        sensitive,
                                    },
                                    n3,
                                ),
                            ),
                        },
                    },
                }
            }
        }
    }
}

impl View for TpmtSensitive {
    type V = SensitiveView;

    open spec fn view(&self) -> SensitiveView {
        SensitiveView {
            sensitive_type: self.sensitive_type,
            auth_value: self.auth_value@,
            seed_value: self.seed_value@,
            composite: composite_type(self.sensitive),
            sensitive: self.sensitive@,
        }
    }
}

impl TpmtSensitive {
    /// Write the canonical form.
    pub fn marshal(&self, w: &mut Writer)
        ensures
            final(w).written() == old(w).written() + self@.octets(),
            final(w).good() == old(w).good(),
            self@.octets().len() <= 392,
    {
        w.u16(self.sensitive_type);
        self.auth_value.marshal(w);
        self.seed_value.marshal(w);
        self.sensitive.marshal(w);
        assert(w.written() =~= old(w).written() + self@.octets());
    }

    /// The canonical form.
    pub fn to_bytes(&self) -> (r: Vec<u8>)
        ensures
            r@ == self@.octets(),
            r@.len() <= 392,
    {
        let mut w: Writer = Writer::new();
        self.marshal(&mut w);
        let r: Vec<u8> = w.into_vec();
        assert(r@ =~= self@.octets());
        r
    }

    /// Read a sensitive area.
    pub fn unmarshal(r: &mut Reader) -> (out: TpmResult<TpmtSensitive>)
        ensures
            final(r).data() == old(r).data(),
            0 <= old(r).at() <= final(r).at() <= final(r).data().len(),
            match SensitiveView::parse(old(r).data(), old(r).at()) {
                Ok((v, next)) => out is Ok && out->Ok_0@ == v && final(r).at() == next,
                Err(e) => out is Err && out->Err_0 == e,
            },
    {
        let sensitive_type: u16 = r.u16()?;
        if !(sensitive_type == alg::RSA || sensitive_type == alg::ECC || sensitive_type
            == alg::KEYEDHASH || sensitive_type == alg::SYMCIPHER) {
            return Err(TpmRc(rc::TYPE));
        }
        let auth_value: Tpm2bDigest = Tpm2bDigest::unmarshal(r)?;
        let seed_value: Tpm2bDigest = Tpm2bDigest::unmarshal(r)?;
        let sensitive: SensitiveComposite = if sensitive_type == alg::RSA {
            SensitiveComposite::Rsa(Tpm2bPrivateKeyRsa::unmarshal(r)?)
        } else if sensitive_type == alg::ECC {
            SensitiveComposite::Ecc(Tpm2bEccParameter::unmarshal(r)?)
        } else if sensitive_type == alg::KEYEDHASH {
            SensitiveComposite::Bits(Tpm2bSensitiveData::unmarshal(r)?)
        } else {
            SensitiveComposite::Sym(Tpm2bSymKey::unmarshal(r)?)
        };
        Ok(TpmtSensitive { sensitive_type, auth_value, seed_value, sensitive })
    }
}

impl Clone for TpmtSensitive {
    fn clone(&self) -> (r: Self)
        ensures
            r@ == self@,
    {
        TpmtSensitive {
            sensitive_type: self.sensitive_type,
            auth_value: self.auth_value.clone(),
            seed_value: self.seed_value.clone(),
            sensitive: self.sensitive.clone(),
        }
    }
}

/// TPMS_SENSITIVE_CREATE.
#[derive(Debug)]
pub struct SensitiveCreate {
    pub user_auth: Tpm2bDigest,
    pub data: Tpm2bSensitiveData,
}

impl Default for SensitiveCreate {
    fn default() -> (r: Self)
        ensures
            r.user_auth@.len() == 0,
            r.data@.len() == 0,
    {
        SensitiveCreate { user_auth: Tpm2bDigest::empty(), data: Tpm2bSensitiveData::empty() }
    }
}

/// TPM2B_PUBLIC: a public area behind its size.
#[derive(Debug)]
pub struct Tpm2bPublic {
    pub public_area: TpmtPublic,
}

/// The public area behind its size at `at`, which the size has to count
/// exactly.
pub open spec fn parse_public(d: Seq<u8>, at: int) -> Parsed<PublicView> {
    match parse_sized(d, at, 0xFFFF) {
        Err(e) => Err(e),
        Ok((inner, next)) => if inner.len() == 0 {
            Err(TpmRc(rc::SIZE))
        } else {
            match PublicView::parse(inner, 0, false) {
                Err(e) => Err(e),
                Ok((p, end)) => if end != inner.len() {
                    Err(TpmRc(rc::SIZE))
                } else {
                    Ok((p, next))
                },
            }
        },
    }
}

impl Tpm2bPublic {
    /// Read a public area behind its size.
    pub fn unmarshal(r: &mut Reader) -> (out: TpmResult<Tpm2bPublic>)
        ensures
            final(r).data() == old(r).data(),
            0 <= old(r).at() <= final(r).at() <= final(r).data().len(),
            match parse_public(old(r).data(), old(r).at()) {
                Ok((v, next)) => out is Ok && out->Ok_0.public_area@ == v && final(r).at() == next,
                Err(e) => out is Err && out->Err_0 == e,
            },
    {
        let inner: Tpm2b<0xFFFF> = Tpm2b::<0xFFFF>::unmarshal(r)?;
        if inner.is_empty() {
            return Err(TpmRc(rc::SIZE));
        }
        let mut ir: Reader = Reader::new(inner.as_slice());
        let public_area: TpmtPublic = TpmtPublic::unmarshal(&mut ir, false)?;
        ir.expect_end()?;
        Ok(Tpm2bPublic { public_area })
    }
}

impl TpmtPublic {
    /// Write the public area behind its size.
    pub fn marshal_sized(&self, w: &mut Writer)
        ensures
            final(w).written() == old(w).written() + sized(self@.octets()),
            final(w).good() == old(w).good(),
    {
        let octets: Vec<u8> = self.to_bytes();
        w.sized16(octets.as_slice());
    }

    /// A public area and nothing else.
    pub open spec fn alone(d: Seq<u8>, derive: bool) -> TpmResult<PublicView> {
        match PublicView::parse(d, 0, derive) {
            Err(e) => Err(e),
            Ok((p, end)) => if end != d.len() {
                Err(TpmRc(rc::SIZE))
            } else {
                Ok(p)
            },
        }
    }

    /// Read a public area and nothing else.
    pub fn from_bytes(d: &[u8], derive: bool) -> (out: TpmResult<TpmtPublic>)
        ensures
            match Self::alone(d@, derive) {
                Ok(v) => out is Ok && out->Ok_0@ == v,
                Err(e) => out is Err && out->Err_0 == e,
            },
    {
        let mut r: Reader = Reader::new(d);
        let p: TpmtPublic = TpmtPublic::unmarshal(&mut r, derive)?;
        r.expect_end()?;
        Ok(p)
    }
}

impl TpmtSensitive {
    /// A sensitive area and nothing else.
    pub open spec fn alone(d: Seq<u8>) -> TpmResult<SensitiveView> {
        match SensitiveView::parse(d, 0) {
            Err(e) => Err(e),
            Ok((s, end)) => if end != d.len() {
                Err(TpmRc(rc::SIZE))
            } else {
                Ok(s)
            },
        }
    }

    /// Read a sensitive area and nothing else.
    pub fn from_bytes(d: &[u8]) -> (out: TpmResult<TpmtSensitive>)
        ensures
            match Self::alone(d@) {
                Ok(v) => out is Ok && out->Ok_0@ == v,
                Err(e) => out is Err && out->Err_0 == e,
            },
    {
        let mut r: Reader = Reader::new(d);
        let s: TpmtSensitive = TpmtSensitive::unmarshal(&mut r)?;
        r.expect_end()?;
        Ok(s)
    }
}

/// TPM2B_SENSITIVE_CREATE: what a caller gives a new object, behind its size.
#[derive(Debug)]
pub struct Tpm2bSensitiveCreate {
    pub sensitive: SensitiveCreate,
}

impl Default for Tpm2bSensitiveCreate {
    fn default() -> (r: Self)
        ensures
            r.sensitive.user_auth@.len() == 0,
            r.sensitive.data@.len() == 0,
    {
        Tpm2bSensitiveCreate {
            sensitive: SensitiveCreate {
                user_auth: Tpm2bDigest::empty(),
                data: Tpm2bSensitiveData::empty(),
            },
        }
    }
}

/// The authorization value and the data at `at`, behind the size of both.
pub open spec fn parse_sensitive_create(d: Seq<u8>, at: int) -> Parsed<(Seq<u8>, Seq<u8>)> {
    match parse_sized(d, at, 0xFFFF) {
        Err(e) => Err(e),
        Ok((inner, next)) => match parse_sized(inner, 0, 64) {
            Err(e) => Err(e),
            Ok((auth, n1)) => match parse_sized(inner, n1, 128) {
                Err(e) => Err(e),
                Ok((data, n2)) => if n2 != inner.len() {
                    Err(TpmRc(rc::SIZE))
                } else {
                    Ok(((auth, data), next))
                },
            },
        },
    }
}

impl Tpm2bSensitiveCreate {
    /// Read an authorization value and data behind the size of both.
    pub fn unmarshal(r: &mut Reader) -> (out: TpmResult<Tpm2bSensitiveCreate>)
        ensures
            final(r).data() == old(r).data(),
            0 <= old(r).at() <= final(r).at() <= final(r).data().len(),
            match parse_sensitive_create(old(r).data(), old(r).at()) {
                Ok((v, next)) => out is Ok && out->Ok_0.sensitive.user_auth@ == v.0
                    && out->Ok_0.sensitive.data@ == v.1 && final(r).at() == next,
                Err(e) => out is Err && out->Err_0 == e,
            },
    {
        let inner: Tpm2b<0xFFFF> = Tpm2b::<0xFFFF>::unmarshal(r)?;
        let mut ir: Reader = Reader::new(inner.as_slice());
        let user_auth: Tpm2bDigest = Tpm2bDigest::unmarshal(&mut ir)?;
        let data: Tpm2bSensitiveData = Tpm2bSensitiveData::unmarshal(&mut ir)?;
        ir.expect_end()?;
        Ok(Tpm2bSensitiveCreate { sensitive: SensitiveCreate { user_auth, data } })
    }
}

impl SensitiveView {
    /// Every part fits its field.
    pub open spec fn fits(self) -> bool {
        &&& self.sensitive_type == alg::RSA || self.sensitive_type == alg::ECC
            || self.sensitive_type == alg::KEYEDHASH || self.sensitive_type == alg::SYMCIPHER
        &&& self.composite == self.sensitive_type
        &&& self.auth_value.len() <= 64
        &&& self.seed_value.len() <= 64
        &&& self.sensitive.len() <= composite_max(self.sensitive_type)
    }
}

/// A sensitive area is read where it stands.
pub proof fn lemma_sensitive_reads(d: Seq<u8>, at: int, s: SensitiveView)
    requires
        holds(d, at, s.octets()),
        s.fits(),
    ensures
        SensitiveView::parse(d, at) == Ok::<(SensitiveView, int), TpmRc>(
            (s, at + s.octets().len()),
        ),
{
    let head = octets16(s.sensitive_type);
    let a = sized(s.auth_value);
    let b = sized(s.seed_value);
    let c = sized(s.sensitive);
    lemma_holds_both(d, at, head + a + b, c);
    lemma_holds_both(d, at, head + a, b);
    lemma_holds_both(d, at, head, a);
    lemma_holds_u16(d, at, s.sensitive_type);
    lemma_holds_sized(d, at + 2, s.auth_value, 64);
    lemma_holds_sized(d, at + 2 + a.len(), s.seed_value, 64);
    lemma_holds_sized(d, at + 2 + a.len() + b.len(), s.sensitive, composite_max(s.sensitive_type));
}

/// A sensitive area is read back as it was written.
pub proof fn law_a_sensitive_area_round_trips(s: SensitiveView)
    requires
        s.fits(),
    ensures
        TpmtSensitive::alone(s.octets()) == Ok::<SensitiveView, TpmRc>(s),
{
    lemma_holds_all(s.octets());
    lemma_sensitive_reads(s.octets(), 0, s);
}

impl PublicParms {
    /// The parameters of an object of type `object_type`, with algorithms this
    /// TPM implements.
    pub open spec fn fits(p: PublicParms, object_type: u16) -> bool {
        match p {
            PublicParms::KeyedHash { scheme } => object_type == alg::KEYEDHASH && Scheme::fits(
                scheme,
                SchemeUse::KeyedHash,
            ),
            PublicParms::SymCipher { sym } => object_type == alg::SYMCIPHER && SymDef::fits(
                sym,
                false,
            ),
            PublicParms::Rsa { symmetric, scheme, key_bits, .. } => object_type == alg::RSA
                && SymDef::fits(symmetric, false) && Scheme::fits(scheme, SchemeUse::Rsa)
                && rsa_bits(key_bits),
            PublicParms::Ecc { symmetric, scheme, curve_id, kdf } => object_type == alg::ECC
                && SymDef::fits(symmetric, false) && Scheme::fits(scheme, SchemeUse::Ecc)
                && known_curve(curve_id) && Scheme::fits(kdf, SchemeUse::Kdf),
        }
    }
}

impl IdView {
    /// The identifier of an object of type `object_type`.
    pub open spec fn fits(self, object_type: u16) -> bool {
        match self {
            IdView::Rsa(m) => object_type == alg::RSA && m.len() <= 512,
            IdView::Ecc(x, y) => object_type == alg::ECC && x.len() <= 66 && y.len() <= 66,
            IdView::KeyedHash(v) => object_type == alg::KEYEDHASH && v.len() <= 64,
            IdView::Sym(v) => object_type == alg::SYMCIPHER && v.len() <= 64,
            IdView::Derive(_, _) => false,
        }
    }
}

impl PublicView {
    /// A public area that could have been read, whatever its identifier is.
    pub open spec fn template_fits(self) -> bool {
        &&& self.object_type == alg::RSA || self.object_type == alg::ECC || self.object_type
            == alg::KEYEDHASH || self.object_type == alg::SYMCIPHER
        &&& self.name_alg == alg::NULL || supported(self.name_alg)
        &&& self.object_attributes.0 & 0xFFF0_F009u32 == 0
        &&& self.auth_policy.len() <= 64
        &&& PublicParms::fits(self.parameters, self.object_type)
    }

    /// A public area that could have been read.
    pub open spec fn fits(self) -> bool {
        self.template_fits() && self.unique.fits(self.object_type)
    }
}

proof fn lemma_parms_read(d: Seq<u8>, at: int, p: PublicParms, object_type: u16)
    requires
        holds(d, at, p.octets()),
        PublicParms::fits(p, object_type),
    ensures
        PublicParms::parse(d, at, object_type) == Ok::<(PublicParms, int), TpmRc>(
            (p, at + p.octets().len()),
        ),
{
    match p {
        PublicParms::KeyedHash { scheme } => {
            lemma_scheme_reads(d, at, scheme, SchemeUse::KeyedHash);
        },
        PublicParms::SymCipher { sym } => {
            lemma_sym_reads(d, at, sym, false);
        },
        PublicParms::Rsa { symmetric, scheme, key_bits, exponent } => {
            let a = symmetric.octets();
            let b = scheme.octets();
            let c = octets16(key_bits);
            lemma_holds_both(d, at, a + b + c, octets32(exponent));
            lemma_holds_both(d, at, a + b, c);
            lemma_holds_both(d, at, a, b);
            lemma_sym_reads(d, at, symmetric, false);
            lemma_scheme_reads(d, at + a.len(), scheme, SchemeUse::Rsa);
            lemma_holds_u16(d, at + (a + b).len(), key_bits);
            lemma_holds_u32(d, at + (a + b + c).len(), exponent);
        },
        PublicParms::Ecc { symmetric, scheme, curve_id, kdf } => {
            let a = symmetric.octets();
            let b = scheme.octets();
            let c = octets16(curve_id);
            lemma_holds_both(d, at, a + b + c, kdf.octets());
            lemma_holds_both(d, at, a + b, c);
            lemma_holds_both(d, at, a, b);
            lemma_sym_reads(d, at, symmetric, false);
            lemma_scheme_reads(d, at + a.len(), scheme, SchemeUse::Ecc);
            lemma_holds_u16(d, at + (a + b).len(), curve_id);
            lemma_scheme_reads(d, at + (a + b + c).len(), kdf, SchemeUse::Kdf);
        },
    }
}

proof fn lemma_id_reads(d: Seq<u8>, at: int, v: IdView, object_type: u16)
    requires
        holds(d, at, v.octets()),
        v.fits(object_type),
    ensures
        IdView::parse(d, at, object_type, false) == Ok::<(IdView, int), TpmRc>(
            (v, at + v.octets().len()),
        ),
{
    match v {
        IdView::Rsa(m) => {
            lemma_holds_sized(d, at, m, 512);
        },
        IdView::Ecc(x, y) => {
            lemma_holds_both(d, at, sized(x), sized(y));
            lemma_holds_sized(d, at, x, 66);
            lemma_holds_sized(d, at + sized(x).len(), y, 66);
        },
        IdView::KeyedHash(h) => {
            lemma_holds_sized(d, at, h, 64);
        },
        IdView::Sym(h) => {
            lemma_holds_sized(d, at, h, 64);
        },
        IdView::Derive(_, _) => {},
    }
}

/// A public area is read where it stands.
pub proof fn lemma_public_reads(d: Seq<u8>, at: int, p: PublicView)
    requires
        holds(d, at, p.octets()),
        p.fits(),
    ensures
        PublicView::parse(d, at, false) == Ok::<(PublicView, int), TpmRc>(
            (p, at + p.octets().len()),
        ),
{
    let a = octets16(p.object_type);
    let b = octets16(p.name_alg);
    let c = octets32(p.object_attributes.0);
    let e = sized(p.auth_policy);
    let f = p.parameters.octets();
    let g = p.unique.octets();
    lemma_holds_both(d, at, a + b + c + e + f, g);
    lemma_holds_both(d, at, a + b + c + e, f);
    lemma_holds_both(d, at, a + b + c, e);
    lemma_holds_both(d, at, a + b, c);
    lemma_holds_both(d, at, a, b);
    lemma_holds_u16(d, at, p.object_type);
    lemma_holds_u16(d, at + 2, p.name_alg);
    lemma_holds_u32(d, at + 4, p.object_attributes.0);
    lemma_holds_sized(d, at + 8, p.auth_policy, 64);
    lemma_parms_read(d, at + 8 + e.len(), p.parameters, p.object_type);
    lemma_id_reads(d, at + 8 + e.len() + f.len(), p.unique, p.object_type);
    assert(ObjectAttributes(p.object_attributes.0) == p.object_attributes);
}

/// A public area is read back as it was written.
pub proof fn law_a_public_area_round_trips(p: PublicView)
    requires
        p.fits(),
    ensures
        TpmtPublic::alone(p.octets(), false) == Ok::<PublicView, TpmRc>(p),
{
    lemma_holds_all(p.octets());
    lemma_public_reads(p.octets(), 0, p);
}

/// A public area that was read could have been read.
pub proof fn lemma_read_public_fits(d: Seq<u8>, at: int, derive: bool)
    requires
        0 <= at,
    ensures
        PublicView::parse(d, at, derive) matches Ok((p, next)) ==> at <= next && p.template_fits()
            && (!derive ==> p.fits()),
{
}

/// A sensitive area that was read could have been read.
pub proof fn lemma_read_sensitive_fits(d: Seq<u8>, at: int)
    requires
        0 <= at,
    ensures
        SensitiveView::parse(d, at) matches Ok((s, next)) ==> at <= next && s.fits(),
{
}

} // verus!
