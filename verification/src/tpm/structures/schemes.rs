//! Symmetric definitions, schemes and curve points.

use vstd::prelude::*;

use super::base::{Tpm2b, Tpm2bEccParameter};
use crate::tpm::constants::{alg, rc};
use crate::tpm::crypto::hash::{is_supported, supported};
use crate::tpm::error::{TpmRc, TpmResult};
use crate::tpm::marshal::{
    holds, lemma_holds_all, lemma_holds_both, lemma_holds_sized, lemma_holds_u16, parse_sized,
    sized, Parsed, Reader, Writer,
};
use crate::util::bytes::{be16, octets16};

verus! {

/// TPMT_SYM_DEF and TPMT_SYM_DEF_OBJECT.
///
/// For XOR obfuscation `key_bits` holds the hash algorithm and there is no
/// mode.
#[derive(Debug, Clone, Copy, PartialEq, Eq, Structural)]
pub struct SymDef {
    pub algorithm: u16,
    pub key_bits: u16,
    pub mode: u16,
}

/// True for an AES key size this TPM implements.
pub open spec fn aes_bits(bits: u16) -> bool {
    bits == 128 || bits == 192 || bits == 256
}

/// True for a block cipher mode this TPM implements.
pub open spec fn cipher_mode(mode: u16) -> bool {
    mode == alg::CFB || mode == alg::CTR || mode == alg::OFB || mode == alg::CBC || mode == alg::ECB
}

impl SymDef {
    /// The canonical form.
    pub open spec fn octets(self) -> Seq<u8> {
        if self.algorithm == alg::NULL {
            octets16(self.algorithm)
        } else if self.algorithm == alg::XOR {
            octets16(self.algorithm) + octets16(self.key_bits)
        } else {
            octets16(self.algorithm) + octets16(self.key_bits) + octets16(self.mode)
        }
    }

    /// A symmetric algorithm.
    pub fn new(algorithm: u16, key_bits: u16, mode: u16) -> (r: SymDef)
        ensures
            r == (SymDef { algorithm, key_bits, mode }),
    {
        SymDef { algorithm, key_bits, mode }
    }

    /// No symmetric algorithm.
    pub fn null() -> (r: SymDef)
        ensures
            r == (SymDef { algorithm: alg::NULL, key_bits: 0, mode: alg::NULL }),
    {
        SymDef { algorithm: alg::NULL, key_bits: 0, mode: alg::NULL }
    }

    /// True for no symmetric algorithm.
    pub fn is_null(&self) -> (r: bool)
        ensures
            r == (self.algorithm == alg::NULL),
    {
        self.algorithm == alg::NULL
    }

    /// Write the canonical form.
    pub fn marshal(&self, w: &mut Writer)
        ensures
            final(w).written() == old(w).written() + self.octets(),
            final(w).good() == old(w).good(),
    {
        w.u16(self.algorithm);
        if self.algorithm != alg::NULL {
            w.u16(self.key_bits);
            if self.algorithm != alg::XOR {
                w.u16(self.mode);
            }
        }
        assert(w.written() =~= old(w).written() + self.octets());
    }

    /// The definition at `at`. XOR obfuscation is one only where `xor` allows
    /// it, which is in a session.
    pub open spec fn parse(d: Seq<u8>, at: int, xor: bool) -> Parsed<SymDef> {
        if at + 2 > d.len() {
            Err(TpmRc(rc::INSUFFICIENT))
        } else {
            let a = be16(d, at);
            if a == alg::NULL {
                Ok((SymDef { algorithm: a, key_bits: 0, mode: alg::NULL }, at + 2))
            } else if a == alg::XOR && xor {
                if at + 4 > d.len() {
                    Err(TpmRc(rc::INSUFFICIENT))
                } else if !supported(be16(d, at + 2)) {
                    Err(TpmRc(rc::HASH))
                } else {
                    Ok(
                        (
                            SymDef { algorithm: a, key_bits: be16(d, at + 2), mode: alg::NULL },
                            at + 4,
                        ),
                    )
                }
            } else if a != alg::AES {
                Err(TpmRc(rc::SYMMETRIC))
            } else if at + 4 > d.len() {
                Err(TpmRc(rc::INSUFFICIENT))
            } else if !aes_bits(be16(d, at + 2)) {
                Err(TpmRc(rc::VALUE))
            } else if at + 6 > d.len() {
                Err(TpmRc(rc::INSUFFICIENT))
            } else if be16(d, at + 4) != alg::NULL && !cipher_mode(be16(d, at + 4)) {
                Err(TpmRc(rc::MODE))
            } else {
                Ok(
                    (
                        SymDef { algorithm: a, key_bits: be16(d, at + 2), mode: be16(d, at + 4) },
                        at + 6,
                    ),
                )
            }
        }
    }

    /// Read a definition.
    pub fn unmarshal(r: &mut Reader, xor: bool) -> (out: TpmResult<SymDef>)
        ensures
            final(r).data() == old(r).data(),
            0 <= old(r).at() <= final(r).at() <= final(r).data().len(),
            match Self::parse(old(r).data(), old(r).at(), xor) {
                Ok((v, next)) => out == Ok::<SymDef, TpmRc>(v) && final(r).at() == next,
                Err(e) => out == Err::<SymDef, TpmRc>(e),
            },
    {
        let algorithm: u16 = r.u16()?;
        if algorithm == alg::NULL {
            return Ok(SymDef::null());
        }
        if algorithm == alg::XOR && xor {
            let hash_alg: u16 = r.u16()?;
            if !is_supported(hash_alg) {
                return Err(TpmRc(rc::HASH));
            }
            return Ok(SymDef { algorithm, key_bits: hash_alg, mode: alg::NULL });
        }
        if algorithm != alg::AES {
            return Err(TpmRc(rc::SYMMETRIC));
        }
        let key_bits: u16 = r.u16()?;
        if !(key_bits == 128 || key_bits == 192 || key_bits == 256) {
            return Err(TpmRc(rc::VALUE));
        }
        let mode: u16 = r.u16()?;
        if mode != alg::NULL && !(mode == alg::CFB || mode == alg::CTR || mode == alg::OFB || mode
            == alg::CBC || mode == alg::ECB) {
            return Err(TpmRc(rc::MODE));
        }
        Ok(SymDef { algorithm, key_bits, mode })
    }
}

/// TPMS_SCHEME_HASH.
#[derive(Debug, Clone, Copy, PartialEq, Eq, Structural)]
pub struct SchemeHash {
    pub hash_alg: u16,
}

/// TPMS_SCHEME_XOR.
#[derive(Debug, Clone, Copy, PartialEq, Eq, Structural)]
pub struct SchemeXor {
    pub hash_alg: u16,
    pub kdf: u16,
}

/// What a scheme carries besides its algorithm.
#[derive(Debug, Clone, Copy, PartialEq, Eq, Structural)]
pub enum SchemeDetail {
    Empty,
    Hash(SchemeHash),
    Xor(SchemeXor),
}

/// A signing, encryption, keyed hash or key derivation scheme.
#[derive(Debug, Clone, Copy, PartialEq, Eq, Structural)]
pub struct Scheme {
    pub scheme: u16,
    pub detail: SchemeDetail,
}

/// True for a scheme whose signatures do not say which key made them.
pub open spec fn anonymous(scheme: u16) -> bool {
    scheme == alg::ECDAA
}

/// True for a scheme whose signatures do not say which key made them.
pub fn is_anonymous(scheme: u16) -> (r: bool)
    ensures
        r == anonymous(scheme),
{
    scheme == alg::ECDAA
}

/// Where a scheme stands, which fixes the schemes it may be.
#[derive(Debug, Clone, Copy, PartialEq, Eq, Structural)]
pub enum SchemeUse {
    /// TPMT_KEYEDHASH_SCHEME.
    KeyedHash,
    /// TPMT_SIG_SCHEME.
    Signature,
    /// TPMT_RSA_DECRYPT.
    RsaDecrypt,
    /// TPMT_RSA_SCHEME.
    Rsa,
    /// TPMT_ECC_SCHEME.
    Ecc,
    /// TPMT_KDF_SCHEME.
    Kdf,
}

/// True when `scheme` may stand where `u` says.
pub open spec fn scheme_fits(u: SchemeUse, scheme: u16) -> bool {
    match u {
        SchemeUse::KeyedHash => scheme == alg::HMAC || scheme == alg::XOR,
        SchemeUse::Signature => scheme == alg::HMAC || scheme == alg::RSASSA || scheme
            == alg::RSAPSS || scheme == alg::ECDSA || scheme == alg::ECSCHNORR,
        SchemeUse::RsaDecrypt => scheme == alg::OAEP || scheme == alg::RSAES,
        SchemeUse::Rsa => scheme == alg::RSASSA || scheme == alg::RSAPSS || scheme == alg::OAEP
            || scheme == alg::RSAES,
        SchemeUse::Ecc => scheme == alg::ECDSA || scheme == alg::ECDH || scheme == alg::ECSCHNORR,
        SchemeUse::Kdf => scheme == alg::KDF1_SP800_56A || scheme == alg::KDF2 || scheme
            == alg::KDF1_SP800_108 || scheme == alg::MGF1,
    }
}

/// The code that refuses a scheme where `u` says.
pub open spec fn scheme_refusal(u: SchemeUse) -> u32 {
    match u {
        SchemeUse::KeyedHash => rc::VALUE,
        SchemeUse::Kdf => rc::KDF,
        _ => rc::SCHEME,
    }
}

/// True when `scheme` may stand where `u` says.
fn fits(u: SchemeUse, scheme: u16) -> (r: bool)
    ensures
        r == scheme_fits(u, scheme),
{
    match u {
        SchemeUse::KeyedHash => scheme == alg::HMAC || scheme == alg::XOR,
        SchemeUse::Signature => scheme == alg::HMAC || scheme == alg::RSASSA || scheme
            == alg::RSAPSS || scheme == alg::ECDSA || scheme == alg::ECSCHNORR,
        SchemeUse::RsaDecrypt => scheme == alg::OAEP || scheme == alg::RSAES,
        SchemeUse::Rsa => scheme == alg::RSASSA || scheme == alg::RSAPSS || scheme == alg::OAEP
            || scheme == alg::RSAES,
        SchemeUse::Ecc => scheme == alg::ECDSA || scheme == alg::ECDH || scheme == alg::ECSCHNORR,
        SchemeUse::Kdf => scheme == alg::KDF1_SP800_56A || scheme == alg::KDF2 || scheme
            == alg::KDF1_SP800_108 || scheme == alg::MGF1,
    }
}

impl Scheme {
    /// No scheme.
    pub open spec fn spec_null() -> Scheme {
        Scheme { scheme: alg::NULL, detail: SchemeDetail::Empty }
    }

    /// No scheme.
    pub fn null() -> (r: Scheme)
        ensures
            r == Self::spec_null(),
    {
        Scheme { scheme: alg::NULL, detail: SchemeDetail::Empty }
    }

    /// A scheme with a hash algorithm.
    pub fn hash(scheme: u16, hash_alg: u16) -> (r: Scheme)
        ensures
            r == (Scheme { scheme, detail: SchemeDetail::Hash(SchemeHash { hash_alg }) }),
    {
        Scheme { scheme, detail: SchemeDetail::Hash(SchemeHash { hash_alg }) }
    }

    /// True for no scheme.
    pub fn is_null(&self) -> (r: bool)
        ensures
            r == (self.scheme == alg::NULL),
    {
        self.scheme == alg::NULL
    }

    /// The hash algorithm of the scheme.
    pub open spec fn spec_hash_alg(self) -> Option<u16> {
        match self.detail {
            SchemeDetail::Empty => None,
            SchemeDetail::Hash(h) => Some(h.hash_alg),
            SchemeDetail::Xor(x) => Some(x.hash_alg),
        }
    }

    /// The hash algorithm of the scheme.
    pub fn hash_alg(&self) -> (r: Option<u16>)
        ensures
            r == self.spec_hash_alg(),
    {
        match self.detail {
            SchemeDetail::Empty => None,
            SchemeDetail::Hash(h) => Some(h.hash_alg),
            SchemeDetail::Xor(x) => Some(x.hash_alg),
        }
    }

    /// The canonical form.
    pub open spec fn octets(self) -> Seq<u8> {
        octets16(self.scheme) + (match self.detail {
            SchemeDetail::Empty => Seq::<u8>::empty(),
            SchemeDetail::Hash(h) => octets16(h.hash_alg),
            SchemeDetail::Xor(x) => octets16(x.hash_alg) + octets16(x.kdf),
        })
    }

    /// Write the canonical form.
    pub fn marshal(&self, w: &mut Writer)
        ensures
            final(w).written() == old(w).written() + self.octets(),
            final(w).good() == old(w).good(),
    {
        w.u16(self.scheme);
        match self.detail {
            SchemeDetail::Empty => {},
            SchemeDetail::Hash(h) => w.u16(h.hash_alg),
            SchemeDetail::Xor(x) => {
                w.u16(x.hash_alg);
                w.u16(x.kdf);
            },
        }
        assert(w.written() =~= old(w).written() + self.octets());
    }

    /// The scheme at `at` where `u` says.
    pub open spec fn parse(d: Seq<u8>, at: int, u: SchemeUse) -> Parsed<Scheme> {
        if at + 2 > d.len() {
            Err(TpmRc(rc::INSUFFICIENT))
        } else {
            let s = be16(d, at);
            if s == alg::NULL {
                Ok((Self::spec_null(), at + 2))
            } else if !scheme_fits(u, s) {
                Err(TpmRc(scheme_refusal(u)))
            } else if s == alg::RSAES {
                Ok((Scheme { scheme: s, detail: SchemeDetail::Empty }, at + 2))
            } else if at + 4 > d.len() {
                Err(TpmRc(rc::INSUFFICIENT))
            } else if !supported(be16(d, at + 2)) {
                Err(TpmRc(rc::HASH))
            } else if s == alg::XOR {
                if at + 6 > d.len() {
                    Err(TpmRc(rc::INSUFFICIENT))
                } else if !scheme_fits(SchemeUse::Kdf, be16(d, at + 4)) {
                    Err(TpmRc(rc::KDF))
                } else {
                    Ok(
                        (
                            Scheme {
                                scheme: s,
                                detail: SchemeDetail::Xor(
                                    SchemeXor { hash_alg: be16(d, at + 2), kdf: be16(d, at + 4) },
                                ),
                            },
                            at + 6,
                        ),
                    )
                }
            } else {
                Ok(
                    (
                        Scheme {
                            scheme: s,
                            detail: SchemeDetail::Hash(SchemeHash { hash_alg: be16(d, at + 2) }),
                        },
                        at + 4,
                    ),
                )
            }
        }
    }

    /// Read a scheme where `u` says.
    pub fn unmarshal(r: &mut Reader, u: SchemeUse) -> (out: TpmResult<Scheme>)
        ensures
            final(r).data() == old(r).data(),
            0 <= old(r).at() <= final(r).at() <= final(r).data().len(),
            match Self::parse(old(r).data(), old(r).at(), u) {
                Ok((v, next)) => out == Ok::<Scheme, TpmRc>(v) && final(r).at() == next,
                Err(e) => out == Err::<Scheme, TpmRc>(e),
            },
    {
        let scheme: u16 = r.u16()?;
        if scheme == alg::NULL {
            return Ok(Scheme::null());
        }
        if !fits(u, scheme) {
            return Err(
                TpmRc(
                    match u {
                        SchemeUse::KeyedHash => rc::VALUE,
                        SchemeUse::Kdf => rc::KDF,
                        _ => rc::SCHEME,
                    },
                ),
            );
        }
        if scheme == alg::RSAES {
            return Ok(Scheme { scheme, detail: SchemeDetail::Empty });
        }
        let hash_alg: u16 = r.u16()?;
        if !is_supported(hash_alg) {
            return Err(TpmRc(rc::HASH));
        }
        if scheme == alg::XOR {
            let kdf: u16 = r.u16()?;
            if !fits(SchemeUse::Kdf, kdf) {
                return Err(TpmRc(rc::KDF));
            }
            return Ok(Scheme { scheme, detail: SchemeDetail::Xor(SchemeXor { hash_alg, kdf }) });
        }
        Ok(Scheme::hash(scheme, hash_alg))
    }
}

/// TPMS_ECC_POINT.
#[derive(Debug, PartialEq, Eq)]
pub struct EccPoint {
    pub x: Tpm2bEccParameter,
    pub y: Tpm2bEccParameter,
}

impl EccPoint {
    /// The canonical form.
    pub open spec fn octets(&self) -> Seq<u8> {
        sized(self.x@) + sized(self.y@)
    }

    /// Write the canonical form.
    pub fn marshal(&self, w: &mut Writer)
        ensures
            final(w).written() == old(w).written() + self.octets(),
            final(w).good() == old(w).good(),
            self.x@.len() <= 66,
            self.y@.len() <= 66,
    {
        self.x.marshal(w);
        self.y.marshal(w);
        assert(w.written() =~= old(w).written() + self.octets());
    }

    /// The coordinates at `at`.
    pub open spec fn parse(d: Seq<u8>, at: int) -> Parsed<(Seq<u8>, Seq<u8>)> {
        match parse_sized(d, at, 66) {
            Err(e) => Err(e),
            Ok((x, next)) => match parse_sized(d, next, 66) {
                Err(e) => Err(e),
                Ok((y, end)) => Ok(((x, y), end)),
            },
        }
    }

    /// Read two coordinates.
    pub fn unmarshal(r: &mut Reader) -> (out: TpmResult<EccPoint>)
        ensures
            final(r).data() == old(r).data(),
            0 <= old(r).at() <= final(r).at() <= final(r).data().len(),
            match Self::parse(old(r).data(), old(r).at()) {
                Ok((v, next)) => out is Ok && out->Ok_0.x@ == v.0 && out->Ok_0.y@ == v.1
                    && final(r).at() == next,
                Err(e) => out is Err && out->Err_0 == e,
            },
    {
        let x: Tpm2bEccParameter = Tpm2bEccParameter::unmarshal(r)?;
        let y: Tpm2bEccParameter = Tpm2bEccParameter::unmarshal(r)?;
        Ok(EccPoint { x, y })
    }
}

impl Clone for EccPoint {
    fn clone(&self) -> (r: Self)
        ensures
            r.x@ == self.x@,
            r.y@ == self.y@,
    {
        EccPoint { x: self.x.clone(), y: self.y.clone() }
    }
}

impl Default for EccPoint {
    fn default() -> (r: Self)
        ensures
            r.x@.len() == 0,
            r.y@.len() == 0,
    {
        EccPoint { x: Tpm2bEccParameter::empty(), y: Tpm2bEccParameter::empty() }
    }
}

/// TPM2B_ECC_POINT: a point behind its size.
#[derive(Debug)]
pub struct Tpm2bEccPoint {
    pub point: EccPoint,
}

/// The canonical form of a point behind its size.
pub open spec fn point_octets(x: Seq<u8>, y: Seq<u8>) -> Seq<u8> {
    sized(sized(x) + sized(y))
}

impl Tpm2bEccPoint {
    /// Write the canonical form.
    pub fn marshal(&self, w: &mut Writer)
        ensures
            final(w).written() == old(w).written() + point_octets(self.point.x@, self.point.y@),
            final(w).good() == old(w).good(),
    {
        let mut inner: Writer = Writer::new();
        self.point.marshal(&mut inner);
        let octets: Vec<u8> = inner.into_vec();
        assert(octets@ =~= sized(self.point.x@) + sized(self.point.y@));
        w.sized16(octets.as_slice());
    }

    /// The point at `at`, which its size has to count exactly.
    pub open spec fn parse(d: Seq<u8>, at: int) -> Parsed<(Seq<u8>, Seq<u8>)> {
        match parse_sized(d, at, 136) {
            Err(e) => Err(e),
            Ok((inner, next)) => match EccPoint::parse(inner, 0) {
                Err(e) => Err(e),
                Ok((p, end)) => if end != inner.len() {
                    Err(TpmRc(rc::SIZE))
                } else {
                    Ok((p, next))
                },
            },
        }
    }

    /// Read a point behind its size.
    pub fn unmarshal(r: &mut Reader) -> (out: TpmResult<Tpm2bEccPoint>)
        ensures
            final(r).data() == old(r).data(),
            0 <= old(r).at() <= final(r).at() <= final(r).data().len(),
            match Self::parse(old(r).data(), old(r).at()) {
                Ok((v, next)) => out is Ok && out->Ok_0.point.x@ == v.0 && out->Ok_0.point.y@
                    == v.1 && final(r).at() == next,
                Err(e) => out is Err && out->Err_0 == e,
            },
    {
        let inner: Tpm2b<136> = Tpm2b::<136>::unmarshal(r)?;
        let mut ir: Reader = Reader::new(inner.as_slice());
        let point: EccPoint = EccPoint::unmarshal(&mut ir)?;
        ir.expect_end()?;
        Ok(Tpm2bEccPoint { point })
    }

    /// A point behind its size and nothing else.
    pub open spec fn alone(d: Seq<u8>) -> TpmResult<(Seq<u8>, Seq<u8>)> {
        match Self::parse(d, 0) {
            Err(e) => Err(e),
            Ok((p, next)) => if next != d.len() {
                Err(TpmRc(rc::SIZE))
            } else {
                Ok(p)
            },
        }
    }

    /// Read a point behind its size and nothing else.
    pub fn from_bytes(d: &[u8]) -> (out: TpmResult<Tpm2bEccPoint>)
        ensures
            match Self::alone(d@) {
                Ok(v) => out is Ok && out->Ok_0.point.x@ == v.0 && out->Ok_0.point.y@ == v.1,
                Err(e) => out is Err && out->Err_0 == e,
            },
    {
        let mut r: Reader = Reader::new(d);
        let p: Tpm2bEccPoint = Tpm2bEccPoint::unmarshal(&mut r)?;
        r.expect_end()?;
        Ok(p)
    }
}

impl SymDef {
    /// One of the definitions that are read where `xor` says.
    pub open spec fn fits(s: SymDef, xor: bool) -> bool {
        if s.algorithm == alg::NULL {
            s.key_bits == 0 && s.mode == alg::NULL
        } else if s.algorithm == alg::XOR {
            xor && supported(s.key_bits) && s.mode == alg::NULL
        } else {
            s.algorithm == alg::AES && aes_bits(s.key_bits) && (s.mode == alg::NULL || cipher_mode(
                s.mode,
            ))
        }
    }
}

/// A definition is read where it stands.
pub proof fn lemma_sym_reads(d: Seq<u8>, at: int, s: SymDef, xor: bool)
    requires
        holds(d, at, s.octets()),
        SymDef::fits(s, xor),
    ensures
        SymDef::parse(d, at, xor) == Ok::<(SymDef, int), TpmRc>((s, at + s.octets().len())),
{
    if s.algorithm == alg::NULL {
        assert(s.octets() =~= octets16(s.algorithm));
        lemma_holds_u16(d, at, s.algorithm);
    } else if s.algorithm == alg::XOR {
        assert(s.octets() =~= octets16(s.algorithm) + octets16(s.key_bits));
        lemma_holds_both(d, at, octets16(s.algorithm), octets16(s.key_bits));
        lemma_holds_u16(d, at, s.algorithm);
        lemma_holds_u16(d, at + 2, s.key_bits);
    } else {
        assert(s.octets() =~= octets16(s.algorithm) + (octets16(s.key_bits) + octets16(s.mode)));
        lemma_holds_both(
            d,
            at,
            octets16(s.algorithm),
            octets16(s.key_bits) + octets16(s.mode),
        );
        lemma_holds_both(d, at + 2, octets16(s.key_bits), octets16(s.mode));
        lemma_holds_u16(d, at, s.algorithm);
        lemma_holds_u16(d, at + 2, s.key_bits);
        lemma_holds_u16(d, at + 4, s.mode);
    }
}

impl Scheme {
    /// One of the schemes that are read where `u` says.
    pub open spec fn fits(s: Scheme, u: SchemeUse) -> bool {
        if s.scheme == alg::NULL {
            s == Scheme::spec_null()
        } else {
            scheme_fits(u, s.scheme) && match s.detail {
                SchemeDetail::Empty => s.scheme == alg::RSAES,
                SchemeDetail::Xor(x) => s.scheme == alg::XOR && supported(x.hash_alg)
                    && scheme_fits(SchemeUse::Kdf, x.kdf),
                SchemeDetail::Hash(h) => s.scheme != alg::RSAES && s.scheme != alg::XOR
                    && supported(h.hash_alg),
            }
        }
    }
}

/// A scheme is read where it stands.
pub proof fn lemma_scheme_reads(d: Seq<u8>, at: int, s: Scheme, u: SchemeUse)
    requires
        holds(d, at, s.octets()),
        Scheme::fits(s, u),
    ensures
        Scheme::parse(d, at, u) == Ok::<(Scheme, int), TpmRc>((s, at + s.octets().len())),
{
    let head = octets16(s.scheme);
    match s.detail {
        SchemeDetail::Empty => {
            assert(s.octets() =~= head);
        },
        SchemeDetail::Hash(h) => {
            lemma_holds_both(d, at, head, octets16(h.hash_alg));
            lemma_holds_u16(d, at + 2, h.hash_alg);
        },
        SchemeDetail::Xor(x) => {
            lemma_holds_both(d, at, head, octets16(x.hash_alg) + octets16(x.kdf));
            lemma_holds_both(d, at + 2, octets16(x.hash_alg), octets16(x.kdf));
            lemma_holds_u16(d, at + 2, x.hash_alg);
            lemma_holds_u16(d, at + 4, x.kdf);
        },
    }
    lemma_holds_u16(d, at, s.scheme);
}

/// Two coordinates are read where they stand.
proof fn lemma_coordinates_read(d: Seq<u8>, x: Seq<u8>, y: Seq<u8>)
    requires
        holds(d, 0, sized(x) + sized(y)),
        x.len() <= 66,
        y.len() <= 66,
    ensures
        EccPoint::parse(d, 0) == Ok::<((Seq<u8>, Seq<u8>), int), TpmRc>(
            ((x, y), 4int + x.len() + y.len()),
        ),
{
    lemma_holds_both(d, 0, sized(x), sized(y));
    lemma_holds_sized(d, 0, x, 66);
    lemma_holds_sized(d, sized(x).len() as int, y, 66);
}

/// A point behind its size is read where it stands.
proof fn lemma_point_reads(d: Seq<u8>, inner: Seq<u8>, x: Seq<u8>, y: Seq<u8>)
    requires
        inner.len() == 4 + x.len() + y.len(),
        holds(d, 0, sized(inner)),
        d.len() == 2 + inner.len(),
        x.len() <= 66,
        y.len() <= 66,
        EccPoint::parse(inner, 0) == Ok::<((Seq<u8>, Seq<u8>), int), TpmRc>(
            ((x, y), 4int + x.len() + y.len()),
        ),
    ensures
        Tpm2bEccPoint::alone(d) == Ok::<(Seq<u8>, Seq<u8>), TpmRc>((x, y)),
{
    lemma_holds_sized(d, 0, inner, 136);
}

/// A point behind its size is read back.
pub proof fn lemma_point_alone(x: Seq<u8>, y: Seq<u8>)
    requires
        x.len() <= 66,
        y.len() <= 66,
    ensures
        Tpm2bEccPoint::alone(point_octets(x, y)) == Ok::<(Seq<u8>, Seq<u8>), TpmRc>((x, y)),
{
    let inner = sized(x) + sized(y);
    lemma_holds_all(inner);
    lemma_coordinates_read(inner, x, y);
    lemma_holds_all(sized(inner));
    lemma_point_reads(sized(inner), inner, x, y);
}

} // verus!
