//! Sized buffers, digests and PCR selections.

use vstd::prelude::*;

use crate::tpm::constants::{alg, rc};
use crate::tpm::crypto::hash::{digest_size as size_of_digest, size_of, supported};
use crate::tpm::error::{TpmRc, TpmResult};
use crate::tpm::marshal::{parse_sized, sized, Parsed, Reader, Writer};
use crate::util::bytes::{be16, octets16, to_vec};

verus! {

/// Octets in the largest digest this TPM implements.
pub const MAX_DIGEST_SIZE: usize = 64;

/// A TPM2B: at most `MAX` octets that marshal behind their size.
#[derive(Debug, PartialEq, Eq)]
pub struct Tpm2b<const MAX: usize> {
    buffer: Vec<u8>,
}

/// TPM2B_DIGEST, TPM2B_NONCE and TPM2B_AUTH.
pub type Tpm2bDigest = Tpm2b<64>;
pub type Tpm2bNonce = Tpm2b<64>;
pub type Tpm2bAuth = Tpm2b<64>;
/// TPM2B_DATA holds a TPMT_HA.
pub type Tpm2bData = Tpm2b<66>;
/// TPM2B_NAME holds a handle or a TPMT_HA.
pub type Tpm2bName = Tpm2b<68>;
pub type Tpm2bLabel = Tpm2b<32>;
pub type Tpm2bEvent = Tpm2b<1024>;
pub type Tpm2bMaxBuffer = Tpm2b<1024>;
pub type Tpm2bMaxNvBuffer = Tpm2b<1024>;
pub type Tpm2bTimeout = Tpm2b<8>;
pub type Tpm2bIv = Tpm2b<16>;
pub type Tpm2bSymKey = Tpm2b<32>;
pub type Tpm2bSensitiveData = Tpm2b<128>;
pub type Tpm2bEccParameter = Tpm2b<66>;
pub type Tpm2bPublicKeyRsa = Tpm2b<512>;
pub type Tpm2bPrivateKeyRsa = Tpm2b<256>;
pub type Tpm2bEncryptedSecret = Tpm2b<512>;
pub type Tpm2bIdObject = Tpm2b<196>;
pub type Tpm2bPrivate = Tpm2b<1024>;
pub type Tpm2bTemplate = Tpm2b<1024>;
pub type Tpm2bAttest = Tpm2b<2048>;
pub type Tpm2bContextData = Tpm2b<0xFFFF>;

impl<const MAX: usize> View for Tpm2b<MAX> {
    type V = Seq<u8>;

    closed spec fn view(&self) -> Seq<u8> {
        self.buffer@
    }
}

impl<const MAX: usize> Tpm2b<MAX> {
    #[verifier::type_invariant]
    spec fn bounded(self) -> bool {
        self.buffer@.len() <= MAX && self.buffer@.len() <= 0xFFFF
    }

    /// Hold `buffer`, or TPM_RC_SIZE when it is too long.
    pub fn new(buffer: Vec<u8>) -> (r: TpmResult<Self>)
        ensures
            r is Ok <==> buffer@.len() <= MAX && buffer@.len() <= 0xFFFF,
            r matches Ok(b) ==> b@ == buffer@,
            r matches Err(e) ==> e == TpmRc(rc::SIZE),
    {
        if buffer.len() > MAX || buffer.len() > 0xFFFF {
            Err(TpmRc(rc::SIZE))
        } else {
            Ok(Tpm2b { buffer })
        }
    }

    /// Hold a copy of `octets`, or TPM_RC_SIZE when it is too long.
    pub fn from_slice(octets: &[u8]) -> (r: TpmResult<Self>)
        ensures
            r is Ok <==> octets@.len() <= MAX && octets@.len() <= 0xFFFF,
            r matches Ok(b) ==> b@ == octets@,
            r matches Err(e) ==> e == TpmRc(rc::SIZE),
    {
        Self::new(to_vec(octets))
    }

    /// The Empty Buffer.
    pub fn empty() -> (r: Self)
        ensures
            r@ == Seq::<u8>::empty(),
    {
        Tpm2b { buffer: Vec::new() }
    }

    /// The octets it holds.
    pub fn as_slice(&self) -> (r: &[u8])
        ensures
            r@ == self@,
            r@.len() <= MAX,
            r@.len() <= 0xFFFF,
    {
        proof {
            use_type_invariant(&*self);
        }
        self.buffer.as_slice()
    }

    /// A copy of the octets it holds.
    pub fn to_vec(&self) -> (r: Vec<u8>)
        ensures
            r@ == self@,
            r@.len() <= MAX,
            r@.len() <= 0xFFFF,
    {
        proof {
            use_type_invariant(&*self);
        }
        to_vec(self.buffer.as_slice())
    }

    /// How many octets it holds.
    pub fn len(&self) -> (r: usize)
        ensures
            r == self@.len(),
            r <= MAX,
            r <= 0xFFFF,
    {
        proof {
            use_type_invariant(&*self);
        }
        self.buffer.len()
    }

    /// True for the Empty Buffer.
    pub fn is_empty(&self) -> (r: bool)
        ensures
            r == (self@.len() == 0),
    {
        self.buffer.len() == 0
    }

    /// Write the size and the octets.
    pub fn marshal(&self, w: &mut Writer)
        ensures
            final(w).written() == old(w).written() + sized(self@),
            final(w).good() == old(w).good(),
            self@.len() <= MAX,
            self@.len() <= 0xFFFF,
    {
        proof {
            use_type_invariant(&*self);
        }
        w.sized16(self.buffer.as_slice());
    }

    /// Read the size and the octets.
    pub fn unmarshal(r: &mut Reader) -> (out: TpmResult<Self>)
        ensures
            final(r).data() == old(r).data(),
            0 <= old(r).at() <= final(r).at() <= final(r).data().len(),
            match parse_sized(old(r).data(), old(r).at(), MAX as int) {
                Ok((v, next)) => out is Ok && out->Ok_0@ == v && final(r).at() == next,
                Err(e) => out is Err && out->Err_0 == e,
            },
    {
        let size: u16 = r.u16()?;
        if size as usize > MAX {
            return Err(TpmRc(rc::SIZE));
        }
        let buffer: Vec<u8> = r.take(size as usize)?;
        Ok(Tpm2b { buffer })
    }
}

impl<const MAX: usize> Clone for Tpm2b<MAX> {
    fn clone(&self) -> (r: Self)
        ensures
            r@ == self@,
    {
        proof {
            use_type_invariant(self);
        }
        Tpm2b { buffer: to_vec(self.buffer.as_slice()) }
    }
}

impl<const MAX: usize> Default for Tpm2b<MAX> {
    fn default() -> (r: Self)
        ensures
            r@ == Seq::<u8>::empty(),
    {
        Tpm2b { buffer: Vec::new() }
    }
}

/// TPMT_HA: a digest and the algorithm that made it.
#[derive(Debug, PartialEq, Eq)]
pub struct TpmtHa {
    pub hash_alg: u16,
    pub digest: Vec<u8>,
}

impl TpmtHa {
    /// True when the digest has the size its algorithm gives, and none when
    /// there is no algorithm.
    pub open spec fn valid(&self) -> bool {
        if self.hash_alg == alg::NULL {
            self.digest@.len() == 0
        } else {
            supported(self.hash_alg) && self.digest@.len() == size_of(self.hash_alg)
        }
    }

    /// The canonical form.
    pub open spec fn octets(&self) -> Seq<u8> {
        octets16(self.hash_alg) + self.digest@
    }

    /// A digest of `hash_alg`, or TPM_RC_HASH or TPM_RC_SIZE.
    pub fn new(hash_alg: u16, digest: Vec<u8>) -> (r: TpmResult<TpmtHa>)
        ensures
            r matches Ok(h) ==> h.hash_alg == hash_alg && h.digest@ == digest@ && h.valid(),
            r is Ok <==> (if hash_alg == alg::NULL {
                digest@.len() == 0
            } else {
                supported(hash_alg) && digest@.len() == size_of(hash_alg)
            }),
            r matches Err(e) ==> e == (if hash_alg == alg::NULL || supported(hash_alg) {
                TpmRc(rc::SIZE)
            } else {
                TpmRc(rc::HASH)
            }),
    {
        if hash_alg == alg::NULL {
            if digest.len() != 0 {
                return Err(TpmRc(rc::SIZE));
            }
        } else {
            let size: usize = size_of_digest(hash_alg)?;
            if digest.len() != size {
                return Err(TpmRc(rc::SIZE));
            }
        }
        Ok(TpmtHa { hash_alg, digest })
    }

    /// No digest at all.
    pub fn null() -> (r: TpmtHa)
        ensures
            r.hash_alg == alg::NULL,
            r.digest@.len() == 0,
            r.valid(),
    {
        TpmtHa { hash_alg: alg::NULL, digest: Vec::new() }
    }

    /// Write the algorithm and the digest.
    pub fn marshal(&self, w: &mut Writer)
        ensures
            final(w).written() == old(w).written() + self.octets(),
            final(w).good() == old(w).good(),
    {
        w.u16(self.hash_alg);
        w.bytes(self.digest.as_slice());
        assert(w.written() =~= old(w).written() + self.octets());
    }

    /// The algorithm and the digest at `at`. TPM_ALG_NULL stands for no digest
    /// where `nullable` allows it.
    pub open spec fn parse(d: Seq<u8>, at: int, nullable: bool) -> Parsed<(u16, Seq<u8>)> {
        if at + 2 > d.len() {
            Err(TpmRc(rc::INSUFFICIENT))
        } else {
            let a = be16(d, at);
            if a == alg::NULL && nullable {
                Ok(((a, Seq::empty()), at + 2))
            } else if !supported(a) {
                Err(TpmRc(rc::HASH))
            } else if at + 2 + size_of(a) > d.len() {
                Err(TpmRc(rc::INSUFFICIENT))
            } else {
                Ok(((a, d.subrange(at + 2, at + 2 + size_of(a))), at + 2 + size_of(a)))
            }
        }
    }

    /// Read the algorithm and the digest.
    pub fn unmarshal(r: &mut Reader, nullable: bool) -> (out: TpmResult<TpmtHa>)
        ensures
            final(r).data() == old(r).data(),
            0 <= old(r).at() <= final(r).at() <= final(r).data().len(),
            match Self::parse(old(r).data(), old(r).at(), nullable) {
                Ok((v, next)) => out is Ok && out->Ok_0.hash_alg == v.0 && out->Ok_0.digest@ == v.1
                    && out->Ok_0.valid() && final(r).at() == next,
                Err(e) => out is Err && out->Err_0 == e,
            },
    {
        let hash_alg: u16 = r.u16()?;
        if hash_alg == alg::NULL && nullable {
            return Ok(TpmtHa { hash_alg, digest: Vec::new() });
        }
        let size: usize = size_of_digest(hash_alg)?;
        let digest: Vec<u8> = r.take(size)?;
        Ok(TpmtHa { hash_alg, digest })
    }
}

impl Clone for TpmtHa {
    fn clone(&self) -> (r: Self)
        ensures
            r.hash_alg == self.hash_alg,
            r.digest@ == self.digest@,
    {
        TpmtHa { hash_alg: self.hash_alg, digest: to_vec(self.digest.as_slice()) }
    }
}

} // verus!
