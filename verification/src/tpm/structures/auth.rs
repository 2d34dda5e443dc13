//! The authorization of a command and of a response.

use vstd::prelude::*;

use super::attributes::SessionAttributes;
use super::base::{Tpm2bAuth, Tpm2bNonce};
use crate::tpm::constants::rc;
use crate::tpm::error::{TpmRc, TpmResult};
use crate::tpm::marshal::{parse_sized, sized, Parsed, Reader, Writer};
use crate::util::bytes::{be32, octets32};

verus! {

/// TPMS_AUTH_COMMAND.
#[derive(Debug)]
pub struct AuthCommand {
    pub session_handle: u32,
    pub nonce: Tpm2bNonce,
    pub session_attributes: SessionAttributes,
    pub hmac: Tpm2bAuth,
}

/// What a TPMS_AUTH_COMMAND holds.
#[verifier::ext_equal]
pub struct AuthView {
    pub handle: u32,
    pub nonce: Seq<u8>,
    pub attributes: SessionAttributes,
    pub hmac: Seq<u8>,
}

/// The bits of TPMA_SESSION that have no meaning.
pub const RESERVED: u8 = 0x18;

impl AuthView {
    /// The canonical form.
    pub open spec fn octets(self) -> Seq<u8> {
        octets32(self.handle) + sized(self.nonce) + seq![self.attributes.0] + sized(self.hmac)
    }

    /// The authorization at `at`.
    pub open spec fn parse(d: Seq<u8>, at: int) -> Parsed<AuthView> {
        if at + 4 > d.len() {
            Err(TpmRc(rc::INSUFFICIENT))
        } else {
            match parse_sized(d, at + 4, 64) {
                Err(e) => Err(e),
                Ok((nonce, mid)) => if mid + 1 > d.len() {
                    Err(TpmRc(rc::INSUFFICIENT))
                } else if d[mid] & 0x18 != 0 {
                    Err(TpmRc(rc::RESERVED_BITS))
                } else {
                    match parse_sized(d, mid + 1, 64) {
                        Err(e) => Err(e),
                        Ok((hmac, next)) => Ok(
                            (
                                AuthView {
                                    handle: be32(d, at),
                                    nonce,
                                    attributes: SessionAttributes(d[mid]),
                                    hmac,
                                },
                                next,
                            ),
                        ),
                    }
                },
            }
        }
    }
}

impl View for AuthCommand {
    type V = AuthView;

    open spec fn view(&self) -> AuthView {
        AuthView {
            handle: self.session_handle,
            nonce: self.nonce@,
            attributes: self.session_attributes,
            hmac: self.hmac@,
        }
    }
}

impl AuthCommand {
    /// The canonical form.
    pub fn to_bytes(&self) -> (r: Vec<u8>)
        ensures
            r@ == self@.octets(),
    {
        let mut w = Writer::new();
        w.u32(self.session_handle);
        self.nonce.marshal(&mut w);
        w.u8(self.session_attributes.0);
        self.hmac.marshal(&mut w);
        assert(w.written() =~= self@.octets());
        w.into_vec()
    }

    /// Read the canonical form.
    pub fn unmarshal(r: &mut Reader) -> (out: TpmResult<AuthCommand>)
        ensures
            final(r).data() == old(r).data(),
            0 <= old(r).at() <= final(r).at() <= final(r).data().len(),
            match AuthView::parse(old(r).data(), old(r).at()) {
                Ok((v, next)) => out is Ok && out->Ok_0@ == v && final(r).at() == next,
                Err(e) => out is Err && out->Err_0 == e,
            },
    {
        let session_handle: u32 = r.u32()?;
        let nonce = Tpm2bNonce::unmarshal(r)?;
        let attributes: u8 = r.u8()?;
        if attributes & RESERVED != 0 {
            return Err(TpmRc(rc::RESERVED_BITS));
        }
        let hmac = Tpm2bAuth::unmarshal(r)?;
        Ok(
            AuthCommand {
                session_handle,
                nonce,
                session_attributes: SessionAttributes(attributes),
                hmac,
            },
        )
    }
}

/// TPMS_AUTH_RESPONSE.
#[derive(Debug)]
pub struct AuthResponse {
    pub nonce: Tpm2bNonce,
    pub session_attributes: SessionAttributes,
    pub hmac: Tpm2bAuth,
}

/// The canonical form of a TPMS_AUTH_RESPONSE.
pub open spec fn answer_octets(nonce: Seq<u8>, attributes: SessionAttributes, hmac: Seq<u8>) -> Seq<
    u8,
> {
    sized(nonce) + seq![attributes.0] + sized(hmac)
}

impl AuthResponse {
    /// Write the canonical form.
    pub fn marshal(&self, w: &mut Writer)
        ensures
            final(w).written() == old(w).written() + answer_octets(
                self.nonce@,
                self.session_attributes,
                self.hmac@,
            ),
            final(w).good() == old(w).good(),
    {
        self.nonce.marshal(w);
        w.u8(self.session_attributes.0);
        self.hmac.marshal(w);
        assert(w.written() =~= old(w).written() + answer_octets(
            self.nonce@,
            self.session_attributes,
            self.hmac@,
        ));
    }
}

/// An authorization is read back as it was written, whatever surrounds it.
pub proof fn law_an_authorization_round_trips(before: Seq<u8>, a: AuthView, after: Seq<u8>)
    requires
        a.nonce.len() <= 64,
        a.hmac.len() <= 64,
        a.attributes.0 & 0x18 == 0,
    ensures
        AuthView::parse(before + a.octets() + after, before.len() as int) == Ok::<
            (AuthView, int),
            TpmRc,
        >((a, (before.len() + a.octets().len()) as int)),
{
    let d = before + a.octets() + after;
    let at = before.len() as int;
    crate::util::bytes::lemma_octets32(a.handle);
    assert(d.subrange(at, at + 4) =~= octets32(a.handle));
    crate::util::bytes::lemma_sub_be(d, at, at + 4, 0);
    let b1 = before + octets32(a.handle);
    let a1 = seq![a.attributes.0] + sized(a.hmac) + after;
    assert(d =~= b1 + sized(a.nonce) + a1);
    crate::tpm::marshal::law_sized_round_trip(b1, a.nonce, a1, 64);
    let b2 = b1 + sized(a.nonce) + seq![a.attributes.0];
    assert(d =~= b2 + sized(a.hmac) + after);
    crate::tpm::marshal::law_sized_round_trip(b2, a.hmac, after, 64);
    assert(d[at + 4 + 2 + a.nonce.len()] == a.attributes.0);
}

} // verus!
