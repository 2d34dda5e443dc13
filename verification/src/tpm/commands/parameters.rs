//! Encryption of the first parameter.

use vstd::prelude::*;

use super::dispatch::{Request, RequestView, SessionInput};
use crate::tpm::constants::{alg, rc, rh};
use crate::tpm::crypto::sym::{
    cfb_decrypt, cfb_encrypt, crypt_check, crypted, obfuscated, xor_obfuscate, Direction,
};
use crate::tpm::engine::session::{parameter_encryption_key, parameter_key_of, Session};
use crate::tpm::engine::state::TpmState;
use crate::tpm::error::{TpmRc, TpmResult};
use crate::tpm::structures::attributes::SessionAttributes;
use crate::tpm::structures::auth::AuthView;
use crate::util::bytes::{be16, read_be16, sub_vec, to_vec};

verus! {

/// The place of the first session at or after `i` with an attribute.
pub open spec fn first_with(s: Seq<AuthView>, mask: u8, i: int) -> Option<int>
    decreases s.len() - i,
{
    if i >= s.len() {
        None
    } else if s[i].attributes.has(mask) {
        Some(i)
    } else {
        first_with(s, mask, i + 1)
    }
}

proof fn lemma_first_with(s: Seq<AuthView>, mask: u8, i: int)
    requires
        0 <= i,
    ensures
        first_with(s, mask, i) matches Some(k) ==> i <= k < s.len() && s[k].attributes.has(mask),
    decreases s.len() - i,
{
    if i < s.len() && !s[i].attributes.has(mask) {
        lemma_first_with(s, mask, i + 1);
    }
}

/// The place of the first session with an attribute.
pub fn find_first(request: &Request, mask: u8) -> (r: Option<usize>)
    ensures
        match first_with(request@.sessions, mask, 0) {
            Some(k) => r is Some && r->Some_0 == k && k < request.sessions@.len(),
            None => r is None,
        },
        r matches Some(k) ==> k < request.sessions@.len()
            && request.sessions@[k as int].attributes.has(mask),
{
    let mut i: usize = 0;
    while i < request.sessions.len()
        invariant
            i <= request.sessions@.len(),
            first_with(request@.sessions, mask, 0) == first_with(
                request@.sessions,
                mask,
                i as int,
            ),
        decreases request.sessions@.len() - i,
    {
        assert(request@.sessions[i as int].attributes == request.sessions@[i as int].attributes);
        if request.sessions[i].attributes.has(mask) {
            return Some(i);
        }
        i = i + 1;
    }
    None
}

/// The body of the leading TPM2B of a parameter area.
pub open spec fn first_body(p: Seq<u8>) -> Option<Seq<u8>> {
    if p.len() < 2 || p.len() < 2 + be16(p, 0) {
        None
    } else {
        Some(p.subrange(2, 2 + be16(p, 0)))
    }
}

/// The body of the leading TPM2B of a parameter area.
pub fn first_sized_parameter(p: &[u8]) -> (r: Option<Vec<u8>>)
    ensures
        match first_body(p@) {
            Some(b) => r is Some && r->Some_0@ == b && b.len() == be16(p@, 0),
            None => r is None,
        },
{
    if p.len() < 2 {
        return None;
    }
    let size: usize = read_be16(p, 0) as usize;
    if p.len() < 2 + size {
        return None;
    }
    Some(sub_vec(p, 2, 2 + size))
}

/// The body of the TPM2B at place `index`, when those before it are TPM2B too.
pub open spec fn body_at(p: Seq<u8>, index: nat) -> Option<Seq<u8>>
    decreases index,
{
    if index == 0 {
        first_body(p)
    } else if first_body(p) is None {
        None
    } else {
        body_at(p.skip(2 + be16(p, 0)), (index - 1) as nat)
    }
}

/// The body of the TPM2B at place `index`, counting from zero.
///
/// Only leading parameters that are TPM2B themselves can be found this way,
/// which is all a policy assertion needs.
pub fn first_sized_parameter_at(p: &[u8], index: usize) -> (r: Option<Vec<u8>>)
    ensures
        match body_at(p@, index as nat) {
            Some(b) => r is Some && r->Some_0@ == b,
            None => r is None,
        },
{
    let mut rest: Vec<u8> = to_vec(p);
    let mut i: usize = 0;
    while i < index
        invariant
            i <= index,
            body_at(p@, index as nat) == body_at(rest@, (index - i) as nat),
        decreases index - i,
    {
        if rest.len() < 2 {
            return None;
        }
        let size: usize = read_be16(rest.as_slice(), 0) as usize;
        if rest.len() < 2 + size {
            return None;
        }
        let next: Vec<u8> = sub_vec(rest.as_slice(), 2 + size, rest.len());
        assert(next@ =~= rest@.skip(2 + size));
        rest = next;
        i = i + 1;
    }
    first_sized_parameter(rest.as_slice())
}

/// A parameter area with another body of the same length in its leading TPM2B.
pub open spec fn spliced(p: Seq<u8>, body: Seq<u8>) -> Seq<u8> {
    p.take(2) + body + p.skip(2 + body.len() as int)
}

/// Put another body of the same length in the leading TPM2B.
fn splice_first_parameter(p: &[u8], body: &[u8]) -> (r: Vec<u8>)
    requires
        2 + body@.len() <= p@.len(),
    ensures
        r@ == spliced(p@, body@),
{
    assert(p@.len() == p.len());
    let mut out: Vec<u8> = sub_vec(p, 0, 2);
    out.extend_from_slice(body);
    let mut rest: Vec<u8> = sub_vec(p, 2 + body.len(), p.len());
    out.append(&mut rest);
    assert(out@ =~= spliced(p@, body@));
    out
}

/// A parameter body as the session's encryption changes it.
///
/// A command has nonceCaller as the newer nonce, and a response nonceTPM. The
/// key is the session key and the authorization value of the entity the
/// session authorizes, whether or not the session is bound to it.
#[verifier::opaque]
pub open spec fn transformed(
    s: Session,
    nonce_caller: Seq<u8>,
    auth: Seq<u8>,
    body: Seq<u8>,
    response: bool,
) -> TpmResult<Seq<u8>> {
    let newer = if response {
        s.nonce_tpm@
    } else {
        nonce_caller
    };
    let older = if response {
        nonce_caller
    } else {
        s.nonce_tpm@
    };
    let value = s.value_with(auth);
    if s.symmetric.algorithm == alg::XOR {
        Ok(obfuscated(s.symmetric.key_bits, value, newer, older, body))
    } else if s.symmetric.algorithm == alg::AES {
        let all = parameter_key_of(s.auth_hash, value, newer, older, s.symmetric.key_bits, 16);
        let n = s.symmetric.key_bits as int / 8;
        Ok(
            crypted(
                alg::CFB,
                all.take(n),
                all.skip(n),
                body,
                if response {
                    Direction::Encrypt
                } else {
                    Direction::Decrypt
                },
            ).0,
        )
    } else {
        Err(TpmRc(rc::SYMMETRIC))
    }
}

/// Apply the session's parameter encryption to a body.
fn transform_parameter(
    s: &Session,
    nonce_caller: &[u8],
    auth: &[u8],
    body: &[u8],
    response: bool,
) -> (r: TpmResult<Vec<u8>>)
    requires
        s.wf(),
        body@.len() <= 0xFFFF,
    ensures
        match transformed(*s, nonce_caller@, auth@, body@, response) {
            Ok(v) => r is Ok && r->Ok_0@ == v && v.len() == body@.len(),
            Err(e) => r is Err && r->Err_0 == e,
        },
{
    reveal(transformed);
    let value: Vec<u8> = s.session_value(auth);
    let newer: &[u8] = if response {
        s.nonce_tpm.as_slice()
    } else {
        nonce_caller
    };
    let older: &[u8] = if response {
        nonce_caller
    } else {
        s.nonce_tpm.as_slice()
    };
    if s.symmetric.algorithm == alg::XOR {
        return xor_obfuscate(s.symmetric.key_bits, value.as_slice(), newer, older, body);
    }
    if s.symmetric.algorithm == alg::AES {
        let pair: (Vec<u8>, Vec<u8>) = parameter_encryption_key(
            s.auth_hash,
            value.as_slice(),
            newer,
            older,
            s.symmetric.key_bits,
            16,
        )?;
        assert(crypt_check(alg::AES, alg::CFB, pair.0@, pair.1@, body@) is Ok);
        if response {
            return cfb_encrypt(pair.0.as_slice(), pair.1.as_slice(), body);
        }
        return cfb_decrypt(pair.0.as_slice(), pair.1.as_slice(), body);
    }
    Err(TpmRc(rc::SYMMETRIC))
}

/// The authorization value of session `i`, which is empty when it authorizes
/// nothing.
pub open spec fn value_at(values: Seq<Vec<u8>>, i: int) -> Seq<u8> {
    if 0 <= i < values.len() {
        values[i]@
    } else {
        Seq::empty()
    }
}

fn auth_at(values: &[Vec<u8>], i: usize) -> (r: Vec<u8>)
    ensures
        r@ == value_at(values@, i as int),
{
    if i < values.len() {
        to_vec(values[i].as_slice())
    } else {
        let none: Vec<u8> = Vec::new();
        assert(none@ =~= Seq::<u8>::empty());
        none
    }
}

/// The parameters of a command with the first one decrypted.
pub open spec fn decrypted(state: TpmState, req: RequestView, values: Seq<Vec<u8>>) -> TpmResult<
    Seq<u8>,
> {
    match first_with(req.sessions, SessionAttributes::DECRYPT, 0) {
        None => Ok(req.parameters),
        Some(i) => {
            let input = req.sessions[i];
            if input.handle == rh::RS_PW {
                Err(TpmRc(rc::ATTRIBUTES).for_session(i + 1))
            } else if !state.sessions.loaded@.contains_key(input.handle) {
                Err(TpmRc(rc::HANDLE).for_session(i + 1))
            } else {
                match first_body(req.parameters) {
                    None => Err(TpmRc(rc::SIZE).for_parameter(1)),
                    Some(body) => match transformed(
                        state.sessions.loaded@[input.handle],
                        input.nonce,
                        value_at(values, i),
                        body,
                        false,
                    ) {
                        Err(e) => Err(e),
                        Ok(plain) => Ok(spliced(req.parameters, plain)),
                    },
                }
            }
        },
    }
}

/// Decrypt the first parameter for the session that encrypted it.
pub fn decrypt_parameters(state: &TpmState, request: &mut Request, values: &[Vec<u8>]) -> (r:
    TpmResult<()>)
    requires
        state.wf(),
    ensures
        match decrypted(*state, old(request)@, values@) {
            Ok(p) => r is Ok && final(request)@ == (RequestView { parameters: p, ..old(request)@ })
                && final(request).sessions == old(request).sessions,
            Err(e) => r is Err && r->Err_0 == e && *final(request) == *old(request),
        },
{
    let i: usize = match find_first(request, SessionAttributes::DECRYPT) {
        Some(i) => i,
        None => {
            return Ok(());
        },
    };
    assert(i < request.sessions.len());
    let input: &SessionInput = &request.sessions[i];
    assert(request@.sessions[i as int] == input@);
    if input.handle == rh::RS_PW {
        return Err(TpmRc(rc::ATTRIBUTES).with_session(i + 1));
    }
    let s: &Session = match state.sessions.get(input.handle) {
        Ok(s) => s,
        Err(e) => {
            return Err(e.with_session(i + 1));
        },
    };
    let body: Vec<u8> = match first_sized_parameter(request.parameters.as_slice()) {
        Some(b) => b,
        None => {
            return Err(TpmRc(rc::SIZE).with_parameter(1));
        },
    };
    let auth: Vec<u8> = auth_at(values, i);
    let plain: Vec<u8> = transform_parameter(
        s,
        input.nonce_caller.as_slice(),
        auth.as_slice(),
        body.as_slice(),
        false,
    )?;
    let changed: Vec<u8> = splice_first_parameter(request.parameters.as_slice(), plain.as_slice());
    request.parameters = changed;
    Ok(())
}

/// The parameters of a response with the first one encrypted.
pub open spec fn encrypted(
    state: TpmState,
    req: RequestView,
    parameters: Seq<u8>,
    values: Seq<Vec<u8>>,
) -> TpmResult<Seq<u8>> {
    match first_with(req.sessions, SessionAttributes::ENCRYPT, 0) {
        None => Ok(parameters),
        Some(i) => {
            let input = req.sessions[i];
            if input.handle == rh::RS_PW {
                Err(TpmRc(rc::ATTRIBUTES).for_session(i + 1))
            } else if !state.sessions.loaded@.contains_key(input.handle) {
                Err(TpmRc(rc::HANDLE))
            } else {
                match first_body(parameters) {
                    None => Ok(parameters),
                    Some(body) => match transformed(
                        state.sessions.loaded@[input.handle],
                        input.nonce,
                        value_at(values, i),
                        body,
                        true,
                    ) {
                        Err(e) => Err(e),
                        Ok(cipher) => Ok(spliced(parameters, cipher)),
                    },
                }
            }
        },
    }
}

/// Encrypt the first response parameter for the session that asked for it.
pub fn encrypt_parameters(
    state: &TpmState,
    request: &Request,
    parameters: &mut Vec<u8>,
    values: &[Vec<u8>],
) -> (r: TpmResult<()>)
    requires
        state.wf(),
    ensures
        match encrypted(*state, request@, old(parameters)@, values@) {
            Ok(p) => r is Ok && final(parameters)@ == p && p.len() == old(parameters)@.len(),
            Err(e) => r is Err && r->Err_0 == e && *final(parameters) == *old(parameters),
        },
{
    let i: usize = match find_first(request, SessionAttributes::ENCRYPT) {
        Some(i) => i,
        None => {
            return Ok(());
        },
    };
    assert(i < request.sessions.len());
    let input: &SessionInput = &request.sessions[i];
    assert(request@.sessions[i as int] == input@);
    if input.handle == rh::RS_PW {
        return Err(TpmRc(rc::ATTRIBUTES).with_session(i + 1));
    }
    let s: &Session = state.sessions.get(input.handle)?;
    let body: Vec<u8> = match first_sized_parameter(parameters.as_slice()) {
        Some(b) => b,
        None => {
            return Ok(());
        },
    };
    let auth: Vec<u8> = auth_at(values, i);
    let cipher: Vec<u8> = transform_parameter(
        s,
        input.nonce_caller.as_slice(),
        auth.as_slice(),
        body.as_slice(),
        true,
    )?;
    let changed: Vec<u8> = splice_first_parameter(parameters.as_slice(), cipher.as_slice());
    *parameters = changed;
    Ok(())
}

/// A response parameter that a session encrypted is what a command parameter
/// becomes again when a session with the same keys decrypts it.
///
/// The session that decrypts has the nonces the other way round.
pub proof fn law_parameter_encryption_round_trips(
    s: Session,
    t: Session,
    nonce_caller: Seq<u8>,
    auth: Seq<u8>,
    body: Seq<u8>,
)
    requires
        s.wf(),
        body.len() <= 0xFFFF,
        t.symmetric == s.symmetric,
        t.auth_hash == s.auth_hash,
        t.session_key@ == s.session_key@,
        t.nonce_tpm@ == nonce_caller,
        s.symmetric.algorithm == alg::XOR || s.symmetric.algorithm == alg::AES,
    ensures
        transformed(
            t,
            s.nonce_tpm@,
            auth,
            transformed(s, nonce_caller, auth, body, true)->Ok_0,
            false,
        ) == Ok::<Seq<u8>, TpmRc>(body),
{
    reveal(transformed);
    let value = s.value_with(auth);
    assert(t.value_with(auth) == value);
    if s.symmetric.algorithm == alg::XOR {
        crate::tpm::crypto::sym::law_obfuscation_undoes_itself(
            s.symmetric.key_bits,
            value,
            s.nonce_tpm@,
            nonce_caller,
            body,
        );
    } else {
        let bits = (s.symmetric.key_bits as u32 + 128) as u32;
        let all = parameter_key_of(
            s.auth_hash,
            value,
            s.nonce_tpm@,
            nonce_caller,
            s.symmetric.key_bits,
            16,
        );
        crate::tpm::crypto::hmac::lemma_kdfa_len(
            s.auth_hash,
            value,
            crate::tpm::engine::session::LABEL_CFB@,
            s.nonce_tpm@,
            nonce_caller,
            bits,
        );
        let n = s.symmetric.key_bits as int / 8;
        crate::tpm::crypto::sym::law_decryption_undoes_encryption(
            alg::CFB,
            all.take(n),
            all.skip(n),
            body,
        );
    }
}

} // verus!
