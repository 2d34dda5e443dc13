//! Authorization sessions.

use vstd::prelude::*;

use crate::tpm::constants::range::{is_hmac_session, is_policy_session};
use crate::tpm::constants::{alg, rc, rh, se};
use crate::tpm::crypto::hash::{
    digest, hash_of, is_supported, lemma_hash_len, size_of, supported,
};
use crate::tpm::crypto::hmac::{
    hmac, hmac_of, kdfa, kdfa_bytes, octets_for,
};
use crate::tpm::error::{TpmRc, TpmResult};
use crate::tpm::structures::attributes::SessionAttributes;
use crate::tpm::structures::schemes::{aes_bits, SymDef};
use crate::util::bytes::{
    constant_time_eq, filled, octets32, push_be32, sub_vec, to_vec,
};

verus! {

/// The label of the key a session starts with.
pub const LABEL_SESSION_KEY: [u8; 3] = [0x41, 0x54, 0x48];

/// The label of the key that encrypts a parameter with a block cipher.
pub const LABEL_CFB: [u8; 3] = [0x43, 0x46, 0x42];

/// What a policy session has asserted so far.
#[derive(Debug, PartialEq, Eq)]
pub struct PolicyState {
    pub digest: Vec<u8>,
    /// The one command the policy allows.
    pub command_code: Option<u32>,
    /// The cpHash the command has to have.
    pub cp_hash: Option<Vec<u8>>,
    /// The digest of the Names the command may be used with.
    pub name_hash: Option<Vec<u8>>,
    /// The digest of the template a creation command has to use.
    pub template_hash: Option<Vec<u8>>,
    /// The digest of the command code and the parameters.
    pub parameters_hash: Option<Vec<u8>>,
    /// The localities the command may come from.
    pub locality: Option<u8>,
    /// The PCR update counter when the PCR were checked.
    pub pcr_update_counter: Option<u32>,
    /// The Time at which the policy stops authorizing.
    pub expiration: Option<u64>,
    /// The nonce a time limit was given with.
    pub timeout_nonce: Vec<u8>,
    /// What TPMA_NV_WRITTEN has to be.
    pub nv_written: Option<bool>,
    pub auth_value_needed: bool,
    pub password_needed: bool,
    pub physical_presence_required: bool,
    pub secure_channel_required: bool,
}

/// True for no digest and for one no longer than the largest there is.
pub open spec fn short(v: Option<Seq<u8>>) -> bool {
    v matches Some(d) ==> d.len() <= 64
}

/// The octets of a value that may be missing.
pub open spec fn seen(v: Option<Vec<u8>>) -> Option<Seq<u8>> {
    match v {
        Some(d) => Some(d@),
        None => None,
    }
}

/// What a policy session has asserted.
#[verifier::ext_equal]
pub struct PolicyView {
    pub digest: Seq<u8>,
    pub command_code: Option<u32>,
    pub cp_hash: Option<Seq<u8>>,
    pub name_hash: Option<Seq<u8>>,
    pub template_hash: Option<Seq<u8>>,
    pub parameters_hash: Option<Seq<u8>>,
    pub locality: Option<u8>,
    pub pcr_update_counter: Option<u32>,
    pub expiration: Option<u64>,
    pub timeout_nonce: Seq<u8>,
    pub nv_written: Option<bool>,
    pub auth_value_needed: bool,
    pub password_needed: bool,
    pub physical_presence_required: bool,
    pub secure_channel_required: bool,
}

impl PolicyView {
    /// True when the digest is one of `hash_alg` and every other value is one
    /// a policy command can have set.
    pub open spec fn wf(self, hash_alg: u16) -> bool {
        &&& self.digest.len() == size_of(hash_alg)
        &&& short(self.cp_hash)
        &&& short(self.name_hash)
        &&& short(self.template_hash)
        &&& short(self.parameters_hash)
        &&& self.timeout_nonce.len() <= 64
    }

    /// The digest extended with a policy command.
    pub open spec fn extended(self, hash_alg: u16, code: u32, data: Seq<u8>) -> PolicyView {
        PolicyView { digest: policy_extended(hash_alg, self.digest, code, data), ..self }
    }

    /// The digest extended with who authorized something, and with what they
    /// called it.
    pub open spec fn authorized(
        self,
        hash_alg: u16,
        code: u32,
        name: Seq<u8>,
        policy_ref: Seq<u8>,
    ) -> PolicyView {
        PolicyView {
            digest: hash_of(
                hash_alg,
                policy_extended(hash_alg, self.digest, code, name) + policy_ref,
            ),
            ..self
        }
    }

    /// The digest back at zeros.
    pub open spec fn restarted(self, hash_alg: u16) -> PolicyView {
        PolicyView { digest: Seq::new(size_of(hash_alg), |i: int| 0u8), ..self }
    }
}

impl View for PolicyState {
    type V = PolicyView;

    open spec fn view(&self) -> PolicyView {
        PolicyView {
            digest: self.digest@,
            command_code: self.command_code,
            cp_hash: seen(self.cp_hash),
            name_hash: seen(self.name_hash),
            template_hash: seen(self.template_hash),
            parameters_hash: seen(self.parameters_hash),
            locality: self.locality,
            pcr_update_counter: self.pcr_update_counter,
            expiration: self.expiration,
            timeout_nonce: self.timeout_nonce@,
            nv_written: self.nv_written,
            auth_value_needed: self.auth_value_needed,
            password_needed: self.password_needed,
            physical_presence_required: self.physical_presence_required,
            secure_channel_required: self.secure_channel_required,
        }
    }
}

/// A copy of a value that may be missing.
fn copied(v: &Option<Vec<u8>>) -> (r: Option<Vec<u8>>)
    ensures
        seen(r) == seen(*v),
{
    match v {
        Some(d) => Some(to_vec(d.as_slice())),
        None => None,
    }
}

impl PolicyState {
    /// True when every value is one a policy command can have set.
    pub open spec fn wf(&self, hash_alg: u16) -> bool {
        self@.wf(hash_alg)
    }

    /// A copy.
    pub fn copy(&self) -> (r: PolicyState)
        ensures
            r@ == self@,
    {
        PolicyState {
            digest: to_vec(self.digest.as_slice()),
            command_code: self.command_code,
            cp_hash: copied(&self.cp_hash),
            name_hash: copied(&self.name_hash),
            template_hash: copied(&self.template_hash),
            parameters_hash: copied(&self.parameters_hash),
            locality: self.locality,
            pcr_update_counter: self.pcr_update_counter,
            expiration: self.expiration,
            timeout_nonce: to_vec(self.timeout_nonce.as_slice()),
            nv_written: self.nv_written,
            auth_value_needed: self.auth_value_needed,
            password_needed: self.password_needed,
            physical_presence_required: self.physical_presence_required,
            secure_channel_required: self.secure_channel_required,
        }
    }

    /// Extend the digest with a policy command.
    pub fn extend(&mut self, hash_alg: u16, code: u32, data: &[u8])
        requires
            supported(hash_alg),
        ensures
            final(self)@ == old(self)@.extended(hash_alg, code, data@),
            final(self).digest@.len() == size_of(hash_alg),
    {
        broadcast use lemma_hash_len;

        let mut input: Vec<u8> = to_vec(self.digest.as_slice());
        push_be32(&mut input, code);
        input.extend_from_slice(data);
        assert(input@ =~= self.digest@ + octets32(code) + data@);
        match digest(hash_alg, input.as_slice()) {
            Ok(d) => {
                self.digest = d;
            },
            Err(_) => {},
        }
    }

    /// Extend the digest with who authorized something, and with what they
    /// called it.
    pub fn authorize(&mut self, hash_alg: u16, code: u32, name: &[u8], policy_ref: &[u8])
        requires
            supported(hash_alg),
        ensures
            final(self)@ == old(self)@.authorized(hash_alg, code, name@, policy_ref@),
            final(self).digest@.len() == size_of(hash_alg),
    {
        broadcast use lemma_hash_len;

        self.extend(hash_alg, code, name);
        let mut input: Vec<u8> = to_vec(self.digest.as_slice());
        input.extend_from_slice(policy_ref);
        assert(input@ =~= self.digest@ + policy_ref@);
        match digest(hash_alg, input.as_slice()) {
            Ok(d) => {
                self.digest = d;
            },
            Err(_) => {},
        }
    }

    /// Put the digest back to zeros.
    pub fn restart_digest(&mut self, hash_alg: u16)
        requires
            supported(hash_alg),
        ensures
            final(self)@ == old(self)@.restarted(hash_alg),
            final(self).digest@.len() == size_of(hash_alg),
    {
        match crate::tpm::crypto::hash::digest_size(hash_alg) {
            Ok(size) => {
                self.digest = filled(0, size);
                assert(self.digest@ =~= Seq::new(size_of(hash_alg), |i: int| 0u8));
            },
            Err(_) => {},
        }
    }

    /// True when nothing is asserted.
    pub open spec fn is_fresh(&self, hash_alg: u16) -> bool {
        &&& self.digest@ == Seq::new(size_of(hash_alg), |i: int| 0u8)
        &&& self.command_code is None
        &&& self.cp_hash is None
        &&& self.name_hash is None
        &&& self.template_hash is None
        &&& self.parameters_hash is None
        &&& self.locality is None
        &&& self.pcr_update_counter is None
        &&& self.expiration is None
        &&& self.timeout_nonce@.len() == 0
        &&& self.nv_written is None
        &&& !self.auth_value_needed
        &&& !self.password_needed
        &&& !self.physical_presence_required
        &&& !self.secure_channel_required
    }

    /// A policy with nothing asserted, for a digest of `size` octets.
    pub fn new(size: usize) -> (r: PolicyState)
        ensures
            r.digest@ == Seq::new(size as nat, |i: int| 0u8),
            forall|h: u16| size_of(h) == size ==> #[trigger] r.is_fresh(h),
            forall|h: u16| size_of(h) == size ==> #[trigger] r.wf(h),
    {
        PolicyState {
            digest: filled(0, size),
            command_code: None,
            cp_hash: None,
            name_hash: None,
            template_hash: None,
            parameters_hash: None,
            locality: None,
            pcr_update_counter: None,
            expiration: None,
            timeout_nonce: Vec::new(),
            nv_written: None,
            auth_value_needed: false,
            password_needed: false,
            physical_presence_required: false,
            secure_channel_required: false,
        }
    }
}

/// What a session has audited.
#[derive(Debug, PartialEq, Eq)]
pub struct AuditState {
    pub is_audit: bool,
    pub digest: Vec<u8>,
}

/// A session.
#[derive(Debug)]
pub struct Session {
    pub handle: u32,
    pub session_type: u8,
    pub auth_hash: u16,
    pub nonce_tpm: Vec<u8>,
    pub nonce_caller: Vec<u8>,
    pub session_key: Vec<u8>,
    /// The entity the session is bound to, or TPM_RH_NULL.
    pub bind: u32,
    /// What identifies the bound entity: see [`bind_identity`].
    pub bind_name: Vec<u8>,
    /// True when the bound entity has dictionary attack protection.
    pub bind_uses_lockout: bool,
    /// The Time at which the session started.
    pub start_time: u64,
    /// The run of Time in which the session started.
    pub time_epoch: u64,
    pub symmetric: SymDef,
    pub policy: PolicyState,
    pub audit: AuditState,
}

/// True for the three session types.
pub open spec fn spec_is_session_type(t: u8) -> bool {
    t == se::HMAC || t == se::POLICY || t == se::TRIAL
}

/// True for the three session types.
#[verifier::when_used_as_spec(spec_is_session_type)]
pub fn is_session_type(t: u8) -> (r: bool)
    ensures
        r == spec_is_session_type(t),
{
    t == se::HMAC || t == se::POLICY || t == se::TRIAL
}

/// True for a handle that names a session of type `t`.
pub open spec fn handle_fits(handle: u32, t: u8) -> bool {
    if t == se::HMAC {
        is_hmac_session(handle)
    } else {
        is_policy_session(handle)
    }
}

/// An authorization value without the zero octets that end it.
pub open spec fn trimmed(v: Seq<u8>) -> Seq<u8>
    decreases v.len(),
{
    if v.len() > 0 && v.last() == 0 {
        trimmed(v.drop_last())
    } else {
        v
    }
}

/// An authorization value without the zero octets that end it.
pub fn trim_auth(v: &[u8]) -> (r: Vec<u8>)
    ensures
        r@ == trimmed(v@),
        r@.len() <= v@.len(),
{
    let mut n: usize = v.len();
    assert(v@.take(n as int) =~= v@);
    while n > 0 && v[n - 1] == 0
        invariant
            n <= v@.len(),
            trimmed(v@) == trimmed(v@.take(n as int)),
        decreases n,
    {
        assert(v@.take(n as int).drop_last() =~= v@.take(n - 1));
        n = n - 1;
    }
    assert(trimmed(v@.take(n as int)) == v@.take(n as int));
    let r: Vec<u8> = sub_vec(v, 0, n);
    assert(r@ =~= v@.take(n as int));
    r
}

/// Names one after the other.
pub open spec fn joined(names: Seq<Vec<u8>>) -> Seq<u8>
    decreases names.len(),
{
    if names.len() == 0 {
        Seq::empty()
    } else {
        joined(names.drop_last()) + names.last()@
    }
}

/// Names one after the other.
pub fn join(names: &[Vec<u8>]) -> (r: Vec<u8>)
    ensures
        r@ == joined(names@),
{
    let mut out: Vec<u8> = Vec::new();
    let mut i: usize = 0;
    while i < names.len()
        invariant
            i <= names@.len(),
            out@ == joined(names@.take(i as int)),
        decreases names@.len() - i,
    {
        out.extend_from_slice(names[i].as_slice());
        assert(names@.take(i + 1).drop_last() =~= names@.take(i as int));
        assert(out@ =~= joined(names@.take(i as int)) + names@[i as int]@);
        i = i + 1;
    }
    assert(names@.take(names@.len() as int) =~= names@);
    out
}

/// cpHash over octets of Names.
pub open spec fn cp_hash_over(hash_alg: u16, code: u32, names: Seq<u8>, parameters: Seq<u8>) -> Seq<
    u8,
> {
    hash_of(hash_alg, octets32(code) + names + parameters)
}

/// cpHash: the digest of the command code, the Names of the handles and the
/// parameters.
pub open spec fn cp_hash_of(
    hash_alg: u16,
    code: u32,
    names: Seq<Vec<u8>>,
    parameters: Seq<u8>,
) -> Seq<u8> {
    cp_hash_over(hash_alg, code, joined(names), parameters)
}

/// cpHash: the digest of the command code, the Names of the handles and the
/// parameters.
pub fn cp_hash(hash_alg: u16, code: u32, names: &[Vec<u8>], parameters: &[u8]) -> (r: TpmResult<
    Vec<u8>,
>)
    ensures
        r is Ok <==> supported(hash_alg),
        r matches Ok(d) ==> d@ == cp_hash_of(hash_alg, code, names@, parameters@),
        r matches Err(e) ==> e == TpmRc(rc::HASH),
{
    let mut data: Vec<u8> = Vec::new();
    push_be32(&mut data, code);
    let mut all: Vec<u8> = join(names);
    data.append(&mut all);
    data.extend_from_slice(parameters);
    assert(data@ =~= octets32(code) + joined(names@) + parameters@);
    digest(hash_alg, data.as_slice())
}

/// rpHash: the digest of the response code, the command code and the response
/// parameters.
pub open spec fn rp_hash_of(hash_alg: u16, response: u32, code: u32, parameters: Seq<u8>) -> Seq<
    u8,
> {
    hash_of(hash_alg, octets32(response) + octets32(code) + parameters)
}

/// rpHash: the digest of the response code, the command code and the response
/// parameters.
pub fn rp_hash(hash_alg: u16, response: u32, code: u32, parameters: &[u8]) -> (r: TpmResult<
    Vec<u8>,
>)
    ensures
        r is Ok <==> supported(hash_alg),
        r matches Ok(d) ==> d@ == rp_hash_of(hash_alg, response, code, parameters@),
        r matches Err(e) ==> e == TpmRc(rc::HASH),
{
    let mut data: Vec<u8> = Vec::new();
    push_be32(&mut data, response);
    push_be32(&mut data, code);
    data.extend_from_slice(parameters);
    assert(data@ =~= octets32(response) + octets32(code) + parameters@);
    digest(hash_alg, data.as_slice())
}

/// The HMAC of an authorization.
pub open spec fn auth_hmac_of(
    hash_alg: u16,
    key: Seq<u8>,
    p_hash: Seq<u8>,
    newer: Seq<u8>,
    older: Seq<u8>,
    decrypt: Seq<u8>,
    encrypt: Seq<u8>,
    attributes: SessionAttributes,
) -> Seq<u8> {
    hmac_of(
        hash_alg,
        key,
        p_hash + newer + older + decrypt + encrypt + seq![attributes.0],
    )
}

/// The HMAC of an authorization, with the nonces of the sessions that decrypt
/// and encrypt a parameter.
pub fn auth_hmac_with_nonces(
    hash_alg: u16,
    key: &[u8],
    p_hash: &[u8],
    newer: &[u8],
    older: &[u8],
    decrypt: &[u8],
    encrypt: &[u8],
    attributes: SessionAttributes,
) -> (r: TpmResult<Vec<u8>>)
    ensures
        r is Ok <==> supported(hash_alg),
        r matches Ok(d) ==> d@ == auth_hmac_of(
            hash_alg,
            key@,
            p_hash@,
            newer@,
            older@,
            decrypt@,
            encrypt@,
            attributes,
        ),
        r matches Err(e) ==> e == TpmRc(rc::HASH),
{
    let mut data: Vec<u8> = to_vec(p_hash);
    data.extend_from_slice(newer);
    data.extend_from_slice(older);
    data.extend_from_slice(decrypt);
    data.extend_from_slice(encrypt);
    data.push(attributes.0);
    assert(data@ =~= p_hash@ + newer@ + older@ + decrypt@ + encrypt@ + seq![attributes.0]);
    hmac(hash_alg, key, data.as_slice())
}

/// The HMAC of an authorization without the nonces of other sessions.
pub fn auth_hmac(
    hash_alg: u16,
    key: &[u8],
    p_hash: &[u8],
    newer: &[u8],
    older: &[u8],
    attributes: SessionAttributes,
) -> (r: TpmResult<Vec<u8>>)
    ensures
        r is Ok <==> supported(hash_alg),
        r matches Ok(d) ==> d@ == auth_hmac_of(
            hash_alg,
            key@,
            p_hash@,
            newer@,
            older@,
            Seq::empty(),
            Seq::empty(),
            attributes,
        ),
        r matches Err(e) ==> e == TpmRc(rc::HASH),
{
    let none: Vec<u8> = Vec::new();
    assert(none@ =~= Seq::<u8>::empty());
    auth_hmac_with_nonces(
        hash_alg,
        key,
        p_hash,
        newer,
        older,
        none.as_slice(),
        none.as_slice(),
        attributes,
    )
}

/// True when `given` proves the key. Without a key the HMAC may be left out,
/// and one that was sent is still checked.
pub open spec fn hmac_accepted(key: Seq<u8>, expected: Seq<u8>, given: Seq<u8>) -> bool {
    (key.len() == 0 && given.len() == 0) || given == expected
}

/// True when `given` proves the key.
pub fn auth_hmac_accepted(key: &[u8], expected: &[u8], given: &[u8]) -> (r: bool)
    ensures
        r == hmac_accepted(key@, expected@, given@),
{
    if key.len() == 0 && given.len() == 0 {
        return true;
    }
    constant_time_eq(expected, given)
}

/// An audit digest extended with a command and its response. Octets that are
/// no digest stand for zeros.
pub open spec fn audit_extended(hash_alg: u16, old: Seq<u8>, cp: Seq<u8>, rp: Seq<u8>) -> Seq<u8> {
    let start = if old.len() == size_of(hash_alg) {
        old
    } else {
        Seq::new(size_of(hash_alg), |i: int| 0u8)
    };
    hash_of(hash_alg, start + cp + rp)
}

/// An audit digest extended with a command and its response.
pub fn extend_audit(hash_alg: u16, old: &[u8], cp: &[u8], rp: &[u8]) -> (r: TpmResult<Vec<u8>>)
    ensures
        r is Ok <==> supported(hash_alg),
        r matches Ok(d) ==> d@ == audit_extended(hash_alg, old@, cp@, rp@),
        r matches Err(e) ==> e == TpmRc(rc::HASH),
{
    let size: usize = crate::tpm::crypto::hash::digest_size(hash_alg)?;
    let mut data: Vec<u8> = if old.len() == size {
        to_vec(old)
    } else {
        filled(0, size)
    };
    let ghost start = data@;
    assert(old@.len() == size_of(hash_alg) ==> start == old@);
    assert(old@.len() != size_of(hash_alg) ==> start =~= Seq::new(
        size_of(hash_alg),
        |i: int| 0u8,
    ));
    data.extend_from_slice(cp);
    data.extend_from_slice(rp);
    assert(data@ =~= start + cp@ + rp@);
    digest(hash_alg, data.as_slice())
}

/// The key a session starts with. One that is neither bound nor salted has
/// none.
pub open spec fn session_key_of(
    hash_alg: u16,
    bind_auth: Seq<u8>,
    salt: Seq<u8>,
    nonce_tpm: Seq<u8>,
    nonce_caller: Seq<u8>,
) -> Seq<u8> {
    if bind_auth.len() == 0 && salt.len() == 0 {
        Seq::empty()
    } else {
        kdfa(
            hash_alg,
            bind_auth + salt,
            LABEL_SESSION_KEY@,
            nonce_tpm,
            nonce_caller,
            (size_of(hash_alg) * 8) as u32,
        )
    }
}

/// The key a session starts with.
pub fn derive_session_key(
    hash_alg: u16,
    bind_auth: &[u8],
    salt: &[u8],
    nonce_tpm: &[u8],
    nonce_caller: &[u8],
) -> (r: TpmResult<Vec<u8>>)
    ensures
        r is Ok <==> supported(hash_alg),
        r matches Ok(k) ==> k@ == session_key_of(
            hash_alg,
            bind_auth@,
            salt@,
            nonce_tpm@,
            nonce_caller@,
        ) && k@.len() <= 64,
        r matches Err(e) ==> e == TpmRc(rc::HASH),
{
    let size: usize = crate::tpm::crypto::hash::digest_size(hash_alg)?;
    if bind_auth.len() == 0 && salt.len() == 0 {
        let none: Vec<u8> = Vec::new();
        assert(none@ =~= Seq::<u8>::empty());
        return Ok(none);
    }
    let mut key: Vec<u8> = to_vec(bind_auth);
    key.extend_from_slice(salt);
    assert(key@ =~= bind_auth@ + salt@);
    kdfa_bytes(
        hash_alg,
        key.as_slice(),
        LABEL_SESSION_KEY.as_slice(),
        nonce_tpm,
        nonce_caller,
        (size * 8) as u32,
    )
}

/// The octets that a parameter's key and initial value are taken from.
pub open spec fn parameter_key_of(
    hash_alg: u16,
    session_value: Seq<u8>,
    newer: Seq<u8>,
    older: Seq<u8>,
    key_bits: u16,
    block: usize,
) -> Seq<u8> {
    kdfa(
        hash_alg,
        session_value,
        LABEL_CFB@,
        newer,
        older,
        (key_bits as u32 + block as u32 * 8) as u32,
    )
}

/// The key and the initial value that encrypt a parameter.
pub fn parameter_encryption_key(
    hash_alg: u16,
    session_value: &[u8],
    newer: &[u8],
    older: &[u8],
    key_bits: u16,
    block: usize,
) -> (r: TpmResult<(Vec<u8>, Vec<u8>)>)
    requires
        block <= 64,
        key_bits % 8 == 0,
    ensures
        r is Ok <==> supported(hash_alg),
        r matches Ok(k) ==> {
            let all = parameter_key_of(
                hash_alg,
                session_value@,
                newer@,
                older@,
                key_bits,
                block,
            );
            &&& k.0@ == all.take(key_bits as int / 8)
            &&& k.1@ == all.skip(key_bits as int / 8)
            &&& k.0@.len() == key_bits as int / 8
            &&& k.1@.len() == block
        },
        r matches Err(e) ==> e == TpmRc(rc::HASH),
{
    let bits: u32 = key_bits as u32 + block as u32 * 8;
    let all: Vec<u8> = kdfa_bytes(
        hash_alg,
        session_value,
        LABEL_CFB.as_slice(),
        newer,
        older,
        bits,
    )?;
    let at: usize = (key_bits / 8) as usize;
    assert(octets_for(bits) == at + block);
    let key: Vec<u8> = sub_vec(all.as_slice(), 0, at);
    let iv: Vec<u8> = sub_vec(all.as_slice(), at, all.len());
    assert(key@ =~= all@.take(at as int));
    assert(iv@ =~= all@.skip(at as int));
    Ok((key, iv))
}

/// What identifies a bound entity: its Name and its authorization value.
///
/// An entity that is made again with the same Name and another value is not
/// the bound one.
pub open spec fn bind_identity(name: Seq<u8>, auth: Seq<u8>) -> Seq<u8> {
    name + trimmed(auth)
}

/// A policy digest extended with a policy command.
pub open spec fn policy_extended(hash_alg: u16, digest: Seq<u8>, code: u32, data: Seq<u8>) -> Seq<
    u8,
> {
    hash_of(hash_alg, digest + octets32(code) + data)
}

impl Session {
    /// True when every value is one a session can have.
    pub open spec fn wf(&self) -> bool {
        &&& is_session_type(self.session_type)
        &&& supported(self.auth_hash)
        &&& self.nonce_tpm@.len() <= 64
        &&& self.nonce_caller@.len() <= 64
        &&& self.session_key@.len() <= 64
        &&& self.bind_name@.len() <= 1024
        &&& self.audit.digest@.len() <= 64
        &&& self.policy.wf(self.auth_hash)
        &&& self.symmetric.algorithm == alg::XOR ==> supported(self.symmetric.key_bits)
        &&& self.symmetric.algorithm == alg::AES ==> aes_bits(self.symmetric.key_bits)
    }

    /// True when `session` may stand for the arguments of [`Session::new`].
    pub open spec fn acceptable(
        session_type: u8,
        auth_hash: u16,
        nonce_tpm: Seq<u8>,
        nonce_caller: Seq<u8>,
        session_key: Seq<u8>,
        bind_name: Seq<u8>,
        symmetric: SymDef,
    ) -> bool {
        &&& is_session_type(session_type)
        &&& supported(auth_hash)
        &&& nonce_tpm.len() <= 64
        &&& nonce_caller.len() <= 64
        &&& session_key.len() <= 64
        &&& bind_name.len() <= 1024
        &&& symmetric.algorithm == alg::XOR ==> supported(symmetric.key_bits)
        &&& symmetric.algorithm == alg::AES ==> aes_bits(symmetric.key_bits)
    }

    /// A session with nothing asserted and nothing audited.
    pub fn new(
        handle: u32,
        session_type: u8,
        auth_hash: u16,
        nonce_tpm: Vec<u8>,
        nonce_caller: Vec<u8>,
        session_key: Vec<u8>,
        bind: u32,
        bind_name: Vec<u8>,
        symmetric: SymDef,
    ) -> (r: TpmResult<Session>)
        ensures
            r is Ok <==> Session::acceptable(
                session_type,
                auth_hash,
                nonce_tpm@,
                nonce_caller@,
                session_key@,
                bind_name@,
                symmetric,
            ),
            r matches Err(e) ==> e == (if !is_session_type(session_type) {
                TpmRc(rc::VALUE)
            } else if !supported(auth_hash) {
                TpmRc(rc::HASH)
            } else {
                TpmRc(rc::SIZE)
            }),
            r matches Ok(s) ==> {
                &&& s == (Session {
                    handle,
                    session_type,
                    auth_hash,
                    nonce_tpm,
                    nonce_caller,
                    session_key,
                    bind,
                    bind_name,
                    bind_uses_lockout: false,
                    start_time: 0,
                    time_epoch: 0,
                    symmetric,
                    policy: s.policy,
                    audit: s.audit,
                })
                &&& s.policy.is_fresh(auth_hash)
                &&& !s.audit.is_audit
                &&& s.audit.digest@.len() == 0
                &&& s.wf()
            },
    {
        if !is_session_type(session_type) {
            return Err(TpmRc(rc::VALUE));
        }
        let size: usize = crate::tpm::crypto::hash::digest_size(auth_hash)?;
        if nonce_tpm.len() > 64 || nonce_caller.len() > 64 || session_key.len() > 64
            || bind_name.len() > 1024 {
            return Err(TpmRc(rc::SIZE));
        }
        if symmetric.algorithm == alg::XOR && !is_supported(symmetric.key_bits) {
            return Err(TpmRc(rc::SIZE));
        }
        if symmetric.algorithm == alg::AES && symmetric.key_bits != 128 && symmetric.key_bits != 192
            && symmetric.key_bits != 256 {
            return Err(TpmRc(rc::SIZE));
        }
        let policy = PolicyState::new(size);
        assert(policy.is_fresh(auth_hash));
        assert(policy.wf(auth_hash));
        Ok(
            Session {
                handle,
                session_type,
                auth_hash,
                nonce_tpm,
                nonce_caller,
                session_key,
                bind,
                bind_name,
                bind_uses_lockout: false,
                start_time: 0,
                time_epoch: 0,
                symmetric,
                policy,
                audit: AuditState { is_audit: false, digest: Vec::new() },
            },
        )
    }

    /// True for a session that carries a policy, a trial one included.
    pub open spec fn spec_is_policy(&self) -> bool {
        self.session_type == se::POLICY || self.session_type == se::TRIAL
    }

    /// True for a session that carries a policy, a trial one included.
    #[verifier::when_used_as_spec(spec_is_policy)]
    pub fn is_policy(&self) -> (r: bool)
        ensures
            r == self.spec_is_policy(),
    {
        self.session_type == se::POLICY || self.session_type == se::TRIAL
    }

    /// True for a session that only computes a policy digest.
    pub open spec fn spec_is_trial(&self) -> bool {
        self.session_type == se::TRIAL
    }

    /// True for a session that only computes a policy digest.
    #[verifier::when_used_as_spec(spec_is_trial)]
    pub fn is_trial(&self) -> (r: bool)
        ensures
            r == self.spec_is_trial(),
    {
        self.session_type == se::TRIAL
    }

    /// True for an HMAC session.
    pub open spec fn spec_is_hmac(&self) -> bool {
        self.session_type == se::HMAC
    }

    /// True for an HMAC session.
    #[verifier::when_used_as_spec(spec_is_hmac)]
    pub fn is_hmac(&self) -> (r: bool)
        ensures
            r == self.spec_is_hmac(),
    {
        self.session_type == se::HMAC
    }

    /// Forget every policy assertion.
    pub fn restart_policy(&mut self)
        requires
            supported(old(self).auth_hash),
        ensures
            *final(self) == (Session { policy: final(self).policy, ..*old(self) }),
            final(self).policy.is_fresh(old(self).auth_hash),
            old(self).wf() ==> final(self).wf(),
    {
        match crate::tpm::crypto::hash::digest_size(self.auth_hash) {
            Ok(size) => {
                let fresh = PolicyState::new(size);
                assert(fresh.is_fresh(self.auth_hash));
                assert(fresh.wf(self.auth_hash));
                self.policy = fresh;
            },
            Err(_) => {},
        }
    }

    /// What identifies a bound entity.
    pub fn bind_id(name: &[u8], auth: &[u8]) -> (r: Vec<u8>)
        ensures
            r@ == bind_identity(name@, auth@),
    {
        let mut out: Vec<u8> = to_vec(name);
        let mut value: Vec<u8> = trim_auth(auth);
        out.append(&mut value);
        assert(out@ =~= bind_identity(name@, auth@));
        out
    }

    /// True when the session is bound to the entity.
    pub open spec fn bound_to(&self, name: Seq<u8>, auth: Seq<u8>) -> bool {
        self.bind != rh::NULL && self.bind_name@ == bind_identity(name, auth)
    }

    /// True when the session is bound to the entity.
    pub fn is_bound_to(&self, name: &[u8], auth: &[u8]) -> (r: bool)
        ensures
            r == self.bound_to(name@, auth@),
    {
        let id: Vec<u8> = Session::bind_id(name, auth);
        self.bind != rh::NULL && constant_time_eq(self.bind_name.as_slice(), id.as_slice())
    }

    /// The key of an authorization HMAC for an entity.
    ///
    /// A policy session takes the authorization value only when its policy
    /// asks for it. An HMAC session takes it unless the session is bound to
    /// that entity, because the session key then holds it already.
    pub open spec fn hmac_key_for(&self, name: Seq<u8>, auth: Seq<u8>) -> Seq<u8> {
        if self.is_policy() {
            if self.policy.auth_value_needed {
                self.session_key@ + trimmed(auth)
            } else {
                self.session_key@
            }
        } else if self.bound_to(name, auth) {
            self.session_key@
        } else {
            self.session_key@ + trimmed(auth)
        }
    }

    /// The key of an authorization HMAC for an entity.
    pub fn hmac_key(&self, name: &[u8], auth: &[u8]) -> (r: Vec<u8>)
        ensures
            r@ == self.hmac_key_for(name@, auth@),
    {
        let with_auth: bool = if self.is_policy() {
            self.policy.auth_value_needed
        } else {
            !self.is_bound_to(name, auth)
        };
        if with_auth {
            self.session_value(auth)
        } else {
            to_vec(self.session_key.as_slice())
        }
    }

    /// The key of parameter encryption: the session key and the authorization
    /// value of the entity the session authorizes.
    pub open spec fn value_with(&self, auth: Seq<u8>) -> Seq<u8> {
        self.session_key@ + trimmed(auth)
    }

    /// The key of parameter encryption.
    pub fn session_value(&self, auth: &[u8]) -> (r: Vec<u8>)
        ensures
            r@ == self.value_with(auth@),
    {
        let mut out: Vec<u8> = to_vec(self.session_key.as_slice());
        let mut value: Vec<u8> = trim_auth(auth);
        out.append(&mut value);
        assert(out@ =~= self.value_with(auth@));
        out
    }
}

} // verus!
