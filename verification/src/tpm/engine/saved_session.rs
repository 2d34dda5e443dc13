//! Sessions as a saved context holds them.

use vstd::prelude::*;

use super::session::{is_session_type, AuditState, PolicyState, PolicyView, Session};
use crate::tpm::commands::wire::{raw_u16, raw_u32, raw_u64, raw_u8, take_sized};
use crate::tpm::constants::rc;
use crate::tpm::crypto::hash::{digest_size, size_of, supported};
use crate::tpm::error::{TpmRc, TpmResult};
use crate::tpm::marshal::{
    holds, lemma_holds_all, lemma_holds_both, lemma_holds_sized, lemma_holds_u16, lemma_holds_u32,
    lemma_holds_u64, lemma_holds_u8, parse_sized, sized, Parsed, Reader, Writer,
};
use crate::tpm::structures::attest::yes_no_octet;
use crate::tpm::structures::schemes::SymDef;
use crate::util::bytes::{octets16, octets32, octets64};

verus! {

/// What a session holds.
#[verifier::ext_equal]
pub struct SessionView {
    pub handle: u32,
    pub session_type: u8,
    pub auth_hash: u16,
    pub nonce_tpm: Seq<u8>,
    pub nonce_caller: Seq<u8>,
    pub session_key: Seq<u8>,
    pub bind: u32,
    pub bind_name: Seq<u8>,
    pub bind_uses_lockout: bool,
    pub start_time: u64,
    pub time_epoch: u64,
    pub symmetric: SymDef,
    pub policy: PolicyView,
    pub is_audit: bool,
    pub audit_digest: Seq<u8>,
}

impl View for Session {
    type V = SessionView;

    open spec fn view(&self) -> SessionView {
        SessionView {
            handle: self.handle,
            session_type: self.session_type,
            auth_hash: self.auth_hash,
            nonce_tpm: self.nonce_tpm@,
            nonce_caller: self.nonce_caller@,
            session_key: self.session_key@,
            bind: self.bind,
            bind_name: self.bind_name@,
            bind_uses_lockout: self.bind_uses_lockout,
            start_time: self.start_time,
            time_epoch: self.time_epoch,
            symmetric: self.symmetric,
            policy: self.policy@,
            is_audit: self.audit.is_audit,
            audit_digest: self.audit.digest@,
        }
    }
}

/// A value that may be missing, behind whether it is there.
#[verifier::opaque]
pub open spec fn opt_octets(v: Option<Seq<u8>>) -> Seq<u8> {
    match v {
        Some(x) => seq![1u8] + x,
        None => seq![0u8],
    }
}

/// The octets of a UINT32 that may be missing.
pub open spec fn opt32(v: Option<u32>) -> Option<Seq<u8>> {
    match v {
        Some(x) => Some(octets32(x)),
        None => None,
    }
}

/// The octets of a UINT64 that may be missing.
pub open spec fn opt64(v: Option<u64>) -> Option<Seq<u8>> {
    match v {
        Some(x) => Some(octets64(x)),
        None => None,
    }
}

/// An octet that may be missing.
pub open spec fn opt8(v: Option<u8>) -> Option<Seq<u8>> {
    match v {
        Some(x) => Some(seq![x]),
        None => None,
    }
}

/// The octets of a bool that may be missing.
pub open spec fn opt_bool(v: Option<bool>) -> Option<Seq<u8>> {
    match v {
        Some(x) => Some(seq![yes_no_octet(x)]),
        None => None,
    }
}

/// Octets behind their size that may be missing.
pub open spec fn opt_sized(v: Option<Seq<u8>>) -> Option<Seq<u8>> {
    match v {
        Some(x) => Some(sized(x)),
        None => None,
    }
}

/// Whether a value is there.
pub open spec fn parse_flag(d: Seq<u8>, at: int) -> Parsed<bool> {
    match raw_u8(d, at) {
        Err(e) => Err(e),
        Ok((v, next)) => Ok((v != 0, next)),
    }
}

/// A UINT32 that may be missing.
pub open spec fn parse_opt32(d: Seq<u8>, at: int) -> Parsed<Option<u32>> {
    match parse_flag(d, at) {
        Err(e) => Err(e),
        Ok((there, n1)) => if !there {
            Ok((None, n1))
        } else {
            match raw_u32(d, n1) {
                Err(e) => Err(e),
                Ok((v, n2)) => Ok((Some(v), n2)),
            }
        },
    }
}

/// A UINT64 that may be missing.
pub open spec fn parse_opt64(d: Seq<u8>, at: int) -> Parsed<Option<u64>> {
    match parse_flag(d, at) {
        Err(e) => Err(e),
        Ok((there, n1)) => if !there {
            Ok((None, n1))
        } else {
            match raw_u64(d, n1) {
                Err(e) => Err(e),
                Ok((v, n2)) => Ok((Some(v), n2)),
            }
        },
    }
}

/// An octet that may be missing.
pub open spec fn parse_opt8(d: Seq<u8>, at: int) -> Parsed<Option<u8>> {
    match parse_flag(d, at) {
        Err(e) => Err(e),
        Ok((there, n1)) => if !there {
            Ok((None, n1))
        } else {
            match raw_u8(d, n1) {
                Err(e) => Err(e),
                Ok((v, n2)) => Ok((Some(v), n2)),
            }
        },
    }
}

/// A bool that may be missing.
pub open spec fn parse_opt_bool(d: Seq<u8>, at: int) -> Parsed<Option<bool>> {
    match parse_flag(d, at) {
        Err(e) => Err(e),
        Ok((there, n1)) => if !there {
            Ok((None, n1))
        } else {
            match parse_flag(d, n1) {
                Err(e) => Err(e),
                Ok((v, n2)) => Ok((Some(v), n2)),
            }
        },
    }
}

/// At most 64 octets behind their size that may be missing.
pub open spec fn parse_opt_sized(d: Seq<u8>, at: int) -> Parsed<Option<Seq<u8>>> {
    match parse_flag(d, at) {
        Err(e) => Err(e),
        Ok((there, n1)) => if !there {
            Ok((None, n1))
        } else {
            match parse_sized(d, n1, 64) {
                Err(e) => Err(e),
                Ok((v, n2)) => Ok((Some(v), n2)),
            }
        },
    }
}

proof fn lemma_flag(d: Seq<u8>, at: int, v: bool)
    requires
        holds(d, at, seq![yes_no_octet(v)]),
    ensures
        parse_flag(d, at) == Ok::<(bool, int), TpmRc>((v, at + 1)),
{
    lemma_holds_u8(d, at, yes_no_octet(v));
}

proof fn lemma_opt(d: Seq<u8>, at: int, v: Option<Seq<u8>>)
    requires
        holds(d, at, opt_octets(v)),
    ensures
        parse_flag(d, at) == Ok::<(bool, int), TpmRc>((v is Some, at + 1)),
        v matches Some(x) ==> holds(d, at + 1, x),
{
    reveal(opt_octets);
    match v {
        Some(x) => {
            lemma_holds_both(d, at, seq![1u8], x);
            lemma_holds_u8(d, at, 1u8);
        },
        None => {
            lemma_holds_u8(d, at, 0u8);
        },
    }
}

proof fn lemma_opt32(d: Seq<u8>, at: int, v: Option<u32>)
    requires
        holds(d, at, opt_octets(opt32(v))),
    ensures
        parse_opt32(d, at) == Ok::<(Option<u32>, int), TpmRc>(
            (v, at + opt_octets(opt32(v)).len()),
        ),
{
    reveal(opt_octets);
    lemma_opt(d, at, opt32(v));
    if v is Some {
        lemma_holds_u32(d, at + 1, v->0);
    }
}

proof fn lemma_opt64(d: Seq<u8>, at: int, v: Option<u64>)
    requires
        holds(d, at, opt_octets(opt64(v))),
    ensures
        parse_opt64(d, at) == Ok::<(Option<u64>, int), TpmRc>(
            (v, at + opt_octets(opt64(v)).len()),
        ),
{
    reveal(opt_octets);
    lemma_opt(d, at, opt64(v));
    if v is Some {
        lemma_holds_u64(d, at + 1, v->0);
    }
}

proof fn lemma_opt8(d: Seq<u8>, at: int, v: Option<u8>)
    requires
        holds(d, at, opt_octets(opt8(v))),
    ensures
        parse_opt8(d, at) == Ok::<(Option<u8>, int), TpmRc>((v, at + opt_octets(opt8(v)).len())),
{
    reveal(opt_octets);
    lemma_opt(d, at, opt8(v));
    if v is Some {
        lemma_holds_u8(d, at + 1, v->0);
    }
}

proof fn lemma_opt_bool(d: Seq<u8>, at: int, v: Option<bool>)
    requires
        holds(d, at, opt_octets(opt_bool(v))),
    ensures
        parse_opt_bool(d, at) == Ok::<(Option<bool>, int), TpmRc>(
            (v, at + opt_octets(opt_bool(v)).len()),
        ),
{
    reveal(opt_octets);
    lemma_opt(d, at, opt_bool(v));
    if v is Some {
        lemma_flag(d, at + 1, v->0);
    }
}

proof fn lemma_opt_sized(d: Seq<u8>, at: int, v: Option<Seq<u8>>)
    requires
        holds(d, at, opt_octets(opt_sized(v))),
        v matches Some(x) ==> x.len() <= 64,
    ensures
        parse_opt_sized(d, at) == Ok::<(Option<Seq<u8>>, int), TpmRc>(
            (v, at + opt_octets(opt_sized(v)).len()),
        ),
{
    reveal(opt_octets);
    lemma_opt(d, at, opt_sized(v));
    if v is Some {
        lemma_holds_sized(d, at + 1, v->0, 64);
    }
}

/// The digests a policy holds.
#[verifier::opaque]
pub open spec fn policy_digests(p: PolicyView) -> Seq<u8> {
    sized(p.digest) + (opt_octets(opt_sized(p.cp_hash)) + (opt_octets(opt_sized(p.name_hash)) + (
    opt_octets(opt_sized(p.template_hash)) + (opt_octets(opt_sized(p.parameters_hash)) + sized(
        p.timeout_nonce,
    )))))
}

/// The limits a policy holds.
#[verifier::opaque]
pub open spec fn policy_limits(p: PolicyView) -> Seq<u8> {
    opt_octets(opt32(p.command_code)) + (opt_octets(opt8(p.locality)) + (opt_octets(
        opt32(p.pcr_update_counter),
    ) + (opt_octets(opt64(p.expiration)) + opt_octets(opt_bool(p.nv_written)))))
}

/// What a policy needs to be satisfied.
#[verifier::opaque]
pub open spec fn policy_needs(p: PolicyView) -> Seq<u8> {
    seq![yes_no_octet(p.auth_value_needed)] + (seq![yes_no_octet(p.password_needed)] + (seq![
        yes_no_octet(p.physical_presence_required),
    ] + seq![yes_no_octet(p.secure_channel_required)]))
}

/// The digests of a policy: its own, those of the command, the Names, the
/// template and the parameters, and the nonce.
pub struct PolicyDigests {
    pub digest: Seq<u8>,
    pub cp_hash: Option<Seq<u8>>,
    pub name_hash: Option<Seq<u8>>,
    pub template_hash: Option<Seq<u8>>,
    pub parameters_hash: Option<Seq<u8>>,
    pub timeout_nonce: Seq<u8>,
}

/// The digests of a policy at `at`.
#[verifier::opaque]
pub open spec fn parse_policy_digests(d: Seq<u8>, at: int) -> Parsed<PolicyDigests> {
    match parse_sized(d, at, 64) {
        Err(e) => Err(e),
        Ok((digest, n1)) => match parse_opt_sized(d, n1) {
            Err(e) => Err(e),
            Ok((cp_hash, n2)) => match parse_opt_sized(d, n2) {
                Err(e) => Err(e),
                Ok((name_hash, n3)) => match parse_opt_sized(d, n3) {
                    Err(e) => Err(e),
                    Ok((template_hash, n4)) => match parse_opt_sized(d, n4) {
                        Err(e) => Err(e),
                        Ok((parameters_hash, n5)) => match parse_sized(d, n5, 64) {
                            Err(e) => Err(e),
                            Ok((timeout_nonce, n6)) => Ok(
                                (
                                    PolicyDigests {
                                        digest,
                                        cp_hash,
                                        name_hash,
                                        template_hash,
                                        parameters_hash,
                                        timeout_nonce,
                                    },
                                    n6,
                                ),
                            ),
                        },
                    },
                },
            },
        },
    }
}

/// The limits of a policy: the command, the localities, the PCR, the time and
/// whether an Index was written.
pub struct PolicyLimits {
    pub command_code: Option<u32>,
    pub locality: Option<u8>,
    pub pcr_update_counter: Option<u32>,
    pub expiration: Option<u64>,
    pub nv_written: Option<bool>,
}

/// The limits of a policy at `at`.
#[verifier::opaque]
pub open spec fn parse_policy_limits(d: Seq<u8>, at: int) -> Parsed<PolicyLimits> {
    match parse_opt32(d, at) {
        Err(e) => Err(e),
        Ok((command_code, n1)) => match parse_opt8(d, n1) {
            Err(e) => Err(e),
            Ok((locality, n2)) => match parse_opt32(d, n2) {
                Err(e) => Err(e),
                Ok((pcr_update_counter, n3)) => match parse_opt64(d, n3) {
                    Err(e) => Err(e),
                    Ok((expiration, n4)) => match parse_opt_bool(d, n4) {
                        Err(e) => Err(e),
                        Ok((nv_written, n5)) => Ok(
                            (
                                PolicyLimits {
                                    command_code,
                                    locality,
                                    pcr_update_counter,
                                    expiration,
                                    nv_written,
                                },
                                n5,
                            ),
                        ),
                    },
                },
            },
        },
    }
}

/// What a policy needs at `at`.
#[verifier::opaque]
pub open spec fn parse_policy_needs(d: Seq<u8>, at: int) -> Parsed<(bool, bool, bool, bool)> {
    match parse_flag(d, at) {
        Err(e) => Err(e),
        Ok((a, n1)) => match parse_flag(d, n1) {
            Err(e) => Err(e),
            Ok((b, n2)) => match parse_flag(d, n2) {
                Err(e) => Err(e),
                Ok((c, n3)) => match parse_flag(d, n3) {
                    Err(e) => Err(e),
                    Ok((f, n4)) => Ok(((a, b, c, f), n4)),
                },
            },
        },
    }
}

/// A policy as octets.
#[verifier::opaque]
pub open spec fn policy_octets(p: PolicyView) -> Seq<u8> {
    policy_digests(p) + (policy_limits(p) + policy_needs(p))
}

/// The policy at `at`.
#[verifier::opaque]
pub open spec fn parse_policy(d: Seq<u8>, at: int) -> Parsed<PolicyView> {
    match parse_policy_digests(d, at) {
        Err(e) => Err(e),
        Ok((g, n1)) => match parse_policy_limits(d, n1) {
            Err(e) => Err(e),
            Ok((l, n2)) => match parse_policy_needs(d, n2) {
                Err(e) => Err(e),
                Ok((f, n3)) => Ok(
                    (
                        PolicyView {
                            digest: g.digest,
                            command_code: l.command_code,
                            cp_hash: g.cp_hash,
                            name_hash: g.name_hash,
                            template_hash: g.template_hash,
                            parameters_hash: g.parameters_hash,
                            locality: l.locality,
                            pcr_update_counter: l.pcr_update_counter,
                            expiration: l.expiration,
                            timeout_nonce: g.timeout_nonce,
                            nv_written: l.nv_written,
                            auth_value_needed: f.0,
                            password_needed: f.1,
                            physical_presence_required: f.2,
                            secure_channel_required: f.3,
                        },
                        n3,
                    ),
                ),
            },
        },
    }
}

proof fn lemma_policy_digests(d: Seq<u8>, at: int, p: PolicyView)
    requires
        holds(d, at, policy_digests(p)),
        exists|h: u16| p.wf(h),
        p.digest.len() <= 64,
    ensures
        parse_policy_digests(d, at) == Ok::<(PolicyDigests, int), TpmRc>(
            (
                PolicyDigests {
                    digest: p.digest,
                    cp_hash: p.cp_hash,
                    name_hash: p.name_hash,
                    template_hash: p.template_hash,
                    parameters_hash: p.parameters_hash,
                    timeout_nonce: p.timeout_nonce,
                },
                at + policy_digests(p).len(),
            ),
        ),
{
    reveal(parse_policy_digests);
    reveal(policy_digests);
    let e1 = sized(p.timeout_nonce);
    let o5 = opt_octets(opt_sized(p.parameters_hash));
    let o4 = opt_octets(opt_sized(p.template_hash));
    let o3 = opt_octets(opt_sized(p.name_hash));
    let o2 = opt_octets(opt_sized(p.cp_hash));
    let o1 = sized(p.digest);
    lemma_holds_both(d, at, o1, o2 + (o3 + (o4 + (o5 + e1))));
    let n1 = at + o1.len();
    lemma_holds_both(d, n1, o2, o3 + (o4 + (o5 + e1)));
    let n2 = n1 + o2.len();
    lemma_holds_both(d, n2, o3, o4 + (o5 + e1));
    let n3 = n2 + o3.len();
    lemma_holds_both(d, n3, o4, o5 + e1);
    let n4 = n3 + o4.len();
    lemma_holds_both(d, n4, o5, e1);
    let n5 = n4 + o5.len();
    lemma_holds_sized(d, at, p.digest, 64);
    lemma_opt_sized(d, n1, p.cp_hash);
    lemma_opt_sized(d, n2, p.name_hash);
    lemma_opt_sized(d, n3, p.template_hash);
    lemma_opt_sized(d, n4, p.parameters_hash);
    lemma_holds_sized(d, n5, p.timeout_nonce, 64);
}

proof fn lemma_policy_limits(d: Seq<u8>, at: int, p: PolicyView)
    requires
        holds(d, at, policy_limits(p)),
    ensures
        parse_policy_limits(d, at) == Ok::<(PolicyLimits, int), TpmRc>(
            (
                PolicyLimits {
                    command_code: p.command_code,
                    locality: p.locality,
                    pcr_update_counter: p.pcr_update_counter,
                    expiration: p.expiration,
                    nv_written: p.nv_written,
                },
                at + policy_limits(p).len(),
            ),
        ),
{
    reveal(parse_policy_limits);
    reveal(policy_limits);
    let o1 = opt_octets(opt32(p.command_code));
    let o2 = opt_octets(opt8(p.locality));
    let o3 = opt_octets(opt32(p.pcr_update_counter));
    let o4 = opt_octets(opt64(p.expiration));
    let o5 = opt_octets(opt_bool(p.nv_written));
    lemma_holds_both(d, at, o1, o2 + (o3 + (o4 + o5)));
    let n1 = at + o1.len();
    lemma_holds_both(d, n1, o2, o3 + (o4 + o5));
    let n2 = n1 + o2.len();
    lemma_holds_both(d, n2, o3, o4 + o5);
    let n3 = n2 + o3.len();
    lemma_holds_both(d, n3, o4, o5);
    let n4 = n3 + o4.len();
    lemma_opt32(d, at, p.command_code);
    lemma_opt8(d, n1, p.locality);
    lemma_opt32(d, n2, p.pcr_update_counter);
    lemma_opt64(d, n3, p.expiration);
    lemma_opt_bool(d, n4, p.nv_written);
}

proof fn lemma_policy_needs(d: Seq<u8>, at: int, p: PolicyView)
    requires
        holds(d, at, policy_needs(p)),
    ensures
        parse_policy_needs(d, at) == Ok::<((bool, bool, bool, bool), int), TpmRc>(
            (
                (
                    p.auth_value_needed,
                    p.password_needed,
                    p.physical_presence_required,
                    p.secure_channel_required,
                ),
                at + policy_needs(p).len(),
            ),
        ),
{
    reveal(parse_policy_needs);
    reveal(policy_needs);
    let a = seq![yes_no_octet(p.auth_value_needed)];
    let b = seq![yes_no_octet(p.password_needed)];
    let c = seq![yes_no_octet(p.physical_presence_required)];
    let f = seq![yes_no_octet(p.secure_channel_required)];
    lemma_holds_both(d, at, a, b + (c + f));
    lemma_holds_both(d, at + 1, b, c + f);
    lemma_holds_both(d, at + 2, c, f);
    lemma_flag(d, at, p.auth_value_needed);
    lemma_flag(d, at + 1, p.password_needed);
    lemma_flag(d, at + 2, p.physical_presence_required);
    lemma_flag(d, at + 3, p.secure_channel_required);
}

proof fn lemma_policy(d: Seq<u8>, at: int, p: PolicyView, hash_alg: u16)
    requires
        holds(d, at, policy_octets(p)),
        p.wf(hash_alg),
        p.digest.len() <= 64,
    ensures
        parse_policy(d, at) == Ok::<(PolicyView, int), TpmRc>((p, at + policy_octets(p).len())),
{
    reveal(parse_policy);
    reveal(policy_octets);
    let a = policy_digests(p);
    let b = policy_limits(p);
    let c = policy_needs(p);
    lemma_holds_both(d, at, a, b + c);
    lemma_holds_both(d, at + a.len(), b, c);
    lemma_policy_digests(d, at, p);
    lemma_policy_limits(d, at + a.len(), p);
    lemma_policy_needs(d, at + a.len() + b.len(), p);
}

/// The start of a session as octets.
#[verifier::opaque]
pub open spec fn session_head(s: SessionView) -> Seq<u8> {
    octets32(s.handle) + (seq![s.session_type] + (octets16(s.auth_hash) + (sized(s.nonce_tpm) + (
    sized(s.nonce_caller) + sized(s.session_key)))))
}

/// What a session is bound to, when it started and its cipher, as octets.
#[verifier::opaque]
pub open spec fn session_binding(s: SessionView) -> Seq<u8> {
    octets32(s.bind) + (sized(s.bind_name) + (seq![yes_no_octet(s.bind_uses_lockout)] + (octets64(
        s.start_time,
    ) + (octets64(s.time_epoch) + s.symmetric.octets()))))
}

/// What a session audits, as octets.
#[verifier::opaque]
pub open spec fn session_audit(s: SessionView) -> Seq<u8> {
    seq![yes_no_octet(s.is_audit)] + sized(s.audit_digest)
}

/// A session as octets.
pub open spec fn session_octets(s: SessionView) -> Seq<u8> {
    session_head(s) + (session_binding(s) + (policy_octets(s.policy) + session_audit(s)))
}

/// The start of a session.
pub struct SessionHead {
    pub handle: u32,
    pub session_type: u8,
    pub auth_hash: u16,
    pub nonce_tpm: Seq<u8>,
    pub nonce_caller: Seq<u8>,
    pub session_key: Seq<u8>,
}

/// The start of a session at `at`.
#[verifier::opaque]
pub open spec fn parse_head(d: Seq<u8>, at: int) -> Parsed<SessionHead> {
    match raw_u32(d, at) {
        Err(e) => Err(e),
        Ok((handle, n1)) => match raw_u8(d, n1) {
            Err(e) => Err(e),
            Ok((session_type, n2)) => match raw_u16(d, n2) {
                Err(e) => Err(e),
                Ok((auth_hash, n3)) => match parse_sized(d, n3, 64) {
                    Err(e) => Err(e),
                    Ok((nonce_tpm, n4)) => match parse_sized(d, n4, 64) {
                        Err(e) => Err(e),
                        Ok((nonce_caller, n5)) => match parse_sized(d, n5, 64) {
                            Err(e) => Err(e),
                            Ok((session_key, n6)) => Ok(
                                (
                                    SessionHead {
                                        handle,
                                        session_type,
                                        auth_hash,
                                        nonce_tpm,
                                        nonce_caller,
                                        session_key,
                                    },
                                    n6,
                                ),
                            ),
                        },
                    },
                },
            },
        },
    }
}

/// What a session is bound to, when it started and its cipher.
pub struct SessionBinding {
    pub bind: u32,
    pub bind_name: Seq<u8>,
    pub bind_uses_lockout: bool,
    pub start_time: u64,
    pub time_epoch: u64,
    pub symmetric: SymDef,
}

/// What a session is bound to at `at`.
#[verifier::opaque]
pub open spec fn parse_binding(d: Seq<u8>, at: int) -> Parsed<SessionBinding> {
    match raw_u32(d, at) {
        Err(e) => Err(e),
        Ok((bind, n1)) => match parse_sized(d, n1, 1024) {
            Err(e) => Err(e),
            Ok((bind_name, n2)) => match parse_flag(d, n2) {
                Err(e) => Err(e),
                Ok((bind_uses_lockout, n3)) => match raw_u64(d, n3) {
                    Err(e) => Err(e),
                    Ok((start_time, n4)) => match raw_u64(d, n4) {
                        Err(e) => Err(e),
                        Ok((time_epoch, n5)) => match SymDef::parse(d, n5, true) {
                            Err(e) => Err(e),
                            Ok((symmetric, n6)) => Ok(
                                (
                                    SessionBinding {
                                        bind,
                                        bind_name,
                                        bind_uses_lockout,
                                        start_time,
                                        time_epoch,
                                        symmetric,
                                    },
                                    n6,
                                ),
                            ),
                        },
                    },
                },
            },
        },
    }
}

/// What a session audits at `at`.
#[verifier::opaque]
pub open spec fn parse_audit(d: Seq<u8>, at: int) -> Parsed<(bool, Seq<u8>)> {
    match parse_flag(d, at) {
        Err(e) => Err(e),
        Ok((is_audit, n1)) => match parse_sized(d, n1, 64) {
            Err(e) => Err(e),
            Ok((digest, n2)) => Ok(((is_audit, digest), n2)),
        },
    }
}

/// The session that octets hold. One that no session can be is refused.
pub open spec fn parse_session(d: Seq<u8>) -> TpmResult<SessionView> {
    match parse_head(d, 0) {
        Err(e) => Err(e),
        Ok((h, n1)) => match parse_binding(d, n1) {
            Err(e) => Err(e),
            Ok((b, n2)) => match parse_policy(d, n2) {
                Err(e) => Err(e),
                Ok((p, n3)) => match parse_audit(d, n3) {
                    Err(e) => Err(e),
                    Ok((a, _)) => if !is_session_type(h.session_type) {
                        Err(TpmRc(rc::VALUE))
                    } else if !supported(h.auth_hash) {
                        Err(TpmRc(rc::HASH))
                    } else if p.digest.len() != size_of(h.auth_hash) {
                        Err(TpmRc(rc::SIZE))
                    } else {
                        Ok(
                            SessionView {
                                handle: h.handle,
                                session_type: h.session_type,
                                auth_hash: h.auth_hash,
                                nonce_tpm: h.nonce_tpm,
                                nonce_caller: h.nonce_caller,
                                session_key: h.session_key,
                                bind: b.bind,
                                bind_name: b.bind_name,
                                bind_uses_lockout: b.bind_uses_lockout,
                                start_time: b.start_time,
                                time_epoch: b.time_epoch,
                                symmetric: b.symmetric,
                                policy: p,
                                is_audit: a.0,
                                audit_digest: a.1,
                            },
                        )
                    },
                },
            },
        },
    }
}

proof fn lemma_head(d: Seq<u8>, at: int, s: Session)
    requires
        holds(d, at, session_head(s@)),
        s.wf(),
    ensures
        parse_head(d, at) == Ok::<(SessionHead, int), TpmRc>(
            (
                SessionHead {
                    handle: s.handle,
                    session_type: s.session_type,
                    auth_hash: s.auth_hash,
                    nonce_tpm: s.nonce_tpm@,
                    nonce_caller: s.nonce_caller@,
                    session_key: s.session_key@,
                },
                at + session_head(s@).len(),
            ),
        ),
{
    reveal(parse_head);
    reveal(session_head);
    let o1 = octets32(s.handle);
    let o2 = seq![s.session_type];
    let o3 = octets16(s.auth_hash);
    let o4 = sized(s.nonce_tpm@);
    let o5 = sized(s.nonce_caller@);
    let o6 = sized(s.session_key@);
    lemma_holds_both(d, at, o1, o2 + (o3 + (o4 + (o5 + o6))));
    lemma_holds_both(d, at + 4, o2, o3 + (o4 + (o5 + o6)));
    lemma_holds_both(d, at + 5, o3, o4 + (o5 + o6));
    lemma_holds_both(d, at + 7, o4, o5 + o6);
    lemma_holds_both(d, at + 7 + o4.len(), o5, o6);
    lemma_holds_u32(d, at, s.handle);
    lemma_holds_u8(d, at + 4, s.session_type);
    lemma_holds_u16(d, at + 5, s.auth_hash);
    lemma_holds_sized(d, at + 7, s.nonce_tpm@, 64);
    lemma_holds_sized(d, at + 7 + o4.len(), s.nonce_caller@, 64);
    lemma_holds_sized(d, at + 7 + o4.len() + o5.len(), s.session_key@, 64);
}

proof fn lemma_binding(d: Seq<u8>, at: int, s: Session)
    requires
        holds(d, at, session_binding(s@)),
        s.wf(),
        SymDef::fits(s.symmetric, true),
    ensures
        parse_binding(d, at) == Ok::<(SessionBinding, int), TpmRc>(
            (
                SessionBinding {
                    bind: s.bind,
                    bind_name: s.bind_name@,
                    bind_uses_lockout: s.bind_uses_lockout,
                    start_time: s.start_time,
                    time_epoch: s.time_epoch,
                    symmetric: s.symmetric,
                },
                at + session_binding(s@).len(),
            ),
        ),
{
    reveal(parse_binding);
    reveal(session_binding);
    let o1 = octets32(s.bind);
    let o2 = sized(s.bind_name@);
    let o3 = seq![yes_no_octet(s.bind_uses_lockout)];
    let o4 = octets64(s.start_time);
    let o5 = octets64(s.time_epoch);
    let o6 = s.symmetric.octets();
    lemma_holds_both(d, at, o1, o2 + (o3 + (o4 + (o5 + o6))));
    lemma_holds_both(d, at + 4, o2, o3 + (o4 + (o5 + o6)));
    let n2 = at + 4 + o2.len();
    lemma_holds_both(d, n2, o3, o4 + (o5 + o6));
    lemma_holds_both(d, n2 + 1, o4, o5 + o6);
    lemma_holds_both(d, n2 + 9, o5, o6);
    lemma_holds_u32(d, at, s.bind);
    lemma_holds_sized(d, at + 4, s.bind_name@, 1024);
    lemma_flag(d, n2, s.bind_uses_lockout);
    lemma_holds_u64(d, n2 + 1, s.start_time);
    lemma_holds_u64(d, n2 + 9, s.time_epoch);
    crate::tpm::structures::schemes::lemma_sym_reads(d, n2 + 17, s.symmetric, true);
}

proof fn lemma_audit(d: Seq<u8>, at: int, s: Session)
    requires
        holds(d, at, session_audit(s@)),
        s.wf(),
    ensures
        parse_audit(d, at) == Ok::<((bool, Seq<u8>), int), TpmRc>(
            ((s@.is_audit, s@.audit_digest), at + session_audit(s@).len()),
        ),
{
    reveal(parse_audit);
    reveal(session_audit);
    lemma_holds_both(d, at, seq![yes_no_octet(s@.is_audit)], sized(s@.audit_digest));
    lemma_flag(d, at, s@.is_audit);
    lemma_holds_sized(d, at + 1, s@.audit_digest, 64);
}

/// A session comes back out of its context with everything it held, every
/// policy assertion included.
pub proof fn law_a_session_context_round_trips(s: Session)
    requires
        s.wf(),
        SymDef::fits(s.symmetric, true),
    ensures
        parse_session(session_octets(s@)) == Ok::<SessionView, TpmRc>(s@),
{
    let d = session_octets(s@);
    let a = session_head(s@);
    let b = session_binding(s@);
    let c = policy_octets(s@.policy);
    let f = session_audit(s@);
    lemma_holds_all(d);
    lemma_holds_both(d, 0, a, b + (c + f));
    lemma_holds_both(d, a.len() as int, b, c + f);
    lemma_holds_both(d, (a.len() + b.len()) as int, c, f);
    let n3 = (a.len() + b.len() + c.len()) as int;
    lemma_audit(d, n3, s);
    lemma_head(d, 0, s);
    lemma_binding(d, a.len() as int, s);
    lemma_policy(d, (a.len() + b.len()) as int, s@.policy, s.auth_hash);
}

/// Write a bool.
fn write_flag(w: &mut Writer, v: bool)
    ensures
        final(w).written() == old(w).written() + seq![yes_no_octet(v)],
        final(w).good() == old(w).good(),
{
    w.u8(
        if v {
            1
        } else {
            0
        },
    );
    assert(w.written() =~= old(w).written() + seq![yes_no_octet(v)]);
}

/// Write octets that may be missing.
fn write_opt_sized(w: &mut Writer, v: &Option<Vec<u8>>)
    requires
        super::session::short(super::session::seen(*v)),
    ensures
        final(w).written() == old(w).written() + opt_octets(opt_sized(super::session::seen(*v))),
        final(w).good() == old(w).good(),
{
    proof {
        reveal(opt_octets);
    }
    match v {
        Some(x) => {
            w.u8(1);
            w.sized16(x.as_slice());
        },
        None => {
            w.u8(0);
        },
    }
    assert(w.written() =~= old(w).written() + opt_octets(opt_sized(super::session::seen(*v))));
}

/// Write a UINT32 that may be missing.
fn write_opt32(w: &mut Writer, v: Option<u32>)
    ensures
        final(w).written() == old(w).written() + opt_octets(opt32(v)),
        final(w).good() == old(w).good(),
{
    proof {
        reveal(opt_octets);
    }
    match v {
        Some(x) => {
            w.u8(1);
            w.u32(x);
        },
        None => {
            w.u8(0);
        },
    }
    assert(w.written() =~= old(w).written() + opt_octets(opt32(v)));
}

/// Write a UINT64 that may be missing.
fn write_opt64(w: &mut Writer, v: Option<u64>)
    ensures
        final(w).written() == old(w).written() + opt_octets(opt64(v)),
        final(w).good() == old(w).good(),
{
    proof {
        reveal(opt_octets);
    }
    match v {
        Some(x) => {
            w.u8(1);
            w.u64(x);
        },
        None => {
            w.u8(0);
        },
    }
    assert(w.written() =~= old(w).written() + opt_octets(opt64(v)));
}

/// Write an octet that may be missing.
fn write_opt8(w: &mut Writer, v: Option<u8>)
    ensures
        final(w).written() == old(w).written() + opt_octets(opt8(v)),
        final(w).good() == old(w).good(),
{
    proof {
        reveal(opt_octets);
    }
    match v {
        Some(x) => {
            w.u8(1);
            w.u8(x);
        },
        None => {
            w.u8(0);
        },
    }
    assert(w.written() =~= old(w).written() + opt_octets(opt8(v)));
}

/// Write a bool that may be missing.
fn write_opt_bool(w: &mut Writer, v: Option<bool>)
    ensures
        final(w).written() == old(w).written() + opt_octets(opt_bool(v)),
        final(w).good() == old(w).good(),
{
    proof {
        reveal(opt_octets);
    }
    match v {
        Some(x) => {
            w.u8(1);
            write_flag(w, x);
        },
        None => {
            w.u8(0);
        },
    }
    assert(w.written() =~= old(w).written() + opt_octets(opt_bool(v)));
}

/// Six pieces written one after the other stand behind what was there.
proof fn lemma_six_pieces(
    w: Seq<u8>,
    a: Seq<u8>,
    b: Seq<u8>,
    c: Seq<u8>,
    d: Seq<u8>,
    e: Seq<u8>,
    f: Seq<u8>,
)
    ensures
        w + a + b + c + d + e + f == w + (a + (b + (c + (d + (e + f))))),
{
    assert(w + a + b + c + d + e + f =~= w + (a + (b + (c + (d + (e + f))))));
}

impl PolicyState {
    /// Write the digests of the policy.
    fn marshal_digests(&self, w: &mut Writer)
        requires
            exists|h: u16| self.wf(h),
            self.digest@.len() <= 64,
        ensures
            final(w).written() == old(w).written() + policy_digests(self@),
            final(w).good() == old(w).good(),
    {
        proof {
            reveal(policy_digests);
        }
        w.sized16(self.digest.as_slice());
        write_opt_sized(w, &self.cp_hash);
        write_opt_sized(w, &self.name_hash);
        write_opt_sized(w, &self.template_hash);
        write_opt_sized(w, &self.parameters_hash);
        w.sized16(self.timeout_nonce.as_slice());
        proof {
            lemma_six_pieces(
                old(w).written(),
                sized(self@.digest),
                opt_octets(opt_sized(self@.cp_hash)),
                opt_octets(opt_sized(self@.name_hash)),
                opt_octets(opt_sized(self@.template_hash)),
                opt_octets(opt_sized(self@.parameters_hash)),
                sized(self@.timeout_nonce),
            );
        }
    }

    /// Write the limits of the policy.
    fn marshal_limits(&self, w: &mut Writer)
        ensures
            final(w).written() == old(w).written() + policy_limits(self@),
            final(w).good() == old(w).good(),
    {
        proof {
            reveal(policy_limits);
        }
        write_opt32(w, self.command_code);
        write_opt8(w, self.locality);
        write_opt32(w, self.pcr_update_counter);
        write_opt64(w, self.expiration);
        write_opt_bool(w, self.nv_written);
        assert(w.written() =~= old(w).written() + policy_limits(self@));
    }

    /// Write what the policy needs.
    fn marshal_needs(&self, w: &mut Writer)
        ensures
            final(w).written() == old(w).written() + policy_needs(self@),
            final(w).good() == old(w).good(),
    {
        proof {
            reveal(policy_needs);
        }
        write_flag(w, self.auth_value_needed);
        write_flag(w, self.password_needed);
        write_flag(w, self.physical_presence_required);
        write_flag(w, self.secure_channel_required);
        assert(w.written() =~= old(w).written() + policy_needs(self@));
    }

    /// Write the policy.
    pub fn marshal(&self, w: &mut Writer)
        requires
            exists|h: u16| self.wf(h),
            self.digest@.len() <= 64,
        ensures
            final(w).written() == old(w).written() + policy_octets(self@),
            final(w).good() == old(w).good(),
    {
        proof {
            reveal(policy_octets);
        }
        self.marshal_digests(w);
        self.marshal_limits(w);
        self.marshal_needs(w);
        assert(w.written() =~= old(w).written() + policy_octets(self@));
    }

    /// Read a policy.
    pub fn unmarshal(r: &mut Reader) -> (out: TpmResult<PolicyState>)
        ensures
            final(r).data() == old(r).data(),
            0 <= old(r).at() <= final(r).at() <= final(r).data().len(),
            match parse_policy(old(r).data(), old(r).at()) {
                Ok((v, next)) => out is Ok && out->Ok_0@ == v && final(r).at() == next
                    && v.digest.len() <= 64 && v.timeout_nonce.len() <= 64
                    && super::session::short(v.cp_hash) && super::session::short(v.name_hash)
                    && super::session::short(v.template_hash) && super::session::short(
                    v.parameters_hash,
                ),
                Err(e) => out is Err && out->Err_0 == e,
            },
    {
        proof {
            reveal(parse_policy);
            reveal(parse_policy_digests);
            reveal(parse_policy_limits);
            reveal(parse_policy_needs);
        }
        let digest: Vec<u8> = take_sized::<64>(r)?;
        let cp_hash: Option<Vec<u8>> = read_opt_sized(r)?;
        let name_hash: Option<Vec<u8>> = read_opt_sized(r)?;
        let template_hash: Option<Vec<u8>> = read_opt_sized(r)?;
        let parameters_hash: Option<Vec<u8>> = read_opt_sized(r)?;
        let timeout_nonce: Vec<u8> = take_sized::<64>(r)?;
        let command_code: Option<u32> = read_opt32(r)?;
        let locality: Option<u8> = read_opt8(r)?;
        let pcr_update_counter: Option<u32> = read_opt32(r)?;
        let expiration: Option<u64> = read_opt64(r)?;
        let nv_written: Option<bool> = read_opt_bool(r)?;
        let auth_value_needed: bool = r.u8()? != 0;
        let password_needed: bool = r.u8()? != 0;
        let physical_presence_required: bool = r.u8()? != 0;
        let secure_channel_required: bool = r.u8()? != 0;
        Ok(
            PolicyState {
                digest,
                command_code,
                cp_hash,
                name_hash,
                template_hash,
                parameters_hash,
                locality,
                pcr_update_counter,
                expiration,
                timeout_nonce,
                nv_written,
                auth_value_needed,
                password_needed,
                physical_presence_required,
                secure_channel_required,
            },
        )
    }
}

/// Read octets that may be missing.
fn read_opt_sized(r: &mut Reader) -> (out: TpmResult<Option<Vec<u8>>>)
    ensures
        final(r).data() == old(r).data(),
        0 <= old(r).at() <= final(r).at() <= final(r).data().len(),
        match parse_opt_sized(old(r).data(), old(r).at()) {
            Ok((v, next)) => out is Ok && super::session::seen(out->Ok_0) == v && final(r).at()
                == next && super::session::short(v),
            Err(e) => out is Err && out->Err_0 == e,
        },
{
    if r.u8()? == 0 {
        return Ok(None);
    }
    Ok(Some(take_sized::<64>(r)?))
}

/// Read a UINT32 that may be missing.
fn read_opt32(r: &mut Reader) -> (out: TpmResult<Option<u32>>)
    ensures
        final(r).data() == old(r).data(),
        0 <= old(r).at() <= final(r).at() <= final(r).data().len(),
        match parse_opt32(old(r).data(), old(r).at()) {
            Ok((v, next)) => out == Ok::<Option<u32>, TpmRc>(v) && final(r).at() == next,
            Err(e) => out is Err && out->Err_0 == e,
        },
{
    if r.u8()? == 0 {
        return Ok(None);
    }
    Ok(Some(r.u32()?))
}

/// Read a UINT64 that may be missing.
fn read_opt64(r: &mut Reader) -> (out: TpmResult<Option<u64>>)
    ensures
        final(r).data() == old(r).data(),
        0 <= old(r).at() <= final(r).at() <= final(r).data().len(),
        match parse_opt64(old(r).data(), old(r).at()) {
            Ok((v, next)) => out == Ok::<Option<u64>, TpmRc>(v) && final(r).at() == next,
            Err(e) => out is Err && out->Err_0 == e,
        },
{
    if r.u8()? == 0 {
        return Ok(None);
    }
    Ok(Some(r.u64()?))
}

/// Read an octet that may be missing.
fn read_opt8(r: &mut Reader) -> (out: TpmResult<Option<u8>>)
    ensures
        final(r).data() == old(r).data(),
        0 <= old(r).at() <= final(r).at() <= final(r).data().len(),
        match parse_opt8(old(r).data(), old(r).at()) {
            Ok((v, next)) => out == Ok::<Option<u8>, TpmRc>(v) && final(r).at() == next,
            Err(e) => out is Err && out->Err_0 == e,
        },
{
    if r.u8()? == 0 {
        return Ok(None);
    }
    Ok(Some(r.u8()?))
}

/// Read a bool that may be missing.
fn read_opt_bool(r: &mut Reader) -> (out: TpmResult<Option<bool>>)
    ensures
        final(r).data() == old(r).data(),
        0 <= old(r).at() <= final(r).at() <= final(r).data().len(),
        match parse_opt_bool(old(r).data(), old(r).at()) {
            Ok((v, next)) => out == Ok::<Option<bool>, TpmRc>(v) && final(r).at() == next,
            Err(e) => out is Err && out->Err_0 == e,
        },
{
    if r.u8()? == 0 {
        return Ok(None);
    }
    Ok(Some(r.u8()? != 0))
}

/// Write the start of a session.
fn write_head(w: &mut Writer, session: &Session)
    requires
        session.wf(),
    ensures
        final(w).written() == old(w).written() + session_head(session@),
        final(w).good() == old(w).good(),
{
    proof {
        reveal(session_head);
    }
    w.u32(session.handle);
    w.u8(session.session_type);
    w.u16(session.auth_hash);
    w.sized16(session.nonce_tpm.as_slice());
    w.sized16(session.nonce_caller.as_slice());
    w.sized16(session.session_key.as_slice());
    assert(w.written() =~= old(w).written() + session_head(session@));
}

/// Write what a session is bound to, when it started and its cipher.
fn write_binding(w: &mut Writer, session: &Session)
    requires
        session.wf(),
    ensures
        final(w).written() == old(w).written() + session_binding(session@),
        final(w).good() == old(w).good(),
{
    proof {
        reveal(session_binding);
    }
    w.u32(session.bind);
    w.sized16(session.bind_name.as_slice());
    write_flag(w, session.bind_uses_lockout);
    w.u64(session.start_time);
    w.u64(session.time_epoch);
    session.symmetric.marshal(w);
    assert(w.written() =~= old(w).written() + session_binding(session@));
}

/// Write what a session audits.
fn write_audit(w: &mut Writer, session: &Session)
    requires
        session.wf(),
    ensures
        final(w).written() == old(w).written() + session_audit(session@),
        final(w).good() == old(w).good(),
{
    proof {
        reveal(session_audit);
    }
    write_flag(w, session.audit.is_audit);
    w.sized16(session.audit.digest.as_slice());
    assert(w.written() =~= old(w).written() + session_audit(session@));
}

/// Write a session into the body of a context.
pub fn marshal_session(session: &Session) -> (r: TpmResult<Vec<u8>>)
    requires
        session.wf(),
    ensures
        r is Ok,
        r->Ok_0@ == session_octets(session@),
{
    let mut w: Writer = Writer::new();
    write_head(&mut w, session);
    write_binding(&mut w, session);
    session.policy.marshal(&mut w);
    write_audit(&mut w, session);
    assert(w.written() =~= session_octets(session@));
    w.finish()
}

/// Read a session out of the body of a context.
pub fn unmarshal_session(body: &[u8]) -> (r: TpmResult<Session>)
    ensures
        match parse_session(body@) {
            Ok(v) => r is Ok && r->Ok_0@ == v && r->Ok_0.wf(),
            Err(e) => r is Err && r->Err_0 == e,
        },
{
    proof {
        reveal(parse_head);
        reveal(parse_binding);
        reveal(parse_audit);
    }
    let mut r: Reader = Reader::new(body);
    let handle: u32 = r.u32()?;
    let session_type: u8 = r.u8()?;
    let auth_hash: u16 = r.u16()?;
    let nonce_tpm: Vec<u8> = take_sized::<64>(&mut r)?;
    let nonce_caller: Vec<u8> = take_sized::<64>(&mut r)?;
    let session_key: Vec<u8> = take_sized::<64>(&mut r)?;
    let bind: u32 = r.u32()?;
    let bind_name: Vec<u8> = take_sized::<1024>(&mut r)?;
    let bind_uses_lockout: bool = r.u8()? != 0;
    let start_time: u64 = r.u64()?;
    let time_epoch: u64 = r.u64()?;
    let symmetric: SymDef = SymDef::unmarshal(&mut r, true)?;
    let policy: PolicyState = PolicyState::unmarshal(&mut r)?;
    let is_audit: bool = r.u8()? != 0;
    let digest: Vec<u8> = take_sized::<64>(&mut r)?;
    if !is_session_type(session_type) {
        return Err(TpmRc(rc::VALUE));
    }
    let size: usize = digest_size(auth_hash)?;
    if policy.digest.len() != size {
        return Err(TpmRc(rc::SIZE));
    }
    Ok(
        Session {
            handle,
            session_type,
            auth_hash,
            nonce_tpm,
            nonce_caller,
            session_key,
            bind,
            bind_name,
            bind_uses_lockout,
            start_time,
            time_epoch,
            symmetric,
            policy,
            audit: AuditState { is_audit, digest },
        },
    )
}

} // verus!
