//! What an entity, a key or a ticket approves in a policy.

use vstd::prelude::*;

use super::policy::{only_policy, policy, session, zeros};
use crate::tpm::commands::dispatch::{name_of, RequestView, Response};
use crate::tpm::commands::policy::concluded;
use crate::tpm::commands::policy_authorization::{
    parse_approval, parse_authorization, parse_ticket, policy_authorize_outcome,
    policy_secret_outcome, policy_signed_outcome, policy_ticket_outcome, settled, ApprovalInput,
    AuthorizationView, TicketInput,
};
use crate::tpm::commands::signatures::{object_named, verification};
use crate::tpm::commands::wire::alone;
use crate::tpm::crypto::hash::{hash_of, size_of};
use crate::tpm::crypto::hmac::hmac_of;
use crate::tpm::engine::session::{PolicyView, Session};
use crate::tpm::engine::state::TpmState;
use crate::tpm::error::{TpmRc, TpmResult};
use crate::tpm::marshal::{holds, lemma_holds_both, lemma_holds_sized, lemma_holds_u32, sized};
use crate::tpm::structures::signature::TpmtSignature;
use crate::util::bytes::{be16, be64, lemma_octets64, octets16, octets32, octets64};

verus! {

/// What is asked for: a nonce, a hash of a command, a reference and a time.
#[verifier::opaque]
pub open spec fn opens_with(d: Seq<u8>, a: AuthorizationView) -> bool {
    &&& a.nonce.len() <= 64
    &&& a.cp_hash.len() <= 64
    &&& a.policy_ref.len() <= 64
    &&& (sized(a.nonce) + sized(a.cp_hash) + sized(a.policy_ref) + octets32(
        a.expiration,
    )).is_prefix_of(d)
}

/// How many octets those take.
pub open spec fn opening(a: AuthorizationView) -> int {
    10int + a.nonce.len() + a.cp_hash.len() + a.policy_ref.len()
}

proof fn lemma_opens(d: Seq<u8>, a: AuthorizationView)
    requires
        opens_with(d, a),
    ensures
        a.nonce.len() <= 64,
        a.cp_hash.len() <= 64,
        a.policy_ref.len() <= 64,
        holds(
            d,
            0,
            sized(a.nonce) + sized(a.cp_hash) + sized(a.policy_ref) + octets32(a.expiration),
        ),
{
    reveal(opens_with);
}

proof fn lemma_parsed(d: Seq<u8>, a: AuthorizationView)
    requires
        opens_with(d, a),
    ensures
        parse_authorization(d) == Ok::<(AuthorizationView, int), TpmRc>((a, opening(a))),
{
    lemma_opens(d, a);
    let n = sized(a.nonce);
    let c = sized(a.cp_hash);
    let p = sized(a.policy_ref);
    lemma_holds_both(d, 0, n + c + p, octets32(a.expiration));
    lemma_holds_both(d, 0, n + c, p);
    lemma_holds_both(d, 0, n, c);
    lemma_holds_sized(d, 0, a.nonce, 64);
    lemma_holds_sized(d, n.len() as int, a.cp_hash, 64);
    lemma_holds_sized(d, (n + c).len() as int, a.policy_ref, 64);
    lemma_holds_u32(d, (n + c + p).len() as int, a.expiration);
}

/// True when an approval ends: the time is negative.
pub open spec fn ends(a: AuthorizationView) -> bool {
    a.expiration >= 0x8000_0000
}

/// When an approval ends, in milliseconds: so many seconds after the start of the
/// session, or without a nonce so many seconds of the TPM's time.
pub open spec fn ending(s: Session, a: AuthorizationView) -> int {
    1000 * (0x1_0000_0000 - a.expiration) + if a.nonce.len() == 0 {
        0
    } else {
        s.start_time as int
    }
}

/// The timeout in the answer: nothing where the approval does not end, else the time,
/// with the highest bit set where no nonce ties it to the session.
pub open spec fn timeout(s: Session, a: AuthorizationView) -> Seq<u8> {
    if !ends(a) {
        Seq::empty()
    } else if a.nonce.len() == 0 {
        octets64((ending(s, a) + 0x8000_0000_0000_0000) as u64)
    } else {
        octets64(ending(s, a) as u64)
    }
}

/// What a session records of an approval by an entity with a Name.
pub open spec fn approved(
    s: Session,
    was: PolicyView,
    a: AuthorizationView,
    code: u32,
    name: Seq<u8>,
) -> PolicyView {
    PolicyView {
        digest: hash_of(
            s.auth_hash,
            hash_of(s.auth_hash, was.digest + octets32(code) + name) + a.policy_ref,
        ),
        cp_hash: if a.cp_hash.len() > 0 {
            Some(a.cp_hash)
        } else {
            was.cp_hash
        },
        expiration: if !ends(a) {
            was.expiration
        } else if was.expiration is Some && was.expiration->0 < ending(s, a) {
            was.expiration
        } else {
            Some(ending(s, a) as u64)
        },
        ..was
    }
}

/// The digest of a ticket: the HMAC under the proof of a hierarchy over the tag, what
/// was approved, by whom and until when, and where it ends also over the count of the
/// clock's starts and, without a nonce, that of the resets.
pub open spec fn ticket_over(
    state: TpmState,
    hierarchy: u32,
    tag: u16,
    cp_hash: Seq<u8>,
    policy_ref: Seq<u8>,
    name: Seq<u8>,
    t: Seq<u8>,
    without_nonce: bool,
) -> Seq<u8> {
    hmac_of(
        0x000B,
        state.hierarchies.spec_get(hierarchy).proof_value@,
        octets16(tag) + cp_hash + policy_ref + name + t + (if exists|i: int|
            0 <= i < t.len() && t[i] != 0 {
            octets64(state.clock.time_epoch) + (if without_nonce {
                octets64(state.clock.total_reset_count)
            } else {
                Seq::empty()
            })
        } else {
            Seq::empty()
        }),
    )
}

/// What answers an approval: the timeout, and a ticket for it where it ends.
pub open spec fn answer_for(
    state: TpmState,
    s: Session,
    a: AuthorizationView,
    tag: u16,
    hierarchy: u32,
    name: Seq<u8>,
) -> Seq<u8> {
    let t = timeout(s, a);
    sized(t) + if ends(a) && s.session_type != 3 {
        octets16(tag) + octets32(hierarchy) + sized(
            ticket_over(
                state,
                hierarchy,
                tag,
                a.cp_hash,
                a.policy_ref,
                name,
                t,
                a.nonce.len() == 0,
            ),
        )
    } else {
        octets16(tag) + octets32(0x4000_0007) + sized(Seq::empty())
    }
}

proof fn lemma_limit(v: u64)
    by (bit_vector)
    requires
        v < 0x8000_0000_0000_0000,
    ensures
        v & 0x7FFF_FFFF_FFFF_FFFF == v,
        (v | 0x8000_0000_0000_0000) & 0x7FFF_FFFF_FFFF_FFFF == v,
        (v | 0x8000_0000_0000_0000) == v + 0x8000_0000_0000_0000,
{
}

/// What holds where an approval was recorded, whoever gave it.
pub open spec fn recorded(
    after: TpmState,
    before: TpmState,
    h: u32,
    r: TpmResult<Response>,
    a: AuthorizationView,
    code: u32,
    tag: u16,
    name: Seq<u8>,
) -> bool {
    let s = session(before, h);
    &&& only_policy(after, before, h)
    &&& a.cp_hash.len() == 0 || policy(before, h).cp_hash == Some(a.cp_hash) || (policy(
        before,
        h,
    ).cp_hash is None && a.cp_hash.len() == size_of(s.auth_hash))
    &&& ends(a) ==> before.clock.time <= ending(s, a) && s.time_epoch == before.clock.time_epoch
    &&& policy(after, h) == approved(s, policy(before, h), a, code, name)
    &&& exists|hierarchy: u32| #[trigger]
        answer_for(before, s, a, tag, hierarchy, name) == r->Ok_0.parameters@
}

proof fn lemma_ending(s: Session, a: AuthorizationView)
    requires
        s.start_time < 0x4000_0000_0000_0000,
        ends(a),
    ensures
        0 <= ending(s, a) < 0x8000_0000_0000_0000,
        crate::tpm::commands::policy_authorization::session_timeout(s, a) == timeout(s, a),
        crate::tpm::commands::policy_authorization::time_in(timeout(s, a)) == Some(
            ending(s, a) as u64,
        ),
{
    let v = ending(s, a) as u64;
    lemma_limit(v);
    lemma_octets64(v);
    lemma_octets64((v + 0x8000_0000_0000_0000) as u64);
}

/// PolicySecret records that the entity at the first handle, which authorizes the
/// command, approves. The nonce, where there is one, is the session's.
pub proof fn law_a_secret_approves(
    after: TpmState,
    before: TpmState,
    req: RequestView,
    r: TpmResult<Response>,
    a: AuthorizationView,
)
    requires
        settled(after, before, policy_secret_outcome(before, req), r),
        req.handles.len() > 1,
        opens_with(req.parameters, a),
        session(before, req.handles[1]).start_time < 0x4000_0000_0000_0000,
        r is Ok,
    ensures
        req.parameters.len() == opening(a),
        ({
            let h = req.handles[1];
            let s = session(before, h);
            &&& s.session_type == 3 || a.nonce.len() == 0 || a.nonce == s.nonce_tpm@
            &&& name_of(before, req.handles[0]) is Ok
            &&& recorded(
                after,
                before,
                h,
                r,
                a,
                0x151,
                0x8023,
                name_of(before, req.handles[0])->Ok_0,
            )
        }),
{
    let h = req.handles[1];
    let s = session(before, h);
    lemma_parsed(req.parameters, a);
    if ends(a) {
        lemma_ending(s, a);
    }
    let name = name_of(before, req.handles[0])->Ok_0;
    let hierarchy = crate::tpm::commands::policy_authorization::ticket_hierarchy_of(
        before,
        req.handles[0],
    );
    assert(answer_for(before, s, a, 0x8023, hierarchy, name) =~= r->Ok_0.parameters@);
}

/// PolicySigned records an approval that a key has signed. What is signed is the hash
/// of the nonce, the time, the hash of the command and the reference, by the hash that
/// the signature names.
pub proof fn law_a_signature_approves(
    after: TpmState,
    before: TpmState,
    req: RequestView,
    r: TpmResult<Response>,
    a: AuthorizationView,
)
    requires
        settled(after, before, policy_signed_outcome(before, req), r),
        req.handles.len() > 1,
        opens_with(req.parameters, a),
        session(before, req.handles[1]).start_time < 0x4000_0000_0000_0000,
        r is Ok,
    ensures
        TpmtSignature::parse(req.parameters, opening(a)) is Ok,
        ({
            let h = req.handles[1];
            let s = session(before, h);
            let (sig_alg, v) = TpmtSignature::parse(req.parameters, opening(a))->Ok_0.0;
            let hash = if v.hash_alg() is Some {
                v.hash_alg()->0
            } else {
                s.auth_hash
            };
            &&& s.session_type != 3 ==> {
                &&& a.nonce.len() == 0 || a.nonce == s.nonce_tpm@
                &&& object_named(before, req.handles[0]) is Ok
                &&& verification(
                    object_named(before, req.handles[0])->Ok_0@,
                    hash_of(hash, a.nonce + octets32(a.expiration) + a.cp_hash + a.policy_ref),
                    sig_alg,
                    v,
                ) is Ok
            }
            &&& name_of(before, req.handles[0]) is Ok
            &&& recorded(
                after,
                before,
                h,
                r,
                a,
                0x160,
                0x8025,
                name_of(before, req.handles[0])->Ok_0,
            )
        }),
{
    let h = req.handles[1];
    let s = session(before, h);
    lemma_parsed(req.parameters, a);
    if ends(a) {
        lemma_ending(s, a);
    }
    let name = name_of(before, req.handles[0])->Ok_0;
    let hierarchy = crate::tpm::commands::policy_authorization::ticket_hierarchy_of(
        before,
        req.handles[0],
    );
    assert(answer_for(before, s, a, 0x8025, hierarchy, name) =~= r->Ok_0.parameters@);
}

/// PolicyTicket stands for the approval that its ticket was given for: the digest it
/// leaves is the one that PolicySigned or PolicySecret would have left. It is taken
/// only with the HMAC over what it claims, and only while the time is not over.
pub proof fn law_a_ticket_stands_for_the_approval(
    after: TpmState,
    before: TpmState,
    req: RequestView,
    r: TpmResult<Response>,
    t: TicketInput,
)
    requires
        concluded(after, before, policy_ticket_outcome(before, req), r),
        req.handles.len() > 0,
        alone(req.parameters, parse_ticket(req.parameters)) == Ok::<TicketInput, TpmRc>(t),
        r is Ok,
    ensures
        ({
            let h = req.handles[0];
            let s = session(before, h);
            &&& t.ticket.digest.len() > 0
            &&& t.ticket.digest == ticket_over(
                before,
                t.ticket.hierarchy,
                t.ticket.tag,
                t.cp_hash,
                t.policy_ref,
                t.name,
                t.timeout,
                t.timeout.len() > 0 && t.timeout[0] >= 128,
            )
            &&& t.timeout.len() == 8 ==> before.clock.time <= be64(t.timeout, 0)
                & 0x7FFF_FFFF_FFFF_FFFF
            &&& only_policy(after, before, h)
            &&& policy(after, h).digest == hash_of(
                s.auth_hash,
                hash_of(
                    s.auth_hash,
                    policy(before, h).digest + octets32(
                        if t.ticket.tag == 0x8025 {
                            0x160
                        } else {
                            0x151
                        },
                    ) + t.name,
                ) + t.policy_ref,
            )
            &&& t.cp_hash.len() > 0 ==> policy(after, h).cp_hash == Some(t.cp_hash)
            &&& t.timeout.len() == 8 ==> policy(after, h).expiration is Some && policy(
                after,
                h,
            ).expiration->0 <= be64(t.timeout, 0) & 0x7FFF_FFFF_FFFF_FFFF
        }),
{
    let without = t.timeout.len() > 0 && t.timeout[0] >= 128;
    assert(ticket_over(
        before,
        t.ticket.hierarchy,
        t.ticket.tag,
        t.cp_hash,
        t.policy_ref,
        t.name,
        t.timeout,
        without,
    ) == crate::tpm::commands::policy_authorization::ticket_hmac_of(
        before,
        t.ticket.hierarchy,
        t.ticket.tag,
        t.cp_hash,
        t.policy_ref,
        t.name,
        t.timeout,
        !without,
    ));
}

/// PolicyAuthorize takes a policy that a key has approved, shown by a ticket for the
/// signature over the policy and the reference, and leaves a digest that depends on
/// the key and the reference alone.
pub proof fn law_an_approved_policy_is_forgotten(
    after: TpmState,
    before: TpmState,
    req: RequestView,
    r: TpmResult<Response>,
    a: ApprovalInput,
)
    requires
        concluded(after, before, policy_authorize_outcome(before, req), r),
        req.handles.len() > 0,
        alone(req.parameters, parse_approval(req.parameters)) == Ok::<ApprovalInput, TpmRc>(a),
        r is Ok,
    ensures
        ({
            let h = req.handles[0];
            let s = session(before, h);
            let data = a.approved + a.policy_ref;
            &&& only_policy(after, before, h)
            &&& policy(after, h) == (PolicyView {
                digest: hash_of(
                    s.auth_hash,
                    hash_of(s.auth_hash, zeros(s.auth_hash) + octets32(0x16A) + a.key_sign)
                        + a.policy_ref,
                ),
                ..policy(before, h)
            })
            &&& s.session_type != 3 ==> {
                &&& policy(before, h).digest == a.approved
                &&& a.ticket.hmac.len() > 0
                &&& a.ticket.tag == 0x8022 && a.ticket.digest_alg is None ==> a.ticket.hmac
                    == hmac_of(
                    0x000B,
                    before.hierarchies.spec_get(a.ticket.hierarchy).proof_value@,
                    octets16(0x8022) + hash_of(be16(a.key_sign, 0), data) + a.key_sign,
                )
            }
        }),
{
    let data = a.approved + a.policy_ref;
    let all = octets16(0x8022) + hash_of(be16(a.key_sign, 0), data) + a.key_sign;
    assert(all + Seq::<u8>::empty() =~= all);
}

} // verus!
