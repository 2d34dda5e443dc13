//! What a policy digest holds, and what a policy asks of a command.

use vstd::prelude::*;

use super::nv::was_written;
use super::pcr::{law_a_digest_is_over_the_registers, registers_named, strung, strung_sized};
use crate::tpm::commands::capability::property_of;
use crate::tpm::commands::dispatch::{RequestView, Response};
use crate::tpm::commands::policy::{
    all_of, comparison, concluded, parse_names, parse_operand, parse_pcr, parse_property,
    policy_auth_value_outcome, policy_authorize_nv_outcome, policy_capability_outcome,
    policy_command_code_outcome, policy_counter_timer_outcome, policy_cp_hash_outcome,
    policy_duplication_select_outcome, policy_get_digest_ran, policy_locality_outcome,
    policy_name_hash_outcome, policy_nv_outcome, policy_nv_written_outcome, policy_or_outcome,
    policy_parameters_outcome, policy_password_outcome, policy_pcr_outcome,
    policy_physical_presence_outcome, policy_template_outcome, policy_transport_spdm_outcome,
    time_octets,
};
use crate::tpm::commands::wire::alone;
use crate::tpm::crypto::bn::number_of;
use crate::tpm::crypto::hash::{hash_of, size_of};
use crate::tpm::engine::session::{PolicyView, Session};
use crate::tpm::engine::state::TpmState;
use crate::tpm::error::{TpmRc, TpmResult};
use crate::tpm::marshal::{
    holds, lemma_holds_all, lemma_holds_both, lemma_holds_sized, lemma_holds_u16, lemma_holds_u32,
    lemma_holds_u8, sized,
};
use crate::tpm::structures::lists::{PcrSelection, TpmlDigest, TpmlPcrSelection};
use crate::util::bytes::{be16, octets16, octets32, octets64};

verus! {

/// True when a policy or trial session is loaded at a handle.
pub open spec fn policy_session(state: TpmState, h: u32) -> bool {
    state.sessions.loaded@.contains_key(h) && (state.sessions.loaded@[h].session_type == 1
        || state.sessions.loaded@[h].session_type == 3)
}

/// The session at a handle.
pub open spec fn session(state: TpmState, h: u32) -> Session {
    state.sessions.loaded@[h]
}

/// What a session records of its policy.
pub open spec fn policy(state: TpmState, h: u32) -> PolicyView {
    state.sessions.loaded@[h].policy@
}

/// The digest of a policy that has asserted nothing yet.
pub open spec fn zeros(hash_alg: u16) -> Seq<u8> {
    Seq::new(size_of(hash_alg), |i: int| 0u8)
}

/// Nothing has changed but what one session records of its policy.
pub open spec fn only_policy(after: TpmState, before: TpmState, h: u32) -> bool {
    &&& policy_session(before, h)
    &&& after == (TpmState { sessions: after.sessions, ..before })
    &&& forall|k: u32| #[trigger]
        after.sessions.loaded@.contains_key(k) <==> before.sessions.loaded@.contains_key(k)
    &&& forall|k: u32|
        k != h && before.sessions.loaded@.contains_key(k) ==> after.sessions.loaded@[k]
            == #[trigger] before.sessions.loaded@[k]
    &&& session(after, h) == (Session { policy: session(after, h).policy, ..session(before, h) })
}

proof fn lemma_branches(d: Seq<u8>, at: int, items: Seq<Seq<u8>>)
    requires
        holds(d, at, strung_sized(items)),
        forall|i: int| 0 <= i < items.len() ==> (#[trigger] items[i]).len() <= 64,
    ensures
        TpmlDigest::parse_items(d, at, items.len()) == Ok::<(Seq<Seq<u8>>, int), TpmRc>(
            (items, at + strung_sized(items).len()),
        ),
        all_of(items) == strung(items),
    decreases items.len(),
{
    if items.len() == 0 {
        assert(items =~= Seq::empty());
    } else {
        let rest = items.drop_last();
        lemma_holds_both(d, at, strung_sized(rest), sized(items.last()));
        lemma_branches(d, at, rest);
        lemma_holds_sized(d, at + strung_sized(rest).len(), items.last(), 64);
        assert(rest.push(items.last()) =~= items);
    }
}

/// The parameters of PolicyOR for a list of digests.
pub open spec fn lists(req: RequestView, branches: Seq<Seq<u8>>) -> bool {
    &&& req.handles.len() > 0
    &&& 2 <= branches.len() <= 8
    &&& forall|i: int| 0 <= i < branches.len() ==> (#[trigger] branches[i]).len() <= 64
    &&& req.parameters == octets32(branches.len() as u32) + strung_sized(branches)
}

/// PolicyOR leaves a digest that does not depend on the branch that was taken: the
/// hash of zeros, TPM_CC_PolicyOR and all branches. It is taken only by a session
/// whose digest is one of them, or by a trial session.
pub proof fn law_policy_or_forgets_the_branch(
    after: TpmState,
    before: TpmState,
    req: RequestView,
    r: TpmResult<Response>,
    branches: Seq<Seq<u8>>,
)
    requires
        concluded(after, before, policy_or_outcome(before, req), r),
        lists(req, branches),
    ensures
        r is Ok <==> policy_session(before, req.handles[0]) && (session(
            before,
            req.handles[0],
        ).session_type == 3 || branches.contains(policy(before, req.handles[0]).digest)),
        r is Ok ==> ({
            let h = req.handles[0];
            let s = session(before, h);
            &&& only_policy(after, before, h)
            &&& policy(after, h) == (PolicyView {
                digest: hash_of(
                    s.auth_hash,
                    zeros(s.auth_hash) + octets32(0x171) + strung(branches),
                ),
                ..policy(before, h)
            })
        }),
{
    let d = req.parameters;
    lemma_holds_all(d);
    lemma_holds_both(d, 0, octets32(branches.len() as u32), strung_sized(branches));
    lemma_holds_u32(d, 0, branches.len() as u32);
    lemma_branches(d, 4, branches);
}

/// Two sessions with the same hash that take the same PolicyOR have the same digest
/// behind it, whatever digests they had.
pub proof fn law_policy_or_joins_sessions(
    after_a: TpmState,
    before_a: TpmState,
    req_a: RequestView,
    a: TpmResult<Response>,
    after_b: TpmState,
    before_b: TpmState,
    req_b: RequestView,
    b: TpmResult<Response>,
    branches: Seq<Seq<u8>>,
)
    requires
        concluded(after_a, before_a, policy_or_outcome(before_a, req_a), a),
        concluded(after_b, before_b, policy_or_outcome(before_b, req_b), b),
        lists(req_a, branches),
        lists(req_b, branches),
        session(before_a, req_a.handles[0]).auth_hash == session(
            before_b,
            req_b.handles[0],
        ).auth_hash,
        a is Ok,
        b is Ok,
    ensures
        policy(after_a, req_a.handles[0]).digest == policy(after_b, req_b.handles[0]).digest,
{
    law_policy_or_forgets_the_branch(after_a, before_a, req_a, a, branches);
    law_policy_or_forgets_the_branch(after_b, before_b, req_b, b, branches);
}

/// What a session holds where only its digest was extended: the hash of the digest
/// before, a command code and what the command asserts.
pub open spec fn extends(
    after: TpmState,
    before: TpmState,
    h: u32,
    code: u32,
    data: Seq<u8>,
    also: PolicyView,
) -> bool {
    &&& only_policy(after, before, h)
    &&& policy(after, h) == (PolicyView {
        digest: hash_of(
            session(before, h).auth_hash,
            policy(before, h).digest + octets32(code) + data,
        ),
        ..also
    })
}

/// PolicyLocality allows the localities named in this and in every earlier assertion.
pub proof fn law_localities_are_those_of_all(
    after: TpmState,
    before: TpmState,
    req: RequestView,
    r: TpmResult<Response>,
    locality: u8,
)
    requires
        concluded(after, before, policy_locality_outcome(before, req), r),
        req.handles.len() > 0,
        req.parameters == seq![locality],
    ensures
        ({
            let h = req.handles[0];
            let was = policy(before, h).locality;
            let both = if was is Some {
                was->0 & locality
            } else {
                locality
            };
            &&& r is Ok <==> policy_session(before, h) && locality != 0 && both != 0
            &&& r is Ok ==> extends(
                after,
                before,
                h,
                0x16F,
                seq![locality],
                (PolicyView { locality: Some(both), ..policy(before, h) }),
            )
        }),
{
}

/// PolicyCommandCode limits the policy to one command, for good.
pub proof fn law_a_command_code_stays(
    after: TpmState,
    before: TpmState,
    req: RequestView,
    r: TpmResult<Response>,
    code: u32,
)
    requires
        concluded(after, before, policy_command_code_outcome(before, req), r),
        req.handles.len() > 0,
        req.parameters == octets32(code),
    ensures
        ({
            let h = req.handles[0];
            r is Ok ==> {
                &&& policy(before, h).command_code matches Some(c) ==> c == code
                &&& extends(
                    after,
                    before,
                    h,
                    0x16C,
                    octets32(code),
                    (PolicyView { command_code: Some(code), ..policy(before, h) }),
                )
            }
        }),
        policy_session(before, req.handles[0]) && policy(before, req.handles[0]).command_code
            == Some(code) && crate::tpm::commands::table::found(code) is Some ==> r is Ok,
{
    lemma_holds_all(req.parameters);
    lemma_holds_u32(req.parameters, 0, code);
}

/// PolicyPhysicalPresence, PolicyAuthValue and PolicyPassword always succeed on a policy
/// session. The last two leave the same digest, and each takes back what the other
/// asked for.
pub proof fn law_the_plain_assertions(
    after: TpmState,
    before: TpmState,
    req: RequestView,
    r: TpmResult<Response>,
)
    requires
        req.handles.len() > 0,
        policy_session(before, req.handles[0]),
    ensures
        concluded(after, before, policy_physical_presence_outcome(before, req), r) ==> r is Ok
            && extends(
            after,
            before,
            req.handles[0],
            0x187,
            Seq::empty(),
            (PolicyView { physical_presence_required: true, ..policy(before, req.handles[0]) }),
        ),
        concluded(after, before, policy_auth_value_outcome(before, req), r) ==> r is Ok && extends(
            after,
            before,
            req.handles[0],
            0x16B,
            Seq::empty(),
            (PolicyView {
                auth_value_needed: true,
                password_needed: false,
                ..policy(before, req.handles[0])
            }),
        ),
        concluded(after, before, policy_password_outcome(before, req), r) ==> r is Ok && extends(
            after,
            before,
            req.handles[0],
            0x16B,
            Seq::empty(),
            (PolicyView {
                auth_value_needed: false,
                password_needed: true,
                ..policy(before, req.handles[0])
            }),
        ),
        concluded(after, before, policy_transport_spdm_outcome(before, req), r) ==> (r is Ok <==>
            session(before, req.handles[0]).session_type == 3) && (r is Ok ==> extends(
            after,
            before,
            req.handles[0],
            0x1A1,
            Seq::empty(),
            policy(before, req.handles[0]),
        )),
{
}

/// PolicyCpHash, PolicyNameHash, PolicyTemplate and PolicyParameters take a digest of
/// the size of the session's hash, extend the policy with it and record it. The first
/// stands by itself: once it is recorded only the same one passes, and neither Names
/// nor a template can be asserted.
pub proof fn law_the_hashes_asserted_are_recorded(
    after: TpmState,
    before: TpmState,
    req: RequestView,
    r: TpmResult<Response>,
    d: Seq<u8>,
)
    requires
        req.handles.len() > 0,
        policy_session(before, req.handles[0]),
        d.len() <= 64,
        req.parameters == sized(d),
    ensures
        ({
            let h = req.handles[0];
            let p = policy(before, h);
            let fits = d.len() == size_of(session(before, h).auth_hash);
            &&& concluded(after, before, policy_cp_hash_outcome(before, req), r) ==> {
                &&& r is Ok <==> fits && (p.cp_hash is None || p.cp_hash == Some(d))
                &&& r is Ok ==> extends(
                    after,
                    before,
                    h,
                    0x16E,
                    d,
                    (PolicyView { cp_hash: Some(d), ..p }),
                )
            }
            &&& concluded(after, before, policy_name_hash_outcome(before, req), r) ==> {
                &&& r is Ok <==> fits && p.cp_hash is None
                &&& r is Ok ==> extends(
                    after,
                    before,
                    h,
                    0x170,
                    d,
                    (PolicyView { name_hash: Some(d), ..p }),
                )
            }
            &&& concluded(after, before, policy_template_outcome(before, req), r) ==> {
                &&& r is Ok <==> fits && p.cp_hash is None
                &&& r is Ok ==> extends(
                    after,
                    before,
                    h,
                    0x190,
                    d,
                    (PolicyView { template_hash: Some(d), ..p }),
                )
            }
            &&& concluded(after, before, policy_parameters_outcome(before, req), r) ==> {
                &&& r is Ok <==> fits
                &&& r is Ok ==> extends(
                    after,
                    before,
                    h,
                    0x19C,
                    d,
                    (PolicyView { parameters_hash: Some(d), ..p }),
                )
            }
        }),
{
    lemma_holds_all(req.parameters);
    lemma_holds_sized(req.parameters, 0, d, 64);
}

/// PolicyNvWritten asks that an Index is, or is not, written, and cannot change its
/// mind.
pub proof fn law_written_or_not_stays(
    after: TpmState,
    before: TpmState,
    req: RequestView,
    r: TpmResult<Response>,
    written: bool,
)
    requires
        concluded(after, before, policy_nv_written_outcome(before, req), r),
        req.handles.len() > 0,
        req.parameters == seq![
            if written {
                1u8
            } else {
                0u8
            },
        ],
    ensures
        ({
            let h = req.handles[0];
            let p = policy(before, h);
            &&& r is Ok <==> policy_session(before, h) && p.nv_written != Some(!written)
            &&& r is Ok ==> extends(
                after,
                before,
                h,
                0x18F,
                req.parameters,
                (PolicyView { nv_written: Some(written), ..p }),
            )
        }),
{
}

/// PolicyGetDigest answers with the digest.
pub proof fn law_the_digest_is_answered(state: TpmState, req: RequestView, r: TpmResult<Response>)
    requires
        policy_get_digest_ran(state, req, r),
        req.handles.len() > 0,
        policy_session(state, req.handles[0]),
    ensures
        r is Ok,
        r->Ok_0.parameters@ == sized(policy(state, req.handles[0]).digest),
{
}

/// The number that octets hold, the most significant first.
pub open spec fn unsigned(a: Seq<u8>) -> int
    decreases a.len(),
{
    if a.len() == 0 {
        0
    } else {
        unsigned(a.drop_last()) * 256 + a.last()
    }
}

/// How many numbers `n` octets can hold.
pub open spec fn span(n: nat) -> int
    decreases n,
{
    if n == 0 {
        1
    } else {
        span((n - 1) as nat) * 256
    }
}

/// The number that octets hold in two's complement.
pub open spec fn signed(a: Seq<u8>) -> int {
    if a.len() > 0 && a[0] >= 128 {
        unsigned(a) - span(a.len())
    } else {
        unsigned(a)
    }
}

proof fn lemma_numbers(a: Seq<u8>)
    ensures
        number_of(a) == unsigned(a),
        0 <= unsigned(a) < span(a.len()),
        a.len() > 0 && a[0] >= 128 ==> 2 * unsigned(a) >= span(a.len()),
        a.len() > 0 && a[0] < 128 ==> 2 * unsigned(a) < span(a.len()),
    decreases a.len(),
{
    if a.len() > 0 {
        lemma_numbers(a.drop_last());
        if a.len() == 1 {
            assert(unsigned(a.drop_last()) == 0);
            assert(span(0) == 1);
            assert(span(1) == 256);
        } else {
            assert(a.drop_last()[0] == a[0]);
        }
    }
}

/// True when a comparison of two values of one size holds: equal, not equal, greater,
/// less, not less and not greater, with and without a sign, all the bits set and all
/// the bits clear.
pub open spec fn compares(a: Seq<u8>, b: Seq<u8>, operation: u16) -> bool {
    if operation == 0 {
        a == b
    } else if operation == 1 {
        a != b
    } else if operation == 2 {
        signed(a) > signed(b)
    } else if operation == 3 {
        unsigned(a) > unsigned(b)
    } else if operation == 4 {
        signed(a) < signed(b)
    } else if operation == 5 {
        unsigned(a) < unsigned(b)
    } else if operation == 6 {
        signed(a) >= signed(b)
    } else if operation == 7 {
        unsigned(a) >= unsigned(b)
    } else if operation == 8 {
        signed(a) <= signed(b)
    } else if operation == 9 {
        unsigned(a) <= unsigned(b)
    } else if operation == 10 {
        forall|i: int| 0 <= i < a.len() ==> a[i] & b[i] == #[trigger] b[i]
    } else {
        forall|i: int| 0 <= i < a.len() ==> #[trigger] a[i] & b[i] == 0
    }
}

/// The twelve comparisons mean what they are called.
pub proof fn law_the_comparisons(a: Seq<u8>, b: Seq<u8>, operation: u16)
    requires
        a.len() == b.len(),
    ensures
        comparison(a, b, operation) is Some <==> operation < 12,
        operation < 12 ==> comparison(a, b, operation) == Some(compares(a, b, operation)),
{
    lemma_numbers(a);
    lemma_numbers(b);
}

/// The parameters of an assertion on a value.
#[verifier::opaque]
pub open spec fn asserts_on(
    req: RequestView,
    operand: Seq<u8>,
    offset: u16,
    operation: u16,
) -> bool {
    &&& operand.len() <= 64
    &&& req.parameters == sized(operand) + octets16(offset) + octets16(operation)
}

proof fn lemma_operand(d: Seq<u8>, operand: Seq<u8>, offset: u16, operation: u16)
    requires
        operand.len() <= 64,
        holds(d, 0, sized(operand) + octets16(offset) + octets16(operation)),
    ensures
        parse_operand(d) == Ok::<((Seq<u8>, u16, u16), int), TpmRc>(
            ((operand, offset, operation), operand.len() + 6int),
        ),
{
    lemma_holds_both(d, 0, sized(operand) + octets16(offset), octets16(operation));
    lemma_holds_both(d, 0, sized(operand), octets16(offset));
    lemma_holds_sized(d, 0, operand, 64);
    lemma_holds_u16(d, operand.len() + 2int, offset);
    lemma_holds_u16(d, operand.len() + 4int, operation);
}

proof fn lemma_asserted(req: RequestView, operand: Seq<u8>, offset: u16, operation: u16)
    requires
        asserts_on(req, operand, offset, operation),
    ensures
        operand.len() <= 64,
        holds(req.parameters, 0, sized(operand) + octets16(offset) + octets16(operation)),
        req.parameters.len() == operand.len() + 6,
{
    reveal(asserts_on);
    lemma_holds_all(req.parameters);
}

proof fn lemma_asserts_on(req: RequestView, operand: Seq<u8>, offset: u16, operation: u16)
    requires
        asserts_on(req, operand, offset, operation),
    ensures
        alone(req.parameters, parse_operand(req.parameters)) == Ok::<
            (Seq<u8>, u16, u16),
            TpmRc,
        >((operand, offset, operation)),
        operand.len() <= 64,
{
    lemma_asserted(req, operand, offset, operation);
    lemma_operand(req.parameters, operand, offset, operation);
}

/// What is hashed into a policy for an assertion on a value.
pub open spec fn assertion_hash(h: u16, operand: Seq<u8>, offset: u16, operation: u16) -> Seq<u8> {
    hash_of(h, operand + octets16(offset) + octets16(operation))
}

/// PolicyNV passes on an Index that is written and not locked for reading, and only
/// where the octets at the offset compare as asked, or in a trial session. The digest
/// is extended with the assertion and the Name of the Index.
pub proof fn law_policy_nv_compares_the_index(
    after: TpmState,
    before: TpmState,
    req: RequestView,
    r: TpmResult<Response>,
    operand: Seq<u8>,
    offset: u16,
    operation: u16,
)
    requires
        concluded(after, before, policy_nv_outcome(before, req), r),
        req.handles.len() > 2,
        asserts_on(req, operand, offset, operation),
        operation < 12,
        before.nv.indices@.contains_key(req.handles[1]),
        before.nv.indices@[req.handles[1]].data@.len()
            == before.nv.indices@[req.handles[1]].public.data_size,
    ensures
        ({
            let h = req.handles[2];
            let i = before.nv.indices@[req.handles[1]];
            &&& r is Ok <==> {
                &&& policy_session(before, h)
                &&& was_written(i)
                &&& !i.read_locked
                &&& offset + operand.len() <= i.public.data_size
                &&& session(before, h).session_type == 3 || compares(
                    i.data@.subrange(offset as int, offset + operand.len()),
                    operand,
                    operation,
                )
            }
            &&& r is Ok ==> extends(
                after,
                before,
                h,
                0x149,
                assertion_hash(session(before, h).auth_hash, operand, offset, operation)
                    + i.name_of(),
                policy(before, h),
            )
        }),
{
    lemma_asserts_on(req, operand, offset, operation);
    lemma_policy_nv(after, before, req, r, operand, offset, operation);
}

proof fn lemma_policy_nv(
    after: TpmState,
    before: TpmState,
    req: RequestView,
    r: TpmResult<Response>,
    operand: Seq<u8>,
    offset: u16,
    operation: u16,
)
    requires
        concluded(after, before, policy_nv_outcome(before, req), r),
        req.handles.len() > 2,
        operand.len() <= 64,
        alone(req.parameters, parse_operand(req.parameters)) == Ok::<
            (Seq<u8>, u16, u16),
            TpmRc,
        >((operand, offset, operation)),
        operation < 12,
        before.nv.indices@.contains_key(req.handles[1]),
        before.nv.indices@[req.handles[1]].data@.len()
            == before.nv.indices@[req.handles[1]].public.data_size,
    ensures
        ({
            let h = req.handles[2];
            let i = before.nv.indices@[req.handles[1]];
            &&& r is Ok <==> {
                &&& policy_session(before, h)
                &&& was_written(i)
                &&& !i.read_locked
                &&& offset + operand.len() <= i.public.data_size
                &&& session(before, h).session_type == 3 || compares(
                    i.data@.subrange(offset as int, offset + operand.len()),
                    operand,
                    operation,
                )
            }
            &&& r is Ok ==> extends(
                after,
                before,
                h,
                0x149,
                assertion_hash(session(before, h).auth_hash, operand, offset, operation)
                    + i.name_of(),
                policy(before, h),
            )
        }),
{
    let i = before.nv.indices@[req.handles[1]];
    assert(i.written() <==> was_written(i)) by {
        super::nv::lemma_attribute_bits(i.public.attributes.0);
    }
    if offset + operand.len() <= i.public.data_size {
        law_the_comparisons(
            i.data@.subrange(offset as int, offset + operand.len()),
            operand,
            operation,
        );
    }
}

/// What PolicyCounterTimer compares with: the time, the clock, the two counts and
/// whether the clock is safe.
pub open spec fn times(state: TpmState) -> Seq<u8> {
    octets64(state.clock.time) + octets64(state.clock.clock) + octets32(state.clock.reset_count)
        + octets32(state.clock.restart_count) + seq![
        if state.clock.safe {
            1u8
        } else {
            0u8
        },
    ]
}

/// PolicyCounterTimer passes only where the octets of the times at the offset compare
/// as asked, or in a trial session.
pub proof fn law_policy_counter_timer_compares_the_times(
    after: TpmState,
    before: TpmState,
    req: RequestView,
    r: TpmResult<Response>,
    operand: Seq<u8>,
    offset: u16,
    operation: u16,
)
    requires
        concluded(after, before, policy_counter_timer_outcome(before, req), r),
        req.handles.len() > 0,
        asserts_on(req, operand, offset, operation),
        operation < 12,
    ensures
        ({
            let h = req.handles[0];
            &&& r is Ok <==> {
                &&& policy_session(before, h)
                &&& offset + operand.len() <= 25
                &&& session(before, h).session_type == 3 || compares(
                    times(before).subrange(offset as int, offset + operand.len()),
                    operand,
                    operation,
                )
            }
            &&& r is Ok ==> extends(
                after,
                before,
                h,
                0x16D,
                assertion_hash(session(before, h).auth_hash, operand, offset, operation),
                policy(before, h),
            )
        }),
{
    lemma_asserts_on(req, operand, offset, operation);
    assert(time_octets(before) =~= times(before));
    if offset + operand.len() <= 25 {
        law_the_comparisons(
            times(before).subrange(offset as int, offset + operand.len()),
            operand,
            operation,
        );
    }
}

/// PolicyPCR passes only where the digest expected is that of the registers as they
/// are, or where none is expected, or in a trial session. The digest is extended with
/// the selection and the digest of the registers, and the policy is good only while
/// they stay.
pub proof fn law_policy_pcr_is_over_the_registers(
    after: TpmState,
    before: TpmState,
    req: RequestView,
    r: TpmResult<Response>,
    expected: Seq<u8>,
    items: Seq<PcrSelection>,
)
    requires
        concluded(after, before, policy_pcr_outcome(before, req), r),
        req.handles.len() > 0,
        alone(req.parameters, parse_pcr(req.parameters)) == Ok::<
            (Seq<u8>, Seq<PcrSelection>),
            TpmRc,
        >((expected, items)),
    ensures
        ({
            let h = req.handles[0];
            let s = session(before, h);
            let now = hash_of(s.auth_hash, strung(registers_named(before.pcr, items)));
            let trial = s.session_type == 3;
            let claimed = if trial && expected.len() > 0 {
                expected
            } else {
                now
            };
            &&& r is Ok <==> policy_session(before, h) && (trial || expected.len() == 0
                || expected == now)
            &&& r is Ok ==> extends(
                after,
                before,
                h,
                0x17F,
                TpmlPcrSelection::octets_of(
                    items.map_values(|i: PcrSelection| before.pcr.filtered(i)),
                ) + claimed,
                (PolicyView {
                    pcr_update_counter: if trial {
                        policy(before, h).pcr_update_counter
                    } else {
                        Some(before.pcr.counter)
                    },
                    ..policy(before, h)
                }),
            )
        }),
{
    law_a_digest_is_over_the_registers(
        before.pcr,
        session(before, req.handles[0]).auth_hash,
        items,
    );
}

/// PolicyDuplicationSelect limits the policy to duplicating one object to one new
/// parent. Where the object is not part of it, its Name is left out of the digest.
pub proof fn law_policy_duplication_select_names_both(
    after: TpmState,
    before: TpmState,
    req: RequestView,
    r: TpmResult<Response>,
    object: Seq<u8>,
    parent: Seq<u8>,
    with: bool,
)
    requires
        concluded(after, before, policy_duplication_select_outcome(before, req), r),
        req.handles.len() > 0,
        object.len() <= 68,
        parent.len() <= 68,
        req.parameters == sized(object) + sized(parent) + seq![
            if with {
                1u8
            } else {
                0u8
            },
        ],
    ensures
        ({
            let h = req.handles[0];
            let p = policy(before, h);
            &&& r is Ok <==> policy_session(before, h) && p.cp_hash is None
            &&& r is Ok ==> extends(
                after,
                before,
                h,
                0x188,
                if with {
                    object + parent + seq![1u8]
                } else {
                    parent + seq![0u8]
                },
                (PolicyView {
                    name_hash: Some(hash_of(session(before, h).auth_hash, object + parent)),
                    command_code: Some(0x14B),
                    ..p
                }),
            )
        }),
{
    lemma_holds_all(req.parameters);
    lemma_names(
        req.parameters,
        object,
        parent,
        if with {
            1
        } else {
            0
        },
    );
    assert(Seq::<u8>::empty() + parent =~= parent);
}

proof fn lemma_names(d: Seq<u8>, object: Seq<u8>, parent: Seq<u8>, last: u8)
    requires
        object.len() <= 68,
        parent.len() <= 68,
        last <= 1,
        holds(d, 0, sized(object) + sized(parent) + seq![last]),
        d.len() == object.len() + parent.len() + 5,
    ensures
        parse_names(d) == Ok::<(Seq<u8>, Seq<u8>, bool), TpmRc>((object, parent, last == 1)),
{
    lemma_holds_both(d, 0, sized(object) + sized(parent), seq![last]);
    lemma_holds_both(d, 0, sized(object), sized(parent));
    lemma_holds_sized(d, 0, object, 68);
    lemma_holds_sized(d, sized(object).len() as int, parent, 68);
    let at = (sized(object) + sized(parent)).len() as int;
    lemma_holds_u8(d, at, last);
}

/// PolicyAuthorizeNV passes where an Index that is written holds the hash and the
/// digest of the session, or in a trial session, and leaves a digest that depends on
/// the Name of the Index alone.
pub proof fn law_policy_authorize_nv_forgets_the_policy(
    after: TpmState,
    before: TpmState,
    req: RequestView,
    r: TpmResult<Response>,
)
    requires
        concluded(after, before, policy_authorize_nv_outcome(before, req), r),
        req.handles.len() > 2,
        r is Ok,
    ensures
        before.nv.indices@.contains_key(req.handles[1]),
        ({
            let h = req.handles[2];
            let s = session(before, h);
            let i = before.nv.indices@[req.handles[1]];
            &&& was_written(i)
            &&& !i.read_locked
            &&& s.session_type == 3 || i.data@.take(i.public.data_size as int).take(
                2int + size_of(s.auth_hash),
            ) == octets16(s.auth_hash) + policy(before, h).digest
            &&& only_policy(after, before, h)
            &&& policy(after, h) == (PolicyView {
                digest: hash_of(s.auth_hash, zeros(s.auth_hash) + octets32(0x192) + i.name_of()),
                ..policy(before, h)
            })
        }),
{
    let h = req.handles[2];
    let s = session(before, h);
    let i = before.nv.indices@[req.handles[1]];
    super::nv::lemma_attribute_bits(i.public.attributes.0);
    let stored = i.data@.subrange(0, i.public.data_size as int);
    assert(stored =~= i.data@.take(i.public.data_size as int));
    if s.session_type != 3 {
        crate::util::bytes::lemma_be16(stored[0], stored[1]);
        assert(be16(seq![stored[0], stored[1]], 0) == be16(stored, 0));
        assert(stored.take(2int + size_of(s.auth_hash)) =~= octets16(s.auth_hash) + policy(
            before,
            h,
        ).digest);
    }
}

/// PolicyCapability asserts on a property of the TPM: the digest is extended with the
/// hash of the operand, the offset, the operation, the capability and the property.
pub proof fn law_policy_capability_names_the_property(
    after: TpmState,
    before: TpmState,
    req: RequestView,
    r: TpmResult<Response>,
    operand: Seq<u8>,
    offset: u16,
    operation: u16,
    capability: u32,
    property: u32,
)
    requires
        concluded(after, before, policy_capability_outcome(before, req), r),
        req.handles.len() > 0,
        alone(req.parameters, parse_property(req.parameters)) == Ok::<
            (Seq<u8>, u16, u16, u32, u32),
            TpmRc,
        >((operand, offset, operation, capability, property)),
        r is Ok,
    ensures
        ({
            let h = req.handles[0];
            let s = session(before, h);
            &&& extends(
                after,
                before,
                h,
                0x19B,
                hash_of(
                    s.auth_hash,
                    operand + octets16(offset) + octets16(operation) + octets32(capability)
                        + octets32(property),
                ),
                policy(before, h),
            )
            &&& s.session_type != 3 ==> exists|d: Seq<u8>|
                {
                    &&& #[trigger] property_of(before, capability, property) == Ok::<
                        Option<Seq<u8>>,
                        TpmRc,
                    >(Some(d))
                    &&& offset + operand.len() <= d.len()
                    &&& operation < 12
                    &&& compares(
                        d.subrange(offset as int, offset + operand.len()),
                        operand,
                        operation,
                    )
                }
        }),
{
    let s = session(before, req.handles[0]);
    if s.session_type != 3 {
        let d = property_of(before, capability, property)->Ok_0->0;
        law_the_comparisons(
            d.subrange(offset as int, offset + operand.len()),
            operand,
            operation,
        );
        assert(property_of(before, capability, property) == Ok::<Option<Seq<u8>>, TpmRc>(Some(d)));
    }
}

} // verus!
