//! What an attestation says, octet by octet, and what is signed of it.

use vstd::prelude::*;

use super::pcr::{law_a_digest_is_over_the_registers, registers_named, strung};
use crate::tpm::commands::attest::{
    attest_input, attest_signature, attestation, attests, audit_status_input, certify_check,
    certify_creation_check, command_audit_check, creation_input, get_command_audit_digest_ran,
    get_time_check, nv_certify_check, nv_certify_input, quote_check, quote_input,
    session_audit_check, set_command_code_audit_status_ran, shown, signer, structure_of,
};
use crate::tpm::commands::dispatch::{RequestView, Response};
use crate::tpm::commands::signatures::{object_named, signature_made};
use crate::tpm::commands::wire::alone;
use crate::tpm::config;
use crate::tpm::constants::{alg, rh};
use crate::tpm::crypto::hash::hash_of;
use crate::tpm::crypto::hmac::hmac_of;
use crate::tpm::crypto::rand::Rng;
use crate::tpm::engine::object::Object;
use crate::tpm::engine::state::TpmState;
use crate::tpm::error::{TpmRc, TpmResult};
use crate::tpm::marshal::sized;
use crate::tpm::structures::attest::{AttestView, AttestedView};
use crate::tpm::structures::lists::{PcrSelection, TpmlCc, TpmlPcrSelection};
use crate::tpm::structures::schemes::{Scheme, SchemeDetail};
use crate::tpm::structures::signature::{SignatureView, TicketView};
use crate::util::bytes::{octets16, octets32, octets64};

verus! {

/// The octets of an attestation: the mark of this TPM, the tag, who signs, what the
/// caller gave, the clock and its counts, the firmware version, and what is attested
/// to.
pub open spec fn wire(
    tag: u16,
    qualified_signer: Seq<u8>,
    extra: Seq<u8>,
    clock: u64,
    resets: u32,
    restarts: u32,
    safe: bool,
    firmware: u64,
    rest: Seq<u8>,
) -> Seq<u8> {
    seq![0xFFu8, 0x54, 0x43, 0x47] + octets16(tag) + sized(qualified_signer) + sized(extra)
        + octets64(clock) + octets32(resets) + octets32(restarts) + seq![
        if safe {
            1u8
        } else {
            0u8
        },
    ] + octets64(firmware) + rest
}

/// The scheme a key signs with: its own where it has one, and else the caller's.
pub open spec fn scheme_used(o: Object, supplied: Scheme) -> Scheme {
    match o.public.parameters.spec_scheme() {
        Some(own) => if own.scheme == alg::NULL {
            supplied
        } else {
            own
        },
        None => supplied,
    }
}

/// The hash of a scheme.
pub open spec fn hash_in(s: Scheme) -> Option<u16> {
    match s.detail {
        SchemeDetail::Empty => None,
        SchemeDetail::Hash(h) => Some(h.hash_alg),
        SchemeDetail::Xor(x) => Some(x.hash_alg),
    }
}

/// The response carries an attestation with that tag and content, made with the
/// caller's data, and its signature. Without a key nothing is signed. With one, the
/// key may sign, the structure names it, and the signature is over the hash of the
/// octets that are returned. The clock is the TPM's. Only a key of the Endorsement or
/// the Platform hierarchy shows the counts and the firmware version as they are.
pub open spec fn says(
    state: TpmState,
    sign: u32,
    supplied: Scheme,
    extra: Seq<u8>,
    tag: u16,
    rest: Seq<u8>,
    r: TpmResult<Response>,
) -> bool {
    exists|
        named: Seq<u8>,
        resets: u32,
        restarts: u32,
        firmware: u64,
        sig_alg: u16,
        sig: SignatureView,
    |
        says_with(
            state,
            sign,
            supplied,
            extra,
            tag,
            rest,
            r,
            named,
            resets,
            restarts,
            firmware,
            sig_alg,
            sig,
        )
}

/// The same, with what the response leaves open given.
pub open spec fn says_with(
    state: TpmState,
    sign: u32,
    supplied: Scheme,
    extra: Seq<u8>,
    tag: u16,
    rest: Seq<u8>,
    r: TpmResult<Response>,
    named: Seq<u8>,
    resets: u32,
    restarts: u32,
    firmware: u64,
    sig_alg: u16,
    sig: SignatureView,
) -> bool {
    let body = wire(
        tag,
        named,
        extra,
        state.clock.clock,
        resets,
        restarts,
        state.clock.safe,
        firmware,
        rest,
    );
    &&& r is Ok
    &&& r->Ok_0.handle is None
    &&& r->Ok_0.parameters@ == sized(body) + octets16(sig_alg) + sig.octets()
    &&& sign == rh::NULL ==> sig_alg == alg::NULL && sig.octets().len() == 0 && named.len() == 0
    &&& sign != rh::NULL ==> object_named(state, sign) is Ok && {
        let o = object_named(state, sign)->Ok_0;
        let s = scheme_used(o, supplied);
        &&& o.public.object_attributes.0 & 0x0004_0000 != 0
        &&& hash_in(s) is Some
        &&& s.scheme != alg::ECDAA ==> {
            &&& named == o.qualified_name@
            &&& signature_made(state.rng.model(), o@, s, hash_of(hash_in(s)->0, body)).0 == Ok::<
                (u16, SignatureView),
                TpmRc,
            >((sig_alg, sig))
        }
        &&& s.scheme == alg::ECDAA ==> named.len() == 0
        &&& o.hierarchy == rh::ENDORSEMENT || o.hierarchy == rh::PLATFORM ==> {
            &&& resets == state.clock.reset_count
            &&& restarts == state.clock.restart_count
            &&& firmware == config::FIRMWARE_VERSION_1
        }
    }
}

proof fn lemma_sign_bit(a: u32)
    by (bit_vector)
    ensures
        a & 0x0004_0000 == 0x0004_0000 ==> a & 0x0004_0000 != 0,
        (0xFF544347u32 >> 24) as u8 == 0xFF,
        (0xFF544347u32 >> 16) as u8 == 0x54,
        (0xFF544347u32 >> 8) as u8 == 0x43,
        0xFF544347u32 as u8 == 0x47,
{
}

/// What an attesting command that succeeded says.
proof fn lemma_says(
    after: TpmState,
    before: TpmState,
    sign: u32,
    supplied: Scheme,
    extra: Seq<u8>,
    a: AttestedView,
    number: int,
    parameter: int,
    r: TpmResult<Response>,
)
    requires
        attests(after, before, Ok((sign, supplied, extra, a)), number, parameter, r),
        r is Ok,
    ensures
        sign == rh::NULL || object_named(before, sign) is Ok,
        ({
            let b = if sign != rh::NULL && scheme_used(
                object_named(before, sign)->Ok_0,
                supplied,
            ).scheme == alg::ECDAA && a is Certify {
                AttestedView::Certify { name: a->Certify_name, qualified_name: Seq::empty() }
            } else {
                a
            };
            says(before, sign, supplied, extra, a.tag(), b.octets(), r)
        }),
{
    reveal(attestation);
    reveal(signer);
    reveal(shown);
    reveal(attest_signature);
    reveal(structure_of);
    reveal(AttestView::octets);
    let by = signer(before, sign, number, supplied, parameter)->Ok_0;
    let show = shown(
        before,
        sign,
        crate::tpm::commands::attest::hiding_name(by),
    )->Ok_0;
    let v = structure_of(by, extra, show, a);
    let (sig_alg, sig) = attest_signature(before.rng.model(), by, v, parameter).0->Ok_0;
    if sign != rh::NULL {
        lemma_sign_bit(object_named(before, sign)->Ok_0.public.object_attributes.0);
    } else {
        lemma_sign_bit(0);
    }
    let b = v.attested;
    let body = wire(
        a.tag(),
        v.qualified_signer,
        extra,
        before.clock.clock,
        show.0.reset_count,
        show.0.restart_count,
        before.clock.safe,
        show.1,
        b.octets(),
    );
    assert(octets32(0xFF544347u32) =~= seq![0xFFu8, 0x54, 0x43, 0x47]);
    assert(show.0.clock == before.clock.clock);
    assert(show.0.safe == before.clock.safe);
    assert(v.octets() =~= body);
    assert(says_with(
        before,
        sign,
        supplied,
        extra,
        a.tag(),
        b.octets(),
        r,
        v.qualified_signer,
        show.0.reset_count,
        show.0.restart_count,
        show.1,
        sig_alg,
        sig,
    ));
}

/// TPM2_Quote attests to the hash, with the scheme's hash, of the values of the
/// selected registers that exist, one after the other, and to the selection without
/// those that do not.
pub proof fn law_a_quote_is_over_the_registers(
    after: TpmState,
    before: TpmState,
    req: RequestView,
    extra: Seq<u8>,
    supplied: Scheme,
    items: Seq<PcrSelection>,
    r: TpmResult<Response>,
)
    requires
        attests(after, before, quote_check(before, req), 1, 2, r),
        r is Ok,
        alone(req.parameters, quote_input(req.parameters)) == Ok::<
            (Seq<u8>, Scheme, Seq<PcrSelection>),
            TpmRc,
        >((extra, supplied, items)),
    ensures
        exists|h: u16, list: Seq<PcrSelection>|
            {
                &&& Some(h) == (if req.handles[0] == rh::NULL {
                    hash_in(supplied)
                } else {
                    hash_in(scheme_used(object_named(before, req.handles[0])->Ok_0, supplied))
                })
                &&& list.len() == items.len()
                &&& forall|k: int|
                    0 <= k < items.len() ==> (#[trigger] list[k]).hash_alg == items[k].hash_alg
                        && list[k].select.0 == (if before.pcr.has_bank(items[k].hash_alg) {
                        items[k].select.0
                    } else {
                        0
                    })
                &&& #[trigger] says(
                    before,
                    req.handles[0],
                    supplied,
                    extra,
                    0x8018,
                    TpmlPcrSelection::octets_of(list) + sized(
                        hash_of(h, strung(registers_named(before.pcr, items))),
                    ),
                    r,
                )
            },
{
    let (sign, scheme, e, a) = quote_check(before, req)->Ok_0;
    let h = crate::tpm::commands::attest::quote_hash(before, sign, scheme)->Ok_0;
    let list = items.map_values(|s: PcrSelection| before.pcr.filtered(s));
    reveal(signer);
    law_a_digest_is_over_the_registers(before.pcr, h, items);
    lemma_says(after, before, sign, scheme, e, a, 1, 2, r);
    assert(says(
        before,
        req.handles[0],
        supplied,
        extra,
        0x8018,
        TpmlPcrSelection::octets_of(list) + sized(
            hash_of(h, strung(registers_named(before.pcr, items))),
        ),
        r,
    ));
}

/// TPM2_Certify attests to the Name and the Qualified Name of the object its first
/// handle names, signed by the key its second handle names.
pub proof fn law_a_certificate_names_the_object(
    after: TpmState,
    before: TpmState,
    req: RequestView,
    extra: Seq<u8>,
    supplied: Scheme,
    r: TpmResult<Response>,
)
    requires
        attests(after, before, certify_check(before, req), 2, 2, r),
        r is Ok,
        alone(req.parameters, attest_input(req.parameters, 2)) == Ok::<(Seq<u8>, Scheme), TpmRc>(
            (extra, supplied),
        ),
    ensures
        object_named(before, req.handles[0]) is Ok,
        ({
            let o = object_named(before, req.handles[0])->Ok_0;
            let anonymous = req.handles[1] != rh::NULL && scheme_used(
                object_named(before, req.handles[1])->Ok_0,
                supplied,
            ).scheme == alg::ECDAA;
            says(
                before,
                req.handles[1],
                supplied,
                extra,
                0x8017,
                sized(o.name@) + sized(
                    if anonymous {
                        Seq::empty()
                    } else {
                        o.qualified_name@
                    },
                ),
                r,
            )
        }),
{
    let (sign, scheme, e, a) = certify_check(before, req)->Ok_0;
    lemma_says(after, before, sign, scheme, e, a, 2, 2, r);
}

/// TPM2_CertifyCreation attests to the Name of the object and to the digest of its
/// creation data that the caller gave, and only with the ticket of this TPM for the
/// two.
pub proof fn law_a_creation_is_certified_with_its_ticket(
    after: TpmState,
    before: TpmState,
    req: RequestView,
    extra: Seq<u8>,
    d: Seq<u8>,
    supplied: Scheme,
    ticket: TicketView,
    r: TpmResult<Response>,
)
    requires
        attests(after, before, certify_creation_check(before, req), 1, 3, r),
        r is Ok,
        alone(req.parameters, creation_input(req.parameters)) == Ok::<
            (Seq<u8>, Seq<u8>, Scheme, TicketView),
            TpmRc,
        >((extra, d, supplied, ticket)),
    ensures
        object_named(before, req.handles[1]) is Ok,
        ({
            let o = object_named(before, req.handles[1])->Ok_0;
            &&& ticket.digest == hmac_of(
                config::CONTEXT_INTEGRITY_HASH_ALG,
                before.hierarchies.spec_get(ticket.hierarchy).proof_value@,
                octets16(0x8021) + o.name@ + d,
            )
            &&& says(
                before,
                req.handles[0],
                supplied,
                extra,
                0x801A,
                sized(o.name@) + sized(d),
                r,
            )
        }),
{
    let (sign, scheme, e, a) = certify_creation_check(before, req)->Ok_0;
    lemma_says(after, before, sign, scheme, e, a, 1, 3, r);
}

/// TPM2_GetTime attests to Time, Clock, the counts of resets and restarts, whether
/// Clock is safe, and the firmware version.
pub proof fn law_the_time_attested_to_is_the_tpms(
    after: TpmState,
    before: TpmState,
    req: RequestView,
    extra: Seq<u8>,
    supplied: Scheme,
    r: TpmResult<Response>,
)
    requires
        attests(after, before, get_time_check(before, req), 2, 2, r),
        r is Ok,
        alone(req.parameters, attest_input(req.parameters, 2)) == Ok::<(Seq<u8>, Scheme), TpmRc>(
            (extra, supplied),
        ),
    ensures
        says(
            before,
            req.handles[1],
            supplied,
            extra,
            0x8019,
            octets64(before.clock.time) + octets64(before.clock.clock) + octets32(
                before.clock.reset_count,
            ) + octets32(before.clock.restart_count) + seq![
                if before.clock.safe {
                    1u8
                } else {
                    0u8
                },
            ] + octets64(config::FIRMWARE_VERSION_1 as u64),
            r,
        ),
{
    let (sign, scheme, e, a) = get_time_check(before, req)->Ok_0;
    lemma_says(after, before, sign, scheme, e, a, 2, 2, r);
    assert(a.octets() =~= octets64(before.clock.time) + octets64(before.clock.clock) + octets32(
        before.clock.reset_count,
    ) + octets32(before.clock.restart_count) + seq![
        if before.clock.safe {
            1u8
        } else {
            0u8
        },
    ] + octets64(config::FIRMWARE_VERSION_1 as u64));
}

/// TPM2_NV_Certify attests to the Name of the Index and to the octets asked for, with
/// where they start, or to the hash of all it holds when neither a size nor an offset
/// is given. The Index was written and is not locked against reads.
pub proof fn law_an_index_is_certified_as_it_is(
    after: TpmState,
    before: TpmState,
    req: RequestView,
    extra: Seq<u8>,
    supplied: Scheme,
    size: u16,
    offset: u16,
    r: TpmResult<Response>,
)
    requires
        attests(after, before, nv_certify_check(before, req), 1, 2, r),
        r is Ok,
        alone(req.parameters, nv_certify_input(req.parameters)) == Ok::<
            (Seq<u8>, Scheme, u16, u16),
            TpmRc,
        >((extra, supplied, size, offset)),
    ensures
        ({
            let i = before.nv.indices@[req.handles[2]];
            &&& before.nv.indices@.contains_key(req.handles[2])
            &&& !i.read_locked
            &&& super::nv::was_written(i)
            &&& size != 0 || offset != 0 ==> offset + size <= i.public.data_size && says(
                before,
                req.handles[0],
                supplied,
                extra,
                0x8014,
                sized(i.name_of()) + octets16(offset) + sized(
                    i.data@.subrange(offset as int, offset + size),
                ),
                r,
            )
            &&& size == 0 && offset == 0 ==> exists|h: u16|
                {
                    &&& Some(h) == (if req.handles[0] == rh::NULL {
                        hash_in(supplied)
                    } else {
                        hash_in(scheme_used(object_named(before, req.handles[0])->Ok_0, supplied))
                    })
                    &&& says(
                        before,
                        req.handles[0],
                        supplied,
                        extra,
                        0x801C,
                        sized(i.name_of()) + sized(#[trigger] hash_of(h, i.data@)),
                        r,
                    )
                }
        }),
{
    let (sign, scheme, e, a) = nv_certify_check(before, req)->Ok_0;
    let i = before.nv.indices@[req.handles[2]];
    super::nv::lemma_attribute_bits(i.public.attributes.0);
    lemma_says(after, before, sign, scheme, e, a, 1, 2, r);
    if size == 0 && offset == 0 {
        reveal(signer);
        let h = crate::tpm::commands::attest::quote_hash(before, sign, scheme)->Ok_0;
        assert(says(
            before,
            req.handles[0],
            supplied,
            extra,
            0x801C,
            sized(i.name_of()) + sized(hash_of(h, i.data@)),
            r,
        ));
    }
}

/// TPM2_GetSessionAuditDigest attests to the digest of the session its third handle
/// names, which has audited, and to whether it is exclusive.
pub proof fn law_a_session_audit_is_the_sessions(
    after: TpmState,
    before: TpmState,
    req: RequestView,
    extra: Seq<u8>,
    supplied: Scheme,
    r: TpmResult<Response>,
)
    requires
        attests(after, before, session_audit_check(before, req), 2, 2, r),
        r is Ok,
        alone(req.parameters, attest_input(req.parameters, 2)) == Ok::<(Seq<u8>, Scheme), TpmRc>(
            (extra, supplied),
        ),
    ensures
        ({
            let s = before.sessions.loaded@[req.handles[2]];
            &&& before.sessions.loaded@.contains_key(req.handles[2])
            &&& s.audit.is_audit
            &&& says(
                before,
                req.handles[1],
                supplied,
                extra,
                0x8016,
                seq![
                    if before.audit.exclusive_session == req.handles[2] {
                        1u8
                    } else {
                        0u8
                    },
                ] + sized(s.audit.digest@),
                r,
            )
        }),
{
    let (sign, scheme, e, a) = session_audit_check(before, req)->Ok_0;
    lemma_says(after, before, sign, scheme, e, a, 2, 2, r);
}

/// The codes one after the other, most significant octet first.
pub open spec fn codes(s: Seq<u32>) -> Seq<u8>
    decreases s.len(),
{
    if s.len() == 0 {
        Seq::empty()
    } else {
        codes(s.drop_last()) + octets32(s.last())
    }
}

proof fn lemma_codes(s: Seq<u32>)
    ensures
        TpmlCc::items_octets(s) == codes(s),
    decreases s.len(),
{
    if s.len() > 0 {
        lemma_codes(s.drop_last());
    }
}

/// TPM2_GetCommandAuditDigest attests to the counter, the hash, the log and the hash
/// of the list of commands that are audited. A report that is signed empties the log,
/// and one that is not leaves it as it is.
pub proof fn law_a_command_audit_is_the_tpms(
    after: TpmState,
    before: TpmState,
    req: RequestView,
    extra: Seq<u8>,
    supplied: Scheme,
    r: TpmResult<Response>,
)
    requires
        get_command_audit_digest_ran(after, before, req, r),
        r is Ok,
        alone(req.parameters, attest_input(req.parameters, 2)) == Ok::<(Seq<u8>, Scheme), TpmRc>(
            (extra, supplied),
        ),
    ensures
        says(
            before,
            req.handles[1],
            supplied,
            extra,
            0x8015,
            octets64(before.audit.counter) + octets16(before.audit.alg) + sized(
                before.audit.digest@,
            ) + sized(hash_of(before.audit.alg, codes(before.audit.commands@))),
            r,
        ),
        req.handles[1] == rh::NULL ==> after.audit == before.audit,
        req.handles[1] != rh::NULL ==> after.audit.digest@.len() == 0 && after.audit.counter
            == before.audit.counter && after.audit.commands == before.audit.commands
            && after.audit.alg == before.audit.alg,
{
    let (sign, scheme, e, a) = command_audit_check(before, req)->Ok_0;
    lemma_codes(before.audit.commands@);
    lemma_says(
        (TpmState { audit: before.audit, ..after }),
        before,
        sign,
        scheme,
        e,
        a,
        2,
        2,
        r,
    );
}

/// SetCommandCodeAuditStatus adds the commands to set and takes out those to clear, but
/// never itself; or it changes the hash and starts the digest anew.
pub proof fn law_the_audited_commands_are_those_asked_for(
    after: TpmState,
    before: TpmState,
    req: RequestView,
    r: TpmResult<Response>,
    hash_alg: u16,
    set: Seq<u32>,
    clear: Seq<u32>,
    c: u32,
)
    requires
        set_command_code_audit_status_ran(after, before, req, r),
        alone(req.parameters, audit_status_input(req.parameters)) == Ok::<
            (u16, Seq<u32>, Seq<u32>),
            TpmRc,
        >((hash_alg, set, clear)),
        r is Ok,
    ensures
        if hash_alg == 0x0010 || hash_alg == before.audit.alg {
            &&& after.audit.alg == before.audit.alg
            &&& after.audit.digest == before.audit.digest
            &&& after.audit.counter == before.audit.counter
            &&& after.audit.commands@.contains(c) ==> before.audit.commands@.contains(c)
                || set.contains(c)
            &&& before.audit.commands@.contains(c) && (c == 0x140 || !clear.contains(c))
                ==> after.audit.commands@.contains(c)
            &&& set.contains(c) && !clear.contains(c) && crate::tpm::commands::table::found(
                c,
            ) is Some ==> after.audit.commands@.contains(c)
            &&& clear.contains(c) && c != 0x140 ==> !after.audit.commands@.contains(c)
        } else {
            &&& set.len() == 0 && clear.len() == 0
            &&& after.audit.alg == hash_alg
            &&& after.audit.digest@.len() == 0
            &&& after.audit.commands == before.audit.commands
        },
{
}

} // verus!
