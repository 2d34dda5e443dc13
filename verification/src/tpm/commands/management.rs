//! Startup, self test, randomness and the clock.

use vstd::prelude::*;

use super::dispatch::{Request, RequestView, Response};
use super::execute::respond;
use super::table::{found, lookup};
use super::wire::{
    alone, answers_nothing, answers_with, at_parameter, fails, in_sized, in_u16, in_u64, in_u8,
    nothing, numbered, read_sized, read_u16, read_u64, read_u8,
};
use crate::tpm::config;
use crate::tpm::constants::{alg, cc, curve, rc, su};
use crate::tpm::crypto::dhkem::{is_kem_suite, kem_suite};
use crate::tpm::crypto::hash::{is_supported, supported};
use crate::tpm::engine::hierarchy::seed_drawn;
use crate::tpm::crypto::rand::{draw, mixed_key, mixed_value, Rng, RngModel};
use crate::tpm::crypto::sym::is_supported_mode;
use crate::tpm::engine::lifecycle::{is_reset, started_clear, started_state};
use crate::tpm::engine::state::{Act, Clock, TpmState};
use crate::tpm::error::{TpmRc, TpmResult};
use crate::tpm::fips;
use crate::tpm::marshal::{sized, Parsed, Reader, Writer};
use crate::tpm::structures::attest::ClockInfo;
use crate::tpm::structures::attributes::StartupClearAttributes;
use crate::tpm::structures::keys::PublicParms;
use crate::tpm::structures::lists::TpmlAlg;
use crate::util::bytes::{be16, octets16, octets32, octets64, to_vec};

pub use super::capability::{
    build_capability, capability_property, get_capability, handles_in_range, pcr_properties,
    permanent_attributes, tpm_properties,
};

use crate::tpm::crypto::bn::{lemma_octets_len, octet_length, octets_of};
use crate::tpm::crypto::ecc::{curve_of, lemma_coordinate_size, lemma_parameter_sizes, Curve};
use crate::tpm::structures::keys::known_curve;

verus! {

/// TPM2_Startup.
///
/// It comes from locality 0 or 3. TPM_SU_STATE needs a TPM2_Shutdown(STATE)
/// before it.
pub open spec fn startup_ran(
    after: TpmState,
    before: TpmState,
    req: RequestView,
    r: TpmResult<Response>,
) -> bool {
    match alone(req.parameters, in_u16(req.parameters, 0, 1)) {
        Err(e) => fails(r, e) && after == before,
        Ok(t) => if req.locality != 0 && req.locality != 3 {
            fails(r, TpmRc(rc::LOCALITY)) && after == before
        } else if t == su::CLEAR {
            let drawn = seed_drawn(before.rng.model());
            if is_reset(before) && drawn.0 is Err {
                &&& fails(r, drawn.0->Err_0)
                &&& after == (TpmState { rng: after.rng, ..before })
                &&& after.rng.model() == drawn.1
            } else {
                answers_nothing(r) && started_clear(after, before, req.locality)
            }
        } else if t == su::STATE && before.shutdown_type == su::STATE {
            answers_nothing(r) && started_state(after, before)
        } else {
            fails(r, TpmRc(rc::VALUE).for_parameter(1)) && after == before
        },
    }
}

/// TPM2_Startup.
pub fn startup(state: &mut TpmState, request: &Request) -> (r: TpmResult<Response>)
    requires
        old(state).wf(),
    ensures
        final(state).wf(),
        startup_ran(*final(state), *old(state), request@, r),
{
    let mut reader = request.reader();
    let startup_type: u16 = read_u16(&mut reader, 1)?;
    reader.expect_end()?;
    if request.locality != 0 && request.locality != 3 {
        return Err(TpmRc(rc::LOCALITY));
    }
    if startup_type == su::CLEAR {
        state.on_startup_clear(request.locality)?;
        return nothing();
    }
    if startup_type == su::STATE && state.shutdown_type == su::STATE {
        state.on_startup_state();
        return nothing();
    }
    Err(TpmRc(rc::VALUE).with_parameter(1))
}

/// TPM2_Shutdown.
///
/// TPM_SU_STATE is not allowed while a new PCR allocation waits for a reset.
/// Half of a timer that was not set since the last startup is kept.
pub open spec fn shutdown_ran(
    after: TpmState,
    before: TpmState,
    req: RequestView,
    r: TpmResult<Response>,
) -> bool {
    match alone(req.parameters, in_u16(req.parameters, 0, 1)) {
        Err(e) => fails(r, e) && after == before,
        Ok(t) => if (t != su::CLEAR && t != su::STATE) || (t == su::STATE
            && before.pcr_allocation_pending) {
            fails(r, TpmRc(rc::VALUE).for_parameter(1)) && after == before
        } else {
            &&& answers_nothing(r)
            &&& after == (TpmState {
                shutdown_type: t,
                started: false,
                startup_clear: before.startup_clear.with(StartupClearAttributes::ORDERLY),
                act: if t == su::STATE && !before.act.set_since_startup {
                    Act { remaining: before.act.remaining / 2, ..before.act }
                } else {
                    before.act
                },
                ..before
            })
        },
    }
}

/// TPM2_Shutdown.
pub fn shutdown(state: &mut TpmState, request: &Request) -> (r: TpmResult<Response>)
    requires
        old(state).wf(),
    ensures
        final(state).wf(),
        shutdown_ran(*final(state), *old(state), request@, r),
{
    let mut reader = request.reader();
    let shutdown_type: u16 = read_u16(&mut reader, 1)?;
    reader.expect_end()?;
    if shutdown_type != su::CLEAR && shutdown_type != su::STATE {
        return Err(TpmRc(rc::VALUE).with_parameter(1));
    }
    if shutdown_type == su::STATE && state.pcr_allocation_pending {
        return Err(TpmRc(rc::VALUE).with_parameter(1));
    }
    state.shutdown_type = shutdown_type;
    if shutdown_type == su::STATE {
        state.act.on_shutdown_state();
    }
    state.startup_clear = state.startup_clear.with(StartupClearAttributes::ORDERLY);
    state.started = false;
    nothing()
}

/// The name of the self test that fails: one of the known answer tests, or the
/// integrity test when the platform did not measure the image.
pub open spec fn test_fault(state: TpmState) -> Option<Seq<u8>> {
    match fips::failing_test() {
        Some(name) => Some(name),
        None => if state.image_digest is None {
            Some(fips::NAME_INTEGRITY@)
        } else {
            None
        },
    }
}

/// Every self test was run. A failure puts the TPM in failure mode.
pub open spec fn tested(after: TpmState, before: TpmState, r: TpmResult<()>) -> bool {
    match test_fault(before) {
        Some(name) => {
            &&& r == Err::<(), TpmRc>(TpmRc(rc::FAILURE))
            &&& after == (TpmState {
                failure_mode: true,
                self_test_done: false,
                test_failure: after.test_failure,
                ..before
            })
            &&& after.test_failure is Some
            &&& after.test_failure->Some_0@ == name
        },
        None => {
            &&& r is Ok
            &&& after == (TpmState {
                self_test_done: true,
                test_failure: None,
                test_digest: after.test_digest,
                ..before
            })
            &&& after.test_digest@ == before.image_digest->Some_0@
        },
    }
}

fn note_failure(state: &mut TpmState, name: Vec<u8>)
    ensures
        *final(state) == (TpmState {
            failure_mode: true,
            self_test_done: false,
            test_failure: Some(name),
            ..*old(state)
        }),
{
    state.failure_mode = true;
    state.self_test_done = false;
    state.test_failure = Some(name);
}

/// Run every known answer test and the integrity test, and record the outcome.
pub fn run_self_tests(state: &mut TpmState) -> (r: TpmResult<()>)
    requires
        old(state).wf(),
    ensures
        final(state).wf(),
        tested(*final(state), *old(state), r),
{
    if let Err(f) = fips::known_answer_tests() {
        note_failure(state, f.0);
        return Err(TpmRc(rc::FAILURE));
    }
    match fips::integrity(&state.image_digest) {
        Ok(digest) => {
            state.test_digest = digest;
        },
        Err(f) => {
            note_failure(state, f.0);
            return Err(TpmRc(rc::FAILURE));
        },
    }
    state.self_test_done = true;
    state.test_failure = None;
    Ok(())
}

/// TPM2_SelfTest. fullTest repeats every test, and otherwise only what was not
/// tested yet is.
pub open spec fn self_test_ran(
    after: TpmState,
    before: TpmState,
    req: RequestView,
    r: TpmResult<Response>,
) -> bool {
    match alone(req.parameters, in_u8(req.parameters, 0, 1)) {
        Err(e) => fails(r, e) && after == before,
        Ok(full) => if full > 1 {
            fails(r, TpmRc(rc::VALUE).for_parameter(1)) && after == before
        } else if full == 0 && before.self_test_done {
            answers_nothing(r) && after == before
        } else if test_fault(before) is Some {
            fails(r, TpmRc(rc::FAILURE)) && tested(
                after,
                before,
                Err::<(), TpmRc>(TpmRc(rc::FAILURE)),
            )
        } else {
            answers_nothing(r) && tested(after, before, Ok::<(), TpmRc>(()))
        },
    }
}

/// TPM2_SelfTest.
pub fn self_test(state: &mut TpmState, request: &Request) -> (r: TpmResult<Response>)
    requires
        old(state).wf(),
    ensures
        final(state).wf(),
        self_test_ran(*final(state), *old(state), request@, r),
{
    let mut reader = request.reader();
    let full_test: u8 = read_u8(&mut reader, 1)?;
    reader.expect_end()?;
    if full_test > 1 {
        return Err(TpmRc(rc::VALUE).with_parameter(1));
    }
    if full_test == 0 && state.self_test_done {
        return nothing();
    }
    run_self_tests(state)?;
    nothing()
}

/// The items that no known answer test covers.
pub open spec fn untested(s: Seq<u16>) -> Seq<u16>
    decreases s.len(),
{
    if s.len() == 0 {
        Seq::empty()
    } else if fips::TESTED@.contains(s.last()) {
        untested(s.drop_last())
    } else {
        untested(s.drop_last()).push(s.last())
    }
}

/// True when every item is an algorithm there is.
pub open spec fn all_implemented(s: Seq<u16>) -> bool {
    forall|i: int| 0 <= i < s.len() ==> config::IMPLEMENTED_ALGORITHMS@.contains(#[trigger] s[i])
}

/// TPM2_IncrementalSelfTest: the answer is what is still untested afterwards.
pub open spec fn incremental_self_test_ran(
    after: TpmState,
    before: TpmState,
    req: RequestView,
    r: TpmResult<Response>,
) -> bool {
    match alone(req.parameters, numbered(TpmlAlg::parse(req.parameters, 0), 1)) {
        Err(e) => fails(r, e) && after == before,
        Ok(list) => if !all_implemented(list) {
            fails(r, TpmRc(rc::VALUE).for_parameter(1)) && after == before
        } else if !before.self_test_done && test_fault(before) is Some {
            fails(r, TpmRc(rc::FAILURE)) && tested(
                after,
                before,
                Err::<(), TpmRc>(TpmRc(rc::FAILURE)),
            )
        } else {
            &&& answers_with(r, TpmlAlg::octets_of(untested(list)))
            &&& if before.self_test_done {
                after == before
            } else {
                tested(after, before, Ok::<(), TpmRc>(()))
            }
        },
    }
}

fn implemented(list: &[u16]) -> (r: bool)
    ensures
        r == all_implemented(list@),
{
    let mut i: usize = 0;
    while i < list.len()
        invariant
            i <= list@.len(),
            forall|j: int|
                0 <= j < i ==> config::IMPLEMENTED_ALGORITHMS@.contains(#[trigger] list@[j]),
        decreases list@.len() - i,
    {
        if !config::in_list(config::IMPLEMENTED_ALGORITHMS.as_slice(), list[i]) {
            assert(!config::IMPLEMENTED_ALGORITHMS@.contains(list@[i as int]));
            return false;
        }
        i = i + 1;
    }
    true
}

fn without_tests(list: &[u16]) -> (r: Vec<u16>)
    ensures
        r@ == untested(list@),
        r@.len() <= list@.len(),
{
    let mut out: Vec<u16> = Vec::new();
    let mut i: usize = 0;
    assert(list@.take(0) =~= Seq::<u16>::empty());
    assert(out@ =~= untested(list@.take(0)));
    while i < list.len()
        invariant
            i <= list@.len(),
            out@ == untested(list@.take(i as int)),
            out@.len() <= i,
        decreases list@.len() - i,
    {
        proof {
            let s = list@.take(i + 1);
            assert(s.drop_last() =~= list@.take(i as int));
            assert(s.last() == list@[i as int]);
        }
        if !fips::is_tested(list[i]) {
            out.push(list[i]);
        }
        i = i + 1;
    }
    assert(list@.take(i as int) =~= list@);
    out
}

/// TPM2_IncrementalSelfTest.
pub fn incremental_self_test(state: &mut TpmState, request: &Request) -> (r: TpmResult<Response>)
    requires
        old(state).wf(),
    ensures
        final(state).wf(),
        incremental_self_test_ran(*final(state), *old(state), request@, r),
{
    let mut reader = request.reader();
    let to_test: TpmlAlg = at_parameter(TpmlAlg::unmarshal(&mut reader), 1)?;
    reader.expect_end()?;
    if !implemented(to_test.items.as_slice()) {
        return Err(TpmRc(rc::VALUE).with_parameter(1));
    }
    if !state.self_test_done {
        run_self_tests(state)?;
    }
    let mut w = Writer::new();
    let remaining = TpmlAlg { items: without_tests(to_test.items.as_slice()) };
    remaining.marshal(&mut w);
    assert(w.written() =~= TpmlAlg::octets_of(remaining.items@));
    respond(w)
}

/// What TPM2_GetTestResult returns: the name of the test that failed, or the
/// digest of the image, and whether the TPM failed.
pub open spec fn test_result(state: TpmState) -> Seq<u8> {
    sized(
        match state.test_failure {
            Some(name) => name@,
            None => state.test_digest@,
        },
    ) + octets32(
        if state.failure_mode {
            rc::FAILURE
        } else {
            rc::SUCCESS
        },
    )
}

/// TPM2_GetTestResult.
pub fn get_test_result(state: &TpmState, _request: &Request) -> (r: TpmResult<Response>)
    requires
        state.wf(),
    ensures
        answers_with(r, test_result(*state)),
{
    let data: Vec<u8> = match &state.test_failure {
        Some(name) => to_vec(name.as_slice()),
        None => to_vec(state.test_digest.as_slice()),
    };
    let mut w = Writer::new();
    w.sized16(data.as_slice());
    w.u32(
        if state.failure_mode {
            rc::FAILURE
        } else {
            rc::SUCCESS
        },
    );
    assert(w.written() =~= test_result(*state));
    respond(w)
}

/// TPM2_GetRandom. The answer is never longer than the largest digest.
pub open spec fn get_random_ran(
    after: TpmState,
    before: TpmState,
    req: RequestView,
    r: TpmResult<Response>,
) -> bool {
    match alone(req.parameters, in_u16(req.parameters, 0, 1)) {
        Err(e) => fails(r, e) && after == before,
        Ok(n) => {
            let drawn = draw(
                before.rng.model(),
                if n > 64 {
                    64
                } else {
                    n as nat
                },
            );
            &&& after == (TpmState { rng: after.rng, ..before })
            &&& after.rng.model() == drawn.1
            &&& match drawn.0 {
                Ok(v) => answers_with(r, sized(v)),
                Err(e) => fails(r, e),
            }
        },
    }
}

/// TPM2_GetRandom.
pub fn get_random(state: &mut TpmState, request: &Request) -> (r: TpmResult<Response>)
    requires
        old(state).wf(),
    ensures
        final(state).wf(),
        get_random_ran(*final(state), *old(state), request@, r),
{
    let mut reader = request.reader();
    let requested: u16 = read_u16(&mut reader, 1)?;
    reader.expect_end()?;
    let size: usize = if requested > 64 {
        64
    } else {
        requested as usize
    };
    let bytes: Vec<u8> = state.rng.bytes(size)?;
    let mut w = Writer::new();
    w.sized16(bytes.as_slice());
    assert(w.written() =~= sized(bytes@));
    respond(w)
}

/// TPM2_StirRandom.
pub open spec fn stir_random_ran(
    after: TpmState,
    before: TpmState,
    req: RequestView,
    r: TpmResult<Response>,
) -> bool {
    match alone(req.parameters, in_sized(req.parameters, 0, 128, 1)) {
        Err(e) => fails(r, e) && after == before,
        Ok(data) => {
            let hash = before.rng.spec_hash();
            if !supported(hash) {
                fails(r, TpmRc(rc::FAILURE)) && after == before
            } else {
                &&& answers_nothing(r)
                &&& after == (TpmState { rng: after.rng, ..before })
                &&& after.rng.model() == stirred(before.rng.model(), data)
            }
        },
    }
}

/// The generator with `data` mixed in.
pub open spec fn stirred(m: RngModel, data: Seq<u8>) -> RngModel {
    match m {
        RngModel::Hmac { hash_alg, key, value, counter } => RngModel::Hmac {
            hash_alg,
            key: mixed_key(hash_alg, key, value, data),
            value: mixed_value(hash_alg, key, value, data),
            counter,
        },
        _ => m,
    }
}

/// TPM2_StirRandom.
pub fn stir_random(state: &mut TpmState, request: &Request) -> (r: TpmResult<Response>)
    requires
        old(state).wf(),
    ensures
        final(state).wf(),
        stir_random_ran(*final(state), *old(state), request@, r),
{
    let mut reader = request.reader();
    let data: Vec<u8> = read_sized::<128>(&mut reader, 1)?;
    reader.expect_end()?;
    state.rng.stir(data.as_slice())?;
    nothing()
}

/// The TPMS_CLOCK_INFO the TPM reports now.
pub open spec fn clock_info_of(state: TpmState) -> ClockInfo {
    ClockInfo {
        clock: state.clock.clock,
        reset_count: state.clock.reset_count,
        restart_count: state.clock.restart_count,
        safe: state.clock.safe,
    }
}

/// The TPMS_CLOCK_INFO the TPM reports now.
pub fn clock_info(state: &TpmState) -> (r: ClockInfo)
    ensures
        r == clock_info_of(*state),
{
    ClockInfo {
        clock: state.clock.clock,
        reset_count: state.clock.reset_count,
        restart_count: state.clock.restart_count,
        safe: state.clock.safe,
    }
}

/// TPM2_ReadClock.
pub fn read_clock(state: &TpmState, _request: &Request) -> (r: TpmResult<Response>)
    ensures
        answers_with(r, octets64(state.clock.time) + clock_info_of(*state).octets()),
{
    let info: ClockInfo = clock_info(state);
    let mut w = Writer::new();
    w.u64(state.clock.time);
    info.marshal(&mut w);
    assert(w.written() =~= octets64(state.clock.time) + clock_info_of(*state).octets());
    respond(w)
}

/// Clock set forward. A step counts towards how far the copy in NV has fallen
/// behind, and once that copy is brought up to date Clock is safe.
pub open spec fn clock_moved(c: Clock, new_time: u64) -> Clock {
    let jump = new_time - c.clock;
    let elapsed = if c.nv_elapsed + jump > u64::MAX {
        u64::MAX as int
    } else {
        c.nv_elapsed + jump
    };
    if elapsed >= config::NV_CLOCK_UPDATE_INTERVAL {
        Clock { clock: new_time, nv_elapsed: 0, safe: true, ..c }
    } else {
        Clock { clock: new_time, nv_elapsed: elapsed as u64, ..c }
    }
}

/// TPM2_ClockSet: Clock never goes back, nor beyond its limit.
pub open spec fn clock_set_ran(
    after: TpmState,
    before: TpmState,
    req: RequestView,
    r: TpmResult<Response>,
) -> bool {
    match alone(req.parameters, in_u64(req.parameters, 0, 1)) {
        Err(e) => fails(r, e) && after == before,
        Ok(t) => if t < before.clock.clock || t > config::MAX_CLOCK {
            fails(r, TpmRc(rc::VALUE).for_parameter(1)) && after == before
        } else {
            answers_nothing(r) && after == (TpmState {
                clock: clock_moved(before.clock, t),
                ..before
            })
        },
    }
}

/// TPM2_ClockSet.
pub fn clock_set(state: &mut TpmState, request: &Request) -> (r: TpmResult<Response>)
    requires
        old(state).wf(),
    ensures
        final(state).wf(),
        clock_set_ran(*final(state), *old(state), request@, r),
{
    let mut reader = request.reader();
    let new_time: u64 = read_u64(&mut reader, 1)?;
    reader.expect_end()?;
    if new_time < state.clock.clock || new_time > config::MAX_CLOCK {
        return Err(TpmRc(rc::VALUE).with_parameter(1));
    }
    let jump: u64 = new_time - state.clock.clock;
    state.clock.clock = new_time;
    state.clock.nv_elapsed = state.clock.nv_elapsed.saturating_add(jump);
    if state.clock.nv_elapsed >= config::NV_CLOCK_UPDATE_INTERVAL as u64 {
        state.clock.nv_elapsed = 0;
        state.clock.safe = true;
    }
    nothing()
}

/// TPM2_ClockRateAdjust. The clock follows the host, so that an adjustment is
/// accepted and changes nothing.
pub open spec fn clock_rate_adjust_ran(req: RequestView, r: TpmResult<Response>) -> bool {
    match alone(req.parameters, in_u8(req.parameters, 0, 1)) {
        Err(e) => fails(r, e),
        Ok(v) => if -3 <= v as i8 <= 3 {
            answers_nothing(r)
        } else {
            fails(r, TpmRc(rc::VALUE).for_parameter(1))
        },
    }
}

/// TPM2_ClockRateAdjust.
pub fn clock_rate_adjust(_state: &TpmState, request: &Request) -> (r: TpmResult<Response>)
    ensures
        clock_rate_adjust_ran(request@, r),
{
    let mut reader = request.reader();
    let adjust: i8 = at_parameter(reader.i8(), 1)?;
    reader.expect_end()?;
    if adjust < -3 || adjust > 3 {
        return Err(TpmRc(rc::VALUE).with_parameter(1));
    }
    nothing()
}

/// The type and the parameters that TPM2_TestParms is given.
pub open spec fn tagged_parms(p: Seq<u8>) -> Parsed<PublicParms> {
    if p.len() < 2 {
        Err(TpmRc(rc::INSUFFICIENT).for_parameter(1))
    } else {
        numbered(PublicParms::parse(p, 2, be16(p, 0)), 1)
    }
}

/// TPM2_TestParms: the algorithms have to be there, and the curve and the hash
/// of a KEM have to go together.
pub open spec fn test_parms_ran(req: RequestView, r: TpmResult<Response>) -> bool {
    match alone(req.parameters, tagged_parms(req.parameters)) {
        Err(e) => fails(r, e),
        Ok(parms) => match parms {
            PublicParms::Ecc { curve_id, kdf, .. } => if kdf.scheme == crate::tpm::constants::alg::NULL || kem_suite(
                curve_id,
                kdf,
            ) {
                answers_nothing(r)
            } else {
                fails(r, TpmRc(rc::KDF).for_parameter(1))
            },
            _ => answers_nothing(r),
        },
    }
}

/// TPM2_TestParms.
pub fn test_parms(_state: &TpmState, request: &Request) -> (r: TpmResult<Response>)
    ensures
        test_parms_ran(request@, r),
{
    let mut reader = request.reader();
    let object_type: u16 = read_u16(&mut reader, 1)?;
    let parms: PublicParms = at_parameter(PublicParms::unmarshal(&mut reader, object_type), 1)?;
    reader.expect_end()?;
    if let PublicParms::Ecc { curve_id, kdf, .. } = &parms {
        if !kdf.is_null() && !is_kem_suite(*curve_id, kdf) {
            return Err(TpmRc(rc::KDF).with_parameter(1));
        }
    }
    nothing()
}

/// TPM2_Vendor_TCG_Test: the data comes back unchanged.
pub open spec fn vendor_tcg_test_ran(req: RequestView, r: TpmResult<Response>) -> bool {
    match alone(req.parameters, in_sized(req.parameters, 0, 66, 1)) {
        Err(e) => fails(r, e),
        Ok(data) => answers_with(r, sized(data)),
    }
}

/// TPM2_Vendor_TCG_Test.
pub fn vendor_tcg_test(_state: &TpmState, request: &Request) -> (r: TpmResult<Response>)
    ensures
        vendor_tcg_test_ran(request@, r),
{
    let mut reader = request.reader();
    let data: Vec<u8> = read_sized::<66>(&mut reader, 1)?;
    reader.expect_end()?;
    let mut w = Writer::new();
    w.sized16(data.as_slice());
    assert(w.written() =~= sized(data@));
    respond(w)
}

/// True when `alg_id` names something this TPM implements.
pub fn is_implemented_algorithm(alg_id: u16) -> (r: bool)
    ensures
        r == (config::IMPLEMENTED_ALGORITHMS@.contains(alg_id) || supported(alg_id)
            || is_supported_mode(alg_id)),
{
    config::in_list(config::IMPLEMENTED_ALGORITHMS.as_slice(), alg_id) || is_supported(alg_id)
        || is_supported_mode(alg_id)
}

/// True when `curve_id` names a curve this TPM implements.
pub fn is_implemented_curve(curve_id: u16) -> (r: bool)
    ensures
        r == (curve_id == curve::NIST_P256 || curve_id == curve::NIST_P384 || curve_id
            == curve::NIST_P521),
{
    let known: bool = config::in_list(config::IMPLEMENTED_CURVES.as_slice(), curve_id) && curve_id
        != curve::NONE;
    proof {
        let s = config::IMPLEMENTED_CURVES@;
        assert(s[0] == curve::NIST_P256 && s[1] == curve::NIST_P384 && s[2] == curve::NIST_P521);
        if s.contains(curve_id) {
            let i = choose|i: int| 0 <= i < s.len() && s[i] == curve_id;
            assert(i == 0 || i == 1 || i == 2);
        }
    }
    known
}

/// True when `code` is a command this TPM implements.
pub fn is_implemented_command(code: u32) -> (r: bool)
    ensures
        r == (found(code) is Some),
{
    lookup(code).is_some()
}

/// The commands whose platform authorization may need physical presence.
pub open spec fn pp_eligible(code: u32) -> bool {
    code == cc::Clear || code == cc::ClearControl || code == cc::HierarchyChangeAuth || code
        == cc::HierarchyControl || code == cc::ChangeEPS || code == cc::ChangePPS || code
        == cc::SetPrimaryPolicy || code == cc::NV_DefineSpace || code == cc::NV_UndefineSpace
        || code == cc::NV_UndefineSpaceSpecial || code == cc::CreatePrimary || code
        == cc::CreateLoaded || code == cc::SetCommandCodeAuditStatus || code == cc::PCR_Allocate
        || code == cc::ClockSet
}

/// True for a command that TPM2_PP_Commands may list.
///
/// TPM2_PP_Commands itself always needs physical presence, so that it is in
/// neither list.
pub fn is_pp_eligible(code: u32) -> (r: bool)
    ensures
        r == pp_eligible(code),
{
    code == cc::Clear || code == cc::ClearControl || code == cc::HierarchyChangeAuth || code
        == cc::HierarchyControl || code == cc::ChangeEPS || code == cc::ChangePPS || code
        == cc::SetPrimaryPolicy || code == cc::NV_DefineSpace || code == cc::NV_UndefineSpace
        || code == cc::NV_UndefineSpaceSpecial || code == cc::CreatePrimary || code
        == cc::CreateLoaded || code == cc::SetCommandCodeAuditStatus || code == cc::PCR_Allocate
        || code == cc::ClockSet
}

/// Clock never goes back, whatever TPM2_ClockSet is asked for.
pub proof fn law_the_clock_never_goes_back(
    after: TpmState,
    before: TpmState,
    req: RequestView,
    r: TpmResult<Response>,
)
    requires
        clock_set_ran(after, before, req, r),
    ensures
        before.clock.clock <= after.clock.clock,
        after.clock.clock > config::MAX_CLOCK ==> after.clock.clock == before.clock.clock,
{
}

/// What TPM2_ECC_Parameters returns: the curve, with no default scheme, and its
/// cofactor, which is one.
pub open spec fn curve_parameters(curve_id: u16) -> Seq<u8> {
    let c = curve_of(curve_id);
    octets16(curve_id) + octets16(c.bits as u16) + octets16(alg::NULL) + octets16(alg::NULL)
        + sized(octets_of(c.p, octet_length(c.p))) + sized(octets_of(c.a, octet_length(c.a)))
        + sized(octets_of(c.b, octet_length(c.b))) + sized(octets_of(c.gx, c.size)) + sized(
        octets_of(c.gy, c.size),
    ) + sized(octets_of(c.n, octet_length(c.n))) + sized(seq![1u8])
}

/// TPM2_ECC_Parameters.
pub open spec fn ecc_parameters_ran(req: RequestView, r: TpmResult<Response>) -> bool {
    match alone(req.parameters, in_u16(req.parameters, 0, 1)) {
        Err(e) => fails(r, e),
        Ok(curve_id) => if !known_curve(curve_id) {
            fails(r, TpmRc(rc::CURVE).for_parameter(1))
        } else {
            answers_with(r, curve_parameters(curve_id))
        },
    }
}

/// TPM2_ECC_Parameters: the parameters of a curve.
pub fn ecc_parameters(_state: &TpmState, request: &Request) -> (r: TpmResult<Response>)
    ensures
        ecc_parameters_ran(request@, r),
{
    let mut reader: Reader = request.reader();
    let curve_id: u16 = read_u16(&mut reader, 1)?;
    reader.expect_end()?;
    let c: Curve = match Curve::new(curve_id) {
        Ok(c) => c,
        Err(_) => {
            return Err(TpmRc(rc::CURVE).with_parameter(1));
        },
    };
    proof {
        lemma_parameter_sizes(curve_id);
        lemma_coordinate_size(curve_id);
        let m = curve_of(curve_id);
        lemma_octets_len(m.p, octet_length(m.p));
        lemma_octets_len(m.a, octet_length(m.a));
        lemma_octets_len(m.b, octet_length(m.b));
        lemma_octets_len(m.n, octet_length(m.n));
    }
    let (p, a, b) = c.parameters();
    let (gx, gy) = c.generator_coordinates();
    let bits: u16 = c.bits() as u16;
    let one: [u8; 1] = [1];
    let mut w: Writer = Writer::new();
    w.u16(curve_id);
    w.u16(bits);
    w.u16(alg::NULL);
    w.u16(alg::NULL);
    w.sized16(p.to_bytes().as_slice());
    w.sized16(a.to_bytes().as_slice());
    w.sized16(b.to_bytes().as_slice());
    w.sized16(gx.as_slice());
    w.sized16(gy.as_slice());
    w.sized16(c.order().to_bytes().as_slice());
    w.sized16(one.as_slice());
    assert(one@ =~= seq![1u8]);
    assert(w.written() =~= curve_parameters(curve_id));
    respond(w)
}

} // verus!
