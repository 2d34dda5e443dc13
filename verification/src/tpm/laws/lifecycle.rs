//! What starting, stopping and waiting change.

use vstd::prelude::*;

use crate::tpm::commands::dispatch::{RequestView, Response};
use crate::tpm::commands::management::{clock_set_ran, get_random_ran, shutdown_ran, startup_ran};
use crate::tpm::commands::ran;
use crate::tpm::crypto::rand::Rng;
use crate::tpm::engine::state::{passed, Clock, TpmState};
use crate::tpm::error::TpmResult;
use crate::tpm::marshal::sized;
use crate::util::bytes::{be16, be64};

verus! {

/// True when the TPM was shut down with its state kept.
pub open spec fn kept_state(state: TpmState) -> bool {
    state.shutdown_type == 1
}

/// Startup(CLEAR) after Shutdown(STATE) is a restart, else it is a reset. Both turn all
/// hierarchies on, take the platform's value and policy, and leave no session loaded
/// and no object. A reset counts as one, starts the count of restarts anew and
/// forgets the saved contexts; a restart counts as one and keeps them.
pub proof fn law_a_start_begins_anew(
    after: TpmState,
    before: TpmState,
    req: RequestView,
    r: TpmResult<Response>,
)
    requires
        startup_ran(after, before, req, r),
        req.parameters.len() == 2,
        be16(req.parameters, 0) == 0,
        r is Ok,
        before.clock.reset_count < u32::MAX,
        before.clock.restart_count < u32::MAX,
        before.clock.time_epoch < u64::MAX,
        before.clock.total_reset_count < u64::MAX,
    ensures
        req.locality == 0 || req.locality == 3,
        after.started,
        after.hierarchies.platform.enabled,
        after.hierarchies.owner.enabled,
        after.hierarchies.endorsement.enabled,
        after.hierarchies.platform_nv_enabled,
        after.hierarchies.platform.auth@.len() == 0,
        after.hierarchies.platform.policy.hash_alg == 0x0010,
        after.hierarchies.owner.auth == before.hierarchies.owner.auth,
        after.hierarchies.owner.seed == before.hierarchies.owner.seed,
        after.sessions.loaded@.dom() == Set::<u32>::empty(),
        after.objects.slots@.dom() == Set::<u32>::empty(),
        after.persistent == before.persistent,
        after.clock.time == 0,
        after.clock.clock == before.clock.clock,
        after.clock.time_epoch == before.clock.time_epoch + 1,
        kept_state(before) ==> {
            &&& after.clock.reset_count == before.clock.reset_count
            &&& after.clock.restart_count == before.clock.restart_count + 1
            &&& after.clock.total_reset_count == before.clock.total_reset_count
            &&& after.sessions.saved@ == before.sessions.saved@
            &&& after.hierarchies.null == before.hierarchies.null
        },
        !kept_state(before) ==> {
            &&& after.clock.reset_count == before.clock.reset_count + 1
            &&& after.clock.restart_count == 0
            &&& after.clock.total_reset_count == before.clock.total_reset_count + 1
            &&& after.sessions.saved@.dom() == Set::<u32>::empty()
        },
{
    assert(Map::<u32, crate::tpm::engine::session::Session>::empty().dom() =~= Set::<u32>::empty());
    assert(Map::<u32, u64>::empty().dom() =~= Set::<u32>::empty());
    assert(Map::<u32, crate::tpm::engine::object::Slot>::empty().dom() =~= Set::<u32>::empty());
}

/// Startup(STATE) needs Shutdown(STATE) before it, resumes the hierarchies and the NV
/// Indices as they were and counts as a restart.
pub proof fn law_a_resume_keeps_the_state(
    after: TpmState,
    before: TpmState,
    req: RequestView,
    r: TpmResult<Response>,
)
    requires
        startup_ran(after, before, req, r),
        req.parameters.len() == 2,
        be16(req.parameters, 0) == 1,
        before.clock.restart_count < u32::MAX,
    ensures
        r is Ok <==> kept_state(before) && (req.locality == 0 || req.locality == 3),
        r is Ok ==> {
            &&& after.started
            &&& after.hierarchies == before.hierarchies
            &&& after.nv == before.nv
            &&& after.persistent == before.persistent
            &&& after.sessions.saved@ == before.sessions.saved@
            &&& after.clock.restart_count == before.clock.restart_count + 1
            &&& after.clock.reset_count == before.clock.reset_count
            &&& after.clock.time == 0
        },
        r is Err ==> after == before,
{
}

/// A shutdown says how the next start goes, and until then nothing runs.
pub proof fn law_a_shutdown_is_remembered(
    after: TpmState,
    before: TpmState,
    req: RequestView,
    r: TpmResult<Response>,
)
    requires
        shutdown_ran(after, before, req, r),
        r is Ok,
    ensures
        req.parameters.len() == 2,
        be16(req.parameters, 0) <= 1,
        kept_state(after) <==> be16(req.parameters, 0) == 1,
        !after.started,
        after.hierarchies == before.hierarchies,
        after.nv == before.nv,
        after.pcr == before.pcr,
        after.clock == before.clock,
        after.sessions == before.sessions,
{
}

/// ClockSet only moves the clock on, and the time stays.
pub proof fn law_the_clock_is_only_moved_on(
    after: TpmState,
    before: TpmState,
    req: RequestView,
    r: TpmResult<Response>,
)
    requires
        clock_set_ran(after, before, req, r),
        req.parameters.len() == 8,
    ensures
        r is Ok ==> after.clock.clock == be64(req.parameters, 0) && after.clock.clock
            >= before.clock.clock,
        r is Err ==> after == before,
        be64(req.parameters, 0) < before.clock.clock ==> r is Err,
        be64(req.parameters, 0) >= before.clock.clock && be64(req.parameters, 0)
            < 0xFFFF_0000_0000_0000 ==> r is Ok,
        after.clock.time == before.clock.time,
        after.clock.reset_count == before.clock.reset_count,
        after.clock.restart_count == before.clock.restart_count,
        after == (TpmState { clock: after.clock, ..before }),
{
}

/// ReadClock answers with the time, the clock, both counts and whether the clock is
/// safe, and changes nothing.
pub proof fn law_the_clock_is_answered(
    after: TpmState,
    before: TpmState,
    req: RequestView,
    r: TpmResult<Response>,
)
    requires
        ran(after, before, req, r),
        req.code == 0x181,
    ensures
        after == before,
        r is Ok,
        r->Ok_0.parameters@ == super::policy::times(before),
{
    super::codes::law_codes_of_startup(after, before, req, r);
    assert(r->Ok_0.parameters@ =~= super::policy::times(before));
}

/// Milliseconds that pass move the clock and the time alike.
pub proof fn law_time_passes(c: Clock, milliseconds: u64)
    requires
        c.clock + milliseconds <= u64::MAX,
        c.time + milliseconds <= u64::MAX,
    ensures
        passed(c, milliseconds).clock == c.clock + milliseconds,
        passed(c, milliseconds).time == c.time + milliseconds,
        passed(c, milliseconds).reset_count == c.reset_count,
        passed(c, milliseconds).restart_count == c.restart_count,
        passed(c, milliseconds).time_epoch == c.time_epoch,
{
}

/// GetRandom answers with as many octets as were asked for, up to the size of the
/// largest digest, and moves nothing but the generator.
pub proof fn law_random_octets_are_as_many_as_asked(
    after: TpmState,
    before: TpmState,
    req: RequestView,
    r: TpmResult<Response>,
)
    requires
        get_random_ran(after, before, req, r),
        r is Ok,
    ensures
        req.parameters.len() == 2,
        after == (TpmState { rng: after.rng, ..before }),
        exists|v: Seq<u8>|
            r->Ok_0.parameters@ == #[trigger] sized(v) && (before.rng.model() is Fixed ==> v.len()
                == if be16(req.parameters, 0) > 64 {
                64
            } else {
                be16(req.parameters, 0) as int
            }),
{
}

} // verus!
