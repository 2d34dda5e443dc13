//! What happens to a TPM when it is made, started and cleared.

use vstd::prelude::*;

use super::handle_map::HandleMap;
use super::hierarchy::{draw_seed, seed_drawn, Hierarchies, Hierarchy};
use super::nv_store::{restarted, NvStore};
use super::object::{Object, ObjectSlots, Slot};
use super::pcr::{bank_resumed, initial_bank, BankView, PcrBanks};
use super::session::Session;
use super::session_store::SessionStore;
use super::state::{
    persistent_wf, Act, Audit, Clock, Lockout, TpmState, LABEL_MANUFACTURE, NO_SHUTDOWN,
};
use crate::tpm::config;
use crate::tpm::constants::{alg, cc, hc, rh, su};
use crate::tpm::crypto::rand::{seeded, Drbg, Rng, RngModel};
use crate::tpm::error::TpmResult;
use crate::tpm::structures::attributes::{
    NvAttributes, PermanentAttributes, StartupClearAttributes,
};
use crate::tpm::structures::base::TpmtHa;

verus! {

/// Failed authorizations a new TPM allows.
pub const DEFAULT_MAX_TRIES: u32 = 32;

/// Seconds in which a new TPM forgets a failure.
pub const DEFAULT_RECOVERY_TIME: u32 = 7200;

/// Seconds in which a new TPM forgets a failure against lockoutAuth.
pub const DEFAULT_LOCKOUT_RECOVERY: u32 = 86400;

/// The four enables and nothing else.
pub const ALL_ENABLES: u32 = 0x0000_000F;

/// The banks of a bank allocation after a startup from `locality`.
pub open spec fn initial_banks(algs: Seq<u16>, locality: u8) -> Seq<BankView> {
    algs.map_values(|a: u16| initial_bank(a, locality))
}

/// The Clock after a startup.
pub open spec fn clock_started(c: Clock, reset: bool) -> Clock {
    Clock {
        time: 0,
        time_epoch: c.time_epoch.wrapping_add(1),
        reset_count: if reset {
            c.reset_count.wrapping_add(1)
        } else {
            c.reset_count
        },
        restart_count: if reset {
            0
        } else {
            c.restart_count.wrapping_add(1)
        },
        total_reset_count: if reset {
            c.total_reset_count.wrapping_add(1)
        } else {
            c.total_reset_count
        },
        clear_count: if reset {
            0
        } else {
            c.clear_count.wrapping_add(1)
        },
        ..c
    }
}

/// The Clock after TPM2_Startup(STATE).
pub open spec fn clock_resumed(c: Clock) -> Clock {
    Clock {
        time: 0,
        time_epoch: c.time_epoch.wrapping_add(1),
        restart_count: c.restart_count.wrapping_add(1),
        ..c
    }
}

/// Dictionary attack protection after a startup, where Time begins at zero.
pub open spec fn lockout_started(l: Lockout) -> Lockout {
    Lockout {
        next_recovery: if l.failed_tries > 0 {
            (l.recovery_time * 1000) as u64
        } else {
            0
        },
        in_lockout: l.in_lockout && l.lockout_recovery != 0,
        lockout_until: if l.in_lockout && l.lockout_recovery != 0 {
            (l.lockout_recovery * 1000) as u64
        } else {
            0
        },
        ..l
    }
}

fn start_lockout(l: &mut Lockout)
    ensures
        *final(l) == lockout_started(*old(l)),
{
    l.next_recovery = if l.failed_tries > 0 {
        l.recovery_time as u64 * 1000
    } else {
        0
    };
    let special: bool = l.in_lockout && l.lockout_recovery != 0;
    l.in_lockout = special;
    l.lockout_until = if special {
        l.lockout_recovery as u64 * 1000
    } else {
        0
    };
}

/// The hierarchies after TPM2_Startup(CLEAR): all are enabled and the platform
/// has no authorization. A TPM Reset gives the null hierarchy a new seed.
pub open spec fn hierarchies_started(after: Hierarchies, before: Hierarchies, m: Option<RngModel>) -> bool {
    &&& after.platform_nv_enabled
    &&& after.platform == (Hierarchy {
        enabled: true,
        auth: after.platform.auth,
        policy: after.platform.policy,
        ..before.platform
    })
    &&& after.platform.auth@.len() == 0
    &&& after.platform.policy.hash_alg == alg::NULL
    &&& after.owner == (Hierarchy { enabled: true, ..before.owner })
    &&& after.endorsement == (Hierarchy { enabled: true, ..before.endorsement })
    &&& after.null == (Hierarchy {
        seed: after.null.seed,
        proof_value: after.null.proof_value,
        ..before.null
    })
    &&& match m {
        Some(m) => seed_drawn(m).0 matches Ok(v) && after.null.seed@ == v.0
            && after.null.proof_value@ == v.1,
        None => after.null == before.null,
    }
}

/// True when the last startup would be a TPM Reset.
pub open spec fn is_reset(s: TpmState) -> bool {
    s.shutdown_type != su::STATE
}

/// The state after TPM2_Startup(CLEAR) from `locality`.
pub open spec fn started_clear(after: TpmState, before: TpmState, locality: u8) -> bool {
    let reset = is_reset(before);
    &&& after == (TpmState {
        hierarchies: after.hierarchies,
        lockout: lockout_started(before.lockout),
        clock: clock_started(before.clock, reset),
        audit: after.audit,
        act: Act { remaining: 0, signaled: false, set_since_startup: false, ..before.act },
        rng: after.rng,
        sessions: after.sessions,
        objects: after.objects,
        nv: after.nv,
        pcr: after.pcr,
        pcr_allocation_pending: false,
        startup_clear: StartupClearAttributes(ALL_ENABLES).put(
            StartupClearAttributes::ORDERLY,
            before.shutdown_type != NO_SHUTDOWN,
        ),
        started: true,
        shutdown_type: NO_SHUTDOWN,
        ..before
    })
    &&& hierarchies_started(
        after.hierarchies,
        before.hierarchies,
        if reset {
            Some(before.rng.model())
        } else {
            None
        },
    )
    &&& after.rng.model() == (if reset {
        seed_drawn(before.rng.model()).1
    } else {
        before.rng.model()
    })
    &&& after.audit == (Audit {
        exclusive_session: rh::UNASSIGNED,
        digest: after.audit.digest,
        ..before.audit
    })
    &&& after.audit.digest@ == (if reset {
        Seq::<u8>::empty()
    } else {
        before.audit.digest@
    })
    &&& after.sessions.loaded@ == Map::<u32, Session>::empty()
    &&& after.sessions.saved@ == (if reset {
        Map::<u32, u64>::empty()
    } else {
        before.sessions.saved@
    })
    &&& after.sessions.counter == (if reset {
        0
    } else {
        before.sessions.counter
    })
    &&& after.objects.slots@ == Map::<u32, Slot>::empty()
    &&& nv_restarted(after.nv, before.nv)
    &&& after.pcr.held() == initial_banks(
        if reset {
            before.pcr_allocation@
        } else {
            before.pcr.held().map_values(|b: BankView| b.alg)
        },
        locality,
    )
    &&& after.pcr.counter == (if reset {
        0
    } else {
        before.pcr.counter
    })
}

/// Every Index after a TPM Reset or a TPM Restart.
pub open spec fn nv_restarted(after: NvStore, before: NvStore) -> bool {
    &&& forall|h: u32| #[trigger]
        after.indices@.contains_key(h) <==> before.indices@.contains_key(h)
    &&& forall|h: u32| #[trigger]
        before.indices@.contains_key(h) ==> after.indices@[h] == restarted(before.indices@[h])
}

/// The state after TPM2_Startup(STATE).
pub open spec fn started_state(after: TpmState, before: TpmState) -> bool {
    &&& after == (TpmState {
        lockout: lockout_started(before.lockout),
        clock: clock_resumed(before.clock),
        audit: Audit { exclusive_session: rh::UNASSIGNED, ..before.audit },
        act: Act { set_since_startup: false, ..before.act },
        sessions: after.sessions,
        objects: after.objects,
        pcr: after.pcr,
        startup_clear: before.startup_clear.put(StartupClearAttributes::ORDERLY, true),
        started: true,
        shutdown_type: NO_SHUTDOWN,
        ..before
    })
    &&& after.sessions.loaded@ == Map::<u32, Session>::empty()
    &&& after.sessions.saved@ == before.sessions.saved@
    &&& after.sessions.counter == before.sessions.counter
    &&& after.objects.slots@ == Map::<u32, Slot>::empty()
    &&& after.pcr.held() == before.pcr.held().map_values(|b: BankView| bank_resumed(b))
    &&& after.pcr.counter == before.pcr.counter
}

/// True for an object that TPM2_Clear takes away.
pub open spec fn is_cleared(hierarchy: u32) -> bool {
    hierarchy == rh::OWNER || hierarchy == rh::ENDORSEMENT
}

/// The seeds a clear draws: a new owner seed and proof, and a new endorsement
/// proof from the second pair.
pub open spec fn clear_drawn(m: RngModel) -> (TpmResult<((Seq<u8>, Seq<u8>), Seq<u8>)>, RngModel) {
    let a = seed_drawn(m);
    match a.0 {
        Err(e) => (Err(e), a.1),
        Ok(owner) => {
            let b = seed_drawn(a.1);
            match b.0 {
                Err(e) => (Err(e), b.1),
                Ok(other) => (Ok((owner, other.1)), b.1),
            }
        },
    }
}

/// The persistent objects a clear leaves.
pub open spec fn persistent_cleared(after: HandleMap<Object>, before: HandleMap<Object>) -> bool {
    &&& forall|h: u32| #[trigger]
        after@.contains_key(h) <==> before@.contains_key(h) && !is_cleared(before@[h].hierarchy)
    &&& forall|h: u32| #[trigger] after@.contains_key(h) ==> after@[h] == before@[h]
}

/// The state after what TPM2_Clear does to all but the lockout authorization.
pub open spec fn cleared(after: TpmState, before: TpmState) -> bool {
    &&& clear_drawn(before.rng.model()).0 is Ok
    &&& after == (TpmState {
        hierarchies: after.hierarchies,
        clock: Clock { clock: 0, reset_count: 0, restart_count: 0, safe: true, ..before.clock },
        rng: after.rng,
        objects: after.objects,
        persistent: after.persistent,
        nv: after.nv,
        startup_clear: before.startup_clear.put(
            StartupClearAttributes::SH_ENABLE | StartupClearAttributes::EH_ENABLE,
            true,
        ),
        ..before
    })
    &&& after.rng.model() == clear_drawn(before.rng.model()).1
    &&& {
        let drawn = clear_drawn(before.rng.model()).0->Ok_0;
        &&& after.hierarchies == (Hierarchies {
            owner: after.hierarchies.owner,
            endorsement: after.hierarchies.endorsement,
            ..before.hierarchies
        })
        &&& after.hierarchies.owner.enabled && after.hierarchies.endorsement.enabled
        &&& after.hierarchies.owner.auth@.len() == 0
        &&& after.hierarchies.endorsement.auth@.len() == 0
        &&& after.hierarchies.owner.policy.hash_alg == alg::NULL
        &&& after.hierarchies.endorsement.policy.hash_alg == alg::NULL
        &&& after.hierarchies.owner.seed@ == drawn.0.0
        &&& after.hierarchies.owner.proof_value@ == drawn.0.1
        &&& after.hierarchies.endorsement.seed == before.hierarchies.endorsement.seed
        &&& after.hierarchies.endorsement.proof_value@ == drawn.1
    }
    &&& forall|h: u32| #[trigger]
        after.objects.slots@.contains_key(h) <==> before.objects.slots@.contains_key(h)
            && !ObjectSlots::belongs(before.objects.slots@[h], rh::OWNER) && !ObjectSlots::belongs(
            before.objects.slots@[h],
            rh::ENDORSEMENT,
        )
    &&& forall|h: u32| #[trigger]
        after.objects.slots@.contains_key(h) ==> after.objects.slots@[h]
            == before.objects.slots@[h]
    &&& persistent_cleared(after.persistent, before.persistent)
    &&& forall|h: u32| #[trigger]
        after.nv.indices@.contains_key(h) <==> before.nv.indices@.contains_key(h)
            && before.nv.indices@[h].public.attributes.has(NvAttributes::PLATFORMCREATE)
    &&& forall|h: u32| #[trigger]
        after.nv.indices@.contains_key(h) ==> after.nv.indices@[h] == before.nv.indices@[h]
}

/// Take away the persistent objects of the owner and endorsement hierarchies.
fn clear_persistent(m: &mut HandleMap<Object>)
    requires
        persistent_wf(*old(m)),
    ensures
        persistent_wf(*final(m)),
        persistent_cleared(*final(m), *old(m)),
{
    proof {
        reveal(persistent_wf);
    }
    let keys: Vec<u32> = m.keys();
    let mut i: usize = 0;
    while i < keys.len()
        invariant
            i <= keys@.len(),
            persistent_wf(*m),
            forall|h: u32| keys@.contains(h) <==> #[trigger] old(m)@.contains_key(h),
            forall|h: u32| #[trigger]
                m@.contains_key(h) ==> old(m)@.contains_key(h) && m@[h] == old(m)@[h],
            forall|h: u32|
                old(m)@.contains_key(h) && !is_cleared(old(m)@[h].hierarchy)
                    ==> #[trigger] m@.contains_key(h),
            forall|k: int|
                0 <= k < i ==> (#[trigger] m@.contains_key(keys@[k]) ==> !is_cleared(
                    old(m)@[keys@[k]].hierarchy,
                )),
        decreases keys@.len() - i,
    {
        proof {
            reveal(persistent_wf);
        }
        let h: u32 = keys[i];
        let gone: bool = match m.get(h) {
            Some(o) => o.hierarchy == rh::OWNER || o.hierarchy == rh::ENDORSEMENT,
            None => false,
        };
        if gone {
            let _ = m.remove(h);
        }
        i = i + 1;
    }
    assert forall|h: u32| #[trigger] m@.contains_key(h) implies !is_cleared(old(m)@[h].hierarchy) by {
        assert(keys@.contains(h));
        let k = choose|k: int| 0 <= k < keys@.len() && keys@[k] == h;
        assert(m@.contains_key(keys@[k]));
    }
}

/// Take away the persistent objects in the platform's range.
pub fn drop_platform_range(m: &mut HandleMap<Object>)
    requires
        persistent_wf(*old(m)),
    ensures
        persistent_wf(*final(m)),
        forall|h: u32| #[trigger]
            final(m)@.contains_key(h) <==> old(m)@.contains_key(h) && h < hc::PLATFORM_PERSISTENT,
        forall|h: u32| #[trigger] final(m)@.contains_key(h) ==> final(m)@[h] == old(m)@[h],
{
    proof {
        reveal(persistent_wf);
    }
    let keys: Vec<u32> = m.keys();
    let mut i: usize = 0;
    while i < keys.len()
        invariant
            i <= keys@.len(),
            persistent_wf(*m),
            forall|h: u32| keys@.contains(h) <==> #[trigger] old(m)@.contains_key(h),
            forall|h: u32| #[trigger]
                m@.contains_key(h) ==> old(m)@.contains_key(h) && m@[h] == old(m)@[h],
            forall|h: u32|
                old(m)@.contains_key(h) && h < hc::PLATFORM_PERSISTENT
                    ==> #[trigger] m@.contains_key(h),
            forall|k: int|
                0 <= k < i ==> (#[trigger] m@.contains_key(keys@[k]) ==> keys@[k]
                    < hc::PLATFORM_PERSISTENT),
        decreases keys@.len() - i,
    {
        proof {
            reveal(persistent_wf);
        }
        let h: u32 = keys[i];
        if h >= hc::PLATFORM_PERSISTENT {
            let _ = m.remove(h);
        }
        i = i + 1;
    }
    assert forall|h: u32| #[trigger] m@.contains_key(h) implies h < hc::PLATFORM_PERSISTENT by {
        assert(keys@.contains(h));
        let k = choose|k: int| 0 <= k < keys@.len() && keys@[k] == h;
        assert(m@.contains_key(keys@[k]));
    }
}

/// The pairs of a seed and a proof that a new TPM draws, one for each
/// hierarchy.
pub open spec fn made(m: RngModel, n: nat) -> RngModel
    decreases n,
{
    if n == 0 {
        m
    } else {
        seed_drawn(made(m, (n - 1) as nat)).1
    }
}

/// The hierarchy that pair `n` makes.
pub open spec fn made_from(h: Hierarchy, m: RngModel, n: nat) -> bool {
    &&& h.enabled
    &&& h.auth@.len() == 0
    &&& h.policy.hash_alg == alg::NULL
    &&& seed_drawn(made(m, n)).0 matches Ok(v) && h.seed@ == v.0 && h.proof_value@ == v.1
}

/// A TPM as it leaves the factory.
pub open spec fn manufactured(s: TpmState, entropy: Seq<u8>) -> bool {
    let m = seeded(alg::SHA256, entropy + LABEL_MANUFACTURE@);
    &&& s.wf()
    &&& made_from(s.hierarchies.platform, m, 0)
    &&& made_from(s.hierarchies.owner, m, 1)
    &&& made_from(s.hierarchies.endorsement, m, 2)
    &&& made_from(s.hierarchies.null, m, 3)
    &&& s.hierarchies.platform_nv_enabled
    &&& s.rng.model() == made(m, 4)
    &&& s.lockout_auth@.len() == 0
    &&& s.lockout_policy.hash_alg == alg::NULL
    &&& s.lockout == (Lockout {
        failed_tries: 0,
        max_tries: DEFAULT_MAX_TRIES,
        recovery_time: DEFAULT_RECOVERY_TIME,
        lockout_recovery: DEFAULT_LOCKOUT_RECOVERY,
        next_recovery: 0,
        in_lockout: false,
        lockout_until: 0,
    })
    &&& s.clock == (Clock {
        clock: 0,
        time: 0,
        time_epoch: 0,
        reset_count: 0,
        restart_count: 0,
        total_reset_count: 0,
        clear_count: 0,
        safe: true,
        nv_elapsed: 0,
    })
    &&& s.audit.alg == alg::SHA256
    &&& s.audit.commands@ == seq![cc::SetCommandCodeAuditStatus]
    &&& s.audit.digest@.len() == 0
    &&& s.audit.counter == 0
    &&& s.audit.exclusive_session == rh::UNASSIGNED
    &&& s.sessions.loaded@ == Map::<u32, Session>::empty()
    &&& s.sessions.saved@ == Map::<u32, u64>::empty()
    &&& s.objects.slots@ == Map::<u32, Slot>::empty()
    &&& s.persistent@ == Map::<u32, Object>::empty()
    &&& s.nv.indices@ == Map::<u32, super::nv::NvIndex>::empty()
    &&& s.pcr.held() == initial_banks(config::DEFAULT_PCR_BANKS@, 0)
    &&& s.pcr.counter == 0
    &&& s.pcr_allocation@ == config::DEFAULT_PCR_BANKS@
    &&& !s.pcr_allocation_pending
    &&& s.pp_commands@.len() == 0
    &&& s.permanent == PermanentAttributes(PermanentAttributes::TPM_GENERATED_EPS)
    &&& s.startup_clear == StartupClearAttributes(ALL_ENABLES)
    &&& s.algorithm_set == 0
    &&& !s.started && s.shutdown_type == NO_SHUTDOWN
    &&& !s.failure_mode && !s.self_test_done && s.test_failure is None
    &&& s.test_digest@.len() == 0
    &&& s.image_digest is Some && s.image_digest->Some_0@.len() == 0
    &&& s.act.remaining == 0 && !s.act.signaled && !s.act.set_since_startup
    &&& s.act.policy.hash_alg == alg::NULL
    &&& s.pcr_auth@.len() == 0
    &&& s.pcr_policy.hash_alg == alg::NULL
    &&& !s.physical_presence && !s.command_audit_suppressed
    &&& s.nv_available && !s.nv_write_failed
}

proof fn lemma_fresh_generator_draws(seed: Seq<u8>)
    ensures
        forall|n: nat|
            n <= 3 ==> (#[trigger] seed_drawn(made(seeded(alg::SHA256, seed), n))).0 is Ok,
{
    reveal(crate::tpm::crypto::rand::draw);
    let m = seeded(alg::SHA256, seed);
    let m0 = made(m, 0);
    let m1 = made(m, 1);
    let m2 = made(m, 2);
    let m3 = made(m, 3);
    assert(m0 == m);
    assert(m1 == seed_drawn(m0).1);
    assert(m2 == seed_drawn(m1).1);
    assert(m3 == seed_drawn(m2).1);
    assert forall|n: nat| n <= 3 implies (#[trigger] seed_drawn(made(m, n))).0 is Ok by {
        assert(n == 0 || n == 1 || n == 2 || n == 3);
    }
}

impl TpmState {
    /// Make a TPM whose generator starts from `entropy`.
    pub fn manufacture(entropy: &[u8]) -> (r: TpmResult<TpmState>)
        ensures
            r is Ok,
            manufactured(r->Ok_0, entropy@),
    {
        proof {
            reveal(persistent_wf);
        }
        let mut rng: Drbg = Drbg::new(entropy, LABEL_MANUFACTURE.as_slice())?;
        let ghost m = seeded(alg::SHA256, entropy@ + LABEL_MANUFACTURE@);
        proof {
            lemma_fresh_generator_draws(entropy@ + LABEL_MANUFACTURE@);
            assert(made(m, 0) == m);
            assert(made(m, 1) == seed_drawn(made(m, 0)).1);
            assert(made(m, 2) == seed_drawn(made(m, 1)).1);
            assert(made(m, 3) == seed_drawn(made(m, 2)).1);
            assert(made(m, 4) == seed_drawn(made(m, 3)).1);
            assert(seed_drawn(made(m, 0)).0 is Ok);
            assert(seed_drawn(made(m, 1)).0 is Ok);
            assert(seed_drawn(made(m, 2)).0 is Ok);
            assert(seed_drawn(made(m, 3)).0 is Ok);
        }
        let a: (Vec<u8>, Vec<u8>) = draw_seed(&mut rng)?;
        let b: (Vec<u8>, Vec<u8>) = draw_seed(&mut rng)?;
        let c: (Vec<u8>, Vec<u8>) = draw_seed(&mut rng)?;
        let d: (Vec<u8>, Vec<u8>) = draw_seed(&mut rng)?;
        let mut allocation: Vec<u16> = Vec::new();
        allocation.push(config::DEFAULT_PCR_BANKS[0]);
        allocation.push(config::DEFAULT_PCR_BANKS[1]);
        assert(allocation@ =~= config::DEFAULT_PCR_BANKS@);
        assert(allocation@[0] == alg::SHA1 && allocation@[1] == alg::SHA256);
        let pcr = PcrBanks::new(allocation.as_slice(), 0, 0);
        let mut commands: Vec<u32> = Vec::new();
        commands.push(cc::SetCommandCodeAuditStatus);
        assert(commands@ =~= seq![cc::SetCommandCodeAuditStatus]);
        let persistent: HandleMap<Object> = HandleMap::new();
        Ok(
            TpmState {
                hierarchies: Hierarchies {
                    platform: Hierarchy::new(a.0, a.1),
                    owner: Hierarchy::new(b.0, b.1),
                    endorsement: Hierarchy::new(c.0, c.1),
                    null: Hierarchy::new(d.0, d.1),
                    platform_nv_enabled: true,
                },
                lockout_auth: Vec::new(),
                lockout_policy: TpmtHa::null(),
                lockout: Lockout {
                    failed_tries: 0,
                    max_tries: DEFAULT_MAX_TRIES,
                    recovery_time: DEFAULT_RECOVERY_TIME,
                    lockout_recovery: DEFAULT_LOCKOUT_RECOVERY,
                    next_recovery: 0,
                    in_lockout: false,
                    lockout_until: 0,
                },
                clock: Clock {
                    clock: 0,
                    time: 0,
                    time_epoch: 0,
                    reset_count: 0,
                    restart_count: 0,
                    total_reset_count: 0,
                    clear_count: 0,
                    safe: true,
                    nv_elapsed: 0,
                },
                audit: Audit {
                    alg: alg::SHA256,
                    commands,
                    digest: Vec::new(),
                    counter: 0,
                    exclusive_session: rh::UNASSIGNED,
                },
                act: Act {
                    remaining: 0,
                    signaled: false,
                    set_since_startup: false,
                    policy: TpmtHa::null(),
                },
                rng,
                sessions: SessionStore::new(),
                objects: ObjectSlots::new(),
                persistent,
                nv: NvStore::new(),
                pcr,
                pcr_allocation: allocation,
                pcr_allocation_pending: false,
                pcr_auth: Vec::new(),
                pcr_policy: TpmtHa::null(),
                pp_commands: Vec::new(),
                permanent: PermanentAttributes(PermanentAttributes::TPM_GENERATED_EPS),
                startup_clear: StartupClearAttributes(ALL_ENABLES),
                algorithm_set: 0,
                started: false,
                shutdown_type: NO_SHUTDOWN,
                failure_mode: false,
                self_test_done: false,
                test_failure: None,
                test_digest: Vec::new(),
                image_digest: Some(Vec::new()),
                physical_presence: false,
                command_audit_suppressed: false,
                nv_available: true,
                nv_write_failed: false,
            },
        )
    }

    /// Start up with TPM_SU_CLEAR: a TPM Restart after TPM2_Shutdown(STATE),
    /// and a TPM Reset otherwise.
    pub fn on_startup_clear(&mut self, locality: u8) -> (r: TpmResult<()>)
        requires
            old(self).wf(),
        ensures
            final(self).wf(),
            r is Ok <==> (is_reset(*old(self)) ==> seed_drawn(old(self).rng.model()).0 is Ok),
            r is Ok ==> started_clear(*final(self), *old(self), locality),
            r matches Err(e) ==> {
                &&& e == seed_drawn(old(self).rng.model()).0->Err_0
                &&& *final(self) == (TpmState { rng: final(self).rng, ..*old(self) })
                &&& final(self).rng.model() == seed_drawn(old(self).rng.model()).1
            },
    {
        proof {
            reveal(SessionStore::wf);
            reveal(PcrBanks::wf);
        }
        let reset: bool = self.shutdown_type != su::STATE;
        if reset {
            let drawn: (Vec<u8>, Vec<u8>) = draw_seed(&mut self.rng)?;
            self.hierarchies.null.seed = drawn.0;
            self.hierarchies.null.proof_value = drawn.1;
        }
        self.hierarchies.platform.clear_authorization();
        self.hierarchies.platform.enabled = true;
        self.hierarchies.owner.enabled = true;
        self.hierarchies.endorsement.enabled = true;
        self.hierarchies.platform_nv_enabled = true;
        start_lockout(&mut self.lockout);
        self.clock.time = 0;
        self.clock.time_epoch = self.clock.time_epoch.wrapping_add(1);
        if reset {
            self.clock.reset_count = self.clock.reset_count.wrapping_add(1);
            self.clock.restart_count = 0;
            self.clock.total_reset_count = self.clock.total_reset_count.wrapping_add(1);
            self.clock.clear_count = 0;
            self.audit.digest = Vec::new();
            assert(self.audit.digest@ =~= Seq::<u8>::empty());
            self.sessions = SessionStore::new();
            let banks: PcrBanks = PcrBanks::new(self.pcr_allocation.as_slice(), locality, 0);
            self.pcr = banks;
        } else {
            self.clock.restart_count = self.clock.restart_count.wrapping_add(1);
            self.clock.clear_count = self.clock.clear_count.wrapping_add(1);
            self.sessions.loaded = HandleMap::new();
            let algs: Vec<u16> = self.pcr.algorithms();
            assert forall|i: int, j: int| 0 <= i < j < algs@.len() implies #[trigger] algs@[i]
                != #[trigger] algs@[j] by {
                assert(self.pcr.banks@[i].alg != self.pcr.banks@[j].alg);
            }
            assert forall|i: int| 0 <= i < algs@.len() implies
                crate::tpm::crypto::hash::supported(#[trigger] algs@[i]) by {
                assert(self.pcr.banks@[i].wf());
            }
            let banks: PcrBanks = PcrBanks::new(algs.as_slice(), locality, self.pcr.counter);
            self.pcr = banks;
        }
        self.audit.exclusive_session = rh::UNASSIGNED;
        self.act.remaining = 0;
        self.act.signaled = false;
        self.act.set_since_startup = false;
        self.objects = ObjectSlots::new();
        self.nv.restart();
        self.pcr_allocation_pending = false;
        let mut a = StartupClearAttributes(ALL_ENABLES);
        a.set(StartupClearAttributes::ORDERLY, self.shutdown_type != NO_SHUTDOWN);
        self.startup_clear = a;
        self.started = true;
        self.shutdown_type = NO_SHUTDOWN;
        Ok(())
    }

    /// Start up with TPM_SU_STATE, which resumes what TPM2_Shutdown(STATE)
    /// saved.
    pub fn on_startup_state(&mut self)
        requires
            old(self).wf(),
        ensures
            final(self).wf(),
            started_state(*final(self), *old(self)),
    {
        proof {
            reveal(SessionStore::wf);
        }
        start_lockout(&mut self.lockout);
        self.clock.time = 0;
        self.clock.time_epoch = self.clock.time_epoch.wrapping_add(1);
        self.clock.restart_count = self.clock.restart_count.wrapping_add(1);
        self.audit.exclusive_session = rh::UNASSIGNED;
        self.act.set_since_startup = false;
        self.sessions.loaded = HandleMap::new();
        self.objects = ObjectSlots::new();
        self.pcr.resume();
        self.startup_clear.set(StartupClearAttributes::ORDERLY, true);
        self.started = true;
        self.shutdown_type = NO_SHUTDOWN;
    }

    /// Take away what belongs to the owner, as TPM2_Clear does.
    pub fn on_clear(&mut self) -> (r: TpmResult<()>)
        requires
            old(self).wf(),
        ensures
            final(self).wf(),
            r is Ok <==> clear_drawn(old(self).rng.model()).0 is Ok,
            r is Ok ==> cleared(*final(self), *old(self)),
            r matches Err(e) ==> {
                &&& e == clear_drawn(old(self).rng.model()).0->Err_0
                &&& *final(self) == (TpmState { rng: final(self).rng, ..*old(self) })
                &&& final(self).rng.model() == clear_drawn(old(self).rng.model()).1
            },
    {
        let owner: (Vec<u8>, Vec<u8>) = draw_seed(&mut self.rng)?;
        let other: (Vec<u8>, Vec<u8>) = draw_seed(&mut self.rng)?;
        self.hierarchies.owner.seed = owner.0;
        self.hierarchies.owner.proof_value = owner.1;
        self.hierarchies.endorsement.proof_value = other.1;
        self.hierarchies.owner.clear_authorization();
        self.hierarchies.endorsement.clear_authorization();
        self.hierarchies.owner.enabled = true;
        self.hierarchies.endorsement.enabled = true;
        self.startup_clear.set(
            StartupClearAttributes::SH_ENABLE | StartupClearAttributes::EH_ENABLE,
            true,
        );
        self.objects.flush_hierarchy(rh::OWNER);
        let ghost between = self.objects.slots@;
        self.objects.flush_hierarchy(rh::ENDORSEMENT);
        assert forall|h: u32| #[trigger]
            self.objects.slots@.contains_key(h) <==> old(self).objects.slots@.contains_key(h)
                && !ObjectSlots::belongs(old(self).objects.slots@[h], rh::OWNER)
                && !ObjectSlots::belongs(old(self).objects.slots@[h], rh::ENDORSEMENT) by {
            assert(between.contains_key(h) ==> between[h] == old(self).objects.slots@[h]);
        }
        clear_persistent(&mut self.persistent);
        self.nv.clear_owner();
        self.clock.clock = 0;
        self.clock.reset_count = 0;
        self.clock.restart_count = 0;
        self.clock.safe = true;
        Ok(())
    }
}

/// Every startup begins a run of Time that no ticket or session of the one
/// before belongs to.
pub proof fn law_every_startup_begins_a_new_time_epoch(
    after: TpmState,
    before: TpmState,
    locality: u8,
)
    requires
        started_clear(after, before, locality) || started_state(after, before),
    ensures
        after.clock.time_epoch != before.clock.time_epoch,
        after.clock.time == 0,
{
}

} // verus!
