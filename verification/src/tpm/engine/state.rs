//! Everything a TPM keeps.

use vstd::prelude::*;

use super::handle_map::HandleMap;
use super::hierarchy::{is_hierarchy, Hierarchies};
use super::nv_store::NvStore;
use super::object::{Object, ObjectSlots};
use super::pcr::PcrBanks;
use super::session_store::SessionStore;
use crate::tpm::config;
use crate::tpm::constants::range::is_persistent;
use crate::tpm::constants::{alg, rc};
use crate::tpm::crypto::hash::supported;
use crate::tpm::crypto::rand::Drbg;
use crate::tpm::error::{TpmRc, TpmResult};
use crate::tpm::structures::attributes::{PermanentAttributes, StartupClearAttributes};
use crate::tpm::structures::base::TpmtHa;

verus! {

/// The label of the generator of a new TPM.
pub const LABEL_MANUFACTURE: [u8; 3] = [0x54, 0x50, 0x4D];

/// No TPM2_Shutdown has come since the last TPM2_Startup.
pub const NO_SHUTDOWN: u16 = 0xFFFF;

/// Dictionary attack protection.
#[derive(Debug, Clone, Copy, PartialEq, Eq, Structural)]
pub struct Lockout {
    pub failed_tries: u32,
    pub max_tries: u32,
    /// Seconds until one failure is forgotten. Zero turns the protection off.
    pub recovery_time: u32,
    /// Seconds until a failure against lockoutAuth is forgotten.
    pub lockout_recovery: u32,
    /// The Time at which one failure is forgotten.
    pub next_recovery: u64,
    /// True after a failure against lockoutAuth.
    pub in_lockout: bool,
    /// The Time at which lockoutAuth may be used again.
    pub lockout_until: u64,
}

impl Lockout {
    /// True in Lockout mode.
    pub open spec fn spec_locked_out(&self) -> bool {
        self.failed_tries >= self.max_tries
    }

    /// True in Lockout mode.
    #[verifier::when_used_as_spec(spec_locked_out)]
    pub fn locked_out(&self) -> (r: bool)
        ensures
            r == self.spec_locked_out(),
    {
        self.failed_tries >= self.max_tries
    }

    /// True when failures are not counted.
    pub open spec fn spec_protection_off(&self) -> bool {
        self.recovery_time == 0
    }

    /// True when failures are not counted.
    #[verifier::when_used_as_spec(spec_protection_off)]
    pub fn protection_off(&self) -> (r: bool)
        ensures
            r == self.spec_protection_off(),
    {
        self.recovery_time == 0
    }
}

/// Clock, Time and the counters beside them.
#[derive(Debug, Clone, Copy, PartialEq, Eq, Structural)]
pub struct Clock {
    /// Milliseconds since the TPM was made or cleared.
    pub clock: u64,
    /// Milliseconds since the last startup.
    pub time: u64,
    /// Tells one run of Time from another.
    pub time_epoch: u64,
    pub reset_count: u32,
    pub restart_count: u32,
    /// Resets over the life of the TPM.
    pub total_reset_count: u64,
    /// Restarts since the last reset.
    pub clear_count: u32,
    /// True when Clock has not been reported before.
    pub safe: bool,
    /// Milliseconds by which Clock is ahead of the copy in NV.
    pub nv_elapsed: u64,
}

/// A count of milliseconds moved on, which stops at its largest value.
pub open spec fn later(count: u64, milliseconds: u64) -> u64 {
    if count + milliseconds > u64::MAX {
        u64::MAX
    } else {
        (count + milliseconds) as u64
    }
}

/// The clock after some time has passed.
pub open spec fn passed(c: Clock, milliseconds: u64) -> Clock {
    Clock {
        clock: later(c.clock, milliseconds),
        time: later(c.time, milliseconds),
        nv_elapsed: later(c.nv_elapsed, milliseconds),
        ..c
    }
}

impl Clock {
    /// Let time pass.
    pub fn advance(&mut self, milliseconds: u64)
        ensures
            *final(self) == passed(*old(self), milliseconds),
    {
        self.clock = self.clock.saturating_add(milliseconds);
        self.time = self.time.saturating_add(milliseconds);
        self.nv_elapsed = self.nv_elapsed.saturating_add(milliseconds);
    }
}

/// Command audit and the exclusive audit session.
#[derive(Debug)]
pub struct Audit {
    pub alg: u16,
    /// The codes of the commands that are audited.
    pub commands: Vec<u32>,
    pub digest: Vec<u8>,
    pub counter: u64,
    /// The session that is exclusive, or TPM_RH_UNASSIGNED.
    pub exclusive_session: u32,
}

/// The authenticated countdown timer.
#[derive(Debug)]
pub struct Act {
    /// Seconds that are left.
    pub remaining: u32,
    pub signaled: bool,
    /// True once TPM2_ACT_SetTimeout has been used since the last startup.
    pub set_since_startup: bool,
    pub policy: TpmtHa,
}

impl Act {
    /// Seconds that are left.
    pub fn timeout(&self) -> (r: u32)
        ensures
            r == self.remaining,
    {
        self.remaining
    }

    /// TPMA_ACT: the lowest bit tells that the timer has signaled.
    pub open spec fn attribute_bits(&self) -> u32 {
        if self.signaled {
            1
        } else {
            0
        }
    }

    /// TPMA_ACT.
    pub fn attributes(&self) -> (r: u32)
        ensures
            r == self.attribute_bits(),
    {
        if self.signaled {
            1
        } else {
            0
        }
    }

    /// Keep the timer over TPM2_Shutdown(STATE): whole when it has been set
    /// since the last startup, and half otherwise.
    pub fn on_shutdown_state(&mut self)
        ensures
            *final(self) == (Act {
                remaining: if old(self).set_since_startup {
                    old(self).remaining
                } else {
                    old(self).remaining / 2
                },
                ..*old(self)
            }),
    {
        if !self.set_since_startup {
            self.remaining = self.remaining / 2;
        }
    }
}

/// Everything a TPM keeps.
#[derive(Debug)]
pub struct TpmState {
    pub hierarchies: Hierarchies,
    pub lockout_auth: Vec<u8>,
    pub lockout_policy: TpmtHa,
    pub lockout: Lockout,
    pub clock: Clock,
    pub audit: Audit,
    pub act: Act,
    pub rng: Drbg,
    pub sessions: SessionStore,
    pub objects: ObjectSlots,
    pub persistent: HandleMap<Object>,
    pub nv: NvStore,
    pub pcr: PcrBanks,
    /// The banks the next TPM Reset allocates.
    pub pcr_allocation: Vec<u16>,
    pub pcr_allocation_pending: bool,
    pub pcr_auth: Vec<u8>,
    pub pcr_policy: TpmtHa,
    /// The codes of the commands that need physical presence.
    pub pp_commands: Vec<u32>,
    pub permanent: PermanentAttributes,
    pub startup_clear: StartupClearAttributes,
    pub algorithm_set: u32,
    pub started: bool,
    /// The last TPM2_Shutdown, or [`NO_SHUTDOWN`].
    pub shutdown_type: u16,
    pub failure_mode: bool,
    pub self_test_done: bool,
    /// The name of the self test that failed.
    pub test_failure: Option<Vec<u8>>,
    /// The digest of the running image that the last self test found.
    pub test_digest: Vec<u8>,
    /// The digest of the running image that the platform measured.
    pub image_digest: Option<Vec<u8>>,
    pub physical_presence: bool,
    /// True while a command has asked not to be audited.
    pub command_audit_suppressed: bool,
    pub nv_available: bool,
    pub nv_write_failed: bool,
}

/// True for a choice of PCR banks a TPM can have.
pub open spec fn allocatable(algs: Seq<u16>) -> bool {
    &&& 0 < algs.len() <= config::HASH_COUNT
    &&& forall|i: int| 0 <= i < algs.len() ==> supported(#[trigger] algs[i])
    &&& forall|i: int, j: int| 0 <= i < j < algs.len() ==> #[trigger] algs[i] != #[trigger] algs[j]
}

/// Every object is under a persistent handle and fit to be used.
#[verifier::opaque]
pub open spec fn persistent_wf(m: HandleMap<Object>) -> bool {
    &&& m.wf()
    &&& forall|h: u32| #[trigger] m@.contains_key(h) ==> is_persistent(h) && m@[h].wf()
}

impl TpmState {
    /// Every part is one a TPM can have.
    pub open spec fn wf(&self) -> bool {
        &&& self.hierarchies.wf()
        &&& self.lockout_auth@.len() <= 64
        &&& self.lockout_policy.valid()
        &&& supported(self.audit.alg)
        &&& self.audit.digest@.len() <= 64
        &&& self.act.policy.valid()
        &&& self.sessions.wf()
        &&& self.objects.wf()
        &&& persistent_wf(self.persistent)
        &&& self.nv.wf()
        &&& self.pcr.wf()
        &&& allocatable(self.pcr_allocation@)
        &&& self.pcr_auth@.len() <= 64
        &&& self.pcr_policy.valid()
        &&& self.test_digest@.len() <= 64
        &&& self.test_failure matches Some(t) ==> t@.len() <= 64
        &&& self.image_digest matches Some(t) ==> t@.len() <= 64
    }

    /// The proof that keys the tickets of a hierarchy, or TPM_RC_VALUE.
    pub fn hierarchy_proof(&self, hierarchy: u32) -> (r: TpmResult<&[u8]>)
        ensures
            r is Ok <==> is_hierarchy(hierarchy),
            r matches Ok(p) ==> p@ == self.hierarchies.spec_get(hierarchy).proof_value@,
            r matches Err(e) ==> e == TpmRc(rc::VALUE),
    {
        if is_hierarchy(hierarchy) {
            Ok(self.hierarchies.get(hierarchy).proof_value.as_slice())
        } else {
            Err(TpmRc(rc::VALUE))
        }
    }

    /// Record that data in NV is no longer what the TPM holds.
    pub fn nv_is_no_longer_orderly(&mut self)
        ensures
            *final(self) == (TpmState {
                startup_clear: old(self).startup_clear.put(StartupClearAttributes::ORDERLY, false),
                ..*old(self)
            }),
    {
        self.startup_clear.set(StartupClearAttributes::ORDERLY, false);
    }
}

} // verus!
