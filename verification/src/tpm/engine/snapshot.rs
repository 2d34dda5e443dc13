//! The state of a TPM copied, and put back.

use vstd::prelude::*;

use super::handle_map::{same_entries, same_map, Copied, HandleMap};
use super::hierarchy::{Hierarchies, Hierarchy};
use super::nv::NvIndex;
use super::nv_store::{total, NvStore};
use super::object::{Object, ObjectSlots, Sequence, Slot};
use super::pcr::{PcrBank, PcrBanks};
use super::session::{AuditState, Session};
use super::session_store::SessionStore;
use super::state::{persistent_wf, Act, Audit, TpmState};
use crate::tpm::crypto::rand::Rng;
use crate::tpm::structures::base::TpmtHa;
use crate::util::bytes::to_vec;

verus! {

impl Copied for u64 {
    open spec fn same(self, other: Self) -> bool {
        self == other
    }

    open spec fn fit(self) -> bool {
        true
    }

    fn copied(&self) -> (r: Self) {
        *self
    }
}

impl Copied for Session {
    open spec fn same(self, other: Self) -> bool {
        self@ == other@
    }

    open spec fn fit(self) -> bool {
        self.wf()
    }

    fn copied(&self) -> (r: Self) {
        Session {
            handle: self.handle,
            session_type: self.session_type,
            auth_hash: self.auth_hash,
            nonce_tpm: to_vec(self.nonce_tpm.as_slice()),
            nonce_caller: to_vec(self.nonce_caller.as_slice()),
            session_key: to_vec(self.session_key.as_slice()),
            bind: self.bind,
            bind_name: to_vec(self.bind_name.as_slice()),
            bind_uses_lockout: self.bind_uses_lockout,
            start_time: self.start_time,
            time_epoch: self.time_epoch,
            symmetric: self.symmetric,
            policy: self.policy.copy(),
            audit: AuditState {
                is_audit: self.audit.is_audit,
                digest: to_vec(self.audit.digest.as_slice()),
            },
        }
    }
}

impl Copied for Object {
    open spec fn same(self, other: Self) -> bool {
        self@ == other@
    }

    open spec fn fit(self) -> bool {
        self.wf()
    }

    fn copied(&self) -> (r: Self) {
        self.clone()
    }
}

impl Copied for Slot {
    open spec fn same(self, other: Self) -> bool {
        match (self, other) {
            (Slot::Object(a), Slot::Object(b)) => a@ == b@,
            (Slot::Sequence(a), Slot::Sequence(b)) => a@ == b@,
            _ => false,
        }
    }

    open spec fn fit(self) -> bool {
        self.wf()
    }

    fn copied(&self) -> (r: Self) {
        match self {
            Slot::Object(o) => {
                let o: Object = (&**o).clone();
                Slot::Object(Box::new(o))
            },
            Slot::Sequence(s) => Slot::Sequence(
                Box::new(
                    Sequence {
                        kind: s.kind.clone(),
                        auth: to_vec(s.auth.as_slice()),
                        buffer: to_vec(s.buffer.as_slice()),
                    },
                ),
            ),
        }
    }
}

impl Copied for NvIndex {
    open spec fn same(self, other: Self) -> bool {
        &&& self.public@ == other.public@
        &&& self.auth@ == other.auth@
        &&& self.data@ == other.data@
        &&& self.read_locked == other.read_locked
        &&& self.write_locked == other.write_locked
    }

    open spec fn fit(self) -> bool {
        self.wf()
    }

    fn copied(&self) -> (r: Self) {
        NvIndex {
            public: self.public.clone(),
            auth: to_vec(self.auth.as_slice()),
            data: to_vec(self.data.as_slice()),
            read_locked: self.read_locked,
            write_locked: self.write_locked,
        }
    }
}

/// True when two digests are the same.
pub open spec fn same_digest(a: TpmtHa, b: TpmtHa) -> bool {
    a.hash_alg == b.hash_alg && a.digest@ == b.digest@
}

/// True when two hierarchies hold the same.
pub open spec fn same_hierarchy(a: Hierarchy, b: Hierarchy) -> bool {
    &&& a.enabled == b.enabled
    &&& a.auth@ == b.auth@
    &&& same_digest(a.policy, b.policy)
    &&& a.seed@ == b.seed@
    &&& a.proof_value@ == b.proof_value@
}

/// True when the hierarchies of two TPMs hold the same.
pub open spec fn same_hierarchies(a: Hierarchies, b: Hierarchies) -> bool {
    &&& same_hierarchy(a.platform, b.platform)
    &&& same_hierarchy(a.owner, b.owner)
    &&& same_hierarchy(a.endorsement, b.endorsement)
    &&& same_hierarchy(a.null, b.null)
    &&& a.platform_nv_enabled == b.platform_nv_enabled
}

/// True when two command audits hold the same.
pub open spec fn same_audit(a: Audit, b: Audit) -> bool {
    &&& a.alg == b.alg
    &&& a.commands@ == b.commands@
    &&& a.digest@ == b.digest@
    &&& a.counter == b.counter
    &&& a.exclusive_session == b.exclusive_session
}

/// True when two authenticated timers hold the same.
pub open spec fn same_timer(a: Act, b: Act) -> bool {
    &&& a.remaining == b.remaining
    &&& a.signaled == b.signaled
    &&& a.set_since_startup == b.set_since_startup
    &&& same_digest(a.policy, b.policy)
}

/// True when two TPMs have the same sessions.
pub open spec fn same_sessions(a: SessionStore, b: SessionStore) -> bool {
    same_map(a.loaded, b.loaded) && same_map(a.saved, b.saved) && a.counter == b.counter
}

/// True when two TPMs hold the same, but for the generator and for what failure
/// mode is about: whether the TPM is in it, whether the self tests are done and
/// which of them failed.
pub open spec fn alike(a: TpmState, b: TpmState) -> bool {
    &&& same_hierarchies(a.hierarchies, b.hierarchies)
    &&& a.lockout_auth@ == b.lockout_auth@
    &&& same_digest(a.lockout_policy, b.lockout_policy)
    &&& a.lockout == b.lockout
    &&& a.clock == b.clock
    &&& same_audit(a.audit, b.audit)
    &&& same_timer(a.act, b.act)
    &&& same_sessions(a.sessions, b.sessions)
    &&& same_map(a.objects.slots, b.objects.slots)
    &&& same_map(a.persistent, b.persistent)
    &&& same_map(a.nv.indices, b.nv.indices)
    &&& a.pcr.held() == b.pcr.held()
    &&& a.pcr.counter == b.pcr.counter
    &&& a.pcr_allocation@ == b.pcr_allocation@
    &&& a.pcr_allocation_pending == b.pcr_allocation_pending
    &&& a.pcr_auth@ == b.pcr_auth@
    &&& same_digest(a.pcr_policy, b.pcr_policy)
    &&& a.pp_commands@ == b.pp_commands@
    &&& a.permanent == b.permanent
    &&& a.startup_clear == b.startup_clear
    &&& a.algorithm_set == b.algorithm_set
    &&& a.started == b.started
    &&& a.shutdown_type == b.shutdown_type
    &&& a.test_digest@ == b.test_digest@
    &&& super::session::seen(a.image_digest) == super::session::seen(b.image_digest)
    &&& a.physical_presence == b.physical_presence
    &&& a.command_audit_suppressed == b.command_audit_suppressed
    &&& a.nv_available == b.nv_available
    &&& a.nv_write_failed == b.nv_write_failed
}

fn copy_hierarchy(h: &Hierarchy) -> (r: Hierarchy)
    ensures
        same_hierarchy(r, *h),
{
    Hierarchy {
        enabled: h.enabled,
        auth: to_vec(h.auth.as_slice()),
        policy: h.policy.clone(),
        seed: to_vec(h.seed.as_slice()),
        proof_value: to_vec(h.proof_value.as_slice()),
    }
}

fn copy_hierarchies(h: &Hierarchies) -> (r: Hierarchies)
    ensures
        same_hierarchies(r, *h),
{
    Hierarchies {
        platform: copy_hierarchy(&h.platform),
        owner: copy_hierarchy(&h.owner),
        endorsement: copy_hierarchy(&h.endorsement),
        null: copy_hierarchy(&h.null),
        platform_nv_enabled: h.platform_nv_enabled,
    }
}

fn copy_words(v: &Vec<u32>) -> (r: Vec<u32>)
    ensures
        r@ == v@,
{
    let mut out: Vec<u32> = Vec::new();
    let mut i: usize = 0;
    while i < v.len()
        invariant
            i <= v@.len(),
            out@ == v@.take(i as int),
        decreases v@.len() - i,
    {
        out.push(v[i]);
        i = i + 1;
        assert(out@ =~= v@.take(i as int));
    }
    assert(out@ =~= v@);
    out
}

fn copy_shorts(v: &Vec<u16>) -> (r: Vec<u16>)
    ensures
        r@ == v@,
{
    let mut out: Vec<u16> = Vec::new();
    let mut i: usize = 0;
    while i < v.len()
        invariant
            i <= v@.len(),
            out@ == v@.take(i as int),
        decreases v@.len() - i,
    {
        out.push(v[i]);
        i = i + 1;
        assert(out@ =~= v@.take(i as int));
    }
    assert(out@ =~= v@);
    out
}

fn copy_bank(b: &PcrBank) -> (r: PcrBank)
    ensures
        r@ == b@,
        b.wf() ==> r.wf(),
{
    let mut values: Vec<Vec<u8>> = Vec::new();
    let mut i: usize = 0;
    while i < b.values.len()
        invariant
            i <= b.values@.len(),
            values@.len() == i,
            forall|j: int| 0 <= j < i ==> (#[trigger] values@[j])@ == b.values@[j]@,
        decreases b.values@.len() - i,
    {
        values.push(to_vec(b.values[i].as_slice()));
        i = i + 1;
    }
    let r = PcrBank { alg: b.alg, values };
    assert(r@.values =~= b@.values);
    r
}

fn copy_banks(p: &PcrBanks) -> (r: PcrBanks)
    requires
        p.wf(),
    ensures
        r.wf(),
        r.held() == p.held(),
        r.counter == p.counter,
{
    proof {
        reveal(PcrBanks::wf);
    }
    let mut banks: Vec<PcrBank> = Vec::new();
    let mut i: usize = 0;
    while i < p.banks.len()
        invariant
            i <= p.banks@.len(),
            banks@.len() == i,
            forall|j: int|
                0 <= j < i ==> (#[trigger] banks@[j])@ == p.banks@[j]@ && (p.banks@[j].wf()
                    ==> banks@[j].wf()),
        decreases p.banks@.len() - i,
    {
        banks.push(copy_bank(&p.banks[i]));
        i = i + 1;
    }
    let r = PcrBanks { banks, counter: p.counter };
    assert(r.held() =~= p.held());
    assert forall|i: int, j: int| 0 <= i < j < r.banks@.len() implies (#[trigger] r.banks@[i]).alg
        != (#[trigger] r.banks@[j]).alg by {
        assert(r.banks@[i]@.alg == p.banks@[i]@.alg);
        assert(r.banks@[j]@.alg == p.banks@[j]@.alg);
        assert(p.banks@[i].alg != p.banks@[j].alg);
    }
    r
}

fn copy_sessions(s: &SessionStore) -> (r: SessionStore)
    requires
        s.wf(),
    ensures
        r.wf(),
        same_sessions(r, *s),
{
    proof {
        reveal(SessionStore::wf);
    }
    let r = SessionStore {
        loaded: s.loaded.duplicate(),
        saved: s.saved.duplicate(),
        counter: s.counter,
    };
    assert forall|h: u32| #[trigger] r.loaded@.contains_key(h) implies r.loaded@[h].wf()
        && r.loaded@[h].handle == h && super::session::handle_fits(h, r.loaded@[h].session_type) by {
        assert(s.loaded@.dom().contains(h));
        assert(s.loaded@[h].fit());
        assert(r.loaded@[h].fit());
        assert(r.loaded@[h]@ == s.loaded@[h]@);
        assert(r.loaded@[h]@.handle == s.loaded@[h]@.handle);
        assert(r.loaded@[h]@.session_type == s.loaded@[h]@.session_type);
    }
    assert forall|h: u32| #[trigger] r.saved@.contains_key(h) implies
        crate::tpm::constants::range::is_session(h) && !r.loaded@.contains_key(h) by {
        assert(s.saved@.dom().contains(h));
        assert(!s.loaded@.dom().contains(h));
    }
    r
}

fn copy_objects(o: &ObjectSlots) -> (r: ObjectSlots)
    requires
        o.wf(),
    ensures
        r.wf(),
        same_map(r.slots, o.slots),
{
    proof {
        reveal(ObjectSlots::wf);
    }
    let r = ObjectSlots { slots: o.slots.duplicate() };
    assert forall|h: u32| #[trigger] r.slots@.contains_key(h) implies
        crate::tpm::constants::range::is_transient(h) && r.slots@[h].wf() by {
        assert(o.slots@.dom().contains(h));
        assert(o.slots@[h].fit());
        assert(r.slots@[h].fit());
    }
    r
}

fn copy_persistent(m: &HandleMap<Object>) -> (r: HandleMap<Object>)
    requires
        persistent_wf(*m),
    ensures
        persistent_wf(r),
        same_map(r, *m),
{
    proof {
        reveal(persistent_wf);
    }
    let r = m.duplicate();
    assert forall|h: u32| #[trigger] r@.contains_key(h) implies
        crate::tpm::constants::range::is_persistent(h) && r@[h].wf() by {
        assert(m@.dom().contains(h));
        assert(m@[h].fit());
        assert(r@[h].fit());
    }
    r
}

proof fn lemma_same_total(a: Seq<(u32, NvIndex)>, b: Seq<(u32, NvIndex)>)
    requires
        same_entries(a, b),
    ensures
        total(a) == total(b),
    decreases a.len(),
{
    if a.len() > 0 {
        lemma_same_total(a.drop_last(), b.drop_last());
        assert(a.last().1.same(b.last().1));
        assert(a.last().1.public@.data_size == b.last().1.public@.data_size);
    }
}

fn copy_indices(n: &NvStore) -> (r: NvStore)
    requires
        n.wf(),
    ensures
        r.wf(),
        same_map(r.indices, n.indices),
{
    proof {
        reveal(NvStore::wf);
    }
    let r = NvStore { indices: n.indices.duplicate() };
    proof {
        lemma_same_total(r.indices.listed(), n.indices.listed());
    }
    assert forall|h: u32| #[trigger] r.indices@.contains_key(h) implies r.indices@[h].wf()
        && r.indices@[h].public.nv_index == h by {
        assert(n.indices@.dom().contains(h));
        assert(n.indices@[h].fit());
        assert(r.indices@[h].fit());
        assert(r.indices@[h].same(n.indices@[h]));
        assert(r.indices@[h].public@.nv_index == n.indices@[h].public@.nv_index);
    }
    r
}

impl TpmState {
    /// A copy of the state.
    pub fn copy(&self) -> (r: TpmState)
        requires
            self.wf(),
        ensures
            r.wf(),
            alike(r, *self),
            r.rng.model() == self.rng.model(),
    {
        let image_digest: Option<Vec<u8>> = match &self.image_digest {
            Some(d) => Some(to_vec(d.as_slice())),
            None => None,
        };
        let test_failure: Option<Vec<u8>> = match &self.test_failure {
            Some(d) => Some(to_vec(d.as_slice())),
            None => None,
        };
        TpmState {
            hierarchies: copy_hierarchies(&self.hierarchies),
            lockout_auth: to_vec(self.lockout_auth.as_slice()),
            lockout_policy: self.lockout_policy.clone(),
            lockout: self.lockout,
            clock: self.clock,
            audit: Audit {
                alg: self.audit.alg,
                commands: copy_words(&self.audit.commands),
                digest: to_vec(self.audit.digest.as_slice()),
                counter: self.audit.counter,
                exclusive_session: self.audit.exclusive_session,
            },
            act: Act {
                remaining: self.act.remaining,
                signaled: self.act.signaled,
                set_since_startup: self.act.set_since_startup,
                policy: self.act.policy.clone(),
            },
            rng: self.rng.copy(),
            sessions: copy_sessions(&self.sessions),
            objects: copy_objects(&self.objects),
            persistent: copy_persistent(&self.persistent),
            nv: copy_indices(&self.nv),
            pcr: copy_banks(&self.pcr),
            pcr_allocation: copy_shorts(&self.pcr_allocation),
            pcr_allocation_pending: self.pcr_allocation_pending,
            pcr_auth: to_vec(self.pcr_auth.as_slice()),
            pcr_policy: self.pcr_policy.clone(),
            pp_commands: copy_words(&self.pp_commands),
            permanent: self.permanent,
            startup_clear: self.startup_clear,
            algorithm_set: self.algorithm_set,
            started: self.started,
            shutdown_type: self.shutdown_type,
            failure_mode: self.failure_mode,
            self_test_done: self.self_test_done,
            test_failure,
            test_digest: to_vec(self.test_digest.as_slice()),
            image_digest,
            physical_presence: self.physical_presence,
            command_audit_suppressed: self.command_audit_suppressed,
            nv_available: self.nv_available,
            nv_write_failed: self.nv_write_failed,
        }
    }

    /// Put everything back to `saved` but for the generator and for what
    /// failure mode is about.
    pub fn put_back(&mut self, saved: TpmState)
        requires
            old(self).wf(),
            saved.wf(),
        ensures
            final(self).wf(),
            *final(self) == (TpmState {
                rng: old(self).rng,
                failure_mode: old(self).failure_mode,
                self_test_done: old(self).self_test_done,
                test_failure: old(self).test_failure,
                ..saved
            }),
    {
        let mut back: TpmState = saved;
        back.failure_mode = self.failure_mode;
        back.self_test_done = self.self_test_done;
        std::mem::swap(&mut back.rng, &mut self.rng);
        std::mem::swap(&mut back.test_failure, &mut self.test_failure);
        *self = back;
    }
}

} // verus!
