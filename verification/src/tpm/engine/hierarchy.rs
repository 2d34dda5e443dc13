//! The hierarchies.

use vstd::prelude::*;

use crate::tpm::constants::rh;
use crate::tpm::crypto::rand::{draw, Drbg, Rng, RngModel};
use crate::tpm::error::TpmResult;
use crate::tpm::structures::base::TpmtHa;

verus! {

/// One hierarchy.
#[derive(Debug)]
pub struct Hierarchy {
    pub enabled: bool,
    pub auth: Vec<u8>,
    pub policy: TpmtHa,
    /// The Primary Seed.
    pub seed: Vec<u8>,
    /// The proof that tickets of the hierarchy are made with.
    pub proof_value: Vec<u8>,
}

/// Octets in a Primary Seed and in a proof.
pub const SEED_SIZE: usize = 32;

/// The Primary Seed and the proof that a generator produces, and the generator
/// after both.
pub open spec fn seed_drawn(m: RngModel) -> (TpmResult<(Seq<u8>, Seq<u8>)>, RngModel) {
    let a = draw(m, SEED_SIZE as nat);
    match a.0 {
        Err(e) => (Err(e), a.1),
        Ok(seed) => {
            let b = draw(a.1, SEED_SIZE as nat);
            match b.0 {
                Err(e) => (Err(e), b.1),
                Ok(proof_value) => (Ok((seed, proof_value)), b.1),
            }
        },
    }
}

/// A new Primary Seed and proof.
pub fn draw_seed(rng: &mut Drbg) -> (r: TpmResult<(Vec<u8>, Vec<u8>)>)
    ensures
        final(rng).model() == seed_drawn(old(rng).model()).1,
        match seed_drawn(old(rng).model()).0 {
            Ok(v) => r is Ok && r->Ok_0.0@ == v.0 && r->Ok_0.1@ == v.1,
            Err(e) => r is Err && r->Err_0 == e,
        },
{
    let seed: Vec<u8> = rng.bytes(SEED_SIZE)?;
    let proof_value: Vec<u8> = rng.bytes(SEED_SIZE)?;
    Ok((seed, proof_value))
}

impl Hierarchy {
    /// The authorization value and the policy are ones a hierarchy can have.
    pub open spec fn wf(&self) -> bool {
        self.auth@.len() <= 64 && self.policy.valid()
    }

    /// An enabled hierarchy without authorization, from a Primary Seed and a
    /// proof.
    pub fn new(seed: Vec<u8>, proof_value: Vec<u8>) -> (r: Hierarchy)
        ensures
            r.enabled,
            r.auth@.len() == 0,
            r.policy.hash_alg == crate::tpm::constants::alg::NULL,
            r.seed == seed,
            r.proof_value == proof_value,
            r.wf(),
    {
        Hierarchy { enabled: true, auth: Vec::new(), policy: TpmtHa::null(), seed, proof_value }
    }

    /// Take the authorization value and the policy away.
    pub fn clear_authorization(&mut self)
        ensures
            *final(self) == (Hierarchy {
                auth: final(self).auth,
                policy: final(self).policy,
                ..*old(self)
            }),
            final(self).auth@.len() == 0,
            final(self).policy.hash_alg == crate::tpm::constants::alg::NULL,
            final(self).wf(),
    {
        self.auth = Vec::new();
        self.policy = TpmtHa::null();
    }

    /// True when an authorization value has been set.
    pub fn has_auth(&self) -> (r: bool)
        ensures
            r == (self.auth@.len() > 0),
    {
        self.auth.len() > 0
    }
}

/// The four hierarchies.
#[derive(Debug)]
pub struct Hierarchies {
    pub platform: Hierarchy,
    pub owner: Hierarchy,
    pub endorsement: Hierarchy,
    pub null: Hierarchy,
    pub platform_nv_enabled: bool,
}

/// True for the owner, endorsement, platform and null hierarchies.
pub open spec fn spec_is_hierarchy(handle: u32) -> bool {
    handle == rh::OWNER || handle == rh::ENDORSEMENT || handle == rh::PLATFORM || handle == rh::NULL
}

/// True for the owner, endorsement, platform and null hierarchies.
#[verifier::when_used_as_spec(spec_is_hierarchy)]
pub fn is_hierarchy(handle: u32) -> (r: bool)
    ensures
        r == spec_is_hierarchy(handle),
{
    handle == rh::OWNER || handle == rh::ENDORSEMENT || handle == rh::PLATFORM || handle == rh::NULL
}

/// The hierarchy a firmware limited or SVN limited hierarchy derives from.
pub open spec fn spec_base_of(handle: u32) -> Option<u32> {
    if handle == rh::FW_OWNER || rh::SVN_OWNER_BASE <= handle < rh::SVN_ENDORSEMENT_BASE {
        Some(rh::OWNER)
    } else if handle == rh::FW_ENDORSEMENT || rh::SVN_ENDORSEMENT_BASE <= handle
        < rh::SVN_PLATFORM_BASE {
        Some(rh::ENDORSEMENT)
    } else if handle == rh::FW_PLATFORM || rh::SVN_PLATFORM_BASE <= handle < rh::SVN_NULL_BASE {
        Some(rh::PLATFORM)
    } else if handle == rh::FW_NULL || rh::SVN_NULL_BASE <= handle <= rh::SVN_NULL_BASE + 0xFFFF {
        Some(rh::NULL)
    } else {
        None
    }
}

/// The hierarchy a firmware limited or SVN limited hierarchy derives from.
#[verifier::when_used_as_spec(spec_base_of)]
pub fn base_of(handle: u32) -> (r: Option<u32>)
    ensures
        r == spec_base_of(handle),
{
    if handle == rh::FW_OWNER || (rh::SVN_OWNER_BASE <= handle && handle
        < rh::SVN_ENDORSEMENT_BASE) {
        Some(rh::OWNER)
    } else if handle == rh::FW_ENDORSEMENT || (rh::SVN_ENDORSEMENT_BASE <= handle && handle
        < rh::SVN_PLATFORM_BASE) {
        Some(rh::ENDORSEMENT)
    } else if handle == rh::FW_PLATFORM || (rh::SVN_PLATFORM_BASE <= handle && handle
        < rh::SVN_NULL_BASE) {
        Some(rh::PLATFORM)
    } else if handle == rh::FW_NULL || (rh::SVN_NULL_BASE <= handle && handle <= rh::SVN_NULL_BASE
        + 0xFFFF) {
        Some(rh::NULL)
    } else {
        None
    }
}

/// True for a firmware limited or SVN limited hierarchy.
pub open spec fn spec_is_limited(handle: u32) -> bool {
    spec_base_of(handle) is Some
}

/// True for a firmware limited or SVN limited hierarchy.
#[verifier::when_used_as_spec(spec_is_limited)]
pub fn is_limited(handle: u32) -> (r: bool)
    ensures
        r == spec_is_limited(handle),
{
    base_of(handle).is_some()
}

/// The hierarchy `handle` names or derives from.
pub open spec fn authorizing(handle: u32) -> u32 {
    match spec_base_of(handle) {
        Some(b) => b,
        None => handle,
    }
}

impl Hierarchies {
    /// Every hierarchy is one that can be.
    pub open spec fn wf(&self) -> bool {
        self.platform.wf() && self.owner.wf() && self.endorsement.wf() && self.null.wf()
    }

    /// The hierarchy `handle` names.
    pub open spec fn spec_get(&self, handle: u32) -> Hierarchy
        recommends
            is_hierarchy(handle),
    {
        if handle == rh::OWNER {
            self.owner
        } else if handle == rh::ENDORSEMENT {
            self.endorsement
        } else if handle == rh::PLATFORM {
            self.platform
        } else {
            self.null
        }
    }

    /// The hierarchy `handle` names.
    pub fn get(&self, handle: u32) -> (r: &Hierarchy)
        requires
            is_hierarchy(handle),
        ensures
            *r == self.spec_get(handle),
    {
        if handle == rh::OWNER {
            &self.owner
        } else if handle == rh::ENDORSEMENT {
            &self.endorsement
        } else if handle == rh::PLATFORM {
            &self.platform
        } else {
            &self.null
        }
    }

    /// True while the hierarchy `handle` names may be used. The null hierarchy
    /// always may, and a limited one while its base may.
    pub open spec fn spec_is_enabled(&self, handle: u32) -> bool {
        let h = authorizing(handle);
        h == rh::NULL || (h == rh::OWNER && self.owner.enabled) || (h == rh::ENDORSEMENT
            && self.endorsement.enabled) || (h == rh::PLATFORM && self.platform.enabled)
    }

    /// True while the hierarchy `handle` names may be used.
    #[verifier::when_used_as_spec(spec_is_enabled)]
    pub fn is_enabled(&self, handle: u32) -> (r: bool)
        ensures
            r == self.spec_is_enabled(handle),
    {
        let h: u32 = match base_of(handle) {
            Some(b) => b,
            None => handle,
        };
        h == rh::NULL || (h == rh::OWNER && self.owner.enabled) || (h == rh::ENDORSEMENT
            && self.endorsement.enabled) || (h == rh::PLATFORM && self.platform.enabled)
    }
}

} // verus!
