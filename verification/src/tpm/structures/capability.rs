//! What TPM2_GetCapability returns.

use vstd::prelude::*;

use super::base::TpmtHa;
use super::lists::{PcrSelect, PcrSelection};
use crate::tpm::constants::cap;
use crate::tpm::marshal::Writer;
use crate::util::bytes::{octets16, octets32};

verus! {

/// What a list holds.
pub trait ListItem: Sized {
    /// The canonical form.
    spec fn octets(&self) -> Seq<u8>;

    /// Write the canonical form.
    fn write(&self, w: &mut Writer)
        ensures
            final(w).written() == old(w).written() + self.octets(),
            final(w).good() == old(w).good(),
    ;
}

impl ListItem for u16 {
    open spec fn octets(&self) -> Seq<u8> {
        octets16(*self)
    }

    fn write(&self, w: &mut Writer) {
        w.u16(*self);
    }
}

impl ListItem for u32 {
    open spec fn octets(&self) -> Seq<u8> {
        octets32(*self)
    }

    fn write(&self, w: &mut Writer) {
        w.u32(*self);
    }
}

/// TPMS_ALG_PROPERTY.
#[derive(Debug, Clone, Copy, PartialEq, Eq, Structural)]
pub struct AlgProperty {
    pub alg: u16,
    pub alg_properties: u32,
}

impl ListItem for AlgProperty {
    open spec fn octets(&self) -> Seq<u8> {
        octets16(self.alg) + octets32(self.alg_properties)
    }

    fn write(&self, w: &mut Writer) {
        w.u16(self.alg);
        w.u32(self.alg_properties);
        assert(w.written() =~= old(w).written() + self.octets());
    }
}

/// TPMS_TAGGED_PROPERTY.
#[derive(Debug, Clone, Copy, PartialEq, Eq, Structural)]
pub struct TaggedProperty {
    pub property: u32,
    pub value: u32,
}

impl ListItem for TaggedProperty {
    open spec fn octets(&self) -> Seq<u8> {
        octets32(self.property) + octets32(self.value)
    }

    fn write(&self, w: &mut Writer) {
        w.u32(self.property);
        w.u32(self.value);
        assert(w.written() =~= old(w).written() + self.octets());
    }
}

/// TPMS_TAGGED_PCR_SELECT.
#[derive(Debug, Clone, Copy, PartialEq, Eq, Structural)]
pub struct TaggedPcrSelect {
    pub tag: u32,
    pub select: PcrSelect,
}

impl ListItem for TaggedPcrSelect {
    open spec fn octets(&self) -> Seq<u8> {
        octets32(self.tag) + self.select.octets()
    }

    fn write(&self, w: &mut Writer) {
        w.u32(self.tag);
        self.select.marshal(w);
        assert(w.written() =~= old(w).written() + self.octets());
    }
}

impl ListItem for PcrSelection {
    open spec fn octets(&self) -> Seq<u8> {
        PcrSelection::octets(*self)
    }

    fn write(&self, w: &mut Writer) {
        self.marshal(w);
    }
}

/// TPMS_TAGGED_POLICY.
#[derive(Debug)]
pub struct TaggedPolicy {
    pub handle: u32,
    pub policy_hash: TpmtHa,
}

impl ListItem for TaggedPolicy {
    open spec fn octets(&self) -> Seq<u8> {
        octets32(self.handle) + octets16(self.policy_hash.hash_alg) + self.policy_hash.digest@
    }

    fn write(&self, w: &mut Writer) {
        w.u32(self.handle);
        w.u16(self.policy_hash.hash_alg);
        w.bytes(self.policy_hash.digest.as_slice());
        assert(w.written() =~= old(w).written() + self.octets());
    }
}

/// TPMS_ACT_DATA.
#[derive(Debug, Clone, Copy, PartialEq, Eq, Structural)]
pub struct ActData {
    pub handle: u32,
    pub timeout: u32,
    pub attributes: u32,
}

impl ListItem for ActData {
    open spec fn octets(&self) -> Seq<u8> {
        octets32(self.handle) + octets32(self.timeout) + octets32(self.attributes)
    }

    fn write(&self, w: &mut Writer) {
        w.u32(self.handle);
        w.u32(self.timeout);
        w.u32(self.attributes);
        assert(w.written() =~= old(w).written() + self.octets());
    }
}

/// A list that marshals as its length and its items.
#[derive(Debug)]
pub struct Tpml<T> {
    pub items: Vec<T>,
}

/// The canonical forms of the items, one after the other.
pub open spec fn items_octets<T: ListItem>(s: Seq<T>) -> Seq<u8>
    decreases s.len(),
{
    if s.len() == 0 {
        Seq::empty()
    } else {
        items_octets(s.drop_last()) + s.last().octets()
    }
}

impl<T: ListItem> Tpml<T> {
    /// The canonical form.
    pub open spec fn list_octets(&self) -> Seq<u8> {
        octets32(self.items@.len() as u32) + items_octets(self.items@)
    }

    /// How many items there are.
    pub fn len(&self) -> (r: usize)
        ensures
            r == self.items@.len(),
    {
        self.items.len()
    }

    /// Write the canonical form.
    pub fn marshal(&self, w: &mut Writer)
        requires
            self.items@.len() <= 0xFFFF_FFFF,
        ensures
            final(w).written() == old(w).written() + self.list_octets(),
            final(w).good() == old(w).good(),
    {
        w.u32(self.items.len() as u32);
        let ghost base = w.written();
        let mut i: usize = 0;
        assert(self.items@.take(0) =~= Seq::<T>::empty());
        assert(base + items_octets(self.items@.take(0)) =~= base);
        while i < self.items.len()
            invariant
                i <= self.items@.len(),
                w.good() == old(w).good(),
                w.written() == base + items_octets(self.items@.take(i as int)),
            decreases self.items@.len() - i,
        {
            self.items[i].write(w);
            i = i + 1;
            proof {
                let s = self.items@.take(i as int);
                assert(s.drop_last() =~= self.items@.take(i - 1));
                assert(w.written() =~= base + items_octets(s));
            }
        }
        assert(self.items@.take(i as int) =~= self.items@);
        assert(w.written() =~= old(w).written() + self.list_octets());
    }
}

pub type TpmlAlgProperty = Tpml<AlgProperty>;
pub type TpmlHandle = Tpml<u32>;
pub type TpmlCca = Tpml<u32>;
pub type TpmlCommands = Tpml<u32>;
pub type TpmlAssignedPcr = Tpml<PcrSelection>;
pub type TpmlTaggedTpmProperty = Tpml<TaggedProperty>;
pub type TpmlTaggedPcrProperty = Tpml<TaggedPcrSelect>;
pub type TpmlEccCurve = Tpml<u16>;
pub type TpmlTaggedPolicy = Tpml<TaggedPolicy>;
pub type TpmlActData = Tpml<ActData>;

/// How many items of each kind fit the capability buffer.
pub const MAX_CAP_ALGS: usize = 169;
pub const MAX_CAP_HANDLES: usize = 254;
pub const MAX_CAP_CC: usize = 254;
pub const MAX_TPM_PROPERTIES: usize = 127;
pub const MAX_PCR_PROPERTIES: usize = 127;
pub const MAX_ECC_CURVES: usize = 508;
pub const MAX_TAGGED_POLICIES: usize = 14;
pub const MAX_ACT_DATA: usize = 84;

/// TPMU_CAPABILITIES.
#[derive(Debug)]
pub enum Capabilities {
    Algorithms(TpmlAlgProperty),
    Handles(TpmlHandle),
    Command(TpmlCca),
    PpCommands(TpmlCommands),
    AuditCommands(TpmlCommands),
    AssignedPcr(TpmlAssignedPcr),
    TpmProperties(TpmlTaggedTpmProperty),
    PcrProperties(TpmlTaggedPcrProperty),
    EccCurves(TpmlEccCurve),
    AuthPolicies(TpmlTaggedPolicy),
    Act(TpmlActData),
    PubKeys,
    SpdmSessionInfo,
    VendorProperty,
}

impl Capabilities {
    /// Every list is short enough for its length to be written.
    pub open spec fn fits(&self) -> bool {
        match self {
            Capabilities::Algorithms(l) => l.items@.len() <= 0xFFFF_FFFF,
            Capabilities::Handles(l) => l.items@.len() <= 0xFFFF_FFFF,
            Capabilities::Command(l) => l.items@.len() <= 0xFFFF_FFFF,
            Capabilities::PpCommands(l) => l.items@.len() <= 0xFFFF_FFFF,
            Capabilities::AuditCommands(l) => l.items@.len() <= 0xFFFF_FFFF,
            Capabilities::AssignedPcr(l) => l.items@.len() <= 0xFFFF_FFFF,
            Capabilities::TpmProperties(l) => l.items@.len() <= 0xFFFF_FFFF,
            Capabilities::PcrProperties(l) => l.items@.len() <= 0xFFFF_FFFF,
            Capabilities::EccCurves(l) => l.items@.len() <= 0xFFFF_FFFF,
            Capabilities::AuthPolicies(l) => l.items@.len() <= 0xFFFF_FFFF,
            Capabilities::Act(l) => l.items@.len() <= 0xFFFF_FFFF,
            _ => true,
        }
    }

    /// The TPM_CAP that selects the list.
    pub open spec fn selector(&self) -> u32 {
        match self {
            Capabilities::Algorithms(_) => cap::ALGS,
            Capabilities::Handles(_) => cap::HANDLES,
            Capabilities::Command(_) => cap::COMMANDS,
            Capabilities::PpCommands(_) => cap::PP_COMMANDS,
            Capabilities::AuditCommands(_) => cap::AUDIT_COMMANDS,
            Capabilities::AssignedPcr(_) => cap::PCRS,
            Capabilities::TpmProperties(_) => cap::TPM_PROPERTIES,
            Capabilities::PcrProperties(_) => cap::PCR_PROPERTIES,
            Capabilities::EccCurves(_) => cap::ECC_CURVES,
            Capabilities::AuthPolicies(_) => cap::AUTH_POLICIES,
            Capabilities::Act(_) => cap::ACT,
            Capabilities::PubKeys => cap::PUB_KEYS,
            Capabilities::SpdmSessionInfo => cap::SPDM_SESSION_INFO,
            Capabilities::VendorProperty => cap::VENDOR_PROPERTY,
        }
    }

    /// The canonical form of the items alone.
    pub open spec fn item_octets(&self) -> Seq<u8> {
        match self {
            Capabilities::Algorithms(l) => items_octets(l.items@),
            Capabilities::Handles(l) => items_octets(l.items@),
            Capabilities::Command(l) => items_octets(l.items@),
            Capabilities::PpCommands(l) => items_octets(l.items@),
            Capabilities::AuditCommands(l) => items_octets(l.items@),
            Capabilities::AssignedPcr(l) => items_octets(l.items@),
            Capabilities::TpmProperties(l) => items_octets(l.items@),
            Capabilities::PcrProperties(l) => items_octets(l.items@),
            Capabilities::EccCurves(l) => items_octets(l.items@),
            Capabilities::AuthPolicies(l) => items_octets(l.items@),
            Capabilities::Act(l) => items_octets(l.items@),
            _ => Seq::empty(),
        }
    }

    /// How many items there are.
    pub open spec fn count(&self) -> nat {
        match self {
            Capabilities::Algorithms(l) => l.items@.len(),
            Capabilities::Handles(l) => l.items@.len(),
            Capabilities::Command(l) => l.items@.len(),
            Capabilities::PpCommands(l) => l.items@.len(),
            Capabilities::AuditCommands(l) => l.items@.len(),
            Capabilities::AssignedPcr(l) => l.items@.len(),
            Capabilities::TpmProperties(l) => l.items@.len(),
            Capabilities::PcrProperties(l) => l.items@.len(),
            Capabilities::EccCurves(l) => l.items@.len(),
            Capabilities::AuthPolicies(l) => l.items@.len(),
            Capabilities::Act(l) => l.items@.len(),
            _ => 0,
        }
    }

    /// The canonical form: the length and the items.
    pub open spec fn octets(&self) -> Seq<u8> {
        octets32(self.count() as u32) + self.item_octets()
    }

    /// Write the canonical form.
    pub fn marshal(&self, w: &mut Writer)
        requires
            self.fits(),
        ensures
            final(w).written() == old(w).written() + self.octets(),
            final(w).good() == old(w).good(),
    {
        match self {
            Capabilities::Algorithms(l) => l.marshal(w),
            Capabilities::Handles(l) => l.marshal(w),
            Capabilities::Command(l) => l.marshal(w),
            Capabilities::PpCommands(l) => l.marshal(w),
            Capabilities::AuditCommands(l) => l.marshal(w),
            Capabilities::AssignedPcr(l) => l.marshal(w),
            Capabilities::TpmProperties(l) => l.marshal(w),
            Capabilities::PcrProperties(l) => l.marshal(w),
            Capabilities::EccCurves(l) => l.marshal(w),
            Capabilities::AuthPolicies(l) => l.marshal(w),
            Capabilities::Act(l) => l.marshal(w),
            _ => {
                w.u32(0);
                assert(w.written() =~= old(w).written() + self.octets());
            },
        }
    }

    /// The TPM_CAP that selects the list.
    pub fn capability(&self) -> (r: u32)
        ensures
            r == self.selector(),
    {
        match self {
            Capabilities::Algorithms(_) => cap::ALGS,
            Capabilities::Handles(_) => cap::HANDLES,
            Capabilities::Command(_) => cap::COMMANDS,
            Capabilities::PpCommands(_) => cap::PP_COMMANDS,
            Capabilities::AuditCommands(_) => cap::AUDIT_COMMANDS,
            Capabilities::AssignedPcr(_) => cap::PCRS,
            Capabilities::TpmProperties(_) => cap::TPM_PROPERTIES,
            Capabilities::PcrProperties(_) => cap::PCR_PROPERTIES,
            Capabilities::EccCurves(_) => cap::ECC_CURVES,
            Capabilities::AuthPolicies(_) => cap::AUTH_POLICIES,
            Capabilities::Act(_) => cap::ACT,
            Capabilities::PubKeys => cap::PUB_KEYS,
            Capabilities::SpdmSessionInfo => cap::SPDM_SESSION_INFO,
            Capabilities::VendorProperty => cap::VENDOR_PROPERTY,
        }
    }
}

} // verus!
