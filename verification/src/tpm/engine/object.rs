//! Objects, sequences and the slots they are loaded in.

use vstd::prelude::*;

use super::handle_map::HandleMap;
use super::names::{object_name, object_name_of, qualified_name, qualified_name_of};
use crate::tpm::config;
use crate::tpm::constants::range::is_transient;
use crate::tpm::constants::{alg, hc, rc};
use crate::tpm::error::{TpmRc, TpmResult};
use crate::tpm::structures::attributes::ObjectAttributes;
use crate::tpm::structures::keys::{PublicView, SensitiveView, TpmtPublic, TpmtSensitive};
use crate::util::bytes::to_vec;

verus! {

/// The most octets a sequence keeps.
pub const MAX_SEQUENCE_BYTES: usize = 0x10_0000;

/// A loaded object.
#[derive(Debug)]
pub struct Object {
    pub public: TpmtPublic,
    pub sensitive: Option<TpmtSensitive>,
    pub name: Vec<u8>,
    pub qualified_name: Vec<u8>,
    pub hierarchy: u32,
    /// True for an object this TPM made.
    pub tpm_generated: bool,
    /// True when the object goes away at a TPM Restart, because of itself or
    /// of an ancestor.
    pub state_clear: bool,
}

/// What an object holds.
pub struct ObjectView {
    pub public: PublicView,
    pub sensitive: Option<SensitiveView>,
    pub name: Seq<u8>,
    pub qualified_name: Seq<u8>,
    pub hierarchy: u32,
    pub tpm_generated: bool,
    pub state_clear: bool,
}

impl View for Object {
    type V = ObjectView;

    open spec fn view(&self) -> ObjectView {
        ObjectView {
            public: self.public@,
            sensitive: match self.sensitive {
                Some(s) => Some(s@),
                None => None,
            },
            name: self.name@,
            qualified_name: self.qualified_name@,
            hierarchy: self.hierarchy,
            tpm_generated: self.tpm_generated,
            state_clear: self.state_clear,
        }
    }
}

impl Object {
    /// True when both Names can stand in a TPM2B_NAME.
    pub open spec fn wf(&self) -> bool {
        self.name@.len() <= 68 && self.qualified_name@.len() <= 68
    }

    /// An object under a parent.
    pub fn new(
        public: TpmtPublic,
        sensitive: Option<TpmtSensitive>,
        hierarchy: u32,
        parent_qualified_name: &[u8],
        tpm_generated: bool,
    ) -> (r: Object)
        ensures
            r == (Object {
                public,
                sensitive,
                hierarchy,
                tpm_generated,
                name: r.name,
                qualified_name: r.qualified_name,
                state_clear: public.object_attributes.has(ObjectAttributes::ST_CLEAR),
            }),
            r.name@ == object_name_of(public@),
            r.qualified_name@ == qualified_name_of(
                public.name_alg,
                parent_qualified_name@,
                object_name_of(public@),
            ),
            r.wf(),
    {
        let name: Vec<u8> = object_name(&public);
        let qn: Vec<u8> = qualified_name(
            public.name_alg,
            parent_qualified_name,
            name.as_slice(),
        );
        let state_clear: bool = public.object_attributes.has(ObjectAttributes::ST_CLEAR);
        Object { public, sensitive, name, qualified_name: qn, hierarchy, tpm_generated, state_clear }
    }

    /// True when only the public area is loaded.
    pub open spec fn spec_is_public_only(&self) -> bool {
        self.sensitive is None
    }

    /// True when only the public area is loaded.
    #[verifier::when_used_as_spec(spec_is_public_only)]
    pub fn is_public_only(&self) -> (r: bool)
        ensures
            r == self.spec_is_public_only(),
    {
        self.sensitive.is_none()
    }

    /// The authorization value, which is empty without a sensitive area.
    pub open spec fn auth_of(&self) -> Seq<u8> {
        match self.sensitive {
            Some(s) => s.auth_value@,
            None => Seq::empty(),
        }
    }

    /// The authorization value.
    pub fn auth_value(&self) -> (r: Vec<u8>)
        ensures
            r@ == self.auth_of(),
            r@.len() <= 64,
    {
        match &self.sensitive {
            Some(s) => s.auth_value.to_vec(),
            None => {
                let none: Vec<u8> = Vec::new();
                assert(none@ =~= Seq::<u8>::empty());
                none
            },
        }
    }

    /// The seed that protects children, which is empty without one.
    pub open spec fn seed_of(&self) -> Seq<u8> {
        match self.sensitive {
            Some(s) => s.seed_value@,
            None => Seq::empty(),
        }
    }

    /// The seed that protects children.
    pub fn seed_value(&self) -> (r: Vec<u8>)
        ensures
            r@ == self.seed_of(),
    {
        match &self.sensitive {
            Some(s) => s.seed_value.to_vec(),
            None => {
                let none: Vec<u8> = Vec::new();
                assert(none@ =~= Seq::<u8>::empty());
                none
            },
        }
    }

    /// True for a key that protects children: a restricted decryption key that
    /// is no derivation parent.
    pub open spec fn spec_is_storage_key(&self) -> bool {
        self.public.object_attributes.has(ObjectAttributes::RESTRICTED)
            && self.public.object_attributes.has(ObjectAttributes::DECRYPT)
            && self.public.object_type != alg::KEYEDHASH && self.sensitive is Some
    }

    /// True for a key that protects children.
    #[verifier::when_used_as_spec(spec_is_storage_key)]
    pub fn is_storage_key(&self) -> (r: bool)
        ensures
            r == self.spec_is_storage_key(),
    {
        self.public.object_attributes.has(ObjectAttributes::RESTRICTED)
            && self.public.object_attributes.has(ObjectAttributes::DECRYPT)
            && self.public.object_type != alg::KEYEDHASH && self.sensitive.is_some()
    }

    /// True for a keyed hash that children are derived from.
    pub open spec fn spec_is_derivation_parent(&self) -> bool {
        self.public.object_attributes.has(ObjectAttributes::RESTRICTED)
            && self.public.object_attributes.has(ObjectAttributes::DECRYPT)
            && self.public.object_type == alg::KEYEDHASH
    }

    /// True for a keyed hash that children are derived from.
    #[verifier::when_used_as_spec(spec_is_derivation_parent)]
    pub fn is_derivation_parent(&self) -> (r: bool)
        ensures
            r == self.spec_is_derivation_parent(),
    {
        self.public.object_attributes.has(ObjectAttributes::RESTRICTED)
            && self.public.object_attributes.has(ObjectAttributes::DECRYPT)
            && self.public.object_type == alg::KEYEDHASH
    }
}

impl Clone for Object {
    fn clone(&self) -> (r: Self)
        ensures
            r@ == self@,
            self.wf() ==> r.wf(),
    {
        Object {
            public: self.public.clone(),
            sensitive: match &self.sensitive {
                Some(s) => Some(s.clone()),
                None => None,
            },
            name: to_vec(self.name.as_slice()),
            qualified_name: to_vec(self.qualified_name.as_slice()),
            hierarchy: self.hierarchy,
            tpm_generated: self.tpm_generated,
            state_clear: self.state_clear,
        }
    }
}

/// What a sequence computes.
#[derive(Debug, PartialEq, Eq)]
pub enum SequenceKind {
    Hash { hash_alg: u16 },
    Hmac { hash_alg: u16, key: Vec<u8> },
    Event,
}

impl Clone for SequenceKind {
    fn clone(&self) -> (r: Self)
        ensures
            match (r, *self) {
                (SequenceKind::Hash { hash_alg: a }, SequenceKind::Hash { hash_alg: b }) => a == b,
                (
                    SequenceKind::Hmac { hash_alg: a, key: k },
                    SequenceKind::Hmac { hash_alg: b, key: l },
                ) => a == b && k@ == l@,
                (SequenceKind::Event, SequenceKind::Event) => true,
                _ => false,
            },
    {
        match self {
            SequenceKind::Hash { hash_alg } => SequenceKind::Hash { hash_alg: *hash_alg },
            SequenceKind::Hmac { hash_alg, key } => SequenceKind::Hmac {
                hash_alg: *hash_alg,
                key: to_vec(key.as_slice()),
            },
            SequenceKind::Event => SequenceKind::Event,
        }
    }
}

/// A sequence and the data it was given so far.
#[derive(Debug)]
pub struct Sequence {
    pub kind: SequenceKind,
    pub auth: Vec<u8>,
    pub buffer: Vec<u8>,
}

impl Sequence {
    /// True when the data and the authorization value are not too long.
    pub open spec fn wf(&self) -> bool {
        &&& self.buffer@.len() <= MAX_SEQUENCE_BYTES
        &&& self.auth@.len() <= 64
        &&& self.kind matches SequenceKind::Hmac { key, .. } ==> key@.len() <= 0xFFFF
    }
}

/// What a sequence holds.
pub struct SequenceView {
    pub kind: SequenceKindView,
    pub auth: Seq<u8>,
    pub buffer: Seq<u8>,
}

/// What a sequence computes.
pub enum SequenceKindView {
    Hash { hash_alg: u16 },
    Hmac { hash_alg: u16, key: Seq<u8> },
    Event,
}

impl View for SequenceKind {
    type V = SequenceKindView;

    open spec fn view(&self) -> SequenceKindView {
        match self {
            SequenceKind::Hash { hash_alg } => SequenceKindView::Hash { hash_alg: *hash_alg },
            SequenceKind::Hmac { hash_alg, key } => SequenceKindView::Hmac {
                hash_alg: *hash_alg,
                key: key@,
            },
            SequenceKind::Event => SequenceKindView::Event,
        }
    }
}

impl View for Sequence {
    type V = SequenceView;

    open spec fn view(&self) -> SequenceView {
        SequenceView { kind: self.kind@, auth: self.auth@, buffer: self.buffer@ }
    }
}

/// What a transient handle names.
#[derive(Debug)]
pub enum Slot {
    Object(Box<Object>),
    Sequence(Box<Sequence>),
}

impl Slot {
    /// True when what is in the slot is fit to be used.
    pub open spec fn wf(&self) -> bool {
        match self {
            Slot::Object(o) => o.wf(),
            Slot::Sequence(s) => s.wf(),
        }
    }

    /// The Name, which a sequence has none of.
    pub open spec fn name_of(&self) -> Seq<u8> {
        match self {
            Slot::Object(o) => o.name@,
            Slot::Sequence(_) => Seq::empty(),
        }
    }

    /// The Name.
    pub fn name(&self) -> (r: Vec<u8>)
        ensures
            r@ == self.name_of(),
    {
        match self {
            Slot::Object(o) => to_vec(o.name.as_slice()),
            Slot::Sequence(_) => {
                let none: Vec<u8> = Vec::new();
                assert(none@ =~= Seq::<u8>::empty());
                none
            },
        }
    }

    /// The authorization value.
    pub open spec fn auth_of(&self) -> Seq<u8> {
        match self {
            Slot::Object(o) => o.auth_of(),
            Slot::Sequence(s) => s.auth@,
        }
    }

    /// The authorization value.
    pub fn auth_value(&self) -> (r: Vec<u8>)
        requires
            self.wf(),
        ensures
            r@ == self.auth_of(),
            r@.len() <= 64,
    {
        match self {
            Slot::Object(o) => o.auth_value(),
            Slot::Sequence(s) => to_vec(s.auth.as_slice()),
        }
    }
}

/// The transient slots.
#[derive(Debug)]
pub struct ObjectSlots {
    pub slots: HandleMap<Slot>,
}

impl ObjectSlots {
    /// Every handle is a transient one and what it names is fit to be used.
    #[verifier::opaque]
    pub open spec fn wf(&self) -> bool {
        &&& self.slots.wf()
        &&& forall|h: u32| #[trigger]
            self.slots@.contains_key(h) ==> is_transient(h) && self.slots@[h].wf()
    }

    /// True when `handle` names a loaded object.
    pub open spec fn has_object(&self, handle: u32) -> bool {
        self.slots@.contains_key(handle) && self.slots@[handle] is Object
    }

    /// The object `handle` names.
    pub open spec fn object_at(&self, handle: u32) -> Object {
        *(self.slots@[handle]->Object_0)
    }

    /// Nothing loaded.
    pub fn new() -> (r: ObjectSlots)
        ensures
            r.wf(),
            r.slots@ == Map::<u32, Slot>::empty(),
    {
        proof {
            reveal(ObjectSlots::wf);
        }
        ObjectSlots { slots: HandleMap::new() }
    }

    /// What `handle` names, or TPM_RC_HANDLE.
    pub fn get(&self, handle: u32) -> (r: TpmResult<&Slot>)
        requires
            self.wf(),
        ensures
            match r {
                Ok(s) => self.slots@.contains_key(handle) && *s == self.slots@[handle] && s.wf(),
                Err(e) => !self.slots@.contains_key(handle) && e == TpmRc(rc::HANDLE),
            },
    {
        proof {
            reveal(ObjectSlots::wf);
        }
        match self.slots.get(handle) {
            Some(s) => Ok(s),
            None => Err(TpmRc(rc::HANDLE)),
        }
    }

    /// What `handle` names, to change.
    pub fn get_mut(&mut self, handle: u32) -> (r: TpmResult<&mut Slot>)
        requires
            old(self).wf(),
        ensures
            match r {
                Ok(s) => {
                    &&& old(self).slots@.contains_key(handle)
                    &&& *s == old(self).slots@[handle] && s.wf()
                    &&& final(self).slots@ == old(self).slots@.insert(handle, *final(s))
                    &&& final(s).wf() ==> final(self).wf()
                },
                Err(e) => !old(self).slots@.contains_key(handle) && e == TpmRc(rc::HANDLE)
                    && *final(self) == *old(self),
            },
    {
        proof {
            reveal(ObjectSlots::wf);
        }
        match self.slots.get_mut(handle) {
            Some(s) => Ok(s),
            None => Err(TpmRc(rc::HANDLE)),
        }
    }

    /// The object `handle` names. TPM_RC_HANDLE when it names nothing, and
    /// TPM_RC_TYPE when it names a sequence.
    pub fn object(&self, handle: u32) -> (r: TpmResult<&Object>)
        requires
            self.wf(),
        ensures
            match r {
                Ok(o) => self.has_object(handle) && *o == self.object_at(handle) && o.wf(),
                Err(e) => !self.has_object(handle) && e == (if self.slots@.contains_key(handle) {
                    TpmRc(rc::TYPE)
                } else {
                    TpmRc(rc::HANDLE)
                }),
            },
    {
        proof {
            reveal(ObjectSlots::wf);
        }
        match self.slots.get(handle) {
            Some(s) => match s {
                Slot::Object(o) => Ok(o),
                Slot::Sequence(_) => Err(TpmRc(rc::TYPE)),
            },
            None => Err(TpmRc(rc::HANDLE)),
        }
    }

    /// The lowest transient handle that names nothing.
    pub open spec fn is_next(&self, handle: u32) -> bool {
        &&& hc::TRANSIENT_FIRST <= handle < hc::TRANSIENT_FIRST + config::MAX_LOADED_OBJECTS
        &&& !self.slots@.contains_key(handle)
        &&& forall|h: u32|
            hc::TRANSIENT_FIRST <= h < handle ==> #[trigger] self.slots@.contains_key(h)
    }

    /// True when another object may be loaded.
    pub open spec fn has_room(&self) -> bool {
        exists|h: u32| #[trigger] self.is_next(h)
    }

    /// The handle the next object gets, or TPM_RC_OBJECT_MEMORY when there is
    /// no room for it.
    pub fn next_handle(&self) -> (r: TpmResult<u32>)
        requires
            self.wf(),
        ensures
            r is Ok <==> self.has_room(),
            r matches Ok(h) ==> self.is_next(h),
            r matches Err(e) ==> e == TpmRc(rc::OBJECT_MEMORY),
    {
        proof {
            reveal(ObjectSlots::wf);
        }
        let mut n: u32 = 0;
        while n < config::MAX_LOADED_OBJECTS as u32
            invariant
                n <= config::MAX_LOADED_OBJECTS,
                self.wf(),
                forall|h: u32|
                    hc::TRANSIENT_FIRST <= h < hc::TRANSIENT_FIRST + n
                        ==> #[trigger] self.slots@.contains_key(h),
            decreases config::MAX_LOADED_OBJECTS - n,
        {
            proof {
                reveal(ObjectSlots::wf);
            }
            let h: u32 = hc::TRANSIENT_FIRST + n;
            if !self.slots.contains(h) {
                assert(self.is_next(h));
                return Ok(h);
            }
            n = n + 1;
        }
        assert forall|h: u32| !#[trigger] self.is_next(h) by {
            if self.is_next(h) {
                assert(self.slots@.contains_key(h));
            }
        }
        Err(TpmRc(rc::OBJECT_MEMORY))
    }

    /// Load an object or a sequence under the lowest free handle.
    pub fn insert(&mut self, slot: Slot) -> (r: TpmResult<u32>)
        requires
            old(self).wf(),
            slot.wf(),
        ensures
            final(self).wf(),
            r is Ok <==> old(self).has_room(),
            r matches Ok(h) ==> old(self).is_next(h) && final(self).slots@ == old(
                self,
            ).slots@.insert(h, slot),
            r matches Err(e) ==> e == TpmRc(rc::OBJECT_MEMORY) && *final(self) == *old(self),
    {
        proof {
            reveal(ObjectSlots::wf);
        }
        let h: u32 = self.next_handle()?;
        self.slots.insert(h, slot);
        Ok(h)
    }

    /// Take what `handle` names away, or TPM_RC_HANDLE.
    pub fn remove(&mut self, handle: u32) -> (r: TpmResult<()>)
        requires
            old(self).wf(),
        ensures
            final(self).wf(),
            r is Ok <==> old(self).slots@.contains_key(handle),
            r is Ok ==> final(self).slots@ == old(self).slots@.remove(handle),
            r matches Err(e) ==> e == TpmRc(rc::HANDLE) && *final(self) == *old(self),
    {
        proof {
            reveal(ObjectSlots::wf);
        }
        match self.slots.remove(handle) {
            Some(_) => Ok(()),
            None => Err(TpmRc(rc::HANDLE)),
        }
    }

    /// How many slots are taken.
    pub fn len(&self) -> (r: usize)
        requires
            self.wf(),
        ensures
            r == self.slots@.dom().len(),
    {
        proof {
            reveal(ObjectSlots::wf);
        }
        proof {
            self.slots.lemma_listed();
        }
        self.slots.len()
    }

    /// How many more objects may be loaded.
    pub fn available(&self) -> (r: usize)
        requires
            self.wf(),
        ensures
            r == (if self.slots@.dom().len() <= config::MAX_LOADED_OBJECTS {
                config::MAX_LOADED_OBJECTS - self.slots@.dom().len()
            } else {
                0
            }),
    {
        proof {
            reveal(ObjectSlots::wf);
        }
        let n: usize = self.len();
        if n <= config::MAX_LOADED_OBJECTS {
            config::MAX_LOADED_OBJECTS - n
        } else {
            0
        }
    }

    /// The handles that name something, in ascending order.
    pub fn handles(&self) -> (r: Vec<u32>)
        requires
            self.wf(),
        ensures
            forall|k: u32| r@.contains(k) <==> #[trigger] self.slots@.contains_key(k),
            forall|a: int, b: int| 0 <= a < b < r@.len() ==> #[trigger] r@[a] < #[trigger] r@[b],
    {
        proof {
            reveal(ObjectSlots::wf);
        }
        self.slots.keys()
    }

    /// True for an object of a hierarchy.
    pub open spec fn belongs(s: Slot, hierarchy: u32) -> bool {
        s matches Slot::Object(o) && o.hierarchy == hierarchy
    }

    /// Take every object of a hierarchy away.
    pub fn flush_hierarchy(&mut self, hierarchy: u32)
        requires
            old(self).wf(),
        ensures
            final(self).wf(),
            forall|h: u32| #[trigger]
                final(self).slots@.contains_key(h) <==> old(self).slots@.contains_key(h)
                    && !Self::belongs(old(self).slots@[h], hierarchy),
            forall|h: u32| #[trigger]
                final(self).slots@.contains_key(h) ==> final(self).slots@[h] == old(
                    self,
                ).slots@[h],
    {
        proof {
            reveal(ObjectSlots::wf);
        }
        let keys: Vec<u32> = self.slots.keys();
        let mut i: usize = 0;
        while i < keys.len()
            invariant
                i <= keys@.len(),
                self.wf(),
                forall|h: u32| keys@.contains(h) <==> #[trigger] old(self).slots@.contains_key(h),
                forall|h: u32| #[trigger]
                    self.slots@.contains_key(h) ==> old(self).slots@.contains_key(h)
                        && self.slots@[h] == old(self).slots@[h],
                forall|h: u32|
                    old(self).slots@.contains_key(h) && !Self::belongs(
                        old(self).slots@[h],
                        hierarchy,
                    ) ==> #[trigger] self.slots@.contains_key(h),
                forall|k: int|
                    0 <= k < i ==> (#[trigger] self.slots@.contains_key(keys@[k])
                        ==> !Self::belongs(old(self).slots@[keys@[k]], hierarchy)),
            decreases keys@.len() - i,
        {
            proof {
                reveal(ObjectSlots::wf);
            }
            let h: u32 = keys[i];
            let gone: bool = match self.slots.get(h) {
                Some(s) => match s {
                    Slot::Object(o) => o.hierarchy == hierarchy,
                    Slot::Sequence(_) => false,
                },
                None => false,
            };
            if gone {
                let _ = self.slots.remove(h);
            }
            i = i + 1;
        }
        assert forall|h: u32| #[trigger] self.slots@.contains_key(h) implies !Self::belongs(
            old(self).slots@[h],
            hierarchy,
        ) by {
            assert(keys@.contains(h));
            let k = choose|k: int| 0 <= k < keys@.len() && keys@[k] == h;
            assert(self.slots@.contains_key(keys@[k]));
        }
    }
}

} // verus!
