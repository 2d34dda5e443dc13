//! The NV Indices a TPM keeps.

use vstd::prelude::*;

use super::handle_map::HandleMap;
use super::nv::NvIndex;
use crate::tpm::config;
use crate::tpm::constants::{nt, rc};
use crate::tpm::error::{TpmRc, TpmResult};
use crate::tpm::structures::attributes::NvAttributes;
use crate::tpm::structures::nv::NvPublic;

verus! {

/// The NV Indices that are defined.
#[derive(Debug)]
pub struct NvStore {
    pub indices: HandleMap<NvIndex>,
}

/// Octets the Indices take.
pub open spec fn total(s: Seq<(u32, NvIndex)>) -> int
    decreases s.len(),
{
    if s.len() == 0 {
        0
    } else {
        total(s.drop_last()) + s.last().1.public.data_size
    }
}

/// How many of the Indices are counters.
pub open spec fn counters(s: Seq<(u32, NvIndex)>) -> int
    decreases s.len(),
{
    if s.len() == 0 {
        0
    } else {
        counters(s.drop_last()) + (if s.last().1.index_type() == nt::COUNTER {
            1int
        } else {
            0
        })
    }
}

proof fn lemma_total_insert(s: Seq<(u32, NvIndex)>, i: int, e: (u32, NvIndex))
    requires
        0 <= i <= s.len(),
    ensures
        total(s.insert(i, e)) == total(s) + e.1.public.data_size,
    decreases s.len(),
{
    let t = s.insert(i, e);
    if i == s.len() {
        assert(t.drop_last() =~= s);
    } else {
        assert(t.drop_last() =~= s.drop_last().insert(i, e));
        lemma_total_insert(s.drop_last(), i, e);
    }
}

proof fn lemma_total_update(s: Seq<(u32, NvIndex)>, i: int, e: (u32, NvIndex))
    requires
        0 <= i < s.len(),
    ensures
        total(s.update(i, e)) == total(s) + e.1.public.data_size - s[i].1.public.data_size,
    decreases s.len(),
{
    let t = s.update(i, e);
    if i == s.len() - 1 {
        assert(t.drop_last() =~= s.drop_last());
    } else {
        assert(t.drop_last() =~= s.drop_last().update(i, e));
        lemma_total_update(s.drop_last(), i, e);
    }
}

proof fn lemma_total_take(s: Seq<(u32, NvIndex)>, n: int)
    requires
        0 <= n <= s.len(),
    ensures
        0 <= total(s.take(n)) <= total(s),
        0 <= counters(s.take(n)) <= n,
    decreases s.len(),
{
    if n == s.len() {
        assert(s.take(n) =~= s);
        if s.len() > 0 {
            lemma_total_take(s.drop_last(), n - 1);
            assert(s.drop_last().take(n - 1) =~= s.drop_last());
        }
    } else {
        lemma_total_take(s.drop_last(), n);
        assert(s.drop_last().take(n) =~= s.take(n));
    }
}

/// The Index locked against writes.
pub open spec fn write_locked(i: NvIndex) -> NvIndex {
    NvIndex {
        write_locked: true,
        public: NvPublic {
            attributes: i.public.attributes.put(NvAttributes::WRITELOCKED, true),
            ..i.public
        },
        ..i
    }
}

/// The Index after TPM2_NV_GlobalWriteLock.
pub open spec fn globally_locked(i: NvIndex) -> NvIndex {
    if i.public.attributes.has(NvAttributes::GLOBALLOCK) {
        write_locked(i)
    } else {
        i
    }
}

/// The Index without its read lock, where that goes away at a startup.
pub open spec fn read_unlocked(i: NvIndex) -> NvIndex {
    if i.public.attributes.has(NvAttributes::READ_STCLEAR) {
        NvIndex {
            read_locked: false,
            public: NvPublic {
                attributes: i.public.attributes.put(NvAttributes::READLOCKED, false),
                ..i.public
            },
            ..i
        }
    } else {
        i
    }
}

/// The Index without its write lock, where that goes away at a startup.
pub open spec fn write_unlocked(i: NvIndex) -> NvIndex {
    if i.public.attributes.has(NvAttributes::WRITE_STCLEAR) && !i.public.attributes.has(
        NvAttributes::WRITEDEFINE,
    ) {
        NvIndex {
            write_locked: false,
            public: NvPublic {
                attributes: i.public.attributes.put(NvAttributes::WRITELOCKED, false),
                ..i.public
            },
            ..i
        }
    } else {
        i
    }
}

/// The Index not written, where what it holds goes away at a startup.
pub open spec fn unwritten(i: NvIndex) -> NvIndex {
    if i.public.attributes.has(NvAttributes::CLEAR_STCLEAR) {
        NvIndex {
            public: NvPublic {
                attributes: i.public.attributes.put(NvAttributes::WRITTEN, false),
                ..i.public
            },
            ..i
        }
    } else {
        i
    }
}

/// The Index after a TPM Reset or a TPM Restart.
pub open spec fn restarted(i: NvIndex) -> NvIndex {
    unwritten(write_unlocked(read_unlocked(i)))
}

impl NvStore {
    /// Every Index is under its own handle and fit to be used, and together
    /// they fit the memory there is.
    #[verifier::opaque]
    pub open spec fn wf(&self) -> bool {
        &&& self.indices.wf()
        &&& forall|h: u32| #[trigger]
            self.indices@.contains_key(h) ==> self.indices@[h].wf()
                && self.indices@[h].public.nv_index == h
        &&& total(self.indices.listed()) <= config::NV_MEMORY_SIZE
    }

    /// No Indices.
    pub fn new() -> (r: NvStore)
        ensures
            r.wf(),
            r.indices@ == Map::<u32, NvIndex>::empty(),
    {
        proof {
            reveal(NvStore::wf);
        }
        let indices: HandleMap<NvIndex> = HandleMap::new();
        proof {
            indices.lemma_listed();
        }
        NvStore { indices }
    }

    /// The Index `handle` names, or TPM_RC_HANDLE.
    pub fn get(&self, handle: u32) -> (r: TpmResult<&NvIndex>)
        requires
            self.wf(),
        ensures
            match r {
                Ok(i) => self.indices@.contains_key(handle) && *i == self.indices@[handle] && i.wf()
                    && i.public.nv_index == handle,
                Err(e) => !self.indices@.contains_key(handle) && e == TpmRc(rc::HANDLE),
            },
    {
        proof {
            reveal(NvStore::wf);
        }
        match self.indices.get(handle) {
            Some(i) => Ok(i),
            None => Err(TpmRc(rc::HANDLE)),
        }
    }

    /// True when `handle` names an Index.
    pub fn contains(&self, handle: u32) -> (r: bool)
        requires
            self.wf(),
        ensures
            r == self.indices@.contains_key(handle),
    {
        proof {
            reveal(NvStore::wf);
        }
        self.indices.contains(handle)
    }

    /// Put `index` in place of the Index with its handle.
    pub open spec fn replaced(&self, before: NvStore, handle: u32, index: NvIndex) -> bool {
        self.indices@ == before.indices@.insert(handle, index)
    }

    /// The Index `handle` names, to change.
    pub fn get_mut(&mut self, handle: u32) -> (r: TpmResult<&mut NvIndex>)
        requires
            old(self).wf(),
        ensures
            match r {
                Ok(i) => {
                    &&& old(self).indices@.contains_key(handle)
                    &&& *i == old(self).indices@[handle]
                    &&& i.wf() && i.public.nv_index == handle
                    &&& final(self).replaced(*old(self), handle, *final(i))
                    &&& final(i).wf() && final(i).public.nv_index == handle
                        && final(i).public.data_size == i.public.data_size ==> final(self).wf()
                },
                Err(e) => !old(self).indices@.contains_key(handle) && e == TpmRc(rc::HANDLE)
                    && *final(self) == *old(self),
            },
    {
        proof {
            reveal(NvStore::wf);
        }
        let ghost before = self.indices.listed();
        proof {
            self.indices.lemma_listed();
            assert forall|i: int, e: (u32, NvIndex)| 0 <= i < before.len() implies total(
                #[trigger] before.update(i, e),
            ) == total(before) + e.1.public.data_size - before[i].1.public.data_size by {
                lemma_total_update(before, i, e);
            }
        }
        match self.indices.get_mut(handle) {
            Some(i) => Ok(i),
            None => Err(TpmRc(rc::HANDLE)),
        }
    }

    /// Octets the Indices take.
    pub fn used(&self) -> (r: usize)
        requires
            self.wf(),
        ensures
            r == total(self.indices.listed()),
            r <= config::NV_MEMORY_SIZE,
    {
        proof {
            reveal(NvStore::wf);
        }
        let n: usize = self.indices.len();
        let mut sum: usize = 0;
        let mut i: usize = 0;
        let ghost s = self.indices.listed();
        while i < n
            invariant
                self.wf(),
                s == self.indices.listed(),
                n == s.len(),
                i <= n,
                sum == total(s.take(i as int)),
                total(s) <= config::NV_MEMORY_SIZE,
            decreases n - i,
        {
            proof {
                reveal(NvStore::wf);
            }
            proof {
                lemma_total_take(s, i + 1);
                assert(s.take(i + 1).drop_last() =~= s.take(i as int));
            }
            sum = sum + self.indices.entry(i).1.public.data_size as usize;
            i = i + 1;
        }
        assert(s.take(n as int) =~= s);
        sum
    }

    /// How many counters are defined.
    pub fn counter_count(&self) -> (r: usize)
        requires
            self.wf(),
        ensures
            r == counters(self.indices.listed()),
    {
        proof {
            reveal(NvStore::wf);
        }
        let n: usize = self.indices.len();
        let mut count: usize = 0;
        let mut i: usize = 0;
        let ghost s = self.indices.listed();
        while i < n
            invariant
                self.wf(),
                s == self.indices.listed(),
                n == s.len(),
                i <= n,
                count <= i,
                count == counters(s.take(i as int)),
            decreases n - i,
        {
            proof {
                reveal(NvStore::wf);
            }
            proof {
                assert(s.take(i + 1).drop_last() =~= s.take(i as int));
            }
            if self.indices.entry(i).1.index_type() == nt::COUNTER {
                count = count + 1;
            }
            i = i + 1;
        }
        assert(s.take(n as int) =~= s);
        count
    }

    /// How many Indices are defined.
    pub fn len(&self) -> (r: usize)
        requires
            self.wf(),
        ensures
            r == self.indices@.dom().len(),
    {
        proof {
            reveal(NvStore::wf);
        }
        proof {
            self.indices.lemma_listed();
        }
        self.indices.len()
    }

    /// True when an Index of `size` octets still fits.
    pub open spec fn has_room(&self, size: u16) -> bool {
        total(self.indices.listed()) + size <= config::NV_MEMORY_SIZE
    }

    /// Define an Index.
    ///
    /// TPM_RC_NV_DEFINED when its handle is taken, and TPM_RC_NV_SPACE when
    /// there is no room for it.
    pub fn define(&mut self, index: NvIndex) -> (r: TpmResult<()>)
        requires
            old(self).wf(),
            index.wf(),
        ensures
            final(self).wf(),
            r is Ok <==> !old(self).indices@.contains_key(index.public.nv_index) && old(
                self,
            ).has_room(index.public.data_size),
            r is Ok ==> final(self).indices@ == old(self).indices@.insert(
                index.public.nv_index,
                index,
            ),
            r matches Err(e) ==> *final(self) == *old(self) && e == (if old(
                self,
            ).indices@.contains_key(index.public.nv_index) {
                TpmRc(rc::NV_DEFINED)
            } else {
                TpmRc(rc::NV_SPACE)
            }),
    {
        proof {
            reveal(NvStore::wf);
        }
        if self.indices.contains(index.public.nv_index) {
            return Err(TpmRc(rc::NV_DEFINED));
        }
        let size: usize = index.public.data_size as usize;
        if size > config::NV_MEMORY_SIZE - self.used() {
            return Err(TpmRc(rc::NV_SPACE));
        }
        let ghost before = self.indices.listed();
        let handle: u32 = index.public.nv_index;
        self.indices.insert(handle, index);
        proof {
            let after = self.indices.listed();
            let i = choose|i: int|
                0 <= i <= before.len() && after == #[trigger] before.insert(i, (handle, index));
            lemma_total_insert(before, i, (handle, index));
        }
        Ok(())
    }

    /// Take an Index away, or TPM_RC_HANDLE.
    pub fn undefine(&mut self, handle: u32) -> (r: TpmResult<()>)
        requires
            old(self).wf(),
        ensures
            final(self).wf(),
            r is Ok <==> old(self).indices@.contains_key(handle),
            r is Ok ==> final(self).indices@ == old(self).indices@.remove(handle),
            r matches Err(e) ==> *final(self) == *old(self) && e == TpmRc(rc::HANDLE),
    {
        proof {
            reveal(NvStore::wf);
        }
        let ghost before = self.indices.listed();
        match self.indices.remove(handle) {
            Some(index) => {
                proof {
                    let after = self.indices.listed();
                    let i = choose|i: int|
                        0 <= i <= after.len() && before == #[trigger] after.insert(
                            i,
                            (handle, index),
                        );
                    lemma_total_insert(after, i, (handle, index));
                }
                Ok(())
            },
            None => Err(TpmRc(rc::HANDLE)),
        }
    }

    /// The handles of the Indices, in ascending order.
    pub fn handles(&self) -> (r: Vec<u32>)
        requires
            self.wf(),
        ensures
            forall|k: u32| r@.contains(k) <==> #[trigger] self.indices@.contains_key(k),
            forall|a: int, b: int| 0 <= a < b < r@.len() ==> #[trigger] r@[a] < #[trigger] r@[b],
    {
        proof {
            reveal(NvStore::wf);
        }
        self.indices.keys()
    }

    /// Lock every Index that TPM2_NV_GlobalWriteLock reaches.
    pub fn global_write_lock(&mut self)
        requires
            old(self).wf(),
        ensures
            final(self).wf(),
            forall|h: u32| #[trigger]
                final(self).indices@.contains_key(h) <==> old(self).indices@.contains_key(h),
            forall|h: u32| #[trigger]
                old(self).indices@.contains_key(h) ==> final(self).indices@[h] == globally_locked(
                    old(self).indices@[h],
                ),
    {
        proof {
            reveal(NvStore::wf);
        }
        let keys: Vec<u32> = self.indices.keys();
        let mut i: usize = 0;
        while i < keys.len()
            invariant
                i <= keys@.len(),
                self.wf(),
                forall|h: u32| keys@.contains(h) <==> #[trigger] old(self).indices@.contains_key(h),
                forall|a: int, b: int|
                    0 <= a < b < keys@.len() ==> #[trigger] keys@[a] < #[trigger] keys@[b],
                forall|h: u32| #[trigger]
                    self.indices@.contains_key(h) <==> old(self).indices@.contains_key(h),
                forall|k: int|
                    0 <= k < i ==> self.indices@[#[trigger] keys@[k]] == globally_locked(
                        old(self).indices@[keys@[k]],
                    ),
                forall|k: int|
                    i <= k < keys@.len() ==> self.indices@[#[trigger] keys@[k]] == old(
                        self,
                    ).indices@[keys@[k]],
            decreases keys@.len() - i,
        {
            proof {
                reveal(NvStore::wf);
            }
            let h: u32 = keys[i];
            assert(keys@.contains(h));
            assert(self.indices@.contains_key(h));
            assert(self.indices@[keys@[i as int]] == old(self).indices@[h]);
            if let Ok(index) = self.get_mut(h) {
                if index.public.attributes.has(NvAttributes::GLOBALLOCK) {
                    index.set_write_lock(true);
                }
            }
            i = i + 1;
        }
        assert forall|h: u32| #[trigger] old(self).indices@.contains_key(h) implies self.indices@[h]
            == globally_locked(old(self).indices@[h]) by {
            let k = choose|k: int| 0 <= k < keys@.len() && keys@[k] == h;
            assert(self.indices@[keys@[k]] == globally_locked(old(self).indices@[keys@[k]]));
        }
    }

    /// Do to every Index what a TPM Reset or a TPM Restart does to it.
    pub fn restart(&mut self)
        requires
            old(self).wf(),
        ensures
            final(self).wf(),
            forall|h: u32| #[trigger]
                final(self).indices@.contains_key(h) <==> old(self).indices@.contains_key(h),
            forall|h: u32| #[trigger]
                old(self).indices@.contains_key(h) ==> final(self).indices@[h] == restarted(
                    old(self).indices@[h],
                ),
    {
        proof {
            reveal(NvStore::wf);
        }
        let keys: Vec<u32> = self.indices.keys();
        let mut i: usize = 0;
        while i < keys.len()
            invariant
                i <= keys@.len(),
                self.wf(),
                forall|h: u32| keys@.contains(h) <==> #[trigger] old(self).indices@.contains_key(h),
                forall|a: int, b: int|
                    0 <= a < b < keys@.len() ==> #[trigger] keys@[a] < #[trigger] keys@[b],
                forall|h: u32| #[trigger]
                    self.indices@.contains_key(h) <==> old(self).indices@.contains_key(h),
                forall|k: int|
                    0 <= k < i ==> self.indices@[#[trigger] keys@[k]] == restarted(
                        old(self).indices@[keys@[k]],
                    ),
                forall|k: int|
                    i <= k < keys@.len() ==> self.indices@[#[trigger] keys@[k]] == old(
                        self,
                    ).indices@[keys@[k]],
            decreases keys@.len() - i,
        {
            proof {
                reveal(NvStore::wf);
            }
            let h: u32 = keys[i];
            assert(keys@.contains(h));
            assert(self.indices@.contains_key(h));
            assert(self.indices@[keys@[i as int]] == old(self).indices@[h]);
            if let Ok(index) = self.get_mut(h) {
                if index.public.attributes.has(NvAttributes::READ_STCLEAR) {
                    index.set_read_lock(false);
                }
                if index.public.attributes.has(NvAttributes::WRITE_STCLEAR)
                    && !index.public.attributes.has(NvAttributes::WRITEDEFINE) {
                    index.set_write_lock(false);
                }
                if index.public.attributes.has(NvAttributes::CLEAR_STCLEAR) {
                    index.forget();
                }
            }
            i = i + 1;
        }
        assert forall|h: u32| #[trigger] old(self).indices@.contains_key(h) implies self.indices@[h]
            == restarted(old(self).indices@[h]) by {
            let k = choose|k: int| 0 <= k < keys@.len() && keys@[k] == h;
            assert(self.indices@[keys@[k]] == restarted(old(self).indices@[keys@[k]]));
        }
    }

    /// Take away every Index the platform did not create.
    pub fn clear_owner(&mut self)
        requires
            old(self).wf(),
        ensures
            final(self).wf(),
            forall|h: u32| #[trigger]
                final(self).indices@.contains_key(h) <==> old(self).indices@.contains_key(h) && old(
                    self,
                ).indices@[h].public.attributes.has(NvAttributes::PLATFORMCREATE),
            forall|h: u32| #[trigger]
                final(self).indices@.contains_key(h) ==> final(self).indices@[h] == old(
                    self,
                ).indices@[h],
    {
        proof {
            reveal(NvStore::wf);
        }
        let keys: Vec<u32> = self.indices.keys();
        let mut i: usize = 0;
        while i < keys.len()
            invariant
                i <= keys@.len(),
                self.wf(),
                forall|h: u32| keys@.contains(h) <==> #[trigger] old(self).indices@.contains_key(h),
                forall|h: u32| #[trigger]
                    self.indices@.contains_key(h) ==> old(self).indices@.contains_key(h)
                        && self.indices@[h] == old(self).indices@[h],
                forall|h: u32|
                    old(self).indices@.contains_key(h) && old(
                        self,
                    ).indices@[h].public.attributes.has(NvAttributes::PLATFORMCREATE)
                        ==> #[trigger] self.indices@.contains_key(h),
                forall|k: int|
                    0 <= k < i ==> (#[trigger] self.indices@.contains_key(keys@[k]) ==> old(
                        self,
                    ).indices@[keys@[k]].public.attributes.has(NvAttributes::PLATFORMCREATE)),
            decreases keys@.len() - i,
        {
            proof {
                reveal(NvStore::wf);
            }
            let h: u32 = keys[i];
            let gone: bool = match self.get(h) {
                Ok(index) => !index.public.attributes.has(NvAttributes::PLATFORMCREATE),
                Err(_) => false,
            };
            if gone {
                let _ = self.undefine(h);
            }
            i = i + 1;
        }
        assert forall|h: u32| #[trigger] self.indices@.contains_key(h) implies old(
            self,
        ).indices@[h].public.attributes.has(NvAttributes::PLATFORMCREATE) by {
            assert(keys@.contains(h));
            let k = choose|k: int| 0 <= k < keys@.len() && keys@[k] == h;
            assert(self.indices@.contains_key(keys@[k]));
        }
    }
}

} // verus!
