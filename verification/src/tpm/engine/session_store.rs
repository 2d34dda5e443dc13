//! The sessions a TPM keeps.

use vstd::prelude::*;

use super::handle_map::HandleMap;
use super::session::{handle_fits, Session};
use crate::tpm::config;
use crate::tpm::constants::range::is_session;
use crate::tpm::constants::{hc, rc, se};
use crate::tpm::error::{TpmRc, TpmResult};

verus! {

/// The sessions that are loaded, and those that are saved outside.
#[derive(Debug)]
pub struct SessionStore {
    pub loaded: HandleMap<Session>,
    /// The sequence number of the context each saved session was saved in.
    pub saved: HandleMap<u64>,
    /// The sequence number of the last context that was saved.
    pub counter: u64,
}

/// The handle of the session of type `t` with number `n`.
pub open spec fn session_handle(t: u8, n: int) -> u32 {
    if t == se::HMAC {
        (hc::HMAC_SESSION_FIRST + n) as u32
    } else {
        (hc::POLICY_SESSION_FIRST + n) as u32
    }
}

impl SessionStore {
    /// Every session is under its own handle and fit to be used, and none is
    /// both loaded and saved.
    #[verifier::opaque]
    pub open spec fn wf(&self) -> bool {
        &&& self.loaded.wf()
        &&& self.saved.wf()
        &&& forall|h: u32| #[trigger]
            self.loaded@.contains_key(h) ==> self.loaded@[h].wf() && self.loaded@[h].handle == h
                && handle_fits(h, self.loaded@[h].session_type)
        &&& forall|h: u32| #[trigger]
            self.saved@.contains_key(h) ==> is_session(h) && !self.loaded@.contains_key(h)
    }

    /// True for a session that is loaded or saved.
    pub open spec fn is_active(&self, handle: u32) -> bool {
        self.loaded@.contains_key(handle) || self.saved@.contains_key(handle)
    }

    /// True when no active session has number `n`, whatever its type.
    pub open spec fn is_free(&self, n: int) -> bool {
        !self.is_active(session_handle(se::HMAC, n)) && !self.is_active(session_handle(se::POLICY, n))
    }

    /// No sessions.
    pub fn new() -> (r: SessionStore)
        ensures
            r.wf(),
            r.loaded@ == Map::<u32, Session>::empty(),
            r.saved@ == Map::<u32, u64>::empty(),
            r.counter == 0,
    {
        proof {
            reveal(SessionStore::wf);
        }
        SessionStore { loaded: HandleMap::new(), saved: HandleMap::new(), counter: 0 }
    }

    /// The loaded session under `handle`, or TPM_RC_HANDLE.
    pub fn get(&self, handle: u32) -> (r: TpmResult<&Session>)
        requires
            self.wf(),
        ensures
            match r {
                Ok(s) => self.loaded@.contains_key(handle) && *s == self.loaded@[handle] && s.wf()
                    && s.handle == handle && is_session(handle),
                Err(e) => !self.loaded@.contains_key(handle) && e == TpmRc(rc::HANDLE),
            },
    {
        proof {
            reveal(SessionStore::wf);
        }
        match self.loaded.get(handle) {
            Some(s) => Ok(s),
            None => Err(TpmRc(rc::HANDLE)),
        }
    }

    /// The loaded session under `handle`, to change.
    pub fn get_mut(&mut self, handle: u32) -> (r: TpmResult<&mut Session>)
        requires
            old(self).wf(),
        ensures
            match r {
                Ok(s) => {
                    &&& old(self).loaded@.contains_key(handle)
                    &&& *s == old(self).loaded@[handle]
                    &&& s.wf() && s.handle == handle && is_session(handle)
                    &&& *final(self) == (SessionStore {
                        loaded: final(self).loaded,
                        ..*old(self)
                    })
                    &&& final(self).loaded@ == old(self).loaded@.insert(handle, *final(s))
                    &&& final(s).wf() && final(s).handle == handle && final(s).session_type
                        == s.session_type ==> final(self).wf()
                },
                Err(e) => !old(self).loaded@.contains_key(handle) && e == TpmRc(rc::HANDLE)
                    && *final(self) == *old(self),
            },
    {
        proof {
            reveal(SessionStore::wf);
        }
        match self.loaded.get_mut(handle) {
            Some(s) => Ok(s),
            None => Err(TpmRc(rc::HANDLE)),
        }
    }

    /// True when a session is loaded under `handle`.
    pub fn contains(&self, handle: u32) -> (r: bool)
        requires
            self.wf(),
        ensures
            r == self.loaded@.contains_key(handle),
    {
        proof {
            reveal(SessionStore::wf);
        }
        self.loaded.contains(handle)
    }

    /// How many sessions are active.
    pub fn active(&self) -> (r: usize)
        requires
            self.wf(),
        ensures
            r == (if self.loaded@.dom().len() + self.saved@.dom().len() > usize::MAX {
                usize::MAX as int
            } else {
                (self.loaded@.dom().len() + self.saved@.dom().len()) as int
            }),
    {
        proof {
            reveal(SessionStore::wf);
            self.loaded.lemma_listed();
            self.saved.lemma_listed();
        }
        self.loaded.len().saturating_add(self.saved.len())
    }

    /// The handles of the active sessions, ascending.
    pub fn active_handles(&self) -> (r: Vec<u32>)
        requires
            self.wf(),
        ensures
            crate::util::listing::ascending(r@),
            forall|h: u32| #[trigger] r@.contains(h) <==> self.is_active(h),
    {
        proof {
            reveal(SessionStore::wf);
        }
        let a: Vec<u32> = self.loaded.keys();
        let b: Vec<u32> = self.saved.keys();
        assert forall|x: u32| !(a@.contains(x) && b@.contains(x)) by {
            assert(a@.contains(x) ==> self.loaded@.contains_key(x));
            assert(b@.contains(x) ==> self.saved@.contains_key(x));
        }
        let out: Vec<u32> = crate::util::listing::merge(a.as_slice(), b.as_slice());
        assert forall|h: u32| #[trigger] out@.contains(h) <==> self.is_active(h) by {
            assert(a@.contains(h) <==> self.loaded@.contains_key(h));
            assert(b@.contains(h) <==> self.saved@.contains_key(h));
        }
        out
    }

    /// Take the active session under `handle` away, or TPM_RC_HANDLE.
    pub fn remove(&mut self, handle: u32) -> (r: TpmResult<()>)
        requires
            old(self).wf(),
        ensures
            final(self).wf(),
            r is Ok <==> old(self).is_active(handle),
            r matches Err(e) ==> e == TpmRc(rc::HANDLE) && *final(self) == *old(self),
            r is Ok ==> {
                &&& final(self).loaded@ == old(self).loaded@.remove(handle)
                &&& final(self).saved@ == old(self).saved@.remove(handle)
                &&& final(self).counter == old(self).counter
            },
    {
        proof {
            reveal(SessionStore::wf);
        }
        match self.loaded.remove(handle) {
            Some(_) => {
                assert(self.saved@ =~= old(self).saved@.remove(handle));
                Ok(())
            },
            None => match self.saved.remove(handle) {
                Some(_) => {
                    assert(self.loaded@ =~= old(self).loaded@.remove(handle));
                    Ok(())
                },
                None => Err(TpmRc(rc::HANDLE)),
            },
        }
    }

    /// The lowest session handle of type `t` that is not in use, or
    /// TPM_RC_SESSION_HANDLES.
    ///
    /// An HMAC session and a policy session do not share a number, so the low
    /// octets of a session handle name one session.
    pub fn allocate_handle(&self, t: u8) -> (r: TpmResult<u32>)
        requires
            self.wf(),
        ensures
            match r {
                Ok(h) => exists|n: int|
                    {
                        &&& 0 <= n < config::MAX_ACTIVE_SESSIONS
                        &&& #[trigger] self.is_free(n)
                        &&& h == session_handle(t, n)
                        &&& forall|m: int| 0 <= m < n ==> !#[trigger] self.is_free(m)
                    },
                Err(e) => e == TpmRc(rc::SESSION_HANDLES) && forall|m: int|
                    0 <= m < config::MAX_ACTIVE_SESSIONS ==> !#[trigger] self.is_free(m),
            },
            r matches Ok(h) ==> handle_fits(h, t) && !self.is_active(h),
    {
        proof {
            reveal(SessionStore::wf);
        }
        let mut n: u32 = 0;
        while n < config::MAX_ACTIVE_SESSIONS as u32
            invariant
                self.wf(),
                n <= config::MAX_ACTIVE_SESSIONS,
                forall|m: int| 0 <= m < n ==> !#[trigger] self.is_free(m),
            decreases config::MAX_ACTIVE_SESSIONS - n,
        {
            proof {
                reveal(SessionStore::wf);
            }
            let a: u32 = hc::HMAC_SESSION_FIRST + n;
            let b: u32 = hc::POLICY_SESSION_FIRST + n;
            if !self.loaded.contains(a) && !self.saved.contains(a) && !self.loaded.contains(b)
                && !self.saved.contains(b) {
                assert(self.is_free(n as int));
                return Ok(
                    if t == se::HMAC {
                        a
                    } else {
                        b
                    },
                );
            }
            assert(!self.is_free(n as int));
            n = n + 1;
        }
        Err(TpmRc(rc::SESSION_HANDLES))
    }

    /// True when another session may be loaded.
    pub open spec fn has_room(&self) -> bool {
        self.loaded@.dom().len() < config::MAX_LOADED_SESSIONS
    }

    /// How many sessions are loaded.
    pub fn len(&self) -> (r: usize)
        requires
            self.wf(),
        ensures
            r == self.loaded@.dom().len(),
    {
        proof {
            reveal(SessionStore::wf);
        }
        proof {
            self.loaded.lemma_listed();
        }
        self.loaded.len()
    }

    /// Load a session under its own handle.
    ///
    /// TPM_RC_SESSION_MEMORY when there is no room for another.
    pub fn insert(&mut self, session: Session) -> (r: TpmResult<u32>)
        requires
            old(self).wf(),
            session.wf(),
            handle_fits(session.handle, session.session_type),
            !old(self).saved@.contains_key(session.handle),
        ensures
            final(self).wf(),
            r is Ok <==> old(self).has_room(),
            r matches Ok(h) ==> {
                &&& h == session.handle
                &&& *final(self) == (SessionStore { loaded: final(self).loaded, ..*old(self) })
                &&& final(self).loaded@ == old(self).loaded@.insert(session.handle, session)
            },
            r matches Err(e) ==> e == TpmRc(rc::SESSION_MEMORY) && *final(self) == *old(self),
    {
        proof {
            reveal(SessionStore::wf);
        }
        if self.len() >= config::MAX_LOADED_SESSIONS {
            return Err(TpmRc(rc::SESSION_MEMORY));
        }
        let handle: u32 = session.handle;
        self.loaded.insert(handle, session);
        Ok(handle)
    }

    /// The sequence number the next saved context gets, or
    /// TPM_RC_TOO_MANY_CONTEXTS when there is none left.
    pub fn next_context_id(&self) -> (r: TpmResult<u64>)
        ensures
            r is Ok <==> self.counter < u64::MAX,
            r matches Ok(n) ==> n == self.counter + 1,
            r matches Err(e) ==> e == TpmRc(rc::TOO_MANY_CONTEXTS),
    {
        if self.counter == u64::MAX {
            Err(TpmRc(rc::TOO_MANY_CONTEXTS))
        } else {
            Ok(self.counter + 1)
        }
    }

    /// The sequence number of the last context that was saved.
    pub fn context_counter(&self) -> (r: u64)
        ensures
            r == self.counter,
    {
        self.counter
    }

    /// Take the loaded session under `handle` out of memory, saved in the
    /// context with sequence number `id`.
    pub fn save(&mut self, handle: u32, id: u64) -> (r: TpmResult<()>)
        requires
            old(self).wf(),
        ensures
            final(self).wf(),
            r is Ok <==> old(self).loaded@.contains_key(handle),
            r matches Err(e) ==> e == TpmRc(rc::HANDLE) && *final(self) == *old(self),
            r is Ok ==> {
                &&& final(self).loaded@ == old(self).loaded@.remove(handle)
                &&& final(self).saved@ == old(self).saved@.insert(handle, id)
                &&& final(self).counter == id
            },
    {
        proof {
            reveal(SessionStore::wf);
        }
        match self.loaded.remove(handle) {
            Some(_) => {
                self.saved.insert(handle, id);
                self.counter = id;
                Ok(())
            },
            None => Err(TpmRc(rc::HANDLE)),
        }
    }

    /// Note that an object was saved in the context with sequence number `id`.
    pub fn note_context(&mut self, id: u64)
        ensures
            *final(self) == (SessionStore { counter: id, ..*old(self) }),
    {
        self.counter = id;
    }

    /// Load a saved session again.
    ///
    /// TPM_RC_HANDLE when the session is not a saved one, and
    /// TPM_RC_SESSION_MEMORY when there is no room for it.
    pub fn restore(&mut self, session: Session) -> (r: TpmResult<u32>)
        requires
            old(self).wf(),
            session.wf(),
            handle_fits(session.handle, session.session_type),
        ensures
            final(self).wf(),
            r is Ok <==> old(self).saved@.contains_key(session.handle) && old(self).has_room(),
            r matches Ok(h) ==> {
                &&& h == session.handle
                &&& final(self).loaded@ == old(self).loaded@.insert(session.handle, session)
                &&& final(self).saved@ == old(self).saved@.remove(session.handle)
                &&& final(self).counter == old(self).counter
            },
            r matches Err(e) ==> *final(self) == *old(self) && e == (if old(
                self,
            ).saved@.contains_key(session.handle) {
                TpmRc(rc::SESSION_MEMORY)
            } else {
                TpmRc(rc::HANDLE)
            }),
    {
        proof {
            reveal(SessionStore::wf);
        }
        if !self.saved.contains(session.handle) {
            return Err(TpmRc(rc::HANDLE));
        }
        if self.len() >= config::MAX_LOADED_SESSIONS {
            return Err(TpmRc(rc::SESSION_MEMORY));
        }
        let handle: u32 = session.handle;
        let _ = self.saved.remove(handle);
        self.loaded.insert(handle, session);
        Ok(handle)
    }

    /// The active session that `handle` names: the one under the handle itself,
    /// or else the one whose number is in its low octets.
    pub open spec fn named_by(&self, handle: u32) -> Option<u32> {
        let n = (handle & 0x00FF_FFFF) as int;
        if self.is_active(handle) {
            Some(handle)
        } else if self.is_active(session_handle(se::HMAC, n)) {
            Some(session_handle(se::HMAC, n))
        } else if self.is_active(session_handle(se::POLICY, n)) {
            Some(session_handle(se::POLICY, n))
        } else {
            None
        }
    }

    /// The active session that `handle` names.
    pub fn aliased(&self, handle: u32) -> (r: Option<u32>)
        requires
            self.wf(),
        ensures
            r == self.named_by(handle),
    {
        proof {
            reveal(SessionStore::wf);
        }
        let n: u32 = handle & 0x00FF_FFFF;
        assert(handle & 0x00FF_FFFF <= 0x00FF_FFFF) by (bit_vector);
        let a: u32 = hc::HMAC_SESSION_FIRST + n;
        let b: u32 = hc::POLICY_SESSION_FIRST + n;
        if self.loaded.contains(handle) || self.saved.contains(handle) {
            Some(handle)
        } else if self.loaded.contains(a) || self.saved.contains(a) {
            Some(a)
        } else if self.loaded.contains(b) || self.saved.contains(b) {
            Some(b)
        } else {
            None
        }
    }

    /// Take away every loaded session that is bound to `entity`.
    pub fn flush_bound_to(&mut self, entity: u32)
        requires
            old(self).wf(),
        ensures
            final(self).wf(),
            *final(self) == (SessionStore { loaded: final(self).loaded, ..*old(self) }),
            forall|h: u32| #[trigger]
                final(self).loaded@.contains_key(h) <==> old(self).loaded@.contains_key(h) && old(
                    self,
                ).loaded@[h].bind != entity,
            forall|h: u32| #[trigger]
                final(self).loaded@.contains_key(h) ==> final(self).loaded@[h] == old(
                    self,
                ).loaded@[h],
    {
        proof {
            reveal(SessionStore::wf);
        }
        let keys: Vec<u32> = self.loaded.keys();
        let mut i: usize = 0;
        while i < keys.len()
            invariant
                i <= keys@.len(),
                self.wf(),
                *self == (SessionStore { loaded: self.loaded, ..*old(self) }),
                forall|h: u32| #[trigger] old(self).loaded@.contains_key(h) <==> keys@.contains(h),
                forall|a: int, b: int|
                    0 <= a < b < keys@.len() ==> #[trigger] keys@[a] < #[trigger] keys@[b],
                forall|h: u32| #[trigger]
                    self.loaded@.contains_key(h) <==> old(self).loaded@.contains_key(h) && (old(
                        self,
                    ).loaded@[h].bind != entity || !keys@.take(i as int).contains(h)),
                forall|h: u32| #[trigger]
                    self.loaded@.contains_key(h) ==> self.loaded@[h] == old(self).loaded@[h],
            decreases keys@.len() - i,
        {
            proof {
                reveal(SessionStore::wf);
            }
            let h: u32 = keys[i];
            let ghost before = self.loaded@;
            assert(keys@.contains(h));
            assert(!keys@.take(i as int).contains(h));
            assert(self.loaded@.contains_key(h));
            let bound: bool = match self.loaded.get(h) {
                Some(s) => s.bind == entity,
                None => false,
            };
            if bound {
                let _ = self.loaded.remove(h);
            }
            assert forall|x: u32| #[trigger]
                keys@.take(i + 1).contains(x) <==> keys@.take(i as int).contains(x) || x == h by {
                assert(keys@.take(i + 1) =~= keys@.take(i as int).push(h));
                if keys@.take(i as int).contains(x) {
                    let j = choose|j: int| 0 <= j < i && keys@.take(i as int)[j] == x;
                    assert(keys@.take(i + 1)[j] == x);
                }
                assert(keys@.take(i + 1)[i as int] == h);
            }
            i = i + 1;
        }
        assert(keys@.take(keys@.len() as int) =~= keys@);
    }
}

} // verus!
