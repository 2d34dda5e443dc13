//! A TPM with what the platform does to it: power, storage, presence and the
//! H-CRTM event sequence.

use vstd::prelude::*;

use super::commands::execute::{responded, run};
use super::engine::pcr::{
    bank_extended, counts, next_count, spec_admits, spec_extend_localities, BankView,
};
use super::engine::state::{passed, TpmState};
use super::error::TpmResult;

verus! {

/// The register that an event sequence after startup goes to.
pub const DYNAMIC_REGISTER: u16 = 17;

/// The locality that an event sequence has.
pub const EVENT_LOCALITY: u8 = 4;

/// A TPM and the platform it is part of.
pub struct Machine {
    pub state: TpmState,
    pub powered: bool,
    /// The locality of the last command.
    pub locality: u8,
    /// Set by the first event sequence.
    pub established: bool,
    /// The octets of an event sequence that is under way.
    pub measured: Option<Vec<u8>>,
}

/// The register that an event sequence goes to: before startup it measures the
/// core root of trust of the host.
pub open spec fn event_register(state: TpmState) -> u16 {
    if state.started {
        DYNAMIC_REGISTER
    } else {
        0
    }
}

impl Machine {
    /// A TPM that has no power yet.
    pub fn new(state: TpmState) -> (r: Machine)
        ensures
            r == (Machine {
                state,
                powered: false,
                locality: 0,
                established: false,
                measured: None,
            }),
    {
        Machine { state, powered: false, locality: 0, established: false, measured: None }
    }

    /// Run a command `elapsed` milliseconds after the last one. Without power
    /// there is no answer.
    pub fn execute(&mut self, elapsed: u64, locality: u8, command: &[u8]) -> (r: Vec<u8>)
        requires
            old(self).state.wf(),
        ensures
            final(self).state.wf(),
            *final(self) == (Machine { state: final(self).state, locality, ..*old(self) }),
            ({
                let before = TpmState {
                    clock: passed(old(self).state.clock, elapsed),
                    ..old(self).state
                };
                if old(self).powered {
                    responded(final(self).state, before, locality, command@, r@)
                } else {
                    final(self).state == before && r@.len() == 0
                }
            }),
    {
        self.state.clock.advance(elapsed);
        self.locality = locality;
        if self.powered {
            run(&mut self.state, locality, command)
        } else {
            Vec::new()
        }
    }

    /// Apply power. A TPM that has it already is left alone.
    pub fn power_on(&mut self)
        ensures
            *final(self) == (Machine {
                powered: true,
                state: TpmState {
                    started: old(self).powered && old(self).state.started,
                    ..old(self).state
                },
                ..*old(self)
            }),
    {
        if !self.powered {
            self.powered = true;
            self.state.started = false;
        }
    }

    /// Remove power. An event sequence that is under way is lost.
    pub fn power_off(&mut self)
        ensures
            *final(self) == (Machine {
                powered: false,
                state: TpmState { started: false, ..old(self).state },
                measured: None,
                ..*old(self)
            }),
    {
        self.powered = false;
        self.state.started = false;
        self.measured = None;
    }

    /// Make storage available, or take it away.
    pub fn set_storage(&mut self, available: bool)
        ensures
            *final(self) == (Machine {
                state: TpmState { nv_available: available, ..old(self).state },
                ..*old(self)
            }),
    {
        self.state.nv_available = available;
    }

    /// Assert or deassert physical presence.
    pub fn set_presence(&mut self, asserted: bool)
        ensures
            *final(self) == (Machine {
                state: TpmState { physical_presence: asserted, ..old(self).state },
                ..*old(self)
            }),
    {
        self.state.physical_presence = asserted;
    }

    /// Begin an event sequence.
    pub fn hash_start(&mut self)
        ensures
            final(self).measured is Some && final(self).measured->0@.len() == 0,
            *final(self) == (Machine {
                established: true,
                measured: final(self).measured,
                ..*old(self)
            }),
    {
        self.established = true;
        self.measured = Some(Vec::new());
    }

    /// Octets of an event sequence. Without one they are dropped.
    pub fn hash_data(&mut self, data: &[u8])
        ensures
            *final(self) == (Machine { measured: final(self).measured, ..*old(self) }),
            match old(self).measured {
                None => final(self).measured is None,
                Some(octets) => final(self).measured is Some && final(self).measured->0@
                    == octets@ + data@,
            },
    {
        match self.measured.take() {
            None => {},
            Some(octets) => {
                let mut all: Vec<u8> = octets;
                all.extend_from_slice(data);
                self.measured = Some(all);
            },
        }
    }

    /// End an event sequence: its register takes the digests of the octets.
    pub fn hash_end(&mut self) -> (r: TpmResult<()>)
        requires
            old(self).state.wf(),
        ensures
            final(self).state.wf(),
            *final(self) == (Machine {
                measured: None,
                state: TpmState { pcr: final(self).state.pcr, ..old(self).state },
                ..*old(self)
            }),
            match old(self).measured {
                None => r is Ok && final(self).state.pcr == old(self).state.pcr,
                Some(octets) => {
                    let index = event_register(old(self).state) as int;
                    let before = old(self).state.pcr;
                    &&& r is Ok <==> spec_admits(spec_extend_localities(index), EVENT_LOCALITY)
                    &&& r is Err ==> final(self).state.pcr == before
                    &&& r is Ok ==> final(self).state.pcr.held() == before.held().map_values(
                        |b: BankView| bank_extended(b, index, before.digests_of(octets@)),
                    )
                    &&& r is Ok ==> final(self).state.pcr.counter == (if counts(index) {
                        next_count(before.counter)
                    } else {
                        before.counter
                    })
                },
            },
    {
        match self.measured.take() {
            None => Ok(()),
            Some(octets) => {
                let register: u16 = if self.state.started {
                    DYNAMIC_REGISTER
                } else {
                    0
                };
                self.state.pcr.event(register, EVENT_LOCALITY, octets.as_slice())?;
                Ok(())
            },
        }
    }

    /// Clear the establishment flag.
    pub fn reset_established(&mut self)
        ensures
            *final(self) == (Machine { established: false, ..*old(self) }),
    {
        self.established = false;
    }

    /// True when the authenticated timer `act` has signaled. There is one.
    pub fn timer_signaled(&self, act: u32) -> (r: bool)
        ensures
            r == (act == 0 && self.state.act.signaled),
    {
        act == 0 && self.state.act.signaled
    }
}

} // verus!
