//! The platform facing view of a TPM.

use vstd::prelude::*;

verus! {

/// The signals a platform sends to a TPM outside of the command interface:
/// power, reset, physical presence, locality and the H-CRTM event sequence.
///
/// The transports turn their wire protocol into these calls.
pub trait Device {
    /// Every call that was made on the device, in order. It is there to speak
    /// of: nothing asks for it when the program runs.
    spec fn calls(&self) -> Calls;

    /// Run one command buffer at `locality` and produce the response buffer.
    fn execute(&mut self, locality: u8, command: &[u8]) -> (r: Vec<u8>)
        ensures
            final(self).calls() == old(self).calls().push(
                (Call { signal: Signal::Execute(locality, command@), response: r@, flag: false }),
            ),
    ;

    /// _TPM_Init followed by power being applied.
    fn power_on(&mut self)
        ensures
            final(self).calls() == old(self).calls().push(quiet(Signal::PowerOn)),
    ;

    /// Power removed. The TPM loses all volatile state.
    fn power_off(&mut self)
        ensures
            final(self).calls() == old(self).calls().push(quiet(Signal::PowerOff)),
    ;

    /// True while the TPM has power.
    fn is_powered_on(&self) -> bool;

    /// NV storage made available.
    fn nv_on(&mut self)
        ensures
            final(self).calls() == old(self).calls().push(quiet(Signal::NvOn)),
    ;

    /// NV storage taken away.
    fn nv_off(&mut self)
        ensures
            final(self).calls() == old(self).calls().push(quiet(Signal::NvOff)),
    ;

    /// Assert or deassert physical presence.
    fn physical_presence(&mut self, asserted: bool)
        ensures
            final(self).calls() == old(self).calls().push(
                quiet(Signal::PhysicalPresence(asserted)),
            ),
    ;

    /// Assert or deassert the cancel signal.
    fn cancel(&mut self, asserted: bool)
        ensures
            final(self).calls() == old(self).calls().push(quiet(Signal::Cancel(asserted))),
    ;

    /// _TPM_Hash_Start.
    fn hash_start(&mut self)
        ensures
            final(self).calls() == old(self).calls().push(quiet(Signal::HashStart)),
    ;

    /// _TPM_Hash_Data.
    fn hash_data(&mut self, data: &[u8])
        ensures
            final(self).calls() == old(self).calls().push(quiet(Signal::HashData(data@))),
    ;

    /// _TPM_Hash_End.
    fn hash_end(&mut self)
        ensures
            final(self).calls() == old(self).calls().push(quiet(Signal::HashEnd)),
    ;

    /// The platform establishment flag, which records that an H-CRTM event
    /// sequence has begun.
    fn established(&mut self) -> (r: bool)
        ensures
            final(self).calls() == old(self).calls().push(
                (Call { signal: Signal::Established, response: Seq::empty(), flag: r }),
            ),
    ;

    /// Clear the establishment flag on behalf of `locality`.
    ///
    /// Which localities may clear it is a property of the register interface,
    /// so the platform is trusted to have made that decision before asking.
    fn reset_established(&mut self, locality: u8)
        ensures
            final(self).calls() == old(self).calls().push(
                quiet(Signal::ResetEstablished(locality)),
            ),
    ;

    /// True when the authenticated timer `act` has signaled.
    fn act_get_signaled(&mut self, act: u32) -> (r: bool)
        ensures
            final(self).calls() == old(self).calls().push(
                (Call { signal: Signal::ActGetSignaled(act), response: Seq::empty(), flag: r }),
            ),
    ;
}

/// One call a transport makes on a device. `B` holds octets.
pub enum Signal<B> {
    /// Run a command at a locality.
    Execute(u8, B),
    PowerOn,
    PowerOff,
    NvOn,
    NvOff,
    PhysicalPresence(bool),
    Cancel(bool),
    HashStart,
    HashData(B),
    HashEnd,
    Established,
    ResetEstablished(u8),
    ActGetSignaled(u32),
}

/// A call that was made, and what the device answered: the response of a
/// command, or the flag of a question.
pub struct Call {
    pub signal: Signal<Seq<u8>>,
    pub response: Seq<u8>,
    pub flag: bool,
}

/// The calls that were made on a device, in order.
pub type Calls = Seq<Call>;

/// A call that is answered with nothing.
pub open spec fn quiet(signal: Signal<Seq<u8>>) -> Call {
    Call { signal, response: Seq::empty(), flag: false }
}

/// What was called.
pub open spec fn signals_in(calls: Seq<Call>) -> Seq<Signal<Seq<u8>>> {
    calls.map_values(|c: Call| c.signal)
}

/// The response of the last command among the calls.
pub open spec fn response_in(calls: Seq<Call>) -> Seq<u8>
    decreases calls.len(),
{
    if calls.len() == 0 {
        Seq::empty()
    } else if calls.last().signal is Execute {
        calls.last().response
    } else {
        response_in(calls.drop_last())
    }
}

/// True when one of the calls was answered with yes.
pub open spec fn flag_in(calls: Seq<Call>) -> bool
    decreases calls.len(),
{
    calls.len() > 0 && (calls.last().flag || flag_in(calls.drop_last()))
}

/// Calls that were made request by request, one after the other.
pub open spec fn all_calls(groups: Seq<Seq<Call>>) -> Seq<Call>
    decreases groups.len(),
{
    if groups.len() == 0 {
        Seq::empty()
    } else {
        all_calls(groups.drop_last()) + groups.last()
    }
}

/// What a signal tells the transport. A signal that tells nothing answers with
/// no octets and `false`.
pub struct Told {
    /// The response buffer of a command.
    pub response: Vec<u8>,
    /// The answer of a signal that asks a question.
    pub flag: bool,
}

/// The same signal over the octets themselves.
pub open spec fn signal_view(s: Signal<Vec<u8>>) -> Signal<Seq<u8>> {
    match s {
        Signal::Execute(l, c) => Signal::Execute(l, c@),
        Signal::PowerOn => Signal::PowerOn,
        Signal::PowerOff => Signal::PowerOff,
        Signal::NvOn => Signal::NvOn,
        Signal::NvOff => Signal::NvOff,
        Signal::PhysicalPresence(b) => Signal::PhysicalPresence(b),
        Signal::Cancel(b) => Signal::Cancel(b),
        Signal::HashStart => Signal::HashStart,
        Signal::HashData(b) => Signal::HashData(b@),
        Signal::HashEnd => Signal::HashEnd,
        Signal::Established => Signal::Established,
        Signal::ResetEstablished(l) => Signal::ResetEstablished(l),
        Signal::ActGetSignaled(a) => Signal::ActGetSignaled(a),
    }
}

/// The same signals over the octets themselves.
pub open spec fn signal_views(s: Seq<Signal<Vec<u8>>>) -> Seq<Signal<Seq<u8>>> {
    s.map_values(|x: Signal<Vec<u8>>| signal_view(x))
}

/// Make one call, and hand on what the device answers. Only a command has a
/// response, and only a question a flag.
pub fn perform<D: Device>(device: &mut D, signal: &Signal<Vec<u8>>) -> (t: Told)
    ensures
        final(device).calls() == old(device).calls().push(
            (Call { signal: signal_view(*signal), response: t.response@, flag: t.flag }),
        ),
        !(signal is Execute) ==> t.response@.len() == 0,
        !(signal is Established || signal is ActGetSignaled) ==> !t.flag,
{
    let mut response: Vec<u8> = Vec::new();
    let mut flag: bool = false;
    assert(response@ =~= Seq::<u8>::empty());
    match signal {
        Signal::Execute(locality, command) => {
            response = device.execute(*locality, command.as_slice());
        },
        Signal::PowerOn => device.power_on(),
        Signal::PowerOff => device.power_off(),
        Signal::NvOn => device.nv_on(),
        Signal::NvOff => device.nv_off(),
        Signal::PhysicalPresence(asserted) => device.physical_presence(*asserted),
        Signal::Cancel(asserted) => device.cancel(*asserted),
        Signal::HashStart => device.hash_start(),
        Signal::HashData(data) => device.hash_data(data.as_slice()),
        Signal::HashEnd => device.hash_end(),
        Signal::Established => {
            flag = device.established();
        },
        Signal::ResetEstablished(locality) => device.reset_established(*locality),
        Signal::ActGetSignaled(act) => {
            flag = device.act_get_signaled(*act);
        },
    }
    Told { response, flag }
}

/// The calls that a device has and did not have before.
pub open spec fn made(after: Seq<Call>, before: Seq<Call>) -> Seq<Call> {
    after.skip(before.len() as int)
}

/// Make calls in order. The response is that of the last command among them,
/// and the flag says whether one of the questions was answered with yes. What a
/// device answers is its own affair.
pub fn perform_all<D: Device>(device: &mut D, signals: &Vec<Signal<Vec<u8>>>) -> (t: Told)
    ensures
        ({
            let new = made(final(device).calls(), old(device).calls());
            &&& final(device).calls() == old(device).calls() + new
            &&& signals_in(new) == signal_views(signals@)
            &&& t.response@ == response_in(new)
            &&& t.flag == flag_in(new)
        }),
{
    let mut told: Told = Told { response: Vec::new(), flag: false };
    let mut i: usize = 0;
    let ghost start = device.calls();
    let ghost mut new: Seq<Call> = Seq::empty();
    assert(told.response@ =~= Seq::<u8>::empty());
    assert(start =~= start + new);
    while i < signals.len()
        invariant
            i <= signals@.len(),
            start == old(device).calls(),
            device.calls() == start + new,
            new.len() == i,
            forall|k: int| 0 <= k < i ==> (#[trigger] new[k]).signal == signal_view(signals@[k]),
            told.response@ == response_in(new),
            told.flag == flag_in(new),
        decreases signals@.len() - i,
    {
        let t: Told = perform(device, &signals[i]);
        proof {
            let call = Call {
                signal: signal_view(signals@[i as int]),
                response: t.response@,
                flag: t.flag,
            };
            let before = new;
            new = before.push(call);
            assert(new.drop_last() =~= before);
            assert(device.calls() =~= start + new);
        }
        if matches!(signals[i], Signal::Execute(..)) {
            told.response = t.response;
        }
        if t.flag {
            told.flag = true;
        }
        i = i + 1;
    }
    assert(made(device.calls(), start) =~= new);
    assert(signals_in(new) =~= signal_views(signals@));
    told
}

} // verus!
