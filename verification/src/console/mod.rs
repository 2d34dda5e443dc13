//! A debug console for looking at and changing the TPM directly.
//!
//! The command interface only shows what it has to show. A PCR that no policy
//! references, the working state of the random number generator and the private
//! half of a loaded key are all invisible from outside, which makes a failure
//! hard to follow. The console reaches the same state that a command reaches and
//! reports it.
//!
//! Nothing here is a TPM command. The console does not check authorization, it
//! does not audit, and it can put the TPM in a state no sequence of commands
//! could reach.

use vstd::prelude::*;

pub mod arguments;
pub mod keys;
pub mod lines;
pub mod registers;
pub mod storage;

use crate::tpm::engine::state::{persistent_wf, TpmState};
use crate::util::text::{
    decimal, decimal_of, same, split_words, texts, truth, truth_of, words_of,
};
use arguments::{join2, join3, Answer};
use registers::banks_text;

verus! {

/// What the console does after a line.
#[derive(Debug, PartialEq, Eq)]
pub enum Outcome {
    /// Print a text.
    Output(String),
    /// Write the state to its file, and print a text once that is done.
    Save(String),
    /// Leave the console.
    Quit,
}

/// What the console does after a line.
pub enum OutcomeView {
    Output(Seq<char>),
    Save(Seq<char>),
    Quit,
}

/// What an outcome says.
pub open spec fn outcome_view(o: Outcome) -> OutcomeView {
    match o {
        Outcome::Output(s) => OutcomeView::Output(s@),
        Outcome::Save(s) => OutcomeView::Save(s@),
        Outcome::Quit => OutcomeView::Quit,
    }
}

/// What the platform knows of the TPM beside its state.
#[derive(Debug, Clone, Copy, PartialEq, Eq, Structural)]
pub struct Platform {
    pub powered: bool,
    pub locality: u8,
}

/// The longest line the console takes, in octets.
pub const MAX_LINE: usize = 8192;

/// The help text.
pub const HELP: &'static str = "commands:\n  status                                power, startup and lockout state\n  banks                                 allocated PCR banks\n\n  pcr list [alg]                        every register in a bank\n  pcr read <index> [alg]                one register\n  pcr extend <index> <hex> [alg]        extend a register with a digest\n  pcr write <index> <hex> [alg]         put a digest straight into a register\n  pcr reset <index>                     reset a register in every bank\n\n  nv list                               defined indexes\n  nv read <handle> [offset] [size]      read index data\n  nv write <handle> <offset> <hex>      write index data\n  nv undefine <handle>                  remove an index\n\n  rng show                              DRBG working state and reseed counter\n  rng seed <hex>                        reseed the DRBG\n  rng stir <hex>                        add data to the DRBG without reseeding\n  rng bytes <count>                     draw octets from the DRBG\n\n  key list                              loaded and persistent objects\n  key show <handle>                     public area, name and private values\n  key auth <handle> <hex>               set the authorization value\n  key flush <handle>                    remove a loaded object\n\n  save                                  write the state file now\n  help                                  this text\n  quit                                  leave the console\n";

/// What the console says of the TPM as a whole.
pub open spec fn status_text(s: TpmState, p: Platform) -> Seq<char> {
    "powered        "@ + truth_of(p.powered) + "\nstarted        "@ + truth_of(s.started)
        + "\nfailure mode   "@ + truth_of(s.failure_mode) + "\nself test done "@ + truth_of(
        s.self_test_done,
    ) + "\nnv available   "@ + truth_of(s.nv_available) + "\nlocality       "@ + decimal_of(
        p.locality as nat,
    ) + "\nphys presence  "@ + truth_of(s.physical_presence) + "\nlockout count  "@ + decimal_of(
        s.lockout.failed_tries as nat,
    ) + "\npcr counter    "@ + decimal_of(s.pcr.counter as nat) + "\nloaded objects "@ + decimal_of(
        s.objects.slots@.dom().len(),
    ) + "\npersistent     "@ + decimal_of(s.persistent@.dom().len()) + "\nnv indexes     "@
        + decimal_of(s.nv.indices@.dom().len()) + "\nsessions       "@ + decimal_of(
        s.sessions.loaded@.dom().len(),
    )
}

/// A number behind a label.
fn put_number(out: &mut String, label: &str, n: u64)
    ensures
        final(out)@ == old(out)@ + label@ + decimal_of(n as nat),
{
    out.append(label);
    let d: String = decimal(n);
    out.append(d.as_str());
}

/// A truth value behind a label.
fn put_truth(out: &mut String, label: &str, b: bool)
    ensures
        final(out)@ == old(out)@ + label@ + truth_of(b),
{
    out.append(label);
    out.append(truth(b));
}

/// What the console says of the TPM as a whole.
pub fn status(state: &TpmState, platform: Platform) -> (r: String)
    requires
        state.wf(),
    ensures
        r@ == status_text(*state, platform),
{
    proof {
        reveal(persistent_wf);
    }
    let mut out: String = join2("powered        ", truth(platform.powered));
    put_truth(&mut out, "\nstarted        ", state.started);
    put_truth(&mut out, "\nfailure mode   ", state.failure_mode);
    put_truth(&mut out, "\nself test done ", state.self_test_done);
    put_truth(&mut out, "\nnv available   ", state.nv_available);
    put_number(&mut out, "\nlocality       ", platform.locality as u64);
    put_truth(&mut out, "\nphys presence  ", state.physical_presence);
    put_number(&mut out, "\nlockout count  ", state.lockout.failed_tries as u64);
    put_number(&mut out, "\npcr counter    ", state.pcr.update_counter() as u64);
    put_number(&mut out, "\nloaded objects ", state.objects.len() as u64);
    put_number(&mut out, "\npersistent     ", state.persistent.len() as u64);
    put_number(&mut out, "\nnv indexes     ", state.nv.len() as u64);
    put_number(&mut out, "\nsessions       ", state.sessions.len() as u64);
    out
}

/// An answer as it is printed: an error says that it is one, and the console
/// never stops on it.
pub open spec fn printed(r: Result<Seq<char>, Seq<char>>) -> OutcomeView {
    match r {
        Ok(s) => OutcomeView::Output(s),
        Err(e) => OutcomeView::Output("error: "@ + e),
    }
}

/// An answer as it is printed.
fn print(r: Answer) -> (o: Outcome)
    ensures
        outcome_view(o) == printed(arguments::said(r)),
{
    match r {
        Ok(s) => Outcome::Output(s),
        Err(e) => Outcome::Output(join2("error: ", e.as_str())),
    }
}

/// What a line does to the TPM and what the console does after it.
pub open spec fn console_acted(
    after: TpmState,
    before: TpmState,
    platform: Platform,
    line: Seq<char>,
    o: OutcomeView,
) -> bool {
    let words = words_of(line);
    let head = words[0];
    let rest = words.skip(1);
    if words.len() == 0 {
        after == before && o == OutcomeView::Output(Seq::empty())
    } else if head == "quit"@ || head == "exit"@ {
        after == before && o == OutcomeView::Quit
    } else if head == "help"@ {
        after == before && o == OutcomeView::Output(HELP@)
    } else if head == "status"@ {
        after == before && o == OutcomeView::Output(status_text(before, platform))
    } else if head == "banks"@ {
        after == before && o == OutcomeView::Output(banks_text(before))
    } else if head == "pcr"@ {
        exists|r: Result<Seq<char>, Seq<char>>| #[trigger]
            registers::pcr_acted(after, before, rest, r) && o == printed(r)
    } else if head == "nv"@ {
        exists|r: Result<Seq<char>, Seq<char>>| #[trigger]
            storage::nv_acted(after, before, rest, r) && o == printed(r)
    } else if head == "rng"@ {
        exists|r: Result<Seq<char>, Seq<char>>| #[trigger]
            storage::rng_acted(after, before, rest, r) && o == printed(r)
    } else if head == "key"@ {
        exists|r: Result<Seq<char>, Seq<char>>| #[trigger]
            keys::key_acted(after, before, rest, r) && o == printed(r)
    } else if head == "save"@ {
        after == before && o == OutcomeView::Save("state written"@)
    } else {
        after == before && o == OutcomeView::Output("unknown command "@ + head + ", try help"@)
    }
}

/// The words behind the first.
fn behind<'a>(words: &Vec<&'a str>) -> (r: Vec<&'a str>)
    requires
        words@.len() > 0,
    ensures
        texts(r@) == texts(words@).skip(1),
{
    let mut out: Vec<&'a str> = Vec::new();
    let mut i: usize = 1;
    while i < words.len()
        invariant
            1 <= i <= words@.len(),
            out@ =~= words@.subrange(1, i as int),
        decreases words@.len() - i,
    {
        out.push(words[i]);
        i = i + 1;
    }
    assert(texts(out@) =~= texts(words@).skip(1));
    out
}

/// Act on one console line.
pub fn execute(state: &mut TpmState, platform: Platform, line: &str) -> (r: Outcome)
    requires
        old(state).wf(),
    ensures
        final(state).wf(),
        console_acted(*final(state), *old(state), platform, line@, outcome_view(r)),
{
    let words: Vec<&str> = split_words(line);
    assert(texts(words@) == words_of(line@));
    if words.len() == 0 {
        let none: String = String::new();
        assert(none@ =~= Seq::<char>::empty());
        return Outcome::Output(none);
    }
    let head: &str = words[0];
    assert(texts(words@)[0] == head@);
    let rest: Vec<&str> = behind(&words);
    if same(head, "quit") || same(head, "exit") {
        return Outcome::Quit;
    }
    if same(head, "help") {
        return Outcome::Output(String::from_str(HELP));
    }
    if same(head, "status") {
        return Outcome::Output(status(state, platform));
    }
    if same(head, "banks") {
        return Outcome::Output(registers::banks(state));
    }
    if same(head, "pcr") {
        let a: Answer = registers::pcr(state, &rest);
        assert(registers::pcr_acted(*state, *old(state), texts(rest@), arguments::said(a)));
        return print(a);
    }
    if same(head, "nv") {
        let a: Answer = storage::nv(state, &rest);
        assert(storage::nv_acted(*state, *old(state), texts(rest@), arguments::said(a)));
        return print(a);
    }
    if same(head, "rng") {
        let a: Answer = storage::rng(state, &rest);
        assert(storage::rng_acted(*state, *old(state), texts(rest@), arguments::said(a)));
        return print(a);
    }
    if same(head, "key") {
        let a: Answer = keys::key(state, &rest);
        assert(keys::key_acted(*state, *old(state), texts(rest@), arguments::said(a)));
        return print(a);
    }
    if same(head, "save") {
        return Outcome::Save(String::from_str("state written"));
    }
    Outcome::Output(join3("unknown command ", head, ", try help"))
}

} // verus!
