//! Registers on the console.

use vstd::prelude::*;

use super::arguments::{
    alg_called, alg_name, alg_value, arg, argument, argument_is, bytes, bytes_of, code, code_of,
    join2, join3, name_of_alg, number_u16, opt, said, short_of, Answer,
};
use crate::tpm::config;
use crate::tpm::constants::{alg, rc};
use crate::tpm::crypto::hash::size_of;
use crate::tpm::engine::pcr::{
    admits, bank_extended, counts, next_count, reset_localities, spec_admits,
    spec_reset_localities, BankView, PcrBanks,
};
use crate::tpm::engine::state::TpmState;
use crate::tpm::error::TpmRc;
use crate::util::text::{align, aligned, decimal, decimal_of, encode_hex, hex_octets, texts};

verus! {

/// The largest digest a line gives.
pub const MAX_DIGEST: usize = 64;

/// The algorithms that have a bank.
pub open spec fn bank_algs(state: TpmState) -> Seq<u16> {
    state.pcr.held().map_values(|b: BankView| b.alg)
}

/// The bank a line means: the one it names, else the SHA-256 bank, else the
/// first.
pub open spec fn bank_meant(state: TpmState, given: Option<Seq<char>>) -> Result<u16, Seq<char>> {
    match given {
        Some(t) => match alg_called(t) {
            Some(a) => Ok(a),
            None => Err("unknown hash algorithm "@ + t),
        },
        None => if bank_algs(state).contains(alg::SHA256) {
            Ok(alg::SHA256)
        } else if bank_algs(state).len() > 0 {
            Ok(bank_algs(state)[0])
        } else {
            Err("no PCR bank is allocated"@)
        },
    }
}

/// True when the list holds the algorithm.
fn has(list: &Vec<u16>, a: u16) -> (r: bool)
    ensures
        r == list@.contains(a),
{
    let mut i: usize = 0;
    while i < list.len()
        invariant
            i <= list@.len(),
            forall|k: int| 0 <= k < i ==> list@[k] != a,
        decreases list@.len() - i,
    {
        if list[i] == a {
            return true;
        }
        i = i + 1;
    }
    false
}

/// The bank a line means.
fn bank_of(state: &TpmState, given: Option<&str>) -> (r: Result<u16, String>)
    ensures
        match bank_meant(*state, opt(given)) {
            Ok(a) => r is Ok && r->Ok_0 == a,
            Err(e) => r is Err && r->Err_0@ == e,
        },
{
    match given {
        Some(t) => match alg_value(t) {
            Some(a) => Ok(a),
            None => Err(join2("unknown hash algorithm ", t)),
        },
        None => {
            let all: Vec<u16> = state.pcr.algorithms();
            if has(&all, alg::SHA256) {
                Ok(alg::SHA256)
            } else if all.len() > 0 {
                Ok(all[0])
            } else {
                Err(String::from_str("no PCR bank is allocated"))
            }
        },
    }
}

/// The names of algorithms with a space between them.
pub open spec fn names_of(s: Seq<u16>) -> Seq<char>
    decreases s.len(),
{
    if s.len() == 0 {
        Seq::empty()
    } else if s.len() == 1 {
        name_of_alg(s[0])
    } else {
        names_of(s.drop_last()) + " "@ + name_of_alg(s.last())
    }
}

/// The banks there are.
pub open spec fn banks_text(state: TpmState) -> Seq<char> {
    "allocated banks: "@ + names_of(bank_algs(state))
}

/// The banks there are.
pub fn banks(state: &TpmState) -> (r: String)
    ensures
        r@ == banks_text(*state),
{
    let all: Vec<u16> = state.pcr.algorithms();
    let mut names: String = String::new();
    let mut i: usize = 0;
    assert(names@ =~= names_of(all@.take(0)));
    while i < all.len()
        invariant
            i <= all@.len(),
            names@ == names_of(all@.take(i as int)),
        decreases all@.len() - i,
    {
        let n: String = alg_name(all[i]);
        let ghost t = all@.take(i + 1);
        assert(t.drop_last() =~= all@.take(i as int));
        if i == 0 {
            names = n;
        } else {
            names.append(" ");
            names.append(n.as_str());
        }
        i = i + 1;
    }
    assert(all@.take(all@.len() as int) =~= all@);
    join2("allocated banks: ", names.as_str())
}

/// The registers of a bank, one to a line.
pub open spec fn register_lines(values: Seq<Seq<u8>>, n: nat) -> Seq<char>
    decreases n,
{
    if n == 0 {
        Seq::empty()
    } else {
        let line = aligned(decimal_of((n - 1) as nat), 2) + " "@ + hex_octets(values[n - 1]);
        if n == 1 {
            line
        } else {
            register_lines(values, (n - 1) as nat) + "\n"@ + line
        }
    }
}

/// `pcr list`.
pub open spec fn pcr_list(state: TpmState, given: Option<Seq<char>>) -> Result<Seq<char>, Seq<char>> {
    match bank_meant(state, given) {
        Err(e) => Err(e),
        Ok(bank) => if !state.pcr.has_bank(bank) {
            Err("PCR 0: "@ + code_of(TpmRc(rc::HASH)))
        } else {
            Ok(register_lines(state.pcr.bank_of(bank).values, 24))
        },
    }
}

/// The registers of a bank.
fn list_registers(state: &TpmState, given: Option<&str>) -> (r: Answer)
    requires
        state.wf(),
    ensures
        said(r) == pcr_list(*state, opt(given)),
{
    let bank: u16 = bank_of(state, given)?;
    let mut out: String = String::new();
    let mut i: u16 = 0;
    while i < config::IMPLEMENTATION_PCR
        invariant
            i <= 24,
            state.wf(),
            i > 0 ==> state.pcr.has_bank(bank),
            i > 0 ==> out@ == register_lines(state.pcr.bank_of(bank).values, i as nat),
            bank_meant(*state, opt(given)) == Ok::<u16, Seq<char>>(bank),
        decreases 24 - i,
    {
        let value: &[u8] = match state.pcr.read(bank, i) {
            Ok(v) => v,
            Err(e) => {
                let c: String = code(e);
                proof {
                    assert(i == 0);
                }
                return Err(join2("PCR 0: ", c.as_str()));
            },
        };
        let n: String = decimal(i as u64);
        let place: String = align(n.as_str(), 2);
        let digits: String = encode_hex(value);
        let line: String = join3(place.as_str(), " ", digits.as_str());
        if i == 0 {
            out = line;
        } else {
            out.append("\n");
            out.append(line.as_str());
        }
        i = i + 1;
    }
    Ok(out)
}

/// `pcr read`.
pub open spec fn pcr_read(state: TpmState, args: Seq<Seq<char>>) -> Result<Seq<char>, Seq<char>> {
    match short_of(arg(args, 1), "index"@) {
        Err(e) => Err(e),
        Ok(index) => match bank_meant(state, arg(args, 2)) {
            Err(e) => Err(e),
            Ok(bank) => if !state.pcr.has_bank(bank) {
                Err(code_of(TpmRc(rc::HASH)))
            } else if index >= 24 {
                Err(code_of(TpmRc(rc::VALUE)))
            } else {
                Ok(hex_octets(state.pcr.bank_of(bank).values[index as int]))
            },
        },
    }
}

/// One register.
fn read_register(state: &TpmState, args: &Vec<&str>) -> (r: Answer)
    requires
        state.wf(),
    ensures
        said(r) == pcr_read(*state, texts(args@)),
{
    let index: u16 = number_u16(argument(args, 1), "index")?;
    let bank: u16 = bank_of(state, argument(args, 2))?;
    match state.pcr.read(bank, index) {
        Ok(v) => Ok(encode_hex(v)),
        Err(e) => Err(code(e)),
    }
}

/// What `pcr extend` and `pcr write` are given: the register, the digest and
/// the bank.
pub open spec fn digest_line(state: TpmState, args: Seq<Seq<char>>) -> Result<
    (u16, Seq<u8>, u16),
    Seq<char>,
> {
    match (short_of(arg(args, 1), "index"@), bytes_of(arg(args, 2), "digest"@, 64)) {
        (Err(e), _) => Err(e),
        (_, Err(e)) => Err(e),
        (Ok(index), Ok(d)) => match bank_meant(state, arg(args, 3)) {
            Err(e) => Err(e),
            Ok(bank) => match state.pcr.digest_check(bank, index, d) {
                Err(e) => Err(code_of(e)),
                Ok(_) => Ok((index, d, bank)),
            },
        },
    }
}

/// `pcr extend`.
pub open spec fn pcr_extended(
    after: TpmState,
    before: TpmState,
    args: Seq<Seq<char>>,
    r: Result<Seq<char>, Seq<char>>,
) -> bool {
    match digest_line(before, args) {
        Err(e) => after == before && r == Err::<Seq<char>, Seq<char>>(e),
        Ok((index, d, bank)) => {
            &&& after == (TpmState { pcr: after.pcr, ..before })
            &&& after.pcr.held() == before.pcr.held().map_values(
                |b: BankView| bank_extended(b, index as int, seq![(bank, d)]),
            )
            &&& after.pcr.counter == (if counts(index as int) {
                next_count(before.pcr.counter)
            } else {
                before.pcr.counter
            })
            &&& r == Ok::<Seq<char>, Seq<char>>(
                decimal_of(index as nat) + " now "@ + hex_octets(
                    after.pcr.bank_of(bank).values[index as int],
                ),
            )
        },
    }
}

/// The banks stay the same when their registers change.
proof fn lemma_banks_stay(after: PcrBanks, before: PcrBanks, bank: u16)
    requires
        before.has_bank(bank),
        after.held().len() == before.held().len(),
        forall|i: int|
            0 <= i < before.held().len() ==> (#[trigger] after.held()[i]).alg
                == before.held()[i].alg,
    ensures
        after.has_bank(bank),
{
    let i = choose|i: int| 0 <= i < before.banks@.len() && (#[trigger] before.banks@[i]).alg == bank;
    assert(after.held()[i].alg == before.held()[i].alg);
    assert(after.banks@[i].alg == bank);
}

/// Extend a register.
fn extend_register(state: &mut TpmState, args: &Vec<&str>) -> (r: Answer)
    requires
        old(state).wf(),
    ensures
        final(state).wf(),
        pcr_extended(*final(state), *old(state), texts(args@), said(r)),
{
    let index: u16 = number_u16(argument(args, 1), "index")?;
    let digest: Vec<u8> = bytes(argument(args, 2), "digest", MAX_DIGEST)?;
    let bank: u16 = bank_of(state, argument(args, 3))?;
    match state.pcr.extend_one(bank, index, digest.as_slice()) {
        Ok(_) => {},
        Err(e) => {
            return Err(code(e));
        },
    }
    proof {
        lemma_banks_stay(state.pcr, old(state).pcr, bank);
    }
    match state.pcr.read(bank, index) {
        Ok(v) => {
            let n: String = decimal(index as u64);
            let h: String = encode_hex(v);
            Ok(join3(n.as_str(), " now ", h.as_str()))
        },
        Err(e) => Err(code(e)),
    }
}

/// `pcr write`.
pub open spec fn pcr_written(
    after: TpmState,
    before: TpmState,
    args: Seq<Seq<char>>,
    r: Result<Seq<char>, Seq<char>>,
) -> bool {
    match digest_line(before, args) {
        Err(e) => after == before && r == Err::<Seq<char>, Seq<char>>(e),
        Ok((index, d, bank)) => {
            &&& after == (TpmState { pcr: after.pcr, ..before })
            &&& after.pcr.held() == before.pcr.held().map_values(
                |b: BankView|
                    if b.alg == bank {
                        BankView { alg: b.alg, values: b.values.update(index as int, d) }
                    } else {
                        b
                    },
            )
            &&& after.pcr.counter == before.pcr.counter
            &&& r == Ok::<Seq<char>, Seq<char>>(
                decimal_of(index as nat) + " set to "@ + hex_octets(d),
            )
        },
    }
}

/// Put a digest straight into a register.
fn write_register(state: &mut TpmState, args: &Vec<&str>) -> (r: Answer)
    requires
        old(state).wf(),
    ensures
        final(state).wf(),
        pcr_written(*final(state), *old(state), texts(args@), said(r)),
{
    let index: u16 = number_u16(argument(args, 1), "index")?;
    let digest: Vec<u8> = bytes(argument(args, 2), "digest", MAX_DIGEST)?;
    let bank: u16 = bank_of(state, argument(args, 3))?;
    match state.pcr.set(bank, index, digest.as_slice()) {
        Ok(_) => {},
        Err(e) => {
            return Err(code(e));
        },
    }
    let n: String = decimal(index as u64);
    let h: String = encode_hex(digest.as_slice());
    Ok(join3(n.as_str(), " set to ", h.as_str()))
}

/// The lowest locality from `l` on that a mask admits.
pub open spec fn lowest(mask: u8, l: int) -> Option<u8>
    decreases 5 - l,
{
    if l >= 5 {
        None
    } else if spec_admits(mask, l as u8) {
        Some(l as u8)
    } else {
        lowest(mask, l + 1)
    }
}

/// `pcr reset`. The console is not bound by a locality: it resets from the one
/// that the register allows.
pub open spec fn pcr_cleared(
    after: TpmState,
    before: TpmState,
    args: Seq<Seq<char>>,
    r: Result<Seq<char>, Seq<char>>,
) -> bool {
    match short_of(arg(args, 1), "index"@) {
        Err(e) => after == before && r == Err::<Seq<char>, Seq<char>>(e),
        Ok(index) => match lowest(spec_reset_localities(index as int), 0) {
            None => after == before && r == Err::<Seq<char>, Seq<char>>(
                "PCR "@ + decimal_of(index as nat) + " cannot be reset"@,
            ),
            Some(_) => {
                &&& after == (TpmState { pcr: after.pcr, ..before })
                &&& after.pcr.held() == before.pcr.held().map_values(
                    |b: BankView|
                        BankView {
                            alg: b.alg,
                            values: b.values.update(
                                index as int,
                                Seq::new(size_of(b.alg), |i: int| 0u8),
                            ),
                        },
                )
                &&& after.pcr.counter == before.pcr.counter
                &&& r == Ok::<Seq<char>, Seq<char>>(decimal_of(index as nat) + " reset"@)
            },
        },
    }
}

/// A locality a register allows a reset from.
fn reset_locality(index: u16) -> (r: Option<u8>)
    ensures
        r == lowest(spec_reset_localities(index as int), 0),
        r matches Some(l) ==> spec_admits(spec_reset_localities(index as int), l),
        r is Some ==> index < 24,
{
    let mask: u8 = reset_localities(index);
    let mut l: u8 = 0;
    while l < 5
        invariant
            l <= 5,
            mask == spec_reset_localities(index as int),
            lowest(mask, 0) == lowest(mask, l as int),
        decreases 5 - l,
    {
        if admits(mask, l) {
            assert(index < 24) by {
                if index >= 24 {
                    assert((0u8 >> l) & 1 == 0) by (bit_vector)
                        requires
                            l < 5,
                    ;
                }
            }
            return Some(l);
        }
        l = l + 1;
    }
    None
}

/// Reset a register in every bank.
fn reset_register(state: &mut TpmState, args: &Vec<&str>) -> (r: Answer)
    requires
        old(state).wf(),
    ensures
        final(state).wf(),
        pcr_cleared(*final(state), *old(state), texts(args@), said(r)),
{
    let index: u16 = number_u16(argument(args, 1), "index")?;
    let n: String = decimal(index as u64);
    match reset_locality(index) {
        None => Err(join3("PCR ", n.as_str(), " cannot be reset")),
        Some(l) => match state.pcr.reset(index, l) {
            Ok(_) => Ok(join2(n.as_str(), " reset")),
            Err(e) => Err(code(e)),
        },
    }
}

/// The `pcr` commands.
pub open spec fn pcr_acted(
    after: TpmState,
    before: TpmState,
    args: Seq<Seq<char>>,
    r: Result<Seq<char>, Seq<char>>,
) -> bool {
    if arg(args, 0) == Some("list"@) {
        after == before && r == pcr_list(before, arg(args, 1))
    } else if arg(args, 0) == Some("read"@) {
        after == before && r == pcr_read(before, args)
    } else if arg(args, 0) == Some("extend"@) {
        pcr_extended(after, before, args, r)
    } else if arg(args, 0) == Some("write"@) {
        pcr_written(after, before, args, r)
    } else if arg(args, 0) == Some("reset"@) {
        pcr_cleared(after, before, args, r)
    } else {
        after == before && r == Err::<Seq<char>, Seq<char>>(
            "try pcr list, read, extend, write or reset"@,
        )
    }
}

/// The `pcr` commands.
pub fn pcr(state: &mut TpmState, args: &Vec<&str>) -> (r: Answer)
    requires
        old(state).wf(),
    ensures
        final(state).wf(),
        pcr_acted(*final(state), *old(state), texts(args@), said(r)),
{
    if argument_is(args, 0, "list") {
        return list_registers(state, argument(args, 1));
    }
    if argument_is(args, 0, "read") {
        return read_register(state, args);
    }
    if argument_is(args, 0, "extend") {
        return extend_register(state, args);
    }
    if argument_is(args, 0, "write") {
        return write_register(state, args);
    }
    if argument_is(args, 0, "reset") {
        return reset_register(state, args);
    }
    Err(String::from_str("try pcr list, read, extend, write or reset"))
}

} // verus!
