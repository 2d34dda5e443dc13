//! Indexes and the random number generator on the console.

use vstd::prelude::*;

use super::arguments::{
    arg, argument, argument_is, bytes, bytes_of, code, code_of, join2, join3, number, number_of,
    number_u16, said, short_of, Answer,
};
use crate::tpm::config;
use crate::tpm::constants::rc;
use crate::tpm::crypto::hash::supported;
use crate::tpm::crypto::rand::{draw, mixed_key, mixed_value, Rng, RngModel, RESEED_INTERVAL};
use crate::tpm::engine::nv::{overlaid, NvIndex};
use crate::tpm::engine::nv_store::NvStore;
use crate::tpm::engine::state::TpmState;
use crate::tpm::error::TpmRc;
use crate::tpm::structures::attributes::NvAttributes;
use crate::util::text::{
    decimal, decimal_of, encode_hex, hex_number, hex_octets, hex_of, pad, padded, texts, truth,
    truth_of,
};

verus! {

/// The most octets a line feeds the generator.
pub const MAX_STIR: usize = 1024;

/// What the console says of an Index.
pub open spec fn index_line(handle: u32, i: NvIndex) -> Seq<char> {
    hex_of(handle as nat, 8) + " size "@ + padded(decimal_of(i.public.data_size as nat), 5)
        + " written "@ + padded(truth_of(i.written()), 5) + " type "@ + decimal_of(
        i.index_type() as nat,
    ) + " attrs "@ + hex_of(i.public.attributes.0 as nat, 8)
}

/// What the console says of an Index.
fn line_of(handle: u32, i: &NvIndex) -> (r: String)
    ensures
        r@ == index_line(handle, *i),
{
    let mut out: String = hex_number(handle as u64, 8);
    out.append(" size ");
    let n: String = decimal(i.public.data_size as u64);
    let n5: String = pad(n.as_str(), 5);
    out.append(n5.as_str());
    out.append(" written ");
    let w5: String = pad(truth(i.written()), 5);
    out.append(w5.as_str());
    out.append(" type ");
    let t: String = decimal(i.index_type() as u64);
    out.append(t.as_str());
    out.append(" attrs ");
    let a: String = hex_number(i.public.attributes.0 as u64, 8);
    out.append(a.as_str());
    out
}

/// Indexes, one to a line.
pub open spec fn index_lines(s: Seq<(u32, NvIndex)>) -> Seq<char>
    decreases s.len(),
{
    if s.len() == 0 {
        Seq::empty()
    } else if s.len() == 1 {
        index_line(s[0].0, s[0].1)
    } else {
        index_lines(s.drop_last()) + "\n"@ + index_line(s.last().0, s.last().1)
    }
}

/// `nv list`.
pub open spec fn nv_list(state: TpmState) -> Seq<char> {
    let s = state.nv.indices.listed();
    if s.len() == 0 {
        "no index is defined"@
    } else {
        index_lines(s)
    }
}

/// The Indexes there are.
fn list_indexes(state: &TpmState) -> (r: String)
    requires
        state.wf(),
    ensures
        r@ == nv_list(*state),
{
    proof {
        reveal(NvStore::wf);
    }
    let n: usize = state.nv.indices.len();
    if n == 0 {
        return String::from_str("no index is defined");
    }
    let ghost s = state.nv.indices.listed();
    let mut out: String = String::new();
    let mut i: usize = 0;
    while i < n
        invariant
            i <= n,
            n == s.len(),
            s == state.nv.indices.listed(),
            state.nv.indices.wf(),
            i > 0 ==> out@ == index_lines(s.take(i as int)),
        decreases n - i,
    {
        let (h, index) = state.nv.indices.entry(i);
        let line: String = line_of(h, index);
        let ghost t = s.take(i + 1);
        assert(t.drop_last() =~= s.take(i as int));
        if i == 0 {
            out = line;
        } else {
            out.append("\n");
            out.append(line.as_str());
        }
        i = i + 1;
    }
    assert(s.take(n as int) =~= s);
    out
}

/// A number of 16 bits that may be left out.
pub open spec fn short_or_none(t: Option<Seq<char>>, what: Seq<char>) -> Result<
    Option<u16>,
    Seq<char>,
> {
    match t {
        None => Ok(None),
        Some(_) => match short_of(t, what) {
            Ok(n) => Ok(Some(n)),
            Err(e) => Err(e),
        },
    }
}

/// A number of 16 bits that may be left out.
fn optional_u16(text: Option<&str>, what: &str) -> (r: Result<Option<u16>, String>)
    ensures
        match short_or_none(super::arguments::opt(text), what@) {
            Ok(n) => r is Ok && r->Ok_0 == n,
            Err(e) => r is Err && r->Err_0@ == e,
        },
{
    if text.is_none() {
        return Ok(None);
    }
    match number_u16(text, what) {
        Ok(n) => Ok(Some(n)),
        Err(e) => Err(e),
    }
}

/// `nv read`. Every argument is looked at before the TPM is.
pub open spec fn nv_read(state: TpmState, args: Seq<Seq<char>>) -> Result<Seq<char>, Seq<char>> {
    match (
        number_of(arg(args, 1), "handle"@),
        short_or_none(arg(args, 2), "offset"@),
        short_or_none(arg(args, 3), "size"@),
    ) {
        (Err(e), _, _) => Err(e),
        (_, Err(e), _) => Err(e),
        (_, _, Err(e)) => Err(e),
        (Ok(h), Ok(o), Ok(given)) => if !state.nv.indices@.contains_key(h) {
            Err(code_of(TpmRc(rc::HANDLE)))
        } else {
            let i = state.nv.indices@[h];
            let offset = match o {
                Some(n) => n,
                None => 0,
            };
            let size = match given {
                Some(n) => n,
                None => if i.public.data_size > offset {
                    (i.public.data_size - offset) as u16
                } else {
                    0
                },
            };
            match i.reading(offset, size) {
                Ok(d) => Ok(hex_octets(d)),
                Err(e) => Err(code_of(e)),
            }
        },
    }
}

/// Read an Index.
fn read_index(state: &TpmState, args: &Vec<&str>) -> (r: Answer)
    requires
        state.wf(),
    ensures
        said(r) == nv_read(*state, texts(args@)),
{
    let handle: u32 = number(argument(args, 1), "handle")?;
    let o: Option<u16> = optional_u16(argument(args, 2), "offset")?;
    let given: Option<u16> = optional_u16(argument(args, 3), "size")?;
    let index: &NvIndex = match state.nv.get(handle) {
        Ok(i) => i,
        Err(e) => {
            return Err(code(e));
        },
    };
    let offset: u16 = match o {
        Some(n) => n,
        None => 0,
    };
    let size: u16 = match given {
        Some(n) => n,
        None => if index.public.data_size > offset {
            index.public.data_size - offset
        } else {
            0
        },
    };
    match index.read(offset, size) {
        Ok(d) => Ok(encode_hex(d.as_slice())),
        Err(e) => Err(code(e)),
    }
}

/// Whether octets may be written to an Index.
pub open spec fn write_refusal(i: NvIndex, offset: u16, d: Seq<u8>) -> bool {
    offset + d.len() > i.public.data_size || (i.public.attributes.has(NvAttributes::WRITEALL)
        && d.len() != i.public.data_size)
}

/// `nv write`.
pub open spec fn nv_written(
    after: TpmState,
    before: TpmState,
    args: Seq<Seq<char>>,
    r: Result<Seq<char>, Seq<char>>,
) -> bool {
    match (
        number_of(arg(args, 1), "handle"@),
        short_of(arg(args, 2), "offset"@),
        bytes_of(arg(args, 3), "data"@, config::MAX_NV_INDEX_SIZE as nat),
    ) {
        (Err(e), _, _) => after == before && r == Err::<Seq<char>, Seq<char>>(e),
        (_, Err(e), _) => after == before && r == Err::<Seq<char>, Seq<char>>(e),
        (_, _, Err(e)) => after == before && r == Err::<Seq<char>, Seq<char>>(e),
        (Ok(h), Ok(offset), Ok(d)) => if !before.nv.indices@.contains_key(h) {
            after == before && r == Err::<Seq<char>, Seq<char>>(code_of(TpmRc(rc::HANDLE)))
        } else if write_refusal(before.nv.indices@[h], offset, d) {
            &&& after == (TpmState { nv: after.nv, ..before })
            &&& after.nv.indices@ == before.nv.indices@
            &&& r == Err::<Seq<char>, Seq<char>>(code_of(TpmRc(rc::NV_RANGE)))
        } else {
            let i = before.nv.indices@[h];
            &&& after == (TpmState { nv: after.nv, ..before })
            &&& after.nv.indices@ == before.nv.indices@.insert(h, after.nv.indices@[h])
            &&& after.nv.indices@[h].now_holds(i, overlaid(i.held(), offset as int, d))
            &&& r == Ok::<Seq<char>, Seq<char>>("wrote "@ + decimal_of(d.len()) + " octets"@)
        },
    }
}

/// Write to an Index.
fn write_index(state: &mut TpmState, args: &Vec<&str>) -> (r: Answer)
    requires
        old(state).wf(),
    ensures
        final(state).wf(),
        nv_written(*final(state), *old(state), texts(args@), said(r)),
{
    let handle: u32 = number(argument(args, 1), "handle")?;
    let offset: u16 = number_u16(argument(args, 2), "offset")?;
    let data: Vec<u8> = bytes(argument(args, 3), "data", config::MAX_NV_INDEX_SIZE)?;
    let ghost before = state.nv.indices@;
    match state.nv.get_mut(handle) {
        Ok(index) => match index.write(offset, data.as_slice()) {
            Ok(_) => {},
            Err(e) => {
                assert(before.insert(handle, before[handle]) =~= before);
                return Err(code(e));
            },
        },
        Err(e) => {
            return Err(code(e));
        },
    }
    let n: String = decimal(data.len() as u64);
    Ok(join3("wrote ", n.as_str(), " octets"))
}

/// `nv undefine`.
pub open spec fn nv_removed(
    after: TpmState,
    before: TpmState,
    args: Seq<Seq<char>>,
    r: Result<Seq<char>, Seq<char>>,
) -> bool {
    match number_of(arg(args, 1), "handle"@) {
        Err(e) => after == before && r == Err::<Seq<char>, Seq<char>>(e),
        Ok(h) => if !before.nv.indices@.contains_key(h) {
            after == before && r == Err::<Seq<char>, Seq<char>>(code_of(TpmRc(rc::HANDLE)))
        } else {
            &&& after == (TpmState { nv: after.nv, ..before })
            &&& after.nv.indices@ == before.nv.indices@.remove(h)
            &&& r == Ok::<Seq<char>, Seq<char>>(hex_of(h as nat, 8) + " removed"@)
        },
    }
}

/// Remove an Index.
fn remove_index(state: &mut TpmState, args: &Vec<&str>) -> (r: Answer)
    requires
        old(state).wf(),
    ensures
        final(state).wf(),
        nv_removed(*final(state), *old(state), texts(args@), said(r)),
{
    let handle: u32 = number(argument(args, 1), "handle")?;
    match state.nv.undefine(handle) {
        Ok(_) => {
            let h: String = hex_number(handle as u64, 8);
            Ok(join2(h.as_str(), " removed"))
        },
        Err(e) => Err(code(e)),
    }
}

/// The `nv` commands.
pub open spec fn nv_acted(
    after: TpmState,
    before: TpmState,
    args: Seq<Seq<char>>,
    r: Result<Seq<char>, Seq<char>>,
) -> bool {
    if arg(args, 0) == Some("list"@) {
        after == before && r == Ok::<Seq<char>, Seq<char>>(nv_list(before))
    } else if arg(args, 0) == Some("read"@) {
        after == before && r == nv_read(before, args)
    } else if arg(args, 0) == Some("write"@) {
        nv_written(after, before, args, r)
    } else if arg(args, 0) == Some("undefine"@) {
        nv_removed(after, before, args, r)
    } else {
        after == before && r == Err::<Seq<char>, Seq<char>>("try nv list, read, write or undefine"@)
    }
}

/// The `nv` commands.
pub fn nv(state: &mut TpmState, args: &Vec<&str>) -> (r: Answer)
    requires
        old(state).wf(),
    ensures
        final(state).wf(),
        nv_acted(*final(state), *old(state), texts(args@), said(r)),
{
    if argument_is(args, 0, "list") {
        return Ok(list_indexes(state));
    }
    if argument_is(args, 0, "read") {
        return read_index(state, args);
    }
    if argument_is(args, 0, "write") {
        return write_index(state, args);
    }
    if argument_is(args, 0, "undefine") {
        return remove_index(state, args);
    }
    Err(String::from_str("try nv list, read, write or undefine"))
}

/// `rng show`.
pub open spec fn rng_shown(state: TpmState) -> Seq<char> {
    "key            "@ + hex_octets(state.rng.spec_key()) + "\nvalue          "@ + hex_octets(
        state.rng.spec_value(),
    ) + "\nreseed counter "@ + decimal_of(state.rng.spec_counter() as nat) + "\nneeds reseed   "@
        + truth_of(state.rng.spec_counter() > RESEED_INTERVAL)
}

/// The working state of the generator.
fn show_rng(state: &TpmState) -> (r: String)
    ensures
        r@ == rng_shown(*state),
{
    let mut out: String = String::from_str("key            ");
    let k: String = encode_hex(state.rng.key());
    out.append(k.as_str());
    out.append("\nvalue          ");
    let v: String = encode_hex(state.rng.value());
    out.append(v.as_str());
    out.append("\nreseed counter ");
    let c: String = decimal(state.rng.reseed_counter());
    out.append(c.as_str());
    out.append("\nneeds reseed   ");
    out.append(truth(state.rng.needs_reseed()));
    out
}

/// The generator with data mixed in, and a new count of requests.
pub open spec fn mixed(state: TpmState, data: Seq<u8>, counter: u64) -> RngModel {
    RngModel::Hmac {
        hash_alg: state.rng.spec_hash(),
        key: mixed_key(
            state.rng.spec_hash(),
            state.rng.spec_key(),
            state.rng.spec_value(),
            data,
        ),
        value: mixed_value(
            state.rng.spec_hash(),
            state.rng.spec_key(),
            state.rng.spec_value(),
            data,
        ),
        counter,
    }
}

/// `rng seed` and `rng stir`: data is mixed in, and a seeding starts the count
/// of requests again.
pub open spec fn rng_fed(
    after: TpmState,
    before: TpmState,
    given: Result<Seq<u8>, Seq<char>>,
    counter: u64,
    answer: Seq<char>,
    r: Result<Seq<char>, Seq<char>>,
) -> bool {
    match given {
        Err(e) => after == before && r == Err::<Seq<char>, Seq<char>>(e),
        Ok(data) => if !supported(before.rng.spec_hash()) {
            after == before && r == Err::<Seq<char>, Seq<char>>(code_of(TpmRc(rc::FAILURE)))
        } else {
            &&& after == (TpmState { rng: after.rng, ..before })
            &&& after.rng.model() == mixed(before, data, counter)
            &&& r == Ok::<Seq<char>, Seq<char>>(answer)
        },
    }
}

/// Seed the generator again.
fn seed_rng(state: &mut TpmState, args: &Vec<&str>) -> (r: Answer)
    requires
        old(state).wf(),
    ensures
        final(state).wf(),
        rng_fed(
            *final(state),
            *old(state),
            bytes_of(arg(texts(args@), 1), "entropy"@, MAX_STIR as nat),
            1,
            "reseeded, counter "@ + decimal_of(1),
            said(r),
        ),
{
    let entropy: Vec<u8> = bytes(argument(args, 1), "entropy", MAX_STIR)?;
    match state.rng.reseed(entropy.as_slice()) {
        Ok(_) => {
            let c: String = decimal(1);
            Ok(join2("reseeded, counter ", c.as_str()))
        },
        Err(e) => Err(code(e)),
    }
}

/// Mix data into the generator.
fn stir_rng(state: &mut TpmState, args: &Vec<&str>) -> (r: Answer)
    requires
        old(state).wf(),
    ensures
        final(state).wf(),
        rng_fed(
            *final(state),
            *old(state),
            bytes_of(arg(texts(args@), 1), "data"@, MAX_STIR as nat),
            old(state).rng.spec_counter(),
            "stirred"@,
            said(r),
        ),
{
    let data: Vec<u8> = bytes(argument(args, 1), "data", MAX_STIR)?;
    match state.rng.stir(data.as_slice()) {
        Ok(_) => Ok(String::from_str("stirred")),
        Err(e) => Err(code(e)),
    }
}

/// `rng bytes`.
pub open spec fn rng_drawn(
    after: TpmState,
    before: TpmState,
    args: Seq<Seq<char>>,
    r: Result<Seq<char>, Seq<char>>,
) -> bool {
    match number_of(arg(args, 1), "count"@) {
        Err(e) => after == before && r == Err::<Seq<char>, Seq<char>>(e),
        Ok(n) => if n > config::MAX_DIGEST_BUFFER {
            after == before && r == Err::<Seq<char>, Seq<char>>(
                "at most "@ + decimal_of(config::MAX_DIGEST_BUFFER as nat)
                    + " octets at a time"@,
            )
        } else {
            let out = draw(before.rng.model(), n as nat);
            &&& after == (TpmState { rng: after.rng, ..before })
            &&& after.rng.model() == out.1
            &&& match out.0 {
                Ok(d) => r == Ok::<Seq<char>, Seq<char>>(hex_octets(d)),
                Err(e) => r == Err::<Seq<char>, Seq<char>>(code_of(e)),
            }
        },
    }
}

/// Draw octets.
fn draw_octets(state: &mut TpmState, args: &Vec<&str>) -> (r: Answer)
    requires
        old(state).wf(),
    ensures
        final(state).wf(),
        rng_drawn(*final(state), *old(state), texts(args@), said(r)),
{
    let n: u32 = number(argument(args, 1), "count")?;
    let count: usize = n as usize;
    if count > config::MAX_DIGEST_BUFFER {
        let m: String = decimal(config::MAX_DIGEST_BUFFER as u64);
        return Err(join3("at most ", m.as_str(), " octets at a time"));
    }
    match state.rng.bytes(count) {
        Ok(d) => Ok(encode_hex(d.as_slice())),
        Err(e) => Err(code(e)),
    }
}

/// The `rng` commands.
pub open spec fn rng_acted(
    after: TpmState,
    before: TpmState,
    args: Seq<Seq<char>>,
    r: Result<Seq<char>, Seq<char>>,
) -> bool {
    if arg(args, 0) == Some("show"@) {
        after == before && r == Ok::<Seq<char>, Seq<char>>(rng_shown(before))
    } else if arg(args, 0) == Some("seed"@) {
        rng_fed(
            after,
            before,
            bytes_of(arg(args, 1), "entropy"@, MAX_STIR as nat),
            1,
            "reseeded, counter "@ + decimal_of(1),
            r,
        )
    } else if arg(args, 0) == Some("stir"@) {
        rng_fed(
            after,
            before,
            bytes_of(arg(args, 1), "data"@, MAX_STIR as nat),
            before.rng.spec_counter(),
            "stirred"@,
            r,
        )
    } else if arg(args, 0) == Some("bytes"@) {
        rng_drawn(after, before, args, r)
    } else {
        after == before && r == Err::<Seq<char>, Seq<char>>("try rng show, seed, stir or bytes"@)
    }
}

/// The `rng` commands.
pub fn rng(state: &mut TpmState, args: &Vec<&str>) -> (r: Answer)
    requires
        old(state).wf(),
    ensures
        final(state).wf(),
        rng_acted(*final(state), *old(state), texts(args@), said(r)),
{
    if argument_is(args, 0, "show") {
        return Ok(show_rng(state));
    }
    if argument_is(args, 0, "seed") {
        return seed_rng(state, args);
    }
    if argument_is(args, 0, "stir") {
        return stir_rng(state, args);
    }
    if argument_is(args, 0, "bytes") {
        return draw_octets(state, args);
    }
    Err(String::from_str("try rng show, seed, stir or bytes"))
}

} // verus!
