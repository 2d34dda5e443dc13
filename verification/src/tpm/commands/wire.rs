//! Reading the parameters of a command and stating what it answers.

use vstd::prelude::*;

use super::dispatch::Response;
use crate::tpm::constants::rc;
use crate::tpm::error::{parameter_result, TpmRc, TpmResult};
use crate::tpm::marshal::{parse_sized, Parsed, Reader};
use crate::tpm::structures::base::Tpm2b;
use crate::util::bytes::{be16, be32, be64};

verus! {

/// What is read as parameter `n`: an error says which parameter it is in.
pub open spec fn numbered<T>(x: Parsed<T>, n: int) -> Parsed<T> {
    match x {
        Ok(v) => Ok(v),
        Err(e) => Err(e.for_parameter(n)),
    }
}

/// Parameter `n`, one octet.
pub open spec fn in_u8(p: Seq<u8>, at: int, n: int) -> Parsed<u8> {
    if at + 1 <= p.len() {
        Ok((p[at], at + 1))
    } else {
        Err(TpmRc(rc::INSUFFICIENT).for_parameter(n))
    }
}

/// Parameter `n`, a UINT16.
pub open spec fn in_u16(p: Seq<u8>, at: int, n: int) -> Parsed<u16> {
    if at + 2 <= p.len() {
        Ok((be16(p, at), at + 2))
    } else {
        Err(TpmRc(rc::INSUFFICIENT).for_parameter(n))
    }
}

/// Parameter `n`, a UINT32.
pub open spec fn in_u32(p: Seq<u8>, at: int, n: int) -> Parsed<u32> {
    if at + 4 <= p.len() {
        Ok((be32(p, at), at + 4))
    } else {
        Err(TpmRc(rc::INSUFFICIENT).for_parameter(n))
    }
}

/// Parameter `n`, a UINT64.
pub open spec fn in_u64(p: Seq<u8>, at: int, n: int) -> Parsed<u64> {
    if at + 8 <= p.len() {
        Ok((be64(p, at), at + 8))
    } else {
        Err(TpmRc(rc::INSUFFICIENT).for_parameter(n))
    }
}

/// Parameter `n`, at most `max` octets behind their size.
pub open spec fn in_sized(p: Seq<u8>, at: int, max: int, n: int) -> Parsed<Seq<u8>> {
    numbered(parse_sized(p, at, max), n)
}

/// One octet.
pub open spec fn raw_u8(p: Seq<u8>, at: int) -> Parsed<u8> {
    if at + 1 <= p.len() {
        Ok((p[at], at + 1))
    } else {
        Err(TpmRc(rc::INSUFFICIENT))
    }
}

/// A UINT16.
pub open spec fn raw_u16(p: Seq<u8>, at: int) -> Parsed<u16> {
    if at + 2 <= p.len() {
        Ok((be16(p, at), at + 2))
    } else {
        Err(TpmRc(rc::INSUFFICIENT))
    }
}

/// A UINT32.
pub open spec fn raw_u32(p: Seq<u8>, at: int) -> Parsed<u32> {
    if at + 4 <= p.len() {
        Ok((be32(p, at), at + 4))
    } else {
        Err(TpmRc(rc::INSUFFICIENT))
    }
}

/// A UINT64.
pub open spec fn raw_u64(p: Seq<u8>, at: int) -> Parsed<u64> {
    if at + 8 <= p.len() {
        Ok((be64(p, at), at + 8))
    } else {
        Err(TpmRc(rc::INSUFFICIENT))
    }
}

/// What was read last, when nothing follows it.
pub open spec fn alone<T>(p: Seq<u8>, x: Parsed<T>) -> TpmResult<T> {
    match x {
        Err(e) => Err(e),
        Ok((v, next)) => if next == p.len() {
            Ok(v)
        } else {
            Err(TpmRc(rc::SIZE))
        },
    }
}

/// Read parameter `n`, one octet.
pub fn read_u8(r: &mut Reader, n: usize) -> (out: TpmResult<u8>)
    ensures
        final(r).data() == old(r).data(),
        0 <= old(r).at() <= final(r).at() <= final(r).data().len(),
        match in_u8(old(r).data(), old(r).at(), n as int) {
            Ok((v, next)) => out == Ok::<u8, TpmRc>(v) && final(r).at() == next,
            Err(e) => out == Err::<u8, TpmRc>(e),
        },
{
    match r.u8() {
        Ok(v) => Ok(v),
        Err(e) => Err(e.with_parameter(n)),
    }
}

/// Read parameter `n`, a UINT16.
pub fn read_u16(r: &mut Reader, n: usize) -> (out: TpmResult<u16>)
    ensures
        final(r).data() == old(r).data(),
        0 <= old(r).at() <= final(r).at() <= final(r).data().len(),
        match in_u16(old(r).data(), old(r).at(), n as int) {
            Ok((v, next)) => out == Ok::<u16, TpmRc>(v) && final(r).at() == next,
            Err(e) => out == Err::<u16, TpmRc>(e),
        },
{
    match r.u16() {
        Ok(v) => Ok(v),
        Err(e) => Err(e.with_parameter(n)),
    }
}

/// Read parameter `n`, a UINT32.
pub fn read_u32(r: &mut Reader, n: usize) -> (out: TpmResult<u32>)
    ensures
        final(r).data() == old(r).data(),
        0 <= old(r).at() <= final(r).at() <= final(r).data().len(),
        match in_u32(old(r).data(), old(r).at(), n as int) {
            Ok((v, next)) => out == Ok::<u32, TpmRc>(v) && final(r).at() == next,
            Err(e) => out == Err::<u32, TpmRc>(e),
        },
{
    match r.u32() {
        Ok(v) => Ok(v),
        Err(e) => Err(e.with_parameter(n)),
    }
}

/// Read parameter `n`, a UINT64.
pub fn read_u64(r: &mut Reader, n: usize) -> (out: TpmResult<u64>)
    ensures
        final(r).data() == old(r).data(),
        0 <= old(r).at() <= final(r).at() <= final(r).data().len(),
        match in_u64(old(r).data(), old(r).at(), n as int) {
            Ok((v, next)) => out == Ok::<u64, TpmRc>(v) && final(r).at() == next,
            Err(e) => out == Err::<u64, TpmRc>(e),
        },
{
    match r.u64() {
        Ok(v) => Ok(v),
        Err(e) => Err(e.with_parameter(n)),
    }
}

/// Read parameter `n`, octets behind their size.
pub fn read_sized<const MAX: usize>(r: &mut Reader, n: usize) -> (out: TpmResult<Vec<u8>>)
    ensures
        final(r).data() == old(r).data(),
        0 <= old(r).at() <= final(r).at() <= final(r).data().len(),
        match in_sized(old(r).data(), old(r).at(), MAX as int, n as int) {
            Ok((v, next)) => out is Ok && out->Ok_0@ == v && v.len() <= MAX && final(r).at()
                == next,
            Err(e) => out is Err && out->Err_0 == e,
        },
{
    match Tpm2b::<MAX>::unmarshal(r) {
        Ok(v) => Ok(v.to_vec()),
        Err(e) => Err(e.with_parameter(n)),
    }
}

/// Read octets behind their size.
pub fn take_sized<const MAX: usize>(r: &mut Reader) -> (out: TpmResult<Vec<u8>>)
    ensures
        final(r).data() == old(r).data(),
        0 <= old(r).at() <= final(r).at() <= final(r).data().len(),
        match parse_sized(old(r).data(), old(r).at(), MAX as int) {
            Ok((v, next)) => out is Ok && out->Ok_0@ == v && v.len() <= MAX && final(r).at()
                == next,
            Err(e) => out is Err && out->Err_0 == e,
        },
{
    match Tpm2b::<MAX>::unmarshal(r) {
        Ok(v) => Ok(v.to_vec()),
        Err(e) => Err(e),
    }
}

/// A result whose error says that it is in parameter `n`.
pub fn at_parameter<T>(x: TpmResult<T>, n: usize) -> (r: TpmResult<T>)
    ensures
        r == parameter_result(x, n as int),
{
    match x {
        Ok(v) => Ok(v),
        Err(e) => Err(e.with_parameter(n)),
    }
}

/// The command failed with `e`.
pub open spec fn fails(r: TpmResult<Response>, e: TpmRc) -> bool {
    r == Err::<Response, TpmRc>(e)
}

/// The command succeeded and returns the parameters.
pub open spec fn answers_with(r: TpmResult<Response>, parameters: Seq<u8>) -> bool {
    r is Ok && r->Ok_0.handle is None && r->Ok_0.parameters@ == parameters
}

/// The command succeeded and returns nothing.
pub open spec fn answers_nothing(r: TpmResult<Response>) -> bool {
    answers_with(r, Seq::empty())
}

/// The command succeeded and returns a handle and the parameters.
pub open spec fn answers_handle(r: TpmResult<Response>, handle: u32, parameters: Seq<u8>) -> bool {
    r is Ok && r->Ok_0.handle == Some(handle) && r->Ok_0.parameters@ == parameters
}

/// A response without anything in it.
pub fn nothing() -> (r: TpmResult<Response>)
    ensures
        answers_nothing(r),
{
    Ok(Response::empty())
}

} // verus!
