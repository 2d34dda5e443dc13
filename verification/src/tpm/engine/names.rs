//! The Names of entities.

use vstd::prelude::*;

use crate::tpm::constants::range::{is_nv, is_object};
use crate::tpm::crypto::hash::{digest, digest_size, hash_of, lemma_hash_len, size_of, supported};
use crate::tpm::structures::keys::{PublicView, TpmtPublic};
use crate::util::bytes::{be16, octets16, octets32, push_be16, push_be32, read_be16, to_vec};

verus! {

/// True for a handle that is its own Name: a PCR, a session or a permanent
/// entity.
pub open spec fn spec_name_is_handle(handle: u32) -> bool {
    !is_object(handle) && !is_nv(handle)
}

/// True for a handle that is its own Name: a PCR, a session or a permanent
/// entity.
#[verifier::when_used_as_spec(spec_name_is_handle)]
pub fn name_is_handle(handle: u32) -> (r: bool)
    ensures
        r == spec_name_is_handle(handle),
{
    !is_object(handle) && !is_nv(handle)
}

/// The Name of an entity that its handle names.
pub fn handle_name(handle: u32) -> (r: Vec<u8>)
    ensures
        r@ == octets32(handle),
{
    let mut out: Vec<u8> = Vec::new();
    push_be32(&mut out, handle);
    assert(out@ =~= octets32(handle));
    out
}

/// A digest behind the algorithm that made it, and nothing without one.
pub open spec fn named(name_alg: u16, data: Seq<u8>) -> Seq<u8> {
    if supported(name_alg) {
        octets16(name_alg) + hash_of(name_alg, data)
    } else {
        Seq::empty()
    }
}

/// A digest behind the algorithm that made it, and nothing without one.
pub fn name_over(name_alg: u16, data: &[u8]) -> (r: Vec<u8>)
    ensures
        r@ == named(name_alg, data@),
        r@.len() <= 66,
{
    broadcast use lemma_hash_len;

    match digest(name_alg, data) {
        Ok(d) => {
            let mut out: Vec<u8> = Vec::new();
            push_be16(&mut out, name_alg);
            out.extend_from_slice(d.as_slice());
            assert(out@ =~= named(name_alg, data@));
            out
        },
        Err(_) => Vec::new(),
    }
}

/// The Name of an object.
pub open spec fn object_name_of(public: PublicView) -> Seq<u8> {
    named(public.name_alg, public.octets())
}

/// The Name of an object.
pub fn object_name(public: &TpmtPublic) -> (r: Vec<u8>)
    ensures
        r@ == object_name_of(public@),
        r@.len() <= 66,
{
    let octets: Vec<u8> = public.to_bytes();
    name_over(public.name_alg, octets.as_slice())
}

/// The Qualified Name of an object under a parent.
pub open spec fn qualified_name_of(name_alg: u16, parent: Seq<u8>, name: Seq<u8>) -> Seq<u8> {
    named(name_alg, parent + name)
}

/// The Qualified Name of an object under a parent.
pub fn qualified_name(name_alg: u16, parent: &[u8], name: &[u8]) -> (r: Vec<u8>)
    ensures
        r@ == qualified_name_of(name_alg, parent@, name@),
        r@.len() <= 66,
{
    let mut data: Vec<u8> = to_vec(parent);
    data.extend_from_slice(name);
    assert(data@ =~= parent@ + name@);
    name_over(name_alg, data.as_slice())
}

/// True for what can be a Name: nothing, a handle, or a digest behind the
/// algorithm that made it.
pub open spec fn well_formed(name: Seq<u8>) -> bool {
    name.len() == 0 || name.len() == 4 || (name.len() > 2 && supported(be16(name, 0)) && name.len()
        == 2 + size_of(be16(name, 0)))
}

/// True for what can be a Name.
pub fn is_well_formed(name: &[u8]) -> (r: bool)
    ensures
        r == well_formed(name@),
{
    if name.len() == 0 || name.len() == 4 {
        return true;
    }
    if name.len() <= 2 {
        return false;
    }
    match digest_size(read_be16(name, 0)) {
        Ok(n) => name.len() == 2 + n,
        Err(_) => false,
    }
}

} // verus!
