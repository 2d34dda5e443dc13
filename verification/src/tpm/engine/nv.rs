//! NV Indices.

use vstd::prelude::*;

use super::names::{name_over, named};
use crate::tpm::config;
use crate::tpm::constants::range::is_nv;
use crate::tpm::constants::{nt, rc};
use crate::tpm::crypto::hash::{digest, hash_of, lemma_hash_len, size_of, supported};
use crate::tpm::error::{TpmRc, TpmResult};
use crate::tpm::structures::attributes::NvAttributes;
use crate::tpm::structures::nv::{NvPinCounterParameters, NvPublic};
use crate::util::bytes::{
    be32, be64, filled, octets32, octets64, push_be32, push_be64, read_be32, read_be64, sub_vec,
};

verus! {

/// An NV Index.
#[derive(Debug)]
pub struct NvIndex {
    pub public: NvPublic,
    pub auth: Vec<u8>,
    /// What the Index holds, once it has been written.
    pub data: Vec<u8>,
    pub read_locked: bool,
    pub write_locked: bool,
}

/// Octets an Index of type `kind` holds, where the type decides.
pub open spec fn fixed_size(kind: u8, name_alg: u16) -> Option<nat> {
    if kind == nt::COUNTER || kind == nt::BITS || kind == nt::PIN_FAIL || kind == nt::PIN_PASS {
        Some(8)
    } else if kind == nt::EXTEND {
        Some(size_of(name_alg))
    } else {
        None
    }
}

/// `data` with `new` written over it at `offset`.
pub open spec fn overlaid(data: Seq<u8>, offset: int, new: Seq<u8>) -> Seq<u8> {
    data.take(offset) + new + data.skip(offset + new.len())
}

/// Setting or clearing a lock leaves the type and TPMA_NV_WRITTEN alone, and
/// a write leaves the type alone.
proof fn lemma_other_bits(a: u32)
    by (bit_vector)
    ensures
        (a | 0x2000_0000u32) & 0xF0 == a & 0xF0,
        (a | 0x2000_0000u32) & 0x2000_0000 == 0x2000_0000,
        (a | 0x800u32) & 0xF0 == a & 0xF0,
        (a | 0x800u32) & 0x2000_0000 == a & 0x2000_0000,
        (a & !0x800u32) & 0xF0 == a & 0xF0,
        (a & !0x800u32) & 0x2000_0000 == a & 0x2000_0000,
        (a | 0x1000_0000u32) & 0xF0 == a & 0xF0,
        (a | 0x1000_0000u32) & 0x2000_0000 == a & 0x2000_0000,
        (a & !0x1000_0000u32) & 0xF0 == a & 0xF0,
        (a & !0x1000_0000u32) & 0x2000_0000 == a & 0x2000_0000,
        (a & !0x2000_0000u32) & 0xF0 == a & 0xF0,
        (a & !0x2000_0000u32) & 0x2000_0000 == 0,
{
}

impl NvIndex {
    /// True when the size fits the type, and an Index that was written holds
    /// that many octets.
    pub open spec fn wf(&self) -> bool {
        &&& is_nv(self.public.nv_index)
        &&& supported(self.public.name_alg)
        &&& self.public.data_size <= config::MAX_NV_INDEX_SIZE
        &&& self.auth@.len() <= 64
        &&& self.written() ==> self.data@.len() == self.public.data_size
        &&& fixed_size(self.public.attributes.index_type(), self.public.name_alg) matches Some(n)
            ==> self.public.data_size == n
    }

    /// True once the Index has been written.
    pub open spec fn spec_written(&self) -> bool {
        self.public.attributes.has(NvAttributes::WRITTEN)
    }

    /// True once the Index has been written.
    #[verifier::when_used_as_spec(spec_written)]
    pub fn written(&self) -> (r: bool)
        ensures
            r == self.spec_written(),
    {
        self.public.attributes.has(NvAttributes::WRITTEN)
    }

    /// The type of the Index.
    pub open spec fn spec_index_type(&self) -> u8 {
        self.public.attributes.index_type()
    }

    /// The type of the Index.
    #[verifier::when_used_as_spec(spec_index_type)]
    pub fn index_type(&self) -> (r: u8)
        ensures
            r == self.spec_index_type(),
    {
        self.public.attributes.index_type()
    }

    /// True for a PIN Pass and a PIN Fail Index.
    pub open spec fn spec_is_pin(&self) -> bool {
        self.index_type() == nt::PIN_FAIL || self.index_type() == nt::PIN_PASS
    }

    /// True for a PIN Pass and a PIN Fail Index.
    #[verifier::when_used_as_spec(spec_is_pin)]
    pub fn is_pin(&self) -> (r: bool)
        ensures
            r == self.spec_is_pin(),
    {
        self.index_type() == nt::PIN_FAIL || self.index_type() == nt::PIN_PASS
    }

    /// The Name of the Index.
    pub open spec fn name_of(&self) -> Seq<u8> {
        named(self.public.name_alg, self.public@.octets())
    }

    /// The Name of the Index.
    pub fn name(&self) -> (r: Vec<u8>)
        ensures
            r@ == self.name_of(),
            r@.len() <= 66,
    {
        let octets: Vec<u8> = self.public.to_bytes();
        name_over(self.public.name_alg, octets.as_slice())
    }

    /// Octets `offset` and on.
    ///
    /// TPM_RC_NV_UNINITIALIZED before the first write, and TPM_RC_NV_RANGE for
    /// octets the Index does not have.
    pub open spec fn reading(&self, offset: u16, size: u16) -> TpmResult<Seq<u8>> {
        if !self.written() {
            Err(TpmRc(rc::NV_UNINITIALIZED))
        } else if offset + size > self.public.data_size {
            Err(TpmRc(rc::NV_RANGE))
        } else {
            Ok(self.data@.subrange(offset as int, offset + size))
        }
    }

    /// Octets `offset` and on.
    pub fn read(&self, offset: u16, size: u16) -> (r: TpmResult<Vec<u8>>)
        requires
            self.wf(),
        ensures
            match self.reading(offset, size) {
                Ok(v) => r is Ok && r->Ok_0@ == v,
                Err(e) => r is Err && r->Err_0 == e,
            },
    {
        if !self.written() {
            return Err(TpmRc(rc::NV_UNINITIALIZED));
        }
        let end: usize = offset as usize + size as usize;
        if end > self.public.data_size as usize {
            return Err(TpmRc(rc::NV_RANGE));
        }
        Ok(sub_vec(self.data.as_slice(), offset as usize, end))
    }

    /// What the Index holds before a write: octets of all ones until the first.
    pub open spec fn held(&self) -> Seq<u8> {
        if self.written() {
            self.data@
        } else {
            Seq::new(self.public.data_size as nat, |i: int| 0xFFu8)
        }
    }

    /// The Index after `data` became what it holds.
    pub open spec fn now_holds(&self, before: NvIndex, data: Seq<u8>) -> bool {
        &&& *self == (NvIndex {
            data: self.data,
            public: NvPublic {
                attributes: before.public.attributes.put(NvAttributes::WRITTEN, true),
                ..before.public
            },
            ..before
        })
        &&& self.data@ == data
    }

    /// Let the Index hold `data`.
    fn hold(&mut self, data: Vec<u8>)
        requires
            old(self).wf(),
            data@.len() == old(self).public.data_size,
        ensures
            final(self).now_holds(*old(self), data@),
            final(self).wf(),
            final(self).written(),
    {
        self.data = data;
        self.public.attributes.set(NvAttributes::WRITTEN, true);
        proof {
            lemma_other_bits(old(self).public.attributes.0);
        }
    }

    /// Write `new` at `offset`.
    ///
    /// TPM_RC_NV_RANGE for octets the Index does not have, and for a part of an
    /// Index that is only written as a whole.
    pub fn write(&mut self, offset: u16, new: &[u8]) -> (r: TpmResult<()>)
        requires
            old(self).wf(),
        ensures
            final(self).wf(),
            r is Ok <==> offset + new@.len() <= old(self).public.data_size && (old(
                self,
            ).public.attributes.has(NvAttributes::WRITEALL) ==> new@.len() == old(
                self,
            ).public.data_size),
            r matches Err(e) ==> e == TpmRc(rc::NV_RANGE) && *final(self) == *old(self),
            r is Ok ==> final(self).now_holds(
                *old(self),
                overlaid(old(self).held(), offset as int, new@),
            ),
    {
        let total: usize = self.public.data_size as usize;
        if new.len() > total || offset as usize > total - new.len() {
            return Err(TpmRc(rc::NV_RANGE));
        }
        if self.public.attributes.has(NvAttributes::WRITEALL) && new.len() != total {
            return Err(TpmRc(rc::NV_RANGE));
        }
        let held: Vec<u8> = if self.written() {
            sub_vec(self.data.as_slice(), 0, total)
        } else {
            filled(0xFF, total)
        };
        assert(held@ =~= self.held());
        let at: usize = offset as usize;
        let mut data: Vec<u8> = sub_vec(held.as_slice(), 0, at);
        data.extend_from_slice(new);
        let mut rest: Vec<u8> = sub_vec(held.as_slice(), at + new.len(), total);
        data.append(&mut rest);
        assert(data@ =~= overlaid(old(self).held(), offset as int, new@));
        self.hold(data);
        Ok(())
    }

    /// The count of a counter, or the bits of a bit field. Both start at zero.
    pub open spec fn number(&self) -> u64 {
        if self.written() {
            be64(self.data@, 0)
        } else {
            0
        }
    }

    fn read_number(&self) -> (r: u64)
        requires
            self.wf(),
            self.public.data_size == 8,
        ensures
            r == self.number(),
    {
        if self.written() {
            read_be64(self.data.as_slice(), 0)
        } else {
            0
        }
    }

    /// Add one to a counter. TPM_RC_ATTRIBUTES for an Index of another type.
    pub fn increment(&mut self) -> (r: TpmResult<()>)
        requires
            old(self).wf(),
        ensures
            final(self).wf(),
            r is Ok <==> old(self).index_type() == nt::COUNTER,
            r matches Err(e) ==> e == TpmRc(rc::ATTRIBUTES) && *final(self) == *old(self),
            r is Ok ==> final(self).now_holds(
                *old(self),
                octets64(
                    if old(self).number() == u64::MAX {
                        0
                    } else {
                        (old(self).number() + 1) as u64
                    },
                ),
            ),
    {
        if self.index_type() != nt::COUNTER {
            return Err(TpmRc(rc::ATTRIBUTES));
        }
        let count: u64 = self.read_number();
        let next: u64 = if count == u64::MAX {
            0
        } else {
            count + 1
        };
        let mut data: Vec<u8> = Vec::new();
        push_be64(&mut data, next);
        assert(data@ =~= octets64(next));
        self.hold(data);
        Ok(())
    }

    /// Set bits of a bit field. TPM_RC_ATTRIBUTES for an Index of another type.
    pub fn set_bits(&mut self, bits: u64) -> (r: TpmResult<()>)
        requires
            old(self).wf(),
        ensures
            final(self).wf(),
            r is Ok <==> old(self).index_type() == nt::BITS,
            r matches Err(e) ==> e == TpmRc(rc::ATTRIBUTES) && *final(self) == *old(self),
            r is Ok ==> final(self).now_holds(*old(self), octets64(old(self).number() | bits)),
    {
        if self.index_type() != nt::BITS {
            return Err(TpmRc(rc::ATTRIBUTES));
        }
        let next: u64 = self.read_number() | bits;
        let mut data: Vec<u8> = Vec::new();
        push_be64(&mut data, next);
        assert(data@ =~= octets64(next));
        self.hold(data);
        Ok(())
    }

    /// The digest an extend Index holds. It starts at zeros.
    pub open spec fn measured(&self) -> Seq<u8> {
        if self.written() {
            self.data@
        } else {
            Seq::new(self.public.data_size as nat, |i: int| 0u8)
        }
    }

    /// Extend with `new`. TPM_RC_ATTRIBUTES for an Index of another type.
    pub fn extend(&mut self, new: &[u8]) -> (r: TpmResult<()>)
        requires
            old(self).wf(),
        ensures
            final(self).wf(),
            r is Ok <==> old(self).index_type() == nt::EXTEND,
            r matches Err(e) ==> e == TpmRc(rc::ATTRIBUTES) && *final(self) == *old(self),
            r is Ok ==> final(self).now_holds(
                *old(self),
                hash_of(old(self).public.name_alg, old(self).measured() + new@),
            ),
    {
        broadcast use lemma_hash_len;

        if self.index_type() != nt::EXTEND {
            return Err(TpmRc(rc::ATTRIBUTES));
        }
        let total: usize = self.public.data_size as usize;
        let mut input: Vec<u8> = if self.written() {
            sub_vec(self.data.as_slice(), 0, total)
        } else {
            filled(0, total)
        };
        assert(input@ =~= self.measured());
        input.extend_from_slice(new);
        assert(input@ =~= self.measured() + new@);
        match digest(self.public.name_alg, input.as_slice()) {
            Ok(d) => {
                self.hold(d);
                Ok(())
            },
            Err(_) => Err(TpmRc(rc::ATTRIBUTES)),
        }
    }

    /// The counters of a PIN Index that was written.
    pub open spec fn pins(&self) -> NvPinCounterParameters {
        NvPinCounterParameters { pin_count: be32(self.data@, 0), pin_limit: be32(self.data@, 4) }
    }

    /// The counters of a PIN Index, or TPM_RC_NV_UNINITIALIZED when the Index
    /// holds none.
    pub fn pin_counters(&self) -> (r: TpmResult<NvPinCounterParameters>)
        ensures
            r is Ok <==> self.data@.len() == 8,
            r matches Ok(c) ==> c == self.pins(),
            r matches Err(e) ==> e == TpmRc(rc::NV_UNINITIALIZED),
    {
        if self.data.len() != 8 {
            return Err(TpmRc(rc::NV_UNINITIALIZED));
        }
        Ok(
            NvPinCounterParameters {
                pin_count: read_be32(self.data.as_slice(), 0),
                pin_limit: read_be32(self.data.as_slice(), 4),
            },
        )
    }

    /// Let a PIN Index hold these counters. TPM_RC_ATTRIBUTES for an Index of
    /// another size.
    pub fn set_pin_counters(&mut self, counters: NvPinCounterParameters) -> (r: TpmResult<()>)
        requires
            old(self).wf(),
        ensures
            final(self).wf(),
            r is Ok <==> old(self).public.data_size == 8,
            r matches Err(e) ==> e == TpmRc(rc::ATTRIBUTES) && *final(self) == *old(self),
            r is Ok ==> final(self).now_holds(*old(self), counters.octets()) && final(self).pins()
                == counters,
    {
        if self.public.data_size != 8 {
            return Err(TpmRc(rc::ATTRIBUTES));
        }
        let mut data: Vec<u8> = Vec::new();
        push_be32(&mut data, counters.pin_count);
        push_be32(&mut data, counters.pin_limit);
        assert(data@ =~= counters.octets());
        proof {
            let d = data@;
            crate::util::bytes::lemma_octets32(counters.pin_count);
            crate::util::bytes::lemma_octets32(counters.pin_limit);
            crate::util::bytes::lemma_sub_be(d, 0, 4, 0);
            crate::util::bytes::lemma_sub_be(d, 4, 8, 0);
            assert(d.subrange(0, 4) =~= octets32(counters.pin_count));
            assert(d.subrange(4, 8) =~= octets32(counters.pin_limit));
        }
        self.hold(data);
        Ok(())
    }

    /// Let the Index be as before the first write.
    pub fn forget(&mut self)
        ensures
            *final(self) == (NvIndex {
                public: NvPublic {
                    attributes: old(self).public.attributes.put(NvAttributes::WRITTEN, false),
                    ..old(self).public
                },
                ..*old(self)
            }),
            old(self).wf() ==> final(self).wf(),
            !final(self).written(),
    {
        self.public.attributes.set(NvAttributes::WRITTEN, false);
        proof {
            lemma_other_bits(old(self).public.attributes.0);
        }
    }

    /// Lock the Index against writes, or unlock it.
    pub fn set_write_lock(&mut self, on: bool)
        ensures
            *final(self) == (NvIndex {
                write_locked: on,
                public: NvPublic {
                    attributes: old(self).public.attributes.put(NvAttributes::WRITELOCKED, on),
                    ..old(self).public
                },
                ..*old(self)
            }),
            old(self).wf() ==> final(self).wf(),
    {
        self.write_locked = on;
        self.public.attributes.set(NvAttributes::WRITELOCKED, on);
        proof {
            lemma_other_bits(old(self).public.attributes.0);
        }
    }

    /// Lock the Index against reads, or unlock it.
    pub fn set_read_lock(&mut self, on: bool)
        ensures
            *final(self) == (NvIndex {
                read_locked: on,
                public: NvPublic {
                    attributes: old(self).public.attributes.put(NvAttributes::READLOCKED, on),
                    ..old(self).public
                },
                ..*old(self)
            }),
            old(self).wf() ==> final(self).wf(),
    {
        self.read_locked = on;
        self.public.attributes.set(NvAttributes::READLOCKED, on);
        proof {
            lemma_other_bits(old(self).public.attributes.0);
        }
    }
}

} // verus!
