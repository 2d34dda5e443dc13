//! Reading and writing the canonical form of TPM structures.
//!
//! Every integer is big endian. A reader answers TPM_RC_INSUFFICIENT when the
//! octets run out and TPM_RC_SIZE when some are left over.

use vstd::prelude::*;

use crate::tpm::constants::rc;
use crate::tpm::error::{TpmRc, TpmResult};
use crate::util::bytes::{
    be16, be32, be64, octets16, octets32, octets64, push_be16, push_be32, push_be64, read_be16,
    read_be32, read_be64, sub_vec,
};

verus! {

/// What a structure holds and where the octets after it start, or the code
/// that refuses it.
pub type Parsed<V> = Result<(V, int), TpmRc>;

/// A read position in a run of octets.
pub struct Reader<'a> {
    octets: &'a [u8],
    position: usize,
}

impl<'a> Reader<'a> {
    /// Every octet there is to read.
    pub closed spec fn data(&self) -> Seq<u8> {
        self.octets@
    }

    /// How many of them have been read.
    pub closed spec fn at(&self) -> int {
        self.position as int
    }

    /// No more than the octets there are is ever read.
    #[verifier::type_invariant]
    pub open spec fn inside(self) -> bool {
        0 <= self.at() <= self.data().len()
    }

    /// Start at the first octet.
    pub fn new(octets: &'a [u8]) -> (r: Reader<'a>)
        ensures
            r.data() == octets@,
            r.at() == 0,
    {
        Reader { octets, position: 0 }
    }

    /// Octets that are left.
    pub fn remaining(&self) -> (n: usize)
        ensures
            n == self.data().len() - self.at(),
            0 <= self.at() <= self.data().len(),
    {
        proof {
            use_type_invariant(&*self);
        }
        self.octets.len() - self.position
    }

    /// Octets that have been read.
    pub fn position(&self) -> (n: usize)
        ensures
            n == self.at(),
    {
        self.position
    }

    /// True when nothing is left.
    pub fn is_empty(&self) -> (r: bool)
        ensures
            r == (self.at() == self.data().len()),
    {
        proof {
            use_type_invariant(&*self);
        }
        self.position == self.octets.len()
    }

    /// Read one octet.
    pub fn u8(&mut self) -> (r: TpmResult<u8>)
        ensures
            final(self).data() == old(self).data(),
            0 <= old(self).at() <= final(self).at() <= final(self).data().len(),
            r is Ok <==> old(self).at() + 1 <= old(self).data().len(),
            r matches Ok(v) ==> v == old(self).data()[old(self).at()] && final(self).at() == old(
                self,
            ).at() + 1,
            r matches Err(e) ==> e == TpmRc(rc::INSUFFICIENT) && final(self).at() == old(self).at(),
    {
        proof {
            use_type_invariant(&*self);
        }
        if self.octets.len() - self.position < 1 {
            return Err(TpmRc(rc::INSUFFICIENT));
        }
        let v: u8 = self.octets[self.position];
        self.position = self.position + 1;
        Ok(v)
    }

    /// Read a signed octet.
    pub fn i8(&mut self) -> (r: TpmResult<i8>)
        ensures
            final(self).data() == old(self).data(),
            0 <= old(self).at() <= final(self).at() <= final(self).data().len(),
            r is Ok <==> old(self).at() + 1 <= old(self).data().len(),
            r matches Ok(v) ==> v == old(self).data()[old(self).at()] as i8 && final(self).at()
                == old(self).at() + 1,
            r matches Err(e) ==> e == TpmRc(rc::INSUFFICIENT) && final(self).at() == old(self).at(),
    {
        let v: u8 = self.u8()?;
        Ok(v as i8)
    }

    /// Read a UINT16.
    pub fn u16(&mut self) -> (r: TpmResult<u16>)
        ensures
            final(self).data() == old(self).data(),
            0 <= old(self).at() <= final(self).at() <= final(self).data().len(),
            r is Ok <==> old(self).at() + 2 <= old(self).data().len(),
            r matches Ok(v) ==> v == be16(old(self).data(), old(self).at()) && final(self).at()
                == old(self).at() + 2,
            r matches Err(e) ==> e == TpmRc(rc::INSUFFICIENT) && final(self).at() == old(self).at(),
    {
        proof {
            use_type_invariant(&*self);
        }
        if self.octets.len() - self.position < 2 {
            return Err(TpmRc(rc::INSUFFICIENT));
        }
        let v: u16 = read_be16(self.octets, self.position);
        self.position = self.position + 2;
        Ok(v)
    }

    /// Read a UINT32.
    pub fn u32(&mut self) -> (r: TpmResult<u32>)
        ensures
            final(self).data() == old(self).data(),
            0 <= old(self).at() <= final(self).at() <= final(self).data().len(),
            r is Ok <==> old(self).at() + 4 <= old(self).data().len(),
            r matches Ok(v) ==> v == be32(old(self).data(), old(self).at()) && final(self).at()
                == old(self).at() + 4,
            r matches Err(e) ==> e == TpmRc(rc::INSUFFICIENT) && final(self).at() == old(self).at(),
    {
        proof {
            use_type_invariant(&*self);
        }
        if self.octets.len() - self.position < 4 {
            return Err(TpmRc(rc::INSUFFICIENT));
        }
        let v: u32 = read_be32(self.octets, self.position);
        self.position = self.position + 4;
        Ok(v)
    }

    /// Read a UINT64.
    pub fn u64(&mut self) -> (r: TpmResult<u64>)
        ensures
            final(self).data() == old(self).data(),
            0 <= old(self).at() <= final(self).at() <= final(self).data().len(),
            r is Ok <==> old(self).at() + 8 <= old(self).data().len(),
            r matches Ok(v) ==> v == be64(old(self).data(), old(self).at()) && final(self).at()
                == old(self).at() + 8,
            r matches Err(e) ==> e == TpmRc(rc::INSUFFICIENT) && final(self).at() == old(self).at(),
    {
        proof {
            use_type_invariant(&*self);
        }
        if self.octets.len() - self.position < 8 {
            return Err(TpmRc(rc::INSUFFICIENT));
        }
        let v: u64 = read_be64(self.octets, self.position);
        self.position = self.position + 8;
        Ok(v)
    }

    /// Read `count` octets.
    pub fn take(&mut self, count: usize) -> (r: TpmResult<Vec<u8>>)
        ensures
            final(self).data() == old(self).data(),
            0 <= old(self).at() <= final(self).at() <= final(self).data().len(),
            r is Ok <==> old(self).at() + count <= old(self).data().len(),
            r matches Ok(v) ==> v@ == old(self).data().subrange(
                old(self).at(),
                old(self).at() + count,
            ) && final(self).at() == old(self).at() + count,
            r matches Err(e) ==> e == TpmRc(rc::INSUFFICIENT) && final(self).at() == old(self).at(),
    {
        proof {
            use_type_invariant(&*self);
        }
        if self.octets.len() - self.position < count {
            return Err(TpmRc(rc::INSUFFICIENT));
        }
        let end: usize = self.position + count;
        let v: Vec<u8> = sub_vec(self.octets, self.position, end);
        self.position = end;
        Ok(v)
    }

    /// Read everything that is left.
    pub fn take_rest(&mut self) -> (v: Vec<u8>)
        ensures
            final(self).data() == old(self).data(),
            0 <= old(self).at() <= final(self).at() <= final(self).data().len(),
            final(self).at() == old(self).data().len(),
            v@ == old(self).data().subrange(old(self).at(), old(self).data().len() as int),
    {
        proof {
            use_type_invariant(&*self);
        }
        let end: usize = self.octets.len();
        let v: Vec<u8> = sub_vec(self.octets, self.position, end);
        self.position = end;
        v
    }

    /// Refuse octets that are left over.
    pub fn expect_end(&self) -> (r: TpmResult<()>)
        ensures
            r is Ok <==> self.at() == self.data().len(),
            r matches Err(e) ==> e == TpmRc(rc::SIZE),
    {
        if self.is_empty() {
            Ok(())
        } else {
            Err(TpmRc(rc::SIZE))
        }
    }
}

/// Octets being put together.
pub struct Writer {
    octets: Vec<u8>,
    overflowed: bool,
}

impl Writer {
    /// What has been written.
    pub closed spec fn written(&self) -> Seq<u8> {
        self.octets@
    }

    /// True while every sized field has fitted its size.
    pub closed spec fn good(&self) -> bool {
        !self.overflowed
    }

    /// Start with nothing written.
    pub fn new() -> (w: Writer)
        ensures
            w.written() == Seq::<u8>::empty(),
            w.good(),
    {
        Writer { octets: Vec::new(), overflowed: false }
    }

    /// Start with nothing written and room for `capacity` octets.
    pub fn with_capacity(capacity: usize) -> (w: Writer)
        ensures
            w.written() == Seq::<u8>::empty(),
            w.good(),
    {
        Writer { octets: Vec::with_capacity(capacity), overflowed: false }
    }

    /// Write one octet.
    pub fn u8(&mut self, v: u8)
        ensures
            final(self).written() == old(self).written() + seq![v],
            final(self).good() == old(self).good(),
    {
        self.octets.push(v);
        assert(self.octets@ =~= old(self).octets@ + seq![v]);
    }

    /// Write a UINT16.
    pub fn u16(&mut self, v: u16)
        ensures
            final(self).written() == old(self).written() + octets16(v),
            final(self).good() == old(self).good(),
    {
        push_be16(&mut self.octets, v);
    }

    /// Write a UINT32.
    pub fn u32(&mut self, v: u32)
        ensures
            final(self).written() == old(self).written() + octets32(v),
            final(self).good() == old(self).good(),
    {
        push_be32(&mut self.octets, v);
    }

    /// Write a UINT64.
    pub fn u64(&mut self, v: u64)
        ensures
            final(self).written() == old(self).written() + octets64(v),
            final(self).good() == old(self).good(),
    {
        push_be64(&mut self.octets, v);
    }

    /// Write octets as they are.
    pub fn bytes(&mut self, v: &[u8])
        ensures
            final(self).written() == old(self).written() + v@,
            final(self).good() == old(self).good(),
    {
        self.octets.extend_from_slice(v);
        assert(self.octets@ =~= old(self).octets@ + v@);
    }

    /// Write a UINT16 size and the octets it counts.
    ///
    /// Octets whose number the size cannot hold are not written, and
    /// [`Writer::finish`] then refuses.
    pub fn sized16(&mut self, v: &[u8])
        ensures
            v@.len() <= 0xFFFF ==> final(self).written() == old(self).written() + sized(v@)
                && final(self).good() == old(self).good(),
            v@.len() > 0xFFFF ==> final(self).written() == old(self).written()
                && !final(self).good(),
    {
        if v.len() > 0xFFFF {
            self.overflowed = true;
        } else {
            push_be16(&mut self.octets, v.len() as u16);
            self.octets.extend_from_slice(v);
            assert(self.octets@ =~= old(self).octets@ + sized(v@));
        }
    }

    /// What was written.
    pub fn finish(self) -> (r: TpmResult<Vec<u8>>)
        ensures
            r is Ok <==> self.good(),
            r matches Ok(v) ==> v@ == self.written(),
            r matches Err(e) ==> e == TpmRc(rc::SIZE),
    {
        if self.overflowed {
            Err(TpmRc(rc::SIZE))
        } else {
            Ok(self.octets)
        }
    }

    /// What was written, whether or not it is complete.
    pub fn into_vec(self) -> (v: Vec<u8>)
        ensures
            v@ == self.written(),
    {
        self.octets
    }
}

/// A UINT16 size and the octets it counts.
pub open spec fn sized(v: Seq<u8>) -> Seq<u8> {
    octets16(v.len() as u16) + v
}

/// The octets a sized field at `at` holds.
///
/// A size above `max` is refused before the octets are looked for.
pub open spec fn parse_sized(d: Seq<u8>, at: int, max: int) -> Parsed<Seq<u8>> {
    if at + 2 > d.len() {
        Err(TpmRc(rc::INSUFFICIENT))
    } else if be16(d, at) > max {
        Err(TpmRc(rc::SIZE))
    } else if at + 2 + be16(d, at) > d.len() {
        Err(TpmRc(rc::INSUFFICIENT))
    } else {
        Ok((d.subrange(at + 2, at + 2 + be16(d, at)), at + 2 + be16(d, at)))
    }
}

/// A sized field is read back as it was written, whatever surrounds it.
pub proof fn law_sized_round_trip(before: Seq<u8>, v: Seq<u8>, after: Seq<u8>, max: int)
    requires
        v.len() <= max,
        v.len() <= 0xFFFF,
    ensures
        parse_sized(before + sized(v) + after, before.len() as int, max) == Ok::<(Seq<u8>, int), TpmRc>(
            (v, before.len() + 2int + v.len()),
        ),
{
    let d = before + sized(v) + after;
    let at = before.len() as int;
    crate::util::bytes::lemma_octets16(v.len() as u16);
    assert(d[at] == octets16(v.len() as u16)[0]);
    assert(d[at + 1] == octets16(v.len() as u16)[1]);
    assert(be16(d, at) == v.len());
    assert(d.subrange(at + 2, at + 2 + v.len()) =~= v);
}

/// The octets at `at` are these.
pub open spec fn holds(d: Seq<u8>, at: int, piece: Seq<u8>) -> bool {
    0 <= at && at + piece.len() <= d.len() && d.subrange(at, at + piece.len()) == piece
}

/// Octets hold themselves.
pub proof fn lemma_holds_all(d: Seq<u8>)
    ensures
        holds(d, 0, d),
{
    assert(d.subrange(0, d.len() as int) =~= d);
}

/// Where two pieces stand, each of them stands.
pub proof fn lemma_holds_both(d: Seq<u8>, at: int, a: Seq<u8>, b: Seq<u8>)
    requires
        holds(d, at, a + b),
    ensures
        holds(d, at, a),
        holds(d, at + a.len(), b),
{
    let both = d.subrange(at, at + (a + b).len());
    assert(d.subrange(at, at + a.len()) =~= both.subrange(0, a.len() as int));
    assert((a + b).subrange(0, a.len() as int) =~= a);
    assert(d.subrange(at + a.len(), at + a.len() + b.len()) =~= both.subrange(
        a.len() as int,
        (a + b).len() as int,
    ));
    assert((a + b).subrange(a.len() as int, (a + b).len() as int) =~= b);
}

/// An octet is read where it stands.
pub proof fn lemma_holds_u8(d: Seq<u8>, at: int, v: u8)
    requires
        holds(d, at, seq![v]),
    ensures
        at + 1 <= d.len(),
        d[at] == v,
{
    assert(d.subrange(at, at + 1)[0] == v);
}

/// A UINT16 is read where it stands.
pub proof fn lemma_holds_u16(d: Seq<u8>, at: int, v: u16)
    requires
        holds(d, at, octets16(v)),
    ensures
        at + 2 <= d.len(),
        be16(d, at) == v,
{
    crate::util::bytes::lemma_octets16(v);
    let s = d.subrange(at, at + 2);
    assert(s[0] == d[at] && s[1] == d[at + 1]);
}

/// A UINT32 is read where it stands.
pub proof fn lemma_holds_u32(d: Seq<u8>, at: int, v: u32)
    requires
        holds(d, at, octets32(v)),
    ensures
        at + 4 <= d.len(),
        be32(d, at) == v,
{
    crate::util::bytes::lemma_octets32(v);
    let s = d.subrange(at, at + 4);
    assert(s[0] == d[at] && s[1] == d[at + 1] && s[2] == d[at + 2] && s[3] == d[at + 3]);
}

/// A UINT64 is read where it stands.
pub proof fn lemma_holds_u64(d: Seq<u8>, at: int, v: u64)
    requires
        holds(d, at, octets64(v)),
    ensures
        at + 8 <= d.len(),
        be64(d, at) == v,
{
    crate::util::bytes::lemma_octets64(v);
    let s = d.subrange(at, at + 8);
    assert(forall|i: int| 0 <= i < 8 ==> s[i] == d[at + i]);
    assert(be32(s, 0) == be32(d, at));
    assert(be32(s, 4) == be32(d, at + 4));
}

/// A sized field is read where it stands.
pub proof fn lemma_holds_sized(d: Seq<u8>, at: int, v: Seq<u8>, max: int)
    requires
        holds(d, at, sized(v)),
        v.len() <= max,
        v.len() <= 0xFFFF,
    ensures
        parse_sized(d, at, max) == Ok::<(Seq<u8>, int), TpmRc>((v, at + 2 + v.len())),
{
    lemma_holds_both(d, at, octets16(v.len() as u16), v);
    lemma_holds_u16(d, at, v.len() as u16);
}

/// A sized field and what is behind it come apart where they stand.
proof fn lemma_apart(all: Seq<u8>, d: Seq<u8>, body: Seq<u8>)
    requires
        holds(all, 0, sized(d) + body),
        all.len() == 2 + d.len() + body.len(),
        d.len() <= 0xFFFF,
    ensures
        parse_sized(all, 0, 0xFFFF) == Ok::<(Seq<u8>, int), TpmRc>((d, 2 + d.len() as int)),
        all.skip(2 + d.len() as int) == body,
{
    lemma_holds_both(all, 0, sized(d), body);
    lemma_holds_sized(all, 0, d, 0xFFFF);
    assert(all.skip(2 + d.len() as int) =~= all.subrange(
        sized(d).len() as int,
        (sized(d).len() + body.len()) as int,
    ));
}

/// A sized field and what is behind it come apart again.
pub proof fn lemma_behind(d: Seq<u8>, body: Seq<u8>)
    requires
        d.len() <= 0xFFFF,
    ensures
        parse_sized(sized(d) + body, 0, 0xFFFF) == Ok::<(Seq<u8>, int), TpmRc>(
            (d, 2 + d.len() as int),
        ),
        (sized(d) + body).skip(2 + d.len() as int) == body,
{
    lemma_holds_all(sized(d) + body);
    lemma_apart(sized(d) + body, d, body);
}

/// Two fields behind their sizes are the same on the wire only where they are the
/// same.
pub proof fn lemma_two_fields(a: Seq<u8>, b: Seq<u8>, x: Seq<u8>, y: Seq<u8>)
    requires
        sized(a) + sized(b) == sized(x) + sized(y),
        a.len() <= 0xFFFF,
        x.len() <= 0xFFFF,
        y.len() <= 0xFFFF,
    ensures
        a == x,
        b == y,
{
    lemma_behind(a, sized(b));
    lemma_behind(x, sized(y));
    assert(sized(b) == sized(y));
    assert(sized(b).len() == sized(y).len());
    assert(b.len() == y.len());
    assert(b =~= sized(b).skip(2));
    assert(y =~= sized(y).skip(2));
}

} // verus!
