//! Big endian integers and octet sequences.

use vstd::prelude::*;

verus! {

/// The big endian UINT16 at `i`.
pub open spec fn be16(s: Seq<u8>, i: int) -> u16 {
    ((s[i] as u16) << 8) | (s[i + 1] as u16)
}

/// The big endian UINT32 at `i`.
pub open spec fn be32(s: Seq<u8>, i: int) -> u32 {
    ((s[i] as u32) << 24) | ((s[i + 1] as u32) << 16) | ((s[i + 2] as u32) << 8) | (s[i + 3] as u32)
}

/// The big endian UINT64 at `i`.
pub open spec fn be64(s: Seq<u8>, i: int) -> u64 {
    ((be32(s, i) as u64) << 32) | (be32(s, i + 4) as u64)
}

/// The two octets of a UINT16, most significant first.
pub open spec fn octets16(v: u16) -> Seq<u8> {
    seq![(v >> 8) as u8, v as u8]
}

/// The four octets of a UINT32, most significant first.
pub open spec fn octets32(v: u32) -> Seq<u8> {
    seq![(v >> 24) as u8, (v >> 16) as u8, (v >> 8) as u8, v as u8]
}

/// The eight octets of a UINT64, most significant first.
pub open spec fn octets64(v: u64) -> Seq<u8> {
    octets32((v >> 32) as u32) + octets32(v as u32)
}

/// A UINT16 is read back from its octets.
pub proof fn lemma_octets16(v: u16)
    ensures
        be16(octets16(v), 0) == v,
{
    assert((((v >> 8) as u8) as u16) << 8 | ((v as u8) as u16) == v) by (bit_vector);
}

/// A UINT32 is read back from its octets.
pub proof fn lemma_octets32(v: u32)
    ensures
        be32(octets32(v), 0) == v,
{
    assert((((v >> 24) as u8) as u32) << 24 | (((v >> 16) as u8) as u32) << 16 | (((v
        >> 8) as u8) as u32) << 8 | ((v as u8) as u32) == v) by (bit_vector);
}

/// A UINT64 is read back from its octets.
pub proof fn lemma_octets64(v: u64)
    ensures
        be64(octets64(v), 0) == v,
{
    let hi = (v >> 32) as u32;
    let lo = v as u32;
    lemma_octets32(hi);
    lemma_octets32(lo);
    let s = octets64(v);
    assert(s.subrange(0, 4) =~= octets32(hi));
    assert(s.subrange(4, 8) =~= octets32(lo));
    assert(be32(s, 0) == be32(octets32(hi), 0));
    assert(be32(s, 4) == be32(octets32(lo), 0));
    assert((((v >> 32) as u32) as u64) << 32 | ((v as u32) as u64) == v) by (bit_vector);
}

/// Octets that read as a UINT16 are its octets.
pub proof fn lemma_be16(a: u8, b: u8)
    ensures
        octets16(be16(seq![a, b], 0)) == seq![a, b],
{
    let v = be16(seq![a, b], 0);
    assert(v == (a as u16) << 8 | (b as u16));
    assert(((((a as u16) << 8 | (b as u16)) >> 8) as u8) == a) by (bit_vector);
    assert(((((a as u16) << 8 | (b as u16))) as u8) == b) by (bit_vector);
    assert(octets16(v) =~= seq![a, b]);
}

/// Integers read the same through a subrange.
pub proof fn lemma_sub_be(s: Seq<u8>, from: int, to: int, i: int)
    requires
        0 <= from <= to <= s.len(),
        0 <= i,
    ensures
        from + i + 2 <= to ==> be16(s.subrange(from, to), i) == be16(s, from + i),
        from + i + 4 <= to ==> be32(s.subrange(from, to), i) == be32(s, from + i),
        from + i + 8 <= to ==> be64(s.subrange(from, to), i) == be64(s, from + i),
{
}

/// Read a big endian UINT16.
pub fn read_be16(data: &[u8], at: usize) -> (v: u16)
    requires
        at + 2 <= data@.len(),
    ensures
        v == be16(data@, at as int),
{
    ((data[at] as u16) << 8) | (data[at + 1] as u16)
}

/// Read a big endian UINT32.
pub fn read_be32(data: &[u8], at: usize) -> (v: u32)
    requires
        at + 4 <= data@.len(),
    ensures
        v == be32(data@, at as int),
{
    ((data[at] as u32) << 24) | ((data[at + 1] as u32) << 16) | ((data[at + 2] as u32) << 8) | (
    data[at + 3] as u32)
}

/// Read a big endian UINT64.
pub fn read_be64(data: &[u8], at: usize) -> (v: u64)
    requires
        at + 8 <= data@.len(),
    ensures
        v == be64(data@, at as int),
{
    assert(data@.len() == data.len());
    ((read_be32(data, at) as u64) << 32) | (read_be32(data, at + 4) as u64)
}

/// Append a big endian UINT16.
pub fn push_be16(out: &mut Vec<u8>, v: u16)
    ensures
        final(out)@ == old(out)@ + octets16(v),
{
    out.push((v >> 8) as u8);
    out.push(v as u8);
    assert(out@ =~= old(out)@ + octets16(v));
}

/// Append a big endian UINT32.
pub fn push_be32(out: &mut Vec<u8>, v: u32)
    ensures
        final(out)@ == old(out)@ + octets32(v),
{
    out.push((v >> 24) as u8);
    out.push((v >> 16) as u8);
    out.push((v >> 8) as u8);
    out.push(v as u8);
    assert(out@ =~= old(out)@ + octets32(v));
}

/// Append a big endian UINT64.
pub fn push_be64(out: &mut Vec<u8>, v: u64)
    ensures
        final(out)@ == old(out)@ + octets64(v),
{
    push_be32(out, (v >> 32) as u32);
    push_be32(out, v as u32);
    assert(out@ =~= old(out)@ + octets64(v));
}

/// A copy of a slice.
pub fn to_vec(data: &[u8]) -> (out: Vec<u8>)
    ensures
        out@ == data@,
{
    let mut out: Vec<u8> = Vec::with_capacity(data.len());
    out.extend_from_slice(data);
    assert(out@ =~= data@);
    out
}

/// The octets of `data` from `from` up to `to`.
pub fn sub_vec(data: &[u8], from: usize, to: usize) -> (out: Vec<u8>)
    requires
        from <= to <= data@.len(),
    ensures
        out@ == data@.subrange(from as int, to as int),
{
    let mut out: Vec<u8> = Vec::with_capacity(to - from);
    let mut i: usize = from;
    while i < to
        invariant
            from <= i <= to <= data@.len(),
            out@ == data@.subrange(from as int, i as int),
        decreases to - i,
    {
        out.push(data[i]);
        i = i + 1;
        assert(out@ =~= data@.subrange(from as int, i as int));
    }
    out
}

/// `count` copies of `value`.
pub fn filled(value: u8, count: usize) -> (out: Vec<u8>)
    ensures
        out@ == Seq::new(count as nat, |i: int| value),
{
    let mut out: Vec<u8> = Vec::with_capacity(count);
    while out.len() < count
        invariant
            out@.len() <= count,
            out@ == Seq::new(out@.len(), |i: int| value),
        decreases count - out@.len(),
    {
        out.push(value);
        assert(out@ =~= Seq::new(out@.len(), |i: int| value));
    }
    out
}

/// True when two octet strings are equal, looking at every octet of both.
pub fn constant_time_eq(a: &[u8], b: &[u8]) -> (r: bool)
    ensures
        r == (a@ == b@),
{
    if a.len() != b.len() {
        return false;
    }
    let mut same: bool = true;
    let mut i: usize = 0;
    assert(a@.subrange(0, 0) =~= b@.subrange(0, 0));
    while i < a.len()
        invariant
            i <= a@.len(),
            a@.len() == b@.len(),
            same == (a@.subrange(0, i as int) == b@.subrange(0, i as int)),
        decreases a@.len() - i,
    {
        let ghost pa = a@.subrange(0, i as int);
        let ghost pb = b@.subrange(0, i as int);
        if a[i] != b[i] {
            same = false;
        }
        i = i + 1;
        proof {
            let na = a@.subrange(0, i as int);
            let nb = b@.subrange(0, i as int);
            assert(na =~= pa.push(a@[i - 1]));
            assert(nb =~= pb.push(b@[i - 1]));
            if na == nb {
                assert(na.drop_last() =~= pa);
                assert(nb.drop_last() =~= pb);
                assert(na.last() == nb.last());
            }
        }
    }
    assert(a@.subrange(0, a@.len() as int) =~= a@);
    assert(b@.subrange(0, b@.len() as int) =~= b@);
    same
}

} // verus!
