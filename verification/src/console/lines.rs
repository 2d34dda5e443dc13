//! Putting a console line together from the pieces it arrives in.

use vstd::prelude::*;

use super::MAX_LINE;
use crate::util::bytes::to_vec;

verus! {

/// What there is of a line. A line that is too long is dropped, and the rest of
/// it is passed over, so that the next line starts where it should.
pub enum LineView {
    Kept(Seq<u8>),
    TooLong,
}

/// The line with another piece behind it.
pub open spec fn grown(v: LineView, piece: Seq<u8>) -> LineView {
    match v {
        LineView::TooLong => LineView::TooLong,
        LineView::Kept(b) => if b.len() + piece.len() > MAX_LINE {
            LineView::TooLong
        } else {
            LineView::Kept(b + piece)
        },
    }
}

/// Where the first line end from `i` on stands, or the length.
pub open spec fn end_from(s: Seq<u8>, i: int) -> int
    decreases s.len() - i,
{
    if i >= s.len() {
        s.len() as int
    } else if s[i] == 10 {
        i
    } else {
        end_from(s, i + 1)
    }
}

/// The octets without the carriage returns at their end.
pub open spec fn trimmed(s: Seq<u8>) -> Seq<u8>
    decreases s.len(),
{
    if s.len() > 0 && s.last() == 13 {
        trimmed(s.drop_last())
    } else {
        s
    }
}

/// A line while it arrives.
pub struct LineBuffer {
    octets: Vec<u8>,
    too_long: bool,
}

impl View for LineBuffer {
    type V = LineView;

    closed spec fn view(&self) -> LineView {
        if self.too_long {
            LineView::TooLong
        } else {
            LineView::Kept(self.octets@)
        }
    }
}

impl LineBuffer {
    #[verifier::type_invariant]
    spec fn bounded(self) -> bool {
        self.octets@.len() <= MAX_LINE
    }

    /// Nothing of a line.
    pub fn new() -> (r: LineBuffer)
        ensures
            r@ == LineView::Kept(Seq::empty()),
    {
        let r: LineBuffer = LineBuffer { octets: Vec::new(), too_long: false };
        assert(r.octets@ =~= Seq::<u8>::empty());
        r
    }

    /// Take what there is of the line from the octets that have arrived: how
    /// many of them were used, and whether the line has ended.
    pub fn take(&mut self, available: &[u8]) -> (r: (usize, bool))
        ensures
            r.1 == (end_from(available@, 0) < available@.len()),
            r.0 == (if r.1 {
                end_from(available@, 0) + 1
            } else {
                available@.len() as int
            }),
            final(self)@ == grown(
                old(self)@,
                available@.subrange(0, end_from(available@, 0)),
            ),
    {
        proof {
            use_type_invariant(&*self);
        }
        let mut i: usize = 0;
        while i < available.len() && available[i] != 10
            invariant
                i <= available@.len(),
                end_from(available@, 0) == end_from(available@, i as int),
            decreases available@.len() - i,
        {
            i = i + 1;
        }
        let piece: Vec<u8> = crate::util::bytes::sub_vec(available, 0, i);
        if !self.too_long {
            if piece.len() > MAX_LINE - self.octets.len() {
                *self = LineBuffer { octets: Vec::new(), too_long: true };
            } else {
                let mut octets: Vec<u8> = to_vec(self.octets.as_slice());
                octets.extend_from_slice(piece.as_slice());
                assert(octets@ =~= self.octets@ + piece@);
                *self = LineBuffer { octets, too_long: false };
            }
        }
        if i < available.len() {
            (i + 1, true)
        } else {
            (i, false)
        }
    }

    /// The line, or nothing for one that was too long. The carriage returns at
    /// its end are no part of it.
    pub fn finish(self) -> (r: Option<Vec<u8>>)
        ensures
            match self@ {
                LineView::TooLong => r is None,
                LineView::Kept(b) => r is Some && r->Some_0@ == trimmed(b),
            },
    {
        if self.too_long {
            return None;
        }
        let mut out: Vec<u8> = to_vec(self.octets.as_slice());
        while out.len() > 0 && out[out.len() - 1] == 13
            invariant
                trimmed(out@) == trimmed(self.octets@),
            decreases out@.len(),
        {
            let ghost before = out@;
            out.pop();
            assert(out@ =~= before.drop_last());
        }
        Some(out)
    }
}

/// It makes no difference in how many pieces a line arrives.
pub proof fn law_a_line_may_come_in_pieces(v: LineView, a: Seq<u8>, b: Seq<u8>)
    ensures
        grown(grown(v, a), b) == grown(v, a + b),
{
    match v {
        LineView::TooLong => {},
        LineView::Kept(s) => {
            assert(s + a + b =~= s + (a + b));
        },
    }
}

} // verus!
