//! Byte ranges into a log line, and the error type for rejected lines.

use vstd::prelude::*;

verus! {

/// A half-open byte range `[start, end)` into one log line. Every field of a
/// parsed record is such a range; the record never owns the bytes.
#[derive(Clone, Copy, PartialEq, Eq, Structural, Debug)]
pub struct Span {
    pub start: usize,
    pub end: usize,
}

impl Span {
    /// The range is ordered and lies inside a line of length `n`.
    pub open spec fn wf(self, n: int) -> bool {
        self.start <= self.end <= n
    }

    /// The bytes of the line that the range denotes.
    pub open spec fn sub(self, s: Seq<u8>) -> Seq<u8> {
        s.subrange(self.start as int, self.end as int)
    }
}

/// Copies the bytes a span denotes out of a line.
pub fn span_bytes(line: &[u8], sp: Span) -> (r: Vec<u8>)
    requires
        sp.start <= sp.end <= line@.len(),
    ensures
        r@ == sp.sub(line@),
{
    let mut out: Vec<u8> = Vec::new();
    let mut i: usize = sp.start;
    while i < sp.end
        invariant
            sp.start <= i <= sp.end <= line@.len(),
            out@ == line@.subrange(sp.start as int, i as int),
        decreases sp.end - i,
    {
        out.push(line[i]);
        i = i + 1;
        proof {
            assert(out@ =~= line@.subrange(sp.start as int, i as int));
        }
    }
    proof {
        assert(out@ =~= sp.sub(line@));
    }
    out
}

/// Rejection of one whole line: the grammar never matched, and the original
/// bytes are kept unmodified for diagnostics.
#[derive(Clone, Debug)]
pub enum ParseLogError {
    InvalidLogFormat(Vec<u8>),
}

/// Which of the two dialects a line is read under.
#[derive(Clone, Copy, PartialEq, Eq, Structural, Debug)]
pub enum LBType {
    Alb,
    ClassicLb,
}

} // verus!
