//! The line engine: a dialect is a table of segments, and a line is scanned
//! by folding the table from left to right. The fold either accepts the
//! whole line (an optional trailing line feed included), fails at a definite
//! byte, or runs out of input while some completion was still possible.

use vstd::prelude::*;

use crate::bytes::NL;
use crate::fields::{exec_seg, lemma_seg_sane, seg_sane, seg_scan, SegScan, Segment};
use crate::scan::Step;
use crate::span::Span;

verus! {

/// Outcome of scanning one whole line at the specification level.
pub enum LineScan {
    /// The line matches; `caps` are the captured field ranges, in grammar
    /// order.
    Accept { caps: Seq<(int, int)> },
    /// The byte at `at` is inconsistent with the grammar.
    Fail { at: int },
    /// The line ended while it was still a prefix of some accepted line.
    Eoi,
}

/// Folds the segments of `gs` from index `k` on over `s` from position `i`.
pub open spec fn scan_segs_from(gs: Seq<Segment>, s: Seq<u8>, i: int, k: int) -> SegScan
    decreases gs.len() - k,
{
    if k < 0 || k >= gs.len() {
        SegScan::Next { end: i, caps: Seq::empty() }
    } else {
        match seg_scan(gs[k], s, i) {
            SegScan::Next { end, caps } => match scan_segs_from(gs, s, end, k + 1) {
                SegScan::Next { end: e2, caps: c2 } => SegScan::Next { end: e2, caps: caps + c2 },
                other => other,
            },
            other => other,
        }
    }
}

/// Folds the whole table over `s` from position `i`.
pub open spec fn scan_segs(gs: Seq<Segment>, s: Seq<u8>, i: int) -> SegScan {
    scan_segs_from(gs, s, i, 0)
}

/// Scans one whole line under the table `gs`: all segments, then an
/// optional line feed, then the end of the input.
pub open spec fn scan_line(gs: Seq<Segment>, s: Seq<u8>) -> LineScan {
    match scan_segs(gs, s, 0) {
        SegScan::Next { end, caps } => {
            if end == s.len() {
                LineScan::Accept { caps }
            } else if s[end] == NL {
                if end + 1 == s.len() {
                    LineScan::Accept { caps }
                } else {
                    LineScan::Fail { at: end + 1 }
                }
            } else {
                LineScan::Fail { at: end }
            }
        },
        SegScan::Fail { at } => LineScan::Fail { at },
        SegScan::Eoi => LineScan::Eoi,
    }
}

/// Where the locator points for a line: the first dead byte, the line's
/// length when the line ended too early, and nothing for a match.
pub open spec fn locate_spec(gs: Seq<Segment>, s: Seq<u8>) -> Option<int> {
    match scan_line(gs, s) {
        LineScan::Accept { .. } => Option::None,
        LineScan::Fail { at } => Option::Some(at),
        LineScan::Eoi => Option::Some(s.len() as int),
    }
}

/// How many ranges one segment captures.
pub open spec fn seg_ncaps(g: Segment) -> int {
    match g {
        Segment::Lit(_) => 0,
        Segment::Request { .. } => 3,
        _ => 1,
    }
}

/// How many ranges the segments from index `k` on capture.
pub open spec fn ncaps_from(gs: Seq<Segment>, k: int) -> int
    decreases gs.len() - k,
{
    if k < 0 || k >= gs.len() {
        0
    } else {
        seg_ncaps(gs[k]) + ncaps_from(gs, k + 1)
    }
}

/// The segment fold is position- and capture-sane, and captures exactly as
/// many ranges as its segments declare.
pub proof fn lemma_segs_sane(gs: Seq<Segment>, s: Seq<u8>, i: int, k: int)
    requires
        0 <= i <= s.len(),
        0 <= k,
    ensures
        seg_sane(scan_segs_from(gs, s, i, k), s, i),
        scan_segs_from(gs, s, i, k) matches SegScan::Next { caps, .. } ==> caps.len()
            == ncaps_from(gs, k),
    decreases gs.len() - k,
{
    if k < gs.len() {
        lemma_seg_sane(gs[k], s, i);
        crate::fields::lemma_seg_ncaps(gs[k], s, i);
        if let SegScan::Next { end, caps } = seg_scan(gs[k], s, i) {
            lemma_segs_sane(gs, s, end, k + 1);
        }
    }
}

/// The segment fold captures ordered, non-overlapping ranges.
pub proof fn lemma_segs_caps_ordered(gs: Seq<Segment>, s: Seq<u8>, i: int, k: int)
    requires
        0 <= i <= s.len(),
        0 <= k,
    ensures
        scan_segs_from(gs, s, i, k) matches SegScan::Next { caps, .. } ==> crate::fields::caps_ordered(
            caps,
        ),
    decreases gs.len() - k,
{
    if k < gs.len() {
        lemma_seg_sane(gs[k], s, i);
        crate::fields::lemma_seg_caps_ordered(gs[k], s, i);
        if let SegScan::Next { end: e1, caps: c1 } = seg_scan(gs[k], s, i) {
            lemma_segs_sane(gs, s, e1, k + 1);
            lemma_segs_caps_ordered(gs, s, e1, k + 1);
            if let SegScan::Next { end: e2, caps: c2 } = scan_segs_from(gs, s, e1, k + 1) {
                assert forall|m: int| 0 <= m && m + 1 < (c1 + c2).len() implies ((c1 + c2)[m]).1
                    <= (c1 + c2)[m + 1].0 by {
                    if m + 1 < c1.len() {
                        assert((c1 + c2)[m] == c1[m]);
                        assert((c1 + c2)[m + 1] == c1[m + 1]);
                    } else if m + 1 == c1.len() {
                        assert((c1 + c2)[m] == c1[m]);
                        assert((c1 + c2)[m + 1] == c2[0]);
                    } else {
                        assert((c1 + c2)[m] == c2[m - c1.len()]);
                        assert((c1 + c2)[m + 1] == c2[m + 1 - c1.len()]);
                    }
                }
            }
        }
    }
}

/// On an accepted line the fields stand left to right, without overlap,
/// inside the line: what byte range a field's grammar position denotes is
/// exactly what the record carries, and no two fields share a byte.
pub proof fn lemma_line_fields_ordered(gs: Seq<Segment>, s: Seq<u8>)
    requires
        scan_line(gs, s) matches LineScan::Accept { .. },
    ensures
        ({
            let caps = scan_line(gs, s)->Accept_caps;
            crate::fields::caps_ordered(caps) && (forall|k: int|
                0 <= k < caps.len() ==> 0 <= (#[trigger] caps[k]).0 <= caps[k].1 <= s.len())
        }),
{
    lemma_segs_sane(gs, s, 0, 0);
    lemma_segs_caps_ordered(gs, s, 0, 0);
}

/// Exec captures report the spec captures range for range.
pub open spec fn spans_match(v: Seq<Span>, c: Seq<(int, int)>) -> bool {
    v.len() == c.len() && (forall|k: int|
        0 <= k < c.len() ==> v[k].start as int == (#[trigger] c[k]).0 && v[k].end as int == c[k].1)
}

/// Outcome of scanning one whole line, executably.
pub enum LineResult {
    Accept(Vec<Span>),
    Fail(usize),
    Eoi,
}

/// The exec line result reports exactly the specified one.
pub open spec fn line_like(r: LineResult, t: LineScan) -> bool {
    match t {
        LineScan::Accept { caps } => r matches LineResult::Accept(v) && spans_match(v@, caps),
        LineScan::Fail { at } => r matches LineResult::Fail(a) && a == at,
        LineScan::Eoi => r matches LineResult::Eoi,
    }
}

/// Prepends already-captured ranges to a fold outcome.
pub open spec fn append_caps(c: Seq<(int, int)>, t: SegScan) -> SegScan {
    match t {
        SegScan::Next { end, caps } => SegScan::Next { end, caps: c + caps },
        other => other,
    }
}

proof fn lemma_append_caps_empty(t: SegScan)
    ensures
        append_caps(Seq::empty(), t) == t,
{
    if let SegScan::Next { end, caps } = t {
        assert(Seq::<(int, int)>::empty() + caps =~= caps);
    }
}

proof fn lemma_append_caps_assoc(c1: Seq<(int, int)>, c2: Seq<(int, int)>, t: SegScan)
    ensures
        append_caps(c1, append_caps(c2, t)) == append_caps(c1 + c2, t),
{
    if let SegScan::Next { end, caps } = t {
        assert(c1 + (c2 + caps) =~= (c1 + c2) + caps);
    }
}

/// Scans one whole line of `s` under the table.
pub fn exec_line(table: &Vec<Segment>, s: &[u8]) -> (r: LineResult)
    ensures
        line_like(r, scan_line(table@, s@)),
{
    let mut caps: Vec<Span> = Vec::new();
    let ghost mut done: Seq<(int, int)> = Seq::empty();
    let mut pos: usize = 0;
    let mut n: usize = 0;
    proof {
        lemma_append_caps_empty(scan_segs_from(table@, s@, 0, 0));
    }
    while n < table.len()
        invariant
            n <= table@.len(),
            pos <= s@.len(),
            spans_match(caps@, done),
            scan_segs(table@, s@, 0) == append_caps(
                done,
                scan_segs_from(table@, s@, pos as int, n as int),
            ),
        decreases table@.len() - n,
    {
        let g = table[n];
        proof {
            lemma_seg_sane(g, s@, pos as int);
        }
        let step = exec_seg(g, s, pos, &mut caps);
        match step {
            Step::Fail(a) => {
                return LineResult::Fail(a);
            },
            Step::Eoi => {
                return LineResult::Eoi;
            },
            Step::Next(e) => {
                proof {
                    let t = seg_scan(g, s@, pos as int);
                    let c = t->Next_caps;
                    lemma_append_caps_assoc(
                        done,
                        c,
                        scan_segs_from(table@, s@, e as int, n as int + 1),
                    );
                    done = done + c;
                    assert(spans_match(caps@, done));
                }
                pos = e;
                n = n + 1;
            },
        }
    }
    proof {
        assert(scan_segs_from(table@, s@, pos as int, n as int) == (SegScan::Next {
            end: pos as int,
            caps: Seq::<(int, int)>::empty(),
        }));
        assert(done + Seq::<(int, int)>::empty() =~= done);
    }
    if pos == s.len() {
        LineResult::Accept(caps)
    } else if s[pos] == NL {
        if pos + 1 == s.len() {
            LineResult::Accept(caps)
        } else {
            LineResult::Fail(pos + 1)
        }
    } else {
        LineResult::Fail(pos)
    }
}

} // verus!
