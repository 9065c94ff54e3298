//! The decisions of the bulk pipeline: which files the walker hands to the
//! workers, what one worker does with one line, and what a batch of lines
//! produces. The surrounding machinery — threads, channels, file handles —
//! only moves the values these functions decide on.

use vstd::prelude::*;

use crate::alb;
use crate::classic_lb;
use crate::cli::{table_of, Config, Type};
use crate::engine::{scan_line, LineScan};
use crate::json::{fields_utf8, json_of, to_json};
use crate::report::{render_diagnostic, render_spec};
use crate::span::{ParseLogError, Span};
use vstd::multiset::Multiset;

verus! {

/// The file suffix a dialect's bulk mode accepts: compressed logs for the
/// modern dialect, plain ones for the legacy dialect.
pub open spec fn ext_of(t: Type) -> Seq<u8> {
    match t {
        Type::Alb => seq![0x2eu8, 0x6c, 0x6f, 0x67, 0x2e, 0x67, 0x7a],  // .log.gz
        Type::ClassicLb => seq![0x2eu8, 0x6c, 0x6f, 0x67],  // .log
    }
}

/// `s` ends with `x`.
pub open spec fn has_suffix(s: Seq<u8>, x: Seq<u8>) -> bool {
    s.len() >= x.len() && s.subrange(s.len() - x.len(), s.len() as int) == x
}

/// Builds `ext_of(t)` as bytes.
fn ext_vec(t: Type) -> (v: Vec<u8>)
    ensures
        v@ == ext_of(t),
{
    let mut v: Vec<u8> = Vec::new();
    v.push(0x2e);
    v.push(0x6c);
    v.push(0x6f);
    v.push(0x67);
    match t {
        Type::Alb => {
            v.push(0x2e);
            v.push(0x67);
            v.push(0x7a);
            proof {
                assert(v@ =~= ext_of(t));
            }
        },
        Type::ClassicLb => {
            proof {
                assert(v@ =~= ext_of(t));
            }
        },
    }
    v
}

/// Whether the walker hands a directory entry to the workers: a regular,
/// non-empty file whose name carries the dialect's suffix.
pub fn wants_file(t: Type, name: &[u8], is_file: bool, size: u64) -> (r: bool)
    ensures
        r == (is_file && size > 0 && has_suffix(name@, ext_of(t))),
{
    if !is_file || size == 0 {
        return false;
    }
    wants_name(t, name)
}

/// Whether a file name carries the dialect's suffix; tested before the
/// file itself is ever touched.
pub fn wants_name(t: Type, name: &[u8]) -> (r: bool)
    ensures
        r == has_suffix(name@, ext_of(t)),
{
    let ext = ext_vec(t);
    if name.len() < ext.len() {
        return false;
    }
    let base = name.len() - ext.len();
    let mut i: usize = 0;
    while i < ext.len()
        invariant
            0 <= i <= ext@.len(),
            base == name@.len() - ext@.len(),
            name@.len() <= usize::MAX,
            ext@ == ext_of(t),
            forall|k: int| 0 <= k < i ==> name@[base + k] == ext@[k],
        decreases ext@.len() - i,
    {
        if name[base + i] != ext[i] {
            proof {
                assert(name@.subrange(base as int, name@.len() as int)[i as int] != ext@[
                    i as int]);
            }
            return false;
        }
        i = i + 1;
    }
    proof {
        assert(name@.subrange(base as int, name@.len() as int) =~= ext_of(t));
    }
    true
}

/// The captured ranges of an accepted line, as spans.
pub open spec fn caps_spans(caps: Seq<(int, int)>) -> Seq<Span> {
    Seq::new(
        caps.len(),
        |k: int| Span { start: caps[k].0 as usize, end: caps[k].1 as usize },
    )
}

/// What one worker does with one line.
pub enum LineOutcome {
    /// The line parsed and serialized: one JSON line for the output stream.
    Emit(Vec<u8>),
    /// The line was rejected and failures are tolerated: a diagnostic for
    /// standard error, then processing goes on.
    Skip(Vec<u8>),
    /// The line was rejected under the strict policy: a diagnostic for
    /// standard error, and the run stops with the rejection.
    Halt(Vec<u8>, ParseLogError),
    /// A field of the parsed line is not valid text; writing it would
    /// corrupt the output stream, so the run stops.
    BadText,
}

/// The contract of one line's processing, for every outcome of the scan.
pub open spec fn line_post(
    t: Type,
    s: Seq<u8>,
    skip: bool,
    terminal: bool,
    r: LineOutcome,
) -> bool {
    match scan_line(table_of(t), s) {
        LineScan::Accept { caps } => {
            if fields_utf8(s, caps_spans(caps)) {
                r matches LineOutcome::Emit(v) && v@ == json_of(t, s, caps_spans(caps))
            } else {
                r matches LineOutcome::BadText
            }
        },
        _ => {
            if skip {
                r matches LineOutcome::Skip(d) && d@ == render_spec(t, s, true, terminal)
            } else {
                r matches LineOutcome::Halt(d, e) && d@ == render_spec(t, s, false, terminal) && (
                e matches ParseLogError::InvalidLogFormat(b) && b@ == s)
            }
        },
    }
}

/// One processing unit: a dialect and its compiled parsers. Each concurrent
/// worker owns one.
pub struct Processor {
    lb: Type,
    alb_parser: alb::LogParser,
    classic_parser: classic_lb::LogParser,
}

impl Processor {
    /// Both parsers hold their dialect's grammar.
    pub closed spec fn wf(&self) -> bool {
        self.alb_parser.wf() && self.classic_parser.wf()
    }

    /// The dialect this processor reads.
    pub closed spec fn dialect(&self) -> Type {
        self.lb
    }

    /// Builds a processor for one dialect.
    pub fn new(t: Type) -> (r: Self)
        ensures
            r.wf(),
            r.dialect() == t,
    {
        Processor {
            lb: t,
            alb_parser: alb::LogParser::new(),
            classic_parser: classic_lb::LogParser::new(),
        }
    }

    /// The dialect, readably.
    pub fn dialect_type(&self) -> (t: Type)
        ensures
            t == self.dialect(),
    {
        self.lb
    }

    /// Processes one line: parse, then serialize or report, as `line_post`
    /// specifies.
    pub fn process_line(&self, line: &[u8], config: Config, terminal: bool) -> (r: LineOutcome)
        requires
            self.wf(),
        ensures
            line_post(self.dialect(), line@, config.skip_parse_errors, terminal, r),
    {
        match self.lb {
            Type::Alb => {
                match self.alb_parser.parse(line) {
                    Result::Ok(lg) => {
                        proof {
                            let caps = scan_line(table_of(Type::Alb), line@)->Accept_caps;
                            alb::lemma_spans_match_caps(lg, caps);
                            alb::lemma_spans_wf(lg, line@.len() as int);
                            assert(lg.spans_seq() =~= caps_spans(caps));
                        }
                        let sp = lg.spans();
                        match to_json(Type::Alb, line, &sp) {
                            Result::Ok(v) => LineOutcome::Emit(v),
                            Result::Err(_) => LineOutcome::BadText,
                        }
                    },
                    Result::Err(e) => {
                        let d = render_diagnostic(
                            Type::Alb,
                            line,
                            config.skip_parse_errors,
                            terminal,
                        );
                        if config.skip_parse_errors {
                            LineOutcome::Skip(d)
                        } else {
                            LineOutcome::Halt(d, e)
                        }
                    },
                }
            },
            Type::ClassicLb => {
                match self.classic_parser.parse(line) {
                    Result::Ok(lg) => {
                        proof {
                            let caps = scan_line(table_of(Type::ClassicLb), line@)->Accept_caps;
                            classic_lb::lemma_spans_match_caps(lg, caps);
                            classic_lb::lemma_spans_wf(lg, line@.len() as int);
                            assert(lg.spans_seq() =~= caps_spans(caps));
                        }
                        let sp = lg.spans();
                        match to_json(Type::ClassicLb, line, &sp) {
                            Result::Ok(v) => LineOutcome::Emit(v),
                            Result::Err(_) => LineOutcome::BadText,
                        }
                    },
                    Result::Err(e) => {
                        let d = render_diagnostic(
                            Type::ClassicLb,
                            line,
                            config.skip_parse_errors,
                            terminal,
                        );
                        if config.skip_parse_errors {
                            LineOutcome::Skip(d)
                        } else {
                            LineOutcome::Halt(d, e)
                        }
                    },
                }
            },
        }
    }
}

// ---------------------------------------------------------------------------
// Batches of lines, and what whole runs produce.
// ---------------------------------------------------------------------------
/// What a batch of lines from `k` on produces, processed in order: the JSON
/// lines for the output stream, the diagnostics for standard error, and
/// whether the batch ran to its end. A rejection under the strict policy
/// and a field of invalid text both stop the batch.
pub open spec fn batch_from(
    t: Type,
    lines: Seq<Seq<u8>>,
    skip: bool,
    terminal: bool,
    k: int,
) -> (Seq<Seq<u8>>, Seq<Seq<u8>>, bool)
    decreases lines.len() - k,
{
    if k < 0 || k >= lines.len() {
        (Seq::empty(), Seq::empty(), true)
    } else {
        let s = lines[k];
        match scan_line(table_of(t), s) {
            LineScan::Accept { caps } => {
                if fields_utf8(s, caps_spans(caps)) {
                    let rest = batch_from(t, lines, skip, terminal, k + 1);
                    (seq![json_of(t, s, caps_spans(caps))] + rest.0, rest.1, rest.2)
                } else {
                    (Seq::empty(), Seq::empty(), false)
                }
            },
            _ => {
                if skip {
                    let rest = batch_from(t, lines, skip, terminal, k + 1);
                    (rest.0, seq![render_spec(t, s, true, terminal)] + rest.1, rest.2)
                } else {
                    (Seq::empty(), seq![render_spec(t, s, false, terminal)], false)
                }
            },
        }
    }
}

/// What a whole batch produces.
pub open spec fn batch_spec(t: Type, lines: Seq<Seq<u8>>, skip: bool, terminal: bool) -> (
    Seq<Seq<u8>>,
    Seq<Seq<u8>>,
    bool,
) {
    batch_from(t, lines, skip, terminal, 0)
}

/// What a batch hands back: output lines, diagnostics, and whether it ran
/// to its end.
pub struct BatchOut {
    pub outs: Vec<Vec<u8>>,
    pub errs: Vec<Vec<u8>>,
    pub ok: bool,
}

impl Processor {
    /// Processes a batch of lines in order, stopping at the first fatal
    /// line; exactly `batch_spec`.
    pub fn process_lines(&self, lines: &Vec<Vec<u8>>, config: Config, terminal: bool) -> (r:
        BatchOut)
        requires
            self.wf(),
        ensures
            ({
                let b = batch_spec(
                    self.dialect(),
                    lines.deep_view(),
                    config.skip_parse_errors,
                    terminal,
                );
                r.outs.deep_view() == b.0 && r.errs.deep_view() == b.1 && r.ok == b.2
            }),
    {
        let ghost big = lines.deep_view();
        let ghost t = self.dialect();
        let ghost skip = config.skip_parse_errors;
        let mut outs: Vec<Vec<u8>> = Vec::new();
        let mut errs: Vec<Vec<u8>> = Vec::new();
        let mut k: usize = 0;
        proof {
            assert(outs.deep_view() =~= Seq::<Seq<u8>>::empty());
            assert(errs.deep_view() =~= Seq::<Seq<u8>>::empty());
        }
        while k < lines.len()
            invariant
                self.wf(),
                t == self.dialect(),
                skip == config.skip_parse_errors,
                big == lines.deep_view(),
                0 <= k <= lines@.len(),
                big.len() == lines@.len(),
                ({
                    let b = batch_spec(t, big, skip, terminal);
                    let rest = batch_from(t, big, skip, terminal, k as int);
                    b.0 == outs.deep_view() + rest.0 && b.1 == errs.deep_view() + rest.1 && b.2
                        == rest.2
                }),
            decreases lines@.len() - k,
        {
            proof {
                assert(big[k as int] =~= lines@[k as int]@);
            }
            let step = self.process_line(lines[k].as_slice(), config, terminal);
            let ghost outs0 = outs.deep_view();
            let ghost errs0 = errs.deep_view();
            let ghost rest0 = batch_from(t, big, skip, terminal, k as int);
            let ghost rest1 = batch_from(t, big, skip, terminal, k as int + 1);
            match step {
                LineOutcome::Emit(v) => {
                    proof {
                        assert(outs0 + (seq![v@] + rest1.0) =~= (outs0.push(v@)) + rest1.0);
                    }
                    outs.push(v);
                    proof {
                        assert(outs.deep_view() =~~= outs0.push(v@));
                    }
                },
                LineOutcome::Skip(d) => {
                    proof {
                        assert(errs0 + (seq![d@] + rest1.1) =~= (errs0.push(d@)) + rest1.1);
                    }
                    errs.push(d);
                    proof {
                        assert(errs.deep_view() =~~= errs0.push(d@));
                    }
                },
                LineOutcome::Halt(d, _) => {
                    errs.push(d);
                    proof {
                        assert(errs.deep_view() =~~= errs0.push(d@));
                        assert(errs0 + seq![d@] =~= errs0.push(d@));
                        assert(outs0 + Seq::<Seq<u8>>::empty() =~= outs0);
                    }
                    return BatchOut { outs, errs, ok: false };
                },
                LineOutcome::BadText => {
                    proof {
                        assert(outs0 + Seq::<Seq<u8>>::empty() =~= outs0);
                        assert(errs0 + Seq::<Seq<u8>>::empty() =~= errs0);
                    }
                    return BatchOut { outs, errs, ok: false };
                },
            }
            k = k + 1;
        }
        proof {
            let rest = batch_from(t, big, skip, terminal, k as int);
            assert(rest.0 =~= Seq::<Seq<u8>>::empty());
            assert(outs.deep_view() + Seq::<Seq<u8>>::empty() =~= outs.deep_view());
            assert(errs.deep_view() + Seq::<Seq<u8>>::empty() =~= errs.deep_view());
        }
        BatchOut { outs, errs, ok: true }
    }
}

/// How many lines from `k` on the grammar accepts.
pub open spec fn n_accepted(t: Type, lines: Seq<Seq<u8>>, k: int) -> int
    decreases lines.len() - k,
{
    if k < 0 || k >= lines.len() {
        0
    } else {
        (if scan_line(table_of(t), lines[k]) matches LineScan::Accept { .. } {
            1int
        } else {
            0int
        }) + n_accepted(t, lines, k + 1)
    }
}

/// Every line from `k` on that the grammar accepts has clean text in all
/// its fields.
pub open spec fn all_clean(t: Type, lines: Seq<Seq<u8>>, k: int) -> bool {
    forall|j: int|
        k <= j < lines.len() ==> ((#[trigger] scan_line(table_of(t), lines[j]))
            matches LineScan::Accept { caps } ==> fields_utf8(lines[j], caps_spans(caps)))
}

/// The serializations of the accepted lines from `k` on, in order.
pub open spec fn accepted_jsons(t: Type, lines: Seq<Seq<u8>>, k: int) -> Seq<Seq<u8>>
    decreases lines.len() - k,
{
    if k < 0 || k >= lines.len() {
        Seq::empty()
    } else {
        match scan_line(table_of(t), lines[k]) {
            LineScan::Accept { caps } => seq![json_of(t, lines[k], caps_spans(caps))]
                + accepted_jsons(t, lines, k + 1),
            _ => accepted_jsons(t, lines, k + 1),
        }
    }
}

/// The reports of the rejected lines from `k` on, in order, under the
/// skipping policy.
pub open spec fn rejected_reports(t: Type, lines: Seq<Seq<u8>>, terminal: bool, k: int) -> Seq<
    Seq<u8>,
>
    decreases lines.len() - k,
{
    if k < 0 || k >= lines.len() {
        Seq::empty()
    } else {
        match scan_line(table_of(t), lines[k]) {
            LineScan::Accept { .. } => rejected_reports(t, lines, terminal, k + 1),
            _ => seq![render_spec(t, lines[k], true, terminal)] + rejected_reports(
                t,
                lines,
                terminal,
                k + 1,
            ),
        }
    }
}

/// Tolerant mode over a batch of valid and invalid lines whose valid lines
/// are clean: the output holds exactly the serialization of each valid
/// line, the diagnostics hold exactly one report per invalid line, and the
/// batch runs to its end.
pub proof fn lemma_batch_tolerant(t: Type, lines: Seq<Seq<u8>>, terminal: bool, k: int)
    requires
        0 <= k,
        all_clean(t, lines, k),
    ensures
        batch_from(t, lines, true, terminal, k).0 == accepted_jsons(t, lines, k),
        batch_from(t, lines, true, terminal, k).0.len() == n_accepted(t, lines, k),
        batch_from(t, lines, true, terminal, k).1 == rejected_reports(t, lines, terminal, k),
        batch_from(t, lines, true, terminal, k).2,
    decreases lines.len() - k,
{
    if 0 <= k < lines.len() {
        assert(all_clean(t, lines, k + 1));
        lemma_batch_tolerant(t, lines, terminal, k + 1);
    }
}

/// Strict mode over the same batch: processing stops at the first invalid
/// line; the output holds exactly the JSON of the valid lines before it,
/// and the diagnostics exactly that line's report.
#[verifier::rlimit(60)]
pub proof fn lemma_batch_strict(t: Type, lines: Seq<Seq<u8>>, terminal: bool, k: int, j: int)
    requires
        0 <= k <= j < lines.len(),
        forall|m: int|
            k <= m < j ==> ((#[trigger] scan_line(table_of(t), lines[m]))
                matches LineScan::Accept { caps } && fields_utf8(lines[m], caps_spans(caps))),
        !(scan_line(table_of(t), lines[j]) matches LineScan::Accept { .. }),
    ensures
        batch_from(t, lines, false, terminal, k).0.len() == j - k,
        forall|m: int|
            0 <= m < j - k ==> ((#[trigger] scan_line(table_of(t), lines[k + m]))
                matches LineScan::Accept { caps } && batch_from(t, lines, false, terminal, k).0[m]
                == json_of(t, lines[k + m], caps_spans(caps))),
        batch_from(t, lines, false, terminal, k).1 == seq![
            render_spec(t, lines[j], false, terminal),
        ],
        !batch_from(t, lines, false, terminal, k).2,
    decreases j - k,
{
    if k < j {
        assert(scan_line(table_of(t), lines[k]) matches LineScan::Accept { caps }
            && fields_utf8(lines[k], caps_spans(caps)));
        lemma_batch_strict(t, lines, terminal, k + 1, j);
        let b = batch_from(t, lines, false, terminal, k);
        let rest = batch_from(t, lines, false, terminal, k + 1);
        assert forall|m: int|
            0 <= m < j - k implies ((#[trigger] scan_line(table_of(t), lines[k + m]))
            matches LineScan::Accept { caps } && b.0[m] == json_of(
            t,
            lines[k + m],
            caps_spans(caps),
        )) by {
            if m > 0 {
                assert(scan_line(table_of(t), lines[(k + 1) + (m - 1)])
                    matches LineScan::Accept { caps } && rest.0[m - 1] == json_of(
                    t,
                    lines[(k + 1) + (m - 1)],
                    caps_spans(caps),
                ));
                assert(b.0[m] == rest.0[m - 1]);
            }
        }
    }
}

/// The output lines of one file's batch.
pub open spec fn batch_outputs(t: Type, lines: Seq<Seq<u8>>, skip: bool, terminal: bool) -> Seq<
    Seq<u8>,
> {
    batch_spec(t, lines, skip, terminal).0
}

/// The output of a whole run over a tree of files, as a multiset: the
/// concurrent collector writes lines in whatever order they arrive, so only
/// the multiset is meaningful.
pub open spec fn tree_outputs(
    t: Type,
    files: Seq<Seq<Seq<u8>>>,
    skip: bool,
    terminal: bool,
) -> Multiset<Seq<u8>>
    decreases files.len(),
{
    if files.len() == 0 {
        Multiset::empty()
    } else {
        batch_outputs(t, files[0], skip, terminal).to_multiset().add(
            tree_outputs(t, files.drop_first(), skip, terminal),
        )
    }
}

/// Removing one file from the tree removes exactly its batch's outputs.
proof fn lemma_tree_outputs_remove(
    t: Type,
    files: Seq<Seq<Seq<u8>>>,
    j: int,
    skip: bool,
    terminal: bool,
)
    requires
        0 <= j < files.len(),
    ensures
        tree_outputs(t, files, skip, terminal) == batch_outputs(
            t,
            files[j],
            skip,
            terminal,
        ).to_multiset().add(tree_outputs(t, files.remove(j), skip, terminal)),
    decreases j,
{
    if j == 0 {
        assert(files.remove(0) =~= files.drop_first());
    } else {
        lemma_tree_outputs_remove(t, files.drop_first(), j - 1, skip, terminal);
        assert(files.remove(j).drop_first() =~= files.drop_first().remove(j - 1));
        assert(files.remove(j)[0] == files[0]);
        let a = batch_outputs(t, files[0], skip, terminal).to_multiset();
        let b = batch_outputs(t, files[j], skip, terminal).to_multiset();
        let rest = tree_outputs(t, files.drop_first().remove(j - 1), skip, terminal);
        assert(a.add(b.add(rest)) =~= b.add(a.add(rest)));
    }
}

/// Two runs over the same tree of files produce the same multiset of
/// output lines, in whatever order the workers take the files.
pub proof fn lemma_tree_outputs_permutation(
    t: Type,
    f1: Seq<Seq<Seq<u8>>>,
    f2: Seq<Seq<Seq<u8>>>,
    skip: bool,
    terminal: bool,
)
    requires
        f1.to_multiset() == f2.to_multiset(),
    ensures
        tree_outputs(t, f1, skip, terminal) == tree_outputs(t, f2, skip, terminal),
    decreases f1.len(),
{
    broadcast use vstd::seq_lib::group_to_multiset_ensures;

    if f1.len() == 0 {
        assert(f2.to_multiset().len() == 0);
        assert(f2.len() == 0);
    } else {
        let x = f1[0];
        assert(f1.contains(x));
        assert(f1.to_multiset().count(x) > 0);
        assert(f2.contains(x));
        let j = choose|j: int| 0 <= j < f2.len() && f2[j] == x;
        lemma_tree_outputs_remove(t, f2, j, skip, terminal);
        assert(f1.remove(0).to_multiset() =~= f1.to_multiset().remove(x));
        assert(f2.remove(j).to_multiset() =~= f2.to_multiset().remove(f2[j]));
        assert(f1.remove(0) =~= f1.drop_first());
        lemma_tree_outputs_permutation(t, f1.drop_first(), f2.remove(j), skip, terminal);
    }
}

} // verus!
