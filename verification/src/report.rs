//! Rendering of a rejected line for standard error: a plain one-line report
//! when the stream is not a terminal, and a colorized report isolating the
//! offending byte when it is. The text is produced as bytes, ready to be
//! written; trailing blanks of the displayed line are trimmed where the
//! original line is echoed behind a headline.

use vstd::prelude::*;

use crate::bytes::NL;
use crate::cli::{table_of, Type};
use crate::engine::locate_spec;
use crate::span::Span;

verus! {

/// The blanks trimmed from the end of an echoed line.
pub open spec fn is_blank(b: u8) -> bool {
    b == 0x20 || b == 0x09 || b == 0x0a || b == 0x0d
}

/// The length of `s`'s first `j` bytes once trailing blanks are dropped.
pub open spec fn trim_len(s: Seq<u8>, j: int) -> int
    decreases j,
{
    if j <= 0 {
        0
    } else if is_blank(s[j - 1]) {
        trim_len(s, j - 1)
    } else {
        j
    }
}

/// `s` without its trailing blanks.
pub open spec fn trimmed(s: Seq<u8>) -> Seq<u8> {
    s.subrange(0, trim_len(s, s.len() as int))
}

proof fn lemma_trim_len_bounds(s: Seq<u8>, j: int)
    requires
        0 <= j <= s.len(),
    ensures
        0 <= trim_len(s, j) <= j,
    decreases j,
{
    if j > 0 && is_blank(s[j - 1]) {
        lemma_trim_len_bounds(s, j - 1);
    }
}

/// Computes the trimmed length of `s`.
fn exec_trim_len(s: &[u8]) -> (r: usize)
    ensures
        r as int == trim_len(s@, s@.len() as int),
        r <= s@.len(),
{
    proof {
        lemma_trim_len_bounds(s@, s@.len() as int);
    }
    let mut j: usize = s.len();
    while j > 0
        invariant
            j <= s@.len(),
            trim_len(s@, s@.len() as int) == trim_len(s@, j as int),
        decreases j,
    {
        let b = s[j - 1];
        if b == 0x20 || b == 0x09 || b == 0x0a || b == 0x0d {
            j = j - 1;
        } else {
            return j;
        }
    }
    j
}

/// Appends `s[a..b)`.
fn push_range(out: &mut Vec<u8>, s: &[u8], a: usize, b: usize)
    requires
        a <= b <= s@.len(),
    ensures
        final (out)@ == old(out)@ + s@.subrange(a as int, b as int),
{
    let ghost base = out@;
    let mut i: usize = a;
    while i < b
        invariant
            a <= i <= b <= s@.len(),
            out@ == base + s@.subrange(a as int, i as int),
        decreases b - i,
    {
        out.push(s[i]);
        i = i + 1;
        proof {
            assert(out@ =~= base + s@.subrange(a as int, i as int));
        }
    }
}

/// Appends all of `v`.
fn push_lit(out: &mut Vec<u8>, v: &Vec<u8>)
    ensures
        final (out)@ == old(out)@ + v@,
{
    let ghost base = out@;
    let mut i: usize = 0;
    while i < v.len()
        invariant
            0 <= i <= v@.len(),
            out@ == base + v@.subrange(0, i as int),
        decreases v@.len() - i,
    {
        out.push(v[i]);
        i = i + 1;
        proof {
            assert(out@ =~= base + v@.subrange(0, i as int));
        }
    }
    proof {
        assert(base + v@.subrange(0, v@.len() as int) =~= base + v@);
    }
}

/// The plain-stream prefix of a skipped line's report.
/// `Skipping error: Invalid log line: `
pub open spec fn plain_skip() -> Seq<u8> {
    seq![0x53u8, 0x6b, 0x69, 0x70, 0x70, 0x69, 0x6e, 0x67, 0x20, 0x65, 0x72, 0x72, 0x6f, 0x72, 0x3a, 0x20, 0x49, 0x6e, 0x76, 0x61, 0x6c, 0x69, 0x64, 0x20, 0x6c, 0x6f, 0x67, 0x20, 0x6c, 0x69, 0x6e, 0x65, 0x3a, 0x20]
}

/// Builds `plain_skip()` as bytes.
#[verifier::rlimit(100)]
fn plain_skip_vec() -> (v: Vec<u8>)
    ensures
        v@ == plain_skip(),
{
    let mut v: Vec<u8> = Vec::new();
    v.push(0x53);
    v.push(0x6b);
    v.push(0x69);
    v.push(0x70);
    v.push(0x70);
    v.push(0x69);
    v.push(0x6e);
    v.push(0x67);
    v.push(0x20);
    v.push(0x65);
    v.push(0x72);
    v.push(0x72);
    v.push(0x6f);
    v.push(0x72);
    v.push(0x3a);
    v.push(0x20);
    v.push(0x49);
    v.push(0x6e);
    v.push(0x76);
    v.push(0x61);
    v.push(0x6c);
    v.push(0x69);
    v.push(0x64);
    v.push(0x20);
    v.push(0x6c);
    v.push(0x6f);
    v.push(0x67);
    v.push(0x20);
    v.push(0x6c);
    v.push(0x69);
    v.push(0x6e);
    v.push(0x65);
    v.push(0x3a);
    v.push(0x20);
    proof {
        assert(v@ =~= plain_skip());
    }
    v
}

/// The plain-stream prefix of a fatal rejection's report.
/// `Error: Invalid log line: `
pub open spec fn plain_strict() -> Seq<u8> {
    seq![0x45u8, 0x72, 0x72, 0x6f, 0x72, 0x3a, 0x20, 0x49, 0x6e, 0x76, 0x61, 0x6c, 0x69, 0x64, 0x20, 0x6c, 0x6f, 0x67, 0x20, 0x6c, 0x69, 0x6e, 0x65, 0x3a, 0x20]
}

/// Builds `plain_strict()` as bytes.
#[verifier::rlimit(100)]
fn plain_strict_vec() -> (v: Vec<u8>)
    ensures
        v@ == plain_strict(),
{
    let mut v: Vec<u8> = Vec::new();
    v.push(0x45);
    v.push(0x72);
    v.push(0x72);
    v.push(0x6f);
    v.push(0x72);
    v.push(0x3a);
    v.push(0x20);
    v.push(0x49);
    v.push(0x6e);
    v.push(0x76);
    v.push(0x61);
    v.push(0x6c);
    v.push(0x69);
    v.push(0x64);
    v.push(0x20);
    v.push(0x6c);
    v.push(0x6f);
    v.push(0x67);
    v.push(0x20);
    v.push(0x6c);
    v.push(0x69);
    v.push(0x6e);
    v.push(0x65);
    v.push(0x3a);
    v.push(0x20);
    proof {
        assert(v@ =~= plain_strict());
    }
    v
}

/// The terminal headline when a rejected line is being skipped.
/// `<ESC>[33mFailed to parse following line, skipping:<ESC>[0m`
pub open spec fn term_skip() -> Seq<u8> {
    seq![0x1bu8, 0x5b, 0x33, 0x33, 0x6d, 0x46, 0x61, 0x69, 0x6c, 0x65, 0x64, 0x20, 0x74, 0x6f, 0x20, 0x70, 0x61, 0x72, 0x73, 0x65, 0x20, 0x66, 0x6f, 0x6c, 0x6c, 0x6f, 0x77, 0x69, 0x6e, 0x67, 0x20, 0x6c, 0x69, 0x6e, 0x65, 0x2c, 0x20, 0x73, 0x6b, 0x69, 0x70, 0x70, 0x69, 0x6e, 0x67, 0x3a, 0x1b, 0x5b, 0x30, 0x6d]
}

/// Builds `term_skip()` as bytes.
#[verifier::rlimit(100)]
fn term_skip_vec() -> (v: Vec<u8>)
    ensures
        v@ == term_skip(),
{
    let mut v: Vec<u8> = Vec::new();
    v.push(0x1b);
    v.push(0x5b);
    v.push(0x33);
    v.push(0x33);
    v.push(0x6d);
    v.push(0x46);
    v.push(0x61);
    v.push(0x69);
    v.push(0x6c);
    v.push(0x65);
    v.push(0x64);
    v.push(0x20);
    v.push(0x74);
    v.push(0x6f);
    v.push(0x20);
    v.push(0x70);
    v.push(0x61);
    v.push(0x72);
    v.push(0x73);
    v.push(0x65);
    v.push(0x20);
    v.push(0x66);
    v.push(0x6f);
    v.push(0x6c);
    v.push(0x6c);
    v.push(0x6f);
    v.push(0x77);
    v.push(0x69);
    v.push(0x6e);
    v.push(0x67);
    v.push(0x20);
    v.push(0x6c);
    v.push(0x69);
    v.push(0x6e);
    v.push(0x65);
    v.push(0x2c);
    v.push(0x20);
    v.push(0x73);
    v.push(0x6b);
    v.push(0x69);
    v.push(0x70);
    v.push(0x70);
    v.push(0x69);
    v.push(0x6e);
    v.push(0x67);
    v.push(0x3a);
    v.push(0x1b);
    v.push(0x5b);
    v.push(0x30);
    v.push(0x6d);
    proof {
        assert(v@ =~= term_skip());
    }
    v
}

/// The terminal headline when a rejected line ends the run.
/// `<ESC>[31mThread panicked due to parsing failure:<ESC>[0m`
pub open spec fn term_strict() -> Seq<u8> {
    seq![0x1bu8, 0x5b, 0x33, 0x31, 0x6d, 0x54, 0x68, 0x72, 0x65, 0x61, 0x64, 0x20, 0x70, 0x61, 0x6e, 0x69, 0x63, 0x6b, 0x65, 0x64, 0x20, 0x64, 0x75, 0x65, 0x20, 0x74, 0x6f, 0x20, 0x70, 0x61, 0x72, 0x73, 0x69, 0x6e, 0x67, 0x20, 0x66, 0x61, 0x69, 0x6c, 0x75, 0x72, 0x65, 0x3a, 0x1b, 0x5b, 0x30, 0x6d]
}

/// Builds `term_strict()` as bytes.
#[verifier::rlimit(100)]
fn term_strict_vec() -> (v: Vec<u8>)
    ensures
        v@ == term_strict(),
{
    let mut v: Vec<u8> = Vec::new();
    v.push(0x1b);
    v.push(0x5b);
    v.push(0x33);
    v.push(0x31);
    v.push(0x6d);
    v.push(0x54);
    v.push(0x68);
    v.push(0x72);
    v.push(0x65);
    v.push(0x61);
    v.push(0x64);
    v.push(0x20);
    v.push(0x70);
    v.push(0x61);
    v.push(0x6e);
    v.push(0x69);
    v.push(0x63);
    v.push(0x6b);
    v.push(0x65);
    v.push(0x64);
    v.push(0x20);
    v.push(0x64);
    v.push(0x75);
    v.push(0x65);
    v.push(0x20);
    v.push(0x74);
    v.push(0x6f);
    v.push(0x20);
    v.push(0x70);
    v.push(0x61);
    v.push(0x72);
    v.push(0x73);
    v.push(0x69);
    v.push(0x6e);
    v.push(0x67);
    v.push(0x20);
    v.push(0x66);
    v.push(0x61);
    v.push(0x69);
    v.push(0x6c);
    v.push(0x75);
    v.push(0x72);
    v.push(0x65);
    v.push(0x3a);
    v.push(0x1b);
    v.push(0x5b);
    v.push(0x30);
    v.push(0x6d);
    proof {
        assert(v@ =~= term_strict());
    }
    v
}

/// Line break and indentation before the offending line.
/// `<NL>    `
pub open spec fn msg_indent() -> Seq<u8> {
    seq![0x0au8, 0x20, 0x20, 0x20, 0x20]
}

/// Builds `msg_indent()` as bytes.
#[verifier::rlimit(100)]
fn msg_indent_vec() -> (v: Vec<u8>)
    ensures
        v@ == msg_indent(),
{
    let mut v: Vec<u8> = Vec::new();
    v.push(0x0a);
    v.push(0x20);
    v.push(0x20);
    v.push(0x20);
    v.push(0x20);
    proof {
        assert(v@ =~= msg_indent());
    }
    v
}

/// Highlighting for the offending byte.
/// `<ESC>[1;91;4;31m`
pub open spec fn hl_on() -> Seq<u8> {
    seq![0x1bu8, 0x5b, 0x31, 0x3b, 0x39, 0x31, 0x3b, 0x34, 0x3b, 0x33, 0x31, 0x6d]
}

/// Builds `hl_on()` as bytes.
#[verifier::rlimit(100)]
fn hl_on_vec() -> (v: Vec<u8>)
    ensures
        v@ == hl_on(),
{
    let mut v: Vec<u8> = Vec::new();
    v.push(0x1b);
    v.push(0x5b);
    v.push(0x31);
    v.push(0x3b);
    v.push(0x39);
    v.push(0x31);
    v.push(0x3b);
    v.push(0x34);
    v.push(0x3b);
    v.push(0x33);
    v.push(0x31);
    v.push(0x6d);
    proof {
        assert(v@ =~= hl_on());
    }
    v
}

/// Ends the current terminal style.
/// `<ESC>[0m`
pub open spec fn ansi_reset() -> Seq<u8> {
    seq![0x1bu8, 0x5b, 0x30, 0x6d]
}

/// Builds `ansi_reset()` as bytes.
#[verifier::rlimit(100)]
fn ansi_reset_vec() -> (v: Vec<u8>)
    ensures
        v@ == ansi_reset(),
{
    let mut v: Vec<u8> = Vec::new();
    v.push(0x1b);
    v.push(0x5b);
    v.push(0x30);
    v.push(0x6d);
    proof {
        assert(v@ =~= ansi_reset());
    }
    v
}

/// Dim styling for the text after the offending byte.
/// `<ESC>[38;5;238m`
pub open spec fn dim_on() -> Seq<u8> {
    seq![0x1bu8, 0x5b, 0x33, 0x38, 0x3b, 0x35, 0x3b, 0x32, 0x33, 0x38, 0x6d]
}

/// Builds `dim_on()` as bytes.
#[verifier::rlimit(100)]
fn dim_on_vec() -> (v: Vec<u8>)
    ensures
        v@ == dim_on(),
{
    let mut v: Vec<u8> = Vec::new();
    v.push(0x1b);
    v.push(0x5b);
    v.push(0x33);
    v.push(0x38);
    v.push(0x3b);
    v.push(0x35);
    v.push(0x3b);
    v.push(0x32);
    v.push(0x33);
    v.push(0x38);
    v.push(0x6d);
    proof {
        assert(v@ =~= dim_on());
    }
    v
}

/// The note shown when the line ended before the grammar was satisfied.
/// `<ESC>[91m(expected next input, but received none)<ESC>[0m`
pub open spec fn eoi_note() -> Seq<u8> {
    seq![0x1bu8, 0x5b, 0x39, 0x31, 0x6d, 0x28, 0x65, 0x78, 0x70, 0x65, 0x63, 0x74, 0x65, 0x64, 0x20, 0x6e, 0x65, 0x78, 0x74, 0x20, 0x69, 0x6e, 0x70, 0x75, 0x74, 0x2c, 0x20, 0x62, 0x75, 0x74, 0x20, 0x72, 0x65, 0x63, 0x65, 0x69, 0x76, 0x65, 0x64, 0x20, 0x6e, 0x6f, 0x6e, 0x65, 0x29, 0x1b, 0x5b, 0x30, 0x6d]
}

/// Builds `eoi_note()` as bytes.
#[verifier::rlimit(100)]
fn eoi_note_vec() -> (v: Vec<u8>)
    ensures
        v@ == eoi_note(),
{
    let mut v: Vec<u8> = Vec::new();
    v.push(0x1b);
    v.push(0x5b);
    v.push(0x39);
    v.push(0x31);
    v.push(0x6d);
    v.push(0x28);
    v.push(0x65);
    v.push(0x78);
    v.push(0x70);
    v.push(0x65);
    v.push(0x63);
    v.push(0x74);
    v.push(0x65);
    v.push(0x64);
    v.push(0x20);
    v.push(0x6e);
    v.push(0x65);
    v.push(0x78);
    v.push(0x74);
    v.push(0x20);
    v.push(0x69);
    v.push(0x6e);
    v.push(0x70);
    v.push(0x75);
    v.push(0x74);
    v.push(0x2c);
    v.push(0x20);
    v.push(0x62);
    v.push(0x75);
    v.push(0x74);
    v.push(0x20);
    v.push(0x72);
    v.push(0x65);
    v.push(0x63);
    v.push(0x65);
    v.push(0x69);
    v.push(0x76);
    v.push(0x65);
    v.push(0x64);
    v.push(0x20);
    v.push(0x6e);
    v.push(0x6f);
    v.push(0x6e);
    v.push(0x65);
    v.push(0x29);
    v.push(0x1b);
    v.push(0x5b);
    v.push(0x30);
    v.push(0x6d);
    proof {
        assert(v@ =~= eoi_note());
    }
    v
}
/// The whole report for a rejected line: on a plain stream one prefixed
/// line carrying the raw bytes; on a terminal the headline, the echoed line
/// with the first dead byte highlighted (or a note that the line ended too
/// early), and a closing blank line.
pub open spec fn render_spec(t: Type, s: Seq<u8>, skip: bool, terminal: bool) -> Seq<u8> {
    if !terminal {
        (if skip {
            plain_skip()
        } else {
            plain_strict()
        }) + s + seq![NL]
    } else {
        let msg = if skip {
            term_skip()
        } else {
            term_strict()
        };
        match locate_spec(table_of(t), s) {
            Option::None => msg + msg_indent() + trimmed(s) + seq![NL, NL],
            Option::Some(idx) => if idx < s.len() {
                msg + msg_indent() + s.subrange(0, idx) + hl_on() + s.subrange(idx, idx + 1)
                    + ansi_reset() + dim_on() + trimmed(s.subrange(idx + 1, s.len() as int))
                    + ansi_reset() + seq![NL, NL]
            } else {
                msg + msg_indent() + trimmed(s) + seq![0x20u8] + eoi_note() + seq![NL, NL]
            },
        }
    }
}

/// Finds the failure position of `line` under the dialect `t`.
fn locate_dialect(t: Type, line: &[u8]) -> (r: Option<usize>)
    ensures
        (match locate_spec(table_of(t), line@) {
            Option::Some(x) => r matches Option::Some(y) && y as int == x,
            Option::None => r matches Option::None,
        }),
{
    match t {
        Type::Alb => crate::alb::LogParser::try_find_failed_position(line),
        Type::ClassicLb => crate::classic_lb::LogParser::try_find_failed_position(line),
    }
}

/// Renders the report for a rejected line, as the exact bytes to write to
/// standard error.
pub fn render_diagnostic(t: Type, line: &[u8], skip: bool, terminal: bool) -> (r: Vec<u8>)
    ensures
        r@ == render_spec(t, line@, skip, terminal),
{
    let mut out: Vec<u8> = Vec::new();
    if !terminal {
        let head = if skip {
            plain_skip_vec()
        } else {
            plain_strict_vec()
        };
        push_lit(&mut out, &head);
        push_range(&mut out, line, 0, line.len());
        out.push(NL);
        proof {
            assert(line@.subrange(0, line@.len() as int) =~= line@);
            assert(out@ =~= render_spec(t, line@, skip, terminal));
        }
        return out;
    }
    let msg = if skip {
        term_skip_vec()
    } else {
        term_strict_vec()
    };
    push_lit(&mut out, &msg);
    let ind = msg_indent_vec();
    push_lit(&mut out, &ind);
    match locate_dialect(t, line) {
        Option::None => {
            let tl = exec_trim_len(line);
            push_range(&mut out, line, 0, tl);
            out.push(NL);
            out.push(NL);
            proof {
                assert(out@ =~= render_spec(t, line@, skip, terminal));
            }
        },
        Option::Some(idx) => {
            if idx < line.len() {
                push_range(&mut out, line, 0, idx);
                let hl = hl_on_vec();
                push_lit(&mut out, &hl);
                push_range(&mut out, line, idx, idx + 1);
                let rs = ansi_reset_vec();
                push_lit(&mut out, &rs);
                let dm = dim_on_vec();
                push_lit(&mut out, &dm);
                let rest = crate::span::span_bytes(line, Span { start: idx + 1, end: line.len() });
                let tl = exec_trim_len(rest.as_slice());
                push_range(&mut out, rest.as_slice(), 0, tl);
                let rs2 = ansi_reset_vec();
                push_lit(&mut out, &rs2);
                out.push(NL);
                out.push(NL);
                proof {
                    assert(rest@ == line@.subrange(idx + 1, line@.len() as int));
                    assert(rest@.subrange(0, trim_len(rest@, rest@.len() as int)) =~= trimmed(
                        rest@,
                    ));
                    assert(out@ =~= render_spec(t, line@, skip, terminal));
                }
            } else {
                let tl = exec_trim_len(line);
                push_range(&mut out, line, 0, tl);
                out.push(0x20);
                let nt = eoi_note_vec();
                push_lit(&mut out, &nt);
                out.push(NL);
                out.push(NL);
                proof {
                    assert(out@ =~= render_spec(t, line@, skip, terminal));
                }
            }
        },
    }
    out
}

} // verus!
