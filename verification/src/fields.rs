//! The fields of the two dialects. Each segment of a line grammar is scanned
//! by one specification function here, paired with an executable scanner
//! proved to return exactly the specified outcome. A segment either advances
//! to a new position (capturing the byte ranges of its fields), fails at a
//! definite byte, or runs out of input while a completion was still possible.

use vstd::prelude::*;

use crate::bytes::{
    in_class, is_alnum, is_digit, run_end, ByteClass, COLON, DASH, DOT, NL, QUOTE, SP,
};
use crate::bytes::{byte_in_class, scan_run};
use crate::scan::{lit_step, qscan, sscan, LitStep, QStep, Step};
use crate::scan::{scan_lit, scan_quoted_esc, scan_quoted_simple, step_like_lit, step_like_q};
use crate::span::Span;

verus! {

/// One segment of a line grammar: either a single literal byte (separator)
/// or one field. The comments give the shape of each field's token; a
/// quoted shape includes its surrounding quotes.
#[derive(Clone, Copy, PartialEq, Eq, Structural, Debug)]
pub enum Segment {
    /// One exact byte, capturing nothing: the separators ` ` and `:`.
    Lit(u8),
    /// A protocol scheme: one of `http`, `https`, `h2`, `grpcs`, `ws`, `wss`.
    Scheme,
    /// A timestamp `YYYY-MM-DDTHH:MM:SS.ffffffZ`, 27 bytes.
    Timestamp,
    /// A load-balancer name: alphanumeric first and last byte, `-` (and `/`
    /// when `slash` is set) allowed between.
    Name { slash: bool },
    /// An IPv4 address: four octets of one to three digits.
    Ip,
    /// A digit run of bounded length.
    Digits { min: usize, max: usize },
    /// A digit run of bounded length, or the sentinel `-`.
    DigitsOrDash { min: usize, max: usize },
    /// `ip:port`, or the sentinel `-`.
    NullableIpPort,
    /// A processing time: `digits.digits`, or the sentinel `-1`.
    ProcTime,
    /// The quoted request `"method url version"`; three captures. The URL is
    /// matched greedily: it ends at the last space before the closing quote
    /// that leaves a well-formed version token.
    Request { classic: bool },
    /// A quoted string with the full escape grammar: user agent, redirect
    /// URL.
    QuotedEsc,
    /// A quoted string accepting only the `\"` escape: trace id.
    QuotedSimpleEsc,
    /// A quoted domain name, with one optional leading space left out of the
    /// capture.
    QuotedDomain,
    /// A quoted certificate field: `arn:` and a lightly escaped tail,
    /// `session-reused`, or `-`.
    QuotedCert,
    /// A quoted run of `[a-z-]`, possibly empty: actions executed.
    QuotedActions,
    /// A quoted alphabetic word or `-`: error reason, classification reason.
    QuotedAlphaOrDash,
    /// A quoted space-separated list of `ip:port` pairs, or `-`.
    QuotedIpList,
    /// A quoted space-separated list of three-digit status codes, or `-`.
    QuotedStatusList,
    /// A quoted classification: `Acceptable`, `Ambiguous`, `Severe`, or `-`.
    QuotedClassification,
    /// A bare run of at least one byte of `class`: TLS cipher.
    Run { class: ByteClass },
    /// `TLSv` and a run of `[0-9.]`, or `-`.
    TlsProto,
    /// `arn:` and a run of non-space bytes, or `-`.
    ArnOrDash,
    /// A rule priority: one to five digits, `-1`, or `-`.
    RulePriority,
}

/// Outcome of scanning one segment at the specification level.
pub enum SegScan {
    /// Matched: scanning resumes at `end`; `caps` are the captured ranges.
    Next { end: int, caps: Seq<(int, int)> },
    /// The byte at `at` cannot occur here.
    Fail { at: int },
    /// The input ended while the segment could still have been completed.
    Eoi,
}

/// How an executable scanner reports the outcome `t`: the step matches, and
/// the captured ranges of `t` have been appended to the capture vector.
pub open spec fn seg_post(t: SegScan, r: Step, caps0: Seq<Span>, caps1: Seq<Span>) -> bool {
    match t {
        SegScan::Next { end, caps } => r matches Step::Next(e) && e == end && caps1.len()
            == caps0.len() + caps.len() && caps1.subrange(0, caps0.len() as int) == caps0 && (
        forall|k: int|
            0 <= k < caps.len() ==> caps1[caps0.len() + k].start as int == caps[k].0
                && caps1[caps0.len() + k].end as int == caps[k].1),
        SegScan::Fail { at } => r matches Step::Fail(a) && a == at && caps1 == caps0,
        SegScan::Eoi => r matches Step::Eoi && caps1 == caps0,
    }
}

// ---------------------------------------------------------------------------
// Literal tokens that several fields test for.
// ---------------------------------------------------------------------------
/// `arn:`
pub open spec fn lit_arn() -> Seq<u8> {
    seq![0x61u8, 0x72, 0x6e, 0x3a]
}

/// `session-reused`
pub open spec fn lit_session_reused() -> Seq<u8> {
    seq![0x73u8, 0x65, 0x73, 0x73, 0x69, 0x6f, 0x6e, 0x2d, 0x72, 0x65, 0x75, 0x73, 0x65, 0x64]
}

/// `HTTP/`
pub open spec fn lit_http_slash() -> Seq<u8> {
    seq![0x48u8, 0x54, 0x54, 0x50, 0x2f]
}

/// `TLSv`
pub open spec fn lit_tlsv() -> Seq<u8> {
    seq![0x54u8, 0x4c, 0x53, 0x76]
}

/// `grpcs`
pub open spec fn lit_grpcs() -> Seq<u8> {
    seq![0x67u8, 0x72, 0x70, 0x63, 0x73]
}

/// `Acceptable`
pub open spec fn lit_acceptable() -> Seq<u8> {
    seq![0x41u8, 0x63, 0x63, 0x65, 0x70, 0x74, 0x61, 0x62, 0x6c, 0x65]
}

/// `Ambiguous`
pub open spec fn lit_ambiguous() -> Seq<u8> {
    seq![0x41u8, 0x6d, 0x62, 0x69, 0x67, 0x75, 0x6f, 0x75, 0x73]
}

/// `Severe`
pub open spec fn lit_severe() -> Seq<u8> {
    seq![0x53u8, 0x65, 0x76, 0x65, 0x72, 0x65]
}

/// Builds `arn:` as bytes.
fn vec_arn() -> (v: Vec<u8>)
    ensures
        v@ == lit_arn(),
{
    let mut v: Vec<u8> = Vec::new();
    v.push(0x61);
    v.push(0x72);
    v.push(0x6e);
    v.push(0x3a);
    proof {
        assert(v@ =~= lit_arn());
    }
    v
}

/// Builds `session-reused` as bytes.
fn vec_session_reused() -> (v: Vec<u8>)
    ensures
        v@ == lit_session_reused(),
{
    let mut v: Vec<u8> = Vec::new();
    v.push(0x73);
    v.push(0x65);
    v.push(0x73);
    v.push(0x73);
    v.push(0x69);
    v.push(0x6f);
    v.push(0x6e);
    v.push(0x2d);
    v.push(0x72);
    v.push(0x65);
    v.push(0x75);
    v.push(0x73);
    v.push(0x65);
    v.push(0x64);
    proof {
        assert(v@ =~= lit_session_reused());
    }
    v
}

/// Builds `HTTP/` as bytes.
fn vec_http_slash() -> (v: Vec<u8>)
    ensures
        v@ == lit_http_slash(),
{
    let mut v: Vec<u8> = Vec::new();
    v.push(0x48);
    v.push(0x54);
    v.push(0x54);
    v.push(0x50);
    v.push(0x2f);
    proof {
        assert(v@ =~= lit_http_slash());
    }
    v
}

/// Builds `TLSv` as bytes.
fn vec_tlsv() -> (v: Vec<u8>)
    ensures
        v@ == lit_tlsv(),
{
    let mut v: Vec<u8> = Vec::new();
    v.push(0x54);
    v.push(0x4c);
    v.push(0x53);
    v.push(0x76);
    proof {
        assert(v@ =~= lit_tlsv());
    }
    v
}

/// Builds `grpcs` as bytes.
fn vec_grpcs() -> (v: Vec<u8>)
    ensures
        v@ == lit_grpcs(),
{
    let mut v: Vec<u8> = Vec::new();
    v.push(0x67);
    v.push(0x72);
    v.push(0x70);
    v.push(0x63);
    v.push(0x73);
    proof {
        assert(v@ =~= lit_grpcs());
    }
    v
}

/// Builds `Acceptable` as bytes.
fn vec_acceptable() -> (v: Vec<u8>)
    ensures
        v@ == lit_acceptable(),
{
    let mut v: Vec<u8> = Vec::new();
    v.push(0x41);
    v.push(0x63);
    v.push(0x63);
    v.push(0x65);
    v.push(0x70);
    v.push(0x74);
    v.push(0x61);
    v.push(0x62);
    v.push(0x6c);
    v.push(0x65);
    proof {
        assert(v@ =~= lit_acceptable());
    }
    v
}

/// Builds `Ambiguous` as bytes.
fn vec_ambiguous() -> (v: Vec<u8>)
    ensures
        v@ == lit_ambiguous(),
{
    let mut v: Vec<u8> = Vec::new();
    v.push(0x41);
    v.push(0x6d);
    v.push(0x62);
    v.push(0x69);
    v.push(0x67);
    v.push(0x75);
    v.push(0x6f);
    v.push(0x75);
    v.push(0x73);
    proof {
        assert(v@ =~= lit_ambiguous());
    }
    v
}

/// Builds `Severe` as bytes.
fn vec_severe() -> (v: Vec<u8>)
    ensures
        v@ == lit_severe(),
{
    let mut v: Vec<u8> = Vec::new();
    v.push(0x53);
    v.push(0x65);
    v.push(0x76);
    v.push(0x65);
    v.push(0x72);
    v.push(0x65);
    proof {
        assert(v@ =~= lit_severe());
    }
    v
}

// ---------------------------------------------------------------------------
// Bare-token fields.
// ---------------------------------------------------------------------------
/// One captured range.
pub open spec fn one_cap(i: int, e: int) -> Seq<(int, int)> {
    seq![(i, e)]
}

/// Lifts a literal-scan outcome to a segment outcome capturing `[i0, end)`.
pub open spec fn lit_to_seg(t: LitStep, i0: int) -> SegScan {
    match t {
        LitStep::Next { end } => SegScan::Next { end, caps: one_cap(i0, end) },
        LitStep::Fail { at } => SegScan::Fail { at },
        LitStep::Eoi => SegScan::Eoi,
    }
}

/// The scheme token, as the trie over its six members: greedy, so `https`
/// wins over `http` and `wss` over `ws` when the next byte allows it.
pub open spec fn scheme_scan(s: Seq<u8>, i: int) -> SegScan {
    if i >= s.len() {
        SegScan::Eoi
    } else if s[i] == 0x68 {  // h
        if i + 1 >= s.len() {
            SegScan::Eoi
        } else if s[i + 1] == 0x32 {  // h2
            SegScan::Next { end: i + 2, caps: one_cap(i, i + 2) }
        } else if s[i + 1] == 0x74 {  // ht
            if i + 2 >= s.len() {
                SegScan::Eoi
            } else if s[i + 2] != 0x74 {
                SegScan::Fail { at: i + 2 }
            } else if i + 3 >= s.len() {
                SegScan::Eoi
            } else if s[i + 3] != 0x70 {
                SegScan::Fail { at: i + 3 }
            } else if i + 4 < s.len() && s[i + 4] == 0x73 {  // https
                SegScan::Next { end: i + 5, caps: one_cap(i, i + 5) }
            } else {  // http
                SegScan::Next { end: i + 4, caps: one_cap(i, i + 4) }
            }
        } else {
            SegScan::Fail { at: i + 1 }
        }
    } else if s[i] == 0x67 {  // g: grpcs
        lit_to_seg(lit_step(s, i, lit_grpcs()), i)
    } else if s[i] == 0x77 {  // w
        if i + 1 >= s.len() {
            SegScan::Eoi
        } else if s[i + 1] != 0x73 {
            SegScan::Fail { at: i + 1 }
        } else if i + 2 < s.len() && s[i + 2] == 0x73 {  // wss
            SegScan::Next { end: i + 3, caps: one_cap(i, i + 3) }
        } else {  // ws
            SegScan::Next { end: i + 2, caps: one_cap(i, i + 2) }
        }
    } else {
        SegScan::Fail { at: i }
    }
}

/// What byte a timestamp must hold at offset `j` of its 27 bytes.
pub open spec fn ts_char(j: int, b: u8) -> bool {
    if j == 4 || j == 7 {
        b == DASH
    } else if j == 10 {
        b == 0x54  // T
    } else if j == 13 || j == 16 {
        b == COLON
    } else if j == 19 {
        b == DOT
    } else if j == 26 {
        b == 0x5a  // Z
    } else {
        is_digit(b)
    }
}

/// Walks the 27-byte timestamp pattern from offset `j`.
pub open spec fn ts_scan_from(s: Seq<u8>, i: int, j: int) -> SegScan
    decreases 27 - j,
{
    if j >= 27 {
        SegScan::Next { end: i + 27, caps: one_cap(i, i + 27) }
    } else if i + j >= s.len() {
        SegScan::Eoi
    } else if ts_char(j, s[i + j]) {
        ts_scan_from(s, i, j + 1)
    } else {
        SegScan::Fail { at: i + j }
    }
}

pub open spec fn ts_scan(s: Seq<u8>, i: int) -> SegScan {
    ts_scan_from(s, i, 0)
}

/// A load-balancer name: first byte alphanumeric, then a run of name bytes
/// that must not end on a separator-adjacent `-` or `/`.
pub open spec fn name_scan(s: Seq<u8>, i: int, slash: bool) -> SegScan {
    if i >= s.len() {
        SegScan::Eoi
    } else if !is_alnum(s[i]) {
        SegScan::Fail { at: i }
    } else {
        let e: int = run_end(s, i, ByteClass::NameChar { slash });
        if e >= s.len() {
            if is_alnum(s[e - 1]) {
                SegScan::Next { end: e, caps: one_cap(i, e) }
            } else {
                SegScan::Eoi
            }
        } else if is_alnum(s[e - 1]) {
            SegScan::Next { end: e, caps: one_cap(i, e) }
        } else {
            SegScan::Fail { at: e }
        }
    }
}

/// One IPv4 octet: one to three digits; a fourth digit is dead.
pub open spec fn octet_scan(s: Seq<u8>, i: int) -> LitStep {
    if i >= s.len() {
        LitStep::Eoi
    } else if !is_digit(s[i]) {
        LitStep::Fail { at: i }
    } else {
        let e: int = run_end(s, i, ByteClass::Digit);
        if e - i > 3 {
            LitStep::Fail { at: i + 3 }
        } else {
            LitStep::Next { end: e }
        }
    }
}

/// A digit run of `min` to `max` bytes; byte `i + max` being a digit is
/// dead, and a too-short run fails at its first non-digit byte.
pub open spec fn bounded_digits_scan(s: Seq<u8>, i: int, min: int, max: int) -> LitStep {
    if i >= s.len() {
        LitStep::Eoi
    } else if !is_digit(s[i]) {
        LitStep::Fail { at: i }
    } else {
        let e: int = run_end(s, i, ByteClass::Digit);
        if e - i > max {
            LitStep::Fail { at: i + max }
        } else if e >= s.len() {
            if e - i >= min {
                LitStep::Next { end: e }
            } else {
                LitStep::Eoi
            }
        } else if e - i >= min {
            LitStep::Next { end: e }
        } else {
            LitStep::Fail { at: e }
        }
    }
}

/// `a.b.c.d`: four octets.
pub open spec fn ip_scan(s: Seq<u8>, i: int) -> LitStep {
    match octet_scan(s, i) {
        LitStep::Next { end: e1 } => {
            if e1 >= s.len() {
                LitStep::Eoi
            } else if s[e1] != DOT {
                LitStep::Fail { at: e1 }
            } else {
                match octet_scan(s, e1 + 1) {
                    LitStep::Next { end: e2 } => {
                        if e2 >= s.len() {
                            LitStep::Eoi
                        } else if s[e2] != DOT {
                            LitStep::Fail { at: e2 }
                        } else {
                            match octet_scan(s, e2 + 1) {
                                LitStep::Next { end: e3 } => {
                                    if e3 >= s.len() {
                                        LitStep::Eoi
                                    } else if s[e3] != DOT {
                                        LitStep::Fail { at: e3 }
                                    } else {
                                        octet_scan(s, e3 + 1)
                                    }
                                },
                                other => other,
                            }
                        }
                    },
                    other => other,
                }
            }
        },
        other => other,
    }
}

/// `ip:port`.
pub open spec fn ipport_scan(s: Seq<u8>, i: int) -> LitStep {
    match ip_scan(s, i) {
        LitStep::Next { end: e } => {
            if e >= s.len() {
                LitStep::Eoi
            } else if s[e] != COLON {
                LitStep::Fail { at: e }
            } else {
                bounded_digits_scan(s, e + 1, 1, 5)
            }
        },
        other => other,
    }
}

/// The `Ip` field: an address, captured without any port.
pub open spec fn ip_field_scan(s: Seq<u8>, i: int) -> SegScan {
    lit_to_seg(ip_scan(s, i), i)
}

/// The `Digits` field.
pub open spec fn digits_field_scan(s: Seq<u8>, i: int, min: int, max: int) -> SegScan {
    lit_to_seg(bounded_digits_scan(s, i, min, max), i)
}

/// The `DigitsOrDash` field.
pub open spec fn digits_or_dash_scan(s: Seq<u8>, i: int, min: int, max: int) -> SegScan {
    if i < s.len() && s[i] == DASH {
        SegScan::Next { end: i + 1, caps: one_cap(i, i + 1) }
    } else {
        lit_to_seg(bounded_digits_scan(s, i, min, max), i)
    }
}

/// The `NullableIpPort` field.
pub open spec fn nullable_ipport_scan(s: Seq<u8>, i: int) -> SegScan {
    if i >= s.len() {
        SegScan::Eoi
    } else if s[i] == DASH {
        SegScan::Next { end: i + 1, caps: one_cap(i, i + 1) }
    } else {
        lit_to_seg(ipport_scan(s, i), i)
    }
}

/// The `ProcTime` field: `digits.digits` or the sentinel `-1`, which stands
/// for "not measured" and is never read as a number.
pub open spec fn proctime_scan(s: Seq<u8>, i: int) -> SegScan {
    if i >= s.len() {
        SegScan::Eoi
    } else if s[i] == DASH {
        if i + 1 >= s.len() {
            SegScan::Eoi
        } else if s[i + 1] != 0x31 {  // 1
            SegScan::Fail { at: i + 1 }
        } else {
            SegScan::Next { end: i + 2, caps: one_cap(i, i + 2) }
        }
    } else if !is_digit(s[i]) {
        SegScan::Fail { at: i }
    } else {
        let e1: int = run_end(s, i, ByteClass::Digit);
        if e1 >= s.len() {
            SegScan::Eoi
        } else if s[e1] != DOT {
            SegScan::Fail { at: e1 }
        } else if e1 + 1 >= s.len() {
            SegScan::Eoi
        } else if !is_digit(s[e1 + 1]) {
            SegScan::Fail { at: e1 + 1 }
        } else {
            let e2: int = run_end(s, e1 + 1, ByteClass::Digit);
            SegScan::Next { end: e2, caps: one_cap(i, e2) }
        }
    }
}

/// The `Run` field: at least one byte of `class`.
pub open spec fn run_field_scan(s: Seq<u8>, i: int, class: ByteClass) -> SegScan {
    if i >= s.len() {
        SegScan::Eoi
    } else if !in_class(class, s[i]) {
        SegScan::Fail { at: i }
    } else {
        let e: int = run_end(s, i, class);
        SegScan::Next { end: e, caps: one_cap(i, e) }
    }
}

/// The `TlsProto` field: `TLSv` and at least one of `[0-9.]`, or `-`.
pub open spec fn tls_scan(s: Seq<u8>, i: int) -> SegScan {
    if i >= s.len() {
        SegScan::Eoi
    } else if s[i] == DASH {
        SegScan::Next { end: i + 1, caps: one_cap(i, i + 1) }
    } else {
        match lit_step(s, i, lit_tlsv()) {
            LitStep::Next { end: e0 } => {
                if e0 >= s.len() {
                    SegScan::Eoi
                } else if !in_class(ByteClass::HttpVer, s[e0]) {
                    SegScan::Fail { at: e0 }
                } else {
                    let e: int = run_end(s, e0, ByteClass::HttpVer);
                    SegScan::Next { end: e, caps: one_cap(i, e) }
                }
            },
            LitStep::Fail { at } => SegScan::Fail { at },
            LitStep::Eoi => SegScan::Eoi,
        }
    }
}

/// The `ArnOrDash` field: `arn:` and any non-space tail, or `-`.
pub open spec fn arn_scan(s: Seq<u8>, i: int) -> SegScan {
    if i >= s.len() {
        SegScan::Eoi
    } else if s[i] == DASH {
        SegScan::Next { end: i + 1, caps: one_cap(i, i + 1) }
    } else {
        match lit_step(s, i, lit_arn()) {
            LitStep::Next { end: e0 } => {
                let e: int = run_end(s, e0, ByteClass::ArnChar);
                SegScan::Next { end: e, caps: one_cap(i, e) }
            },
            LitStep::Fail { at } => SegScan::Fail { at },
            LitStep::Eoi => SegScan::Eoi,
        }
    }
}

/// The `RulePriority` field: one to five digits, `-1`, or `-`.
pub open spec fn rule_priority_scan(s: Seq<u8>, i: int) -> SegScan {
    if i >= s.len() {
        SegScan::Eoi
    } else if s[i] == DASH {
        if i + 1 < s.len() && s[i + 1] == 0x31 {  // -1
            SegScan::Next { end: i + 2, caps: one_cap(i, i + 2) }
        } else {
            SegScan::Next { end: i + 1, caps: one_cap(i, i + 1) }
        }
    } else {
        lit_to_seg(bounded_digits_scan(s, i, 1, 5), i)
    }
}

// ---------------------------------------------------------------------------
// Quoted fields.
// ---------------------------------------------------------------------------
/// Lifts a quoted-content scan to a segment outcome: the capture is the
/// content between the quotes, and scanning resumes after the closing one.
pub open spec fn q_to_seg(t: QStep, content0: int) -> SegScan {
    match t {
        QStep::Close { at } => SegScan::Next { end: at + 1, caps: one_cap(content0, at) },
        QStep::Fail { at } => SegScan::Fail { at },
        QStep::Eoi => SegScan::Eoi,
    }
}

/// The `QuotedEsc` field.
pub open spec fn quoted_esc_scan(s: Seq<u8>, i: int) -> SegScan {
    if i >= s.len() {
        SegScan::Eoi
    } else if s[i] != QUOTE {
        SegScan::Fail { at: i }
    } else {
        q_to_seg(qscan(s, i + 1), i + 1)
    }
}

/// The `QuotedSimpleEsc` field.
pub open spec fn quoted_simple_scan(s: Seq<u8>, i: int) -> SegScan {
    if i >= s.len() {
        SegScan::Eoi
    } else if s[i] != QUOTE {
        SegScan::Fail { at: i }
    } else {
        q_to_seg(sscan(s, i + 1), i + 1)
    }
}

/// The `QuotedDomain` field: one optional leading space stays outside the
/// capture.
pub open spec fn quoted_domain_scan(s: Seq<u8>, i: int) -> SegScan {
    if i >= s.len() {
        SegScan::Eoi
    } else if s[i] != QUOTE {
        SegScan::Fail { at: i }
    } else {
        let j: int = if i + 1 < s.len() && s[i + 1] == SP {
            i + 2
        } else {
            i + 1
        };
        let e: int = run_end(s, j, ByteClass::DomainChar);
        if e >= s.len() {
            SegScan::Eoi
        } else if s[e] != QUOTE {
            SegScan::Fail { at: e }
        } else {
            SegScan::Next { end: e + 1, caps: one_cap(j, e) }
        }
    }
}

/// The `QuotedActions` field: a possibly empty run of `[a-z-]`.
pub open spec fn quoted_actions_scan(s: Seq<u8>, i: int) -> SegScan {
    if i >= s.len() {
        SegScan::Eoi
    } else if s[i] != QUOTE {
        SegScan::Fail { at: i }
    } else {
        let e: int = run_end(s, i + 1, ByteClass::LowerDash);
        if e >= s.len() {
            SegScan::Eoi
        } else if s[e] != QUOTE {
            SegScan::Fail { at: e }
        } else {
            SegScan::Next { end: e + 1, caps: one_cap(i + 1, e) }
        }
    }
}

/// The `QuotedAlphaOrDash` field.
pub open spec fn quoted_alpha_scan(s: Seq<u8>, i: int) -> SegScan {
    if i >= s.len() {
        SegScan::Eoi
    } else if s[i] != QUOTE {
        SegScan::Fail { at: i }
    } else if i + 1 >= s.len() {
        SegScan::Eoi
    } else if s[i + 1] == DASH {
        if i + 2 >= s.len() {
            SegScan::Eoi
        } else if s[i + 2] != QUOTE {
            SegScan::Fail { at: i + 2 }
        } else {
            SegScan::Next { end: i + 3, caps: one_cap(i + 1, i + 2) }
        }
    } else if !in_class(ByteClass::Alpha, s[i + 1]) {
        SegScan::Fail { at: i + 1 }
    } else {
        let e: int = run_end(s, i + 1, ByteClass::Alpha);
        if e >= s.len() {
            SegScan::Eoi
        } else if s[e] != QUOTE {
            SegScan::Fail { at: e }
        } else {
            SegScan::Next { end: e + 1, caps: one_cap(i + 1, e) }
        }
    }
}

/// The `QuotedCert` field.
pub open spec fn quoted_cert_scan(s: Seq<u8>, i: int) -> SegScan {
    if i >= s.len() {
        SegScan::Eoi
    } else if s[i] != QUOTE {
        SegScan::Fail { at: i }
    } else if i + 1 >= s.len() {
        SegScan::Eoi
    } else if s[i + 1] == DASH {
        if i + 2 >= s.len() {
            SegScan::Eoi
        } else if s[i + 2] != QUOTE {
            SegScan::Fail { at: i + 2 }
        } else {
            SegScan::Next { end: i + 3, caps: one_cap(i + 1, i + 2) }
        }
    } else if s[i + 1] == 0x61 {  // a: arn
        match lit_step(s, i + 1, lit_arn()) {
            LitStep::Next { end: e0 } => q_to_seg(sscan(s, e0), i + 1),
            LitStep::Fail { at } => SegScan::Fail { at },
            LitStep::Eoi => SegScan::Eoi,
        }
    } else if s[i + 1] == 0x73 {  // s: session-reused
        match lit_step(s, i + 1, lit_session_reused()) {
            LitStep::Next { end: e0 } => {
                if e0 >= s.len() {
                    SegScan::Eoi
                } else if s[e0] != QUOTE {
                    SegScan::Fail { at: e0 }
                } else {
                    SegScan::Next { end: e0 + 1, caps: one_cap(i + 1, e0) }
                }
            },
            LitStep::Fail { at } => SegScan::Fail { at },
            LitStep::Eoi => SegScan::Eoi,
        }
    } else {
        SegScan::Fail { at: i + 1 }
    }
}

/// The `QuotedClassification` field, over its three members and `-`.
pub open spec fn quoted_classification_scan(s: Seq<u8>, i: int) -> SegScan {
    if i >= s.len() {
        SegScan::Eoi
    } else if s[i] != QUOTE {
        SegScan::Fail { at: i }
    } else if i + 1 >= s.len() {
        SegScan::Eoi
    } else if s[i + 1] == DASH {
        if i + 2 >= s.len() {
            SegScan::Eoi
        } else if s[i + 2] != QUOTE {
            SegScan::Fail { at: i + 2 }
        } else {
            SegScan::Next { end: i + 3, caps: one_cap(i + 1, i + 2) }
        }
    } else if s[i + 1] == 0x41 {  // A: Acceptable or Ambiguous
        if i + 2 >= s.len() {
            SegScan::Eoi
        } else if s[i + 2] == 0x63 {  // c
            classification_member(s, i, lit_acceptable())
        } else if s[i + 2] == 0x6d {  // m
            classification_member(s, i, lit_ambiguous())
        } else {
            SegScan::Fail { at: i + 2 }
        }
    } else if s[i + 1] == 0x53 {  // S: Severe
        classification_member(s, i, lit_severe())
    } else {
        SegScan::Fail { at: i + 1 }
    }
}

/// One quoted classification member, checked from the byte after the
/// opening quote at `i`.
pub open spec fn classification_member(s: Seq<u8>, i: int, lit: Seq<u8>) -> SegScan {
    match lit_step(s, i + 1, lit) {
        LitStep::Next { end: e0 } => {
            if e0 >= s.len() {
                SegScan::Eoi
            } else if s[e0] != QUOTE {
                SegScan::Fail { at: e0 }
            } else {
                SegScan::Next { end: e0 + 1, caps: one_cap(i + 1, e0) }
            }
        },
        LitStep::Fail { at } => SegScan::Fail { at },
        LitStep::Eoi => SegScan::Eoi,
    }
}

/// The body of a quoted `ip:port` list from `p`: pairs separated by single
/// spaces, ended by the closing quote, whose index is returned.
pub open spec fn iplist_scan(s: Seq<u8>, p: int) -> LitStep
    decreases s.len() - p,
{
    match ipport_scan(s, p) {
        LitStep::Next { end: e } => {
            if e >= s.len() {
                LitStep::Eoi
            } else if s[e] == QUOTE {
                LitStep::Next { end: e }
            } else if s[e] == SP {
                if e < p + 1 {
                    // never taken: a pair spans several bytes; keeps the
                    // recursion well founded
                    LitStep::Fail { at: p }
                } else {
                    iplist_scan(s, e + 1)
                }
            } else {
                LitStep::Fail { at: e }
            }
        },
        other => other,
    }
}

/// The `QuotedIpList` field.
pub open spec fn quoted_iplist_scan(s: Seq<u8>, i: int) -> SegScan {
    if i >= s.len() {
        SegScan::Eoi
    } else if s[i] != QUOTE {
        SegScan::Fail { at: i }
    } else if i + 1 < s.len() && s[i + 1] == DASH {
        if i + 2 >= s.len() {
            SegScan::Eoi
        } else if s[i + 2] != QUOTE {
            SegScan::Fail { at: i + 2 }
        } else {
            SegScan::Next { end: i + 3, caps: one_cap(i + 1, i + 2) }
        }
    } else {
        match iplist_scan(s, i + 1) {
            LitStep::Next { end: q } => SegScan::Next { end: q + 1, caps: one_cap(i + 1, q) },
            LitStep::Fail { at } => SegScan::Fail { at },
            LitStep::Eoi => SegScan::Eoi,
        }
    }
}

/// The body of a quoted status-code list from `p`: three-digit groups
/// separated by single spaces, ended by the closing quote, whose index is
/// returned.
pub open spec fn stlist_scan(s: Seq<u8>, p: int) -> LitStep
    decreases s.len() - p,
{
    match bounded_digits_scan(s, p, 3, 3) {
        LitStep::Next { end: e } => {
            if e >= s.len() {
                LitStep::Eoi
            } else if s[e] == QUOTE {
                LitStep::Next { end: e }
            } else if s[e] == SP {
                if e < p + 1 {
                    // never taken: a group spans several bytes; keeps the
                    // recursion well founded
                    LitStep::Fail { at: p }
                } else {
                    stlist_scan(s, e + 1)
                }
            } else {
                LitStep::Fail { at: e }
            }
        },
        other => other,
    }
}

/// The `QuotedStatusList` field.
pub open spec fn quoted_stlist_scan(s: Seq<u8>, i: int) -> SegScan {
    if i >= s.len() {
        SegScan::Eoi
    } else if s[i] != QUOTE {
        SegScan::Fail { at: i }
    } else if i + 1 < s.len() && s[i + 1] == DASH {
        if i + 2 >= s.len() {
            SegScan::Eoi
        } else if s[i + 2] != QUOTE {
            SegScan::Fail { at: i + 2 }
        } else {
            SegScan::Next { end: i + 3, caps: one_cap(i + 1, i + 2) }
        }
    } else {
        match stlist_scan(s, i + 1) {
            LitStep::Next { end: q } => SegScan::Next { end: q + 1, caps: one_cap(i + 1, q) },
            LitStep::Fail { at } => SegScan::Fail { at },
            LitStep::Eoi => SegScan::Eoi,
        }
    }
}

// ---------------------------------------------------------------------------
// The quoted request field.
// ---------------------------------------------------------------------------
/// A well-formed HTTP-version token filling exactly `[v, q)`, where `q` is
/// the index of the field's closing quote. The modern dialect allows a lone
/// `-` with up to two trailing spaces, or `HTTP/` digits-and-dots with up to
/// one trailing space; the legacy dialect allows exactly `- ` or `HTTP/`
/// digits-and-dots with none.
pub open spec fn ver_ok(s: Seq<u8>, v: int, q: int, classic: bool) -> bool {
    if classic {
        (q - v == 2 && s[v] == DASH && s[v + 1] == SP) || (q - v >= 6 && (lit_step(
            s,
            v,
            lit_http_slash(),
        ) matches LitStep::Next { .. }) && run_end(s, v + 5, ByteClass::HttpVer) == q)
    } else {
        (s[v] == DASH && (q - v == 1 || (q - v == 2 && s[v + 1] == SP) || (q - v == 3 && s[v + 1]
            == SP && s[v + 2] == SP))) || (q - v >= 6 && (lit_step(
            s,
            v,
            lit_http_slash(),
        ) matches LitStep::Next { .. }) && run_end(s, v + 5, ByteClass::HttpVer) == q) || (q - v >= 7
            && s[q - 1] == SP && (lit_step(s, v, lit_http_slash()) matches LitStep::Next { .. })
            && run_end(s, v + 5, ByteClass::HttpVer) == q - 1)
    }
}

/// The version capture inside `[v, q)`: trailing spaces stay outside it in
/// the modern dialect and inside it in the legacy one.
pub open spec fn ver_span(s: Seq<u8>, v: int, q: int, classic: bool) -> (int, int) {
    if classic {
        if s[v] == DASH {
            (v, v + 2)
        } else {
            (v, q)
        }
    } else {
        if s[v] == DASH {
            (v, v + 1)
        } else if s[q - 1] == SP {
            (v, q - 1)
        } else {
            (v, q)
        }
    }
}

/// The URL's greedy end: the largest `r` in `[a, p)` such that `s[r]` is a
/// space and the rest up to the closing quote at `q` is a version token.
pub open spec fn req_split(s: Seq<u8>, a: int, p: int, q: int, classic: bool) -> Option<int>
    decreases p - a,
{
    if p <= a {
        Option::None
    } else if s[p - 1] == SP && ver_ok(s, p, q, classic) {
        Option::Some(p - 1)
    } else {
        req_split(s, a, p - 1, q, classic)
    }
}

/// The `Request` field: quote, method, space, then greedily split URL and
/// version, then the closing quote. Captures method, URL and version.
pub open spec fn request_scan(s: Seq<u8>, i: int, classic: bool) -> SegScan {
    if i >= s.len() {
        SegScan::Eoi
    } else if s[i] != QUOTE {
        SegScan::Fail { at: i }
    } else if i + 1 >= s.len() {
        SegScan::Eoi
    } else {
        let m_end: int = if classic {
            if s[i + 1] == DASH {
                i + 2
            } else {
                run_end(s, i + 1, ByteClass::Upper)
            }
        } else {
            run_end(s, i + 1, ByteClass::MethodAlb)
        };
        if m_end == i + 1 {
            SegScan::Fail { at: i + 1 }
        } else if m_end >= s.len() {
            SegScan::Eoi
        } else if s[m_end] != SP {
            SegScan::Fail { at: m_end }
        } else {
            let us: int = m_end + 1;
            match qscan(s, us) {
                QStep::Close { at: q } => match req_split(s, us, q, q, classic) {
                    Option::Some(r) => {
                        let vs: (int, int) = ver_span(s, r + 1, q, classic);
                        SegScan::Next {
                            end: q + 1,
                            caps: seq![(i + 1, m_end), (us, r), (vs.0, vs.1)],
                        }
                    },
                    Option::None => SegScan::Fail { at: q },
                },
                QStep::Fail { at } => SegScan::Fail { at },
                QStep::Eoi => SegScan::Eoi,
            }
        }
    }
}

/// Dispatches one segment to its scanner.
pub open spec fn seg_scan(g: Segment, s: Seq<u8>, i: int) -> SegScan {
    match g {
        Segment::Lit(b) => {
            if i >= s.len() {
                SegScan::Eoi
            } else if s[i] == b {
                SegScan::Next { end: i + 1, caps: Seq::empty() }
            } else {
                SegScan::Fail { at: i }
            }
        },
        Segment::Scheme => scheme_scan(s, i),
        Segment::Timestamp => ts_scan(s, i),
        Segment::Name { slash } => name_scan(s, i, slash),
        Segment::Ip => ip_field_scan(s, i),
        Segment::Digits { min, max } => digits_field_scan(s, i, min as int, max as int),
        Segment::DigitsOrDash { min, max } => digits_or_dash_scan(s, i, min as int, max as int),
        Segment::NullableIpPort => nullable_ipport_scan(s, i),
        Segment::ProcTime => proctime_scan(s, i),
        Segment::Request { classic } => request_scan(s, i, classic),
        Segment::QuotedEsc => quoted_esc_scan(s, i),
        Segment::QuotedSimpleEsc => quoted_simple_scan(s, i),
        Segment::QuotedDomain => quoted_domain_scan(s, i),
        Segment::QuotedCert => quoted_cert_scan(s, i),
        Segment::QuotedActions => quoted_actions_scan(s, i),
        Segment::QuotedAlphaOrDash => quoted_alpha_scan(s, i),
        Segment::QuotedIpList => quoted_iplist_scan(s, i),
        Segment::QuotedStatusList => quoted_stlist_scan(s, i),
        Segment::QuotedClassification => quoted_classification_scan(s, i),
        Segment::Run { class } => run_field_scan(s, i, class),
        Segment::TlsProto => tls_scan(s, i),
        Segment::ArnOrDash => arn_scan(s, i),
        Segment::RulePriority => rule_priority_scan(s, i),
    }
}

// ---------------------------------------------------------------------------
// Position and capture sanity.
// ---------------------------------------------------------------------------
/// What every segment scanner guarantees about its outcome's positions: a
/// match advances within bounds and captures ranges lying between the start
/// and the new position; a failure points at a real byte at or after the
/// start.
pub open spec fn seg_sane(t: SegScan, s: Seq<u8>, i: int) -> bool {
    &&& (t matches SegScan::Next { end, caps } ==> i <= end <= s.len() && (forall|k: int|
        0 <= k < caps.len() ==> i <= (#[trigger] caps[k]).0 <= caps[k].1 <= end))
    &&& (t matches SegScan::Fail { at } ==> i <= at < s.len())
}

pub proof fn lemma_ts_sane(s: Seq<u8>, i: int, j: int)
    requires
        0 <= i,
        0 <= j <= 27,
        i + j <= s.len(),
    ensures
        ts_scan_from(s, i, j) matches SegScan::Next { end, caps } ==> end == i + 27 <= s.len()
            && caps == one_cap(i, i + 27),
        ts_scan_from(s, i, j) matches SegScan::Fail { at } ==> i + j <= at < s.len(),
    decreases 27 - j,
{
    if j < 27 && i + j < s.len() && ts_char(j, s[i + j]) {
        lemma_ts_sane(s, i, j + 1);
    }
}

pub proof fn lemma_octet_sane(s: Seq<u8>, i: int)
    requires
        0 <= i <= s.len(),
    ensures
        octet_scan(s, i) matches LitStep::Next { end } ==> i < end <= s.len(),
        octet_scan(s, i) matches LitStep::Fail { at } ==> i <= at < s.len(),
{
    if i < s.len() && is_digit(s[i]) {
        crate::bytes::lemma_run_end_bounds(s, i, ByteClass::Digit);
    }
}

pub proof fn lemma_bounded_sane(s: Seq<u8>, i: int, min: int, max: int)
    requires
        0 <= i <= s.len(),
        1 <= min,
        1 <= max,
    ensures
        bounded_digits_scan(s, i, min, max) matches LitStep::Next { end } ==> i < end <= s.len(),
        bounded_digits_scan(s, i, min, max) matches LitStep::Fail { at } ==> i <= at < s.len(),
{
    if i < s.len() && is_digit(s[i]) {
        crate::bytes::lemma_run_end_bounds(s, i, ByteClass::Digit);
    }
}

pub proof fn lemma_ip_sane(s: Seq<u8>, i: int)
    requires
        0 <= i <= s.len(),
    ensures
        ip_scan(s, i) matches LitStep::Next { end } ==> i < end <= s.len(),
        ip_scan(s, i) matches LitStep::Fail { at } ==> i <= at < s.len(),
{
    lemma_octet_sane(s, i);
    if let LitStep::Next { end: e1 } = octet_scan(s, i) {
        if e1 < s.len() && s[e1] == DOT {
            lemma_octet_sane(s, e1 + 1);
            if let LitStep::Next { end: e2 } = octet_scan(s, e1 + 1) {
                if e2 < s.len() && s[e2] == DOT {
                    lemma_octet_sane(s, e2 + 1);
                    if let LitStep::Next { end: e3 } = octet_scan(s, e2 + 1) {
                        if e3 < s.len() && s[e3] == DOT {
                            lemma_octet_sane(s, e3 + 1);
                        }
                    }
                }
            }
        }
    }
}

pub proof fn lemma_ipport_sane(s: Seq<u8>, i: int)
    requires
        0 <= i <= s.len(),
    ensures
        ipport_scan(s, i) matches LitStep::Next { end } ==> i < end <= s.len(),
        ipport_scan(s, i) matches LitStep::Fail { at } ==> i <= at < s.len(),
{
    lemma_ip_sane(s, i);
    if let LitStep::Next { end: e } = ip_scan(s, i) {
        if e < s.len() && s[e] == COLON {
            lemma_bounded_sane(s, e + 1, 1, 5);
        }
    }
}

pub proof fn lemma_iplist_sane(s: Seq<u8>, p: int)
    requires
        0 <= p <= s.len(),
    ensures
        iplist_scan(s, p) matches LitStep::Next { end } ==> p < end < s.len() && s[end] == QUOTE,
        iplist_scan(s, p) matches LitStep::Fail { at } ==> p <= at < s.len(),
    decreases s.len() - p,
{
    lemma_ipport_sane(s, p);
    if let LitStep::Next { end: e } = ipport_scan(s, p) {
        if e < s.len() && s[e] != QUOTE && s[e] == SP && e >= p + 1 {
            lemma_iplist_sane(s, e + 1);
        }
    }
}

pub proof fn lemma_stlist_sane(s: Seq<u8>, p: int)
    requires
        0 <= p <= s.len(),
    ensures
        stlist_scan(s, p) matches LitStep::Next { end } ==> p < end < s.len() && s[end] == QUOTE,
        stlist_scan(s, p) matches LitStep::Fail { at } ==> p <= at < s.len(),
    decreases s.len() - p,
{
    lemma_bounded_sane(s, p, 3, 3);
    if let LitStep::Next { end: e } = bounded_digits_scan(s, p, 3, 3) {
        if e < s.len() && s[e] != QUOTE && s[e] == SP && e >= p + 1 {
            lemma_stlist_sane(s, e + 1);
        }
    }
}

pub proof fn lemma_req_split_some(s: Seq<u8>, a: int, p: int, q: int, classic: bool)
    requires
        0 <= a <= p <= q,
    ensures
        req_split(s, a, p, q, classic) matches Option::Some(r) ==> a <= r < p && s[r] == SP
            && ver_ok(s, r + 1, q, classic),
    decreases p - a,
{
    if p > a && !(s[p - 1] == SP && ver_ok(s, p, q, classic)) {
        lemma_req_split_some(s, a, p - 1, q, classic);
    }
}

/// Bounds for the version span under a well-formed version token.
pub proof fn lemma_ver_span_bounds(s: Seq<u8>, v: int, q: int, classic: bool)
    requires
        0 <= v <= q <= s.len(),
        ver_ok(s, v, q, classic),
    ensures
        v <= ver_span(s, v, q, classic).0 <= ver_span(s, v, q, classic).1 <= q,
{
    if !(s[v] == DASH) {
        crate::bytes::lemma_run_end_bounds(s, v + 5, ByteClass::HttpVer);
    }
}

/// Every segment scanner is position- and capture-sane.
pub proof fn lemma_seg_sane(g: Segment, s: Seq<u8>, i: int)
    requires
        0 <= i <= s.len(),
    ensures
        seg_sane(seg_scan(g, s, i), s, i),
{
    match g {
        Segment::Lit(b) => {},
        Segment::Scheme => {
            if i < s.len() && s[i] == 0x67 {
                crate::scan::lemma_lit_step_sane(s, i, lit_grpcs());
            }
        },
        Segment::Timestamp => {
            lemma_ts_sane(s, i, 0);
        },
        Segment::Name { slash } => {
            if i < s.len() && is_alnum(s[i]) {
                crate::bytes::lemma_run_end_bounds(s, i, ByteClass::NameChar { slash });
            }
        },
        Segment::Ip => {
            lemma_ip_sane(s, i);
        },
        Segment::Digits { min, max } => {
            if min >= 1 && max >= 1 {
                lemma_bounded_sane(s, i, min as int, max as int);
            } else {
                lemma_bounded_sane_degenerate(s, i, min as int, max as int);
            }
        },
        Segment::DigitsOrDash { min, max } => {
            if min >= 1 && max >= 1 {
                lemma_bounded_sane(s, i, min as int, max as int);
            } else {
                lemma_bounded_sane_degenerate(s, i, min as int, max as int);
            }
        },
        Segment::NullableIpPort => {
            lemma_ipport_sane(s, i);
        },
        Segment::ProcTime => {
            if i < s.len() && s[i] != DASH && is_digit(s[i]) {
                crate::bytes::lemma_run_end_bounds(s, i, ByteClass::Digit);
                let e1: int = run_end(s, i, ByteClass::Digit);
                if e1 < s.len() && s[e1] == DOT && e1 + 1 < s.len() && is_digit(s[e1 + 1]) {
                    crate::bytes::lemma_run_end_bounds(s, e1 + 1, ByteClass::Digit);
                }
            }
        },
        Segment::Request { classic } => {
            lemma_request_sane(s, i, classic);
        },
        Segment::QuotedEsc => {
            if i < s.len() && s[i] == QUOTE {
                crate::scan::lemma_qscan_sane(s, i + 1);
            }
        },
        Segment::QuotedSimpleEsc => {
            if i < s.len() && s[i] == QUOTE {
                crate::scan::lemma_sscan_sane(s, i + 1);
            }
        },
        Segment::QuotedDomain => {
            if i < s.len() && s[i] == QUOTE {
                let j: int = if i + 1 < s.len() && s[i + 1] == SP {
                    i + 2
                } else {
                    i + 1
                };
                crate::bytes::lemma_run_end_bounds(s, j, ByteClass::DomainChar);
            }
        },
        Segment::QuotedCert => {
            if i < s.len() && s[i] == QUOTE && i + 1 < s.len() {
                if s[i + 1] == 0x61 {
                    crate::scan::lemma_lit_step_sane(s, i + 1, lit_arn());
                    if let LitStep::Next { end: e0 } = lit_step(s, i + 1, lit_arn()) {
                        crate::scan::lemma_sscan_sane(s, e0);
                    }
                } else if s[i + 1] == 0x73 {
                    crate::scan::lemma_lit_step_sane(s, i + 1, lit_session_reused());
                }
            }
        },
        Segment::QuotedActions => {
            if i < s.len() && s[i] == QUOTE {
                crate::bytes::lemma_run_end_bounds(s, i + 1, ByteClass::LowerDash);
            }
        },
        Segment::QuotedAlphaOrDash => {
            if i < s.len() && s[i] == QUOTE && i + 1 < s.len() && s[i + 1] != DASH {
                crate::bytes::lemma_run_end_bounds(s, i + 1, ByteClass::Alpha);
            }
        },
        Segment::QuotedIpList => {
            if i < s.len() && s[i] == QUOTE && !(i + 1 < s.len() && s[i + 1] == DASH) {
                lemma_iplist_sane(s, i + 1);
            }
        },
        Segment::QuotedStatusList => {
            if i < s.len() && s[i] == QUOTE && !(i + 1 < s.len() && s[i + 1] == DASH) {
                lemma_stlist_sane(s, i + 1);
            }
        },
        Segment::QuotedClassification => {
            if i < s.len() && s[i] == QUOTE && i + 1 < s.len() {
                if s[i + 1] == 0x41 && i + 2 < s.len() {
                    if s[i + 2] == 0x63 {
                        crate::scan::lemma_lit_step_sane(s, i + 1, lit_acceptable());
                    } else if s[i + 2] == 0x6d {
                        crate::scan::lemma_lit_step_sane(s, i + 1, lit_ambiguous());
                    }
                } else if s[i + 1] == 0x53 {
                    crate::scan::lemma_lit_step_sane(s, i + 1, lit_severe());
                }
            }
        },
        Segment::Run { class } => {
            if i < s.len() && in_class(class, s[i]) {
                crate::bytes::lemma_run_end_bounds(s, i, class);
            }
        },
        Segment::TlsProto => {
            if i < s.len() && s[i] != DASH {
                crate::scan::lemma_lit_step_sane(s, i, lit_tlsv());
                if let LitStep::Next { end: e0 } = lit_step(s, i, lit_tlsv()) {
                    if e0 < s.len() && in_class(ByteClass::HttpVer, s[e0]) {
                        crate::bytes::lemma_run_end_bounds(s, e0, ByteClass::HttpVer);
                    }
                }
            }
        },
        Segment::ArnOrDash => {
            if i < s.len() && s[i] != DASH {
                crate::scan::lemma_lit_step_sane(s, i, lit_arn());
                if let LitStep::Next { end: e0 } = lit_step(s, i, lit_arn()) {
                    crate::bytes::lemma_run_end_bounds(s, e0, ByteClass::ArnChar);
                }
            }
        },
        Segment::RulePriority => {
            if i < s.len() && s[i] != DASH {
                lemma_bounded_sane(s, i, 1, 5);
            }
        },
    }
}

/// A matched segment captures exactly as many ranges as its kind declares:
/// none for a literal, three for the request, one otherwise.
pub proof fn lemma_seg_ncaps(g: Segment, s: Seq<u8>, i: int)
    ensures
        seg_scan(g, s, i) matches SegScan::Next { caps, .. } ==> caps.len()
            == crate::engine::seg_ncaps(g),
{
    match g {
        Segment::Lit(_) => {},
        Segment::Request { classic } => {
            if let SegScan::Next { caps, .. } = request_scan(s, i, classic) {
                assert(caps.len() == 3);
            }
        },
        Segment::Scheme => {},
        Segment::Timestamp => {
            lemma_ts_ncaps(s, i, 0);
        },
        Segment::Name { .. } => {},
        Segment::Ip => {},
        Segment::Digits { .. } => {},
        Segment::DigitsOrDash { .. } => {},
        Segment::NullableIpPort => {},
        Segment::ProcTime => {},
        Segment::QuotedEsc => {},
        Segment::QuotedSimpleEsc => {},
        Segment::QuotedDomain => {},
        Segment::QuotedCert => {},
        Segment::QuotedActions => {},
        Segment::QuotedAlphaOrDash => {},
        Segment::QuotedIpList => {},
        Segment::QuotedStatusList => {},
        Segment::QuotedClassification => {},
        Segment::Run { .. } => {},
        Segment::TlsProto => {},
        Segment::ArnOrDash => {},
        Segment::RulePriority => {},
    }
}

proof fn lemma_ts_ncaps(s: Seq<u8>, i: int, j: int)
    requires
        0 <= j <= 27,
    ensures
        ts_scan_from(s, i, j) matches SegScan::Next { caps, .. } ==> caps.len() == 1,
    decreases 27 - j,
{
    if j < 27 && i + j < s.len() && ts_char(j, s[i + j]) {
        lemma_ts_ncaps(s, i, j + 1);
    }
}

// ---------------------------------------------------------------------------
// What matched captures look like, stated declaratively.
// ---------------------------------------------------------------------------
/// A matched timestamp capture holds exactly the 27-byte pattern
/// `YYYY-MM-DDTHH:MM:SS.ffffffZ`: digits everywhere but the fixed
/// punctuation marks, which stand at their fixed offsets.
pub proof fn lemma_timestamp_shape(s: Seq<u8>, i: int)
    requires
        0 <= i <= s.len(),
    ensures
        ts_scan(s, i) matches SegScan::Next { end, caps } ==> end == i + 27 <= s.len() && caps
            == one_cap(i, i + 27) && (forall|j: int| 0 <= j < 27 ==> #[trigger] ts_char(j, s[i + j])),
{
    lemma_ts_shape_from(s, i, 0);
}

proof fn lemma_ts_shape_from(s: Seq<u8>, i: int, j0: int)
    requires
        0 <= i,
        0 <= j0 <= 27,
        i + j0 <= s.len(),
    ensures
        ts_scan_from(s, i, j0) matches SegScan::Next { end, caps } ==> end == i + 27 <= s.len()
            && caps == one_cap(i, i + 27) && (forall|j: int| j0 <= j < 27 ==> #[trigger] ts_char(j, s[i + j])),
    decreases 27 - j0,
{
    if j0 < 27 && i + j0 < s.len() && ts_char(j0, s[i + j0]) {
        lemma_ts_shape_from(s, i, j0 + 1);
    }
}

/// A matched processing-time capture is the literal sentinel `-1` — never
/// read as a number — or a decimal: at least one digit, one dot, at least
/// one digit.
pub proof fn lemma_proctime_shape(s: Seq<u8>, i: int)
    requires
        0 <= i <= s.len(),
    ensures
        proctime_scan(s, i) matches SegScan::Next { end, caps } ==> caps == one_cap(i, end) && i
            < end <= s.len() && (s.subrange(i, end) =~= seq![DASH, 0x31u8] || (exists|d: int|
            i < d && d + 1 < end && s[d] == DOT && (forall|j: int|
                i <= j < d ==> is_digit(#[trigger] s[j])) && (forall|j: int|
                d < j < end ==> is_digit(#[trigger] s[j])))),
{
    if i < s.len() && s[i] != DASH && is_digit(s[i]) {
        let e1: int = run_end(s, i, ByteClass::Digit);
        crate::bytes::lemma_run_end_bounds(s, i, ByteClass::Digit);
        if e1 < s.len() && s[e1] == DOT && e1 + 1 < s.len() && is_digit(s[e1 + 1]) {
            crate::bytes::lemma_run_end_bounds(s, e1 + 1, ByteClass::Digit);
            let e2: int = run_end(s, e1 + 1, ByteClass::Digit);
            assert(i < e1 && e1 + 1 < e2);
        }
    }
}

/// A matched bounded-digits-or-dash capture is the dash sentinel or a run
/// of `min` to `max` digits.
pub proof fn lemma_digits_or_dash_shape(s: Seq<u8>, i: int, min: int, max: int)
    requires
        0 <= i <= s.len(),
        1 <= min,
        1 <= max,
    ensures
        digits_or_dash_scan(s, i, min, max) matches SegScan::Next { end, caps } ==> caps
            == one_cap(i, end) && i < end <= s.len() && (s.subrange(i, end) =~= seq![DASH] || (min
            <= end - i <= max && (forall|j: int| i <= j < end ==> is_digit(#[trigger] s[j])))),
{
    if i < s.len() && !(s[i] == DASH) && is_digit(s[i]) {
        crate::bytes::lemma_run_end_bounds(s, i, ByteClass::Digit);
    }
}

/// The captured ranges stand left to right: each ends at or before the
/// next begins.
pub open spec fn caps_ordered(caps: Seq<(int, int)>) -> bool {
    forall|k: int| 0 <= k && k + 1 < caps.len() ==> (#[trigger] caps[k]).1 <= caps[k + 1].0
}

/// One matched segment captures ordered ranges. Only the request captures
/// more than one: method, URL and version, in that order.
pub proof fn lemma_seg_caps_ordered(g: Segment, s: Seq<u8>, i: int)
    requires
        0 <= i <= s.len(),
    ensures
        seg_scan(g, s, i) matches SegScan::Next { caps, .. } ==> caps_ordered(caps),
{
    lemma_seg_ncaps(g, s, i);
    if let SegScan::Next { caps, .. } = seg_scan(g, s, i) {
        if caps.len() <= 1 {
        } else {
            if let Segment::Request { classic } = g {
                if i < s.len() && s[i] == QUOTE && i + 1 < s.len() {
                    let m_end: int = if classic {
                        if s[i + 1] == DASH {
                            i + 2
                        } else {
                            run_end(s, i + 1, ByteClass::Upper)
                        }
                    } else {
                        run_end(s, i + 1, ByteClass::MethodAlb)
                    };
                    if m_end != i + 1 && m_end < s.len() && s[m_end] == SP {
                        let us: int = m_end + 1;
                        crate::scan::lemma_qscan_sane(s, us);
                        if let QStep::Close { at: q } = qscan(s, us) {
                            lemma_req_split_some(s, us, q, q, classic);
                        }
                    }
                }
            }
        }
    }
}

/// Degenerate digit bounds (`min` or `max` of zero) never occur in the
/// tables, but the scanner stays sane for them as well.
proof fn lemma_bounded_sane_degenerate(s: Seq<u8>, i: int, min: int, max: int)
    requires
        0 <= i <= s.len(),
        0 <= min,
        0 <= max,
    ensures
        bounded_digits_scan(s, i, min, max) matches LitStep::Next { end } ==> i <= end <= s.len(),
        bounded_digits_scan(s, i, min, max) matches LitStep::Fail { at } ==> i <= at < s.len(),
{
    if i < s.len() && is_digit(s[i]) {
        crate::bytes::lemma_run_end_bounds(s, i, ByteClass::Digit);
    }
}

proof fn lemma_request_sane(s: Seq<u8>, i: int, classic: bool)
    requires
        0 <= i <= s.len(),
    ensures
        seg_sane(request_scan(s, i, classic), s, i),
{
    if i < s.len() && s[i] == QUOTE && i + 1 < s.len() {
        if classic && s[i + 1] != DASH {
            crate::bytes::lemma_run_end_bounds(s, i + 1, ByteClass::Upper);
        }
        if !classic {
            crate::bytes::lemma_run_end_bounds(s, i + 1, ByteClass::MethodAlb);
        }
        let m_end: int = if classic {
            if s[i + 1] == DASH {
                i + 2
            } else {
                run_end(s, i + 1, ByteClass::Upper)
            }
        } else {
            run_end(s, i + 1, ByteClass::MethodAlb)
        };
        if m_end != i + 1 && m_end < s.len() && s[m_end] == SP {
            let us: int = m_end + 1;
            crate::scan::lemma_qscan_sane(s, us);
            if let QStep::Close { at: q } = qscan(s, us) {
                lemma_req_split_some(s, us, q, q, classic);
                if let Option::Some(r) = req_split(s, us, q, q, classic) {
                    lemma_ver_span_bounds(s, r + 1, q, classic);
                }
            }
        }
    }
}

// ---------------------------------------------------------------------------
// Executable scanners.
// ---------------------------------------------------------------------------
/// Appends one captured range.
fn push_cap(caps: &mut Vec<Span>, a: usize, b: usize)
    ensures
        final (caps)@ == old(caps)@.push(Span { start: a, end: b }),
{
    caps.push(Span { start: a, end: b });
}

/// Computes `octet_scan`.
fn exec_octet(s: &[u8], i: usize) -> (r: Step)
    requires
        i <= s@.len(),
    ensures
        step_like_lit(r, octet_scan(s@, i as int)),
{
    if i >= s.len() {
        return Step::Eoi;
    }
    if !crate::bytes::byte_is_digit(s[i]) {
        return Step::Fail(i);
    }
    let e = scan_run(s, i, ByteClass::Digit);
    if e - i > 3 {
        Step::Fail(i + 3)
    } else {
        Step::Next(e)
    }
}

/// Computes `bounded_digits_scan`.
fn exec_bounded(s: &[u8], i: usize, min: usize, max: usize) -> (r: Step)
    requires
        i <= s@.len(),
    ensures
        step_like_lit(r, bounded_digits_scan(s@, i as int, min as int, max as int)),
{
    if i >= s.len() {
        return Step::Eoi;
    }
    if !crate::bytes::byte_is_digit(s[i]) {
        return Step::Fail(i);
    }
    let e = scan_run(s, i, ByteClass::Digit);
    if e - i > max {
        Step::Fail(i + max)
    } else if e >= s.len() {
        if e - i >= min {
            Step::Next(e)
        } else {
            Step::Eoi
        }
    } else if e - i >= min {
        Step::Next(e)
    } else {
        Step::Fail(e)
    }
}

/// Computes `ip_scan`.
fn exec_ip(s: &[u8], i: usize) -> (r: Step)
    requires
        i <= s@.len(),
    ensures
        step_like_lit(r, ip_scan(s@, i as int)),
{
    proof {
        lemma_octet_sane(s@, i as int);
    }
    let r1 = exec_octet(s, i);
    let e1 = match r1 {
        Step::Next(e) => e,
        other => {
            return other;
        },
    };
    if e1 >= s.len() {
        return Step::Eoi;
    }
    if s[e1] != DOT {
        return Step::Fail(e1);
    }
    proof {
        lemma_octet_sane(s@, e1 + 1);
    }
    let r2 = exec_octet(s, e1 + 1);
    let e2 = match r2 {
        Step::Next(e) => e,
        other => {
            return other;
        },
    };
    if e2 >= s.len() {
        return Step::Eoi;
    }
    if s[e2] != DOT {
        return Step::Fail(e2);
    }
    proof {
        lemma_octet_sane(s@, e2 + 1);
    }
    let r3 = exec_octet(s, e2 + 1);
    let e3 = match r3 {
        Step::Next(e) => e,
        other => {
            return other;
        },
    };
    if e3 >= s.len() {
        return Step::Eoi;
    }
    if s[e3] != DOT {
        return Step::Fail(e3);
    }
    exec_octet(s, e3 + 1)
}

/// Computes `ipport_scan`.
fn exec_ipport(s: &[u8], i: usize) -> (r: Step)
    requires
        i <= s@.len(),
    ensures
        step_like_lit(r, ipport_scan(s@, i as int)),
{
    proof {
        lemma_ip_sane(s@, i as int);
    }
    let r1 = exec_ip(s, i);
    let e = match r1 {
        Step::Next(e) => e,
        other => {
            return other;
        },
    };
    if e >= s.len() {
        return Step::Eoi;
    }
    if s[e] != COLON {
        return Step::Fail(e);
    }
    exec_bounded(s, e + 1, 1, 5)
}

/// Proves the capture clauses of `seg_post` for a one-range capture that was
/// just pushed.
proof fn lemma_one_cap_post(caps0: Seq<Span>, caps1: Seq<Span>, a: int, b: int)
    requires
        caps1 == caps0.push(Span { start: a as usize, end: b as usize }),
        0 <= a <= usize::MAX,
        0 <= b <= usize::MAX,
    ensures
        caps1.len() == caps0.len() + 1,
        caps1.subrange(0, caps0.len() as int) == caps0,
        forall|k: int|
            0 <= k < 1 ==> caps1[caps0.len() + k].start as int == one_cap(a, b)[k].0 && caps1[
                caps0.len() + k].end as int == one_cap(a, b)[k].1,
{
    assert(caps1.subrange(0, caps0.len() as int) =~= caps0);
    assert(one_cap(a, b)[0] == (a, b));
}

/// Pushes the capture `[a, b)` and finishes a matched segment at `end`.
fn finish_one(caps: &mut Vec<Span>, a: usize, b: usize, end: usize) -> (r: Step)
    ensures
        final (caps)@ == old(caps)@.push(Span { start: a, end: b }),
        r == Step::Next(end),
        seg_post(
            SegScan::Next { end: end as int, caps: one_cap(a as int, b as int) },
            r,
            old(caps)@,
            final (caps)@,
        ),
{
    push_cap(caps, a, b);
    proof {
        lemma_one_cap_post(old(caps)@, caps@, a as int, b as int);
    }
    Step::Next(end)
}

/// Computes `scheme_scan`.
fn exec_scheme(s: &[u8], i: usize, caps: &mut Vec<Span>) -> (r: Step)
    requires
        i <= s@.len(),
    ensures
        seg_post(scheme_scan(s@, i as int), r, old(caps)@, final (caps)@),
{
    if i >= s.len() {
        return Step::Eoi;
    }
    let b0 = s[i];
    if b0 == 0x68 {
        if i + 1 >= s.len() {
            return Step::Eoi;
        }
        let b1 = s[i + 1];
        if b1 == 0x32 {
            finish_one(caps, i, i + 2, i + 2)
        } else if b1 == 0x74 {
            if i + 2 >= s.len() {
                return Step::Eoi;
            }
            if s[i + 2] != 0x74 {
                return Step::Fail(i + 2);
            }
            if i + 3 >= s.len() {
                return Step::Eoi;
            }
            if s[i + 3] != 0x70 {
                return Step::Fail(i + 3);
            }
            if i + 4 < s.len() && s[i + 4] == 0x73 {
                finish_one(caps, i, i + 5, i + 5)
            } else {
                finish_one(caps, i, i + 4, i + 4)
            }
        } else {
            Step::Fail(i + 1)
        }
    } else if b0 == 0x67 {
        let lit = vec_grpcs();
        match scan_lit(s, i, lit.as_slice()) {
            Step::Next(e) => finish_one(caps, i, e, e),
            Step::Fail(a) => Step::Fail(a),
            Step::Eoi => Step::Eoi,
        }
    } else if b0 == 0x77 {
        if i + 1 >= s.len() {
            return Step::Eoi;
        }
        if s[i + 1] != 0x73 {
            return Step::Fail(i + 1);
        }
        if i + 2 < s.len() && s[i + 2] == 0x73 {
            finish_one(caps, i, i + 3, i + 3)
        } else {
            finish_one(caps, i, i + 2, i + 2)
        }
    } else {
        Step::Fail(i)
    }
}

/// Decides `ts_char`.
fn exec_ts_char(j: usize, b: u8) -> (r: bool)
    requires
        j < 27,
    ensures
        r == ts_char(j as int, b),
{
    if j == 4 || j == 7 {
        b == DASH
    } else if j == 10 {
        b == 0x54
    } else if j == 13 || j == 16 {
        b == COLON
    } else if j == 19 {
        b == DOT
    } else if j == 26 {
        b == 0x5a
    } else {
        crate::bytes::byte_is_digit(b)
    }
}

/// Computes `ts_scan`.
fn exec_timestamp(s: &[u8], i: usize, caps: &mut Vec<Span>) -> (r: Step)
    requires
        i <= s@.len(),
    ensures
        seg_post(ts_scan(s@, i as int), r, old(caps)@, final (caps)@),
{
    let mut j: usize = 0;
    let mut p: usize = i;
    while j < 27
        invariant
            i <= p <= s@.len(),
            0 <= j <= 27,
            p == i + j,
            ts_scan_from(s@, i as int, 0) == ts_scan_from(s@, i as int, j as int),
        decreases 27 - j,
    {
        if p >= s.len() {
            return Step::Eoi;
        }
        if !exec_ts_char(j, s[p]) {
            return Step::Fail(p);
        }
        j = j + 1;
        p = p + 1;
    }
    finish_one(caps, i, p, p)
}

/// Computes `name_scan`.
fn exec_name(s: &[u8], i: usize, slash: bool, caps: &mut Vec<Span>) -> (r: Step)
    requires
        i <= s@.len(),
    ensures
        seg_post(name_scan(s@, i as int, slash), r, old(caps)@, final (caps)@),
{
    if i >= s.len() {
        return Step::Eoi;
    }
    if !crate::bytes::byte_is_alnum(s[i]) {
        return Step::Fail(i);
    }
    let e = scan_run(s, i, ByteClass::NameChar { slash });
    proof {
        assert(in_class(ByteClass::NameChar { slash }, s@[i as int]));
        assert(e > i);
    }
    if e >= s.len() {
        if crate::bytes::byte_is_alnum(s[e - 1]) {
            finish_one(caps, i, e, e)
        } else {
            Step::Eoi
        }
    } else if crate::bytes::byte_is_alnum(s[e - 1]) {
        finish_one(caps, i, e, e)
    } else {
        Step::Fail(e)
    }
}

/// Computes `proctime_scan`.
fn exec_proctime(s: &[u8], i: usize, caps: &mut Vec<Span>) -> (r: Step)
    requires
        i <= s@.len(),
    ensures
        seg_post(proctime_scan(s@, i as int), r, old(caps)@, final (caps)@),
{
    if i >= s.len() {
        return Step::Eoi;
    }
    if s[i] == DASH {
        if i + 1 >= s.len() {
            return Step::Eoi;
        }
        if s[i + 1] != 0x31 {
            return Step::Fail(i + 1);
        }
        return finish_one(caps, i, i + 2, i + 2);
    }
    if !crate::bytes::byte_is_digit(s[i]) {
        return Step::Fail(i);
    }
    let e1 = scan_run(s, i, ByteClass::Digit);
    if e1 >= s.len() {
        return Step::Eoi;
    }
    if s[e1] != DOT {
        return Step::Fail(e1);
    }
    if e1 + 1 >= s.len() {
        return Step::Eoi;
    }
    if !crate::bytes::byte_is_digit(s[e1 + 1]) {
        return Step::Fail(e1 + 1);
    }
    let e2 = scan_run(s, e1 + 1, ByteClass::Digit);
    finish_one(caps, i, e2, e2)
}

/// Computes `run_field_scan`.
fn exec_run_field(s: &[u8], i: usize, class: ByteClass, caps: &mut Vec<Span>) -> (r: Step)
    requires
        i <= s@.len(),
    ensures
        seg_post(run_field_scan(s@, i as int, class), r, old(caps)@, final (caps)@),
{
    if i >= s.len() {
        return Step::Eoi;
    }
    if !byte_in_class(class, s[i]) {
        return Step::Fail(i);
    }
    let e = scan_run(s, i, class);
    finish_one(caps, i, e, e)
}

/// Computes `tls_scan`.
fn exec_tls(s: &[u8], i: usize, caps: &mut Vec<Span>) -> (r: Step)
    requires
        i <= s@.len(),
    ensures
        seg_post(tls_scan(s@, i as int), r, old(caps)@, final (caps)@),
{
    if i >= s.len() {
        return Step::Eoi;
    }
    if s[i] == DASH {
        return finish_one(caps, i, i + 1, i + 1);
    }
    let lit = vec_tlsv();
    proof {
        crate::scan::lemma_lit_step_sane(s@, i as int, lit_tlsv());
    }
    match scan_lit(s, i, lit.as_slice()) {
        Step::Fail(a) => Step::Fail(a),
        Step::Eoi => Step::Eoi,
        Step::Next(e0) => {
            if e0 >= s.len() {
                return Step::Eoi;
            }
            if !byte_in_class(ByteClass::HttpVer, s[e0]) {
                return Step::Fail(e0);
            }
            let e = scan_run(s, e0, ByteClass::HttpVer);
            finish_one(caps, i, e, e)
        },
    }
}

/// Computes `arn_scan`.
fn exec_arn(s: &[u8], i: usize, caps: &mut Vec<Span>) -> (r: Step)
    requires
        i <= s@.len(),
    ensures
        seg_post(arn_scan(s@, i as int), r, old(caps)@, final (caps)@),
{
    if i >= s.len() {
        return Step::Eoi;
    }
    if s[i] == DASH {
        return finish_one(caps, i, i + 1, i + 1);
    }
    let lit = vec_arn();
    proof {
        crate::scan::lemma_lit_step_sane(s@, i as int, lit_arn());
    }
    match scan_lit(s, i, lit.as_slice()) {
        Step::Fail(a) => Step::Fail(a),
        Step::Eoi => Step::Eoi,
        Step::Next(e0) => {
            let e = scan_run(s, e0, ByteClass::ArnChar);
            finish_one(caps, i, e, e)
        },
    }
}

/// Computes `rule_priority_scan`.
fn exec_rule_priority(s: &[u8], i: usize, caps: &mut Vec<Span>) -> (r: Step)
    requires
        i <= s@.len(),
    ensures
        seg_post(rule_priority_scan(s@, i as int), r, old(caps)@, final (caps)@),
{
    if i >= s.len() {
        return Step::Eoi;
    }
    if s[i] == DASH {
        if i + 1 < s.len() && s[i + 1] == 0x31 {
            return finish_one(caps, i, i + 2, i + 2);
        }
        return finish_one(caps, i, i + 1, i + 1);
    }
    match exec_bounded(s, i, 1, 5) {
        Step::Next(e) => finish_one(caps, i, e, e),
        Step::Fail(a) => Step::Fail(a),
        Step::Eoi => Step::Eoi,
    }
}

/// Computes `quoted_esc_scan`.
fn exec_quoted_esc(s: &[u8], i: usize, caps: &mut Vec<Span>) -> (r: Step)
    requires
        i <= s@.len(),
    ensures
        seg_post(quoted_esc_scan(s@, i as int), r, old(caps)@, final (caps)@),
{
    if i >= s.len() {
        return Step::Eoi;
    }
    if s[i] != QUOTE {
        return Step::Fail(i);
    }
    proof {
        crate::scan::lemma_qscan_sane(s@, i + 1);
    }
    match scan_quoted_esc(s, i + 1) {
        Step::Next(q) => finish_one(caps, i + 1, q, q + 1),
        Step::Fail(a) => Step::Fail(a),
        Step::Eoi => Step::Eoi,
    }
}

/// Computes `quoted_simple_scan`.
fn exec_quoted_simple(s: &[u8], i: usize, caps: &mut Vec<Span>) -> (r: Step)
    requires
        i <= s@.len(),
    ensures
        seg_post(quoted_simple_scan(s@, i as int), r, old(caps)@, final (caps)@),
{
    if i >= s.len() {
        return Step::Eoi;
    }
    if s[i] != QUOTE {
        return Step::Fail(i);
    }
    proof {
        crate::scan::lemma_sscan_sane(s@, i + 1);
    }
    match scan_quoted_simple(s, i + 1) {
        Step::Next(q) => finish_one(caps, i + 1, q, q + 1),
        Step::Fail(a) => Step::Fail(a),
        Step::Eoi => Step::Eoi,
    }
}

/// Computes `quoted_domain_scan`.
fn exec_quoted_domain(s: &[u8], i: usize, caps: &mut Vec<Span>) -> (r: Step)
    requires
        i <= s@.len(),
    ensures
        seg_post(quoted_domain_scan(s@, i as int), r, old(caps)@, final (caps)@),
{
    if i >= s.len() {
        return Step::Eoi;
    }
    if s[i] != QUOTE {
        return Step::Fail(i);
    }
    let j: usize = if i + 1 < s.len() && s[i + 1] == SP {
        i + 2
    } else {
        i + 1
    };
    let e = scan_run(s, j, ByteClass::DomainChar);
    if e >= s.len() {
        return Step::Eoi;
    }
    if s[e] != QUOTE {
        return Step::Fail(e);
    }
    finish_one(caps, j, e, e + 1)
}

/// Computes `quoted_actions_scan`.
fn exec_quoted_actions(s: &[u8], i: usize, caps: &mut Vec<Span>) -> (r: Step)
    requires
        i <= s@.len(),
    ensures
        seg_post(quoted_actions_scan(s@, i as int), r, old(caps)@, final (caps)@),
{
    if i >= s.len() {
        return Step::Eoi;
    }
    if s[i] != QUOTE {
        return Step::Fail(i);
    }
    let e = scan_run(s, i + 1, ByteClass::LowerDash);
    if e >= s.len() {
        return Step::Eoi;
    }
    if s[e] != QUOTE {
        return Step::Fail(e);
    }
    finish_one(caps, i + 1, e, e + 1)
}

/// Computes `quoted_alpha_scan`.
fn exec_quoted_alpha(s: &[u8], i: usize, caps: &mut Vec<Span>) -> (r: Step)
    requires
        i <= s@.len(),
    ensures
        seg_post(quoted_alpha_scan(s@, i as int), r, old(caps)@, final (caps)@),
{
    if i >= s.len() {
        return Step::Eoi;
    }
    if s[i] != QUOTE {
        return Step::Fail(i);
    }
    if i + 1 >= s.len() {
        return Step::Eoi;
    }
    if s[i + 1] == DASH {
        if i + 2 >= s.len() {
            return Step::Eoi;
        }
        if s[i + 2] != QUOTE {
            return Step::Fail(i + 2);
        }
        return finish_one(caps, i + 1, i + 2, i + 3);
    }
    if !byte_in_class(ByteClass::Alpha, s[i + 1]) {
        return Step::Fail(i + 1);
    }
    let e = scan_run(s, i + 1, ByteClass::Alpha);
    if e >= s.len() {
        return Step::Eoi;
    }
    if s[e] != QUOTE {
        return Step::Fail(e);
    }
    finish_one(caps, i + 1, e, e + 1)
}

/// Computes `quoted_cert_scan`.
fn exec_quoted_cert(s: &[u8], i: usize, caps: &mut Vec<Span>) -> (r: Step)
    requires
        i <= s@.len(),
    ensures
        seg_post(quoted_cert_scan(s@, i as int), r, old(caps)@, final (caps)@),
{
    if i >= s.len() {
        return Step::Eoi;
    }
    if s[i] != QUOTE {
        return Step::Fail(i);
    }
    if i + 1 >= s.len() {
        return Step::Eoi;
    }
    let b1 = s[i + 1];
    if b1 == DASH {
        if i + 2 >= s.len() {
            return Step::Eoi;
        }
        if s[i + 2] != QUOTE {
            return Step::Fail(i + 2);
        }
        return finish_one(caps, i + 1, i + 2, i + 3);
    }
    if b1 == 0x61 {
        let lit = vec_arn();
        proof {
            crate::scan::lemma_lit_step_sane(s@, i + 1, lit_arn());
        }
        match scan_lit(s, i + 1, lit.as_slice()) {
            Step::Fail(a) => Step::Fail(a),
            Step::Eoi => Step::Eoi,
            Step::Next(e0) => {
                proof {
                    crate::scan::lemma_sscan_sane(s@, e0 as int);
                }
                match scan_quoted_simple(s, e0) {
                    Step::Next(q) => finish_one(caps, i + 1, q, q + 1),
                    Step::Fail(a) => Step::Fail(a),
                    Step::Eoi => Step::Eoi,
                }
            },
        }
    } else if b1 == 0x73 {
        let lit = vec_session_reused();
        proof {
            crate::scan::lemma_lit_step_sane(s@, i + 1, lit_session_reused());
        }
        match scan_lit(s, i + 1, lit.as_slice()) {
            Step::Fail(a) => Step::Fail(a),
            Step::Eoi => Step::Eoi,
            Step::Next(e0) => {
                if e0 >= s.len() {
                    return Step::Eoi;
                }
                if s[e0] != QUOTE {
                    return Step::Fail(e0);
                }
                finish_one(caps, i + 1, e0, e0 + 1)
            },
        }
    } else {
        Step::Fail(i + 1)
    }
}

/// Computes `quoted_classification_scan`.
fn exec_quoted_classification(s: &[u8], i: usize, caps: &mut Vec<Span>) -> (r: Step)
    requires
        i <= s@.len(),
    ensures
        seg_post(quoted_classification_scan(s@, i as int), r, old(caps)@, final (caps)@),
{
    if i >= s.len() {
        return Step::Eoi;
    }
    if s[i] != QUOTE {
        return Step::Fail(i);
    }
    if i + 1 >= s.len() {
        return Step::Eoi;
    }
    let b1 = s[i + 1];
    if b1 == DASH {
        if i + 2 >= s.len() {
            return Step::Eoi;
        }
        if s[i + 2] != QUOTE {
            return Step::Fail(i + 2);
        }
        return finish_one(caps, i + 1, i + 2, i + 3);
    }
    if b1 == 0x41 {
        if i + 2 >= s.len() {
            return Step::Eoi;
        }
        if s[i + 2] == 0x63 {
            let lit = vec_acceptable();
            exec_classification_member(s, i, lit.as_slice(), Ghost(lit_acceptable()), caps)
        } else if s[i + 2] == 0x6d {
            let lit = vec_ambiguous();
            exec_classification_member(s, i, lit.as_slice(), Ghost(lit_ambiguous()), caps)
        } else {
            Step::Fail(i + 2)
        }
    } else if b1 == 0x53 {
        let lit = vec_severe();
        exec_classification_member(s, i, lit.as_slice(), Ghost(lit_severe()), caps)
    } else {
        Step::Fail(i + 1)
    }
}

/// Computes `classification_member`.
fn exec_classification_member(
    s: &[u8],
    i: usize,
    lit: &[u8],
    lit_spec: Ghost<Seq<u8>>,
    caps: &mut Vec<Span>,
) -> (r: Step)
    requires
        i < s@.len(),
        lit@ == lit_spec@,
    ensures
        seg_post(classification_member(s@, i as int, lit_spec@), r, old(caps)@, final (caps)@),
{
    // pins the slice length as a usize for the index arithmetic below
    let n = s.len();
    proof {
        crate::scan::lemma_lit_step_sane(s@, i + 1, lit_spec@);
    }
    match scan_lit(s, i + 1, lit) {
        Step::Fail(a) => Step::Fail(a),
        Step::Eoi => Step::Eoi,
        Step::Next(e0) => {
            if e0 >= s.len() {
                return Step::Eoi;
            }
            if s[e0] != QUOTE {
                return Step::Fail(e0);
            }
            finish_one(caps, i + 1, e0, e0 + 1)
        },
    }
}

/// Computes `iplist_scan` from the byte after the opening quote.
fn exec_iplist(s: &[u8], i0: usize) -> (r: Step)
    requires
        i0 <= s@.len(),
    ensures
        step_like_lit(r, iplist_scan(s@, i0 as int)),
{
    let mut p: usize = i0;
    loop
        invariant
            i0 <= p <= s@.len(),
            iplist_scan(s@, i0 as int) == iplist_scan(s@, p as int),
        decreases s@.len() - p,
    {
        proof {
            lemma_ipport_sane(s@, p as int);
        }
        match exec_ipport(s, p) {
            Step::Fail(a) => {
                return Step::Fail(a);
            },
            Step::Eoi => {
                return Step::Eoi;
            },
            Step::Next(e) => {
                if e >= s.len() {
                    return Step::Eoi;
                }
                if s[e] == QUOTE {
                    return Step::Next(e);
                }
                if s[e] != SP {
                    return Step::Fail(e);
                }
                if e < p + 1 {
                    return Step::Fail(p);
                }
                p = e + 1;
            },
        }
    }
}

/// Computes `stlist_scan` from the byte after the opening quote.
fn exec_stlist(s: &[u8], i0: usize) -> (r: Step)
    requires
        i0 <= s@.len(),
    ensures
        step_like_lit(r, stlist_scan(s@, i0 as int)),
{
    let mut p: usize = i0;
    loop
        invariant
            i0 <= p <= s@.len(),
            stlist_scan(s@, i0 as int) == stlist_scan(s@, p as int),
        decreases s@.len() - p,
    {
        proof {
            lemma_bounded_sane(s@, p as int, 3, 3);
        }
        match exec_bounded(s, p, 3, 3) {
            Step::Fail(a) => {
                return Step::Fail(a);
            },
            Step::Eoi => {
                return Step::Eoi;
            },
            Step::Next(e) => {
                if e >= s.len() {
                    return Step::Eoi;
                }
                if s[e] == QUOTE {
                    return Step::Next(e);
                }
                if s[e] != SP {
                    return Step::Fail(e);
                }
                if e < p + 1 {
                    return Step::Fail(p);
                }
                p = e + 1;
            },
        }
    }
}

/// Computes `quoted_iplist_scan`.
fn exec_quoted_iplist(s: &[u8], i: usize, caps: &mut Vec<Span>) -> (r: Step)
    requires
        i <= s@.len(),
    ensures
        seg_post(quoted_iplist_scan(s@, i as int), r, old(caps)@, final (caps)@),
{
    if i >= s.len() {
        return Step::Eoi;
    }
    if s[i] != QUOTE {
        return Step::Fail(i);
    }
    if i + 1 < s.len() && s[i + 1] == DASH {
        if i + 2 >= s.len() {
            return Step::Eoi;
        }
        if s[i + 2] != QUOTE {
            return Step::Fail(i + 2);
        }
        return finish_one(caps, i + 1, i + 2, i + 3);
    }
    proof {
        lemma_iplist_sane(s@, i + 1);
    }
    match exec_iplist(s, i + 1) {
        Step::Next(q) => finish_one(caps, i + 1, q, q + 1),
        Step::Fail(a) => Step::Fail(a),
        Step::Eoi => Step::Eoi,
    }
}

/// Computes `quoted_stlist_scan`.
fn exec_quoted_stlist(s: &[u8], i: usize, caps: &mut Vec<Span>) -> (r: Step)
    requires
        i <= s@.len(),
    ensures
        seg_post(quoted_stlist_scan(s@, i as int), r, old(caps)@, final (caps)@),
{
    if i >= s.len() {
        return Step::Eoi;
    }
    if s[i] != QUOTE {
        return Step::Fail(i);
    }
    if i + 1 < s.len() && s[i + 1] == DASH {
        if i + 2 >= s.len() {
            return Step::Eoi;
        }
        if s[i + 2] != QUOTE {
            return Step::Fail(i + 2);
        }
        return finish_one(caps, i + 1, i + 2, i + 3);
    }
    proof {
        lemma_stlist_sane(s@, i + 1);
    }
    match exec_stlist(s, i + 1) {
        Step::Next(q) => finish_one(caps, i + 1, q, q + 1),
        Step::Fail(a) => Step::Fail(a),
        Step::Eoi => Step::Eoi,
    }
}

/// Decides `ver_ok`.
fn exec_ver(s: &[u8], v: usize, q: usize, classic: bool) -> (r: bool)
    requires
        v <= q <= s@.len(),
    ensures
        r == ver_ok(s@, v as int, q as int, classic),
{
    if classic {
        let dash_form = q - v == 2 && s[v] == DASH && s[v + 1] == SP;
        if dash_form {
            return true;
        }
        if q - v >= 6 {
            let lit = vec_http_slash();
            let lit_hit = match scan_lit(s, v, lit.as_slice()) {
                Step::Next(_) => true,
                _ => false,
            };
            if lit_hit {
                let e = scan_run(s, v + 5, ByteClass::HttpVer);
                return e == q;
            }
        }
        false
    } else {
        if s.len() > v && s[v] == DASH {
            if q - v == 1 {
                return true;
            }
            if q - v == 2 && s[v + 1] == SP {
                return true;
            }
            if q - v == 3 && s[v + 1] == SP && s[v + 2] == SP {
                return true;
            }
        }
        if q - v >= 6 {
            let lit = vec_http_slash();
            let lit_hit = match scan_lit(s, v, lit.as_slice()) {
                Step::Next(_) => true,
                _ => false,
            };
            if lit_hit {
                let e = scan_run(s, v + 5, ByteClass::HttpVer);
                if e == q {
                    return true;
                }
                if q - v >= 7 && s[q - 1] == SP && e == q - 1 {
                    return true;
                }
            }
        }
        false
    }
}

/// Computes `req_split` with both search bounds at the closing quote `q`.
fn exec_req_split(s: &[u8], a: usize, q: usize, classic: bool) -> (r: Option<usize>)
    requires
        a <= q <= s@.len(),
    ensures
        (match req_split(s@, a as int, q as int, q as int, classic) {
            Option::Some(x) => r matches Option::Some(y) && y as int == x,
            Option::None => r matches Option::None,
        }),
{
    let mut p: usize = q;
    while p > a
        invariant
            a <= p <= q <= s@.len(),
            req_split(s@, a as int, q as int, q as int, classic) == req_split(
                s@,
                a as int,
                p as int,
                q as int,
                classic,
            ),
        decreases p,
    {
        if s[p - 1] == SP && exec_ver(s, p, q, classic) {
            return Option::Some(p - 1);
        }
        p = p - 1;
    }
    Option::None
}

/// Computes `request_scan`.
fn exec_request(s: &[u8], i: usize, classic: bool, caps: &mut Vec<Span>) -> (r: Step)
    requires
        i <= s@.len(),
    ensures
        seg_post(request_scan(s@, i as int, classic), r, old(caps)@, final (caps)@),
{
    if i >= s.len() {
        return Step::Eoi;
    }
    if s[i] != QUOTE {
        return Step::Fail(i);
    }
    if i + 1 >= s.len() {
        return Step::Eoi;
    }
    let m_end: usize = if classic {
        if s[i + 1] == DASH {
            i + 2
        } else {
            scan_run(s, i + 1, ByteClass::Upper)
        }
    } else {
        scan_run(s, i + 1, ByteClass::MethodAlb)
    };
    if m_end == i + 1 {
        return Step::Fail(i + 1);
    }
    if m_end >= s.len() {
        return Step::Eoi;
    }
    if s[m_end] != SP {
        return Step::Fail(m_end);
    }
    let us = m_end + 1;
    proof {
        crate::scan::lemma_qscan_sane(s@, us as int);
    }
    match scan_quoted_esc(s, us) {
        Step::Fail(a) => Step::Fail(a),
        Step::Eoi => Step::Eoi,
        Step::Next(q) => {
            proof {
                lemma_req_split_some(s@, us as int, q as int, q as int, classic);
            }
            match exec_req_split(s, us, q, classic) {
                Option::None => Step::Fail(q),
                Option::Some(r0) => {
                    let v = r0 + 1;
                    let vspan: (usize, usize) = if classic {
                        if s[v] == DASH {
                            (v, v + 2)
                        } else {
                            (v, q)
                        }
                    } else {
                        if s[v] == DASH {
                            (v, v + 1)
                        } else if s[q - 1] == SP {
                            (v, q - 1)
                        } else {
                            (v, q)
                        }
                    };
                    let ghost caps0 = caps@;
                    push_cap(caps, i + 1, m_end);
                    push_cap(caps, us, r0);
                    push_cap(caps, vspan.0, vspan.1);
                    proof {
                        let spec_caps = seq![
                            (i + 1 as int, m_end as int),
                            (us as int, r0 as int),
                            (vspan.0 as int, vspan.1 as int),
                        ];
                        assert(caps@.subrange(0, caps0.len() as int) =~= caps0);
                        assert(caps@[caps0.len() as int] == Span { start: (i + 1) as usize, end: m_end });
                        assert(caps@[caps0.len() as int + 1] == Span { start: us, end: r0 });
                        assert(caps@[caps0.len() as int + 2] == Span { start: vspan.0, end: vspan.1 });
                    }
                    Step::Next(q + 1)
                },
            }
        },
    }
}

/// Scans one segment at position `i`, appending its captures.
pub fn exec_seg(g: Segment, s: &[u8], i: usize, caps: &mut Vec<Span>) -> (r: Step)
    requires
        i <= s@.len(),
    ensures
        seg_post(seg_scan(g, s@, i as int), r, old(caps)@, final (caps)@),
{
    match g {
        Segment::Lit(b) => {
            proof {
                assert(caps@.subrange(0, caps@.len() as int) =~= caps@);
            }
            if i >= s.len() {
                Step::Eoi
            } else if s[i] == b {
                Step::Next(i + 1)
            } else {
                Step::Fail(i)
            }
        },
        Segment::Scheme => exec_scheme(s, i, caps),
        Segment::Timestamp => exec_timestamp(s, i, caps),
        Segment::Name { slash } => exec_name(s, i, slash, caps),
        Segment::Ip => {
            match exec_ip(s, i) {
                Step::Next(e) => finish_one(caps, i, e, e),
                Step::Fail(a) => Step::Fail(a),
                Step::Eoi => Step::Eoi,
            }
        },
        Segment::Digits { min, max } => {
            match exec_bounded(s, i, min, max) {
                Step::Next(e) => finish_one(caps, i, e, e),
                Step::Fail(a) => Step::Fail(a),
                Step::Eoi => Step::Eoi,
            }
        },
        Segment::DigitsOrDash { min, max } => {
            if i < s.len() && s[i] == DASH {
                finish_one(caps, i, i + 1, i + 1)
            } else {
                match exec_bounded(s, i, min, max) {
                    Step::Next(e) => finish_one(caps, i, e, e),
                    Step::Fail(a) => Step::Fail(a),
                    Step::Eoi => Step::Eoi,
                }
            }
        },
        Segment::NullableIpPort => {
            if i >= s.len() {
                Step::Eoi
            } else if s[i] == DASH {
                finish_one(caps, i, i + 1, i + 1)
            } else {
                match exec_ipport(s, i) {
                    Step::Next(e) => finish_one(caps, i, e, e),
                    Step::Fail(a) => Step::Fail(a),
                    Step::Eoi => Step::Eoi,
                }
            }
        },
        Segment::ProcTime => exec_proctime(s, i, caps),
        Segment::Request { classic } => exec_request(s, i, classic, caps),
        Segment::QuotedEsc => exec_quoted_esc(s, i, caps),
        Segment::QuotedSimpleEsc => exec_quoted_simple(s, i, caps),
        Segment::QuotedDomain => exec_quoted_domain(s, i, caps),
        Segment::QuotedCert => exec_quoted_cert(s, i, caps),
        Segment::QuotedActions => exec_quoted_actions(s, i, caps),
        Segment::QuotedAlphaOrDash => exec_quoted_alpha(s, i, caps),
        Segment::QuotedIpList => exec_quoted_iplist(s, i, caps),
        Segment::QuotedStatusList => exec_quoted_stlist(s, i, caps),
        Segment::QuotedClassification => exec_quoted_classification(s, i, caps),
        Segment::Run { class } => exec_run_field(s, i, class, caps),
        Segment::TlsProto => exec_tls(s, i, caps),
        Segment::ArnOrDash => exec_arn(s, i, caps),
        Segment::RulePriority => exec_rule_priority(s, i, caps),
    }
}

} // verus!
