//! Laws of the failure locator. The central fact: when the scanner rejects
//! a byte strictly inside a prefix of a line, it rejects the whole line at
//! the same byte. From this follows the monotonicity of localization:
//! inserting a byte that the grammar rejects within its own prefix into an
//! otherwise valid line is reported at or before the insertion point.

use vstd::prelude::*;

use crate::bytes::{
    in_class, is_alnum, is_digit, lemma_run_end_agree, lemma_run_end_bounds, lemma_run_end_ext,
    run_end, ByteClass, COLON, DASH, DOT, QUOTE, SP,
};
use crate::engine::{lemma_segs_sane, locate_spec, scan_line, scan_segs, scan_segs_from, LineScan};
use crate::fields::{
    bounded_digits_scan, classification_member, ip_scan, iplist_scan, ipport_scan, lit_acceptable,
    lit_ambiguous, lit_arn, lit_grpcs, lit_http_slash, lit_session_reused, lit_severe, lit_tlsv,
    octet_scan, req_split, request_scan, seg_scan, stlist_scan, ts_char, ts_scan_from, ver_ok,
    ver_span, SegScan, Segment,
};
use crate::scan::{
    lemma_lit_step_agree, lemma_lit_step_no_eoi, lemma_lit_step_sane, lemma_qscan_agree,
    lemma_qscan_sane, lemma_sscan_agree, lemma_sscan_sane, lit_step, qscan, sscan, LitStep, QStep,
};

verus! {

/// `s1` is the first `s1.len()` bytes of `s2`.
pub open spec fn prefix_of(s1: Seq<u8>, s2: Seq<u8>) -> bool {
    s1.len() <= s2.len() && s1 == s2.subrange(0, s1.len() as int)
}

proof fn lemma_octet_agree(s1: Seq<u8>, s2: Seq<u8>, i: int)
    requires
        prefix_of(s1, s2),
        0 <= i <= s1.len(),
        !(octet_scan(s1, i) matches LitStep::Eoi),
        octet_scan(s1, i) matches LitStep::Next { end } ==> end < s1.len(),
    ensures
        octet_scan(s2, i) == octet_scan(s1, i),
{
    assert(forall|k: int| 0 <= k < s1.len() ==> s1[k] == s2[k]);
    if i < s1.len() && is_digit(s1[i]) {
        let e: int = run_end(s1, i, ByteClass::Digit);
        lemma_run_end_bounds(s1, i, ByteClass::Digit);
        if e - i > 3 {
            lemma_run_end_ext(s1, s2, i, ByteClass::Digit);
        } else {
            lemma_run_end_agree(s1, s2, i, ByteClass::Digit);
        }
    }
}

proof fn lemma_bounded_agree(s1: Seq<u8>, s2: Seq<u8>, i: int, min: int, max: int)
    requires
        prefix_of(s1, s2),
        0 <= i <= s1.len(),
        !(bounded_digits_scan(s1, i, min, max) matches LitStep::Eoi),
        bounded_digits_scan(s1, i, min, max) matches LitStep::Next { end } ==> end < s1.len(),
    ensures
        bounded_digits_scan(s2, i, min, max) == bounded_digits_scan(s1, i, min, max),
{
    assert(forall|k: int| 0 <= k < s1.len() ==> s1[k] == s2[k]);
    if i < s1.len() && is_digit(s1[i]) {
        let e: int = run_end(s1, i, ByteClass::Digit);
        lemma_run_end_bounds(s1, i, ByteClass::Digit);
        if e - i > max {
            lemma_run_end_ext(s1, s2, i, ByteClass::Digit);
        } else {
            lemma_run_end_agree(s1, s2, i, ByteClass::Digit);
        }
    }
}

proof fn lemma_ip_agree(s1: Seq<u8>, s2: Seq<u8>, i: int)
    requires
        prefix_of(s1, s2),
        0 <= i <= s1.len(),
        !(ip_scan(s1, i) matches LitStep::Eoi),
        ip_scan(s1, i) matches LitStep::Next { end } ==> end < s1.len(),
    ensures
        ip_scan(s2, i) == ip_scan(s1, i),
{
    assert(forall|k: int| 0 <= k < s1.len() ==> s1[k] == s2[k]);
    crate::fields::lemma_octet_sane(s1, i);
    lemma_octet_sub_agree(s1, s2, i);
    if let LitStep::Next { end: e1 } = octet_scan(s1, i) {
        crate::fields::lemma_octet_sane(s1, e1 + 1);
        if e1 < s1.len() && s1[e1] == DOT {
            lemma_octet_sub_agree(s1, s2, e1 + 1);
            if let LitStep::Next { end: e2 } = octet_scan(s1, e1 + 1) {
                crate::fields::lemma_octet_sane(s1, e2 + 1);
                if e2 < s1.len() && s1[e2] == DOT {
                    lemma_octet_sub_agree(s1, s2, e2 + 1);
                    if let LitStep::Next { end: e3 } = octet_scan(s1, e2 + 1) {
                        crate::fields::lemma_octet_sane(s1, e3 + 1);
                        if e3 < s1.len() && s1[e3] == DOT {
                            lemma_octet_agree(s1, s2, e3 + 1);
                        }
                    }
                }
            }
        }
    }
}

/// An inner octet of an address agrees whenever the composite scan neither
/// ran out nor ended at the input's edge: the byte after the octet was
/// examined, so the octet ended strictly inside the prefix.
proof fn lemma_octet_sub_agree(s1: Seq<u8>, s2: Seq<u8>, i: int)
    requires
        prefix_of(s1, s2),
        0 <= i <= s1.len(),
    ensures
        (octet_scan(s1, i) matches LitStep::Fail { at }) ==> octet_scan(s2, i) == octet_scan(
            s1,
            i,
        ),
        (octet_scan(s1, i) matches LitStep::Next { end } && end < s1.len()) ==> octet_scan(s2, i)
            == octet_scan(s1, i),
{
    if !(octet_scan(s1, i) matches LitStep::Eoi) {
        if octet_scan(s1, i) matches LitStep::Fail { at } {
            lemma_octet_agree(s1, s2, i);
        } else if octet_scan(s1, i) matches LitStep::Next { end } && end < s1.len() {
            lemma_octet_agree(s1, s2, i);
        }
    }
}

proof fn lemma_ipport_agree(s1: Seq<u8>, s2: Seq<u8>, i: int)
    requires
        prefix_of(s1, s2),
        0 <= i <= s1.len(),
        !(ipport_scan(s1, i) matches LitStep::Eoi),
        ipport_scan(s1, i) matches LitStep::Next { end } ==> end < s1.len(),
    ensures
        ipport_scan(s2, i) == ipport_scan(s1, i),
{
    assert(forall|k: int| 0 <= k < s1.len() ==> s1[k] == s2[k]);
    crate::fields::lemma_ip_sane(s1, i);
    if ip_scan(s1, i) matches LitStep::Fail { at } {
        lemma_ip_agree(s1, s2, i);
    } else if let LitStep::Next { end: e } = ip_scan(s1, i) {
        if e < s1.len() {
            lemma_ip_agree(s1, s2, i);
            if s1[e] == COLON {
                crate::fields::lemma_bounded_sane(s1, e + 1, 1, 5);
                lemma_bounded_agree(s1, s2, e + 1, 1, 5);
            }
        }
    }
}

proof fn lemma_ts_agree(s1: Seq<u8>, s2: Seq<u8>, i: int, j: int)
    requires
        prefix_of(s1, s2),
        0 <= i,
        0 <= j <= 27,
        i + j <= s1.len(),
        !(ts_scan_from(s1, i, j) matches SegScan::Eoi),
    ensures
        ts_scan_from(s2, i, j) == ts_scan_from(s1, i, j),
    decreases 27 - j,
{
    assert(forall|k: int| 0 <= k < s1.len() ==> s1[k] == s2[k]);
    if j < 27 && i + j < s1.len() && ts_char(j, s1[i + j]) {
        lemma_ts_agree(s1, s2, i, j + 1);
    }
}

proof fn lemma_iplist_agree(s1: Seq<u8>, s2: Seq<u8>, p: int)
    requires
        prefix_of(s1, s2),
        0 <= p <= s1.len(),
        !(iplist_scan(s1, p) matches LitStep::Eoi),
    ensures
        iplist_scan(s2, p) == iplist_scan(s1, p),
    decreases s1.len() - p,
{
    assert(forall|k: int| 0 <= k < s1.len() ==> s1[k] == s2[k]);
    crate::fields::lemma_ipport_sane(s1, p);
    if ipport_scan(s1, p) matches LitStep::Fail { at } {
        lemma_ipport_agree(s1, s2, p);
    } else if let LitStep::Next { end: e } = ipport_scan(s1, p) {
        if e < s1.len() {
            lemma_ipport_agree(s1, s2, p);
            if s1[e] != QUOTE && s1[e] == SP && e >= p + 1 {
                lemma_iplist_agree(s1, s2, e + 1);
            }
        }
    }
}

proof fn lemma_stlist_agree(s1: Seq<u8>, s2: Seq<u8>, p: int)
    requires
        prefix_of(s1, s2),
        0 <= p <= s1.len(),
        !(stlist_scan(s1, p) matches LitStep::Eoi),
    ensures
        stlist_scan(s2, p) == stlist_scan(s1, p),
    decreases s1.len() - p,
{
    assert(forall|k: int| 0 <= k < s1.len() ==> s1[k] == s2[k]);
    crate::fields::lemma_bounded_sane(s1, p, 3, 3);
    if bounded_digits_scan(s1, p, 3, 3) matches LitStep::Fail { at } {
        lemma_bounded_agree(s1, s2, p, 3, 3);
    } else if let LitStep::Next { end: e } = bounded_digits_scan(s1, p, 3, 3) {
        if e < s1.len() {
            lemma_bounded_agree(s1, s2, p, 3, 3);
            if s1[e] != QUOTE && s1[e] == SP && e >= p + 1 {
                lemma_stlist_agree(s1, s2, e + 1);
            }
        }
    }
}

proof fn lemma_ver_agree(s1: Seq<u8>, s2: Seq<u8>, v: int, q: int, classic: bool)
    requires
        prefix_of(s1, s2),
        0 <= v <= q < s1.len(),
    ensures
        ver_ok(s2, v, q, classic) == ver_ok(s1, v, q, classic),
{
    assert(forall|k: int| 0 <= k < s1.len() ==> s1[k] == s2[k]);
    if q - v >= 6 {
        lemma_lit_step_no_eoi(s1, v, lit_http_slash());
        lemma_lit_step_agree(s1, s2, v, lit_http_slash());
        if run_end(s1, v + 5, ByteClass::HttpVer) < s1.len() {
            lemma_run_end_agree(s1, s2, v + 5, ByteClass::HttpVer);
        } else {
            lemma_run_end_bounds(s1, v + 5, ByteClass::HttpVer);
            lemma_run_end_ext(s1, s2, v + 5, ByteClass::HttpVer);
        }
    }
}

proof fn lemma_req_split_agree(s1: Seq<u8>, s2: Seq<u8>, a: int, p: int, q: int, classic: bool)
    requires
        prefix_of(s1, s2),
        0 <= a <= p <= q < s1.len(),
    ensures
        req_split(s2, a, p, q, classic) == req_split(s1, a, p, q, classic),
    decreases p - a,
{
    assert(forall|k: int| 0 <= k < s1.len() ==> s1[k] == s2[k]);
    if p > a {
        lemma_ver_agree(s1, s2, p, q, classic);
        if !(s1[p - 1] == SP && ver_ok(s1, p, q, classic)) {
            lemma_req_split_agree(s1, s2, a, p - 1, q, classic);
        }
    }
}

proof fn lemma_request_agree(s1: Seq<u8>, s2: Seq<u8>, i: int, classic: bool)
    requires
        prefix_of(s1, s2),
        0 <= i <= s1.len(),
        !(request_scan(s1, i, classic) matches SegScan::Eoi),
    ensures
        request_scan(s2, i, classic) == request_scan(s1, i, classic),
{
    assert(forall|k: int| 0 <= k < s1.len() ==> s1[k] == s2[k]);
    if i < s1.len() && s1[i] == QUOTE && i + 1 < s1.len() {
        if classic && s1[i + 1] != DASH && run_end(s1, i + 1, ByteClass::Upper) < s1.len() {
            lemma_run_end_agree(s1, s2, i + 1, ByteClass::Upper);
        }
        if !classic && run_end(s1, i + 1, ByteClass::MethodAlb) < s1.len() {
            lemma_run_end_agree(s1, s2, i + 1, ByteClass::MethodAlb);
        }
        let m_end: int = if classic {
            if s1[i + 1] == DASH {
                i + 2
            } else {
                run_end(s1, i + 1, ByteClass::Upper)
            }
        } else {
            run_end(s1, i + 1, ByteClass::MethodAlb)
        };
        assert(i + 1 <= s1.len());
        if classic && s1[i + 1] != DASH {
            crate::bytes::lemma_run_end_bounds(s1, i + 1, ByteClass::Upper);
        }
        if !classic {
            crate::bytes::lemma_run_end_bounds(s1, i + 1, ByteClass::MethodAlb);
        }
        if m_end != i + 1 && m_end < s1.len() && s1[m_end] == SP {
            let us: int = m_end + 1;
            lemma_qscan_sane(s1, us);
            if !(qscan(s1, us) matches QStep::Eoi) {
                lemma_qscan_agree(s1, s2, us);
            }
            if let QStep::Close { at: q } = qscan(s1, us) {
                lemma_req_split_agree(s1, s2, us, q, q, classic);
                crate::fields::lemma_req_split_some(s1, us, q, q, classic);
                if let Option::Some(r) = req_split(s1, us, q, q, classic) {
                    assert(ver_span(s2, r + 1, q, classic) == ver_span(s1, r + 1, q, classic));
                    assert(request_scan(s2, i, classic) == request_scan(s1, i, classic));
                } else {
                    assert(request_scan(s1, i, classic) == (SegScan::Fail { at: q }));
                    assert(request_scan(s2, i, classic) == (SegScan::Fail { at: q }));
                }
            }
        }
    }
}

/// A segment scan that rejected a byte, or matched without touching the
/// prefix's edge, is unchanged by extending the input.
#[verifier::rlimit(100)]
pub proof fn lemma_seg_agree(g: Segment, s1: Seq<u8>, s2: Seq<u8>, i: int)
    requires
        prefix_of(s1, s2),
        0 <= i <= s1.len(),
        (seg_scan(g, s1, i) matches SegScan::Fail { at }) || (seg_scan(g, s1, i)
            matches SegScan::Next { end, .. } && end < s1.len()),
    ensures
        seg_scan(g, s2, i) == seg_scan(g, s1, i),
{
    assert(forall|k: int| 0 <= k < s1.len() ==> s1[k] == s2[k]);
    match g {
        Segment::Lit(b) => {
        },
        Segment::Scheme => {
            if i < s1.len() && s1[i] == 0x67 {
                lemma_lit_step_sane(s1, i, lit_grpcs());
                lemma_lit_step_agree(s1, s2, i, lit_grpcs());
            }
        
        },
        Segment::Timestamp => {
            lemma_ts_agree(s1, s2, i, 0);
        
        },
        Segment::Name { slash } => {
            if i < s1.len() && is_alnum(s1[i]) {
                lemma_run_end_bounds(s1, i, ByteClass::NameChar { slash });
                if run_end(s1, i, ByteClass::NameChar { slash }) < s1.len() {
                    lemma_run_end_agree(s1, s2, i, ByteClass::NameChar { slash });
                }
            }
        
        },
        Segment::Ip => {
            lemma_ip_agree(s1, s2, i);
        
        },
        Segment::Digits { min, max } => {
            lemma_bounded_agree(s1, s2, i, min as int, max as int);
        
        },
        Segment::DigitsOrDash { min, max } => {
            if !(i < s1.len() && s1[i] == DASH) {
                lemma_bounded_agree(s1, s2, i, min as int, max as int);
            }
        
        },
        Segment::NullableIpPort => {
            if i < s1.len() && s1[i] != DASH {
                lemma_ipport_agree(s1, s2, i);
            }
        
        },
        Segment::ProcTime => {
            if i < s1.len() && s1[i] != DASH && is_digit(s1[i]) {
                let e1: int = run_end(s1, i, ByteClass::Digit);
                lemma_run_end_bounds(s1, i, ByteClass::Digit);
                if e1 < s1.len() {
                    lemma_run_end_agree(s1, s2, i, ByteClass::Digit);
                    if s1[e1] == DOT && e1 + 1 < s1.len() && is_digit(s1[e1 + 1]) {
                        lemma_run_end_bounds(s1, e1 + 1, ByteClass::Digit);
                        lemma_run_end_agree(s1, s2, e1 + 1, ByteClass::Digit);
                    }
                }
            }
        
        },
        Segment::Request { classic } => {
            lemma_request_agree(s1, s2, i, classic);
        
        },
        Segment::QuotedEsc => {
            if i < s1.len() && s1[i] == QUOTE {
                lemma_qscan_sane(s1, i + 1);
                lemma_qscan_agree(s1, s2, i + 1);
            }
        
        },
        Segment::QuotedSimpleEsc => {
            if i < s1.len() && s1[i] == QUOTE {
                lemma_sscan_sane(s1, i + 1);
                lemma_sscan_agree(s1, s2, i + 1);
            }
        
        },
        Segment::QuotedDomain => {
            if i < s1.len() && s1[i] == QUOTE {
                let j: int = if i + 1 < s1.len() && s1[i + 1] == SP {
                    i + 2
                } else {
                    i + 1
                };
                if j <= s1.len() {
                    lemma_run_end_bounds(s1, j, ByteClass::DomainChar);
                    if run_end(s1, j, ByteClass::DomainChar) < s1.len() {
                        lemma_run_end_agree(s1, s2, j, ByteClass::DomainChar);
                    }
                }
            }
        
        },
        Segment::QuotedCert => {
            if i < s1.len() && s1[i] == QUOTE && i + 1 < s1.len() {
                if s1[i + 1] == 0x61 {
                    lemma_lit_step_sane(s1, i + 1, lit_arn());
                    if !(lit_step(s1, i + 1, lit_arn()) matches LitStep::Eoi) {
                        lemma_lit_step_agree(s1, s2, i + 1, lit_arn());
                        if let LitStep::Next { end: e0 } = lit_step(s1, i + 1, lit_arn()) {
                            lemma_sscan_sane(s1, e0);
                            if !(sscan(s1, e0) matches QStep::Eoi) {
                                lemma_sscan_agree(s1, s2, e0);
                            }
                        }
                    }
                } else if s1[i + 1] == 0x73 {
                    lemma_lit_step_sane(s1, i + 1, lit_session_reused());
                    if !(lit_step(s1, i + 1, lit_session_reused()) matches LitStep::Eoi) {
                        lemma_lit_step_agree(s1, s2, i + 1, lit_session_reused());
                    }
                }
            }
        
        },
        Segment::QuotedActions => {
            if i < s1.len() && s1[i] == QUOTE {
                lemma_run_end_bounds(s1, i + 1, ByteClass::LowerDash);
                if run_end(s1, i + 1, ByteClass::LowerDash) < s1.len() {
                    lemma_run_end_agree(s1, s2, i + 1, ByteClass::LowerDash);
                }
            }
        
        },
        Segment::QuotedAlphaOrDash => {
            if i < s1.len() && s1[i] == QUOTE && i + 1 < s1.len() && s1[i + 1] != DASH
                && in_class(ByteClass::Alpha, s1[i + 1]) {
                lemma_run_end_bounds(s1, i + 1, ByteClass::Alpha);
                if run_end(s1, i + 1, ByteClass::Alpha) < s1.len() {
                    lemma_run_end_agree(s1, s2, i + 1, ByteClass::Alpha);
                }
            }
        
        },
        Segment::QuotedIpList => {
            if i < s1.len() && s1[i] == QUOTE && !(i + 1 < s1.len() && s1[i + 1] == DASH) {
                if !(iplist_scan(s1, i + 1) matches LitStep::Eoi) {
                    lemma_iplist_agree(s1, s2, i + 1);
                }
            }
        
        },
        Segment::QuotedStatusList => {
            if i < s1.len() && s1[i] == QUOTE && !(i + 1 < s1.len() && s1[i + 1] == DASH) {
                if !(stlist_scan(s1, i + 1) matches LitStep::Eoi) {
                    lemma_stlist_agree(s1, s2, i + 1);
                }
            }
        
        },
        Segment::QuotedClassification => {
            if i < s1.len() && s1[i] == QUOTE && i + 1 < s1.len() {
                if s1[i + 1] == 0x41 && i + 2 < s1.len() {
                    if s1[i + 2] == 0x63 {
                        lemma_member_agree(s1, s2, i, lit_acceptable());
                    } else if s1[i + 2] == 0x6d {
                        lemma_member_agree(s1, s2, i, lit_ambiguous());
                    }
                } else if s1[i + 1] == 0x53 {
                    lemma_member_agree(s1, s2, i, lit_severe());
                }
            }
        
        },
        Segment::Run { class } => {
            if i < s1.len() && in_class(class, s1[i]) && run_end(s1, i, class) < s1.len() {
                lemma_run_end_agree(s1, s2, i, class);
            }
        
        },
        Segment::TlsProto => {
            if i < s1.len() && s1[i] != DASH {
                lemma_lit_step_sane(s1, i, lit_tlsv());
                if !(lit_step(s1, i, lit_tlsv()) matches LitStep::Eoi) {
                    lemma_lit_step_agree(s1, s2, i, lit_tlsv());
                    if let LitStep::Next { end: e0 } = lit_step(s1, i, lit_tlsv()) {
                        if e0 < s1.len() && in_class(ByteClass::HttpVer, s1[e0]) && run_end(
                            s1,
                            e0,
                            ByteClass::HttpVer,
                        ) < s1.len() {
                            lemma_run_end_agree(s1, s2, e0, ByteClass::HttpVer);
                        }
                    }
                }
            }
        
        },
        Segment::ArnOrDash => {
            if i < s1.len() && s1[i] != DASH {
                lemma_lit_step_sane(s1, i, lit_arn());
                if !(lit_step(s1, i, lit_arn()) matches LitStep::Eoi) {
                    lemma_lit_step_agree(s1, s2, i, lit_arn());
                    if let LitStep::Next { end: e0 } = lit_step(s1, i, lit_arn()) {
                        if run_end(s1, e0, ByteClass::ArnChar) < s1.len() {
                            lemma_run_end_agree(s1, s2, e0, ByteClass::ArnChar);
                        }
                    }
                }
            }
        
        },
        Segment::RulePriority => {
            if i < s1.len() && s1[i] != DASH {
                lemma_bounded_agree(s1, s2, i, 1, 5);
            }
        
        },
    }
}

proof fn lemma_member_agree(s1: Seq<u8>, s2: Seq<u8>, i: int, lit: Seq<u8>)
    requires
        prefix_of(s1, s2),
        0 <= i < s1.len(),
        !(classification_member(s1, i, lit) matches SegScan::Eoi),
    ensures
        classification_member(s2, i, lit) == classification_member(s1, i, lit),
{
    assert(forall|k: int| 0 <= k < s1.len() ==> s1[k] == s2[k]);
    lemma_lit_step_sane(s1, i + 1, lit);
    if !(lit_step(s1, i + 1, lit) matches LitStep::Eoi) {
        lemma_lit_step_agree(s1, s2, i + 1, lit);
    }
}

/// A rejection strictly inside a prefix persists, at the same byte, when
/// the scan runs over any extension of that prefix.
pub proof fn lemma_segs_fail_agree(gs: Seq<Segment>, s1: Seq<u8>, s2: Seq<u8>, i: int, k: int)
    requires
        prefix_of(s1, s2),
        0 <= i <= s1.len(),
        0 <= k,
        scan_segs_from(gs, s1, i, k) matches SegScan::Fail { .. },
    ensures
        scan_segs_from(gs, s2, i, k) == scan_segs_from(gs, s1, i, k),
    decreases gs.len() - k,
{
    if k < gs.len() {
        crate::fields::lemma_seg_sane(gs[k], s1, i);
        match seg_scan(gs[k], s1, i) {
            SegScan::Fail { at } => {
                lemma_seg_agree(gs[k], s1, s2, i);
            },
            SegScan::Next { end, caps } => {
                lemma_segs_sane(gs, s1, end, k + 1);
                lemma_segs_fail_agree(gs, s1, s2, end, k + 1);
                lemma_seg_agree(gs[k], s1, s2, i);
            },
            SegScan::Eoi => {},
        }
    }
}

/// Where the locator's report comes from on a whole line once a prefix of
/// it is rejected: the same byte.
pub proof fn lemma_fail_persists(gs: Seq<Segment>, s: Seq<u8>, m: int)
    requires
        0 <= m <= s.len(),
        scan_segs(gs, s.subrange(0, m), 0) matches SegScan::Fail { .. },
    ensures
        scan_segs(gs, s, 0) == scan_segs(gs, s.subrange(0, m), 0),
        locate_spec(gs, s) matches Option::Some(j) && (scan_segs(gs, s.subrange(0, m), 0)
            matches SegScan::Fail { at } && j == at && j < m),
{
    let s1 = s.subrange(0, m);
    assert(s1 == s.subrange(0, s1.len() as int));
    lemma_segs_sane(gs, s1, 0, 0);
    lemma_segs_fail_agree(gs, s1, s, 0, 0);
}

/// Localization is monotonic: insert one byte at position `k` into a line
/// the grammar accepts; if the scanner rejects some byte within the first
/// `k + 1` bytes of the altered line, the locator reports that byte, which
/// lies at or before the insertion point — never past it. An inserted byte
/// that merely lengthens a token it lands in (a digit inside a digit run)
/// is not rejected within its own prefix; for such a byte the first dead
/// byte, and so the report, can only come later.
pub proof fn lemma_locate_monotonic(gs: Seq<Segment>, line: Seq<u8>, b: u8, k: int)
    requires
        0 <= k <= line.len(),
        scan_line(gs, line) matches LineScan::Accept { .. },
        scan_segs(gs, (line.subrange(0, k).push(b) + line.subrange(k, line.len() as int)).subrange(0, k + 1), 0)
            matches SegScan::Fail { .. },
    ensures
        ({
            let altered = line.subrange(0, k).push(b) + line.subrange(k, line.len() as int);
            locate_spec(gs, altered) matches Option::Some(j) && j <= k
        }),
{
    let altered = line.subrange(0, k).push(b) + line.subrange(k, line.len() as int);
    assert(altered.len() == line.len() + 1);
    lemma_fail_persists(gs, altered, k + 1);
}

} // verus!
