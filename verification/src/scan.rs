//! Scanning steps shared by every field of both grammars: outcome types,
//! exact-literal matching, and the two quoted-content scanners (with and
//! without byte escapes). Each scanner reports either where it stopped, the
//! first byte it could not accept, or that the input ended first.

use vstd::prelude::*;

use crate::bytes::{is_hex, run_end, ByteClass};

verus! {

/// Outcome of scanning one piece of a line, at the specification level.
pub enum SpecStep {
    /// The piece matched; scanning resumes at `end`, and `caps` are the byte
    /// ranges it captured.
    Next { end: int, caps: Seq<(int, int)> },
    /// The byte at `at` is inconsistent with the piece.
    Fail { at: int },
    /// The input ended while the piece could still have been completed.
    Eoi,
}

/// Outcome of matching one exact literal.
pub enum LitStep {
    Next { end: int },
    Fail { at: int },
    Eoi,
}

/// Outcome of scanning quoted content for its closing quote.
pub enum QStep {
    /// `at` is the index of the closing quote.
    Close { at: int },
    Fail { at: int },
    Eoi,
}

/// Exec-level outcome of one scanning step; captured ranges are pushed onto
/// the caller's vector separately.
#[derive(Clone, Copy, PartialEq, Eq, Structural, Debug)]
pub enum Step {
    Next(usize),
    Fail(usize),
    Eoi,
}

/// The exec step `r` reports exactly the literal-scan outcome `t`.
pub open spec fn step_like_lit(r: Step, t: LitStep) -> bool {
    match t {
        LitStep::Next { end } => r matches Step::Next(e) && e == end,
        LitStep::Fail { at } => r matches Step::Fail(a) && a == at,
        LitStep::Eoi => r matches Step::Eoi,
    }
}

/// The exec step `r` reports exactly the quoted-scan outcome `t`; a closing
/// quote is reported through `Next`.
pub open spec fn step_like_q(r: Step, t: QStep) -> bool {
    match t {
        QStep::Close { at } => r matches Step::Next(e) && e == at,
        QStep::Fail { at } => r matches Step::Fail(a) && a == at,
        QStep::Eoi => r matches Step::Eoi,
    }
}

/// Matches the exact bytes `lit` at position `i` of `s`.
pub open spec fn lit_step(s: Seq<u8>, i: int, lit: Seq<u8>) -> LitStep
    decreases lit.len(),
{
    if lit.len() == 0 {
        LitStep::Next { end: i }
    } else if i < 0 || i >= s.len() {
        LitStep::Eoi
    } else if s[i] == lit[0] {
        lit_step(s, i + 1, lit.skip(1))
    } else {
        LitStep::Fail { at: i }
    }
}

pub proof fn lemma_lit_step_sane(s: Seq<u8>, i: int, lit: Seq<u8>)
    requires
        0 <= i <= s.len(),
    ensures
        lit_step(s, i, lit) matches LitStep::Next { end } ==> end == i + lit.len() && end <= s.len(),
        lit_step(s, i, lit) matches LitStep::Fail { at } ==> i <= at < s.len(),
    decreases lit.len(),
{
    if lit.len() > 0 && i < s.len() && s[i] == lit[0] {
        lemma_lit_step_sane(s, i + 1, lit.skip(1));
    }
}

/// A literal wholly inside the input cannot run out of it.
pub proof fn lemma_lit_step_no_eoi(s: Seq<u8>, i: int, lit: Seq<u8>)
    requires
        0 <= i,
        i + lit.len() <= s.len(),
    ensures
        !(lit_step(s, i, lit) matches LitStep::Eoi),
    decreases lit.len(),
{
    if lit.len() > 0 && s[i] == lit[0] {
        lemma_lit_step_no_eoi(s, i + 1, lit.skip(1));
    }
}

/// A literal match that did not run out of input is unchanged by extending
/// the input.
pub proof fn lemma_lit_step_agree(s1: Seq<u8>, s2: Seq<u8>, i: int, lit: Seq<u8>)
    requires
        s1.len() <= s2.len(),
        s1 == s2.subrange(0, s1.len() as int),
        0 <= i <= s1.len(),
        !(lit_step(s1, i, lit) matches LitStep::Eoi),
    ensures
        lit_step(s2, i, lit) == lit_step(s1, i, lit),
    decreases lit.len(),
{
    assert(forall|k: int| 0 <= k < s1.len() ==> s1[k] == s2[k]);
    if lit.len() > 0 && i < s1.len() && s1[i] == lit[0] {
        lemma_lit_step_agree(s1, s2, i + 1, lit.skip(1));
    }
}

/// Computes `lit_step`.
pub fn scan_lit(s: &[u8], i: usize, lit: &[u8]) -> (r: Step)
    requires
        i <= s@.len(),
    ensures
        step_like_lit(r, lit_step(s@, i as int, lit@)),
{
    let mut k: usize = 0;
    let mut p: usize = i;
    proof {
        assert(lit@.skip(0) =~= lit@);
    }
    while k < lit.len()
        invariant
            i <= p <= s@.len(),
            0 <= k <= lit@.len(),
            p == i + k,
            lit_step(s@, i as int, lit@) == lit_step(s@, p as int, lit@.skip(k as int)),
        decreases lit@.len() - k,
    {
        proof {
            assert(lit@.skip(k as int).len() == lit@.len() - k);
            assert(lit@.skip(k as int)[0] == lit@[k as int]);
        }
        if p >= s.len() {
            return Step::Eoi;
        }
        if s[p] != lit[k] {
            return Step::Fail(p);
        }
        proof {
            assert(lit@.skip(k as int).skip(1) =~= lit@.skip(k + 1));
        }
        k = k + 1;
        p = p + 1;
    }
    proof {
        assert(lit@.skip(k as int).len() == 0);
    }
    Step::Next(p)
}

/// Scans the inside of a fully escaped quoted field (URL, user agent) from
/// `i` for its closing quote. A byte is accepted when it is neither `"`, `\`
/// nor a line feed; a backslash must introduce `\"`, `\\`, or `\x` followed
/// by two hexadecimal digits — extended greedily to eight when six more
/// hexadecimal digits follow at once, since both escape widths occur in real
/// traffic.
pub open spec fn qscan(s: Seq<u8>, i: int) -> QStep
    decreases s.len() - i,
{
    if i < 0 || i >= s.len() {
        QStep::Eoi
    } else if s[i] == 0x22 {
        QStep::Close { at: i }
    } else if s[i] == 0x0a {
        QStep::Fail { at: i }
    } else if s[i] != 0x5c {
        qscan(s, i + 1)
    } else if i + 1 >= s.len() {
        QStep::Eoi
    } else if s[i + 1] == 0x22 || s[i + 1] == 0x5c {
        qscan(s, i + 2)
    } else if s[i + 1] == 0x78 {
        if i + 2 >= s.len() {
            QStep::Eoi
        } else if !is_hex(s[i + 2]) {
            QStep::Fail { at: i + 2 }
        } else if i + 3 >= s.len() {
            QStep::Eoi
        } else if !is_hex(s[i + 3]) {
            QStep::Fail { at: i + 3 }
        } else if i + 10 <= s.len() && is_hex(s[i + 4]) && is_hex(s[i + 5]) && is_hex(s[i + 6])
            && is_hex(s[i + 7]) && is_hex(s[i + 8]) && is_hex(s[i + 9]) {
            qscan(s, i + 10)
        } else {
            qscan(s, i + 4)
        }
    } else {
        QStep::Fail { at: i + 1 }
    }
}

pub proof fn lemma_qscan_sane(s: Seq<u8>, i: int)
    requires
        0 <= i <= s.len(),
    ensures
        qscan(s, i) matches QStep::Close { at } ==> i <= at < s.len() && s[at] == 0x22,
        qscan(s, i) matches QStep::Fail { at } ==> i <= at < s.len(),
    decreases s.len() - i,
{
    if i < s.len() && s[i] != 0x22 && s[i] != 0x0a {
        if s[i] != 0x5c {
            lemma_qscan_sane(s, i + 1);
        } else if i + 1 < s.len() {
            if s[i + 1] == 0x22 || s[i + 1] == 0x5c {
                lemma_qscan_sane(s, i + 2);
            } else if s[i + 1] == 0x78 && i + 3 < s.len() && is_hex(s[i + 2]) && is_hex(
                s[i + 3],
            ) {
                if i + 10 <= s.len() && is_hex(s[i + 4]) && is_hex(s[i + 5]) && is_hex(s[i + 6])
                    && is_hex(s[i + 7]) && is_hex(s[i + 8]) && is_hex(s[i + 9]) {
                    lemma_qscan_sane(s, i + 10);
                } else {
                    lemma_qscan_sane(s, i + 4);
                }
            }
        }
    }
}

/// A quoted-content scan that closed or failed is unchanged by extending the
/// input.
pub proof fn lemma_qscan_agree(s1: Seq<u8>, s2: Seq<u8>, i: int)
    requires
        s1.len() <= s2.len(),
        s1 == s2.subrange(0, s1.len() as int),
        0 <= i <= s1.len(),
        !(qscan(s1, i) matches QStep::Eoi),
    ensures
        qscan(s2, i) == qscan(s1, i),
    decreases s1.len() - i,
{
    assert(forall|k: int| 0 <= k < s1.len() ==> s1[k] == s2[k]);
    if i < s1.len() && s1[i] != 0x22 && s1[i] != 0x0a {
        if s1[i] != 0x5c {
            lemma_qscan_agree(s1, s2, i + 1);
        } else if i + 1 < s1.len() {
            if s1[i + 1] == 0x22 || s1[i + 1] == 0x5c {
                lemma_qscan_agree(s1, s2, i + 2);
            } else if s1[i + 1] == 0x78 && i + 3 < s1.len() && is_hex(s1[i + 2]) && is_hex(
                s1[i + 3],
            ) {
                if i + 10 <= s1.len() && is_hex(s1[i + 4]) && is_hex(s1[i + 5]) && is_hex(
                    s1[i + 6],
                ) && is_hex(s1[i + 7]) && is_hex(s1[i + 8]) && is_hex(s1[i + 9]) {
                    lemma_qscan_agree(s1, s2, i + 10);
                } else {
                    // The scan on `s1` took the two-digit form. Were the
                    // extension to enable the eight-digit form, `s1` would
                    // have to end within the six extra digits, all
                    // hexadecimal — but then the scan on `s1` would have run
                    // out of input, against the precondition.
                    if i + 10 <= s2.len() && is_hex(s2[i + 4]) && is_hex(s2[i + 5]) && is_hex(
                        s2[i + 6],
                    ) && is_hex(s2[i + 7]) && is_hex(s2[i + 8]) && is_hex(s2[i + 9]) {
                        assert(i + 10 > s1.len());
                        assert(!(qscan(s1, i + 4) matches QStep::Eoi));
                        assert(forall|k: int| i + 4 <= k < s1.len() ==> is_hex(s1[k]));
                        lemma_qscan_tail_hex(s1, i + 4);
                    }
                    lemma_qscan_agree(s1, s2, i + 4);
                }
            }
        }
    }
}

/// Helper for the eight-wide escape case: a quoted-content scan over nothing
/// but hexadecimal digits walks to the input's edge and runs out.
proof fn lemma_qscan_tail_hex(s: Seq<u8>, i: int)
    requires
        0 <= i <= s.len(),
        forall|k: int| i <= k < s.len() ==> is_hex(s[k]),
    ensures
        qscan(s, i) matches QStep::Eoi,
    decreases s.len() - i,
{
    if i < s.len() {
        assert(is_hex(s[i]));
        assert(s[i] != 0x22 && s[i] != 0x0a && s[i] != 0x5c);
        lemma_qscan_tail_hex(s, i + 1);
    }
}

/// Scans the inside of a lightly escaped quoted field (trace id, certificate
/// ARN) from `i` for its closing quote: any byte but `"` and `\` is
/// accepted, and a backslash must introduce `\"`.
pub open spec fn sscan(s: Seq<u8>, i: int) -> QStep
    decreases s.len() - i,
{
    if i < 0 || i >= s.len() {
        QStep::Eoi
    } else if s[i] == 0x22 {
        QStep::Close { at: i }
    } else if s[i] != 0x5c {
        sscan(s, i + 1)
    } else if i + 1 >= s.len() {
        QStep::Eoi
    } else if s[i + 1] == 0x22 {
        sscan(s, i + 2)
    } else {
        QStep::Fail { at: i + 1 }
    }
}

pub proof fn lemma_sscan_sane(s: Seq<u8>, i: int)
    requires
        0 <= i <= s.len(),
    ensures
        sscan(s, i) matches QStep::Close { at } ==> i <= at < s.len() && s[at] == 0x22,
        sscan(s, i) matches QStep::Fail { at } ==> i <= at < s.len(),
    decreases s.len() - i,
{
    if i < s.len() && s[i] != 0x22 {
        if s[i] != 0x5c {
            lemma_sscan_sane(s, i + 1);
        } else if i + 1 < s.len() && s[i + 1] == 0x22 {
            lemma_sscan_sane(s, i + 2);
        }
    }
}

pub proof fn lemma_sscan_agree(s1: Seq<u8>, s2: Seq<u8>, i: int)
    requires
        s1.len() <= s2.len(),
        s1 == s2.subrange(0, s1.len() as int),
        0 <= i <= s1.len(),
        !(sscan(s1, i) matches QStep::Eoi),
    ensures
        sscan(s2, i) == sscan(s1, i),
    decreases s1.len() - i,
{
    assert(forall|k: int| 0 <= k < s1.len() ==> s1[k] == s2[k]);
    if i < s1.len() && s1[i] != 0x22 {
        if s1[i] != 0x5c {
            lemma_sscan_agree(s1, s2, i + 1);
        } else if i + 1 < s1.len() && s1[i + 1] == 0x22 {
            lemma_sscan_agree(s1, s2, i + 2);
        }
    }
}

/// Computes `qscan`.
pub fn scan_quoted_esc(s: &[u8], i: usize) -> (r: Step)
    requires
        i <= s@.len(),
    ensures
        step_like_q(r, qscan(s@, i as int)),
{
    let mut j: usize = i;
    while j < s.len()
        invariant
            i <= j <= s@.len(),
            qscan(s@, i as int) == qscan(s@, j as int),
        decreases s@.len() - j,
    {
        let b = s[j];
        if b == 0x22 {
            return Step::Next(j);
        }
        if b == 0x0a {
            return Step::Fail(j);
        }
        if b != 0x5c {
            j = j + 1;
        } else {
            if j + 1 >= s.len() {
                return Step::Eoi;
            }
            let c = s[j + 1];
            if c == 0x22 || c == 0x5c {
                j = j + 2;
            } else if c == 0x78 {
                if j + 2 >= s.len() {
                    return Step::Eoi;
                }
                if !crate::bytes::byte_is_hex(s[j + 2]) {
                    return Step::Fail(j + 2);
                }
                if j + 3 >= s.len() {
                    return Step::Eoi;
                }
                if !crate::bytes::byte_is_hex(s[j + 3]) {
                    return Step::Fail(j + 3);
                }
                if s.len() - j >= 10 && crate::bytes::byte_is_hex(s[j + 4])
                    && crate::bytes::byte_is_hex(s[j + 5]) && crate::bytes::byte_is_hex(s[j + 6])
                    && crate::bytes::byte_is_hex(s[j + 7]) && crate::bytes::byte_is_hex(s[j + 8])
                    && crate::bytes::byte_is_hex(s[j + 9]) {
                    j = j + 10;
                } else {
                    j = j + 4;
                }
            } else {
                return Step::Fail(j + 1);
            }
        }
    }
    Step::Eoi
}

/// Computes `sscan`.
pub fn scan_quoted_simple(s: &[u8], i: usize) -> (r: Step)
    requires
        i <= s@.len(),
    ensures
        step_like_q(r, sscan(s@, i as int)),
{
    let mut j: usize = i;
    while j < s.len()
        invariant
            i <= j <= s@.len(),
            sscan(s@, i as int) == sscan(s@, j as int),
        decreases s@.len() - j,
    {
        let b = s[j];
        if b == 0x22 {
            return Step::Next(j);
        }
        if b != 0x5c {
            j = j + 1;
        } else {
            if j + 1 >= s.len() {
                return Step::Eoi;
            }
            if s[j + 1] == 0x22 {
                j = j + 2;
            } else {
                return Step::Fail(j + 1);
            }
        }
    }
    Step::Eoi
}

} // verus!
