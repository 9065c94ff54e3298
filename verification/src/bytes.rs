//! Byte classes of the two grammars, and the greedy-run primitive: every
//! bare token of a log line is a maximal run of bytes from one class.

use vstd::prelude::*;

verus! {

/// `"`
pub const QUOTE: u8 = 0x22;

/// `\`
pub const BSLASH: u8 = 0x5c;

/// Line feed.
pub const NL: u8 = 0x0a;

/// Space, the field separator of both dialects.
pub const SP: u8 = 0x20;

/// `-`, the sentinel marker of an absent value.
pub const DASH: u8 = 0x2d;

/// `.`
pub const DOT: u8 = 0x2e;

/// `:`
pub const COLON: u8 = 0x3a;

/// The classes of bytes the field grammars draw runs from.
#[derive(Clone, Copy, PartialEq, Eq, Structural, Debug)]
pub enum ByteClass {
    /// `[0-9]`
    Digit,
    /// `[a-z0-9]`: the characters of a protocol scheme token.
    SchemeChar,
    /// `[a-zA-Z0-9-]`, with `/` as well when `slash` is set: the middle of a
    /// load-balancer name.
    NameChar { slash: bool },
    /// Any byte but `"`, `\` and the line feed: the literal characters of an
    /// escaped quoted field (URL, user agent).
    UrlChar,
    /// Any byte but `"` and `\`: the literal characters of a lightly escaped
    /// quoted field (trace id, certificate ARN tail).
    TraceChar,
    /// `[0-9A-Za-z.\-*:]`: a domain-name field.
    DomainChar,
    /// `[0-9A-Za-z-_]`: an HTTP method in the modern dialect.
    MethodAlb,
    /// `[A-Z]`: an HTTP method in the legacy dialect.
    Upper,
    /// `[0-9.]`: the tail of an `HTTP/` version token.
    HttpVer,
    /// `[0-9A-Z-_]`: a TLS cipher name in the modern dialect.
    CipherAlb,
    /// `[0-9A-Z-]`: a TLS cipher name in the legacy dialect.
    CipherClassic,
    /// `[a-z-]`: an actions-executed field.
    LowerDash,
    /// `[a-zA-Z]`
    Alpha,
    /// Any byte but space and the line feed: the tail of a bare ARN token.
    ArnChar,
}

pub open spec fn is_digit(b: u8) -> bool {
    0x30 <= b <= 0x39
}

pub open spec fn is_lower(b: u8) -> bool {
    0x61 <= b <= 0x7a
}

pub open spec fn is_upper(b: u8) -> bool {
    0x41 <= b <= 0x5a
}

pub open spec fn is_alpha(b: u8) -> bool {
    is_lower(b) || is_upper(b)
}

pub open spec fn is_alnum(b: u8) -> bool {
    is_alpha(b) || is_digit(b)
}

/// `[0-9a-fA-F]`
pub open spec fn is_hex(b: u8) -> bool {
    is_digit(b) || 0x61 <= b <= 0x66 || 0x41 <= b <= 0x46
}

pub open spec fn in_class(c: ByteClass, b: u8) -> bool {
    match c {
        ByteClass::Digit => is_digit(b),
        ByteClass::SchemeChar => is_lower(b) || is_digit(b),
        ByteClass::NameChar { slash } => is_alnum(b) || b == 0x2d || (slash && b == 0x2f),
        ByteClass::UrlChar => b != 0x22 && b != 0x5c && b != 0x0a,
        ByteClass::TraceChar => b != 0x22 && b != 0x5c,
        ByteClass::DomainChar => is_alnum(b) || b == 0x2e || b == 0x2d || b == 0x2a || b == 0x3a,
        ByteClass::MethodAlb => is_alnum(b) || b == 0x2d || b == 0x5f,
        ByteClass::Upper => is_upper(b),
        ByteClass::HttpVer => is_digit(b) || b == 0x2e,
        ByteClass::CipherAlb => is_digit(b) || is_upper(b) || b == 0x2d || b == 0x5f,
        ByteClass::CipherClassic => is_digit(b) || is_upper(b) || b == 0x2d,
        ByteClass::LowerDash => is_lower(b) || b == 0x2d,
        ByteClass::Alpha => is_alpha(b),
        ByteClass::ArnChar => b != 0x20 && b != 0x0a,
    }
}

/// Decides membership of one byte in one class.
pub fn byte_in_class(c: ByteClass, b: u8) -> (r: bool)
    ensures
        r == in_class(c, b),
{
    match c {
        ByteClass::Digit => 0x30 <= b && b <= 0x39,
        ByteClass::SchemeChar => (0x61 <= b && b <= 0x7a) || (0x30 <= b && b <= 0x39),
        ByteClass::NameChar { slash } => {
            ((0x61 <= b && b <= 0x7a) || (0x41 <= b && b <= 0x5a) || (0x30 <= b && b <= 0x39))
                || b == 0x2d || (slash && b == 0x2f)
        },
        ByteClass::UrlChar => b != 0x22 && b != 0x5c && b != 0x0a,
        ByteClass::TraceChar => b != 0x22 && b != 0x5c,
        ByteClass::DomainChar => {
            ((0x61 <= b && b <= 0x7a) || (0x41 <= b && b <= 0x5a) || (0x30 <= b && b <= 0x39))
                || b == 0x2e || b == 0x2d || b == 0x2a || b == 0x3a
        },
        ByteClass::MethodAlb => {
            ((0x61 <= b && b <= 0x7a) || (0x41 <= b && b <= 0x5a) || (0x30 <= b && b <= 0x39))
                || b == 0x2d || b == 0x5f
        },
        ByteClass::Upper => 0x41 <= b && b <= 0x5a,
        ByteClass::HttpVer => (0x30 <= b && b <= 0x39) || b == 0x2e,
        ByteClass::CipherAlb => {
            (0x30 <= b && b <= 0x39) || (0x41 <= b && b <= 0x5a) || b == 0x2d || b == 0x5f
        },
        ByteClass::CipherClassic => {
            (0x30 <= b && b <= 0x39) || (0x41 <= b && b <= 0x5a) || b == 0x2d
        },
        ByteClass::LowerDash => (0x61 <= b && b <= 0x7a) || b == 0x2d,
        ByteClass::Alpha => (0x61 <= b && b <= 0x7a) || (0x41 <= b && b <= 0x5a),
        ByteClass::ArnChar => b != 0x20 && b != 0x0a,
    }
}

/// Decides whether a byte is alphanumeric.
pub fn byte_is_alnum(b: u8) -> (r: bool)
    ensures
        r == is_alnum(b),
{
    (0x61 <= b && b <= 0x7a) || (0x41 <= b && b <= 0x5a) || (0x30 <= b && b <= 0x39)
}

/// Decides whether a byte is a decimal digit.
pub fn byte_is_digit(b: u8) -> (r: bool)
    ensures
        r == is_digit(b),
{
    0x30 <= b && b <= 0x39
}

/// Decides whether a byte is a hexadecimal digit.
pub fn byte_is_hex(b: u8) -> (r: bool)
    ensures
        r == is_hex(b),
{
    (0x30 <= b && b <= 0x39) || (0x61 <= b && b <= 0x66) || (0x41 <= b && b <= 0x46)
}

/// The end of the maximal run of class-`c` bytes of `s` that starts at `i`:
/// the least `j >= i` with `j == s.len()` or `s[j]` outside the class.
pub open spec fn run_end(s: Seq<u8>, i: int, c: ByteClass) -> int
    decreases s.len() - i,
{
    if i < 0 || i >= s.len() || !in_class(c, s[i]) {
        i
    } else {
        run_end(s, i + 1, c)
    }
}

pub proof fn lemma_run_end_bounds(s: Seq<u8>, i: int, c: ByteClass)
    requires
        0 <= i <= s.len(),
    ensures
        i <= run_end(s, i, c) <= s.len(),
        forall|k: int| i <= k < run_end(s, i, c) ==> in_class(c, s[k]),
        run_end(s, i, c) < s.len() ==> !in_class(c, s[run_end(s, i, c)]),
    decreases s.len() - i,
{
    if i < s.len() && in_class(c, s[i]) {
        lemma_run_end_bounds(s, i + 1, c);
    }
}

/// A run that ends strictly inside a prefix ends at the same place in any
/// extension of that prefix.
pub proof fn lemma_run_end_agree(s1: Seq<u8>, s2: Seq<u8>, i: int, c: ByteClass)
    requires
        s1.len() <= s2.len(),
        s1 == s2.subrange(0, s1.len() as int),
        0 <= i <= s1.len(),
        run_end(s1, i, c) < s1.len(),
    ensures
        run_end(s2, i, c) == run_end(s1, i, c),
    decreases s1.len() - i,
{
    assert(forall|k: int| 0 <= k < s1.len() ==> s1[k] == s2[k]);
    if i < s1.len() && in_class(c, s1[i]) {
        lemma_run_end_agree(s1, s2, i + 1, c);
    }
}

/// Extending the input can only lengthen a run.
pub proof fn lemma_run_end_ext(s1: Seq<u8>, s2: Seq<u8>, i: int, c: ByteClass)
    requires
        s1.len() <= s2.len(),
        s1 == s2.subrange(0, s1.len() as int),
        0 <= i <= s1.len(),
    ensures
        run_end(s2, i, c) >= run_end(s1, i, c),
    decreases s1.len() - i,
{
    assert(forall|k: int| 0 <= k < s1.len() ==> s1[k] == s2[k]);
    if i < s1.len() && in_class(c, s1[i]) {
        lemma_run_end_ext(s1, s2, i + 1, c);
    } else if i == s1.len() {
        lemma_run_end_bounds(s2, i, c);
    }
}

/// Computes `run_end`.
pub fn scan_run(s: &[u8], i: usize, c: ByteClass) -> (j: usize)
    requires
        i <= s@.len(),
    ensures
        j == run_end(s@, i as int, c),
        i <= j <= s@.len(),
        forall|k: int| i <= k < j ==> in_class(c, s@[k]),
        j < s@.len() ==> !in_class(c, s@[j as int]),
{
    proof {
        lemma_run_end_bounds(s@, i as int, c);
    }
    let mut j: usize = i;
    while j < s.len() && byte_in_class(c, s[j])
        invariant
            i <= j <= s@.len(),
            run_end(s@, i as int, c) == run_end(s@, j as int, c),
        decreases s@.len() - j,
    {
        j = j + 1;
    }
    j
}

} // verus!
