//! Serialization of a parsed record to one compact JSON object: each field
//! value is the raw bytes of its range, required to be valid UTF-8 and
//! escaped as JSON string content. Key order follows the grammar.

use vstd::prelude::*;

use crate::cli::Type;
use crate::span::{span_bytes, Span};

verus! {

/// A UTF-8 continuation byte.
pub open spec fn utf8_cont(b: u8) -> bool {
    0x80 <= b <= 0xbf
}

/// The bytes of `s` from `i` on form a run of well-formed UTF-8 sequences:
/// ASCII, or a leading byte followed by its continuation bytes, with
/// overlong forms, surrogates and values past U+10FFFF excluded.
pub open spec fn utf8_from(s: Seq<u8>, i: int) -> bool
    decreases s.len() - i,
{
    if i < 0 {
        false
    } else if i >= s.len() {
        true
    } else {
        let b = s[i];
        if b < 0x80 {
            utf8_from(s, i + 1)
        } else if 0xc2 <= b && b <= 0xdf {
            i + 2 <= s.len() && utf8_cont(s[i + 1]) && utf8_from(s, i + 2)
        } else if b == 0xe0 {
            i + 3 <= s.len() && 0xa0 <= s[i + 1] && s[i + 1] <= 0xbf && utf8_cont(s[i + 2])
                && utf8_from(s, i + 3)
        } else if 0xe1 <= b && b <= 0xec {
            i + 3 <= s.len() && utf8_cont(s[i + 1]) && utf8_cont(s[i + 2]) && utf8_from(s, i + 3)
        } else if b == 0xed {
            i + 3 <= s.len() && 0x80 <= s[i + 1] && s[i + 1] <= 0x9f && utf8_cont(s[i + 2])
                && utf8_from(s, i + 3)
        } else if 0xee <= b && b <= 0xef {
            i + 3 <= s.len() && utf8_cont(s[i + 1]) && utf8_cont(s[i + 2]) && utf8_from(s, i + 3)
        } else if b == 0xf0 {
            i + 4 <= s.len() && 0x90 <= s[i + 1] && s[i + 1] <= 0xbf && utf8_cont(s[i + 2])
                && utf8_cont(s[i + 3]) && utf8_from(s, i + 4)
        } else if 0xf1 <= b && b <= 0xf3 {
            i + 4 <= s.len() && utf8_cont(s[i + 1]) && utf8_cont(s[i + 2]) && utf8_cont(s[i + 3])
                && utf8_from(s, i + 4)
        } else if b == 0xf4 {
            i + 4 <= s.len() && 0x80 <= s[i + 1] && s[i + 1] <= 0x8f && utf8_cont(s[i + 2])
                && utf8_cont(s[i + 3]) && utf8_from(s, i + 4)
        } else {
            false
        }
    }
}

/// The whole of `s` is well-formed UTF-8.
pub open spec fn is_utf8(s: Seq<u8>) -> bool {
    utf8_from(s, 0)
}

/// Decides whether a byte is a UTF-8 continuation byte.
fn exec_cont(b: u8) -> (r: bool)
    ensures
        r == utf8_cont(b),
{
    0x80 <= b && b <= 0xbf
}

/// Decides `is_utf8`.
pub fn utf8_check(v: &[u8]) -> (r: bool)
    ensures
        r == is_utf8(v@),
{
    let n = v.len();
    let mut i: usize = 0;
    while i < n
        invariant
            0 <= i <= n,
            n == v@.len(),
            is_utf8(v@) == utf8_from(v@, i as int),
        decreases n - i,
    {
        let b = v[i];
        if b < 0x80 {
            i = i + 1;
        } else if 0xc2 <= b && b <= 0xdf {
            if n - i < 2 || !exec_cont(v[i + 1]) {
                return false;
            }
            i = i + 2;
        } else if b == 0xe0 {
            if n - i < 3 || !(0xa0 <= v[i + 1] && v[i + 1] <= 0xbf) || !exec_cont(v[i + 2]) {
                return false;
            }
            i = i + 3;
        } else if 0xe1 <= b && b <= 0xec {
            if n - i < 3 || !exec_cont(v[i + 1]) || !exec_cont(v[i + 2]) {
                return false;
            }
            i = i + 3;
        } else if b == 0xed {
            if n - i < 3 || !(0x80 <= v[i + 1] && v[i + 1] <= 0x9f) || !exec_cont(v[i + 2]) {
                return false;
            }
            i = i + 3;
        } else if 0xee <= b && b <= 0xef {
            if n - i < 3 || !exec_cont(v[i + 1]) || !exec_cont(v[i + 2]) {
                return false;
            }
            i = i + 3;
        } else if b == 0xf0 {
            if n - i < 4 || !(0x90 <= v[i + 1] && v[i + 1] <= 0xbf) || !exec_cont(v[i + 2])
                || !exec_cont(v[i + 3]) {
                return false;
            }
            i = i + 4;
        } else if 0xf1 <= b && b <= 0xf3 {
            if n - i < 4 || !exec_cont(v[i + 1]) || !exec_cont(v[i + 2]) || !exec_cont(v[i + 3]) {
                return false;
            }
            i = i + 4;
        } else if b == 0xf4 {
            if n - i < 4 || !(0x80 <= v[i + 1] && v[i + 1] <= 0x8f) || !exec_cont(v[i + 2])
                || !exec_cont(v[i + 3]) {
                return false;
            }
            i = i + 4;
        } else {
            return false;
        }
    }
    true
}

/// The low hexadecimal digit for a value under sixteen.
pub open spec fn hex_digit(n: u8) -> u8 {
    if n < 10 {
        (0x30 + n) as u8
    } else {
        (0x57 + n) as u8
    }
}

/// How one byte appears inside a JSON string: quote and backslash escaped,
/// the named control characters short-escaped, other control bytes written
/// as a four-digit escape, and everything else kept as it is.
pub open spec fn esc_byte(b: u8) -> Seq<u8> {
    if b == 0x22 {
        seq![0x5cu8, 0x22]
    } else if b == 0x5c {
        seq![0x5cu8, 0x5c]
    } else if b == 0x08 {
        seq![0x5cu8, 0x62]
    } else if b == 0x09 {
        seq![0x5cu8, 0x74]
    } else if b == 0x0a {
        seq![0x5cu8, 0x6e]
    } else if b == 0x0c {
        seq![0x5cu8, 0x66]
    } else if b == 0x0d {
        seq![0x5cu8, 0x72]
    } else if b < 0x20 {
        seq![0x5cu8, 0x75, 0x30, 0x30, hex_digit(b / 16), hex_digit(b % 16)]
    } else {
        seq![b]
    }
}

/// The JSON string content for the bytes of `s` from `i` on.
pub open spec fn esc_from(s: Seq<u8>, i: int) -> Seq<u8>
    decreases s.len() - i,
{
    if i < 0 || i >= s.len() {
        Seq::empty()
    } else {
        esc_byte(s[i]) + esc_from(s, i + 1)
    }
}

/// The JSON string content for the bytes of `s`.
pub open spec fn json_escape(s: Seq<u8>) -> Seq<u8> {
    esc_from(s, 0)
}

/// Appends the JSON form of one byte.
fn push_escaped(out: &mut Vec<u8>, b: u8)
    ensures
        final (out)@ == old(out)@ + esc_byte(b),
{
    let ghost pre = out@;
    if b == 0x22 {
        out.push(0x5c);
        out.push(0x22);
    } else if b == 0x5c {
        out.push(0x5c);
        out.push(0x5c);
    } else if b == 0x08 {
        out.push(0x5c);
        out.push(0x62);
    } else if b == 0x09 {
        out.push(0x5c);
        out.push(0x74);
    } else if b == 0x0a {
        out.push(0x5c);
        out.push(0x6e);
    } else if b == 0x0c {
        out.push(0x5c);
        out.push(0x66);
    } else if b == 0x0d {
        out.push(0x5c);
        out.push(0x72);
    } else if b < 0x20 {
        out.push(0x5c);
        out.push(0x75);
        out.push(0x30);
        out.push(0x30);
        let hi = b / 16;
        let lo = b % 16;
        out.push(if hi < 10 { 0x30 + hi } else { 0x57 + hi });
        out.push(if lo < 10 { 0x30 + lo } else { 0x57 + lo });
    } else {
        out.push(b);
    }
    proof {
        assert(out@ =~= pre + esc_byte(b));
    }
}

/// Appends the JSON string content of `v`.
fn append_escape(out: &mut Vec<u8>, v: &[u8])
    ensures
        final (out)@ == old(out)@ + json_escape(v@),
{
    let ghost base = out@;
    let mut i: usize = 0;
    proof {
        assert(base + json_escape(v@) =~= base + esc_from(v@, 0));
    }
    while i < v.len()
        invariant
            0 <= i <= v@.len(),
            out@ + esc_from(v@, i as int) == base + json_escape(v@),
        decreases v@.len() - i,
    {
        let ghost pre = out@;
        push_escaped(out, v[i]);
        proof {
            assert((pre + esc_byte(v@[i as int])) + esc_from(v@, i + 1) =~= pre + (esc_byte(
                v@[i as int],
            ) + esc_from(v@, i + 1)));
        }
        i = i + 1;
    }
    proof {
        assert(esc_from(v@, i as int) =~= Seq::<u8>::empty());
        assert(out@ + Seq::<u8>::empty() =~= out@);
    }
}

/// Appends all of `v`.
fn push_all(out: &mut Vec<u8>, v: &Vec<u8>)
    ensures
        final (out)@ == old(out)@ + v@,
{
    let ghost base = out@;
    let mut i: usize = 0;
    while i < v.len()
        invariant
            0 <= i <= v@.len(),
            out@ == base + v@.subrange(0, i as int),
        decreases v@.len() - i,
    {
        out.push(v[i]);
        i = i + 1;
        proof {
            assert(out@ =~= base + v@.subrange(0, i as int));
        }
    }
    proof {
        assert(base + v@.subrange(0, v@.len() as int) =~= base + v@);
    }
}

/// The literal JSON text standing before value `k` of a modern record:
/// the object opener and first key for a `k` of zero, else the quote that
/// closes the previous value followed by key `k`; past the last value,
/// the text that closes the object.
pub open spec fn alb_sep(k: int) -> Seq<u8> {
    if k == 0 {  // {"type":"
        seq![0x7bu8, 0x22, 0x74, 0x79, 0x70, 0x65, 0x22, 0x3a, 0x22]
    } else if k == 1 {  // ","time":"
        seq![0x22u8, 0x2c, 0x22, 0x74, 0x69, 0x6d, 0x65, 0x22, 0x3a, 0x22]
    } else if k == 2 {  // ","elb":"
        seq![0x22u8, 0x2c, 0x22, 0x65, 0x6c, 0x62, 0x22, 0x3a, 0x22]
    } else if k == 3 {  // ","client_ip":"
        seq![0x22u8, 0x2c, 0x22, 0x63, 0x6c, 0x69, 0x65, 0x6e, 0x74, 0x5f, 0x69, 0x70, 0x22, 0x3a, 0x22]
    } else if k == 4 {  // ","client_port":"
        seq![0x22u8, 0x2c, 0x22, 0x63, 0x6c, 0x69, 0x65, 0x6e, 0x74, 0x5f, 0x70, 0x6f, 0x72, 0x74, 0x22, 0x3a, 0x22]
    } else if k == 5 {  // ","target_ip_port":"
        seq![0x22u8, 0x2c, 0x22, 0x74, 0x61, 0x72, 0x67, 0x65, 0x74, 0x5f, 0x69, 0x70, 0x5f, 0x70, 0x6f, 0x72, 0x74, 0x22, 0x3a, 0x22]
    } else if k == 6 {  // ","request_processing_time":"
        seq![0x22u8, 0x2c, 0x22, 0x72, 0x65, 0x71, 0x75, 0x65, 0x73, 0x74, 0x5f, 0x70, 0x72, 0x6f, 0x63, 0x65, 0x73, 0x73, 0x69, 0x6e, 0x67, 0x5f, 0x74, 0x69, 0x6d, 0x65, 0x22, 0x3a, 0x22]
    } else if k == 7 {  // ","target_processing_time":"
        seq![0x22u8, 0x2c, 0x22, 0x74, 0x61, 0x72, 0x67, 0x65, 0x74, 0x5f, 0x70, 0x72, 0x6f, 0x63, 0x65, 0x73, 0x73, 0x69, 0x6e, 0x67, 0x5f, 0x74, 0x69, 0x6d, 0x65, 0x22, 0x3a, 0x22]
    } else if k == 8 {  // ","response_processing_time":"
        seq![0x22u8, 0x2c, 0x22, 0x72, 0x65, 0x73, 0x70, 0x6f, 0x6e, 0x73, 0x65, 0x5f, 0x70, 0x72, 0x6f, 0x63, 0x65, 0x73, 0x73, 0x69, 0x6e, 0x67, 0x5f, 0x74, 0x69, 0x6d, 0x65, 0x22, 0x3a, 0x22]
    } else if k == 9 {  // ","elb_status_code":"
        seq![0x22u8, 0x2c, 0x22, 0x65, 0x6c, 0x62, 0x5f, 0x73, 0x74, 0x61, 0x74, 0x75, 0x73, 0x5f, 0x63, 0x6f, 0x64, 0x65, 0x22, 0x3a, 0x22]
    } else if k == 10 {  // ","target_status_code":"
        seq![0x22u8, 0x2c, 0x22, 0x74, 0x61, 0x72, 0x67, 0x65, 0x74, 0x5f, 0x73, 0x74, 0x61, 0x74, 0x75, 0x73, 0x5f, 0x63, 0x6f, 0x64, 0x65, 0x22, 0x3a, 0x22]
    } else if k == 11 {  // ","received_bytes":"
        seq![0x22u8, 0x2c, 0x22, 0x72, 0x65, 0x63, 0x65, 0x69, 0x76, 0x65, 0x64, 0x5f, 0x62, 0x79, 0x74, 0x65, 0x73, 0x22, 0x3a, 0x22]
    } else if k == 12 {  // ","sent_bytes":"
        seq![0x22u8, 0x2c, 0x22, 0x73, 0x65, 0x6e, 0x74, 0x5f, 0x62, 0x79, 0x74, 0x65, 0x73, 0x22, 0x3a, 0x22]
    } else if k == 13 {  // ","http_method":"
        seq![0x22u8, 0x2c, 0x22, 0x68, 0x74, 0x74, 0x70, 0x5f, 0x6d, 0x65, 0x74, 0x68, 0x6f, 0x64, 0x22, 0x3a, 0x22]
    } else if k == 14 {  // ","url":"
        seq![0x22u8, 0x2c, 0x22, 0x75, 0x72, 0x6c, 0x22, 0x3a, 0x22]
    } else if k == 15 {  // ","http_version":"
        seq![0x22u8, 0x2c, 0x22, 0x68, 0x74, 0x74, 0x70, 0x5f, 0x76, 0x65, 0x72, 0x73, 0x69, 0x6f, 0x6e, 0x22, 0x3a, 0x22]
    } else if k == 16 {  // ","user_agent":"
        seq![0x22u8, 0x2c, 0x22, 0x75, 0x73, 0x65, 0x72, 0x5f, 0x61, 0x67, 0x65, 0x6e, 0x74, 0x22, 0x3a, 0x22]
    } else if k == 17 {  // ","ssl_cipher":"
        seq![0x22u8, 0x2c, 0x22, 0x73, 0x73, 0x6c, 0x5f, 0x63, 0x69, 0x70, 0x68, 0x65, 0x72, 0x22, 0x3a, 0x22]
    } else if k == 18 {  // ","ssl_protocol":"
        seq![0x22u8, 0x2c, 0x22, 0x73, 0x73, 0x6c, 0x5f, 0x70, 0x72, 0x6f, 0x74, 0x6f, 0x63, 0x6f, 0x6c, 0x22, 0x3a, 0x22]
    } else if k == 19 {  // ","target_group_arn":"
        seq![0x22u8, 0x2c, 0x22, 0x74, 0x61, 0x72, 0x67, 0x65, 0x74, 0x5f, 0x67, 0x72, 0x6f, 0x75, 0x70, 0x5f, 0x61, 0x72, 0x6e, 0x22, 0x3a, 0x22]
    } else if k == 20 {  // ","trace_id":"
        seq![0x22u8, 0x2c, 0x22, 0x74, 0x72, 0x61, 0x63, 0x65, 0x5f, 0x69, 0x64, 0x22, 0x3a, 0x22]
    } else if k == 21 {  // ","domain_name":"
        seq![0x22u8, 0x2c, 0x22, 0x64, 0x6f, 0x6d, 0x61, 0x69, 0x6e, 0x5f, 0x6e, 0x61, 0x6d, 0x65, 0x22, 0x3a, 0x22]
    } else if k == 22 {  // ","chosen_cert_arn":"
        seq![0x22u8, 0x2c, 0x22, 0x63, 0x68, 0x6f, 0x73, 0x65, 0x6e, 0x5f, 0x63, 0x65, 0x72, 0x74, 0x5f, 0x61, 0x72, 0x6e, 0x22, 0x3a, 0x22]
    } else if k == 23 {  // ","matched_rule_priority":"
        seq![0x22u8, 0x2c, 0x22, 0x6d, 0x61, 0x74, 0x63, 0x68, 0x65, 0x64, 0x5f, 0x72, 0x75, 0x6c, 0x65, 0x5f, 0x70, 0x72, 0x69, 0x6f, 0x72, 0x69, 0x74, 0x79, 0x22, 0x3a, 0x22]
    } else if k == 24 {  // ","request_creation_time":"
        seq![0x22u8, 0x2c, 0x22, 0x72, 0x65, 0x71, 0x75, 0x65, 0x73, 0x74, 0x5f, 0x63, 0x72, 0x65, 0x61, 0x74, 0x69, 0x6f, 0x6e, 0x5f, 0x74, 0x69, 0x6d, 0x65, 0x22, 0x3a, 0x22]
    } else if k == 25 {  // ","actions_executed":"
        seq![0x22u8, 0x2c, 0x22, 0x61, 0x63, 0x74, 0x69, 0x6f, 0x6e, 0x73, 0x5f, 0x65, 0x78, 0x65, 0x63, 0x75, 0x74, 0x65, 0x64, 0x22, 0x3a, 0x22]
    } else if k == 26 {  // ","redirect_url":"
        seq![0x22u8, 0x2c, 0x22, 0x72, 0x65, 0x64, 0x69, 0x72, 0x65, 0x63, 0x74, 0x5f, 0x75, 0x72, 0x6c, 0x22, 0x3a, 0x22]
    } else if k == 27 {  // ","error_reason":"
        seq![0x22u8, 0x2c, 0x22, 0x65, 0x72, 0x72, 0x6f, 0x72, 0x5f, 0x72, 0x65, 0x61, 0x73, 0x6f, 0x6e, 0x22, 0x3a, 0x22]
    } else if k == 28 {  // ","target_ip_port_list":"
        seq![0x22u8, 0x2c, 0x22, 0x74, 0x61, 0x72, 0x67, 0x65, 0x74, 0x5f, 0x69, 0x70, 0x5f, 0x70, 0x6f, 0x72, 0x74, 0x5f, 0x6c, 0x69, 0x73, 0x74, 0x22, 0x3a, 0x22]
    } else if k == 29 {  // ","target_status_code_list":"
        seq![0x22u8, 0x2c, 0x22, 0x74, 0x61, 0x72, 0x67, 0x65, 0x74, 0x5f, 0x73, 0x74, 0x61, 0x74, 0x75, 0x73, 0x5f, 0x63, 0x6f, 0x64, 0x65, 0x5f, 0x6c, 0x69, 0x73, 0x74, 0x22, 0x3a, 0x22]
    } else if k == 30 {  // ","classification":"
        seq![0x22u8, 0x2c, 0x22, 0x63, 0x6c, 0x61, 0x73, 0x73, 0x69, 0x66, 0x69, 0x63, 0x61, 0x74, 0x69, 0x6f, 0x6e, 0x22, 0x3a, 0x22]
    } else if k == 31 {  // ","classification_reason":"
        seq![0x22u8, 0x2c, 0x22, 0x63, 0x6c, 0x61, 0x73, 0x73, 0x69, 0x66, 0x69, 0x63, 0x61, 0x74, 0x69, 0x6f, 0x6e, 0x5f, 0x72, 0x65, 0x61, 0x73, 0x6f, 0x6e, 0x22, 0x3a, 0x22]
    } else {  // "}
        seq![0x22u8, 0x7d]
    }
}

/// Builds `alb_sep(k)` as bytes.
pub fn alb_sep_vec(k: usize) -> (v: Vec<u8>)
    ensures
        v@ == alb_sep(k as int),
{
    if k < 16 {
        alb_sep_vec_lo(k)
    } else {
        alb_sep_vec_hi(k)
    }
}

#[verifier::rlimit(100)]
fn alb_sep_vec_lo(k: usize) -> (v: Vec<u8>)
    requires
        k < 16,
    ensures
        v@ == alb_sep(k as int),
{
    let mut v: Vec<u8> = Vec::new();
    if k == 0 {
        v.push(0x7b);
        v.push(0x22);
        v.push(0x74);
        v.push(0x79);
        v.push(0x70);
        v.push(0x65);
        v.push(0x22);
        v.push(0x3a);
        v.push(0x22);
    } else if k == 1 {
        v.push(0x22);
        v.push(0x2c);
        v.push(0x22);
        v.push(0x74);
        v.push(0x69);
        v.push(0x6d);
        v.push(0x65);
        v.push(0x22);
        v.push(0x3a);
        v.push(0x22);
    } else if k == 2 {
        v.push(0x22);
        v.push(0x2c);
        v.push(0x22);
        v.push(0x65);
        v.push(0x6c);
        v.push(0x62);
        v.push(0x22);
        v.push(0x3a);
        v.push(0x22);
    } else if k == 3 {
        v.push(0x22);
        v.push(0x2c);
        v.push(0x22);
        v.push(0x63);
        v.push(0x6c);
        v.push(0x69);
        v.push(0x65);
        v.push(0x6e);
        v.push(0x74);
        v.push(0x5f);
        v.push(0x69);
        v.push(0x70);
        v.push(0x22);
        v.push(0x3a);
        v.push(0x22);
    } else if k == 4 {
        v.push(0x22);
        v.push(0x2c);
        v.push(0x22);
        v.push(0x63);
        v.push(0x6c);
        v.push(0x69);
        v.push(0x65);
        v.push(0x6e);
        v.push(0x74);
        v.push(0x5f);
        v.push(0x70);
        v.push(0x6f);
        v.push(0x72);
        v.push(0x74);
        v.push(0x22);
        v.push(0x3a);
        v.push(0x22);
    } else if k == 5 {
        v.push(0x22);
        v.push(0x2c);
        v.push(0x22);
        v.push(0x74);
        v.push(0x61);
        v.push(0x72);
        v.push(0x67);
        v.push(0x65);
        v.push(0x74);
        v.push(0x5f);
        v.push(0x69);
        v.push(0x70);
        v.push(0x5f);
        v.push(0x70);
        v.push(0x6f);
        v.push(0x72);
        v.push(0x74);
        v.push(0x22);
        v.push(0x3a);
        v.push(0x22);
    } else if k == 6 {
        v.push(0x22);
        v.push(0x2c);
        v.push(0x22);
        v.push(0x72);
        v.push(0x65);
        v.push(0x71);
        v.push(0x75);
        v.push(0x65);
        v.push(0x73);
        v.push(0x74);
        v.push(0x5f);
        v.push(0x70);
        v.push(0x72);
        v.push(0x6f);
        v.push(0x63);
        v.push(0x65);
        v.push(0x73);
        v.push(0x73);
        v.push(0x69);
        v.push(0x6e);
        v.push(0x67);
        v.push(0x5f);
        v.push(0x74);
        v.push(0x69);
        v.push(0x6d);
        v.push(0x65);
        v.push(0x22);
        v.push(0x3a);
        v.push(0x22);
    } else if k == 7 {
        v.push(0x22);
        v.push(0x2c);
        v.push(0x22);
        v.push(0x74);
        v.push(0x61);
        v.push(0x72);
        v.push(0x67);
        v.push(0x65);
        v.push(0x74);
        v.push(0x5f);
        v.push(0x70);
        v.push(0x72);
        v.push(0x6f);
        v.push(0x63);
        v.push(0x65);
        v.push(0x73);
        v.push(0x73);
        v.push(0x69);
        v.push(0x6e);
        v.push(0x67);
        v.push(0x5f);
        v.push(0x74);
        v.push(0x69);
        v.push(0x6d);
        v.push(0x65);
        v.push(0x22);
        v.push(0x3a);
        v.push(0x22);
    } else if k == 8 {
        v.push(0x22);
        v.push(0x2c);
        v.push(0x22);
        v.push(0x72);
        v.push(0x65);
        v.push(0x73);
        v.push(0x70);
        v.push(0x6f);
        v.push(0x6e);
        v.push(0x73);
        v.push(0x65);
        v.push(0x5f);
        v.push(0x70);
        v.push(0x72);
        v.push(0x6f);
        v.push(0x63);
        v.push(0x65);
        v.push(0x73);
        v.push(0x73);
        v.push(0x69);
        v.push(0x6e);
        v.push(0x67);
        v.push(0x5f);
        v.push(0x74);
        v.push(0x69);
        v.push(0x6d);
        v.push(0x65);
        v.push(0x22);
        v.push(0x3a);
        v.push(0x22);
    } else if k == 9 {
        v.push(0x22);
        v.push(0x2c);
        v.push(0x22);
        v.push(0x65);
        v.push(0x6c);
        v.push(0x62);
        v.push(0x5f);
        v.push(0x73);
        v.push(0x74);
        v.push(0x61);
        v.push(0x74);
        v.push(0x75);
        v.push(0x73);
        v.push(0x5f);
        v.push(0x63);
        v.push(0x6f);
        v.push(0x64);
        v.push(0x65);
        v.push(0x22);
        v.push(0x3a);
        v.push(0x22);
    } else if k == 10 {
        v.push(0x22);
        v.push(0x2c);
        v.push(0x22);
        v.push(0x74);
        v.push(0x61);
        v.push(0x72);
        v.push(0x67);
        v.push(0x65);
        v.push(0x74);
        v.push(0x5f);
        v.push(0x73);
        v.push(0x74);
        v.push(0x61);
        v.push(0x74);
        v.push(0x75);
        v.push(0x73);
        v.push(0x5f);
        v.push(0x63);
        v.push(0x6f);
        v.push(0x64);
        v.push(0x65);
        v.push(0x22);
        v.push(0x3a);
        v.push(0x22);
    } else if k == 11 {
        v.push(0x22);
        v.push(0x2c);
        v.push(0x22);
        v.push(0x72);
        v.push(0x65);
        v.push(0x63);
        v.push(0x65);
        v.push(0x69);
        v.push(0x76);
        v.push(0x65);
        v.push(0x64);
        v.push(0x5f);
        v.push(0x62);
        v.push(0x79);
        v.push(0x74);
        v.push(0x65);
        v.push(0x73);
        v.push(0x22);
        v.push(0x3a);
        v.push(0x22);
    } else if k == 12 {
        v.push(0x22);
        v.push(0x2c);
        v.push(0x22);
        v.push(0x73);
        v.push(0x65);
        v.push(0x6e);
        v.push(0x74);
        v.push(0x5f);
        v.push(0x62);
        v.push(0x79);
        v.push(0x74);
        v.push(0x65);
        v.push(0x73);
        v.push(0x22);
        v.push(0x3a);
        v.push(0x22);
    } else if k == 13 {
        v.push(0x22);
        v.push(0x2c);
        v.push(0x22);
        v.push(0x68);
        v.push(0x74);
        v.push(0x74);
        v.push(0x70);
        v.push(0x5f);
        v.push(0x6d);
        v.push(0x65);
        v.push(0x74);
        v.push(0x68);
        v.push(0x6f);
        v.push(0x64);
        v.push(0x22);
        v.push(0x3a);
        v.push(0x22);
    } else if k == 14 {
        v.push(0x22);
        v.push(0x2c);
        v.push(0x22);
        v.push(0x75);
        v.push(0x72);
        v.push(0x6c);
        v.push(0x22);
        v.push(0x3a);
        v.push(0x22);
    } else if k == 15 {
        v.push(0x22);
        v.push(0x2c);
        v.push(0x22);
        v.push(0x68);
        v.push(0x74);
        v.push(0x74);
        v.push(0x70);
        v.push(0x5f);
        v.push(0x76);
        v.push(0x65);
        v.push(0x72);
        v.push(0x73);
        v.push(0x69);
        v.push(0x6f);
        v.push(0x6e);
        v.push(0x22);
        v.push(0x3a);
        v.push(0x22);
    }
    proof {
        assert(v@ =~= alb_sep(k as int));
    }
    v
}

#[verifier::rlimit(100)]
fn alb_sep_vec_hi(k: usize) -> (v: Vec<u8>)
    requires
        k >= 16,
    ensures
        v@ == alb_sep(k as int),
{
    let mut v: Vec<u8> = Vec::new();
    if k == 16 {
        v.push(0x22);
        v.push(0x2c);
        v.push(0x22);
        v.push(0x75);
        v.push(0x73);
        v.push(0x65);
        v.push(0x72);
        v.push(0x5f);
        v.push(0x61);
        v.push(0x67);
        v.push(0x65);
        v.push(0x6e);
        v.push(0x74);
        v.push(0x22);
        v.push(0x3a);
        v.push(0x22);
    } else if k == 17 {
        v.push(0x22);
        v.push(0x2c);
        v.push(0x22);
        v.push(0x73);
        v.push(0x73);
        v.push(0x6c);
        v.push(0x5f);
        v.push(0x63);
        v.push(0x69);
        v.push(0x70);
        v.push(0x68);
        v.push(0x65);
        v.push(0x72);
        v.push(0x22);
        v.push(0x3a);
        v.push(0x22);
    } else if k == 18 {
        v.push(0x22);
        v.push(0x2c);
        v.push(0x22);
        v.push(0x73);
        v.push(0x73);
        v.push(0x6c);
        v.push(0x5f);
        v.push(0x70);
        v.push(0x72);
        v.push(0x6f);
        v.push(0x74);
        v.push(0x6f);
        v.push(0x63);
        v.push(0x6f);
        v.push(0x6c);
        v.push(0x22);
        v.push(0x3a);
        v.push(0x22);
    } else if k == 19 {
        v.push(0x22);
        v.push(0x2c);
        v.push(0x22);
        v.push(0x74);
        v.push(0x61);
        v.push(0x72);
        v.push(0x67);
        v.push(0x65);
        v.push(0x74);
        v.push(0x5f);
        v.push(0x67);
        v.push(0x72);
        v.push(0x6f);
        v.push(0x75);
        v.push(0x70);
        v.push(0x5f);
        v.push(0x61);
        v.push(0x72);
        v.push(0x6e);
        v.push(0x22);
        v.push(0x3a);
        v.push(0x22);
    } else if k == 20 {
        v.push(0x22);
        v.push(0x2c);
        v.push(0x22);
        v.push(0x74);
        v.push(0x72);
        v.push(0x61);
        v.push(0x63);
        v.push(0x65);
        v.push(0x5f);
        v.push(0x69);
        v.push(0x64);
        v.push(0x22);
        v.push(0x3a);
        v.push(0x22);
    } else if k == 21 {
        v.push(0x22);
        v.push(0x2c);
        v.push(0x22);
        v.push(0x64);
        v.push(0x6f);
        v.push(0x6d);
        v.push(0x61);
        v.push(0x69);
        v.push(0x6e);
        v.push(0x5f);
        v.push(0x6e);
        v.push(0x61);
        v.push(0x6d);
        v.push(0x65);
        v.push(0x22);
        v.push(0x3a);
        v.push(0x22);
    } else if k == 22 {
        v.push(0x22);
        v.push(0x2c);
        v.push(0x22);
        v.push(0x63);
        v.push(0x68);
        v.push(0x6f);
        v.push(0x73);
        v.push(0x65);
        v.push(0x6e);
        v.push(0x5f);
        v.push(0x63);
        v.push(0x65);
        v.push(0x72);
        v.push(0x74);
        v.push(0x5f);
        v.push(0x61);
        v.push(0x72);
        v.push(0x6e);
        v.push(0x22);
        v.push(0x3a);
        v.push(0x22);
    } else if k == 23 {
        v.push(0x22);
        v.push(0x2c);
        v.push(0x22);
        v.push(0x6d);
        v.push(0x61);
        v.push(0x74);
        v.push(0x63);
        v.push(0x68);
        v.push(0x65);
        v.push(0x64);
        v.push(0x5f);
        v.push(0x72);
        v.push(0x75);
        v.push(0x6c);
        v.push(0x65);
        v.push(0x5f);
        v.push(0x70);
        v.push(0x72);
        v.push(0x69);
        v.push(0x6f);
        v.push(0x72);
        v.push(0x69);
        v.push(0x74);
        v.push(0x79);
        v.push(0x22);
        v.push(0x3a);
        v.push(0x22);
    } else if k == 24 {
        v.push(0x22);
        v.push(0x2c);
        v.push(0x22);
        v.push(0x72);
        v.push(0x65);
        v.push(0x71);
        v.push(0x75);
        v.push(0x65);
        v.push(0x73);
        v.push(0x74);
        v.push(0x5f);
        v.push(0x63);
        v.push(0x72);
        v.push(0x65);
        v.push(0x61);
        v.push(0x74);
        v.push(0x69);
        v.push(0x6f);
        v.push(0x6e);
        v.push(0x5f);
        v.push(0x74);
        v.push(0x69);
        v.push(0x6d);
        v.push(0x65);
        v.push(0x22);
        v.push(0x3a);
        v.push(0x22);
    } else if k == 25 {
        v.push(0x22);
        v.push(0x2c);
        v.push(0x22);
        v.push(0x61);
        v.push(0x63);
        v.push(0x74);
        v.push(0x69);
        v.push(0x6f);
        v.push(0x6e);
        v.push(0x73);
        v.push(0x5f);
        v.push(0x65);
        v.push(0x78);
        v.push(0x65);
        v.push(0x63);
        v.push(0x75);
        v.push(0x74);
        v.push(0x65);
        v.push(0x64);
        v.push(0x22);
        v.push(0x3a);
        v.push(0x22);
    } else if k == 26 {
        v.push(0x22);
        v.push(0x2c);
        v.push(0x22);
        v.push(0x72);
        v.push(0x65);
        v.push(0x64);
        v.push(0x69);
        v.push(0x72);
        v.push(0x65);
        v.push(0x63);
        v.push(0x74);
        v.push(0x5f);
        v.push(0x75);
        v.push(0x72);
        v.push(0x6c);
        v.push(0x22);
        v.push(0x3a);
        v.push(0x22);
    } else if k == 27 {
        v.push(0x22);
        v.push(0x2c);
        v.push(0x22);
        v.push(0x65);
        v.push(0x72);
        v.push(0x72);
        v.push(0x6f);
        v.push(0x72);
        v.push(0x5f);
        v.push(0x72);
        v.push(0x65);
        v.push(0x61);
        v.push(0x73);
        v.push(0x6f);
        v.push(0x6e);
        v.push(0x22);
        v.push(0x3a);
        v.push(0x22);
    } else if k == 28 {
        v.push(0x22);
        v.push(0x2c);
        v.push(0x22);
        v.push(0x74);
        v.push(0x61);
        v.push(0x72);
        v.push(0x67);
        v.push(0x65);
        v.push(0x74);
        v.push(0x5f);
        v.push(0x69);
        v.push(0x70);
        v.push(0x5f);
        v.push(0x70);
        v.push(0x6f);
        v.push(0x72);
        v.push(0x74);
        v.push(0x5f);
        v.push(0x6c);
        v.push(0x69);
        v.push(0x73);
        v.push(0x74);
        v.push(0x22);
        v.push(0x3a);
        v.push(0x22);
    } else if k == 29 {
        v.push(0x22);
        v.push(0x2c);
        v.push(0x22);
        v.push(0x74);
        v.push(0x61);
        v.push(0x72);
        v.push(0x67);
        v.push(0x65);
        v.push(0x74);
        v.push(0x5f);
        v.push(0x73);
        v.push(0x74);
        v.push(0x61);
        v.push(0x74);
        v.push(0x75);
        v.push(0x73);
        v.push(0x5f);
        v.push(0x63);
        v.push(0x6f);
        v.push(0x64);
        v.push(0x65);
        v.push(0x5f);
        v.push(0x6c);
        v.push(0x69);
        v.push(0x73);
        v.push(0x74);
        v.push(0x22);
        v.push(0x3a);
        v.push(0x22);
    } else if k == 30 {
        v.push(0x22);
        v.push(0x2c);
        v.push(0x22);
        v.push(0x63);
        v.push(0x6c);
        v.push(0x61);
        v.push(0x73);
        v.push(0x73);
        v.push(0x69);
        v.push(0x66);
        v.push(0x69);
        v.push(0x63);
        v.push(0x61);
        v.push(0x74);
        v.push(0x69);
        v.push(0x6f);
        v.push(0x6e);
        v.push(0x22);
        v.push(0x3a);
        v.push(0x22);
    } else if k == 31 {
        v.push(0x22);
        v.push(0x2c);
        v.push(0x22);
        v.push(0x63);
        v.push(0x6c);
        v.push(0x61);
        v.push(0x73);
        v.push(0x73);
        v.push(0x69);
        v.push(0x66);
        v.push(0x69);
        v.push(0x63);
        v.push(0x61);
        v.push(0x74);
        v.push(0x69);
        v.push(0x6f);
        v.push(0x6e);
        v.push(0x5f);
        v.push(0x72);
        v.push(0x65);
        v.push(0x61);
        v.push(0x73);
        v.push(0x6f);
        v.push(0x6e);
        v.push(0x22);
        v.push(0x3a);
        v.push(0x22);
    } else {
        v.push(0x22);
        v.push(0x7d);
    }
    proof {
        assert(v@ =~= alb_sep(k as int));
    }
    v
}

/// The literal JSON text standing before value `k` of a legacy record:
/// the object opener and first key for a `k` of zero, else the quote that
/// closes the previous value followed by key `k`; past the last value,
/// the text that closes the object.
pub open spec fn classic_sep(k: int) -> Seq<u8> {
    if k == 0 {  // {"time":"
        seq![0x7bu8, 0x22, 0x74, 0x69, 0x6d, 0x65, 0x22, 0x3a, 0x22]
    } else if k == 1 {  // ","elb":"
        seq![0x22u8, 0x2c, 0x22, 0x65, 0x6c, 0x62, 0x22, 0x3a, 0x22]
    } else if k == 2 {  // ","client_ip":"
        seq![0x22u8, 0x2c, 0x22, 0x63, 0x6c, 0x69, 0x65, 0x6e, 0x74, 0x5f, 0x69, 0x70, 0x22, 0x3a, 0x22]
    } else if k == 3 {  // ","client_port":"
        seq![0x22u8, 0x2c, 0x22, 0x63, 0x6c, 0x69, 0x65, 0x6e, 0x74, 0x5f, 0x70, 0x6f, 0x72, 0x74, 0x22, 0x3a, 0x22]
    } else if k == 4 {  // ","backend_ip_port":"
        seq![0x22u8, 0x2c, 0x22, 0x62, 0x61, 0x63, 0x6b, 0x65, 0x6e, 0x64, 0x5f, 0x69, 0x70, 0x5f, 0x70, 0x6f, 0x72, 0x74, 0x22, 0x3a, 0x22]
    } else if k == 5 {  // ","request_processing_time":"
        seq![0x22u8, 0x2c, 0x22, 0x72, 0x65, 0x71, 0x75, 0x65, 0x73, 0x74, 0x5f, 0x70, 0x72, 0x6f, 0x63, 0x65, 0x73, 0x73, 0x69, 0x6e, 0x67, 0x5f, 0x74, 0x69, 0x6d, 0x65, 0x22, 0x3a, 0x22]
    } else if k == 6 {  // ","backend_processing_time":"
        seq![0x22u8, 0x2c, 0x22, 0x62, 0x61, 0x63, 0x6b, 0x65, 0x6e, 0x64, 0x5f, 0x70, 0x72, 0x6f, 0x63, 0x65, 0x73, 0x73, 0x69, 0x6e, 0x67, 0x5f, 0x74, 0x69, 0x6d, 0x65, 0x22, 0x3a, 0x22]
    } else if k == 7 {  // ","response_processing_time":"
        seq![0x22u8, 0x2c, 0x22, 0x72, 0x65, 0x73, 0x70, 0x6f, 0x6e, 0x73, 0x65, 0x5f, 0x70, 0x72, 0x6f, 0x63, 0x65, 0x73, 0x73, 0x69, 0x6e, 0x67, 0x5f, 0x74, 0x69, 0x6d, 0x65, 0x22, 0x3a, 0x22]
    } else if k == 8 {  // ","elb_status_code":"
        seq![0x22u8, 0x2c, 0x22, 0x65, 0x6c, 0x62, 0x5f, 0x73, 0x74, 0x61, 0x74, 0x75, 0x73, 0x5f, 0x63, 0x6f, 0x64, 0x65, 0x22, 0x3a, 0x22]
    } else if k == 9 {  // ","backend_status_code":"
        seq![0x22u8, 0x2c, 0x22, 0x62, 0x61, 0x63, 0x6b, 0x65, 0x6e, 0x64, 0x5f, 0x73, 0x74, 0x61, 0x74, 0x75, 0x73, 0x5f, 0x63, 0x6f, 0x64, 0x65, 0x22, 0x3a, 0x22]
    } else if k == 10 {  // ","received_bytes":"
        seq![0x22u8, 0x2c, 0x22, 0x72, 0x65, 0x63, 0x65, 0x69, 0x76, 0x65, 0x64, 0x5f, 0x62, 0x79, 0x74, 0x65, 0x73, 0x22, 0x3a, 0x22]
    } else if k == 11 {  // ","sent_bytes":"
        seq![0x22u8, 0x2c, 0x22, 0x73, 0x65, 0x6e, 0x74, 0x5f, 0x62, 0x79, 0x74, 0x65, 0x73, 0x22, 0x3a, 0x22]
    } else if k == 12 {  // ","http_method":"
        seq![0x22u8, 0x2c, 0x22, 0x68, 0x74, 0x74, 0x70, 0x5f, 0x6d, 0x65, 0x74, 0x68, 0x6f, 0x64, 0x22, 0x3a, 0x22]
    } else if k == 13 {  // ","url":"
        seq![0x22u8, 0x2c, 0x22, 0x75, 0x72, 0x6c, 0x22, 0x3a, 0x22]
    } else if k == 14 {  // ","http_version":"
        seq![0x22u8, 0x2c, 0x22, 0x68, 0x74, 0x74, 0x70, 0x5f, 0x76, 0x65, 0x72, 0x73, 0x69, 0x6f, 0x6e, 0x22, 0x3a, 0x22]
    } else if k == 15 {  // ","user_agent":"
        seq![0x22u8, 0x2c, 0x22, 0x75, 0x73, 0x65, 0x72, 0x5f, 0x61, 0x67, 0x65, 0x6e, 0x74, 0x22, 0x3a, 0x22]
    } else if k == 16 {  // ","ssl_cipher":"
        seq![0x22u8, 0x2c, 0x22, 0x73, 0x73, 0x6c, 0x5f, 0x63, 0x69, 0x70, 0x68, 0x65, 0x72, 0x22, 0x3a, 0x22]
    } else if k == 17 {  // ","ssl_protocol":"
        seq![0x22u8, 0x2c, 0x22, 0x73, 0x73, 0x6c, 0x5f, 0x70, 0x72, 0x6f, 0x74, 0x6f, 0x63, 0x6f, 0x6c, 0x22, 0x3a, 0x22]
    } else {  // "}
        seq![0x22u8, 0x7d]
    }
}

/// Builds `classic_sep(k)` as bytes.
pub fn classic_sep_vec(k: usize) -> (v: Vec<u8>)
    ensures
        v@ == classic_sep(k as int),
{
    if k < 9 {
        classic_sep_vec_lo(k)
    } else {
        classic_sep_vec_hi(k)
    }
}

#[verifier::rlimit(100)]
fn classic_sep_vec_lo(k: usize) -> (v: Vec<u8>)
    requires
        k < 9,
    ensures
        v@ == classic_sep(k as int),
{
    let mut v: Vec<u8> = Vec::new();
    if k == 0 {
        v.push(0x7b);
        v.push(0x22);
        v.push(0x74);
        v.push(0x69);
        v.push(0x6d);
        v.push(0x65);
        v.push(0x22);
        v.push(0x3a);
        v.push(0x22);
    } else if k == 1 {
        v.push(0x22);
        v.push(0x2c);
        v.push(0x22);
        v.push(0x65);
        v.push(0x6c);
        v.push(0x62);
        v.push(0x22);
        v.push(0x3a);
        v.push(0x22);
    } else if k == 2 {
        v.push(0x22);
        v.push(0x2c);
        v.push(0x22);
        v.push(0x63);
        v.push(0x6c);
        v.push(0x69);
        v.push(0x65);
        v.push(0x6e);
        v.push(0x74);
        v.push(0x5f);
        v.push(0x69);
        v.push(0x70);
        v.push(0x22);
        v.push(0x3a);
        v.push(0x22);
    } else if k == 3 {
        v.push(0x22);
        v.push(0x2c);
        v.push(0x22);
        v.push(0x63);
        v.push(0x6c);
        v.push(0x69);
        v.push(0x65);
        v.push(0x6e);
        v.push(0x74);
        v.push(0x5f);
        v.push(0x70);
        v.push(0x6f);
        v.push(0x72);
        v.push(0x74);
        v.push(0x22);
        v.push(0x3a);
        v.push(0x22);
    } else if k == 4 {
        v.push(0x22);
        v.push(0x2c);
        v.push(0x22);
        v.push(0x62);
        v.push(0x61);
        v.push(0x63);
        v.push(0x6b);
        v.push(0x65);
        v.push(0x6e);
        v.push(0x64);
        v.push(0x5f);
        v.push(0x69);
        v.push(0x70);
        v.push(0x5f);
        v.push(0x70);
        v.push(0x6f);
        v.push(0x72);
        v.push(0x74);
        v.push(0x22);
        v.push(0x3a);
        v.push(0x22);
    } else if k == 5 {
        v.push(0x22);
        v.push(0x2c);
        v.push(0x22);
        v.push(0x72);
        v.push(0x65);
        v.push(0x71);
        v.push(0x75);
        v.push(0x65);
        v.push(0x73);
        v.push(0x74);
        v.push(0x5f);
        v.push(0x70);
        v.push(0x72);
        v.push(0x6f);
        v.push(0x63);
        v.push(0x65);
        v.push(0x73);
        v.push(0x73);
        v.push(0x69);
        v.push(0x6e);
        v.push(0x67);
        v.push(0x5f);
        v.push(0x74);
        v.push(0x69);
        v.push(0x6d);
        v.push(0x65);
        v.push(0x22);
        v.push(0x3a);
        v.push(0x22);
    } else if k == 6 {
        v.push(0x22);
        v.push(0x2c);
        v.push(0x22);
        v.push(0x62);
        v.push(0x61);
        v.push(0x63);
        v.push(0x6b);
        v.push(0x65);
        v.push(0x6e);
        v.push(0x64);
        v.push(0x5f);
        v.push(0x70);
        v.push(0x72);
        v.push(0x6f);
        v.push(0x63);
        v.push(0x65);
        v.push(0x73);
        v.push(0x73);
        v.push(0x69);
        v.push(0x6e);
        v.push(0x67);
        v.push(0x5f);
        v.push(0x74);
        v.push(0x69);
        v.push(0x6d);
        v.push(0x65);
        v.push(0x22);
        v.push(0x3a);
        v.push(0x22);
    } else if k == 7 {
        v.push(0x22);
        v.push(0x2c);
        v.push(0x22);
        v.push(0x72);
        v.push(0x65);
        v.push(0x73);
        v.push(0x70);
        v.push(0x6f);
        v.push(0x6e);
        v.push(0x73);
        v.push(0x65);
        v.push(0x5f);
        v.push(0x70);
        v.push(0x72);
        v.push(0x6f);
        v.push(0x63);
        v.push(0x65);
        v.push(0x73);
        v.push(0x73);
        v.push(0x69);
        v.push(0x6e);
        v.push(0x67);
        v.push(0x5f);
        v.push(0x74);
        v.push(0x69);
        v.push(0x6d);
        v.push(0x65);
        v.push(0x22);
        v.push(0x3a);
        v.push(0x22);
    } else if k == 8 {
        v.push(0x22);
        v.push(0x2c);
        v.push(0x22);
        v.push(0x65);
        v.push(0x6c);
        v.push(0x62);
        v.push(0x5f);
        v.push(0x73);
        v.push(0x74);
        v.push(0x61);
        v.push(0x74);
        v.push(0x75);
        v.push(0x73);
        v.push(0x5f);
        v.push(0x63);
        v.push(0x6f);
        v.push(0x64);
        v.push(0x65);
        v.push(0x22);
        v.push(0x3a);
        v.push(0x22);
    }
    proof {
        assert(v@ =~= classic_sep(k as int));
    }
    v
}

#[verifier::rlimit(100)]
fn classic_sep_vec_hi(k: usize) -> (v: Vec<u8>)
    requires
        k >= 9,
    ensures
        v@ == classic_sep(k as int),
{
    let mut v: Vec<u8> = Vec::new();
    if k == 9 {
        v.push(0x22);
        v.push(0x2c);
        v.push(0x22);
        v.push(0x62);
        v.push(0x61);
        v.push(0x63);
        v.push(0x6b);
        v.push(0x65);
        v.push(0x6e);
        v.push(0x64);
        v.push(0x5f);
        v.push(0x73);
        v.push(0x74);
        v.push(0x61);
        v.push(0x74);
        v.push(0x75);
        v.push(0x73);
        v.push(0x5f);
        v.push(0x63);
        v.push(0x6f);
        v.push(0x64);
        v.push(0x65);
        v.push(0x22);
        v.push(0x3a);
        v.push(0x22);
    } else if k == 10 {
        v.push(0x22);
        v.push(0x2c);
        v.push(0x22);
        v.push(0x72);
        v.push(0x65);
        v.push(0x63);
        v.push(0x65);
        v.push(0x69);
        v.push(0x76);
        v.push(0x65);
        v.push(0x64);
        v.push(0x5f);
        v.push(0x62);
        v.push(0x79);
        v.push(0x74);
        v.push(0x65);
        v.push(0x73);
        v.push(0x22);
        v.push(0x3a);
        v.push(0x22);
    } else if k == 11 {
        v.push(0x22);
        v.push(0x2c);
        v.push(0x22);
        v.push(0x73);
        v.push(0x65);
        v.push(0x6e);
        v.push(0x74);
        v.push(0x5f);
        v.push(0x62);
        v.push(0x79);
        v.push(0x74);
        v.push(0x65);
        v.push(0x73);
        v.push(0x22);
        v.push(0x3a);
        v.push(0x22);
    } else if k == 12 {
        v.push(0x22);
        v.push(0x2c);
        v.push(0x22);
        v.push(0x68);
        v.push(0x74);
        v.push(0x74);
        v.push(0x70);
        v.push(0x5f);
        v.push(0x6d);
        v.push(0x65);
        v.push(0x74);
        v.push(0x68);
        v.push(0x6f);
        v.push(0x64);
        v.push(0x22);
        v.push(0x3a);
        v.push(0x22);
    } else if k == 13 {
        v.push(0x22);
        v.push(0x2c);
        v.push(0x22);
        v.push(0x75);
        v.push(0x72);
        v.push(0x6c);
        v.push(0x22);
        v.push(0x3a);
        v.push(0x22);
    } else if k == 14 {
        v.push(0x22);
        v.push(0x2c);
        v.push(0x22);
        v.push(0x68);
        v.push(0x74);
        v.push(0x74);
        v.push(0x70);
        v.push(0x5f);
        v.push(0x76);
        v.push(0x65);
        v.push(0x72);
        v.push(0x73);
        v.push(0x69);
        v.push(0x6f);
        v.push(0x6e);
        v.push(0x22);
        v.push(0x3a);
        v.push(0x22);
    } else if k == 15 {
        v.push(0x22);
        v.push(0x2c);
        v.push(0x22);
        v.push(0x75);
        v.push(0x73);
        v.push(0x65);
        v.push(0x72);
        v.push(0x5f);
        v.push(0x61);
        v.push(0x67);
        v.push(0x65);
        v.push(0x6e);
        v.push(0x74);
        v.push(0x22);
        v.push(0x3a);
        v.push(0x22);
    } else if k == 16 {
        v.push(0x22);
        v.push(0x2c);
        v.push(0x22);
        v.push(0x73);
        v.push(0x73);
        v.push(0x6c);
        v.push(0x5f);
        v.push(0x63);
        v.push(0x69);
        v.push(0x70);
        v.push(0x68);
        v.push(0x65);
        v.push(0x72);
        v.push(0x22);
        v.push(0x3a);
        v.push(0x22);
    } else if k == 17 {
        v.push(0x22);
        v.push(0x2c);
        v.push(0x22);
        v.push(0x73);
        v.push(0x73);
        v.push(0x6c);
        v.push(0x5f);
        v.push(0x70);
        v.push(0x72);
        v.push(0x6f);
        v.push(0x74);
        v.push(0x6f);
        v.push(0x63);
        v.push(0x6f);
        v.push(0x6c);
        v.push(0x22);
        v.push(0x3a);
        v.push(0x22);
    } else {
        v.push(0x22);
        v.push(0x7d);
    }
    proof {
        assert(v@ =~= classic_sep(k as int));
    }
    v
}

/// The separator before value `k` under dialect `t`.
pub open spec fn sep_of(t: Type, k: int) -> Seq<u8> {
    match t {
        Type::Alb => alb_sep(k),
        Type::ClassicLb => classic_sep(k),
    }
}

/// Builds `sep_of(t, k)` as bytes.
fn sep_vec(t: Type, k: usize) -> (v: Vec<u8>)
    ensures
        v@ == sep_of(t, k as int),
{
    match t {
        Type::Alb => alb_sep_vec(k),
        Type::ClassicLb => classic_sep_vec(k),
    }
}

/// The JSON text from value `k` on: separator, escaped value, and so forth,
/// ended by the closing quote and brace.
pub open spec fn json_from(t: Type, s: Seq<u8>, sp: Seq<Span>, k: int) -> Seq<u8>
    decreases sp.len() - k,
{
    if k < 0 || k >= sp.len() {
        seq![0x22u8, 0x7d]
    } else {
        sep_of(t, k) + json_escape(s.subrange(sp[k].start as int, sp[k].end as int)) + json_from(
            t,
            s,
            sp,
            k + 1,
        )
    }
}

/// The one compact JSON object for a record whose fields are the ranges
/// `sp` of the line `s`, under dialect `t`.
pub open spec fn json_of(t: Type, s: Seq<u8>, sp: Seq<Span>) -> Seq<u8> {
    json_from(t, s, sp, 0)
}

/// Every field of the record holds well-formed UTF-8, from field `k` on.
pub open spec fn fields_utf8_from(s: Seq<u8>, sp: Seq<Span>, k: int) -> bool
    decreases sp.len() - k,
{
    if k < 0 || k >= sp.len() {
        true
    } else {
        is_utf8(s.subrange(sp[k].start as int, sp[k].end as int)) && fields_utf8_from(s, sp, k + 1)
    }
}

/// Every field of the record holds well-formed UTF-8.
pub open spec fn fields_utf8(s: Seq<u8>, sp: Seq<Span>) -> bool {
    fields_utf8_from(s, sp, 0)
}

/// Writing a field whose bytes are not valid text would corrupt the output
/// stream, so it is refused rather than coerced.
#[derive(Clone, Copy, PartialEq, Eq, Structural, Debug)]
pub enum EncodeError {
    InvalidUtf8,
}

/// Serializes a record to one compact JSON object: exactly the specified
/// bytes when every field is valid UTF-8, and a refusal otherwise.
pub fn to_json(t: Type, line: &[u8], spans: &Vec<Span>) -> (r: Result<Vec<u8>, EncodeError>)
    requires
        forall|k: int|
            0 <= k < spans@.len() ==> (#[trigger] spans@[k]).start <= spans@[k].end <= line@.len(),
    ensures
        r matches Result::Ok(v) ==> v@ == json_of(t, line@, spans@) && fields_utf8(line@, spans@),
        r matches Result::Err(_) ==> !fields_utf8(line@, spans@),
{
    let mut out: Vec<u8> = Vec::new();
    let mut k: usize = 0;
    proof {
        assert(Seq::<u8>::empty() + json_from(t, line@, spans@, 0) =~= json_of(t, line@, spans@));
    }
    while k < spans.len()
        invariant
            0 <= k <= spans@.len(),
            forall|j: int|
                0 <= j < spans@.len() ==> (#[trigger] spans@[j]).start <= spans@[j].end
                    <= line@.len(),
            out@ + json_from(t, line@, spans@, k as int) == json_of(t, line@, spans@),
            fields_utf8(line@, spans@) == fields_utf8_from(line@, spans@, k as int),
        decreases spans@.len() - k,
    {
        let sep = sep_vec(t, k);
        let ghost pre0 = out@;
        push_all(&mut out, &sep);
        let sp = spans[k];
        let fb = span_bytes(line, sp);
        if !utf8_check(fb.as_slice()) {
            return Result::Err(EncodeError::InvalidUtf8);
        }
        let ghost pre1 = out@;
        append_escape(&mut out, fb.as_slice());
        proof {
            let sv = sep_of(t, k as int);
            let ev = json_escape(fb@);
            let rest = json_from(t, line@, spans@, k as int + 1);
            assert(out@ == (pre0 + sv) + ev);
            assert(((pre0 + sv) + ev) + rest =~= pre0 + ((sv + ev) + rest));
        }
        k = k + 1;
    }
    out.push(0x22);
    out.push(0x7d);
    proof {
        let ghost tailpiece = json_from(t, line@, spans@, k as int);
        assert(tailpiece =~= seq![0x22u8, 0x7d]);
        assert(out@ =~= json_of(t, line@, spans@));
    }
    Result::Ok(out)
}

} // verus!
