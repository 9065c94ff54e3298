//! The legacy (classic load balancer) dialect: its 18-field line grammar,
//! record type, and parser.

use vstd::prelude::*;

use crate::bytes::{ByteClass, COLON, SP};
use crate::engine::{exec_line, scan_line, LineResult, LineScan};
use crate::fields::Segment;
use crate::span::{ParseLogError, Span};

verus! {

/// The grammar of one legacy-dialect line, field by field.
pub open spec fn classic_table() -> Seq<Segment> {
    seq![
        Segment::Timestamp,
        Segment::Lit(SP),
        Segment::Name { slash: false },
        Segment::Lit(SP),
        Segment::Ip,
        Segment::Lit(COLON),
        Segment::Digits { min: 1, max: 5 },
        Segment::Lit(SP),
        Segment::NullableIpPort,
        Segment::Lit(SP),
        Segment::ProcTime,
        Segment::Lit(SP),
        Segment::ProcTime,
        Segment::Lit(SP),
        Segment::ProcTime,
        Segment::Lit(SP),
        Segment::DigitsOrDash { min: 3, max: 3 },
        Segment::Lit(SP),
        Segment::DigitsOrDash { min: 1, max: 3 },
        Segment::Lit(SP),
        Segment::Digits { min: 1, max: usize::MAX },
        Segment::Lit(SP),
        Segment::Digits { min: 1, max: usize::MAX },
        Segment::Lit(SP),
        Segment::Request { classic: true },
        Segment::Lit(SP),
        Segment::QuotedEsc,
        Segment::Lit(SP),
        Segment::Run { class: ByteClass::CipherClassic },
        Segment::Lit(SP),
        Segment::TlsProto,
    ]
}

/// Builds the legacy-dialect grammar table.
#[verifier::rlimit(100)]
pub fn classic_table_vec() -> (v: Vec<Segment>)
    ensures
        v@ == classic_table(),
{
    let mut v: Vec<Segment> = Vec::new();
    v.push(Segment::Timestamp);
    v.push(Segment::Lit(SP));
    v.push(Segment::Name { slash: false });
    v.push(Segment::Lit(SP));
    v.push(Segment::Ip);
    v.push(Segment::Lit(COLON));
    v.push(Segment::Digits { min: 1, max: 5 });
    v.push(Segment::Lit(SP));
    v.push(Segment::NullableIpPort);
    v.push(Segment::Lit(SP));
    v.push(Segment::ProcTime);
    v.push(Segment::Lit(SP));
    v.push(Segment::ProcTime);
    v.push(Segment::Lit(SP));
    v.push(Segment::ProcTime);
    v.push(Segment::Lit(SP));
    v.push(Segment::DigitsOrDash { min: 3, max: 3 });
    v.push(Segment::Lit(SP));
    v.push(Segment::DigitsOrDash { min: 1, max: 3 });
    v.push(Segment::Lit(SP));
    v.push(Segment::Digits { min: 1, max: usize::MAX });
    v.push(Segment::Lit(SP));
    v.push(Segment::Digits { min: 1, max: usize::MAX });
    v.push(Segment::Lit(SP));
    v.push(Segment::Request { classic: true });
    v.push(Segment::Lit(SP));
    v.push(Segment::QuotedEsc);
    v.push(Segment::Lit(SP));
    v.push(Segment::Run { class: ByteClass::CipherClassic });
    v.push(Segment::Lit(SP));
    v.push(Segment::TlsProto);
    proof {
        assert(v@ =~= classic_table());
    }
    v
}

/// One parsed legacy-dialect line: every field as a byte range into the
/// original line, in grammar order. The record stays valid only as long as
/// the line's buffer is unchanged.
#[derive(Clone, Copy, PartialEq, Eq, Structural, Debug)]
pub struct Log {
    pub time: Span,
    pub elb: Span,
    pub client_ip: Span,
    pub client_port: Span,
    pub backend_ip_port: Span,
    pub request_processing_time: Span,
    pub backend_processing_time: Span,
    pub response_processing_time: Span,
    pub elb_status_code: Span,
    pub backend_status_code: Span,
    pub received_bytes: Span,
    pub sent_bytes: Span,
    pub http_method: Span,
    pub url: Span,
    pub http_version: Span,
    pub user_agent: Span,
    pub ssl_cipher: Span,
    pub ssl_protocol: Span,
}

impl Log {
    /// The record holds exactly the captured ranges, in grammar order.
    pub open spec fn matches_caps(self, caps: Seq<(int, int)>) -> bool {
        &&& caps.len() == 18
        &&& self.time.start as int == caps[0].0 && self.time.end as int == caps[0].1
        &&& self.elb.start as int == caps[1].0 && self.elb.end as int == caps[1].1
        &&& self.client_ip.start as int == caps[2].0 && self.client_ip.end as int == caps[2].1
        &&& self.client_port.start as int == caps[3].0 && self.client_port.end as int == caps[3].1
        &&& self.backend_ip_port.start as int == caps[4].0 && self.backend_ip_port.end as int
            == caps[4].1
        &&& self.request_processing_time.start as int == caps[5].0
            && self.request_processing_time.end as int == caps[5].1
        &&& self.backend_processing_time.start as int == caps[6].0
            && self.backend_processing_time.end as int == caps[6].1
        &&& self.response_processing_time.start as int == caps[7].0
            && self.response_processing_time.end as int == caps[7].1
        &&& self.elb_status_code.start as int == caps[8].0 && self.elb_status_code.end as int
            == caps[8].1
        &&& self.backend_status_code.start as int == caps[9].0
            && self.backend_status_code.end as int == caps[9].1
        &&& self.received_bytes.start as int == caps[10].0 && self.received_bytes.end as int
            == caps[10].1
        &&& self.sent_bytes.start as int == caps[11].0 && self.sent_bytes.end as int == caps[11].1
        &&& self.http_method.start as int == caps[12].0 && self.http_method.end as int
            == caps[12].1
        &&& self.url.start as int == caps[13].0 && self.url.end as int == caps[13].1
        &&& self.http_version.start as int == caps[14].0 && self.http_version.end as int
            == caps[14].1
        &&& self.user_agent.start as int == caps[15].0 && self.user_agent.end as int == caps[15].1
        &&& self.ssl_cipher.start as int == caps[16].0 && self.ssl_cipher.end as int == caps[16].1
        &&& self.ssl_protocol.start as int == caps[17].0 && self.ssl_protocol.end as int
            == caps[17].1
    }

    /// The field ranges in grammar order.
    pub open spec fn spans_seq(self) -> Seq<Span> {
        seq![
            self.time,
            self.elb,
            self.client_ip,
            self.client_port,
            self.backend_ip_port,
            self.request_processing_time,
            self.backend_processing_time,
            self.response_processing_time,
            self.elb_status_code,
            self.backend_status_code,
            self.received_bytes,
            self.sent_bytes,
            self.http_method,
            self.url,
            self.http_version,
            self.user_agent,
            self.ssl_cipher,
            self.ssl_protocol,
        ]
    }

    /// Collects the field ranges in grammar order.
    pub fn spans(&self) -> (v: Vec<Span>)
        ensures
            v@ == self.spans_seq(),
    {
        let mut v: Vec<Span> = Vec::new();
        v.push(self.time);
        v.push(self.elb);
        v.push(self.client_ip);
        v.push(self.client_port);
        v.push(self.backend_ip_port);
        v.push(self.request_processing_time);
        v.push(self.backend_processing_time);
        v.push(self.response_processing_time);
        v.push(self.elb_status_code);
        v.push(self.backend_status_code);
        v.push(self.received_bytes);
        v.push(self.sent_bytes);
        v.push(self.http_method);
        v.push(self.url);
        v.push(self.http_version);
        v.push(self.user_agent);
        v.push(self.ssl_cipher);
        v.push(self.ssl_protocol);
        proof {
            assert(v@ =~= self.spans_seq());
        }
        v
    }

    /// Every range lies inside a line of length `n`, ordered start to end.
    pub open spec fn wf(self, n: int) -> bool {
        &&& self.time.wf(n) && self.elb.wf(n) && self.client_ip.wf(n) && self.client_port.wf(n)
        &&& self.backend_ip_port.wf(n) && self.request_processing_time.wf(n)
        &&& self.backend_processing_time.wf(n) && self.response_processing_time.wf(n)
        &&& self.elb_status_code.wf(n) && self.backend_status_code.wf(n)
        &&& self.received_bytes.wf(n) && self.sent_bytes.wf(n) && self.http_method.wf(n)
        &&& self.url.wf(n) && self.http_version.wf(n) && self.user_agent.wf(n)
        &&& self.ssl_cipher.wf(n) && self.ssl_protocol.wf(n)
    }
}

/// A record that holds the captured ranges reports them, range for
/// range, through its span sequence.
pub proof fn lemma_spans_match_caps(lg: Log, caps: Seq<(int, int)>)
    requires
        lg.matches_caps(caps),
    ensures
        crate::engine::spans_match(lg.spans_seq(), caps),
{
    assert(lg.spans_seq()[0] == lg.time);
    assert(lg.spans_seq()[1] == lg.elb);
    assert(lg.spans_seq()[2] == lg.client_ip);
    assert(lg.spans_seq()[3] == lg.client_port);
    assert(lg.spans_seq()[4] == lg.backend_ip_port);
    assert(lg.spans_seq()[5] == lg.request_processing_time);
    assert(lg.spans_seq()[6] == lg.backend_processing_time);
    assert(lg.spans_seq()[7] == lg.response_processing_time);
    assert(lg.spans_seq()[8] == lg.elb_status_code);
    assert(lg.spans_seq()[9] == lg.backend_status_code);
    assert(lg.spans_seq()[10] == lg.received_bytes);
    assert(lg.spans_seq()[11] == lg.sent_bytes);
    assert(lg.spans_seq()[12] == lg.http_method);
    assert(lg.spans_seq()[13] == lg.url);
    assert(lg.spans_seq()[14] == lg.http_version);
    assert(lg.spans_seq()[15] == lg.user_agent);
    assert(lg.spans_seq()[16] == lg.ssl_cipher);
    assert(lg.spans_seq()[17] == lg.ssl_protocol);
    assert forall|k: int| 0 <= k < caps.len() implies lg.spans_seq()[k].start as int == (
    #[trigger] caps[k]).0 && lg.spans_seq()[k].end as int == caps[k].1 by {}
}

/// A well-formed record's span sequence lies inside the line.
pub proof fn lemma_spans_wf(lg: Log, n: int)
    requires
        lg.wf(n),
        0 <= n,
    ensures
        forall|k: int|
            0 <= k < lg.spans_seq().len() ==> (#[trigger] lg.spans_seq()[k]).start
                <= lg.spans_seq()[k].end <= n,
{
    assert(lg.spans_seq()[0] == lg.time);
    assert(lg.spans_seq()[1] == lg.elb);
    assert(lg.spans_seq()[2] == lg.client_ip);
    assert(lg.spans_seq()[3] == lg.client_port);
    assert(lg.spans_seq()[4] == lg.backend_ip_port);
    assert(lg.spans_seq()[5] == lg.request_processing_time);
    assert(lg.spans_seq()[6] == lg.backend_processing_time);
    assert(lg.spans_seq()[7] == lg.response_processing_time);
    assert(lg.spans_seq()[8] == lg.elb_status_code);
    assert(lg.spans_seq()[9] == lg.backend_status_code);
    assert(lg.spans_seq()[10] == lg.received_bytes);
    assert(lg.spans_seq()[11] == lg.sent_bytes);
    assert(lg.spans_seq()[12] == lg.http_method);
    assert(lg.spans_seq()[13] == lg.url);
    assert(lg.spans_seq()[14] == lg.http_version);
    assert(lg.spans_seq()[15] == lg.user_agent);
    assert(lg.spans_seq()[16] == lg.ssl_cipher);
    assert(lg.spans_seq()[17] == lg.ssl_protocol);
}

/// The `time` field of an accepted legacy line opens the line and holds a
/// well-formed 27-byte timestamp, `YYYY-MM-DDTHH:MM:SS.ffffffZ`.
pub proof fn lemma_classic_time_shape(s: Seq<u8>)
    requires
        scan_line(classic_table(), s) matches LineScan::Accept { .. },
    ensures
        ({
            let caps = scan_line(classic_table(), s)->Accept_caps;
            caps[0].0 == 0 && caps[0].1 == 27 && (forall|j: int|
                0 <= j < 27 ==> #[trigger] crate::fields::ts_char(j, s[j]))
        }),
{
    let gs = classic_table();
    assert(gs[0] == Segment::Timestamp);
    crate::engine::lemma_segs_sane(gs, s, 0, 0);
    let t0 = crate::engine::scan_segs_from(gs, s, 0, 0);
    if let crate::fields::SegScan::Next { end: e0, caps: c0 } = crate::fields::seg_scan(
        gs[0],
        s,
        0,
    ) {
        crate::fields::lemma_seg_ncaps(gs[0], s, 0);
        crate::fields::lemma_timestamp_shape(s, 0);
        crate::engine::lemma_segs_sane(gs, s, e0, 1);
        let r1 = crate::engine::scan_segs_from(gs, s, e0, 1);
        if let crate::fields::SegScan::Next { caps: crest, .. } = r1 {
            assert(t0 matches crate::fields::SegScan::Next { caps, .. } && caps == c0 + crest);
            let caps = scan_line(gs, s)->Accept_caps;
            assert(caps[0] == c0[0]);
            assert forall|j: int| 0 <= j < 27 implies #[trigger] crate::fields::ts_char(
                j,
                s[j],
            ) by {
                assert(crate::fields::ts_char(j, s[0 + j]));
            }
        }
    }
}

/// The legacy-dialect parser: it owns its compiled grammar table.
pub struct LogParser {
    table: Vec<Segment>,
}

impl LogParser {
    /// The parser holds the legacy-dialect grammar.
    pub closed spec fn wf(&self) -> bool {
        self.table@ == classic_table()
    }

    /// Compiles the grammar table.
    pub fn new() -> (r: Self)
        ensures
            r.wf(),
    {
        LogParser { table: classic_table_vec() }
    }

    /// Parses one line: a record of byte ranges exactly when the line is in
    /// the grammar, else the rejection carrying the unmodified bytes.
    #[verifier::rlimit(100)]
    pub fn parse(&self, log: &[u8]) -> (r: Result<Log, ParseLogError>)
        requires
            self.wf(),
        ensures
            (r matches Result::Ok(lg) ==> scan_line(classic_table(), log@)
                matches LineScan::Accept { caps } && lg.matches_caps(caps) && lg.wf(
                log@.len() as int,
            )),
            (r matches Result::Err(e) ==> (!(scan_line(classic_table(), log@)
                matches LineScan::Accept { .. }) && (e matches ParseLogError::InvalidLogFormat(b)
                && b@ == log@))),
    {
        proof {
            crate::engine::lemma_segs_sane(classic_table(), log@, 0, 0);
            assert(crate::engine::ncaps_from(classic_table(), 0) == 18) by {
                reveal_with_fuel(crate::engine::ncaps_from, 32);
            };
        }
        match exec_line(&self.table, log) {
            LineResult::Accept(v) => {
                proof {
                    assert(scan_line(classic_table(), log@) matches LineScan::Accept { .. });
                    let caps = scan_line(classic_table(), log@)->Accept_caps;
                    assert(caps.len() == 18);
                    assert(crate::engine::spans_match(v@, caps));
                    assert(v@.len() == 18);
                }
                let lg =
                    Log {
                        time: v[0],
                        elb: v[1],
                        client_ip: v[2],
                        client_port: v[3],
                        backend_ip_port: v[4],
                        request_processing_time: v[5],
                        backend_processing_time: v[6],
                        response_processing_time: v[7],
                        elb_status_code: v[8],
                        backend_status_code: v[9],
                        received_bytes: v[10],
                        sent_bytes: v[11],
                        http_method: v[12],
                        url: v[13],
                        http_version: v[14],
                        user_agent: v[15],
                        ssl_cipher: v[16],
                        ssl_protocol: v[17],
                    };
                proof {
                    let caps = scan_line(classic_table(), log@)->Accept_caps;
                    assert(lg.matches_caps(caps));
                    assert(lg.wf(log@.len() as int));
                }
                Result::Ok(lg)
            },
            _ => {
                let mut kept: Vec<u8> = Vec::new();
                let mut k: usize = 0;
                while k < log.len()
                    invariant
                        k <= log@.len(),
                        kept@ == log@.subrange(0, k as int),
                    decreases log@.len() - k,
                {
                    kept.push(log[k]);
                    k = k + 1;
                    proof {
                        assert(kept@ =~= log@.subrange(0, k as int));
                    }
                }
                proof {
                    assert(kept@ =~= log@);
                }
                Result::Err(ParseLogError::InvalidLogFormat(kept))
            },
        }
    }

    /// Walks a line byte by byte under the dialect's grammar and reports the
    /// first byte at which no continuation can lead to a match; the line's
    /// length when it ended while still extendable; nothing when the line
    /// matches.
    pub fn try_find_failed_position(log: &[u8]) -> (r: Option<usize>)
        ensures
            (match crate::engine::locate_spec(classic_table(), log@) {
                Option::Some(x) => r matches Option::Some(y) && y as int == x,
                Option::None => r matches Option::None,
            }),
    {
        let table = classic_table_vec();
        match exec_line(&table, log) {
            LineResult::Accept(_) => Option::None,
            LineResult::Fail(a) => Option::Some(a),
            LineResult::Eoi => Option::Some(log.len()),
        }
    }
}

} // verus!
