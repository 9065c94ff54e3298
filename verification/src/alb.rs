//! The modern (application load balancer) dialect: its 32-field line
//! grammar, record type, and parser.

use vstd::prelude::*;

use crate::bytes::{ByteClass, COLON, SP};
use crate::engine::{exec_line, scan_line, LineResult, LineScan};
use crate::fields::Segment;
use crate::span::{ParseLogError, Span};

verus! {

/// The grammar of one modern-dialect line, field by field.
pub open spec fn alb_table() -> Seq<Segment> {
    seq![
        Segment::Scheme,
        Segment::Lit(SP),
        Segment::Timestamp,
        Segment::Lit(SP),
        Segment::Name { slash: true },
        Segment::Lit(SP),
        Segment::Ip,
        Segment::Lit(COLON),
        Segment::Digits { min: 1, max: 5 },
        Segment::Lit(SP),
        Segment::NullableIpPort,
        Segment::Lit(SP),
        Segment::ProcTime,
        Segment::Lit(SP),
        Segment::ProcTime,
        Segment::Lit(SP),
        Segment::ProcTime,
        Segment::Lit(SP),
        Segment::DigitsOrDash { min: 3, max: 3 },
        Segment::Lit(SP),
        Segment::DigitsOrDash { min: 3, max: 3 },
        Segment::Lit(SP),
        Segment::Digits { min: 1, max: usize::MAX },
        Segment::Lit(SP),
        Segment::Digits { min: 1, max: usize::MAX },
        Segment::Lit(SP),
        Segment::Request { classic: false },
        Segment::Lit(SP),
        Segment::QuotedEsc,
        Segment::Lit(SP),
        Segment::Run { class: ByteClass::CipherAlb },
        Segment::Lit(SP),
        Segment::TlsProto,
        Segment::Lit(SP),
        Segment::ArnOrDash,
        Segment::Lit(SP),
        Segment::QuotedSimpleEsc,
        Segment::Lit(SP),
        Segment::QuotedDomain,
        Segment::Lit(SP),
        Segment::QuotedCert,
        Segment::Lit(SP),
        Segment::RulePriority,
        Segment::Lit(SP),
        Segment::Timestamp,
        Segment::Lit(SP),
        Segment::QuotedActions,
        Segment::Lit(SP),
        Segment::QuotedEsc,
        Segment::Lit(SP),
        Segment::QuotedAlphaOrDash,
        Segment::Lit(SP),
        Segment::QuotedIpList,
        Segment::Lit(SP),
        Segment::QuotedStatusList,
        Segment::Lit(SP),
        Segment::QuotedClassification,
        Segment::Lit(SP),
        Segment::QuotedAlphaOrDash,
    ]
}

/// Builds the modern-dialect grammar table.
#[verifier::rlimit(100)]
pub fn alb_table_vec() -> (v: Vec<Segment>)
    ensures
        v@ == alb_table(),
{
    let mut v: Vec<Segment> = Vec::new();
    v.push(Segment::Scheme);
    v.push(Segment::Lit(SP));
    v.push(Segment::Timestamp);
    v.push(Segment::Lit(SP));
    v.push(Segment::Name { slash: true });
    v.push(Segment::Lit(SP));
    v.push(Segment::Ip);
    v.push(Segment::Lit(COLON));
    v.push(Segment::Digits { min: 1, max: 5 });
    v.push(Segment::Lit(SP));
    v.push(Segment::NullableIpPort);
    v.push(Segment::Lit(SP));
    v.push(Segment::ProcTime);
    v.push(Segment::Lit(SP));
    v.push(Segment::ProcTime);
    v.push(Segment::Lit(SP));
    v.push(Segment::ProcTime);
    v.push(Segment::Lit(SP));
    v.push(Segment::DigitsOrDash { min: 3, max: 3 });
    v.push(Segment::Lit(SP));
    v.push(Segment::DigitsOrDash { min: 3, max: 3 });
    v.push(Segment::Lit(SP));
    v.push(Segment::Digits { min: 1, max: usize::MAX });
    v.push(Segment::Lit(SP));
    v.push(Segment::Digits { min: 1, max: usize::MAX });
    v.push(Segment::Lit(SP));
    v.push(Segment::Request { classic: false });
    v.push(Segment::Lit(SP));
    v.push(Segment::QuotedEsc);
    v.push(Segment::Lit(SP));
    v.push(Segment::Run { class: ByteClass::CipherAlb });
    v.push(Segment::Lit(SP));
    v.push(Segment::TlsProto);
    v.push(Segment::Lit(SP));
    v.push(Segment::ArnOrDash);
    v.push(Segment::Lit(SP));
    v.push(Segment::QuotedSimpleEsc);
    v.push(Segment::Lit(SP));
    v.push(Segment::QuotedDomain);
    v.push(Segment::Lit(SP));
    v.push(Segment::QuotedCert);
    v.push(Segment::Lit(SP));
    v.push(Segment::RulePriority);
    v.push(Segment::Lit(SP));
    v.push(Segment::Timestamp);
    v.push(Segment::Lit(SP));
    v.push(Segment::QuotedActions);
    v.push(Segment::Lit(SP));
    v.push(Segment::QuotedEsc);
    v.push(Segment::Lit(SP));
    v.push(Segment::QuotedAlphaOrDash);
    v.push(Segment::Lit(SP));
    v.push(Segment::QuotedIpList);
    v.push(Segment::Lit(SP));
    v.push(Segment::QuotedStatusList);
    v.push(Segment::Lit(SP));
    v.push(Segment::QuotedClassification);
    v.push(Segment::Lit(SP));
    v.push(Segment::QuotedAlphaOrDash);
    proof {
        assert(v@ =~= alb_table());
    }
    v
}

/// One parsed modern-dialect line: every field as a byte range into the
/// original line, in grammar order. The record stays valid only as long as
/// the line's buffer is unchanged.
#[derive(Clone, Copy, PartialEq, Eq, Structural, Debug)]
pub struct Log {
    pub typ: Span,
    pub time: Span,
    pub elb: Span,
    pub client_ip: Span,
    pub client_port: Span,
    pub target_ip_port: Span,
    pub request_processing_time: Span,
    pub target_processing_time: Span,
    pub response_processing_time: Span,
    pub elb_status_code: Span,
    pub target_status_code: Span,
    pub received_bytes: Span,
    pub sent_bytes: Span,
    pub http_method: Span,
    pub url: Span,
    pub http_version: Span,
    pub user_agent: Span,
    pub ssl_cipher: Span,
    pub ssl_protocol: Span,
    pub target_group_arn: Span,
    pub trace_id: Span,
    pub domain_name: Span,
    pub chosen_cert_arn: Span,
    pub matched_rule_priority: Span,
    pub request_creation_time: Span,
    pub actions_executed: Span,
    pub redirect_url: Span,
    pub error_reason: Span,
    pub target_ip_port_list: Span,
    pub target_status_code_list: Span,
    pub classification: Span,
    pub classification_reason: Span,
}

impl Log {
    /// The record holds exactly the captured ranges, in grammar order.
    pub open spec fn matches_caps(self, caps: Seq<(int, int)>) -> bool {
        &&& caps.len() == 32
        &&& self.typ.start as int == caps[0].0 && self.typ.end as int == caps[0].1
        &&& self.time.start as int == caps[1].0 && self.time.end as int == caps[1].1
        &&& self.elb.start as int == caps[2].0 && self.elb.end as int == caps[2].1
        &&& self.client_ip.start as int == caps[3].0 && self.client_ip.end as int == caps[3].1
        &&& self.client_port.start as int == caps[4].0 && self.client_port.end as int == caps[4].1
        &&& self.target_ip_port.start as int == caps[5].0 && self.target_ip_port.end as int
            == caps[5].1
        &&& self.request_processing_time.start as int == caps[6].0
            && self.request_processing_time.end as int == caps[6].1
        &&& self.target_processing_time.start as int == caps[7].0
            && self.target_processing_time.end as int == caps[7].1
        &&& self.response_processing_time.start as int == caps[8].0
            && self.response_processing_time.end as int == caps[8].1
        &&& self.elb_status_code.start as int == caps[9].0 && self.elb_status_code.end as int
            == caps[9].1
        &&& self.target_status_code.start as int == caps[10].0 && self.target_status_code.end as int
            == caps[10].1
        &&& self.received_bytes.start as int == caps[11].0 && self.received_bytes.end as int
            == caps[11].1
        &&& self.sent_bytes.start as int == caps[12].0 && self.sent_bytes.end as int == caps[12].1
        &&& self.http_method.start as int == caps[13].0 && self.http_method.end as int == caps[13].1
        &&& self.url.start as int == caps[14].0 && self.url.end as int == caps[14].1
        &&& self.http_version.start as int == caps[15].0 && self.http_version.end as int
            == caps[15].1
        &&& self.user_agent.start as int == caps[16].0 && self.user_agent.end as int == caps[16].1
        &&& self.ssl_cipher.start as int == caps[17].0 && self.ssl_cipher.end as int == caps[17].1
        &&& self.ssl_protocol.start as int == caps[18].0 && self.ssl_protocol.end as int
            == caps[18].1
        &&& self.target_group_arn.start as int == caps[19].0 && self.target_group_arn.end as int
            == caps[19].1
        &&& self.trace_id.start as int == caps[20].0 && self.trace_id.end as int == caps[20].1
        &&& self.domain_name.start as int == caps[21].0 && self.domain_name.end as int
            == caps[21].1
        &&& self.chosen_cert_arn.start as int == caps[22].0 && self.chosen_cert_arn.end as int
            == caps[22].1
        &&& self.matched_rule_priority.start as int == caps[23].0
            && self.matched_rule_priority.end as int == caps[23].1
        &&& self.request_creation_time.start as int == caps[24].0
            && self.request_creation_time.end as int == caps[24].1
        &&& self.actions_executed.start as int == caps[25].0 && self.actions_executed.end as int
            == caps[25].1
        &&& self.redirect_url.start as int == caps[26].0 && self.redirect_url.end as int
            == caps[26].1
        &&& self.error_reason.start as int == caps[27].0 && self.error_reason.end as int
            == caps[27].1
        &&& self.target_ip_port_list.start as int == caps[28].0
            && self.target_ip_port_list.end as int == caps[28].1
        &&& self.target_status_code_list.start as int == caps[29].0
            && self.target_status_code_list.end as int == caps[29].1
        &&& self.classification.start as int == caps[30].0 && self.classification.end as int
            == caps[30].1
        &&& self.classification_reason.start as int == caps[31].0
            && self.classification_reason.end as int == caps[31].1
    }

    /// The field ranges in grammar order.
    pub open spec fn spans_seq(self) -> Seq<Span> {
        seq![
            self.typ,
            self.time,
            self.elb,
            self.client_ip,
            self.client_port,
            self.target_ip_port,
            self.request_processing_time,
            self.target_processing_time,
            self.response_processing_time,
            self.elb_status_code,
            self.target_status_code,
            self.received_bytes,
            self.sent_bytes,
            self.http_method,
            self.url,
            self.http_version,
            self.user_agent,
            self.ssl_cipher,
            self.ssl_protocol,
            self.target_group_arn,
            self.trace_id,
            self.domain_name,
            self.chosen_cert_arn,
            self.matched_rule_priority,
            self.request_creation_time,
            self.actions_executed,
            self.redirect_url,
            self.error_reason,
            self.target_ip_port_list,
            self.target_status_code_list,
            self.classification,
            self.classification_reason,
        ]
    }

    /// Collects the field ranges in grammar order.
    pub fn spans(&self) -> (v: Vec<Span>)
        ensures
            v@ == self.spans_seq(),
    {
        let mut v: Vec<Span> = Vec::new();
        v.push(self.typ);
        v.push(self.time);
        v.push(self.elb);
        v.push(self.client_ip);
        v.push(self.client_port);
        v.push(self.target_ip_port);
        v.push(self.request_processing_time);
        v.push(self.target_processing_time);
        v.push(self.response_processing_time);
        v.push(self.elb_status_code);
        v.push(self.target_status_code);
        v.push(self.received_bytes);
        v.push(self.sent_bytes);
        v.push(self.http_method);
        v.push(self.url);
        v.push(self.http_version);
        v.push(self.user_agent);
        v.push(self.ssl_cipher);
        v.push(self.ssl_protocol);
        v.push(self.target_group_arn);
        v.push(self.trace_id);
        v.push(self.domain_name);
        v.push(self.chosen_cert_arn);
        v.push(self.matched_rule_priority);
        v.push(self.request_creation_time);
        v.push(self.actions_executed);
        v.push(self.redirect_url);
        v.push(self.error_reason);
        v.push(self.target_ip_port_list);
        v.push(self.target_status_code_list);
        v.push(self.classification);
        v.push(self.classification_reason);
        proof {
            assert(v@ =~= self.spans_seq());
        }
        v
    }

    /// Every range lies inside a line of length `n`, ordered start to end.
    pub open spec fn wf(self, n: int) -> bool {
        &&& self.typ.wf(n) && self.time.wf(n) && self.elb.wf(n) && self.client_ip.wf(n)
        &&& self.client_port.wf(n) && self.target_ip_port.wf(n)
        &&& self.request_processing_time.wf(n) && self.target_processing_time.wf(n)
        &&& self.response_processing_time.wf(n) && self.elb_status_code.wf(n)
        &&& self.target_status_code.wf(n) && self.received_bytes.wf(n) && self.sent_bytes.wf(n)
        &&& self.http_method.wf(n) && self.url.wf(n) && self.http_version.wf(n)
        &&& self.user_agent.wf(n) && self.ssl_cipher.wf(n) && self.ssl_protocol.wf(n)
        &&& self.target_group_arn.wf(n) && self.trace_id.wf(n) && self.domain_name.wf(n)
        &&& self.chosen_cert_arn.wf(n) && self.matched_rule_priority.wf(n)
        &&& self.request_creation_time.wf(n) && self.actions_executed.wf(n)
        &&& self.redirect_url.wf(n) && self.error_reason.wf(n) && self.target_ip_port_list.wf(n)
        &&& self.target_status_code_list.wf(n) && self.classification.wf(n)
        &&& self.classification_reason.wf(n)
    }
}

/// A record that holds the captured ranges reports them, range for
/// range, through its span sequence.
pub proof fn lemma_spans_match_caps(lg: Log, caps: Seq<(int, int)>)
    requires
        lg.matches_caps(caps),
    ensures
        crate::engine::spans_match(lg.spans_seq(), caps),
{
    assert(lg.spans_seq()[0] == lg.typ);
    assert(lg.spans_seq()[1] == lg.time);
    assert(lg.spans_seq()[2] == lg.elb);
    assert(lg.spans_seq()[3] == lg.client_ip);
    assert(lg.spans_seq()[4] == lg.client_port);
    assert(lg.spans_seq()[5] == lg.target_ip_port);
    assert(lg.spans_seq()[6] == lg.request_processing_time);
    assert(lg.spans_seq()[7] == lg.target_processing_time);
    assert(lg.spans_seq()[8] == lg.response_processing_time);
    assert(lg.spans_seq()[9] == lg.elb_status_code);
    assert(lg.spans_seq()[10] == lg.target_status_code);
    assert(lg.spans_seq()[11] == lg.received_bytes);
    assert(lg.spans_seq()[12] == lg.sent_bytes);
    assert(lg.spans_seq()[13] == lg.http_method);
    assert(lg.spans_seq()[14] == lg.url);
    assert(lg.spans_seq()[15] == lg.http_version);
    assert(lg.spans_seq()[16] == lg.user_agent);
    assert(lg.spans_seq()[17] == lg.ssl_cipher);
    assert(lg.spans_seq()[18] == lg.ssl_protocol);
    assert(lg.spans_seq()[19] == lg.target_group_arn);
    assert(lg.spans_seq()[20] == lg.trace_id);
    assert(lg.spans_seq()[21] == lg.domain_name);
    assert(lg.spans_seq()[22] == lg.chosen_cert_arn);
    assert(lg.spans_seq()[23] == lg.matched_rule_priority);
    assert(lg.spans_seq()[24] == lg.request_creation_time);
    assert(lg.spans_seq()[25] == lg.actions_executed);
    assert(lg.spans_seq()[26] == lg.redirect_url);
    assert(lg.spans_seq()[27] == lg.error_reason);
    assert(lg.spans_seq()[28] == lg.target_ip_port_list);
    assert(lg.spans_seq()[29] == lg.target_status_code_list);
    assert(lg.spans_seq()[30] == lg.classification);
    assert(lg.spans_seq()[31] == lg.classification_reason);
    assert forall|k: int| 0 <= k < caps.len() implies lg.spans_seq()[k].start as int == (
    #[trigger] caps[k]).0 && lg.spans_seq()[k].end as int == caps[k].1 by {}
}

/// A well-formed record's span sequence lies inside the line.
pub proof fn lemma_spans_wf(lg: Log, n: int)
    requires
        lg.wf(n),
        0 <= n,
    ensures
        forall|k: int|
            0 <= k < lg.spans_seq().len() ==> (#[trigger] lg.spans_seq()[k]).start
                <= lg.spans_seq()[k].end <= n,
{
    assert(lg.spans_seq()[0] == lg.typ);
    assert(lg.spans_seq()[1] == lg.time);
    assert(lg.spans_seq()[2] == lg.elb);
    assert(lg.spans_seq()[3] == lg.client_ip);
    assert(lg.spans_seq()[4] == lg.client_port);
    assert(lg.spans_seq()[5] == lg.target_ip_port);
    assert(lg.spans_seq()[6] == lg.request_processing_time);
    assert(lg.spans_seq()[7] == lg.target_processing_time);
    assert(lg.spans_seq()[8] == lg.response_processing_time);
    assert(lg.spans_seq()[9] == lg.elb_status_code);
    assert(lg.spans_seq()[10] == lg.target_status_code);
    assert(lg.spans_seq()[11] == lg.received_bytes);
    assert(lg.spans_seq()[12] == lg.sent_bytes);
    assert(lg.spans_seq()[13] == lg.http_method);
    assert(lg.spans_seq()[14] == lg.url);
    assert(lg.spans_seq()[15] == lg.http_version);
    assert(lg.spans_seq()[16] == lg.user_agent);
    assert(lg.spans_seq()[17] == lg.ssl_cipher);
    assert(lg.spans_seq()[18] == lg.ssl_protocol);
    assert(lg.spans_seq()[19] == lg.target_group_arn);
    assert(lg.spans_seq()[20] == lg.trace_id);
    assert(lg.spans_seq()[21] == lg.domain_name);
    assert(lg.spans_seq()[22] == lg.chosen_cert_arn);
    assert(lg.spans_seq()[23] == lg.matched_rule_priority);
    assert(lg.spans_seq()[24] == lg.request_creation_time);
    assert(lg.spans_seq()[25] == lg.actions_executed);
    assert(lg.spans_seq()[26] == lg.redirect_url);
    assert(lg.spans_seq()[27] == lg.error_reason);
    assert(lg.spans_seq()[28] == lg.target_ip_port_list);
    assert(lg.spans_seq()[29] == lg.target_status_code_list);
    assert(lg.spans_seq()[30] == lg.classification);
    assert(lg.spans_seq()[31] == lg.classification_reason);
}

/// The `time` field of an accepted modern line occupies its grammar
/// position — right after the scheme token and one space — and holds a
/// well-formed 27-byte timestamp, `YYYY-MM-DDTHH:MM:SS.ffffffZ`.
pub proof fn lemma_alb_time_shape(s: Seq<u8>)
    requires
        scan_line(alb_table(), s) matches LineScan::Accept { .. },
    ensures
        ({
            let caps = scan_line(alb_table(), s)->Accept_caps;
            caps[1].1 == caps[1].0 + 27 && (forall|j: int|
                0 <= j < 27 ==> #[trigger] crate::fields::ts_char(j, s[caps[1].0 + j]))
        }),
{
    let gs = alb_table();
    assert(gs[0] == Segment::Scheme);
    assert(gs[1] == Segment::Lit(SP));
    assert(gs[2] == Segment::Timestamp);
    crate::engine::lemma_segs_sane(gs, s, 0, 0);
    let t0 = crate::engine::scan_segs_from(gs, s, 0, 0);
    if let crate::fields::SegScan::Next { end: e0, caps: c0 } = crate::fields::seg_scan(
        gs[0],
        s,
        0,
    ) {
        crate::fields::lemma_seg_sane(gs[0], s, 0);
        crate::fields::lemma_seg_ncaps(gs[0], s, 0);
        if let crate::fields::SegScan::Next { end: e1, caps: c1 } = crate::fields::seg_scan(
            gs[1],
            s,
            e0,
        ) {
            crate::fields::lemma_seg_sane(gs[1], s, e0);
            crate::fields::lemma_seg_ncaps(gs[1], s, e0);
            if let crate::fields::SegScan::Next { end: e2, caps: c2 } = crate::fields::seg_scan(
                gs[2],
                s,
                e1,
            ) {
                crate::fields::lemma_seg_sane(gs[2], s, e1);
                crate::fields::lemma_seg_ncaps(gs[2], s, e1);
                crate::fields::lemma_timestamp_shape(s, e1);
                crate::engine::lemma_segs_sane(gs, s, e2, 3);
                let r3 = crate::engine::scan_segs_from(gs, s, e2, 3);
                let r2 = crate::engine::scan_segs_from(gs, s, e1, 2);
                let r1 = crate::engine::scan_segs_from(gs, s, e0, 1);
                if let crate::fields::SegScan::Next { caps: crest, .. } = r3 {
                    assert(r2 matches crate::fields::SegScan::Next { caps, .. } && caps == c2
                        + crest);
                    assert(r1 matches crate::fields::SegScan::Next { caps, .. } && caps == c1 + (c2
                        + crest));
                    assert(t0 matches crate::fields::SegScan::Next { caps, .. } && caps == c0 + (c1
                        + (c2 + crest)));
                    let caps = scan_line(gs, s)->Accept_caps;
                    assert(caps == c0 + (c1 + (c2 + crest)));
                    assert(c0.len() == 1 && c1.len() == 0 && c2.len() == 1);
                    assert(caps[1] == c2[0]);
                }
            }
        }
    }
}

/// The modern-dialect parser: it owns its compiled grammar table.
pub struct LogParser {
    table: Vec<Segment>,
}

impl LogParser {
    /// The parser holds the modern-dialect grammar.
    pub closed spec fn wf(&self) -> bool {
        self.table@ == alb_table()
    }

    /// Compiles the grammar table.
    pub fn new() -> (r: Self)
        ensures
            r.wf(),
    {
        LogParser { table: alb_table_vec() }
    }

    /// Parses one line: a record of byte ranges exactly when the line is in
    /// the grammar, else the rejection carrying the unmodified bytes.
    #[verifier::rlimit(100)]
    pub fn parse(&self, log: &[u8]) -> (r: Result<Log, ParseLogError>)
        requires
            self.wf(),
        ensures
            (r matches Result::Ok(lg) ==> scan_line(alb_table(), log@) matches LineScan::Accept {
                caps,
            } && lg.matches_caps(caps) && lg.wf(log@.len() as int)),
            (r matches Result::Err(e) ==> (!(scan_line(alb_table(), log@)
                matches LineScan::Accept { .. }) && (e matches ParseLogError::InvalidLogFormat(b)
                && b@ == log@))),
    {
        proof {
            crate::engine::lemma_segs_sane(alb_table(), log@, 0, 0);
            assert(crate::engine::ncaps_from(alb_table(), 0) == 32) by {
                reveal_with_fuel(crate::engine::ncaps_from, 60);
            };
        }
        match exec_line(&self.table, log) {
            LineResult::Accept(v) => {
                proof {
                    assert(scan_line(alb_table(), log@) matches LineScan::Accept { .. });
                    let caps = scan_line(alb_table(), log@)->Accept_caps;
                    assert(caps.len() == 32);
                    assert(crate::engine::spans_match(v@, caps));
                    assert(v@.len() == 32);
                }
                let lg =
                    Log {
                        typ: v[0],
                        time: v[1],
                        elb: v[2],
                        client_ip: v[3],
                        client_port: v[4],
                        target_ip_port: v[5],
                        request_processing_time: v[6],
                        target_processing_time: v[7],
                        response_processing_time: v[8],
                        elb_status_code: v[9],
                        target_status_code: v[10],
                        received_bytes: v[11],
                        sent_bytes: v[12],
                        http_method: v[13],
                        url: v[14],
                        http_version: v[15],
                        user_agent: v[16],
                        ssl_cipher: v[17],
                        ssl_protocol: v[18],
                        target_group_arn: v[19],
                        trace_id: v[20],
                        domain_name: v[21],
                        chosen_cert_arn: v[22],
                        matched_rule_priority: v[23],
                        request_creation_time: v[24],
                        actions_executed: v[25],
                        redirect_url: v[26],
                        error_reason: v[27],
                        target_ip_port_list: v[28],
                        target_status_code_list: v[29],
                        classification: v[30],
                        classification_reason: v[31],
                    };
                proof {
                    let caps = scan_line(alb_table(), log@)->Accept_caps;
                    assert(lg.matches_caps(caps));
                    assert(lg.wf(log@.len() as int));
                }
                Result::Ok(lg)
            },
            _ => {
                let mut kept: Vec<u8> = Vec::new();
                let mut k: usize = 0;
                while k < log.len()
                    invariant
                        k <= log@.len(),
                        kept@ == log@.subrange(0, k as int),
                    decreases log@.len() - k,
                {
                    kept.push(log[k]);
                    k = k + 1;
                    proof {
                        assert(kept@ =~= log@.subrange(0, k as int));
                    }
                }
                proof {
                    assert(kept@ =~= log@);
                }
                Result::Err(ParseLogError::InvalidLogFormat(kept))
            },
        }
    }

    /// Walks a line byte by byte under the dialect's grammar and reports the
    /// first byte at which no continuation can lead to a match; the line's
    /// length when it ended while still extendable; nothing when the line
    /// matches.
    pub fn try_find_failed_position(log: &[u8]) -> (r: Option<usize>)
        ensures
            (match crate::engine::locate_spec(alb_table(), log@) {
                Option::Some(x) => r matches Option::Some(y) && y as int == x,
                Option::None => r matches Option::None,
            }),
    {
        let table = alb_table_vec();
        match exec_line(&table, log) {
            LineResult::Accept(_) => Option::None,
            LineResult::Fail(a) => Option::Some(a),
            LineResult::Eoi => Option::Some(log.len()),
        }
    }
}

} // verus!
