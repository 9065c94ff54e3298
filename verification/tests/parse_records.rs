//! Scenario tests for the two record parsers: fields come out as byte-exact
//! ranges of the input line.

use elb_log_parser::alb;
use elb_log_parser::classic_lb;
use elb_log_parser::span::{span_bytes, ParseLogError, Span};

fn field(line: &[u8], sp: Span) -> Vec<u8> {
    span_bytes(line, sp)
}

#[test]
fn alb_scenario_all_fields() {
    let line: &[u8] = br#"h2 2022-11-01T23:50:27.908737Z app/my-alb/1234567890abcdef 123.123.123.123:65432 10.0.10.0:8080 0.000 0.004 0.000 200 200 288 131 "GET https://example.com HTTP/2.0" "Mozilla/5.0" ECDHE-RSA-AES128-GCM-SHA256 TLSv1.2 arn:aws:elasticloadbalancing:ap-northeast-2:1234567890:targetgroup/mytargetgroup/0123456789abcdef "Root=1-12345678-01234567890123456789" "example.com" "arn:aws:acm:ap-northeast-2:1234567890:certificate/abcdefgh" 5 2022-11-01T23:50:27.904000Z "forward" "-" "-" "10.0.10.0:8080" "200" "-" "-"
"#;
    let parser = alb::LogParser::new();
    let log = parser.parse(line).expect("line must parse");
    assert_eq!(field(line, log.typ), b"h2".to_vec());
    assert_eq!(field(line, log.time), b"2022-11-01T23:50:27.908737Z".to_vec());
    assert_eq!(field(line, log.elb), b"app/my-alb/1234567890abcdef".to_vec());
    assert_eq!(field(line, log.client_ip), b"123.123.123.123".to_vec());
    assert_eq!(field(line, log.client_port), b"65432".to_vec());
    assert_eq!(field(line, log.target_ip_port), b"10.0.10.0:8080".to_vec());
    assert_eq!(field(line, log.request_processing_time), b"0.000".to_vec());
    assert_eq!(field(line, log.target_processing_time), b"0.004".to_vec());
    assert_eq!(field(line, log.response_processing_time), b"0.000".to_vec());
    assert_eq!(field(line, log.elb_status_code), b"200".to_vec());
    assert_eq!(field(line, log.target_status_code), b"200".to_vec());
    assert_eq!(field(line, log.received_bytes), b"288".to_vec());
    assert_eq!(field(line, log.sent_bytes), b"131".to_vec());
    assert_eq!(field(line, log.http_method), b"GET".to_vec());
    assert_eq!(field(line, log.url), b"https://example.com".to_vec());
    assert_eq!(field(line, log.http_version), b"HTTP/2.0".to_vec());
    assert_eq!(field(line, log.user_agent), b"Mozilla/5.0".to_vec());
    assert_eq!(field(line, log.ssl_cipher), b"ECDHE-RSA-AES128-GCM-SHA256".to_vec());
    assert_eq!(field(line, log.ssl_protocol), b"TLSv1.2".to_vec());
    assert_eq!(
        field(line, log.target_group_arn),
        b"arn:aws:elasticloadbalancing:ap-northeast-2:1234567890:targetgroup/mytargetgroup/0123456789abcdef".to_vec()
    );
    assert_eq!(field(line, log.trace_id), b"Root=1-12345678-01234567890123456789".to_vec());
    assert_eq!(field(line, log.domain_name), b"example.com".to_vec());
    assert_eq!(
        field(line, log.chosen_cert_arn),
        b"arn:aws:acm:ap-northeast-2:1234567890:certificate/abcdefgh".to_vec()
    );
    assert_eq!(field(line, log.matched_rule_priority), b"5".to_vec());
    assert_eq!(field(line, log.request_creation_time), b"2022-11-01T23:50:27.904000Z".to_vec());
    assert_eq!(field(line, log.actions_executed), b"forward".to_vec());
    assert_eq!(field(line, log.redirect_url), b"-".to_vec());
    assert_eq!(field(line, log.error_reason), b"-".to_vec());
    assert_eq!(field(line, log.target_ip_port_list), b"10.0.10.0:8080".to_vec());
    assert_eq!(field(line, log.target_status_code_list), b"200".to_vec());
    assert_eq!(field(line, log.classification), b"-".to_vec());
    assert_eq!(field(line, log.classification_reason), b"-".to_vec());
}

#[test]
fn classic_scenario_sentinels_kept() {
    let line: &[u8] = br#"2015-03-27T07:06:41.177907Z my-loadbalancer 192.168.131.39:2817 - -1 -1 -1 503 0 0 0 "GET https://www.example.com:443/ HTTP/1.1" "curl/7.38.0" ECDHE-RSA-AES128-GCM-SHA256 TLSv1.2
"#;
    let parser = classic_lb::LogParser::new();
    let log = parser.parse(line).expect("line must parse");
    assert_eq!(field(line, log.backend_ip_port), b"-".to_vec());
    assert_eq!(field(line, log.request_processing_time), b"-1".to_vec());
    assert_eq!(field(line, log.backend_processing_time), b"-1".to_vec());
    assert_eq!(field(line, log.response_processing_time), b"-1".to_vec());
    assert_eq!(field(line, log.elb_status_code), b"503".to_vec());
    assert_eq!(field(line, log.backend_status_code), b"0".to_vec());
}

#[test]
fn alb_missing_user_agent_quote_rejected() {
    // The closing quote of the user-agent field is missing; the line must be
    // rejected whole, with the original bytes kept, and the locator must
    // point at or after the field's opening quote.
    let line: &[u8] = br#"h2 2022-11-01T23:50:27.908737Z app/my-alb/1234567890abcdef 123.123.123.123:65432 10.0.10.0:8080 0.000 0.004 0.000 200 200 288 131 "GET https://example.com HTTP/2.0" "Mozilla/5.0 ECDHE-RSA-AES128-GCM-SHA256 TLSv1.2"#;
    let parser = alb::LogParser::new();
    let err = parser.parse(line).expect_err("line must be rejected");
    let ParseLogError::InvalidLogFormat(kept) = err;
    assert_eq!(kept, line.to_vec());
    let ua_quote = line.windows(2).position(|w| w == b"\"M").unwrap();
    let pos = alb::LogParser::try_find_failed_position(line).expect("failure must localize");
    assert!(pos >= ua_quote);
}
