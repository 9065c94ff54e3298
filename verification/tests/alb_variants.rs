//! Modern-dialect grammar branches that the reference lines leave
//! untouched: the remaining scheme tokens, the `-1` rule priority,
//! multi-element target lists, and the other classification words.

use elb_log_parser::alb::LogParser;
use elb_log_parser::span::span_bytes;

fn alb_line(scheme: &str, priority: &str, ip_list: &str, st_list: &str, class: &str) -> Vec<u8> {
    format!(
        "{scheme} 2022-11-01T23:50:27.908737Z app/my-alb/1234567890abcdef 123.123.123.123:65432 10.0.10.0:8080 0.000 0.004 0.000 200 200 288 131 \"GET https://example.com HTTP/2.0\" \"curl/7.38.0\" ECDHE-RSA-AES128-GCM-SHA256 TLSv1.2 arn:aws:elasticloadbalancing:ap-northeast-2:1234567890:targetgroup/tg/0123456789abcdef \"Root=1-12345678-01234567890123456789\" \"example.com\" \"session-reused\" {priority} 2022-11-01T23:50:27.904000Z \"forward\" \"-\" \"-\" \"{ip_list}\" \"{st_list}\" \"{class}\" \"TooManyFields\"\n"
    )
    .into_bytes()
}

#[test]
fn every_scheme_token_parses() {
    for scheme in ["http", "https", "h2", "grpcs", "ws", "wss"] {
        let line = alb_line(scheme, "5", "10.0.10.0:8080", "200", "Acceptable");
        let log = LogParser::new().parse(&line).expect("scheme must parse");
        assert_eq!(span_bytes(&line, log.typ), scheme.as_bytes().to_vec());
    }
    for scheme in ["hx", "wx", "htx", "httq", "grpc", "h", "x"] {
        let line = alb_line(scheme, "5", "10.0.10.0:8080", "200", "Acceptable");
        assert!(LogParser::new().parse(&line).is_err(), "{scheme} must be rejected");
    }
}

#[test]
fn rule_priority_sentinel_minus_one() {
    let line = alb_line("h2", "-1", "10.0.10.0:8080", "200", "Acceptable");
    let log = LogParser::new().parse(&line).expect("priority -1 must parse");
    assert_eq!(span_bytes(&line, log.matched_rule_priority), b"-1".to_vec());
    assert!(LogParser::new().parse(&alb_line("h2", "-2", "10.0.10.0:8080", "200", "-")).is_err());
    assert!(
        LogParser::new().parse(&alb_line("h2", "123456", "10.0.10.0:8080", "200", "-")).is_err()
    );
}

#[test]
fn multi_element_target_lists() {
    let line = alb_line("h2", "5", "10.0.1.1:80 10.0.1.2:8080 10.0.1.3:443", "200 502 301", "-");
    let log = LogParser::new().parse(&line).expect("lists must parse");
    assert_eq!(
        span_bytes(&line, log.target_ip_port_list),
        b"10.0.1.1:80 10.0.1.2:8080 10.0.1.3:443".to_vec()
    );
    assert_eq!(span_bytes(&line, log.target_status_code_list), b"200 502 301".to_vec());

    // A group of the wrong width, and a trailing separator, are rejected.
    assert!(LogParser::new().parse(&alb_line("h2", "5", "10.0.1.1:80", "20", "-")).is_err());
    assert!(LogParser::new().parse(&alb_line("h2", "5", "10.0.1.1:80 ", "200", "-")).is_err());
}

#[test]
fn every_classification_word_parses() {
    for class in ["Acceptable", "Ambiguous", "Severe", "-"] {
        let line = alb_line("h2", "5", "10.0.10.0:8080", "200", class);
        let log = LogParser::new().parse(&line).expect("classification must parse");
        assert_eq!(span_bytes(&line, log.classification), class.as_bytes().to_vec());
    }
    for class in ["Acceptible", "Sever", "severe", "A"] {
        let line = alb_line("h2", "5", "10.0.10.0:8080", "200", class);
        assert!(LogParser::new().parse(&line).is_err(), "{class} must be rejected");
    }
}
