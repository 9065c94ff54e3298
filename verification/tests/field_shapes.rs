//! Individual field shapes, driven through the legacy-dialect parser by
//! substituting one field of a known-good line, and the locator's
//! monotonicity on concrete lines.

use elb_log_parser::alb;
use elb_log_parser::classic_lb::LogParser;

fn classic_line(timestamp: &str, client: &str, backend: &str, received: &str) -> Vec<u8> {
    format!(
        "{timestamp} my-loadbalancer {client} {backend} 0.000073 0.001048 0.000057 200 200 {received} 29 \"GET http://www.example.com:80/ HTTP/1.1\" \"curl/7.38.0\" - -\n"
    )
    .into_bytes()
}

fn ok(line: Vec<u8>) {
    assert!(LogParser::new().parse(&line).is_ok());
}

fn e(line: Vec<u8>) {
    assert!(LogParser::new().parse(&line).is_err());
}

#[test]
fn test_timestamp() {
    ok(classic_line("2021-11-22T01:58:01.532018Z", "1.2.3.4:80", "-", "0"));
    e(classic_line("2021-11-22 01:58:01.532018Z", "1.2.3.4:80", "-", "0"));
    e(classic_line("2021-11-22T01:58:01Z", "1.2.3.4:80", "-", "0"));
}

#[test]
fn test_ip_and_port() {
    ok(classic_line("2021-11-22T01:58:01.532018Z", "127.0.0.1:1234", "-", "0"));
    ok(classic_line("2021-11-22T01:58:01.532018Z", "1.1.1.1:80", "-", "0"));
    ok(classic_line("2021-11-22T01:58:01.532018Z", "255.255.255.255:65432", "-", "0"));

    e(classic_line("2021-11-22T01:58:01.532018Z", "-", "-", "0"));
    e(classic_line("2021-11-22T01:58:01.532018Z", "127.0.0.1", "-", "0"));
    e(classic_line("2021-11-22T01:58:01.532018Z", "127.0.0.1:", "-", "0"));
    e(classic_line("2021-11-22T01:58:01.532018Z", "255.255.255.2555:123", "-", "0"));
    e(classic_line("2021-11-22T01:58:01.532018Z", "255.255.255:123", "-", "0"));

    // The backend field is the one that may be the `-` sentinel.
    ok(classic_line("2021-11-22T01:58:01.532018Z", "1.2.3.4:80", "127.0.0.1:1234", "0"));
    ok(classic_line("2021-11-22T01:58:01.532018Z", "1.2.3.4:80", "-", "0"));
}

#[test]
fn test_int() {
    ok(classic_line("2021-11-22T01:58:01.532018Z", "1.2.3.4:80", "-", "1"));
    ok(classic_line("2021-11-22T01:58:01.532018Z", "1.2.3.4:80", "-", "123"));
    ok(classic_line("2021-11-22T01:58:01.532018Z", "1.2.3.4:80", "-", "00000000"));

    e(classic_line("2021-11-22T01:58:01.532018Z", "1.2.3.4:80", "-", ""));
    e(classic_line("2021-11-22T01:58:01.532018Z", "1.2.3.4:80", "-", "."));
    e(classic_line("2021-11-22T01:58:01.532018Z", "1.2.3.4:80", "-", "-"));
    e(classic_line("2021-11-22T01:58:01.532018Z", "1.2.3.4:80", "-", "-."));
    e(classic_line("2021-11-22T01:58:01.532018Z", "1.2.3.4:80", "-", "-1"));
    e(classic_line("2021-11-22T01:58:01.532018Z", "1.2.3.4:80", "-", "-0"));
    e(classic_line("2021-11-22T01:58:01.532018Z", "1.2.3.4:80", "-", "0.00100"));
    e(classic_line("2021-11-22T01:58:01.532018Z", "1.2.3.4:80", "-", "-0123.450"));
    e(classic_line("2021-11-22T01:58:01.532018Z", "1.2.3.4:80", "-", ".00100"));
    e(classic_line("2021-11-22T01:58:01.532018Z", "1.2.3.4:80", "-", "00100."));
}

#[test]
fn locator_finds_nothing_on_a_valid_line() {
    let line = classic_line("2021-11-22T01:58:01.532018Z", "1.2.3.4:80", "-", "0");
    assert!(LogParser::new().parse(&line).is_ok());
    assert_eq!(LogParser::try_find_failed_position(&line), None);
}

#[test]
fn locator_reports_at_or_before_an_inserted_dead_byte() {
    // Insert a byte that no continuation of its prefix can absorb into an
    // otherwise valid line; the reported offset never lies past it.
    let line: &[u8] = br#"h2 2022-11-01T23:50:27.908737Z app/my-alb/1234567890abcdef 123.123.123.123:65432 10.0.10.0:8080 0.000 0.004 0.000 200 200 288 131 "GET https://example.com HTTP/2.0" "Mozilla/5.0" ECDHE-RSA-AES128-GCM-SHA256 TLSv1.2 arn:aws:elasticloadbalancing:ap-northeast-2:1234567890:targetgroup/mytargetgroup/0123456789abcdef "Root=1-12345678-01234567890123456789" "example.com" "arn:aws:acm:ap-northeast-2:1234567890:certificate/abcdefgh" 5 2022-11-01T23:50:27.904000Z "forward" "-" "-" "10.0.10.0:8080" "200" "-" "-"
"#;
    assert!(alb::LogParser::new().parse(line).is_ok());
    // Position 5 lies inside the timestamp, where only a digit may stand.
    for &k in &[5usize, 10, 20, 65] {
        let mut altered = line.to_vec();
        altered.insert(k, b'*');
        assert!(alb::LogParser::new().parse(&altered).is_err());
        let pos = alb::LogParser::try_find_failed_position(&altered).unwrap();
        assert!(pos <= k, "offset {pos} past insertion {k}");
    }
}
