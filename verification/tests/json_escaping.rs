//! JSON string escaping of field values: quotes and backslashes become
//! two-character escapes, control bytes a four-digit escape, and invalid
//! text is refused rather than coerced.

use elb_log_parser::classic_lb::LogParser;
use elb_log_parser::cli::Type;
use elb_log_parser::json::{to_json, utf8_check, EncodeError};

fn line_with_url_byte(b: u8) -> Vec<u8> {
    let mut line = br#"2015-05-13T23:39:43.945958Z my-loadbalancer 192.168.131.39:2817 10.0.0.1:80 0.000073 0.001048 0.000057 200 200 0 29 "GET http://www.example.com:80/ HTTP/1.1" "curl/7.38.0" - -
"#.to_vec();
    let at = line.windows(4).position(|w| w == b"http").unwrap();
    line[at] = b;
    line
}

#[test]
fn control_byte_is_escaped_four_wide() {
    let line = line_with_url_byte(0x01);
    let log = LogParser::new().parse(&line).expect("line must parse");
    let spans = log.spans();
    let json = to_json(Type::ClassicLb, &line, &spans).expect("fields are valid text");
    let text = String::from_utf8(json).unwrap();
    assert!(text.contains(r#""url":"\u0001ttp://www.example.com:80/""#));
}

#[test]
fn invalid_text_is_refused() {
    let line = line_with_url_byte(0xff);
    let log = LogParser::new().parse(&line).expect("the grammar accepts the byte");
    let spans = log.spans();
    let r = to_json(Type::ClassicLb, &line, &spans);
    assert_eq!(r, Err(EncodeError::InvalidUtf8));
}

#[test]
fn utf8_checker_agrees_with_known_shapes() {
    assert!(utf8_check(b"plain ascii"));
    assert!(utf8_check("snowman \u{2603} and \u{1f600}".as_bytes()));
    assert!(!utf8_check(&[0xff]));
    assert!(!utf8_check(&[0xc2]));
    assert!(!utf8_check(&[0xe0, 0x80, 0x80]));
    assert!(!utf8_check(&[0xed, 0xa0, 0x80]));
    assert!(!utf8_check(&[0xf5, 0x80, 0x80, 0x80]));
    assert!(utf8_check(&[0xf4, 0x8f, 0xbf, 0xbf]));
}
