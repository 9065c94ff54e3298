//! Batches under both tolerance policies, file filtering, and the
//! diagnostics a rejected line produces.

use elb_log_parser::cli::{Config, Type};
use elb_log_parser::pipeline::{wants_file, LineOutcome, Processor};
use elb_log_parser::report::render_diagnostic;

fn valid_classic_line() -> Vec<u8> {
    br#"2015-05-13T23:39:43.945958Z my-loadbalancer 192.168.131.39:2817 10.0.0.1:80 0.000073 0.001048 0.000057 200 200 0 29 "GET http://www.example.com:80/ HTTP/1.1" "curl/7.38.0" - -
"#.to_vec()
}

fn invalid_line() -> Vec<u8> {
    b"this is no log line\n".to_vec()
}

#[test]
fn tolerant_batch_keeps_going() {
    let p = Processor::new(Type::ClassicLb);
    let lines = vec![valid_classic_line(), invalid_line(), valid_classic_line()];
    let out = p.process_lines(&lines, Config { skip_parse_errors: true }, false);
    assert!(out.ok);
    assert_eq!(out.outs.len(), 2);
    assert_eq!(out.errs.len(), 1);
    let expected = br#"{"time":"2015-05-13T23:39:43.945958Z","elb":"my-loadbalancer","client_ip":"192.168.131.39","client_port":"2817","backend_ip_port":"10.0.0.1:80","request_processing_time":"0.000073","backend_processing_time":"0.001048","response_processing_time":"0.000057","elb_status_code":"200","backend_status_code":"200","received_bytes":"0","sent_bytes":"29","http_method":"GET","url":"http://www.example.com:80/","http_version":"HTTP/1.1","user_agent":"curl/7.38.0","ssl_cipher":"-","ssl_protocol":"-"}"#;
    assert_eq!(out.outs[0], expected.to_vec());
    assert_eq!(out.outs[1], expected.to_vec());
}

#[test]
fn strict_batch_stops_at_first_bad_line() {
    let p = Processor::new(Type::ClassicLb);
    let lines = vec![valid_classic_line(), invalid_line(), valid_classic_line()];
    let out = p.process_lines(&lines, Config { skip_parse_errors: false }, false);
    assert!(!out.ok);
    assert_eq!(out.outs.len(), 1);
    assert_eq!(out.errs.len(), 1);
}

#[test]
fn plain_diagnostic_bytes() {
    let line = invalid_line();
    let skip = render_diagnostic(Type::ClassicLb, &line, true, false);
    let mut want = b"Skipping error: Invalid log line: ".to_vec();
    want.extend_from_slice(&line);
    want.push(b'\n');
    assert_eq!(skip, want);

    let strict = render_diagnostic(Type::ClassicLb, &line, false, false);
    let mut want2 = b"Error: Invalid log line: ".to_vec();
    want2.extend_from_slice(&line);
    want2.push(b'\n');
    assert_eq!(strict, want2);
}

#[test]
fn terminal_diagnostic_highlights_offending_byte() {
    // The legacy grammar expects a digit or a dash at the start; the first
    // byte of this line is already dead, so the highlighted byte is the
    // first one.
    let line = b"this is no log line".to_vec();
    let d = render_diagnostic(Type::ClassicLb, &line, true, true);
    let text = String::from_utf8(d).unwrap();
    assert!(text.starts_with("\u{1b}[33mFailed to parse following line, skipping:\u{1b}[0m\n    "));
    assert!(text.contains("\u{1b}[1;91;4;31mt\u{1b}[0m"));
    assert!(text.ends_with("\n\n"));
}

#[test]
fn terminal_diagnostic_notes_truncated_line() {
    // A valid prefix of a legacy line that simply stops: every byte is
    // consistent, so the locator reports the end of the input.
    let line = b"2015-05-13T23:39:43.945958Z my-loadbalancer 192.168.131.3".to_vec();
    let d = render_diagnostic(Type::ClassicLb, &line, false, true);
    let text = String::from_utf8(d).unwrap();
    assert!(text.contains("(expected next input, but received none)"));
}

#[test]
fn bad_text_field_is_fatal() {
    // A parsed line whose URL field holds an invalid UTF-8 byte: the
    // grammar accepts the byte, but serialization must refuse it.
    let mut line = valid_classic_line();
    let at = line.windows(4).position(|w| w == b"http").unwrap();
    line[at] = 0xff;
    let p = Processor::new(Type::ClassicLb);
    let out = p.process_line(&line, Config { skip_parse_errors: true }, false);
    assert!(matches!(out, LineOutcome::BadText));
}

#[test]
fn file_filter_checks_suffix_kind_and_size() {
    assert!(wants_file(Type::Alb, b"a/b/x.log.gz", true, 10));
    assert!(!wants_file(Type::Alb, b"a/b/x.log", true, 10));
    assert!(!wants_file(Type::Alb, b"a/b/x.log.gz", false, 10));
    assert!(!wants_file(Type::Alb, b"a/b/x.log.gz", true, 0));
    assert!(wants_file(Type::ClassicLb, b"x.log", true, 1));
    assert!(!wants_file(Type::ClassicLb, b"x.log.gz", true, 1));
    assert!(!wants_file(Type::ClassicLb, b"log", true, 1));
}
