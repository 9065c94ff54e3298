//! The legacy-dialect parser against reference lines: the emitted JSON must
//! match byte for byte.

use elb_log_parser::cli::Type;
use elb_log_parser::json::to_json;
use elb_log_parser::classic_lb::LogParser;

fn parse_to_json(input: &[u8]) -> String {
    let parser = LogParser::new();
    let log = parser.parse(input).expect("line must parse");
    let spans = log.spans();
    let bytes = to_json(Type::ClassicLb, input, &spans).expect("fields must be valid text");
    String::from_utf8(bytes).expect("output must be valid text")
}

fn t(input: &[u8], expected: &str) {
    assert_eq!(parse_to_json(input), expected);
}

#[test]
fn classic_lb_test_log_parser() {
    t(
        br#"2015-05-13T23:39:43.945958Z my-loadbalancer 192.168.131.39:2817 10.0.0.1:80 0.000073 0.001048 0.000057 200 200 0 29 "GET http://www.example.com:80/ HTTP/1.1" "curl/7.38.0" - -
"#,
        r#"{"time":"2015-05-13T23:39:43.945958Z","elb":"my-loadbalancer","client_ip":"192.168.131.39","client_port":"2817","backend_ip_port":"10.0.0.1:80","request_processing_time":"0.000073","backend_processing_time":"0.001048","response_processing_time":"0.000057","elb_status_code":"200","backend_status_code":"200","received_bytes":"0","sent_bytes":"29","http_method":"GET","url":"http://www.example.com:80/","http_version":"HTTP/1.1","user_agent":"curl/7.38.0","ssl_cipher":"-","ssl_protocol":"-"}"#,
    );
    t(
        br#"2015-05-13T23:39:43.945958Z my-loadbalancer 192.168.131.39:2817 10.0.0.1:80 0.000086 0.001048 0.001337 200 200 0 57 "GET https://www.example.com:443/ HTTP/1.1" "curl/7.38.0" DHE-RSA-AES128-SHA TLSv1.2
"#,
        r#"{"time":"2015-05-13T23:39:43.945958Z","elb":"my-loadbalancer","client_ip":"192.168.131.39","client_port":"2817","backend_ip_port":"10.0.0.1:80","request_processing_time":"0.000086","backend_processing_time":"0.001048","response_processing_time":"0.001337","elb_status_code":"200","backend_status_code":"200","received_bytes":"0","sent_bytes":"57","http_method":"GET","url":"https://www.example.com:443/","http_version":"HTTP/1.1","user_agent":"curl/7.38.0","ssl_cipher":"DHE-RSA-AES128-SHA","ssl_protocol":"TLSv1.2"}"#,
    );
    t(
        br#"2015-05-13T23:39:43.945958Z my-loadbalancer 192.168.131.39:2817 10.0.0.1:80 0.001069 0.000028 0.000041 - - 82 305 "- - - " "-" - -
"#,
        r#"{"time":"2015-05-13T23:39:43.945958Z","elb":"my-loadbalancer","client_ip":"192.168.131.39","client_port":"2817","backend_ip_port":"10.0.0.1:80","request_processing_time":"0.001069","backend_processing_time":"0.000028","response_processing_time":"0.000041","elb_status_code":"-","backend_status_code":"-","received_bytes":"82","sent_bytes":"305","http_method":"-","url":"-","http_version":"- ","user_agent":"-","ssl_cipher":"-","ssl_protocol":"-"}"#,
    );
    t(
        br#"2015-05-13T23:39:43.945958Z my-loadbalancer 192.168.131.39:2817 10.0.0.1:80 0.001065 0.000015 0.000023 - - 57 502 "- - - " "-" ECDHE-ECDSA-AES128-GCM-SHA256 TLSv1.2
"#,
        r#"{"time":"2015-05-13T23:39:43.945958Z","elb":"my-loadbalancer","client_ip":"192.168.131.39","client_port":"2817","backend_ip_port":"10.0.0.1:80","request_processing_time":"0.001065","backend_processing_time":"0.000015","response_processing_time":"0.000023","elb_status_code":"-","backend_status_code":"-","received_bytes":"57","sent_bytes":"502","http_method":"-","url":"-","http_version":"- ","user_agent":"-","ssl_cipher":"ECDHE-ECDSA-AES128-GCM-SHA256","ssl_protocol":"TLSv1.2"}"#,
    );
    t(
        br#"2015-03-27T07:06:41.177907Z my-loadbalancer 192.168.131.39:2817 - -1 -1 -1 503 0 0 0 "GET https://www.example.com:443/ HTTP/1.1" "curl/7.38.0" ECDHE-RSA-AES128-GCM-SHA256 TLSv1.2
"#,
        r#"{"time":"2015-03-27T07:06:41.177907Z","elb":"my-loadbalancer","client_ip":"192.168.131.39","client_port":"2817","backend_ip_port":"-","request_processing_time":"-1","backend_processing_time":"-1","response_processing_time":"-1","elb_status_code":"503","backend_status_code":"0","received_bytes":"0","sent_bytes":"0","http_method":"GET","url":"https://www.example.com:443/","http_version":"HTTP/1.1","user_agent":"curl/7.38.0","ssl_cipher":"ECDHE-RSA-AES128-GCM-SHA256","ssl_protocol":"TLSv1.2"}"#,
    );
}
