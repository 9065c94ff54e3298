//! The modern-dialect parser against reference lines: the emitted JSON must
//! match byte for byte.

use elb_log_parser::cli::Type;
use elb_log_parser::json::to_json;
use elb_log_parser::alb::LogParser;

fn parse_to_json(input: &[u8]) -> String {
    let parser = LogParser::new();
    let log = parser.parse(input).expect("line must parse");
    let spans = log.spans();
    let bytes = to_json(Type::Alb, input, &spans).expect("fields must be valid text");
    String::from_utf8(bytes).expect("output must be valid text")
}

fn t(input: &[u8], expected: &str) {
    assert_eq!(parse_to_json(input), expected);
}

#[test]
fn alb_test_log_parser() {
    t(
        br#"h2 2022-11-01T23:50:27.908737Z app/my-alb/1234567890abcdef 123.123.123.123:65432 10.0.10.0:8080 0.000 0.004 0.000 200 200 288 131 "GET https://example.com HTTP/2.0" "Mozilla/5.0 (iPhone; CPU iPhone OS 15_6_1 like Mac OS X) AppleWebKit/605.1.15 (KHTML, like Gecko) Mobile/15E148 MYAPP/4.2.1 iOS/15.6.1 iPhone12,3" ECDHE-RSA-AES128-GCM-SHA256 TLSv1.2 arn:aws:elasticloadbalancing:ap-northeast-2:1234567890:targetgroup/mytargetgroup/0123456789abcdef "Root=1-12345678-01234567890123456789" "example.com" "arn:aws:acm:ap-northeast-2:1234567890:certificate/abcdefgh-abcd-efgh-ijkl-0123456789" 5 2022-11-01T23:50:27.904000Z "forward" "-" "-" "10.0.10.0:8080" "200" "-" "-"
"#,
        r#"{"type":"h2","time":"2022-11-01T23:50:27.908737Z","elb":"app/my-alb/1234567890abcdef","client_ip":"123.123.123.123","client_port":"65432","target_ip_port":"10.0.10.0:8080","request_processing_time":"0.000","target_processing_time":"0.004","response_processing_time":"0.000","elb_status_code":"200","target_status_code":"200","received_bytes":"288","sent_bytes":"131","http_method":"GET","url":"https://example.com","http_version":"HTTP/2.0","user_agent":"Mozilla/5.0 (iPhone; CPU iPhone OS 15_6_1 like Mac OS X) AppleWebKit/605.1.15 (KHTML, like Gecko) Mobile/15E148 MYAPP/4.2.1 iOS/15.6.1 iPhone12,3","ssl_cipher":"ECDHE-RSA-AES128-GCM-SHA256","ssl_protocol":"TLSv1.2","target_group_arn":"arn:aws:elasticloadbalancing:ap-northeast-2:1234567890:targetgroup/mytargetgroup/0123456789abcdef","trace_id":"Root=1-12345678-01234567890123456789","domain_name":"example.com","chosen_cert_arn":"arn:aws:acm:ap-northeast-2:1234567890:certificate/abcdefgh-abcd-efgh-ijkl-0123456789","matched_rule_priority":"5","request_creation_time":"2022-11-01T23:50:27.904000Z","actions_executed":"forward","redirect_url":"-","error_reason":"-","target_ip_port_list":"10.0.10.0:8080","target_status_code_list":"200","classification":"-","classification_reason":"-"}"#,
    );
    t(
        br#"http 2022-11-03T21:10:11.091427Z app/my-alb/1234567890abcdef 123.123.123.123:65432 - -1 -1 -1 400 - 0 272 "- http://example.com:8080- -" "-" - - - "-" "-" "-" - 2022-11-03T21:10:10.933000Z "-" "-" "-" "-" "-" "-" "-""#,
        r#"{"type":"http","time":"2022-11-03T21:10:11.091427Z","elb":"app/my-alb/1234567890abcdef","client_ip":"123.123.123.123","client_port":"65432","target_ip_port":"-","request_processing_time":"-1","target_processing_time":"-1","response_processing_time":"-1","elb_status_code":"400","target_status_code":"-","received_bytes":"0","sent_bytes":"272","http_method":"-","url":"http://example.com:8080-","http_version":"-","user_agent":"-","ssl_cipher":"-","ssl_protocol":"-","target_group_arn":"-","trace_id":"-","domain_name":"-","chosen_cert_arn":"-","matched_rule_priority":"-","request_creation_time":"2022-11-03T21:10:10.933000Z","actions_executed":"-","redirect_url":"-","error_reason":"-","target_ip_port_list":"-","target_status_code_list":"-","classification":"-","classification_reason":"-"}"#,
    );
    t(
        br#"h2 2022-11-03T10:05:44.872310Z app/myalb/0123456789012 123.123.123.123:54321 10.0.10.0:8080 0.000 0.003 0.000 200 200 285 131 "GET https://example.com:443/api/ HTTP/2.0" "Mozilla/5.0 (iPhone; CPU iPhone OS 16_0 like Mac OS X) AppleWebKit/605.1.15 (KHTML, like Gecko) Mobile/15E148 MYAPP/4.2.1 iOS/16.0 iPhone13,1" ECDHE-RSA-AES128-GCM-SHA256 TLSv1.2 arn:aws:elasticloadbalancing:ap-northeast-2:0123456789:targetgroup/mytargetgrouop/01234567890 "Root=1-abcdefgh-abcd-efgh-ijkl-0123456789" "example.com" "session-reused" 5 2022-11-03T10:05:44.869000Z "forward" "-" "-" "10.0.10.0:8080" "200" "-" "-""#,
        r#"{"type":"h2","time":"2022-11-03T10:05:44.872310Z","elb":"app/myalb/0123456789012","client_ip":"123.123.123.123","client_port":"54321","target_ip_port":"10.0.10.0:8080","request_processing_time":"0.000","target_processing_time":"0.003","response_processing_time":"0.000","elb_status_code":"200","target_status_code":"200","received_bytes":"285","sent_bytes":"131","http_method":"GET","url":"https://example.com:443/api/","http_version":"HTTP/2.0","user_agent":"Mozilla/5.0 (iPhone; CPU iPhone OS 16_0 like Mac OS X) AppleWebKit/605.1.15 (KHTML, like Gecko) Mobile/15E148 MYAPP/4.2.1 iOS/16.0 iPhone13,1","ssl_cipher":"ECDHE-RSA-AES128-GCM-SHA256","ssl_protocol":"TLSv1.2","target_group_arn":"arn:aws:elasticloadbalancing:ap-northeast-2:0123456789:targetgroup/mytargetgrouop/01234567890","trace_id":"Root=1-abcdefgh-abcd-efgh-ijkl-0123456789","domain_name":"example.com","chosen_cert_arn":"session-reused","matched_rule_priority":"5","request_creation_time":"2022-11-03T10:05:44.869000Z","actions_executed":"forward","redirect_url":"-","error_reason":"-","target_ip_port_list":"10.0.10.0:8080","target_status_code_list":"200","classification":"-","classification_reason":"-"}"#,
    );
    t(
        br#"https 2022-11-02T16:16:31.662027Z app/myalb/0123456789012 123.123.123.123:54321 - -1 -1 -1 503 - 199 184 "GET https://10.100.10.100:443/ HTTP/1.1" "Mozilla/5.0 (Windows NT 10.0; Win64; x64) AppleWebKit/537.36 (KHTML, like Gecko) Chrome/70.0.3538.77 Safari/537.36" ECDHE-RSA-AES128-GCM-SHA256 TLSv1.2 - "Root=1-abcdefgh-abcd-efgh-ijkl-0123456789" "*" "arn:aws:acm:ap-northeast-2:1234567890:certificate/abcdefgh-abcd-efgh-ijkl-0123456789" 0 2022-11-02T16:16:31.661000Z "fixed-response" "-" "-" "-" "-" "-" "-""#,
        r#"{"type":"https","time":"2022-11-02T16:16:31.662027Z","elb":"app/myalb/0123456789012","client_ip":"123.123.123.123","client_port":"54321","target_ip_port":"-","request_processing_time":"-1","target_processing_time":"-1","response_processing_time":"-1","elb_status_code":"503","target_status_code":"-","received_bytes":"199","sent_bytes":"184","http_method":"GET","url":"https://10.100.10.100:443/","http_version":"HTTP/1.1","user_agent":"Mozilla/5.0 (Windows NT 10.0; Win64; x64) AppleWebKit/537.36 (KHTML, like Gecko) Chrome/70.0.3538.77 Safari/537.36","ssl_cipher":"ECDHE-RSA-AES128-GCM-SHA256","ssl_protocol":"TLSv1.2","target_group_arn":"-","trace_id":"Root=1-abcdefgh-abcd-efgh-ijkl-0123456789","domain_name":"*","chosen_cert_arn":"arn:aws:acm:ap-northeast-2:1234567890:certificate/abcdefgh-abcd-efgh-ijkl-0123456789","matched_rule_priority":"0","request_creation_time":"2022-11-02T16:16:31.661000Z","actions_executed":"fixed-response","redirect_url":"-","error_reason":"-","target_ip_port_list":"-","target_status_code_list":"-","classification":"-","classification_reason":"-"}"#,
    );
    t(
        br#"https 2022-11-02T16:16:31.662027Z app/myalb/0123456789012 123.123.123.123:54321 - -1 -1 -1 400 - 192 272 "SSTP_DUPLEX_POST https://10.100.10.100:443/sra_{BA195980-CD49-458b-9E23-C84EE0ADCD75}/ HTTP/1.1" "-" ECDHE-RSA-AES128-GCM-SHA256 TLSv1.2 - "-" "-" "arn:aws:acm:ap-northeast-2:1234567890:certificate/abcdefgh-abcd-efgh-ijkl-0123456789" - 2022-11-02T16:16:31.661000Z "-" "-" "-" "-" "-" "-" "-""#,
        r#"{"type":"https","time":"2022-11-02T16:16:31.662027Z","elb":"app/myalb/0123456789012","client_ip":"123.123.123.123","client_port":"54321","target_ip_port":"-","request_processing_time":"-1","target_processing_time":"-1","response_processing_time":"-1","elb_status_code":"400","target_status_code":"-","received_bytes":"192","sent_bytes":"272","http_method":"SSTP_DUPLEX_POST","url":"https://10.100.10.100:443/sra_{BA195980-CD49-458b-9E23-C84EE0ADCD75}/","http_version":"HTTP/1.1","user_agent":"-","ssl_cipher":"ECDHE-RSA-AES128-GCM-SHA256","ssl_protocol":"TLSv1.2","target_group_arn":"-","trace_id":"-","domain_name":"-","chosen_cert_arn":"arn:aws:acm:ap-northeast-2:1234567890:certificate/abcdefgh-abcd-efgh-ijkl-0123456789","matched_rule_priority":"-","request_creation_time":"2022-11-02T16:16:31.661000Z","actions_executed":"-","redirect_url":"-","error_reason":"-","target_ip_port_list":"-","target_status_code_list":"-","classification":"-","classification_reason":"-"}"#,
    );
    t(
        br#"http 2020-01-01T22:22:22.222222Z app/myalb/0123456789abcdef 123.123.123.123:12345 10.0.10.0:80 0.001 0.007 0.000 404 404 19 997 "GET http://myalb-012345678.ap-northeast-2.elb.amazonaws.com:80/ HTTP/1.0 " "-" - - arn:aws:elasticloadbalancing:ap-northeast-2:012345678901:targetgroup/mytargetgroup/0123456789abcdef "Root=1-abcd0123-0123456789abcdef01234567" "-" "-" 0 2020-01-01T22:22:22.222222Z "forward" "-" "-" "10.0.10.0:80" "404" "Acceptable" "NonCompliantVersion""#,
        r#"{"type":"http","time":"2020-01-01T22:22:22.222222Z","elb":"app/myalb/0123456789abcdef","client_ip":"123.123.123.123","client_port":"12345","target_ip_port":"10.0.10.0:80","request_processing_time":"0.001","target_processing_time":"0.007","response_processing_time":"0.000","elb_status_code":"404","target_status_code":"404","received_bytes":"19","sent_bytes":"997","http_method":"GET","url":"http://myalb-012345678.ap-northeast-2.elb.amazonaws.com:80/","http_version":"HTTP/1.0","user_agent":"-","ssl_cipher":"-","ssl_protocol":"-","target_group_arn":"arn:aws:elasticloadbalancing:ap-northeast-2:012345678901:targetgroup/mytargetgroup/0123456789abcdef","trace_id":"Root=1-abcd0123-0123456789abcdef01234567","domain_name":"-","chosen_cert_arn":"-","matched_rule_priority":"0","request_creation_time":"2020-01-01T22:22:22.222222Z","actions_executed":"forward","redirect_url":"-","error_reason":"-","target_ip_port_list":"10.0.10.0:80","target_status_code_list":"404","classification":"Acceptable","classification_reason":"NonCompliantVersion"}"#,
    );
    t(
        br#"https 2023-05-02T22:52:38.170624Z app/myalb/0123456789abcdef 123.123.123.123:12345 - -1 -1 -1 503 - 241 739 "GET https://12.123.123.12:443/ HTTP/1.1" "Mozilla/5.0 (Windows NT 10.0; Win64; x64) AppleWebKit/537.36 (KHTML, like Gecko) Chrome/60.0.3112.113 Safari/537.36" ECDHE-RSA-AES128-GCM-SHA256 TLSv1.2 arn:aws:elasticloadbalancing:ap-northeast-2:012345678901:targetgroup/mytg/0123456789abcdef "Root=1-abcd0123-0123456789abcdef01234567" "12.123.123.12:443" "arn:aws:acm:ap-northeast-2:012345678901:certificate/abcdefgh-abcd-efgh-ijkl-0123456789" 0 2023-05-02T22:52:38.170000Z "forward" "-" "-" "-" "-" "-" "-""#,
        r#"{"type":"https","time":"2023-05-02T22:52:38.170624Z","elb":"app/myalb/0123456789abcdef","client_ip":"123.123.123.123","client_port":"12345","target_ip_port":"-","request_processing_time":"-1","target_processing_time":"-1","response_processing_time":"-1","elb_status_code":"503","target_status_code":"-","received_bytes":"241","sent_bytes":"739","http_method":"GET","url":"https://12.123.123.12:443/","http_version":"HTTP/1.1","user_agent":"Mozilla/5.0 (Windows NT 10.0; Win64; x64) AppleWebKit/537.36 (KHTML, like Gecko) Chrome/60.0.3112.113 Safari/537.36","ssl_cipher":"ECDHE-RSA-AES128-GCM-SHA256","ssl_protocol":"TLSv1.2","target_group_arn":"arn:aws:elasticloadbalancing:ap-northeast-2:012345678901:targetgroup/mytg/0123456789abcdef","trace_id":"Root=1-abcd0123-0123456789abcdef01234567","domain_name":"12.123.123.12:443","chosen_cert_arn":"arn:aws:acm:ap-northeast-2:012345678901:certificate/abcdefgh-abcd-efgh-ijkl-0123456789","matched_rule_priority":"0","request_creation_time":"2023-05-02T22:52:38.170000Z","actions_executed":"forward","redirect_url":"-","error_reason":"-","target_ip_port_list":"-","target_status_code_list":"-","classification":"-","classification_reason":"-"}"#,
    );
    t(
        br#"h2 2020-01-11T01:11:10.111111Z app/myalb/0123456789abcdef 1.123.123.123:12345 10.0.1.100:80 0.000 0.159 0.000 200 200 315 488 "GET https://example.com:443/very/good/route?some=pArameter12345&_=0123456788912 HTTP/2.0" "\x22Mozilla/5.0 (iPhone; CPU iPhone OS 11_4 like Mac OS X) available_resolution = 667,375 Apple Inc.~Apple A11 GPU\x22" ECDHE-RSA-AES128-GCM-SHA256 TLSv1.2 arn:aws:elasticloadbalancing:ap-northeast-3:012345678901:targetgroup/myalb/0123456789abcdef "Root=1-abcd0123-0123456789abcdef01234567" "example.com" "session-reused" 1 2020-01-11T01:11:10.111111Z "forward" "-" "-" "10.0.1.100:80" "200" "-" "-""#,
        r#"{"type":"h2","time":"2020-01-11T01:11:10.111111Z","elb":"app/myalb/0123456789abcdef","client_ip":"1.123.123.123","client_port":"12345","target_ip_port":"10.0.1.100:80","request_processing_time":"0.000","target_processing_time":"0.159","response_processing_time":"0.000","elb_status_code":"200","target_status_code":"200","received_bytes":"315","sent_bytes":"488","http_method":"GET","url":"https://example.com:443/very/good/route?some=pArameter12345&_=0123456788912","http_version":"HTTP/2.0","user_agent":"\\x22Mozilla/5.0 (iPhone; CPU iPhone OS 11_4 like Mac OS X) available_resolution = 667,375 Apple Inc.~Apple A11 GPU\\x22","ssl_cipher":"ECDHE-RSA-AES128-GCM-SHA256","ssl_protocol":"TLSv1.2","target_group_arn":"arn:aws:elasticloadbalancing:ap-northeast-3:012345678901:targetgroup/myalb/0123456789abcdef","trace_id":"Root=1-abcd0123-0123456789abcdef01234567","domain_name":"example.com","chosen_cert_arn":"session-reused","matched_rule_priority":"1","request_creation_time":"2020-01-11T01:11:10.111111Z","actions_executed":"forward","redirect_url":"-","error_reason":"-","target_ip_port_list":"10.0.1.100:80","target_status_code_list":"200","classification":"-","classification_reason":"-"}"#,
    );
    t(
        br#"h2 2020-01-11T01:11:10.111111Z app/myalb/0123456789abcdef 1.123.123.123:12345 10.0.1.100:80 0.000 0.159 0.000 200 200 315 488 "GET https://example.com:443/very/good/route?some=pArameter12345&_=0123456788912 HTTP/2.0" "\x00000022Mozilla/5.0 (iPhone; CPU iPhone OS 11_4 like Mac OS X) available_resolution = 667,375 Apple Inc.~Apple A11 GPU\x00000022" ECDHE-RSA-AES128-GCM-SHA256 TLSv1.2 arn:aws:elasticloadbalancing:ap-northeast-3:012345678901:targetgroup/myalb/0123456789abcdef "Root=1-abcd0123-0123456789abcdef01234567" "example.com" "session-reused" 1 2020-01-11T01:11:10.111111Z "forward" "-" "-" "10.0.1.100:80" "200" "-" "-""#,
        r#"{"type":"h2","time":"2020-01-11T01:11:10.111111Z","elb":"app/myalb/0123456789abcdef","client_ip":"1.123.123.123","client_port":"12345","target_ip_port":"10.0.1.100:80","request_processing_time":"0.000","target_processing_time":"0.159","response_processing_time":"0.000","elb_status_code":"200","target_status_code":"200","received_bytes":"315","sent_bytes":"488","http_method":"GET","url":"https://example.com:443/very/good/route?some=pArameter12345&_=0123456788912","http_version":"HTTP/2.0","user_agent":"\\x00000022Mozilla/5.0 (iPhone; CPU iPhone OS 11_4 like Mac OS X) available_resolution = 667,375 Apple Inc.~Apple A11 GPU\\x00000022","ssl_cipher":"ECDHE-RSA-AES128-GCM-SHA256","ssl_protocol":"TLSv1.2","target_group_arn":"arn:aws:elasticloadbalancing:ap-northeast-3:012345678901:targetgroup/myalb/0123456789abcdef","trace_id":"Root=1-abcd0123-0123456789abcdef01234567","domain_name":"example.com","chosen_cert_arn":"session-reused","matched_rule_priority":"1","request_creation_time":"2020-01-11T01:11:10.111111Z","actions_executed":"forward","redirect_url":"-","error_reason":"-","target_ip_port_list":"10.0.1.100:80","target_status_code_list":"200","classification":"-","classification_reason":"-"}"#,
    );
    t(
        br#"https 2023-06-01T12:34:56.123456Z app/myalb/0123456789abcdef 123.123.123.123:12345 10.0.12.34:80 0.001 0.002 0.003 200 200 123 456 "GET https://example.com/ HTTP/2.0" "Mozilla/5.0 (Windows NT 10.0; Win64; x64) AppleWebKit/537.36 (KHTML, like Gecko) Chrome/60.0.3112.113 Safari/537.36" ECDHE-RSA-AES128-GCM-SHA256 TLSv1.2 arn:aws:elasticloadbalancing:ap-northeast-2:012345678901:targetgroup/mytg/0123456789abcdef "Root=1-abcd0123-0123456789abcdef01234567" " some-subdomain.domain.com" "arn:aws:acm:ap-northeast-2:012345678901:certificate/abcdefgh-abcd-efgh-ijkl-0123456789" 0 2023-05-02T22:52:38.170000Z "forward" "-" "-" "-" "-" "-" "-""#,
        r#"{"type":"https","time":"2023-06-01T12:34:56.123456Z","elb":"app/myalb/0123456789abcdef","client_ip":"123.123.123.123","client_port":"12345","target_ip_port":"10.0.12.34:80","request_processing_time":"0.001","target_processing_time":"0.002","response_processing_time":"0.003","elb_status_code":"200","target_status_code":"200","received_bytes":"123","sent_bytes":"456","http_method":"GET","url":"https://example.com/","http_version":"HTTP/2.0","user_agent":"Mozilla/5.0 (Windows NT 10.0; Win64; x64) AppleWebKit/537.36 (KHTML, like Gecko) Chrome/60.0.3112.113 Safari/537.36","ssl_cipher":"ECDHE-RSA-AES128-GCM-SHA256","ssl_protocol":"TLSv1.2","target_group_arn":"arn:aws:elasticloadbalancing:ap-northeast-2:012345678901:targetgroup/mytg/0123456789abcdef","trace_id":"Root=1-abcd0123-0123456789abcdef01234567","domain_name":"some-subdomain.domain.com","chosen_cert_arn":"arn:aws:acm:ap-northeast-2:012345678901:certificate/abcdefgh-abcd-efgh-ijkl-0123456789","matched_rule_priority":"0","request_creation_time":"2023-05-02T22:52:38.170000Z","actions_executed":"forward","redirect_url":"-","error_reason":"-","target_ip_port_list":"-","target_status_code_list":"-","classification":"-","classification_reason":"-"}"#,
    );
    t(
        br#"https 2023-06-01T12:34:56.123456Z app/myalb/0123456789abcdef 123.123.123.123:12345 10.0.12.34:80 0.001 0.002 0.003 200 200 123 456 "--location https://example.com/ HTTP/2.0" "Mozilla/5.0 (Windows NT 10.0; Win64; x64) AppleWebKit/537.36 (KHTML, like Gecko) Chrome/60.0.3112.113 Safari/537.36" ECDHE-RSA-AES128-GCM-SHA256 TLSv1.2 arn:aws:elasticloadbalancing:ap-northeast-2:012345678901:targetgroup/mytg/0123456789abcdef "Root=1-abcd0123-0123456789abcdef01234567" " some-subdomain.domain.com" "arn:aws:acm:ap-northeast-2:012345678901:certificate/abcdefgh-abcd-efgh-ijkl-0123456789" 0 2023-05-02T22:52:38.170000Z "forward" "-" "-" "-" "-" "-" "-""#,
        r#"{"type":"https","time":"2023-06-01T12:34:56.123456Z","elb":"app/myalb/0123456789abcdef","client_ip":"123.123.123.123","client_port":"12345","target_ip_port":"10.0.12.34:80","request_processing_time":"0.001","target_processing_time":"0.002","response_processing_time":"0.003","elb_status_code":"200","target_status_code":"200","received_bytes":"123","sent_bytes":"456","http_method":"--location","url":"https://example.com/","http_version":"HTTP/2.0","user_agent":"Mozilla/5.0 (Windows NT 10.0; Win64; x64) AppleWebKit/537.36 (KHTML, like Gecko) Chrome/60.0.3112.113 Safari/537.36","ssl_cipher":"ECDHE-RSA-AES128-GCM-SHA256","ssl_protocol":"TLSv1.2","target_group_arn":"arn:aws:elasticloadbalancing:ap-northeast-2:012345678901:targetgroup/mytg/0123456789abcdef","trace_id":"Root=1-abcd0123-0123456789abcdef01234567","domain_name":"some-subdomain.domain.com","chosen_cert_arn":"arn:aws:acm:ap-northeast-2:012345678901:certificate/abcdefgh-abcd-efgh-ijkl-0123456789","matched_rule_priority":"0","request_creation_time":"2023-05-02T22:52:38.170000Z","actions_executed":"forward","redirect_url":"-","error_reason":"-","target_ip_port_list":"-","target_status_code_list":"-","classification":"-","classification_reason":"-"}"#,
    );
    t(
        br#"https 2023-06-01T12:34:56.123456Z app/myalb/0123456789abcdef 123.123.123.123:12345 10.0.12.34:80 0.001 0.002 0.003 200 200 123 456 "ZSDLKFJ2 https://example.com/ HTTP/2.0" "Mozilla/5.0 (Windows NT 10.0; Win64; x64) AppleWebKit/537.36 (KHTML, like Gecko) Chrome/60.0.3112.113 Safari/537.36" ECDHE-RSA-AES128-GCM-SHA256 TLSv1.2 arn:aws:elasticloadbalancing:ap-northeast-2:012345678901:targetgroup/mytg/0123456789abcdef "Root=1-abcd0123-0123456789abcdef01234567" " some-subdomain.domain.com" "arn:aws:acm:ap-northeast-2:012345678901:certificate/abcdefgh-abcd-efgh-ijkl-0123456789" 0 2023-05-02T22:52:38.170000Z "forward" "-" "-" "-" "-" "-" "-""#,
        r#"{"type":"https","time":"2023-06-01T12:34:56.123456Z","elb":"app/myalb/0123456789abcdef","client_ip":"123.123.123.123","client_port":"12345","target_ip_port":"10.0.12.34:80","request_processing_time":"0.001","target_processing_time":"0.002","response_processing_time":"0.003","elb_status_code":"200","target_status_code":"200","received_bytes":"123","sent_bytes":"456","http_method":"ZSDLKFJ2","url":"https://example.com/","http_version":"HTTP/2.0","user_agent":"Mozilla/5.0 (Windows NT 10.0; Win64; x64) AppleWebKit/537.36 (KHTML, like Gecko) Chrome/60.0.3112.113 Safari/537.36","ssl_cipher":"ECDHE-RSA-AES128-GCM-SHA256","ssl_protocol":"TLSv1.2","target_group_arn":"arn:aws:elasticloadbalancing:ap-northeast-2:012345678901:targetgroup/mytg/0123456789abcdef","trace_id":"Root=1-abcd0123-0123456789abcdef01234567","domain_name":"some-subdomain.domain.com","chosen_cert_arn":"arn:aws:acm:ap-northeast-2:012345678901:certificate/abcdefgh-abcd-efgh-ijkl-0123456789","matched_rule_priority":"0","request_creation_time":"2023-05-02T22:52:38.170000Z","actions_executed":"forward","redirect_url":"-","error_reason":"-","target_ip_port_list":"-","target_status_code_list":"-","classification":"-","classification_reason":"-"}"#,
    );
    t(
        br#"https 2023-06-01T12:34:56.123456Z app/myalb/0123456789abcdef 123.123.123.123:12345 10.0.12.34:80 0.001 0.002 0.003 200 200 123 456 "GET https://example.com/ HTTP/2.0" "Mozilla/5.0 (Windows NT 10.0; Win64; x64) AppleWebKit/537.36 (KHTML, like Gecko) Chrome/60.0.3112.113 Safari/537.36" TLS_AES_128_GCM_SHA256 TLSv1.3 arn:aws:elasticloadbalancing:ap-northeast-2:012345678901:targetgroup/mytg/0123456789abcdef "Root=1-abcd0123-0123456789abcdef01234567" " some-subdomain.domain.com" "arn:aws:acm:ap-northeast-2:012345678901:certificate/abcdefgh-abcd-efgh-ijkl-0123456789" 0 2023-05-02T22:52:38.170000Z "forward" "-" "-" "-" "-" "-" "-""#,
        r#"{"type":"https","time":"2023-06-01T12:34:56.123456Z","elb":"app/myalb/0123456789abcdef","client_ip":"123.123.123.123","client_port":"12345","target_ip_port":"10.0.12.34:80","request_processing_time":"0.001","target_processing_time":"0.002","response_processing_time":"0.003","elb_status_code":"200","target_status_code":"200","received_bytes":"123","sent_bytes":"456","http_method":"GET","url":"https://example.com/","http_version":"HTTP/2.0","user_agent":"Mozilla/5.0 (Windows NT 10.0; Win64; x64) AppleWebKit/537.36 (KHTML, like Gecko) Chrome/60.0.3112.113 Safari/537.36","ssl_cipher":"TLS_AES_128_GCM_SHA256","ssl_protocol":"TLSv1.3","target_group_arn":"arn:aws:elasticloadbalancing:ap-northeast-2:012345678901:targetgroup/mytg/0123456789abcdef","trace_id":"Root=1-abcd0123-0123456789abcdef01234567","domain_name":"some-subdomain.domain.com","chosen_cert_arn":"arn:aws:acm:ap-northeast-2:012345678901:certificate/abcdefgh-abcd-efgh-ijkl-0123456789","matched_rule_priority":"0","request_creation_time":"2023-05-02T22:52:38.170000Z","actions_executed":"forward","redirect_url":"-","error_reason":"-","target_ip_port_list":"-","target_status_code_list":"-","classification":"-","classification_reason":"-"}"#,
    );
    t(
        br#"https 2023-06-01T12:34:56.123456Z app/myalb/0123456789abcdef 123.123.123.123:12345 10.0.12.34:80 0.001 0.002 0.003 302 302 123 456 "GET https://example.com/ HTTP/2.0" "Mozilla/5.0 (Windows NT 10.0; Win64; x64) AppleWebKit/537.36 (KHTML, like Gecko) Chrome/60.0.3112.113 Safari/537.36" TLS_AES_128_GCM_SHA256 TLSv1.3 arn:aws:elasticloadbalancing:ap-northeast-2:012345678901:targetgroup/mytg/0123456789abcdef "Root=1-abcd0123-0123456789abcdef01234567" " some-subdomain.domain.com" "arn:aws:acm:ap-northeast-2:012345678901:certificate/abcdefgh-abcd-efgh-ijkl-0123456789" 0 2023-05-02T22:52:38.170000Z "redirect" "https://redirect.example.com?key1=value1&key2=..\x5C..\x5C..\x5Cwindows\x5Cwin.ini" "-" "-" "-" "-" "-""#,
        r#"{"type":"https","time":"2023-06-01T12:34:56.123456Z","elb":"app/myalb/0123456789abcdef","client_ip":"123.123.123.123","client_port":"12345","target_ip_port":"10.0.12.34:80","request_processing_time":"0.001","target_processing_time":"0.002","response_processing_time":"0.003","elb_status_code":"302","target_status_code":"302","received_bytes":"123","sent_bytes":"456","http_method":"GET","url":"https://example.com/","http_version":"HTTP/2.0","user_agent":"Mozilla/5.0 (Windows NT 10.0; Win64; x64) AppleWebKit/537.36 (KHTML, like Gecko) Chrome/60.0.3112.113 Safari/537.36","ssl_cipher":"TLS_AES_128_GCM_SHA256","ssl_protocol":"TLSv1.3","target_group_arn":"arn:aws:elasticloadbalancing:ap-northeast-2:012345678901:targetgroup/mytg/0123456789abcdef","trace_id":"Root=1-abcd0123-0123456789abcdef01234567","domain_name":"some-subdomain.domain.com","chosen_cert_arn":"arn:aws:acm:ap-northeast-2:012345678901:certificate/abcdefgh-abcd-efgh-ijkl-0123456789","matched_rule_priority":"0","request_creation_time":"2023-05-02T22:52:38.170000Z","actions_executed":"redirect","redirect_url":"https://redirect.example.com?key1=value1&key2=..\\x5C..\\x5C..\\x5Cwindows\\x5Cwin.ini","error_reason":"-","target_ip_port_list":"-","target_status_code_list":"-","classification":"-","classification_reason":"-"}"#,
    );
}
