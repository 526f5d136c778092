use http_server::connection::consume_parsed;
use http_server::request::parse_decimal;
use http_server::request::parse_request;
use http_server::request::MalformReason;
use http_server::request::ParseOutcome;
use http_server::request::Verb;

#[test]
fn parse_complete_get_request() {
    let buf = b"GET /index HTTP/1.1\r\nHost: example\r\n\r\n".to_vec();
    match parse_request(&buf) {
        ParseOutcome::Complete(req, used) => {
            assert_eq!(req.request_line.verb, Verb::GET);
            assert_eq!(req.request_line.endpoint, b"/index".to_vec());
            assert_eq!(req.body, Vec::<u8>::new());
            assert_eq!(used, buf.len());
        },
        _ => panic!("expected a complete request"),
    }
}

#[test]
fn parse_incomplete_without_terminator() {
    let buf = b"GET / HTTP/1.1\r\nHost: example\r\n".to_vec();
    assert!(matches!(parse_request(&buf), ParseOutcome::Incomplete));
}

#[test]
fn parse_body_exact_and_pipelined_rest_untouched() {
    let first = b"POST /files/a.txt HTTP/1.1\r\nContent-Length: 5\r\n\r\nhello".to_vec();
    let second = b"GET /index HTTP/1.1\r\n\r\n".to_vec();
    let mut buf = first.clone();
    buf.extend_from_slice(&second);
    match parse_request(&buf) {
        ParseOutcome::Complete(req, used) => {
            assert_eq!(req.request_line.verb, Verb::POST);
            assert_eq!(req.body, b"hello".to_vec());
            assert_eq!(req.headers.content_length, Some(5));
            assert_eq!(used, first.len());
            consume_parsed(&mut buf, used);
            assert_eq!(buf, second);
            match parse_request(&buf) {
                ParseOutcome::Complete(req2, used2) => {
                    assert_eq!(req2.request_line.endpoint, b"/index".to_vec());
                    assert_eq!(used2, second.len());
                },
                _ => panic!("expected the pipelined request to parse"),
            }
        },
        _ => panic!("expected a complete request"),
    }
}

#[test]
fn parse_incomplete_while_body_missing() {
    let buf = b"POST /files/a.txt HTTP/1.1\r\nContent-Length: 5\r\n\r\nhel".to_vec();
    assert!(matches!(parse_request(&buf), ParseOutcome::Incomplete));
}

#[test]
fn parse_unsupported_verb_is_fatal() {
    let buf = b"PUT /index HTTP/1.1\r\n\r\n".to_vec();
    assert!(matches!(
        parse_request(&buf),
        ParseOutcome::Malformed(MalformReason::RequestLine)
    ));
}

#[test]
fn parse_short_request_line_is_fatal() {
    let buf = b"GET /index\r\n\r\n".to_vec();
    assert!(matches!(
        parse_request(&buf),
        ParseOutcome::Malformed(MalformReason::RequestLine)
    ));
}

#[test]
fn parse_non_numeric_content_length_is_fatal() {
    let buf = b"GET /index HTTP/1.1\r\nContent-Length: abc\r\n\r\n".to_vec();
    assert!(matches!(
        parse_request(&buf),
        ParseOutcome::Malformed(MalformReason::ContentLength)
    ));
}

#[test]
fn parse_oversized_content_length_is_fatal() {
    let buf = b"GET /index HTTP/1.1\r\nContent-Length: 99999999999999999999999\r\n\r\n".to_vec();
    assert!(matches!(
        parse_request(&buf),
        ParseOutcome::Malformed(MalformReason::ContentLength)
    ));
}

#[test]
fn parse_empty_content_length_means_no_body() {
    let buf = b"GET /index HTTP/1.1\r\nContent-Length: \r\n\r\n".to_vec();
    match parse_request(&buf) {
        ParseOutcome::Complete(req, used) => {
            assert_eq!(req.headers.content_length, None);
            assert_eq!(req.body, Vec::<u8>::new());
            assert_eq!(used, buf.len());
        },
        _ => panic!("expected a complete request"),
    }
}

#[test]
fn parse_last_header_wins() {
    let buf = b"GET / HTTP/1.1\r\nUser-Agent: first\r\nUser-Agent: second\r\n\r\n".to_vec();
    match parse_request(&buf) {
        ParseOutcome::Complete(req, _) => {
            assert_eq!(req.headers.user_agent, Some(b"second".to_vec()));
        },
        _ => panic!("expected a complete request"),
    }
}

#[test]
fn parse_skips_lines_without_separator() {
    let buf = b"GET / HTTP/1.1\r\nnonsense\r\nUser-Agent: ua\r\n\r\n".to_vec();
    match parse_request(&buf) {
        ParseOutcome::Complete(req, _) => {
            assert_eq!(req.headers.user_agent, Some(b"ua".to_vec()));
        },
        _ => panic!("expected a complete request"),
    }
}

#[test]
fn parse_header_names_are_case_sensitive() {
    let buf = b"GET / HTTP/1.1\r\nuser-agent: ua\r\n\r\n".to_vec();
    match parse_request(&buf) {
        ParseOutcome::Complete(req, _) => {
            assert_eq!(req.headers.user_agent, None);
        },
        _ => panic!("expected a complete request"),
    }
}

#[test]
fn parse_keeps_connection_value() {
    let buf = b"GET / HTTP/1.1\r\nConnection: close\r\n\r\n".to_vec();
    match parse_request(&buf) {
        ParseOutcome::Complete(req, _) => {
            assert_eq!(req.headers.connection, Some(b"close".to_vec()));
        },
        _ => panic!("expected a complete request"),
    }
}

#[test]
fn parse_decimal_reads_plain_numbers() {
    assert_eq!(parse_decimal(b"0"), Some(0));
    assert_eq!(parse_decimal(b"123"), Some(123));
    assert_eq!(parse_decimal(b"007"), Some(7));
}

#[test]
fn parse_decimal_rejects_bad_input() {
    assert_eq!(parse_decimal(b""), None);
    assert_eq!(parse_decimal(b"12a"), None);
    assert_eq!(parse_decimal(b"-1"), None);
    assert_eq!(parse_decimal(b"99999999999999999999999"), None);
}

#[test]
fn consume_parsed_keeps_the_tail() {
    let mut buf = b"abcdef".to_vec();
    consume_parsed(&mut buf, 4);
    assert_eq!(buf, b"ef".to_vec());
}
