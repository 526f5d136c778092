use http_server::args::parse_args;
use http_server::codec::Encoder;
use http_server::connection::should_close;
use http_server::request::parse_request;
use http_server::request::ParseOutcome;
use http_server::request::Request;
use http_server::response::Response;
use http_server::response::ResponseHeaders;
use http_server::routes::Dispatch;
use http_server::status::StatusCode;

fn parsed(raw: &[u8]) -> Request {
    match parse_request(raw) {
        ParseOutcome::Complete(req, _) => req,
        _ => panic!("test request must parse"),
    }
}

fn header_text(resp: &Response) -> String {
    String::from_utf8(resp.build_response_header()).expect("the header block is text")
}

#[test]
fn header_block_is_exact() {
    let resp = Response {
        status_line: StatusCode::_200,
        headers: ResponseHeaders {
            content_type: Some(b"text/plain".to_vec()),
            content_length: Some(3),
            content_encoding: None,
            connection: None,
        },
        body: Some(b"abc".to_vec()),
    };
    assert_eq!(
        header_text(&resp),
        "HTTP/1.1 200 OK\r\nContent-Type: text/plain\r\nContent-Encoding: \r\nContent-Length: 3\r\nConnection: keep-alive\r\n\r\n"
    );
}

#[test]
fn header_block_serializes_absent_values() {
    let resp = Response {
        status_line: StatusCode::_404,
        headers: ResponseHeaders {
            content_type: None,
            content_length: None,
            content_encoding: None,
            connection: None,
        },
        body: None,
    };
    assert_eq!(
        header_text(&resp),
        "HTTP/1.1 404 Not Found\r\nContent-Type: \r\nContent-Encoding: \r\nContent-Length: 0\r\nConnection: keep-alive\r\n\r\n"
    );
}

#[test]
fn header_block_names_the_encoding_and_connection() {
    let resp = Response {
        status_line: StatusCode::_201,
        headers: ResponseHeaders {
            content_type: None,
            content_length: Some(1234567890),
            content_encoding: Some(Encoder::Gzip),
            connection: Some(b"close".to_vec()),
        },
        body: None,
    };
    assert_eq!(
        header_text(&resp),
        "HTTP/1.1 201 Created\r\nContent-Type: \r\nContent-Encoding: gzip\r\nContent-Length: 1234567890\r\nConnection: close\r\n\r\n"
    );
}

#[test]
fn status_lines_are_fixed() {
    assert_eq!(StatusCode::_200.status_line(), b"HTTP/1.1 200 OK".to_vec());
    assert_eq!(
        StatusCode::_404.status_line(),
        b"HTTP/1.1 404 Not Found".to_vec()
    );
    assert_eq!(
        StatusCode::_201.status_line(),
        b"HTTP/1.1 201 Created".to_vec()
    );
}

#[test]
fn connection_close_is_the_last_exchange() {
    let req = parsed(b"GET / HTTP/1.1\r\nConnection: close\r\n\r\n");
    match req.handle_request("") {
        Dispatch::Ready(resp) => {
            assert_eq!(resp.headers.connection, Some(b"close".to_vec()));
            assert!(should_close(&resp));
            assert!(header_text(&resp).contains("Connection: close\r\n"));
        },
        _ => panic!("root must answer directly"),
    }
}

#[test]
fn connections_stay_open_by_default() {
    let req = parsed(b"GET / HTTP/1.1\r\n\r\n");
    match req.handle_request("") {
        Dispatch::Ready(resp) => {
            assert_eq!(resp.headers.connection, None);
            assert!(!should_close(&resp));
        },
        _ => panic!("root must answer directly"),
    }
}

#[test]
fn keep_alive_value_does_not_close() {
    let req = parsed(b"GET / HTTP/1.1\r\nConnection: keep-alive\r\n\r\n");
    match req.handle_request("") {
        Dispatch::Ready(resp) => {
            assert!(!should_close(&resp));
        },
        _ => panic!("root must answer directly"),
    }
}

#[test]
fn parse_args_takes_the_last_argument_with_the_flag() {
    let args = vec![
        "server".to_string(),
        "--directory".to_string(),
        "/data/".to_string(),
    ];
    assert_eq!(parse_args(args), "/data/".to_string());
}

#[test]
fn parse_args_defaults_to_the_empty_root() {
    let args = vec!["server".to_string(), "--port".to_string()];
    assert_eq!(parse_args(args), "".to_string());
}
