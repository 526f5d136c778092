use http_server::request::parse_request;
use http_server::request::ParseOutcome;
use http_server::request::Request;
use http_server::routes::Dispatch;
use http_server::status::StatusCode;

fn parsed(raw: &[u8]) -> Request {
    match parse_request(raw) {
        ParseOutcome::Complete(req, _) => req,
        _ => panic!("test request must parse"),
    }
}

#[test]
fn echo_round_trip() {
    let req = parsed(b"GET /echo/abc HTTP/1.1\r\n\r\n");
    match req.handle_request("") {
        Dispatch::Ready(resp) => {
            assert_eq!(resp.status_line, StatusCode::_200);
            assert_eq!(resp.body, Some(b"abc".to_vec()));
            assert_eq!(resp.headers.content_length, Some(3));
            assert_eq!(resp.headers.content_type, Some(b"text/plain".to_vec()));
        },
        _ => panic!("echo must answer directly"),
    }
}

#[test]
fn echo_keeps_the_message_verbatim() {
    let req = parsed(b"GET /echo/with%20space HTTP/1.1\r\n\r\n");
    match req.handle_request("") {
        Dispatch::Ready(resp) => {
            assert_eq!(resp.body, Some(b"with%20space".to_vec()));
            assert_eq!(resp.headers.content_length, Some(12));
        },
        _ => panic!("echo must answer directly"),
    }
}

#[test]
fn user_agent_is_reflected() {
    let req = parsed(b"GET /user-agent HTTP/1.1\r\nUser-Agent: test-agent/1.0\r\n\r\n");
    match req.handle_request("") {
        Dispatch::Ready(resp) => {
            assert_eq!(resp.status_line, StatusCode::_200);
            assert_eq!(resp.body, Some(b"test-agent/1.0".to_vec()));
            assert_eq!(resp.headers.content_length, Some(14));
        },
        _ => panic!("user-agent must answer directly"),
    }
}

#[test]
fn user_agent_missing_gives_empty_body() {
    let req = parsed(b"GET /user-agent HTTP/1.1\r\n\r\n");
    match req.handle_request("") {
        Dispatch::Ready(resp) => {
            assert_eq!(resp.body, Some(Vec::new()));
            assert_eq!(resp.headers.content_length, Some(0));
        },
        _ => panic!("user-agent must answer directly"),
    }
}

#[test]
fn root_answers_ok_and_empty() {
    let req = parsed(b"GET / HTTP/1.1\r\n\r\n");
    match req.handle_request("/tmp/") {
        Dispatch::Ready(resp) => {
            assert_eq!(resp.status_line, StatusCode::_200);
            assert_eq!(resp.body, None);
            assert_eq!(resp.headers.content_type, None);
            assert_eq!(resp.headers.content_length, None);
        },
        _ => panic!("root must answer directly"),
    }
}

#[test]
fn unknown_path_gives_404_without_content_type() {
    let req = parsed(b"GET /nope HTTP/1.1\r\n\r\n");
    match req.handle_request("/tmp/") {
        Dispatch::Ready(resp) => {
            assert_eq!(resp.status_line, StatusCode::_404);
            assert_eq!(resp.body, None);
            assert_eq!(resp.headers.content_type, None);
        },
        _ => panic!("an unknown path must answer directly"),
    }
}

#[test]
fn files_post_then_get_round_trip() {
    let post = parsed(b"POST /files/foo.txt HTTP/1.1\r\nContent-Length: 5\r\n\r\nhello");
    let stored: Vec<u8>;
    match post.handle_request("/data/") {
        Dispatch::PostFile(path, body) => {
            assert_eq!(path, b"/data/foo.txt".to_vec());
            assert_eq!(body, b"hello".to_vec());
            stored = body;
        },
        _ => panic!("a file upload must dispatch a write"),
    }
    let created = post.handle_post_file();
    assert_eq!(created.status_line, StatusCode::_201);
    assert_eq!(created.body, None);

    let get = parsed(b"GET /files/foo.txt HTTP/1.1\r\n\r\n");
    match get.handle_request("/data/") {
        Dispatch::GetFile(path) => {
            assert_eq!(path, b"/data/foo.txt".to_vec());
        },
        _ => panic!("a file fetch must dispatch a read"),
    }
    let fetched = get.handle_get_file(Some(stored));
    assert_eq!(fetched.status_line, StatusCode::_200);
    assert_eq!(fetched.body, Some(b"hello".to_vec()));
    assert_eq!(fetched.headers.content_length, Some(5));
    assert_eq!(
        fetched.headers.content_type,
        Some(b"application/octet-stream".to_vec())
    );
}

#[test]
fn missing_file_gives_404_with_empty_body() {
    let get = parsed(b"GET /files/missing.txt HTTP/1.1\r\n\r\n");
    match get.handle_request("/data/") {
        Dispatch::GetFile(path) => {
            assert_eq!(path, b"/data/missing.txt".to_vec());
        },
        _ => panic!("a file fetch must dispatch a read"),
    }
    let resp = get.handle_get_file(None);
    assert_eq!(resp.status_line, StatusCode::_404);
    assert_eq!(resp.body, None);
    assert_eq!(resp.headers.content_length, None);
}

#[test]
fn echo_needs_its_trailing_slash() {
    let req = parsed(b"GET /echo HTTP/1.1\r\n\r\n");
    match req.handle_request("") {
        Dispatch::Ready(resp) => {
            assert_eq!(resp.status_line, StatusCode::_404);
        },
        _ => panic!("a path outside the table must answer directly"),
    }
}
