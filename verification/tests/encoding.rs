use std::io::Read;

use http_server::codec::encode;
use http_server::codec::gzip_encoder;
use http_server::codec::Encoder;
use http_server::request::parse_request;
use http_server::request::ParseOutcome;
use http_server::request::Request;
use http_server::routes::Dispatch;
use http_server::status::StatusCode;

fn parsed(raw: &[u8]) -> Request {
    match parse_request(raw) {
        ParseOutcome::Complete(req, _) => req,
        _ => panic!("test request must parse"),
    }
}

fn gunzip(data: &[u8]) -> Vec<u8> {
    let mut decoder = flate2::read::GzDecoder::new(data);
    let mut out = Vec::new();
    decoder.read_to_end(&mut out).expect("a well-formed gzip stream");
    out
}

#[test]
fn gzip_encoder_is_not_the_identity() {
    let encoded = gzip_encoder(b"hello".to_vec());
    assert_ne!(encoded, b"hello".to_vec());
    assert_eq!(&encoded[..2], &[0x1f, 0x8b]);
    assert_eq!(gunzip(&encoded), b"hello".to_vec());
}

#[test]
fn gzip_body_decompresses_to_the_plain_body() {
    let req = parsed(b"GET /echo/hello HTTP/1.1\r\nAccept-Encoding: gzip\r\n\r\n");
    let mut resp = match req.handle_request("") {
        Dispatch::Ready(resp) => resp,
        _ => panic!("echo must answer directly"),
    };
    assert_eq!(resp.headers.content_encoding, Some(Encoder::Gzip));
    encode(&mut resp);
    let encoded = resp.body.expect("an encoded body");
    assert_eq!(resp.headers.content_length, Some(encoded.len()));
    assert_eq!(gunzip(&encoded), b"hello".to_vec());
    assert_eq!(resp.headers.content_encoding, Some(Encoder::Gzip));
}

#[test]
fn accept_encoding_matches_gzip_as_a_substring() {
    let req = parsed(b"GET /echo/x HTTP/1.1\r\nAccept-Encoding: deflate, gzip, br\r\n\r\n");
    assert_eq!(req.headers.accept_encoding, Some(Encoder::Gzip));
}

#[test]
fn accept_encoding_without_gzip_selects_nothing() {
    let req = parsed(b"GET /echo/x HTTP/1.1\r\nAccept-Encoding: identity\r\n\r\n");
    assert_eq!(req.headers.accept_encoding, None);
}

#[test]
fn encode_without_encoding_changes_nothing() {
    let req = parsed(b"GET /echo/hi HTTP/1.1\r\n\r\n");
    let mut resp = match req.handle_request("") {
        Dispatch::Ready(resp) => resp,
        _ => panic!("echo must answer directly"),
    };
    encode(&mut resp);
    assert_eq!(resp.body, Some(b"hi".to_vec()));
    assert_eq!(resp.headers.content_length, Some(2));
    assert_eq!(resp.headers.content_encoding, None);
}

#[test]
fn encode_without_body_keeps_the_encoding_header() {
    let req = parsed(b"GET /user-agent HTTP/1.1\r\nAccept-Encoding: gzip\r\n\r\n");
    let mut resp = match req.handle_request("") {
        Dispatch::Ready(resp) => resp,
        _ => panic!("user-agent must answer directly"),
    };
    // An empty body still compresses; the header block then names the
    // encoding and carries the compressed length.
    assert_eq!(resp.status_line, StatusCode::_200);
    encode(&mut resp);
    assert_eq!(resp.headers.content_encoding, Some(Encoder::Gzip));
    let encoded = resp.body.clone().expect("an encoded body");
    assert_eq!(gunzip(&encoded), Vec::<u8>::new());
    let header = resp.build_response_header();
    let text = String::from_utf8(header).expect("the header block is text");
    assert!(text.contains("Content-Encoding: gzip\r\n"));
}

#[test]
fn file_fetch_honours_accept_encoding() {
    let get = parsed(b"GET /files/foo.txt HTTP/1.1\r\nAccept-Encoding: gzip\r\n\r\n");
    let mut resp = get.handle_get_file(Some(b"content".to_vec()));
    assert_eq!(resp.headers.content_encoding, Some(Encoder::Gzip));
    encode(&mut resp);
    let encoded = resp.body.expect("an encoded body");
    assert_eq!(gunzip(&encoded), b"content".to_vec());
}
