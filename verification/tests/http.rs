use firecracker_sdk::http::{
    content_length, find_header_end, parse_http_response, parse_http_status, request_head,
    response_must_not_have_body, ReadStep, ResponseReader,
};
use firecracker_sdk::Error;

#[test]
fn status_line_is_parsed() {
    assert_eq!(parse_http_status(b"HTTP/1.1 204 No Content\r\nServer: x"), Ok(204));
    assert_eq!(parse_http_status(b"  HTTP/1.1   404"), Ok(404));
    assert_eq!(
        parse_http_status(b""),
        Err(Error::Api { status: 0, body: "invalid HTTP response: missing status line".to_string() }),
    );
    assert_eq!(
        parse_http_status(b"HTTP/1.1"),
        Err(Error::Api { status: 0, body: "invalid HTTP response: malformed status line".to_string() }),
    );
    assert_eq!(
        parse_http_status(b"HTTP/1.1 70000 Big"),
        Err(Error::Api { status: 0, body: "invalid HTTP response: malformed status code".to_string() }),
    );
}

#[test]
fn only_2xx_responses_succeed() {
    assert_eq!(parse_http_response(b"HTTP/1.1 200 OK", b"{}"), Ok(b"{}".to_vec()));
    assert_eq!(
        parse_http_response(b"HTTP/1.1 400 Bad Request", b"bad\xffbody"),
        Err(Error::Api { status: 400, body: "bad\u{FFFD}body".to_string() }),
    );
    assert_eq!(
        parse_http_response(b"HTTP/1.1 300 Multiple", b""),
        Err(Error::Api { status: 300, body: String::new() }),
    );
}

#[test]
fn content_length_header_is_found_case_insensitively() {
    assert_eq!(content_length(b"HTTP/1.1 200 OK\r\ncontent-LENGTH:  12 \r\nX: y"), Some(12));
    assert_eq!(content_length(b"HTTP/1.1 200 OK\r\nX: y"), None);
    assert_eq!(content_length(b"HTTP/1.1 200 OK\r\nContent-Length: abc\r\nContent-Length: 5"), Some(5));
}

#[test]
fn bodyless_responses() {
    assert!(response_must_not_have_body("head", 200));
    assert!(response_must_not_have_body("GET", 204));
    assert!(response_must_not_have_body("GET", 304));
    assert!(response_must_not_have_body("GET", 100));
    assert!(!response_must_not_have_body("GET", 200));
}

#[test]
fn header_end_is_first_blank_line() {
    assert_eq!(find_header_end(b"A\r\n\r\nB\r\n\r\n"), Some(1));
    assert_eq!(find_header_end(b"A\r\nB"), None);
}

#[test]
fn request_head_declares_body() {
    assert_eq!(
        request_head("PUT", "/drives/1", 2),
        "PUT /drives/1 HTTP/1.1\r\nHost: localhost\r\nUser-Agent: firecracker-rs-sdk\r\nAccept: application/json\r\nConnection: close\r\nContent-Length: 2\r\nContent-Type: application/json\r\n\r\n",
    );
    assert_eq!(
        request_head("GET", "/", 0),
        "GET / HTTP/1.1\r\nHost: localhost\r\nUser-Agent: firecracker-rs-sdk\r\nAccept: application/json\r\nConnection: close\r\nContent-Length: 0\r\n\r\n",
    );
}

fn done(step: ReadStep) -> Result<Vec<u8>, Error> {
    match step {
        ReadStep::Done(r) => r,
        ReadStep::Read(n) => panic!("expected a finished response, asked for {n} bytes"),
    }
}

#[test]
fn reader_waits_for_declared_body_in_chunks() {
    let (mut reader, first) = ResponseReader::new("GET");
    assert!(matches!(first, ReadStep::Read(1024)));
    assert!(matches!(reader.on_read(b"HTTP/1.1 200 OK\r\nContent-Len"), ReadStep::Read(1024)));
    assert!(matches!(reader.on_read(b"gth: 5\r\n\r\nab"), ReadStep::Read(3)));
    assert_eq!(done(reader.on_read(b"cdeEXTRA")), Ok(b"abcde".to_vec()));
}

#[test]
fn reader_reads_to_eof_without_length() {
    let (mut reader, _) = ResponseReader::new("GET");
    assert!(matches!(reader.on_read(b"HTTP/1.1 200 OK\r\n\r\nhello"), ReadStep::Read(1024)));
    assert!(matches!(reader.on_read(b" world"), ReadStep::Read(1024)));
    assert_eq!(done(reader.on_read(b"")), Ok(b"hello world".to_vec()));
}

#[test]
fn reader_handles_bodyless_and_truncated_responses() {
    let (mut reader, _) = ResponseReader::new("PUT");
    assert_eq!(done(reader.on_read(b"HTTP/1.1 204 No Content\r\n\r\n")), Ok(Vec::new()));
    let (mut reader, _) = ResponseReader::new("GET");
    assert!(matches!(reader.on_read(b"HTTP/1.1 200"), ReadStep::Read(1024)));
    assert_eq!(
        done(reader.on_read(b"")),
        Err(Error::Api { status: 0, body: "unexpected EOF while reading HTTP response headers".to_string() }),
    );
    let (mut reader, _) = ResponseReader::new("GET");
    assert!(matches!(reader.on_read(b"HTTP/1.1 500 Oops\r\nContent-Length: 9\r\n\r\nab"), ReadStep::Read(7)));
    assert_eq!(done(reader.on_read(b"")), Err(Error::Api { status: 500, body: "ab".to_string() }));
}
