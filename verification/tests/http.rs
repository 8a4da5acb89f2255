use lib::http::{
    HttpError, ReadEvent, ReadStep, RequestReader, STATUS_OK, find_double_newline, parse_head,
    response_text,
};

#[test]
fn finds_the_header_boundary() {
    assert_eq!(find_double_newline(b"abc\r\n\r\nbody"), Some(3));
    assert_eq!(find_double_newline(b"abc\r\nx"), None);
}

#[test]
fn responses_are_shaped() {
    let body = "{\"ok\":true}";
    let response = response_text(STATUS_OK, body);
    assert!(response.starts_with("HTTP/1.1 200 OK\r\n"));
    assert!(response.contains("Connection: close"));
    assert!(response.ends_with(body));
}

#[test]
fn response_text_is_exact() {
    assert_eq!(
        response_text("404 Not Found", "{}"),
        "HTTP/1.1 404 Not Found\r\nContent-Type: application/json\r\nContent-Length: 2\r\nConnection: close\r\n\r\n{}"
    );
}

#[test]
fn head_parsing_reads_method_path_and_length() {
    assert_eq!(
        parse_head(b"POST /v1/evidence HTTP/1.1\r\nHost: x\r\nContent-Length: 12"),
        Ok(("POST".to_string(), "/v1/evidence".to_string(), 12))
    );
    assert_eq!(
        parse_head(b"GET / HTTP/1.1"),
        Err(HttpError::Malformed("content-length required"))
    );
    assert_eq!(
        parse_head(b"POST / FTP/1.1\r\nContent-Length: 0"),
        Err(HttpError::Malformed("version"))
    );
}

#[test]
fn reader_assembles_a_request_across_reads() {
    let mut reader = RequestReader::new();
    assert!(reader.is_reading());
    match reader.feed(ReadEvent::Bytes(b"POST /v1/evidence HTTP/1.1\r\nContent-Le".to_vec())) {
        ReadStep::NeedMore => {}
        other => panic!("{other:?}"),
    }
    match reader.feed(ReadEvent::Bytes(b"ngth: 4\r\n\r\nab".to_vec())) {
        ReadStep::NeedMore => {}
        other => panic!("{other:?}"),
    }
    match reader.feed(ReadEvent::Bytes(b"cd".to_vec())) {
        ReadStep::Complete(request) => {
            assert_eq!(request.method, "POST");
            assert_eq!(request.path, "/v1/evidence");
            assert_eq!(request.body, b"abcd".to_vec());
        }
        other => panic!("{other:?}"),
    }
    assert!(!reader.is_reading());
}

#[test]
fn reader_refuses_eof_overlong_bodies_and_failed_reads() {
    let mut reader = RequestReader::new();
    match reader.feed(ReadEvent::EndOfStream) {
        ReadStep::Failed(error) => assert_eq!(error, HttpError::Malformed("eof in headers")),
        other => panic!("{other:?}"),
    }
    let mut reader = RequestReader::new();
    match reader.feed(ReadEvent::Bytes(b"POST / HTTP/1.1\r\nContent-Length: 1\r\n\r\nxy".to_vec())) {
        ReadStep::Failed(error) => {
            assert_eq!(error, HttpError::Malformed("body past content-length"))
        }
        other => panic!("{other:?}"),
    }
    let mut reader = RequestReader::new();
    match reader.feed(ReadEvent::Failed) {
        ReadStep::Failed(error) => assert_eq!(error, HttpError::Io("read")),
        other => panic!("{other:?}"),
    }
    let mut reader = RequestReader::new();
    match reader.feed(ReadEvent::Bytes(b"POST / HTTP/1.1\r\nContent-Length: 70000\r\n\r\n".to_vec())) {
        ReadStep::Failed(error) => assert_eq!(error, HttpError::BodyTooLarge),
        other => panic!("{other:?}"),
    }
    let mut reader = RequestReader::new();
    match reader.feed(ReadEvent::Bytes(vec![b'a'; 5000])) {
        ReadStep::Failed(error) => assert_eq!(error, HttpError::HeadersTooLarge),
        other => panic!("{other:?}"),
    }
}

#[test]
fn http_errors_have_messages() {
    assert_eq!(HttpError::HeadersTooLarge.message(), "request headers exceed the ceiling");
    assert_eq!(HttpError::BodyTooLarge.message(), "request body exceeds the ceiling");
    assert_eq!(HttpError::Malformed("path").message(), "malformed request: path");
    assert_eq!(HttpError::Io("read").message(), "http i/o failure: read");
}
