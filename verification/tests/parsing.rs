use http_core::request::HttpRequest;

#[test]
fn parse_get_request() {
    let sut = HttpRequest::parse(
        b"GET /user-agent HTTP/1.1\r\nHost: localhost:4221\r\nUser-Agent: foobar/1.2.3\r\nAccept: */*\r\n\r\n",
    )
    .unwrap();
    assert_eq!(b"GET".to_vec(), sut.verb);
    assert_eq!(b"/user-agent".to_vec(), sut.path);
    assert_eq!(b"localhost:4221".to_vec(), *sut.headers.get(b"Host").unwrap());
    assert_eq!(b"foobar/1.2.3".to_vec(), *sut.headers.get(b"User-Agent").unwrap());
    assert_eq!(b"*/*".to_vec(), *sut.headers.get(b"Accept").unwrap());
    assert!(sut.body.is_none());
}

#[test]
fn parse_post_request() {
    let sut = HttpRequest::parse(
        b"POST /user-agent HTTP/1.1\r\nHost: localhost:4221\r\nUser-Agent: foobar/1.2.3\r\nAccept: */*\r\n\r\nHello World!",
    )
    .unwrap();
    assert_eq!(b"POST".to_vec(), sut.verb);
    assert_eq!(b"/user-agent".to_vec(), sut.path);
    assert_eq!(b"localhost:4221".to_vec(), *sut.headers.get(b"Host").unwrap());
    assert_eq!(b"foobar/1.2.3".to_vec(), *sut.headers.get(b"User-Agent").unwrap());
    assert_eq!(b"*/*".to_vec(), *sut.headers.get(b"Accept").unwrap());
    assert_eq!(b"Hello World!".to_vec(), sut.body.unwrap());
}

#[test]
fn parse_body_keeps_embedded_line_breaks() {
    let sut = HttpRequest::parse(b"POST /files/x HTTP/1.1\r\nHost: a\r\n\r\nline one\r\nline two")
        .unwrap();
    assert_eq!(b"line one\r\nline two".to_vec(), sut.body.unwrap());
}

#[test]
fn parse_rejects_short_request_line() {
    assert!(HttpRequest::parse(b"GET /\r\n\r\n").is_none());
}

#[test]
fn parse_rejects_header_without_colon() {
    assert!(HttpRequest::parse(b"GET / HTTP/1.1\r\nno-colon-here\r\n\r\n").is_none());
}

#[test]
fn parse_rejects_missing_blank_line() {
    assert!(HttpRequest::parse(b"GET / HTTP/1.1\r\nHost: a\r\n").is_none());
}

#[test]
fn parse_rejects_path_not_starting_with_slash() {
    assert!(HttpRequest::parse(b"GET nothing HTTP/1.1\r\n\r\n").is_none());
}

#[test]
fn parse_trims_header_whitespace() {
    let sut =
        HttpRequest::parse(b"GET / HTTP/1.1\r\nPadded:   spaced out   \r\n\r\n").unwrap();
    assert_eq!(b"spaced out".to_vec(), *sut.headers.get(b"Padded").unwrap());
}

#[test]
fn duplicate_header_last_occurrence_wins() {
    let sut = HttpRequest::parse(b"GET / HTTP/1.1\r\nX-Tag: first\r\nX-Tag: second\r\n\r\n")
        .unwrap();
    assert_eq!(b"second".to_vec(), *sut.headers.get(b"X-Tag").unwrap());
}

#[test]
fn header_lookup_is_case_sensitive_and_misses_cleanly() {
    let sut = HttpRequest::parse(b"GET / HTTP/1.1\r\nHost: a\r\n\r\n").unwrap();
    assert!(sut.headers.get(b"host").is_none());
    assert!(sut.headers.get(b"Absent").is_none());
}
