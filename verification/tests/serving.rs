use http_core::handler::{handle_read, respond_file_read, respond_file_write, ConnectionStep};
use http_core::response::HttpResponse;
use http_core::router::{route, RouteAction};

fn expect_response(step: ConnectionStep) -> Vec<u8> {
    match step {
        ConnectionStep::Respond(bytes) => bytes,
        _ => panic!("expected a direct response"),
    }
}

#[test]
fn get_root_returns_fixed_ok() {
    let step = handle_read(b"GET / HTTP/1.1\r\nHost: localhost:4221\r\n\r\n", false);
    assert_eq!(b"HTTP/1.1 200 OK\r\n\r\n".to_vec(), expect_response(step));
    let step = handle_read(b"GET / HTTP/1.1\r\nHost: localhost:4221\r\n\r\n", true);
    assert_eq!(b"HTTP/1.1 200 OK\r\n\r\n".to_vec(), expect_response(step));
}

#[test]
fn echo_returns_captured_text() {
    let step = handle_read(b"GET /echo/hello HTTP/1.1\r\nHost: a\r\n\r\n", false);
    assert_eq!(
        b"HTTP/1.1 200 OK\r\nContent-Type: text/plain\r\nContent-Length: 5\r\n\r\nhello".to_vec(),
        expect_response(step)
    );
}

#[test]
fn echo_announces_gzip_but_ships_raw_bytes() {
    let step = handle_read(
        b"GET /echo/hello HTTP/1.1\r\nAccept-Encoding: gzip\r\n\r\n",
        false,
    );
    assert_eq!(
        b"HTTP/1.1 200 OK\r\nContent-Type: text/plain\r\nContent-Length: 5\r\nContent-Encoding: gzip\r\n\r\nhello"
            .to_vec(),
        expect_response(step)
    );
}

#[test]
fn gzip_is_found_inside_an_encoding_list() {
    let step = handle_read(
        b"GET /echo/x HTTP/1.1\r\nAccept-Encoding: deflate, gzip, br\r\n\r\n",
        false,
    );
    let bytes = expect_response(step);
    let text = String::from_utf8(bytes).unwrap();
    assert!(text.contains("Content-Encoding: gzip"));
}

#[test]
fn absent_gzip_is_not_announced() {
    let step = handle_read(
        b"GET /echo/x HTTP/1.1\r\nAccept-Encoding: deflate\r\n\r\n",
        false,
    );
    let bytes = expect_response(step);
    let text = String::from_utf8(bytes).unwrap();
    assert!(!text.contains("Content-Encoding"));
}

#[test]
fn user_agent_is_echoed_back() {
    let step = handle_read(b"GET /user-agent HTTP/1.1\r\nUser-Agent: foobar/1.2.3\r\n\r\n", false);
    assert_eq!(
        b"HTTP/1.1 200 OK\r\nContent-Type: text/plain\r\nContent-Length: 12\r\n\r\nfoobar/1.2.3"
            .to_vec(),
        expect_response(step)
    );
}

#[test]
fn missing_user_agent_header_is_rejected() {
    let step = handle_read(b"GET /user-agent HTTP/1.1\r\nHost: a\r\n\r\n", false);
    assert_eq!(b"HTTP/1.1 400 Bad Request\r\n\r\n".to_vec(), expect_response(step));
}

#[test]
fn missing_file_returns_not_found() {
    let step = handle_read(b"GET /files/missing.txt HTTP/1.1\r\nHost: a\r\n\r\n", true);
    match step {
        ConnectionStep::ReadFile(name) => assert_eq!(b"missing.txt".to_vec(), name),
        _ => panic!("expected a file read"),
    }
    assert_eq!(b"HTTP/1.1 404 Not Found\r\n\r\n".to_vec(), respond_file_read(None));
}

#[test]
fn post_then_get_round_trips_file_bytes() {
    let step = handle_read(b"POST /files/new.txt HTTP/1.1\r\nHost: a\r\n\r\nabc", true);
    let stored = match step {
        ConnectionStep::WriteFile(name, body) => {
            assert_eq!(b"new.txt".to_vec(), name);
            assert_eq!(b"abc".to_vec(), body);
            body
        },
        _ => panic!("expected a file write"),
    };
    assert_eq!(b"HTTP/1.1 201 Created\r\n\r\n".to_vec(), respond_file_write(true));
    let step = handle_read(b"GET /files/new.txt HTTP/1.1\r\nHost: a\r\n\r\n", true);
    match step {
        ConnectionStep::ReadFile(name) => assert_eq!(b"new.txt".to_vec(), name),
        _ => panic!("expected a file read"),
    }
    assert_eq!(
        b"HTTP/1.1 200 OK\r\nContent-Type: application/octet-stream\r\nContent-Length: 3\r\n\r\nabc"
            .to_vec(),
        respond_file_read(Some(stored))
    );
}

#[test]
fn failed_file_write_is_a_server_error() {
    assert_eq!(
        b"HTTP/1.1 500 Internal Server Error\r\n\r\n".to_vec(),
        respond_file_write(false)
    );
}

#[test]
fn file_routes_without_directory_return_not_found() {
    let step = handle_read(b"GET /files/x HTTP/1.1\r\nHost: a\r\n\r\n", false);
    assert_eq!(b"HTTP/1.1 404 Not Found\r\n\r\n".to_vec(), expect_response(step));
    let step = handle_read(b"POST /files/x HTTP/1.1\r\nHost: a\r\n\r\nabc", false);
    assert_eq!(b"HTTP/1.1 404 Not Found\r\n\r\n".to_vec(), expect_response(step));
}

#[test]
fn undeclared_method_path_pair_is_not_found() {
    let step = handle_read(b"DELETE / HTTP/1.1\r\nHost: a\r\n\r\n", true);
    assert_eq!(b"HTTP/1.1 404 Not Found\r\n\r\n".to_vec(), expect_response(step));
    let step = handle_read(b"GET /unknown HTTP/1.1\r\nHost: a\r\n\r\n", true);
    assert_eq!(b"HTTP/1.1 404 Not Found\r\n\r\n".to_vec(), expect_response(step));
    let step = handle_read(b"POST /echo/x HTTP/1.1\r\nHost: a\r\n\r\n", true);
    assert_eq!(b"HTTP/1.1 404 Not Found\r\n\r\n".to_vec(), expect_response(step));
}

#[test]
fn empty_read_closes_silently() {
    assert!(matches!(handle_read(b"", true), ConnectionStep::CloseSilently));
}

#[test]
fn malformed_request_closes_silently() {
    assert!(matches!(
        handle_read(b"GET /\r\n\r\n", true),
        ConnectionStep::CloseSilently
    ));
}

#[test]
fn routes_match_in_declaration_order() {
    assert!(matches!(route(b"GET", b"/"), RouteAction::Root));
    match route(b"GET", b"/echo/hello") {
        RouteAction::Echo(text) => assert_eq!(b"hello".to_vec(), text),
        _ => panic!("expected the echo rule"),
    }
    match route(b"GET", b"/echo/") {
        RouteAction::Echo(text) => assert_eq!(Vec::<u8>::new(), text),
        _ => panic!("expected the echo rule"),
    }
    assert!(matches!(route(b"GET", b"/user-agent"), RouteAction::UserAgent));
    match route(b"GET", b"/files/a.txt") {
        RouteAction::FileGet(name) => assert_eq!(b"a.txt".to_vec(), name),
        _ => panic!("expected the file read rule"),
    }
    match route(b"POST", b"/files/a.txt") {
        RouteAction::FilePost(name) => assert_eq!(b"a.txt".to_vec(), name),
        _ => panic!("expected the file write rule"),
    }
    assert!(matches!(route(b"PUT", b"/"), RouteAction::NotFound));
    assert!(matches!(route(b"GET", b"/Echo/x"), RouteAction::NotFound));
}

#[test]
fn content_length_matches_longer_bodies() {
    let body = vec![b'a'; 12];
    let built = HttpResponse::build(b"200 OK", b"text/plain", None, &body);
    let text = String::from_utf8(built.clone()).unwrap();
    assert!(text.contains("Content-Length: 12\r\n"));
    assert!(built.ends_with(&body));
}
