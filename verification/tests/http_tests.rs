use localhost::http::request::{parse_chunked_from_buffer, HttpRequest};
use localhost::http::response::HttpResponse;

fn b(s: &str) -> Vec<u8> {
    s.as_bytes().to_vec()
}

fn header<'a>(req: &'a HttpRequest, name: &str) -> Option<&'a Vec<u8>> {
    let mut found: Option<&'a Vec<u8>> = None;
    let mut i: usize = 0;
    while i < req.headers.len() {
        if req.headers[i].0.eq_ignore_ascii_case(name.as_bytes()) {
            found = Some(&req.headers[i].1);
        }
        i += 1;
    }
    found
}

#[test]
fn parse_simple_get_request() {
    let raw = b"GET /index.html?x=1 HTTP/1.1\r\nHost: localhost\r\n\r\n";
    let req = HttpRequest::parse(raw).unwrap();
    assert_eq!(req.method, b("GET"));
    assert_eq!(req.path, b("/index.html"));
    assert_eq!(req.query, b("x=1"));
    assert_eq!(req.version, b("HTTP/1.1"));
    assert_eq!(header(&req, "Host"), Some(&b("localhost")));
    assert_eq!(req.body, Vec::<u8>::new());
}

#[test]
fn parse_incomplete_headers_asks_for_more() {
    assert!(HttpRequest::parse(b"GET / HTTP/1.1\r\nHost: x\r\n").is_none());
}

#[test]
fn parse_content_length_body_exact() {
    let raw = b"POST /u HTTP/1.1\r\nContent-Length: 5\r\n\r\nhello";
    let req = HttpRequest::parse(raw).unwrap();
    assert_eq!(req.body, b("hello"));
}

#[test]
fn parse_content_length_waits_for_body() {
    let raw = b"POST /u HTTP/1.1\r\nContent-Length: 5\r\n\r\nhel";
    assert!(HttpRequest::parse(raw).is_none());
}

#[test]
fn parse_body_ignores_surplus_bytes() {
    let raw = b"POST /u HTTP/1.1\r\nContent-Length: 2\r\n\r\nhiEXTRA";
    let req = HttpRequest::parse(raw).unwrap();
    assert_eq!(req.body, b("hi"));
}

#[test]
fn parse_chunked_body_is_chunk_concatenation() {
    let raw = b"POST /u HTTP/1.1\r\nTransfer-Encoding: chunked\r\n\r\n3\r\nabc\r\n2\r\nde\r\n0\r\n\r\n";
    let req = HttpRequest::parse(raw).unwrap();
    assert_eq!(req.body, b("abcde"));
}

#[test]
fn parse_chunked_incomplete_asks_for_more() {
    let raw = b"POST /u HTTP/1.1\r\nTransfer-Encoding: chunked\r\n\r\n5\r\nab";
    assert!(HttpRequest::parse(raw).is_none());
}

#[test]
fn chunked_buffer_hex_sizes() {
    let body = parse_chunked_from_buffer(b"a\r\n0123456789\r\n0\r\n\r\n").unwrap();
    assert_eq!(body, b("0123456789"));
}

#[test]
fn duplicate_header_last_wins() {
    let raw = b"GET / HTTP/1.1\r\nX-K: one\r\nX-K: two\r\n\r\n";
    let req = HttpRequest::parse(raw).unwrap();
    assert_eq!(header(&req, "X-K"), Some(&b("two")));
}

#[test]
fn response_wire_format_with_synthetic_content_length() {
    let mut resp = HttpResponse::ok();
    resp.set_header(b"Content-Type", b"text/plain");
    resp.set_body(b"hi");
    let wire = resp.to_bytes();
    assert_eq!(
        wire,
        b("HTTP/1.1 200 OK\r\nContent-Type: text/plain\r\nContent-Length: 2\r\n\r\nhi")
    );
}

#[test]
fn response_keeps_existing_content_length() {
    let mut resp = HttpResponse::ok();
    resp.set_header(b"Content-Length", b"2");
    resp.set_body(b"hi");
    let wire = resp.to_bytes();
    assert_eq!(wire, b("HTTP/1.1 200 OK\r\nContent-Length: 2\r\n\r\nhi"));
}

#[test]
fn response_set_header_replaces_value() {
    let mut resp = HttpResponse::ok();
    resp.set_header(b"X-A", b"1");
    resp.set_header(b"X-A", b"2");
    let wire = resp.to_bytes();
    assert_eq!(wire, b("HTTP/1.1 200 OK\r\nX-A: 2\r\nContent-Length: 0\r\n\r\n"));
}

#[test]
fn response_round_trip_preserves_everything() {
    let mut resp = HttpResponse::new(404, b"Not Found");
    resp.set_header(b"X-A", b"one");
    resp.set_header(b"Content-Type", b"text/html");
    resp.set_body(b"abc");
    let wire = resp.to_bytes();

    let terminator = wire.windows(4).position(|w| w == b"\r\n\r\n").unwrap();
    let head = String::from_utf8(wire[..terminator].to_vec()).unwrap();
    let mut lines = head.lines();

    let status_line = lines.next().unwrap();
    assert!(status_line.starts_with("HTTP/1.1 "));
    let mut parts = status_line["HTTP/1.1 ".len()..].splitn(2, ' ');
    let code: u16 = parts.next().unwrap().parse().unwrap();
    let text = parts.next().unwrap();
    assert_eq!(code, resp.status_code);
    assert_eq!(text.as_bytes(), resp.status_text.as_slice());

    let mut headers: Vec<(Vec<u8>, Vec<u8>)> = Vec::new();
    for line in lines {
        let (k, v) = line.split_once(':').unwrap();
        headers.push((k.trim().as_bytes().to_vec(), v.trim().as_bytes().to_vec()));
    }
    let mut expected = resp.headers.clone();
    expected.push((b("Content-Length"), b("3")));
    assert_eq!(headers, expected);

    let length: usize = String::from_utf8(headers.last().unwrap().1.clone())
        .unwrap()
        .parse()
        .unwrap();
    let body = &wire[terminator + 4..terminator + 4 + length];
    assert_eq!(body, resp.body.as_slice());
}

#[test]
fn response_status_constructors() {
    assert_eq!(HttpResponse::ok().status_code, 200);
    assert_eq!(HttpResponse::not_found().status_code, 404);
    assert_eq!(HttpResponse::bad_request().status_code, 400);
    assert_eq!(HttpResponse::method_not_allowed().status_code, 405);
    assert_eq!(HttpResponse::forbidden().status_code, 403);
    assert_eq!(HttpResponse::internal_error().status_code, 500);
    assert_eq!(HttpResponse::payload_too_large().status_code, 413);
    assert_eq!(HttpResponse::ok_with_message(b"yo").body, b("yo"));
    assert_eq!(HttpResponse::not_found().status_text, b("Not Found"));
}
