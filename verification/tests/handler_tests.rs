use localhost::config::{RouteConfig, ServerConfig};
use localhost::handlers::cgi::{
    cgi_env, extract_cgi_headers_body, gateway_timeout_response, interpreter_for, parse_cgi_output,
    CgiInterpreter,
};
use localhost::handlers::directory::list_directory;
use localhost::handlers::remove_file::{
    build_safe_path, delete_target, extract_file_path, is_safe_path,
};
use localhost::handlers::session::{create_session_id, get_session_id};
use localhost::handlers::upload_file::{
    extract_boundary, handle_multipart, sanitize_filename, upload_file, UploadOutcome,
};
use localhost::http::request::HttpRequest;
use localhost::network::connection::{ClientConnection, ConnState};
use localhost::network::router::{route_request, RouteDecision};
use localhost::network::server::{keep_alive_requested, should_reset, Server};

fn b(s: &str) -> Vec<u8> {
    s.as_bytes().to_vec()
}

fn upload_config() -> ServerConfig {
    ServerConfig {
        listen_addresses: vec![b("127.0.0.1:8080")],
        client_body_size_limit: 10 * 1024 * 1024,
        routes: vec![RouteConfig {
            path: b("/upload"),
            methods: vec![b("GET"), b("POST"), b("DELETE")],
            root: b("uploads"),
            default_file: None,
            autoindex: false,
            cgi: None,
            redirect: None,
        }],
        error_path: b("errors"),
        vhosts: Vec::new(),
    }
}

#[test]
fn multipart_upload_extracts_file() {
    let body = b"--B\r\nContent-Disposition: form-data; name=\"f\"; filename=\"t.txt\"\r\n\r\nabc\r\n--B--\r\n";
    let mut raw = Vec::new();
    raw.extend_from_slice(b"POST /upload HTTP/1.1\r\nHost: x\r\n");
    raw.extend_from_slice(b"Content-Type: multipart/form-data; boundary=B\r\n");
    raw.extend_from_slice(format!("Content-Length: {}\r\n\r\n", body.len()).as_bytes());
    raw.extend_from_slice(body);

    let req = HttpRequest::parse(&raw).unwrap();
    let cfg = upload_config();
    assert!(matches!(route_request(&req, &cfg), RouteDecision::Upload { .. }));

    match upload_file(&req, cfg.client_body_size_limit) {
        UploadOutcome::Save { filename, data } => {
            assert_eq!(filename, b("t.txt"));
            assert_eq!(data, b("abc"));
        },
        other => panic!("unexpected outcome: {:?}", other),
    }
}

#[test]
fn multipart_without_boundary_is_bad_request() {
    match handle_multipart(b"multipart/form-data", b"--X\r\n\r\ndata", 100) {
        UploadOutcome::Reject { code, .. } => assert_eq!(code, 400),
        other => panic!("unexpected outcome: {:?}", other),
    }
}

#[test]
fn multipart_over_limit_is_rejected() {
    let body = b"--B\r\nContent-Disposition: form-data; filename=\"t.txt\"\r\n\r\n0123456789\r\n--B--\r\n";
    match handle_multipart(b"multipart/form-data; boundary=B", body, 3) {
        UploadOutcome::Reject { code, .. } => assert_eq!(code, 413),
        other => panic!("unexpected outcome: {:?}", other),
    }
}

#[test]
fn raw_upload_uses_x_filename() {
    let raw = b"POST /upload HTTP/1.1\r\nX-Filename: no/tes .txt\r\nContent-Length: 2\r\n\r\nhi";
    let req = HttpRequest::parse(raw).unwrap();
    match upload_file(&req, 100) {
        UploadOutcome::Save { filename, data } => {
            assert_eq!(filename, b("notes.txt"));
            assert_eq!(data, b("hi"));
        },
        other => panic!("unexpected outcome: {:?}", other),
    }
}

#[test]
fn oversized_upload_is_rejected() {
    let raw = b"POST /upload HTTP/1.1\r\nContent-Length: 5\r\n\r\nabcde";
    let req = HttpRequest::parse(raw).unwrap();
    match upload_file(&req, 4) {
        UploadOutcome::Reject { code, message } => {
            assert_eq!(code, 413);
            assert_eq!(message, b("Payload Too Large"));
        },
        other => panic!("unexpected outcome: {:?}", other),
    }
}

#[test]
fn boundary_extraction_handles_quotes() {
    assert_eq!(
        extract_boundary(b"multipart/form-data; boundary=\"xyz\""),
        Some(b("xyz"))
    );
    assert_eq!(extract_boundary(b"multipart/form-data; boundary= abc "), Some(b("abc")));
    assert_eq!(extract_boundary(b"multipart/form-data"), None);
}

#[test]
fn filename_sanitization_keeps_safe_bytes() {
    assert_eq!(sanitize_filename(b"../../etc/passwd"), b("....etcpasswd"));
    assert_eq!(sanitize_filename(b"a b\tc.txt"), b("abc.txt"));
    assert_eq!(sanitize_filename(b"A-1_b.X"), b("A-1_b.X"));
}

#[test]
fn delete_request_resolves_upload_target() {
    let req = HttpRequest::parse(b"DELETE /upload/t.txt HTTP/1.1\r\nHost: x\r\n\r\n").unwrap();
    let cfg = upload_config();
    assert!(matches!(route_request(&req, &cfg), RouteDecision::Delete));
    assert_eq!(delete_target(&req.path), Some(b("uploads/t.txt")));
}

#[test]
fn delete_refuses_escaping_paths() {
    assert_eq!(extract_file_path(b"/upload/a.txt"), b("a.txt"));
    assert_eq!(build_safe_path(b"uploads", b"a/../b"), b("uploads/a"));
    assert!(is_safe_path(b"uploads/a.txt"));
    assert!(!is_safe_path(b"elsewhere/a.txt"));
    assert_eq!(delete_target(b"/upload/x/y.txt"), Some(b("uploads/x/y.txt")));
}

#[test]
fn cgi_interpreter_by_extension() {
    assert_eq!(interpreter_for(b"scripts/hello.py"), CgiInterpreter::Python);
    assert_eq!(interpreter_for(b"scripts/run.sh"), CgiInterpreter::Sh);
    assert_eq!(interpreter_for(b"scripts/prog.exe"), CgiInterpreter::Unsupported);
}

#[test]
fn cgi_output_with_content_type_and_body() {
    let resp = parse_cgi_output(b"Content-Type: text/plain\r\n\r\nhello", b"");
    assert_eq!(resp.status_code, 200);
    assert_eq!(resp.body, b("hello"));
    assert_eq!(resp.headers, vec![(b("Content-Type"), b("text/plain"))]);
}

#[test]
fn cgi_status_header_sets_code() {
    let resp = parse_cgi_output(b"Status: 404 Missing\r\nContent-Type: text/html\r\n\r\nnope", b"");
    assert_eq!(resp.status_code, 404);
    assert_eq!(resp.status_text, b("Missing"));
    assert_eq!(resp.body, b("nope"));
}

#[test]
fn cgi_output_defaults_content_type() {
    let resp = parse_cgi_output(b"X-Custom: 1\n\nbody", b"");
    assert_eq!(resp.status_code, 200);
    assert_eq!(resp.body, b("body"));
    assert_eq!(
        resp.headers,
        vec![
            (b("X-Custom"), b("1")),
            (b("Content-Type"), b("text/plain; charset=utf-8")),
        ]
    );
}

#[test]
fn empty_cgi_output_is_internal_error() {
    let resp = parse_cgi_output(b"", b"boom");
    assert_eq!(resp.status_code, 500);
    assert_eq!(resp.body, b("CGI error: boom"));
    let quiet = parse_cgi_output(b"", b" \r\n");
    assert_eq!(quiet.body, b("CGI produced no output"));
}

#[test]
fn cgi_timeout_response_is_504() {
    let resp = gateway_timeout_response();
    assert_eq!(resp.status_code, 504);
    assert_eq!(resp.status_text, b("Gateway Timeout"));
    assert_eq!(resp.body, b("CGI script timed out"));
}

#[test]
fn cgi_environment_holds_request_facts() {
    let raw = b"POST /cgi/a.py?k=v HTTP/1.1\r\nHost: x\r\nContent-Type: text/x\r\n\r\n";
    let req = HttpRequest::parse(raw).unwrap();
    let env = cgi_env(b"scripts/a.py", b"/cgi/a.py", &req);
    assert!(env.contains(&(b("REQUEST_METHOD"), b("POST"))));
    assert!(env.contains(&(b("SCRIPT_NAME"), b("scripts/a.py"))));
    assert!(env.contains(&(b("PATH_INFO"), b("/cgi/a.py"))));
    assert!(env.contains(&(b("CONTENT_LENGTH"), b("0"))));
    assert!(env.contains(&(b("SERVER_PROTOCOL"), b("HTTP/1.1"))));
    assert!(env.contains(&(b("GATEWAY_INTERFACE"), b("CGI/1.1"))));
    assert!(env.contains(&(b("QUERY_STRING"), b("k=v"))));
    assert!(env.contains(&(b("CONTENT_TYPE"), b("text/x"))));
    assert!(env.contains(&(b("HTTP_HOST"), b("x"))));
    assert!(env.contains(&(b("HTTP_CONTENT_TYPE"), b("text/x"))));
}

#[test]
fn cgi_header_body_split_variants() {
    let (h, body) = extract_cgi_headers_body(b"A: 1\r\n\r\nrest");
    assert_eq!(h, b("A: 1"));
    assert_eq!(body, b("rest"));
    let (h2, body2) = extract_cgi_headers_body(b"A: 1\n\nrest");
    assert_eq!(h2, b("A: 1"));
    assert_eq!(body2, b("rest"));
    let (h3, body3) = extract_cgi_headers_body(b"no split");
    assert_eq!(h3, b(""));
    assert_eq!(body3, b("no split"));
}

#[test]
fn directory_listing_links_entries() {
    let resp = list_directory(b"/files/", &vec![b("a.txt"), b("sub")]);
    assert_eq!(resp.status_code, 200);
    let html = String::from_utf8(resp.body).unwrap();
    assert_eq!(
        html,
        "<h1>Index of /files/</h1><ul><li><a href=\"/files/a.txt\">a.txt</a></li><li><a href=\"/files/sub\">sub</a></li></ul>"
    );
}

#[test]
fn directory_listing_at_root_prefixes_slash() {
    let resp = list_directory(b"/", &vec![b("f")]);
    let html = String::from_utf8(resp.body).unwrap();
    assert!(html.contains("<li><a href=\"/f\">f</a></li>"));
}

#[test]
fn session_id_round_trip() {
    let sid = create_session_id();
    assert!(sid.starts_with(b"SID_"));
    let header = format!("other=1; SID={}", String::from_utf8(sid.clone()).unwrap());
    assert_eq!(get_session_id(Some(header.as_bytes())), Some(sid));
    assert_eq!(get_session_id(None), None);
    assert_eq!(get_session_id(Some(b"theme=dark")), None);
}

#[test]
fn keep_alive_header_decides() {
    let close_req = HttpRequest::parse(b"GET / HTTP/1.1\r\nConnection: CLOSE\r\n\r\n").unwrap();
    assert!(!keep_alive_requested(&close_req.headers));
    let keep_req = HttpRequest::parse(b"GET / HTTP/1.1\r\nConnection: keep-alive\r\n\r\n").unwrap();
    assert!(keep_alive_requested(&keep_req.headers));
    let silent_req = HttpRequest::parse(b"GET / HTTP/1.1\r\nHost: x\r\n\r\n").unwrap();
    assert!(keep_alive_requested(&silent_req.headers));
}

#[test]
fn connection_lifecycle_and_intent() {
    let mut conn = ClientConnection::new(1000);
    assert!(conn.wants_read());
    assert!(!conn.wants_write());
    conn.on_read_data(b"GET ", 2000);
    assert_eq!(conn.read_buffer, b("GET "));
    assert_eq!(conn.request_started_at, Some(2000));
    conn.queue_response(b("HTTP/1.1 200 OK\r\n\r\n"));
    assert!(!conn.wants_read());
    assert!(conn.wants_write());
    let done = conn.on_wrote(5, 3000);
    assert!(!done);
    let done = conn.on_wrote(conn.write_buffer.len() - conn.bytes_written, 3500);
    assert!(done);
    assert!(should_reset(&conn));
    conn.reset_for_next_request();
    assert_eq!(conn.requests_handled, 1);
    assert!(conn.wants_read());
    conn.mark_closing();
    assert!(!conn.wants_read());
    assert!(!conn.wants_write());
    assert_eq!(conn.state, ConnState::Closing);
}

#[test]
fn timeouts_fire_after_their_windows() {
    let mut conn = ClientConnection::new(0);
    assert!(!conn.is_idle_timeout(30_000, 30));
    assert!(conn.is_idle_timeout(31_000, 30));
    conn.on_read_data(b"G", 1_000);
    assert!(!conn.is_request_timeout(60_000, 60));
    assert!(conn.is_request_timeout(62_001, 60));
    conn.queue_response(b("x"));
    assert!(!conn.is_request_timeout(500_000, 60));
}

#[test]
fn server_interest_follows_state() {
    let cfg = upload_config();
    let server = Server::new(cfg);
    assert!(server.get_interest_for_state(ConnState::Reading).read);
    assert!(!server.get_interest_for_state(ConnState::Reading).write);
    assert!(server.get_interest_for_state(ConnState::Writing).write);
    assert!(!server.get_interest_for_state(ConnState::Writing).read);
}
