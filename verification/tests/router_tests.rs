use localhost::config::{RouteConfig, ServerConfig, VHost};
use localhost::http::request::HttpRequest;
use localhost::network::router::{
    error_response, find_route, get_content_type, is_path_safe, redirect_response, route_request,
    sanitize_path, url_decode, RouteDecision,
};

fn b(s: &str) -> Vec<u8> {
    s.as_bytes().to_vec()
}

fn route(path: &str, methods: &[&str], root: &str) -> RouteConfig {
    RouteConfig {
        path: b(path),
        methods: methods.iter().map(|m| b(m)).collect(),
        root: b(root),
        default_file: Some(b("index.html")),
        autoindex: false,
        cgi: None,
        redirect: None,
    }
}

fn config(routes: Vec<RouteConfig>) -> ServerConfig {
    ServerConfig {
        listen_addresses: vec![b("127.0.0.1:8080")],
        client_body_size_limit: 10 * 1024 * 1024,
        routes,
        error_path: b("errors"),
        vhosts: Vec::new(),
    }
}

fn parse(raw: &[u8]) -> HttpRequest {
    HttpRequest::parse(raw).unwrap()
}

#[test]
fn root_request_resolves_default_file() {
    let req = parse(b"GET / HTTP/1.1\r\nHost: x\r\n\r\n");
    let cfg = config(vec![route("/", &["GET"], "www")]);
    match route_request(&req, &cfg) {
        RouteDecision::ServeStatic { fs_path, .. } => {
            assert_eq!(fs_path, b("www/index.html"));
            assert_eq!(get_content_type(&fs_path), b("text/html"));
        },
        other => panic!("unexpected decision: {:?}", other),
    }
}

#[test]
fn served_file_response_has_exact_wire_form() {
    let req = parse(b"GET / HTTP/1.1\r\nHost: x\r\n\r\n");
    let cfg = config(vec![route("/", &["GET"], "www")]);
    let fs_path = match route_request(&req, &cfg) {
        RouteDecision::ServeStatic { fs_path, .. } => fs_path,
        other => panic!("unexpected decision: {:?}", other),
    };
    let mut resp = localhost::http::response::HttpResponse::ok();
    resp.set_header(b"Content-Type", &get_content_type(&fs_path));
    resp.set_body(b"hi");
    let wire = resp.to_bytes();
    assert!(wire.starts_with(b"HTTP/1.1 200 OK\r\n"));
    let text = String::from_utf8(wire.clone()).unwrap();
    assert!(text.contains("Content-Type: text/html\r\n"));
    assert!(text.contains("Content-Length: 2\r\n"));
    assert!(text.ends_with("\r\n\r\nhi"));
}

#[test]
fn traversal_path_is_forbidden() {
    let req = parse(b"GET /a/../b HTTP/1.1\r\nHost: x\r\n\r\n");
    let cfg = config(vec![route("/", &["GET"], "www")]);
    match route_request(&req, &cfg) {
        RouteDecision::ErrorPage { code, message, .. } => {
            assert_eq!(code, 403);
            assert_eq!(message, b("Forbidden"));
        },
        other => panic!("unexpected decision: {:?}", other),
    }
}

#[test]
fn encoded_traversal_is_forbidden() {
    let req = parse(b"GET /a/%2e%2e/b HTTP/1.1\r\nHost: x\r\n\r\n");
    let cfg = config(vec![route("/", &["GET"], "www")]);
    assert!(matches!(
        route_request(&req, &cfg),
        RouteDecision::ErrorPage { code: 403, .. }
    ));
}

#[test]
fn double_slash_is_forbidden() {
    let req = parse(b"GET //etc HTTP/1.1\r\nHost: x\r\n\r\n");
    let cfg = config(vec![route("/", &["GET"], "www")]);
    assert!(matches!(
        route_request(&req, &cfg),
        RouteDecision::ErrorPage { code: 403, .. }
    ));
}

#[test]
fn old_http_version_is_bad_request() {
    let req = parse(b"GET /x HTTP/1.0\r\nHost: x\r\n\r\n");
    let cfg = config(vec![route("/", &["GET"], "www")]);
    match route_request(&req, &cfg) {
        RouteDecision::ErrorPage { code, message, .. } => {
            assert_eq!(code, 400);
            assert_eq!(message, b("Bad Request"));
        },
        other => panic!("unexpected decision: {:?}", other),
    }
}

#[test]
fn oversized_body_is_payload_too_large() {
    let req = parse(b"POST /u HTTP/1.1\r\nContent-Length: 4\r\n\r\nabcd");
    let mut cfg = config(vec![route("/", &["GET", "POST"], "www")]);
    cfg.client_body_size_limit = 3;
    assert!(matches!(
        route_request(&req, &cfg),
        RouteDecision::ErrorPage { code: 413, .. }
    ));
}

#[test]
fn unmatched_path_is_not_found() {
    let req = parse(b"GET /zzz HTTP/1.1\r\nHost: x\r\n\r\n");
    let cfg = config(vec![route("/api", &["GET"], "www")]);
    assert!(matches!(
        route_request(&req, &cfg),
        RouteDecision::ErrorPage { code: 404, .. }
    ));
}

#[test]
fn disallowed_method_is_405() {
    let req = parse(b"DELETE /x HTTP/1.1\r\nHost: x\r\n\r\n");
    let cfg = config(vec![route("/", &["GET", "POST"], "www")]);
    assert!(matches!(
        route_request(&req, &cfg),
        RouteDecision::ErrorPage { code: 405, .. }
    ));
}

#[test]
fn longest_prefix_wins() {
    let req = parse(b"GET /api/v1/users HTTP/1.1\r\nHost: x\r\n\r\n");
    let routes = vec![
        route("/", &["GET"], "www"),
        route("/api", &["GET"], "api_root"),
        route("/api/v1", &["GET"], "api_v1"),
    ];
    let matched = find_route(&req, &routes).unwrap();
    assert_eq!(matched.path, b("/api/v1"));
    assert_eq!(matched.root, b("api_v1"));
}

#[test]
fn equal_prefix_tie_goes_to_first_declared() {
    let req = parse(b"GET /x HTTP/1.1\r\nHost: x\r\n\r\n");
    let routes = vec![route("/", &["GET"], "first_root"), route("/", &["GET"], "second_root")];
    let matched = find_route(&req, &routes).unwrap();
    assert_eq!(matched.root, b("first_root"));
    let cfg = config(routes);
    match route_request(&req, &cfg) {
        RouteDecision::ServeStatic { fs_path, .. } => assert_eq!(fs_path, b("first_root/x")),
        other => panic!("unexpected decision: {:?}", other),
    }
}

#[test]
fn redirect_route_yields_location() {
    let mut r = route("/old", &["GET"], "");
    r.redirect = Some(b("https://example.com/new"));
    let req = parse(b"GET /old HTTP/1.1\r\nHost: x\r\n\r\n");
    let cfg = config(vec![r]);
    match route_request(&req, &cfg) {
        RouteDecision::Redirect { location } => {
            let resp = redirect_response(&location);
            let wire = resp.to_bytes();
            assert!(wire.starts_with(b"HTTP/1.1 302 Found\r\n"));
            let text = String::from_utf8(wire).unwrap();
            assert!(text.contains("Location: https://example.com/new\r\n"));
        },
        other => panic!("unexpected decision: {:?}", other),
    }
}

#[test]
fn vhost_routes_selected_by_host_header() {
    let req = parse(b"GET / HTTP/1.1\r\nHost: example.com:8080\r\n\r\n");
    let mut cfg = config(vec![route("/", &["GET"], "global_root")]);
    cfg.vhosts = vec![VHost {
        name: b("example.com"),
        error_path: b("vhost_errors"),
        routes: vec![route("/", &["GET"], "vhost_root")],
    }];
    match route_request(&req, &cfg) {
        RouteDecision::ServeStatic { fs_path, .. } => assert_eq!(fs_path, b("vhost_root/index.html")),
        other => panic!("unexpected decision: {:?}", other),
    }
}

#[test]
fn unknown_host_falls_back_to_global_routes() {
    let req = parse(b"GET / HTTP/1.1\r\nHost: other.org\r\n\r\n");
    let mut cfg = config(vec![route("/", &["GET"], "global_root")]);
    cfg.vhosts = vec![VHost {
        name: b("example.com"),
        error_path: b("vhost_errors"),
        routes: vec![route("/", &["GET"], "vhost_root")],
    }];
    match route_request(&req, &cfg) {
        RouteDecision::ServeStatic { fs_path, .. } => {
            assert_eq!(fs_path, b("global_root/index.html"))
        },
        other => panic!("unexpected decision: {:?}", other),
    }
}

#[test]
fn url_decode_handles_escapes() {
    assert_eq!(url_decode(b"a%20b"), b("a b"));
    assert_eq!(url_decode(b"a+b"), b("a b"));
    assert_eq!(url_decode(b"%2e%2E"), b(".."));
    assert_eq!(url_decode(b"%zz"), b("%zz"));
    assert_eq!(url_decode(b"%a"), b("%a"));
}

#[test]
fn path_safety_checks() {
    assert!(is_path_safe(b"/a/b.html"));
    assert!(!is_path_safe(b"/a/../b"));
    assert!(!is_path_safe(b"/a//b"));
    assert!(!is_path_safe(b"/a%00"));
    assert!(!is_path_safe(b"/%2e%2e/x"));
}

#[test]
fn sanitize_path_joins_or_rejects() {
    assert_eq!(sanitize_path(b"www", b"a/b.txt"), Some(b("www/a/b.txt")));
    assert_eq!(sanitize_path(b"www", b"./a"), Some(b("www/a")));
    assert_eq!(sanitize_path(b"www", b"../a"), None);
    assert_eq!(sanitize_path(b"www", b"a/%2e%2e/b"), None);
    assert_eq!(sanitize_path(b"www", b"/abs"), None);
}

#[test]
fn content_types_by_extension() {
    assert_eq!(get_content_type(b"x.html"), b("text/html"));
    assert_eq!(get_content_type(b"x.css"), b("text/css"));
    assert_eq!(get_content_type(b"x.js"), b("application/javascript"));
    assert_eq!(get_content_type(b"x.json"), b("application/json"));
    assert_eq!(get_content_type(b"x.png"), b("image/png"));
    assert_eq!(get_content_type(b"x.jpg"), b("image/jpeg"));
    assert_eq!(get_content_type(b"x.jpeg"), b("image/jpeg"));
    assert_eq!(get_content_type(b"x.gif"), b("image/gif"));
    assert_eq!(get_content_type(b"x.txt"), b("text/plain"));
    assert_eq!(get_content_type(b"x.bin"), b("application/octet-stream"));
}

#[test]
fn error_response_synthesizes_fallback_body() {
    let resp = error_response(404, b"Not Found", None);
    assert_eq!(resp.status_code, 404);
    assert_eq!(resp.body, b("<h1>404 - Not Found</h1>"));
}

#[test]
fn error_response_uses_page_when_present() {
    let resp = error_response(500, b"Internal Server Error", Some(b("<h1>boom</h1>")));
    assert_eq!(resp.status_code, 500);
    assert_eq!(resp.body, b("<h1>boom</h1>"));
    assert_eq!(resp.headers, vec![(b("Content-Type"), b("text/html"))]);
}
