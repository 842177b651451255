use localhost::config::parse_config_string;

fn b(s: &str) -> Vec<u8> {
    s.as_bytes().to_vec()
}

#[test]
fn test_parse_simple_config() {
    let config_str = r#"
        listen = 127.0.0.1:8080
        client_max_body_size = 5000000

        route / {
            methods = GET,POST
            root = www
        }
    "#;

    let config = parse_config_string(config_str);

    assert_eq!(config.listen_addresses, vec![b("127.0.0.1:8080")]);
    assert_eq!(config.client_body_size_limit, 5000000);
    assert_eq!(config.routes.len(), 1);
    assert_eq!(config.routes[0].path, b("/"));
    assert_eq!(config.routes[0].methods, vec![b("GET"), b("POST")]);
}

#[test]
fn test_parse_with_vhost() {
    let config_str = r#"
        listen = 127.0.0.1:8080

        vhost example.com {
            route / {
                methods = GET
                root = www_example
            }
        }
    "#;

    let config = parse_config_string(config_str);

    assert_eq!(config.vhosts.len(), 1);
    assert_eq!(config.vhosts[0].name, b("example.com"));
    assert_eq!(config.vhosts[0].routes.len(), 1);
    assert_eq!(config.vhosts[0].routes[0].path, b("/"));
}

#[test]
fn default_listen_address_when_none_configured() {
    let config = parse_config_string("client_body_size_limit = 42\n");
    assert_eq!(config.listen_addresses, vec![b("127.0.0.1:8080")]);
    assert_eq!(config.client_body_size_limit, 42);
}

#[test]
fn default_body_limit_is_ten_mebibytes() {
    let config = parse_config_string("listen = 127.0.0.1:9000\n");
    assert_eq!(config.client_body_size_limit, 10 * 1024 * 1024);
}

#[test]
fn listen_addresses_deduplicated_and_validated() {
    let config = parse_config_string(
        "listen = 127.0.0.1:8080, 127.0.0.1:8080, 127.0.0.1:9000, nocolon\n",
    );
    assert_eq!(config.listen_addresses, vec![b("127.0.0.1:8080"), b("127.0.0.1:9000")]);
}

#[test]
fn route_without_root_or_redirect_is_dropped() {
    let config = parse_config_string("route /x {\n    methods = GET\n}\n");
    assert_eq!(config.routes.len(), 0);
}

#[test]
fn route_with_redirect_only_is_kept() {
    let config = parse_config_string("route /old {\n    redirect = /new\n}\n");
    assert_eq!(config.routes.len(), 1);
    assert_eq!(config.routes[0].redirect, Some(b("/new")));
}

#[test]
fn route_defaults_fill_methods_and_default_file() {
    let config = parse_config_string("route / {\n    root = www\n}\n");
    assert_eq!(config.routes.len(), 1);
    assert_eq!(config.routes[0].methods, vec![b("GET")]);
    assert_eq!(config.routes[0].default_file, Some(b("index.html")));
    assert!(!config.routes[0].autoindex);
}

#[test]
fn comments_and_unknown_directives_are_skipped() {
    let config = parse_config_string(
        "# a comment\nlisten = 1.2.3.4:80 # trailing\nnonsense here\n",
    );
    assert_eq!(config.listen_addresses, vec![b("1.2.3.4:80")]);
}

#[test]
fn autoindex_and_cgi_and_error_path() {
    let config_str = "error_path = errors\nroute /cgi {\n    root = scripts\n    cgi = on\n    autoindex = YES\n    methods = GET, POST\n}\n";
    let config = parse_config_string(config_str);
    assert_eq!(config.error_path, b("errors"));
    assert_eq!(config.routes.len(), 1);
    assert!(config.routes[0].autoindex);
    assert_eq!(config.routes[0].cgi, Some(b("on")));
    assert_eq!(config.routes[0].methods, vec![b("GET"), b("POST")]);
}

#[test]
fn error_dir_alias_and_default_alias() {
    let config_str = "error_dir = pages\nroute / {\n    root = www\n    default = home.html\n}\n";
    let config = parse_config_string(config_str);
    assert_eq!(config.error_path, b("pages"));
    assert_eq!(config.routes[0].default_file, Some(b("home.html")));
}
