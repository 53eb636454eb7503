use xposeit::http_tunnel::{
    forward_uri, is_white_space, not_found_body, received_text, reply_status, request_target, subdomain_of_host, trim_text,
    tunnel_name, TunnelRegistry,
};

#[test]
fn request_line_method_and_path() {
    let (m, p) = request_target("GET /index.html {\"host\": \"a.example\"}");
    assert_eq!(m, "GET");
    assert_eq!(p, "/index.html");
    let (m, p) = request_target("  POST\t/api  ");
    assert_eq!(m, "POST");
    assert_eq!(p, "/api");
}

#[test]
fn request_line_defaults() {
    assert_eq!(request_target(""), ("GET".to_string(), "".to_string()));
    assert_eq!(request_target("   \n"), ("GET".to_string(), "".to_string()));
    assert_eq!(request_target("DELETE"), ("DELETE".to_string(), "".to_string()));
    assert_eq!(request_target("PUT\u{a0}/x"), ("PUT".to_string(), "/x".to_string()));
}

#[test]
fn forwarded_uri() {
    assert_eq!(forward_uri("localhost:8000", "/a/b"), "http://localhost:8000/a/b");
    assert_eq!(forward_uri("127.0.0.1:3000", ""), "http://127.0.0.1:3000");
}

#[test]
fn host_first_label() {
    assert_eq!(subdomain_of_host("app.example.com"), "app");
    assert_eq!(subdomain_of_host("localhost:8080"), "localhost:8080");
    assert_eq!(subdomain_of_host(""), "");
    assert_eq!(subdomain_of_host(".example"), "");
    assert_eq!(subdomain_of_host("é.x"), "é");
}

#[test]
fn registration_names() {
    assert_eq!(tunnel_name(b"  myapp\r\n"), "myapp");
    assert_eq!(tunnel_name(b"\t\n "), "");
    assert_eq!(tunnel_name(b"a b"), "a b");
    assert_eq!(tunnel_name(&[b'x', 0xff, b'y']), "x\u{fffd}y");
    assert_eq!(trim_text("\u{3000}mid\u{2003}"), "mid");
}

#[test]
fn replies() {
    assert_eq!(reply_status(true), 200);
    assert_eq!(reply_status(false), 404);
    assert_eq!(not_found_body(), "Tunnel not found");
}

#[test]
fn registry_take_and_replace() {
    let mut r: TunnelRegistry<u32> = TunnelRegistry::new();
    assert_eq!(r.take("app"), None);
    r.insert("app".to_string(), 1);
    r.insert("web".to_string(), 2);
    r.insert("app".to_string(), 3);
    assert_eq!(r.take("app"), Some(3));
    assert_eq!(r.take("app"), None);
    assert_eq!(r.take("web"), Some(2));
    assert_eq!(r.take("ap"), None);
}

#[test]
fn request_line_of_a_real_request() {
    assert_eq!(
        request_target("GET /index.html HTTP/1.1"),
        ("GET".to_string(), "/index.html".to_string())
    );
    assert_eq!(tunnel_name(b"app\n"), "app");
}

#[test]
fn received_text_decodes_and_replaces() {
    assert_eq!(received_text(b"GET / HTTP/1.1"), "GET / HTTP/1.1");
    assert_eq!(received_text(&[0xc3, 0xa9]), "\u{e9}");
    assert_eq!(received_text(&[0xc3]), "\u{fffd}");
}

#[test]
fn white_space_set() {
    for c in ['\t', '\n', '\u{b}', '\u{c}', '\r', ' ', '\u{85}', '\u{a0}', '\u{1680}', '\u{2000}', '\u{200a}', '\u{2028}', '\u{2029}', '\u{202f}', '\u{205f}', '\u{3000}'] {
        assert!(is_white_space(c));
        assert!(c.is_whitespace());
    }
    for c in ['a', '\u{200b}', '\u{180e}', '\u{feff}', '\0', '\u{1c}'] {
        assert_eq!(is_white_space(c), c.is_whitespace());
    }
    for u in 0u32..0x3100 {
        if let Some(c) = char::from_u32(u) {
            assert_eq!(is_white_space(c), c.is_whitespace());
        }
    }
}
