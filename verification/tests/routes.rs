//! Routing, fixed responses, path safety, and header injection.
use serve::handlers::{plan_request, static_target, upload_target, Plan};
use serve::http::{Header, Request, Response};
use serve::middleware::inject_headers;
use serve::path_safety::check_rel_path;
use serve::router::{dispatch, RouteMatch};

fn bytes(s: &str) -> Vec<u8> {
    s.as_bytes().to_vec()
}

fn request(method: &str, uri: &str, headers: &[(&str, &str)], remote: Option<&str>) -> Request {
    Request {
        method: bytes(method),
        uri: bytes(uri),
        headers: headers
            .iter()
            .map(|(n, v)| Header { name: bytes(n), value: bytes(v) })
            .collect(),
        remote: remote.map(bytes),
    }
}

fn reply_of(plan: Plan) -> Response {
    match plan {
        Plan::Reply(r) => r,
        _ => panic!("expected an immediate reply"),
    }
}

const NOT_FOUND_HTML: &str = "<!DOCTYPE html>\n<html>\n<head>\n    <meta charset=\"utf-8\">\n    <title>404 Not Found</title>\n</head>\n<body align=\"center\">\n    <div align=\"center\">\n        <h1>404: Not Found</h1>\n        <p>The requested resource could not be found.</p>\n    </div>\n</body>\n</html>";

#[test]
fn ping_is_200_ok_crlf() {
    let r = serve::http::ping();
    assert_eq!(r.status, 200);
    assert_eq!(r.body, b"OK\r\n".to_vec());
    assert!(r.headers.is_empty());
}

#[test]
fn robots_is_200_with_directive() {
    let r = serve::http::robots();
    assert_eq!(r.status, 200);
    assert_eq!(r.body, b"User-agent: *\r\nDisallow: /\r\n".to_vec());
}

#[test]
fn not_found_is_404_with_fixed_html() {
    let r = serve::http::not_found();
    assert_eq!(r.status, 404);
    assert_eq!(r.body, NOT_FOUND_HTML.as_bytes().to_vec());
}

#[test]
fn not_found_is_byte_identical_across_calls() {
    let a = serve::http::not_found();
    let b = serve::http::not_found();
    assert_eq!(a.body, b.body);
    assert_eq!(a.status, b.status);
}

#[test]
fn ping_response_ignores_headers() {
    let bare = request("GET", "/ping", &[], None);
    let loaded = request(
        "GET",
        "/ping",
        &[("Accept", "*/*"), ("X-Anything", "yes"), ("Cookie", "a=1")],
        Some("10.0.0.9"),
    );
    let ra = reply_of(plan_request(&bare));
    let rb = reply_of(plan_request(&loaded));
    assert_eq!(ra.status, 200);
    assert_eq!(ra.body, b"OK\r\n".to_vec());
    assert_eq!(ra.status, rb.status);
    assert_eq!(ra.body, rb.body);
}

#[test]
fn dispatch_selects_the_fixed_routes() {
    assert!(matches!(dispatch(&bytes("GET"), &bytes("/ping")), RouteMatch::Ping));
    assert!(matches!(dispatch(&bytes("GET"), &bytes("/robots.txt")), RouteMatch::Robots));
    assert!(matches!(dispatch(&bytes("POST"), &bytes("/dump")), RouteMatch::Dump));
    match dispatch(&bytes("GET"), &bytes("/static/css/site.css")) {
        RouteMatch::StaticFile(c) => assert_eq!(c, bytes("css/site.css")),
        _ => panic!("expected the static route"),
    }
    match dispatch(&bytes("POST"), &bytes("/upload/data/file.bin")) {
        RouteMatch::Upload(c) => assert_eq!(c, bytes("data/file.bin")),
        _ => panic!("expected the upload route"),
    }
}

#[test]
fn dispatch_misses_fall_through() {
    assert!(matches!(dispatch(&bytes("GET"), &bytes("/missing")), RouteMatch::NotFound));
    assert!(matches!(dispatch(&bytes("POST"), &bytes("/ping")), RouteMatch::NotFound));
    assert!(matches!(dispatch(&bytes("GET"), &bytes("/dump")), RouteMatch::NotFound));
    assert!(matches!(dispatch(&bytes("PUT"), &bytes("/ping")), RouteMatch::NotFound));
    assert!(matches!(dispatch(&bytes("GET"), &bytes("/upload/x")), RouteMatch::NotFound));
    assert!(matches!(dispatch(&bytes("get"), &bytes("/ping")), RouteMatch::NotFound));
}

#[test]
fn unmatched_requests_get_the_fixed_html() {
    let a = reply_of(plan_request(&request("GET", "/nope", &[], None)));
    let b = reply_of(plan_request(&request("DELETE", "/ping", &[], Some("1.2.3.4"))));
    assert_eq!(a.status, 404);
    assert_eq!(a.body, NOT_FOUND_HTML.as_bytes().to_vec());
    assert_eq!(b.status, 404);
    assert_eq!(a.body, b.body);
}

#[test]
fn safe_captures_resolve_under_the_roots() {
    match plan_request(&request("GET", "/static/css/site.css", &[], None)) {
        Plan::SendFile(p) => assert_eq!(p, bytes("./static/css/site.css")),
        _ => panic!("expected a file to serve"),
    }
    match plan_request(&request("POST", "/upload/data/file.bin", &[], None)) {
        Plan::Store(p) => assert_eq!(p, bytes("./upload/data/file.bin")),
        _ => panic!("expected a file to store"),
    }
    assert_eq!(static_target(&bytes("a")), Some(bytes("./static/a")));
    assert_eq!(upload_target(&bytes("a/b.txt")), Some(bytes("./upload/a/b.txt")));
    // a name that merely starts with dots is an ordinary name
    assert_eq!(static_target(&bytes("..a/b")), Some(bytes("./static/..a/b")));
}

#[test]
fn traversal_and_malformed_captures_are_not_found() {
    for bad in [
        "../secret",
        "a/../b",
        "..",
        ".",
        "a/./b",
        "a//b",
        "/abs",
        "a/",
        "",
        "a/..",
        "./a",
    ] {
        assert_eq!(static_target(&bytes(bad)), None, "capture {:?}", bad);
        assert_eq!(upload_target(&bytes(bad)), None, "capture {:?}", bad);
        let r = reply_of(plan_request(&request("GET", &format!("/static/{}", bad), &[], None)));
        assert_eq!(r.status, 404, "capture {:?}", bad);
    }
    let mut with_nul = bytes("a");
    with_nul.push(0);
    with_nul.extend_from_slice(b"b");
    assert!(!check_rel_path(&with_nul));
}

#[test]
fn traversal_never_serves_outside_content() {
    let r = reply_of(plan_request(&request("GET", "/static/../main.rs", &[], None)));
    assert_eq!(r.status, 404);
    assert_eq!(r.body, NOT_FOUND_HTML.as_bytes().to_vec());
}

#[test]
fn injection_sets_the_fixed_headers() {
    let mut r = serve::http::ping();
    inject_headers(&mut r);
    assert_eq!(r.status, 200);
    assert_eq!(r.body, b"OK\r\n".to_vec());
    assert_eq!(r.headers.len(), 2);
    assert_eq!(r.headers[0].name, bytes("Server"));
    assert_eq!(r.headers[0].value, bytes("NeXTcube"));
    assert_eq!(r.headers[1].name, bytes("Accept-CH"));
    assert_eq!(
        r.headers[1].value,
        bytes(
            "Sec-CH-UA-Full-Version,Sec-CH-UA-Platform,Sec-CH-UA-Platform-Version,Sec-CH-UA-Arch,Sec-CH-UA-Bitness,Sec-CH-UA-Model"
        )
    );
}

#[test]
fn injection_replaces_prior_values_and_keeps_the_rest() {
    let mut r = serve::http::ping();
    r.headers.push(Header { name: bytes("server"), value: bytes("other") });
    r.headers.push(Header { name: bytes("Content-Type"), value: bytes("text/plain") });
    r.headers.push(Header { name: bytes("ACCEPT-CH"), value: bytes("stale") });
    inject_headers(&mut r);
    assert_eq!(r.headers.len(), 3);
    assert_eq!(r.headers[0].name, bytes("Content-Type"));
    assert_eq!(r.headers[1].name, bytes("Server"));
    assert_eq!(r.headers[1].value, bytes("NeXTcube"));
    assert_eq!(r.headers[2].name, bytes("Accept-CH"));
}
