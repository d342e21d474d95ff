//! Upload-then-fetch round trip over a filesystem modelled as a map, with
//! the upload and static roots coinciding.
use serve::body_limit::{collect_within_cap, BODY_CAP};
use serve::handlers::{plan_request, Plan};
use serve::http::Request;
use serve::path_safety::resolve_under_root;
use std::collections::HashMap;

fn bytes(s: &str) -> Vec<u8> {
    s.as_bytes().to_vec()
}

fn request(method: &str, uri: &str) -> Request {
    Request { method: bytes(method), uri: bytes(uri), headers: Vec::new(), remote: None }
}

#[test]
fn upload_then_fetch_returns_the_same_bytes() {
    let root = bytes("./data");
    let capture = bytes("dir/file.bin");
    let body: Vec<u8> = (0u32..4096).map(|i| (i % 251) as u8).collect();
    let mut store: HashMap<Vec<u8>, Vec<u8>> = HashMap::new();

    // upload: resolve the destination under the root and store the
    // admitted body
    let dest = resolve_under_root(&root, &capture).expect("a safe capture resolves");
    let admitted = collect_within_cap(&vec![body.clone()], BODY_CAP).expect("within the cap");
    assert_eq!(admitted, body);
    store.insert(dest, admitted);

    // fetch: the same capture resolves to the same path
    let src = resolve_under_root(&root, &capture).expect("the same capture resolves again");
    assert_eq!(store.get(&src), Some(&body));
}

#[test]
fn upload_and_static_routes_resolve_the_same_relative_file() {
    let up = plan_request(&request("POST", "/upload/a/b.bin"));
    let down = plan_request(&request("GET", "/static/a/b.bin"));
    let dest = match up {
        Plan::Store(p) => p,
        _ => panic!("expected an upload target"),
    };
    let src = match down {
        Plan::SendFile(p) => p,
        _ => panic!("expected a file to serve"),
    };
    assert_eq!(dest, bytes("./upload/a/b.bin"));
    assert_eq!(src, bytes("./static/a/b.bin"));
    // the same relative file under each root
    assert_eq!(&dest[b"./upload".len()..], &src[b"./static".len()..]);
}

#[test]
fn oversized_upload_stores_nothing() {
    let chunks = vec![vec![1u8; (BODY_CAP + 1) as usize]];
    assert_eq!(collect_within_cap(&chunks, BODY_CAP), None);
}
