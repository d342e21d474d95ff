//! The body size cap and the streaming discipline around it.
use serve::body_limit::{
    collect_dump_output, collect_within_cap, within_cap, BodyBudget, BODY_CAP,
};

#[test]
fn cap_constant_is_one_mebibyte() {
    assert_eq!(BODY_CAP, 1024 * 1024);
}

#[test]
fn within_cap_is_exact() {
    assert!(within_cap(0, 0));
    assert!(within_cap(BODY_CAP, BODY_CAP));
    assert!(!within_cap(BODY_CAP + 1, BODY_CAP));
}

#[test]
fn chunked_body_within_cap_is_collected_whole() {
    let chunks = vec![vec![1u8, 2, 3], vec![], vec![4, 5]];
    assert_eq!(collect_within_cap(&chunks, 5), Some(vec![1, 2, 3, 4, 5]));
}

#[test]
fn body_of_exactly_the_cap_succeeds() {
    let chunks = vec![vec![7u8; 512 * 1024], vec![8u8; 512 * 1024]];
    let got = collect_within_cap(&chunks, BODY_CAP).expect("a body of the cap size succeeds");
    assert_eq!(got.len() as u64, BODY_CAP);
}

#[test]
fn body_of_cap_plus_one_fails() {
    let chunks = vec![vec![7u8; 512 * 1024], vec![8u8; 512 * 1024 + 1]];
    assert_eq!(collect_within_cap(&chunks, BODY_CAP), None);
}

#[test]
fn small_cap_boundary() {
    assert_eq!(collect_within_cap(&vec![vec![0u8; 4]], 4), Some(vec![0u8; 4]));
    assert_eq!(collect_within_cap(&vec![vec![0u8; 5]], 4), None);
}

#[test]
fn budget_admits_chunks_up_to_the_cap_only() {
    let mut b = BodyBudget::new(10);
    assert!(b.accept(4));
    assert!(b.accept(6));
    assert!(!b.accept(1));
    assert_eq!(b.used, 10);
    let mut c = BodyBudget::new(3);
    assert!(!c.accept(4));
    assert_eq!(c.used, 0);
}

#[test]
fn dump_output_appends_one_newline() {
    let chunks = vec![b"hello".to_vec(), b" dump".to_vec()];
    assert_eq!(collect_dump_output(&chunks, 16), Some(b"hello dump\n".to_vec()));
}

#[test]
fn dump_over_the_cap_fails_without_output() {
    let chunks = vec![b"hello".to_vec()];
    assert_eq!(collect_dump_output(&chunks, 4), None);
}
