//! Byte-path helpers: joining and parent computation.

use librarian::paths::{join, parent_dir};

#[test]
fn join_inserts_one_separator() {
    assert_eq!(join(b"out", b"a/b.txt"), b"out/a/b.txt".to_vec());
    assert_eq!(join(b"out/", b"a/b.txt"), b"out/a/b.txt".to_vec());
}

#[test]
fn join_with_empty_root_or_absolute_name() {
    assert_eq!(join(b"", b"a.txt"), b"a.txt".to_vec());
    assert_eq!(join(b"out", b"/abs.txt"), b"/abs.txt".to_vec());
}

#[test]
fn parent_strips_last_component() {
    assert_eq!(parent_dir(b"out/zip/compressed.txt"), b"out/zip".to_vec());
    assert_eq!(parent_dir(b"out/zip/"), b"out".to_vec());
    assert_eq!(parent_dir(b"out"), b"".to_vec());
    assert_eq!(parent_dir(b"a//b"), b"a".to_vec());
}
