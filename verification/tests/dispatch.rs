//! Format dispatch and path handling.

use librarian::paths::file_name_component;
use librarian::{detect_format, ArchiveFormat};

#[test]
fn zip_suffix_selects_zip() {
    assert_eq!(detect_format(b"file.zip"), Some(ArchiveFormat::Zip));
}

#[test]
fn tar_gz_and_tgz_select_gzipped_tar() {
    assert_eq!(detect_format(b"file.tar.gz"), Some(ArchiveFormat::TarGz));
    assert_eq!(detect_format(b"file.tgz"), Some(ArchiveFormat::TarGz));
}

#[test]
fn tar_suffix_selects_tar() {
    assert_eq!(detect_format(b"file.tar"), Some(ArchiveFormat::Tar));
}

#[test]
fn tar_gz_is_not_dispatched_as_tar() {
    // `.tar.gz` must take the gzip path, never the plain-tar path.
    assert_ne!(detect_format(b"file.tar.gz"), Some(ArchiveFormat::Tar));
}

#[test]
fn unrecognized_suffixes_select_nothing() {
    assert_eq!(detect_format(b"file.rar"), None);
    assert_eq!(detect_format(b"file"), None);
    assert_eq!(detect_format(b""), None);
    assert_eq!(detect_format(b"filezip"), None);
}

#[test]
fn suffix_check_is_case_sensitive() {
    assert_eq!(detect_format(b"file.ZIP"), None);
    assert_eq!(detect_format(b"file.Tar"), None);
}

#[test]
fn file_name_is_last_component() {
    assert_eq!(
        file_name_component(b"a/b/file.zip"),
        Some(b"file.zip".to_vec())
    );
    assert_eq!(file_name_component(b"file.zip"), Some(b"file.zip".to_vec()));
    assert_eq!(file_name_component(b"dir/"), Some(b"dir".to_vec()));
}

#[test]
fn empty_and_dot_dot_paths_have_no_file_name() {
    assert_eq!(file_name_component(b""), None);
    assert_eq!(file_name_component(b".."), None);
    assert_eq!(file_name_component(b"a/.."), None);
    assert_eq!(file_name_component(b"/"), None);
}
