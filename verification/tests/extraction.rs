//! Extraction scenarios across the three container formats.

use librarian::entries::{Action, EntryKind};
use librarian::{extract_archive, read_entries, ArchiveFormat, ExtractError};

/// A zip archive holding exactly one stored file `zip/compressed.txt` with
/// content `it works!`.
fn zip_fixture() -> Vec<u8> {
    vec![
        80, 75, 3, 4, 20, 0, 0, 0, 0, 0, 0, 0, 33, 0, 255, 46, 228, 49, 9, 0, 0, 0, 9, 0, 0, 0,
        18, 0, 0, 0, 122, 105, 112, 47, 99, 111, 109, 112, 114, 101, 115, 115, 101, 100, 46, 116,
        120, 116, 105, 116, 32, 119, 111, 114, 107, 115, 33, 80, 75, 1, 2, 20, 3, 20, 0, 0, 0, 0,
        0, 33, 0, 0, 0, 255, 46, 228, 49, 9, 0, 0, 0, 9, 0, 0, 0, 18, 0, 0, 0, 0, 0, 0, 0, 0, 0,
        0, 0, 164, 129, 0, 0, 0, 0, 122, 105, 112, 47, 99, 111, 109, 112, 114, 101, 115, 115,
        101, 100, 46, 116, 120, 116, 80, 75, 5, 6, 0, 0, 0, 0, 1, 0, 1, 0, 64, 0, 0, 0, 57, 0, 0,
        0, 0, 0,
    ]
}

/// The same zip archive with a second entry: a symbolic link `zip/link`
/// whose target is `compressed.txt`.
fn zip_symlink_fixture() -> Vec<u8> {
    vec![
        80, 75, 3, 4, 20, 0, 0, 0, 0, 0, 0, 0, 33, 0, 255, 46, 228, 49, 9, 0, 0, 0, 9, 0, 0, 0,
        18, 0, 0, 0, 122, 105, 112, 47, 99, 111, 109, 112, 114, 101, 115, 115, 101, 100, 46, 116,
        120, 116, 105, 116, 32, 119, 111, 114, 107, 115, 33, 80, 75, 3, 4, 20, 0, 0, 0, 0, 0, 0,
        0, 33, 0, 254, 63, 92, 204, 14, 0, 0, 0, 14, 0, 0, 0, 8, 0, 0, 0, 122, 105, 112, 47, 108,
        105, 110, 107, 99, 111, 109, 112, 114, 101, 115, 115, 101, 100, 46, 116, 120, 116, 80,
        75, 1, 2, 20, 3, 20, 0, 0, 0, 0, 0, 33, 0, 0, 0, 255, 46, 228, 49, 9, 0, 0, 0, 9, 0, 0,
        0, 18, 0, 0, 0, 0, 0, 0, 0, 0, 0, 0, 0, 164, 129, 0, 0, 0, 0, 122, 105, 112, 47, 99, 111,
        109, 112, 114, 101, 115, 115, 101, 100, 46, 116, 120, 116, 80, 75, 1, 2, 20, 3, 20, 0, 0,
        0, 0, 0, 33, 0, 0, 0, 254, 63, 92, 204, 14, 0, 0, 0, 14, 0, 0, 0, 8, 0, 0, 0, 0, 0, 0, 0,
        0, 0, 0, 0, 255, 161, 57, 0, 0, 0, 122, 105, 112, 47, 108, 105, 110, 107, 80, 75, 5, 6,
        0, 0, 0, 0, 2, 0, 2, 0, 118, 0, 0, 0, 109, 0, 0, 0, 0, 0,
    ]
}

/// An in-memory tar archive with the given regular-file entries.
fn tar_fixture(files: &[(&str, &[u8])]) -> Vec<u8> {
    let mut builder = tar::Builder::new(Vec::new());
    for (path, data) in files {
        let mut header = tar::Header::new_gnu();
        header.set_size(data.len() as u64);
        header.set_mode(0o644);
        builder.append_data(&mut header, path, *data).unwrap();
    }
    builder.into_inner().unwrap()
}

fn gzip(data: &[u8]) -> Vec<u8> {
    let mut encoder = flate2::write::GzEncoder::new(Vec::new(), flate2::Compression::default());
    std::io::Write::write_all(&mut encoder, data).unwrap();
    encoder.finish().unwrap()
}

fn assert_ensure_dirs(action: &Action, path: &[u8]) {
    match action {
        Action::EnsureDirs(p) => assert_eq!(p.as_slice(), path),
        Action::WriteFile(p, _) => panic!("expected EnsureDirs, got WriteFile {:?}", p),
    }
}

fn assert_write_file(action: &Action, path: &[u8], content: &[u8]) {
    match action {
        Action::WriteFile(p, d) => {
            assert_eq!(p.as_slice(), path);
            assert_eq!(d.as_slice(), content);
        }
        Action::EnsureDirs(p) => panic!("expected WriteFile, got EnsureDirs {:?}", p),
    }
}

#[test]
fn unzip() {
    let data = zip_fixture();
    let (root, plan) =
        extract_archive(b"test_input/file.zip", &data, Some(b"out".to_vec()), None).unwrap();
    assert_eq!(root, b"out".to_vec());
    assert_eq!(plan.len(), 2);
    assert_ensure_dirs(&plan[0], b"out/zip");
    assert_write_file(&plan[1], b"out/zip/compressed.txt", b"it works!");
}

#[test]
fn untgz() {
    let data = gzip(&tar_fixture(&[("tgz/compressed.txt", b"this works as well")]));
    let (root, plan) =
        extract_archive(b"test_input/file.tgz", &data, Some(b"out".to_vec()), None).unwrap();
    assert_eq!(root, b"out".to_vec());
    assert_eq!(plan.len(), 2);
    assert_ensure_dirs(&plan[0], b"out/tgz");
    assert_write_file(&plan[1], b"out/tgz/compressed.txt", b"this works as well");
}

#[test]
fn untar_gz_long_suffix() {
    let data = gzip(&tar_fixture(&[("tgz/compressed.txt", b"this works as well")]));
    let (_, plan) =
        extract_archive(b"file.tar.gz", &data, Some(b"out".to_vec()), None).unwrap();
    assert_eq!(plan.len(), 2);
    assert_write_file(&plan[1], b"out/tgz/compressed.txt", b"this works as well");
}

#[test]
fn untar() {
    let data = tar_fixture(&[("sub/compressed.txt", b"it works!")]);
    let (root, plan) =
        extract_archive(b"file.tar", &data, Some(b"out".to_vec()), None).unwrap();
    assert_eq!(root, b"out".to_vec());
    assert_eq!(plan.len(), 2);
    assert_ensure_dirs(&plan[0], b"out/sub");
    assert_write_file(&plan[1], b"out/sub/compressed.txt", b"it works!");
}

#[test]
fn nested_paths_create_parent_chain() {
    let data = tar_fixture(&[("a/b/c.txt", b"deep")]);
    let (_, plan) = extract_archive(b"file.tar", &data, Some(b"out".to_vec()), None).unwrap();
    assert_eq!(plan.len(), 2);
    assert_ensure_dirs(&plan[0], b"out/a/b");
    assert_write_file(&plan[1], b"out/a/b/c.txt", b"deep");
}

#[test]
fn directory_entry_creates_parent_chain_only() {
    // A directory entry gets its parent chain created, not its own leaf: a
    // leaf directory that never receives a file need not exist.
    let mut builder = tar::Builder::new(Vec::new());
    let mut header = tar::Header::new_gnu();
    header.set_size(0);
    header.set_mode(0o755);
    header.set_entry_type(tar::EntryType::Directory);
    builder.append_data(&mut header, "d/", &b""[..]).unwrap();
    let data = builder.into_inner().unwrap();
    let (_, plan) = extract_archive(b"file.tar", &data, Some(b"out".to_vec()), None).unwrap();
    assert_eq!(plan.len(), 1);
    assert_ensure_dirs(&plan[0], b"out");
}

#[test]
fn extraction_same_under_two_roots() {
    // The same archive under two independent roots yields the same tree,
    // action for action, once the root prefix is removed.
    let data = zip_fixture();
    let (_, plan1) =
        extract_archive(b"file.zip", &data, Some(b"first".to_vec()), None).unwrap();
    let (_, plan2) =
        extract_archive(b"file.zip", &data, Some(b"second_root".to_vec()), None).unwrap();
    assert_eq!(plan1.len(), plan2.len());
    for (a1, a2) in plan1.iter().zip(plan2.iter()) {
        match (a1, a2) {
            (Action::EnsureDirs(p1), Action::EnsureDirs(p2)) => {
                assert_eq!(&p1["first".len()..], &p2["second_root".len()..]);
            }
            (Action::WriteFile(p1, d1), Action::WriteFile(p2, d2)) => {
                assert_eq!(&p1["first".len()..], &p2["second_root".len()..]);
                assert_eq!(d1, d2);
            }
            _ => panic!("plans differ in shape"),
        }
    }
}

#[test]
fn rerun_into_same_root_is_identical() {
    let data = gzip(&tar_fixture(&[("tgz/compressed.txt", b"this works as well")]));
    let (root1, plan1) =
        extract_archive(b"file.tgz", &data, Some(b"out".to_vec()), None).unwrap();
    let (root2, plan2) =
        extract_archive(b"file.tgz", &data, Some(b"out".to_vec()), None).unwrap();
    assert_eq!(root1, root2);
    assert_eq!(plan1.len(), plan2.len());
    for (a1, a2) in plan1.iter().zip(plan2.iter()) {
        match (a1, a2) {
            (Action::EnsureDirs(p1), Action::EnsureDirs(p2)) => assert_eq!(p1, p2),
            (Action::WriteFile(p1, d1), Action::WriteFile(p2, d2)) => {
                assert_eq!(p1, p2);
                assert_eq!(d1, d2);
            }
            _ => panic!("plans differ in shape"),
        }
    }
}

#[test]
fn zip_symlink_listed_but_not_materialized() {
    let data = zip_symlink_fixture();
    let entries = read_entries(ArchiveFormat::Zip, &data).unwrap();
    assert_eq!(entries.len(), 2);
    assert_eq!(entries[1].name, b"zip/link".to_vec());
    assert_eq!(entries[1].kind, EntryKind::Other);

    let (_, plan) = extract_archive(b"file.zip", &data, Some(b"out".to_vec()), None).unwrap();
    assert_eq!(plan.len(), 2);
    for action in &plan {
        let path = match action {
            Action::EnsureDirs(p) => p,
            Action::WriteFile(p, _) => p,
        };
        assert_ne!(path.as_slice(), &b"out/zip/link"[..]);
    }
}

#[test]
fn tar_symlink_listed_but_not_materialized() {
    let mut builder = tar::Builder::new(Vec::new());
    let mut header = tar::Header::new_gnu();
    header.set_size(0);
    header.set_mode(0o777);
    header.set_entry_type(tar::EntryType::Symlink);
    builder.append_link(&mut header, "sub/link", "target.txt").unwrap();
    let data = builder.into_inner().unwrap();

    let entries = read_entries(ArchiveFormat::Tar, &data).unwrap();
    assert_eq!(entries.len(), 1);
    assert_eq!(entries[0].name, b"sub/link".to_vec());
    assert_eq!(entries[0].kind, EntryKind::Other);

    let (_, plan) = extract_archive(b"file.tar", &data, Some(b"out".to_vec()), None).unwrap();
    assert_eq!(plan.len(), 0);
}

#[test]
fn duplicate_names_keep_last_write() {
    let data = tar_fixture(&[("x/f.txt", b"old"), ("x/f.txt", b"new")]);
    let (_, plan) = extract_archive(b"file.tar", &data, Some(b"out".to_vec()), None).unwrap();
    assert_eq!(plan.len(), 4);
    assert_write_file(&plan[1], b"out/x/f.txt", b"old");
    assert_write_file(&plan[3], b"out/x/f.txt", b"new");
}

#[test]
fn unsupported_suffix_stops_without_plan() {
    let data = zip_fixture();
    let r = extract_archive(b"file.rar", &data, Some(b"out".to_vec()), None);
    assert!(matches!(r, Err(ExtractError::UnsupportedFormat)));
}

#[test]
fn missing_target_directory_is_an_error() {
    let data = zip_fixture();
    let r = extract_archive(b"file.zip", &data, None, None);
    assert!(matches!(r, Err(ExtractError::MissingTargetDir)));
}

#[test]
fn default_target_is_used_when_no_explicit_target() {
    let data = zip_fixture();
    let (root, plan) =
        extract_archive(b"file.zip", &data, None, Some(b"dflt".to_vec())).unwrap();
    assert_eq!(root, b"dflt".to_vec());
    assert_write_file(&plan[1], b"dflt/zip/compressed.txt", b"it works!");
}

#[test]
fn path_without_file_name_is_an_error() {
    let data = zip_fixture();
    let r = extract_archive(b"..", &data, Some(b"out".to_vec()), None);
    assert!(matches!(r, Err(ExtractError::NoFileName)));
}

#[test]
fn malformed_zip_is_a_read_error() {
    let garbage = b"this is not a zip archive at all".to_vec();
    let r = extract_archive(b"file.zip", &garbage, Some(b"out".to_vec()), None);
    assert!(matches!(r, Err(ExtractError::ArchiveRead(_))));
}

#[test]
fn corrupt_gzip_is_a_read_error() {
    let garbage = b"not gzip".to_vec();
    let r = extract_archive(b"file.tgz", &garbage, Some(b"out".to_vec()), None);
    assert!(matches!(r, Err(ExtractError::ArchiveRead(_))));
}
