//! Dynamic-library filter matching.

use librarian::dylib::{
    dylib_extension_for_target, dylib_filter_extension, dylib_name_matches, DyLibNameFilter,
};

/// The file names the installer scenario works over.
const NAMES: [&str; 5] = ["dummy0.dll", "dummy1.dll", "dummy.so", "libdummy.so", "dummy"];

fn selected(filter: Option<DyLibNameFilter<'_>>, platform_ext: &str) -> Vec<&'static str> {
    let ext = dylib_filter_extension(&filter, platform_ext);
    NAMES
        .iter()
        .copied()
        .filter(|name| dylib_name_matches(name, &filter, ext.as_slice()))
        .collect()
}

#[test]
fn install_dylibs_matching() {
    // The three filters of the installer scenario: by extension (dll and so)
    // and by exact file name.
    assert_eq!(
        selected(Some(DyLibNameFilter::Extension("dll")), "so"),
        vec!["dummy0.dll", "dummy1.dll"]
    );
    assert_eq!(
        selected(Some(DyLibNameFilter::Extension("so")), "so"),
        vec!["dummy.so", "libdummy.so"]
    );
    assert_eq!(
        selected(Some(DyLibNameFilter::FileName("dummy")), "so"),
        vec!["dummy"]
    );
}

#[test]
fn default_filter_uses_platform_extension() {
    // With no filter, any name ending in the platform extension matches.
    assert_eq!(selected(None, "so"), vec!["dummy.so", "libdummy.so"]);
    assert_eq!(selected(None, "dll"), vec!["dummy0.dll", "dummy1.dll"]);
}

#[test]
fn lib_name_filter_accepts_lib_prefix() {
    // The lib-name filter appends the platform extension as it stands (no
    // dot) and accepts an extra `lib` prefix.
    let filter = Some(DyLibNameFilter::LibName("dummy"));
    let ext = dylib_filter_extension(&filter, "so");
    assert_eq!(ext, b"so".to_vec());
    assert!(dylib_name_matches("dummyso", &filter, ext.as_slice()));
    assert!(dylib_name_matches("libdummyso", &filter, ext.as_slice()));
    assert!(!dylib_name_matches("dummy.so", &filter, ext.as_slice()));
    assert!(!dylib_name_matches("otherso", &filter, ext.as_slice()));
}

#[test]
fn extension_filter_gets_a_leading_dot() {
    let filter = Some(DyLibNameFilter::Extension("dll"));
    assert_eq!(dylib_filter_extension(&filter, "so"), b".dll".to_vec());
    let filter = Some(DyLibNameFilter::FileName("x"));
    assert_eq!(dylib_filter_extension(&filter, "so"), Vec::<u8>::new());
}

#[test]
fn platform_extension_follows_target_triple() {
    assert_eq!(dylib_extension_for_target("x86_64-pc-windows-msvc"), "dll");
    assert_eq!(dylib_extension_for_target("i686-pc-windows-gnu"), "dll");
    assert_eq!(dylib_extension_for_target("x86_64-unknown-linux-gnu"), "so");
    assert_eq!(dylib_extension_for_target("aarch64-apple-darwin"), "so");
}
