//! Dynamic-library name filtering.
//!
//! The dylib installer copies the matching files of one directory into
//! another. Walking directories and copying files are I/O and stay with the
//! caller; which file names match which filter, and which extension a
//! target platform implies, is logic and is verified here.

use vstd::prelude::*;
use crate::paths::{
    bytes_contains, bytes_ends_with, bytes_eq, contains_seq, ends_with, DOT,
};
use vstd::string::{StrSliceExecFns, StringSliceAdditionalSpecFns};

verus! {

/// Dynamic library filter used to specify which library files need to be
/// copied.
#[derive(Clone, Copy, Debug)]
pub enum DyLibNameFilter<'a> {
    /// Filename must match the string (Example: `"SDL2.dll"`)
    FileName(&'a str),
    /// Extension must match the string (Example: `"dll"`)
    Extension(&'a str),
    /// Library name must match the string (Example: `"SDL2"`).
    /// Extension will be inferred from the target platform.
    /// Files with an additional "lib" prefix will match as well.
    LibName(&'a str),
}

/// The bytes of `"lib"`.
pub open spec fn lib_prefix() -> Seq<u8> {
    seq![108, 105, 98]
}

/// The bytes of `"pc-windows"`.
pub open spec fn pc_windows_bytes() -> Seq<u8> {
    seq![112, 99, 45, 119, 105, 110, 100, 111, 119, 115]
}

/// The suffix a filter matches against: an explicit extension filter gets a
/// leading dot, a file-name filter uses none, and both the default and the
/// lib-name filter use the platform's extension as it stands.
pub open spec fn filter_extension(
    filter: Option<DyLibNameFilter>,
    platform_ext: Seq<u8>,
) -> Seq<u8> {
    match filter {
        Some(DyLibNameFilter::Extension(e)) => seq![DOT] + e.spec_bytes(),
        Some(DyLibNameFilter::FileName(_)) => Seq::empty(),
        _ => platform_ext,
    }
}

/// Whether `file` is a dynamic library that `filter` selects, given the
/// suffix `ext` computed by [`filter_extension`]: a file-name filter asks
/// for equality, an extension filter (and the default) for the suffix, and
/// a lib-name filter for the name with the suffix, with or without a `lib`
/// prefix.
pub open spec fn dylib_matches(
    file: Seq<u8>,
    filter: Option<DyLibNameFilter>,
    ext: Seq<u8>,
) -> bool {
    match filter {
        Some(DyLibNameFilter::FileName(t)) => file == t.spec_bytes(),
        Some(DyLibNameFilter::Extension(_)) => ends_with(file, ext),
        Some(DyLibNameFilter::LibName(l)) => file == l.spec_bytes() + ext || file == lib_prefix()
            + l.spec_bytes() + ext,
        None => ends_with(file, ext),
    }
}

/// Append `s` to `v`.
fn append_bytes(v: &mut Vec<u8>, s: &[u8])
    ensures
        final(v)@ == old(v)@ + s@,
{
    let mut i: usize = 0;
    while i < s.len()
        invariant
            i <= s@.len(),
            v@ == old(v)@ + s@.take(i as int),
        decreases s@.len() - i,
    {
        v.push(s[i]);
        assert(v@ =~= old(v)@ + s@.take(i + 1));
        i += 1;
    }
    proof {
        assert(old(v)@ + s@.take(s@.len() as int) =~= old(v)@ + s@);
    }
}

/// The platform's dynamic-library extension: `dll` for Windows targets (a
/// target triple containing `pc-windows`), `so` otherwise.
pub fn dylib_extension_for_target(target: &str) -> (r: &'static str)
    ensures
        contains_seq(target.spec_bytes(), pc_windows_bytes()) ==> r@ == "dll"@,
        !contains_seq(target.spec_bytes(), pc_windows_bytes()) ==> r@ == "so"@,
{
    let pat: [u8; 10] = [112, 99, 45, 119, 105, 110, 100, 111, 119, 115];
    proof {
        assert(pat@ =~= pc_windows_bytes());
    }
    if bytes_contains(target.as_bytes(), pat.as_slice()) {
        "dll"
    } else {
        "so"
    }
}

/// Compute the suffix that `filter` matches against; `platform_ext` is the
/// target platform's dylib extension.
pub fn dylib_filter_extension(filter: &Option<DyLibNameFilter>, platform_ext: &str) -> (r: Vec<
    u8,
>)
    ensures
        r@ == filter_extension(*filter, platform_ext.spec_bytes()),
{
    match filter {
        Some(DyLibNameFilter::Extension(e)) => {
            let mut v: Vec<u8> = Vec::new();
            v.push(DOT);
            append_bytes(&mut v, e.as_bytes());
            proof {
                assert(v@ =~= seq![DOT] + e.spec_bytes());
            }
            v
        },
        Some(DyLibNameFilter::FileName(_)) => {
            let v: Vec<u8> = Vec::new();
            proof {
                assert(v@ =~= Seq::<u8>::empty());
            }
            v
        },
        _ => platform_ext.as_bytes_vec(),
    }
}

/// Whether the file named `file_name` is selected by `filter`, given the
/// suffix `ext` computed by [`dylib_filter_extension`].
pub fn dylib_name_matches(file_name: &str, filter: &Option<DyLibNameFilter>, ext: &[u8]) -> (r:
    bool)
    ensures
        r == dylib_matches(file_name.spec_bytes(), *filter, ext@),
{
    let fb = file_name.as_bytes();
    match filter {
        Some(DyLibNameFilter::FileName(t)) => bytes_eq(fb, t.as_bytes()),
        Some(DyLibNameFilter::Extension(_)) => bytes_ends_with(fb, ext),
        Some(DyLibNameFilter::LibName(l)) => {
            let mut plain: Vec<u8> = Vec::new();
            append_bytes(&mut plain, l.as_bytes());
            append_bytes(&mut plain, ext);
            proof {
                assert(plain@ =~= l.spec_bytes() + ext@);
            }
            if bytes_eq(fb, plain.as_slice()) {
                return true;
            }
            let mut prefixed: Vec<u8> = Vec::new();
            prefixed.push(108);
            prefixed.push(105);
            prefixed.push(98);
            proof {
                assert(prefixed@ =~= lib_prefix());
            }
            append_bytes(&mut prefixed, l.as_bytes());
            append_bytes(&mut prefixed, ext);
            proof {
                assert(prefixed@ =~= lib_prefix() + l.spec_bytes() + ext@);
            }
            bytes_eq(fb, prefixed.as_slice())
        },
        None => bytes_ends_with(fb, ext),
    }
}

} // verus!
