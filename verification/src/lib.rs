//! Verified core of a build-time helper that unpacks third-party library
//! archives so a compiled program can link against them: format detection by
//! file-name suffix, per-format container readers behind trusted wrappers,
//! and a tree materializer that turns an archive's entry list into the exact
//! directory-creation and file-write steps that reconstruct it under a
//! target root. The caller performs those steps on the real filesystem and
//! supplies the archive bytes and the externally configured default output
//! directory; everything in between is verified.

use vstd::prelude::*;

pub mod download;
pub mod dylib;
pub mod entries;
pub mod laws;
pub mod materialize;
pub mod paths;
pub mod tgz;
pub mod zip;

use crate::entries::{actions_view, entries_view, Action, ActionV, Entry, EntryV};
use crate::materialize::{plan_entries, plan_spec};
use crate::paths::{bytes_ends_with, ends_with, file_name_component, file_name_of, DOT};
use crate::tgz::{gunzip_raw, tar_entries_raw, tar_gz_parse, tar_parse};
use crate::zip::{zip_entries_raw, zip_parse};

verus! {

/// The supported archive container formats.
#[derive(Clone, Copy, Debug, PartialEq, Eq, Structural)]
pub enum ArchiveFormat {
    /// A zip archive, indexed by its central directory.
    Zip,
    /// A gzip-compressed tar archive (`.tar.gz` / `.tgz`).
    TarGz,
    /// An uncompressed tar archive.
    Tar,
}

/// The bytes of `".zip"`.
pub open spec fn zip_suffix() -> Seq<u8> {
    seq![DOT, 122, 105, 112]
}

/// The bytes of `".tar.gz"`.
pub open spec fn tar_gz_suffix() -> Seq<u8> {
    seq![DOT, 116, 97, 114, DOT, 103, 122]
}

/// The bytes of `".tgz"`.
pub open spec fn tgz_suffix() -> Seq<u8> {
    seq![DOT, 116, 103, 122]
}

/// The bytes of `".tar"`.
pub open spec fn tar_suffix() -> Seq<u8> {
    seq![DOT, 116, 97, 114]
}

/// The format a file name selects, by its suffix alone (case-sensitive,
/// checked in this precedence: `.zip`, then `.tar.gz` / `.tgz`, then
/// `.tar`); none for an unrecognized suffix. No byte-level sniffing: the
/// suffix is authoritative, and mismatched content surfaces as a read error
/// downstream, never as a dispatch error.
pub open spec fn format_of(name: Seq<u8>) -> Option<ArchiveFormat> {
    if ends_with(name, zip_suffix()) {
        Some(ArchiveFormat::Zip)
    } else if ends_with(name, tar_gz_suffix()) || ends_with(name, tgz_suffix()) {
        Some(ArchiveFormat::TarGz)
    } else if ends_with(name, tar_suffix()) {
        Some(ArchiveFormat::Tar)
    } else {
        None
    }
}

/// Format dispatcher: select the container reader for a file name.
pub fn detect_format(file_name: &[u8]) -> (r: Option<ArchiveFormat>)
    ensures
        r == format_of(file_name@),
{
    let zip: [u8; 4] = [DOT, 122, 105, 112];
    let tar_gz: [u8; 7] = [DOT, 116, 97, 114, DOT, 103, 122];
    let tgz: [u8; 4] = [DOT, 116, 103, 122];
    let tar: [u8; 4] = [DOT, 116, 97, 114];
    proof {
        assert(zip@ =~= zip_suffix());
        assert(tar_gz@ =~= tar_gz_suffix());
        assert(tgz@ =~= tgz_suffix());
        assert(tar@ =~= tar_suffix());
    }
    if bytes_ends_with(file_name, zip.as_slice()) {
        Some(ArchiveFormat::Zip)
    } else if bytes_ends_with(file_name, tar_gz.as_slice())
        || bytes_ends_with(file_name, tgz.as_slice()) {
        Some(ArchiveFormat::TarGz)
    } else if bytes_ends_with(file_name, tar.as_slice()) {
        Some(ArchiveFormat::Tar)
    } else {
        None
    }
}

/// Why an extraction call failed.
#[derive(Debug)]
pub enum ExtractError {
    /// No target directory was given and no default output directory was
    /// available: a build-environment misconfiguration the caller must fix.
    MissingTargetDir,
    /// The archive path has no file name component to dispatch on.
    NoFileName,
    /// The file name's suffix matches no supported archive format.
    UnsupportedFormat,
    /// The archive bytes could not be read: malformed or truncated index,
    /// corrupt compressed stream, or unreadable entry content. The message
    /// carries the container reader's cause.
    ArchiveRead(String),
}

/// What the container reader for `format` yields on `data`.
pub open spec fn parsed_entries(format: ArchiveFormat, data: Seq<u8>) -> Option<Seq<EntryV>> {
    match format {
        ArchiveFormat::Zip => zip_parse(data),
        ArchiveFormat::TarGz => tar_gz_parse(data),
        ArchiveFormat::Tar => tar_parse(data),
    }
}

/// Container reader: parse `data` with the reader that `format` selects.
/// All three formats yield the same entry-sequence abstraction; failures of
/// the underlying readers surface as [`ExtractError::ArchiveRead`].
pub fn read_entries(format: ArchiveFormat, data: &[u8]) -> (r: Result<Vec<Entry>, ExtractError>)
    ensures
        match r {
            Ok(v) => parsed_entries(format, data@) == Some(entries_view(v@)),
            Err(e) => parsed_entries(format, data@) is None && e is ArchiveRead,
        },
{
    match format {
        ArchiveFormat::Zip => match zip_entries_raw(data) {
            Ok(v) => Ok(v),
            Err(m) => Err(ExtractError::ArchiveRead(m)),
        },
        ArchiveFormat::TarGz => match gunzip_raw(data) {
            Ok(t) => match tar_entries_raw(t.as_slice()) {
                Ok(v) => Ok(v),
                Err(m) => Err(ExtractError::ArchiveRead(m)),
            },
            Err(m) => Err(ExtractError::ArchiveRead(m)),
        },
        ArchiveFormat::Tar => match tar_entries_raw(data) {
            Ok(v) => Ok(v),
            Err(m) => Err(ExtractError::ArchiveRead(m)),
        },
    }
}

/// The view of an optional byte vector.
pub open spec fn option_bytes_view(o: Option<Vec<u8>>) -> Option<Seq<u8>> {
    match o {
        Some(v) => Some(v@),
        None => None,
    }
}

/// The target root an extraction call resolves: the explicit target if one
/// was given, else the externally supplied default output directory.
pub open spec fn resolved_target(
    target: Option<Seq<u8>>,
    default_target: Option<Seq<u8>>,
) -> Option<Seq<u8>> {
    if target is Some {
        target
    } else {
        default_target
    }
}

/// Everything an extraction call is determined by, in the order the call
/// checks it: target resolution, then the file name, then the format, then
/// the parse, and finally the resolved root with the materialization plan.
pub ghost enum ExtractOutcome {
    /// No target directory was given or available.
    MissingTarget,
    /// The archive path has no file name component.
    NoName,
    /// The file name's suffix matches no supported format.
    Unsupported,
    /// The container reader failed on the archive bytes.
    BadArchive,
    /// The resolved target root, and the plan that materializes the archive
    /// under it.
    Done(Seq<u8>, Seq<ActionV>),
}

/// The outcome of extracting `data`, named `path`, into `target` (with
/// `default_target` as the externally configured fallback).
pub open spec fn extract_outcome(
    path: Seq<u8>,
    data: Seq<u8>,
    target: Option<Seq<u8>>,
    default_target: Option<Seq<u8>>,
) -> ExtractOutcome {
    match resolved_target(target, default_target) {
        None => ExtractOutcome::MissingTarget,
        Some(root) => match file_name_of(path) {
            None => ExtractOutcome::NoName,
            Some(name) => match format_of(name) {
                None => ExtractOutcome::Unsupported,
                Some(format) => match parsed_entries(format, data) {
                    None => ExtractOutcome::BadArchive,
                    Some(es) => ExtractOutcome::Done(root, plan_spec(root, es)),
                },
            },
        },
    }
}

/// Extraction façade. Given the archive's path (for suffix dispatch), the
/// archive's bytes, an optional explicit target directory and the optional
/// externally configured default, resolve the target root, select the
/// container reader, parse the entry sequence, and return the resolved root
/// together with the materialization plan for it. On any failure — including
/// an unrecognized suffix — no plan is produced, so the target root is left
/// untouched.
pub fn extract_archive(
    archive_path: &[u8],
    data: &[u8],
    target: Option<Vec<u8>>,
    default_target: Option<Vec<u8>>,
) -> (r: Result<(Vec<u8>, Vec<Action>), ExtractError>)
    ensures
        ({
            let outcome = extract_outcome(
                archive_path@,
                data@,
                option_bytes_view(target),
                option_bytes_view(default_target),
            );
            match r {
                Ok((root, plan)) => outcome == ExtractOutcome::Done(root@, actions_view(plan@)),
                Err(ExtractError::MissingTargetDir) => outcome == ExtractOutcome::MissingTarget,
                Err(ExtractError::NoFileName) => outcome == ExtractOutcome::NoName,
                Err(ExtractError::UnsupportedFormat) => outcome == ExtractOutcome::Unsupported,
                Err(ExtractError::ArchiveRead(_)) => outcome == ExtractOutcome::BadArchive,
            }
        }),
{
    let root: Vec<u8> = match target {
        Some(t) => t,
        None => match default_target {
            Some(d) => d,
            None => {
                return Err(ExtractError::MissingTargetDir);
            },
        },
    };
    let name = match file_name_component(archive_path) {
        Some(n) => n,
        None => {
            return Err(ExtractError::NoFileName);
        },
    };
    let format = match detect_format(name.as_slice()) {
        Some(f) => f,
        None => {
            return Err(ExtractError::UnsupportedFormat);
        },
    };
    let entries = match read_entries(format, data) {
        Ok(es) => es,
        Err(e) => {
            return Err(e);
        },
    };
    let plan = plan_entries(root.as_slice(), &entries);
    Ok((root, plan))
}

} // verus!
