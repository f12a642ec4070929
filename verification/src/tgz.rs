//! Container reader, tar and tar+gzip variants.
//!
//! Both variants produce the same entry-sequence abstraction as the zip
//! reader and route through the shared tree materializer, so all formats
//! share one materialization code path. The gzip decompression and the tar
//! parse are done by flate2 and tar behind trusted wrappers whose results
//! are named by [`gunzip_parse`] and [`tar_parse`].

use vstd::prelude::*;
use crate::entries::{entries_view, Entry, EntryKind, EntryV};

verus! {

/// The byte stream `data` decompresses to as a gzip member; none if the
/// buffer is not a well-formed gzip stream. A fixed function of the bytes
/// alone.
pub uninterp spec fn gunzip_parse(data: Seq<u8>) -> Option<Seq<u8>>;

/// Relies on flate2's `read::GzDecoder`, driven by std's `Read::read_to_end`
/// to materialize the decompressed stream: decompressing an in-memory gzip
/// member is deterministic in its bytes.
#[verifier::external_body]
pub(crate) fn gunzip_raw(data: &[u8]) -> (r: Result<Vec<u8>, String>)
    ensures
        match r {
            Ok(v) => gunzip_parse(data@) == Some(v@),
            Err(_) => gunzip_parse(data@) is None,
        },
{
    let mut decoder = flate2::read::GzDecoder::new(data);
    let mut out: Vec<u8> = Vec::new();
    match std::io::Read::read_to_end(&mut decoder, &mut out) {
        Ok(_) => Ok(out),
        Err(e) => Err(format!("{}", e)),
    }
}

/// The entry sequence `data` holds as a tar archive, in archive order, with
/// each entry's content read out in full; none if the buffer is not a
/// well-formed tar archive. A fixed function of the bytes alone.
pub uninterp spec fn tar_parse(data: Seq<u8>) -> Option<Seq<EntryV>>;

/// Relies on the tar crate's `Archive::entries` over an in-memory reader and
/// on `Entry::{header, path_bytes}` plus std's `Read::read_to_end` for the
/// content: parsing an in-memory buffer is deterministic in its bytes. Tar
/// directory entries are reported as `Directory`, regular files as
/// `RegularFile`, every other entry type as `Other`.
#[verifier::external_body]
pub(crate) fn tar_entries_raw(data: &[u8]) -> (r: Result<Vec<Entry>, String>)
    ensures
        match r {
            Ok(v) => tar_parse(data@) == Some(entries_view(v@)),
            Err(_) => tar_parse(data@) is None,
        },
{
    let mut archive = tar::Archive::new(data);
    let mut out: Vec<Entry> = Vec::new();
    for item in archive.entries().map_err(|e| format!("{}", e))? {
        let mut entry = item.map_err(|e| format!("{}", e))?;
        let kind = match entry.header().entry_type() {
            tar::EntryType::Directory => EntryKind::Directory,
            tar::EntryType::Regular => EntryKind::RegularFile,
            _ => EntryKind::Other,
        };
        let name = entry.path_bytes().into_owned();
        let mut content: Vec<u8> = Vec::new();
        std::io::Read::read_to_end(&mut entry, &mut content).map_err(|e| format!("{}", e))?;
        out.push(Entry { name, kind, data: content });
    }
    Ok(out)
}

/// The entry sequence `data` holds as a gzip-compressed tar archive:
/// decompress, then parse as tar.
pub open spec fn tar_gz_parse(data: Seq<u8>) -> Option<Seq<EntryV>> {
    match gunzip_parse(data) {
        Some(t) => tar_parse(t),
        None => None,
    }
}

} // verus!
