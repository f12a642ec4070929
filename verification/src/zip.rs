//! Container reader, zip variant.
//!
//! A zip archive is indexed by a central directory at its end, so reading an
//! entry's content needs random access into already-scanned regions; holding
//! the whole archive as one in-memory buffer gives the reader exactly that.
//! The parse itself is done by rc-zip behind one trusted wrapper whose
//! result is named by [`zip_parse`]; everything downstream of the wrapper is
//! verified against that name.

use vstd::prelude::*;
use crate::entries::{entries_view, Entry, EntryKind, EntryV};
use rc_zip_sync::ReadZip;

verus! {

/// The entry sequence `data` holds as a zip archive: the parse of its
/// central directory, in index order, with each file entry's content
/// decompressed; none if the buffer is not a well-formed zip archive or an
/// entry's content cannot be read. A fixed function of the bytes alone.
pub uninterp spec fn zip_parse(data: Seq<u8>) -> Option<Seq<EntryV>>;

/// Relies on rc-zip-sync's `ReadZip::read_zip` for byte slices and on its
/// `EntryHandle::{kind, bytes}`: parsing an in-memory buffer and inflating
/// its entries is deterministic in the buffer's bytes. Zip directory entries
/// are reported as `Directory`, file entries as `RegularFile`, symbolic
/// links as `Other`; each entry's content is read out in full.
#[verifier::external_body]
pub(crate) fn zip_entries_raw(data: &[u8]) -> (r: Result<Vec<Entry>, String>)
    ensures
        match r {
            Ok(v) => zip_parse(data@) == Some(entries_view(v@)),
            Err(_) => zip_parse(data@) is None,
        },
{
    let archive = data.read_zip().map_err(|e| format!("{}", e))?;
    let mut out: Vec<Entry> = Vec::new();
    for e in archive.entries() {
        let kind = match e.kind() {
            rc_zip::EntryKind::Directory => EntryKind::Directory,
            rc_zip::EntryKind::File => EntryKind::RegularFile,
            rc_zip::EntryKind::Symlink => EntryKind::Other,
        };
        let content = e.bytes().map_err(|e| format!("{}", e))?;
        out.push(Entry { name: e.name.clone().into_bytes(), kind, data: content });
    }
    Ok(out)
}

} // verus!
