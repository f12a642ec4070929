//! The abstract container model: entries and materialization actions.
//!
//! A container reader turns an archive into a finite sequence of [`Entry`]
//! values; the tree materializer turns that sequence into a plan of
//! [`Action`] steps that reconstruct the encoded tree under a target root.

use vstd::prelude::*;
use crate::paths::wf_name;

verus! {

/// The kind of one archive entry.
#[derive(Clone, Copy, Debug, PartialEq, Eq, Structural)]
pub enum EntryKind {
    /// A directory entry; it carries no content.
    Directory,
    /// A regular file entry; its content is written to disk.
    RegularFile,
    /// Anything else (a symbolic link, a device node, ...); recognized in
    /// the entry sequence but never materialized.
    Other,
}

/// One record from a container's index: a relative, slash-separated path,
/// the entry kind, and the entry's full (decompressed) content.
#[derive(Debug)]
pub struct Entry {
    /// Archive-internal relative path, slash-separated.
    pub name: Vec<u8>,
    /// What the entry is.
    pub kind: EntryKind,
    /// The entry's content; empty for directory entries.
    pub data: Vec<u8>,
}

/// The mathematical value of an [`Entry`].
pub ghost struct EntryV {
    /// Archive-internal relative path.
    pub name: Seq<u8>,
    /// What the entry is.
    pub kind: EntryKind,
    /// The entry's content.
    pub data: Seq<u8>,
}

impl View for Entry {
    type V = EntryV;

    open spec fn view(&self) -> EntryV {
        EntryV { name: self.name@, kind: self.kind, data: self.data@ }
    }
}

/// The views of a sequence of entries.
pub open spec fn entries_view(s: Seq<Entry>) -> Seq<EntryV> {
    s.map_values(|e: Entry| e@)
}

/// A well-formed entry: its name is non-empty and relative.
pub open spec fn wf_entry(e: EntryV) -> bool {
    wf_name(e.name)
}

/// All entries of the sequence are well-formed.
pub open spec fn wf_entries(es: Seq<EntryV>) -> bool {
    forall|i: int| 0 <= i < es.len() ==> wf_entry(#[trigger] es[i])
}

/// One filesystem step of a materialization plan.
#[derive(Debug)]
pub enum Action {
    /// Create this directory and every missing ancestor of it.
    EnsureDirs(Vec<u8>),
    /// Create or truncate the file at this path and write this content to it.
    WriteFile(Vec<u8>, Vec<u8>),
}

/// The mathematical value of an [`Action`].
pub ghost enum ActionV {
    /// Create this directory and every missing ancestor of it.
    EnsureDirs(Seq<u8>),
    /// Create or truncate the file at this path and write this content to it.
    WriteFile(Seq<u8>, Seq<u8>),
}

impl View for Action {
    type V = ActionV;

    open spec fn view(&self) -> ActionV {
        match self {
            Action::EnsureDirs(p) => ActionV::EnsureDirs(p@),
            Action::WriteFile(p, d) => ActionV::WriteFile(p@, d@),
        }
    }
}

/// The views of a sequence of actions.
pub open spec fn actions_view(s: Seq<Action>) -> Seq<ActionV> {
    s.map_values(|a: Action| a@)
}

} // verus!
