//! Laws of extraction.
//!
//! [`file_tree`] and [`dir_tree`] describe, purely in terms of the entry
//! sequence, which relative paths an extraction fills with which content and
//! which relative directories it ensures. The lemmas here tie the concrete
//! materialization plan to those trees and state the library's headline
//! properties: what a plan writes is the archive's file tree placed under
//! the root (so two extractions of one archive under two roots yield
//! byte-identical trees), a regular file's content round-trips exactly, and
//! entries of kind `Other` contribute nothing to the plan.

use vstd::prelude::*;
use crate::entries::{wf_entries, wf_entry, ActionV, EntryKind, EntryV};
use crate::materialize::{
    apply_action, apply_plan, dirs_of, empty_fs, entry_actions, lemma_effects_concat, plan_spec,
    writes_of,
};
use crate::paths::{
    join_path, lemma_join_injective, lemma_join_shape, lemma_parent_of_join,
    lemma_parent_path_wf, parent_path, valid_root, wf_name,
};

verus! {

/// The relative file tree an entry sequence encodes: content by relative
/// path, later entries overwriting earlier ones.
pub open spec fn file_tree(es: Seq<EntryV>) -> Map<Seq<u8>, Seq<u8>>
    decreases es.len(),
{
    if es.len() == 0 {
        Map::empty()
    } else {
        let rest = file_tree(es.subrange(1, es.len() as int));
        if es[0].kind == EntryKind::RegularFile {
            Map::empty().insert(es[0].name, es[0].data).union_prefer_right(rest)
        } else {
            rest
        }
    }
}

/// The relative directories an entry sequence ensures: the parent of every
/// directory or regular-file entry's name; the empty path stands for the
/// target root itself.
pub open spec fn dir_tree(es: Seq<EntryV>) -> Set<Seq<u8>>
    decreases es.len(),
{
    if es.len() == 0 {
        Set::empty()
    } else {
        let rest = dir_tree(es.subrange(1, es.len() as int));
        if es[0].kind == EntryKind::Other {
            rest
        } else {
            rest.insert(parent_path(es[0].name))
        }
    }
}

/// The destination, under `root`, of the relative directory `rel`, where the
/// empty relative directory stands for the root itself.
pub open spec fn dir_dest(root: Seq<u8>, rel: Seq<u8>) -> Seq<u8> {
    if rel.len() > 0 {
        join_path(root, rel)
    } else {
        root
    }
}

/// What one entry's actions write and ensure.
proof fn lemma_entry_effects(root: Seq<u8>, e: EntryV)
    ensures
        writes_of(entry_actions(root, e)) =~= (if e.kind == EntryKind::RegularFile {
            Map::empty().insert(join_path(root, e.name), e.data)
        } else {
            Map::<Seq<u8>, Seq<u8>>::empty()
        }),
        dirs_of(entry_actions(root, e)) =~= (if e.kind == EntryKind::Other {
            Set::<Seq<u8>>::empty()
        } else {
            Set::empty().insert(parent_path(join_path(root, e.name)))
        }),
{
    let acts = entry_actions(root, e);
    let dest = join_path(root, e.name);
    let par = parent_path(dest);
    match e.kind {
        EntryKind::Directory => {
            assert(acts[0] == ActionV::EnsureDirs(par));
            assert(acts.subrange(1, 1) =~= Seq::<ActionV>::empty());
            let s1 = apply_action(empty_fs(), acts[0]);
            assert(apply_plan(empty_fs(), acts) == apply_plan(s1, acts.subrange(1, 1)));
            assert(apply_plan(s1, acts.subrange(1, 1)) == s1);
            assert(s1.files =~= Map::<Seq<u8>, Seq<u8>>::empty());
            assert(s1.dirs =~= Set::empty().insert(par));
        }
        EntryKind::RegularFile => {
            assert(acts[0] == ActionV::EnsureDirs(par));
            assert(acts[1] == ActionV::WriteFile(dest, e.data));
            let rest = acts.subrange(1, 2);
            assert(rest[0] == acts[1]);
            assert(rest.subrange(1, 1) =~= Seq::<ActionV>::empty());
            let s1 = apply_action(empty_fs(), acts[0]);
            let s2 = apply_action(s1, rest[0]);
            assert(apply_plan(empty_fs(), acts) == apply_plan(s1, rest));
            assert(apply_plan(s1, rest) == apply_plan(s2, rest.subrange(1, 1)));
            assert(apply_plan(s2, rest.subrange(1, 1)) == s2);
            assert(s2.files =~= Map::empty().insert(dest, e.data));
            assert(s2.dirs =~= Set::empty().insert(par));
        }
        EntryKind::Other => {
            assert(apply_plan(empty_fs(), acts) == empty_fs());
        }
    }
}

/// The plan's writes are exactly the entry sequence's file tree, placed
/// under the root.
pub proof fn lemma_plan_writes(root: Seq<u8>, es: Seq<EntryV>)
    requires
        valid_root(root),
        wf_entries(es),
    ensures
        forall|rel: Seq<u8>| #[trigger] file_tree(es).dom().contains(rel) ==> wf_name(rel)
            && writes_of(plan_spec(root, es)).dom().contains(join_path(root, rel))
            && writes_of(plan_spec(root, es))[join_path(root, rel)] == file_tree(es)[rel],
        forall|q: Seq<u8>| #[trigger] writes_of(plan_spec(root, es)).dom().contains(q)
            ==> exists|rel: Seq<u8>|
                #[trigger] file_tree(es).dom().contains(rel) && q == join_path(root, rel),
    decreases es.len(),
{
    if es.len() == 0 {
        assert(writes_of(plan_spec(root, es)) =~= Map::<Seq<u8>, Seq<u8>>::empty());
    } else {
        let tail = es.subrange(1, es.len() as int);
        assert(wf_entries(tail)) by {
            assert(forall|i: int| 0 <= i < tail.len() ==> tail[i] == es[i + 1]);
        }
        assert(wf_entry(es[0]));
        lemma_plan_writes(root, tail);
        lemma_entry_effects(root, es[0]);
        lemma_effects_concat(entry_actions(root, es[0]), plan_spec(root, tail));
        let w = writes_of(plan_spec(root, es));
        let wt = writes_of(plan_spec(root, tail));
        let t = file_tree(es);
        let tt = file_tree(tail);

        assert forall|rel: Seq<u8>| #[trigger] t.dom().contains(rel) implies wf_name(rel)
            && w.dom().contains(join_path(root, rel)) && w[join_path(root, rel)] == t[rel] by {
            if tt.dom().contains(rel) {
                assert(w[join_path(root, rel)] == wt[join_path(root, rel)]);
            } else {
                assert(es[0].kind == EntryKind::RegularFile && rel == es[0].name);
                if wt.dom().contains(join_path(root, rel)) {
                    let relw = choose|relw: Seq<u8>|
                        #[trigger] tt.dom().contains(relw)
                        && join_path(root, rel) == join_path(root, relw);
                    lemma_join_injective(root, rel, relw);
                }
            }
        }

        assert forall|q: Seq<u8>| #[trigger] w.dom().contains(q) implies exists|rel: Seq<u8>|
            #[trigger] t.dom().contains(rel) && q == join_path(root, rel) by {
            if wt.dom().contains(q) {
                let rel = choose|rel: Seq<u8>|
                    #[trigger] tt.dom().contains(rel) && q == join_path(root, rel);
                assert(t.dom().contains(rel));
            } else {
                assert(es[0].kind == EntryKind::RegularFile && q == join_path(root, es[0].name));
                assert(t.dom().contains(es[0].name));
            }
        }
    }
}

/// The plan's ensured directories are exactly the entry sequence's directory
/// tree, placed under the root.
pub proof fn lemma_plan_dirs(root: Seq<u8>, es: Seq<EntryV>)
    requires
        valid_root(root),
        wf_entries(es),
    ensures
        forall|rel: Seq<u8>| #[trigger] dir_tree(es).contains(rel)
            ==> (rel.len() > 0 ==> wf_name(rel))
                && dirs_of(plan_spec(root, es)).contains(dir_dest(root, rel)),
        forall|q: Seq<u8>| #[trigger] dirs_of(plan_spec(root, es)).contains(q)
            ==> exists|rel: Seq<u8>| #[trigger] dir_tree(es).contains(rel)
                && (rel.len() > 0 ==> wf_name(rel)) && q == dir_dest(root, rel),
    decreases es.len(),
{
    if es.len() == 0 {
        assert(dirs_of(plan_spec(root, es)) =~= Set::<Seq<u8>>::empty());
    } else {
        let tail = es.subrange(1, es.len() as int);
        assert(wf_entries(tail)) by {
            assert(forall|i: int| 0 <= i < tail.len() ==> tail[i] == es[i + 1]);
        }
        assert(wf_entry(es[0]));
        lemma_plan_dirs(root, tail);
        lemma_entry_effects(root, es[0]);
        lemma_effects_concat(entry_actions(root, es[0]), plan_spec(root, tail));
        lemma_parent_path_wf(es[0].name);
        lemma_parent_of_join(root, es[0].name);
        let d = dirs_of(plan_spec(root, es));
        let dt = dirs_of(plan_spec(root, tail));
        let g = dir_tree(es);
        let gt = dir_tree(tail);

        assert forall|rel: Seq<u8>| #[trigger] g.contains(rel) implies (rel.len() > 0
            ==> wf_name(rel)) && d.contains(dir_dest(root, rel)) by {
            if !gt.contains(rel) {
                assert(es[0].kind != EntryKind::Other && rel == parent_path(es[0].name));
                assert(parent_path(join_path(root, es[0].name)) == dir_dest(root, rel));
            }
        }

        assert forall|q: Seq<u8>| #[trigger] d.contains(q) implies exists|rel: Seq<u8>|
            #[trigger] g.contains(rel) && (rel.len() > 0 ==> wf_name(rel))
            && q == dir_dest(root, rel) by {
            if dt.contains(q) {
                let rel = choose|rel: Seq<u8>| #[trigger] gt.contains(rel)
                    && (rel.len() > 0 ==> wf_name(rel)) && q == dir_dest(root, rel);
                assert(g.contains(rel));
            } else {
                assert(es[0].kind != EntryKind::Other);
                assert(q == parent_path(join_path(root, es[0].name)));
                let rel = parent_path(es[0].name);
                assert(g.contains(rel) && q == dir_dest(root, rel));
            }
        }
    }
}

/// Law: extraction does not depend on the target root. For any two valid
/// roots, the same archive yields byte-identical trees: a relative path is
/// written under one root exactly when it is written under the other, with
/// the same content, and likewise for the ensured directories.
pub proof fn lemma_extraction_root_independent(
    root1: Seq<u8>,
    root2: Seq<u8>,
    es: Seq<EntryV>,
    rel: Seq<u8>,
)
    requires
        valid_root(root1),
        valid_root(root2),
        wf_entries(es),
        wf_name(rel),
    ensures
        writes_of(plan_spec(root1, es)).dom().contains(join_path(root1, rel))
            == writes_of(plan_spec(root2, es)).dom().contains(join_path(root2, rel)),
        writes_of(plan_spec(root1, es)).dom().contains(join_path(root1, rel))
            ==> writes_of(plan_spec(root1, es))[join_path(root1, rel)]
                == writes_of(plan_spec(root2, es))[join_path(root2, rel)],
        dirs_of(plan_spec(root1, es)).contains(join_path(root1, rel))
            == dirs_of(plan_spec(root2, es)).contains(join_path(root2, rel)),
        dirs_of(plan_spec(root1, es)).contains(root1)
            == dirs_of(plan_spec(root2, es)).contains(root2),
{
    lemma_plan_writes(root1, es);
    lemma_plan_writes(root2, es);
    lemma_plan_dirs(root1, es);
    lemma_plan_dirs(root2, es);
    lemma_one_root_tree(root1, es, rel);
    lemma_one_root_tree(root2, es, rel);
    lemma_one_root_root_dir(root1, es);
    lemma_one_root_root_dir(root2, es);
}

/// Under one valid root, a well-formed relative path is written exactly when
/// the file tree holds it (with the tree's content), and its directory is
/// ensured exactly when the directory tree holds it.
pub proof fn lemma_one_root_tree(root: Seq<u8>, es: Seq<EntryV>, rel: Seq<u8>)
    requires
        valid_root(root),
        wf_entries(es),
        wf_name(rel),
    ensures
        writes_of(plan_spec(root, es)).dom().contains(join_path(root, rel))
            == file_tree(es).dom().contains(rel),
        file_tree(es).dom().contains(rel) ==> writes_of(plan_spec(root, es))[join_path(
            root,
            rel,
        )] == file_tree(es)[rel],
        dirs_of(plan_spec(root, es)).contains(join_path(root, rel)) == dir_tree(es).contains(rel),
{
    lemma_plan_writes(root, es);
    lemma_plan_dirs(root, es);
    lemma_join_shape(root, rel);
    if writes_of(plan_spec(root, es)).dom().contains(join_path(root, rel)) {
        let relw = choose|relw: Seq<u8>| #[trigger] file_tree(es).dom().contains(relw)
            && join_path(root, rel) == join_path(root, relw);
        lemma_join_injective(root, rel, relw);
    }
    if dirs_of(plan_spec(root, es)).contains(join_path(root, rel)) {
        let reld = choose|reld: Seq<u8>| #[trigger] dir_tree(es).contains(reld)
            && (reld.len() > 0 ==> wf_name(reld))
            && join_path(root, rel) == dir_dest(root, reld);
        if reld.len() == 0 {
            assert(join_path(root, rel).len() == root.len() + 1 + rel.len());
            assert(false);
        } else {
            lemma_join_injective(root, rel, reld);
        }
    }
}

/// Under one valid root, the root itself is ensured exactly when the
/// directory tree holds the empty relative directory.
pub proof fn lemma_one_root_root_dir(root: Seq<u8>, es: Seq<EntryV>)
    requires
        valid_root(root),
        wf_entries(es),
    ensures
        dirs_of(plan_spec(root, es)).contains(root) == dir_tree(es).contains(Seq::<u8>::empty()),
{
    lemma_plan_dirs(root, es);
    if dirs_of(plan_spec(root, es)).contains(root) {
        let reld = choose|reld: Seq<u8>| #[trigger] dir_tree(es).contains(reld)
            && (reld.len() > 0 ==> wf_name(reld)) && root == dir_dest(root, reld);
        if reld.len() > 0 {
            lemma_join_shape(root, reld);
            assert(false);
        }
        assert(reld =~= Seq::<u8>::empty());
    }
}

/// No regular-file entry of `es` is named `n`, so the file tree omits `n`.
proof fn lemma_file_tree_absent(es: Seq<EntryV>, n: Seq<u8>)
    requires
        forall|j: int| 0 <= j < es.len()
            ==> !((#[trigger] es[j]).kind == EntryKind::RegularFile && es[j].name == n),
    ensures
        !file_tree(es).dom().contains(n),
    decreases es.len(),
{
    if es.len() > 0 {
        let tail = es.subrange(1, es.len() as int);
        assert(forall|i: int| 0 <= i < tail.len() ==> tail[i] == es[i + 1]);
        lemma_file_tree_absent(tail, n);
    }
}

/// The last regular-file entry with a given name decides that file's content.
proof fn lemma_file_tree_last_write(es: Seq<EntryV>, i: int)
    requires
        0 <= i < es.len(),
        es[i].kind == EntryKind::RegularFile,
        forall|j: int| i < j < es.len()
            ==> !((#[trigger] es[j]).kind == EntryKind::RegularFile && es[j].name == es[i].name),
    ensures
        file_tree(es).dom().contains(es[i].name),
        file_tree(es)[es[i].name] == es[i].data,
    decreases es.len(),
{
    let tail = es.subrange(1, es.len() as int);
    assert(forall|k: int| 0 <= k < tail.len() ==> tail[k] == es[k + 1]);
    if i == 0 {
        lemma_file_tree_absent(tail, es[0].name);
    } else {
        lemma_file_tree_last_write(tail, i - 1);
    }
}

/// Law: round-trip fidelity. The extracted file for a regular-file entry —
/// the last entry of that name, if the archive names a path twice — holds
/// exactly the entry's content.
pub proof fn lemma_regular_file_round_trip(root: Seq<u8>, es: Seq<EntryV>, i: int)
    requires
        valid_root(root),
        wf_entries(es),
        0 <= i < es.len(),
        es[i].kind == EntryKind::RegularFile,
        forall|j: int| i < j < es.len()
            ==> !((#[trigger] es[j]).kind == EntryKind::RegularFile && es[j].name == es[i].name),
    ensures
        writes_of(plan_spec(root, es)).dom().contains(join_path(root, es[i].name)),
        writes_of(plan_spec(root, es))[join_path(root, es[i].name)] == es[i].data,
{
    lemma_file_tree_last_write(es, i);
    lemma_plan_writes(root, es);
}

/// Law: an entry of kind `Other` is inert. The plan for a sequence holding
/// one is the plan for the sequence without it: no file and no directory is
/// produced at or for its destination.
pub proof fn lemma_other_entry_inert(root: Seq<u8>, es: Seq<EntryV>, i: int)
    requires
        0 <= i < es.len(),
        es[i].kind == EntryKind::Other,
    ensures
        plan_spec(root, es) == plan_spec(root, es.remove(i)),
    decreases es.len(),
{
    let tail = es.subrange(1, es.len() as int);
    if i == 0 {
        assert(es.remove(0) =~= tail);
        assert(plan_spec(root, es) =~= plan_spec(root, tail));
    } else {
        lemma_other_entry_inert(root, tail, i - 1);
        assert(es.remove(i).subrange(1, es.remove(i).len() as int) =~= tail.remove(i - 1));
        assert(es.remove(i)[0] == es[0]);
    }
}

} // verus!
