//! The tree materializer.
//!
//! [`plan_entries`] turns an entry sequence and a target root into the exact
//! sequence of filesystem steps that reconstructs the encoded tree: for a
//! directory entry, create the destination's parent chain; for a regular
//! file entry, create the parent chain and write the content; for any other
//! entry, do nothing. [`apply_plan`] gives such a plan its meaning over an
//! abstract filesystem state, so that properties of extraction — overwrite
//! idempotence, preservation of unrelated files — are theorems here rather
//! than hopes about the real disk.

use vstd::prelude::*;
use crate::entries::{actions_view, entries_view, Action, ActionV, Entry, EntryKind, EntryV};
use crate::paths::{join, join_path, parent_dir, parent_path};

verus! {

/// The filesystem steps for one entry under `root`.
pub open spec fn entry_actions(root: Seq<u8>, e: EntryV) -> Seq<ActionV> {
    match e.kind {
        EntryKind::Directory => seq![
            ActionV::EnsureDirs(parent_path(join_path(root, e.name))),
        ],
        EntryKind::RegularFile => seq![
            ActionV::EnsureDirs(parent_path(join_path(root, e.name))),
            ActionV::WriteFile(join_path(root, e.name), e.data),
        ],
        EntryKind::Other => seq![],
    }
}

/// The full materialization plan for `es` under `root`, entry by entry in
/// container-index order.
pub open spec fn plan_spec(root: Seq<u8>, es: Seq<EntryV>) -> Seq<ActionV>
    decreases es.len(),
{
    if es.len() == 0 {
        seq![]
    } else {
        entry_actions(root, es[0]) + plan_spec(root, es.subrange(1, es.len() as int))
    }
}

/// Planning one more entry appends that entry's actions.
pub proof fn lemma_plan_push(root: Seq<u8>, es: Seq<EntryV>, e: EntryV)
    ensures
        plan_spec(root, es.push(e)) == plan_spec(root, es) + entry_actions(root, e),
    decreases es.len(),
{
    if es.len() == 0 {
        assert(es.push(e)[0] == e);
        assert(es.push(e).subrange(1, 1) =~= Seq::<EntryV>::empty());
        assert(plan_spec(root, Seq::<EntryV>::empty()) == Seq::<ActionV>::empty());
        assert(plan_spec(root, es.push(e)) =~= plan_spec(root, es) + entry_actions(root, e));
    } else {
        let tail = es.subrange(1, es.len() as int);
        lemma_plan_push(root, tail, e);
        assert(es.push(e).subrange(1, es.len() as int + 1) =~= tail.push(e));
        assert(es.push(e)[0] == es[0]);
        assert(entry_actions(root, es[0]) + (plan_spec(root, tail) + entry_actions(root, e))
            =~= (entry_actions(root, es[0]) + plan_spec(root, tail)) + entry_actions(root, e));
    }
}

/// Compute the materialization plan for `entries` under `root`.
pub fn plan_entries(root: &[u8], entries: &Vec<Entry>) -> (plan: Vec<Action>)
    ensures
        actions_view(plan@) == plan_spec(root@, entries_view(entries@)),
{
    let mut plan: Vec<Action> = Vec::new();
    let mut i: usize = 0;
    while i < entries.len()
        invariant
            i <= entries@.len(),
            actions_view(plan@) == plan_spec(root@, entries_view(entries@.take(i as int))),
        decreases entries@.len() - i,
    {
        let e = &entries[i];
        let ghost before = plan@;
        let dest = join(root, e.name.as_slice());
        match e.kind {
            EntryKind::Directory => {
                let parent = parent_dir(dest.as_slice());
                plan.push(Action::EnsureDirs(parent));
                assert(actions_view(plan@) =~= actions_view(before) + entry_actions(root@, entries@[i as int]@));
            }
            EntryKind::RegularFile => {
                let parent = parent_dir(dest.as_slice());
                let content = vstd::slice::slice_to_vec(e.data.as_slice());
                plan.push(Action::EnsureDirs(parent));
                plan.push(Action::WriteFile(dest, content));
                assert(actions_view(plan@) =~= actions_view(before) + entry_actions(root@, entries@[i as int]@));
            }
            EntryKind::Other => {
                assert(actions_view(plan@) =~= actions_view(before) + entry_actions(root@, entries@[i as int]@));
            }
        }
        proof {
            lemma_plan_push(root@, entries_view(entries@.take(i as int)), entries@[i as int]@);
            assert(entries_view(entries@.take(i + 1))
                =~= entries_view(entries@.take(i as int)).push(entries@[i as int]@));
        }
        i += 1;
    }
    proof {
        assert(entries@.take(entries@.len() as int) =~= entries@);
    }
    plan
}

/// The destination path of a write action (and, for a directory action, the
/// directory it ensures).
pub open spec fn action_path(a: ActionV) -> Seq<u8> {
    match a {
        ActionV::EnsureDirs(p) => p,
        ActionV::WriteFile(p, _) => p,
    }
}

/// Invariant: every file write in a plan is immediately preceded by the step
/// that creates the destination's parent directory chain — so the parent
/// directory exists on disk before the file's content is written, even when
/// the entry sequence does not list directories before the files they
/// contain.
pub proof fn lemma_parent_ensured_before_write(root: Seq<u8>, es: Seq<EntryV>, i: int)
    requires
        0 <= i < plan_spec(root, es).len(),
        plan_spec(root, es)[i] is WriteFile,
    ensures
        i >= 1,
        plan_spec(root, es)[i - 1] == ActionV::EnsureDirs(
            parent_path(action_path(plan_spec(root, es)[i])),
        ),
    decreases es.len(),
{
    let plan = plan_spec(root, es);
    let head = entry_actions(root, es[0]);
    let tail = plan_spec(root, es.subrange(1, es.len() as int));
    assert(plan == head + tail);
    if i < head.len() {
        assert(es[0].kind == EntryKind::RegularFile && i == 1);
        assert(plan[0] == head[0]);
        assert(plan[1] == head[1]);
    } else {
        lemma_parent_ensured_before_write(root, es.subrange(1, es.len() as int), i - head.len());
        assert(plan[i] == tail[i - head.len()]);
        assert(plan[i - 1] == tail[i - head.len() - 1]);
    }
}

/// An abstract filesystem: the regular files' contents by path, and the set
/// of directory paths whose chain of ancestors has been created. A path in
/// `dirs` stands for that directory together with every ancestor of it.
#[verifier::ext_equal]
pub ghost struct FsState {
    /// Content of each regular file, by path.
    pub files: Map<Seq<u8>, Seq<u8>>,
    /// Directory paths that have been ensured, each standing for itself and
    /// its ancestors.
    pub dirs: Set<Seq<u8>>,
}

/// The filesystem state with no files and no ensured directories.
pub open spec fn empty_fs() -> FsState {
    FsState { files: Map::empty(), dirs: Set::empty() }
}

/// The effect of one action: ensuring directories adds a path to `dirs`;
/// writing a file creates or overwrites its content.
pub open spec fn apply_action(s: FsState, a: ActionV) -> FsState {
    match a {
        ActionV::EnsureDirs(p) => FsState { dirs: s.dirs.insert(p), ..s },
        ActionV::WriteFile(p, d) => FsState { files: s.files.insert(p, d), ..s },
    }
}

/// The effect of a whole plan, applied in order.
pub open spec fn apply_plan(s: FsState, plan: Seq<ActionV>) -> FsState
    decreases plan.len(),
{
    if plan.len() == 0 {
        s
    } else {
        apply_plan(apply_action(s, plan[0]), plan.subrange(1, plan.len() as int))
    }
}

/// The files a plan writes, with the last write of each path winning.
pub open spec fn writes_of(plan: Seq<ActionV>) -> Map<Seq<u8>, Seq<u8>> {
    apply_plan(empty_fs(), plan).files
}

/// The directory paths a plan ensures.
pub open spec fn dirs_of(plan: Seq<ActionV>) -> Set<Seq<u8>> {
    apply_plan(empty_fs(), plan).dirs
}

/// A plan's effect on any starting state is: overwrite the files it writes,
/// add the directories it ensures, and touch nothing else.
pub proof fn lemma_apply_decomposes(s: FsState, plan: Seq<ActionV>)
    ensures
        apply_plan(s, plan).files =~= s.files.union_prefer_right(writes_of(plan)),
        apply_plan(s, plan).dirs =~= s.dirs.union(dirs_of(plan)),
    decreases plan.len(),
{
    if plan.len() == 0 {
    } else {
        let tail = plan.subrange(1, plan.len() as int);
        lemma_apply_decomposes(apply_action(s, plan[0]), tail);
        lemma_apply_decomposes(apply_action(empty_fs(), plan[0]), tail);
    }
}

/// Applying plans in sequence composes.
pub proof fn lemma_apply_concat(s: FsState, a: Seq<ActionV>, b: Seq<ActionV>)
    ensures
        apply_plan(s, a + b) == apply_plan(apply_plan(s, a), b),
    decreases a.len(),
{
    if a.len() == 0 {
        assert(a + b =~= b);
    } else {
        let tail = a.subrange(1, a.len() as int);
        assert((a + b).subrange(1, (a + b).len() as int) =~= tail + b);
        assert((a + b)[0] == a[0]);
        lemma_apply_concat(apply_action(s, a[0]), tail, b);
    }
}

/// What a concatenated plan writes and ensures, part by part.
pub proof fn lemma_effects_concat(a: Seq<ActionV>, b: Seq<ActionV>)
    ensures
        writes_of(a + b) =~= writes_of(a).union_prefer_right(writes_of(b)),
        dirs_of(a + b) =~= dirs_of(a).union(dirs_of(b)),
{
    lemma_apply_concat(empty_fs(), a, b);
    lemma_apply_decomposes(apply_plan(empty_fs(), a), b);
}

/// Law: re-running a materialization plan on the state the first run left
/// behind changes nothing — extraction into the same target root twice
/// succeeds and leaves the first run's files exactly as they were.
pub proof fn lemma_rerun_is_noop(s: FsState, plan: Seq<ActionV>)
    ensures
        apply_plan(apply_plan(s, plan), plan) == apply_plan(s, plan),
{
    let s1 = apply_plan(s, plan);
    lemma_apply_decomposes(s, plan);
    lemma_apply_decomposes(s1, plan);
    assert(apply_plan(s1, plan).files =~= s1.files);
    assert(apply_plan(s1, plan).dirs =~= s1.dirs);
    assert(apply_plan(s1, plan) =~~= s1);
}

/// Law: a plan neither deletes nor rewrites a file it does not write — what
/// existed under the target root before extraction and is not named by the
/// archive survives unchanged.
pub proof fn lemma_untouched_files_survive(s: FsState, plan: Seq<ActionV>, p: Seq<u8>)
    requires
        !writes_of(plan).dom().contains(p),
    ensures
        apply_plan(s, plan).files.dom().contains(p) == s.files.dom().contains(p),
        s.files.dom().contains(p) ==> apply_plan(s, plan).files[p] == s.files[p],
{
    lemma_apply_decomposes(s, plan);
}

/// Law: a plan's writes overwrite whatever stood at those paths before — the
/// extracted content does not depend on the prior state of the target root,
/// also where a file already existed with different content.
pub proof fn lemma_writes_overwrite(s: FsState, plan: Seq<ActionV>, p: Seq<u8>)
    requires
        writes_of(plan).dom().contains(p),
    ensures
        apply_plan(s, plan).files.dom().contains(p),
        apply_plan(s, plan).files[p] == writes_of(plan)[p],
{
    lemma_apply_decomposes(s, plan);
}

} // verus!
