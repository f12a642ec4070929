//! Byte-level path model.
//!
//! Archive entry paths and target roots are slash-separated byte strings.
//! The spec functions here give the mathematical meaning of the few path
//! operations the extraction core needs: joining a root with a relative
//! entry path, taking the parent directory of a path, and taking the file
//! name component of a path.

use vstd::prelude::*;

verus! {

/// Byte value of the path separator `/`.
pub const SLASH: u8 = 47;

/// Byte value of `.`.
pub const DOT: u8 = 46;

/// A well-formed entry name: non-empty and relative (no leading separator).
pub open spec fn wf_name(n: Seq<u8>) -> bool {
    n.len() > 0 && n[0] != SLASH
}

/// A valid target root: a non-empty directory path with no trailing separator.
pub open spec fn valid_root(r: Seq<u8>) -> bool {
    r.len() > 0 && r.last() != SLASH
}

/// The destination path for an entry named `name` under `root`.
///
/// Mirrors path joining: an absolute `name` stands alone, an empty `root`
/// contributes nothing, and exactly one separator stands between the parts.
pub open spec fn join_path(root: Seq<u8>, name: Seq<u8>) -> Seq<u8> {
    if name.len() > 0 && name[0] == SLASH {
        name
    } else if root.len() == 0 {
        name
    } else if root.last() == SLASH {
        root + name
    } else {
        root + seq![SLASH] + name
    }
}

/// `p` with every trailing separator removed.
pub open spec fn strip_slashes(p: Seq<u8>) -> Seq<u8>
    decreases p.len(),
{
    if p.len() > 0 && p.last() == SLASH {
        strip_slashes(p.drop_last())
    } else {
        p
    }
}

/// `p` with its trailing run of non-separator bytes removed: the prefix up
/// to and including the last separator, or empty if `p` has no separator.
pub open spec fn drop_component(p: Seq<u8>) -> Seq<u8>
    decreases p.len(),
{
    if p.len() == 0 {
        p
    } else if p.last() == SLASH {
        p
    } else {
        drop_component(p.drop_last())
    }
}

/// The parent directory of `p`: trailing separators ignored, the last
/// component removed, and the separators before it removed in turn.
pub open spec fn parent_path(p: Seq<u8>) -> Seq<u8> {
    strip_slashes(drop_component(strip_slashes(p)))
}

/// The file name component of `p`: the last slash-separated component, with
/// trailing separators ignored; none if that component is empty or `..`.
pub open spec fn file_name_of(p: Seq<u8>) -> Option<Seq<u8>> {
    let q = strip_slashes(p);
    let c = q.subrange(drop_component(q).len() as int, q.len() as int);
    if c.len() == 0 {
        None
    } else if c == seq![DOT, DOT] {
        None
    } else {
        Some(c)
    }
}

/// `s` ends with `suffix`.
pub open spec fn ends_with(s: Seq<u8>, suffix: Seq<u8>) -> bool {
    suffix.len() <= s.len() && s.subrange(s.len() - suffix.len(), s.len() as int) == suffix
}

/// `s` has `pat` as a contiguous subsequence.
pub open spec fn contains_seq(s: Seq<u8>, pat: Seq<u8>) -> bool {
    exists|i: int|
        0 <= i && i + pat.len() <= s.len() && #[trigger] s.subrange(i, i + pat.len()) == pat
}

/// `strip_slashes(p)` is the unique prefix of `p` that does not end with a
/// separator and is followed in `p` by separators only.
pub proof fn lemma_strip_shape(p: Seq<u8>)
    ensures
        strip_slashes(p).len() <= p.len(),
        strip_slashes(p) == p.take(strip_slashes(p).len() as int),
        strip_slashes(p).len() > 0 ==> p[strip_slashes(p).len() - 1] != SLASH,
        forall|i: int| strip_slashes(p).len() <= i < p.len() ==> p[i] == SLASH,
    decreases p.len(),
{
    if p.len() > 0 && p.last() == SLASH {
        lemma_strip_shape(p.drop_last());
        assert(p.drop_last().take(strip_slashes(p).len() as int)
            =~= p.take(strip_slashes(p).len() as int));
        assert forall|i: int| strip_slashes(p).len() <= i < p.len() implies p[i] == SLASH by {
            if i < p.len() - 1 {
                assert(p.drop_last()[i] == SLASH);
            }
        }
    } else {
        assert(strip_slashes(p) =~= p.take(p.len() as int));
    }
}

/// Any prefix of `p` with the shape described by `lemma_strip_shape`
/// is `strip_slashes(p)`.
pub proof fn lemma_strip_unique(p: Seq<u8>, m: int)
    requires
        0 <= m <= p.len(),
        m > 0 ==> p[m - 1] != SLASH,
        forall|i: int| m <= i < p.len() ==> p[i] == SLASH,
    ensures
        strip_slashes(p) == p.take(m),
{
    lemma_strip_shape(p);
    let l = strip_slashes(p).len() as int;
    if m < l {
        assert(p[l - 1] == SLASH);
    } else if m > l {
        assert(p[m - 1] == SLASH);
    }
}

/// `drop_component(p)` is the unique prefix of `p` that is empty or ends
/// with a separator and is followed in `p` by non-separators only.
pub proof fn lemma_drop_shape(p: Seq<u8>)
    ensures
        drop_component(p).len() <= p.len(),
        drop_component(p) == p.take(drop_component(p).len() as int),
        drop_component(p).len() > 0 ==> p[drop_component(p).len() - 1] == SLASH,
        forall|i: int| drop_component(p).len() <= i < p.len() ==> p[i] != SLASH,
    decreases p.len(),
{
    if p.len() == 0 || p.last() == SLASH {
        assert(drop_component(p) =~= p.take(p.len() as int));
    } else {
        lemma_drop_shape(p.drop_last());
        assert(p.drop_last().take(drop_component(p).len() as int)
            =~= p.take(drop_component(p).len() as int));
        assert forall|i: int| drop_component(p).len() <= i < p.len() implies p[i] != SLASH by {
            if i < p.len() - 1 {
                assert(p.drop_last()[i] != SLASH);
            }
        }
    }
}

/// Any prefix of `p` with the shape described by `lemma_drop_shape`
/// is `drop_component(p)`.
pub proof fn lemma_drop_unique(p: Seq<u8>, m: int)
    requires
        0 <= m <= p.len(),
        m > 0 ==> p[m - 1] == SLASH,
        forall|i: int| m <= i < p.len() ==> p[i] != SLASH,
    ensures
        drop_component(p) == p.take(m),
{
    lemma_drop_shape(p);
    let l = drop_component(p).len() as int;
    if m < l {
        assert(p[l - 1] == SLASH);
    } else if m > l {
        assert(p[m - 1] == SLASH);
    }
}

/// Joining a valid root with a well-formed name puts exactly one separator
/// between the two parts.
pub proof fn lemma_join_shape(root: Seq<u8>, name: Seq<u8>)
    requires
        valid_root(root),
        wf_name(name),
    ensures
        join_path(root, name) == root + seq![SLASH] + name,
        join_path(root, name).len() == root.len() + 1 + name.len(),
{
}

/// For a fixed valid root, distinct well-formed names join to distinct paths.
pub proof fn lemma_join_injective(root: Seq<u8>, a: Seq<u8>, b: Seq<u8>)
    requires
        valid_root(root),
        wf_name(a),
        wf_name(b),
        join_path(root, a) == join_path(root, b),
    ensures
        a == b,
{
    lemma_join_shape(root, a);
    lemma_join_shape(root, b);
    assert(a =~= (root + seq![SLASH] + a).subrange(root.len() as int + 1, root.len() + 1 + a.len() as int));
    assert(b =~= (root + seq![SLASH] + b).subrange(root.len() as int + 1, root.len() + 1 + b.len() as int));
}

/// The parent of a well-formed name is empty or itself a well-formed name,
/// and in the latter case it is shorter than the name.
pub proof fn lemma_parent_path_wf(name: Seq<u8>)
    requires
        wf_name(name),
    ensures
        parent_path(name).len() == 0 || (wf_name(parent_path(name)) && parent_path(name).len() < name.len()),
{
    lemma_strip_shape(name);
    let sn = strip_slashes(name);
    if sn.len() == 0 {
        assert(name[0] == SLASH);
    }
    lemma_drop_shape(sn);
    let dn = drop_component(sn);
    lemma_strip_shape(dn);
    let pn = strip_slashes(dn);
    if pn.len() > 0 {
        assert(pn[0] == name[0]);
    }
}

/// The parent of a joined destination path is the root when the entry name
/// has no parent, and the join of the root with the name's parent otherwise.
pub proof fn lemma_parent_of_join(root: Seq<u8>, name: Seq<u8>)
    requires
        valid_root(root),
        wf_name(name),
    ensures
        parent_path(join_path(root, name)) == (if parent_path(name).len() > 0 {
            join_path(root, parent_path(name))
        } else {
            root
        }),
{
    lemma_join_shape(root, name);
    let j = join_path(root, name);
    let rl = root.len() as int;

    // Trailing slashes of the join are the trailing slashes of the name.
    lemma_strip_shape(name);
    let sn = strip_slashes(name);
    if sn.len() == 0 {
        assert(name[0] == SLASH);
        assert(false);
    }
    assert(j[rl + sn.len()] == name[sn.len() - 1]);
    assert forall|i: int| rl + 1 + sn.len() <= i < j.len() implies j[i] == SLASH by {
        assert(j[i] == name[i - rl - 1]);
    }
    lemma_strip_unique(j, rl + 1 + sn.len());
    let q = j.take(rl + 1 + sn.len());
    assert(q =~= root + seq![SLASH] + sn);

    // The last component of the join is the last component of the name.
    lemma_drop_shape(sn);
    let dn = drop_component(sn);
    if dn.len() > 0 {
        assert(q[rl + dn.len()] == sn[dn.len() - 1]);
    } else {
        assert(q[rl] == SLASH);
    }
    assert forall|i: int| rl + 1 + dn.len() <= i < q.len() implies q[i] != SLASH by {
        assert(q[i] == sn[i - rl - 1]);
    }
    lemma_drop_unique(q, rl + 1 + dn.len());
    let dq = q.take(rl + 1 + dn.len());
    assert(dq =~= root + seq![SLASH] + dn);

    // Stripping the separators before that component stays inside the name,
    // or consumes the joining separator and ends exactly at the root.
    lemma_strip_shape(dn);
    let pn = strip_slashes(dn);
    if pn.len() == 0 {
        assert forall|i: int| rl <= i < dq.len() implies dq[i] == SLASH by {
            if i > rl {
                assert(dq[i] == dn[i - rl - 1]);
            }
        }
        lemma_strip_unique(dq, rl);
        assert(dq.take(rl) =~= root);
    } else {
        assert(pn[0] == dn[0]);
        assert(dn[0] == sn[0]);
        assert(sn[0] == name[0]);
        assert(dq[rl + pn.len()] == dn[pn.len() - 1]);
        assert forall|i: int| rl + 1 + pn.len() <= i < dq.len() implies dq[i] == SLASH by {
            assert(dq[i] == dn[i - rl - 1]);
        }
        lemma_strip_unique(dq, rl + 1 + pn.len());
        assert(dq.take(rl + 1 + pn.len()) =~= root + seq![SLASH] + pn);
        assert(wf_name(pn));
        lemma_join_shape(root, pn);
    }
}

/// `a == b` for byte slices.
pub fn bytes_eq(a: &[u8], b: &[u8]) -> (r: bool)
    ensures
        r == (a@ == b@),
{
    if a.len() != b.len() {
        return false;
    }
    let mut i: usize = 0;
    while i < a.len()
        invariant
            i <= a.len(),
            a@.len() == b@.len(),
            forall|k: int| 0 <= k < i ==> a@[k] == b@[k],
        decreases a.len() - i,
    {
        if a[i] != b[i] {
            return false;
        }
        i += 1;
    }
    proof {
        assert(a@ =~= b@);
    }
    true
}

/// `s` ends with `suffix`, executably.
pub fn bytes_ends_with(s: &[u8], suffix: &[u8]) -> (r: bool)
    ensures
        r == ends_with(s@, suffix@),
{
    if suffix.len() > s.len() {
        return false;
    }
    let start = s.len() - suffix.len();
    let mut i: usize = 0;
    while i < suffix.len()
        invariant
            i <= suffix.len(),
            start == s@.len() - suffix@.len(),
            s@.len() <= usize::MAX,
            forall|k: int| 0 <= k < i ==> s@[start + k] == suffix@[k],
        decreases suffix.len() - i,
    {
        if s[start + i] != suffix[i] {
            assert(s@.subrange(start as int, s@.len() as int)[i as int] != suffix@[i as int]);
            return false;
        }
        i += 1;
    }
    proof {
        assert(s@.subrange(start as int, s@.len() as int) =~= suffix@);
    }
    true
}

/// `pat` occurs in `s` starting at `at`, executably.
fn matches_at(s: &[u8], at: usize, pat: &[u8]) -> (r: bool)
    requires
        at + pat@.len() <= s@.len(),
    ensures
        r == (s@.subrange(at as int, at + pat@.len()) == pat@),
{
    let total = s.len();
    assert(total == s@.len());
    let seg = &s[at..at + pat.len()];
    bytes_eq(seg, pat)
}

/// `s` contains `pat` as a contiguous subsequence, executably.
pub fn bytes_contains(s: &[u8], pat: &[u8]) -> (r: bool)
    ensures
        r == contains_seq(s@, pat@),
{
    if pat.len() > s.len() {
        assert(!contains_seq(s@, pat@));
        return false;
    }
    if pat.len() == 0 {
        proof {
            assert(s@.subrange(0, 0 + pat@.len() as int) =~= pat@);
            assert(contains_seq(s@, pat@));
        }
        return true;
    }
    let last = s.len() - pat.len();
    let mut i: usize = 0;
    while i <= last
        invariant
            i <= last + 1,
            last == s@.len() - pat@.len(),
            pat@.len() >= 1,
            s@.len() <= usize::MAX,
            forall|k: int| 0 <= k < i ==> #[trigger] s@.subrange(k, k + pat@.len()) != pat@,
        decreases last - i + 1,
    {
        if matches_at(s, i, pat) {
            assert(contains_seq(s@, pat@));
            return true;
        }
        i += 1;
    }
    false
}

/// The join of `root` and `name`, executably.
pub fn join(root: &[u8], name: &[u8]) -> (r: Vec<u8>)
    ensures
        r@ == join_path(root@, name@),
{
    if name.len() > 0 && name[0] == SLASH {
        return vstd::slice::slice_to_vec(name);
    }
    if root.len() == 0 {
        return vstd::slice::slice_to_vec(name);
    }
    let mut v = vstd::slice::slice_to_vec(root);
    if root[root.len() - 1] != SLASH {
        v.push(SLASH);
    }
    let ghost stem = v@;
    let mut i: usize = 0;
    while i < name.len()
        invariant
            i <= name.len(),
            v@ == stem + name@.take(i as int),
        decreases name.len() - i,
    {
        v.push(name[i]);
        assert(v@ =~= stem + name@.take(i + 1));
        i += 1;
    }
    proof {
        assert(name@.take(name@.len() as int) =~= name@);
        if root@.last() == SLASH {
            assert(v@ =~= root@ + name@);
        } else {
            assert(v@ =~= root@ + seq![SLASH] + name@);
        }
    }
    v
}

/// The index that ends `strip_slashes(p@.take(hi as int))` when scanning
/// backwards from `hi`.
fn scan_back_slashes(p: &[u8], hi: usize) -> (r: usize)
    requires
        hi <= p@.len(),
    ensures
        r <= hi,
        strip_slashes(p@.take(hi as int)) == p@.take(r as int),
        r > 0 ==> p@[r - 1] != SLASH,
{
    let mut i = hi;
    while i > 0 && p[i - 1] == SLASH
        invariant
            i <= hi,
            hi <= p@.len(),
            forall|k: int| i <= k < hi ==> p@[k] == SLASH,
        decreases i,
    {
        i -= 1;
    }
    proof {
        let q = p@.take(hi as int);
        lemma_strip_unique(q, i as int);
        assert(q.take(i as int) =~= p@.take(i as int));
    }
    i
}

/// The index that ends `drop_component(p@.take(hi as int))` when scanning
/// backwards from `hi` over non-separator bytes.
pub(crate) fn scan_back_component(p: &[u8], hi: usize) -> (r: usize)
    requires
        hi <= p@.len(),
    ensures
        r <= hi,
        drop_component(p@.take(hi as int)) == p@.take(r as int),
        r > 0 ==> p@[r - 1] == SLASH,
{
    let mut i = hi;
    while i > 0 && p[i - 1] != SLASH
        invariant
            i <= hi,
            hi <= p@.len(),
            forall|k: int| i <= k < hi ==> p@[k] != SLASH,
        decreases i,
    {
        i -= 1;
    }
    proof {
        let q = p@.take(hi as int);
        lemma_drop_unique(q, i as int);
        assert(q.take(i as int) =~= p@.take(i as int));
    }
    i
}

/// A copy of `p[lo..hi]`.
pub(crate) fn copy_range(p: &[u8], lo: usize, hi: usize) -> (r: Vec<u8>)
    requires
        lo <= hi <= p@.len(),
    ensures
        r@ == p@.subrange(lo as int, hi as int),
{
    let mut v: Vec<u8> = Vec::new();
    let mut i = lo;
    while i < hi
        invariant
            lo <= i <= hi <= p@.len(),
            v@ == p@.subrange(lo as int, i as int),
        decreases hi - i,
    {
        v.push(p[i]);
        assert(v@ =~= p@.subrange(lo as int, i + 1));
        i += 1;
    }
    v
}

/// The parent directory of `p`, executably.
pub fn parent_dir(p: &[u8]) -> (r: Vec<u8>)
    ensures
        r@ == parent_path(p@),
{
    let i = scan_back_slashes(p, p.len());
    let j = scan_back_component(p, i);
    let k = scan_back_slashes(p, j);
    proof {
        assert(p@.take(p@.len() as int) =~= p@);
        assert(p@.take(k as int) =~= p@.subrange(0, k as int));
    }
    copy_range(p, 0, k)
}

/// The file name component of `p`, executably.
pub fn file_name_component(p: &[u8]) -> (r: Option<Vec<u8>>)
    ensures
        match r {
            Some(v) => file_name_of(p@) == Some(v@),
            None => file_name_of(p@) is None,
        },
{
    let i = scan_back_slashes(p, p.len());
    let j = scan_back_component(p, i);
    proof {
        assert(p@.take(p@.len() as int) =~= p@);
        let q = strip_slashes(p@);
        assert(q == p@.take(i as int));
        assert(q.subrange(drop_component(q).len() as int, q.len() as int)
            =~= p@.subrange(j as int, i as int));
    }
    if i == j {
        return None;
    }
    if i - j == 2 && p[j] == DOT && p[j + 1] == DOT {
        proof {
            assert(p@.subrange(j as int, i as int) =~= seq![DOT, DOT]);
        }
        return None;
    }
    proof {
        let c = p@.subrange(j as int, i as int);
        if c == seq![DOT, DOT] {
            assert(c.len() == 2 && c[0] == DOT && c[1] == DOT);
            assert(false);
        }
    }
    Some(copy_range(p, j, i))
}

} // verus!
