//! Workspace paths as `/`-separated text: joining, the workspace-relative form
//! of a path, where task artifacts live, and the check that keeps a task's
//! working directory inside the workspace.

use vstd::prelude::*;

use crate::text::{
    backslash_to_slash, chars_of, lemma_split_on_nonempty, owned, replace_backslashes, slice_eq_str,
    split_on, string_from_chars,
};

verus! {

/// `Path::join` on `/`-separated paths: an absolute part replaces the base,
/// and a separator is put between the two unless the base is empty or already
/// ends with one.
pub open spec fn join_path(base: Seq<char>, part: Seq<char>) -> Seq<char> {
    if part.len() > 0 && part[0] == '/' {
        part
    } else if base.len() == 0 {
        part
    } else if base.last() == '/' {
        base + part
    } else {
        base + seq!['/'] + part
    }
}

pub fn join_path_exec(base: &str, part: &str) -> (r: String)
    ensures
        r@ == join_path(base@, part@),
{
    let b = chars_of(base);
    let p = chars_of(part);
    if p.len() > 0 && p[0] == '/' {
        return owned(part);
    }
    if b.len() == 0 {
        return owned(part);
    }
    let mut s = owned(base);
    if b[b.len() - 1] != '/' {
        s.push('/');
    }
    let s = s.concat(part);
    proof {
        if b@.last() != '/' {
            assert(s@ =~= base@ + seq!['/'] + part@);
        }
    }
    s
}

/// The text without its leading `/` characters.
pub open spec fn drop_leading_slashes(s: Seq<char>) -> Seq<char>
    decreases s.len(),
{
    if s.len() > 0 && s[0] == '/' {
        drop_leading_slashes(s.drop_first())
    } else {
        s
    }
}

/// `path.strip_prefix(root)` for paths whose components are separated by
/// single `/` characters: the rest of `path` after `root`, when `root` ends at
/// a component boundary of `path`.
pub open spec fn strip_root(root: Seq<char>, path: Seq<char>) -> Option<Seq<char>> {
    if root.len() == 0 {
        Some(path)
    } else if root.len() <= path.len() && path.subrange(0, root.len() as int) == root && (path.len()
        == root.len() || root.last() == '/' || path[root.len() as int] == '/') {
        Some(drop_leading_slashes(path.subrange(root.len() as int, path.len() as int)))
    } else {
        None
    }
}

/// The workspace-relative form of `path`, with `/` separators.
pub open spec fn spec_normalize_rel_path(root: Seq<char>, path: Seq<char>) -> Seq<char> {
    backslash_to_slash(
        match strip_root(root, path) {
            Some(rest) => rest,
            None => path,
        },
    )
}

pub fn normalize_rel_path(root: &str, path: &str) -> (r: String)
    ensures
        r@ == spec_normalize_rel_path(root@, path@),
{
    let rc = chars_of(root);
    let pc = chars_of(path);
    if rc.len() == 0 {
        return replace_backslashes(path);
    }
    if rc.len() <= pc.len() && slice_eq_str(&pc, 0, rc.len(), root) && (pc.len() == rc.len()
        || rc[rc.len() - 1] == '/' || pc[rc.len()] == '/') {
        let mut k = rc.len();
        let ghost rest = pc@.subrange(rc@.len() as int, pc@.len() as int);
        while k < pc.len() && pc[k] == '/'
            invariant
                rc@.len() <= k <= pc@.len(),
                rest == pc@.subrange(rc@.len() as int, pc@.len() as int),
                drop_leading_slashes(rest) == drop_leading_slashes(pc@.subrange(k as int, pc@.len() as int)),
            decreases pc@.len() - k,
        {
            let ghost cur = pc@.subrange(k as int, pc@.len() as int);
            assert(cur.drop_first() =~= pc@.subrange(k + 1, pc@.len() as int));
            k = k + 1;
        }
        let tail = string_from_chars(&pc, k, pc.len());
        return replace_backslashes(tail.as_str());
    }
    replace_backslashes(path)
}

/// Where task artifacts are stored under a workspace root.
pub open spec fn spec_artifacts_blobs_dir(root: Seq<char>) -> Seq<char> {
    join_path(join_path(join_path(root, ".rip"@), "artifacts"@), "blobs"@)
}

pub fn artifacts_blobs_dir(root: &str) -> (r: String)
    ensures
        r@ == spec_artifacts_blobs_dir(root@),
{
    let a = join_path_exec(root, ".rip");
    let b = join_path_exec(a.as_str(), "artifacts");
    join_path_exec(b.as_str(), "blobs")
}

/// The workspace-relative path of an artifact blob.
pub open spec fn blob_rel_path(id: Seq<char>) -> Seq<char> {
    ".rip/artifacts/blobs/"@ + id
}

/// For every workspace root, the workspace-relative form of a blob's path is
/// `.rip/artifacts/blobs/<id>`.
pub proof fn lemma_blob_path_is_relative(root: Seq<char>, id: Seq<char>)
    requires
        id.len() > 0,
        id[0] != '/',
        forall|i: int| 0 <= i < id.len() ==> id[i] != '\\',
    ensures
        spec_normalize_rel_path(root, join_path(spec_artifacts_blobs_dir(root), id)) == blob_rel_path(id),
{
    reveal_strlit(".rip");
    reveal_strlit("artifacts");
    reveal_strlit("blobs");
    reveal_strlit(".rip/artifacts/blobs/");
    let tail = ".rip/artifacts/blobs/"@ + id;
    assert(forall|i: int| 0 <= i < tail.len() ==> tail[i] != '\\');
    assert(backslash_to_slash(tail) =~= tail);
    if root.len() == 0 {
        assert(join_path(spec_artifacts_blobs_dir(root), id) =~= tail);
    } else if root.last() == '/' {
        let full = join_path(spec_artifacts_blobs_dir(root), id);
        assert(full =~= root + tail);
        assert(full.subrange(0, root.len() as int) =~= root);
        assert(full.subrange(root.len() as int, full.len() as int) =~= tail);
        assert(drop_leading_slashes(tail) == tail);
    } else {
        let full = join_path(spec_artifacts_blobs_dir(root), id);
        assert(full =~= root + seq!['/'] + tail);
        assert(full.subrange(0, root.len() as int) =~= root);
        let rest = full.subrange(root.len() as int, full.len() as int);
        assert(rest =~= seq!['/'] + tail);
        assert(rest.drop_first() =~= tail);
        assert(drop_leading_slashes(tail) == tail);
    }
}

/// Whether a relative path names its parent directory (`..`) at some step.
pub open spec fn has_parent_component(raw: Seq<char>) -> bool {
    split_on(raw, '/').contains(".."@)
}

/// A task's working directory: relative to the workspace root, and never
/// climbing out of it.
pub open spec fn spec_resolve_path(root: Seq<char>, raw: Seq<char>) -> Result<Seq<char>, Seq<char>> {
    if raw.len() > 0 && raw[0] == '/' {
        Err("absolute paths are not allowed"@)
    } else if has_parent_component(raw) {
        Err("path escapes workspace root"@)
    } else {
        Ok(join_path(root, raw))
    }
}

fn parent_component(chars: &Vec<char>) -> (r: bool)
    ensures
        r == split_on(chars@, '/').contains(".."@),
{
    let n = chars.len();
    let mut start: usize = 0;
    let mut i: usize = 0;
    let ghost mut done: Seq<Seq<char>> = Seq::empty();
    assert(chars@.subrange(0, 0) =~= Seq::<char>::empty());
    while i < n
        invariant
            n == chars@.len(),
            start <= i <= n,
            split_on(chars@.subrange(0, i as int), '/') == done.push(chars@.subrange(start as int, i as int)),
            !done.contains(".."@),
        decreases n - i,
    {
        let ghost s1 = chars@.subrange(0, i + 1);
        assert(s1.drop_last() =~= chars@.subrange(0, i as int));
        if chars[i] == '/' {
            let ghost piece = chars@.subrange(start as int, i as int);
            if slice_eq_str(chars, start, i, "..") {
                proof {
                    lemma_split_prefix_contains(chars@, i as int, done, piece);
                }
                return true;
            }
            proof {
                assert(s1.last() == '/');
                assert(split_on(s1, '/') == done.push(piece).push(Seq::<char>::empty()));
                assert(chars@.subrange(i + 1, i + 1) =~= Seq::<char>::empty());
                assert forall|x: Seq<char>| done.push(piece).contains(x) implies x != ".."@ by {
                    let k = choose|k: int| 0 <= k < done.push(piece).len() && done.push(piece)[k] == x;
                    if k < done.len() {
                        assert(done.contains(x));
                    }
                }
                done = done.push(piece);
            }
            start = i + 1;
        } else {
            proof {
                let seg0 = chars@.subrange(start as int, i as int);
                let seg1 = chars@.subrange(start as int, i + 1);
                assert(seg1 =~= seg0.push(chars@[i as int]));
                let rest = done.push(seg0);
                assert(rest.update(rest.len() - 1, rest.last().push(s1.last())) =~= done.push(seg1));
            }
        }
        i = i + 1;
    }
    assert(chars@.subrange(0, n as int) =~= chars@);
    let last = slice_eq_str(chars, start, n, "..");
    proof {
        let pieces = done.push(chars@.subrange(start as int, n as int));
        if last {
            assert(pieces[pieces.len() - 1] == ".."@);
        } else {
            assert forall|x: Seq<char>| pieces.contains(x) implies x != ".."@ by {
                let k = choose|k: int| 0 <= k < pieces.len() && pieces[k] == x;
                if k < done.len() {
                    assert(done.contains(x));
                }
            }
        }
    }
    last
}

/// The pieces of a prefix that ends at a separator are, all but the one
/// after that separator, pieces of the whole text.
proof fn lemma_split_prefix_contains(s: Seq<char>, i: int, done: Seq<Seq<char>>, piece: Seq<char>)
    requires
        0 <= i < s.len(),
        s[i] == '/',
        split_on(s.subrange(0, i), '/') == done.push(piece),
        piece == ".."@,
    ensures
        split_on(s, '/').contains(".."@),
    decreases s.len() - i,
{
    lemma_split_keeps_earlier(s, i, done.len() as int);
    assert(split_on(s.subrange(0, i), '/')[done.len() as int] == piece);
}

/// Extending a text never changes its earlier pieces: piece `k` of a prefix
/// that is not its last piece is also piece `k` of the whole.
proof fn lemma_split_keeps_earlier(s: Seq<char>, i: int, k: int)
    requires
        0 <= i <= s.len(),
        0 <= k < split_on(s.subrange(0, i), '/').len(),
        i == s.len() || s[i] == '/',
    ensures
        k < split_on(s, '/').len(),
        split_on(s, '/')[k] == split_on(s.subrange(0, i), '/')[k],
    decreases s.len() - i,
{
    lemma_split_on_nonempty(s.subrange(0, i), '/');
    if i == s.len() {
        assert(s.subrange(0, i) =~= s);
    } else {
        let p = split_on(s.subrange(0, i), '/');
        let s1 = s.subrange(0, i + 1);
        assert(s1.drop_last() =~= s.subrange(0, i));
        let q = split_on(s1, '/');
        assert(q == p.push(Seq::<char>::empty()));
        lemma_split_keeps_earlier_any(s, i + 1, k);
    }
}

/// Piece `k` of a prefix is unchanged by extension as long as it is not the
/// prefix's last piece.
proof fn lemma_split_keeps_earlier_any(s: Seq<char>, i: int, k: int)
    requires
        0 <= i <= s.len(),
        0 <= k < split_on(s.subrange(0, i), '/').len() - 1,
    ensures
        k < split_on(s, '/').len(),
        split_on(s, '/')[k] == split_on(s.subrange(0, i), '/')[k],
    decreases s.len() - i,
{
    lemma_split_on_nonempty(s.subrange(0, i), '/');
    if i == s.len() {
        assert(s.subrange(0, i) =~= s);
    } else {
        let p = split_on(s.subrange(0, i), '/');
        let s1 = s.subrange(0, i + 1);
        assert(s1.drop_last() =~= s.subrange(0, i));
        let q = split_on(s1, '/');
        if s[i] == '/' {
            assert(q == p.push(Seq::<char>::empty()));
        } else {
            assert(q == p.update(p.len() - 1, p.last().push(s[i])));
        }
        assert(q[k] == p[k]);
        lemma_split_keeps_earlier_any(s, i + 1, k);
    }
}

pub fn resolve_path(root: &str, raw: &str) -> (r: Result<String, String>)
    ensures
        match spec_resolve_path(root@, raw@) {
            Ok(p) => r matches Ok(x) && x@ == p,
            Err(e) => r matches Err(m) && m@ == e,
        },
{
    let chars = chars_of(raw);
    if chars.len() > 0 && chars[0] == '/' {
        return Err(owned("absolute paths are not allowed"));
    }
    if parent_component(&chars) {
        return Err(owned("path escapes workspace root"));
    }
    Ok(join_path_exec(root, raw))
}

/// A path accepted as a task's working directory is relative and never names
/// its parent directory.
pub proof fn lemma_resolved_path_stays_inside(root: Seq<char>, raw: Seq<char>)
    ensures
        spec_resolve_path(root, raw) is Ok ==> {
            &&& !(raw.len() > 0 && raw[0] == '/')
            &&& forall|i: int| 0 <= i < split_on(raw, '/').len() ==> split_on(raw, '/')[i] != ".."@
        },
{
    if spec_resolve_path(root, raw) is Ok {
        assert forall|i: int| 0 <= i < split_on(raw, '/').len() implies split_on(raw, '/')[i] != ".."@ by {
            if split_on(raw, '/')[i] == ".."@ {
                assert(split_on(raw, '/').contains(".."@));
            }
        }
    }
}

} // verus!
