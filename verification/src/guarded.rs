//! The guarded mutation protocol.
//!
//! Every public operation follows the same shape: locate the deepest
//! already-existing ancestor of the target, clear its read-only bit when
//! it lies strictly below the root boundary, create the missing chain of
//! directories, then walk the chain back up setting read-only on each
//! level, halting at the root boundary (which is never touched) or at the
//! located ancestor (which is relocked). The target itself is finally
//! left writable. Each operation is specified as a function from tree to
//! tree, and the executable code is proved equal to it.
use vstd::prelude::*;

use crate::fs_model::SandboxFs;
use crate::fs_spec::{
    dir_at, err_model, spec_mkdir, spec_set_bit, spec_write_node, ErrKind, ErrModel,
    FsError, FsOp, FsTree,
};
use crate::paths::{
    clone_path, norm_segments, parse_segments, prefix_of_len, segs_eq, segs_is_prefix, PathSeq,
};

verus! {

/// The length of the longest prefix of `p` at which a directory stands,
/// or -1 when no prefix of `p` (the empty one included) is a directory.
pub open spec fn anc_len(t: FsTree, p: PathSeq) -> int
    decreases p.len(),
{
    if dir_at(t, p) {
        p.len() as int
    } else if p.len() == 0 {
        -1
    } else {
        anc_len(t, p.drop_last())
    }
}

/// Whether `p` lies strictly below `r`: `r` is a proper ancestor of `p`.
pub open spec fn strictly_below(p: PathSeq, r: PathSeq) -> bool {
    r.is_prefix_of(p) && p.len() > r.len()
}

/// Clearing the read-only bit of the located ancestor, so that entries
/// can be created beneath it. The bit is touched only when the ancestor
/// lies strictly below the root boundary: the boundary itself and
/// anything above it are never altered.
pub open spec fn spec_unlock_down_to(t: FsTree, anc: PathSeq, root: PathSeq) -> (FsTree, Option<
    ErrModel,
>) {
    if strictly_below(anc, root) {
        spec_set_bit(t, anc, false, FsOp::ClearBit)
    } else {
        (t, None)
    }
}

/// One step of chain creation: an existing directory is kept as it is,
/// anything else goes through the single-directory create.
pub open spec fn spec_ensure_dir(t: FsTree, q: PathSeq) -> (FsTree, Option<ErrModel>) {
    if dir_at(t, q) {
        (t, None)
    } else {
        spec_mkdir(t, q)
    }
}

/// Creating the chain of directories at the prefixes of `p` longer than
/// `k`, nearest to the root first; stops at the first failure, keeping
/// what was created before it.
pub open spec fn spec_mkdirs(t: FsTree, p: PathSeq, k: int) -> (FsTree, Option<ErrModel>)
    decreases p.len() - k,
{
    if k >= p.len() {
        (t, None)
    } else {
        let step = spec_ensure_dir(t, p.take(k + 1));
        if step.1 is Some {
            step
        } else {
            spec_mkdirs(step.0, p, k + 1)
        }
    }
}

/// Walking the prefixes of `target` of length `k` downward, setting
/// read-only on each, halting before the root boundary (its bit is never
/// touched) and after the `stop` ancestor (which is relocked). A failure
/// surfaces at once; levels already relocked stay relocked.
pub open spec fn spec_relock(
    t: FsTree,
    root: PathSeq,
    target: PathSeq,
    stop: PathSeq,
    k: int,
) -> (FsTree, Option<ErrModel>)
    decreases k + 1,
{
    if k < 0 {
        (t, None)
    } else {
        let q = target.take(k);
        if q == root {
            (t, None)
        } else {
            let step = spec_set_bit(t, q, true, FsOp::SetBit);
            if step.1 is Some {
                step
            } else if q == stop {
                (step.0, None)
            } else {
                spec_relock(step.0, root, target, stop, k - 1)
            }
        }
    }
}

/// The whole guarded directory creation: locate the nearest existing
/// ancestor, unlock it (when strictly below the boundary), create the
/// missing chain, relock the chain up to the ancestor, and leave the
/// target itself writable (when strictly below the boundary).
pub open spec fn spec_create_project_dir(t: FsTree, path: PathSeq, root: PathSeq) -> (FsTree, Option<
    ErrModel,
>) {
    let al = anc_len(t, path);
    if al < 0 {
        (t, Some(err_model(ErrKind::NotFound, FsOp::Locate, path)))
    } else {
        let anc = path.take(al);
        let unlocked = spec_unlock_down_to(t, anc, root);
        if unlocked.1 is Some {
            unlocked
        } else {
            let made = spec_mkdirs(unlocked.0, path, al);
            if made.1 is Some {
                made
            } else {
                let relocked = spec_relock(made.0, root, path, anc, path.len() as int);
                if relocked.1 is Some {
                    relocked
                } else if strictly_below(path, root) {
                    spec_set_bit(relocked.0, path, false, FsOp::ClearBit)
                } else {
                    relocked
                }
            }
        }
    }
}

/// The whole guarded file write: the parent directory is materialized
/// through the guarded creation when missing (with the filesystem root
/// as the boundary), the contents are written, and the file's bit is set
/// when the caller asked for a read-only file.
pub open spec fn spec_write_file(t: FsTree, path: PathSeq, c: Seq<u8>, read_only: bool) -> (
    FsTree,
    Option<ErrModel>,
) {
    let ensured = if path.len() == 0 {
        (t, None)
    } else if dir_at(t, path.drop_last()) {
        (t, None)
    } else {
        spec_create_project_dir(t, path.drop_last(), Seq::empty())
    };
    if ensured.1 is Some {
        ensured
    } else {
        let written = spec_write_node(ensured.0, path, c);
        if written.1 is Some {
            written
        } else if read_only {
            spec_set_bit(written.0, path, true, FsOp::SetBit)
        } else {
            written
        }
    }
}

/// The prefixes of `target`, longest first, that the relock walk sets
/// read-only: the walk halts before the root boundary and after the
/// `stop` ancestor.
pub open spec fn relock_list(root: PathSeq, target: PathSeq, stop: PathSeq, k: int) -> Seq<
    PathSeq,
>
    decreases k + 1,
{
    if k < 0 {
        Seq::empty()
    } else {
        let q = target.take(k);
        if q == root {
            Seq::empty()
        } else if q == stop {
            seq![q]
        } else {
            seq![q] + relock_list(root, target, stop, k - 1)
        }
    }
}

fn relock_plan_from(
    root: &Vec<String>,
    target: &Vec<String>,
    stop: &Vec<String>,
    k: usize,
) -> (r: Vec<Vec<String>>)
    requires
        k <= target@.len(),
    ensures
        r.deep_view() == relock_list(root.deep_view(), target.deep_view(), stop.deep_view(), k as int),
    decreases k,
{
    let q = prefix_of_len(target, k);
    if segs_eq(&q, root) {
        return Vec::new();
    }
    if segs_eq(&q, stop) {
        let mut out: Vec<Vec<String>> = Vec::new();
        out.push(q);
        proof {
            assert(out.deep_view() =~= seq![target.deep_view().take(k as int)]);
        }
        return out;
    }
    if k == 0 {
        let mut out: Vec<Vec<String>> = Vec::new();
        out.push(q);
        proof {
            let ghost tail = relock_list(
                root.deep_view(),
                target.deep_view(),
                stop.deep_view(),
                -1,
            );
            assert(tail =~= Seq::<PathSeq>::empty());
            assert(out.deep_view() =~= seq![target.deep_view().take(0)] + tail);
        }
        return out;
    }
    let rest = relock_plan_from(root, target, stop, k - 1);
    let mut out: Vec<Vec<String>> = Vec::new();
    out.push(q);
    let mut j: usize = 0;
    while j < rest.len()
        invariant
            j <= rest@.len(),
            rest@.len() == rest.deep_view().len(),
            out.deep_view() == seq![target.deep_view().take(k as int)] + rest.deep_view().take(
                j as int,
            ),
        decreases rest@.len() - j,
    {
        let ghost prev = out.deep_view();
        out.push(crate::paths::clone_path(&rest[j]));
        j = j + 1;
        proof {
            assert(out.deep_view() =~= prev.push(rest.deep_view()[j - 1]));
            assert(out.deep_view() =~= seq![target.deep_view().take(k as int)]
                + rest.deep_view().take(j as int));
        }
    }
    proof {
        assert(rest.deep_view().take(rest.deep_view().len() as int) =~= rest.deep_view());
    }
    out
}

/// The ancestors of `target`, nearest first, that the relock phase sets
/// read-only, halting before `root_boundary` and after the `stop`
/// ancestor. The host application performs the platform calls in this
/// order when it mirrors the protocol onto a real tree.
pub fn relock_plan(
    root_boundary: &Vec<String>,
    target: &Vec<String>,
    stop: &Vec<String>,
) -> (r: Vec<Vec<String>>)
    ensures
        r.deep_view() == relock_list(
            root_boundary.deep_view(),
            target.deep_view(),
            stop.deep_view(),
            target.deep_view().len() as int,
        ),
{
    relock_plan_from(root_boundary, target, stop, target.len())
}

/// Whether the segments of `a` lie strictly below the segments of `r`.
pub fn is_strictly_below(a: &Vec<String>, r: &Vec<String>) -> (b: bool)
    ensures
        b == strictly_below(a.deep_view(), r.deep_view()),
{
    segs_is_prefix(r, a) && a.len() > r.len()
}

/// The length of the longest prefix of the first `k` segments of `p` at
/// which a directory stands.
fn anc_len_upto(fs: &SandboxFs, p: &Vec<String>, k: usize) -> (r: Option<usize>)
    requires
        fs.wf(),
        k <= p@.len(),
    ensures
        match r {
            Some(a) => a <= k && anc_len(fs.tree(), p.deep_view().take(k as int)) == a as int,
            None => anc_len(fs.tree(), p.deep_view().take(k as int)) == -1,
        },
    decreases k,
{
    let q = prefix_of_len(p, k);
    if fs.is_dir(&q) {
        Some(k)
    } else if k == 0 {
        None
    } else {
        proof {
            assert(p.deep_view().take(k as int).drop_last() =~= p.deep_view().take(k - 1));
        }
        anc_len_upto(fs, p, k - 1)
    }
}

/// Finds the nearest ancestor of `path` (the path itself included) that
/// exists and is a directory; fails with a not-found error when no
/// prefix, the filesystem root included, is a directory.
pub fn find_existing_ancestor(fs: &SandboxFs, path: &str) -> (r: Result<Vec<String>, FsError>)
    requires
        fs.wf(),
    ensures
        match r {
            Ok(v) => {
                &&& anc_len(fs.tree(), norm_segments(path@)) >= 0
                &&& v.deep_view() == norm_segments(path@).take(anc_len(fs.tree(), norm_segments(path@)))
            },
            Err(e) => {
                &&& anc_len(fs.tree(), norm_segments(path@)) == -1
                &&& e.model() == err_model(ErrKind::NotFound, FsOp::Locate, norm_segments(path@))
            },
        },
{
    let p = parse_segments(path);
    proof {
        assert(p.deep_view().take(p.deep_view().len() as int) =~= p.deep_view());
    }
    match anc_len_upto(fs, &p, p.len()) {
        Some(a) => Ok(prefix_of_len(&p, a)),
        None => Err(FsError { kind: ErrKind::NotFound, op: FsOp::Locate, path: p }),
    }
}

/// Clears the read-only bit of the located ancestor so that entries can
/// be created beneath it, touching nothing at or above the root boundary.
pub fn unlock_down_to(fs: &mut SandboxFs, anc: &Vec<String>, root: &Vec<String>) -> (r: Result<
    (),
    FsError,
>)
    requires
        old(fs).wf(),
    ensures
        final(fs).wf(),
        ({
            let step = spec_unlock_down_to(old(fs).tree(), anc.deep_view(), root.deep_view());
            &&& final(fs).tree() == step.0
            &&& (match r {
                Ok(_) => step.1 is None,
                Err(er) => step.1 == Some(er.model()),
            })
        }),
{
    if is_strictly_below(anc, root) {
        fs.clear_readonly(anc)
    } else {
        Ok(())
    }
}

/// Creates a directory at `q` unless one already stands there.
fn ensure_dir(fs: &mut SandboxFs, q: &Vec<String>) -> (r: Result<(), FsError>)
    requires
        old(fs).wf(),
    ensures
        final(fs).wf(),
        ({
            let step = spec_ensure_dir(old(fs).tree(), q.deep_view());
            &&& final(fs).tree() == step.0
            &&& (match r {
                Ok(_) => step.1 is None,
                Err(er) => step.1 == Some(er.model()),
            })
        }),
{
    if fs.is_dir(q) {
        Ok(())
    } else {
        fs.mkdir(q)
    }
}

/// Creates the chain of directories at the prefixes of `p` longer than
/// `k`, nearest the root first.
fn mkdirs_from(fs: &mut SandboxFs, p: &Vec<String>, k: usize) -> (r: Result<(), FsError>)
    requires
        old(fs).wf(),
        k <= p@.len(),
    ensures
        final(fs).wf(),
        ({
            let step = spec_mkdirs(old(fs).tree(), p.deep_view(), k as int);
            &&& final(fs).tree() == step.0
            &&& (match r {
                Ok(_) => step.1 is None,
                Err(er) => step.1 == Some(er.model()),
            })
        }),
    decreases p@.len() - k,
{
    if k == p.len() {
        Ok(())
    } else {
        let q = prefix_of_len(p, k + 1);
        match ensure_dir(fs, &q) {
            Err(e) => Err(e),
            Ok(_) => mkdirs_from(fs, p, k + 1),
        }
    }
}

/// Walks the prefixes of `target` of length at most `k` downward, setting
/// read-only on each, halting before the root boundary and after the
/// `stop` ancestor.
fn relock_from(
    fs: &mut SandboxFs,
    root: &Vec<String>,
    target: &Vec<String>,
    stop: &Vec<String>,
    k: usize,
) -> (r: Result<(), FsError>)
    requires
        old(fs).wf(),
        k <= target@.len(),
    ensures
        final(fs).wf(),
        ({
            let step = spec_relock(
                old(fs).tree(),
                root.deep_view(),
                target.deep_view(),
                stop.deep_view(),
                k as int,
            );
            &&& final(fs).tree() == step.0
            &&& (match r {
                Ok(_) => step.1 is None,
                Err(er) => step.1 == Some(er.model()),
            })
        }),
    decreases k,
{
    let q = prefix_of_len(target, k);
    if segs_eq(&q, root) {
        return Ok(());
    }
    match fs.set_readonly(&q) {
        Err(e) => {
            return Err(e);
        },
        Ok(_) => {},
    }
    if segs_eq(&q, stop) {
        return Ok(());
    }
    if k == 0 {
        proof {
            let halted = spec_relock(
                fs.tree(),
                root.deep_view(),
                target.deep_view(),
                stop.deep_view(),
                -1,
            );
            assert(halted == (fs.tree(), None::<ErrModel>));
        }
        return Ok(());
    }
    relock_from(fs, root, target, stop, k - 1)
}

/// Relocks the ancestor chain of `target`: read-only is set on each
/// ancestor from the target downward to the `stop` ancestor (inclusive),
/// and the walk halts before the root boundary, whose bit is never
/// touched.
pub fn relock_chain(
    fs: &mut SandboxFs,
    root: &Vec<String>,
    target: &Vec<String>,
    stop: &Vec<String>,
) -> (r: Result<(), FsError>)
    requires
        old(fs).wf(),
    ensures
        final(fs).wf(),
        ({
            let step = spec_relock(
                old(fs).tree(),
                root.deep_view(),
                target.deep_view(),
                stop.deep_view(),
                target.deep_view().len() as int,
            );
            &&& final(fs).tree() == step.0
            &&& (match r {
                Ok(_) => step.1 is None,
                Err(er) => step.1 == Some(er.model()),
            })
        }),
{
    relock_from(fs, root, target, stop, target.len())
}

/// The guarded directory creation over parsed segments.
pub fn create_project_dir_segs(
    fs: &mut SandboxFs,
    path: &Vec<String>,
    root: &Vec<String>,
) -> (r: Result<(), FsError>)
    requires
        old(fs).wf(),
    ensures
        final(fs).wf(),
        ({
            let step = spec_create_project_dir(old(fs).tree(), path.deep_view(), root.deep_view());
            &&& final(fs).tree() == step.0
            &&& (match r {
                Ok(_) => step.1 is None,
                Err(er) => step.1 == Some(er.model()),
            })
        }),
{
    proof {
        assert(path.deep_view().take(path.deep_view().len() as int) =~= path.deep_view());
    }
    let al = match anc_len_upto(fs, path, path.len()) {
        None => {
            return Err(
                FsError { kind: ErrKind::NotFound, op: FsOp::Locate, path: clone_path(path) },
            );
        },
        Some(a) => a,
    };
    let anc = prefix_of_len(path, al);
    match unlock_down_to(fs, &anc, root) {
        Err(e) => {
            return Err(e);
        },
        Ok(_) => {},
    }
    match mkdirs_from(fs, path, al) {
        Err(e) => {
            return Err(e);
        },
        Ok(_) => {},
    }
    match relock_from(fs, root, path, &anc, path.len()) {
        Err(e) => {
            return Err(e);
        },
        Ok(_) => {},
    }
    if is_strictly_below(path, root) {
        match fs.clear_readonly(path) {
            Err(e) => {
                return Err(e);
            },
            Ok(_) => {},
        }
    }
    Ok(())
}

/// Creates the directory at `path` together with its missing ancestors,
/// through the guarded unlock-create-relock sequence bounded by
/// `root_boundary`; the created directory itself is left writable.
pub fn create_project_dir(fs: &mut SandboxFs, path: &str, root_boundary: &str) -> (r: Result<
    (),
    FsError,
>)
    requires
        old(fs).wf(),
    ensures
        final(fs).wf(),
        ({
            let step = spec_create_project_dir(
                old(fs).tree(),
                norm_segments(path@),
                norm_segments(root_boundary@),
            );
            &&& final(fs).tree() == step.0
            &&& (match r {
                Ok(_) => step.1 is None,
                Err(er) => step.1 == Some(er.model()),
            })
        }),
{
    let p = parse_segments(path);
    let root = parse_segments(root_boundary);
    create_project_dir_segs(fs, &p, &root)
}

/// Makes sure the parent directory of `path` exists, materializing it
/// through the guarded sequence when missing.
fn ensure_parent_exists(fs: &mut SandboxFs, path: &Vec<String>) -> (r: Result<(), FsError>)
    requires
        old(fs).wf(),
        path@.len() > 0,
    ensures
        final(fs).wf(),
        ({
            let parent = path.deep_view().drop_last();
            let step = if dir_at(old(fs).tree(), parent) {
                (old(fs).tree(), None::<ErrModel>)
            } else {
                spec_create_project_dir(old(fs).tree(), parent, Seq::empty())
            };
            &&& final(fs).tree() == step.0
            &&& (match r {
                Ok(_) => step.1 is None,
                Err(er) => step.1 == Some(er.model()),
            })
        }),
{
    let parent = prefix_of_len(path, path.len() - 1);
    proof {
        assert(parent.deep_view() =~= path.deep_view().drop_last());
    }
    if fs.is_dir(&parent) {
        Ok(())
    } else {
        let empty_root: Vec<String> = Vec::new();
        proof {
            assert(empty_root.deep_view() =~= Seq::<Seq<char>>::empty());
        }
        create_project_dir_segs(fs, &parent, &empty_root)
    }
}

/// The guarded file write over parsed segments.
pub fn write_file_segs(
    fs: &mut SandboxFs,
    path: &Vec<String>,
    content: &Vec<u8>,
    read_only: bool,
) -> (r: Result<(), FsError>)
    requires
        old(fs).wf(),
    ensures
        final(fs).wf(),
        ({
            let step = spec_write_file(old(fs).tree(), path.deep_view(), content@, read_only);
            &&& final(fs).tree() == step.0
            &&& (match r {
                Ok(_) => step.1 is None,
                Err(er) => step.1 == Some(er.model()),
            })
        }),
{
    if path.len() > 0 {
        match ensure_parent_exists(fs, path) {
            Err(e) => {
                return Err(e);
            },
            Ok(_) => {},
        }
    }
    match fs.write_node(path, content) {
        Err(e) => {
            return Err(e);
        },
        Ok(_) => {},
    }
    if read_only {
        match fs.set_readonly(path) {
            Err(e) => {
                return Err(e);
            },
            Ok(_) => {},
        }
    }
    Ok(())
}

/// Writes `content` into the file at `path`, creating the parent
/// directory chain through the guarded sequence when missing; when
/// `read_only` is set the written file is locked, otherwise it stays
/// writable.
pub fn write_file_ancestors(
    fs: &mut SandboxFs,
    file: &str,
    content: &Vec<u8>,
    read_only: bool,
) -> (r: Result<(), FsError>)
    requires
        old(fs).wf(),
    ensures
        final(fs).wf(),
        ({
            let step = spec_write_file(old(fs).tree(), norm_segments(file@), content@, read_only);
            &&& final(fs).tree() == step.0
            &&& (match r {
                Ok(_) => step.1 is None,
                Err(er) => step.1 == Some(er.model()),
            })
        }),
{
    let p = parse_segments(file);
    write_file_segs(fs, &p, content, read_only)
}

/// Marks the entry at `path` read-only.
pub fn make_readonly(fs: &mut SandboxFs, path: &str) -> (r: Result<(), FsError>)
    requires
        old(fs).wf(),
    ensures
        final(fs).wf(),
        ({
            let step = spec_set_bit(old(fs).tree(), norm_segments(path@), true, FsOp::SetBit);
            &&& final(fs).tree() == step.0
            &&& (match r {
                Ok(_) => step.1 is None,
                Err(er) => step.1 == Some(er.model()),
            })
        }),
{
    let p = parse_segments(path);
    fs.set_readonly(&p)
}

} // verus!
