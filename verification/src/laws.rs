//! The guarantees of the guarded protocol, stated and proved over the
//! tree model.
//!
//! Each public proof function here is one law of the library: what the
//! guarded directory creation promises about protection state, its
//! idempotence, the inviolability of the root boundary, and what a
//! guarded file write leaves on disk.
use vstd::prelude::*;

use crate::fs_spec::{
    dir_at, node_ro, spec_mkdir, spec_read_node, spec_set_bit, spec_write_node, with_ro, ErrModel,
    FsTree, Node,
};
use crate::guarded::{
    anc_len, spec_create_project_dir, spec_ensure_dir, spec_mkdirs, spec_relock,
    spec_unlock_down_to, spec_write_file, strictly_below,
};
use crate::paths::PathSeq;

verus! {

/// The located ancestor length is a position within the path, and when
/// one is found a directory stands at that prefix; every longer prefix
/// holds no directory.
pub proof fn lemma_anc_len_bounds(t: FsTree, p: PathSeq)
    ensures
        -1 <= anc_len(t, p) <= p.len(),
        anc_len(t, p) >= 0 ==> dir_at(t, p.take(anc_len(t, p))),
        forall|k: int| anc_len(t, p) < k <= p.len() ==> !dir_at(t, p.take(k)),
    decreases p.len(),
{
    if dir_at(t, p) {
        assert(p.take(p.len() as int) =~= p);
    } else if p.len() == 0 {
        assert(p.take(0) =~= p);
    } else {
        lemma_anc_len_bounds(t, p.drop_last());
        let al = anc_len(t, p);
        assert(p.drop_last() =~= p.take(p.len() - 1));
        if al >= 0 {
            assert(p.take(p.len() - 1).take(al) =~= p.take(al));
            assert(dir_at(t, p.take(al)));
        }
        assert forall|k: int| al < k <= p.len() implies !dir_at(t, p.take(k)) by {
            if k == p.len() {
                assert(p.take(k) =~= p);
            } else {
                assert(p.take(p.len() - 1).take(k) =~= p.take(k));
            }
        }
    }
}

/// Chain creation only adds writable directories at prefixes of the
/// target longer than the starting point; every binding that existed
/// before is kept word for word, and on success a directory stands at
/// every such prefix.
pub proof fn lemma_mkdirs_props(t: FsTree, p: PathSeq, k: int)
    requires
        0 <= k <= p.len(),
    ensures
        ({
            let r = spec_mkdirs(t, p, k);
            &&& forall|q: PathSeq| #[trigger]
                t.contains_key(q) ==> r.0.contains_key(q) && r.0[q] == t[q]
            &&& forall|q: PathSeq| #[trigger]
                r.0.contains_key(q) && !t.contains_key(q) ==> ((r.0[q] == (Node::Dir {
                    read_only: false,
                })) && (exists|j: int| k < j <= p.len() && q == #[trigger] p.take(j)))
            &&& (r.1 is None ==> forall|j: int|
                k < j <= p.len() ==> dir_at(r.0, #[trigger] p.take(j)))
        }),
    decreases p.len() - k,
{
    if k >= p.len() {
    } else {
        let step = spec_ensure_dir(t, p.take(k + 1));
        if step.1 is Some {
        } else {
            lemma_mkdirs_props(step.0, p, k + 1);
            let r = spec_mkdirs(t, p, k);
            assert(dir_at(step.0, p.take(k + 1)));
            assert forall|q: PathSeq| #[trigger] t.contains_key(q) implies r.0.contains_key(q)
                && r.0[q] == t[q] by {
                assert(step.0.contains_key(q) && step.0[q] == t[q]);
            }
            assert forall|q: PathSeq| #[trigger]
                r.0.contains_key(q) && !t.contains_key(q) implies ((r.0[q] == (Node::Dir {
                read_only: false,
            })) && (exists|j: int| k < j <= p.len() && q == #[trigger] p.take(j))) by {
                if step.0.contains_key(q) {
                    assert(q == p.take(k + 1));
                    assert(step.0[q] == (Node::Dir { read_only: false }));
                    assert(r.0[q] == step.0[q]);
                    assert(k < k + 1 <= p.len() && q == p.take(k + 1));
                } else {
                    let j = choose|j: int|
                        k + 1 < j <= p.len() && q == #[trigger] p.take(j);
                    assert(k < j <= p.len() && q == p.take(j));
                }
            }
            if r.1 is None {
                assert forall|j: int| k < j <= p.len() implies dir_at(
                    r.0,
                    #[trigger] p.take(j),
                ) by {
                    if j == k + 1 {
                        assert(step.0.contains_key(p.take(j)));
                        assert(r.0[p.take(j)] == step.0[p.take(j)]);
                    }
                }
            }
        }
    }
}

/// Relocking never adds or removes entries; the only bindings it changes
/// are walked prefixes of the target other than the root boundary, and
/// each such change only sets the read-only bit.
pub proof fn lemma_relock_frame(t: FsTree, root: PathSeq, target: PathSeq, stop: PathSeq, k: int)
    ensures
        ({
            let r = spec_relock(t, root, target, stop, k);
            &&& forall|q: PathSeq| #[trigger] r.0.contains_key(q) == t.contains_key(q)
            &&& forall|q: PathSeq|
                t.contains_key(q) && #[trigger] r.0[q] != t[q] ==> ((r.0[q] == with_ro(t[q], true))
                    && q != root && (exists|j: int| 0 <= j <= k && q == #[trigger] target.take(j)))
        }),
    decreases k + 1,
{
    if k < 0 {
    } else {
        let q0 = target.take(k);
        if q0 == root {
        } else {
            let step = spec_set_bit(t, q0, true, crate::fs_spec::FsOp::SetBit);
            if step.1 is Some {
            } else if q0 == stop {
            } else {
                lemma_relock_frame(step.0, root, target, stop, k - 1);
                let r = spec_relock(t, root, target, stop, k);
                assert forall|q: PathSeq|
                    t.contains_key(q) && #[trigger] r.0[q] != t[q] implies ((r.0[q] == with_ro(
                    t[q],
                    true,
                )) && q != root && (exists|j: int| 0 <= j <= k && q == #[trigger] target.take(
                    j,
                ))) by {
                    if q == q0 {
                        if r.0[q] != step.0[q] {
                            assert(r.0[q] == with_ro(step.0[q], true));
                        }
                    } else {
                        assert(step.0[q] == t[q]);
                    }
                }
            }
        }
    }
}

/// THE BOUNDARY LAW: the guarded directory creation never changes what
/// stands at the root boundary. Whatever the prior state of the tree and
/// whatever the outcome of the call, an entry at the boundary keeps
/// exactly its prior node, read-only bit included.
pub proof fn lemma_create_project_dir_keeps_boundary(t: FsTree, path: PathSeq, root: PathSeq)
    requires
        t.contains_key(root),
    ensures
        spec_create_project_dir(t, path, root).0.contains_key(root),
        spec_create_project_dir(t, path, root).0[root] == t[root],
{
    let al = anc_len(t, path);
    if al < 0 {
    } else {
        lemma_anc_len_bounds(t, path);
        let anc = path.take(al);
        let unlocked = spec_unlock_down_to(t, anc, root);
        assert(unlocked.0.contains_key(root) && unlocked.0[root] == t[root]) by {
            if strictly_below(anc, root) {
                assert(anc.len() > root.len());
            }
        }
        if unlocked.1 is Some {
        } else {
            lemma_mkdirs_props(unlocked.0, path, al);
            let made = spec_mkdirs(unlocked.0, path, al);
            assert(made.0.contains_key(root) && made.0[root] == t[root]);
            if made.1 is Some {
            } else {
                lemma_relock_frame(made.0, root, path, anc, path.len() as int);
                let relocked = spec_relock(made.0, root, path, anc, path.len() as int);
                assert(relocked.0.contains_key(root) && relocked.0[root] == t[root]);
                if relocked.1 is Some {
                } else if strictly_below(path, root) {
                    assert(path.len() > root.len());
                }
            }
        }
    }
}

/// THE EMPTY-TREE LAW: on a tree where nothing exists, no path has an
/// existing ancestor, so locating one reports the not-found case.
pub proof fn lemma_locate_empty_tree(p: PathSeq)
    ensures
        anc_len(FsTree::empty(), p) == -1,
    decreases p.len(),
{
    if p.len() > 0 {
        lemma_locate_empty_tree(p.drop_last());
    }
}

/// THE LOCKED-WRITE LAW: after a guarded write that asked for a
/// read-only file, reading the path yields exactly the written bytes,
/// and a subsequent plain write to the path fails with a permission
/// error, leaving the tree unchanged.
pub proof fn lemma_write_file_read_only(t: FsTree, path: PathSeq, c: Seq<u8>, c2: Seq<u8>)
    requires
        spec_write_file(t, path, c, true).1 is None,
    ensures
        ({
            let t1 = spec_write_file(t, path, c, true).0;
            &&& t1.contains_key(path) && t1[path] == (Node::File { read_only: true, content: c })
            &&& spec_read_node(t1, path) == Ok::<Seq<u8>, ErrModel>(c)
            &&& spec_write_node(t1, path, c2).0 == t1
            &&& spec_write_node(t1, path, c2).1 == Some(
                crate::fs_spec::err_model(
                    crate::fs_spec::ErrKind::Permission,
                    crate::fs_spec::FsOp::WriteData,
                    path,
                ),
            )
        }),
{
}

/// THE WRITABLE-WRITE LAW: after a guarded write that left the file
/// writable, reading the path yields exactly the written bytes, and a
/// subsequent plain write to the path succeeds.
pub proof fn lemma_write_file_writable(t: FsTree, path: PathSeq, c: Seq<u8>, c2: Seq<u8>)
    requires
        spec_write_file(t, path, c, false).1 is None,
    ensures
        ({
            let t1 = spec_write_file(t, path, c, false).0;
            &&& t1.contains_key(path) && t1[path] == (Node::File { read_only: false, content: c })
            &&& spec_read_node(t1, path) == Ok::<Seq<u8>, ErrModel>(c)
            &&& spec_write_node(t1, path, c2).1 is None
            &&& spec_write_node(t1, path, c2).0 == t1.insert(
                path,
                Node::File { read_only: false, content: c2 },
            )
        }),
{
}

/// THE MATERIALIZATION LAW: when the root boundary is a proper ancestor
/// of the target, every ancestor from the boundary down to the target's
/// parent pre-exists as a read-only directory, the target is not a file,
/// and the target is not a missing direct child of the boundary, the
/// guarded creation succeeds, every ancestor strictly between the
/// nearest pre-existing ancestor and the boundary keeps exactly its
/// prior state, and the target itself is left a writable directory.
pub proof fn lemma_create_project_dir_succeeds(t: FsTree, path: PathSeq, root: PathSeq)
    requires
        strictly_below(path, root),
        forall|k: int|
            root.len() <= k < path.len() ==> dir_at(t, #[trigger] path.take(k)) && node_ro(
                t[path.take(k)],
            ),
        !t.contains_key(path) || dir_at(t, path),
        path.len() > root.len() + 1 || dir_at(t, path),
    ensures
        spec_create_project_dir(t, path, root).1 is None,
        dir_at(spec_create_project_dir(t, path, root).0, path),
        !node_ro(spec_create_project_dir(t, path, root).0[path]),
        forall|k: int|
            root.len() < k < anc_len(t, path) ==> spec_create_project_dir(
                t,
                path,
                root,
            ).0.contains_key(#[trigger] path.take(k)) == t.contains_key(path.take(k))
                && spec_create_project_dir(t, path, root).0[path.take(k)] == t[path.take(k)],
{
    let n = path.len() as int;
    let r = root.len() as int;
    assert(path.take(n) =~= path);
    if dir_at(t, path) {
        let al = anc_len(t, path);
        assert(al == n);
        let anc = path.take(al);
        assert(anc == path);
        let t1 = t.insert(path, with_ro(t[path], false));
        assert(spec_unlock_down_to(t, anc, root) == (t1, None::<ErrModel>));
        assert(spec_mkdirs(t1, path, al) == (t1, None::<ErrModel>));
        assert(path != root);
        let t2 = t1.insert(path, with_ro(t1[path], true));
        assert(spec_relock(t1, root, path, anc, n) == (t2, None::<ErrModel>));
        let t3 = t2.insert(path, with_ro(t2[path], false));
        assert(spec_create_project_dir(t, path, root) == (t3, None::<ErrModel>));
        assert(dir_at(t3, path) && !node_ro(t3[path]));
        assert forall|k: int| r < k < anc_len(t, path) implies t3.contains_key(
            #[trigger] path.take(k),
        ) == t.contains_key(path.take(k)) && t3[path.take(k)] == t[path.take(k)] by {
            assert(path.take(k).len() == k < n);
            assert(path.take(k) != path);
        }
    } else {
        assert(!t.contains_key(path));
        assert(n > r + 1);
        assert(path.drop_last() =~= path.take(n - 1));
        assert(dir_at(t, path.take(n - 1)));
        assert(anc_len(t, path.take(n - 1)) == n - 1);
        let al = anc_len(t, path);
        assert(al == n - 1);
        let anc = path.take(n - 1);
        assert(anc.len() == n - 1);
        assert(strictly_below(anc, root)) by {
            assert(root =~= path.subrange(0, r));
            assert(anc.subrange(0, r) =~= path.subrange(0, r));
        }
        let t1 = t.insert(anc, with_ro(t[anc], false));
        assert(spec_unlock_down_to(t, anc, root) == (t1, None::<ErrModel>));
        assert(t1[anc] == (Node::Dir { read_only: false }));
        // chain creation: one missing level, the target itself
        let t2 = t1.insert(path, Node::Dir { read_only: false });
        assert(spec_mkdirs(t1, path, al) == (t2, None::<ErrModel>)) by {
            assert(path.take(al + 1) =~= path);
            assert(!dir_at(t1, path));
            assert(path.drop_last() =~= anc);
            assert(spec_mkdir(t1, path) == (t2, None::<ErrModel>));
            assert(spec_mkdirs(t2, path, n) == (t2, None::<ErrModel>));
        }
        // relock: the target, then the ancestor, where the walk stops
        assert(path != root);
        assert(anc != root);
        assert(path != anc);
        let t3 = t2.insert(path, with_ro(t2[path], true));
        let t4 = t3.insert(anc, with_ro(t3[anc], true));
        assert(spec_relock(t2, root, path, anc, n) == (t4, None::<ErrModel>)) by {
            assert(spec_relock(t3, root, path, anc, n - 1) == (t4, None::<ErrModel>));
        }
        let t5 = t4.insert(path, with_ro(t4[path], false));
        assert(spec_create_project_dir(t, path, root) == (t5, None::<ErrModel>));
        assert(dir_at(t5, path) && !node_ro(t5[path]));
        assert forall|k: int| r < k < anc_len(t, path) implies t5.contains_key(
            #[trigger] path.take(k),
        ) == t.contains_key(path.take(k)) && t5[path.take(k)] == t[path.take(k)] by {
            assert(path.take(k).len() == k < n - 1);
            assert(path.take(k) != path);
            assert(path.take(k) != anc);
        }
    }
}

/// What a successful guarded creation leaves at the target: a directory,
/// writable when the target lies strictly below the boundary, relocked
/// read-only when it does not (unless the target is the boundary itself,
/// which is never touched).
proof fn lemma_create_success_state(t: FsTree, path: PathSeq, root: PathSeq)
    requires
        spec_create_project_dir(t, path, root).1 is None,
    ensures
        ({
            let t1 = spec_create_project_dir(t, path, root).0;
            &&& dir_at(t1, path)
            &&& (strictly_below(path, root) ==> !node_ro(t1[path]))
            &&& (!strictly_below(path, root) && path != root ==> node_ro(t1[path]))
        }),
{
    let n = path.len() as int;
    let al = anc_len(t, path);
    assert(al >= 0);
    lemma_anc_len_bounds(t, path);
    let anc = path.take(al);
    assert(path.take(n) =~= path);
    let unlocked = spec_unlock_down_to(t, anc, root);
    let t1 = unlocked.0;
    assert(unlocked.1 is None);
    let made = spec_mkdirs(t1, path, al);
    assert(made.1 is None);
    lemma_mkdirs_props(t1, path, al);
    let t2 = made.0;
    assert(dir_at(t2, path)) by {
        if al == n {
            assert(dir_at(t, anc));
            if strictly_below(anc, root) {
                assert(t1 == t.insert(anc, with_ro(t[anc], false)));
            }
            assert(dir_at(t1, path));
        } else {
            assert(dir_at(t2, path.take(n)));
        }
    }
    let relocked = spec_relock(t2, root, path, anc, n);
    assert(relocked.1 is None);
    let t3 = relocked.0;
    lemma_relock_frame(t2, root, path, anc, n);
    assert(dir_at(t3, path)) by {
        if t3[path] != t2[path] {
            assert(t3[path] == with_ro(t2[path], true));
        }
    }
    if strictly_below(path, root) {
        assert(path != root);
        let t4 = t3.insert(path, with_ro(t3[path], false));
        assert(spec_create_project_dir(t, path, root) == (t4, None::<ErrModel>));
        assert(dir_at(t4, path) && !node_ro(t4[path]));
    } else if path != root {
        // the relock walk starts at the target itself and locks it
        assert(spec_create_project_dir(t, path, root).0 == t3);
        assert(node_ro(t3[path])) by {
            let s1 = spec_set_bit(t2, path, true, crate::fs_spec::FsOp::SetBit);
            assert(s1.1 is None);
            assert(s1.0[path] == with_ro(t2[path], true));
            assert(node_ro(s1.0[path]));
            if path != anc {
                lemma_relock_frame(s1.0, root, path, anc, n - 1);
                assert(spec_relock(s1.0, root, path, anc, n - 1).1 is None);
                if t3[path] != s1.0[path] {
                    assert(t3[path] == with_ro(s1.0[path], true));
                }
            }
        }
    }
}

/// THE IDEMPOTENCE LAW: a second guarded creation with the same target
/// and the same boundary, run on the state the first successful call
/// left, succeeds and changes nothing: the final protection state is the
/// state the first call produced.
pub proof fn lemma_create_project_dir_idempotent(t: FsTree, path: PathSeq, root: PathSeq)
    requires
        spec_create_project_dir(t, path, root).1 is None,
    ensures
        spec_create_project_dir(spec_create_project_dir(t, path, root).0, path, root).1 is None,
        spec_create_project_dir(spec_create_project_dir(t, path, root).0, path, root).0
            == spec_create_project_dir(t, path, root).0,
{
    let n = path.len() as int;
    let t1 = spec_create_project_dir(t, path, root).0;
    lemma_create_success_state(t, path, root);
    assert(dir_at(t1, path));
    let al2 = anc_len(t1, path);
    assert(al2 == n);
    let anc2 = path.take(n);
    assert(anc2 =~= path);
    assert(anc2 == path);
    if path == root {
        assert(!strictly_below(path, root));
        assert(spec_unlock_down_to(t1, anc2, root) == (t1, None::<ErrModel>));
        assert(spec_mkdirs(t1, path, n) == (t1, None::<ErrModel>));
        assert(spec_relock(t1, root, path, anc2, n) == (t1, None::<ErrModel>));
        assert(spec_create_project_dir(t1, path, root) == (t1, None::<ErrModel>));
    } else if strictly_below(path, root) {
        assert(!node_ro(t1[path]));
        assert(t1[path] == (Node::Dir { read_only: false }));
        let u1 = t1.insert(path, with_ro(t1[path], false));
        assert(u1 =~= t1);
        assert(spec_unlock_down_to(t1, anc2, root) == (u1, None::<ErrModel>));
        assert(spec_mkdirs(u1, path, n) == (u1, None::<ErrModel>));
        let u2 = u1.insert(path, with_ro(u1[path], true));
        assert(spec_relock(u1, root, path, anc2, n) == (u2, None::<ErrModel>));
        let u3 = u2.insert(path, with_ro(u2[path], false));
        assert(spec_create_project_dir(t1, path, root) == (u3, None::<ErrModel>));
        assert(u3 =~= t1);
    } else {
        assert(node_ro(t1[path]));
        assert(t1[path] == (Node::Dir { read_only: true }));
        assert(spec_unlock_down_to(t1, anc2, root) == (t1, None::<ErrModel>));
        assert(spec_mkdirs(t1, path, n) == (t1, None::<ErrModel>));
        let u2 = t1.insert(path, with_ro(t1[path], true));
        assert(spec_relock(t1, root, path, anc2, n) == (u2, None::<ErrModel>));
        assert(spec_create_project_dir(t1, path, root) == (u2, None::<ErrModel>));
        assert(u2 =~= t1);
    }
}

} // verus!
