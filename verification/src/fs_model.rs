//! The executable filesystem model.
//!
//! [`SandboxFs`] holds the state of the sandboxed tree as a list of
//! entries, one per existing path. Its public view is the map described
//! in [`crate::fs_spec`], and every primitive operation is proved equal
//! to its specification transform. The host application mirrors each
//! primitive onto the real filesystem; tests and proofs run on the model.
use vstd::prelude::*;

use crate::fs_spec::{
    dir_at, err_model, node_ro, spec_mkdir, spec_read_node, spec_set_bit, spec_write_node,
    with_ro, ErrKind, FsError, FsOp, FsTree, Node,
};
use crate::paths::{clone_path, prefix_of_len, PathSeq};

verus! {

/// What stands at one path: a directory or a file with its contents.
enum EntryKind {
    Dir { read_only: bool },
    File { read_only: bool, content: Vec<u8> },
}

impl EntryKind {
    /// The mathematical reading of this entry.
    spec fn model(self) -> Node {
        match self {
            EntryKind::Dir { read_only } => Node::Dir { read_only },
            EntryKind::File { read_only, content } => Node::File {
                read_only,
                content: content@,
            },
        }
    }
}

/// One existing path and what stands at it.
struct Entry {
    path: Vec<String>,
    kind: EntryKind,
}

/// What the model finds at `p`: entries are searched from the most
/// recently added one.
spec fn find_node(es: Seq<Entry>, p: PathSeq) -> Option<Node>
    decreases es.len(),
{
    if es.len() == 0 {
        None
    } else if es.last().path.deep_view() == p {
        Some(es.last().kind.model())
    } else {
        find_node(es.drop_last(), p)
    }
}

/// No two entries name the same path.
spec fn wf_entries(es: Seq<Entry>) -> bool {
    forall|i: int, j: int|
        0 <= i < j < es.len() ==> es[i].path.deep_view() != es[j].path.deep_view()
}

proof fn lemma_find_node_push(es: Seq<Entry>, e: Entry, p: PathSeq)
    ensures
        find_node(es.push(e), p) == (if e.path.deep_view() == p {
            Some(e.kind.model())
        } else {
            find_node(es, p)
        }),
{
    assert(es.push(e).drop_last() =~= es);
    assert(es.push(e).last() == e);
}

proof fn lemma_find_node_at(es: Seq<Entry>, i: int, p: PathSeq)
    requires
        wf_entries(es),
        0 <= i < es.len(),
        es[i].path.deep_view() == p,
    ensures
        find_node(es, p) == Some(es[i].kind.model()),
    decreases es.len(),
{
    if i == es.len() - 1 {
    } else {
        assert(es.last().path.deep_view() != p);
        assert(wf_entries(es.drop_last()));
        lemma_find_node_at(es.drop_last(), i, p);
    }
}

proof fn lemma_find_node_none(es: Seq<Entry>, p: PathSeq)
    requires
        forall|i: int| 0 <= i < es.len() ==> es[i].path.deep_view() != p,
    ensures
        find_node(es, p) is None,
    decreases es.len(),
{
    if es.len() > 0 {
        lemma_find_node_none(es.drop_last(), p);
    }
}

proof fn lemma_find_node_update(es: Seq<Entry>, i: int, e2: Entry, q: PathSeq)
    requires
        wf_entries(es),
        0 <= i < es.len(),
        e2.path.deep_view() == es[i].path.deep_view(),
    ensures
        find_node(es.update(i, e2), q) == (if q == es[i].path.deep_view() {
            Some(e2.kind.model())
        } else {
            find_node(es, q)
        }),
    decreases es.len(),
{
    let es2 = es.update(i, e2);
    if i == es.len() - 1 {
        assert(es2.drop_last() =~= es.drop_last());
        assert(es2.last() == e2);
        if q != es[i].path.deep_view() {
            assert(es.last().path.deep_view() != q);
        }
    } else {
        assert(es2.drop_last() =~= es.drop_last().update(i, e2));
        assert(es2.last() == es.last());
        assert(wf_entries(es.drop_last()));
        assert(es.drop_last()[i] == es[i]);
        lemma_find_node_update(es.drop_last(), i, e2, q);
        if q == es[i].path.deep_view() {
            assert(es.last().path.deep_view() != q);
        }
    }
}

/// The state of the sandboxed filesystem tree.
pub struct SandboxFs {
    entries: Vec<Entry>,
}

impl SandboxFs {
    /// No two held entries name the same path.
    pub closed spec fn wf(self) -> bool {
        wf_entries(self.entries@)
    }

    /// The map from existing paths to their nodes.
    pub closed spec fn tree(self) -> FsTree {
        Map::new(
            |p: PathSeq| find_node(self.entries@, p) is Some,
            |p: PathSeq|
                match find_node(self.entries@, p) {
                    Some(n) => n,
                    None => Node::Dir { read_only: false },
                },
        )
    }

    /// An empty filesystem: nothing exists, not even the root directory.
    pub fn new() -> (r: Self)
        ensures
            r.wf(),
            r.tree() == FsTree::empty(),
    {
        let r = SandboxFs { entries: Vec::new() };
        proof {
            assert(r.tree() =~= FsTree::empty());
        }
        r
    }

    /// The index of the entry at `p`, if one exists.
    fn find_index(&self, p: &Vec<String>) -> (r: Option<usize>)
        requires
            self.wf(),
        ensures
            match r {
                Some(i) => {
                    &&& i < self.entries@.len()
                    &&& self.entries@[i as int].path.deep_view() == p.deep_view()
                    &&& self.tree().contains_key(p.deep_view())
                    &&& self.tree()[p.deep_view()] == self.entries@[i as int].kind.model()
                },
                None => !self.tree().contains_key(p.deep_view()),
            },
    {
        let mut i: usize = 0;
        while i < self.entries.len()
            invariant
                self.wf(),
                i <= self.entries@.len(),
                forall|k: int| 0 <= k < i ==> self.entries@[k].path.deep_view() != p.deep_view(),
            decreases self.entries@.len() - i,
        {
            if crate::paths::segs_eq(&self.entries[i].path, p) {
                proof {
                    lemma_find_node_at(self.entries@, i as int, p.deep_view());
                }
                return Some(i);
            }
            i = i + 1;
        }
        proof {
            lemma_find_node_none(self.entries@, p.deep_view());
        }
        None
    }

    /// Whether any entry stands at `p`.
    pub fn contains_path(&self, p: &Vec<String>) -> (b: bool)
        requires
            self.wf(),
        ensures
            b == self.tree().contains_key(p.deep_view()),
    {
        self.find_index(p).is_some()
    }

    /// Whether a directory stands at `p`.
    pub fn is_dir(&self, p: &Vec<String>) -> (b: bool)
        requires
            self.wf(),
        ensures
            b == dir_at(self.tree(), p.deep_view()),
    {
        match self.find_index(p) {
            None => false,
            Some(i) => match &self.entries[i].kind {
                EntryKind::Dir { .. } => true,
                EntryKind::File { .. } => false,
            },
        }
    }

    /// Reads the read-only bit of the entry at `p`; fails with a
    /// permission error when nothing stands there.
    pub fn is_readonly(&self, p: &Vec<String>) -> (r: Result<bool, FsError>)
        requires
            self.wf(),
        ensures
            match r {
                Ok(b) => self.tree().contains_key(p.deep_view()) && b == node_ro(
                    self.tree()[p.deep_view()],
                ),
                Err(e) => !self.tree().contains_key(p.deep_view()) && e.model() == err_model(
                    ErrKind::Permission,
                    FsOp::ReadBit,
                    p.deep_view(),
                ),
            },
    {
        match self.find_index(p) {
            None => Err(
                FsError { kind: ErrKind::Permission, op: FsOp::ReadBit, path: clone_path(p) },
            ),
            Some(i) => match &self.entries[i].kind {
                EntryKind::Dir { read_only } => Ok(*read_only),
                EntryKind::File { read_only, .. } => Ok(*read_only),
            },
        }
    }

    /// Sets the read-only bit of the entry at `p` to `b`, on behalf of
    /// the named operation.
    fn set_bit(&mut self, p: &Vec<String>, b: bool, op: FsOp) -> (r: Result<(), FsError>)
        requires
            old(self).wf(),
        ensures
            final(self).wf(),
            ({
                let (t2, e) = spec_set_bit(old(self).tree(), p.deep_view(), b, op);
                &&& final(self).tree() == t2
                &&& (match r {
                    Ok(_) => e is None,
                    Err(er) => e == Some(er.model()),
                })
            }),
    {
        match self.find_index(p) {
            None => Err(FsError { kind: ErrKind::Permission, op, path: clone_path(p) }),
            Some(i) => {
                let new_kind = match &self.entries[i].kind {
                    EntryKind::Dir { .. } => EntryKind::Dir { read_only: b },
                    EntryKind::File { content, .. } => EntryKind::File {
                        read_only: b,
                        content: clone_bytes(content),
                    },
                };
                let new_path = clone_path(&self.entries[i].path);
                let e2 = Entry { path: new_path, kind: new_kind };
                proof {
                    assert(e2.kind.model() == with_ro(
                        old(self).tree()[p.deep_view()],
                        b,
                    ));
                }
                self.entries.set(i, e2);
                proof {
                    assert forall|q: PathSeq| true implies find_node(self.entries@, q) == (
                    if q == p.deep_view() {
                        Some(with_ro(old(self).tree()[p.deep_view()], b))
                    } else {
                        find_node(old(self).entries@, q)
                    }) by {
                        lemma_find_node_update(old(self).entries@, i as int, e2, q);
                    }
                    assert(wf_entries(self.entries@));
                    assert(self.tree() =~= old(self).tree().insert(
                        p.deep_view(),
                        with_ro(old(self).tree()[p.deep_view()], b),
                    ));
                }
                Ok(())
            },
        }
    }

    /// Marks the entry at `p` read-only.
    pub fn set_readonly(&mut self, p: &Vec<String>) -> (r: Result<(), FsError>)
        requires
            old(self).wf(),
        ensures
            final(self).wf(),
            ({
                let (t2, e) = spec_set_bit(old(self).tree(), p.deep_view(), true, FsOp::SetBit);
                &&& final(self).tree() == t2
                &&& (match r {
                    Ok(_) => e is None,
                    Err(er) => e == Some(er.model()),
                })
            }),
    {
        self.set_bit(p, true, FsOp::SetBit)
    }

    /// Marks the entry at `p` writable.
    pub fn clear_readonly(&mut self, p: &Vec<String>) -> (r: Result<(), FsError>)
        requires
            old(self).wf(),
        ensures
            final(self).wf(),
            ({
                let (t2, e) = spec_set_bit(old(self).tree(), p.deep_view(), false, FsOp::ClearBit);
                &&& final(self).tree() == t2
                &&& (match r {
                    Ok(_) => e is None,
                    Err(er) => e == Some(er.model()),
                })
            }),
    {
        self.set_bit(p, false, FsOp::ClearBit)
    }

    /// Creates one writable directory at `p`.
    pub fn mkdir(&mut self, p: &Vec<String>) -> (r: Result<(), FsError>)
        requires
            old(self).wf(),
        ensures
            final(self).wf(),
            ({
                let (t2, e) = spec_mkdir(old(self).tree(), p.deep_view());
                &&& final(self).tree() == t2
                &&& (match r {
                    Ok(_) => e is None,
                    Err(er) => e == Some(er.model()),
                })
            }),
    {
        if self.find_index(p).is_some() {
            return Err(FsError { kind: ErrKind::Io, op: FsOp::MakeDir, path: clone_path(p) });
        }
        if p.len() > 0 {
            let parent = prefix_of_len(p, p.len() - 1);
            proof {
                assert(parent.deep_view() =~= p.deep_view().drop_last());
            }
            match self.find_index(&parent) {
                None => {
                    return Err(
                        FsError { kind: ErrKind::NotFound, op: FsOp::MakeDir, path: clone_path(p) },
                    );
                },
                Some(i) => match &self.entries[i].kind {
                    EntryKind::File { .. } => {
                        return Err(
                            FsError { kind: ErrKind::Io, op: FsOp::MakeDir, path: clone_path(p) },
                        );
                    },
                    EntryKind::Dir { read_only } => {
                        if *read_only {
                            return Err(
                                FsError {
                                    kind: ErrKind::Permission,
                                    op: FsOp::MakeDir,
                                    path: clone_path(p),
                                },
                            );
                        }
                    },
                },
            }
        }
        let e2 = Entry { path: clone_path(p), kind: EntryKind::Dir { read_only: false } };
        proof {
            assert forall|q: PathSeq| true implies find_node(
                old(self).entries@.push(e2),
                q,
            ) == (if q == p.deep_view() {
                Some(Node::Dir { read_only: false })
            } else {
                find_node(old(self).entries@, q)
            }) by {
                lemma_find_node_push(old(self).entries@, e2, q);
            }
            assert forall|k: int|
                0 <= k < old(self).entries@.len() implies old(
                self,
            ).entries@[k].path.deep_view() != p.deep_view() by {
                lemma_find_node_at(old(self).entries@, k, old(self).entries@[k].path.deep_view());
            }
        }
        self.entries.push(e2);
        proof {
            assert(wf_entries(self.entries@));
            assert(self.tree() =~= old(self).tree().insert(
                p.deep_view(),
                Node::Dir { read_only: false },
            ));
        }
        Ok(())
    }

    /// Creates or truncates the file at `p` and writes `content` into it;
    /// the file is left writable.
    pub fn write_node(&mut self, p: &Vec<String>, content: &Vec<u8>) -> (r: Result<(), FsError>)
        requires
            old(self).wf(),
        ensures
            final(self).wf(),
            ({
                let (t2, e) = spec_write_node(old(self).tree(), p.deep_view(), content@);
                &&& final(self).tree() == t2
                &&& (match r {
                    Ok(_) => e is None,
                    Err(er) => e == Some(er.model()),
                })
            }),
    {
        match self.find_index(p) {
            Some(i) => {
                let read_only = match &self.entries[i].kind {
                    EntryKind::Dir { .. } => {
                        return Err(
                            FsError { kind: ErrKind::Io, op: FsOp::WriteData, path: clone_path(p) },
                        );
                    },
                    EntryKind::File { read_only, .. } => *read_only,
                };
                if read_only {
                    return Err(
                        FsError {
                            kind: ErrKind::Permission,
                            op: FsOp::WriteData,
                            path: clone_path(p),
                        },
                    );
                }
                let new_path = clone_path(&self.entries[i].path);
                let e2 = Entry {
                    path: new_path,
                    kind: EntryKind::File { read_only: false, content: clone_bytes(content) },
                };
                proof {
                    assert forall|q: PathSeq| true implies find_node(
                        old(self).entries@.update(i as int, e2),
                        q,
                    ) == (if q == p.deep_view() {
                        Some(Node::File { read_only: false, content: content@ })
                    } else {
                        find_node(old(self).entries@, q)
                    }) by {
                        lemma_find_node_update(old(self).entries@, i as int, e2, q);
                    }
                }
                self.entries.set(i, e2);
                proof {
                    assert(wf_entries(self.entries@));
                    assert(self.tree() =~= old(self).tree().insert(
                        p.deep_view(),
                        Node::File { read_only: false, content: content@ },
                    ));
                }
                Ok(())
            },
            None => {
                if p.len() == 0 {
                    return Err(
                        FsError { kind: ErrKind::Io, op: FsOp::WriteData, path: clone_path(p) },
                    );
                }
                let parent = prefix_of_len(p, p.len() - 1);
                proof {
                    assert(parent.deep_view() =~= p.deep_view().drop_last());
                }
                match self.find_index(&parent) {
                    None => {
                        return Err(
                            FsError {
                                kind: ErrKind::NotFound,
                                op: FsOp::WriteData,
                                path: clone_path(p),
                            },
                        );
                    },
                    Some(i) => match &self.entries[i].kind {
                        EntryKind::File { .. } => {
                            return Err(
                                FsError {
                                    kind: ErrKind::Io,
                                    op: FsOp::WriteData,
                                    path: clone_path(p),
                                },
                            );
                        },
                        EntryKind::Dir { read_only } => {
                            if *read_only {
                                return Err(
                                    FsError {
                                        kind: ErrKind::Permission,
                                        op: FsOp::WriteData,
                                        path: clone_path(p),
                                    },
                                );
                            }
                        },
                    },
                }
                let e2 = Entry {
                    path: clone_path(p),
                    kind: EntryKind::File { read_only: false, content: clone_bytes(content) },
                };
                proof {
                    assert forall|q: PathSeq| true implies find_node(
                        old(self).entries@.push(e2),
                        q,
                    ) == (if q == p.deep_view() {
                        Some(Node::File { read_only: false, content: content@ })
                    } else {
                        find_node(old(self).entries@, q)
                    }) by {
                        lemma_find_node_push(old(self).entries@, e2, q);
                    }
                    assert forall|k: int|
                        0 <= k < old(self).entries@.len() implies old(
                        self,
                    ).entries@[k].path.deep_view() != p.deep_view() by {
                        lemma_find_node_at(
                            old(self).entries@,
                            k,
                            old(self).entries@[k].path.deep_view(),
                        );
                    }
                }
                self.entries.push(e2);
                proof {
                    assert(wf_entries(self.entries@));
                    assert(self.tree() =~= old(self).tree().insert(
                        p.deep_view(),
                        Node::File { read_only: false, content: content@ },
                    ));
                }
                Ok(())
            },
        }
    }

    /// Reads the contents of the file at `p`.
    pub fn read_node(&self, p: &Vec<String>) -> (r: Result<Vec<u8>, FsError>)
        requires
            self.wf(),
        ensures
            match (r, spec_read_node(self.tree(), p.deep_view())) {
                (Ok(v), Ok(c)) => v@ == c,
                (Err(e), Err(em)) => e.model() == em,
                _ => false,
            },
    {
        match self.find_index(p) {
            None => Err(FsError { kind: ErrKind::NotFound, op: FsOp::ReadData, path: clone_path(p) }),
            Some(i) => match &self.entries[i].kind {
                EntryKind::Dir { .. } => Err(
                    FsError { kind: ErrKind::Io, op: FsOp::ReadData, path: clone_path(p) },
                ),
                EntryKind::File { content, .. } => Ok(clone_bytes(content)),
            },
        }
    }
}

/// A copy of a byte vector.
fn clone_bytes(v: &Vec<u8>) -> (r: Vec<u8>)
    ensures
        r@ == v@,
{
    let mut out: Vec<u8> = Vec::new();
    let mut i: usize = 0;
    while i < v.len()
        invariant
            i <= v@.len(),
            out@ == v@.take(i as int),
        decreases v@.len() - i,
    {
        out.push(v[i]);
        proof {
            assert(out@ =~= v@.take(i + 1));
        }
        i = i + 1;
    }
    proof {
        assert(v@.take(v@.len() as int) =~= v@);
    }
    out
}

} // verus!
