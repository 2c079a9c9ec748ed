//! The mathematical model of the sandboxed filesystem.
//!
//! A filesystem state is a map from segment paths to nodes; a node is a
//! directory or a file, each carrying its read-only bit. Every primitive
//! mutation of the executable model is specified here as a function from
//! tree to tree together with the error it reports, so that the guarded
//! operations can be stated and proved over plain maps.
use vstd::prelude::*;

use crate::paths::PathSeq;

verus! {

/// The semantic kind of a failure, as the caller should react to it.
#[derive(Debug, Clone, Copy, PartialEq, Eq, Structural)]
pub enum ErrKind {
    /// No existing ancestor could be located, or a referenced path does
    /// not exist when required to.
    NotFound,
    /// The filesystem denied a metadata read or write.
    Permission,
    /// A generic read, write or create failure.
    Io,
    /// A path could not be represented as valid text.
    PathEncoding,
}

/// The primitive operation in whose context a failure was reported.
#[derive(Debug, Clone, Copy, PartialEq, Eq, Structural)]
pub enum FsOp {
    /// Locating the nearest existing ancestor.
    Locate,
    /// Reading the read-only bit.
    ReadBit,
    /// Setting the read-only bit.
    SetBit,
    /// Clearing the read-only bit.
    ClearBit,
    /// Creating one directory.
    MakeDir,
    /// Creating or truncating a file and writing its contents.
    WriteData,
    /// Reading a file's contents.
    ReadData,
}

/// A reported failure: its kind, the primitive operation that failed,
/// and the path it failed on.
#[derive(Debug, PartialEq, Eq)]
pub struct FsError {
    pub kind: ErrKind,
    pub op: FsOp,
    pub path: Vec<String>,
}

/// The mathematical reading of a failure, with the path as a sequence.
pub struct ErrModel {
    pub kind: ErrKind,
    pub op: FsOp,
    pub path: PathSeq,
}

impl FsError {
    /// The mathematical reading of this failure.
    pub open spec fn model(self) -> ErrModel {
        ErrModel { kind: self.kind, op: self.op, path: self.path.deep_view() }
    }
}

/// One filesystem entry in the model: a directory or a file, each with
/// its read-only bit.
pub enum Node {
    Dir { read_only: bool },
    File { read_only: bool, content: Seq<u8> },
}

/// A filesystem state: which paths exist and what stands at each.
pub type FsTree = Map<PathSeq, Node>;

/// The read-only bit of a node.
pub open spec fn node_ro(n: Node) -> bool {
    match n {
        Node::Dir { read_only } => read_only,
        Node::File { read_only, .. } => read_only,
    }
}

/// The same node with its read-only bit replaced.
pub open spec fn with_ro(n: Node, b: bool) -> Node {
    match n {
        Node::Dir { .. } => Node::Dir { read_only: b },
        Node::File { content, .. } => Node::File { read_only: b, content },
    }
}

/// Whether a directory stands at `p`.
pub open spec fn dir_at(t: FsTree, p: PathSeq) -> bool {
    t.contains_key(p) && t[p] is Dir
}

/// A failure of the given kind, operation and path.
pub open spec fn err_model(kind: ErrKind, op: FsOp, p: PathSeq) -> ErrModel {
    ErrModel { kind, op, path: p }
}

/// Setting or clearing the read-only bit of the entry at `p`. Fails with
/// a permission error when no entry stands there; the kind and content of
/// an existing entry are kept.
pub open spec fn spec_set_bit(t: FsTree, p: PathSeq, b: bool, op: FsOp) -> (FsTree, Option<
    ErrModel,
>) {
    if t.contains_key(p) {
        (t.insert(p, with_ro(t[p], b)), None)
    } else {
        (t, Some(err_model(ErrKind::Permission, op, p)))
    }
}

/// Creating one directory at `p`, writable, as the platform's create
/// call does: the path must not exist yet, and its parent (when `p` is
/// not the filesystem root) must be a writable directory.
pub open spec fn spec_mkdir(t: FsTree, p: PathSeq) -> (FsTree, Option<ErrModel>) {
    if t.contains_key(p) {
        (t, Some(err_model(ErrKind::Io, FsOp::MakeDir, p)))
    } else if p.len() == 0 {
        (t.insert(p, Node::Dir { read_only: false }), None)
    } else if !t.contains_key(p.drop_last()) {
        (t, Some(err_model(ErrKind::NotFound, FsOp::MakeDir, p)))
    } else if !(t[p.drop_last()] is Dir) {
        (t, Some(err_model(ErrKind::Io, FsOp::MakeDir, p)))
    } else if node_ro(t[p.drop_last()]) {
        (t, Some(err_model(ErrKind::Permission, FsOp::MakeDir, p)))
    } else {
        (t.insert(p, Node::Dir { read_only: false }), None)
    }
}

/// Creating or truncating the file at `p` and writing `c` into it. An
/// existing writable file is overwritten and stays writable; a read-only
/// file, a directory in the way, a missing or read-only parent each fail
/// without changing the tree.
pub open spec fn spec_write_node(t: FsTree, p: PathSeq, c: Seq<u8>) -> (FsTree, Option<
    ErrModel,
>) {
    if t.contains_key(p) {
        match t[p] {
            Node::Dir { .. } => (t, Some(err_model(ErrKind::Io, FsOp::WriteData, p))),
            Node::File { read_only, .. } => {
                if read_only {
                    (t, Some(err_model(ErrKind::Permission, FsOp::WriteData, p)))
                } else {
                    (t.insert(p, Node::File { read_only: false, content: c }), None)
                }
            },
        }
    } else if p.len() == 0 {
        (t, Some(err_model(ErrKind::Io, FsOp::WriteData, p)))
    } else if !t.contains_key(p.drop_last()) {
        (t, Some(err_model(ErrKind::NotFound, FsOp::WriteData, p)))
    } else if !(t[p.drop_last()] is Dir) {
        (t, Some(err_model(ErrKind::Io, FsOp::WriteData, p)))
    } else if node_ro(t[p.drop_last()]) {
        (t, Some(err_model(ErrKind::Permission, FsOp::WriteData, p)))
    } else {
        (t.insert(p, Node::File { read_only: false, content: c }), None)
    }
}

/// Reading the contents of the file at `p`. The read-only bit does not
/// hinder reading.
pub open spec fn spec_read_node(t: FsTree, p: PathSeq) -> Result<Seq<u8>, ErrModel> {
    if !t.contains_key(p) {
        Err(err_model(ErrKind::NotFound, FsOp::ReadData, p))
    } else {
        match t[p] {
            Node::Dir { .. } => Err(err_model(ErrKind::Io, FsOp::ReadData, p)),
            Node::File { content, .. } => Ok(content),
        }
    }
}

} // verus!
