//! Guarded materialization of files and directories inside a sandboxed
//! project tree.
//!
//! Ancestor directories of a project tree are normally kept read-only so
//! that previously submitted work cannot be modified by later tooling.
//! This crate provides the guarded mutation protocol: locate the deepest
//! already-existing ancestor of a target path, temporarily relax write
//! protection along the chain from that ancestor down to the target,
//! perform the mutation, and restore protection on every touched ancestor,
//! never altering the configured root boundary or anything above it.
//!
//! The filesystem state (which entries exist, their read-only bits, file
//! contents) is held in an explicit [`fs_model::SandboxFs`] value, so that
//! every operation is verified against a mathematical tree model. The
//! surrounding application mirrors each primitive step onto the real
//! filesystem, driven by the plan functions exported here.
use vstd::prelude::*;

pub mod digest;
pub mod either;
pub mod keys;
pub mod fs_model;
pub mod fs_spec;
pub mod guarded;
pub mod laws;
pub mod paths;
pub mod system_info;
pub mod tee_writer;
pub mod token;

verus! {

/// Greets a user by name.
pub fn greet(name: &str) -> (r: String)
    ensures
        r@ == "Hello, "@ + name@ + "! You've been greeted from Rust!"@,
{
    let mut s = String::from_str("Hello, ");
    s.append(name);
    s.append("! You've been greeted from Rust!");
    s
}

} // verus!
