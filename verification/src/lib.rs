//! Locate the repository root above a starting directory, and emit the
//! shell snippets that let a shell jump there with a short alias.
//!
//! The search logic works over a plain model of the filesystem: the chain
//! of ancestor directories of the start, together with a flag per ancestor
//! saying whether it holds a `.git` marker directory. The caller supplies
//! that data; everything decided from it is verified here.

use vstd::prelude::*;

pub mod finder;
pub mod shell;

verus! {

/// The marker directory whose presence identifies a repository root.
pub open spec fn marker_name() -> Seq<char> {
    ".git"@
}

} // verus!
