//! Scripts — the input surface of the builder — and the errors a build can
//! end with.

use crate::model::OpModel;
use vstd::prelude::*;

verus! {

/// A list of branch names as the model sees it.
pub open spec fn names_of(names: Seq<String>) -> Seq<Seq<char>> {
    names.map_values(|n: String| n@)
}

/// One commit operation of a script: the branch the commit goes to, its
/// message, and the branches whose current tips join it as extra merge
/// parents, in order.
pub struct CommitOp {
    pub branch: String,
    pub message: String,
    pub merges: Vec<String>,
}

impl View for CommitOp {
    type V = OpModel;

    open spec fn view(&self) -> OpModel {
        OpModel { branch: self.branch@, message: self.message@, merges: names_of(self.merges@) }
    }
}

impl CommitOp {
    /// An operation from its parts.
    pub fn new(branch: &str, message: &str, merges: Vec<String>) -> (r: Self)
        ensures
            r@.branch == branch@,
            r@.message == message@,
            r@.merges == names_of(merges@),
    {
        CommitOp { branch: branch.to_owned(), message: message.to_owned(), merges }
    }
}

/// What ends a build: a failure of the underlying store, or a script that
/// names a merge parent that does not exist. Neither is recovered from; the
/// first one aborts the build.
#[derive(Debug)]
pub enum BuildError {
    /// The object store or ref database failed.
    Git(git2::Error),
    /// An operation named this branch as a merge parent, but no branch of
    /// this name existed at that point of the script.
    MissingMergeParent(String),
}

} // verus!
