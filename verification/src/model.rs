//! The mathematical model of the commit graph and of one build.
//!
//! A commit is a message together with the indices of its parents in the
//! order they were resolved; the graph model is the sequence of commits
//! created so far (index = creation order) and a map from branch name to
//! the index of its tip.

use vstd::prelude::*;

verus! {

/// One commit of the model: its message and its parents, as indices into
/// the sequence of commits, in resolution order.
pub struct CommitModel {
    pub message: Seq<char>,
    pub parents: Seq<int>,
}

/// One operation of a script: the branch the commit goes to, the commit
/// message, and the names of the extra merge parents, in order.
pub struct OpModel {
    pub branch: Seq<char>,
    pub message: Seq<char>,
    pub merges: Seq<Seq<char>>,
}

/// The state of one repository build: all commits created so far, and the
/// current tip (a commit index) of every branch that exists.
pub struct GraphModel {
    pub commits: Seq<CommitModel>,
    pub branches: Map<Seq<char>, int>,
}

/// The state before any operation ran: no commits, no branches.
pub open spec fn empty_model() -> GraphModel {
    GraphModel { commits: Seq::empty(), branches: Map::empty() }
}

/// The first name of `merges` that is not a branch of `branches`, if any —
/// the merge parent on which an operation fails.
pub open spec fn first_missing(branches: Map<Seq<char>, int>, merges: Seq<Seq<char>>) -> Option<
    Seq<char>,
>
    decreases merges.len(),
{
    if merges.len() == 0 {
        None
    } else if !branches.contains_key(merges[0]) {
        Some(merges[0])
    } else {
        first_missing(branches, merges.subrange(1, merges.len() as int))
    }
}

/// The parent list an operation resolves: the target branch's current tip
/// first, if that branch exists, then the tip of each merge parent in the
/// listed order. Duplicates are kept.
pub open spec fn parents_of(m: GraphModel, op: OpModel) -> Seq<int> {
    let implicit = if m.branches.contains_key(op.branch) {
        seq![m.branches[op.branch]]
    } else {
        Seq::empty()
    };
    implicit + op.merges.map_values(|n: Seq<char>| m.branches[n])
}

/// One operation applied to the model: if some merge parent does not exist
/// the build fails with that name and the model is unchanged; otherwise a
/// commit with the resolved parents is appended and the target branch is
/// repointed (or created) at it.
pub open spec fn apply_spec(m: GraphModel, op: OpModel) -> Result<GraphModel, Seq<char>> {
    match first_missing(m.branches, op.merges) {
        Some(name) => Err(name),
        None => Ok(
            GraphModel {
                commits: m.commits.push(
                    CommitModel { message: op.message, parents: parents_of(m, op) },
                ),
                branches: m.branches.insert(op.branch, m.commits.len() as int),
            },
        ),
    }
}

/// A whole script applied in order, starting from the empty model; the
/// first failing operation aborts the build with its missing name.
pub open spec fn build_spec(ops: Seq<OpModel>) -> Result<GraphModel, Seq<char>>
    decreases ops.len(),
{
    if ops.len() == 0 {
        Ok(empty_model())
    } else {
        match build_spec(ops.drop_last()) {
            Ok(m) => apply_spec(m, ops.last()),
            Err(name) => Err(name),
        }
    }
}

/// `first_missing` finds nothing exactly when every merge name is a branch.
pub proof fn lemma_first_missing_none(branches: Map<Seq<char>, int>, merges: Seq<Seq<char>>)
    ensures
        first_missing(branches, merges) is None <==> (forall|j: int|
            0 <= j < merges.len() ==> branches.contains_key(#[trigger] merges[j])),
    decreases merges.len(),
{
    if merges.len() > 0 && branches.contains_key(merges[0]) {
        let rest = merges.subrange(1, merges.len() as int);
        lemma_first_missing_none(branches, rest);
        assert forall|j: int|
            0 <= j < merges.len() && (forall|k: int|
                0 <= k < rest.len() ==> branches.contains_key(#[trigger] rest[k]))
            implies branches.contains_key(#[trigger] merges[j]) by {
            if j > 0 {
                assert(rest[j - 1] == merges[j]);
            }
        }
        assert forall|k: int|
            0 <= k < rest.len() && (forall|j: int|
                0 <= j < merges.len() ==> branches.contains_key(#[trigger] merges[j]))
            implies branches.contains_key(#[trigger] rest[k]) by {
            assert(merges[k + 1] == rest[k]);
        }
    }
}

/// When the names before position `j` are branches and the one at `j` is
/// not, `j`'s name is the first missing one.
pub proof fn lemma_first_missing_at(
    branches: Map<Seq<char>, int>,
    merges: Seq<Seq<char>>,
    j: int,
)
    requires
        0 <= j < merges.len(),
        forall|k: int| 0 <= k < j ==> branches.contains_key(#[trigger] merges[k]),
        !branches.contains_key(merges[j]),
    ensures
        first_missing(branches, merges) == Some(merges[j]),
    decreases j,
{
    if j > 0 {
        let rest = merges.subrange(1, merges.len() as int);
        assert forall|k: int| 0 <= k < j - 1 implies branches.contains_key(
            #[trigger] rest[k],
        ) by {
            assert(rest[k] == merges[k + 1]);
        }
        assert(rest[j - 1] == merges[j]);
        lemma_first_missing_at(branches, rest, j - 1);
    }
}

/// A build that has failed on a prefix of the script stays failed, with the
/// same missing name, however the script goes on.
pub proof fn lemma_build_err_persists(ops: Seq<OpModel>, i: int)
    requires
        0 <= i <= ops.len(),
        build_spec(ops.take(i)) is Err,
    ensures
        build_spec(ops) == build_spec(ops.take(i)),
    decreases ops.len() - i,
{
    if i < ops.len() {
        assert(ops.take(i + 1).drop_last() =~= ops.take(i));
        lemma_build_err_persists(ops, i + 1);
    } else {
        assert(ops.take(i) =~= ops);
    }
}

/// Unfolding one step of `build_spec` at the end of a prefix.
pub proof fn lemma_build_step(ops: Seq<OpModel>, i: int)
    requires
        0 <= i < ops.len(),
    ensures
        build_spec(ops.take(i + 1)) == (match build_spec(ops.take(i)) {
            Ok(m) => apply_spec(m, ops[i]),
            Err(name) => Err(name),
        }),
{
    assert(ops.take(i + 1).drop_last() =~= ops.take(i));
    assert(ops.take(i + 1).last() == ops[i]);
}

} // verus!
