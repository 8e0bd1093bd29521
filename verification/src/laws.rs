//! The laws of the builder, stated and proved over the model: what holds
//! of every script, not of one example.

use crate::model::apply_spec;
use crate::model::build_spec;
use crate::model::lemma_first_missing_none;
use crate::model::parents_of;
use crate::model::GraphModel;
use crate::model::OpModel;
use vstd::prelude::*;

verus! {

/// Determinism: the commit graph a script builds is a function of the
/// script alone. Two successful builds of one script — in however many
/// distinct workspaces — have the same model: the same commits in the same
/// order, each with the same message and the same parents by position, and
/// the same branch tips.
pub proof fn lemma_build_deterministic(ops: Seq<OpModel>, first: GraphModel, second: GraphModel)
    requires
        build_spec(ops) == Ok::<GraphModel, Seq<char>>(first),
        build_spec(ops) == Ok::<GraphModel, Seq<char>>(second),
    ensures
        first == second,
{
}

/// Rebuilding is idempotent: a build always starts from the empty model, so
/// running a recipe's script again over the same workspace name yields the
/// same final branch-to-commit structure as the first run, whatever state
/// the first run left behind.
pub proof fn lemma_rebuild_idempotent(
    ops: Seq<OpModel>,
    first_run: GraphModel,
    second_run: GraphModel,
)
    requires
        build_spec(ops) == Ok::<GraphModel, Seq<char>>(first_run),
        build_spec(ops) == Ok::<GraphModel, Seq<char>>(second_run),
    ensures
        first_run.branches == second_run.branches,
        first_run.commits == second_run.commits,
{
}

/// Root commits: an operation on a brand-new branch with no merge parents
/// always succeeds, and the commit it creates has zero parents.
pub proof fn lemma_root_commit(m: GraphModel, op: OpModel)
    requires
        !m.branches.contains_key(op.branch),
        op.merges.len() == 0,
    ensures
        apply_spec(m, op) is Ok,
        apply_spec(m, op)->Ok_0.commits.len() == m.commits.len() + 1,
        apply_spec(m, op)->Ok_0.commits.last().parents =~= Seq::<int>::empty(),
        apply_spec(m, op)->Ok_0.commits.last().message == op.message,
{
    assert(parents_of(m, op) =~= Seq::<int>::empty());
}

/// Linear history: two operations on the same branch, neither with merge
/// parents, chain — the second succeeds and its commit's sole parent is
/// the commit the first created.
pub proof fn lemma_linear_history(m: GraphModel, op1: OpModel, op2: OpModel)
    requires
        op1.branch == op2.branch,
        op1.merges.len() == 0,
        op2.merges.len() == 0,
    ensures
        apply_spec(m, op1) is Ok,
        apply_spec(apply_spec(m, op1)->Ok_0, op2) is Ok,
        apply_spec(apply_spec(m, op1)->Ok_0, op2)->Ok_0.commits.last().parents =~= seq![
            m.commits.len() as int,
        ],
{
    let m1 = apply_spec(m, op1)->Ok_0;
    assert(m1.branches[op2.branch] == m.commits.len() as int);
    assert(parents_of(m1, op2) =~= seq![m.commits.len() as int]);
}

/// Merge arity: when the target branch and all `k` merge parents exist,
/// the operation succeeds and its commit has exactly `k + 1` parents — the
/// target's own prior tip first, then the merge parents' tips in the
/// listed order, duplicates kept.
pub proof fn lemma_merge_arity(m: GraphModel, op: OpModel)
    requires
        m.branches.contains_key(op.branch),
        forall|j: int|
            0 <= j < op.merges.len() ==> m.branches.contains_key(#[trigger] op.merges[j]),
    ensures
        apply_spec(m, op) is Ok,
        apply_spec(m, op)->Ok_0.commits.last().parents.len() == op.merges.len() + 1,
        apply_spec(m, op)->Ok_0.commits.last().parents[0] == m.branches[op.branch],
        forall|j: int|
            0 <= j < op.merges.len() ==> apply_spec(m, op)->Ok_0.commits.last().parents[j + 1]
                == m.branches[#[trigger] op.merges[j]],
{
    lemma_first_missing_none(m.branches, op.merges);
    assert(apply_spec(m, op)->Ok_0.commits.last().parents == parents_of(m, op));
}

} // verus!
