//! Deterministic builder of version-controlled fixture repositories.
//!
//! A script — an ordered list of commit operations, each naming a target
//! branch, a message, and extra merge parents — is executed against one
//! repository: every operation creates a commit whose parents are resolved
//! from the current branch tips, then repoints the target branch.


mod model;
mod laws;
mod recipe;
mod script;
mod store;

pub use script::names_of;
pub use script::CommitOp;
pub use script::BuildError;
pub use store::tree_id_of;
pub use laws::lemma_build_deterministic;
pub use laws::lemma_linear_history;
pub use laws::lemma_merge_arity;
pub use laws::lemma_rebuild_idempotent;
pub use laws::lemma_root_commit;
pub use recipe::branch_map;
pub use recipe::parents_below;
pub use recipe::unique_names;
pub use recipe::BranchEntry;
pub use recipe::CommitRecord;
pub use recipe::RepoRecipe;
pub use recipe::Workspace;

pub use model::apply_spec;
pub use model::build_spec;
pub use model::empty_model;
pub use model::first_missing;
pub use model::parents_of;
pub use model::CommitModel;
pub use model::GraphModel;
pub use model::OpModel;
