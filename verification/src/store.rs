//! The content store and ref database underneath a workspace: a thin layer
//! over git2, the one part of the crate that is taken on trust.
//!
//! Commit identifiers cross this boundary as their raw twenty bytes, so that
//! the verified builder can hold and compare them as plain values.

use vstd::prelude::*;

verus! {

#[verifier::external_type_specification]
#[verifier::external_body]
pub struct ExRepository(git2::Repository);

#[verifier::external_type_specification]
#[verifier::external_body]
pub struct ExGitError(git2::Error);

/// The content-addressed identifier of the single-entry tree that maps
/// `entry` to a blob holding `data`: a function of the two alone.
pub uninterp spec fn tree_id_of(entry: Seq<char>, data: Seq<u8>) -> Seq<u8>;

/// Relies on git2::Repository::init: initializes an empty repository at
/// `path`, creating the directories leading to it as needed.
#[verifier::external_body]
pub(crate) fn git_init(path: &str) -> (r: Result<git2::Repository, git2::Error>) {
    git2::Repository::init(path)
}

/// Relies on git2::Repository::blob and treebuilder, and on
/// git2::TreeBuilder::insert and write: stores `data` as a blob and writes
/// the tree whose one entry maps `entry` (regular-file mode) to it. Both
/// writes are content-addressed, so the returned identifier — twenty raw
/// bytes — depends on `entry` and `data` alone.
#[verifier::external_body]
pub(crate) fn git_write_tree(repo: &git2::Repository, entry: &str, data: &[u8]) -> (r: Result<
    Vec<u8>,
    git2::Error,
>)
    ensures
        match r {
            Ok(id) => id@ == tree_id_of(entry@, data@) && id@.len() == 20,
            Err(_) => true,
        },
{
    let blob = repo.blob(data)?;
    let mut builder = repo.treebuilder(None)?;
    builder.insert(entry, blob, 0o100644)?;
    Ok(builder.write()?.as_bytes().to_vec())
}

/// Relies on git2::Signature::now, and on git2::Repository::find_tree,
/// find_commit and commit: creates a commit carrying `message`, the tree
/// `tree_id` and the commits `parent_ids` as parents in the given order,
/// authored and committed by the named identity, moving no reference, and
/// returns the new commit's identifier (twenty raw bytes).
#[verifier::external_body]
pub(crate) fn git_create_commit(
    repo: &git2::Repository,
    message: &str,
    tree_id: &Vec<u8>,
    parent_ids: &Vec<Vec<u8>>,
    who_name: &str,
    who_email: &str,
) -> (r: Result<Vec<u8>, git2::Error>)
    ensures
        match r {
            Ok(id) => id@.len() == 20,
            Err(_) => true,
        },
{
    let who = git2::Signature::now(who_name, who_email)?;
    let tree = repo.find_tree(git2::Oid::from_bytes(tree_id)?)?;
    let mut parents = Vec::new();
    for p in parent_ids.iter() {
        parents.push(repo.find_commit(git2::Oid::from_bytes(p)?)?);
    }
    let parent_refs: Vec<&git2::Commit<'_>> = parents.iter().collect();
    let id = repo.commit(None, &who, &who, message, &tree, &parent_refs)?;
    Ok(id.as_bytes().to_vec())
}

/// Relies on git2::Repository::find_commit and branch (with force): points
/// the branch `name` at the commit `id`, creating the branch or moving it
/// over any prior target unconditionally.
#[verifier::external_body]
pub(crate) fn git_force_branch(repo: &git2::Repository, name: &str, id: &Vec<u8>) -> (r: Result<
    (),
    git2::Error,
>) {
    let commit = repo.find_commit(git2::Oid::from_bytes(id)?)?;
    repo.branch(name, &commit, true)?;
    Ok(())
}

} // verus!
