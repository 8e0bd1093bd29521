//! End-to-end scenarios: recipes built through the library, checked both
//! through the library's own queries and against the repository on disk.

use repo_fixtures::BuildError;
use repo_fixtures::CommitOp;
use repo_fixtures::RepoRecipe;
use repo_fixtures::Workspace;

fn op(branch: &str, message: &str, merges: &[&str]) -> CommitOp {
    let names: Vec<String> = merges.iter().map(|m| m.to_string()).collect();
    CommitOp::new(branch, message, names)
}

fn git_commit<'r>(repo: &'r git2::Repository, id: &[u8]) -> git2::Commit<'r> {
    repo.find_commit(git2::Oid::from_bytes(id).unwrap()).unwrap()
}

#[test]
fn recipe_accessors() {
    let recipe = RepoRecipe::new("abc", vec![]);
    assert_eq!(recipe.name(), "abc");
    assert_eq!(recipe.path(), "repos/abc");
    let rooted = RepoRecipe::new_under("/tmp/fixtures", "abc", vec![]);
    assert_eq!(rooted.name(), "abc");
    assert_eq!(rooted.path(), "/tmp/fixtures/abc");
    let o = op("a", "m", &["x", "y"]);
    assert_eq!(o.branch, "a");
    assert_eq!(o.message, "m");
    assert_eq!(o.merges, vec!["x".to_string(), "y".to_string()]);
}

#[test]
fn empty_script_builds_empty_graph() {
    let recipe = RepoRecipe::new_under("/tmp/fixtures", "t_empty", vec![]);
    let ws = recipe.create().unwrap();
    assert_eq!(ws.commit_count(), 0);
    assert!(ws.branch_tip("a").is_none());
}

#[test]
fn root_commit_has_no_parents() {
    let mut ws = Workspace::init("/tmp/fixture_root").unwrap();
    let id = ws.commit("main", "root", &vec![]).unwrap();
    assert_eq!(id.len(), 20);
    assert_eq!(ws.commit_count(), 1);
    assert_eq!(ws.branch_tip("main"), Some(0));
    assert!(ws.parents_at(0).is_empty());
    assert_eq!(ws.message_at(0), "root");
}

#[test]
fn linear_two_commits() {
    let recipe = RepoRecipe::new_under("/tmp/fixtures", "t_linear", vec![op("a", "m1", &[]), op("a", "m2", &[])]);
    let ws = recipe.create().unwrap();
    assert_eq!(ws.commit_count(), 2);
    assert_eq!(ws.branch_tip("a"), Some(1));
    assert_eq!(ws.parents_at(0), &Vec::<usize>::new());
    assert_eq!(ws.parents_at(1), &vec![0usize]);
    assert_eq!(ws.message_at(0), "m1");
    assert_eq!(ws.message_at(1), "m2");
    assert_ne!(ws.id_at(0), ws.id_at(1));

    // The repository on disk shows the same shape.
    let repo = git2::Repository::open("/tmp/fixtures/t_linear").unwrap();
    let tip = repo
        .find_branch("a", git2::BranchType::Local)
        .unwrap()
        .get()
        .target()
        .unwrap();
    assert_eq!(tip.as_bytes(), ws.id_at(1).as_slice());
    let second = git_commit(&repo, ws.id_at(1));
    assert_eq!(second.message().unwrap(), "m2");
    assert_eq!(second.parent_count(), 1);
    assert_eq!(second.parent_id(0).unwrap().as_bytes(), ws.id_at(0).as_slice());
    let first = git_commit(&repo, ws.id_at(0));
    assert_eq!(first.message().unwrap(), "m1");
    assert_eq!(first.parent_count(), 0);
}

#[test]
fn merge_of_two_roots() {
    let recipe = RepoRecipe::new_under(
        "/tmp/fixtures",
        "t_merge",
        vec![op("x", "root", &[]), op("y", "root2", &[]), op("z", "merge", &["x", "y"])],
    );
    let ws = recipe.create().unwrap();
    assert_eq!(ws.commit_count(), 3);
    assert_eq!(ws.branch_tip("z"), Some(2));
    assert_eq!(ws.parents_at(2), &vec![0usize, 1usize]);

    let repo = git2::Repository::open("/tmp/fixtures/t_merge").unwrap();
    let tip = repo
        .find_branch("z", git2::BranchType::Local)
        .unwrap()
        .get()
        .target()
        .unwrap();
    assert_eq!(tip.as_bytes(), ws.id_at(2).as_slice());
    let merge = git_commit(&repo, ws.id_at(2));
    assert_eq!(merge.parent_count(), 2);
    assert_eq!(merge.parent_id(0).unwrap().as_bytes(), ws.id_at(0).as_slice());
    assert_eq!(merge.parent_id(1).unwrap().as_bytes(), ws.id_at(1).as_slice());
}

#[test]
fn merge_arity_with_existing_target() {
    let recipe = RepoRecipe::new_under(
        "/tmp/fixtures",
        "t_arity",
        vec![
            op("a", "m0", &[]),
            op("b", "m1", &[]),
            op("c", "m2", &[]),
            op("a", "m3", &["b", "c"]),
        ],
    );
    let ws = recipe.create().unwrap();
    assert_eq!(ws.commit_count(), 4);
    assert_eq!(ws.branch_tip("a"), Some(3));
    // Prior tip of `a` first, then the merge parents in listed order.
    assert_eq!(ws.parents_at(3), &vec![0usize, 1usize, 2usize]);

    let repo = git2::Repository::open("/tmp/fixtures/t_arity").unwrap();
    let top = git_commit(&repo, ws.id_at(3));
    assert_eq!(top.parent_count(), 3);
    assert_eq!(top.parent_id(0).unwrap().as_bytes(), ws.id_at(0).as_slice());
    assert_eq!(top.parent_id(1).unwrap().as_bytes(), ws.id_at(1).as_slice());
    assert_eq!(top.parent_id(2).unwrap().as_bytes(), ws.id_at(2).as_slice());
}

#[test]
fn missing_merge_parent_fails() {
    let recipe = RepoRecipe::new_under("/tmp/fixtures", "t_ghost", vec![op("a", "m", &["ghost"])]);
    match recipe.create() {
        Err(BuildError::MissingMergeParent(name)) => assert_eq!(name, "ghost"),
        _ => panic!("a missing merge parent must be a graph error"),
    }
    // The failed operation created no branch on disk either.
    let repo = git2::Repository::open("/tmp/fixtures/t_ghost").unwrap();
    assert!(repo.find_branch("a", git2::BranchType::Local).is_err());
}

#[test]
fn missing_merge_parent_leaves_graph_unchanged() {
    let mut ws = Workspace::init("/tmp/fixture_ghost").unwrap();
    ws.commit("base", "b0", &vec![]).unwrap();
    let r = ws.commit("a", "m", &vec!["base".to_string(), "ghost".to_string()]);
    assert!(matches!(r, Err(BuildError::MissingMergeParent(_))));
    assert_eq!(ws.commit_count(), 1);
    assert!(ws.branch_tip("a").is_none());
    assert_eq!(ws.branch_tip("base"), Some(0));
}

#[test]
fn storage_error_leaves_graph_unchanged() {
    let mut ws = Workspace::init("/tmp/fixture_badref").unwrap();
    // An empty branch name is not a valid reference, so the store refuses it.
    let r = ws.commit("", "m", &vec![]);
    assert!(matches!(r, Err(BuildError::Git(_))));
    assert_eq!(ws.commit_count(), 0);
    assert!(ws.branch_tip("").is_none());
}

#[test]
fn same_script_in_two_workspaces_is_isomorphic() {
    let script = |name: &str| {
        RepoRecipe::new_under(
            "/tmp/fixtures",
            name,
            vec![
                op("bottom", "bottom", &[]),
                op("a", "a1", &["bottom"]),
                op("a", "a2", &[]),
                op("b", "b1", &["bottom"]),
                op("top", "top", &["a", "b"]),
            ],
        )
    };
    let first = script("t_det1").create().unwrap();
    let second = script("t_det2").create().unwrap();
    assert_eq!(first.commit_count(), second.commit_count());
    for i in 0..first.commit_count() {
        assert_eq!(first.message_at(i), second.message_at(i));
        assert_eq!(first.parents_at(i), second.parents_at(i));
    }
    for branch in ["bottom", "a", "b", "top"] {
        assert_eq!(first.branch_tip(branch), second.branch_tip(branch));
    }
}

#[test]
fn rebuild_is_idempotent() {
    let recipe = RepoRecipe::new_under(
        "/tmp/fixtures",
        "t_rebuild",
        vec![op("a", "m1", &[]), op("b", "m2", &["a"]), op("a", "m3", &[])],
    );
    let first = recipe.create().unwrap();
    let second = recipe.create().unwrap();
    assert_eq!(first.commit_count(), second.commit_count());
    for i in 0..first.commit_count() {
        assert_eq!(first.message_at(i), second.message_at(i));
        assert_eq!(first.parents_at(i), second.parents_at(i));
    }
    assert_eq!(first.branch_tip("a"), second.branch_tip("a"));
    assert_eq!(first.branch_tip("b"), second.branch_tip("b"));
}

#[test]
fn long_diamond_topology() {
    let recipe = RepoRecipe::new_under(
        "/tmp/fixtures",
        "t_diamond",
        vec![
            op("bottom", "bottom", &[]),
            op("a", "a1", &["bottom"]),
            op("a", "a2", &[]),
            op("a", "a3", &[]),
            op("b", "b1", &["bottom"]),
            op("b", "b2", &[]),
            op("b", "b3", &[]),
            op("top", "top", &["a", "b"]),
        ],
    );
    let ws = recipe.create().unwrap();
    assert_eq!(ws.commit_count(), 8);
    assert_eq!(ws.parents_at(0), &Vec::<usize>::new());
    assert_eq!(ws.parents_at(1), &vec![0usize]);
    assert_eq!(ws.parents_at(2), &vec![1usize]);
    assert_eq!(ws.parents_at(3), &vec![2usize]);
    assert_eq!(ws.parents_at(4), &vec![0usize]);
    assert_eq!(ws.parents_at(5), &vec![4usize]);
    assert_eq!(ws.parents_at(6), &vec![5usize]);
    assert_eq!(ws.parents_at(7), &vec![3usize, 6usize]);
    assert_eq!(ws.branch_tip("top"), Some(7));
    assert_eq!(ws.branch_tip("a"), Some(3));
    assert_eq!(ws.branch_tip("b"), Some(6));
    assert_eq!(ws.branch_tip("bottom"), Some(0));
}
