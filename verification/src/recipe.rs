//! The commit graph builder: a workspace that executes commit operations
//! against one repository, and the named recipes that drive it.
//!
//! The builder keeps its own record of the graph — a log of the commits it
//! created and a map from branch name to tip — and mirrors every step into
//! the underlying store. Its contracts are stated over the model of
//! `crate::model`: each successful operation is exactly one `apply_spec`
//! step, and a whole successful build is exactly `build_spec` of the script.

use crate::model::apply_spec;
use crate::model::build_spec;
use crate::model::empty_model;
use crate::model::lemma_build_err_persists;
use crate::model::lemma_build_step;
use crate::model::lemma_first_missing_at;
use crate::model::lemma_first_missing_none;
use crate::model::parents_of;
use crate::model::CommitModel;
use crate::model::GraphModel;
use crate::model::OpModel;
use crate::script::names_of;
use crate::script::BuildError;
use crate::script::CommitOp;
use crate::store::git_create_commit;
use crate::store::git_force_branch;
use crate::store::git_init;
use crate::store::git_write_tree;
use vstd::prelude::*;
use vstd::string::StringExecFns;

verus! {

/// One branch the builder knows: its name and its tip, the index of a
/// commit in the builder's log.
pub struct BranchEntry {
    pub name: String,
    pub tip: usize,
}

/// One commit the builder created: the identifier the store gave it, its
/// message, and its parents as indices into the log.
pub struct CommitRecord {
    pub id: Vec<u8>,
    pub message: String,
    pub parents: Vec<usize>,
}

impl CommitRecord {
    /// The commit as the model sees it.
    pub open spec fn model(&self) -> CommitModel {
        CommitModel {
            message: self.message@,
            parents: self.parents@.map_values(|p: usize| p as int),
        }
    }
}

/// The branch map a sequence of entries stands for; of entries sharing a
/// name the later one wins, though the builder keeps names unique.
pub open spec fn branch_map(entries: Seq<BranchEntry>) -> Map<Seq<char>, int>
    decreases entries.len(),
{
    if entries.len() == 0 {
        Map::empty()
    } else {
        branch_map(entries.drop_last()).insert(entries.last().name@, entries.last().tip as int)
    }
}

/// Every parent index of the record is below `i`, the record's own index.
pub open spec fn parents_below(r: CommitRecord, i: int) -> bool {
    forall|j: int| 0 <= j < r.parents@.len() ==> (#[trigger] r.parents@[j]) < i
}

/// No two entries carry the same name.
pub open spec fn unique_names(entries: Seq<BranchEntry>) -> bool {
    forall|i: int, j: int|
        0 <= i < j < entries.len() ==> (#[trigger] entries[i]).name@ != (#[trigger] entries[j]).name@
}

/// A name is in the branch map exactly when some entry carries it.
proof fn lemma_branch_map_keys(entries: Seq<BranchEntry>, name: Seq<char>)
    ensures
        branch_map(entries).contains_key(name) <==> exists|i: int|
            0 <= i < entries.len() && (#[trigger] entries[i]).name@ == name,
    decreases entries.len(),
{
    if entries.len() > 0 {
        lemma_branch_map_keys(entries.drop_last(), name);
        if branch_map(entries).contains_key(name) {
            if entries.last().name@ == name {
                assert((entries[entries.len() - 1]).name@ == name);
            } else {
                let i = choose|i: int|
                    0 <= i < entries.drop_last().len() && (#[trigger] entries.drop_last()[i]).name@
                        == name;
                assert((entries[i]).name@ == name);
            }
        }
        if exists|i: int| 0 <= i < entries.len() && (#[trigger] entries[i]).name@ == name {
            let i = choose|i: int|
                0 <= i < entries.len() && (#[trigger] entries[i]).name@ == name;
            if i < entries.len() - 1 {
                assert((entries.drop_last()[i]).name@ == name);
            }
        }
    }
}

/// With unique names, the branch map sends each entry's name to its tip.
proof fn lemma_branch_map_at(entries: Seq<BranchEntry>, i: int)
    requires
        unique_names(entries),
        0 <= i < entries.len(),
    ensures
        branch_map(entries).contains_key(entries[i].name@),
        branch_map(entries)[entries[i].name@] == entries[i].tip as int,
    decreases entries.len(),
{
    if i < entries.len() - 1 {
        lemma_branch_map_at(entries.drop_last(), i);
    }
}

/// Repointing the entry that carries a name updates the branch map at that
/// name alone.
proof fn lemma_branch_map_update(entries: Seq<BranchEntry>, i: int, e: BranchEntry)
    requires
        unique_names(entries),
        0 <= i < entries.len(),
        e.name@ == entries[i].name@,
    ensures
        branch_map(entries.update(i, e)) == branch_map(entries).insert(e.name@, e.tip as int),
    decreases entries.len(),
{
    let updated = entries.update(i, e);
    if i == entries.len() - 1 {
        assert(updated.drop_last() =~= entries.drop_last());
        assert(branch_map(updated) =~= branch_map(entries).insert(e.name@, e.tip as int));
    } else {
        assert(updated.drop_last() =~= entries.drop_last().update(i, e));
        lemma_branch_map_update(entries.drop_last(), i, e);
        assert(entries.last().name@ != e.name@);
        assert(branch_map(updated) =~= branch_map(entries).insert(e.name@, e.tip as int));
    }
}

/// A new entry adds its name to the branch map.
proof fn lemma_branch_map_push(entries: Seq<BranchEntry>, e: BranchEntry)
    ensures
        branch_map(entries.push(e)) == branch_map(entries).insert(e.name@, e.tip as int),
{
    assert(entries.push(e).drop_last() =~= entries);
}

/// A workspace mid-build: the repository underneath, the log of commits
/// created so far, and the current branches.
pub struct Workspace {
    repo: git2::Repository,
    log: Vec<CommitRecord>,
    branches: Vec<BranchEntry>,
}

impl Workspace {
    /// The commit graph this workspace holds, as the model sees it.
    pub closed spec fn model(&self) -> GraphModel {
        GraphModel {
            commits: self.log@.map_values(|r: CommitRecord| r.model()),
            branches: branch_map(self.branches@),
        }
    }

    /// The store identifier of each commit, in creation order.
    pub closed spec fn ids(&self) -> Seq<Seq<u8>> {
        self.log@.map_values(|r: CommitRecord| r.id@)
    }

    /// Well-formed: branch names are unique, every tip is a commit of the
    /// log, and every commit's parents precede it — the log is append-only,
    /// so the graph is acyclic by construction.
    pub closed spec fn wf(&self) -> bool {
        &&& unique_names(self.branches@)
        &&& forall|i: int|
            0 <= i < self.branches@.len() ==> (#[trigger] self.branches@[i]).tip < self.log@.len()
        &&& forall|i: int|
            0 <= i < self.log@.len() ==> parents_below(#[trigger] self.log@[i], i)
    }

    /// Every recorded parent of the commit at index `i` precedes it, so a
    /// caller can walk the graph downward from any commit or branch tip.
    pub proof fn lemma_parents_precede(&self, i: int)
        requires
            self.wf(),
            0 <= i < self.model().commits.len(),
        ensures
            forall|j: int|
                0 <= j < self.model().commits[i].parents.len()
                    ==> #[trigger] self.model().commits[i].parents[j] < i,
    {
        assert(parents_below(self.log@[i], i));
        assert forall|j: int|
            0 <= j < self.model().commits[i].parents.len() implies #[trigger] self.model().commits[
            i
        ].parents[j] < i by {
            assert(self.model().commits[i] == self.log@[i].model());
            assert(self.log@[i].parents@[j] < i);
        }
    }

    /// A fresh workspace over a newly initialized repository at `path`:
    /// no commits, no branches.
    pub fn init(path: &str) -> (r: Result<Workspace, BuildError>)
        ensures
            match r {
                Ok(ws) => ws.wf() && ws.model() == empty_model() && ws.ids() == Seq::<
                    Seq<u8>,
                >::empty(),
                Err(e) => e is Git,
            },
    {
        match git_init(path) {
            Ok(repo) => {
                let ws = Workspace { repo, log: Vec::new(), branches: Vec::new() };
                proof {
                    assert(ws.model().commits =~= empty_model().commits);
                    assert(ws.model().branches =~= empty_model().branches);
                    assert(ws.ids() =~= Seq::<Seq<u8>>::empty());
                }
                Ok(ws)
            },
            Err(e) => Err(BuildError::Git(e)),
        }
    }

    /// The index of the entry carrying `name`, if any.
    fn find_index(&self, name: &String) -> (r: Option<usize>)
        ensures
            match r {
                Some(i) => i < self.branches@.len() && self.branches@[i as int].name@ == name@,
                None => forall|j: int|
                    0 <= j < self.branches@.len() ==> (#[trigger] self.branches@[j]).name@
                        != name@,
            },
    {
        let mut i: usize = 0;
        while i < self.branches.len()
            invariant
                i <= self.branches.len(),
                forall|j: int| 0 <= j < i ==> (#[trigger] self.branches@[j]).name@ != name@,
            decreases self.branches.len() - i,
        {
            if self.branches[i].name == *name {
                return Some(i);
            }
            i += 1;
        }
        None
    }

    /// How many commits the build has created.
    pub fn commit_count(&self) -> (r: usize)
        ensures
            r == self.model().commits.len(),
    {
        self.log.len()
    }

    /// The current tip of the branch `name` — the index of a commit — or
    /// `None` if no such branch exists.
    pub fn branch_tip(&self, name: &str) -> (r: Option<usize>)
        requires
            self.wf(),
        ensures
            match r {
                Some(t) => self.model().branches.contains_key(name@) && t as int
                    == self.model().branches[name@] && (t as int) < self.model().commits.len(),
                None => !self.model().branches.contains_key(name@),
            },
    {
        let key: String = name.to_owned();
        match self.find_index(&key) {
            Some(i) => {
                proof {
                    lemma_branch_map_at(self.branches@, i as int);
                }
                Some(self.branches[i].tip)
            },
            None => {
                proof {
                    lemma_branch_map_keys(self.branches@, key@);
                }
                None
            },
        }
    }

    /// The message of the commit at index `i`.
    pub fn message_at(&self, i: usize) -> (r: &String)
        requires
            i < self.model().commits.len(),
        ensures
            r@ == self.model().commits[i as int].message,
    {
        &self.log[i].message
    }

    /// The parents of the commit at index `i`, as indices into the log, in
    /// the order they were resolved; each precedes `i`.
    pub fn parents_at(&self, i: usize) -> (r: &Vec<usize>)
        requires
            self.wf(),
            i < self.model().commits.len(),
        ensures
            r@.map_values(|p: usize| p as int) == self.model().commits[i as int].parents,
            forall|j: int| 0 <= j < r@.len() ==> (#[trigger] r@[j]) < i,
    {
        proof {
            self.lemma_parents_precede(i as int);
            assert forall|j: int|
                0 <= j < self.log@[i as int].parents@.len() implies (#[trigger] self.log@[
                i as int
            ].parents@[j]) < i by {
                assert(self.model().commits[i as int].parents[j] < i as int);
            }
        }
        &self.log[i].parents
    }

    /// The store identifier of the commit at index `i`.
    pub fn id_at(&self, i: usize) -> (r: &Vec<u8>)
        requires
            i < self.model().commits.len(),
        ensures
            r@ == self.ids()[i as int],
    {
        &self.log[i].id
    }

    /// One commit operation: resolve the tree, resolve the parents — the
    /// target branch's own tip first, if it exists, then the tip of every
    /// merge parent, which must exist — create the commit, and repoint the
    /// target branch at it. On any error the graph is left as it was.
    pub fn commit(&mut self, branch: &str, message: &str, merges: &Vec<String>) -> (r: Result<
        Vec<u8>,
        BuildError,
    >)
        requires
            old(self).wf(),
        ensures
            final(self).wf(),
            ({
                let op = OpModel {
                    branch: branch@,
                    message: message@,
                    merges: names_of(merges@),
                };
                match r {
                    Ok(id) => {
                        &&& apply_spec(old(self).model(), op) == Ok::<GraphModel, Seq<char>>(
                            final(self).model(),
                        )
                        &&& final(self).ids() == old(self).ids().push(id@)
                        &&& id@.len() == 20
                    },
                    Err(BuildError::MissingMergeParent(n)) => {
                        &&& final(self).model() == old(self).model()
                        &&& final(self).ids() == old(self).ids()
                        &&& apply_spec(old(self).model(), op) == Err::<GraphModel, Seq<char>>(n@)
                    },
                    Err(BuildError::Git(_)) => {
                        &&& final(self).model() == old(self).model()
                        &&& final(self).ids() == old(self).ids()
                    },
                }
            }),
    {
        let ghost m0 = old(self).model();
        let ghost names = names_of(merges@);
        let ghost op = OpModel { branch: branch@, message: message@, merges: names };

        let tree_id = match git_write_tree(&self.repo, "data.txt", "text".as_bytes()) {
            Ok(t) => t,
            Err(e) => { return Err(BuildError::Git(e)) },
        };

        let key: String = branch.to_owned();
        let pos = self.find_index(&key);

        let mut parent_idxs: Vec<usize> = Vec::new();
        match pos {
            Some(i) => {
                proof {
                    lemma_branch_map_at(self.branches@, i as int);
                }
                parent_idxs.push(self.branches[i].tip);
            },
            None => {
                proof {
                    lemma_branch_map_keys(self.branches@, key@);
                }
            },
        }
        let ghost implicit = parent_idxs@.map_values(|p: usize| p as int);
        proof {
            if m0.branches.contains_key(branch@) {
                assert(implicit =~= seq![m0.branches[branch@]]);
            } else {
                assert(implicit =~= Seq::<int>::empty());
            }
        }

        let mut j: usize = 0;
        while j < merges.len()
            invariant
                old(self).wf(),
                self.log@ == old(self).log@,
                self.branches@ == old(self).branches@,
                j <= merges@.len(),
                names == names_of(merges@),
                m0 == old(self).model(),
                forall|k: int| 0 <= k < j ==> m0.branches.contains_key(#[trigger] names[k]),
                parent_idxs@.map_values(|p: usize| p as int) == implicit + names.take(
                    j as int,
                ).map_values(|n: Seq<char>| m0.branches[n]),
                forall|t: int|
                    0 <= t < parent_idxs@.len() ==> (#[trigger] parent_idxs@[t])
                        < self.log@.len(),
            decreases merges@.len() - j,
        {
            let found = self.find_index(&merges[j]);
            match found {
                Some(i) => {
                    proof {
                        lemma_branch_map_at(self.branches@, i as int);
                        assert(names[j as int] == merges@[j as int]@);
                    }
                    let tip = self.branches[i].tip;
                    let ghost before = parent_idxs@;
                    parent_idxs.push(tip);
                    proof {
                        assert(m0.branches[names[j as int]] == tip as int);
                        assert(parent_idxs@.map_values(|p: usize| p as int) =~= before.map_values(
                            |p: usize| p as int,
                        ).push(tip as int));
                        assert(names.take(j as int + 1) =~= names.take(j as int).push(
                            names[j as int],
                        ));
                        assert(names.take(j as int + 1).map_values(|n: Seq<char>| m0.branches[n])
                            =~= names.take(j as int).map_values(|n: Seq<char>| m0.branches[n]).push(
                            tip as int,
                        ));
                        assert(implicit + names.take(j as int + 1).map_values(
                            |n: Seq<char>| m0.branches[n],
                        ) =~= (implicit + names.take(j as int).map_values(
                            |n: Seq<char>| m0.branches[n],
                        )).push(tip as int));
                        assert(parent_idxs@.map_values(|p: usize| p as int) == implicit
                            + names.take(j as int + 1).map_values(|n: Seq<char>| m0.branches[n]));
                    }
                },
                None => {
                    proof {
                        lemma_branch_map_keys(self.branches@, merges@[j as int]@);
                        lemma_first_missing_at(m0.branches, names, j as int);
                    }
                    return Err(BuildError::MissingMergeParent(merges[j].clone()));
                },
            }
            j += 1;
        }
        proof {
            assert(names.take(merges@.len() as int) =~= names);
            lemma_first_missing_none(m0.branches, names);
            assert(parent_idxs@.map_values(|p: usize| p as int) =~= parents_of(m0, op));
        }

        let mut parent_ids: Vec<Vec<u8>> = Vec::new();
        let mut k: usize = 0;
        while k < parent_idxs.len()
            invariant
                self.log@ == old(self).log@,
                self.branches@ == old(self).branches@,
                k <= parent_idxs@.len(),
                parent_ids@.len() == k,
                forall|t: int|
                    0 <= t < k ==> (#[trigger] parent_ids@[t])@ == self.log@[
                        parent_idxs@[t] as int
                    ].id@,
                forall|t: int|
                    0 <= t < parent_idxs@.len() ==> (#[trigger] parent_idxs@[t])
                        < self.log@.len(),
            decreases parent_idxs@.len() - k,
        {
            let idx = parent_idxs[k];
            let pid = clone_id(&self.log[idx].id);
            parent_ids.push(pid);
            k += 1;
        }
        proof {
            // The store is handed the identifiers of exactly the resolved
            // parents, in resolution order.
            assert(parent_ids@.len() == parents_of(m0, op).len());
            assert forall|t: int| 0 <= t < parent_ids@.len() implies (#[trigger] parent_ids@[t])@
                == old(self).ids()[parents_of(m0, op)[t]] by {
                assert(parents_of(m0, op)[t] == parent_idxs@[t] as int);
                assert(old(self).ids()[parent_idxs@[t] as int] == self.log@[
                    parent_idxs@[t] as int
                ].id@);
            }
        }

        let id = match git_create_commit(
            &self.repo,
            message,
            &tree_id,
            &parent_ids,
            "fixture",
            "fixture@fixture.invalid",
        ) {
            Ok(id) => id,
            Err(e) => { return Err(BuildError::Git(e)) },
        };
        match git_force_branch(&self.repo, branch, &id) {
            Ok(_) => {},
            Err(e) => { return Err(BuildError::Git(e)) },
        }

        let ghost old_log = self.log@;
        let new_idx = self.log.len();
        let id_copy = clone_id(&id);
        let rec = CommitRecord { id: id_copy, message: message.to_owned(), parents: parent_idxs };
        let ghost grec = rec;
        self.log.push(rec);
        proof {
            assert(self.log@.map_values(|r: CommitRecord| r.model()) =~= old_log.map_values(
                |r: CommitRecord| r.model(),
            ).push(grec.model()));
            assert(self.log@.map_values(|r: CommitRecord| r.id@) =~= old_log.map_values(
                |r: CommitRecord| r.id@,
            ).push(grec.id@));
            assert(grec.model() == CommitModel { message: message@, parents: parents_of(m0, op) });
        }

        let ghost old_branches = self.branches@;
        let entry = BranchEntry { name: key, tip: new_idx };
        let ghost gentry = entry;
        match pos {
            Some(i) => {
                self.branches[i] = entry;
                proof {
                    lemma_branch_map_update(old_branches, i as int, gentry);
                    assert forall|a: int, b: int|
                        0 <= a < b < self.branches@.len() implies (#[trigger] self.branches@[a]).name@
                        != (#[trigger] self.branches@[b]).name@ by {
                        assert(old_branches[a].name@ != old_branches[b].name@);
                    }
                }
            },
            None => {
                self.branches.push(entry);
                proof {
                    lemma_branch_map_push(old_branches, gentry);
                    assert forall|a: int, b: int|
                        0 <= a < b < self.branches@.len() implies (#[trigger] self.branches@[a]).name@
                        != (#[trigger] self.branches@[b]).name@ by {
                        if b < self.branches@.len() - 1 {
                            assert(old_branches[a].name@ != old_branches[b].name@);
                        }
                    }
                }
            },
        }
        proof {
            assert(branch_map(self.branches@) == m0.branches.insert(
                branch@,
                m0.commits.len() as int,
            ));
            assert(self.model() == apply_spec(m0, op)->Ok_0);
        }
        Ok(id)
    }
}

/// A copy of a store identifier.
fn clone_id(v: &Vec<u8>) -> (r: Vec<u8>)
    ensures
        r@ == v@,
{
    let mut r: Vec<u8> = Vec::new();
    let mut i: usize = 0;
    while i < v.len()
        invariant
            i <= v@.len(),
            r@ == v@.take(i as int),
        decreases v@.len() - i,
    {
        r.push(v[i]);
        proof {
            assert(v@.take(i as int + 1) =~= v@.take(i as int).push(v@[i as int]));
        }
        i += 1;
    }
    proof {
        assert(v@.take(v@.len() as int) =~= v@);
    }
    r
}

/// A named recipe: the name of the workspace to build, and the script —
/// pure data — to build in it.
pub struct RepoRecipe {
    root: String,
    name: String,
    script: Vec<CommitOp>,
}

impl RepoRecipe {
    /// The root directory the recipe builds under, as the model sees it.
    pub closed spec fn spec_root(&self) -> Seq<char> {
        self.root@
    }

    /// The recipe's name, as the model sees it.
    pub closed spec fn spec_name(&self) -> Seq<char> {
        self.name@
    }

    /// The recipe's script, as the model sees it.
    pub closed spec fn spec_script(&self) -> Seq<OpModel> {
        self.script@.map_values(|o: CommitOp| o@)
    }

    /// A recipe from its name and its script, under the fixed root where
    /// downstream tooling looks fixtures up.
    pub fn new(name: &str, script: Vec<CommitOp>) -> (r: Self)
        ensures
            r.spec_root() == "repos"@,
            r.spec_name() == name@,
            r.spec_script() == script@.map_values(|o: CommitOp| o@),
    {
        RepoRecipe { root: "repos".to_owned(), name: name.to_owned(), script }
    }

    /// A recipe that builds under another root directory.
    pub fn new_under(root: &str, name: &str, script: Vec<CommitOp>) -> (r: Self)
        ensures
            r.spec_root() == root@,
            r.spec_name() == name@,
            r.spec_script() == script@.map_values(|o: CommitOp| o@),
    {
        RepoRecipe { root: root.to_owned(), name: name.to_owned(), script }
    }

    /// The recipe's name.
    pub fn name(&self) -> (r: &str)
        ensures
            r@ == self.spec_name(),
    {
        self.name.as_str()
    }

    /// The directory the workspace occupies: the root, then a segment
    /// named after the recipe.
    pub fn path(&self) -> (r: String)
        ensures
            r@ == self.spec_root() + "/"@ + self.spec_name(),
    {
        let mut p: String = self.root.clone();
        p.append("/");
        p.append(self.name.as_str());
        p
    }

    /// Build the recipe: initialize a fresh repository in this recipe's
    /// path and run the whole script against it, in order. A successful
    /// build returns the workspace, whose graph is exactly the model the
    /// script builds from empty — whatever was at the path before. The
    /// first failing operation aborts the build; a script that names a
    /// missing merge parent never builds.
    pub fn create(&self) -> (r: Result<Workspace, BuildError>)
        ensures
            match r {
                Ok(ws) => ws.wf() && build_spec(self.spec_script()) == Ok::<
                    GraphModel,
                    Seq<char>,
                >(ws.model()),
                Err(BuildError::MissingMergeParent(n)) => build_spec(self.spec_script()) == Err::<
                    GraphModel,
                    Seq<char>,
                >(n@),
                Err(BuildError::Git(_)) => true,
            },
            build_spec(self.spec_script()) is Err ==> !(r is Ok),
    {
        let ghost ops = self.spec_script();
        let path = self.path();
        let mut ws = match Workspace::init(path.as_str()) {
            Ok(ws) => ws,
            Err(e) => { return Err(e) },
        };
        proof {
            assert(ops.take(0) =~= Seq::<OpModel>::empty());
        }
        let mut i: usize = 0;
        while i < self.script.len()
            invariant
                i <= self.script@.len(),
                ops == self.spec_script(),
                ws.wf(),
                build_spec(ops.take(i as int)) == Ok::<GraphModel, Seq<char>>(ws.model()),
            decreases self.script@.len() - i,
        {
            let op = &self.script[i];
            let res = ws.commit(op.branch.as_str(), op.message.as_str(), &op.merges);
            proof {
                lemma_build_step(ops, i as int);
                assert(ops[i as int] == op@);
            }
            match res {
                Ok(_) => {},
                Err(e) => {
                    proof {
                        if e is MissingMergeParent {
                            lemma_build_err_persists(ops, i as int + 1);
                        }
                    }
                    return Err(e);
                },
            }
            i += 1;
        }
        proof {
            assert(ops.take(self.script@.len() as int) =~= ops);
        }
        Ok(ws)
    }
}

} // verus!
