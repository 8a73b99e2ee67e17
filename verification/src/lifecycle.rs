//! Lifecycle decisions: what creating or removing a worktree will do, and
//! which error stops it, decided from the registry snapshot and plain facts
//! the backend reported. Running the resulting backend mutations happens
//! outside the library.

use vstd::prelude::*;
use vstd::string::*;
use crate::git::GitRepo;
use crate::text::{spec_decimal, str_eq, usize_to_string};
use crate::worktree::{spec_slug, slug_from_branch, wt_matches, Worktree};

verus! {

/// The inputs of the create operation.
pub struct NewOptions {
    /// The branch the new worktree is for.
    pub name: String,
    /// An explicit base reference to branch from.
    pub from: Option<String>,
    /// An explicit target path, instead of one derived from the branch.
    pub path: Option<String>,
    /// Print only the created path.
    pub print_path: bool,
    /// Launch the configured open command afterwards.
    pub open: bool,
}

/// The inputs of the single-removal operation.
pub struct RmOptions {
    /// The worktree name to remove.
    pub name: String,
    /// Remove even with uncommitted changes.
    pub force: bool,
    /// Also delete the branch afterwards.
    pub delete_branch: bool,
    /// Skip the confirmation prompt.
    pub yes: bool,
}

/// The inputs of the pull-request checkout operation.
pub struct PrOptions {
    pub number: u32,
    /// Print only the created path.
    pub print_path: bool,
    /// Launch the configured open command afterwards.
    pub open: bool,
}

/// Why a create operation stops.
#[derive(Debug)]
pub enum NewError {
    /// The target directory already exists.
    PathExists { path: String },
    /// The branch is already checked out in another worktree.
    BranchInUse { branch: String, existing_path: String },
}

/// How the new worktree gets its branch.
#[derive(Debug)]
pub enum NewMode {
    /// The branch already exists; attach the worktree to it.
    UseExistingBranch,
    /// Create the branch from this base reference.
    CreateBranch { base: String },
}

/// What a create operation will do.
#[derive(Debug)]
pub struct NewPlan {
    pub worktree_path: String,
    pub mode: NewMode,
}

/// The target path of a new worktree: the explicit path when one was
/// given, else the branch's slug under the workspace root.
pub open spec fn spec_new_target_path(
    explicit: Option<Seq<char>>,
    workspace_root: Seq<char>,
    branch: Seq<char>,
) -> Seq<char> {
    match explicit {
        Some(p) => p,
        None => workspace_root + "/"@ + spec_slug(branch),
    }
}

/// Computes the target path of a new worktree.
pub fn new_target_path(explicit: &Option<String>, workspace_root: &str, branch: &str) -> (r:
    String)
    ensures
        r@ == spec_new_target_path(
            match explicit {
                Some(p) => Some(p@),
                None => None,
            },
            workspace_root@,
            branch@,
        ),
{
    match explicit {
        Some(p) => p.clone(),
        None => {
            let slug = slug_from_branch(branch);
            let mut r = String::new();
            r.append(workspace_root);
            r.append("/");
            r.append(slug.as_str());
            r
        },
    }
}

/// The first worktree that has `branch` checked out, or `ws.len()` when
/// none has.
pub open spec fn first_branch_match(ws: Seq<Worktree>, branch: Seq<char>) -> int
    decreases ws.len(),
{
    if ws.len() == 0 {
        0
    } else if ws.first()@.branch_short == Some(branch) {
        0
    } else {
        1 + first_branch_match(ws.drop_first(), branch)
    }
}

pub proof fn lemma_first_branch_match(ws: Seq<Worktree>, branch: Seq<char>)
    ensures
        0 <= first_branch_match(ws, branch) <= ws.len(),
        first_branch_match(ws, branch) < ws.len() ==> ws[first_branch_match(ws, branch)]@.branch_short
            == Some(branch),
        forall|j: int|
            0 <= j < first_branch_match(ws, branch) ==> (#[trigger] ws[j])@.branch_short != Some(
                branch,
            ),
    decreases ws.len(),
{
    if ws.len() > 0 && ws.first()@.branch_short != Some(branch) {
        lemma_first_branch_match(ws.drop_first(), branch);
        assert forall|j: int| 0 <= j < first_branch_match(ws, branch) implies (#[trigger] ws[j])@.branch_short
            != Some(branch) by {
            if j > 0 {
                assert(ws.drop_first()[j - 1]@.branch_short != Some(branch));
            }
        }
        if first_branch_match(ws, branch) < ws.len() {
            assert(ws.drop_first()[first_branch_match(ws.drop_first(), branch)]@.branch_short
                == Some(branch));
        }
    }
}

/// Decides what creating a worktree for `opts.name` will do. `path_exists`
/// and `branch_exists` are the backend's answers about the computed target
/// path and the branch. An existing target path stops the operation; a
/// branch already checked out elsewhere stops it and names that location;
/// otherwise the worktree is created, on the existing branch or on a new
/// branch from the resolved base.
pub fn plan_new(
    worktrees: &Vec<Worktree>,
    opts: &NewOptions,
    workspace_root: &str,
    default_base: &str,
    path_exists: bool,
    branch_exists: bool,
) -> (r: Result<NewPlan, NewError>)
    ensures
        ({
            let target = spec_new_target_path(
                match opts.path {
                    Some(p) => Some(p@),
                    None => None,
                },
                workspace_root@,
                opts.name@,
            );
            let fm = first_branch_match(worktrees@, opts.name@);
            match r {
                Err(NewError::PathExists { path }) => path_exists && path@ == target,
                Err(NewError::BranchInUse { branch, existing_path }) => !path_exists && fm
                    < worktrees@.len() && branch@ == opts.name@ && existing_path@
                    == worktrees@[fm]@.path,
                Ok(plan) => !path_exists && fm == worktrees@.len() && plan.worktree_path@ == target
                    && (match plan.mode {
                    NewMode::UseExistingBranch => branch_exists,
                    NewMode::CreateBranch { base } => !branch_exists && base@ == (match opts.from {
                        Some(f) => f@,
                        None => default_base@,
                    }),
                }),
            }
        }),
{
    let target = new_target_path(&opts.path, workspace_root, opts.name.as_str());
    if path_exists {
        return Err(NewError::PathExists { path: target });
    }
    proof {
        lemma_first_branch_match(worktrees@, opts.name@);
    }
    let n = worktrees.len();
    let mut i: usize = 0;
    while i < n
        invariant
            !path_exists,
            0 <= i <= n,
            n == worktrees@.len(),
            forall|j: int| 0 <= j < i ==> (#[trigger] worktrees@[j])@.branch_short != Some(opts.name@),
            0 <= first_branch_match(worktrees@, opts.name@) <= n,
            first_branch_match(worktrees@, opts.name@) < n ==> worktrees@[first_branch_match(
                worktrees@,
                opts.name@,
            )]@.branch_short == Some(opts.name@),
            forall|j: int|
                0 <= j < first_branch_match(worktrees@, opts.name@) ==> (#[trigger] worktrees@[j])@.branch_short
                    != Some(opts.name@),
        decreases n - i,
    {
        let hit = match &worktrees[i].branch_short {
            Some(b) => str_eq(b.as_str(), opts.name.as_str()),
            None => false,
        };
        if hit {
            proof {
                assert(first_branch_match(worktrees@, opts.name@) <= i);
                assert(first_branch_match(worktrees@, opts.name@) >= i);
            }
            return Err(
                NewError::BranchInUse {
                    branch: opts.name.clone(),
                    existing_path: worktrees[i].path.clone(),
                },
            );
        }
        i = i + 1;
    }
    proof {
        assert(first_branch_match(worktrees@, opts.name@) == n);
    }
    if branch_exists {
        Ok(NewPlan { worktree_path: target, mode: NewMode::UseExistingBranch })
    } else {
        let base = match &opts.from {
            Some(f) => f.clone(),
            None => String::from_str(default_base),
        };
        Ok(NewPlan { worktree_path: target, mode: NewMode::CreateBranch { base } })
    }
}

/// Why a removal stops.
#[derive(Debug)]
pub enum RmError {
    /// No worktree matches the given name.
    NotFound { name: String },
    /// The target is the current working directory's worktree.
    CurrentWorktree,
    /// The target is the main worktree.
    MainWorktree,
    /// The target has uncommitted changes and no force flag was given.
    DirtyGuard,
    /// Neither a yes flag nor an interactive terminal: a destructive
    /// default is refused.
    ConfirmationRequired,
}

/// What a permitted removal still involves.
#[derive(Debug)]
pub struct RmPlan {
    /// Ask the user before removing.
    pub confirm: bool,
    /// Warn that uncommitted changes are being discarded.
    pub warn_dirty: bool,
}

/// The first worktree a lookup by `name` matches, or `ws.len()` when none
/// does.
pub open spec fn first_name_match(ws: Seq<Worktree>, name: Seq<char>) -> int
    decreases ws.len(),
{
    if ws.len() == 0 {
        0
    } else if wt_matches(ws.first()@, name) {
        0
    } else {
        1 + first_name_match(ws.drop_first(), name)
    }
}

pub proof fn lemma_first_name_match(ws: Seq<Worktree>, name: Seq<char>)
    ensures
        0 <= first_name_match(ws, name) <= ws.len(),
        first_name_match(ws, name) < ws.len() ==> wt_matches(ws[first_name_match(ws, name)]@, name),
        forall|j: int| 0 <= j < first_name_match(ws, name) ==> !wt_matches((#[trigger] ws[j])@, name),
    decreases ws.len(),
{
    if ws.len() > 0 && !wt_matches(ws.first()@, name) {
        lemma_first_name_match(ws.drop_first(), name);
        assert forall|j: int| 0 <= j < first_name_match(ws, name) implies !wt_matches(
            (#[trigger] ws[j])@,
            name,
        ) by {
            if j > 0 {
                assert(!wt_matches(ws.drop_first()[j - 1]@, name));
            }
        }
        if first_name_match(ws, name) < ws.len() {
            assert(wt_matches(ws.drop_first()[first_name_match(ws.drop_first(), name)]@, name));
        }
    }
}

/// Finds the worktree a removal names and checks the structural
/// protections: the current worktree and the main worktree can never be
/// removed.
pub fn resolve_removal_target(
    worktrees: &Vec<Worktree>,
    name: &str,
    current_path: &str,
    repo: &GitRepo,
) -> (r: Result<usize, RmError>)
    ensures
        ({
            let fm = first_name_match(worktrees@, name@);
            match r {
                Ok(i) => i == fm && fm < worktrees@.len() && worktrees@[fm]@.path != current_path@
                    && worktrees@[fm]@.path != repo.root@,
                Err(RmError::NotFound { name: n }) => fm == worktrees@.len() && n@ == name@,
                Err(RmError::CurrentWorktree) => fm < worktrees@.len() && worktrees@[fm]@.path
                    == current_path@,
                Err(RmError::MainWorktree) => fm < worktrees@.len() && worktrees@[fm]@.path
                    != current_path@ && worktrees@[fm]@.path == repo.root@,
                _ => false,
            }
        }),
{
    proof {
        lemma_first_name_match(worktrees@, name@);
    }
    let n = worktrees.len();
    let mut i: usize = 0;
    while i < n
        invariant
            0 <= i <= n,
            n == worktrees@.len(),
            forall|j: int| 0 <= j < i ==> !wt_matches((#[trigger] worktrees@[j])@, name@),
            0 <= first_name_match(worktrees@, name@) <= n,
            first_name_match(worktrees@, name@) < n ==> wt_matches(
                worktrees@[first_name_match(worktrees@, name@)]@,
                name@,
            ),
            forall|j: int|
                0 <= j < first_name_match(worktrees@, name@) ==> !wt_matches(
                    (#[trigger] worktrees@[j])@,
                    name@,
                ),
        decreases n - i,
    {
        let hit = {
            let by_branch = match &worktrees[i].branch_short {
                Some(b) => str_eq(b.as_str(), name),
                None => false,
            };
            if by_branch {
                true
            } else {
                match crate::worktree::path_file_name(worktrees[i].path.as_str()) {
                    Some(f) => str_eq(f.as_str(), name),
                    None => false,
                }
            }
        };
        if hit {
            proof {
                assert(first_name_match(worktrees@, name@) <= i);
                assert(first_name_match(worktrees@, name@) >= i);
            }
            if str_eq(worktrees[i].path.as_str(), current_path) {
                return Err(RmError::CurrentWorktree);
            }
            if worktrees[i].is_main_worktree(repo) {
                return Err(RmError::MainWorktree);
            }
            return Ok(i);
        }
        i = i + 1;
    }
    Err(RmError::NotFound { name: String::from_str(name) })
}

/// Decides whether a permitted removal may proceed: uncommitted changes
/// demand the force flag; without a yes flag an interactive run must
/// confirm, and a non-interactive run is refused outright.
pub fn removal_guard(dirty: bool, force: bool, yes: bool, interactive: bool) -> (r: Result<
    RmPlan,
    RmError,
>)
    ensures
        match r {
            Ok(plan) => (!dirty || force) && (yes || interactive) && plan.confirm == (!yes
                && interactive) && plan.warn_dirty == dirty,
            Err(RmError::DirtyGuard) => dirty && !force,
            Err(RmError::ConfirmationRequired) => (!dirty || force) && !yes && !interactive,
            _ => false,
        },
{
    if dirty && !force {
        return Err(RmError::DirtyGuard);
    }
    if !yes && !interactive {
        return Err(RmError::ConfirmationRequired);
    }
    Ok(RmPlan { confirm: !yes && interactive, warn_dirty: dirty })
}

/// The registry name of the worktree for a pull request: `pr-` and the
/// number in decimal.
pub fn pr_worktree_name(number: u32) -> (r: String)
    ensures
        r@ == "pr-"@ + spec_decimal(number as nat),
{
    let digits = usize_to_string(number as usize);
    let mut r = String::new();
    r.append("pr-");
    r.append(digits.as_str());
    r
}

/// What a pull-request checkout will do.
#[derive(Debug)]
pub enum PrPlan {
    /// A worktree for this pull request already exists at this path.
    Existing { path: String },
    /// Create a detached worktree at this path and check the pull request
    /// out into it.
    Create { path: String },
}

/// Decides what checking out a pull request will do: an existing worktree
/// under the pull request's name is reused; otherwise the target path must
/// be free.
pub fn plan_pr(worktrees: &Vec<Worktree>, pr_name: &str, workspace_root: &str, path_exists: bool)
    -> (r: Result<PrPlan, NewError>)
    ensures
        ({
            let fm = first_name_match(worktrees@, pr_name@);
            let target = spec_new_target_path(None, workspace_root@, pr_name@);
            match r {
                Ok(PrPlan::Existing { path }) => fm < worktrees@.len() && path@
                    == worktrees@[fm]@.path,
                Ok(PrPlan::Create { path }) => fm == worktrees@.len() && !path_exists && path@
                    == target,
                Err(NewError::PathExists { path }) => fm == worktrees@.len() && path_exists && path@
                    == target,
                _ => false,
            }
        }),
{
    proof {
        lemma_first_name_match(worktrees@, pr_name@);
    }
    let n = worktrees.len();
    let mut i: usize = 0;
    while i < n
        invariant
            0 <= i <= n,
            n == worktrees@.len(),
            forall|j: int| 0 <= j < i ==> !wt_matches((#[trigger] worktrees@[j])@, pr_name@),
            0 <= first_name_match(worktrees@, pr_name@) <= n,
            first_name_match(worktrees@, pr_name@) < n ==> wt_matches(
                worktrees@[first_name_match(worktrees@, pr_name@)]@,
                pr_name@,
            ),
            forall|j: int|
                0 <= j < first_name_match(worktrees@, pr_name@) ==> !wt_matches(
                    (#[trigger] worktrees@[j])@,
                    pr_name@,
                ),
        decreases n - i,
    {
        let by_branch = match &worktrees[i].branch_short {
            Some(b) => str_eq(b.as_str(), pr_name),
            None => false,
        };
        let hit = if by_branch {
            true
        } else {
            match crate::worktree::path_file_name(worktrees[i].path.as_str()) {
                Some(f) => str_eq(f.as_str(), pr_name),
                None => false,
            }
        };
        if hit {
            proof {
                assert(first_name_match(worktrees@, pr_name@) <= i);
                assert(first_name_match(worktrees@, pr_name@) >= i);
            }
            return Ok(PrPlan::Existing { path: worktrees[i].path.clone() });
        }
        i = i + 1;
    }
    let target = new_target_path(&None, workspace_root, pr_name);
    if path_exists {
        Err(NewError::PathExists { path: target })
    } else {
        Ok(PrPlan::Create { path: target })
    }
}

} // verus!
