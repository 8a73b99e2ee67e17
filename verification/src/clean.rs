//! Batch cleanup: which worktrees qualify for removal, which of those are
//! held back for being dirty, and how many removals a batch achieved.

use vstd::prelude::*;
use crate::git::GitRepo;
use crate::text::str_eq;
use crate::worktree::{Worktree, WorktreeView};

verus! {

/// The flags of the cleanup command.
#[derive(Clone, Copy)]
pub struct CleanOptions {
    /// Select worktrees whose branch is merged into the base branch.
    pub merged: bool,
    /// Select worktrees whose upstream has disappeared.
    pub gone: bool,
    /// Select worktrees whose last commit is older than this many days.
    pub stale_days: Option<u32>,
    /// Stop before any mutation.
    pub dry_run: bool,
    /// Skip the confirmation prompt.
    pub yes: bool,
}

/// What the backend reported about one worktree for cleanup purposes.
#[derive(Clone, Copy)]
pub struct CleanProbe {
    /// The branch is an ancestor of the base branch.
    pub merged: bool,
    /// The configured upstream no longer exists.
    pub upstream_gone: bool,
    /// Whole days since the last commit, when known.
    pub age_days: Option<u64>,
    /// The worktree has uncommitted changes.
    pub dirty: bool,
}

/// Whether any selection filter was requested at all.
pub open spec fn has_filter(opts: CleanOptions) -> bool {
    opts.merged || opts.gone || opts.stale_days is Some
}

/// Whether a requested filter selects the worktree the probe describes.
pub open spec fn filter_hit(probe: CleanProbe, opts: CleanOptions) -> bool {
    (opts.merged && probe.merged) || (opts.gone && probe.upstream_gone) || (match opts.stale_days {
        Some(d) => match probe.age_days {
            Some(a) => a > d as u64,
            None => false,
        },
        None => false,
    })
}

/// Whether the worktree may never be removed by cleanup: the current
/// worktree, the main worktree, a detached worktree, and the base branch's
/// worktree are structurally protected.
pub open spec fn is_protected(
    w: WorktreeView,
    current: Seq<char>,
    root: Seq<char>,
    base: Seq<char>,
) -> bool {
    w.path == current || w.path == root || w.detached || w.branch_short == Some(base)
}

/// Whether the worktree is a cleanup candidate: not protected, and
/// selected by a requested filter. With no filter requested nothing is a
/// candidate.
pub open spec fn is_candidate(
    w: WorktreeView,
    probe: CleanProbe,
    current: Seq<char>,
    root: Seq<char>,
    base: Seq<char>,
    opts: CleanOptions,
) -> bool {
    !is_protected(w, current, root, base) && has_filter(opts) && filter_hit(probe, opts)
}

/// The current worktree, the main worktree, a detached worktree and the
/// base branch's worktree are never candidates, whatever the filters say.
pub proof fn lemma_clean_candidate_safety(
    w: WorktreeView,
    probe: CleanProbe,
    current: Seq<char>,
    root: Seq<char>,
    base: Seq<char>,
    opts: CleanOptions,
)
    requires
        is_candidate(w, probe, current, root, base, opts),
    ensures
        w.path != current,
        w.path != root,
        !w.detached,
        w.branch_short != Some(base),
{
}

/// With no filter flag set the candidate set is empty, whatever the
/// worktrees look like.
pub proof fn lemma_no_filter_no_candidates(
    w: WorktreeView,
    probe: CleanProbe,
    current: Seq<char>,
    root: Seq<char>,
    base: Seq<char>,
    opts: CleanOptions,
)
    requires
        !opts.merged,
        !opts.gone,
        opts.stale_days is None,
    ensures
        !is_candidate(w, probe, current, root, base, opts),
{
}

fn is_candidate_exec(
    w: &Worktree,
    probe: &CleanProbe,
    current_path: &str,
    repo: &GitRepo,
    base: &str,
    opts: &CleanOptions,
) -> (r: bool)
    ensures
        r == is_candidate(w@, *probe, current_path@, repo.root@, base@, *opts),
{
    let on_base = match &w.branch_short {
        Some(b) => str_eq(b.as_str(), base),
        None => false,
    };
    let protected = str_eq(w.path.as_str(), current_path) || w.is_main_worktree(repo)
        || w.detached || on_base;
    if protected {
        return false;
    }
    if opts.merged && probe.merged {
        return true;
    }
    if opts.gone && probe.upstream_gone {
        return true;
    }
    match opts.stale_days {
        Some(d) => match probe.age_days {
            Some(a) => a > d as u64,
            None => false,
        },
        None => false,
    }
}

/// Computes the indices of the cleanup candidates, in listing order:
/// exactly the unprotected worktrees that a requested filter selects.
pub fn clean_candidates(
    worktrees: &Vec<Worktree>,
    probes: &Vec<CleanProbe>,
    current_path: &str,
    repo: &GitRepo,
    base: &str,
    opts: &CleanOptions,
) -> (r: Vec<usize>)
    requires
        probes@.len() == worktrees@.len(),
    ensures
        forall|k: int|
            0 <= k < r@.len() ==> (#[trigger] r@[k]) < worktrees@.len() && is_candidate(
                worktrees@[r@[k] as int]@,
                probes@[r@[k] as int],
                current_path@,
                repo.root@,
                base@,
                *opts,
            ),
        forall|i: int|
            0 <= i < worktrees@.len() && is_candidate(
                worktrees@[i]@,
                probes@[i],
                current_path@,
                repo.root@,
                base@,
                *opts,
            ) ==> exists|k: int| 0 <= k < r@.len() && #[trigger] r@[k] == i,
        forall|k1: int, k2: int| 0 <= k1 < k2 < r@.len() ==> r@[k1] < r@[k2],
{
    let n = worktrees.len();
    let mut r: Vec<usize> = Vec::new();
    let mut i: usize = 0;
    while i < n
        invariant
            0 <= i <= n,
            n == worktrees@.len(),
            probes@.len() == n,
            forall|k: int|
                0 <= k < r@.len() ==> (#[trigger] r@[k]) < i && is_candidate(
                    worktrees@[r@[k] as int]@,
                    probes@[r@[k] as int],
                    current_path@,
                    repo.root@,
                    base@,
                    *opts,
                ),
            forall|j: int|
                0 <= j < i && is_candidate(
                    worktrees@[j]@,
                    probes@[j],
                    current_path@,
                    repo.root@,
                    base@,
                    *opts,
                ) ==> exists|k: int| 0 <= k < r@.len() && #[trigger] r@[k] == j,
            forall|k1: int, k2: int| 0 <= k1 < k2 < r@.len() ==> r@[k1] < r@[k2],
        decreases n - i,
    {
        if is_candidate_exec(&worktrees[i], &probes[i], current_path, repo, base, opts) {
            let ghost pre = r@;
            r.push(i);
            proof {
                assert(r@[pre.len() as int] == i);
                assert forall|j: int|
                    0 <= j < i + 1 && is_candidate(
                        worktrees@[j]@,
                        probes@[j],
                        current_path@,
                        repo.root@,
                        base@,
                        *opts,
                    ) implies exists|k: int| 0 <= k < r@.len() && #[trigger] r@[k] == j by {
                    if j < i {
                        let k = choose|k: int| 0 <= k < pre.len() && #[trigger] pre[k] == j;
                        assert(r@[k] == j);
                    } else {
                        assert(r@[pre.len() as int] == j);
                    }
                }
            }
        }
        i = i + 1;
    }
    r
}

/// The candidates that cleanup will actually remove: those without
/// uncommitted changes. Dirty candidates stay listed but are skipped.
pub fn removable_candidates(candidates: &Vec<usize>, probes: &Vec<CleanProbe>) -> (r: Vec<usize>)
    requires
        forall|k: int| 0 <= k < candidates@.len() ==> (#[trigger] candidates@[k]) < probes@.len(),
    ensures
        r@ == candidates@.filter(|i: usize| !probes@[i as int].dirty),
{
    let n = candidates.len();
    let mut r: Vec<usize> = Vec::new();
    proof {
        reveal(Seq::filter);
        assert(candidates@.subrange(0, 0).filter(|i: usize| !probes@[i as int].dirty)
            =~= Seq::<usize>::empty());
    }
    let mut k: usize = 0;
    while k < n
        invariant
            0 <= k <= n,
            n == candidates@.len(),
            forall|j: int| 0 <= j < n ==> (#[trigger] candidates@[j]) < probes@.len(),
            r@ == candidates@.subrange(0, k as int).filter(|i: usize| !probes@[i as int].dirty),
        decreases n - k,
    {
        let c = candidates[k];
        proof {
            reveal(Seq::filter);
            let pr = candidates@.subrange(0, k as int + 1);
            assert(pr.drop_last() =~= candidates@.subrange(0, k as int));
            assert(pr.last() == candidates@[k as int]);
        }
        if !probes[c].dirty {
            r.push(c);
        }
        k = k + 1;
    }
    proof {
        assert(candidates@.subrange(0, n as int) =~= candidates@);
    }
    r
}

/// A dirty candidate is never in the removable set.
pub proof fn lemma_dirty_candidate_skipped(candidates: Seq<usize>, probes: Seq<CleanProbe>, k: int)
    requires
        0 <= k < candidates.len(),
        candidates[k] < probes.len(),
        probes[candidates[k] as int].dirty,
    ensures
        !candidates.filter(|i: usize| !probes[i as int].dirty).contains(candidates[k]),
{
    let filtered = candidates.filter(|i: usize| !probes[i as int].dirty);
    if filtered.contains(candidates[k]) {
        let j = choose|j: int| 0 <= j < filtered.len() && filtered[j] == candidates[k];
        candidates.lemma_filter_pred(|i: usize| !probes[i as int].dirty, j);
    }
}

/// How many entries of a sequence are true.
pub open spec fn count_true(s: Seq<bool>) -> int
    decreases s.len(),
{
    if s.len() == 0 {
        0
    } else {
        count_true(s.drop_last()) + if s.last() {
            1int
        } else {
            0int
        }
    }
}

/// Counts the successful outcomes of a removal batch: one entry per
/// attempted removal, true where the backend succeeded.
pub fn count_removed(outcomes: &Vec<bool>) -> (r: usize)
    ensures
        r == count_true(outcomes@),
        r <= outcomes@.len(),
{
    proof {
        lemma_count_true_bounds(outcomes@);
    }
    let n = outcomes.len();
    let mut r: usize = 0;
    let mut i: usize = 0;
    proof {
        assert(outcomes@.subrange(0, 0) =~= Seq::<bool>::empty());
    }
    while i < n
        invariant
            0 <= i <= n,
            n == outcomes@.len(),
            r == count_true(outcomes@.subrange(0, i as int)),
            r <= i,
        decreases n - i,
    {
        proof {
            let pr = outcomes@.subrange(0, i as int + 1);
            assert(pr.drop_last() =~= outcomes@.subrange(0, i as int));
            assert(pr.last() == outcomes@[i as int]);
        }
        if outcomes[i] {
            r = r + 1;
        }
        i = i + 1;
    }
    proof {
        assert(outcomes@.subrange(0, n as int) =~= outcomes@);
    }
    r
}

proof fn lemma_count_true_bounds(s: Seq<bool>)
    ensures
        0 <= count_true(s) <= s.len(),
    decreases s.len(),
{
    if s.len() > 0 {
        lemma_count_true_bounds(s.drop_last());
    }
}

} // verus!
