//! Per-worktree status: the dirty count, the configured upstream and the
//! ahead/behind divergence. Querying the backend happens outside the
//! library; assembling its per-worktree answers into a status, and pairing
//! statuses with worktrees in order, is verified here.

use vstd::prelude::*;
use crate::worktree::{Worktree, WorktreeView};

verus! {

/// The mathematical value of a [`WorktreeStatus`].
pub ghost struct StatusView {
    pub dirty_count: nat,
    pub upstream: Option<Seq<char>>,
    pub ahead: Option<nat>,
    pub behind: Option<nat>,
}

impl StatusView {
    /// Ahead and behind are present together, and only when an upstream is
    /// known.
    pub open spec fn wf(self) -> bool {
        (self.ahead is Some <==> self.behind is Some) && (self.ahead is Some
            ==> self.upstream is Some)
    }
}

/// The status of one worktree at one instant: how many files carry
/// uncommitted changes, and how the checked-out branch relates to its
/// upstream.
pub struct WorktreeStatus {
    pub dirty_count: usize,
    pub upstream: Option<String>,
    pub ahead: Option<usize>,
    pub behind: Option<usize>,
}

impl View for WorktreeStatus {
    type V = StatusView;

    open spec fn view(&self) -> StatusView {
        StatusView {
            dirty_count: self.dirty_count as nat,
            upstream: match self.upstream {
                Some(u) => Some(u@),
                None => None,
            },
            ahead: match self.ahead {
                Some(a) => Some(a as nat),
                None => None,
            },
            behind: match self.behind {
                Some(b) => Some(b as nat),
                None => None,
            },
        }
    }
}

impl Clone for WorktreeStatus {
    fn clone(&self) -> (r: Self)
        ensures
            r@ == self@,
    {
        WorktreeStatus {
            dirty_count: self.dirty_count,
            upstream: match &self.upstream {
                Some(u) => Some(u.clone()),
                None => None,
            },
            ahead: self.ahead,
            behind: self.behind,
        }
    }
}

/// The status reported when the backend could tell nothing: clean, no
/// upstream.
pub open spec fn empty_status() -> StatusView {
    StatusView { dirty_count: 0, upstream: None, ahead: None, behind: None }
}

impl Default for WorktreeStatus {
    /// The degraded status: zero dirty files, no upstream, no counts.
    fn default() -> (r: Self)
        ensures
            r@ == empty_status(),
    {
        WorktreeStatus { dirty_count: 0, upstream: None, ahead: None, behind: None }
    }
}

impl WorktreeStatus {
    /// Whether the worktree carries any uncommitted change.
    pub fn is_dirty(&self) -> (r: bool)
        ensures
            r == (self@.dirty_count > 0),
    {
        self.dirty_count > 0
    }

    /// Whether an upstream is configured for the checked-out branch.
    pub fn has_upstream(&self) -> (r: bool)
        ensures
            r == (self@.upstream is Some),
    {
        self.upstream.is_some()
    }
}

/// The mathematical value of a [`StatusProbe`].
pub ghost struct StatusProbeView {
    pub dirty_count: nat,
    pub upstream: Option<Seq<char>>,
    pub counts: Option<(nat, nat)>,
}

/// What the backend reported about one worktree: the number of entries in
/// its status listing, the branch's upstream if one is configured, and the
/// ahead/behind pair when both tips could be compared.
pub struct StatusProbe {
    pub dirty_count: usize,
    pub upstream: Option<String>,
    pub counts: Option<(usize, usize)>,
}

impl View for StatusProbe {
    type V = StatusProbeView;

    open spec fn view(&self) -> StatusProbeView {
        StatusProbeView {
            dirty_count: self.dirty_count as nat,
            upstream: match self.upstream {
                Some(u) => Some(u@),
                None => None,
            },
            counts: match self.counts {
                Some((a, b)) => Some((a as nat, b as nat)),
                None => None,
            },
        }
    }
}

/// The status a probe determines. A detached worktree short-circuits to "no
/// upstream, no counts"; a known upstream whose tips could not be compared
/// keeps the upstream name and drops the counts.
pub open spec fn spec_status_of(detached: bool, p: StatusProbeView) -> StatusView {
    if detached {
        StatusView { dirty_count: p.dirty_count, upstream: None, ahead: None, behind: None }
    } else {
        match p.upstream {
            None => StatusView {
                dirty_count: p.dirty_count,
                upstream: None,
                ahead: None,
                behind: None,
            },
            Some(u) => match p.counts {
                Some((a, b)) => StatusView {
                    dirty_count: p.dirty_count,
                    upstream: Some(u),
                    ahead: Some(a),
                    behind: Some(b),
                },
                None => StatusView {
                    dirty_count: p.dirty_count,
                    upstream: Some(u),
                    ahead: None,
                    behind: None,
                },
            },
        }
    }
}

/// Every status a probe determines is well-formed.
pub proof fn lemma_status_of_wf(detached: bool, p: StatusProbeView)
    ensures
        spec_status_of(detached, p).wf(),
{
}

/// Assembles the status of one worktree from what the backend reported
/// about it.
pub fn get_worktree_status(worktree: &Worktree, probe: StatusProbe) -> (s: WorktreeStatus)
    ensures
        s@ == spec_status_of(worktree@.detached, probe@),
        s@.wf(),
{
    if worktree.detached {
        WorktreeStatus {
            dirty_count: probe.dirty_count,
            upstream: None,
            ahead: None,
            behind: None,
        }
    } else {
        match probe.upstream {
            None => WorktreeStatus {
                dirty_count: probe.dirty_count,
                upstream: None,
                ahead: None,
                behind: None,
            },
            Some(u) => match probe.counts {
                Some((a, b)) => WorktreeStatus {
                    dirty_count: probe.dirty_count,
                    upstream: Some(u),
                    ahead: Some(a),
                    behind: Some(b),
                },
                None => WorktreeStatus {
                    dirty_count: probe.dirty_count,
                    upstream: Some(u),
                    ahead: None,
                    behind: None,
                },
            },
        }
    }
}

/// Pairs every worktree with the status its probe determines, preserving
/// the input order; each entry depends on its own probe alone.
pub fn get_all_statuses(worktrees: Vec<Worktree>, probes: Vec<StatusProbe>) -> (r: Vec<
    (Worktree, WorktreeStatus),
>)
    requires
        worktrees@.len() == probes@.len(),
    ensures
        r@.len() == worktrees@.len(),
        forall|i: int|
            0 <= i < r@.len() ==> (#[trigger] r@[i]).0@ == worktrees@[i]@ && r@[i].1@
                == spec_status_of(worktrees@[i]@.detached, probes@[i]@),
{
    let ghost ow = worktrees@;
    let ghost op = probes@;
    let mut worktrees = worktrees;
    let mut probes = probes;
    let mut r: Vec<(Worktree, WorktreeStatus)> = Vec::new();
    proof {
        assert(ow.skip(0) =~= ow);
        assert(op.skip(0) =~= op);
    }
    while worktrees.len() > 0
        invariant
            worktrees@.len() == probes@.len(),
            r@.len() + worktrees@.len() == ow.len(),
            op.len() == ow.len(),
            worktrees@ == ow.skip(r@.len() as int),
            probes@ == op.skip(r@.len() as int),
            forall|i: int|
                0 <= i < r@.len() ==> (#[trigger] r@[i]).0@ == ow[i]@ && r@[i].1@
                    == spec_status_of(ow[i]@.detached, op[i]@),
        decreases worktrees@.len(),
    {
        let ghost k = r@.len() as int;
        let w = worktrees.remove(0);
        let p = probes.remove(0);
        proof {
            assert(w == ow.skip(k)[0]);
            assert(ow.skip(k)[0] == ow[k]);
            assert(p == op.skip(k)[0]);
            assert(op.skip(k)[0] == op[k]);
            assert(ow.skip(k).remove(0) =~= ow.skip(k + 1));
            assert(op.skip(k).remove(0) =~= op.skip(k + 1));
        }
        let s = get_worktree_status(&w, p);
        r.push((w, s));
    }
    r
}

} // verus!
