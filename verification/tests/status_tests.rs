use workty::status::{get_all_statuses, get_worktree_status, StatusProbe, WorktreeStatus};
use workty::worktree::Worktree;

fn probe_wt(path: &str, detached: bool) -> Worktree {
    Worktree {
        path: path.to_string(),
        head: "abc".to_string(),
        branch: if detached { None } else { Some("refs/heads/x".to_string()) },
        branch_short: if detached { None } else { Some("x".to_string()) },
        detached,
        locked: false,
        prunable: false,
    }
}

#[test]
fn test_status_default_is_clean() {
    let s = WorktreeStatus::default();
    assert_eq!(s.dirty_count, 0);
    assert!(!s.is_dirty());
    assert!(!s.has_upstream());
    assert!(s.ahead.is_none() && s.behind.is_none());
}

#[test]
fn test_status_is_dirty() {
    let mut s = WorktreeStatus::default();
    s.dirty_count = 3;
    assert!(s.is_dirty());
}

#[test]
fn test_status_detached_short_circuits() {
    let probe = StatusProbe {
        dirty_count: 2,
        upstream: Some("origin/x".to_string()),
        counts: Some((4, 5)),
    };
    let s = get_worktree_status(&probe_wt("/a", true), probe);
    assert_eq!(s.dirty_count, 2);
    assert!(s.upstream.is_none());
    assert!(s.ahead.is_none() && s.behind.is_none());
}

#[test]
fn test_status_no_upstream() {
    let probe = StatusProbe { dirty_count: 0, upstream: None, counts: None };
    let s = get_worktree_status(&probe_wt("/a", false), probe);
    assert!(s.upstream.is_none());
    assert!(s.ahead.is_none() && s.behind.is_none());
}

#[test]
fn test_status_upstream_without_counts() {
    let probe =
        StatusProbe { dirty_count: 1, upstream: Some("origin/x".to_string()), counts: None };
    let s = get_worktree_status(&probe_wt("/a", false), probe);
    assert_eq!(s.upstream.as_deref(), Some("origin/x"));
    assert!(s.ahead.is_none() && s.behind.is_none());
}

#[test]
fn test_status_full_counts() {
    let probe =
        StatusProbe { dirty_count: 0, upstream: Some("origin/x".to_string()), counts: Some((4, 5)) };
    let s = get_worktree_status(&probe_wt("/a", false), probe);
    assert_eq!(s.upstream.as_deref(), Some("origin/x"));
    assert_eq!(s.ahead, Some(4));
    assert_eq!(s.behind, Some(5));
}

#[test]
fn test_get_all_statuses_preserves_order() {
    let worktrees = vec![probe_wt("/a", false), probe_wt("/b", true), probe_wt("/c", false)];
    let probes = vec![
        StatusProbe { dirty_count: 1, upstream: None, counts: None },
        StatusProbe { dirty_count: 2, upstream: Some("u".to_string()), counts: Some((1, 1)) },
        StatusProbe { dirty_count: 3, upstream: Some("origin/c".to_string()), counts: Some((0, 7)) },
    ];
    let all = get_all_statuses(worktrees, probes);
    assert_eq!(all.len(), 3);
    assert_eq!(all[0].0.path, "/a");
    assert_eq!(all[0].1.dirty_count, 1);
    assert_eq!(all[1].0.path, "/b");
    // The second worktree is detached, so its probe's upstream is ignored.
    assert!(all[1].1.upstream.is_none());
    assert_eq!(all[2].0.path, "/c");
    assert_eq!(all[2].1.behind, Some(7));
}
