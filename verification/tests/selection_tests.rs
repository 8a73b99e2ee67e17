use workty::clean::{
    clean_candidates, count_removed, removable_candidates, CleanOptions, CleanProbe,
};
use workty::git::GitRepo;
use workty::lifecycle::{
    plan_new, plan_pr, pr_worktree_name, removal_guard, resolve_removal_target, NewError, NewMode,
    NewOptions, PrPlan, RmError,
};
use workty::list::sort_worktrees;
use workty::status::WorktreeStatus;
use workty::worktree::Worktree;

fn sel_wt(path: &str, branch: Option<&str>) -> Worktree {
    Worktree {
        path: path.to_string(),
        head: "abc".to_string(),
        branch: branch.map(|b| format!("refs/heads/{}", b)),
        branch_short: branch.map(|b| b.to_string()),
        detached: branch.is_none(),
        locked: false,
        prunable: false,
    }
}

fn status_with(dirty: usize) -> WorktreeStatus {
    let mut s = WorktreeStatus::default();
    s.dirty_count = dirty;
    s
}

fn quiet_probe() -> CleanProbe {
    CleanProbe { merged: false, upstream_gone: false, age_days: None, dirty: false }
}

fn no_filter_opts() -> CleanOptions {
    CleanOptions { merged: false, gone: false, stale_days: None, dry_run: false, yes: true }
}

#[test]
fn test_sort_four_element_fixture() {
    // One current clean, one current... only one can be current; mix dirty
    // and clean among the rest and check the full expected order.
    let entries = vec![
        (sel_wt("/ws/zeta", Some("zeta")), status_with(0)),
        (sel_wt("/ws/alpha", Some("alpha")), status_with(2)),
        (sel_wt("/repo", Some("main")), status_with(0)),
        (sel_wt("/ws/beta", Some("beta")), status_with(1)),
    ];
    let sorted = sort_worktrees(entries, "/repo");
    let names: Vec<String> = sorted.iter().map(|(w, _)| w.name()).collect();
    // Current first, then dirty by name, then clean by name.
    assert_eq!(names, vec!["main", "alpha", "beta", "zeta"]);
}

#[test]
fn test_sort_current_dirty_combination() {
    let entries = vec![
        (sel_wt("/ws/b-clean", Some("b-clean")), status_with(0)),
        (sel_wt("/ws/a-clean", Some("a-clean")), status_with(0)),
        (sel_wt("/ws/b-dirty", Some("b-dirty")), status_with(5)),
        (sel_wt("/ws/current", Some("current")), status_with(0)),
        (sel_wt("/ws/a-dirty", Some("a-dirty")), status_with(1)),
    ];
    let sorted = sort_worktrees(entries, "/ws/current");
    let names: Vec<String> = sorted.iter().map(|(w, _)| w.name()).collect();
    assert_eq!(names, vec!["current", "a-dirty", "b-dirty", "a-clean", "b-clean"]);
}

#[test]
fn test_clean_candidates_protections() {
    let repo = GitRepo { root: "/repo".to_string(), common_dir: "/repo/.git".to_string() };
    let worktrees = vec![
        sel_wt("/repo", Some("main")),        // main worktree
        sel_wt("/ws/current", Some("cur")),   // current directory
        sel_wt("/ws/detached", None),         // detached
        sel_wt("/ws/base", Some("develop")),  // on the base branch
        sel_wt("/ws/merged", Some("done")),   // the only real candidate
    ];
    let merged_probe = CleanProbe { merged: true, upstream_gone: true, age_days: Some(1000), dirty: false };
    let probes = vec![merged_probe; 5];
    let opts = CleanOptions { merged: true, gone: true, stale_days: Some(10), dry_run: false, yes: true };
    let c = clean_candidates(&worktrees, &probes, "/ws/current", &repo, "develop", &opts);
    assert_eq!(c, vec![4]);
}

#[test]
fn test_clean_no_filter_yields_nothing() {
    let repo = GitRepo { root: "/repo".to_string(), common_dir: "/repo/.git".to_string() };
    let worktrees = vec![sel_wt("/repo", Some("main")), sel_wt("/ws/x", Some("x"))];
    let probes = vec![
        CleanProbe { merged: true, upstream_gone: true, age_days: Some(999), dirty: false };
        2
    ];
    let c = clean_candidates(&worktrees, &probes, "/elsewhere", &repo, "main", &no_filter_opts());
    assert!(c.is_empty());
}

#[test]
fn test_clean_gone_and_stale_filters() {
    let repo = GitRepo { root: "/repo".to_string(), common_dir: "/repo/.git".to_string() };
    let worktrees = vec![
        sel_wt("/ws/gone", Some("gone-branch")),
        sel_wt("/ws/old", Some("old-branch")),
        sel_wt("/ws/fresh", Some("fresh-branch")),
    ];
    let probes = vec![
        CleanProbe { merged: false, upstream_gone: true, age_days: Some(1), dirty: false },
        CleanProbe { merged: false, upstream_gone: false, age_days: Some(40), dirty: false },
        CleanProbe { merged: false, upstream_gone: false, age_days: Some(5), dirty: false },
    ];
    let gone_only =
        CleanOptions { merged: false, gone: true, stale_days: None, dry_run: false, yes: true };
    let c = clean_candidates(&worktrees, &probes, "/elsewhere", &repo, "main", &gone_only);
    assert_eq!(c, vec![0]);
    let stale_only =
        CleanOptions { merged: false, gone: false, stale_days: Some(30), dry_run: false, yes: true };
    let c = clean_candidates(&worktrees, &probes, "/elsewhere", &repo, "main", &stale_only);
    assert_eq!(c, vec![1]);
}

#[test]
fn test_dirty_candidate_listed_but_skipped() {
    let repo = GitRepo { root: "/repo".to_string(), common_dir: "/repo/.git".to_string() };
    let worktrees = vec![
        sel_wt("/ws/one", Some("one")),
        sel_wt("/ws/two", Some("two")),
        sel_wt("/ws/three", Some("three")),
    ];
    let probes = vec![
        CleanProbe { merged: true, upstream_gone: false, age_days: None, dirty: false },
        CleanProbe { merged: true, upstream_gone: false, age_days: None, dirty: true },
        CleanProbe { merged: true, upstream_gone: false, age_days: None, dirty: false },
    ];
    let opts = CleanOptions { merged: true, gone: false, stale_days: None, dry_run: false, yes: true };
    let candidates = clean_candidates(&worktrees, &probes, "/elsewhere", &repo, "main", &opts);
    assert_eq!(candidates, vec![0, 1, 2]);
    let removable = removable_candidates(&candidates, &probes);
    assert_eq!(removable, vec![0, 2]);
    // Both remaining removals succeed: exactly two removed.
    assert_eq!(count_removed(&vec![true, true]), 2);
}

#[test]
fn test_clean_scenario_merged() {
    // Registry: main at the repo root, feat-x merged, feat-y not merged and
    // dirty. Cleaning with the merged filter selects feat-x alone, its
    // removal succeeds, and the reported count is one.
    let repo = GitRepo { root: "/repo".to_string(), common_dir: "/repo/.git".to_string() };
    let worktrees = vec![
        sel_wt("/repo", Some("main")),
        sel_wt("/ws/feat-x", Some("feat/x")),
        sel_wt("/ws/feat-y", Some("feat/y")),
    ];
    let probes = vec![
        CleanProbe { merged: true, upstream_gone: false, age_days: None, dirty: false },
        CleanProbe { merged: true, upstream_gone: false, age_days: None, dirty: false },
        CleanProbe { merged: false, upstream_gone: false, age_days: None, dirty: true },
    ];
    let opts = CleanOptions { merged: true, gone: false, stale_days: None, dry_run: false, yes: true };
    let candidates = clean_candidates(&worktrees, &probes, "/repo", &repo, "main", &opts);
    assert_eq!(candidates, vec![1]);
    let removable = removable_candidates(&candidates, &probes);
    assert_eq!(removable, vec![1]);
    assert_eq!(count_removed(&vec![true]), 1);
}

#[test]
fn test_count_removed_partial_failure() {
    assert_eq!(count_removed(&vec![true, false, true, false]), 2);
    assert_eq!(count_removed(&vec![]), 0);
}

#[test]
fn test_plan_new_branch_in_use() {
    let worktrees = vec![sel_wt("/repo", Some("main")), sel_wt("/ws/feat-z", Some("feat/z"))];
    let opts = NewOptions {
        name: "feat/z".to_string(),
        from: None,
        path: None,
        print_path: false,
        open: false,
    };
    let r = plan_new(&worktrees, &opts, "/ws", "main", false, true);
    match r {
        Err(NewError::BranchInUse { branch, existing_path }) => {
            assert_eq!(branch, "feat/z");
            assert_eq!(existing_path, "/ws/feat-z");
        },
        _ => panic!("expected BranchInUse"),
    }
}

#[test]
fn test_plan_new_path_exists() {
    let worktrees = vec![sel_wt("/repo", Some("main"))];
    let opts = NewOptions {
        name: "feat/login".to_string(),
        from: None,
        path: None,
        print_path: false,
        open: false,
    };
    let r = plan_new(&worktrees, &opts, "/ws", "main", true, false);
    match r {
        Err(NewError::PathExists { path }) => assert_eq!(path, "/ws/feat-login"),
        _ => panic!("expected PathExists"),
    }
}

#[test]
fn test_plan_new_modes() {
    let worktrees = vec![sel_wt("/repo", Some("main"))];
    let opts = NewOptions {
        name: "feat/a".to_string(),
        from: None,
        path: None,
        print_path: false,
        open: false,
    };
    match plan_new(&worktrees, &opts, "/ws", "main", false, true) {
        Ok(plan) => {
            assert_eq!(plan.worktree_path, "/ws/feat-a");
            assert!(matches!(plan.mode, NewMode::UseExistingBranch));
        },
        _ => panic!("expected a plan"),
    }
    match plan_new(&worktrees, &opts, "/ws", "main", false, false) {
        Ok(plan) => match plan.mode {
            NewMode::CreateBranch { base } => assert_eq!(base, "main"),
            _ => panic!("expected CreateBranch"),
        },
        _ => panic!("expected a plan"),
    }
    let opts_from = NewOptions {
        name: "feat/a".to_string(),
        from: Some("origin/dev".to_string()),
        path: Some("/explicit/spot".to_string()),
        print_path: false,
        open: false,
    };
    match plan_new(&worktrees, &opts_from, "/ws", "main", false, false) {
        Ok(plan) => {
            assert_eq!(plan.worktree_path, "/explicit/spot");
            match plan.mode {
                NewMode::CreateBranch { base } => assert_eq!(base, "origin/dev"),
                _ => panic!("expected CreateBranch"),
            }
        },
        _ => panic!("expected a plan"),
    }
}

#[test]
fn test_resolve_removal_target() {
    let repo = GitRepo { root: "/repo".to_string(), common_dir: "/repo/.git".to_string() };
    let worktrees = vec![
        sel_wt("/repo", Some("main")),
        sel_wt("/ws/cur", Some("cur")),
        sel_wt("/ws/other", Some("other")),
    ];
    match resolve_removal_target(&worktrees, "missing", "/ws/cur", &repo) {
        Err(RmError::NotFound { name }) => assert_eq!(name, "missing"),
        _ => panic!("expected NotFound"),
    }
    assert!(matches!(
        resolve_removal_target(&worktrees, "cur", "/ws/cur", &repo),
        Err(RmError::CurrentWorktree)
    ));
    assert!(matches!(
        resolve_removal_target(&worktrees, "main", "/ws/cur", &repo),
        Err(RmError::MainWorktree)
    ));
    assert_eq!(resolve_removal_target(&worktrees, "other", "/ws/cur", &repo).ok(), Some(2));
}

#[test]
fn test_removal_guard() {
    assert!(matches!(removal_guard(true, false, true, true), Err(RmError::DirtyGuard)));
    assert!(matches!(removal_guard(false, false, false, false), Err(RmError::ConfirmationRequired)));
    let plan = removal_guard(false, false, false, true).unwrap();
    assert!(plan.confirm && !plan.warn_dirty);
    let plan = removal_guard(true, true, true, false).unwrap();
    assert!(!plan.confirm && plan.warn_dirty);
}

#[test]
fn test_pr_worktree_name() {
    assert_eq!(pr_worktree_name(123), "pr-123");
    assert_eq!(pr_worktree_name(0), "pr-0");
}

#[test]
fn test_plan_pr() {
    let worktrees = vec![sel_wt("/repo", Some("main")), sel_wt("/ws/pr-7", Some("pr-7"))];
    match plan_pr(&worktrees, "pr-7", "/ws", false) {
        Ok(PrPlan::Existing { path }) => assert_eq!(path, "/ws/pr-7"),
        _ => panic!("expected Existing"),
    }
    match plan_pr(&worktrees, "pr-9", "/ws", false) {
        Ok(PrPlan::Create { path }) => assert_eq!(path, "/ws/pr-9"),
        _ => panic!("expected Create"),
    }
    match plan_pr(&worktrees, "pr-9", "/ws", true) {
        Err(NewError::PathExists { path }) => assert_eq!(path, "/ws/pr-9"),
        _ => panic!("expected PathExists"),
    }
}
