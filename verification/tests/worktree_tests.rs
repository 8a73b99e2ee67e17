use workty::git::GitRepo;
use workty::worktree::{
    find_worktree, parse_worktree_list, path_file_name, slug_from_branch, Worktree,
};

fn wt(path: &str, branch: Option<&str>) -> Worktree {
    Worktree {
        path: path.to_string(),
        head: "abc".to_string(),
        branch: branch.map(|b| format!("refs/heads/{}", b)),
        branch_short: branch.map(|b| b.to_string()),
        detached: branch.is_none(),
        locked: false,
        prunable: false,
    }
}

#[test]
fn test_parse_worktree_list_normal() {
    let output = "worktree /home/user/project\nHEAD abc123def456\nbranch refs/heads/main\n\nworktree /home/user/.workty/project/feat-login\nHEAD def789abc012\nbranch refs/heads/feat/login\n\n";
    let worktrees = parse_worktree_list(output);
    assert_eq!(worktrees.len(), 2);
    assert_eq!(worktrees[0].branch_short.as_deref(), Some("main"));
    assert_eq!(worktrees[1].branch_short.as_deref(), Some("feat/login"));
    assert!(!worktrees[0].detached);
}

#[test]
fn test_parse_worktree_list_detached() {
    let output = "worktree /home/user/project\nHEAD abc123def456\ndetached\n\n";
    let worktrees = parse_worktree_list(output);
    assert_eq!(worktrees.len(), 1);
    assert!(worktrees[0].detached);
    assert!(worktrees[0].branch.is_none());
}

#[test]
fn test_parse_worktree_list_locked() {
    let output =
        "worktree /home/user/project\nHEAD abc123def456\nbranch refs/heads/main\nlocked reason here\n\n";
    let worktrees = parse_worktree_list(output);
    assert_eq!(worktrees.len(), 1);
    assert!(worktrees[0].locked);
}

#[test]
fn test_parse_worktree_list_bare() {
    let output = "worktree /home/user/project.git\nbare\n\nworktree /home/user/project\nHEAD abc123\nbranch refs/heads/main\n\n";
    let worktrees = parse_worktree_list(output);
    assert_eq!(worktrees.len(), 1);
    assert_eq!(worktrees[0].branch_short.as_deref(), Some("main"));
}

#[test]
fn test_slug_from_branch() {
    assert_eq!(slug_from_branch("feat/login"), "feat-login");
    assert_eq!(slug_from_branch("fix/bug-123"), "fix-bug-123");
    assert_eq!(slug_from_branch("feature/add user auth"), "feature-add-user-auth");
}

#[test]
fn test_parse_trailing_record_without_blank_line() {
    let output = "worktree /a\nHEAD 123\nbranch refs/heads/x";
    let worktrees = parse_worktree_list(output);
    assert_eq!(worktrees.len(), 1);
    assert_eq!(worktrees[0].path, "/a");
    assert_eq!(worktrees[0].branch_short.as_deref(), Some("x"));
}

#[test]
fn test_parse_record_without_path_dropped() {
    let output = "HEAD abc123\nbranch refs/heads/main\n\nworktree /b\nHEAD def\n\n";
    let worktrees = parse_worktree_list(output);
    assert_eq!(worktrees.len(), 1);
    assert_eq!(worktrees[0].path, "/b");
}

#[test]
fn test_parse_unknown_keys_ignored() {
    let output = "worktree /a\nHEAD abc\nfancy-new-field 7\nshiny\n\n";
    let worktrees = parse_worktree_list(output);
    assert_eq!(worktrees.len(), 1);
    assert_eq!(worktrees[0].path, "/a");
    assert_eq!(worktrees[0].head, "abc");
    assert!(!worktrees[0].locked);
    assert!(!worktrees[0].detached);
}

#[test]
fn test_parse_head_defaults_to_empty() {
    let output = "worktree /a\n\n";
    let worktrees = parse_worktree_list(output);
    assert_eq!(worktrees.len(), 1);
    assert_eq!(worktrees[0].head, "");
    assert!(worktrees[0].branch.is_none());
    assert!(worktrees[0].branch_short.is_none());
}

#[test]
fn test_parse_detached_record_fields() {
    // A record block for a detached checkout yields one worktree with no
    // branch at all.
    let worktrees = parse_worktree_list("worktree /a\nHEAD abc\ndetached\n\n");
    assert_eq!(worktrees.len(), 1);
    assert_eq!(worktrees[0].path, "/a");
    assert_eq!(worktrees[0].head, "abc");
    assert!(worktrees[0].detached);
    assert!(worktrees[0].branch.is_none());
    assert!(worktrees[0].branch_short.is_none());
}

#[test]
fn test_parse_branch_outside_heads_namespace_kept_whole() {
    let output = "worktree /a\nHEAD abc\nbranch refs/remotes/origin/main\n\n";
    let worktrees = parse_worktree_list(output);
    assert_eq!(worktrees[0].branch.as_deref(), Some("refs/remotes/origin/main"));
    assert_eq!(worktrees[0].branch_short.as_deref(), Some("refs/remotes/origin/main"));
}

#[test]
fn test_parse_prunable_flag() {
    let output = "worktree /a\nHEAD abc\nprunable gitdir file points to non-existent location\n\n";
    let worktrees = parse_worktree_list(output);
    assert!(worktrees[0].prunable);
}

#[test]
fn test_slug_idempotent_samples() {
    for sample in ["feat/login", "--weird//name--", "a b c", "", "///", "ok_name-1"] {
        let once = slug_from_branch(sample);
        let twice = slug_from_branch(&once);
        assert_eq!(once, twice);
    }
}

#[test]
fn test_slug_trims_dashes_and_charset() {
    assert_eq!(slug_from_branch("/leading/and/trailing/"), "leading-and-trailing");
    assert_eq!(slug_from_branch("---"), "");
    assert_eq!(slug_from_branch("Ünïcode/bränch"), "Ünïcode-bränch");
    let s = slug_from_branch("spaces &*() stuff");
    assert!(s.chars().all(|c| c.is_alphanumeric() || c == '-' || c == '_'));
    assert!(!s.starts_with('-') && !s.ends_with('-'));
}

#[test]
fn test_find_worktree_by_branch_and_dir() {
    let worktrees = vec![
        wt("/repo", Some("main")),
        wt("/ws/feat-login", Some("feat/login")),
        wt("/ws/detached-one", None),
    ];
    let by_branch = find_worktree(&worktrees, "feat/login").unwrap();
    assert_eq!(by_branch.path, "/ws/feat-login");
    let by_dir = find_worktree(&worktrees, "detached-one").unwrap();
    assert_eq!(by_dir.path, "/ws/detached-one");
    assert!(find_worktree(&worktrees, "nope").is_none());
}

#[test]
fn test_worktree_name_fallbacks() {
    assert_eq!(wt("/ws/feat-login", Some("feat/login")).name(), "feat/login");
    assert_eq!(wt("/ws/detached-one", None).name(), "detached-one");
    assert_eq!(wt("/", None).name(), "unknown");
}

#[test]
fn test_path_file_name() {
    assert_eq!(path_file_name("/a/b/c"), Some("c".to_string()));
    assert_eq!(path_file_name("/a/b/"), Some("b".to_string()));
    assert_eq!(path_file_name("plain"), Some("plain".to_string()));
    assert_eq!(path_file_name("/"), None);
    assert_eq!(path_file_name(""), None);
}

#[test]
fn test_is_main_worktree() {
    let repo = GitRepo { root: "/repo".to_string(), common_dir: "/repo/.git".to_string() };
    assert!(wt("/repo", Some("main")).is_main_worktree(&repo));
    assert!(!wt("/ws/feat", Some("feat")).is_main_worktree(&repo));
}

#[test]
fn test_repo_from_parts() {
    let absolute = GitRepo::from_parts("/repo".to_string(), "/repo/.git");
    assert_eq!(absolute.common_dir, "/repo/.git");
    let relative = GitRepo::from_parts("/repo".to_string(), ".git");
    assert_eq!(relative.root, "/repo");
    assert_eq!(relative.common_dir, "/repo/.git");
}
