use sonic_git::worktree::{
    after_branch_rename, after_dir_move, after_prune, after_worktree_add, after_worktree_remove,
    check_branch_exists, create_worktree_plan, delete_mode, delete_worktree_plan, find_worktree,
    format_worktree_line, move_worktree_plan, parse_confirmation, selection_token, sibling_of,
    switch_lookup, switch_selector, worktree_delete_candidates, DeleteMode, MoveOutcome,
    SwitchMode, Worktree,
};
use sonic_git::{GError, Subcommand};

fn wt(path: &str, head: &str, branch: Option<&str>, bare: bool, locked: bool) -> Worktree {
    Worktree {
        path: path.to_string(),
        head_sha: head.to_string(),
        branch: branch.map(|b| b.to_string()),
        is_bare: bare,
        is_locked: locked,
    }
}

#[test]
fn test_parse_porcelain() {
    let input = "worktree /path/to/main\nHEAD a1b2c3d4\nbranch refs/heads/main\n\nworktree /path/to/feature-auth\nHEAD f6e5d4c3\nbranch refs/heads/feature-auth\n";

    let worktrees = Worktree::parse_porcelain(input);
    assert_eq!(worktrees.len(), 2);
    assert_eq!(worktrees[0].path, "/path/to/main");
    assert_eq!(worktrees[0].branch, Some("main".to_string()));
    assert_eq!(worktrees[0].head_sha, "a1b2c3d4");
    assert!(!worktrees[0].is_bare);
    assert!(!worktrees[0].is_locked);
    assert_eq!(worktrees[1].path, "/path/to/feature-auth");
    assert_eq!(worktrees[1].branch, Some("feature-auth".to_string()));
    assert_eq!(worktrees[1].head_sha, "f6e5d4c3");
    assert!(!worktrees[1].is_bare);
    assert!(!worktrees[1].is_locked);
}

#[test]
fn test_parse_porcelain_detached_head() {
    let input = "worktree /path/to/detached\nHEAD a1b2c3d4\n\n";

    let worktrees = Worktree::parse_porcelain(input);
    assert_eq!(worktrees.len(), 1);
    assert_eq!(worktrees[0].path, "/path/to/detached");
    assert_eq!(worktrees[0].branch, None);
    assert_eq!(worktrees[0].head_sha, "a1b2c3d4");
    assert!(!worktrees[0].is_bare);
    assert!(!worktrees[0].is_locked);
}

#[test]
fn test_parse_porcelain_bare() {
    let input = "worktree /path/to/bare\nHEAD a1b2c3d4\nbranch refs/heads/main\nbare\n\n";

    let worktrees = Worktree::parse_porcelain(input);
    assert_eq!(worktrees.len(), 1);
    assert_eq!(worktrees[0].path, "/path/to/bare");
    assert!(worktrees[0].is_bare);
}

#[test]
fn test_parse_porcelain_locked() {
    let input = "worktree /path/to/locked\nHEAD a1b2c3d4\nbranch refs/heads/main\nlocked\n\n";

    let worktrees = Worktree::parse_porcelain(input);
    assert_eq!(worktrees.len(), 1);
    assert_eq!(worktrees[0].path, "/path/to/locked");
    assert!(worktrees[0].is_locked);
}

#[test]
fn test_parse_porcelain_empty_listing() {
    let worktrees = Worktree::parse_porcelain("");
    assert_eq!(worktrees.len(), 0);
}

#[test]
fn test_parse_porcelain_trailing_blank_line_is_irrelevant() {
    let without = "worktree /a\nHEAD 1111\nbranch refs/heads/x";
    let with = "worktree /a\nHEAD 1111\nbranch refs/heads/x\n";
    let a = Worktree::parse_porcelain(without);
    let b = Worktree::parse_porcelain(with);
    assert_eq!(a.len(), b.len());
    assert_eq!(a[0].path, b[0].path);
    assert_eq!(a[0].head_sha, b[0].head_sha);
    assert_eq!(a[0].branch, b[0].branch);
}

#[test]
fn test_parse_porcelain_unknown_keys_ignored() {
    let input = "worktree /a\nHEAD 1111\ndetached\nprunable gitdir file points nowhere\n";
    let worktrees = Worktree::parse_porcelain(input);
    assert_eq!(worktrees.len(), 1);
    assert_eq!(worktrees[0].path, "/a");
    assert_eq!(worktrees[0].branch, None);
}

#[test]
fn test_find_worktree_exact_match_only() {
    let wts = vec![
        wt("/w/main", "aa", Some("main"), false, false),
        wt("/w/feat", "bb", Some("feat"), false, false),
    ];
    assert_eq!(find_worktree(&wts, "feat"), Some(1));
    assert_eq!(find_worktree(&wts, "fea"), None);
    assert_eq!(find_worktree(&wts, "featx"), None);
}

#[test]
fn test_switch_lookup_reports_path() {
    let wts = vec![
        wt("/w/main", "aa", Some("main"), false, false),
        wt("/w/feat", "bb", Some("feat"), false, false),
    ];
    assert_eq!(switch_lookup(&wts, "feat").unwrap(), "/w/feat");
    assert!(matches!(switch_lookup(&wts, "gone"), Err(GError::WorktreeNotFound)));
}

#[test]
fn test_check_branch_exists_local_precedence() {
    assert!(check_branch_exists(true, false));
    assert!(check_branch_exists(true, true));
    assert!(check_branch_exists(false, true));
    assert!(!check_branch_exists(false, false));
}

#[test]
fn test_create_worktree_plan_new_branch_with_base() {
    let plan = create_worktree_plan("/base", "feat", Some("develop"), false, false).unwrap();
    assert_eq!(plan.path, "/base/feat");
    assert_eq!(plan.args, vec!["worktree", "add", "-b", "feat", "/base/feat", "develop"]);
}

#[test]
fn test_create_worktree_plan_existing_branch_ignores_base() {
    let plan = create_worktree_plan("/base", "feat", Some("develop"), false, true).unwrap();
    assert_eq!(plan.args, vec!["worktree", "add", "/base/feat", "feat"]);
}

#[test]
fn test_create_worktree_plan_existing_directory() {
    let r = create_worktree_plan("/base", "feat", None, true, false);
    assert!(matches!(r, Err(GError::AlreadyExists)));
}

#[test]
fn test_after_worktree_add_failure_kind() {
    assert!(after_worktree_add(true).is_ok());
    assert!(matches!(
        after_worktree_add(false),
        Err(GError::ToolFailed { subcommand: Subcommand::WorktreeAdd })
    ));
}

#[test]
fn test_sibling_of() {
    assert_eq!(sibling_of("/w/repo/old", "/base", "new"), "/w/repo/new");
    assert_eq!(sibling_of("/old", "/base", "new"), "/new");
    assert_eq!(sibling_of("old", "/base", "new"), "new");
    assert_eq!(sibling_of("", "/base", "new"), "/base/new");
    assert_eq!(sibling_of("/", "/base", "new"), "/base/new");
}

#[test]
fn test_move_worktree_plan() {
    let wts = vec![
        wt("/w/repo/main", "aa", Some("main"), false, false),
        wt("/w/repo/old", "bb", Some("old"), false, false),
    ];
    let plan = move_worktree_plan(&wts, "old", "new", "/base").unwrap();
    assert_eq!(plan.old_branch, "old");
    assert_eq!(plan.new_branch, "new");
    assert_eq!(plan.old_path, "/w/repo/old");
    assert_eq!(plan.new_path, "/w/repo/new");

    assert!(matches!(
        move_worktree_plan(&wts, "absent", "new", "/base"),
        Err(GError::WorktreeNotFound)
    ));
}

#[test]
fn test_move_rollback_restores_branch_and_reports_move_failure() {
    let wts = vec![wt("/w/repo/old", "bb", Some("old"), false, false)];
    let plan = move_worktree_plan(&wts, "old", "new", "/base").unwrap();

    let move_args = after_branch_rename(&plan, true).unwrap();
    assert_eq!(move_args, vec!["worktree", "move", "/w/repo/old", "/w/repo/new"]);

    match after_dir_move(&plan, false) {
        MoveOutcome::RollBack { rename_args, error } => {
            assert_eq!(rename_args, vec!["branch", "-m", "new", "old"]);
            assert!(matches!(error, GError::ToolFailed { subcommand: Subcommand::WorktreeMove }));
        }
        MoveOutcome::Done => panic!("a failed directory move must roll back"),
    }
}

#[test]
fn test_move_steps_other_outcomes() {
    let wts = vec![wt("/w/repo/old", "bb", Some("old"), false, false)];
    let plan = move_worktree_plan(&wts, "old", "new", "/base").unwrap();
    assert!(matches!(
        after_branch_rename(&plan, false),
        Err(GError::ToolFailed { subcommand: Subcommand::BranchRename })
    ));
    assert!(matches!(after_dir_move(&plan, true), MoveOutcome::Done));
}

#[test]
fn test_worktree_delete_candidates_exclusions() {
    let wts = vec![
        wt("/w/bare", "aa", Some("main"), true, false),
        wt("/root", "bb", Some("main"), false, false),
        wt("/w/current", "cc", Some("cur"), false, false),
        wt("/w/feat", "dd", Some("feat"), false, false),
        wt("/w/detached", "ee", None, false, false),
    ];
    let cands = worktree_delete_candidates(&wts, "cur", "/root");
    let paths: Vec<&str> = cands.iter().map(|w| w.path.as_str()).collect();
    assert_eq!(paths, vec!["/w/feat", "/w/detached"]);
}

#[test]
fn test_delete_worktree_plan() {
    let wts = vec![
        wt("/w/bare", "aa", Some("bare-br"), true, false),
        wt("/w/feat", "bb", Some("feat"), false, false),
    ];
    let plan = delete_worktree_plan(&wts, "feat", false).unwrap();
    assert_eq!(plan.path, "/w/feat");
    assert_eq!(plan.args, vec!["worktree", "remove", "/w/feat"]);

    let forced = delete_worktree_plan(&wts, "feat", true).unwrap();
    assert_eq!(forced.args, vec!["worktree", "remove", "--force", "/w/feat"]);

    assert!(matches!(
        delete_worktree_plan(&wts, "bare-br", false),
        Err(GError::BareRepositoryProtected)
    ));
    assert!(matches!(delete_worktree_plan(&wts, "gone", false), Err(GError::WorktreeNotFound)));
}

#[test]
fn test_remove_then_prune_outcomes() {
    let prune = after_worktree_remove(true).unwrap();
    assert_eq!(prune, vec!["worktree", "prune"]);
    assert!(matches!(
        after_worktree_remove(false),
        Err(GError::ToolFailed { subcommand: Subcommand::WorktreeRemove })
    ));
    assert!(after_prune(true).is_ok());
    assert!(matches!(
        after_prune(false),
        Err(GError::ToolFailed { subcommand: Subcommand::WorktreePrune })
    ));
}

#[test]
fn test_delete_mode_resolution() {
    assert!(matches!(delete_mode(None, true, true), Ok(DeleteMode::All)));
    assert!(matches!(delete_mode(None, false, true), Ok(DeleteMode::Interactive)));
    match delete_mode(Some("b".to_string()), false, false) {
        Ok(DeleteMode::Named(b)) => assert_eq!(b, "b"),
        _ => panic!("a named branch must win when neither flag is set"),
    }
    assert!(matches!(delete_mode(None, false, false), Err(GError::MissingSelector)));
}

#[test]
fn test_switch_selector() {
    assert!(matches!(switch_selector(None, true, false, None), Ok(SwitchMode::Pick)));
    match switch_selector(Some("b".to_string()), false, false, None) {
        Ok(SwitchMode::Lookup(b)) => assert_eq!(b, "b"),
        _ => panic!("a named branch without flags must be an exact lookup"),
    }
    match switch_selector(Some("b".to_string()), false, true, Some("main".to_string())) {
        Ok(SwitchMode::Create(b, base)) => {
            assert_eq!(b, "b");
            assert_eq!(base, Some("main".to_string()));
        }
        _ => panic!("a named branch with create asked for must create"),
    }
    assert!(matches!(
        switch_selector(None, false, false, None),
        Err(GError::MissingSelector)
    ));
}

#[test]
fn test_selection_token() {
    assert_eq!(selection_token("feat   /w/feat", 0).unwrap(), "feat");
    assert_eq!(selection_token("feat   /w/feat", 1).unwrap(), "/w/feat");
    assert_eq!(selection_token("feat   /w/feat", 2), None);
    assert_eq!(selection_token("", 0), None);
}

#[test]
fn test_parse_confirmation() {
    assert!(parse_confirmation("y"));
    assert!(parse_confirmation("Y"));
    assert!(parse_confirmation(" y\n"));
    assert!(!parse_confirmation("n"));
    assert!(!parse_confirmation(""));
    assert!(!parse_confirmation("yes"));
}

#[test]
fn test_format_worktree_line_padding() {
    let line = format_worktree_line(&wt("/w/feat", "aa", Some("feat"), false, false));
    assert_eq!(line, format!("{:<20} {}", "feat", "/w/feat"));
    let detached = format_worktree_line(&wt("/w/x", "aa", None, false, false));
    assert_eq!(detached, format!("{:<20} {}", "(detached)", "/w/x"));
}
