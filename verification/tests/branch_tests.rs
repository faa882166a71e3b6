use sonic_git::branch::{
    after_branch_delete, after_branch_rename_only, after_new_branch, after_switch,
    branch_delete_args, branch_delete_candidates, branch_rename_args, branches_outcome,
    current_branch_outcome, delete_flag, filter_merged, list_branches_args, merged_narrowing,
    new_branch_args, parse_branch_lines, resolve_base_branch, switch_args,
};
use sonic_git::{GError, Subcommand};

fn strings(v: &[&str]) -> Vec<String> {
    v.iter().map(|s| s.to_string()).collect()
}

#[test]
fn test_parse_branch_lines() {
    let out = parse_branch_lines("main\n  feature/x \n\ndev\n");
    assert_eq!(out, strings(&["main", "feature/x", "dev"]));
    assert_eq!(parse_branch_lines(""), Vec::<String>::new());
}

#[test]
fn test_branches_outcome() {
    assert_eq!(branches_outcome(Some("a\nb\n")).unwrap(), strings(&["a", "b"]));
    assert!(matches!(
        branches_outcome(None),
        Err(GError::ToolFailed { subcommand: Subcommand::BranchList })
    ));
}

#[test]
fn test_resolve_base_branch() {
    assert_eq!(resolve_base_branch(Some("develop\n")), "develop");
    assert_eq!(resolve_base_branch(Some("   \n")), "main");
    assert_eq!(resolve_base_branch(None), "main");
}

#[test]
fn test_current_branch_outcome() {
    assert_eq!(current_branch_outcome(Some("feature/x\n")).unwrap(), "feature/x");
    assert!(matches!(
        current_branch_outcome(None),
        Err(GError::ToolFailed { subcommand: Subcommand::RevParse })
    ));
}

#[test]
fn test_branch_delete_candidates_exclude_current_and_base() {
    let branches = strings(&["main", "dev", "feature", "hotfix"]);
    let out = branch_delete_candidates(&branches, "dev", "main");
    assert_eq!(out, strings(&["feature", "hotfix"]));
    assert!(!out.contains(&"dev".to_string()));
    assert!(!out.contains(&"main".to_string()));

    let only_protected = branch_delete_candidates(&strings(&["main", "dev"]), "dev", "main");
    assert!(only_protected.is_empty());
}

#[test]
fn test_filter_merged_keeps_order() {
    let branches = strings(&["a", "b", "c"]);
    let merged = strings(&["c", "a"]);
    assert_eq!(filter_merged(&branches, &merged), strings(&["a", "c"]));
}

#[test]
fn test_merged_narrowing() {
    let branches = strings(&["a", "b", "c"]);
    assert_eq!(merged_narrowing(&branches, Some("b\nc\n")), strings(&["b", "c"]));
    assert_eq!(merged_narrowing(&branches, None), branches);
}

#[test]
fn test_delete_flag_and_args() {
    assert_eq!(delete_flag(true), "-D");
    assert_eq!(delete_flag(false), "-d");
    assert_eq!(branch_delete_args(false, "feat"), strings(&["branch", "-d", "feat"]));
    assert_eq!(branch_delete_args(true, "feat"), strings(&["branch", "-D", "feat"]));
}

#[test]
fn test_branch_operation_outcomes() {
    assert!(after_branch_delete(true).is_ok());
    assert!(matches!(
        after_branch_delete(false),
        Err(GError::ToolFailed { subcommand: Subcommand::BranchDelete })
    ));
    assert!(after_new_branch(true).is_ok());
    assert!(matches!(
        after_new_branch(false),
        Err(GError::ToolFailed { subcommand: Subcommand::BranchCreate })
    ));
    assert!(after_branch_rename_only(true).is_ok());
    assert!(matches!(
        after_branch_rename_only(false),
        Err(GError::ToolFailed { subcommand: Subcommand::BranchRename })
    ));
    assert!(after_switch(true).is_ok());
    assert!(matches!(
        after_switch(false),
        Err(GError::ToolFailed { subcommand: Subcommand::Switch })
    ));
}

#[test]
fn test_new_branch_and_rename_args() {
    assert_eq!(new_branch_args("feat"), strings(&["switch", "-c", "feat"]));
    assert_eq!(branch_rename_args("old", "new"), strings(&["branch", "-m", "old", "new"]));
}

#[test]
fn test_switch_and_list_args() {
    assert_eq!(switch_args(Some("feat"), &strings(&["--detach"])), strings(&[
        "switch", "feat", "--detach"
    ]));
    assert_eq!(switch_args(None, &Vec::new()), strings(&["switch"]));
    assert_eq!(list_branches_args(&strings(&["-a", "-v"])), strings(&["branch", "-a", "-v"]));
}
