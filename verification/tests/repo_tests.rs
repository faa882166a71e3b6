use sonic_git::git::{after_clone, clone_args, clone_target, default_branch_of};
use sonic_git::repo::RepoInfo;
use sonic_git::repository::{
    after_repo_init, delete_repo_check, get_src_root, is_hidden_name, new_repo_check,
    relative_to, resolve_repo_selector, sort_paths, switch_repo_check, InitOutcome,
};
use sonic_git::{GError, Subcommand};

fn strings(v: &[&str]) -> Vec<String> {
    v.iter().map(|s| s.to_string()).collect()
}

#[test]
fn test_get_worktree_base_default() {
    let base = RepoInfo::get_worktree_base(None, "/home/u");
    assert!(base.ends_with("src/.worktrees"));
}

#[test]
fn test_get_worktree_base_custom() {
    let base = RepoInfo::get_worktree_base(Some("/custom/path"), "/home/u");
    assert_eq!(base, "/custom/path");
}

#[test]
fn test_detect_assembles_lockstep_dirs() {
    let info = RepoInfo::detect(
        "/cwd/checkout".to_string(),
        "git@github.com:org/repo.git".to_string(),
        "/home/u",
        None,
    )
    .unwrap();
    assert_eq!(info.repo_root, "/cwd/checkout");
    assert_eq!(info.remote_url, "git@github.com:org/repo.git");
    assert_eq!(info.repo_path, "github.com/org/repo");
    assert_eq!(info.main_repo_dir, "/home/u/src/github.com/org/repo");
    assert_eq!(info.worktree_base, "/home/u/src/.worktrees/github.com/org/repo");
}

#[test]
fn test_detect_with_override_uses_it_verbatim() {
    let info = RepoInfo::detect(
        "/cwd".to_string(),
        "https://github.com/org/repo".to_string(),
        "/home/u",
        Some("/mnt/wt"),
    )
    .unwrap();
    assert_eq!(info.worktree_base, "/mnt/wt/github.com/org/repo");
}

#[test]
fn test_detect_rejects_bad_remote() {
    let r = RepoInfo::detect("/cwd".to_string(), "not-a-url".to_string(), "/home/u", None);
    assert!(matches!(r, Err(GError::InvalidUrl)));
}

#[test]
fn test_root_and_remote_outcomes() {
    assert_eq!(RepoInfo::git_root_outcome(Some("/repo/root\n")).unwrap(), "/repo/root");
    assert!(matches!(RepoInfo::git_root_outcome(None), Err(GError::NotARepository)));
    assert_eq!(
        RepoInfo::remote_url_outcome(Some("git@github.com:o/r.git\n")).unwrap(),
        "git@github.com:o/r.git"
    );
    assert!(matches!(RepoInfo::remote_url_outcome(None), Err(GError::NoRemote)));
}

#[test]
fn test_get_src_root() {
    assert_eq!(get_src_root(Some("/work/src"), "/home/u"), "/work/src");
    assert_eq!(get_src_root(None, "/home/u"), "/home/u/src");
}

#[test]
fn test_resolve_repo_selector() {
    assert_eq!(
        resolve_repo_selector(Some("n".to_string()), false, None).unwrap(),
        "n".to_string()
    );
    assert!(matches!(
        resolve_repo_selector(None, false, None),
        Err(GError::MissingSelector)
    ));
    assert_eq!(
        resolve_repo_selector(None, true, Some("picked".to_string())).unwrap(),
        "picked".to_string()
    );
    assert!(matches!(resolve_repo_selector(None, true, None), Err(GError::NoSelection)));
}

#[test]
fn test_switch_and_delete_repo_checks() {
    assert_eq!(switch_repo_check(true, "/p".to_string()).unwrap(), "/p");
    assert!(matches!(
        switch_repo_check(false, "/p".to_string()),
        Err(GError::RepositoryNotFound)
    ));
    assert!(delete_repo_check(true, true).is_ok());
    assert!(matches!(delete_repo_check(false, true), Err(GError::RepositoryNotFound)));
    assert!(matches!(delete_repo_check(true, false), Err(GError::NotAVersionControlDirectory)));
}

#[test]
fn test_new_repo_lifecycle() {
    assert!(matches!(new_repo_check(true), Err(GError::AlreadyExists)));
    assert!(new_repo_check(false).is_ok());
    assert!(matches!(after_repo_init(true), InitOutcome::Done));
    match after_repo_init(false) {
        InitOutcome::CleanupAndFail(e) => {
            assert!(matches!(e, GError::ToolFailed { subcommand: Subcommand::Init }));
        }
        InitOutcome::Done => panic!("a failed initialization must clean up"),
    }
}

#[test]
fn test_is_hidden_name() {
    assert!(is_hidden_name(".git"));
    assert!(is_hidden_name("."));
    assert!(!is_hidden_name("src"));
    assert!(!is_hidden_name(""));
}

#[test]
fn test_relative_to() {
    assert_eq!(relative_to("/home/u/src/github.com/o/r", "/home/u/src"), "github.com/o/r");
    assert_eq!(relative_to("/home/u/src", "/home/u/src"), "");
    assert_eq!(relative_to("/elsewhere/x", "/home/u/src"), "/elsewhere/x");
}

#[test]
fn test_sort_paths() {
    let v = strings(&["g.com/b/x", "a.org/z", "g.com/a", "a.org/z"]);
    let sorted = sort_paths(&v);
    assert_eq!(sorted, strings(&["a.org/z", "a.org/z", "g.com/a", "g.com/b/x"]));
    assert_eq!(sort_paths(&Vec::new()), Vec::<String>::new());
}

#[test]
fn test_clone_target_and_args() {
    let t = clone_target("https://github.com/org/repo.git", "/home/u").unwrap();
    assert_eq!(t, "/home/u/src/github.com/org/repo");
    assert!(matches!(clone_target("junk", "/home/u"), Err(GError::InvalidUrl)));
    assert_eq!(
        clone_args("https://g/o/r", "/home/u/src/g/o/r"),
        strings(&["clone", "https://g/o/r", "/home/u/src/g/o/r"])
    );
    assert!(after_clone(true).is_ok());
    assert!(matches!(
        after_clone(false),
        Err(GError::ToolFailed { subcommand: Subcommand::Clone })
    ));
}

#[test]
fn test_default_branch_of() {
    assert_eq!(default_branch_of(Some("main\n")), "main");
    assert_eq!(default_branch_of(None), "unknown");
}
