use sonic_git::path::parse_repo_path;
use sonic_git::GError;

#[test]
fn test_parse_https_url() {
    let url = "https://github.com/poi2/my-project.git";
    let result = parse_repo_path(url).unwrap();
    assert_eq!(result, "github.com/poi2/my-project");
}

#[test]
fn test_parse_https_url_without_git_suffix() {
    let url = "https://github.com/poi2/my-project";
    let result = parse_repo_path(url).unwrap();
    assert_eq!(result, "github.com/poi2/my-project");
}

#[test]
fn test_parse_ssh_url() {
    let url = "git@github.com:poi2/my-project.git";
    let result = parse_repo_path(url).unwrap();
    assert_eq!(result, "github.com/poi2/my-project");
}

#[test]
fn test_parse_ssh_url_without_git_suffix() {
    let url = "git@github.com:poi2/my-project";
    let result = parse_repo_path(url).unwrap();
    assert_eq!(result, "github.com/poi2/my-project");
}

#[test]
fn test_parse_gitlab_url() {
    let url = "https://gitlab.com/team/project.git";
    let result = parse_repo_path(url).unwrap();
    assert_eq!(result, "gitlab.com/team/project");
}

#[test]
fn test_parse_invalid_url() {
    let url = "invalid-url";
    let result = parse_repo_path(url);
    assert!(result.is_err());
}

#[test]
fn test_invalid_url_kind() {
    assert!(matches!(parse_repo_path("invalid-url"), Err(GError::InvalidUrl)));
    assert!(matches!(parse_repo_path(""), Err(GError::InvalidUrl)));
    assert!(matches!(parse_repo_path("https://hostonly"), Err(GError::InvalidUrl)));
    assert!(matches!(parse_repo_path("git@host-no-colon"), Err(GError::InvalidUrl)));
}

#[test]
fn test_suffix_and_bare_urls_agree() {
    let with_suffix = parse_repo_path("https://github.com/org/repo.git").unwrap();
    let without_suffix = parse_repo_path("https://github.com/org/repo").unwrap();
    assert_eq!(with_suffix, without_suffix);
    assert_eq!(with_suffix, "github.com/org/repo");
}

#[test]
fn test_ssh_url_exact_value() {
    let result = parse_repo_path("git@github.com:org/repo.git").unwrap();
    assert_eq!(result, "github.com/org/repo");
}

#[test]
fn test_reembedded_derivation_is_idempotent() {
    let first = parse_repo_path("https://github.com/org/repo.git").unwrap();
    let synthetic = format!("https://{}", first);
    let second = parse_repo_path(&synthetic).unwrap();
    assert_eq!(second, first);

    let first = parse_repo_path("git@gitlab.com:team/project").unwrap();
    let synthetic = format!("https://{}", first);
    let second = parse_repo_path(&synthetic).unwrap();
    assert_eq!(second, first);
}

#[test]
fn test_deep_org_paths_kept() {
    let result = parse_repo_path("https://gitlab.com/group/subgroup/project.git").unwrap();
    assert_eq!(result, "gitlab.com/group/subgroup/project");
}

#[test]
fn test_single_suffix_stripped() {
    let result = parse_repo_path("https://github.com/org/repo.git.git").unwrap();
    assert_eq!(result, "github.com/org/repo.git");
}
