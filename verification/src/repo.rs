//! Repository context: the immutable value every operation works from,
//! assembled once per invocation from the repository root, the remote URL
//! and the environment.
use crate::path::{parse_repo_path, repo_path_of};
use crate::text::{concat3, join_path, trim, trim_spec};
use crate::GError;
use vstd::prelude::*;
use vstd::string::*;

verus! {

/// The context of one invocation: where the checkout is, where its
/// canonical home and its worktrees live.
pub struct RepoInfo {
    pub repo_root: String,
    pub remote_url: String,
    pub repo_path: String,
    pub main_repo_dir: String,
    pub worktree_base: String,
}

/// The model of a context value.
pub struct RepoInfoView {
    pub repo_root: Seq<char>,
    pub remote_url: Seq<char>,
    pub repo_path: Seq<char>,
    pub main_repo_dir: Seq<char>,
    pub worktree_base: Seq<char>,
}

impl View for RepoInfo {
    type V = RepoInfoView;

    open spec fn view(&self) -> RepoInfoView {
        RepoInfoView {
            repo_root: self.repo_root@,
            remote_url: self.remote_url@,
            repo_path: self.repo_path@,
            main_repo_dir: self.main_repo_dir@,
            worktree_base: self.worktree_base@,
        }
    }
}

/// The worktree root: the override verbatim when it is set, with no
/// further joining; under the home directory otherwise.
pub open spec fn worktree_root_of(overriding: Option<Seq<char>>, home: Seq<char>) -> Seq<char> {
    match overriding {
        Some(v) => v,
        None => home + "/src/.worktrees"@,
    }
}

impl RepoInfo {
    /// Reads the root-discovery outcome: the enclosing repository root,
    /// or `NotARepository` when the current directory is in none.
    pub fn git_root_outcome(output: Option<&str>) -> (r: Result<String, GError>)
        ensures
            match r {
                Ok(root) => output matches Some(s) && root@ == trim_spec(s@),
                Err(e) => output is None && e == GError::NotARepository,
            },
    {
        match output {
            Some(s) => Ok(trim(s)),
            None => Err(GError::NotARepository),
        }
    }

    /// Reads the remote-URL outcome: the `origin` URL, or `NoRemote` when
    /// the repository has none.
    pub fn remote_url_outcome(output: Option<&str>) -> (r: Result<String, GError>)
        ensures
            match r {
                Ok(url) => output matches Some(s) && url@ == trim_spec(s@),
                Err(e) => output is None && e == GError::NoRemote,
            },
    {
        match output {
            Some(s) => Ok(trim(s)),
            None => Err(GError::NoRemote),
        }
    }

    /// The worktree root, as `worktree_root_of` describes it.
    pub fn get_worktree_base(overriding: Option<&str>, home: &str) -> (r: String)
        ensures
            r@ == worktree_root_of(
                match overriding {
                    Some(v) => Some(v@),
                    None => None,
                },
                home@,
            ),
    {
        match overriding {
            Some(v) => v.to_owned(),
            None => crate::text::concat2(home, "/src/.worktrees"),
        }
    }

    /// Assembles the context: the repository path is derived once from
    /// the remote URL — failing with `InvalidUrl` exactly when the URL
    /// matches neither accepted shape — and that one path places both the
    /// main checkout directory and the worktree base, so the two stay in
    /// lock-step.
    pub fn detect(
        repo_root: String,
        remote_url: String,
        home: &str,
        worktree_root_override: Option<&str>,
    ) -> (r: Result<RepoInfo, GError>)
        ensures
            match r {
                Ok(info) => (repo_path_of(remote_url@) matches Some(p) && info@.repo_root
                    == repo_root@ && info@.remote_url == remote_url@ && info@.repo_path == p
                    && info@.main_repo_dir == home@ + "/src/"@ + p && info@.worktree_base
                    == worktree_root_of(
                    match worktree_root_override {
                        Some(v) => Some(v@),
                        None => None,
                    },
                    home@,
                ) + seq!['/'] + p),
                Err(e) => repo_path_of(remote_url@) is None && e == GError::InvalidUrl,
            },
    {
        let repo_path = match parse_repo_path(remote_url.as_str()) {
            Ok(p) => p,
            Err(e) => {
                return Err(e);
            },
        };
        let main_repo_dir = concat3(home, "/src/", repo_path.as_str());
        let root = Self::get_worktree_base(worktree_root_override, home);
        let worktree_base = join_path(root.as_str(), repo_path.as_str());
        Ok(RepoInfo { repo_root, remote_url, repo_path, main_repo_dir, worktree_base })
    }
}

} // verus!
