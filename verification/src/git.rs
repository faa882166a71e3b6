//! Cloning decisions: where a clone of a remote URL belongs, the
//! invocation that fetches it, and the readings of its outcomes.
use crate::path::{parse_repo_path, repo_path_of};
use crate::text::{concat3, trim, trim_spec};
use crate::{GError, Subcommand};
use vstd::prelude::*;
use vstd::string::*;

verus! {

/// The canonical home of a clone of `url`: its repository path under the
/// source root. Fails with `InvalidUrl` exactly when the URL matches
/// neither accepted shape.
pub fn clone_target(url: &str, home: &str) -> (r: Result<String, GError>)
    ensures
        match r {
            Ok(t) => (repo_path_of(url@) matches Some(p) && t@ == home@ + "/src/"@ + p),
            Err(e) => repo_path_of(url@) is None && e == GError::InvalidUrl,
        },
{
    match parse_repo_path(url) {
        Ok(p) => Ok(concat3(home, "/src/", p.as_str())),
        Err(e) => Err(e),
    }
}

/// The clone invocation.
pub fn clone_args(url: &str, target: &str) -> (r: Vec<String>)
    ensures
        r.deep_view() == seq!["clone"@, url@, target@],
{
    let mut args: Vec<String> = Vec::new();
    args.push("clone".to_owned());
    args.push(url.to_owned());
    args.push(target.to_owned());
    proof {
        assert(args.deep_view() =~= seq!["clone"@, url@, target@]);
    }
    args
}

/// A clone's outcome.
pub fn after_clone(ok: bool) -> (r: Result<(), GError>)
    ensures
        ok ==> r == Ok::<(), GError>(()),
        !ok ==> r == Err::<(), GError>(GError::ToolFailed { subcommand: Subcommand::Clone }),
{
    if ok {
        Ok(())
    } else {
        Err(GError::ToolFailed { subcommand: Subcommand::Clone })
    }
}

/// The branch a fresh clone checked out: the query's answer trimmed, or
/// `unknown` when the query failed.
pub fn default_branch_of(output: Option<&str>) -> (r: String)
    ensures
        match output {
            Some(s) => r@ == trim_spec(s@),
            None => r@ == "unknown"@,
        },
{
    match output {
        Some(s) => trim(s),
        None => "unknown".to_owned(),
    }
}

} // verus!
