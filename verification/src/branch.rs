//! Branch lifecycle decisions: list parsing, candidate selection for bulk
//! deletion, base-branch resolution, and the argument lists and outcome
//! readings of each branch operation.
use crate::text::{
    nonblank_of, split_on, split_on_char, str_eq, trim, trim_spec, vec_contains_str,
};
use crate::{GError, Subcommand};
use vstd::prelude::*;
use vstd::string::*;

verus! {

/// Every line trimmed of surrounding blanks.
pub open spec fn trim_each(ls: Seq<Seq<char>>) -> Seq<Seq<char>> {
    ls.map_values(|l: Seq<char>| trim_spec(l))
}

/// The branch names in a line-per-branch listing: each line trimmed,
/// blank lines dropped.
pub open spec fn branch_lines_of(s: Seq<char>) -> Seq<Seq<char>> {
    nonblank_of(trim_each(split_on(s, '\n')))
}

/// Parses a line-per-branch listing, as `branch_lines_of` describes it.
pub fn parse_branch_lines(s: &str) -> (r: Vec<String>)
    ensures
        r.deep_view() == branch_lines_of(s@),
{
    let lines = split_on_char(s, '\n');
    let ghost lviews = lines.deep_view();
    let mut out: Vec<String> = Vec::new();
    let mut i: usize = 0;
    proof {
        reveal(Seq::filter);
        assert(trim_each(lviews.take(0)) =~= Seq::<Seq<char>>::empty());
        assert(out.deep_view() =~= nonblank_of(trim_each(lviews.take(0))));
    }
    while i < lines.len()
        invariant
            0 <= i <= lines.len(),
            lviews == lines.deep_view(),
            out.deep_view() == nonblank_of(trim_each(lviews.take(i as int))),
        decreases lines.len() - i,
    {
        proof {
            reveal(Seq::filter);
            assert(trim_each(lviews.take(i + 1)).drop_last() =~= trim_each(lviews.take(i as int)));
            assert(trim_each(lviews.take(i + 1)).last() == trim_spec(lviews[i as int]));
        }
        let t = trim(lines[i].as_str());
        if t.as_str().unicode_len() > 0 {
            let ghost pre = out.deep_view();
            out.push(t);
            proof {
                assert(out.deep_view() =~= pre.push(trim_spec(lviews[i as int])));
            }
        }
        i = i + 1;
    }
    proof {
        assert(lviews.take(lines.len() as int) =~= lviews);
    }
    out
}

/// Reads the branch-listing outcome: the parsed names, or the listing
/// failure.
pub fn branches_outcome(output: Option<&str>) -> (r: Result<Vec<String>, GError>)
    ensures
        match r {
            Ok(bs) => output matches Some(s) && bs.deep_view() == branch_lines_of(s@),
            Err(e) => output is None && e == GError::ToolFailed {
                subcommand: Subcommand::BranchList,
            },
        },
{
    match output {
        Some(s) => Ok(parse_branch_lines(s)),
        None => Err(GError::ToolFailed { subcommand: Subcommand::BranchList }),
    }
}

/// The base branch: the configured default-branch name when one is set,
/// the literal `main` otherwise.
pub fn resolve_base_branch(configured: Option<&str>) -> (r: String)
    ensures
        match configured {
            Some(s) => if trim_spec(s@).len() > 0 {
                r@ == trim_spec(s@)
            } else {
                r@ == "main"@
            },
            None => r@ == "main"@,
        },
{
    match configured {
        Some(s) => {
            let t = trim(s);
            if t.as_str().unicode_len() > 0 {
                t
            } else {
                "main".to_owned()
            }
        },
        None => "main".to_owned(),
    }
}

/// The current branch: the query's answer trimmed, or the query's
/// failure.
pub fn current_branch_outcome(output: Option<&str>) -> (r: Result<String, GError>)
    ensures
        match r {
            Ok(b) => output matches Some(s) && b@ == trim_spec(s@),
            Err(e) => output is None && e == GError::ToolFailed {
                subcommand: Subcommand::RevParse,
            },
        },
{
    match output {
        Some(s) => Ok(trim(s)),
        None => Err(GError::ToolFailed { subcommand: Subcommand::RevParse }),
    }
}

/// The branches bulk deletion may touch: all but the current branch and
/// the base branch.
pub open spec fn deletable_branches(
    bs: Seq<Seq<char>>,
    current: Seq<char>,
    base: Seq<char>,
) -> Seq<Seq<char>> {
    bs.filter(|b: Seq<char>| b != current && b != base)
}

/// Law: bulk deletion candidates never include the current branch nor the
/// base branch, whatever the branch set holds.
pub proof fn lemma_candidates_exclude(bs: Seq<Seq<char>>, current: Seq<char>, base: Seq<char>)
    ensures
        !deletable_branches(bs, current, base).contains(current),
        !deletable_branches(bs, current, base).contains(base),
        forall|i: int|
            0 <= i < deletable_branches(bs, current, base).len() ==> deletable_branches(
                bs,
                current,
                base,
            )[i] != current && deletable_branches(bs, current, base)[i] != base,
    decreases bs.len(),
{
    reveal(Seq::filter);
    let out = deletable_branches(bs, current, base);
    if bs.len() > 0 {
        lemma_candidates_exclude(bs.drop_last(), current, base);
        let sub = deletable_branches(bs.drop_last(), current, base);
        assert forall|i: int| 0 <= i < out.len() implies out[i] != current && out[i] != base by {
            if i < sub.len() {
                assert(out[i] == sub[i]);
            }
        }
    }
    if out.contains(current) {
        let w = choose|w: int| 0 <= w < out.len() && out[w] == current;
        assert(out[w] != current);
    }
    if out.contains(base) {
        let w = choose|w: int| 0 <= w < out.len() && out[w] == base;
        assert(out[w] != base);
    }
}

/// Computes the bulk deletion candidates, as `deletable_branches`
/// describes them.
pub fn branch_delete_candidates(branches: &Vec<String>, current: &str, base: &str) -> (r: Vec<
    String,
>)
    ensures
        r.deep_view() == deletable_branches(branches.deep_view(), current@, base@),
{
    let ghost views = branches.deep_view();
    let mut out: Vec<String> = Vec::new();
    let mut i: usize = 0;
    proof {
        reveal(Seq::filter);
        assert(out.deep_view() =~= deletable_branches(views.take(0), current@, base@));
    }
    while i < branches.len()
        invariant
            0 <= i <= branches.len(),
            views == branches.deep_view(),
            out.deep_view() == deletable_branches(views.take(i as int), current@, base@),
        decreases branches.len() - i,
    {
        proof {
            reveal(Seq::filter);
            assert(views.take(i + 1).drop_last() =~= views.take(i as int));
            assert(views.take(i + 1).last() == views[i as int]);
        }
        let b = branches[i].as_str();
        if !str_eq(b, current) && !str_eq(b, base) {
            let ghost pre = out.deep_view();
            out.push(branches[i].clone());
            proof {
                assert(out.deep_view() =~= pre.push(views[i as int]));
            }
        }
        i = i + 1;
    }
    proof {
        assert(views.take(branches.len() as int) =~= views);
    }
    out
}

/// The elements of `bs` that `ms` also holds, in order.
pub open spec fn contained_in(bs: Seq<Seq<char>>, ms: Seq<Seq<char>>) -> Seq<Seq<char>> {
    bs.filter(|b: Seq<char>| ms.contains(b))
}

/// Keeps the branches that the merged listing also names.
pub fn filter_merged(branches: &Vec<String>, merged: &Vec<String>) -> (r: Vec<String>)
    ensures
        r.deep_view() == contained_in(branches.deep_view(), merged.deep_view()),
{
    let ghost views = branches.deep_view();
    let ghost ms = merged.deep_view();
    let mut out: Vec<String> = Vec::new();
    let mut i: usize = 0;
    proof {
        reveal(Seq::filter);
        assert(out.deep_view() =~= contained_in(views.take(0), ms));
    }
    while i < branches.len()
        invariant
            0 <= i <= branches.len(),
            views == branches.deep_view(),
            ms == merged.deep_view(),
            out.deep_view() == contained_in(views.take(i as int), ms),
        decreases branches.len() - i,
    {
        proof {
            reveal(Seq::filter);
            assert(views.take(i + 1).drop_last() =~= views.take(i as int));
            assert(views.take(i + 1).last() == views[i as int]);
        }
        if vec_contains_str(merged, branches[i].as_str()) {
            let ghost pre = out.deep_view();
            out.push(branches[i].clone());
            proof {
                assert(out.deep_view() =~= pre.push(views[i as int]));
            }
        }
        i = i + 1;
    }
    proof {
        assert(views.take(branches.len() as int) =~= views);
    }
    out
}

/// The non-forced interactive narrowing: when the merged listing could be
/// read, only branches already merged stay; when it could not, the
/// candidates stay as they are.
pub fn merged_narrowing(branches: &Vec<String>, output: Option<&str>) -> (r: Vec<String>)
    ensures
        match output {
            Some(s) => r.deep_view() == contained_in(branches.deep_view(), branch_lines_of(s@)),
            None => r.deep_view() == branches.deep_view(),
        },
{
    match output {
        Some(s) => {
            let merged = parse_branch_lines(s);
            filter_merged(branches, &merged)
        },
        None => {
            let mut out: Vec<String> = Vec::new();
            let mut i: usize = 0;
            proof {
                assert(out.deep_view() =~= branches.deep_view().take(0));
            }
            while i < branches.len()
                invariant
                    0 <= i <= branches.len(),
                    out.deep_view() == branches.deep_view().take(i as int),
                decreases branches.len() - i,
            {
                let ghost pre = out.deep_view();
                out.push(branches[i].clone());
                proof {
                    assert(out.deep_view() =~= pre.push(branches.deep_view()[i as int]));
                    assert(out.deep_view() =~= branches.deep_view().take(i + 1));
                }
                i = i + 1;
            }
            proof {
                assert(branches.deep_view().take(branches.len() as int) =~= branches.deep_view());
            }
            out
        },
    }
}

/// The deletion flag: `-D` discards unmerged work, `-d` refuses it.
pub fn delete_flag(force: bool) -> (r: String)
    ensures
        force ==> r@ == "-D"@,
        !force ==> r@ == "-d"@,
{
    if force {
        "-D".to_owned()
    } else {
        "-d".to_owned()
    }
}

/// The argument list of one branch deletion.
pub open spec fn branch_delete_args_of(force: bool, name: Seq<char>) -> Seq<Seq<char>> {
    if force {
        seq!["branch"@, "-D"@, name]
    } else {
        seq!["branch"@, "-d"@, name]
    }
}

/// Builds one branch-deletion invocation, as `branch_delete_args_of`
/// describes it.
pub fn branch_delete_args(force: bool, name: &str) -> (r: Vec<String>)
    ensures
        r.deep_view() == branch_delete_args_of(force, name@),
{
    let mut args: Vec<String> = Vec::new();
    args.push("branch".to_owned());
    args.push(delete_flag(force));
    args.push(name.to_owned());
    proof {
        assert(args.deep_view() =~= branch_delete_args_of(force, name@));
    }
    args
}

/// One branch deletion's outcome.
pub fn after_branch_delete(ok: bool) -> (r: Result<(), GError>)
    ensures
        ok ==> r == Ok::<(), GError>(()),
        !ok ==> r == Err::<(), GError>(GError::ToolFailed { subcommand: Subcommand::BranchDelete }),
{
    if ok {
        Ok(())
    } else {
        Err(GError::ToolFailed { subcommand: Subcommand::BranchDelete })
    }
}

/// The create-and-switch invocation for a new branch.
pub fn new_branch_args(name: &str) -> (r: Vec<String>)
    ensures
        r.deep_view() == seq!["switch"@, "-c"@, name@],
{
    let mut args: Vec<String> = Vec::new();
    args.push("switch".to_owned());
    args.push("-c".to_owned());
    args.push(name.to_owned());
    proof {
        assert(args.deep_view() =~= seq!["switch"@, "-c"@, name@]);
    }
    args
}

/// A branch creation's outcome.
pub fn after_new_branch(ok: bool) -> (r: Result<(), GError>)
    ensures
        ok ==> r == Ok::<(), GError>(()),
        !ok ==> r == Err::<(), GError>(GError::ToolFailed { subcommand: Subcommand::BranchCreate }),
{
    if ok {
        Ok(())
    } else {
        Err(GError::ToolFailed { subcommand: Subcommand::BranchCreate })
    }
}

/// The rename invocation for a branch.
pub fn branch_rename_args(old: &str, new: &str) -> (r: Vec<String>)
    ensures
        r.deep_view() == seq!["branch"@, "-m"@, old@, new@],
{
    let mut args: Vec<String> = Vec::new();
    args.push("branch".to_owned());
    args.push("-m".to_owned());
    args.push(old.to_owned());
    args.push(new.to_owned());
    proof {
        assert(args.deep_view() =~= seq!["branch"@, "-m"@, old@, new@]);
    }
    args
}

/// A branch rename's outcome: one external call, so no compensation.
pub fn after_branch_rename_only(ok: bool) -> (r: Result<(), GError>)
    ensures
        ok ==> r == Ok::<(), GError>(()),
        !ok ==> r == Err::<(), GError>(GError::ToolFailed { subcommand: Subcommand::BranchRename }),
{
    if ok {
        Ok(())
    } else {
        Err(GError::ToolFailed { subcommand: Subcommand::BranchRename })
    }
}

/// The switch invocation: the branch when one is named, then the caller's
/// extra tokens, passed through as they are.
pub fn switch_args(branch: Option<&str>, extra: &Vec<String>) -> (r: Vec<String>)
    ensures
        r.deep_view() == seq!["switch"@] + (match branch {
            Some(b) => seq![b@],
            None => Seq::<Seq<char>>::empty(),
        }) + extra.deep_view(),
{
    let ghost head = seq!["switch"@] + (match branch {
        Some(b) => seq![b@],
        None => Seq::<Seq<char>>::empty(),
    });
    let mut args: Vec<String> = Vec::new();
    args.push("switch".to_owned());
    match branch {
        Some(b) => {
            args.push(b.to_owned());
        },
        None => {},
    }
    proof {
        assert(args.deep_view() =~= head);
    }
    let mut i: usize = 0;
    while i < extra.len()
        invariant
            0 <= i <= extra.len(),
            args.deep_view() == head + extra.deep_view().take(i as int),
        decreases extra.len() - i,
    {
        let ghost pre = args.deep_view();
        args.push(extra[i].clone());
        proof {
            assert(args.deep_view() =~= pre.push(extra.deep_view()[i as int]));
            assert(args.deep_view() =~= head + extra.deep_view().take(i + 1));
        }
        i = i + 1;
    }
    proof {
        assert(extra.deep_view().take(extra.len() as int) =~= extra.deep_view());
    }
    args
}

/// A switch invocation's outcome.
pub fn after_switch(ok: bool) -> (r: Result<(), GError>)
    ensures
        ok ==> r == Ok::<(), GError>(()),
        !ok ==> r == Err::<(), GError>(GError::ToolFailed { subcommand: Subcommand::Switch }),
{
    if ok {
        Ok(())
    } else {
        Err(GError::ToolFailed { subcommand: Subcommand::Switch })
    }
}

/// The listing invocation: the caller's tokens after `branch`, passed
/// through as they are.
pub fn list_branches_args(options: &Vec<String>) -> (r: Vec<String>)
    ensures
        r.deep_view() == seq!["branch"@] + options.deep_view(),
{
    let ghost head = seq!["branch"@];
    let mut args: Vec<String> = Vec::new();
    args.push("branch".to_owned());
    proof {
        assert(args.deep_view() =~= head);
    }
    let mut i: usize = 0;
    while i < options.len()
        invariant
            0 <= i <= options.len(),
            args.deep_view() == head + options.deep_view().take(i as int),
        decreases options.len() - i,
    {
        let ghost pre = args.deep_view();
        args.push(options[i].clone());
        proof {
            assert(args.deep_view() =~= pre.push(options.deep_view()[i as int]));
            assert(args.deep_view() =~= head + options.deep_view().take(i + 1));
        }
        i = i + 1;
    }
    proof {
        assert(options.deep_view().take(options.len() as int) =~= options.deep_view());
    }
    args
}

/// The options the branch picker runs with.
pub fn branch_picker_options() -> (r: crate::fzf::FzfOptions)
    ensures
        r@.height == Some("40%"@),
        r@.reverse,
        r@.border,
        r@.prompt == Some("Select branch: "@),
        r@.preview == Some("git log {} -n 10 --oneline --color=always"@),
{
    crate::fzf::FzfOptions {
        height: Some("40%".to_owned()),
        reverse: true,
        border: true,
        prompt: Some("Select branch: ".to_owned()),
        preview: Some("git log {} -n 10 --oneline --color=always".to_owned()),
    }
}

} // verus!
