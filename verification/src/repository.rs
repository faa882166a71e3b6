//! Repository collection decisions: where the source root lies, which
//! directory a name or a pick stands for, and the guards around deleting
//! or creating a whole repository.
use crate::text::{
    join_path, lemma_seq_le_total, lemma_seq_le_trans, seq_le, starts_with, str_eq, str_le,
};
use crate::{GError, Subcommand};
use vstd::prelude::*;
use vstd::string::*;

verus! {

/// The source root: the configured override when one is set, under the
/// home directory otherwise.
pub fn get_src_root(config_root: Option<&str>, home: &str) -> (r: String)
    ensures
        match config_root {
            Some(v) => r@ == v@,
            None => r@ == home@ + "/src"@,
        },
{
    match config_root {
        Some(v) => v.to_owned(),
        None => crate::text::concat2(home, "/src"),
    }
}

/// Resolves which repository a call names: the pick when interactive —
/// failing with `NoSelection` when the picker returned nothing — else
/// the explicit name, else `MissingSelector`.
pub fn resolve_repo_selector(
    name: Option<String>,
    interactive: bool,
    pick: Option<String>,
) -> (r: Result<String, GError>)
    ensures
        interactive ==> match pick {
            Some(s) => r == Ok::<String, GError>(s),
            None => r == Err::<String, GError>(GError::NoSelection),
        },
        !interactive ==> match name {
            Some(s) => r == Ok::<String, GError>(s),
            None => r == Err::<String, GError>(GError::MissingSelector),
        },
{
    if interactive {
        crate::fzf::select(pick)
    } else {
        match name {
            Some(s) => Ok(s),
            None => Err(GError::MissingSelector),
        }
    }
}

/// The guard before reporting a switch target: the directory must exist.
pub fn switch_repo_check(target_exists: bool, path: String) -> (r: Result<String, GError>)
    ensures
        target_exists ==> r == Ok::<String, GError>(path),
        !target_exists ==> r == Err::<String, GError>(GError::RepositoryNotFound),
{
    if target_exists {
        Ok(path)
    } else {
        Err(GError::RepositoryNotFound)
    }
}

/// The guards before deleting a repository: the directory must exist and
/// must carry the version-control marker — never an arbitrary directory.
pub fn delete_repo_check(target_exists: bool, has_marker: bool) -> (r: Result<(), GError>)
    ensures
        !target_exists ==> r == Err::<(), GError>(GError::RepositoryNotFound),
        target_exists && !has_marker ==> r == Err::<(), GError>(
            GError::NotAVersionControlDirectory,
        ),
        target_exists && has_marker ==> r == Ok::<(), GError>(()),
{
    if !target_exists {
        Err(GError::RepositoryNotFound)
    } else if !has_marker {
        Err(GError::NotAVersionControlDirectory)
    } else {
        Ok(())
    }
}

/// The guard before creating a repository: the target must be fresh.
pub fn new_repo_check(target_exists: bool) -> (r: Result<(), GError>)
    ensures
        target_exists ==> r == Err::<(), GError>(GError::AlreadyExists),
        !target_exists ==> r == Ok::<(), GError>(()),
{
    if target_exists {
        Err(GError::AlreadyExists)
    } else {
        Ok(())
    }
}

/// How repository creation ends once the tool has initialized — or
/// failed to.
pub enum InitOutcome {
    /// The repository stands.
    Done,
    /// Initialization failed: the created directory is to be removed,
    /// best-effort, and the failure reported.
    CleanupAndFail(GError),
}

/// Reads the initialization outcome: on failure the directory that was
/// created for it is rolled back.
pub fn after_repo_init(ok: bool) -> (r: InitOutcome)
    ensures
        ok ==> r is Done,
        !ok ==> r == InitOutcome::CleanupAndFail(
            GError::ToolFailed { subcommand: Subcommand::Init },
        ),
{
    if ok {
        InitOutcome::Done
    } else {
        InitOutcome::CleanupAndFail(GError::ToolFailed { subcommand: Subcommand::Init })
    }
}

/// Whether a directory name is hidden: it starts with a dot. The
/// collection walk does not descend into hidden directories.
pub fn is_hidden_name(name: &str) -> (r: bool)
    ensures
        r == (name@.len() > 0 && name@[0] == '.'),
{
    if name.unicode_len() == 0 {
        false
    } else {
        name.get_char(0) == '.'
    }
}

/// `path` relative to `root`: the part after `root` and one separator
/// when `path` lies under it, empty when `path` is `root` itself, and
/// `path` unchanged otherwise.
pub open spec fn relative_spec(path: Seq<char>, root: Seq<char>) -> Seq<char> {
    if (root + seq!['/']).is_prefix_of(path) {
        path.skip(root.len() + 1 as int)
    } else if path == root {
        Seq::empty()
    } else {
        path
    }
}

/// A listing in lexicographic order.
pub open spec fn sorted_le(s: Seq<Seq<char>>) -> bool {
    forall|i: int, j: int| 0 <= i < j < s.len() ==> seq_le(s[i], s[j])
}

/// Sorts the collection listing: the result is ordered and holds exactly
/// the given paths.
pub fn sort_paths(v: &Vec<String>) -> (r: Vec<String>)
    ensures
        sorted_le(r.deep_view()),
        r.deep_view().to_multiset() == v.deep_view().to_multiset(),
{
    let ghost views = v.deep_view();
    let mut out: Vec<String> = Vec::new();
    let mut i: usize = 0;
    proof {
        broadcast use vstd::seq_lib::group_to_multiset_ensures;

        assert(views.take(0) =~= Seq::<Seq<char>>::empty());
        assert(out.deep_view() =~= Seq::<Seq<char>>::empty());
    }
    while i < v.len()
        invariant
            0 <= i <= v.len(),
            views == v.deep_view(),
            sorted_le(out.deep_view()),
            out.deep_view().to_multiset() == views.take(i as int).to_multiset(),
        decreases v.len() - i,
    {
        let x = v[i].clone();
        let ghost pre = out.deep_view();
        let mut k: usize = 0;
        while k < out.len()
            invariant
                0 <= k <= out.len(),
                pre == out.deep_view(),
                forall|t: int| 0 <= t < k ==> seq_le(pre[t], x@),
            ensures
                0 <= k <= out.len(),
                pre == out.deep_view(),
                forall|t: int| 0 <= t < k ==> seq_le(pre[t], x@),
                k < out.len() ==> !seq_le(pre[k as int], x@),
            decreases out.len() - k,
        {
            if !str_le(out[k].as_str(), x.as_str()) {
                break;
            }
            k = k + 1;
        }
        proof {
            if k < pre.len() {
                lemma_seq_le_total(pre[k as int], x@);
                assert(seq_le(x@, pre[k as int]));
            }
        }
        out.insert(k, x);
        proof {
            broadcast use vstd::seq_lib::group_to_multiset_ensures;

            pre.insert_ensures(k as int, views[i as int]);
            assert(out.deep_view() =~= pre.insert(k as int, views[i as int]));
            vstd::seq_lib::to_multiset_insert(pre, k as int, views[i as int]);
            assert(views.take(i + 1).drop_last() =~= views.take(i as int));
            assert(views.take(i + 1) =~= views.take(i as int).push(views[i as int]));
            assert(out.deep_view().to_multiset() =~= views.take(i + 1).to_multiset());
            let ov = out.deep_view();
            assert forall|s: int, t: int| 0 <= s < t < ov.len() implies seq_le(ov[s], ov[t]) by {
                if t < k {
                    assert(ov[s] == pre[s] && ov[t] == pre[t]);
                } else if t == k {
                    assert(ov[s] == pre[s]);
                    assert(seq_le(pre[s], x@));
                } else if s < k {
                    assert(ov[s] == pre[s] && ov[t] == pre[t - 1]);
                    assert(seq_le(pre[s], pre[t - 1]));
                } else if s == k {
                    assert(ov[s] == x@ && ov[t] == pre[t - 1]);
                    if t - 1 == k {
                        assert(seq_le(x@, pre[k as int]));
                    } else {
                        lemma_seq_le_trans(x@, pre[k as int], pre[t - 1]);
                    }
                } else {
                    assert(ov[s] == pre[s - 1] && ov[t] == pre[t - 1]);
                }
            }
        }
        i = i + 1;
    }
    proof {
        assert(views.take(v.len() as int) =~= views);
    }
    out
}

/// Computes `path` relative to `root`, as `relative_spec` describes it.
pub fn relative_to(path: &str, root: &str) -> (r: String)
    ensures
        r@ == relative_spec(path@, root@),
{
    let rooted = join_path(root, "");
    proof {
        reveal_strlit("");
        assert(rooted@ =~= root@ + seq!['/']);
    }
    if starts_with(path, rooted.as_str()) {
        let n = path.unicode_len();
        let k = rooted.as_str().unicode_len();
        let tail = path.substring_char(k, n);
        proof {
            assert(tail@ =~= path@.skip(root@.len() + 1 as int));
        }
        tail.to_owned()
    } else if str_eq(path, root) {
        let empty = String::new();
        proof {
            assert(empty@ =~= Seq::<char>::empty());
        }
        empty
    } else {
        path.to_owned()
    }
}

} // verus!
