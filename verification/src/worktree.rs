//! Worktree registry parser and worktree lifecycle decisions.
//!
//! The parser turns the external tool's machine-readable worktree listing
//! into typed records. The listing is a sequence of line-based records
//! separated by blank lines; each line is `key[ value]`. Recognized keys:
//! `worktree` (starts a record), `HEAD`, `branch`, `bare`, `locked`;
//! unrecognized keys are ignored.
use crate::text::{find_char, idx_of, split_on, split_on_char, starts_with, str_eq};
use crate::{GError, Subcommand};
use vstd::prelude::*;
use vstd::string::*;

verus! {

/// One worktree as the external tool reports it.
pub struct Worktree {
    pub path: String,
    pub head_sha: String,
    pub branch: Option<String>,
    pub is_bare: bool,
    pub is_locked: bool,
}

/// The mathematical model of a worktree record.
pub struct WorktreeView {
    pub path: Seq<char>,
    pub head_sha: Seq<char>,
    pub branch: Option<Seq<char>>,
    pub is_bare: bool,
    pub is_locked: bool,
}

impl View for Worktree {
    type V = WorktreeView;

    open spec fn view(&self) -> WorktreeView {
        WorktreeView {
            path: self.path@,
            head_sha: self.head_sha@,
            branch: match self.branch {
                Some(b) => Some(b@),
                None => None,
            },
            is_bare: self.is_bare,
            is_locked: self.is_locked,
        }
    }
}

impl DeepView for Worktree {
    type V = WorktreeView;

    open spec fn deep_view(&self) -> WorktreeView {
        self.view()
    }
}

/// An in-progress record while the listing is walked.
pub struct WorktreeBuilder {
    pub path: String,
    pub head_sha: String,
    pub branch: Option<String>,
    pub is_bare: bool,
    pub is_locked: bool,
}

impl View for WorktreeBuilder {
    type V = WorktreeView;

    open spec fn view(&self) -> WorktreeView {
        WorktreeView {
            path: self.path@,
            head_sha: self.head_sha@,
            branch: match self.branch {
                Some(b) => Some(b@),
                None => None,
            },
            is_bare: self.is_bare,
            is_locked: self.is_locked,
        }
    }
}

impl WorktreeBuilder {
    /// A fresh record for the given path: no commit, detached, no flags.
    pub fn new(path: String) -> (r: WorktreeBuilder)
        ensures
            r@ == new_record(path@),
    {
        WorktreeBuilder {
            path,
            head_sha: String::new(),
            branch: None,
            is_bare: false,
            is_locked: false,
        }
    }

    /// Finishes the record.
    pub fn build(self) -> (r: Worktree)
        ensures
            r@ == self@,
    {
        Worktree {
            path: self.path,
            head_sha: self.head_sha,
            branch: self.branch,
            is_bare: self.is_bare,
            is_locked: self.is_locked,
        }
    }
}

/// The model of a record freshly started for `path`.
pub open spec fn new_record(path: Seq<char>) -> WorktreeView {
    WorktreeView { path, head_sha: Seq::empty(), branch: None, is_bare: false, is_locked: false }
}

/// The key of a listing line: everything before the first blank, or the
/// whole line when it has none.
pub open spec fn line_key(line: Seq<char>) -> Seq<char> {
    line.take(idx_of(line, ' '))
}

/// The value of a listing line: everything after the first blank, or empty
/// when it has none.
pub open spec fn line_value(line: Seq<char>) -> Seq<char> {
    if idx_of(line, ' ') < line.len() {
        line.skip(idx_of(line, ' ') + 1)
    } else {
        Seq::empty()
    }
}

/// A branch value with the ref-namespace prefix removed: the short name.
pub open spec fn short_branch(value: Seq<char>) -> Seq<char> {
    let pre = "refs/heads/"@;
    if pre.is_prefix_of(value) {
        value.skip(pre.len() as int)
    } else {
        value
    }
}

/// One step of the record walk: how a single line changes the finished
/// records and the record in progress.
pub open spec fn wt_step(
    acc: Seq<WorktreeView>,
    cur: Option<WorktreeView>,
    line: Seq<char>,
) -> (Seq<WorktreeView>, Option<WorktreeView>) {
    if line.len() == 0 {
        match cur {
            Some(b) => (acc.push(b), None),
            None => (acc, None),
        }
    } else {
        let key = line_key(line);
        let value = line_value(line);
        if key == "worktree"@ {
            (acc, Some(new_record(value)))
        } else {
            match cur {
                None => (acc, None),
                Some(b) => if key == "HEAD"@ {
                    (
                        acc,
                        Some(
                            WorktreeView {
                                path: b.path,
                                head_sha: value,
                                branch: b.branch,
                                is_bare: b.is_bare,
                                is_locked: b.is_locked,
                            },
                        ),
                    )
                } else if key == "branch"@ {
                    (
                        acc,
                        Some(
                            WorktreeView {
                                path: b.path,
                                head_sha: b.head_sha,
                                branch: Some(short_branch(value)),
                                is_bare: b.is_bare,
                                is_locked: b.is_locked,
                            },
                        ),
                    )
                } else if key == "bare"@ {
                    (
                        acc,
                        Some(
                            WorktreeView {
                                path: b.path,
                                head_sha: b.head_sha,
                                branch: b.branch,
                                is_bare: true,
                                is_locked: b.is_locked,
                            },
                        ),
                    )
                } else if key == "locked"@ {
                    (
                        acc,
                        Some(
                            WorktreeView {
                                path: b.path,
                                head_sha: b.head_sha,
                                branch: b.branch,
                                is_bare: b.is_bare,
                                is_locked: true,
                            },
                        ),
                    )
                } else {
                    (acc, Some(b))
                },
            }
        }
    }
}

/// The record walk over a sequence of lines, flushing the record still in
/// progress when the lines run out.
pub open spec fn wt_run(
    lines: Seq<Seq<char>>,
    acc: Seq<WorktreeView>,
    cur: Option<WorktreeView>,
) -> Seq<WorktreeView>
    decreases lines.len(),
{
    if lines.len() == 0 {
        match cur {
            Some(b) => acc.push(b),
            None => acc,
        }
    } else {
        let next = wt_step(acc, cur, lines.first());
        wt_run(lines.drop_first(), next.0, next.1)
    }
}

/// The records of a whole listing.
pub open spec fn parse_porcelain_spec(s: Seq<char>) -> Seq<WorktreeView> {
    wt_run(split_on(s, '\n'), Seq::empty(), None)
}

impl Worktree {
    /// Parses the machine-readable worktree listing, exactly as
    /// `parse_porcelain_spec` describes it: records in input order, a
    /// record with no `branch` line left detached, flags set only by their
    /// lines, and the last in-progress record flushed even without a
    /// trailing blank line.
    pub fn parse_porcelain(output: &str) -> (r: Vec<Worktree>)
        ensures
            r.deep_view() == parse_porcelain_spec(output@),
    {
        let lines = split_on_char(output, '\n');
        let ghost lviews = lines.deep_view();
        let mut acc: Vec<Worktree> = Vec::new();
        let mut cur: Option<WorktreeBuilder> = None;
        let mut i: usize = 0;
        proof {
            assert(lviews.skip(0) =~= lviews);
            assert(acc.deep_view() =~= Seq::<WorktreeView>::empty());
        }
        while i < lines.len()
            invariant
                0 <= i <= lines.len(),
                lviews == lines.deep_view(),
                wt_run(lviews.skip(i as int), acc.deep_view(), opt_view(cur)) == wt_run(
                    lviews,
                    Seq::empty(),
                    None,
                ),
            decreases lines.len() - i,
        {
            proof {
                assert(lviews.skip(i as int).first() == lviews[i as int]);
                assert(lviews.skip(i as int).drop_first() =~= lviews.skip(i + 1));
            }
            let ghost pre_acc = acc.deep_view();
            let ghost pre_cur = opt_view(cur);
            let ghost line = lviews[i as int];
            let l = lines[i].as_str();
            if l.unicode_len() == 0 {
                match cur {
                    Some(b) => {
                        acc.push(b.build());
                        cur = None;
                        proof {
                            assert(acc.deep_view() =~= pre_acc.push(pre_cur->0));
                        }
                    },
                    None => {
                        cur = None;
                    },
                }
            } else {
                let n = l.unicode_len();
                let sp = find_char(l, ' ');
                proof {
                    crate::text::lemma_idx_of(l@, ' ');
                    assert(l@ == line);
                }
                let key = l.substring_char(0, sp);
                proof {
                    assert(key@ =~= line_key(line));
                }
                let value: String = if sp < n {
                    let v = l.substring_char(sp + 1, n);
                    proof {
                        assert(v@ =~= line_value(line));
                    }
                    v.to_owned()
                } else {
                    let v = String::new();
                    proof {
                        assert(v@ =~= line_value(line));
                    }
                    v
                };
                if str_eq(key, "worktree") {
                    cur = Some(WorktreeBuilder::new(value));
                } else if str_eq(key, "HEAD") {
                    cur = match cur {
                        Some(b) => Some(
                            WorktreeBuilder {
                                path: b.path,
                                head_sha: value,
                                branch: b.branch,
                                is_bare: b.is_bare,
                                is_locked: b.is_locked,
                            },
                        ),
                        None => None,
                    };
                } else if str_eq(key, "branch") {
                    let pre = "refs/heads/";
                    let short: String = if starts_with(value.as_str(), pre) {
                        let plen = pre.unicode_len();
                        let s = value.as_str().substring_char(plen, value.as_str().unicode_len());
                        proof {
                            assert(s@ =~= short_branch(value@));
                        }
                        s.to_owned()
                    } else {
                        value
                    };
                    cur = match cur {
                        Some(b) => Some(
                            WorktreeBuilder {
                                path: b.path,
                                head_sha: b.head_sha,
                                branch: Some(short),
                                is_bare: b.is_bare,
                                is_locked: b.is_locked,
                            },
                        ),
                        None => None,
                    };
                } else if str_eq(key, "bare") {
                    cur = match cur {
                        Some(b) => Some(
                            WorktreeBuilder {
                                path: b.path,
                                head_sha: b.head_sha,
                                branch: b.branch,
                                is_bare: true,
                                is_locked: b.is_locked,
                            },
                        ),
                        None => None,
                    };
                } else if str_eq(key, "locked") {
                    cur = match cur {
                        Some(b) => Some(
                            WorktreeBuilder {
                                path: b.path,
                                head_sha: b.head_sha,
                                branch: b.branch,
                                is_bare: b.is_bare,
                                is_locked: true,
                            },
                        ),
                        None => None,
                    };
                }
                proof {
                    assert((acc.deep_view(), opt_view(cur)) == wt_step(pre_acc, pre_cur, line));
                }
            }
            i = i + 1;
        }
        proof {
            assert(lviews.skip(lines.len() as int) =~= Seq::<Seq<char>>::empty());
        }
        match cur {
            Some(b) => {
                let ghost pre_acc = acc.deep_view();
                acc.push(b.build());
                proof {
                    assert(acc.deep_view() =~= pre_acc.push(b@));
                }
            },
            None => {},
        }
        acc
    }
}

/// The model of a record in progress.
pub open spec fn opt_view(cur: Option<WorktreeBuilder>) -> Option<WorktreeView> {
    match cur {
        Some(b) => Some(b@),
        None => None,
    }
}

proof fn lemma_run_push_blank(
    lines: Seq<Seq<char>>,
    acc: Seq<WorktreeView>,
    cur: Option<WorktreeView>,
)
    ensures
        wt_run(lines.push(Seq::empty()), acc, cur) == wt_run(lines, acc, cur),
    decreases lines.len(),
{
    let blank = Seq::<char>::empty();
    if lines.len() == 0 {
        reveal_with_fuel(wt_run, 3);
        assert(lines.push(blank).first() == blank);
        assert(lines.push(blank).drop_first() =~= Seq::<Seq<char>>::empty());
    } else {
        assert(lines.push(blank).first() == lines.first());
        assert(lines.push(blank).drop_first() =~= lines.drop_first().push(blank));
        let next = wt_step(acc, cur, lines.first());
        lemma_run_push_blank(lines.drop_first(), next.0, next.1);
    }
}

/// Law: the parse is the same whether or not the input ends with a
/// trailing blank line.
pub proof fn lemma_trailing_blank_line(s: Seq<char>)
    ensures
        parse_porcelain_spec(s.push('\n')) == parse_porcelain_spec(s),
{
    assert(s.push('\n').drop_last() =~= s);
    lemma_run_push_blank(split_on(s, '\n'), Seq::empty(), None);
}

/// Whether some line of `lines` carries the key `key`.
pub open spec fn has_key_line(lines: Seq<Seq<char>>, key: Seq<char>) -> bool {
    exists|i: int| 0 <= i < lines.len() && lines[i].len() > 0 && line_key(lines[i]) == key
}

proof fn lemma_run_no_branch(
    lines: Seq<Seq<char>>,
    acc: Seq<WorktreeView>,
    cur: Option<WorktreeView>,
)
    requires
        !has_key_line(lines, "branch"@),
        forall|k: int| 0 <= k < acc.len() ==> acc[k].branch is None,
        cur is Some ==> cur->0.branch is None,
    ensures
        forall|k: int|
            0 <= k < wt_run(lines, acc, cur).len() ==> wt_run(lines, acc, cur)[k].branch is None,
    decreases lines.len(),
{
    if lines.len() > 0 {
        let next = wt_step(acc, cur, lines.first());
        assert(!(lines[0].len() > 0 && line_key(lines[0]) == "branch"@));
        assert forall|i: int|
            0 <= i < lines.drop_first().len() implies !(lines.drop_first()[i].len() > 0
            && line_key(lines.drop_first()[i]) == "branch"@) by {
            assert(lines.drop_first()[i] == lines[i + 1]);
        }
        lemma_run_no_branch(lines.drop_first(), next.0, next.1);
    }
}

/// Law: a listing without a `branch` line yields only detached records,
/// never an empty branch name.
pub proof fn lemma_no_branch_line_detached(s: Seq<char>)
    requires
        !has_key_line(split_on(s, '\n'), "branch"@),
    ensures
        forall|k: int|
            0 <= k < parse_porcelain_spec(s).len() ==> parse_porcelain_spec(s)[k].branch is None,
{
    lemma_run_no_branch(split_on(s, '\n'), Seq::empty(), None);
}

/// Whether line `l` is a `branch` line carrying the short name `b`.
pub open spec fn is_branch_line_for(l: Seq<char>, b: Seq<char>) -> bool {
    l.len() > 0 && line_key(l) == "branch"@ && short_branch(line_value(l)) == b
}

proof fn lemma_run_branch_provenance(
    lines: Seq<Seq<char>>,
    acc: Seq<WorktreeView>,
    cur: Option<WorktreeView>,
)
    ensures
        forall|k: int|
            #![trigger wt_run(lines, acc, cur)[k]]
            0 <= k < wt_run(lines, acc, cur).len() && wt_run(lines, acc, cur)[k].branch is Some
                ==> (exists|i: int|
                0 <= i < lines.len() && is_branch_line_for(
                    lines[i],
                    wt_run(lines, acc, cur)[k].branch->0,
                )) || (exists|k2: int|
                0 <= k2 < acc.len() && acc[k2].branch == wt_run(lines, acc, cur)[k].branch) || (
            cur matches Some(c) && c.branch == wt_run(lines, acc, cur)[k].branch),
    decreases lines.len(),
{
    if lines.len() == 0 {
    } else {
        let next = wt_step(acc, cur, lines.first());
        let run = wt_run(lines, acc, cur);
        let sub = wt_run(lines.drop_first(), next.0, next.1);
        lemma_run_branch_provenance(lines.drop_first(), next.0, next.1);
        assert forall|k: int|
            0 <= k < run.len() && #[trigger] run[k].branch is Some implies (exists|i: int|
            0 <= i < lines.len() && is_branch_line_for(lines[i], run[k].branch->0)) || (exists|
        k2: int|
            0 <= k2 < acc.len() && acc[k2].branch == run[k].branch) || (cur matches Some(c)
            && c.branch == run[k].branch) by {
            let b = run[k].branch->0;
            assert(sub == run);
            assert(sub[k].branch is Some);
            if exists|i: int|
                0 <= i < lines.drop_first().len() && is_branch_line_for(
                    lines.drop_first()[i],
                    b,
                ) {
                let i = choose|i: int|
                    0 <= i < lines.drop_first().len() && is_branch_line_for(
                        lines.drop_first()[i],
                        b,
                    );
                assert(lines[i + 1] == lines.drop_first()[i]);
                assert(is_branch_line_for(lines[i + 1], b));
            } else if exists|k2: int|
                0 <= k2 < next.0.len() && next.0[k2].branch == run[k].branch {
                let k2 = choose|k2: int|
                    0 <= k2 < next.0.len() && next.0[k2].branch == run[k].branch;
                if k2 >= acc.len() {
                    assert(next.0[k2].branch == run[k].branch);
                }
            } else {
                assert(next.1 is Some && next.1->0.branch == run[k].branch);
                let l0 = lines.first();
                if l0.len() == 0 {
                    assert(false);
                } else if line_key(l0) == "worktree"@ {
                    assert(next.1->0.branch is None);
                    assert(false);
                } else if cur is None {
                    assert(false);
                } else if line_key(l0) == "branch"@ {
                    reveal_strlit("HEAD");
                    reveal_strlit("branch");
                    assert("HEAD"@.len() == 4 && "branch"@.len() == 6);
                    assert(next.1->0.branch == Some(short_branch(line_value(l0))));
                    assert(is_branch_line_for(lines[0], b));
                } else {
                    assert(next.1->0.branch == cur->0.branch);
                }
            }
        }
    }
}

/// Law: a parsed branch name is never invented — every record's branch
/// name, the empty one included, was carried by some `branch` line of
/// the listing, so a record lacking one stays detached.
pub proof fn lemma_branch_names_from_branch_lines(s: Seq<char>)
    ensures
        forall|k: int|
            #![trigger parse_porcelain_spec(s)[k]]
            0 <= k < parse_porcelain_spec(s).len() && parse_porcelain_spec(s)[k].branch is Some
                ==> exists|i: int|
                0 <= i < split_on(s, '\n').len() && is_branch_line_for(
                    split_on(s, '\n')[i],
                    parse_porcelain_spec(s)[k].branch->0,
                ),
{
    lemma_run_branch_provenance(split_on(s, '\n'), Seq::empty(), None);
}

proof fn lemma_run_no_bare(
    lines: Seq<Seq<char>>,
    acc: Seq<WorktreeView>,
    cur: Option<WorktreeView>,
)
    requires
        !has_key_line(lines, "bare"@),
        forall|k: int| 0 <= k < acc.len() ==> !acc[k].is_bare,
        cur is Some ==> !cur->0.is_bare,
    ensures
        forall|k: int|
            0 <= k < wt_run(lines, acc, cur).len() ==> !wt_run(lines, acc, cur)[k].is_bare,
    decreases lines.len(),
{
    if lines.len() > 0 {
        let next = wt_step(acc, cur, lines.first());
        assert(!(lines[0].len() > 0 && line_key(lines[0]) == "bare"@));
        assert forall|i: int|
            0 <= i < lines.drop_first().len() implies !(lines.drop_first()[i].len() > 0
            && line_key(lines.drop_first()[i]) == "bare"@) by {
            assert(lines.drop_first()[i] == lines[i + 1]);
        }
        lemma_run_no_bare(lines.drop_first(), next.0, next.1);
    }
}

/// Law: a listing without a `bare` line yields no bare record.
pub proof fn lemma_no_bare_line(s: Seq<char>)
    requires
        !has_key_line(split_on(s, '\n'), "bare"@),
    ensures
        forall|k: int|
            0 <= k < parse_porcelain_spec(s).len() ==> !parse_porcelain_spec(s)[k].is_bare,
{
    lemma_run_no_bare(split_on(s, '\n'), Seq::empty(), None);
}

proof fn lemma_run_no_locked(
    lines: Seq<Seq<char>>,
    acc: Seq<WorktreeView>,
    cur: Option<WorktreeView>,
)
    requires
        !has_key_line(lines, "locked"@),
        forall|k: int| 0 <= k < acc.len() ==> !acc[k].is_locked,
        cur is Some ==> !cur->0.is_locked,
    ensures
        forall|k: int|
            0 <= k < wt_run(lines, acc, cur).len() ==> !wt_run(lines, acc, cur)[k].is_locked,
    decreases lines.len(),
{
    if lines.len() > 0 {
        let next = wt_step(acc, cur, lines.first());
        assert(!(lines[0].len() > 0 && line_key(lines[0]) == "locked"@));
        assert forall|i: int|
            0 <= i < lines.drop_first().len() implies !(lines.drop_first()[i].len() > 0
            && line_key(lines.drop_first()[i]) == "locked"@) by {
            assert(lines.drop_first()[i] == lines[i + 1]);
        }
        lemma_run_no_locked(lines.drop_first(), next.0, next.1);
    }
}

/// Law: a listing without a `locked` line yields no locked record.
pub proof fn lemma_no_locked_line(s: Seq<char>)
    requires
        !has_key_line(split_on(s, '\n'), "locked"@),
    ensures
        forall|k: int|
            0 <= k < parse_porcelain_spec(s).len() ==> !parse_porcelain_spec(s)[k].is_locked,
{
    lemma_run_no_locked(split_on(s, '\n'), Seq::empty(), None);
}

impl Clone for Worktree {
    /// A field-for-field copy.
    fn clone(&self) -> (r: Self)
        ensures
            r@ == self@,
    {
        Worktree {
            path: self.path.clone(),
            head_sha: self.head_sha.clone(),
            branch: match &self.branch {
                Some(b) => Some(b.clone()),
                None => None,
            },
            is_bare: self.is_bare,
            is_locked: self.is_locked,
        }
    }
}

/// Index of the first worktree checked out on `branch`: an exact match
/// against the short branch name, never fuzzy.
pub fn find_worktree(wts: &Vec<Worktree>, branch: &str) -> (r: Option<usize>)
    ensures
        match r {
            Some(i) => i < wts.len() && wts.deep_view()[i as int].branch == Some(branch@)
                && (forall|j: int| 0 <= j < i ==> wts.deep_view()[j].branch != Some(branch@)),
            None => forall|j: int|
                0 <= j < wts.len() ==> wts.deep_view()[j].branch != Some(branch@),
        },
{
    let mut i: usize = 0;
    while i < wts.len()
        invariant
            0 <= i <= wts.len(),
            forall|j: int| 0 <= j < i ==> wts.deep_view()[j].branch != Some(branch@),
        decreases wts.len() - i,
    {
        match &wts[i].branch {
            Some(b) => {
                if str_eq(b.as_str(), branch) {
                    proof {
                        assert(wts.deep_view()[i as int].branch == Some(branch@));
                    }
                    return Some(i);
                }
            },
            None => {},
        }
        proof {
            assert(wts.deep_view()[i as int].branch != Some(branch@));
        }
        i = i + 1;
    }
    None
}

/// The label a worktree is listed under: its branch, or `(detached)`.
pub open spec fn branch_label(w: WorktreeView) -> Seq<char> {
    match w.branch {
        Some(b) => b,
        None => "(detached)"@,
    }
}

/// One line of the human-readable listing: the label padded to twenty
/// characters, a blank, the path.
pub open spec fn worktree_line(w: WorktreeView) -> Seq<char> {
    crate::text::pad_right_spec(branch_label(w), 20) + seq![' '] + w.path
}

/// The whole human-readable listing.
pub open spec fn worktree_lines_of(ws: Seq<WorktreeView>) -> Seq<Seq<char>> {
    ws.map_values(|w: WorktreeView| worktree_line(w))
}

/// Formats one record as `worktree_line` describes it.
pub fn format_worktree_line(wt: &Worktree) -> (r: String)
    ensures
        r@ == worktree_line(wt@),
{
    let label: &str = match &wt.branch {
        Some(b) => b.as_str(),
        None => "(detached)",
    };
    let padded = crate::text::pad_right(label, 20);
    let mut out = padded;
    proof {
        reveal_strlit(" ");
        assert(" "@ =~= seq![' ']);
    }
    out.append(" ");
    out.append(wt.path.as_str());
    proof {
        assert(out@ =~= worktree_line(wt@));
    }
    out
}

/// Formats the whole listing, one line per record, in order.
pub fn format_worktree_lines(wts: &Vec<Worktree>) -> (r: Vec<String>)
    ensures
        r.deep_view() == worktree_lines_of(wts.deep_view()),
{
    let ghost views = wts.deep_view();
    let mut out: Vec<String> = Vec::new();
    let mut i: usize = 0;
    proof {
        assert(out.deep_view() =~= worktree_lines_of(views.take(0)));
    }
    while i < wts.len()
        invariant
            0 <= i <= wts.len(),
            views == wts.deep_view(),
            out.deep_view() == worktree_lines_of(views.take(i as int)),
        decreases wts.len() - i,
    {
        let line = format_worktree_line(&wts[i]);
        let ghost pre = out.deep_view();
        out.push(line);
        proof {
            assert(out.deep_view() =~= pre.push(line@));
            assert(views.take(i + 1).drop_last() =~= views.take(i as int));
            assert(out.deep_view() =~= worktree_lines_of(views.take(i + 1)));
        }
        i = i + 1;
    }
    proof {
        assert(views.take(wts.len() as int) =~= views);
    }
    out
}

/// The index of the first record checked out on branch `b`.
pub open spec fn find_branch(ws: Seq<WorktreeView>, b: Seq<char>) -> Option<int>
    decreases ws.len(),
{
    if ws.len() == 0 {
        None
    } else if ws.first().branch == Some(b) {
        Some(0)
    } else {
        match find_branch(ws.drop_first(), b) {
            Some(i) => Some(i + 1),
            None => None,
        }
    }
}

/// What `find_branch` returns: the first match, or `None`.
pub proof fn lemma_find_branch(ws: Seq<WorktreeView>, b: Seq<char>)
    ensures
        match find_branch(ws, b) {
            Some(i) => 0 <= i < ws.len() && ws[i].branch == Some(b) && (forall|j: int|
                0 <= j < i ==> ws[j].branch != Some(b)),
            None => forall|j: int| 0 <= j < ws.len() ==> ws[j].branch != Some(b),
        },
    decreases ws.len(),
{
    if ws.len() == 0 {
    } else if ws.first().branch == Some(b) {
    } else {
        lemma_find_branch(ws.drop_first(), b);
        match find_branch(ws, b) {
            Some(i) => {
                assert forall|j: int| 0 <= j < i implies ws[j].branch != Some(b) by {
                    if j > 0 {
                        assert(ws.drop_first()[j - 1].branch != Some(b));
                    }
                }
            },
            None => {
                assert forall|j: int| 0 <= j < ws.len() implies ws[j].branch != Some(b) by {
                    if j > 0 {
                        assert(ws.drop_first()[j - 1].branch != Some(b));
                    }
                }
            },
        }
    }
}

/// `find_branch` is the unique first match.
pub proof fn lemma_find_branch_unique(ws: Seq<WorktreeView>, b: Seq<char>, i: int)
    requires
        0 <= i < ws.len(),
        ws[i].branch == Some(b),
        forall|j: int| 0 <= j < i ==> ws[j].branch != Some(b),
    ensures
        find_branch(ws, b) == Some(i),
{
    lemma_find_branch(ws, b);
    match find_branch(ws, b) {
        Some(k) => {
            if k < i {
                assert(ws[k].branch != Some(b));
            }
            if k > i {
                assert(ws[i].branch != Some(b));
            }
        },
        None => {
            assert(ws[i].branch != Some(b));
        },
    }
}

/// Which path a switch call takes.
pub enum SwitchMode {
    /// Let the picker choose a worktree.
    Pick,
    /// Create the worktree for the named branch, from the base when one
    /// is given, and report the new path.
    Create(String, Option<String>),
    /// Report the path of the worktree on the named branch.
    Lookup(String),
}

/// Resolves the switch selector: the picker when interactive; otherwise,
/// with a branch named, a creation when one is asked for, else an exact
/// lookup; with nothing to go by the call fails with `MissingSelector`.
pub fn switch_selector(
    branch: Option<String>,
    interactive: bool,
    create: bool,
    base: Option<String>,
) -> (r: Result<SwitchMode, GError>)
    ensures
        interactive ==> r == Ok::<SwitchMode, GError>(SwitchMode::Pick),
        !interactive ==> match branch {
            Some(b) => if create {
                r == Ok::<SwitchMode, GError>(SwitchMode::Create(b, base))
            } else {
                r == Ok::<SwitchMode, GError>(SwitchMode::Lookup(b))
            },
            None => r == Err::<SwitchMode, GError>(GError::MissingSelector),
        },
{
    if interactive {
        Ok(SwitchMode::Pick)
    } else {
        match branch {
            Some(b) => if create {
                Ok(SwitchMode::Create(b, base))
            } else {
                Ok(SwitchMode::Lookup(b))
            },
            None => Err(GError::MissingSelector),
        }
    }
}

/// Looks up the worktree for `branch` and reports its path; fails with
/// `WorktreeNotFound` exactly when no record is on that branch.
pub fn switch_lookup(wts: &Vec<Worktree>, branch: &str) -> (r: Result<String, GError>)
    ensures
        match r {
            Ok(p) => (find_branch(wts.deep_view(), branch@) matches Some(i) && p@
                == wts.deep_view()[i].path),
            Err(e) => find_branch(wts.deep_view(), branch@) is None && e
                == GError::WorktreeNotFound,
        },
{
    match find_worktree(wts, branch) {
        Some(i) => {
            proof {
                lemma_find_branch_unique(wts.deep_view(), branch@, i as int);
            }
            Ok(wts[i].path.clone())
        },
        None => {
            proof {
                lemma_find_branch(wts.deep_view(), branch@);
                match find_branch(wts.deep_view(), branch@) {
                    Some(k) => {
                        assert(wts.deep_view()[k].branch != Some(branch@));
                    },
                    None => {},
                }
            }
            Err(GError::WorktreeNotFound)
        },
    }
}

/// Whether a branch already exists: in the local namespace or, failing
/// that, in the remote-tracking namespace — local takes precedence.
pub fn check_branch_exists(local: bool, remote: bool) -> (r: bool)
    ensures
        r == (local || remote),
{
    if local {
        true
    } else {
        remote
    }
}

/// A planned worktree-add invocation.
pub struct WorktreeAddPlan {
    pub path: String,
    pub args: Vec<String>,
}

/// The argument list of a worktree-add invocation: an existing branch is
/// checked out as it is and any base hint is ignored; a new branch is
/// created with `-b`, from the base when one is given.
pub open spec fn worktree_add_args(
    path: Seq<char>,
    branch: Seq<char>,
    base: Option<Seq<char>>,
    branch_exists: bool,
) -> Seq<Seq<char>> {
    if branch_exists {
        seq!["worktree"@, "add"@, path, branch]
    } else {
        match base {
            Some(b) => seq!["worktree"@, "add"@, "-b"@, branch, path, b],
            None => seq!["worktree"@, "add"@, "-b"@, branch, path],
        }
    }
}

/// Plans the creation of a worktree under `worktree_base` named after its
/// branch. Fails with `AlreadyExists` exactly when the target directory
/// already exists.
pub fn create_worktree_plan(
    worktree_base: &str,
    branch: &str,
    base: Option<&str>,
    path_exists: bool,
    branch_exists: bool,
) -> (r: Result<WorktreeAddPlan, GError>)
    ensures
        match r {
            Ok(p) => !path_exists && p.path@ == worktree_base@ + seq!['/'] + branch@
                && p.args.deep_view() == worktree_add_args(
                worktree_base@ + seq!['/'] + branch@,
                branch@,
                match base {
                    Some(b) => Some(b@),
                    None => None,
                },
                branch_exists,
            ),
            Err(e) => path_exists && e == GError::AlreadyExists,
        },
{
    if path_exists {
        return Err(GError::AlreadyExists);
    }
    let path = crate::text::join_path(worktree_base, branch);
    let mut args: Vec<String> = Vec::new();
    args.push("worktree".to_owned());
    args.push("add".to_owned());
    if !branch_exists {
        args.push("-b".to_owned());
        args.push(branch.to_owned());
    }
    args.push(path.clone());
    if branch_exists {
        args.push(branch.to_owned());
    } else {
        match base {
            Some(b) => {
                args.push(b.to_owned());
            },
            None => {},
        }
    }
    proof {
        assert(args.deep_view() =~= worktree_add_args(
            worktree_base@ + seq!['/'] + branch@,
            branch@,
            match base {
                Some(b) => Some(b@),
                None => None,
            },
            branch_exists,
        ));
    }
    Ok(WorktreeAddPlan { path, args })
}

/// Reads the outcome of the worktree-add invocation. The pre-created
/// parent directory is deliberately left in place on failure.
pub fn after_worktree_add(ok: bool) -> (r: Result<(), GError>)
    ensures
        ok ==> r == Ok::<(), GError>(()),
        !ok ==> r == Err::<(), GError>(
            GError::ToolFailed { subcommand: crate::Subcommand::WorktreeAdd },
        ),
{
    if ok {
        Ok(())
    } else {
        Err(GError::ToolFailed { subcommand: crate::Subcommand::WorktreeAdd })
    }
}

/// A planned worktree move: rename the branch, then move the directory,
/// undoing the rename when the move fails.
pub struct MovePlan {
    pub old_branch: String,
    pub new_branch: String,
    pub old_path: String,
    pub new_path: String,
}

/// The model of a move plan.
pub struct MovePlanView {
    pub old_branch: Seq<char>,
    pub new_branch: Seq<char>,
    pub old_path: Seq<char>,
    pub new_path: Seq<char>,
}

impl View for MovePlan {
    type V = MovePlanView;

    open spec fn view(&self) -> MovePlanView {
        MovePlanView {
            old_branch: self.old_branch@,
            new_branch: self.new_branch@,
            old_path: self.old_path@,
            new_path: self.new_path@,
        }
    }
}

/// The branch a move starts from: the one given, or the current branch.
pub fn resolve_old_branch(old: Option<String>, current: String) -> (r: String)
    ensures
        match old {
            Some(b) => r == b,
            None => r == current,
        },
{
    match old {
        Some(b) => b,
        None => current,
    }
}

/// The sibling of `path` named `name`: `name` joined onto the textual
/// parent of `path`, onto `base` when `path` is empty or the bare root,
/// and `name` alone when `path` has no separator.
pub open spec fn sibling_path(path: Seq<char>, base: Seq<char>, name: Seq<char>) -> Seq<char> {
    if path.len() == 0 || (path.len() == 1 && path[0] == '/') {
        base + seq!['/'] + name
    } else if crate::text::last_idx_of(path, '/') >= 0 {
        path.take(crate::text::last_idx_of(path, '/')) + seq!['/'] + name
    } else {
        name
    }
}

/// Computes the sibling of `path` named `name`, as `sibling_path`
/// describes it.
pub fn sibling_of(path: &str, base: &str, name: &str) -> (r: String)
    ensures
        r@ == sibling_path(path@, base@, name@),
{
    let n = path.unicode_len();
    let bare_root = n == 1 && path.get_char(0) == '/';
    if n == 0 || bare_root {
        return crate::text::join_path(base, name);
    }
    match crate::text::find_last_char(path, '/') {
        Some(k) => {
            proof {
                crate::text::lemma_last_idx_of(path@, '/');
            }
            let parent = path.substring_char(0, k);
            proof {
                assert(parent@ =~= path@.take(k as int));
            }
            crate::text::join_path(parent.to_owned().as_str(), name)
        },
        None => name.to_owned(),
    }
}

/// Plans a worktree move: the worktree on `old_branch` is renamed to
/// `new_branch` and its directory moves to the sibling named after the
/// new branch. Fails with `WorktreeNotFound` exactly when no worktree is
/// on `old_branch`.
pub fn move_worktree_plan(
    wts: &Vec<Worktree>,
    old_branch: &str,
    new_branch: &str,
    worktree_base: &str,
) -> (r: Result<MovePlan, GError>)
    ensures
        match r {
            Ok(p) => (find_branch(wts.deep_view(), old_branch@) matches Some(i) && p@.old_branch
                == old_branch@ && p@.new_branch == new_branch@ && p@.old_path
                == wts.deep_view()[i].path && p@.new_path == sibling_path(
                wts.deep_view()[i].path,
                worktree_base@,
                new_branch@,
            )),
            Err(e) => find_branch(wts.deep_view(), old_branch@) is None && e
                == GError::WorktreeNotFound,
        },
{
    match find_worktree(wts, old_branch) {
        Some(i) => {
            proof {
                lemma_find_branch_unique(wts.deep_view(), old_branch@, i as int);
            }
            let old_path = wts[i].path.clone();
            let new_path = sibling_of(old_path.as_str(), worktree_base, new_branch);
            Ok(
                MovePlan {
                    old_branch: old_branch.to_owned(),
                    new_branch: new_branch.to_owned(),
                    old_path,
                    new_path,
                },
            )
        },
        None => {
            proof {
                lemma_find_branch(wts.deep_view(), old_branch@);
                match find_branch(wts.deep_view(), old_branch@) {
                    Some(k) => {
                        assert(wts.deep_view()[k].branch != Some(old_branch@));
                    },
                    None => {},
                }
            }
            Err(GError::WorktreeNotFound)
        },
    }
}

/// The second step of a move, decided by the rename's outcome: the
/// directory-move invocation when the rename succeeded, the rename
/// failure otherwise — the move is only attempted once the rename is
/// known to have completed.
pub fn after_branch_rename(plan: &MovePlan, rename_ok: bool) -> (r: Result<Vec<String>, GError>)
    ensures
        match r {
            Ok(args) => rename_ok && args.deep_view() == seq![
                "worktree"@,
                "move"@,
                plan@.old_path,
                plan@.new_path,
            ],
            Err(e) => !rename_ok && e == GError::ToolFailed {
                subcommand: Subcommand::BranchRename,
            },
        },
{
    if !rename_ok {
        return Err(GError::ToolFailed { subcommand: Subcommand::BranchRename });
    }
    let mut args: Vec<String> = Vec::new();
    args.push("worktree".to_owned());
    args.push("move".to_owned());
    args.push(plan.old_path.clone());
    args.push(plan.new_path.clone());
    proof {
        assert(args.deep_view() =~= seq!["worktree"@, "move"@, plan@.old_path, plan@.new_path]);
    }
    Ok(args)
}

/// How a move ends once the directory move has been attempted.
pub enum MoveOutcome {
    /// Both steps succeeded.
    Done,
    /// The directory move failed: the compensating rename to run, and the
    /// directory-move failure to report.
    RollBack { rename_args: Vec<String>, error: GError },
}

/// The last step of a move, decided by the directory move's outcome: on
/// failure the branch rename is compensated — renamed back from the new
/// name to the old — and the reported error is the directory-move
/// failure, not the rename's.
pub fn after_dir_move(plan: &MovePlan, move_ok: bool) -> (r: MoveOutcome)
    ensures
        move_ok ==> r is Done,
        !move_ok ==> (r matches MoveOutcome::RollBack { rename_args, error } && rename_args.deep_view()
            == seq!["branch"@, "-m"@, plan@.new_branch, plan@.old_branch] && error
            == GError::ToolFailed { subcommand: Subcommand::WorktreeMove }),
{
    if move_ok {
        MoveOutcome::Done
    } else {
        let rename_args = crate::branch::branch_rename_args(
            plan.new_branch.as_str(),
            plan.old_branch.as_str(),
        );
        MoveOutcome::RollBack {
            rename_args,
            error: GError::ToolFailed { subcommand: Subcommand::WorktreeMove },
        }
    }
}

/// A branch listing after a rename: every branch under the old name now
/// carries the new one.
pub open spec fn rename_in(bs: Seq<Seq<char>>, old: Seq<char>, new: Seq<char>) -> Seq<Seq<char>> {
    bs.map_values(|b: Seq<char>| if b == old { new } else { b })
}

/// Law: when the rename target was fresh, the compensating rename — new
/// name back to old — restores every branch to its original name, so a
/// listing after the rollback shows the branch as it was.
pub proof fn lemma_move_rollback(bs: Seq<Seq<char>>, old: Seq<char>, new: Seq<char>)
    requires
        !bs.contains(new),
    ensures
        rename_in(rename_in(bs, old, new), new, old) == bs,
{
    let once = rename_in(bs, old, new);
    assert forall|i: int| 0 <= i < bs.len() implies rename_in(once, new, old)[i] == bs[i] by {
        assert(bs[i] != new);
    }
    assert(rename_in(rename_in(bs, old, new), new, old) =~= bs);
}

/// The records that bulk deletion may touch: never the bare worktree,
/// never the one on the current branch, never the repository root.
pub open spec fn is_delete_candidate(w: WorktreeView, current: Seq<char>, root: Seq<char>) -> bool {
    !w.is_bare && w.branch != Some(current) && w.path != root
}

/// The sub-listing of deletion candidates, in listing order.
pub open spec fn delete_candidates_of(
    ws: Seq<WorktreeView>,
    current: Seq<char>,
    root: Seq<char>,
) -> Seq<WorktreeView> {
    ws.filter(|w: WorktreeView| is_delete_candidate(w, current, root))
}

/// Computes the deletion candidates, as `delete_candidates_of` describes
/// them.
pub fn worktree_delete_candidates(wts: &Vec<Worktree>, current: &str, root: &str) -> (r: Vec<
    Worktree,
>)
    ensures
        r.deep_view() == delete_candidates_of(wts.deep_view(), current@, root@),
{
    let ghost views = wts.deep_view();
    let mut out: Vec<Worktree> = Vec::new();
    let mut i: usize = 0;
    proof {
        reveal(Seq::filter);
        assert(out.deep_view() =~= delete_candidates_of(views.take(0), current@, root@));
    }
    while i < wts.len()
        invariant
            0 <= i <= wts.len(),
            views == wts.deep_view(),
            out.deep_view() == delete_candidates_of(views.take(i as int), current@, root@),
        decreases wts.len() - i,
    {
        proof {
            reveal(Seq::filter);
            assert(views.take(i + 1).drop_last() =~= views.take(i as int));
            assert(views.take(i + 1).last() == views[i as int]);
        }
        let w = &wts[i];
        let branch_is_current: bool = match &w.branch {
            Some(b) => str_eq(b.as_str(), current),
            None => false,
        };
        if !w.is_bare && !branch_is_current && !str_eq(w.path.as_str(), root) {
            proof {
                assert(is_delete_candidate(views[i as int], current@, root@));
            }
            let ghost pre = out.deep_view();
            out.push(w.clone());
            proof {
                assert(out.deep_view() =~= pre.push(views[i as int]));
            }
        } else {
            proof {
                assert(!is_delete_candidate(views[i as int], current@, root@));
            }
        }
        i = i + 1;
    }
    proof {
        assert(views.take(wts.len() as int) =~= views);
    }
    out
}

/// The argument list of a worktree-remove invocation; `--force` discards
/// uncommitted changes and is passed only when asked for.
pub open spec fn worktree_remove_args(force: bool, path: Seq<char>) -> Seq<Seq<char>> {
    if force {
        seq!["worktree"@, "remove"@, "--force"@, path]
    } else {
        seq!["worktree"@, "remove"@, path]
    }
}

/// Builds one worktree-remove invocation, as `worktree_remove_args`
/// describes it.
pub fn worktree_remove_invocation(force: bool, path: &str) -> (r: Vec<String>)
    ensures
        r.deep_view() == worktree_remove_args(force, path@),
{
    let mut args: Vec<String> = Vec::new();
    args.push("worktree".to_owned());
    args.push("remove".to_owned());
    if force {
        args.push("--force".to_owned());
    }
    args.push(path.to_owned());
    proof {
        assert(args.deep_view() =~= worktree_remove_args(force, path@));
    }
    args
}

/// A planned worktree removal.
pub struct WorktreeRemovePlan {
    pub path: String,
    pub branch: String,
    pub args: Vec<String>,
}

/// Plans the removal of the worktree on `branch`. Fails with
/// `WorktreeNotFound` exactly when no record is on that branch, and with
/// `BareRepositoryProtected` exactly when the match is the bare worktree.
pub fn delete_worktree_plan(wts: &Vec<Worktree>, branch: &str, force: bool) -> (r: Result<
    WorktreeRemovePlan,
    GError,
>)
    ensures
        match r {
            Ok(p) => (find_branch(wts.deep_view(), branch@) matches Some(i)
                && !wts.deep_view()[i].is_bare && p.path@ == wts.deep_view()[i].path && p.branch@
                == branch@ && p.args.deep_view() == worktree_remove_args(
                force,
                wts.deep_view()[i].path,
            )),
            Err(e) => match find_branch(wts.deep_view(), branch@) {
                Some(i) => wts.deep_view()[i].is_bare && e == GError::BareRepositoryProtected,
                None => e == GError::WorktreeNotFound,
            },
        },
{
    match find_worktree(wts, branch) {
        Some(i) => {
            proof {
                lemma_find_branch_unique(wts.deep_view(), branch@, i as int);
            }
            if wts[i].is_bare {
                return Err(GError::BareRepositoryProtected);
            }
            let path = wts[i].path.clone();
            let args = worktree_remove_invocation(force, path.as_str());
            Ok(WorktreeRemovePlan { path, branch: branch.to_owned(), args })
        },
        None => {
            proof {
                lemma_find_branch(wts.deep_view(), branch@);
                match find_branch(wts.deep_view(), branch@) {
                    Some(k) => {
                        assert(wts.deep_view()[k].branch != Some(branch@));
                    },
                    None => {},
                }
            }
            Err(GError::WorktreeNotFound)
        },
    }
}

/// After the removal: the unconditional prune invocation, or the removal
/// failure.
pub fn after_worktree_remove(ok: bool) -> (r: Result<Vec<String>, GError>)
    ensures
        match r {
            Ok(args) => ok && args.deep_view() == seq!["worktree"@, "prune"@],
            Err(e) => !ok && e == GError::ToolFailed { subcommand: Subcommand::WorktreeRemove },
        },
{
    if !ok {
        return Err(GError::ToolFailed { subcommand: Subcommand::WorktreeRemove });
    }
    let mut args: Vec<String> = Vec::new();
    args.push("worktree".to_owned());
    args.push("prune".to_owned());
    proof {
        assert(args.deep_view() =~= seq!["worktree"@, "prune"@]);
    }
    Ok(args)
}

/// The prune's outcome: its failure is surfaced even after a successful
/// removal.
pub fn after_prune(ok: bool) -> (r: Result<(), GError>)
    ensures
        ok ==> r == Ok::<(), GError>(()),
        !ok ==> r == Err::<(), GError>(GError::ToolFailed { subcommand: Subcommand::WorktreePrune }),
{
    if ok {
        Ok(())
    } else {
        Err(GError::ToolFailed { subcommand: Subcommand::WorktreePrune })
    }
}

/// Which deletion path a call takes.
pub enum DeleteMode {
    /// Delete every candidate, confirming nothing per item.
    All,
    /// Let the picker choose one candidate.
    Interactive,
    /// Delete the worktree on the named branch.
    Named(String),
}

/// Resolves the deletion selector: `all` wins, then `interactive`, then a
/// named branch; with none of the three the call fails with
/// `MissingSelector`.
pub fn delete_mode(branch: Option<String>, all: bool, interactive: bool) -> (r: Result<
    DeleteMode,
    GError,
>)
    ensures
        all ==> r == Ok::<DeleteMode, GError>(DeleteMode::All),
        !all && interactive ==> r == Ok::<DeleteMode, GError>(DeleteMode::Interactive),
        !all && !interactive ==> match branch {
            Some(b) => r == Ok::<DeleteMode, GError>(DeleteMode::Named(b)),
            None => r == Err::<DeleteMode, GError>(GError::MissingSelector),
        },
{
    if all {
        Ok(DeleteMode::All)
    } else if interactive {
        Ok(DeleteMode::Interactive)
    } else {
        match branch {
            Some(b) => Ok(DeleteMode::Named(b)),
            None => Err(GError::MissingSelector),
        }
    }
}

/// The whitespace-separated token of a picked line at position `k`: the
/// first token names the branch, the second the path.
pub fn selection_token(sel: &str, k: usize) -> (r: Option<String>)
    ensures
        match r {
            Some(t) => k < crate::text::tokens_of(sel@).len() && t@ == crate::text::tokens_of(
                sel@,
            )[k as int],
            None => k >= crate::text::tokens_of(sel@).len(),
        },
{
    let toks = crate::text::split_whitespace(sel);
    if k < toks.len() {
        let t = toks[k].clone();
        proof {
            assert(t@ == toks.deep_view()[k as int]);
        }
        Some(t)
    } else {
        None
    }
}

/// Whether a typed reply confirms a deletion: the reply, blanks stripped,
/// is `y` in either case.
pub fn parse_confirmation(input: &str) -> (r: bool)
    ensures
        r == (crate::text::trim_spec(input@) == seq!['y'] || crate::text::trim_spec(input@)
            == seq!['Y']),
{
    let t = crate::text::trim(input);
    proof {
        reveal_strlit("y");
        reveal_strlit("Y");
        assert("y"@ =~= seq!['y']);
        assert("Y"@ =~= seq!['Y']);
    }
    let yes = str_eq(t.as_str(), "y") || str_eq(t.as_str(), "Y");
    yes
}

/// The options the worktree picker runs with.
pub fn worktree_picker_options() -> (r: crate::fzf::FzfOptions)
    ensures
        r@.height == Some("40%"@),
        r@.reverse,
        r@.border,
        r@.prompt == Some("Select worktree: "@),
        r@.preview == Some("git -C {2} log -n 10 --oneline --color=always"@),
{
    crate::fzf::FzfOptions {
        height: Some("40%".to_owned()),
        reverse: true,
        border: true,
        prompt: Some("Select worktree: ".to_owned()),
        preview: Some("git -C {2} log -n 10 --oneline --color=always".to_owned()),
    }
}

} // verus!
