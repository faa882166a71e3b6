//! Path convention resolver: maps a remote URL to the canonical
//! `{host}/{org}/{repo}` relative path.
//!
//! Two URL shapes are accepted, and nothing else:
//! - `scheme://host/rest`, where the scheme is non-empty and holds neither
//!   `:` nor `/`, the host is non-empty and holds no `/`, and the rest is
//!   non-empty;
//! - `user@host:rest`, where the user comes before the first `@` and holds
//!   neither `:` nor `/`, the host is non-empty and holds no `:`, and the
//!   rest is non-empty.
//!
//! In both shapes one trailing `.git` is stripped from the rest, and the
//! result is `host` and the stripped rest joined with `/`.
use crate::text::{concat3, ends_with, find_char, idx_of, lemma_idx_of, lemma_idx_of_unique};
use crate::GError;
use vstd::prelude::*;
use vstd::string::*;

verus! {

/// `r` with one trailing `.git` removed, when removing it leaves the rest
/// non-empty.
pub open spec fn strip_git(r: Seq<char>) -> Seq<char> {
    let suf = ".git"@;
    if r.len() > suf.len() && suf.is_suffix_of(r) {
        r.take(r.len() - suf.len())
    } else {
        r
    }
}

/// The repository path derived from an `scheme://host/rest` URL, or `None`
/// when `s` is not of that shape.
pub open spec fn https_path_of(s: Seq<char>) -> Option<Seq<char>> {
    let i = idx_of(s, ':');
    if i == 0 || i >= s.len() {
        None
    } else if idx_of(s.take(i), '/') != i {
        None
    } else if s.len() - i < 3 || s[i + 1] != '/' || s[i + 2] != '/' {
        None
    } else {
        let after = s.skip(i + 3);
        let j = idx_of(after, '/');
        if j == 0 || j >= after.len() {
            None
        } else {
            let rest = after.skip(j + 1);
            if rest.len() == 0 {
                None
            } else {
                Some(after.take(j) + seq!['/'] + strip_git(rest))
            }
        }
    }
}

/// The repository path derived from a `user@host:rest` URL, or `None` when
/// `s` is not of that shape.
pub open spec fn ssh_path_of(s: Seq<char>) -> Option<Seq<char>> {
    let a = idx_of(s, '@');
    if a == 0 || a >= s.len() {
        None
    } else if idx_of(s.take(a), ':') != a || idx_of(s.take(a), '/') != a {
        None
    } else {
        let after = s.skip(a + 1);
        let c = idx_of(after, ':');
        if c == 0 || c >= after.len() {
            None
        } else {
            let rest = after.skip(c + 1);
            if rest.len() == 0 {
                None
            } else {
                Some(after.take(c) + seq!['/'] + strip_git(rest))
            }
        }
    }
}

/// The canonical repository path of a remote URL: the `scheme://` shape is
/// tried first, then the `user@host:` shape.
pub open spec fn repo_path_of(s: Seq<char>) -> Option<Seq<char>> {
    match https_path_of(s) {
        Some(p) => Some(p),
        None => ssh_path_of(s),
    }
}

/// `r` with one trailing `.git` removed, as `strip_git` describes it.
fn strip_git_suffix(r: &str) -> (out: String)
    ensures
        out@ == strip_git(r@),
{
    let n = r.unicode_len();
    let suf = ".git";
    let sufn = suf.unicode_len();
    if n > sufn && ends_with(r, suf) {
        let kept = r.substring_char(0, n - sufn);
        proof {
            assert(kept@ =~= r@.take(r@.len() - ".git"@.len()));
        }
        kept.to_owned()
    } else {
        r.to_owned()
    }
}

/// The repository path of an `scheme://host/rest` URL, as `https_path_of`
/// describes it.
fn try_https(url: &str) -> (r: Option<String>)
    ensures
        match r {
            Some(p) => https_path_of(url@) == Some(p@),
            None => https_path_of(url@) == None::<Seq<char>>,
        },
{
    let n = url.unicode_len();
    let i = find_char(url, ':');
    if i == 0 || i >= n {
        return None;
    }
    let scheme = url.substring_char(0, i);
    proof {
        assert(scheme@ =~= url@.take(i as int));
    }
    if find_char(scheme, '/') != i {
        return None;
    }
    if n - i < 3 || url.get_char(i + 1) != '/' || url.get_char(i + 2) != '/' {
        return None;
    }
    let after = url.substring_char(i + 3, n);
    proof {
        assert(after@ =~= url@.skip(i + 3));
    }
    let m = after.unicode_len();
    let j = find_char(after, '/');
    if j == 0 || j >= m {
        return None;
    }
    let host = after.substring_char(0, j);
    let rest = after.substring_char(j + 1, m);
    proof {
        assert(host@ =~= after@.take(j as int));
        assert(rest@ =~= after@.skip(j + 1));
    }
    if rest.unicode_len() == 0 {
        return None;
    }
    let stripped = strip_git_suffix(rest);
    let out = concat3(host, "/", stripped.as_str());
    proof {
        reveal_strlit("/");
        assert("/"@ =~= seq!['/']);
        assert(out@ =~= after@.take(j as int) + seq!['/'] + strip_git(rest@));
    }
    Some(out)
}

/// The repository path of a `user@host:rest` URL, as `ssh_path_of`
/// describes it.
fn try_ssh(url: &str) -> (r: Option<String>)
    ensures
        match r {
            Some(p) => ssh_path_of(url@) == Some(p@),
            None => ssh_path_of(url@) == None::<Seq<char>>,
        },
{
    let n = url.unicode_len();
    let a = find_char(url, '@');
    if a == 0 || a >= n {
        return None;
    }
    let user = url.substring_char(0, a);
    proof {
        assert(user@ =~= url@.take(a as int));
    }
    if find_char(user, ':') != a || find_char(user, '/') != a {
        return None;
    }
    let after = url.substring_char(a + 1, n);
    proof {
        assert(after@ =~= url@.skip(a + 1));
    }
    let m = after.unicode_len();
    let c = find_char(after, ':');
    if c == 0 || c >= m {
        return None;
    }
    let host = after.substring_char(0, c);
    let rest = after.substring_char(c + 1, m);
    proof {
        assert(host@ =~= after@.take(c as int));
        assert(rest@ =~= after@.skip(c + 1));
    }
    if rest.unicode_len() == 0 {
        return None;
    }
    let stripped = strip_git_suffix(rest);
    let out = concat3(host, "/", stripped.as_str());
    proof {
        reveal_strlit("/");
        assert("/"@ =~= seq!['/']);
        assert(out@ =~= after@.take(c as int) + seq!['/'] + strip_git(rest@));
    }
    Some(out)
}

proof fn lemma_reembed(p: Seq<char>, x: Seq<char>, y: Seq<char>)
    requires
        p == x + seq!['/'] + y,
        x.len() >= 1,
        y.len() >= 1,
        p[0] != '/',
        strip_git(p) == p,
    ensures
        https_path_of("https://"@ + p) == Some(p),
{
    reveal_strlit("https://");
    reveal_strlit(".git");
    let s = "https://"@ + p;
    assert(s.len() == 8 + p.len());
    assert(s[5] == ':');
    assert forall|k: int| 0 <= k < 5 implies s[k] != ':' by {
        assert(s[k] == "https://"@[k]);
    }
    lemma_idx_of_unique(s, ':', 5);
    let scheme = s.take(5);
    lemma_idx_of(scheme, '/');
    if idx_of(scheme, '/') < 5 {
        assert(scheme[idx_of(scheme, '/')] == '/');
        assert(s[idx_of(scheme, '/')] != '/');
        assert(false);
    }
    assert(idx_of(s.take(5), '/') == 5);
    assert(s[6] == '/' && s[7] == '/');
    let after = s.skip(8);
    assert(after =~= p);
    let j = idx_of(p, '/');
    lemma_idx_of(p, '/');
    assert(p[x.len() as int] == '/');
    assert(p.contains('/'));
    assert(j < p.len());
    assert(j != 0);
    assert(j <= x.len()) by {
        if j > x.len() {
            assert(p[x.len() as int] != '/');
        }
    }
    let rest2 = p.skip(j + 1);
    assert(rest2.len() > 0) by {
        if j < x.len() {
            assert(p.len() - j - 1 >= 1 + y.len());
        } else {
            assert(rest2.len() == y.len());
        }
    }
    assert(strip_git(rest2) == rest2) by {
        let suf = ".git"@;
        if rest2.len() > suf.len() && suf.is_suffix_of(rest2) {
            assert(p.subrange(p.len() - 4, p.len() as int) =~= rest2.subrange(
                rest2.len() - 4,
                rest2.len() as int,
            ));
            assert(suf.is_suffix_of(p));
            assert(p.len() > suf.len());
            assert(strip_git(p).len() == p.len() - 4);
            assert(false);
        }
    }
    assert(p.take(j) + seq!['/'] + rest2 =~= p);
    assert(https_path_of(s) == Some(p));
}

/// Law: deriving is idempotent — a derived path, re-embedded in a
/// synthetic URL of the accepted shape, derives to itself. The two
/// degenerate outputs that re-embedding would re-interpret are left out:
/// one that still ends in `.git`, and one whose host part is empty.
pub proof fn lemma_repo_path_idempotent(u: Seq<char>, p: Seq<char>)
    requires
        repo_path_of(u) == Some(p),
        strip_git(p) == p,
        p.len() > 0 && p[0] != '/',
    ensures
        repo_path_of("https://"@ + p) == Some(p),
{
    reveal_strlit(".git");
    if https_path_of(u) is Some {
        let i = idx_of(u, ':');
        let after = u.skip(i + 3);
        let j = idx_of(after, '/');
        let rest = after.skip(j + 1);
        let x = after.take(j);
        let y = strip_git(rest);
        assert(p == x + seq!['/'] + y);
        assert(x.len() >= 1);
        assert(y.len() >= 1);
        lemma_reembed(p, x, y);
    } else {
        let a = idx_of(u, '@');
        let after = u.skip(a + 1);
        let c = idx_of(after, ':');
        let rest = after.skip(c + 1);
        let x = after.take(c);
        let y = strip_git(rest);
        assert(p == x + seq!['/'] + y);
        assert(x.len() >= 1);
        assert(y.len() >= 1);
        lemma_reembed(p, x, y);
    }
}

/// Derives the canonical `{host}/{org}/{repo}` path from a remote URL.
/// Exactly the URLs of the two accepted shapes succeed; every other string
/// is rejected with `GError::InvalidUrl`.
pub fn parse_repo_path(url: &str) -> (r: Result<String, GError>)
    ensures
        match r {
            Ok(p) => repo_path_of(url@) == Some(p@),
            Err(e) => repo_path_of(url@) == None::<Seq<char>> && e == GError::InvalidUrl,
        },
{
    match try_https(url) {
        Some(p) => Ok(p),
        None => match try_ssh(url) {
            Some(p) => Ok(p),
            None => Err(GError::InvalidUrl),
        },
    }
}

} // verus!
