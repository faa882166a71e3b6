//! The configuration value loaded once at process start: an optional
//! source-root override and the command aliases, consulted only to
//! rewrite the first command token.
use crate::text::{split_whitespace, str_eq, tokens_of};
use vstd::prelude::*;
use vstd::string::*;

verus! {

/// One alias: a command name and its expansion, blank-separated.
pub struct AliasEntry {
    pub name: String,
    pub value: String,
}

/// The model of an alias.
pub struct AliasView {
    pub name: Seq<char>,
    pub value: Seq<char>,
}

impl View for AliasEntry {
    type V = AliasView;

    open spec fn view(&self) -> AliasView {
        AliasView { name: self.name@, value: self.value@ }
    }
}

impl DeepView for AliasEntry {
    type V = AliasView;

    open spec fn deep_view(&self) -> AliasView {
        self.view()
    }
}

/// The configuration: the optional source-root override and the aliases,
/// in the order the store listed them.
pub struct Config {
    pub root: Option<String>,
    pub aliases: Vec<AliasEntry>,
}

/// The expansion of the first alias named `cmd`, or `None`.
pub open spec fn lookup_alias(entries: Seq<AliasView>, cmd: Seq<char>) -> Option<Seq<char>>
    decreases entries.len(),
{
    if entries.len() == 0 {
        None
    } else if entries.first().name == cmd {
        Some(entries.first().value)
    } else {
        lookup_alias(entries.drop_first(), cmd)
    }
}

proof fn lemma_lookup_alias_unique(entries: Seq<AliasView>, cmd: Seq<char>, i: int)
    requires
        0 <= i < entries.len(),
        entries[i].name == cmd,
        forall|j: int| 0 <= j < i ==> entries[j].name != cmd,
    ensures
        lookup_alias(entries, cmd) == Some(entries[i].value),
    decreases i,
{
    if i == 0 {
    } else {
        assert(entries.first().name != cmd);
        assert forall|j: int| 0 <= j < i - 1 implies entries.drop_first()[j].name != cmd by {
            assert(entries[j + 1].name != cmd);
        }
        lemma_lookup_alias_unique(entries.drop_first(), cmd, i - 1);
    }
}

proof fn lemma_lookup_alias_absent(entries: Seq<AliasView>, cmd: Seq<char>)
    requires
        forall|j: int| 0 <= j < entries.len() ==> entries[j].name != cmd,
    ensures
        lookup_alias(entries, cmd) is None,
    decreases entries.len(),
{
    if entries.len() > 0 {
        assert forall|j: int|
            0 <= j < entries.drop_first().len() implies entries.drop_first()[j].name != cmd by {
            assert(entries[j + 1].name != cmd);
        }
        lemma_lookup_alias_absent(entries.drop_first(), cmd);
    }
}

impl Config {
    /// The expansion of `cmd` split into its blank-separated tokens, when
    /// an alias of that name exists; `None` otherwise — the token is then
    /// left as it was typed.
    pub fn resolve_alias(&self, cmd: &str) -> (r: Option<Vec<String>>)
        ensures
            match r {
                Some(toks) => (lookup_alias(self.aliases.deep_view(), cmd@) matches Some(v)
                    && toks.deep_view() == tokens_of(v)),
                None => lookup_alias(self.aliases.deep_view(), cmd@) is None,
            },
    {
        let mut i: usize = 0;
        while i < self.aliases.len()
            invariant
                0 <= i <= self.aliases.len(),
                forall|j: int| 0 <= j < i ==> self.aliases.deep_view()[j].name != cmd@,
            decreases self.aliases.len() - i,
        {
            if str_eq(self.aliases[i].name.as_str(), cmd) {
                proof {
                    assert(self.aliases.deep_view()[i as int].name == cmd@);
                    lemma_lookup_alias_unique(self.aliases.deep_view(), cmd@, i as int);
                }
                return Some(split_whitespace(self.aliases[i].value.as_str()));
            }
            i = i + 1;
        }
        proof {
            lemma_lookup_alias_absent(self.aliases.deep_view(), cmd@);
        }
        None
    }
}

} // verus!
