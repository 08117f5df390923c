//! Ref changes, the Git facts that belong to them, and how a pushed line becomes a change.

use vstd::prelude::*;
use crate::envelope::GitLogEntry;
use crate::git::{git_log_query, FileStatus, GitQuery};
use crate::text::chars_of;

verus! {

/// A value computed on first use: until then it stands pending.
#[derive(Debug)]
pub enum Fact<T> {
    Pending,
    Ready(T),
}

/// Sets a fact that is still pending; a fact that is already there stays as it is.
pub fn settle<T>(fact: &mut Fact<T>, value: T)
    ensures
        *old(fact) is Pending ==> *final(fact) == Fact::Ready(value),
        *old(fact) is Ready ==> *final(fact) == *old(fact),
{
    if let Fact::Pending = fact {
        *fact = Fact::Ready(value);
    }
}

/// The Git facts of one change, each read from Git at most once.
#[derive(Debug)]
pub struct GitData {
    /// The older end of the range that the patch and the file statuses cover.
    pub old_commit: String,
    /// The newer end of that range, and of the log.
    pub new_commit: String,
    /// Where the log starts; without a base it is the most recent commits.
    pub log_base: Option<String>,
    pub patch: Fact<Option<String>>,
    pub log: Fact<Vec<GitLogEntry>>,
    pub file_status: Fact<Vec<(FileStatus, String)>>,
}

impl GitData {
    /// Facts over the given range, none of them read yet.
    pub fn new(old_commit: String, new_commit: String, log_base: Option<String>) -> (r: GitData)
        ensures
            r.old_commit == old_commit,
            r.new_commit == new_commit,
            r.log_base == log_base,
            r.patch is Pending,
            r.log is Pending,
            r.file_status is Pending,
    {
        GitData { old_commit, new_commit, log_base, patch: Fact::Pending, log: Fact::Pending, file_status: Fact::Pending }
    }

    /// The question whose answer is the patch: the diff over the range.
    pub fn patch_query(&self) -> (r: GitQuery)
        ensures
            r == (GitQuery::Diff { old: self.old_commit, new: self.new_commit }),
    {
        GitQuery::Diff { old: self.old_commit.clone(), new: self.new_commit.clone() }
    }

    /// The question whose answer is the file statuses: the name-status diff over the range.
    pub fn file_status_query(&self) -> (r: GitQuery)
        ensures
            r == (GitQuery::NameStatus { old: self.old_commit, new: self.new_commit }),
    {
        GitQuery::NameStatus { old: self.old_commit.clone(), new: self.new_commit.clone() }
    }

    /// The question whose answer is the log: from the base to the new commit, or
    /// the most recent commits where there is no base.
    pub fn log_query(&self) -> (r: GitQuery)
        ensures
            self.log_base matches Some(b) ==> r == (GitQuery::LogRange { from: b, to: self.new_commit }),
            self.log_base is None ==> r == (GitQuery::LogLimited { limit: crate::git::LOG_LIMIT, to: self.new_commit }),
    {
        git_log_query(&self.log_base, &self.new_commit)
    }
}

/// A proposed change of one ref.
#[derive(Debug)]
pub enum Change {
    AddRef { name: String, commit: String, git_data: GitData },
    RemoveRef { name: String, commit: String },
    UpdateRef {
        name: String,
        old_commit: String,
        new_commit: String,
        merge_base: Option<String>,
        force: bool,
        git_data: GitData,
    },
}

impl Change {
    pub open spec fn name_of(&self) -> String {
        match self {
            Change::AddRef { name, .. } => *name,
            Change::RemoveRef { name, .. } => *name,
            Change::UpdateRef { name, .. } => *name,
        }
    }

    /// The Git facts, which a removed ref does not have.
    pub open spec fn facts(&self) -> Option<GitData> {
        match self {
            Change::AddRef { git_data, .. } => Some(*git_data),
            Change::RemoveRef { .. } => None,
            Change::UpdateRef { git_data, .. } => Some(*git_data),
        }
    }

    /// The commit that the ref points to after the change, unless it is removed.
    pub open spec fn tip_of(&self) -> Option<String> {
        match self {
            Change::AddRef { commit, .. } => Some(*commit),
            Change::RemoveRef { .. } => None,
            Change::UpdateRef { new_commit, .. } => Some(*new_commit),
        }
    }

    /// The name of the ref.
    pub fn ref_name(&self) -> (r: &String)
        ensures
            *r == self.name_of(),
    {
        match self {
            Change::AddRef { name, .. } => name,
            Change::RemoveRef { name, .. } => name,
            Change::UpdateRef { name, .. } => name,
        }
    }

    /// The commit that the ref points to after the change, unless it is removed.
    pub fn tip(&self) -> (r: Option<&String>)
        ensures
            r matches Some(t) ==> self.tip_of() == Some(*t),
            r is None ==> self.tip_of() is None,
    {
        match self {
            Change::AddRef { commit, .. } => Some(commit),
            Change::RemoveRef { .. } => None,
            Change::UpdateRef { new_commit, .. } => Some(new_commit),
        }
    }

    /// Everything but the facts stays as it was.
    pub open spec fn same_but_facts(&self, other: &Change) -> bool {
        match (self, other) {
            (Change::AddRef { name: n1, commit: c1, git_data: g1 },
             Change::AddRef { name: n2, commit: c2, git_data: g2 }) =>
                n1 == n2 && c1 == c2 && g1.old_commit == g2.old_commit
                    && g1.new_commit == g2.new_commit && g1.log_base == g2.log_base,
            (Change::UpdateRef { name: n1, old_commit: o1, new_commit: w1, merge_base: m1, force: f1, git_data: g1 },
             Change::UpdateRef { name: n2, old_commit: o2, new_commit: w2, merge_base: m2, force: f2, git_data: g2 }) =>
                n1 == n2 && o1 == o2 && w1 == w2 && m1 == m2 && f1 == f2
                    && g1.old_commit == g2.old_commit && g1.new_commit == g2.new_commit
                    && g1.log_base == g2.log_base,
            (Change::RemoveRef { .. }, Change::RemoveRef { .. }) => *self == *other,
            _ => false,
        }
    }

    /// Hands in the patch, once read; a patch that is already there is kept.
    pub fn supply_patch(&mut self, patch: Option<String>)
        ensures
            final(self).same_but_facts(old(self)),
            old(self).facts() matches Some(g) ==> (final(self).facts() matches Some(h) && h.log == g.log
                && h.file_status == g.file_status
                && (g.patch is Pending ==> h.patch == Fact::Ready(patch))
                && (g.patch is Ready ==> h.patch == g.patch)),
    {
        match self {
            Change::AddRef { git_data, .. } => settle(&mut git_data.patch, patch),
            Change::UpdateRef { git_data, .. } => settle(&mut git_data.patch, patch),
            Change::RemoveRef { .. } => {},
        }
    }

    /// Hands in the log, once read; a log that is already there is kept.
    pub fn supply_log(&mut self, log: Vec<GitLogEntry>)
        ensures
            final(self).same_but_facts(old(self)),
            old(self).facts() matches Some(g) ==> (final(self).facts() matches Some(h) && h.patch == g.patch
                && h.file_status == g.file_status
                && (g.log is Pending ==> h.log == Fact::Ready(log))
                && (g.log is Ready ==> h.log == g.log)),
    {
        match self {
            Change::AddRef { git_data, .. } => settle(&mut git_data.log, log),
            Change::UpdateRef { git_data, .. } => settle(&mut git_data.log, log),
            Change::RemoveRef { .. } => {},
        }
    }

    /// Hands in the file statuses, once read; statuses that are already there are kept.
    pub fn supply_file_status(&mut self, file_status: Vec<(FileStatus, String)>)
        ensures
            final(self).same_but_facts(old(self)),
            old(self).facts() matches Some(g) ==> (final(self).facts() matches Some(h) && h.patch == g.patch
                && h.log == g.log
                && (g.file_status is Pending ==> h.file_status == Fact::Ready(file_status))
                && (g.file_status is Ready ==> h.file_status == g.file_status)),
    {
        match self {
            Change::AddRef { git_data, .. } => settle(&mut git_data.file_status, file_status),
            Change::UpdateRef { git_data, .. } => settle(&mut git_data.file_status, file_status),
            Change::RemoveRef { .. } => {},
        }
    }
}

/// One line of input: a ref moving from one commit to another.
#[derive(Debug)]
pub struct ChangeLine {
    pub old_commit: String,
    pub new_commit: String,
    pub ref_name: String,
}

/// Whether a commit id is the all-zero id, which stands for no commit.
pub open spec fn all_zeros(hash: Seq<char>) -> bool {
    forall|i: int| 0 <= i < hash.len() ==> #[trigger] hash[i] == '0'
}

/// Whether a commit id is the all-zero id.
pub fn is_hash_all_zeros(hash: &str) -> (r: bool)
    ensures
        r == all_zeros(hash@),
{
    let cs = chars_of(hash);
    let mut i: usize = 0;
    while i < cs.len()
        invariant
            cs@ == hash@,
            i <= cs.len(),
            forall|j: int| 0 <= j < i ==> #[trigger] cs@[j] == '0',
        decreases cs.len() - i,
    {
        if cs[i] != '0' {
            return false;
        }
        i = i + 1;
    }
    true
}

/// The two commits whose merge base a line needs, if it needs one: for a new ref the
/// default branch and the new commit, for an update the old and the new commit.
pub open spec fn merge_base_pair(line: ChangeLine, default_branch: String) -> Option<(String, String)> {
    let old_exists = !all_zeros(line.old_commit@);
    let new_exists = !all_zeros(line.new_commit@);
    if old_exists && new_exists {
        Some((line.old_commit, line.new_commit))
    } else if !old_exists && new_exists {
        Some((default_branch, line.new_commit))
    } else {
        None
    }
}

/// The merge base that resolving `line` needs, as a pair of commits to ask Git about.
pub fn merge_base_query(line: &ChangeLine, default_branch: &String) -> (r: Option<(String, String)>)
    ensures
        r == merge_base_pair(*line, *default_branch),
{
    let old_exists = !is_hash_all_zeros(line.old_commit.as_str());
    let new_exists = !is_hash_all_zeros(line.new_commit.as_str());
    if old_exists && new_exists {
        Some((line.old_commit.clone(), line.new_commit.clone()))
    } else if !old_exists && new_exists {
        Some((default_branch.clone(), line.new_commit.clone()))
    } else {
        None
    }
}

/// Whether an update rewrites history: there is no merge base, or it is not the old commit.
pub open spec fn is_forced(merge_base: Option<String>, old_commit: String) -> bool {
    match merge_base {
        Some(base) => base@ != old_commit@,
        None => true,
    }
}

/// The facts of a change, over its range and with its log base, none read yet.
pub open spec fn fresh_facts(g: GitData, old_commit: String, new_commit: String, base: Option<String>) -> bool {
    &&& g.old_commit == old_commit
    &&& g.new_commit == new_commit
    &&& g.log_base == base
    &&& g.patch is Pending
    &&& g.log is Pending
    &&& g.file_status is Pending
}

/// Turns a line into a change, given the merge base of the pair that
/// `merge_base_query` named (or nothing where it named none). A line with the
/// all-zero id on both sides is dropped.
pub fn resolve_change(line: ChangeLine, merge_base: Option<String>) -> (r: Option<Change>)
    ensures
        all_zeros(line.old_commit@) && all_zeros(line.new_commit@) ==> r is None,
        all_zeros(line.old_commit@) && !all_zeros(line.new_commit@) ==> (r matches Some(
            Change::AddRef { name, commit, git_data },
        ) && name == line.ref_name && commit == line.new_commit && fresh_facts(
            git_data,
            line.old_commit,
            line.new_commit,
            merge_base,
        )),
        !all_zeros(line.old_commit@) && all_zeros(line.new_commit@) ==> r == Some(
            Change::RemoveRef { name: line.ref_name, commit: line.old_commit },
        ),
        !all_zeros(line.old_commit@) && !all_zeros(line.new_commit@) ==> (r matches Some(
            Change::UpdateRef { name, old_commit, new_commit, merge_base: base, force, git_data },
        ) && name == line.ref_name && old_commit == line.old_commit && new_commit == line.new_commit
            && base == merge_base && force == is_forced(merge_base, line.old_commit) && fresh_facts(
            git_data,
            line.old_commit,
            line.new_commit,
            merge_base,
        )),
{
    let old_exists = !is_hash_all_zeros(line.old_commit.as_str());
    let new_exists = !is_hash_all_zeros(line.new_commit.as_str());
    if old_exists && new_exists {
        let force = match &merge_base {
            Some(base) => !(*base == line.old_commit),
            None => true,
        };
        let git_data = GitData::new(line.old_commit.clone(), line.new_commit.clone(), crate::text::clone_opt_string(&merge_base));
        Some(Change::UpdateRef {
            name: line.ref_name,
            old_commit: line.old_commit,
            new_commit: line.new_commit,
            merge_base,
            force,
            git_data,
        })
    } else if old_exists {
        Some(Change::RemoveRef { name: line.ref_name, commit: line.old_commit })
    } else if new_exists {
        let git_data = GitData::new(line.old_commit, line.new_commit.clone(), merge_base);
        Some(Change::AddRef { name: line.ref_name, commit: line.new_commit, git_data })
    } else {
        None
    }
}

} // verus!
