//! What the repository's history and working tree say, summed up.

use crate::models::{CommitSummary, GitSummary, Timestamp};
use crate::text::{self, append_str};
use vstd::prelude::*;

verus! {

/// A commit as the repository gives it: the hex text of its id, its summary line and
/// author name when they are readable, and its time.
pub struct RawCommit {
    pub id_hex: String,
    pub summary: Option<String>,
    pub author: Option<String>,
    pub time: Timestamp,
}

/// The commits of a history walk whose objects could be read, in walk order.
pub open spec fn found_commits(log: Seq<Option<RawCommit>>) -> Seq<RawCommit>
    decreases log.len(),
{
    if log.len() == 0 {
        Seq::empty()
    } else {
        match log.last() {
            Some(c) => found_commits(log.drop_last()).push(c),
            None => found_commits(log.drop_last()),
        }
    }
}

/// An optional text, or a stand-in when absent.
pub open spec fn text_or(o: Option<String>, fallback: Seq<char>) -> Seq<char> {
    match o {
        Some(s) => s@,
        None => fallback,
    }
}

/// A commit summary as values: short hash, message, author, time.
pub open spec fn summary_value(c: CommitSummary) -> (Seq<char>, Seq<char>, Seq<char>, Timestamp) {
    (c.hash@, c.message@, c.author@, c.timestamp)
}

/// Commit summaries as values.
pub open spec fn summary_values(cs: Seq<CommitSummary>) -> Seq<(Seq<char>, Seq<char>, Seq<char>, Timestamp)> {
    cs.map_values(|c: CommitSummary| summary_value(c))
}

/// How a raw commit is summed up: the first eight hex digits of its id, its summary
/// (`no message` when unreadable), its author (`unknown` when unreadable) and its time.
pub open spec fn summarized(c: RawCommit) -> (Seq<char>, Seq<char>, Seq<char>, Timestamp) {
    (c.id_hex@.take(8), text_or(c.summary, "no message"@), text_or(c.author, "unknown"@), c.time)
}

/// The smaller of two counts.
pub open spec fn min_count(a: int, b: int) -> int {
    if a <= b {
        a
    } else {
        b
    }
}

/// The summaries of the first `limit` readable commits of a walk.
pub open spec fn recent_values(log: Seq<Option<RawCommit>>, limit: nat) -> Seq<(Seq<char>, Seq<char>, Seq<char>, Timestamp)> {
    let found = found_commits(log);
    found.take(min_count(limit as int, found.len() as int)).map_values(|c: RawCommit| summarized(c))
}

/// Every commit id of the walk is long enough to be shortened.
pub open spec fn ids_long_enough(log: Seq<Option<RawCommit>>) -> bool {
    forall|i: int| 0 <= i < log.len() ==> (#[trigger] log[i] matches Some(c) ==> c.id_hex@.len() >= 8)
}

proof fn lemma_found_prefix(log: Seq<Option<RawCommit>>, i: int)
    requires
        0 <= i < log.len(),
    ensures
        found_commits(log.take(i + 1)) == match log[i] {
            Some(c) => found_commits(log.take(i)).push(c),
            None => found_commits(log.take(i)),
        },
{
    assert(log.take(i + 1).drop_last() =~= log.take(i));
}

/// Sums up one readable commit.
fn summarize_commit(c: &RawCommit) -> (r: CommitSummary)
    requires
        c.id_hex@.len() >= 8,
    ensures
        summary_value(r) == summarized(*c),
{
    let hash = c.id_hex.as_str().substring_char(0, 8).to_owned();
    let message = match &c.summary {
        Some(s) => s.clone(),
        None => "no message".to_owned(),
    };
    let author = match &c.author {
        Some(a) => a.clone(),
        None => "unknown".to_owned(),
    };
    assert(c.id_hex@.subrange(0, 8) =~= c.id_hex@.take(8));
    CommitSummary { hash, message, author, timestamp: c.time }
}

/// The summary of a repository without history or working tree: everything empty.
pub fn empty_summary() -> (r: GitSummary)
    ensures
        r.branch@ == Seq::<char>::empty(),
        r.commit_count == 0,
        r.recent_commits@.len() == 0,
        r.dirty_files@.len() == 0,
{
    GitSummary { branch: String::new(), commit_count: 0, recent_commits: Vec::new(), dirty_files: Vec::new() }
}

/// Sums up a history walk: the branch (`unknown` when there is none), how many commits
/// were walked, the first `commit_limit` readable ones, and the dirty files.
pub fn summarize_log(
    branch: Option<String>,
    log: &Vec<Option<RawCommit>>,
    commit_limit: usize,
    dirty_files: Vec<String>,
) -> (r: GitSummary)
    requires
        ids_long_enough(log@),
    ensures
        r.branch@ == text_or(branch, "unknown"@),
        r.commit_count == log@.len(),
        summary_values(r.recent_commits@) == recent_values(
            log@,
            commit_limit as nat,
        ),
        r.dirty_files == dirty_files,
{
    let branch_name = match branch {
        Some(b) => b,
        None => "unknown".to_owned(),
    };
    let mut recent: Vec<CommitSummary> = Vec::new();
    let mut i: usize = 0;
    while i < log.len()
        invariant
            i <= log@.len(),
            ids_long_enough(log@),
            summary_values(recent@) == recent_values(
                log@.take(i as int),
                commit_limit as nat,
            ),
            recent@.len() == min_count(
                commit_limit as int,
                found_commits(log@.take(i as int)).len() as int,
            ),
        decreases log@.len() - i,
    {
        proof {
            lemma_found_prefix(log@, i as int);
        }
        let ghost before = found_commits(log@.take(i as int));
        let ghost prev = recent@;
        if recent.len() < commit_limit {
            match &log[i] {
                Some(c) => {
                    assert(log@[i as int] matches Some(c) ==> c.id_hex@.len() >= 8);
                    let s = summarize_commit(c);
                    recent.push(s);
                    let ghost after = found_commits(log@.take(i + 1));
                    assert(after == before.push(*c));
                    assert(before.take(before.len() as int) =~= before);
                    assert(after.take(after.len() as int) =~= after);
                    assert forall|k: int| 0 <= k < recent@.len() implies #[trigger] summary_values(recent@)[k] == recent_values(log@.take(i + 1), commit_limit as nat)[k] by {
                        if k < prev.len() {
                            assert(summary_values(prev)[k]
                                == recent_values(log@.take(i as int), commit_limit as nat)[k]);
                            assert(recent@[k] == prev[k]);
                        }
                    }
                    assert(summary_values(recent@) =~= recent_values(
                        log@.take(i + 1),
                        commit_limit as nat,
                    ));
                },
                None => {},
            }
        } else {
            let ghost after = found_commits(log@.take(i + 1));
            assert(after.take(commit_limit as int) =~= before.take(commit_limit as int));
        }
        i = i + 1;
    }
    assert(log@.take(log@.len() as int) =~= log@);
    GitSummary { branch: branch_name, commit_count: log.len(), recent_commits: recent, dirty_files }
}

/// A working-tree entry: its path when it is readable, and whether it is unchanged.
pub struct StatusEntry {
    pub path: Option<String>,
    pub current: bool,
}

/// The readable paths of the changed entries, in order.
pub open spec fn dirty_of(entries: Seq<StatusEntry>) -> Seq<Seq<char>>
    decreases entries.len(),
{
    if entries.len() == 0 {
        Seq::empty()
    } else {
        let rest = dirty_of(entries.drop_last());
        let e = entries.last();
        if !e.current && e.path is Some {
            rest.push(e.path->0@)
        } else {
            rest
        }
    }
}

/// The paths of the files that differ from the last commit, in status order.
pub fn dirty_paths(entries: &Vec<StatusEntry>) -> (r: Vec<String>)
    ensures
        text::texts(r@) == dirty_of(entries@),
{
    let mut out: Vec<String> = Vec::new();
    let mut i: usize = 0;
    while i < entries.len()
        invariant
            i <= entries@.len(),
            text::texts(out@) == dirty_of(entries@.take(i as int)),
        decreases entries@.len() - i,
    {
        assert(entries@.take(i + 1).drop_last() =~= entries@.take(i as int));
        assert(entries@.take(i + 1).last() == entries@[i as int]);
        let e = &entries[i];
        if !e.current {
            match &e.path {
                Some(p) => {
                    out.push(p.clone());
                    assert(text::texts(out@) =~= dirty_of(entries@.take(i + 1)));
                },
                None => {},
            }
        }
        i = i + 1;
    }
    assert(entries@.take(entries@.len() as int) =~= entries@);
    out
}

/// A commit as one line: `[hash] message — author`.
pub open spec fn commit_message_text(c: CommitSummary) -> Seq<char> {
    "["@ + c.hash@ + "] "@ + c.message@ + " — "@ + c.author@
}

/// The recent commits of a summary, one line each.
pub fn commit_messages(summary: &GitSummary) -> (r: Vec<String>)
    ensures
        text::texts(r@) == summary.recent_commits@.map_values(|c: CommitSummary| commit_message_text(c)),
{
    let mut out: Vec<String> = Vec::new();
    let mut i: usize = 0;
    while i < summary.recent_commits.len()
        invariant
            i <= summary.recent_commits@.len(),
            out@.len() == i,
            forall|k: int| 0 <= k < i ==> #[trigger] out@[k]@ == commit_message_text(summary.recent_commits@[k]),
        decreases summary.recent_commits@.len() - i,
    {
        let c = &summary.recent_commits[i];
        let mut line = "[".to_owned();
        append_str(&mut line, c.hash.as_str());
        append_str(&mut line, "] ");
        append_str(&mut line, c.message.as_str());
        append_str(&mut line, " — ");
        append_str(&mut line, c.author.as_str());
        out.push(line);
        i = i + 1;
    }
    assert(text::texts(out@) =~= summary.recent_commits@.map_values(|c: CommitSummary| commit_message_text(c)));
    out
}

} // verus!
