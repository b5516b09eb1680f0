//! The counts and advice behind a project's health report.

use crate::ids::{self, format_time};
use crate::models::{Architecture, ImportantFile, ProjectMemory, Task, TaskStatus, Timestamp};
use crate::text::{self, append_str, push_decimal, str_contains, str_ends_with};
use vstd::prelude::*;

verus! {

/// What the health scores are computed from.
#[derive(Clone, Debug)]
pub struct HealthFacts {
    /// Tasks pending or in progress.
    pub open_tasks: usize,
    /// Important files that are documentation.
    pub doc_files: usize,
    pub dependencies: usize,
    pub important_files: usize,
    pub layers: usize,
    pub decisions: usize,
    /// The memory was updated within the last seven days.
    pub memory_fresh: bool,
    pub technical_debt_summary: String,
    pub dependency_summary: String,
    pub documentation_summary: String,
    pub complexity_summary: String,
    pub maintainability_summary: String,
    pub recommendations: Vec<String>,
}

/// A task still to be done.
pub open spec fn is_open(t: Task) -> bool {
    t.status == TaskStatus::Pending || t.status == TaskStatus::InProgress
}

/// Number of open tasks.
pub open spec fn open_count(ts: Seq<Task>) -> nat
    decreases ts.len(),
{
    if ts.len() == 0 {
        0
    } else {
        open_count(ts.drop_last()) + if is_open(ts.last()) { 1nat } else { 0nat }
    }
}

/// A documentation file: a Markdown file or a README.
pub open spec fn is_doc(f: ImportantFile) -> bool {
    text::seq_ends_with(f.path@, ".md"@) || text::seq_contains_text(f.path@, "README"@)
}

/// Number of documentation files.
pub open spec fn doc_count(fs: Seq<ImportantFile>) -> nat
    decreases fs.len(),
{
    if fs.len() == 0 {
        0
    } else {
        doc_count(fs.drop_last()) + if is_doc(fs.last()) { 1nat } else { 0nat }
    }
}

/// `t` is within the seven days before `now`.
pub open spec fn within_week(t: Timestamp, now: Timestamp) -> bool {
    crate::models::earlier(Timestamp { secs: (now.secs - 604800) as i64, nanos: now.nanos }, t)
}

/// The advice given: record decisions, scan, triage tasks, write documentation.
pub open spec fn advice(decisions: nat, important_files: nat, open: nat, docs: nat) -> Seq<Seq<char>> {
    (if decisions == 0 { seq!["Record architectural decisions with `nexus decide`"@] } else { Seq::empty() })
        + (if important_files == 0 { seq!["Run `nexus scan` to index project structure"@] } else { Seq::empty() })
        + (if open > 10 { seq!["Review and prioritize open tasks"@] } else { Seq::empty() })
        + (if docs == 0 { seq!["Add README and architecture documentation"@] } else { Seq::empty() })
}

/// The health advice: record decisions when none are, scan when no file is indexed,
/// triage when more than ten tasks are open, document when no documentation file is
/// indexed; in that order, each at most once.
pub proof fn law_advice(decisions: nat, important_files: nat, open: nat, docs: nat)
    ensures
        advice(decisions, important_files, open, docs).len() == (if decisions == 0 { 1int } else { 0int })
            + (if important_files == 0 { 1int } else { 0int }) + (if open > 10 { 1int } else { 0int })
            + (if docs == 0 { 1int } else { 0int }),
        advice(decisions, important_files, open, docs).contains("Record architectural decisions with `nexus decide`"@)
            <== decisions == 0,
        advice(decisions, important_files, open, docs).contains("Run `nexus scan` to index project structure"@)
            <== important_files == 0,
        advice(decisions, important_files, open, docs).contains("Review and prioritize open tasks"@) <== open > 10,
        advice(decisions, important_files, open, docs).contains("Add README and architecture documentation"@)
            <== docs == 0,
        decisions > 0 && important_files > 0 && open <= 10 && docs > 0 ==> advice(decisions, important_files, open, docs).len()
            == 0,
{
    let a = if decisions == 0 { seq!["Record architectural decisions with `nexus decide`"@] } else { Seq::empty() };
    let b = if important_files == 0 { seq!["Run `nexus scan` to index project structure"@] } else { Seq::empty() };
    let c = if open > 10 { seq!["Review and prioritize open tasks"@] } else { Seq::empty() };
    let d = if docs == 0 { seq!["Add README and architecture documentation"@] } else { Seq::empty() };
    let all = advice(decisions, important_files, open, docs);
    assert(all == a + b + c + d);
    if decisions == 0 {
        assert(all[0] == a[0]);
    }
    if important_files == 0 {
        assert(all[a.len() as int] == b[0]);
    }
    if open > 10 {
        assert(all[(a.len() + b.len()) as int] == c[0]);
    }
    if docs == 0 {
        assert(all[(a.len() + b.len() + c.len()) as int] == d[0]);
    }
}

/// A task counts as open exactly when it is pending or in progress: the open count is
/// the number of such tasks, and adding one more task raises it by one exactly when
/// that task is open.
pub proof fn law_open_count(ts: Seq<Task>, t: Task)
    ensures
        open_count(ts.push(t)) == open_count(ts) + if t.status == TaskStatus::Pending || t.status == TaskStatus::InProgress {
            1nat
        } else {
            0nat
        },
        open_count(ts) <= ts.len(),
    decreases ts.len(),
{
    assert(ts.push(t).drop_last() =~= ts);
    if ts.len() > 0 {
        law_open_count(ts.drop_last(), ts.last());
        assert(ts.drop_last().push(ts.last()) =~= ts);
    }
}

/// Gathers the health facts of a project at instant `now`.
pub fn health_facts(
    memory: &ProjectMemory,
    arch: &Architecture,
    tasks: &Vec<Task>,
    decisions: usize,
    now: Timestamp,
) -> (r: HealthFacts)
    requires
        now.secs >= i64::MIN + 604800,
    ensures
        r.open_tasks == open_count(tasks@),
        r.doc_files == doc_count(arch.important_files@),
        r.dependencies == arch.dependencies@.len(),
        r.important_files == arch.important_files@.len(),
        r.layers == arch.layers@.len(),
        r.decisions == decisions,
        r.memory_fresh == within_week(memory.updated_at, now),
        r.technical_debt_summary@ == text::decimal_text(open_count(tasks@)) + " open tasks tracked"@,
        r.dependency_summary@ == text::decimal_text(arch.dependencies@.len()) + " dependencies detected"@,
        r.documentation_summary@ == text::decimal_text(doc_count(arch.important_files@)) + " documentation files indexed"@,
        r.complexity_summary@ == text::decimal_text(arch.layers@.len()) + " architectural layers"@,
        r.maintainability_summary@ == text::decimal_text(decisions as nat) + " decisions recorded, last updated "@
            + ids::time_text(memory.updated_at, "%Y-%m-%d"@),
        text::texts(r.recommendations@) == advice(
            decisions as nat,
            arch.important_files@.len(),
            open_count(tasks@),
            doc_count(arch.important_files@),
        ),
{
    let mut open: usize = 0;
    let mut i: usize = 0;
    while i < tasks.len()
        invariant
            i <= tasks@.len(),
            open as nat == open_count(tasks@.take(i as int)),
            open <= i,
        decreases tasks@.len() - i,
    {
        assert(tasks@.take(i + 1).drop_last() =~= tasks@.take(i as int));
        if tasks[i].status == TaskStatus::Pending || tasks[i].status == TaskStatus::InProgress {
            open = open + 1;
        }
        i = i + 1;
    }
    assert(tasks@.take(tasks@.len() as int) =~= tasks@);
    let fs = &arch.important_files;
    let mut docs: usize = 0;
    let mut j: usize = 0;
    while j < fs.len()
        invariant
            j <= fs@.len(),
            docs as nat == doc_count(fs@.take(j as int)),
            docs <= j,
        decreases fs@.len() - j,
    {
        assert(fs@.take(j + 1).drop_last() =~= fs@.take(j as int));
        if str_ends_with(fs[j].path.as_str(), ".md") || str_contains(fs[j].path.as_str(), "README") {
            docs = docs + 1;
        }
        j = j + 1;
    }
    assert(fs@.take(fs@.len() as int) =~= fs@);
    let week_ago = Timestamp { secs: now.secs - 604800, nanos: now.nanos };
    let fresh = crate::models::is_earlier(week_ago, memory.updated_at);
    let mut debt = String::new();
    push_decimal(&mut debt, open);
    append_str(&mut debt, " open tasks tracked");
    let mut dep = String::new();
    push_decimal(&mut dep, arch.dependencies.len());
    append_str(&mut dep, " dependencies detected");
    let mut doc = String::new();
    push_decimal(&mut doc, docs);
    append_str(&mut doc, " documentation files indexed");
    let mut cx = String::new();
    push_decimal(&mut cx, arch.layers.len());
    append_str(&mut cx, " architectural layers");
    let mut mt = String::new();
    push_decimal(&mut mt, decisions);
    append_str(&mut mt, " decisions recorded, last updated ");
    let day = format_time(memory.updated_at, "%Y-%m-%d");
    append_str(&mut mt, day.as_str());
    let mut recs: Vec<String> = Vec::new();
    if decisions == 0 {
        recs.push("Record architectural decisions with `nexus decide`".to_owned());
    }
    if fs.len() == 0 {
        recs.push("Run `nexus scan` to index project structure".to_owned());
    }
    if open > 10 {
        recs.push("Review and prioritize open tasks".to_owned());
    }
    if docs == 0 {
        recs.push("Add README and architecture documentation".to_owned());
    }
    assert(text::texts(recs@) =~= advice(decisions as nat, fs@.len(), open as nat, docs as nat));
    HealthFacts {
        open_tasks: open,
        doc_files: docs,
        dependencies: arch.dependencies.len(),
        important_files: fs.len(),
        layers: arch.layers.len(),
        decisions,
        memory_fresh: fresh,
        technical_debt_summary: debt,
        dependency_summary: dep,
        documentation_summary: doc,
        complexity_summary: cx,
        maintainability_summary: mt,
        recommendations: recs,
    }
}

} // verus!
