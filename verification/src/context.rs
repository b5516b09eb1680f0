//! Reconstruction of a project's continuation context from its memory.

use crate::ids::{self, format_rfc3339, format_time};
use crate::models::{
    self, Architecture, CommitSummary, ContinuationContext, Decision, DecisionView, GitSummary,
    ImportantFile, KnowledgeEdge, KnowledgeGraph, KnowledgeNode, NodeKind, ProjectMemory, Task,
    TaskStatus, Timestamp,
};
use crate::order::{self, stable_desc_order};
use crate::text::{self, append_str, id_in, join_strings, push_decimal};
use vstd::prelude::*;

verus! {

// ─── Knowledge-graph centrality ──────────────────────────────────────────────

/// Position of the last node with identifier `id`, or -1.
pub open spec fn last_node_index(nodes: Seq<KnowledgeNode>, id: u128) -> int
    decreases nodes.len(),
{
    if nodes.len() == 0 {
        -1
    } else if nodes.last().id == id {
        nodes.len() - 1
    } else {
        last_node_index(nodes.drop_last(), id)
    }
}

/// 1 when the node that `id` names is a file node at `path`, else 0.
pub open spec fn endpoint_weight(nodes: Seq<KnowledgeNode>, id: u128, path: Seq<char>) -> nat {
    let k = last_node_index(nodes, id);
    if 0 <= k < nodes.len() && nodes[k].kind == NodeKind::File && (nodes[k].path matches Some(p) && p@ == path) {
        1
    } else {
        0
    }
}

/// How many edge endpoints touch the file node(s) at `path` (degree centrality).
pub open spec fn file_degree(nodes: Seq<KnowledgeNode>, edges: Seq<KnowledgeEdge>, path: Seq<char>) -> nat
    decreases edges.len(),
{
    if edges.len() == 0 {
        0
    } else {
        file_degree(nodes, edges.drop_last(), path) + endpoint_weight(nodes, edges.last().from, path)
            + endpoint_weight(nodes, edges.last().to, path)
    }
}

fn find_last_node(nodes: &Vec<KnowledgeNode>, id: u128) -> (r: Option<usize>)
    ensures
        match r {
            Some(k) => last_node_index(nodes@, id) == k as int && k < nodes@.len(),
            None => last_node_index(nodes@, id) == -1,
        },
{
    let mut i: usize = nodes.len();
    assert(nodes@.take(nodes@.len() as int) =~= nodes@);
    while i > 0
        invariant
            i <= nodes@.len(),
            last_node_index(nodes@, id) == last_node_index(nodes@.take(i as int), id),
        decreases i,
    {
        if nodes[i - 1].id == id {
            return Some(i - 1);
        }
        assert(nodes@.take(i as int).drop_last() =~= nodes@.take(i - 1));
        i = i - 1;
    }
    None
}

fn weight_of(nodes: &Vec<KnowledgeNode>, id: u128, path: &str) -> (w: u128)
    ensures
        w as nat == endpoint_weight(nodes@, id, path@),
{
    match find_last_node(nodes, id) {
        Some(k) => {
            let n = &nodes[k];
            if n.kind == NodeKind::File {
                match &n.path {
                    Some(p) => if text::str_eq(p.as_str(), path) { 1 } else { 0 },
                    None => 0,
                }
            } else {
                0
            }
        },
        None => 0,
    }
}

/// The degree centrality of the file at `path` in the graph.
pub fn degree_of_file(graph: &KnowledgeGraph, path: &str) -> (d: u128)
    ensures
        d as nat == file_degree(graph.nodes@, graph.edges@, path@),
{
    let mut d: u128 = 0;
    let mut i: usize = 0;
    while i < graph.edges.len()
        invariant
            i <= graph.edges@.len(),
            d as nat == file_degree(graph.nodes@, graph.edges@.take(i as int), path@),
            d <= 2 * i,
        decreases graph.edges@.len() - i,
    {
        let e = graph.edges[i];
        let a = weight_of(&graph.nodes, e.from, path);
        let b = weight_of(&graph.nodes, e.to, path);
        assert(graph.edges@.take(i + 1).drop_last() =~= graph.edges@.take(i as int));
        d = d + a + b;
        i = i + 1;
    }
    assert(graph.edges@.take(graph.edges@.len() as int) =~= graph.edges@);
    d
}


// ─── Ranking important files ─────────────────────────────────────────────────

/// Rank of an important file, in twentieths: its scanner relevance, 3/20 per
/// graph edge touching it, and a full point when the focus search found it.
pub open spec fn file_score(f: ImportantFile, graph: KnowledgeGraph, relevant_files: Seq<String>) -> int {
    f.relevance + 3 * file_degree(graph.nodes@, graph.edges@, f.path@) + if text::texts(
        relevant_files,
    ).contains(f.path@) {
        20int
    } else {
        0int
    }
}

impl ImportantFile {
    /// A copy of this file entry.
    pub fn duplicate(&self) -> (r: ImportantFile)
        ensures
            r == *self,
    {
        ImportantFile { path: self.path.clone(), reason: self.reason.clone(), relevance: self.relevance }
    }
}

/// Important files by descending score, ties kept in their given order.
pub fn rank_files(
    files: &Vec<ImportantFile>,
    graph: &KnowledgeGraph,
    relevant_files: &Vec<String>,
) -> (r: Vec<ImportantFile>)
    ensures
        order::is_stable_desc_arrangement(
            files@,
            r@,
            |f: ImportantFile| file_score(f, *graph, relevant_files@),
        ),
{
    let ghost score = |f: ImportantFile| file_score(f, *graph, relevant_files@);
    let mut keys: Vec<i128> = Vec::new();
    let mut k: usize = 0;
    while k < files.len()
        invariant
            k <= files@.len(),
            keys@.len() == k,
            score == (|f: ImportantFile| file_score(f, *graph, relevant_files@)),
            forall|a: int| 0 <= a < k ==> #[trigger] keys@[a] as int == score(files@[a]),
        decreases files@.len() - k,
    {
        let f = &files[k];
        let d = degree_of_file(graph, f.path.as_str());
        let ne = graph.edges.len();
        assert(d <= 2 * ne) by {
            lemma_degree_bound(graph.nodes@, graph.edges@, f.path@);
        }
        let boost: i128 = if id_in(relevant_files, f.path.as_str()) { 20 } else { 0 };
        keys.push(f.relevance as i128 + 3 * (d as i128) + boost);
        k = k + 1;
    }
    let order = stable_desc_order(&keys);
    let ghost ord = order@.map_values(|x: usize| x as int);
    assert(keys@.map_values(|x: i128| x as int) =~= files@.map_values(score));
    let mut out: Vec<ImportantFile> = Vec::new();
    let mut m: usize = 0;
    while m < order.len()
        invariant
            m <= order@.len(),
            ord == order@.map_values(|x: usize| x as int),
            order::is_stable_desc_order(files@.map_values(score), ord),
            out@.len() == m,
            forall|a: int| 0 <= a < m ==> #[trigger] out@[a] == files@[ord[a]],
        decreases order@.len() - m,
    {
        assert(0 <= ord[m as int] < files@.len());
        out.push(files[order[m]].duplicate());
        m = m + 1;
    }
    out
}

proof fn lemma_degree_bound(nodes: Seq<KnowledgeNode>, edges: Seq<KnowledgeEdge>, path: Seq<char>)
    ensures
        file_degree(nodes, edges, path) <= 2 * edges.len(),
    decreases edges.len(),
{
    if edges.len() > 0 {
        lemma_degree_bound(nodes, edges.drop_last(), path);
    }
}

proof fn lemma_last_node_index(nodes: Seq<KnowledgeNode>, id: u128)
    ensures
        -1 <= last_node_index(nodes, id) < nodes.len(),
        last_node_index(nodes, id) >= 0 ==> nodes[last_node_index(nodes, id)].id == id,
        last_node_index(nodes, id) == -1 ==> forall|j: int| 0 <= j < nodes.len() ==> nodes[j].id != id,
        forall|j: int| last_node_index(nodes, id) < j < nodes.len() ==> nodes[j].id != id,
    decreases nodes.len(),
{
    if nodes.len() > 0 {
        lemma_last_node_index(nodes.drop_last(), id);
        assert forall|j: int| 0 <= j < nodes.len() - 1 implies nodes[j] == nodes.drop_last()[j] by {}
    }
}

/// With nothing touching a file in the graph, its score is its scanner relevance,
/// plus a full point (20) exactly when the focus search found it.
pub proof fn law_score_without_edges(f: ImportantFile, graph: KnowledgeGraph, relevant_files: Seq<String>)
    requires
        graph.edges@.len() == 0,
    ensures
        text::texts(relevant_files).contains(f.path@) ==> file_score(f, graph, relevant_files) == f.relevance + 20,
        !text::texts(relevant_files).contains(f.path@) ==> file_score(f, graph, relevant_files) == f.relevance,
{
}

/// Degree centrality raises a file's rank: adding to the graph one edge from the
/// file's node (its identifier unique among the nodes) to a node that is not that
/// file raises the file's score by exactly 3 (0.15 in twentieths), and the score
/// never falls below the scanner relevance.
pub proof fn law_edge_touching_file_raises_score(
    f: ImportantFile,
    g: KnowledgeGraph,
    g2: KnowledgeGraph,
    relevant_files: Seq<String>,
    e: KnowledgeEdge,
    k: int,
)
    requires
        g2.nodes@ == g.nodes@,
        g2.edges@ == g.edges@.push(e),
        0 <= k < g.nodes@.len(),
        g.nodes@[k].id == e.from,
        g.nodes@[k].kind == NodeKind::File,
        g.nodes@[k].path matches Some(p) && p@ == f.path@,
        forall|j: int| 0 <= j < g.nodes@.len() && j != k ==> g.nodes@[j].id != e.from,
        forall|j: int|
            0 <= j < g.nodes@.len() && g.nodes@[j].id == e.to ==> !(g.nodes@[j].kind == NodeKind::File && (
            g.nodes@[j].path matches Some(p) && p@ == f.path@)),
    ensures
        file_score(f, g2, relevant_files) == file_score(f, g, relevant_files) + 3,
        file_score(f, g, relevant_files) >= f.relevance,
{
    let nodes = g.nodes@;
    lemma_last_node_index(nodes, e.from);
    lemma_last_node_index(nodes, e.to);
    assert(last_node_index(nodes, e.from) == k);
    assert(endpoint_weight(nodes, e.from, f.path@) == 1);
    assert(endpoint_weight(nodes, e.to, f.path@) == 0);
    assert(g2.edges@.drop_last() =~= g.edges@);
    assert(file_degree(nodes, g2.edges@, f.path@) == file_degree(nodes, g.edges@, f.path@) + 1);
}

// ─── Focus search hits ───────────────────────────────────────────────────────

/// A search hit on project memory: what kind of document it is, and its id.
#[derive(Clone, Debug)]
pub struct MemoryHit {
    pub doc_id: String,
    pub source: String,
}

/// The ids of the hits from `source`, in order.
pub open spec fn hit_ids(hits: Seq<MemoryHit>, source: Seq<char>) -> Seq<String>
    decreases hits.len(),
{
    if hits.len() == 0 {
        Seq::empty()
    } else if hits.last().source@ == source {
        hit_ids(hits.drop_last(), source).push(hits.last().doc_id)
    } else {
        hit_ids(hits.drop_last(), source)
    }
}

/// The ids of the hits whose source is `source`.
pub fn ids_from(hits: &Vec<MemoryHit>, source: &str) -> (r: Vec<String>)
    ensures
        r@ == hit_ids(hits@, source@),
{
    let mut out: Vec<String> = Vec::new();
    let mut i: usize = 0;
    while i < hits.len()
        invariant
            i <= hits@.len(),
            out@ == hit_ids(hits@.take(i as int), source@),
        decreases hits@.len() - i,
    {
        assert(hits@.take(i + 1).drop_last() =~= hits@.take(i as int));
        if text::str_eq(hits[i].source.as_str(), source) {
            out.push(hits[i].doc_id.clone());
        }
        i = i + 1;
    }
    assert(hits@.take(hits@.len() as int) =~= hits@);
    out
}

// ─── Decisions relevant to the focus first ───────────────────────────────────

/// Whether the search found decision `d`.
pub open spec fn is_relevant(d: DecisionView, relevant: Seq<String>) -> bool {
    text::texts(relevant).contains(ids::uuid_text(d.id))
}

/// The decisions of `ds` that the search found, in order.
pub open spec fn relevant_part(ds: Seq<DecisionView>, relevant: Seq<String>) -> Seq<DecisionView>
    decreases ds.len(),
{
    if ds.len() == 0 {
        Seq::empty()
    } else if is_relevant(ds.last(), relevant) {
        relevant_part(ds.drop_last(), relevant).push(ds.last())
    } else {
        relevant_part(ds.drop_last(), relevant)
    }
}

/// The decisions of `ds` that the search did not find, in order.
pub open spec fn other_part(ds: Seq<DecisionView>, relevant: Seq<String>) -> Seq<DecisionView>
    decreases ds.len(),
{
    if ds.len() == 0 {
        Seq::empty()
    } else if !is_relevant(ds.last(), relevant) {
        other_part(ds.drop_last(), relevant).push(ds.last())
    } else {
        other_part(ds.drop_last(), relevant)
    }
}

/// Decisions the search found first, then the others, each group in its given order.
pub fn relevant_first(ds: &Vec<Decision>, relevant: &Vec<String>) -> (r: Vec<Decision>)
    ensures
        models::decision_views(r@) == relevant_part(models::decision_views(ds@), relevant@)
            + other_part(models::decision_views(ds@), relevant@),
{
    let ghost vs = models::decision_views(ds@);
    let mut first: Vec<Decision> = Vec::new();
    let mut rest: Vec<Decision> = Vec::new();
    let mut i: usize = 0;
    while i < ds.len()
        invariant
            i <= ds@.len(),
            vs == models::decision_views(ds@),
            models::decision_views(first@) == relevant_part(vs.take(i as int), relevant@),
            models::decision_views(rest@) == other_part(vs.take(i as int), relevant@),
        decreases ds@.len() - i,
    {
        assert(vs.take(i + 1).drop_last() =~= vs.take(i as int));
        assert(vs.take(i + 1).last() == ds@[i as int]@);
        let ghost f0 = models::decision_views(first@);
        let ghost r0 = models::decision_views(rest@);
        let t = ids::id_text(ds[i].id);
        if id_in(relevant, t.as_str()) {
            first.push(ds[i].duplicate());
            assert(models::decision_views(first@) =~= f0.push(ds@[i as int]@));
        } else {
            rest.push(ds[i].duplicate());
            assert(models::decision_views(rest@) =~= r0.push(ds@[i as int]@));
        }
        i = i + 1;
    }
    assert(vs.take(vs.len() as int) =~= vs);
    let ghost f1 = models::decision_views(first@);
    let ghost r1 = models::decision_views(rest@);
    first.append(&mut rest);
    assert(models::decision_views(first@) =~= f1 + r1);
    first
}

// ─── Current task ────────────────────────────────────────────────────────────

/// `i` is the first position of a task with status `st`.
pub open spec fn is_first_task_with(tasks: Seq<Task>, st: TaskStatus, i: int) -> bool {
    &&& 0 <= i < tasks.len()
    &&& tasks[i].status == st
    &&& forall|j: int| 0 <= j < i ==> #[trigger] tasks[j].status != st
}

/// The title of the first task with status `st`, if any.
pub open spec fn first_title_with(tasks: Seq<Task>, st: TaskStatus) -> Option<String> {
    if exists|i: int| is_first_task_with(tasks, st, i) {
        Some(tasks[choose|i: int| is_first_task_with(tasks, st, i)].title)
    } else {
        None
    }
}

fn find_task_with(tasks: &Vec<Task>, st: TaskStatus) -> (r: Option<usize>)
    ensures
        match r {
            Some(i) => first_title_with(tasks@, st) == Some(tasks@[i as int].title) && i < tasks@.len(),
            None => first_title_with(tasks@, st) is None,
        },
{
    let mut i: usize = 0;
    while i < tasks.len()
        invariant
            i <= tasks@.len(),
            forall|j: int| 0 <= j < i ==> #[trigger] tasks@[j].status != st,
        decreases tasks@.len() - i,
    {
        if tasks[i].status == st {
            proof {
                assert(is_first_task_with(tasks@, st, i as int));
                let c = choose|c: int| is_first_task_with(tasks@, st, c);
                assert(c == i) by {
                    if c < i {
                        assert(tasks@[c].status != st);
                    } else if c > i {
                        assert(tasks@[i as int].status != st);
                    }
                }
            }
            return Some(i);
        }
        i = i + 1;
    }
    None
}

/// The task to continue: the focus when one was given, else the first task in
/// progress, else the first pending task, else the project's current focus.
pub open spec fn chosen_task(focus: Option<Seq<char>>, tasks: Seq<Task>, current_focus: Seq<char>) -> Seq<char> {
    match focus {
        Some(f) => f,
        None => match first_title_with(tasks, TaskStatus::InProgress) {
            Some(t) => t@,
            None => match first_title_with(tasks, TaskStatus::Pending) {
                Some(t) => t@,
                None => current_focus,
            },
        },
    }
}

/// The next step to recommend: continue the current task, else start the first
/// pending task, else address the first risk, else rescan.
pub open spec fn next_action_text(current_task: Seq<char>, tasks: Seq<Task>, risks: Seq<String>) -> Seq<char> {
    if current_task.len() > 0 {
        "Continue: "@ + current_task
    } else if first_title_with(tasks, TaskStatus::Pending) is Some {
        "Start task: "@ + first_title_with(tasks, TaskStatus::Pending).unwrap()@
    } else if risks.len() > 0 {
        "Address risk: "@ + risks[0]@
    } else {
        "Run `nexus scan` to refresh project understanding"@
    }
}

/// The next step to recommend (see `next_action_text`).
pub fn derive_next_action(current_task: &str, tasks: &Vec<Task>, risks: &Vec<String>) -> (r: String)
    ensures
        r@ == next_action_text(current_task@, tasks@, risks@),
{
    if !current_task.is_empty() {
        let mut out = "Continue: ".to_owned();
        append_str(&mut out, current_task);
        return out;
    }
    if let Some(i) = find_task_with(tasks, TaskStatus::Pending) {
        let mut out = "Start task: ".to_owned();
        append_str(&mut out, tasks[i].title.as_str());
        return out;
    }
    if risks.len() > 0 {
        let mut out = "Address risk: ".to_owned();
        append_str(&mut out, risks[0].as_str());
        return out;
    }
    "Run `nexus scan` to refresh project understanding".to_owned()
}


// ─── Prompt ──────────────────────────────────────────────────────────────────

/// An important file as a prompt line.
pub open spec fn file_line(f: ImportantFile) -> Seq<char> {
    "- "@ + f.path@ + " ("@ + f.reason@ + ")"@
}

/// The prompt lines of important files.
pub open spec fn file_lines(fs: Seq<ImportantFile>) -> Seq<Seq<char>> {
    fs.map_values(|f: ImportantFile| file_line(f))
}

/// The prompt lines of important files.
pub fn file_line_strings(fs: &Vec<ImportantFile>) -> (r: Vec<String>)
    ensures
        text::texts(r@) == file_lines(fs@),
{
    let mut out: Vec<String> = Vec::new();
    let mut i: usize = 0;
    while i < fs.len()
        invariant
            i <= fs@.len(),
            out@.len() == i,
            forall|k: int| 0 <= k < i ==> #[trigger] out@[k]@ == file_line(fs@[k]),
        decreases fs@.len() - i,
    {
        let mut line = "- ".to_owned();
        append_str(&mut line, fs[i].path.as_str());
        append_str(&mut line, " (");
        append_str(&mut line, fs[i].reason.as_str());
        append_str(&mut line, ")");
        out.push(line);
        i = i + 1;
    }
    assert(text::texts(out@) =~= file_lines(fs@));
    out
}

/// The full continuation prompt of a context.
pub open spec fn full_prompt(ctx: ContinuationContext) -> Seq<char> {
    "You are continuing work on an existing software project. Full context has been reconstructed by Athreix Nexus.\n\n## PROJECT OVERVIEW\n"@
        + ctx.project_overview@
        + "\n\n## COMPLETED WORK\n"@
        + text::join_text(text::texts(ctx.completed_work@), "\n"@)
        + "\n\n## CURRENT TASK\n"@
        + ctx.current_task@
        + "\n\n## ARCHITECTURAL DECISIONS (binding — do not contradict)\n"@
        + text::join_text(text::texts(ctx.important_decisions@), "\n"@)
        + "\n\n## ARCHITECTURE\n"@
        + ctx.architecture_summary@
        + "\n\n## IMPORTANT FILES\n"@
        + text::join_text(file_lines(ctx.important_files@), "\n"@)
        + "\n\n## RISKS\n"@
        + text::join_text(text::texts(ctx.risks@), "\n"@)
        + "\n\n## INSTRUCTIONS\n1. Continue from current task without re-asking resolved questions.\n2. Respect all architectural decisions listed above.\n3. Match existing code style and patterns.\n4. Reference important files before creating duplicates.\n5. Propose next steps aligned with project direction.\n\n## NEXT RECOMMENDED ACTION\n"@
        + ctx.next_recommended_action@
        + "\n"@
}

/// Builds the full continuation prompt of a context.
pub fn build_full_prompt(ctx: &ContinuationContext) -> (r: String)
    ensures
        r@ == full_prompt(*ctx),
{
    let mut out = "You are continuing work on an existing software project. Full context has been reconstructed by Athreix Nexus.\n\n## PROJECT OVERVIEW\n".to_owned();
    append_str(&mut out, ctx.project_overview.as_str());
    append_str(&mut out, "\n\n## COMPLETED WORK\n");
    let h1 = join_strings(&ctx.completed_work, "\n");
    append_str(&mut out, h1.as_str());
    append_str(&mut out, "\n\n## CURRENT TASK\n");
    append_str(&mut out, ctx.current_task.as_str());
    append_str(&mut out, "\n\n## ARCHITECTURAL DECISIONS (binding — do not contradict)\n");
    let h3 = join_strings(&ctx.important_decisions, "\n");
    append_str(&mut out, h3.as_str());
    append_str(&mut out, "\n\n## ARCHITECTURE\n");
    append_str(&mut out, ctx.architecture_summary.as_str());
    append_str(&mut out, "\n\n## IMPORTANT FILES\n");
    let h5 = join_strings(&file_line_strings(&ctx.important_files), "\n");
    append_str(&mut out, h5.as_str());
    append_str(&mut out, "\n\n## RISKS\n");
    let h6 = join_strings(&ctx.risks, "\n");
    append_str(&mut out, h6.as_str());
    append_str(&mut out, "\n\n## INSTRUCTIONS\n1. Continue from current task without re-asking resolved questions.\n2. Respect all architectural decisions listed above.\n3. Match existing code style and patterns.\n4. Reference important files before creating duplicates.\n5. Propose next steps aligned with project direction.\n\n## NEXT RECOMMENDED ACTION\n");
    append_str(&mut out, ctx.next_recommended_action.as_str());
    append_str(&mut out, "\n");
    out
}


// ─── Sections of the context ─────────────────────────────────────────────────

/// A decision as a line: its text, and its rationale after a dash when it has one.
pub open spec fn decision_line(d: DecisionView) -> Seq<char> {
    match d.rationale {
        Some(r) => d.content@ + " — "@ + r@,
        None => d.content@,
    }
}

/// The lines of at most the first 15 decisions.
pub open spec fn decision_lines(ds: Seq<DecisionView>) -> Seq<Seq<char>> {
    ds.take(if ds.len() < 15 { ds.len() as int } else { 15 }).map_values(|d: DecisionView| decision_line(d))
}

fn decision_line_strings(ds: &Vec<Decision>) -> (r: Vec<String>)
    ensures
        text::texts(r@) == decision_lines(models::decision_views(ds@)),
{
    let n = if ds.len() < 15 { ds.len() } else { 15 };
    let mut out: Vec<String> = Vec::new();
    let mut i: usize = 0;
    while i < n
        invariant
            n <= ds@.len(),
            n == (if ds@.len() < 15 { ds@.len() } else { 15 }),
            i <= n,
            out@.len() == i,
            forall|k: int| 0 <= k < i ==> #[trigger] out@[k]@ == decision_line(ds@[k]@),
        decreases n - i,
    {
        let d = &ds[i];
        let mut line = d.content.clone();
        if let Some(r) = &d.rationale {
            append_str(&mut line, " — ");
            append_str(&mut line, r.as_str());
        }
        out.push(line);
        i = i + 1;
    }
    assert(text::texts(out@) =~= decision_lines(models::decision_views(ds@)));
    out
}

/// A commit as a line of completed work.
pub open spec fn commit_line(c: CommitSummary) -> Seq<char> {
    "["@ + c.hash@ + "] "@ + c.message@
}

/// The completed work recorded in memory, or else the last ten commits.
pub open spec fn completed_work_of(memory: ProjectMemory, git: GitSummary) -> Seq<Seq<char>> {
    if memory.completed_work@.len() == 0 {
        let cs = git.recent_commits@;
        cs.take(if cs.len() < 10 { cs.len() as int } else { 10 }).map_values(|c: CommitSummary| commit_line(c))
    } else {
        text::texts(memory.completed_work@)
    }
}

fn completed_work(memory: &ProjectMemory, git: &GitSummary) -> (r: Vec<String>)
    ensures
        text::texts(r@) == completed_work_of(*memory, *git),
{
    if memory.completed_work.len() > 0 {
        return text::dup_strings(&memory.completed_work);
    }
    let cs = &git.recent_commits;
    let n = if cs.len() < 10 { cs.len() } else { 10 };
    let mut out: Vec<String> = Vec::new();
    let mut i: usize = 0;
    while i < n
        invariant
            n <= cs@.len(),
            n == (if cs@.len() < 10 { cs@.len() } else { 10 }),
            i <= n,
            out@.len() == i,
            forall|k: int| 0 <= k < i ==> #[trigger] out@[k]@ == commit_line(cs@[k]),
        decreases n - i,
    {
        let mut line = "[".to_owned();
        append_str(&mut line, cs[i].hash.as_str());
        append_str(&mut line, "] ");
        append_str(&mut line, cs[i].message.as_str());
        out.push(line);
        i = i + 1;
    }
    assert(text::texts(out@) =~= completed_work_of(*memory, *git));
    out
}

/// Risks derived when none are recorded: uncommitted files, and more than 50 dependencies.
pub open spec fn derived_risks(git: GitSummary, arch: Architecture) -> Seq<Seq<char>> {
    (if git.dirty_files@.len() > 0 {
        seq![text::decimal_text(git.dirty_files@.len()) + " uncommitted files may cause context drift"@]
    } else {
        Seq::empty()
    }) + (if arch.dependencies@.len() > 50 {
        seq!["High dependency count increases supply chain risk"@]
    } else {
        Seq::empty()
    })
}

/// The risks recorded in memory, or else the derived ones.
pub open spec fn risks_of(memory: ProjectMemory, git: GitSummary, arch: Architecture) -> Seq<Seq<char>> {
    if memory.risks@.len() == 0 {
        derived_risks(git, arch)
    } else {
        text::texts(memory.risks@)
    }
}

fn risks(memory: &ProjectMemory, git: &GitSummary, arch: &Architecture) -> (r: Vec<String>)
    ensures
        text::texts(r@) == risks_of(*memory, *git, *arch),
{
    if memory.risks.len() > 0 {
        return text::dup_strings(&memory.risks);
    }
    let mut out: Vec<String> = Vec::new();
    if git.dirty_files.len() > 0 {
        let mut line = String::new();
        push_decimal(&mut line, git.dirty_files.len());
        append_str(&mut line, " uncommitted files may cause context drift");
        assert(line@ =~= text::decimal_text(git.dirty_files@.len()) + " uncommitted files may cause context drift"@);
        out.push(line);
    }
    if arch.dependencies.len() > 50 {
        out.push("High dependency count increases supply chain risk".to_owned());
    }
    assert(text::texts(out@) =~= risks_of(*memory, *git, *arch));
    out
}

/// The project overview paragraph.
pub open spec fn overview_of(memory: ProjectMemory, git: GitSummary) -> Seq<char> {
    "Project: "@ + memory.project_name@ + "\n"@ + (if memory.description@.len() == 0 {
        "No description set."@
    } else {
        memory.description@
    }) + "\nTechnologies: "@ + text::join_text(text::texts(memory.technologies@), ", "@)
        + "\nBranch: "@ + git.branch@ + " | Commits: "@ + text::decimal_text(git.commit_count as nat)
        + " | Last updated: "@ + ids::time_text(memory.updated_at, "%Y-%m-%d %H:%M UTC"@)
}

fn overview(memory: &ProjectMemory, git: &GitSummary) -> (r: String)
    ensures
        r@ == overview_of(*memory, *git),
{
    let mut out = "Project: ".to_owned();
    append_str(&mut out, memory.project_name.as_str());
    append_str(&mut out, "\n");
    let desc = if memory.description.as_str().is_empty() {
        "No description set."
    } else {
        memory.description.as_str()
    };
    append_str(&mut out, desc);
    append_str(&mut out, "\nTechnologies: ");
    let tech = join_strings(&memory.technologies, ", ");
    append_str(&mut out, tech.as_str());
    append_str(&mut out, "\nBranch: ");
    append_str(&mut out, git.branch.as_str());
    append_str(&mut out, " | Commits: ");
    push_decimal(&mut out, git.commit_count);
    append_str(&mut out, " | Last updated: ");
    let when = format_time(memory.updated_at, "%Y-%m-%d %H:%M UTC");
    append_str(&mut out, when.as_str());
    out
}

/// The architecture summary: the layer tree, or a hint to scan.
pub open spec fn summary_of(arch: Architecture) -> Seq<char> {
    if arch.layers@.len() == 0 {
        "No architecture scan available. Run `nexus scan`."@
    } else {
        crate::structure::architecture_tree(arch.layers@)
    }
}

/// The trimmed focus task, when one was given and it is not blank.
pub open spec fn focus_of(focus_task: Option<String>) -> Option<Seq<char>> {
    match focus_task {
        Some(s) => if text::trimmed_text(s@).len() > 0 {
            Some(text::trimmed_text(s@))
        } else {
            None
        },
        None => None,
    }
}

// ─── The context engine ──────────────────────────────────────────────────────

/// Everything a continuation context is built from.
pub struct ContextEngine {
    pub memory: ProjectMemory,
    pub architecture: Architecture,
    /// The active decisions, newest first.
    pub decisions: Vec<Decision>,
    pub tasks: Vec<Task>,
    pub git: GitSummary,
    pub graph: KnowledgeGraph,
}

/// Whether `ctx` is the continuation context (apart from its generation time)
/// of `engine` for the given focus and search hits.
pub open spec fn is_continuation(
    engine: ContextEngine,
    focus_task: Option<String>,
    hits: Seq<MemoryHit>,
    ctx: ContinuationContext,
) -> bool {
    let focus = focus_of(focus_task);
    let rel_decisions = if focus is Some { hit_ids(hits, "decision"@) } else { Seq::empty() };
    let rel_files = if focus is Some { hit_ids(hits, "file"@) } else { Seq::empty() };
    let ds = models::decision_views(engine.decisions@);
    let ordered = relevant_part(ds, rel_decisions) + other_part(ds, rel_decisions);
    &&& ctx.project_overview@ == overview_of(engine.memory, engine.git)
    &&& text::texts(ctx.completed_work@) == completed_work_of(engine.memory, engine.git)
    &&& ctx.current_task@ == chosen_task(focus, engine.tasks@, engine.memory.current_focus@)
    &&& text::texts(ctx.important_decisions@) == decision_lines(ordered)
    &&& order::is_stable_desc_arrangement(
        engine.architecture.important_files@,
        ctx.important_files@,
        |f: ImportantFile| file_score(f, engine.graph, rel_files),
    )
    &&& ctx.architecture_summary@ == summary_of(engine.architecture)
    &&& text::texts(ctx.risks@) == risks_of(engine.memory, engine.git, engine.architecture)
    &&& ctx.next_recommended_action@ == next_action_text(ctx.current_task@, engine.tasks@, ctx.risks@)
    &&& ctx.ai_continuation_prompt@ == full_prompt(ctx)
    &&& !ctx.compressed
    &&& ctx.token_estimate == crate::compression::estimated_tokens(ctx.ai_continuation_prompt@)
}

impl ContextEngine {
    /// The continuation context without a focus task.
    pub fn continue_context(&self) -> (ctx: ContinuationContext)
        ensures
            is_continuation(*self, None, Seq::empty(), ctx),
    {
        let hits: Vec<MemoryHit> = Vec::new();
        self.continue_context_for(None, &hits)
    }

    /// The continuation context, generated now, optionally focused on a task
    /// (see `continue_context_at`).
    pub fn continue_context_for(&self, focus_task: Option<String>, hits: &Vec<MemoryHit>) -> (ctx: ContinuationContext)
        ensures
            is_continuation(*self, focus_task, hits@, ctx),
    {
        let now = ids::current_time();
        self.continue_context_at(focus_task, hits, now)
    }

    /// The continuation context generated at `now`. A non-blank focus task
    /// becomes the current task, and the decisions and files that the search
    /// `hits` found for it are ranked first.
    pub fn continue_context_at(&self, focus_task: Option<String>, hits: &Vec<MemoryHit>, now: Timestamp) -> (ctx: ContinuationContext)
        ensures
            ctx.generated_at == now,
            is_continuation(*self, focus_task, hits@, ctx),
    {
        let mut focus: Option<String> = None;
        if let Some(t) = &focus_task {
            let trimmed = text::trim_text(t.as_str());
            if !trimmed.is_empty() {
                focus = Some(trimmed.to_owned());
            }
        }
        assert(match focus { Some(f) => focus_of(focus_task) == Some(f@), None => focus_of(focus_task) is None });
        let (rel_decisions, rel_files) = if focus.is_some() {
            (ids_from(hits, "decision"), ids_from(hits, "file"))
        } else {
            (Vec::new(), Vec::new())
        };
        let ordered = relevant_first(&self.decisions, &rel_decisions);
        let current_task = match &focus {
            Some(f) => f.clone(),
            None => match find_task_with(&self.tasks, TaskStatus::InProgress) {
                Some(i) => self.tasks[i].title.clone(),
                None => match find_task_with(&self.tasks, TaskStatus::Pending) {
                    Some(i) => self.tasks[i].title.clone(),
                    None => self.memory.current_focus.clone(),
                },
            },
        };
        let important_decisions = decision_line_strings(&ordered);
        let architecture_summary = if self.architecture.layers.len() == 0 {
            "No architecture scan available. Run `nexus scan`.".to_owned()
        } else {
            crate::structure::format_architecture_tree(&self.architecture.layers)
        };
        let completed = completed_work(&self.memory, &self.git);
        let risk_lines = risks(&self.memory, &self.git, &self.architecture);
        let next_action = derive_next_action(current_task.as_str(), &self.tasks, &risk_lines);
        let ranked = rank_files(&self.architecture.important_files, &self.graph, &rel_files);
        let mut ctx = ContinuationContext {
            generated_at: now,
            project_overview: overview(&self.memory, &self.git),
            completed_work: completed,
            current_task,
            important_decisions,
            important_files: ranked,
            architecture_summary,
            risks: risk_lines,
            next_recommended_action: next_action,
            ai_continuation_prompt: String::new(),
            compressed: false,
            token_estimate: 0,
        };
        let prompt = build_full_prompt(&ctx);
        ctx.ai_continuation_prompt = prompt;
        ctx.token_estimate = crate::compression::estimate_tokens(ctx.ai_continuation_prompt.as_str());
        ctx
    }
}


// ─── Rendering ───────────────────────────────────────────────────────────────

/// A bullet line.
pub open spec fn bullet(s: Seq<char>) -> Seq<char> {
    "  • "@ + s
}

/// Items as bullet lines, or a placeholder when there are none.
pub open spec fn bullet_block(items: Seq<String>, placeholder: Seq<char>) -> Seq<char> {
    if items.len() == 0 {
        placeholder
    } else {
        text::join_text(text::texts(items).map_values(|s: Seq<char>| bullet(s)), "\n"@)
    }
}

fn bullets(items: &Vec<String>, placeholder: &str) -> (r: String)
    ensures
        r@ == bullet_block(items@, placeholder@),
{
    if items.len() == 0 {
        return placeholder.to_owned();
    }
    let mut lines: Vec<String> = Vec::new();
    let mut i: usize = 0;
    while i < items.len()
        invariant
            i <= items@.len(),
            lines@.len() == i,
            forall|k: int| 0 <= k < i ==> #[trigger] lines@[k]@ == bullet(items@[k]@),
        decreases items@.len() - i,
    {
        let mut line = "  • ".to_owned();
        append_str(&mut line, items[i].as_str());
        lines.push(line);
        i = i + 1;
    }
    assert(text::texts(lines@) =~= text::texts(items@).map_values(|s: Seq<char>| bullet(s)));
    join_strings(&lines, "\n")
}

/// An important file as a bullet line.
pub open spec fn file_bullet(f: ImportantFile) -> Seq<char> {
    "  • "@ + f.path@ + " — "@ + f.reason@
}

/// At most 15 important files as bullet lines, or a hint to scan when there are none.
pub open spec fn files_block(fs: Seq<ImportantFile>) -> Seq<char> {
    if fs.len() == 0 {
        "  (run `nexus scan`)"@
    } else {
        text::join_text(
            fs.take(if fs.len() < 15 { fs.len() as int } else { 15 }).map_values(|f: ImportantFile| file_bullet(f)),
            "\n"@,
        )
    }
}

fn file_bullets(fs: &Vec<ImportantFile>) -> (r: String)
    ensures
        r@ == files_block(fs@),
{
    if fs.len() == 0 {
        return "  (run `nexus scan`)".to_owned();
    }
    let n = if fs.len() < 15 { fs.len() } else { 15 };
    let mut lines: Vec<String> = Vec::new();
    let mut i: usize = 0;
    while i < n
        invariant
            n <= fs@.len(),
            n == (if fs@.len() < 15 { fs@.len() } else { 15 }),
            i <= n,
            lines@.len() == i,
            forall|k: int| 0 <= k < i ==> #[trigger] lines@[k]@ == file_bullet(fs@[k]),
        decreases n - i,
    {
        let mut line = "  • ".to_owned();
        append_str(&mut line, fs[i].path.as_str());
        append_str(&mut line, " — ");
        append_str(&mut line, fs[i].reason.as_str());
        lines.push(line);
        i = i + 1;
    }
    assert(text::texts(lines@) =~= fs@.take(n as int).map_values(|f: ImportantFile| file_bullet(f)));
    join_strings(&lines, "\n")
}

/// The report shown for a continuation context.
pub open spec fn continue_report(ctx: ContinuationContext) -> Seq<char> {
    "╔══════════════════════════════════════════════════════════════╗\n║              ATHREIX NEXUS — PROJECT CONTINUATION            ║\n║         Never explain your project to an AI twice.           ║\n╚══════════════════════════════════════════════════════════════╝\n\nGenerated: "@
        + ids::time_text(ctx.generated_at, "%Y-%m-%d %H:%M:%S UTC"@)
        + "\nToken estimate: ~"@
        + text::decimal_text(ctx.token_estimate as nat)
        + (if ctx.compressed { " (compressed)"@ } else { ""@ })
        + "\n\n━━━━━━━━━━━━━━━━━━━━━━━━━━━━━━━━━━━━━━━━━━━━━━━━━━━━━━━━━━━━━━\nPROJECT OVERVIEW\n━━━━━━━━━━━━━━━━━━━━━━━━━━━━━━━━━━━━━━━━━━━━━━━━━━━━━━━━━━━━━━\n"@
        + ctx.project_overview@
        + "\n\n━━━━━━━━━━━━━━━━━━━━━━━━━━━━━━━━━━━━━━━━━━━━━━━━━━━━━━━━━━━━━━\nCOMPLETED WORK\n━━━━━━━━━━━━━━━━━━━━━━━━━━━━━━━━━━━━━━━━━━━━━━━━━━━━━━━━━━━━━━\n"@
        + bullet_block(ctx.completed_work@, "  (none recorded)"@)
        + "\n\n━━━━━━━━━━━━━━━━━━━━━━━━━━━━━━━━━━━━━━━━━━━━━━━━━━━━━━━━━━━━━━\nCURRENT TASK\n━━━━━━━━━━━━━━━━━━━━━━━━━━━━━━━━━━━━━━━━━━━━━━━━━━━━━━━━━━━━━━\n"@
        + ctx.current_task@
        + "\n\n━━━━━━━━━━━━━━━━━━━━━━━━━━━━━━━━━━━━━━━━━━━━━━━━━━━━━━━━━━━━━━\nIMPORTANT DECISIONS\n━━━━━━━━━━━━━━━━━━━━━━━━━━━━━━━━━━━━━━━━━━━━━━━━━━━━━━━━━━━━━━\n"@
        + bullet_block(ctx.important_decisions@, "  (none recorded — use `nexus decide`)"@)
        + "\n\n━━━━━━━━━━━━━━━━━━━━━━━━━━━━━━━━━━━━━━━━━━━━━━━━━━━━━━━━━━━━━━\nIMPORTANT FILES\n━━━━━━━━━━━━━━━━━━━━━━━━━━━━━━━━━━━━━━━━━━━━━━━━━━━━━━━━━━━━━━\n"@
        + files_block(ctx.important_files@)
        + "\n\n━━━━━━━━━━━━━━━━━━━━━━━━━━━━━━━━━━━━━━━━━━━━━━━━━━━━━━━━━━━━━━\nARCHITECTURE SUMMARY\n━━━━━━━━━━━━━━━━━━━━━━━━━━━━━━━━━━━━━━━━━━━━━━━━━━━━━━━━━━━━━━\n"@
        + ctx.architecture_summary@
        + "\n\n━━━━━━━━━━━━━━━━━━━━━━━━━━━━━━━━━━━━━━━━━━━━━━━━━━━━━━━━━━━━━━\nRISKS\n━━━━━━━━━━━━━━━━━━━━━━━━━━━━━━━━━━━━━━━━━━━━━━━━━━━━━━━━━━━━━━\n"@
        + bullet_block(ctx.risks@, "  (none identified)"@)
        + "\n\n━━━━━━━━━━━━━━━━━━━━━━━━━━━━━━━━━━━━━━━━━━━━━━━━━━━━━━━━━━━━━━\nNEXT RECOMMENDED ACTION\n━━━━━━━━━━━━━━━━━━━━━━━━━━━━━━━━━━━━━━━━━━━━━━━━━━━━━━━━━━━━━━\n"@
        + ctx.next_recommended_action@
        + "\n\n━━━━━━━━━━━━━━━━━━━━━━━━━━━━━━━━━━━━━━━━━━━━━━━━━━━━━━━━━━━━━━\nAI CONTINUATION PROMPT\n━━━━━━━━━━━━━━━━━━━━━━━━━━━━━━━━━━━━━━━━━━━━━━━━━━━━━━━━━━━━━━\n"@
        + ctx.ai_continuation_prompt@
        + "\n"@
}

impl ContextEngine {
    /// Renders a continuation context as the boxed report shown to the user.
    pub fn format_continue_output(&self, ctx: &ContinuationContext) -> (r: String)
        ensures
            r@ == continue_report(*ctx),
    {
        format_continue_report(ctx)
    }
}

/// Renders a continuation context as the boxed report shown to the user.
pub fn format_continue_report(ctx: &ContinuationContext) -> (r: String)
    ensures
        r@ == continue_report(*ctx),
{
    let mut out = "╔══════════════════════════════════════════════════════════════╗\n║              ATHREIX NEXUS — PROJECT CONTINUATION            ║\n║         Never explain your project to an AI twice.           ║\n╚══════════════════════════════════════════════════════════════╝\n\nGenerated: ".to_owned();
    let when = format_time(ctx.generated_at, "%Y-%m-%d %H:%M:%S UTC");
    append_str(&mut out, when.as_str());
    append_str(&mut out, "\nToken estimate: ~");
    push_decimal(&mut out, ctx.token_estimate);
    let flag = if ctx.compressed { " (compressed)" } else { "" };
    append_str(&mut out, flag);
    append_str(&mut out, "\n\n━━━━━━━━━━━━━━━━━━━━━━━━━━━━━━━━━━━━━━━━━━━━━━━━━━━━━━━━━━━━━━\nPROJECT OVERVIEW\n━━━━━━━━━━━━━━━━━━━━━━━━━━━━━━━━━━━━━━━━━━━━━━━━━━━━━━━━━━━━━━\n");
    append_str(&mut out, ctx.project_overview.as_str());
    append_str(&mut out, "\n\n━━━━━━━━━━━━━━━━━━━━━━━━━━━━━━━━━━━━━━━━━━━━━━━━━━━━━━━━━━━━━━\nCOMPLETED WORK\n━━━━━━━━━━━━━━━━━━━━━━━━━━━━━━━━━━━━━━━━━━━━━━━━━━━━━━━━━━━━━━\n");
    let b1 = bullets(&ctx.completed_work, "  (none recorded)");
    append_str(&mut out, b1.as_str());
    append_str(&mut out, "\n\n━━━━━━━━━━━━━━━━━━━━━━━━━━━━━━━━━━━━━━━━━━━━━━━━━━━━━━━━━━━━━━\nCURRENT TASK\n━━━━━━━━━━━━━━━━━━━━━━━━━━━━━━━━━━━━━━━━━━━━━━━━━━━━━━━━━━━━━━\n");
    append_str(&mut out, ctx.current_task.as_str());
    append_str(&mut out, "\n\n━━━━━━━━━━━━━━━━━━━━━━━━━━━━━━━━━━━━━━━━━━━━━━━━━━━━━━━━━━━━━━\nIMPORTANT DECISIONS\n━━━━━━━━━━━━━━━━━━━━━━━━━━━━━━━━━━━━━━━━━━━━━━━━━━━━━━━━━━━━━━\n");
    let b2 = bullets(&ctx.important_decisions, "  (none recorded — use `nexus decide`)");
    append_str(&mut out, b2.as_str());
    append_str(&mut out, "\n\n━━━━━━━━━━━━━━━━━━━━━━━━━━━━━━━━━━━━━━━━━━━━━━━━━━━━━━━━━━━━━━\nIMPORTANT FILES\n━━━━━━━━━━━━━━━━━━━━━━━━━━━━━━━━━━━━━━━━━━━━━━━━━━━━━━━━━━━━━━\n");
    let b3 = file_bullets(&ctx.important_files);
    append_str(&mut out, b3.as_str());
    append_str(&mut out, "\n\n━━━━━━━━━━━━━━━━━━━━━━━━━━━━━━━━━━━━━━━━━━━━━━━━━━━━━━━━━━━━━━\nARCHITECTURE SUMMARY\n━━━━━━━━━━━━━━━━━━━━━━━━━━━━━━━━━━━━━━━━━━━━━━━━━━━━━━━━━━━━━━\n");
    append_str(&mut out, ctx.architecture_summary.as_str());
    append_str(&mut out, "\n\n━━━━━━━━━━━━━━━━━━━━━━━━━━━━━━━━━━━━━━━━━━━━━━━━━━━━━━━━━━━━━━\nRISKS\n━━━━━━━━━━━━━━━━━━━━━━━━━━━━━━━━━━━━━━━━━━━━━━━━━━━━━━━━━━━━━━\n");
    let b4 = bullets(&ctx.risks, "  (none identified)");
    append_str(&mut out, b4.as_str());
    append_str(&mut out, "\n\n━━━━━━━━━━━━━━━━━━━━━━━━━━━━━━━━━━━━━━━━━━━━━━━━━━━━━━━━━━━━━━\nNEXT RECOMMENDED ACTION\n━━━━━━━━━━━━━━━━━━━━━━━━━━━━━━━━━━━━━━━━━━━━━━━━━━━━━━━━━━━━━━\n");
    append_str(&mut out, ctx.next_recommended_action.as_str());
    append_str(&mut out, "\n\n━━━━━━━━━━━━━━━━━━━━━━━━━━━━━━━━━━━━━━━━━━━━━━━━━━━━━━━━━━━━━━\nAI CONTINUATION PROMPT\n━━━━━━━━━━━━━━━━━━━━━━━━━━━━━━━━━━━━━━━━━━━━━━━━━━━━━━━━━━━━━━\n");
    append_str(&mut out, ctx.ai_continuation_prompt.as_str());
    append_str(&mut out, "\n");
    out
}


/// `s` with `&`, `<` and `>` written as XML entities.
pub open spec fn xml_escaped(s: Seq<char>) -> Seq<char>
    decreases s.len(),
{
    if s.len() == 0 {
        Seq::empty()
    } else {
        xml_escaped(s.drop_last()) + escaped_char(s.last())
    }
}

/// One character as it stands in XML text.
pub open spec fn escaped_char(c: char) -> Seq<char> {
    if c == '&' {
        "&amp;"@
    } else if c == '<' {
        "&lt;"@
    } else if c == '>' {
        "&gt;"@
    } else {
        seq![c]
    }
}

/// Escapes `&`, `<` and `>` for XML text.
pub fn escape_xml(s: &str) -> (r: String)
    ensures
        r@ == xml_escaped(s@),
{
    let cs = text::chars_of(s);
    let mut out = String::new();
    let mut i: usize = 0;
    while i < cs.len()
        invariant
            i <= cs@.len(),
            cs@ == s@,
            out@ == xml_escaped(s@.take(i as int)),
        decreases cs@.len() - i,
    {
        let c = cs[i];
        let ghost before = out@;
        if c == '&' {
            append_str(&mut out, "&amp;");
        } else if c == '<' {
            append_str(&mut out, "&lt;");
        } else if c == '>' {
            append_str(&mut out, "&gt;");
        } else {
            text::push_char(&mut out, c);
            assert(out@ =~= before + seq![c]);
        }
        assert(s@.take(i + 1).drop_last() =~= s@.take(i as int));
        i = i + 1;
    }
    assert(s@.take(s@.len() as int) =~= s@);
    out
}

/// The universal handoff document wrapping a continuation context.
pub open spec fn handoff_text(ctx: ContinuationContext) -> Seq<char> {
    "<nexus-handoff version=\"1.0\">\n<!-- Athreix Nexus — Universal AI Continuation Handoff -->\n<!-- Compatible: any AI assistant, IDE agent or open agent -->\n<!-- Generated: "@
        + ids::rfc3339_text(ctx.generated_at)
        + " -->\n\n<system-context>\nYou are receiving a pre-built project continuation context from Athreix Nexus.\nThis context replaces the need for the developer to re-explain the project.\nTreat all architectural decisions as binding constraints.\n</system-context>\n\n<continuation-prompt>\n"@
        + ctx.ai_continuation_prompt@
        + "\n</continuation-prompt>\n\n<metadata>\n  <token-estimate>"@
        + text::decimal_text(ctx.token_estimate as nat)
        + "</token-estimate>\n  <compressed>"@
        + (if ctx.compressed { "true"@ } else { "false"@ })
        + "</compressed>\n  <current-task>"@
        + xml_escaped(ctx.current_task@)
        + "</current-task>\n</metadata>\n</nexus-handoff>"@
}

/// Wraps a continuation context in the universal handoff document.
pub fn format_handoff(ctx: &ContinuationContext) -> (r: String)
    ensures
        r@ == handoff_text(*ctx),
{
    let mut out = "<nexus-handoff version=\"1.0\">\n<!-- Athreix Nexus — Universal AI Continuation Handoff -->\n<!-- Compatible: any AI assistant, IDE agent or open agent -->\n<!-- Generated: ".to_owned();
    let when = format_rfc3339(ctx.generated_at);
    append_str(&mut out, when.as_str());
    append_str(&mut out, " -->\n\n<system-context>\nYou are receiving a pre-built project continuation context from Athreix Nexus.\nThis context replaces the need for the developer to re-explain the project.\nTreat all architectural decisions as binding constraints.\n</system-context>\n\n<continuation-prompt>\n");
    append_str(&mut out, ctx.ai_continuation_prompt.as_str());
    append_str(&mut out, "\n</continuation-prompt>\n\n<metadata>\n  <token-estimate>");
    push_decimal(&mut out, ctx.token_estimate);
    append_str(&mut out, "</token-estimate>\n  <compressed>");
    let flag = if ctx.compressed { "true" } else { "false" };
    append_str(&mut out, flag);
    append_str(&mut out, "</compressed>\n  <current-task>");
    let task = escape_xml(ctx.current_task.as_str());
    append_str(&mut out, task.as_str());
    append_str(&mut out, "</current-task>\n</metadata>\n</nexus-handoff>");
    out
}


// ─── Laws ────────────────────────────────────────────────────────────────────

/// A non-blank focus task becomes the current task of the context, trimmed.
pub proof fn law_focus_is_current_task(
    engine: ContextEngine,
    focus: String,
    hits: Seq<MemoryHit>,
    ctx: ContinuationContext,
)
    requires
        is_continuation(engine, Some(focus), hits, ctx),
        text::trimmed_text(focus@).len() > 0,
    ensures
        ctx.current_task@ == text::trimmed_text(focus@),
{
}

/// Without a focus task the context continues the first task in progress; when no
/// task is in progress, the first pending one; when there is neither, the project's
/// recorded focus.
pub proof fn law_task_to_continue(
    engine: ContextEngine,
    hits: Seq<MemoryHit>,
    ctx: ContinuationContext,
    i: int,
)
    requires
        is_continuation(engine, None, hits, ctx),
    ensures
        0 <= i < engine.tasks@.len() && engine.tasks@[i].status == TaskStatus::InProgress && (forall|j: int|
            0 <= j < i ==> engine.tasks@[j].status != TaskStatus::InProgress) ==> ctx.current_task@
            == engine.tasks@[i].title@,
        (forall|j: int| 0 <= j < engine.tasks@.len() ==> engine.tasks@[j].status != TaskStatus::InProgress) && 0 <= i
            < engine.tasks@.len() && engine.tasks@[i].status == TaskStatus::Pending && (forall|j: int|
            0 <= j < i ==> engine.tasks@[j].status != TaskStatus::Pending) ==> ctx.current_task@
            == engine.tasks@[i].title@,
        (forall|j: int|
            0 <= j < engine.tasks@.len() ==> engine.tasks@[j].status != TaskStatus::InProgress
                && engine.tasks@[j].status != TaskStatus::Pending) ==> ctx.current_task@
            == engine.memory.current_focus@,
{
    let ts = engine.tasks@;
    if 0 <= i < ts.len() && ts[i].status == TaskStatus::InProgress && (forall|j: int|
        0 <= j < i ==> ts[j].status != TaskStatus::InProgress) {
        assert(is_first_task_with(ts, TaskStatus::InProgress, i));
        let c = choose|c: int| is_first_task_with(ts, TaskStatus::InProgress, c);
        assert(c == i) by {
            if c < i {
                assert(ts[c].status != TaskStatus::InProgress);
            } else if c > i {
                assert(ts[i].status != TaskStatus::InProgress);
            }
        }
    }
    if (forall|j: int| 0 <= j < ts.len() ==> ts[j].status != TaskStatus::InProgress) {
        assert(!exists|c: int| is_first_task_with(ts, TaskStatus::InProgress, c));
        if 0 <= i < ts.len() && ts[i].status == TaskStatus::Pending && (forall|j: int|
            0 <= j < i ==> ts[j].status != TaskStatus::Pending) {
            assert(is_first_task_with(ts, TaskStatus::Pending, i));
            let c = choose|c: int| is_first_task_with(ts, TaskStatus::Pending, c);
            assert(c == i) by {
                if c < i {
                    assert(ts[c].status != TaskStatus::Pending);
                } else if c > i {
                    assert(ts[i].status != TaskStatus::Pending);
                }
            }
        }
    }
    if (forall|j: int| 0 <= j < ts.len() ==> ts[j].status != TaskStatus::InProgress && ts[j].status != TaskStatus::Pending) {
        assert(!exists|c: int| is_first_task_with(ts, TaskStatus::InProgress, c));
        assert(!exists|c: int| is_first_task_with(ts, TaskStatus::Pending, c));
    }
}

/// The recommended next step: continue the current task when there is one; else
/// start the first pending task; else address the first risk; else rescan.
pub proof fn law_next_step(current_task: Seq<char>, tasks: Seq<Task>, risks: Seq<String>, i: int)
    ensures
        current_task.len() > 0 ==> next_action_text(current_task, tasks, risks) == "Continue: "@ + current_task,
        current_task.len() == 0 && 0 <= i < tasks.len() && tasks[i].status == TaskStatus::Pending && (forall|j: int|
            0 <= j < i ==> tasks[j].status != TaskStatus::Pending) ==> next_action_text(current_task, tasks, risks)
            == "Start task: "@ + tasks[i].title@,
        current_task.len() == 0 && (forall|j: int| 0 <= j < tasks.len() ==> tasks[j].status != TaskStatus::Pending)
            && risks.len() > 0 ==> next_action_text(current_task, tasks, risks) == "Address risk: "@ + risks[0]@,
        current_task.len() == 0 && (forall|j: int| 0 <= j < tasks.len() ==> tasks[j].status != TaskStatus::Pending)
            && risks.len() == 0 ==> next_action_text(current_task, tasks, risks)
            == "Run `nexus scan` to refresh project understanding"@,
{
    if 0 <= i < tasks.len() && tasks[i].status == TaskStatus::Pending && (forall|j: int|
        0 <= j < i ==> tasks[j].status != TaskStatus::Pending) {
        assert(is_first_task_with(tasks, TaskStatus::Pending, i));
        let c = choose|c: int| is_first_task_with(tasks, TaskStatus::Pending, c);
        assert(c == i) by {
            if c < i {
                assert(tasks[c].status != TaskStatus::Pending);
            } else if c > i {
                assert(tasks[i].status != TaskStatus::Pending);
            }
        }
    }
    if (forall|j: int| 0 <= j < tasks.len() ==> tasks[j].status != TaskStatus::Pending) {
        assert(!exists|c: int| is_first_task_with(tasks, TaskStatus::Pending, c));
    }
}

/// The risks of a context are those recorded in memory; when none are, a risk is
/// raised for uncommitted files (naming how many) and one for more than fifty
/// dependencies, in that order, and no other.
pub proof fn law_risks(engine: ContextEngine, focus: Option<String>, hits: Seq<MemoryHit>, ctx: ContinuationContext)
    requires
        is_continuation(engine, focus, hits, ctx),
    ensures
        engine.memory.risks@.len() > 0 ==> text::texts(ctx.risks@) == text::texts(engine.memory.risks@),
        engine.memory.risks@.len() == 0 ==> ctx.risks@.len() == (if engine.git.dirty_files@.len() > 0 { 1int } else { 0int })
            + (if engine.architecture.dependencies@.len() > 50 { 1int } else { 0int }),
        engine.memory.risks@.len() == 0 && engine.git.dirty_files@.len() > 0 ==> ctx.risks@[0]@ == text::decimal_text(
            engine.git.dirty_files@.len(),
        ) + " uncommitted files may cause context drift"@,
        engine.memory.risks@.len() == 0 && engine.architecture.dependencies@.len() > 50 ==> ctx.risks@.last()@
            == "High dependency count increases supply chain risk"@,
{
    let t = text::texts(ctx.risks@);
    assert(t.len() == ctx.risks@.len());
    if engine.memory.risks@.len() == 0 {
        if engine.git.dirty_files@.len() > 0 {
            assert(t[0] == ctx.risks@[0]@);
        }
        if engine.architecture.dependencies@.len() > 50 {
            assert(t[t.len() - 1] == ctx.risks@.last()@);
        }
    }
}

/// The full continuation prompt lists, under their headers, the context's completed
/// work, current task, decisions, important files and risks (each list one item per
/// line), and ends with the next recommended action.
pub proof fn law_full_prompt_sections(ctx: ContinuationContext)
    ensures
        text::seq_contains_text(
            full_prompt(ctx),
            "\n\n## COMPLETED WORK\n"@ + text::join_text(text::texts(ctx.completed_work@), "\n"@) + "\n\n## CURRENT TASK\n"@
                + ctx.current_task@ + "\n\n## ARCHITECTURAL DECISIONS (binding — do not contradict)\n"@,
        ),
        text::seq_contains_text(
            full_prompt(ctx),
            "\n\n## ARCHITECTURAL DECISIONS (binding — do not contradict)\n"@ + text::join_text(
                text::texts(ctx.important_decisions@),
                "\n"@,
            ) + "\n\n## ARCHITECTURE\n"@,
        ),
        text::seq_contains_text(
            full_prompt(ctx),
            "\n\n## IMPORTANT FILES\n"@ + text::join_text(file_lines(ctx.important_files@), "\n"@) + "\n\n## RISKS\n"@
                + text::join_text(text::texts(ctx.risks@), "\n"@),
        ),
        text::seq_ends_with(full_prompt(ctx), "\n\n## NEXT RECOMMENDED ACTION\n"@ + ctx.next_recommended_action@ + "\n"@),
{
    let p = full_prompt(ctx);
    let h0 = "You are continuing work on an existing software project. Full context has been reconstructed by Athreix Nexus.\n\n## PROJECT OVERVIEW\n"@;
    let jc = text::join_text(text::texts(ctx.completed_work@), "\n"@);
    let jd = text::join_text(text::texts(ctx.important_decisions@), "\n"@);
    let jf = text::join_text(file_lines(ctx.important_files@), "\n"@);
    let jr = text::join_text(text::texts(ctx.risks@), "\n"@);
    let hc = "\n\n## COMPLETED WORK\n"@;
    let ht = "\n\n## CURRENT TASK\n"@;
    let hd = "\n\n## ARCHITECTURAL DECISIONS (binding — do not contradict)\n"@;
    let ha = "\n\n## ARCHITECTURE\n"@;
    let hf = "\n\n## IMPORTANT FILES\n"@;
    let hr = "\n\n## RISKS\n"@;
    let ins = "\n\n## INSTRUCTIONS\n1. Continue from current task without re-asking resolved questions.\n2. Respect all architectural decisions listed above.\n3. Match existing code style and patterns.\n4. Reference important files before creating duplicates.\n5. Propose next steps aligned with project direction.\n\n## NEXT RECOMMENDED ACTION\n"@;
    let s1 = hc + jc + ht + ctx.current_task@ + hd;
    let s2 = hd + jd + ha;
    let s3 = hf + jf + hr + jr;
    let o1 = (h0 + ctx.project_overview@).len();
    assert(p.subrange(o1 as int, (o1 + s1.len()) as int) =~= s1);
    assert(text::occurs_at(p, s1, o1 as int));
    let o2 = o1 + (hc + jc + ht + ctx.current_task@).len();
    assert(p.subrange(o2 as int, (o2 + s2.len()) as int) =~= s2);
    assert(text::occurs_at(p, s2, o2 as int));
    let o3 = o2 + (hd + jd + ha + ctx.architecture_summary@).len();
    assert(p.subrange(o3 as int, (o3 + s3.len()) as int) =~= s3);
    assert(text::occurs_at(p, s3, o3 as int));
    reveal_strlit("\n\n## INSTRUCTIONS\n1. Continue from current task without re-asking resolved questions.\n2. Respect all architectural decisions listed above.\n3. Match existing code style and patterns.\n4. Reference important files before creating duplicates.\n5. Propose next steps aligned with project direction.\n\n## NEXT RECOMMENDED ACTION\n");
    reveal_strlit("\n\n## NEXT RECOMMENDED ACTION\n");
    let nx = "\n\n## NEXT RECOMMENDED ACTION\n"@;
    let fin = nx + ctx.next_recommended_action@ + "\n"@;
    assert(ins.subrange(ins.len() - nx.len(), ins.len() as int) =~= nx);
    assert(p.subrange(p.len() - fin.len(), p.len() as int) =~= fin);
}

/// Without a focus task, the search hits play no part in the context.
pub proof fn law_no_focus_ignores_hits(
    engine: ContextEngine,
    hits1: Seq<MemoryHit>,
    hits2: Seq<MemoryHit>,
    ctx: ContinuationContext,
)
    ensures
        is_continuation(engine, None, hits1, ctx) == is_continuation(engine, None, hits2, ctx),
{
}

/// Putting the relevant decisions first only reorders: it keeps every decision once,
/// the first group holds exactly the relevant ones and the second the others.
pub proof fn law_relevant_first_rearranges(ds: Seq<DecisionView>, relevant: Seq<String>)
    ensures
        (relevant_part(ds, relevant) + other_part(ds, relevant)).to_multiset() == ds.to_multiset(),
        forall|k: int|
            0 <= k < relevant_part(ds, relevant).len() ==> is_relevant(
                #[trigger] relevant_part(ds, relevant)[k],
                relevant,
            ),
        forall|k: int|
            0 <= k < other_part(ds, relevant).len() ==> !is_relevant(
                #[trigger] other_part(ds, relevant)[k],
                relevant,
            ),
    decreases ds.len(),
{
    let a = relevant_part(ds, relevant);
    let b = other_part(ds, relevant);
    vstd::seq_lib::lemma_multiset_commutative(a, b);
    if ds.len() == 0 {
        assert(a + b =~= ds);
        return;
    }
    let p = ds.drop_last();
    let d = ds.last();
    law_relevant_first_rearranges(p, relevant);
    let pa = relevant_part(p, relevant);
    let pb = other_part(p, relevant);
    vstd::seq_lib::lemma_multiset_commutative(pa, pb);
    assert(p.push(d) =~= ds);
    vstd::seq_lib::to_multiset_build(p, d);
    if is_relevant(d, relevant) {
        vstd::seq_lib::to_multiset_build(pa, d);
        assert(a.to_multiset().add(b.to_multiset()) =~= pa.to_multiset().add(pb.to_multiset()).insert(d));
    } else {
        vstd::seq_lib::to_multiset_build(pb, d);
        assert(a.to_multiset().add(b.to_multiset()) =~= pa.to_multiset().add(pb.to_multiset()).insert(d));
    }
}

/// Escaping for XML leaves no raw `<` or `>` in the text.
pub proof fn law_escaped_has_no_brackets(s: Seq<char>)
    ensures
        forall|i: int| 0 <= i < xml_escaped(s).len() ==> #[trigger] xml_escaped(s)[i] != '<' && xml_escaped(s)[i] != '>',
    decreases s.len(),
{
    if s.len() > 0 {
        law_escaped_has_no_brackets(s.drop_last());
        let e = escaped_char(s.last());
        reveal_strlit("&amp;");
        reveal_strlit("&lt;");
        reveal_strlit("&gt;");
        assert(forall|i: int| 0 <= i < e.len() ==> #[trigger] e[i] != '<' && e[i] != '>');
        let prev = xml_escaped(s.drop_last());
        assert forall|i: int| 0 <= i < xml_escaped(s).len() implies #[trigger] xml_escaped(s)[i] != '<'
            && xml_escaped(s)[i] != '>' by {
            if i < prev.len() {
                assert(xml_escaped(s)[i] == prev[i]);
            } else {
                assert(xml_escaped(s)[i] == e[i - prev.len()]);
            }
        }
    }
}

} // verus!
