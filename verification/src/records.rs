//! The stored documents of a new project, and how records are written into the index.

use crate::ids::{self, current_time, format_time, id_text};
use crate::models::{
    self, AiSession, Architecture, Decision, DecisionStatus, DecisionStore, GitSummary,
    KnowledgeGraph, NxpDocument, ProjectMemory, Task, TaskPriority, TaskStatus, TaskStore, Timeline,
    TimelineEvent, TimelineEventKind, Timestamp,
};
use crate::text::{self, append_str};
use vstd::prelude::*;

verus! {

impl ProjectMemory {
    /// The memory of a project that starts now: no description, focus, history or risks.
    pub fn new_at(project_name: String, now: Timestamp) -> (m: ProjectMemory)
        ensures
            m.version@ == models::NEXUS_VERSION@,
            m.project_name == project_name,
            m.description@ == Seq::<char>::empty(),
            m.created_at == now,
            m.updated_at == now,
            m.technologies@.len() == 0,
            m.current_focus@ == Seq::<char>::empty(),
            m.completed_work@.len() == 0,
            m.risks@.len() == 0,
            m.metadata@ == "{}"@,
    {
        ProjectMemory {
            version: models::NEXUS_VERSION.to_owned(),
            project_name,
            description: String::new(),
            created_at: now,
            updated_at: now,
            technologies: Vec::new(),
            current_focus: String::new(),
            completed_work: Vec::new(),
            risks: Vec::new(),
            metadata: "{}".to_owned(),
        }
    }

    /// The memory of a project that starts at the current instant.
    pub fn new(project_name: String) -> (m: ProjectMemory)
        ensures
            m.version@ == models::NEXUS_VERSION@,
            m.project_name == project_name,
            m.created_at == m.updated_at,
            m.technologies@.len() == 0,
            m.completed_work@.len() == 0,
            m.risks@.len() == 0,
            m.description@.len() == 0,
            m.current_focus@.len() == 0,
            m.metadata@ == "{}"@,
    {
        ProjectMemory::new_at(project_name, current_time())
    }
}

/// The documents a freshly initialised project stores.
pub struct InitialDocuments {
    pub memory: ProjectMemory,
    pub architecture: Architecture,
    pub timeline: Timeline,
    pub decisions: DecisionStore,
    pub tasks: TaskStore,
}

/// The documents of a project initialised at `now`; `event_id` identifies the timeline's
/// first event.
pub fn initial_documents(project_name: String, now: Timestamp, event_id: u128) -> (d: InitialDocuments)
    ensures
        d.memory.project_name == project_name,
        d.memory.created_at == now,
        d.memory.version@ == models::NEXUS_VERSION@,
        d.memory.updated_at == now,
        d.memory.description@.len() == 0,
        d.memory.current_focus@.len() == 0,
        d.memory.technologies@.len() == 0,
        d.memory.completed_work@.len() == 0,
        d.memory.risks@.len() == 0,
        d.memory.metadata@ == "{}"@,
        d.architecture.version@ == models::NEXUS_VERSION@,
        d.architecture.updated_at == now,
        d.architecture.layers@.len() == 0,
        d.architecture.technologies@.len() == 0,
        d.architecture.dependencies@.len() == 0,
        d.architecture.entry_points@.len() == 0,
        d.architecture.important_files@.len() == 0,
        d.timeline.version@ == models::NEXUS_VERSION@,
        d.timeline.events@.len() == 1,
        d.timeline.events@[0].id == event_id,
        d.timeline.events@[0].kind == TimelineEventKind::Init,
        d.timeline.events@[0].title@ == "Nexus initialized"@,
        d.timeline.events@[0].description matches Some(s) && s@ == "Project memory layer created"@,
        d.timeline.events@[0].timestamp == now,
        d.timeline.events@[0].metadata@ == "{}"@,
        d.decisions.version@ == models::NEXUS_VERSION@,
        d.decisions.decisions@.len() == 0,
        d.tasks.version@ == models::NEXUS_VERSION@,
        d.tasks.tasks@.len() == 0,
{
    let memory = ProjectMemory::new_at(project_name, now);
    let architecture = Architecture {
        version: models::NEXUS_VERSION.to_owned(),
        updated_at: now,
        layers: Vec::new(),
        technologies: Vec::new(),
        dependencies: Vec::new(),
        entry_points: Vec::new(),
        important_files: Vec::new(),
    };
    let mut events: Vec<TimelineEvent> = Vec::new();
    events.push(
        TimelineEvent {
            id: event_id,
            kind: TimelineEventKind::Init,
            title: "Nexus initialized".to_owned(),
            description: Some("Project memory layer created".to_owned()),
            timestamp: now,
            metadata: "{}".to_owned(),
        },
    );
    let timeline = Timeline { version: models::NEXUS_VERSION.to_owned(), events };
    let decisions = DecisionStore { version: models::NEXUS_VERSION.to_owned(), decisions: Vec::new() };
    let tasks = TaskStore { version: models::NEXUS_VERSION.to_owned(), tasks: Vec::new() };
    InitialDocuments { memory, architecture, timeline, decisions, tasks }
}

/// The last component of a path, as `std::path::Path::file_name` finds it.
pub uninterp spec fn path_file_name(path: Seq<char>) -> Option<Seq<char>>;

/// Calls `std::path::Path::file_name`; the result is named `path_file_name`.
#[verifier::external_body]
fn file_name_of(path: &str) -> (r: Option<String>)
    ensures
        match r {
            Some(s) => path_file_name(path@) == Some(s@),
            None => path_file_name(path@) is None,
        },
{
    std::path::Path::new(path).file_name().and_then(|n| n.to_str()).map(String::from)
}

/// The name a project is initialised under: the one given, else the name of its root
/// directory, else `unnamed-project`.
pub open spec fn project_name_for(root: Seq<char>, given: Option<Seq<char>>) -> Seq<char> {
    match given {
        Some(n) => n,
        None => match path_file_name(root) {
            Some(n) => n,
            None => "unnamed-project"@,
        },
    }
}

/// Chooses the name a project is initialised under.
pub fn choose_project_name(root: &str, given: Option<String>) -> (r: String)
    ensures
        r@ == project_name_for(root@, crate::deps::opt_text(given)),
{
    match given {
        Some(n) => n,
        None => match file_name_of(root) {
            Some(n) => n,
            None => "unnamed-project".to_owned(),
        },
    }
}

/// The stored text of a decision status.
pub open spec fn decision_status_text(s: DecisionStatus) -> Seq<char> {
    match s {
        DecisionStatus::Active => "active"@,
        DecisionStatus::Superseded => "superseded"@,
        DecisionStatus::Deprecated => "deprecated"@,
    }
}

/// Writes a decision status as it is stored.
pub fn decision_status_name(s: DecisionStatus) -> (r: &'static str)
    ensures
        r@ == decision_status_text(s),
{
    match s {
        DecisionStatus::Active => "active",
        DecisionStatus::Superseded => "superseded",
        DecisionStatus::Deprecated => "deprecated",
    }
}

/// The stored text of a task status.
pub open spec fn task_status_text(s: TaskStatus) -> Seq<char> {
    match s {
        TaskStatus::Pending => "pending"@,
        TaskStatus::InProgress => "inprogress"@,
        TaskStatus::Completed => "completed"@,
        TaskStatus::Cancelled => "cancelled"@,
    }
}

/// Writes a task status as it is stored.
pub fn task_status_name(s: TaskStatus) -> (r: &'static str)
    ensures
        r@ == task_status_text(s),
{
    match s {
        TaskStatus::Pending => "pending",
        TaskStatus::InProgress => "inprogress",
        TaskStatus::Completed => "completed",
        TaskStatus::Cancelled => "cancelled",
    }
}

/// The stored text of a task priority.
pub open spec fn priority_text(p: TaskPriority) -> Seq<char> {
    match p {
        TaskPriority::Low => "low"@,
        TaskPriority::Medium => "medium"@,
        TaskPriority::High => "high"@,
        TaskPriority::Critical => "critical"@,
    }
}

/// Writes a task priority as it is stored.
pub fn priority_name(p: TaskPriority) -> (r: &'static str)
    ensures
        r@ == priority_text(p),
{
    match p {
        TaskPriority::Low => "low",
        TaskPriority::Medium => "medium",
        TaskPriority::High => "high",
        TaskPriority::Critical => "critical",
    }
}

/// An optional text, empty when absent.
pub open spec fn or_empty(o: Option<String>) -> Seq<char> {
    match o {
        Some(s) => s@,
        None => Seq::empty(),
    }
}

/// Two texts joined by one space.
fn spaced(a: &str, b: &str) -> (r: String)
    ensures
        r@ == a@ + " "@ + b@,
{
    let mut out = a.to_owned();
    append_str(&mut out, " ");
    append_str(&mut out, b);
    out
}

/// The text of an optional string, empty when absent.
fn text_or_empty(o: &Option<String>) -> (r: &str)
    ensures
        r@ == or_empty(*o),
{
    proof {
        reveal_strlit("");
    }
    match o {
        Some(s) => s.as_str(),
        None => "",
    }
}

/// The text under which a decision is indexed for full-text search: content and rationale.
pub fn decision_index_text(d: &Decision) -> (r: String)
    ensures
        r@ == d.content@ + " "@ + or_empty(d.rationale),
{
    proof {
        reveal_strlit("");
    }
    spaced(d.content.as_str(), text_or_empty(&d.rationale))
}

/// The text under which a task is indexed for full-text search: title and description.
pub fn task_index_text(t: &Task) -> (r: String)
    ensures
        r@ == t.title@ + " "@ + or_empty(t.description),
{
    proof {
        reveal_strlit("");
    }
    spaced(t.title.as_str(), text_or_empty(&t.description))
}

/// The text under which a session is indexed for full-text search: prompt and response.
pub fn session_index_text(s: &AiSession) -> (r: String)
    ensures
        r@ == s.prompt@ + " "@ + s.response@,
{
    spaced(s.prompt.as_str(), s.response.as_str())
}

/// The file a session is stored in: its instant (`%Y%m%d_%H%M%S`) and its id.
pub fn session_file_name(s: &AiSession) -> (r: String)
    ensures
        r@ == ids::time_text(s.timestamp, "%Y%m%d_%H%M%S"@) + "_"@ + ids::uuid_text(s.id) + ".json"@,
{
    let mut out = format_time(s.timestamp, "%Y%m%d_%H%M%S");
    append_str(&mut out, "_");
    let id = id_text(s.id);
    append_str(&mut out, id.as_str());
    append_str(&mut out, ".json");
    out
}

impl NxpDocument {
    /// The export of a project's memory taken at `exported_at`, under the current protocol
    /// and layout versions and with no extensions.
    pub fn assemble(
        exported_at: Timestamp,
        project: ProjectMemory,
        architecture: Architecture,
        decisions: DecisionStore,
        tasks: TaskStore,
        timeline: Timeline,
        knowledge_graph: KnowledgeGraph,
        recent_sessions: Vec<AiSession>,
        git_summary: GitSummary,
    ) -> (d: NxpDocument)
        ensures
            d.protocol_version@ == models::NXP_PROTOCOL_VERSION@,
            d.nexus_version@ == models::NEXUS_VERSION@,
            d.exported_at == exported_at,
            d.project == project,
            d.architecture == architecture,
            d.decisions == decisions,
            d.tasks == tasks,
            d.timeline == timeline,
            d.knowledge_graph == knowledge_graph,
            d.recent_sessions == recent_sessions,
            d.git_summary == Some(git_summary),
            d.extensions@ == "{}"@,
    {
        NxpDocument {
            protocol_version: models::NXP_PROTOCOL_VERSION.to_owned(),
            nexus_version: models::NEXUS_VERSION.to_owned(),
            exported_at,
            project,
            architecture,
            decisions,
            tasks,
            timeline,
            knowledge_graph,
            recent_sessions,
            git_summary: Some(git_summary),
            extensions: "{}".to_owned(),
        }
    }
}

/// Appends an event to a timeline.
pub fn append_event(timeline: &mut Timeline, event: TimelineEvent)
    ensures
        final(timeline).version == old(timeline).version,
        final(timeline).events@ == old(timeline).events@.push(event),
{
    timeline.events.push(event);
}

} // verus!
