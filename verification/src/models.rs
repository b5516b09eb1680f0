//! The data model of a project's memory.
//!
//! Identifiers are 128-bit values (the bits of a UUID), instants are seconds and
//! nanoseconds since the Unix epoch, and free-form JSON metadata is carried as
//! its text. Relevance of an important file is counted in twentieths, and
//! confidences and edge weights in hundredths.

use crate::text::append_str;
use vstd::prelude::*;

verus! {

/// The version of this memory layout, written into every stored document.
pub const NEXUS_VERSION: &'static str = "0.1.0";

/// The protocol version written into exported documents.
pub const NXP_PROTOCOL_VERSION: &'static str = "1.0.0";

/// An instant in UTC: seconds since the Unix epoch and the nanoseconds within that second.
#[derive(Clone, Copy, Debug, PartialEq, Eq, Structural, Hash)]
pub struct Timestamp {
    pub secs: i64,
    pub nanos: u32,
}

/// `a` is strictly earlier than `b`.
pub open spec fn earlier(a: Timestamp, b: Timestamp) -> bool {
    a.secs < b.secs || (a.secs == b.secs && a.nanos < b.nanos)
}

/// Whether `a` is strictly earlier than `b`.
pub fn is_earlier(a: Timestamp, b: Timestamp) -> (r: bool)
    ensures
        r == earlier(a, b),
{
    a.secs < b.secs || (a.secs == b.secs && a.nanos < b.nanos)
}

/// Identity and state of a project.
#[derive(Clone, Debug)]
pub struct ProjectMemory {
    pub version: String,
    pub project_name: String,
    pub description: String,
    pub created_at: Timestamp,
    pub updated_at: Timestamp,
    pub technologies: Vec<String>,
    pub current_focus: String,
    pub completed_work: Vec<String>,
    pub risks: Vec<String>,
    /// JSON text.
    pub metadata: String,
}

/// The part of a codebase a component belongs to.
#[derive(Clone, Copy, Debug, PartialEq, Eq, Structural, Hash)]
pub enum ComponentKind {
    Frontend,
    Backend,
    Api,
    Database,
    Shared,
    Infrastructure,
    Test,
    Config,
    Other,
}

/// A group of components of one kind.
#[derive(Clone, Debug)]
pub struct ArchitectureLayer {
    pub name: String,
    pub description: String,
    pub components: Vec<ArchitectureComponent>,
}

/// One source file seen as a component of the architecture.
#[derive(Clone, Debug)]
pub struct ArchitectureComponent {
    pub name: String,
    pub path: String,
    pub kind: ComponentKind,
    pub description: String,
}

/// A technology in use, with a confidence in hundredths.
#[derive(Clone, Debug)]
pub struct Technology {
    pub name: String,
    pub category: String,
    pub version: Option<String>,
    pub confidence_percent: u32,
}

/// A declared dependency of the project.
#[derive(Clone, Debug)]
pub struct DependencyInfo {
    pub name: String,
    pub version: Option<String>,
    pub kind: String,
    pub source_file: String,
}

/// A file worth reading first, with its relevance in twentieths (20 is full relevance).
#[derive(Clone, Debug)]
pub struct ImportantFile {
    pub path: String,
    pub reason: String,
    pub relevance: u32,
}

/// What a scan found out about the structure of the project.
#[derive(Clone, Debug)]
pub struct Architecture {
    pub version: String,
    pub updated_at: Timestamp,
    pub layers: Vec<ArchitectureLayer>,
    pub technologies: Vec<Technology>,
    pub dependencies: Vec<DependencyInfo>,
    pub entry_points: Vec<String>,
    pub important_files: Vec<ImportantFile>,
}

/// An architectural decision.
#[derive(Clone, Debug)]
pub struct Decision {
    pub id: u128,
    pub content: String,
    pub rationale: Option<String>,
    pub tags: Vec<String>,
    pub created_at: Timestamp,
    pub author: Option<String>,
    pub status: DecisionStatus,
}

/// Whether a decision still binds.
#[derive(Clone, Copy, Debug, PartialEq, Eq, Structural, Hash)]
pub enum DecisionStatus {
    Active,
    Superseded,
    Deprecated,
}

/// A decision as a value: its tags taken as a sequence.
pub struct DecisionView {
    pub id: u128,
    pub content: String,
    pub rationale: Option<String>,
    pub tags: Seq<String>,
    pub created_at: Timestamp,
    pub author: Option<String>,
    pub status: DecisionStatus,
}

impl View for Decision {
    type V = DecisionView;

    open spec fn view(&self) -> DecisionView {
        DecisionView {
            id: self.id,
            content: self.content,
            rationale: self.rationale,
            tags: self.tags@,
            created_at: self.created_at,
            author: self.author,
            status: self.status,
        }
    }
}

/// The views of a sequence of decisions.
pub open spec fn decision_views(ds: Seq<Decision>) -> Seq<DecisionView> {
    ds.map_values(|d: Decision| d@)
}

/// All decisions of a project, in the order they were recorded.
#[derive(Clone, Debug)]
pub struct DecisionStore {
    pub version: String,
    pub decisions: Vec<Decision>,
}

/// A unit of work.
#[derive(Clone, Debug)]
pub struct Task {
    pub id: u128,
    pub title: String,
    pub description: Option<String>,
    pub status: TaskStatus,
    pub priority: TaskPriority,
    pub created_at: Timestamp,
    pub updated_at: Timestamp,
    pub related_files: Vec<String>,
    pub blocked_by: Vec<u128>,
}

/// Progress of a task.
#[derive(Clone, Copy, Debug, PartialEq, Eq, Structural, Hash)]
pub enum TaskStatus {
    Pending,
    InProgress,
    Completed,
    Cancelled,
}

/// Urgency of a task.
#[derive(Clone, Copy, Debug, PartialEq, Eq, Structural, Hash)]
pub enum TaskPriority {
    Low,
    Medium,
    High,
    Critical,
}

/// All tasks of a project.
#[derive(Clone, Debug)]
pub struct TaskStore {
    pub version: String,
    pub tasks: Vec<Task>,
}

/// One entry of the project's chronology.
#[derive(Clone, Debug)]
pub struct TimelineEvent {
    pub id: u128,
    pub kind: TimelineEventKind,
    pub title: String,
    pub description: Option<String>,
    pub timestamp: Timestamp,
    /// JSON text.
    pub metadata: String,
}

/// What a timeline entry records.
#[derive(Clone, Copy, Debug, PartialEq, Eq, Structural, Hash)]
pub enum TimelineEventKind {
    Init,
    Scan,
    Decision,
    Snapshot,
    SnapshotRestore,
    Session,
    Milestone,
    TaskUpdate,
    Handoff,
    Other,
}

/// The chronology of a project.
#[derive(Clone, Debug)]
pub struct Timeline {
    pub version: String,
    pub events: Vec<TimelineEvent>,
}

/// A recorded exchange with an AI tool.
#[derive(Clone, Debug)]
pub struct AiSession {
    pub id: u128,
    pub tool: Option<String>,
    pub prompt: String,
    pub response: String,
    pub files_modified: Vec<String>,
    pub timestamp: Timestamp,
    pub notes: Option<String>,
    pub tags: Vec<String>,
}

/// Description of a memory checkpoint.
#[derive(Clone, Debug)]
pub struct SnapshotManifest {
    pub id: u128,
    pub label: String,
    pub created_at: Timestamp,
    pub description: Option<String>,
    pub memory_hash: String,
    pub architecture_hash: String,
    pub decisions_count: usize,
    pub tasks_count: usize,
}

/// The kind of thing a knowledge-graph node stands for.
#[derive(Clone, Copy, Debug, PartialEq, Eq, Structural, Hash)]
pub enum NodeKind {
    File,
    Function,
    Service,
    Api,
    Database,
    Task,
    Decision,
    Module,
    Package,
}

/// Structured metadata of a knowledge-graph node.
#[derive(Clone, Debug)]
pub enum NodeMetadata {
    /// A layer and how many components it has.
    Layer { component_count: usize },
    /// A file component and its kind.
    Component { component_kind: ComponentKind },
    /// A package and its declared version and section.
    Package { version: Option<String>, section: String },
    /// A decision's tags and status.
    DecisionInfo { tags: Vec<String>, decision_status: DecisionStatus },
    /// A task's status and priority.
    TaskInfo { task_status: TaskStatus, priority: TaskPriority },
    /// No metadata.
    Empty,
}

/// A node of the knowledge graph.
#[derive(Clone, Debug)]
pub struct KnowledgeNode {
    pub id: u128,
    pub kind: NodeKind,
    pub name: String,
    pub path: Option<String>,
    pub metadata: NodeMetadata,
}

/// How two knowledge-graph nodes are related.
#[derive(Clone, Copy, Debug, PartialEq, Eq, Structural, Hash)]
pub enum EdgeRelation {
    Imports,
    Calls,
    DependsOn,
    Implements,
    RelatedTo,
    Owns,
    Documents,
}

/// A directed, weighted edge of the knowledge graph; the weight is in hundredths.
#[derive(Clone, Copy, Debug, PartialEq, Eq, Structural, Hash)]
pub struct KnowledgeEdge {
    pub id: u128,
    pub from: u128,
    pub to: u128,
    pub relation: EdgeRelation,
    pub weight_percent: u32,
}

/// Nodes and edges linking files, layers, packages, decisions and tasks.
#[derive(Clone, Debug)]
pub struct KnowledgeGraph {
    pub nodes: Vec<KnowledgeNode>,
    pub edges: Vec<KnowledgeEdge>,
}

/// Files and lines seen for one language.
#[derive(Clone, Debug)]
pub struct LanguageStats {
    pub language: String,
    pub file_count: usize,
    pub line_count: usize,
}

/// The reconstructed understanding of a project handed to an AI tool.
#[derive(Clone, Debug)]
pub struct ContinuationContext {
    pub generated_at: Timestamp,
    pub project_overview: String,
    pub completed_work: Vec<String>,
    pub current_task: String,
    pub important_decisions: Vec<String>,
    pub important_files: Vec<ImportantFile>,
    pub architecture_summary: String,
    pub risks: Vec<String>,
    pub next_recommended_action: String,
    pub ai_continuation_prompt: String,
    pub compressed: bool,
    pub token_estimate: usize,
}

/// What git says about the repository.
#[derive(Clone, Debug)]
pub struct GitSummary {
    pub branch: String,
    pub commit_count: usize,
    pub recent_commits: Vec<CommitSummary>,
    pub dirty_files: Vec<String>,
}

/// One commit, shortly.
#[derive(Clone, Debug)]
pub struct CommitSummary {
    pub hash: String,
    pub message: String,
    pub author: String,
    pub timestamp: Timestamp,
}

/// The portable export of a project's whole memory.
#[derive(Clone, Debug)]
pub struct NxpDocument {
    pub protocol_version: String,
    pub nexus_version: String,
    pub exported_at: Timestamp,
    pub project: ProjectMemory,
    pub architecture: Architecture,
    pub decisions: DecisionStore,
    pub tasks: TaskStore,
    pub timeline: Timeline,
    pub knowledge_graph: KnowledgeGraph,
    pub recent_sessions: Vec<AiSession>,
    pub git_summary: Option<GitSummary>,
    /// JSON text.
    pub extensions: String,
}

/// Errors of the library.
#[derive(Clone, Debug)]
pub enum NexusError {
    /// The project has no `.nexus/` directory.
    NotInitialized,
    /// No decision's identifier starts with the given prefix.
    UnknownDecision(String),
    /// No snapshot has the given identifier prefix or label.
    SnapshotNotFound(String),
    /// A portable export that cannot be imported.
    InvalidNxp(String),
}


/// The message that tells a user about an error.
pub open spec fn error_message(e: NexusError) -> Seq<char> {
    match e {
        NexusError::NotInitialized => "project not initialized — run `nexus init` first"@,
        NexusError::UnknownDecision(p) => "no decision matching id '"@ + p@ + "' to supersede"@,
        NexusError::SnapshotNotFound(k) => "snapshot not found: "@ + k@,
        NexusError::InvalidNxp(why) => "invalid nxp: "@ + why@,
    }
}

impl NexusError {
    /// The message that tells a user about this error.
    pub fn message(&self) -> (r: String)
        ensures
            r@ == error_message(*self),
    {
        match self {
            NexusError::NotInitialized => "project not initialized — run `nexus init` first".to_owned(),
            NexusError::UnknownDecision(p) => {
                let mut out = "no decision matching id '".to_owned();
                append_str(&mut out, p.as_str());
                append_str(&mut out, "' to supersede");
                out
            },
            NexusError::SnapshotNotFound(k) => {
                let mut out = "snapshot not found: ".to_owned();
                append_str(&mut out, k.as_str());
                out
            },
            NexusError::InvalidNxp(why) => {
                let mut out = "invalid nxp: ".to_owned();
                append_str(&mut out, why.as_str());
                out
            },
        }
    }
}

/// Protocol versions this library imports: the 1.x line (`1` itself or `1.` and more).
pub open spec fn compatible_version(v: Seq<char>) -> bool {
    v == "1"@ || crate::text::seq_starts_with(v, "1."@)
}

/// Whether an export written under protocol version `v` can be imported.
pub fn is_compatible_version(v: &str) -> (r: bool)
    ensures
        r == compatible_version(v@),
{
    crate::text::str_eq(v, "1") || crate::text::str_starts_with(v, "1.")
}

/// Refuses an export whose protocol version is outside the 1.x line, before
/// anything of it is read.
pub fn check_protocol_version(v: &str) -> (r: Result<(), NexusError>)
    ensures
        r is Ok <==> compatible_version(v@),
        r matches Err(e) ==> (e matches NexusError::InvalidNxp(why) && why@ == "unsupported protocol version "@ + v@),
{
    if is_compatible_version(v) {
        Ok(())
    } else {
        let mut why = "unsupported protocol version ".to_owned();
        crate::text::append_str(&mut why, v);
        Err(NexusError::InvalidNxp(why))
    }
}

} // verus!
