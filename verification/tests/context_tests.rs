use nexus::decision::DecisionEngine;
use nexus::paths::NexusPaths;
use nexus::records::initial_documents;
use nexus::scan::{count_symbols, memory_technologies, scan_result, ScanTally};
use nexus::structure::infer_layers;
use nexus::compression::{estimate_tokens, keep_count, truncate_text, CompressionBudget, CompressionEngine};
use nexus::context::{derive_next_action, escape_xml, format_handoff, ContextEngine, MemoryHit};
use nexus::models::{
    Architecture, ContinuationContext, Decision, DecisionStatus, GitSummary, ImportantFile,
    KnowledgeGraph, ProjectMemory, Task, TaskPriority, TaskStatus, Timestamp,
};

fn t0() -> Timestamp {
    Timestamp { secs: 0, nanos: 0 }
}

fn memory_named(name: &str) -> ProjectMemory {
    ProjectMemory::new_at(name.to_string(), t0())
}

fn empty_architecture() -> Architecture {
    Architecture {
        version: "0.1.0".to_string(),
        updated_at: t0(),
        layers: vec![],
        technologies: vec![],
        dependencies: vec![],
        entry_points: vec![],
        important_files: vec![],
    }
}

fn quiet_git() -> GitSummary {
    GitSummary { branch: "main".to_string(), commit_count: 0, recent_commits: vec![], dirty_files: vec![] }
}

fn decision(id: u128, content: &str, secs: i64) -> Decision {
    Decision {
        id,
        content: content.to_string(),
        rationale: None,
        tags: vec![],
        created_at: Timestamp { secs, nanos: 0 },
        author: None,
        status: DecisionStatus::Active,
    }
}

fn task(title: &str, status: TaskStatus) -> Task {
    Task {
        id: 9,
        title: title.to_string(),
        description: None,
        status,
        priority: TaskPriority::Medium,
        created_at: t0(),
        updated_at: t0(),
        related_files: vec![],
        blocked_by: vec![],
    }
}

fn sample_context() -> ContinuationContext {
    ContinuationContext {
        generated_at: t0(),
        project_overview: "Test project".repeat(500),
        completed_work: (0..50).map(|i| format!("work item {i}")).collect(),
        current_task: "implement feature".to_string(),
        important_decisions: (0..30).map(|i| format!("decision {i}")).collect(),
        important_files: vec![],
        architecture_summary: "layered architecture".repeat(200),
        risks: vec!["risk a".into(), "risk b".into()],
        next_recommended_action: "continue coding".to_string(),
        ai_continuation_prompt: "full prompt".repeat(1000),
        compressed: false,
        token_estimate: 0,
    }
}

/// The budget the command line derives from the ratio of allowed to estimated tokens.
fn budget_for(ctx: &ContinuationContext, max_tokens: usize) -> CompressionBudget {
    let est = estimate_tokens(&ctx.ai_continuation_prompt);
    let ratio = max_tokens as f32 / est as f32;
    let keep = |n: usize| (n as f32 * ratio).ceil() as usize;
    CompressionBudget {
        keep_completed: keep(ctx.completed_work.len()),
        keep_decisions: keep(ctx.important_decisions.len()),
        keep_risks: keep(ctx.risks.len()),
        keep_files: (ctx.important_files.len() as f32 * ratio) as usize,
        overview_max_bytes: ((ctx.project_overview.len() as f32 * ratio) as usize).max(100),
        summary_max_bytes: ((ctx.architecture_summary.len() as f32 * ratio) as usize).max(100),
    }
}

#[test]
fn compression_reduces_token_estimate() {
    let ctx = sample_context();
    let before = estimate_tokens(&ctx.ai_continuation_prompt);
    let compressed = CompressionEngine::compress_with_budget(&ctx, 500, &budget_for(&ctx, 500));
    assert!(compressed.compressed);
    assert!(compressed.token_estimate <= before);
}

#[test]
fn compression_within_budget_only_marks_the_context() {
    let ctx = sample_context();
    let est = estimate_tokens(&ctx.ai_continuation_prompt);
    assert_eq!(est, 2750);
    let r = CompressionEngine::compress_with_budget(&ctx, 3000, &budget_for(&ctx, 3000));
    assert!(r.compressed);
    assert_eq!(r.completed_work.len(), 50);
    assert_eq!(r.ai_continuation_prompt, ctx.ai_continuation_prompt);
    assert_eq!(r.token_estimate, 2750);
}

#[test]
fn compression_keeps_prefixes_of_lists() {
    let ctx = sample_context();
    let b = budget_for(&ctx, 500);
    assert_eq!(b.keep_completed, 10);
    assert_eq!(b.keep_decisions, 6);
    assert_eq!(b.keep_risks, 1);
    let r = CompressionEngine::compress_with_budget(&ctx, 500, &b);
    assert_eq!(r.completed_work, ctx.completed_work[..10].to_vec());
    assert_eq!(r.important_decisions, ctx.important_decisions[..6].to_vec());
    assert_eq!(r.risks, vec!["risk a".to_string()]);
    assert!(r.ai_continuation_prompt.starts_with("# ATHREIX NEXUS — COMPRESSED CONTINUATION CONTEXT\n\n## PROJECT\n"));
    assert!(r.ai_continuation_prompt.contains("## COMPLETED (10)\nwork item 0; work item 1;"));
    assert_eq!(r.token_estimate, estimate_tokens(&r.ai_continuation_prompt));
}

#[test]
fn estimate_tokens_is_a_quarter_of_the_bytes_at_least_one() {
    assert_eq!(estimate_tokens(""), 1);
    assert_eq!(estimate_tokens("abc"), 1);
    assert_eq!(estimate_tokens("abcdefgh"), 2);
    assert_eq!(estimate_tokens("✓✓✓✓"), 3);
}

#[test]
fn truncate_text_cuts_bytes_and_marks_the_cut() {
    assert_eq!(truncate_text("hello world", 100), "hello world");
    assert_eq!(truncate_text("hello world", 6), "hello…");
}

#[test]
fn escape_xml_writes_entities() {
    assert_eq!(escape_xml("a < b && c > d"), "a &lt; b &amp;&amp; c &gt; d");
    assert!(!escape_xml("<tag>").contains('<'));
}

#[test]
fn next_action_prefers_the_current_task() {
    let tasks = vec![task("Write docs", TaskStatus::Pending)];
    assert_eq!(derive_next_action("Ship it", &tasks, &vec![]), "Continue: Ship it");
    assert_eq!(derive_next_action("", &tasks, &vec![]), "Start task: Write docs");
    assert_eq!(derive_next_action("", &vec![], &vec!["Flaky CI".to_string()]), "Address risk: Flaky CI");
    assert_eq!(
        derive_next_action("", &vec![], &vec![]),
        "Run `nexus scan` to refresh project understanding"
    );
}

fn focus_engine() -> ContextEngine {
    ContextEngine {
        memory: memory_named("focus-test"),
        architecture: empty_architecture(),
        decisions: vec![
            decision(3, "Adopt rayon for parallel scanning", 30),
            decision(2, "Use SQLite for offline storage persistence", 20),
            decision(1, "Use Tailwind for styling the frontend", 10),
        ],
        tasks: vec![],
        git: quiet_git(),
        graph: KnowledgeGraph { nodes: vec![], edges: vec![] },
    }
}

#[test]
fn continue_with_task_focuses_relevant_memory() {
    let engine = focus_engine();
    let sqlite_id = uuid::Uuid::from_u128(2).to_string();
    let hits = vec![MemoryHit { doc_id: sqlite_id, source: "decision".to_string() }];
    let ctx = engine.continue_context_at(Some("  storage persistence ".to_string()), &hits, t0());
    assert_eq!(ctx.current_task, "storage persistence");
    assert!(ctx.important_decisions[0].to_lowercase().contains("sqlite"));
    assert_eq!(ctx.important_decisions.len(), 3);
    assert_eq!(ctx.next_recommended_action, "Continue: storage persistence");
    assert!(!ctx.compressed);
    assert_eq!(ctx.token_estimate, estimate_tokens(&ctx.ai_continuation_prompt));
}

#[test]
fn without_focus_hits_change_nothing() {
    let engine = focus_engine();
    let hits = vec![MemoryHit { doc_id: uuid::Uuid::from_u128(1).to_string(), source: "decision".to_string() }];
    let a = engine.continue_context_at(None, &hits, t0());
    let b = engine.continue_context_at(None, &vec![], t0());
    assert_eq!(a.important_decisions, b.important_decisions);
    assert_eq!(a.important_decisions[0], "Adopt rayon for parallel scanning");
    assert_eq!(a.current_task, "");
    assert_eq!(a.architecture_summary, "No architecture scan available. Run `nexus scan`.");
    assert_eq!(
        a.project_overview,
        "Project: focus-test\nNo description set.\nTechnologies: \nBranch: main | Commits: 0 | Last updated: 1970-01-01 00:00 UTC"
    );
}

#[test]
fn current_task_falls_back_to_tasks_then_focus() {
    let mut engine = focus_engine();
    engine.tasks = vec![task("Pending one", TaskStatus::Pending), task("Doing one", TaskStatus::InProgress)];
    let ctx = engine.continue_context_at(Some("   ".to_string()), &vec![], t0());
    assert_eq!(ctx.current_task, "Doing one");
    engine.tasks = vec![];
    engine.memory.current_focus = "Refactor".to_string();
    let ctx = engine.continue_context_at(None, &vec![], t0());
    assert_eq!(ctx.current_task, "Refactor");
}

#[test]
fn derived_risks_mention_dirty_files() {
    let mut engine = focus_engine();
    engine.git.dirty_files = vec!["a.rs".to_string(), "b.rs".to_string()];
    let ctx = engine.continue_context_at(None, &vec![], t0());
    assert_eq!(ctx.risks, vec!["2 uncommitted files may cause context drift".to_string()]);
}

#[test]
fn handoff_escapes_the_current_task() {
    let engine = focus_engine();
    let ctx = engine.continue_context_at(Some("a<b".to_string()), &vec![], t0());
    let h = format_handoff(&ctx);
    assert!(h.starts_with("<nexus-handoff version=\"1.0\">"));
    assert!(h.contains("<current-task>a&lt;b</current-task>"));
    assert!(h.contains("<compressed>false</compressed>"));
}

#[test]
fn important_files_rank_by_relevance() {
    let mut engine = focus_engine();
    engine.architecture.important_files = vec![
        ImportantFile { path: "src/lib.rs".to_string(), reason: "x".to_string(), relevance: 10 },
        ImportantFile { path: "src/main.rs".to_string(), reason: "y".to_string(), relevance: 20 },
    ];
    let ctx = engine.continue_context_at(None, &vec![], t0());
    assert_eq!(ctx.important_files[0].path, "src/main.rs");
    let hits = vec![MemoryHit { doc_id: "src/lib.rs".to_string(), source: "file".to_string() }];
    let ctx = engine.continue_context_at(Some("lib".to_string()), &hits, t0());
    assert_eq!(ctx.important_files[0].path, "src/lib.rs");
}

#[test]
fn full_pipeline_init_scan_decide_continue() {
    let paths = NexusPaths::from_project_root("/work/pipeline");
    let docs = initial_documents("pipeline-test".to_string(), t0(), 1);

    // Minimal source file for the scanner
    let main_path = format!("{}/main.rs", paths.project_root);
    let content = "fn main() { println!(\"hello\"); }";
    let mut tally = ScanTally::new();
    tally.observe(&main_path, "main.rs", content.lines().count(), count_symbols("rust", content));
    let layers = infer_layers(&paths.project_root, &tally.file_paths);
    let result = scan_result(tally, t0(), layers, vec![], vec![], vec!["main.rs".to_string()]);
    let mut memory = docs.memory;
    memory.technologies = memory_technologies(&result);

    let mut de = DecisionEngine::new(docs.decisions);
    de.record(
        "Use Rust for the CLI core".to_string(),
        Some("Performance and cross-platform binary distribution".into()),
        vec!["architecture".into()],
        None,
    )
    .unwrap();

    let engine = ContextEngine {
        memory,
        architecture: result.architecture,
        decisions: de.list_active(),
        tasks: docs.tasks.tasks,
        git: quiet_git(),
        graph: KnowledgeGraph { nodes: vec![], edges: vec![] },
    };
    let ctx = engine.continue_context();

    assert!(!ctx.project_overview.is_empty());
    assert!(!ctx.ai_continuation_prompt.is_empty());
    assert!(ctx.important_decisions.iter().any(|d| d.contains("Rust")));
}

#[test]
fn compression_keeps_one_item_of_each_list_under_a_zero_budget() {
    let ctx = sample_context();
    let b = CompressionBudget {
        keep_completed: 0,
        keep_decisions: 0,
        keep_risks: 0,
        keep_files: 0,
        overview_max_bytes: 100,
        summary_max_bytes: 100,
    };
    let r = CompressionEngine::compress_with_budget(&ctx, 500, &b);
    assert_eq!(r.completed_work, vec!["work item 0".to_string()]);
    assert_eq!(r.important_decisions, vec!["decision 0".to_string()]);
    assert_eq!(r.risks, vec!["risk a".to_string()]);
    assert!(r.important_files.is_empty());
}

#[test]
fn keep_count_is_at_least_one_and_at_most_all() {
    assert_eq!(keep_count(0, 5), 1);
    assert_eq!(keep_count(0, 0), 0);
    assert_eq!(keep_count(3, 5), 3);
    assert_eq!(keep_count(9, 5), 5);
}
