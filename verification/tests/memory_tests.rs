use nexus::git::{commit_messages, dirty_paths, empty_summary, summarize_log, RawCommit, StatusEntry};
use nexus::health::health_facts;
use nexus::knowledge::{build_graph, find_related_files, impact};
use nexus::models::{
    check_protocol_version, is_compatible_version, AiSession, Architecture, ArchitectureComponent,
    ArchitectureLayer, ComponentKind, Decision,
    DecisionStatus, DependencyInfo, ImportantFile, NexusError, NodeKind, ProjectMemory,
    SnapshotManifest, Task, TaskPriority, TaskStatus, TimelineEventKind, Timestamp,
};
use nexus::records::{
    choose_project_name, decision_index_text, decision_status_name, initial_documents, priority_name,
    session_file_name, session_index_text, task_index_text, task_status_name,
};
use nexus::search::{
    decision_hits, file_hits, format_answer, fts_query, rank_hits, RankedHit, SearchHit,
};
use nexus::snapshot::{
    digest_fingerprint, find_snapshot, hex_hash, lower_hex, restore_event_title, snapshot_event_title,
    snapshot_manifest, CopiedFile,
};

fn ts(secs: i64) -> Timestamp {
    Timestamp { secs, nanos: 0 }
}

fn layer_with(name: &str, paths: &[&str]) -> ArchitectureLayer {
    ArchitectureLayer {
        name: name.to_string(),
        description: String::new(),
        components: paths
            .iter()
            .map(|p| ArchitectureComponent {
                name: p.rsplit('/').next().unwrap().split('.').next().unwrap().to_string(),
                path: p.to_string(),
                kind: ComponentKind::Backend,
                description: String::new(),
            })
            .collect(),
    }
}

fn arch_with(layers: Vec<ArchitectureLayer>, deps: Vec<DependencyInfo>) -> Architecture {
    Architecture {
        version: "0.1.0".to_string(),
        updated_at: ts(0),
        layers,
        technologies: vec![],
        dependencies: deps,
        entry_points: vec![],
        important_files: vec![],
    }
}

fn a_task(id: u128, title: &str, status: TaskStatus, files: &[&str]) -> Task {
    Task {
        id,
        title: title.to_string(),
        description: Some("details".to_string()),
        status,
        priority: TaskPriority::High,
        created_at: ts(0),
        updated_at: ts(0),
        related_files: files.iter().map(|f| f.to_string()).collect(),
        blocked_by: vec![],
    }
}

fn a_decision(id: u128, content: &str, rationale: Option<&str>) -> Decision {
    Decision {
        id,
        content: content.to_string(),
        rationale: rationale.map(|r| r.to_string()),
        tags: vec!["t".to_string()],
        created_at: ts(0),
        author: None,
        status: DecisionStatus::Active,
    }
}

#[test]
fn graph_links_layers_files_decisions_and_tasks() {
    let arch = arch_with(
        vec![layer_with("Backend", &["src/main.rs", "src/lib.rs"])],
        vec![DependencyInfo {
            name: "serde".to_string(),
            version: None,
            kind: "dependencies".to_string(),
            source_file: "Cargo.toml".to_string(),
        }],
    );
    let decisions = vec![a_decision(77, "Use Rust", None)];
    let tasks = vec![a_task(88, "Tidy main", TaskStatus::Pending, &["src/main.rs"])];
    let g = build_graph(&arch, &decisions, &tasks);
    let kinds: Vec<NodeKind> = g.nodes.iter().map(|n| n.kind).collect();
    assert_eq!(
        kinds,
        vec![
            NodeKind::Module,
            NodeKind::File,
            NodeKind::File,
            NodeKind::Package,
            NodeKind::Decision,
            NodeKind::Task,
            NodeKind::File
        ]
    );
    assert_eq!(g.edges.len(), 3);
    assert_eq!(g.nodes[4].id, 77);
    assert_eq!(g.nodes[6].name, "main.rs");

    let report = impact(&g, "  MAIN.rs ");
    assert_eq!(report.query, "  MAIN.rs ");
    assert_eq!(report.matched_files, vec!["src/main.rs".to_string()]);
    let links: Vec<(String, String, String)> =
        report.links.iter().map(|l| (l.kind.clone(), l.name.clone(), l.relation.clone())).collect();
    assert_eq!(
        links,
        vec![
            ("module".to_string(), "Backend".to_string(), "owns".to_string()),
            ("task".to_string(), "Tidy main".to_string(), "relatedto".to_string()),
        ]
    );
    assert_eq!(
        find_related_files(&g, "MAIN"),
        vec!["src/main.rs".to_string(), "src/main.rs".to_string()]
    );
}

#[test]
fn fingerprints_are_sixteen_hex_digits_of_sha256() {
    assert_eq!(hex_hash(b""), "e3b0c44298fc1c14");
    assert_eq!(hex_hash(b"abc"), "ba7816bf8f01cfea");
    assert_eq!(lower_hex(&[0x0a, 0xff, 0x10]), "0aff10");
    assert_eq!(digest_fingerprint(&[1, 2, 3, 4, 5, 6, 7, 8, 9]), "0102030405060708");
}

fn manifest(id: u128, label: &str) -> SnapshotManifest {
    snapshot_manifest(id, label.to_string(), ts(1), None, &vec![], 0, 0)
}

#[test]
fn manifests_record_the_memory_and_architecture_fingerprints() {
    let copied = vec![
        CopiedFile { name: "memory.json".to_string(), content: b"{}".to_vec() },
        CopiedFile { name: "architecture.json".to_string(), content: b"".to_vec() },
        CopiedFile { name: "tasks.json".to_string(), content: b"x".to_vec() },
    ];
    let m = snapshot_manifest(5, "before refactor".to_string(), ts(9), Some("d".to_string()), &copied, 3, 4);
    assert_eq!(m.memory_hash, hex_hash(b"{}"));
    assert_eq!(m.architecture_hash, "e3b0c44298fc1c14");
    assert_eq!((m.decisions_count, m.tasks_count), (3, 4));
    assert_eq!(manifest(1, "x").memory_hash, "");
    assert_eq!(snapshot_event_title("v1"), "Snapshot: v1");
    assert_eq!(restore_event_title("v1"), "Restored snapshot: v1");
}

#[test]
fn snapshots_are_found_by_id_prefix_or_label() {
    let ms = vec![manifest(0xaaaa_0000_0000_0000_0000_0000_0000_0001, "first"), manifest(0xbbbb << 112, "second")];
    let by_label = find_snapshot(&ms, "second").unwrap();
    assert_eq!(by_label.label, "second");
    let by_prefix = find_snapshot(&ms, "aaaa").unwrap();
    assert_eq!(by_prefix.label, "first");
    match find_snapshot(&ms, "zzz") {
        Err(e) => {
            assert!(matches!(&e, NexusError::SnapshotNotFound(k) if k == "zzz"));
            assert_eq!(e.message(), "snapshot not found: zzz");
        }
        Ok(_) => panic!("nothing answers to zzz"),
    }
}

#[test]
fn fts_query_quotes_each_word() {
    assert_eq!(fts_query("storage  persistence\n"), "\"storage\" OR \"persistence\"");
    assert_eq!(fts_query("   "), "");
}

#[test]
fn decisions_answer_case_insensitively() {
    let ds = vec![
        a_decision(1, "Use SQLite", None),
        a_decision(2, "Use Tailwind", Some("Fast styling with sqlite-free CSS")),
        a_decision(3, "Use Rust", None),
    ];
    let hits = decision_hits(&ds, "SQLITE");
    let ids: Vec<String> = hits.iter().map(|h| h.doc_id.clone()).collect();
    assert_eq!(ids, vec![uuid::Uuid::from_u128(1).to_string(), uuid::Uuid::from_u128(2).to_string()]);
    assert_eq!(hits[0].source, "decision");
    assert_eq!(hits[1].snippet, "Use Tailwind");
    let fh = file_hits(&vec!["src/db.rs".to_string()]);
    assert_eq!(fh[0].snippet, "Related file: src/db.rs");
    assert_eq!(fh[0].source, "file");
}

fn hit(id: &str) -> SearchHit {
    SearchHit { doc_id: id.to_string(), source: "decision".to_string(), snippet: format!("about {id}") }
}

#[test]
fn ranking_is_stable_and_limited() {
    let ranked = vec![
        RankedHit { hit: hit("a"), rank_key: 1 },
        RankedHit { hit: hit("b"), rank_key: 9 },
        RankedHit { hit: hit("c"), rank_key: 5 },
        RankedHit { hit: hit("d"), rank_key: 9 },
    ];
    let r = rank_hits(&ranked, 3);
    let ids: Vec<&str> = r.iter().map(|h| h.doc_id.as_str()).collect();
    assert_eq!(ids, vec!["b", "d", "c"]);
    assert_eq!(rank_hits(&ranked, 10).len(), 4);
}

#[test]
fn answers_are_numbered() {
    assert_eq!(format_answer("q", &vec![]), "No results found for: \"q\"");
    assert_eq!(
        format_answer("q", &vec![hit("a"), hit("b")]),
        "ANSWER: \"q\"\n\n1. [decision] a\n   about a\n\n2. [decision] b\n   about b\n\n"
    );
}

#[test]
fn a_new_project_starts_with_empty_documents() {
    let d = initial_documents("demo".to_string(), ts(42), 7);
    assert_eq!(d.memory.project_name, "demo");
    assert_eq!(d.memory.metadata, "{}");
    assert_eq!(d.architecture.version, "0.1.0");
    assert_eq!(d.timeline.events.len(), 1);
    assert_eq!(d.timeline.events[0].kind, TimelineEventKind::Init);
    assert_eq!(d.timeline.events[0].title, "Nexus initialized");
    assert_eq!(d.timeline.events[0].description, Some("Project memory layer created".to_string()));
    assert!(d.decisions.decisions.is_empty() && d.tasks.tasks.is_empty());
    let m = ProjectMemory::new("p".to_string());
    assert_eq!(m.created_at, m.updated_at);
}

#[test]
fn project_names_come_from_the_root_directory() {
    assert_eq!(choose_project_name("/home/me/shop", None), "shop");
    assert_eq!(choose_project_name("/home/me/shop", Some("given".to_string())), "given");
    assert_eq!(choose_project_name("/", None), "unnamed-project");
}

#[test]
fn records_are_indexed_as_text() {
    let d = a_decision(1, "Use Rust", Some("Speed"));
    assert_eq!(decision_index_text(&d), "Use Rust Speed");
    assert_eq!(decision_index_text(&a_decision(1, "Use Rust", None)), "Use Rust ");
    let t = a_task(2, "Write docs", TaskStatus::InProgress, &[]);
    assert_eq!(task_index_text(&t), "Write docs details");
    assert_eq!(decision_status_name(DecisionStatus::Superseded), "superseded");
    assert_eq!(task_status_name(TaskStatus::InProgress), "inprogress");
    assert_eq!(priority_name(TaskPriority::Critical), "critical");
    let s = AiSession {
        id: 0x1234,
        tool: None,
        prompt: "hi".to_string(),
        response: "there".to_string(),
        files_modified: vec![],
        timestamp: ts(0),
        notes: None,
        tags: vec![],
    };
    assert_eq!(session_index_text(&s), "hi there");
    assert_eq!(
        session_file_name(&s),
        format!("19700101_000000_{}.json", uuid::Uuid::from_u128(0x1234))
    );
}

#[test]
fn git_history_is_summed_up() {
    let c = |id: &str, msg: Option<&str>| {
        Some(RawCommit {
            id_hex: id.to_string(),
            summary: msg.map(|m| m.to_string()),
            author: None,
            time: ts(3),
        })
    };
    let log = vec![c("0123456789abcdef", Some("first")), None, c("fedcba9876543210", None), c("1111111111111111", Some("x"))];
    let s = summarize_log(None, &log, 2, vec!["a.rs".to_string()]);
    assert_eq!(s.branch, "unknown");
    assert_eq!(s.commit_count, 4);
    assert_eq!(s.recent_commits.len(), 2);
    assert_eq!(s.recent_commits[0].hash, "01234567");
    assert_eq!(s.recent_commits[1].message, "no message");
    assert_eq!(s.recent_commits[1].author, "unknown");
    assert_eq!(commit_messages(&s), vec!["[01234567] first — unknown".to_string(), "[fedcba98] no message — unknown".to_string()]);
    assert_eq!(empty_summary().commit_count, 0);
    let entries = vec![
        StatusEntry { path: Some("a.rs".to_string()), current: false },
        StatusEntry { path: Some("b.rs".to_string()), current: true },
        StatusEntry { path: None, current: false },
    ];
    assert_eq!(dirty_paths(&entries), vec!["a.rs".to_string()]);
}

#[test]
fn health_facts_count_and_advise() {
    let mut memory = ProjectMemory::new_at("p".to_string(), ts(1_000_000));
    memory.updated_at = ts(1_000_000);
    let mut arch = arch_with(vec![layer_with("Backend", &["src/main.rs"])], vec![]);
    arch.important_files = vec![ImportantFile { path: "README.md".to_string(), reason: String::new(), relevance: 1 }];
    let tasks = vec![
        a_task(1, "a", TaskStatus::Pending, &[]),
        a_task(2, "b", TaskStatus::Completed, &[]),
        a_task(3, "c", TaskStatus::InProgress, &[]),
    ];
    let f = health_facts(&memory, &arch, &tasks, 0, ts(1_000_000 + 3600));
    assert_eq!(f.open_tasks, 2);
    assert_eq!(f.doc_files, 1);
    assert_eq!(f.layers, 1);
    assert!(f.memory_fresh);
    assert_eq!(f.technical_debt_summary, "2 open tasks tracked");
    assert_eq!(f.complexity_summary, "1 architectural layers");
    assert_eq!(f.maintainability_summary, "0 decisions recorded, last updated 1970-01-12");
    assert_eq!(f.recommendations, vec!["Record architectural decisions with `nexus decide`".to_string()]);
    let stale = health_facts(&memory, &arch, &tasks, 3, ts(1_000_000 + 8 * 86400));
    assert!(!stale.memory_fresh);
}

#[test]
fn every_edge_of_a_built_graph_joins_two_of_its_nodes() {
    let arch = arch_with(vec![layer_with("Backend", &["src/a.rs", "src/b.rs"]), layer_with("Tests", &["tests/t.rs"])], vec![]);
    let tasks = vec![
        a_task(5, "one", TaskStatus::Pending, &["src/a.rs", "x/y.rs"]),
        a_task(6, "two", TaskStatus::Completed, &["z.rs"]),
    ];
    let g = build_graph(&arch, &vec![a_decision(9, "d", None)], &tasks);
    assert_eq!(g.edges.len(), 6);
    for e in &g.edges {
        assert!(g.nodes.iter().any(|n| n.id == e.from));
        assert!(g.nodes.iter().any(|n| n.id == e.to));
    }
}

#[test]
fn ask_merges_full_text_files_and_decisions_by_rank() {
    let arch = arch_with(vec![layer_with("Backend", &["src/storage.rs"])], vec![]);
    let decisions = vec![a_decision(1, "Use SQLite storage", None)];
    let g = build_graph(&arch, &decisions, &vec![]);
    let fts = vec![RankedHit { hit: hit("session-1"), rank_key: -5 }];
    let r = nexus::search::ask(fts, &g, &decisions, "Storage", 50, 90, 10);
    let got: Vec<(String, String)> = r.iter().map(|h| (h.source.clone(), h.doc_id.clone())).collect();
    assert_eq!(
        got,
        vec![
            ("decision".to_string(), uuid::Uuid::from_u128(1).to_string()),
            ("file".to_string(), "src/storage.rs".to_string()),
            ("decision".to_string(), "session-1".to_string()),
        ]
    );
    let top = nexus::search::ask(vec![], &g, &decisions, "Storage", 50, 90, 1);
    assert_eq!(top.len(), 1);
}

#[test]
fn only_the_one_x_protocol_line_is_imported() {
    assert!(is_compatible_version("1.0.0"));
    assert!(is_compatible_version("1"));
    assert!(is_compatible_version("1.7"));
    assert!(!is_compatible_version("2.0.0"));
    assert!(!is_compatible_version("10.0"));
    assert!(!is_compatible_version(""));
    assert!(check_protocol_version("1.0.0").is_ok());
    match check_protocol_version("2.1") {
        Err(e) => {
            assert!(matches!(&e, NexusError::InvalidNxp(w) if w == "unsupported protocol version 2.1"));
            assert_eq!(e.message(), "invalid nxp: unsupported protocol version 2.1");
        }
        Ok(()) => panic!("version 2.1 accepted"),
    }
}

#[test]
fn a_new_project_memory_starts_blank() {
    let m = ProjectMemory::new("demo".to_string());
    assert_eq!(m.project_name, "demo");
    assert_eq!(m.description, "");
    assert_eq!(m.current_focus, "");
    assert_eq!(m.metadata, "{}");
    assert_eq!(m.created_at, m.updated_at);
    assert!(m.technologies.is_empty() && m.completed_work.is_empty() && m.risks.is_empty());
}
