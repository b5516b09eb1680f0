use nexus::deps::{
    dedupe_dependencies, detect_dependencies, framework_probe_paths, frameworks_from, parse_cargo_toml,
    parse_package_json,
    parse_pyproject, parse_requirements, parse_workspace_cargo_toml, workspace_members,
    DependencySources,
};
use nexus::language::{detect_language, entry_points_from, is_entry_point, is_source_file, should_skip_dir};
use nexus::models::{ComponentKind, DependencyInfo, ImportantFile, LanguageStats};
use nexus::scan::{
    build_technologies, count_symbols, memory_technologies, rank_important_files, scan_event_description,
    scan_event_title, scan_result, symbol_file, tally_language, ScanTally,
};
use nexus::structure::{classify_path, format_architecture_tree, infer_layers};
use nexus::models::Timestamp;

fn dep(name: &str) -> DependencyInfo {
    DependencyInfo {
        name: name.to_string(),
        version: Some("1".to_string()),
        kind: "dependencies".to_string(),
        source_file: "Cargo.toml".to_string(),
    }
}

#[test]
fn languages_follow_extensions() {
    assert_eq!(detect_language("src/main.rs"), Some("rust"));
    assert_eq!(detect_language("web/app.tsx"), Some("tsx"));
    assert_eq!(detect_language("a/b.PY"), None);
    assert_eq!(detect_language("script.pyw"), Some("python"));
    assert_eq!(detect_language("Makefile"), None);
    assert!(is_source_file("README.md"));
    assert!(!is_source_file("image.png"));
}

#[test]
fn hidden_and_build_directories_are_skipped() {
    assert!(should_skip_dir("node_modules"));
    assert!(should_skip_dir(".idea"));
    assert!(!should_skip_dir(".github"));
    assert!(!should_skip_dir("src"));
}

#[test]
fn entry_points_are_known_paths() {
    assert!(is_entry_point("src/main.rs"));
    assert!(is_entry_point("src/App.tsx"));
    assert!(!is_entry_point("src/index.js"));
}

#[test]
fn rust_symbols_are_counted_with_tree_sitter() {
    let src = "fn a() {}\nfn b() {}\nstruct S;\nenum E { X }\nimpl S {}\ntrait T {}\n";
    assert_eq!(count_symbols("rust", src), 6);
    assert_eq!(count_symbols("python", "def f():\n    pass\nclass C:\n    pass\n"), 2);
    assert_eq!(count_symbols("go", "func main() {}"), 0);
}

#[test]
fn symbol_rich_files_are_important() {
    assert!(symbol_file("src/a.rs", 5).is_none());
    let f = symbol_file("src/a.rs", 6).unwrap();
    assert_eq!(f.reason, "Contains 6 top-level symbols");
    assert_eq!(f.relevance, 6);
    assert_eq!(symbol_file("src/a.rs", 40).unwrap().relevance, 20);
}

#[test]
fn tally_counts_files_and_lines_per_language() {
    let mut stats: Vec<LanguageStats> = vec![];
    tally_language(&mut stats, "rust", 10);
    tally_language(&mut stats, "python", 3);
    tally_language(&mut stats, "rust", 5);
    assert_eq!(stats.len(), 2);
    assert_eq!((stats[0].language.as_str(), stats[0].file_count, stats[0].line_count), ("rust", 2, 15));
    assert_eq!((stats[1].language.as_str(), stats[1].file_count, stats[1].line_count), ("python", 1, 3));
}

#[test]
fn scan_tally_takes_source_files_only() {
    let mut t = ScanTally::new();
    assert!(!t.observe("/p/logo.png", "logo.png", 0, 0));
    assert!(t.observe("/p/src/main.rs", "src/main.rs", 12, 7));
    assert!(t.observe("/p/notes.md", "notes.md", 4, 0));
    assert_eq!(t.file_paths, vec!["/p/src/main.rs".to_string(), "/p/notes.md".to_string()]);
    assert_eq!(t.symbol_count, 7);
    assert_eq!(t.important_files.len(), 2);
    assert_eq!(t.important_files[0].reason, "Contains 7 top-level symbols");
    assert_eq!(t.important_files[1].reason, "Project entry point");
    let r = scan_result(t, Timestamp { secs: 5, nanos: 0 }, vec![], vec![dep("serde")], vec!["Tokio".to_string()], vec![]);
    assert_eq!(r.files_analyzed, 2);
    assert_eq!(r.architecture.important_files[0].reason, "Project entry point");
    assert_eq!(r.architecture.version, "0.1.0");
    assert_eq!(
        memory_technologies(&r),
        vec!["rust".to_string(), "markdown".to_string(), "Tokio".to_string()]
    );
    assert_eq!(r.architecture.technologies.len(), 4);
    assert_eq!(scan_event_title(2), "Scanned 2 files");
    assert_eq!(scan_event_description(2, 7), "2 languages, 7 symbols indexed");
}

#[test]
fn important_files_are_ranked_stably_and_capped() {
    let files: Vec<ImportantFile> = (0..40)
        .map(|i| ImportantFile { path: format!("f{i}"), reason: String::new(), relevance: (i % 3) as u32 })
        .collect();
    let r = rank_important_files(&files);
    assert_eq!(r.len(), 30);
    assert_eq!(r[0].path, "f2");
    assert_eq!(r[1].path, "f5");
    assert!(r.windows(2).all(|w| w[0].relevance >= w[1].relevance));
}

#[test]
fn technologies_list_languages_frameworks_and_twenty_dependencies() {
    let stats = vec![LanguageStats { language: "rust".to_string(), file_count: 1, line_count: 1 }];
    let deps: Vec<DependencyInfo> = (0..25).map(|i| dep(&format!("d{i}"))).collect();
    let t = build_technologies(&stats, &vec!["Axum".to_string()], &deps);
    assert_eq!(t.len(), 22);
    assert_eq!((t[0].category.as_str(), t[0].confidence_percent), ("language", 100));
    assert_eq!((t[1].category.as_str(), t[1].confidence_percent), ("framework", 90));
    assert_eq!((t[2].name.as_str(), t[2].confidence_percent), ("d0", 70));
    assert_eq!(t[2].version, Some("1".to_string()));
}

#[test]
fn paths_are_classified_by_their_parts() {
    assert_eq!(classify_path("src/tests/x.rs"), ComponentKind::Test);
    assert_eq!(classify_path("tests/api/x.rs"), ComponentKind::Api);
    assert_eq!(classify_path("web/Components/Button.tsx"), ComponentKind::Frontend);
    assert_eq!(classify_path("server/api/users.rs"), ComponentKind::Api);
    assert_eq!(classify_path("src/db/schema.rs"), ComponentKind::Database);
    assert_eq!(classify_path("Cargo.toml"), ComponentKind::Config);
    assert_eq!(classify_path("src/main.rs"), ComponentKind::Backend);
    assert_eq!(classify_path("README.md"), ComponentKind::Other);
}

#[test]
fn layers_group_components_in_a_fixed_order() {
    let files = vec![
        "/p/src/main.rs".to_string(),
        "/p/web/ui/App.tsx".to_string(),
        "/p/src/db/store.rs".to_string(),
    ];
    let layers = infer_layers("/p", &files);
    let names: Vec<&str> = layers.iter().map(|l| l.name.as_str()).collect();
    assert_eq!(names, vec!["Frontend", "Backend", "Database"]);
    assert_eq!(layers[1].description, "Backend components detected by structure analysis");
    assert_eq!(layers[1].components[0].path, "src/main.rs");
    assert_eq!(layers[1].components[0].name, "main");
    assert_eq!(
        format_architecture_tree(&layers),
        "Frontend\n├── App.tsx\n\nBackend\n├── main.rs\n\nDatabase\n├── store.rs\n\n"
    );
}

#[test]
fn cargo_manifests_list_their_sections() {
    let text = "[package]\nname = \"x\"\n[dependencies]\nserde = \"1\"\ntokio = { version = \"1.38\", features = [\"full\"] }\nlocal = { path = \"../l\" }\n[dev-dependencies]\ntempfile = \"3\"\n";
    let d = parse_cargo_toml(text);
    let got: Vec<(String, Option<String>, String)> =
        d.iter().map(|x| (x.name.clone(), x.version.clone(), x.kind.clone())).collect();
    assert_eq!(
        got,
        vec![
            ("local".to_string(), None, "dependencies".to_string()),
            ("serde".to_string(), Some("1".to_string()), "dependencies".to_string()),
            ("tokio".to_string(), Some("1.38".to_string()), "dependencies".to_string()),
            ("tempfile".to_string(), Some("3".to_string()), "dev-dependencies".to_string()),
        ]
    );
    assert!(d.iter().all(|x| x.source_file == "Cargo.toml"));
    assert!(parse_cargo_toml("not = [valid").is_empty());
}

#[test]
fn workspace_manifests_list_members_and_shared_dependencies() {
    let text = "[workspace]\nmembers = [\"crates/a\", \"crates/b\"]\n[workspace.dependencies]\nanyhow = \"1\"\n";
    assert_eq!(workspace_members(text), vec!["crates/a".to_string(), "crates/b".to_string()]);
    let d = parse_workspace_cargo_toml(text);
    assert_eq!(d.len(), 1);
    assert_eq!(d[0].kind, "workspace.dependencies");
}

#[test]
fn package_json_lists_three_sections() {
    let text = r#"{"dependencies": {"react": "^18"}, "devDependencies": {"vite": "5"}, "peerDependencies": {"vue": 3}}"#;
    let d = parse_package_json(text);
    let got: Vec<(String, Option<String>, String)> =
        d.iter().map(|x| (x.name.clone(), x.version.clone(), x.kind.clone())).collect();
    assert_eq!(
        got,
        vec![
            ("react".to_string(), Some("^18".to_string()), "dependencies".to_string()),
            ("vite".to_string(), Some("5".to_string()), "devDependencies".to_string()),
            ("vue".to_string(), None, "peerDependencies".to_string()),
        ]
    );
}

#[test]
fn python_requirements_take_the_leading_name() {
    let d = parse_pyproject("[project]\ndependencies = [\"fastapi>=0.100\", \"==weird\"]\n");
    assert_eq!(d[0].name, "fastapi");
    assert_eq!(d[0].version, Some("fastapi>=0.100".to_string()));
    assert_eq!(d[1].name, "==weird");
    let r = parse_requirements("# comment\n\n  flask==2.0  \nrequests\n");
    let names: Vec<&str> = r.iter().map(|x| x.name.as_str()).collect();
    assert_eq!(names, vec!["flask", "requests"]);
    assert_eq!(r[0].version, Some("flask==2.0".to_string()));
    assert_eq!(r[0].kind, "requirements");
}

#[test]
fn dedupe_keeps_the_first_of_each_name() {
    let mut b = dep("b");
    b.version = Some("2".to_string());
    let out = dedupe_dependencies(vec![dep("a"), dep("b"), b, dep("a")]);
    let names: Vec<&str> = out.iter().map(|x| x.name.as_str()).collect();
    assert_eq!(names, vec!["a", "b"]);
    assert_eq!(out[1].version, Some("1".to_string()));
    let again = dedupe_dependencies(out.clone());
    assert_eq!(again.len(), out.len());
}

#[test]
fn dependencies_come_from_every_manifest_once() {
    let src = DependencySources {
        cargo_toml: Some("[dependencies]\nserde = \"1\"\n[workspace]\nmembers = [\"m\"]\n".to_string()),
        member_cargo_tomls: vec![Some("[dependencies]\nserde = \"2\"\naxum = \"0.7\"\n".to_string())],
        package_json: None,
        pyproject_toml: None,
        requirements_txt: Some("django\n".to_string()),
    };
    let d = detect_dependencies(&src);
    let got: Vec<(&str, Option<&str>)> = d.iter().map(|x| (x.name.as_str(), x.version.as_deref())).collect();
    assert_eq!(got, vec![("serde", Some("1")), ("axum", Some("0.7")), ("django", Some("django"))]);
    let fw = frameworks_from(&d, false, false, true);
    assert_eq!(fw, vec!["Django".to_string(), "Axum".to_string(), "Tauri".to_string()]);
}

#[test]
fn entry_points_follow_candidate_order() {
    let mut present = vec![false; 11];
    present[0] = true;
    present[7] = true;
    present[10] = true;
    assert_eq!(entry_points_from(&present), vec!["src/main.rs", "app/main.py", "src/App.tsx"]);
    assert!(entry_points_from(&vec![false; 11]).is_empty());
}

#[test]
fn either_next_config_file_signals_next_js() {
    let deps = vec![dep("React"), dep("react-dom"), dep("axum")];
    assert_eq!(frameworks_from(&deps, false, false, false), vec!["React".to_string(), "Axum".to_string()]);
    assert_eq!(frameworks_from(&deps, true, false, false), vec!["React".to_string(), "Next.js".to_string(), "Axum".to_string()]);
    assert_eq!(frameworks_from(&deps, false, true, false), vec!["React".to_string(), "Next.js".to_string(), "Axum".to_string()]);
    assert_eq!(frameworks_from(&vec![], true, true, true), vec!["Next.js".to_string(), "Tauri".to_string()]);
}

#[test]
fn framework_config_files_are_looked_for_under_the_root() {
    let (js, mjs, tauri) = framework_probe_paths("/p");
    assert_eq!(js, "/p/next.config.js");
    assert_eq!(mjs, "/p/next.config.mjs");
    assert_eq!(tauri, "/p/tauri.conf.json");
}
