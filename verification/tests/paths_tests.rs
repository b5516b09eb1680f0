use nexus::models::NexusError;
use nexus::paths::{ancestors_of, initialized_from, join_path, parent_of, NexusPaths, MEMORY_FILE, NEXUS_DIR, NXP_FILE};
use std::path::Path;

#[test]
fn nexus_dir_constants() {
    assert_eq!(NEXUS_DIR, ".nexus");
    assert_eq!(NXP_FILE, "project.nxp");
}

#[test]
fn paths_layout() {
    let paths = NexusPaths::from_project_root("/tmp/myproject");
    assert_eq!(Path::new(&paths.nexus_root), Path::new("/tmp/myproject/.nexus"));
    assert!(Path::new(&paths.memory_file()).ends_with(".nexus/memory.json"));
}

#[test]
fn every_memory_file_lives_under_the_nexus_root() {
    let paths = NexusPaths::from_project_root("/srv/app/");
    assert_eq!(paths.nexus_root, "/srv/app/.nexus");
    assert_eq!(paths.memory_file(), "/srv/app/.nexus/memory.json");
    assert_eq!(paths.architecture_file(), "/srv/app/.nexus/architecture.json");
    assert_eq!(paths.timeline_file(), "/srv/app/.nexus/timeline.json");
    assert_eq!(paths.decisions_file(), "/srv/app/.nexus/decisions.json");
    assert_eq!(paths.tasks_file(), "/srv/app/.nexus/tasks.json");
    assert_eq!(paths.knowledge_db(), "/srv/app/.nexus/knowledge.db");
    assert_eq!(paths.nxp_file(), "/srv/app/.nexus/project.nxp");
    assert_eq!(paths.sessions_dir(), "/srv/app/.nexus/sessions");
    assert_eq!(paths.snapshots_dir(), "/srv/app/.nexus/snapshots");
    assert_eq!(MEMORY_FILE, "memory.json");
}

#[test]
fn join_path_inserts_one_separator() {
    assert_eq!(join_path("a", "b"), "a/b");
    assert_eq!(join_path("a/", "b"), "a/b");
    assert_eq!(join_path("", "b"), "b");
}

#[test]
fn parent_of_walks_up_to_the_root() {
    assert_eq!(parent_of("/a/b/c"), Some("/a/b".to_string()));
    assert_eq!(parent_of("/a"), Some("/".to_string()));
    assert_eq!(parent_of("/"), None);
    assert_eq!(parent_of("relative"), None);
}

#[test]
fn discover_without_memory_is_not_initialized() {
    let r = NexusPaths::discover("/definitely/not/a/nexus/project/here");
    match r {
        Err(e) => {
            assert!(matches!(e, NexusError::NotInitialized));
            assert_eq!(e.message(), "project not initialized — run `nexus init` first");
        }
        Ok(p) => panic!("unexpected project at {}", p.project_root),
    }
}

#[test]
fn ancestors_run_from_start_to_the_root() {
    assert_eq!(ancestors_of("/a/b/c"), vec!["/a/b/c", "/a/b", "/a", "/"]);
    assert_eq!(ancestors_of("rel"), vec!["rel"]);
}

#[test]
fn pick_root_takes_the_nearest_candidate_holding_nexus() {
    let candidates: Vec<String> = vec!["/a/b".to_string(), "/a".to_string(), "/".to_string()];
    let p = NexusPaths::pick_root(&candidates, &vec![false, true, true]).unwrap();
    assert_eq!(p.project_root, "/a");
    assert_eq!(p.nexus_root, "/a/.nexus");
    let p = NexusPaths::pick_root(&candidates, &vec![true, true, false]).unwrap();
    assert_eq!(p.project_root, "/a/b");
}

#[test]
fn pick_root_without_any_nexus_is_not_initialized() {
    let candidates: Vec<String> = vec!["/a".to_string(), "/".to_string()];
    let r = NexusPaths::pick_root(&candidates, &vec![false, false]);
    assert!(matches!(r, Err(NexusError::NotInitialized)));
}


#[test]
fn initialised_needs_both_the_directory_and_the_memory_file() {
    assert!(initialized_from(true, true));
    assert!(!initialized_from(true, false));
    assert!(!initialized_from(false, true));
    assert!(!initialized_from(false, false));
}
