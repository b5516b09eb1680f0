use nexus::decision::{normalize, DecisionEngine};
use nexus::models::{DecisionStatus, DecisionStore, NexusError, Timestamp};
use nexus::text::truncate_chars;

fn empty_engine() -> DecisionEngine {
    DecisionEngine::new(DecisionStore { version: "0.1.0".to_string(), decisions: vec![] })
}

fn at(secs: i64) -> Timestamp {
    Timestamp { secs, nanos: 0 }
}

#[test]
fn truncate_does_not_panic_on_multibyte() {
    // Each '✓' is 3 bytes; cutting by bytes would split one.
    let s = "✓✓✓✓✓ decision text";
    let out = truncate_chars(s, 3);
    assert!(out.ends_with('…'));
    assert_eq!(out.chars().count(), 3);
}

#[test]
fn supersede_marks_prior_decision_and_creates_new() {
    let mut de = empty_engine();

    let first = de.record("Use JSON storage".to_string(), None, vec![], None).unwrap().decision;
    let prefix = uuid::Uuid::from_u128(first.id).to_string()[..8].to_string();

    let second = de
        .record_with_supersedes("Use SQLite storage".to_string(), None, vec![], None, Some(prefix))
        .unwrap()
        .decision;

    assert_ne!(first.id, second.id);

    // Only the new decision should be active.
    let active = de.list_active();
    assert!(active.iter().any(|d| d.id == second.id));
    assert!(!active.iter().any(|d| d.id == first.id));

    let all = de.list();
    let old = all.iter().find(|d| d.id == first.id).unwrap();
    assert_eq!(old.status, DecisionStatus::Superseded);
}

#[test]
fn supersede_unknown_id_errors() {
    let mut de = empty_engine();
    let err = match de.record_with_supersedes("X".to_string(), None, vec![], None, Some("deadbeef".to_string())) {
        Err(e) => e,
        Ok(_) => panic!("superseding an unknown id must fail"),
    };
    assert!(err.message().contains("supersede"));
}

#[test]
fn unknown_supersede_names_the_prefix_and_keeps_the_store() {
    let mut de = empty_engine();
    de.record_at("Keep it".to_string(), None, vec![], None, None, 7, at(10)).unwrap();
    let err = match de.record_at("New".to_string(), None, vec![], None, Some("  ffff ".to_string()), 8, at(20)) {
        Err(e) => e,
        Ok(_) => panic!("expected an error"),
    };
    assert!(matches!(&err, NexusError::UnknownDecision(p) if p == "ffff"));
    assert_eq!(err.message(), "no decision matching id 'ffff' to supersede");
    assert_eq!(de.list().len(), 1);
}

#[test]
fn recording_the_same_text_twice_keeps_one_decision() {
    let mut de = empty_engine();
    let a = de.record_at("Use Rust".to_string(), None, vec![], None, None, 1, at(100)).unwrap();
    assert!(a.created);
    let b = de.record_at("  use rust ".to_string(), None, vec![], None, None, 2, at(200)).unwrap();
    assert!(!b.created);
    assert_eq!(b.decision.id, 1);
    assert_eq!(de.list().len(), 1);
}

#[test]
fn blank_supersede_is_ignored() {
    let mut de = empty_engine();
    de.record_at("A".to_string(), None, vec![], None, None, 1, at(1)).unwrap();
    let r = de.record_at("a".to_string(), None, vec![], None, Some("   ".to_string()), 2, at(2)).unwrap();
    assert!(!r.created);
    assert_eq!(r.superseded, None);
}

#[test]
fn superseding_replaces_even_identical_text() {
    let mut de = empty_engine();
    de.record_at("Same".to_string(), None, vec![], None, None, 0x1234, at(1)).unwrap();
    let prefix = uuid::Uuid::from_u128(0x1234).to_string()[..6].to_string();
    let r = de.record_at("Same".to_string(), None, vec![], None, Some(prefix), 0x5678, at(2)).unwrap();
    assert!(r.created);
    assert_eq!(r.superseded, Some(0x1234));
    let all = de.list();
    assert_eq!(all.len(), 2);
    assert_eq!(all[0].status, DecisionStatus::Superseded);
    assert_eq!(all[1].status, DecisionStatus::Active);
}

#[test]
fn list_active_keeps_newest_per_text_newest_first() {
    let mut de = empty_engine();
    de.record_at("Alpha".to_string(), None, vec![], None, None, 1, at(10)).unwrap();
    de.record_at("Beta".to_string(), None, vec![], None, None, 2, at(30)).unwrap();
    // a second "alpha" recorded while the first one is superseded
    let prefix = uuid::Uuid::from_u128(1).to_string();
    de.record_at("ALPHA".to_string(), None, vec![], None, Some(prefix), 3, at(20)).unwrap();
    let active = de.list_active();
    let ids: Vec<u128> = active.iter().map(|d| d.id).collect();
    assert_eq!(ids, vec![2, 3]);
    assert_eq!(de.list().len(), 3);
}

#[test]
fn normalize_trims_and_lowercases() {
    assert_eq!(normalize("  Use SQLite \n"), "use sqlite");
}

#[test]
fn format_all_lists_every_decision() {
    let mut de = empty_engine();
    assert_eq!(de.format_all(), "No decisions recorded yet.");
    de.record_at(
        "Use Rust".to_string(),
        Some("Speed".to_string()),
        vec!["lang".to_string(), "core".to_string()],
        None,
        None,
        1,
        at(0),
    )
    .unwrap();
    de.record_at("Use SQLite".to_string(), None, vec![], None, None, 2, at(90)).unwrap();
    assert_eq!(
        de.format_all(),
        "ARCHITECTURAL DECISIONS\n\n1. [1970-01-01 00:00 UTC] Use Rust\n   Rationale: Speed\n   Tags: lang, core\n\n2. [1970-01-01 00:01 UTC] Use SQLite\n\n"
    );
}

#[test]
fn decision_events_carry_ids_as_json() {
    let mut de = empty_engine();
    let first = de.record_at("a".repeat(100), Some("why".to_string()), vec![], None, None, 1, at(5)).unwrap();
    let e = nexus::decision::decision_event(&first, 42);
    assert_eq!(e.id, 42);
    assert_eq!(e.title.chars().count(), 80);
    assert!(e.title.ends_with('…'));
    assert_eq!(e.description, Some("why".to_string()));
    assert_eq!(
        e.metadata,
        format!("{{\"decision_id\":\"{}\",\"supersedes\":null}}", uuid::Uuid::from_u128(1))
    );
    let prefix = uuid::Uuid::from_u128(1).to_string();
    let second = de.record_at("b".to_string(), None, vec![], None, Some(prefix), 2, at(6)).unwrap();
    let e2 = nexus::decision::decision_event(&second, 43);
    let mut expected = serde_json::Map::new();
    expected.insert("decision_id".to_string(), serde_json::Value::String(uuid::Uuid::from_u128(2).to_string()));
    expected.insert("supersedes".to_string(), serde_json::Value::String(uuid::Uuid::from_u128(1).to_string()));
    assert_eq!(e2.metadata, serde_json::Value::Object(expected).to_string());
}

#[test]
fn format_all_lists_decisions_oldest_first_whatever_the_stored_order() {
    let mut de = empty_engine();
    de.record_at("Use SQLite".to_string(), None, vec![], None, None, 2, at(120)).unwrap();
    de.record_at("Use Rust".to_string(), None, vec![], None, None, 1, at(60)).unwrap();
    // As an import might leave them: newest stored first.
    let newest_first = DecisionEngine::new(DecisionStore {
        version: "0.1.0".to_string(),
        decisions: vec![de.store.decisions[0].clone(), de.store.decisions[1].clone()],
    });
    assert_eq!(
        newest_first.format_all(),
        "ARCHITECTURAL DECISIONS\n\n1. [1970-01-01 00:01 UTC] Use Rust\n\n2. [1970-01-01 00:02 UTC] Use SQLite\n\n"
    );
}
