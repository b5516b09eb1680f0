//! Persistent project memory for AI-assisted development: the verified core.
//!
//! The library holds the data model of a project's memory (decisions, tasks,
//! architecture, knowledge graph) and the logic that turns it into AI
//! continuation contexts. Reading and writing the `.nexus/` directory, the
//! SQLite index and git access live in the accompanying program.

pub mod text;
pub mod models;
pub mod ids;
pub mod order;
pub mod decision;
pub mod structure;
pub mod context;
pub mod compression;
pub mod paths;
pub mod language;
pub mod deps;
pub mod knowledge;
pub mod scan;
pub mod health;
pub mod snapshot;
pub mod search;
pub mod records;
pub mod git;
