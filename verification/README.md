# nexus

A persistent memory layer for software projects: it records architectural
decisions, tasks, the project's architecture and history under `.nexus/`, and
turns them into continuation contexts for AI coding assistants.

## Layout

- `src/` — the verified library (Verus). Each module states its behaviour in
  `requires`/`ensures` contracts and proves it:
  - `decision` — recording, superseding and listing decisions, with the laws of
    the active list (one decision per text, the newest, only active ones) and of
    superseding;
  - `context`, `compression` — building, ranking, compressing and rendering
    continuation contexts and handoff documents;
  - `scan`, `language`, `structure`, `deps` — what a scan gathers file by file,
    language detection, layer inference and dependency manifests;
  - `knowledge` — the knowledge graph and impact analysis;
  - `search`, `snapshot`, `records`, `git`, `health`, `paths` — answering
    questions, snapshot manifests, stored records, history summaries, health
    facts and the `.nexus/` layout;
  - `text`, `order`, `ids`, `models` — shared text utilities, stable ordering,
    identifiers and the data model.
- `tests/` — tests of the library on concrete values.
- `app/` — the command-line program: argument parsing, files, SQLite, git and
  the directory walk, calling the library for every decision it makes.
