//! The filesystem layout of a Nexus-enabled project.

use crate::models::NexusError;
use crate::text::{self, append_str};
use vstd::prelude::*;

verus! {

pub const NEXUS_DIR: &'static str = ".nexus";
pub const MEMORY_FILE: &'static str = "memory.json";
pub const ARCHITECTURE_FILE: &'static str = "architecture.json";
pub const TIMELINE_FILE: &'static str = "timeline.json";
pub const DECISIONS_FILE: &'static str = "decisions.json";
pub const TASKS_FILE: &'static str = "tasks.json";
pub const KNOWLEDGE_DB: &'static str = "knowledge.db";
pub const NXP_FILE: &'static str = "project.nxp";
pub const SESSIONS_DIR: &'static str = "sessions";
pub const SNAPSHOTS_DIR: &'static str = "snapshots";

/// `name` appended to `base` as a path component (as `PathBuf::join` does for a
/// relative name): a `/` is inserted unless `base` is empty or already ends with one.
pub open spec fn joined_path(base: Seq<char>, name: Seq<char>) -> Seq<char> {
    if base.len() == 0 {
        name
    } else if base.last() == '/' {
        base + name
    } else {
        base + "/"@ + name
    }
}

/// Appends a relative path component to a base path.
pub fn join_path(base: &str, name: &str) -> (r: String)
    ensures
        r@ == joined_path(base@, name@),
{
    let n = base.unicode_len();
    if n == 0 {
        return name.to_owned();
    }
    let mut out = base.to_owned();
    if base.get_char(n - 1) != '/' {
        append_str(&mut out, "/");
    }
    append_str(&mut out, name);
    out
}

/// Whether a directory exists at `path` (`std::path::Path::is_dir`); it depends on the disk, so nothing is promised.
#[verifier::external_body]
pub(crate) fn path_is_dir(path: &str) -> bool {
    std::path::Path::new(path).is_dir()
}

/// Whether anything exists at `path` (`std::path::Path::exists`); it depends on the disk, so nothing is promised.
#[verifier::external_body]
pub(crate) fn path_exists(path: &str) -> bool {
    std::path::Path::new(path).exists()
}

/// Canonical filesystem layout for a Nexus-enabled project.
#[derive(Clone, Debug)]
pub struct NexusPaths {
    pub project_root: String,
    pub nexus_root: String,
}

/// The parent of a path (everything before its last `/`, or `/` for a child of
/// the root), or none for a path without a `/` or the root itself.
pub open spec fn parent_path(p: Seq<char>) -> Option<Seq<char>> {
    let k = crate::structure::last_slash(p);
    if k < 0 || p.len() <= 1 {
        None
    } else if k == 0 {
        Some("/"@)
    } else {
        Some(p.take(k))
    }
}

/// The `n`-th ancestor of a path (the path itself for `n == 0`), when there is one.
pub open spec fn ancestor(p: Seq<char>, n: nat) -> Option<Seq<char>>
    decreases n,
{
    if n == 0 {
        Some(p)
    } else {
        match ancestor(p, (n - 1) as nat) {
            Some(q) => parent_path(q),
            None => None,
        }
    }
}

impl NexusPaths {
    /// The layout of the project rooted at `root`: its memory lives in `root/.nexus`.
    pub fn from_project_root(root: &str) -> (r: NexusPaths)
        ensures
            r.project_root@ == root@,
            r.nexus_root@ == joined_path(root@, NEXUS_DIR@),
    {
        NexusPaths { project_root: root.to_owned(), nexus_root: join_path(root, NEXUS_DIR) }
    }

    /// The project whose root is the first candidate marked present, given the
    /// candidate roots nearest first and, for each, whether `.nexus` is a directory
    /// there; `NotInitialized` when none is.
    pub fn pick_root(candidates: &Vec<String>, present: &Vec<bool>) -> (r: Result<NexusPaths, NexusError>)
        requires
            candidates@.len() == present@.len(),
        ensures
            r matches Ok(p) ==> exists|i: int|
                0 <= i < present@.len() && #[trigger] present@[i]
                    && (forall|j: int| 0 <= j < i ==> !present@[j])
                    && p.project_root@ == candidates@[i]@
                    && p.nexus_root@ == joined_path(candidates@[i]@, NEXUS_DIR@),
            r matches Err(e) ==> e is NotInitialized && forall|i: int| 0 <= i < present@.len() ==> !present@[i],
    {
        let mut i: usize = 0;
        while i < candidates.len()
            invariant
                i <= candidates@.len(),
                candidates@.len() == present@.len(),
                forall|j: int| 0 <= j < i ==> !present@[j],
            decreases candidates@.len() - i,
        {
            if present[i] {
                let p = NexusPaths::from_project_root(candidates[i].as_str());
                assert(present@[i as int]);
                return Ok(p);
            }
            i = i + 1;
        }
        Err(NexusError::NotInitialized)
    }

    /// Looks for `.nexus` in `start` and then in each ancestor of it, nearest first
    /// (`pick_root` over `ancestors_of(start)`). `start` is taken as given, already
    /// absolute and canonical. Which directories exist depends on the disk; the
    /// project found is always `start` or one of its ancestors.
    pub fn discover(start: &str) -> (r: Result<NexusPaths, NexusError>)
        ensures
            r matches Ok(p) ==> p.nexus_root@ == joined_path(p.project_root@, NEXUS_DIR@)
                && exists|n: nat| ancestor(start@, n) == Some(p.project_root@),
            r matches Err(e) ==> e is NotInitialized,
    {
        let candidates = ancestors_of(start);
        let mut present: Vec<bool> = Vec::new();
        let mut i: usize = 0;
        while i < candidates.len()
            invariant
                i <= candidates@.len(),
                present@.len() == i,
            decreases candidates@.len() - i,
        {
            let probe = join_path(candidates[i].as_str(), NEXUS_DIR);
            present.push(path_is_dir(probe.as_str()));
            i = i + 1;
        }
        let r = NexusPaths::pick_root(&candidates, &present);
        proof {
            if let Ok(p) = &r {
                let k = choose|k: int|
                    0 <= k < present@.len() && #[trigger] present@[k]
                        && (forall|j: int| 0 <= j < k ==> !present@[j])
                        && p.project_root@ == candidates@[k]@
                        && p.nexus_root@ == joined_path(candidates@[k]@, NEXUS_DIR@);
                assert(ancestor(start@, k as nat) == Some(p.project_root@));
            }
        }
        r
    }

    /// Whether the project has a `.nexus` directory holding a memory file: the disk is
    /// asked whether `nexus_root` is a directory and whether `memory_file()` exists, and
    /// the answers are combined by `initialized_from`.
    pub fn is_initialized(&self) -> bool {
        let has_nexus_dir = path_is_dir(self.nexus_root.as_str());
        let has_memory_file = path_exists(self.memory_file().as_str());
        initialized_from(has_nexus_dir, has_memory_file)
    }

    /// `.nexus/memory.json`
    pub fn memory_file(&self) -> (r: String)
        ensures
            r@ == joined_path(self.nexus_root@, MEMORY_FILE@),
    {
        join_path(self.nexus_root.as_str(), MEMORY_FILE)
    }

    /// `.nexus/architecture.json`
    pub fn architecture_file(&self) -> (r: String)
        ensures
            r@ == joined_path(self.nexus_root@, ARCHITECTURE_FILE@),
    {
        join_path(self.nexus_root.as_str(), ARCHITECTURE_FILE)
    }

    /// `.nexus/timeline.json`
    pub fn timeline_file(&self) -> (r: String)
        ensures
            r@ == joined_path(self.nexus_root@, TIMELINE_FILE@),
    {
        join_path(self.nexus_root.as_str(), TIMELINE_FILE)
    }

    /// `.nexus/decisions.json`
    pub fn decisions_file(&self) -> (r: String)
        ensures
            r@ == joined_path(self.nexus_root@, DECISIONS_FILE@),
    {
        join_path(self.nexus_root.as_str(), DECISIONS_FILE)
    }

    /// `.nexus/tasks.json`
    pub fn tasks_file(&self) -> (r: String)
        ensures
            r@ == joined_path(self.nexus_root@, TASKS_FILE@),
    {
        join_path(self.nexus_root.as_str(), TASKS_FILE)
    }

    /// `.nexus/knowledge.db`
    pub fn knowledge_db(&self) -> (r: String)
        ensures
            r@ == joined_path(self.nexus_root@, KNOWLEDGE_DB@),
    {
        join_path(self.nexus_root.as_str(), KNOWLEDGE_DB)
    }

    /// `.nexus/project.nxp`
    pub fn nxp_file(&self) -> (r: String)
        ensures
            r@ == joined_path(self.nexus_root@, NXP_FILE@),
    {
        join_path(self.nexus_root.as_str(), NXP_FILE)
    }

    /// `.nexus/sessions`
    pub fn sessions_dir(&self) -> (r: String)
        ensures
            r@ == joined_path(self.nexus_root@, SESSIONS_DIR@),
    {
        join_path(self.nexus_root.as_str(), SESSIONS_DIR)
    }

    /// `.nexus/snapshots`
    pub fn snapshots_dir(&self) -> (r: String)
        ensures
            r@ == joined_path(self.nexus_root@, SNAPSHOTS_DIR@),
    {
        join_path(self.nexus_root.as_str(), SNAPSHOTS_DIR)
    }
}

/// A project is initialised when its `.nexus` directory exists and holds a memory file.
pub fn initialized_from(has_nexus_dir: bool, has_memory_file: bool) -> (r: bool)
    ensures
        r == (has_nexus_dir && has_memory_file),
{
    has_nexus_dir && has_memory_file
}

/// `start` followed by each of its ancestors, nearest first.
pub fn ancestors_of(start: &str) -> (r: Vec<String>)
    ensures
        forall|i: int| 0 <= i < r@.len() ==> ancestor(start@, i as nat) == Some(#[trigger] r@[i]@),
        ancestor(start@, r@.len()) is None,
{
    let mut out: Vec<String> = Vec::new();
    let mut current = start.to_owned();
    loop
        invariant
            forall|i: int| 0 <= i < out@.len() ==> ancestor(start@, i as nat) == Some(#[trigger] out@[i]@),
            ancestor(start@, out@.len()) == Some(current@),
        decreases current@.len(),
    {
        let next = parent_of(current.as_str());
        let ghost n = out@.len();
        out.push(current);
        match next {
            Some(q) => {
                current = q;
            },
            None => {
                assert(ancestor(start@, (n + 1) as nat) is None);
                return out;
            },
        }
    }
}

/// The parent of a path (see `parent_path`).
pub fn parent_of(p: &str) -> (r: Option<String>)
    ensures
        r matches Some(q) ==> parent_path(p@) == Some(q@) && q@.len() < p@.len(),
        r is None ==> parent_path(p@) is None,
{
    let cs = text::chars_of(p);
    let n = cs.len();
    let mut i: usize = n;
    assert(p@.take(n as int) =~= p@);
    while i > 0 && cs[i - 1] != '/'
        invariant
            i <= n,
            n == p@.len(),
            cs@ == p@,
            crate::structure::last_slash(p@) == crate::structure::last_slash(p@.take(i as int)),
        decreases i,
    {
        assert(p@.take(i as int).drop_last() =~= p@.take(i - 1));
        i = i - 1;
    }
    proof {
        if i > 0 {
            assert(p@.take(i as int).last() == '/');
        }
    }
    if i == 0 || n <= 1 {
        return None;
    }
    if i == 1 {
        proof {
            reveal_strlit("/");
        }
        return Some("/".to_owned());
    }
    Some(p.substring_char(0, i - 1).to_owned())
}

} // verus!
