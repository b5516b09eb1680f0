//! Source languages, directories to skip, and entry points.

use crate::paths;
use crate::text;
use vstd::prelude::*;

verus! {

/// The extension of a path, as `std::path::Path::extension` finds it.
pub uninterp spec fn path_extension(path: Seq<char>) -> Option<Seq<char>>;

/// Calls `std::path::Path::extension`; the result is named `path_extension`.
#[verifier::external_body]
fn extension_of(path: &str) -> (r: Option<String>)
    ensures
        r matches Some(e) ==> path_extension(path@) == Some(e@),
        r is None ==> path_extension(path@) is None,
{
    match std::path::Path::new(path).extension() {
        Some(e) => match e.to_str() {
            Some(s) => Some(s.to_owned()),
            None => None,
        },
        None => None,
    }
}

/// The language a file extension denotes.
pub open spec fn language_of_ext(ext: Seq<char>) -> Option<Seq<char>> {
    if ext == "rs"@ {
        Some("rust"@)
    } else if ext == "js"@ || ext == "mjs"@ || ext == "cjs"@ {
        Some("javascript"@)
    } else if ext == "ts"@ || ext == "mts"@ || ext == "cts"@ {
        Some("typescript"@)
    } else if ext == "tsx"@ {
        Some("tsx"@)
    } else if ext == "py"@ || ext == "pyw"@ {
        Some("python"@)
    } else if ext == "go"@ {
        Some("go"@)
    } else if ext == "java"@ {
        Some("java"@)
    } else if ext == "rb"@ {
        Some("ruby"@)
    } else if ext == "php"@ {
        Some("php"@)
    } else if ext == "cs"@ {
        Some("csharp"@)
    } else if ext == "cpp"@ || ext == "cc"@ || ext == "cxx"@ {
        Some("cpp"@)
    } else if ext == "c"@ || ext == "h"@ {
        Some("c"@)
    } else if ext == "swift"@ {
        Some("swift"@)
    } else if ext == "kt"@ || ext == "kts"@ {
        Some("kotlin"@)
    } else if ext == "sql"@ {
        Some("sql"@)
    } else if ext == "sh"@ || ext == "bash"@ {
        Some("shell"@)
    } else if ext == "toml"@ {
        Some("toml"@)
    } else if ext == "json"@ {
        Some("json"@)
    } else if ext == "yaml"@ || ext == "yml"@ {
        Some("yaml"@)
    } else if ext == "md"@ {
        Some("markdown"@)
    } else {
        None
    }
}

/// The language a file extension denotes.
pub fn language_for_extension(ext: &str) -> (r: Option<&'static str>)
    ensures
        r matches Some(l) ==> language_of_ext(ext@) == Some(l@),
        r is None ==> language_of_ext(ext@) is None,
{
    if text::str_eq(ext, "rs") {
        Some("rust")
    } else if text::str_eq(ext, "js") || text::str_eq(ext, "mjs") || text::str_eq(ext, "cjs") {
        Some("javascript")
    } else if text::str_eq(ext, "ts") || text::str_eq(ext, "mts") || text::str_eq(ext, "cts") {
        Some("typescript")
    } else if text::str_eq(ext, "tsx") {
        Some("tsx")
    } else if text::str_eq(ext, "py") || text::str_eq(ext, "pyw") {
        Some("python")
    } else if text::str_eq(ext, "go") {
        Some("go")
    } else if text::str_eq(ext, "java") {
        Some("java")
    } else if text::str_eq(ext, "rb") {
        Some("ruby")
    } else if text::str_eq(ext, "php") {
        Some("php")
    } else if text::str_eq(ext, "cs") {
        Some("csharp")
    } else if text::str_eq(ext, "cpp") || text::str_eq(ext, "cc") || text::str_eq(ext, "cxx") {
        Some("cpp")
    } else if text::str_eq(ext, "c") || text::str_eq(ext, "h") {
        Some("c")
    } else if text::str_eq(ext, "swift") {
        Some("swift")
    } else if text::str_eq(ext, "kt") || text::str_eq(ext, "kts") {
        Some("kotlin")
    } else if text::str_eq(ext, "sql") {
        Some("sql")
    } else if text::str_eq(ext, "sh") || text::str_eq(ext, "bash") {
        Some("shell")
    } else if text::str_eq(ext, "toml") {
        Some("toml")
    } else if text::str_eq(ext, "json") {
        Some("json")
    } else if text::str_eq(ext, "yaml") || text::str_eq(ext, "yml") {
        Some("yaml")
    } else if text::str_eq(ext, "md") {
        Some("markdown")
    } else {
        None
    }
}

/// The language of a file, by its extension.
pub open spec fn language_of_path(path: Seq<char>) -> Option<Seq<char>> {
    match path_extension(path) {
        Some(e) => language_of_ext(e),
        None => None,
    }
}

/// The language of a file, by its extension.
pub fn detect_language(path: &str) -> (r: Option<&'static str>)
    ensures
        r matches Some(l) ==> language_of_path(path@) == Some(l@),
        r is None ==> language_of_path(path@) is None,
{
    match extension_of(path) {
        Some(e) => language_for_extension(e.as_str()),
        None => None,
    }
}

/// Whether a file is a source file, i.e. its language is known.
pub fn is_source_file(path: &str) -> (r: bool)
    ensures
        r == language_of_path(path@) is Some,
{
    detect_language(path).is_some()
}

/// Directories never scanned: dependencies, build outputs, caches and hidden
/// directories other than `.github`.
pub open spec fn skipped_dir(name: Seq<char>) -> bool {
    (name == ".git"@ || name == ".nexus"@ || name == "node_modules"@ || name == "target"@ || name == "dist"@ || name == "build"@ || name == ".next"@ || name == "__pycache__"@ || name == ".venv"@ || name == "venv"@ || name == "vendor"@ || name == ".cargo"@) || (text::seq_starts_with(name, "."@) && name != ".github"@)
}

/// Whether a directory is left out of scans.
pub fn should_skip_dir(name: &str) -> (r: bool)
    ensures
        r == skipped_dir(name@),
{
    (text::str_eq(name, ".git") || text::str_eq(name, ".nexus") || text::str_eq(name, "node_modules") || text::str_eq(name, "target") || text::str_eq(name, "dist") || text::str_eq(name, "build") || text::str_eq(name, ".next") || text::str_eq(name, "__pycache__") || text::str_eq(name, ".venv") || text::str_eq(name, "venv") || text::str_eq(name, "vendor") || text::str_eq(name, ".cargo")) || (text::str_starts_with(name, ".") && !text::str_eq(name, ".github"))
}

/// Relative paths that are project entry points.
pub open spec fn entry_point_path(rel: Seq<char>) -> bool {
    rel == "src/main.rs"@ || rel == "src/lib.rs"@ || rel == "main.rs"@ || rel == "index.js"@ || rel == "index.ts"@ || rel == "src/index.ts"@ || rel == "main.py"@ || rel == "src/app.tsx"@ || rel == "src/App.tsx"@
}

/// Whether a relative path is a project entry point.
pub fn is_entry_point(rel: &str) -> (r: bool)
    ensures
        r == entry_point_path(rel@),
{
    text::str_eq(rel, "src/main.rs") || text::str_eq(rel, "src/lib.rs") || text::str_eq(rel, "main.rs") || text::str_eq(rel, "index.js") || text::str_eq(rel, "index.ts") || text::str_eq(rel, "src/index.ts") || text::str_eq(rel, "main.py") || text::str_eq(rel, "src/app.tsx") || text::str_eq(rel, "src/App.tsx")
}

/// Paths, relative to the project root, where entry points are looked for.
pub open spec fn entry_candidates() -> Seq<Seq<char>> {
    seq!["src/main.rs"@, "src/lib.rs"@, "main.rs"@, "index.js"@, "index.ts"@, "src/index.ts"@, "src/index.js"@, "app/main.py"@, "main.py"@, "src/app.tsx"@, "src/App.tsx"@]
}

/// The elements of `items` whose flag is set, in order.
pub open spec fn picked(items: Seq<Seq<char>>, flags: Seq<bool>) -> Seq<Seq<char>>
    decreases items.len(),
{
    if items.len() == 0 || flags.len() != items.len() {
        Seq::empty()
    } else if flags.last() {
        picked(items.drop_last(), flags.drop_last()).push(items.last())
    } else {
        picked(items.drop_last(), flags.drop_last())
    }
}

/// The entry-point candidates, in the order they are looked for.
fn entry_candidate_list() -> (r: Vec<&'static str>)
    ensures
        r@.map_values(|c: &str| c@) == entry_candidates(),
{
    let candidates: Vec<&str> = vec!["src/main.rs", "src/lib.rs", "main.rs", "index.js", "index.ts", "src/index.ts", "src/index.js", "app/main.py", "main.py", "src/app.tsx", "src/App.tsx"];
    assert(candidates@.map_values(|c: &str| c@) =~= entry_candidates());
    candidates
}

/// The entry points among the candidates, given for each candidate (in candidate
/// order) whether it exists.
pub fn entry_points_from(present: &Vec<bool>) -> (r: Vec<String>)
    requires
        present@.len() == entry_candidates().len(),
    ensures
        text::texts(r@) == picked(entry_candidates(), present@),
{
    let candidates = entry_candidate_list();
    let ghost cs = candidates@.map_values(|c: &str| c@);
    let mut out: Vec<String> = Vec::new();
    let mut i: usize = 0;
    while i < candidates.len()
        invariant
            i <= candidates@.len(),
            cs == candidates@.map_values(|c: &str| c@),
            cs == entry_candidates(),
            present@.len() == cs.len(),
            picked(cs.take(i as int), present@.take(i as int)) == text::texts(out@),
        decreases candidates@.len() - i,
    {
        let ghost prev = text::texts(out@);
        assert(cs.take(i + 1).drop_last() =~= cs.take(i as int));
        assert(present@.take(i + 1).drop_last() =~= present@.take(i as int));
        if present[i] {
            out.push(candidates[i].to_owned());
            assert(text::texts(out@) =~= prev.push(cs[i as int]));
        } else {
            assert(text::texts(out@) =~= prev);
        }
        i = i + 1;
    }
    assert(cs.take(cs.len() as int) =~= cs);
    assert(present@.take(cs.len() as int) =~= present@);
    out
}

/// The entry-point candidates that exist under `project_root`, in candidate order.
/// Which files exist depends on the disk; the choice among them is `entry_points_from`.
pub fn detect_entry_points(project_root: &str) -> (r: Vec<String>)
    ensures
        exists|flags: Seq<bool>| flags.len() == entry_candidates().len() && #[trigger] picked(entry_candidates(), flags) == text::texts(r@),
{
    let candidates = entry_candidate_list();
    let mut present: Vec<bool> = Vec::new();
    let mut i: usize = 0;
    while i < candidates.len()
        invariant
            i <= candidates@.len(),
            candidates@.map_values(|c: &str| c@) == entry_candidates(),
            present@.len() == i,
        decreases candidates@.len() - i,
    {
        let full = paths::join_path(project_root, candidates[i]);
        present.push(paths::path_exists(full.as_str()));
        i = i + 1;
    }
    let r = entry_points_from(&present);
    assert(picked(entry_candidates(), present@) == text::texts(r@));
    r
}

} // verus!
