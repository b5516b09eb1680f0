//! Declared dependencies (Cargo, npm, Python) and the frameworks they reveal.

use crate::models::DependencyInfo;
use crate::paths;
use crate::text::{self, dup_opt_string, str_eq, to_lower};
use vstd::prelude::*;

verus! {

// ─── Document models ─────────────────────────────────────────────────────────

/// A TOML value, as far as dependency detection reads it.
#[derive(Debug)]
pub enum TomlValue {
    Str(String),
    Table(Vec<(String, TomlValue)>),
    Array(Vec<TomlValue>),
    Other,
}

/// A JSON value, as far as dependency detection reads it.
#[derive(Debug)]
pub enum JsonValue {
    Str(String),
    Object(Vec<(String, JsonValue)>),
    Other,
}

/// The document `toml` parses from a text (`None` when it is not valid TOML),
/// tables listing their entries in the order the crate iterates them.
pub uninterp spec fn parsed_toml(text: Seq<char>) -> Option<TomlValue>;

/// The document `serde_json` parses from a text (`None` when it is not valid JSON),
/// objects listing their entries in the order the crate iterates them.
pub uninterp spec fn parsed_json(text: Seq<char>) -> Option<JsonValue>;

/// The value type of the `toml` crate.
#[verifier::external_type_specification]
#[verifier::external_body]
pub struct ExTomlValue(toml::Value);

/// The value type of the `serde_json` crate.
#[verifier::external_type_specification]
#[verifier::external_body]
pub struct ExJsonValue(serde_json::Value);

/// Converts a `toml::Value` into the library's model, one variant for one.
#[verifier::external_body]
fn from_toml(v: &toml::Value) -> TomlValue {
    match v {
        toml::Value::String(s) => TomlValue::Str(s.clone()),
        toml::Value::Table(t) => TomlValue::Table(t.iter().map(|(k, x)| (k.clone(), from_toml(x))).collect()),
        toml::Value::Array(a) => TomlValue::Array(a.iter().map(from_toml).collect()),
        _ => TomlValue::Other,
    }
}

/// Parses a text with `str::parse::<toml::Value>`; the result is named `parsed_toml`.
#[verifier::external_body]
pub(crate) fn parse_toml(text: &str) -> (r: Option<TomlValue>)
    ensures
        r == parsed_toml(text@),
{
    match text.parse::<toml::Value>() {
        Ok(v) => Some(from_toml(&v)),
        Err(_) => None,
    }
}

/// Converts a `serde_json::Value` into the library's model, one variant for one.
#[verifier::external_body]
fn from_json(v: &serde_json::Value) -> JsonValue {
    match v {
        serde_json::Value::String(s) => JsonValue::Str(s.clone()),
        serde_json::Value::Object(o) => JsonValue::Object(o.iter().map(|(k, x)| (k.clone(), from_json(x))).collect()),
        _ => JsonValue::Other,
    }
}

/// Parses a text with `serde_json::from_str::<serde_json::Value>`; the result is named `parsed_json`.
#[verifier::external_body]
pub(crate) fn parse_json(text: &str) -> (r: Option<JsonValue>)
    ensures
        r == parsed_json(text@),
{
    match serde_json::from_str::<serde_json::Value>(text) {
        Ok(v) => Some(from_json(&v)),
        Err(_) => None,
    }
}

/// A character of a package name as requirement specs start with it: `[a-zA-Z0-9_-]`.
pub open spec fn is_name_char(c: char) -> bool {
    ('a' <= c && c <= 'z') || ('A' <= c && c <= 'Z') || ('0' <= c && c <= '9') || c == '_' || c == '-'
}

/// The longest prefix of `s` made of package-name characters.
pub open spec fn name_run(s: Seq<char>) -> Seq<char>
    decreases s.len(),
{
    if s.len() == 0 || !is_name_char(s[0]) {
        Seq::empty()
    } else {
        seq![s[0]] + name_run(s.drop_first())
    }
}

/// The first capture of `regex::Regex` `^([a-zA-Z0-9_-]+)` on `s`: the longest
/// prefix of package-name characters, when it is not empty.
#[verifier::external_body]
fn leading_name(s: &str) -> (r: Option<String>)
    ensures
        r matches Some(n) ==> n@ == name_run(s@) && n@.len() > 0,
        r is None ==> name_run(s@).len() == 0,
{
    let re = regex::Regex::new(r"^([a-zA-Z0-9_-]+)").unwrap();
    match re.captures(s) {
        Some(c) => c.get(1).map(|m| m.as_str().to_owned()),
        None => None,
    }
}

/// The pieces of a text between its `\n` characters; there is always at least one.
pub open spec fn newline_pieces(text: Seq<char>) -> Seq<Seq<char>>
    decreases text.len(),
{
    if text.len() == 0 {
        seq![Seq::empty()]
    } else {
        let p = newline_pieces(text.drop_last());
        if text.last() == '\n' {
            p.push(Seq::empty())
        } else {
            p.update(p.len() - 1, p.last().push(text.last()))
        }
    }
}

/// A line whose terminating `\n` was preceded by `\r`, without that `\r`.
pub open spec fn without_cr(line: Seq<char>) -> Seq<char> {
    if line.len() > 0 && line.last() == '\r' {
        line.drop_last()
    } else {
        line
    }
}

/// The lines of a text: split at `\n` or `\r\n`, without the terminators, the final
/// line ending optional.
pub open spec fn text_lines(text: Seq<char>) -> Seq<Seq<char>> {
    let p = newline_pieces(text);
    let ended = p.drop_last().map_values(|l: Seq<char>| without_cr(l));
    if p.last().len() == 0 {
        ended
    } else {
        ended.push(p.last())
    }
}

/// Splits a text with `str::lines`, which splits at `\n` and `\r\n`, drops the
/// terminators and yields no empty line after a final line ending (`text_lines`).
#[verifier::external_body]
fn lines_of(text: &str) -> (r: Vec<String>)
    ensures
        text::texts(r@) == text_lines(text@),
{
    text.lines().map(String::from).collect()
}

// ─── Lookups ─────────────────────────────────────────────────────────────────

/// The value under `key` in a table (the first entry with that key).
pub open spec fn toml_entry(entries: Seq<(String, TomlValue)>, key: Seq<char>) -> Option<TomlValue>
    decreases entries.len(),
{
    if entries.len() == 0 {
        None
    } else if entries[0].0@ == key {
        Some(entries[0].1)
    } else {
        toml_entry(entries.drop_first(), key)
    }
}

/// The value under `key` when `v` is a table.
pub open spec fn toml_get(v: TomlValue, key: Seq<char>) -> Option<TomlValue> {
    match v {
        TomlValue::Table(entries) => toml_entry(entries@, key),
        _ => None,
    }
}

fn toml_lookup<'a>(v: &'a TomlValue, key: &str) -> (r: Option<&'a TomlValue>)
    ensures
        r matches Some(x) ==> toml_get(*v, key@) == Some(*x),
        r is None ==> toml_get(*v, key@) is None,
{
    match v {
        TomlValue::Table(entries) => {
            let mut i: usize = 0;
            assert(entries@.skip(0) =~= entries@);
            assert(toml_get(*v, key@) == toml_entry(entries@, key@));
            while i < entries.len()
                invariant
                    i <= entries@.len(),
                    toml_entry(entries@, key@) == toml_entry(entries@.skip(i as int), key@),
                    toml_get(*v, key@) == toml_entry(entries@, key@),
                decreases entries@.len() - i,
            {
                assert(entries@.skip(i as int).drop_first() =~= entries@.skip(i + 1));
                assert(entries@.skip(i as int)[0] == entries@[i as int]);
                if str_eq(entries[i].0.as_str(), key) {
                    assert(entries@.skip(i as int).len() > 0);
                    assert(toml_entry(entries@.skip(i as int), key@) == Some(entries@[i as int].1));
                    let found = &entries[i].1;
                    assert(*found == entries@[i as int].1);
                    return Some(found);
                }
                i = i + 1;
            }
            None
        },
        _ => None,
    }
}

/// The value under `key` in an object (the first entry with that key).
pub open spec fn json_entry(entries: Seq<(String, JsonValue)>, key: Seq<char>) -> Option<JsonValue>
    decreases entries.len(),
{
    if entries.len() == 0 {
        None
    } else if entries[0].0@ == key {
        Some(entries[0].1)
    } else {
        json_entry(entries.drop_first(), key)
    }
}

/// The value under `key` when `v` is an object.
pub open spec fn json_get(v: JsonValue, key: Seq<char>) -> Option<JsonValue> {
    match v {
        JsonValue::Object(entries) => json_entry(entries@, key),
        _ => None,
    }
}

fn json_lookup<'a>(v: &'a JsonValue, key: &str) -> (r: Option<&'a JsonValue>)
    ensures
        r matches Some(x) ==> json_get(*v, key@) == Some(*x),
        r is None ==> json_get(*v, key@) is None,
{
    match v {
        JsonValue::Object(entries) => {
            let mut i: usize = 0;
            assert(entries@.skip(0) =~= entries@);
            assert(json_get(*v, key@) == json_entry(entries@, key@));
            while i < entries.len()
                invariant
                    i <= entries@.len(),
                    json_entry(entries@, key@) == json_entry(entries@.skip(i as int), key@),
                    json_get(*v, key@) == json_entry(entries@, key@),
                decreases entries@.len() - i,
            {
                assert(entries@.skip(i as int).drop_first() =~= entries@.skip(i + 1));
                assert(entries@.skip(i as int)[0] == entries@[i as int]);
                if str_eq(entries[i].0.as_str(), key) {
                    assert(entries@.skip(i as int).len() > 0);
                    assert(json_entry(entries@.skip(i as int), key@) == Some(entries@[i as int].1));
                    let found = &entries[i].1;
                    assert(*found == entries@[i as int].1);
                    return Some(found);
                }
                i = i + 1;
            }
            None
        },
        _ => None,
    }
}


// ─── Dependency values ───────────────────────────────────────────────────────

/// A dependency as a value: name, version, kind (section), source file.
pub type DepValue = (Seq<char>, Option<Seq<char>>, Seq<char>, Seq<char>);

/// The view of an optional string.
pub open spec fn opt_text(o: Option<String>) -> Option<Seq<char>> {
    match o {
        Some(s) => Some(s@),
        None => None,
    }
}

/// The view of a dependency.
pub open spec fn dep_value(d: DependencyInfo) -> DepValue {
    (d.name@, opt_text(d.version), d.kind@, d.source_file@)
}

/// The views of dependencies.
pub open spec fn dep_values(ds: Seq<DependencyInfo>) -> Seq<DepValue> {
    ds.map_values(|d: DependencyInfo| dep_value(d))
}

fn push_dep(out: &mut Vec<DependencyInfo>, name: String, version: Option<String>, kind: &str, source: &str)
    ensures
        dep_values(final(out)@) == dep_values(old(out)@).push((name@, opt_text(version), kind@, source@)),
{
    let ghost before = dep_values(out@);
    let d = DependencyInfo { name, version, kind: kind.to_owned(), source_file: source.to_owned() };
    out.push(d);
    assert(dep_values(out@) =~= before.push(dep_value(d)));
}

// ─── Cargo ───────────────────────────────────────────────────────────────────

/// The version a Cargo dependency spec names: the string itself, or the
/// `version` string of a table.
pub open spec fn cargo_version(spec: TomlValue) -> Option<Seq<char>> {
    match spec {
        TomlValue::Str(v) => Some(v@),
        TomlValue::Table(_) => match toml_get(spec, "version"@) {
            Some(TomlValue::Str(v)) => Some(v@),
            _ => None,
        },
        _ => None,
    }
}

fn cargo_dep_version(spec: &TomlValue) -> (r: Option<String>)
    ensures
        opt_text(r) == cargo_version(*spec),
{
    match spec {
        TomlValue::Str(v) => Some(v.clone()),
        TomlValue::Table(_) => match toml_lookup(spec, "version") {
            Some(TomlValue::Str(v)) => Some(v.clone()),
            _ => None,
        },
        _ => None,
    }
}

/// The dependencies of a table's entries, with their versions.
pub open spec fn table_deps(entries: Seq<(String, TomlValue)>, kind: Seq<char>, source: Seq<char>) -> Seq<DepValue> {
    entries.map_values(|e: (String, TomlValue)| (e.0@, cargo_version(e.1), kind, source))
}

fn push_table_deps(out: &mut Vec<DependencyInfo>, entries: &Vec<(String, TomlValue)>, kind: &str, source: &str)
    ensures
        dep_values(final(out)@) == dep_values(old(out)@) + table_deps(entries@, kind@, source@),
{
    let ghost start = dep_values(out@);
    let mut i: usize = 0;
    while i < entries.len()
        invariant
            i <= entries@.len(),
            dep_values(out@) == start + table_deps(entries@.take(i as int), kind@, source@),
        decreases entries@.len() - i,
    {
        let version = cargo_dep_version(&entries[i].1);
        push_dep(out, entries[i].0.clone(), version, kind, source);
        assert(table_deps(entries@.take(i + 1), kind@, source@) =~= table_deps(entries@.take(i as int), kind@, source@).push(
            (entries@[i as int].0@, cargo_version(entries@[i as int].1), kind@, source@),
        ));
        i = i + 1;
    }
    assert(entries@.take(entries@.len() as int) =~= entries@);
}

/// The dependencies a document lists in one section.
pub open spec fn section_deps(doc: TomlValue, section: Seq<char>, source: Seq<char>) -> Seq<DepValue> {
    match toml_get(doc, section) {
        Some(TomlValue::Table(entries)) => table_deps(entries@, section, source),
        _ => Seq::empty(),
    }
}

fn push_section(out: &mut Vec<DependencyInfo>, doc: &TomlValue, section: &str, source: &str)
    ensures
        dep_values(final(out)@) == dep_values(old(out)@) + section_deps(*doc, section@, source@),
{
    match toml_lookup(doc, section) {
        Some(TomlValue::Table(entries)) => push_table_deps(out, entries, section, source),
        _ => {
            assert(dep_values(out@) =~= dep_values(out@) + section_deps(*doc, section@, source@));
        },
    }
}

/// The dependencies of a Cargo manifest: `[dependencies]`, `[dev-dependencies]`
/// and `[build-dependencies]`, in that order (none when it does not parse).
pub open spec fn cargo_manifest_deps(text: Seq<char>) -> Seq<DepValue> {
    match parsed_toml(text) {
        Some(doc) => section_deps(doc, "dependencies"@, "Cargo.toml"@) + section_deps(doc, "dev-dependencies"@, "Cargo.toml"@)
            + section_deps(doc, "build-dependencies"@, "Cargo.toml"@),
        None => Seq::empty(),
    }
}

/// Every entry of a manifest's `[dependencies]`, `[dev-dependencies]` or
/// `[build-dependencies]` table is among the manifest's dependencies, with the
/// section as its kind, its declared version and `Cargo.toml` as its source.
pub proof fn law_cargo_sections_are_read(
    text: Seq<char>,
    doc: TomlValue,
    section: Seq<char>,
    entries: Vec<(String, TomlValue)>,
    i: int,
)
    requires
        parsed_toml(text) == Some(doc),
        section == "dependencies"@ || section == "dev-dependencies"@ || section == "build-dependencies"@,
        toml_get(doc, section) == Some(TomlValue::Table(entries)),
        0 <= i < entries@.len(),
    ensures
        cargo_manifest_deps(text).contains(
            (entries@[i].0@, cargo_version(entries@[i].1), section, "Cargo.toml"@),
        ),
        entries@[i].1 matches TomlValue::Str(v) ==> cargo_manifest_deps(text).contains(
            (entries@[i].0@, Some(v@), section, "Cargo.toml"@),
        ),
        entries@[i].1 is Table ==> (toml_get(entries@[i].1, "version"@) matches Some(TomlValue::Str(v))
            ==> cargo_manifest_deps(text).contains((entries@[i].0@, Some(v@), section, "Cargo.toml"@))),
        !(entries@[i].1 is Str) && !(entries@[i].1 matches TomlValue::Table(_) && toml_get(entries@[i].1, "version"@) matches Some(
            TomlValue::Str(_),
        )) ==> cargo_manifest_deps(text).contains((entries@[i].0@, None, section, "Cargo.toml"@)),
{
    let e = (entries@[i].0@, cargo_version(entries@[i].1), section, "Cargo.toml"@);
    let a = section_deps(doc, "dependencies"@, "Cargo.toml"@);
    let b = section_deps(doc, "dev-dependencies"@, "Cargo.toml"@);
    let c = section_deps(doc, "build-dependencies"@, "Cargo.toml"@);
    let all = a + b + c;
    assert(all == cargo_manifest_deps(text));
    if section == "dependencies"@ {
        assert(a[i] == e);
        assert(all[i] == e);
    } else if section == "dev-dependencies"@ {
        assert(b[i] == e);
        assert(all[a.len() + i] == e);
    } else {
        assert(c[i] == e);
        assert(all[a.len() + b.len() + i] == e);
    }
}

/// Everything read from a Cargo manifest comes from one of its three dependency
/// sections and names `Cargo.toml` as its source.
pub proof fn law_cargo_deps_come_from_sections(text: Seq<char>, i: int)
    requires
        0 <= i < cargo_manifest_deps(text).len(),
    ensures
        cargo_manifest_deps(text)[i].3 == "Cargo.toml"@,
        cargo_manifest_deps(text)[i].2 == "dependencies"@ || cargo_manifest_deps(text)[i].2 == "dev-dependencies"@
            || cargo_manifest_deps(text)[i].2 == "build-dependencies"@,
{
    let doc = parsed_toml(text)->0;
    let a = section_deps(doc, "dependencies"@, "Cargo.toml"@);
    let b = section_deps(doc, "dev-dependencies"@, "Cargo.toml"@);
    let c = section_deps(doc, "build-dependencies"@, "Cargo.toml"@);
    if i < a.len() {
        assert(cargo_manifest_deps(text)[i] == a[i]);
    } else if i < a.len() + b.len() {
        assert(cargo_manifest_deps(text)[i] == b[i - a.len()]);
    } else {
        assert(cargo_manifest_deps(text)[i] == c[i - a.len() - b.len()]);
    }
}

/// Dependencies declared in a Cargo manifest's own sections.
pub fn parse_cargo_toml(text: &str) -> (r: Vec<DependencyInfo>)
    ensures
        dep_values(r@) == cargo_manifest_deps(text@),
{
    let mut out: Vec<DependencyInfo> = Vec::new();
    match parse_toml(text) {
        Some(doc) => {
            push_section(&mut out, &doc, "dependencies", "Cargo.toml");
            push_section(&mut out, &doc, "dev-dependencies", "Cargo.toml");
            push_section(&mut out, &doc, "build-dependencies", "Cargo.toml");
        },
        None => {},
    }
    assert(dep_values(out@) =~= cargo_manifest_deps(text@));
    out
}

/// The `[workspace.dependencies]` of a Cargo manifest.
pub open spec fn workspace_deps(text: Seq<char>) -> Seq<DepValue> {
    match parsed_toml(text) {
        Some(doc) => match toml_get(doc, "workspace"@) {
            Some(ws) => match ws {
                TomlValue::Table(_) => match toml_get(ws, "dependencies"@) {
                    Some(TomlValue::Table(entries)) => table_deps(entries@, "workspace.dependencies"@, "Cargo.toml"@),
                    _ => Seq::empty(),
                },
                _ => Seq::empty(),
            },
            None => Seq::empty(),
        },
        None => Seq::empty(),
    }
}

/// Dependencies shared by a Cargo workspace.
pub fn parse_workspace_cargo_toml(text: &str) -> (r: Vec<DependencyInfo>)
    ensures
        dep_values(r@) == workspace_deps(text@),
{
    let mut out: Vec<DependencyInfo> = Vec::new();
    if let Some(doc) = parse_toml(text) {
        if let Some(ws) = toml_lookup(&doc, "workspace") {
            if let TomlValue::Table(_) = ws {
                if let Some(TomlValue::Table(entries)) = toml_lookup(ws, "dependencies") {
                    push_table_deps(&mut out, entries, "workspace.dependencies", "Cargo.toml");
                }
            }
        }
    }
    assert(dep_values(out@) =~= workspace_deps(text@));
    out
}

/// The string items of an array, in order.
pub open spec fn string_items(items: Seq<TomlValue>) -> Seq<Seq<char>>
    decreases items.len(),
{
    if items.len() == 0 {
        Seq::empty()
    } else {
        match items.last() {
            TomlValue::Str(s) => string_items(items.drop_last()).push(s@),
            _ => string_items(items.drop_last()),
        }
    }
}

fn strings_of(items: &Vec<TomlValue>) -> (r: Vec<String>)
    ensures
        text::texts(r@) == string_items(items@),
{
    let mut out: Vec<String> = Vec::new();
    let mut i: usize = 0;
    while i < items.len()
        invariant
            i <= items@.len(),
            text::texts(out@) == string_items(items@.take(i as int)),
        decreases items@.len() - i,
    {
        let ghost prev = text::texts(out@);
        assert(items@.take(i + 1).drop_last() =~= items@.take(i as int));
        assert(items@.take(i + 1).last() == items@[i as int]);
        if let TomlValue::Str(s) = &items[i] {
            out.push(s.clone());
            assert(text::texts(out@) =~= prev.push(s@));
        }
        i = i + 1;
    }
    assert(items@.take(items@.len() as int) =~= items@);
    out
}

/// The member paths of a Cargo workspace (`workspace.members`, string items only).
pub open spec fn member_paths(text: Seq<char>) -> Seq<Seq<char>> {
    match parsed_toml(text) {
        Some(doc) => match toml_get(doc, "workspace"@) {
            Some(ws) => match toml_get(ws, "members"@) {
                Some(TomlValue::Array(items)) => string_items(items@),
                _ => Seq::empty(),
            },
            None => Seq::empty(),
        },
        None => Seq::empty(),
    }
}

/// The member paths a workspace manifest lists.
pub fn workspace_members(text: &str) -> (r: Vec<String>)
    ensures
        text::texts(r@) == member_paths(text@),
{
    if let Some(doc) = parse_toml(text) {
        if let Some(ws) = toml_lookup(&doc, "workspace") {
            if let Some(TomlValue::Array(items)) = toml_lookup(ws, "members") {
                return strings_of(items);
            }
        }
    }
    Vec::new()
}

// ─── npm and Python ──────────────────────────────────────────────────────────

/// The dependencies of one section of `package.json`.
pub open spec fn json_section_deps(doc: JsonValue, section: Seq<char>) -> Seq<DepValue> {
    match json_get(doc, section) {
        Some(JsonValue::Object(entries)) => entries@.map_values(|e: (String, JsonValue)| (e.0@, match e.1 {
            JsonValue::Str(v) => Some(v@),
            _ => None,
        }, section, "package.json"@)),
        _ => Seq::empty(),
    }
}

fn push_json_section(out: &mut Vec<DependencyInfo>, doc: &JsonValue, section: &str)
    ensures
        dep_values(final(out)@) == dep_values(old(out)@) + json_section_deps(*doc, section@),
{
    let ghost start = dep_values(out@);
    match json_lookup(doc, section) {
        Some(JsonValue::Object(entries)) => {
            let ghost all = json_section_deps(*doc, section@);
            let mut i: usize = 0;
            while i < entries.len()
                invariant
                    i <= entries@.len(),
                    all == entries@.map_values(|e: (String, JsonValue)| (e.0@, match e.1 {
                        JsonValue::Str(v) => Some(v@),
                        _ => None,
                    }, section@, "package.json"@)),
                    dep_values(out@) == start + all.take(i as int),
                decreases entries@.len() - i,
            {
                let version = match &entries[i].1 {
                    JsonValue::Str(v) => Some(v.clone()),
                    _ => None,
                };
                push_dep(out, entries[i].0.clone(), version, section, "package.json");
                assert(all.take(i + 1) =~= all.take(i as int).push(all[i as int]));
                i = i + 1;
            }
            assert(all.take(all.len() as int) =~= all);
        },
        _ => {
            assert(dep_values(out@) =~= start + json_section_deps(*doc, section@));
        },
    }
}

/// The dependencies of `package.json`: `dependencies`, `devDependencies`,
/// `peerDependencies` (none when it does not parse).
pub open spec fn package_json_deps(text: Seq<char>) -> Seq<DepValue> {
    match parsed_json(text) {
        Some(doc) => json_section_deps(doc, "dependencies"@) + json_section_deps(doc, "devDependencies"@)
            + json_section_deps(doc, "peerDependencies"@),
        None => Seq::empty(),
    }
}

/// Dependencies declared in `package.json`.
pub fn parse_package_json(text: &str) -> (r: Vec<DependencyInfo>)
    ensures
        dep_values(r@) == package_json_deps(text@),
{
    let mut out: Vec<DependencyInfo> = Vec::new();
    if let Some(doc) = parse_json(text) {
        push_json_section(&mut out, &doc, "dependencies");
        push_json_section(&mut out, &doc, "devDependencies");
        push_json_section(&mut out, &doc, "peerDependencies");
    }
    assert(dep_values(out@) =~= package_json_deps(text@));
    out
}

/// Every entry of `package.json`'s `dependencies`, `devDependencies` or
/// `peerDependencies` object is among its dependencies, with the section as its
/// kind, its string value (if it is one) as version and `package.json` as source.
pub proof fn law_package_json_sections_are_read(
    text: Seq<char>,
    doc: JsonValue,
    section: Seq<char>,
    entries: Vec<(String, JsonValue)>,
    i: int,
)
    requires
        parsed_json(text) == Some(doc),
        section == "dependencies"@ || section == "devDependencies"@ || section == "peerDependencies"@,
        json_get(doc, section) == Some(JsonValue::Object(entries)),
        0 <= i < entries@.len(),
    ensures
        entries@[i].1 matches JsonValue::Str(v) ==> package_json_deps(text).contains(
            (entries@[i].0@, Some(v@), section, "package.json"@),
        ),
        !(entries@[i].1 is Str) ==> package_json_deps(text).contains(
            (entries@[i].0@, None, section, "package.json"@),
        ),
{
    let a = json_section_deps(doc, "dependencies"@);
    let b = json_section_deps(doc, "devDependencies"@);
    let c = json_section_deps(doc, "peerDependencies"@);
    let all = a + b + c;
    assert(all == package_json_deps(text));
    let e = json_section_deps(doc, section)[i];
    if section == "dependencies"@ {
        assert(all[i] == e);
    } else if section == "devDependencies"@ {
        assert(all[a.len() + i] == e);
    } else {
        assert(all[a.len() + b.len() + i] == e);
    }
}

/// A package name read from a requirement spec: its leading name characters, or the whole spec.
pub open spec fn requirement_name(s: Seq<char>) -> Seq<char> {
    if name_run(s).len() > 0 {
        name_run(s)
    } else {
        s
    }
}

fn name_of_requirement(s: &str) -> (r: String)
    ensures
        r@ == requirement_name(s@),
{
    match leading_name(s) {
        Some(n) => n,
        None => s.to_owned(),
    }
}

/// The dependencies in `project.dependencies` of `pyproject.toml`.
pub open spec fn pyproject_deps(text: Seq<char>) -> Seq<DepValue> {
    match parsed_toml(text) {
        Some(doc) => match toml_get(doc, "project"@) {
            Some(p) => match toml_get(p, "dependencies"@) {
                Some(TomlValue::Array(items)) => string_items(items@).map_values(|s: Seq<char>| (
                    requirement_name(s),
                    Some(s),
                    "dependencies"@,
                    "pyproject.toml"@,
                )),
                _ => Seq::empty(),
            },
            None => Seq::empty(),
        },
        None => Seq::empty(),
    }
}

fn push_requirements(out: &mut Vec<DependencyInfo>, specs: &Vec<String>, kind: &str, source: &str)
    ensures
        dep_values(final(out)@) == dep_values(old(out)@) + text::texts(specs@).map_values(|s: Seq<char>| (
            requirement_name(s),
            Some(s),
            kind@,
            source@,
        )),
{
    let ghost start = dep_values(out@);
    let ghost all = text::texts(specs@).map_values(|s: Seq<char>| (requirement_name(s), Some(s), kind@, source@));
    let mut i: usize = 0;
    while i < specs.len()
        invariant
            i <= specs@.len(),
            all == text::texts(specs@).map_values(|s: Seq<char>| (requirement_name(s), Some(s), kind@, source@)),
            dep_values(out@) == start + all.take(i as int),
        decreases specs@.len() - i,
    {
        let name = name_of_requirement(specs[i].as_str());
        push_dep(out, name, Some(specs[i].clone()), kind, source);
        assert(all.take(i + 1) =~= all.take(i as int).push(all[i as int]));
        i = i + 1;
    }
    assert(all.take(all.len() as int) =~= all);
}

/// Dependencies declared in `pyproject.toml`.
pub fn parse_pyproject(text: &str) -> (r: Vec<DependencyInfo>)
    ensures
        dep_values(r@) == pyproject_deps(text@),
{
    let mut out: Vec<DependencyInfo> = Vec::new();
    if let Some(doc) = parse_toml(text) {
        if let Some(p) = toml_lookup(&doc, "project") {
            if let Some(TomlValue::Array(items)) = toml_lookup(p, "dependencies") {
                let specs = strings_of(items);
                push_requirements(&mut out, &specs, "dependencies", "pyproject.toml");
            }
        }
    }
    assert(dep_values(out@) =~= pyproject_deps(text@));
    out
}

/// The meaningful lines of a requirements file: trimmed, without blanks and `#` comments.
pub open spec fn requirement_lines(lines: Seq<Seq<char>>) -> Seq<Seq<char>>
    decreases lines.len(),
{
    if lines.len() == 0 {
        Seq::empty()
    } else {
        let t = text::trimmed_text(lines.last());
        if t.len() == 0 || text::seq_starts_with(t, "#"@) {
            requirement_lines(lines.drop_last())
        } else {
            requirement_lines(lines.drop_last()).push(t)
        }
    }
}

/// The dependencies of `requirements.txt`.
pub open spec fn requirements_deps(text: Seq<char>) -> Seq<DepValue> {
    requirement_lines(text_lines(text)).map_values(|s: Seq<char>| (requirement_name(s), Some(s), "requirements"@, "requirements.txt"@))
}

/// Dependencies listed in `requirements.txt`.
pub fn parse_requirements(text: &str) -> (r: Vec<DependencyInfo>)
    ensures
        dep_values(r@) == requirements_deps(text@),
{
    let lines = lines_of(text);
    let ghost ls = text::texts(lines@);
    let mut kept: Vec<String> = Vec::new();
    let mut i: usize = 0;
    while i < lines.len()
        invariant
            i <= lines@.len(),
            ls == text::texts(lines@),
            text::texts(kept@) == requirement_lines(ls.take(i as int)),
        decreases lines@.len() - i,
    {
        let ghost prev = text::texts(kept@);
        assert(ls.take(i + 1).drop_last() =~= ls.take(i as int));
        assert(ls.take(i + 1).last() == lines@[i as int]@);
        let t = text::trim_text(lines[i].as_str());
        if !(t.is_empty() || text::str_starts_with(t, "#")) {
            kept.push(t.to_owned());
            assert(text::texts(kept@) =~= prev.push(t@));
        }
        i = i + 1;
    }
    assert(ls.take(ls.len() as int) =~= ls);
    let mut out: Vec<DependencyInfo> = Vec::new();
    push_requirements(&mut out, &kept, "requirements", "requirements.txt");
    assert(dep_values(out@) =~= requirements_deps(text@));
    out
}


// ─── All dependencies ────────────────────────────────────────────────────────

/// The manifests a project's dependencies are read from (absent ones are `None`).
#[derive(Clone, Debug)]
pub struct DependencySources {
    /// `Cargo.toml` at the project root.
    pub cargo_toml: Option<String>,
    /// The `Cargo.toml` of each workspace member, in the order `workspace_members` lists them.
    pub member_cargo_tomls: Vec<Option<String>>,
    pub package_json: Option<String>,
    pub pyproject_toml: Option<String>,
    pub requirements_txt: Option<String>,
}

/// What a parser gives for an optional manifest.
pub open spec fn when_present(text: Option<String>, parsed: spec_fn(Seq<char>) -> Seq<DepValue>) -> Seq<DepValue> {
    match text {
        Some(t) => parsed(t@),
        None => Seq::empty(),
    }
}

/// The dependencies of the members' manifests, in order.
pub open spec fn members_deps(ms: Seq<Option<String>>) -> Seq<DepValue>
    decreases ms.len(),
{
    if ms.len() == 0 {
        Seq::empty()
    } else {
        members_deps(ms.drop_last()) + when_present(ms.last(), |t: Seq<char>| cargo_manifest_deps(t))
    }
}

/// Every dependency the manifests declare, before removing repeated names.
pub open spec fn declared_deps(src: DependencySources) -> Seq<DepValue> {
    when_present(src.cargo_toml, |t: Seq<char>| cargo_manifest_deps(t))
        + when_present(src.cargo_toml, |t: Seq<char>| workspace_deps(t))
        + members_deps(src.member_cargo_tomls@)
        + when_present(src.package_json, |t: Seq<char>| package_json_deps(t))
        + when_present(src.pyproject_toml, |t: Seq<char>| pyproject_deps(t))
        + when_present(src.requirements_txt, |t: Seq<char>| requirements_deps(t))
}

/// The names of dependencies.
pub open spec fn dep_names(ds: Seq<DepValue>) -> Seq<Seq<char>> {
    ds.map_values(|d: DepValue| d.0)
}

/// The first dependency of each name, in order of first appearance.
pub open spec fn first_of_each_name(ds: Seq<DepValue>) -> Seq<DepValue>
    decreases ds.len(),
{
    if ds.len() == 0 {
        Seq::empty()
    } else {
        let kept = first_of_each_name(ds.drop_last());
        if dep_names(kept).contains(ds.last().0) {
            kept
        } else {
            kept.push(ds.last())
        }
    }
}

/// Removing repeated names leaves every name once, keeps every name that occurs, and
/// keeps only dependencies that were there.
pub proof fn law_dedupe_names(ds: Seq<DepValue>)
    ensures
        dep_names(first_of_each_name(ds)).no_duplicates(),
        forall|i: int| 0 <= i < ds.len() ==> dep_names(first_of_each_name(ds)).contains(#[trigger] ds[i].0),
        forall|k: int|
            0 <= k < first_of_each_name(ds).len() ==> ds.contains(#[trigger] first_of_each_name(ds)[k]),
    decreases ds.len(),
{
    if ds.len() == 0 {
        return;
    }
    let p = ds.drop_last();
    let d = ds.last();
    let n = ds.len() - 1;
    law_dedupe_names(p);
    let kept = first_of_each_name(p);
    let r = first_of_each_name(ds);
    assert forall|i: int| 0 <= i < p.len() implies #[trigger] p[i] == ds[i] by {}
    assert forall|k: int| 0 <= k < kept.len() implies ds.contains(#[trigger] kept[k]) by {
        assert(p.contains(kept[k]));
        let i = choose|i: int| 0 <= i < p.len() && p[i] == kept[k];
        assert(ds[i] == kept[k]);
    }
    if dep_names(kept).contains(d.0) {
        assert(r == kept);
        assert forall|i: int| 0 <= i < ds.len() implies dep_names(r).contains(#[trigger] ds[i].0) by {
            if i < n {
                assert(p[i] == ds[i]);
            }
        }
    } else {
        assert(r == kept.push(d));
        assert(dep_names(r) =~= dep_names(kept).push(d.0));
        assert(dep_names(r)[kept.len() as int] == d.0);
        assert forall|a: int, b: int| 0 <= a < b < dep_names(r).len() implies dep_names(r)[a] != dep_names(r)[b] by {
            if b == kept.len() {
                assert(dep_names(kept)[a] == dep_names(r)[a]);
            } else {
                assert(dep_names(kept)[a] == dep_names(r)[a]);
                assert(dep_names(kept)[b] == dep_names(r)[b]);
            }
        }
        assert forall|i: int| 0 <= i < ds.len() implies dep_names(r).contains(#[trigger] ds[i].0) by {
            if i < n {
                assert(p[i] == ds[i]);
                assert(dep_names(kept).contains(p[i].0));
                let j = choose|j: int| 0 <= j < dep_names(kept).len() && dep_names(kept)[j] == p[i].0;
                assert(dep_names(r)[j] == dep_names(kept)[j]);
            } else {
                assert(dep_names(r)[kept.len() as int] == ds[i].0);
            }
        }
        assert forall|k: int| 0 <= k < r.len() implies ds.contains(#[trigger] r[k]) by {
            if k < kept.len() {
                assert(r[k] == kept[k]);
            } else {
                assert(ds[n] == r[k]);
            }
        }
    }
}

proof fn lemma_distinct_names_kept(ds: Seq<DepValue>)
    requires
        dep_names(ds).no_duplicates(),
    ensures
        first_of_each_name(ds) == ds,
    decreases ds.len(),
{
    if ds.len() == 0 {
        assert(first_of_each_name(ds) =~= ds);
        return;
    }
    let p = ds.drop_last();
    let d = ds.last();
    let n = ds.len() - 1;
    assert(dep_names(p) =~= dep_names(ds).drop_last());
    lemma_distinct_names_kept(p);
    if dep_names(p).contains(d.0) {
        let j = choose|j: int| 0 <= j < dep_names(p).len() && dep_names(p)[j] == d.0;
        assert(dep_names(ds)[j] == dep_names(ds)[n]);
    }
    assert(p.push(d) =~= ds);
}

/// Removing repeated names a second time changes nothing.
pub proof fn law_dedupe_idempotent(ds: Seq<DepValue>)
    ensures
        first_of_each_name(first_of_each_name(ds)) == first_of_each_name(ds),
{
    law_dedupe_names(ds);
    lemma_distinct_names_kept(first_of_each_name(ds));
}

fn dup_dep(d: &DependencyInfo) -> (r: DependencyInfo)
    ensures
        dep_value(r) == dep_value(*d),
{
    DependencyInfo { name: d.name.clone(), version: dup_opt_string(&d.version), kind: d.kind.clone(), source_file: d.source_file.clone() }
}

fn has_name(ds: &Vec<DependencyInfo>, name: &str) -> (b: bool)
    ensures
        b == dep_names(dep_values(ds@)).contains(name@),
{
    let ghost ns = dep_names(dep_values(ds@));
    let mut i: usize = 0;
    while i < ds.len()
        invariant
            i <= ds@.len(),
            ns == dep_names(dep_values(ds@)),
            forall|k: int| 0 <= k < i ==> ns[k] != name@,
        decreases ds@.len() - i,
    {
        if str_eq(ds[i].name.as_str(), name) {
            assert(ns[i as int] == name@);
            return true;
        }
        i = i + 1;
    }
    false
}

/// Keeps the first dependency of each name, in order of first appearance.
pub fn dedupe_dependencies(deps: Vec<DependencyInfo>) -> (r: Vec<DependencyInfo>)
    ensures
        dep_values(r@) == first_of_each_name(dep_values(deps@)),
{
    let ghost vs = dep_values(deps@);
    let mut out: Vec<DependencyInfo> = Vec::new();
    let mut i: usize = 0;
    while i < deps.len()
        invariant
            i <= deps@.len(),
            vs == dep_values(deps@),
            dep_values(out@) == first_of_each_name(vs.take(i as int)),
        decreases deps@.len() - i,
    {
        let ghost prev = dep_values(out@);
        assert(vs.take(i + 1).drop_last() =~= vs.take(i as int));
        assert(vs.take(i + 1).last() == dep_value(deps@[i as int]));
        if !has_name(&out, deps[i].name.as_str()) {
            out.push(dup_dep(&deps[i]));
            assert(dep_values(out@) =~= prev.push(dep_value(deps@[i as int])));
        }
        i = i + 1;
    }
    assert(vs.take(vs.len() as int) =~= vs);
    out
}

fn append_deps(out: &mut Vec<DependencyInfo>, more: Vec<DependencyInfo>)
    ensures
        dep_values(final(out)@) == dep_values(old(out)@) + dep_values(more@),
{
    let ghost a = dep_values(out@);
    let ghost b = dep_values(more@);
    let mut more = more;
    out.append(&mut more);
    assert(dep_values(out@) =~= a + b);
}

/// The dependencies all manifests declare, the first of each name kept.
pub fn detect_dependencies(src: &DependencySources) -> (r: Vec<DependencyInfo>)
    ensures
        dep_values(r@) == first_of_each_name(declared_deps(*src)),
{
    let mut all: Vec<DependencyInfo> = Vec::new();
    if let Some(t) = &src.cargo_toml {
        append_deps(&mut all, parse_cargo_toml(t.as_str()));
    }
    if let Some(t) = &src.cargo_toml {
        append_deps(&mut all, parse_workspace_cargo_toml(t.as_str()));
    }
    let ghost a2 = dep_values(all@);
    let ms = &src.member_cargo_tomls;
    let mut i: usize = 0;
    while i < ms.len()
        invariant
            i <= ms@.len(),
            dep_values(all@) == a2 + members_deps(ms@.take(i as int)),
        decreases ms@.len() - i,
    {
        assert(ms@.take(i + 1).drop_last() =~= ms@.take(i as int));
        if let Some(t) = &ms[i] {
            append_deps(&mut all, parse_cargo_toml(t.as_str()));
        }
        assert(dep_values(all@) =~= a2 + members_deps(ms@.take(i + 1)));
        i = i + 1;
    }
    assert(ms@.take(ms@.len() as int) =~= ms@);
    if let Some(t) = &src.package_json {
        append_deps(&mut all, parse_package_json(t.as_str()));
    }
    if let Some(t) = &src.pyproject_toml {
        append_deps(&mut all, parse_pyproject(t.as_str()));
    }
    if let Some(t) = &src.requirements_txt {
        append_deps(&mut all, parse_requirements(t.as_str()));
    }
    assert(dep_values(all@) =~= declared_deps(*src));
    dedupe_dependencies(all)
}

// ─── Frameworks ──────────────────────────────────────────────────────────────

/// Frameworks and the (lower-case) package names that reveal them, in report order.
pub open spec fn framework_signals() -> Seq<(Seq<char>, Seq<Seq<char>>)> {
    seq![
        ("React"@, seq!["react"@, "react-dom"@]),
        ("Next.js"@, seq!["next"@]),
        ("Vue"@, seq!["vue"@]),
        ("Angular"@, seq!["@angular/core"@]),
        ("Svelte"@, seq!["svelte"@]),
        ("Express"@, seq!["express"@]),
        ("FastAPI"@, seq!["fastapi"@]),
        ("Django"@, seq!["django"@]),
        ("Flask"@, seq!["flask"@]),
        ("Actix"@, seq!["actix-web"@]),
        ("Axum"@, seq!["axum"@]),
        ("Rocket"@, seq!["rocket"@]),
        ("Tokio"@, seq!["tokio"@]),
        ("Tauri"@, seq!["tauri"@]),
        ("Electron"@, seq!["electron"@]),
    ]
}

/// Some dependency's lower-cased name is one of `keys`.
pub open spec fn revealed_by(deps: Seq<DepValue>, keys: Seq<Seq<char>>) -> bool {
    exists|i: int| 0 <= i < deps.len() && keys.contains(#[trigger] text::lowercase_text(deps[i].0))
}

/// The frameworks in use, in report order: those a dependency reveals, plus
/// Next.js when a `next.config` file exists and Tauri when `tauri.conf.json` does.
pub open spec fn frameworks_for(
    signals: Seq<(Seq<char>, Seq<Seq<char>>)>,
    deps: Seq<DepValue>,
    next_config: bool,
    tauri_conf: bool,
) -> Seq<Seq<char>>
    decreases signals.len(),
{
    if signals.len() == 0 {
        Seq::empty()
    } else {
        let rest = frameworks_for(signals.drop_last(), deps, next_config, tauri_conf);
        let (fw, keys) = signals.last();
        if revealed_by(deps, keys) || (fw == "Next.js"@ && next_config) || (fw == "Tauri"@ && tauri_conf) {
            rest.push(fw)
        } else {
            rest
        }
    }
}

/// A framework of the table is reported exactly when some dependency's lower-cased
/// name is one of its keys, or, for Next.js, a `next.config` file exists, or, for
/// Tauri, `tauri.conf.json` exists.
pub proof fn law_framework_reported_iff_signalled(deps: Seq<DepValue>, next_config: bool, tauri_conf: bool, r: int)
    requires
        0 <= r < framework_signals().len(),
    ensures
        frameworks_for(framework_signals(), deps, next_config, tauri_conf).contains(framework_signals()[r].0) <==> (
        (exists|i: int| 0 <= i < deps.len() && framework_signals()[r].1.contains(#[trigger] text::lowercase_text(deps[i].0)))
            || (framework_signals()[r].0 == "Next.js"@ && next_config) || (framework_signals()[r].0 == "Tauri"@
            && tauri_conf)),
{
    lemma_signal_names_distinct();
    lemma_frameworks_for_member(framework_signals(), deps, next_config, tauri_conf, r);
}

/// Each framework is revealed by the dependencies named for it (React by `react` or
/// `react-dom`, Next.js by `next`, Vue by `vue`, Angular by `@angular/core`, and so
/// on, compared in lower case): one such dependency anywhere in the list has it reported.
pub proof fn law_framework_keys(
    deps: Seq<DepValue>,
    next_config: bool,
    tauri_conf: bool,
    fw: Seq<char>,
    key: Seq<char>,
    i: int,
)
    requires
        (fw == "React"@ && key == "react"@) ||
            (fw == "React"@ && key == "react-dom"@) ||
            (fw == "Next.js"@ && key == "next"@) ||
            (fw == "Vue"@ && key == "vue"@) ||
            (fw == "Angular"@ && key == "@angular/core"@) ||
            (fw == "Svelte"@ && key == "svelte"@) ||
            (fw == "Express"@ && key == "express"@) ||
            (fw == "FastAPI"@ && key == "fastapi"@) ||
            (fw == "Django"@ && key == "django"@) ||
            (fw == "Flask"@ && key == "flask"@) ||
            (fw == "Actix"@ && key == "actix-web"@) ||
            (fw == "Axum"@ && key == "axum"@) ||
            (fw == "Rocket"@ && key == "rocket"@) ||
            (fw == "Tokio"@ && key == "tokio"@) ||
            (fw == "Tauri"@ && key == "tauri"@) ||
            (fw == "Electron"@ && key == "electron"@),
        0 <= i < deps.len(),
        text::lowercase_text(deps[i].0) == key,
    ensures
        frameworks_for(framework_signals(), deps, next_config, tauri_conf).contains(fw),
{
    if fw == "React"@ && key == "react"@ {
        assert(framework_signals()[0].0 == fw && framework_signals()[0].1[0] == key);
        law_framework_reported_iff_signalled(deps, next_config, tauri_conf, 0);
        assert(framework_signals()[0].1.contains(text::lowercase_text(deps[i].0)));
    } else if fw == "React"@ && key == "react-dom"@ {
        assert(framework_signals()[0].0 == fw && framework_signals()[0].1[1] == key);
        law_framework_reported_iff_signalled(deps, next_config, tauri_conf, 0);
        assert(framework_signals()[0].1.contains(text::lowercase_text(deps[i].0)));
    } else if fw == "Next.js"@ && key == "next"@ {
        assert(framework_signals()[1].0 == fw && framework_signals()[1].1[0] == key);
        law_framework_reported_iff_signalled(deps, next_config, tauri_conf, 1);
        assert(framework_signals()[1].1.contains(text::lowercase_text(deps[i].0)));
    } else if fw == "Vue"@ && key == "vue"@ {
        assert(framework_signals()[2].0 == fw && framework_signals()[2].1[0] == key);
        law_framework_reported_iff_signalled(deps, next_config, tauri_conf, 2);
        assert(framework_signals()[2].1.contains(text::lowercase_text(deps[i].0)));
    } else if fw == "Angular"@ && key == "@angular/core"@ {
        assert(framework_signals()[3].0 == fw && framework_signals()[3].1[0] == key);
        law_framework_reported_iff_signalled(deps, next_config, tauri_conf, 3);
        assert(framework_signals()[3].1.contains(text::lowercase_text(deps[i].0)));
    } else if fw == "Svelte"@ && key == "svelte"@ {
        assert(framework_signals()[4].0 == fw && framework_signals()[4].1[0] == key);
        law_framework_reported_iff_signalled(deps, next_config, tauri_conf, 4);
        assert(framework_signals()[4].1.contains(text::lowercase_text(deps[i].0)));
    } else if fw == "Express"@ && key == "express"@ {
        assert(framework_signals()[5].0 == fw && framework_signals()[5].1[0] == key);
        law_framework_reported_iff_signalled(deps, next_config, tauri_conf, 5);
        assert(framework_signals()[5].1.contains(text::lowercase_text(deps[i].0)));
    } else if fw == "FastAPI"@ && key == "fastapi"@ {
        assert(framework_signals()[6].0 == fw && framework_signals()[6].1[0] == key);
        law_framework_reported_iff_signalled(deps, next_config, tauri_conf, 6);
        assert(framework_signals()[6].1.contains(text::lowercase_text(deps[i].0)));
    } else if fw == "Django"@ && key == "django"@ {
        assert(framework_signals()[7].0 == fw && framework_signals()[7].1[0] == key);
        law_framework_reported_iff_signalled(deps, next_config, tauri_conf, 7);
        assert(framework_signals()[7].1.contains(text::lowercase_text(deps[i].0)));
    } else if fw == "Flask"@ && key == "flask"@ {
        assert(framework_signals()[8].0 == fw && framework_signals()[8].1[0] == key);
        law_framework_reported_iff_signalled(deps, next_config, tauri_conf, 8);
        assert(framework_signals()[8].1.contains(text::lowercase_text(deps[i].0)));
    } else if fw == "Actix"@ && key == "actix-web"@ {
        assert(framework_signals()[9].0 == fw && framework_signals()[9].1[0] == key);
        law_framework_reported_iff_signalled(deps, next_config, tauri_conf, 9);
        assert(framework_signals()[9].1.contains(text::lowercase_text(deps[i].0)));
    } else if fw == "Axum"@ && key == "axum"@ {
        assert(framework_signals()[10].0 == fw && framework_signals()[10].1[0] == key);
        law_framework_reported_iff_signalled(deps, next_config, tauri_conf, 10);
        assert(framework_signals()[10].1.contains(text::lowercase_text(deps[i].0)));
    } else if fw == "Rocket"@ && key == "rocket"@ {
        assert(framework_signals()[11].0 == fw && framework_signals()[11].1[0] == key);
        law_framework_reported_iff_signalled(deps, next_config, tauri_conf, 11);
        assert(framework_signals()[11].1.contains(text::lowercase_text(deps[i].0)));
    } else if fw == "Tokio"@ && key == "tokio"@ {
        assert(framework_signals()[12].0 == fw && framework_signals()[12].1[0] == key);
        law_framework_reported_iff_signalled(deps, next_config, tauri_conf, 12);
        assert(framework_signals()[12].1.contains(text::lowercase_text(deps[i].0)));
    } else if fw == "Tauri"@ && key == "tauri"@ {
        assert(framework_signals()[13].0 == fw && framework_signals()[13].1[0] == key);
        law_framework_reported_iff_signalled(deps, next_config, tauri_conf, 13);
        assert(framework_signals()[13].1.contains(text::lowercase_text(deps[i].0)));
    } else if fw == "Electron"@ && key == "electron"@ {
        assert(framework_signals()[14].0 == fw && framework_signals()[14].1[0] == key);
        law_framework_reported_iff_signalled(deps, next_config, tauri_conf, 14);
        assert(framework_signals()[14].1.contains(text::lowercase_text(deps[i].0)));
    }
}

/// The framework table names each framework once.
proof fn lemma_signal_names_distinct()
    ensures
        signal_names(framework_signals()).no_duplicates(),
{
    let names = signal_names(framework_signals());
    reveal_strlit("React");
    reveal_strlit("Next.js");
    reveal_strlit("Vue");
    reveal_strlit("Angular");
    reveal_strlit("Svelte");
    reveal_strlit("Express");
    reveal_strlit("FastAPI");
    reveal_strlit("Django");
    reveal_strlit("Flask");
    reveal_strlit("Actix");
    reveal_strlit("Axum");
    reveal_strlit("Rocket");
    reveal_strlit("Tokio");
    reveal_strlit("Tauri");
    reveal_strlit("Electron");
    assert(names =~= seq!["React"@, "Next.js"@, "Vue"@, "Angular"@, "Svelte"@, "Express"@, "FastAPI"@, "Django"@,
        "Flask"@, "Actix"@, "Axum"@, "Rocket"@, "Tokio"@, "Tauri"@, "Electron"@]);
    assert forall|a: int, b: int| 0 <= a < b < names.len() implies names[a] != names[b] by {
        if names[a] == names[b] {
            assert(names[a][0] == names[b][0]);
            assert(names[a].len() == names[b].len());
            if names[a].len() > 1 {
                assert(names[a][1] == names[b][1]);
            }
        }
    }
}

proof fn lemma_frameworks_for_member(
    signals: Seq<(Seq<char>, Seq<Seq<char>>)>,
    deps: Seq<DepValue>,
    next_config: bool,
    tauri_conf: bool,
    r: int,
)
    requires
        0 <= r < signals.len(),
        signal_names(signals).no_duplicates(),
    ensures
        frameworks_for(signals, deps, next_config, tauri_conf).contains(signals[r].0) <==> (revealed_by(deps, signals[r].1)
            || (signals[r].0 == "Next.js"@ && next_config) || (signals[r].0 == "Tauri"@ && tauri_conf)),
    decreases signals.len(),
{
    let p = signals.drop_last();
    let rest = frameworks_for(p, deps, next_config, tauri_conf);
    lemma_frameworks_from_signals(p, deps, next_config, tauri_conf);
    assert(signal_names(p) =~= signal_names(signals).drop_last());
    assert forall|a: int, b: int| 0 <= a < b < signals.len() implies signals[a].0 != signals[b].0 by {
        assert(signal_names(signals)[a] == signals[a].0);
        assert(signal_names(signals)[b] == signals[b].0);
    }
    if r < signals.len() - 1 {
        lemma_frameworks_for_member(p, deps, next_config, tauri_conf, r);
        assert(p[r] == signals[r]);
        if frameworks_for(signals, deps, next_config, tauri_conf).contains(signals[r].0) && !rest.contains(signals[r].0) {
            let w = choose|w: int| 0 <= w < frameworks_for(signals, deps, next_config, tauri_conf).len()
                && frameworks_for(signals, deps, next_config, tauri_conf)[w] == signals[r].0;
            assert(w == rest.len());
            assert(signals.last().0 == signals[signals.len() - 1].0);
        }
        if rest.contains(signals[r].0) {
            let w = choose|w: int| 0 <= w < rest.len() && rest[w] == signals[r].0;
            assert(frameworks_for(signals, deps, next_config, tauri_conf)[w] == signals[r].0);
        }
    } else {
        if rest.contains(signals[r].0) {
            let w = choose|w: int| 0 <= w < rest.len() && rest[w] == signals[r].0;
            assert(signal_names(p).contains(rest[w]));
            let v = choose|v: int| 0 <= v < signal_names(p).len() && signal_names(p)[v] == rest[w];
            assert(signal_names(p)[v] == p[v].0);
            assert(p[v] == signals[v]);
        }
        if revealed_by(deps, signals[r].1) || (signals[r].0 == "Next.js"@ && next_config) || (signals[r].0 == "Tauri"@ && tauri_conf) {
            assert(frameworks_for(signals, deps, next_config, tauri_conf).last() == signals[r].0);
        }
    }
}

/// The framework names of a signal table.
pub open spec fn signal_names(signals: Seq<(Seq<char>, Seq<Seq<char>>)>) -> Seq<Seq<char>> {
    signals.map_values(|s: (Seq<char>, Seq<Seq<char>>)| s.0)
}

proof fn lemma_frameworks_from_signals(
    signals: Seq<(Seq<char>, Seq<Seq<char>>)>,
    deps: Seq<DepValue>,
    next_config: bool,
    tauri_conf: bool,
)
    ensures
        forall|i: int|
            0 <= i < frameworks_for(signals, deps, next_config, tauri_conf).len() ==> signal_names(
                signals,
            ).contains(#[trigger] frameworks_for(signals, deps, next_config, tauri_conf)[i]),
    decreases signals.len(),
{
    if signals.len() > 0 {
        let p = signals.drop_last();
        lemma_frameworks_from_signals(p, deps, next_config, tauri_conf);
        let rest = frameworks_for(p, deps, next_config, tauri_conf);
        let r = frameworks_for(signals, deps, next_config, tauri_conf);
        assert forall|i: int| 0 <= i < r.len() implies signal_names(signals).contains(#[trigger] r[i]) by {
            if i < rest.len() {
                assert(r[i] == rest[i]);
                assert(signal_names(p).contains(rest[i]));
                let j = choose|j: int| 0 <= j < signal_names(p).len() && signal_names(p)[j] == rest[i];
                assert(signal_names(signals)[j] == signal_names(p)[j]);
            } else {
                assert(signal_names(signals)[signals.len() - 1] == r[i]);
            }
        }
    }
}

/// Each framework is reported at most once when the signal table names each once.
pub proof fn law_frameworks_listed_once(
    signals: Seq<(Seq<char>, Seq<Seq<char>>)>,
    deps: Seq<DepValue>,
    next_config: bool,
    tauri_conf: bool,
)
    requires
        signal_names(signals).no_duplicates(),
    ensures
        frameworks_for(signals, deps, next_config, tauri_conf).no_duplicates(),
    decreases signals.len(),
{
    if signals.len() > 0 {
        let p = signals.drop_last();
        assert(signal_names(p) =~= signal_names(signals).drop_last());
        law_frameworks_listed_once(p, deps, next_config, tauri_conf);
        lemma_frameworks_from_signals(p, deps, next_config, tauri_conf);
        let rest = frameworks_for(p, deps, next_config, tauri_conf);
        let r = frameworks_for(signals, deps, next_config, tauri_conf);
        let fw = signals.last().0;
        if r.len() > rest.len() {
            assert(r == rest.push(fw));
            assert(!rest.contains(fw)) by {
                if rest.contains(fw) {
                    let i = choose|i: int| 0 <= i < rest.len() && rest[i] == fw;
                    assert(signal_names(p).contains(rest[i]));
                    let j = choose|j: int| 0 <= j < signal_names(p).len() && signal_names(p)[j] == fw;
                    assert(signal_names(signals)[j] == signal_names(signals)[signals.len() - 1]);
                }
            }
            assert forall|a: int, b: int| 0 <= a < b < r.len() implies r[a] != r[b] by {
                assert(r[a] == rest[a]);
                if b < rest.len() {
                    assert(r[b] == rest[b]);
                } else {
                    assert(rest.contains(rest[a]));
                }
            }
        }
    }
}

fn is_revealed(deps: &Vec<DependencyInfo>, keys: &Vec<&'static str>) -> (b: bool)
    ensures
        b == revealed_by(dep_values(deps@), keys@.map_values(|k: &str| k@)),
{
    let ghost ks = keys@.map_values(|k: &str| k@);
    let ghost dv = dep_values(deps@);
    let mut i: usize = 0;
    while i < deps.len()
        invariant
            i <= deps@.len(),
            ks == keys@.map_values(|k: &str| k@),
            dv == dep_values(deps@),
            forall|a: int| 0 <= a < i ==> !ks.contains(#[trigger] text::lowercase_text(dv[a].0)),
        decreases deps@.len() - i,
    {
        let lower = to_lower(deps[i].name.as_str());
        let mut j: usize = 0;
        while j < keys.len()
            invariant
                j <= keys@.len(),
                ks == keys@.map_values(|k: &str| k@),
                lower@ == text::lowercase_text(dv[i as int].0),
                i < deps@.len(),
                dv == dep_values(deps@),
                forall|b: int| 0 <= b < j ==> ks[b] != lower@,
            decreases keys@.len() - j,
        {
            if str_eq(lower.as_str(), keys[j]) {
                assert(ks[j as int] == lower@);
                assert(ks.contains(text::lowercase_text(dv[i as int].0)));
                return true;
            }
            j = j + 1;
        }
        assert(!ks.contains(text::lowercase_text(dv[i as int].0)));
        i = i + 1;
    }
    false
}

/// The frameworks in use, given whether `next.config.js`, `next.config.mjs` and
/// `tauri.conf.json` exist: either Next.js config file signals Next.js.
pub fn frameworks_from(deps: &Vec<DependencyInfo>, next_js: bool, next_mjs: bool, tauri_conf: bool) -> (r: Vec<String>)
    ensures
        text::texts(r@) == frameworks_for(framework_signals(), dep_values(deps@), next_js || next_mjs, tauri_conf),
{
    let next_config = next_js || next_mjs;
    let signals: Vec<(&'static str, Vec<&'static str>)> = vec![
        ("React", vec!["react", "react-dom"]),
        ("Next.js", vec!["next"]),
        ("Vue", vec!["vue"]),
        ("Angular", vec!["@angular/core"]),
        ("Svelte", vec!["svelte"]),
        ("Express", vec!["express"]),
        ("FastAPI", vec!["fastapi"]),
        ("Django", vec!["django"]),
        ("Flask", vec!["flask"]),
        ("Actix", vec!["actix-web"]),
        ("Axum", vec!["axum"]),
        ("Rocket", vec!["rocket"]),
        ("Tokio", vec!["tokio"]),
        ("Tauri", vec!["tauri"]),
        ("Electron", vec!["electron"]),
    ];
    let ghost sv = signals@.map_values(|p: (&str, Vec<&str>)| (p.0@, p.1@.map_values(|k: &str| k@)));
    assert(sv =~~= framework_signals());
    let mut out: Vec<String> = Vec::new();
    let mut i: usize = 0;
    while i < signals.len()
        invariant
            i <= signals@.len(),
            sv == signals@.map_values(|p: (&str, Vec<&str>)| (p.0@, p.1@.map_values(|k: &str| k@))),
            text::texts(out@) == frameworks_for(sv.take(i as int), dep_values(deps@), next_config, tauri_conf),
        decreases signals@.len() - i,
    {
        let ghost prev = text::texts(out@);
        assert(sv.take(i + 1).drop_last() =~= sv.take(i as int));
        let fw = signals[i].0;
        let hit = is_revealed(deps, &signals[i].1) || (str_eq(fw, "Next.js") && next_config)
            || (str_eq(fw, "Tauri") && tauri_conf);
        if hit {
            out.push(fw.to_owned());
            assert(text::texts(out@) =~= prev.push(fw@));
        }
        i = i + 1;
    }
    assert(sv.take(sv.len() as int) =~= sv);
    out
}

/// Where the framework config files are looked for under `project_root`:
/// `next.config.js`, `next.config.mjs` and `tauri.conf.json`, in that order.
pub fn framework_probe_paths(project_root: &str) -> (r: (String, String, String))
    ensures
        r.0@ == paths::joined_path(project_root@, "next.config.js"@),
        r.1@ == paths::joined_path(project_root@, "next.config.mjs"@),
        r.2@ == paths::joined_path(project_root@, "tauri.conf.json"@),
{
    (
        paths::join_path(project_root, "next.config.js"),
        paths::join_path(project_root, "next.config.mjs"),
        paths::join_path(project_root, "tauri.conf.json"),
    )
}

/// The frameworks in use, looking for the files of `framework_probe_paths` under
/// `project_root`. Which of them exist depends on the disk; what follows from the
/// answers is `frameworks_from`.
pub fn detect_frameworks(project_root: &str, deps: &Vec<DependencyInfo>) -> (r: Vec<String>)
    ensures
        exists|next_config: bool, tauri_conf: bool|
            #[trigger] frameworks_for(framework_signals(), dep_values(deps@), next_config, tauri_conf) == text::texts(r@),
{
    let (js, mjs, tauri) = framework_probe_paths(project_root);
    let next_js = paths::path_exists(js.as_str());
    let next_mjs = paths::path_exists(mjs.as_str());
    let tauri_conf = paths::path_exists(tauri.as_str());
    frameworks_from(deps, next_js, next_mjs, tauri_conf)
}

} // verus!
