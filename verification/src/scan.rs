//! Per-file facts a scan gathers, and how they are summed up.

use crate::language;
use crate::models::{
    self, Architecture, ArchitectureLayer, DependencyInfo, ImportantFile, LanguageStats, Technology,
    Timestamp,
};
use crate::order::{self, stable_desc_order};
use crate::text::{self, append_str, push_decimal, str_eq};
use streaming_iterator::StreamingIterator;
use vstd::prelude::*;

verus! {

// ─── Symbols ─────────────────────────────────────────────────────────────────

/// The tree-sitter grammars symbols are counted with.
#[derive(Clone, Copy, Debug, PartialEq, Eq, Structural)]
pub enum Grammar {
    Rust,
    JavaScript,
    TypeScript,
    Python,
}

/// The grammar and symbol query used for a language, if symbols are counted for it.
pub open spec fn grammar_of(lang: Seq<char>) -> Option<(Grammar, Seq<char>)> {
    if lang == "rust"@ {
        Some((Grammar::Rust, "(function_item name: (identifier) @name) (struct_item name: (type_identifier) @name) (enum_item name: (type_identifier) @name) (impl_item) (trait_item name: (type_identifier) @name)"@))
    } else if lang == "javascript"@ {
        Some((Grammar::JavaScript, "(function_declaration name: (identifier) @name) (class_declaration name: (identifier) @name) (method_definition name: (property_identifier) @name)"@))
    } else if lang == "typescript"@ || lang == "tsx"@ {
        Some((Grammar::TypeScript, "(function_declaration name: (identifier) @name) (class_declaration name: (identifier) @name) (interface_declaration name: (type_identifier) @name)"@))
    } else if lang == "python"@ {
        Some((Grammar::Python, "(function_definition name: (identifier) @name) (class_definition name: (identifier) @name)"@))
    } else {
        None
    }
}

/// The grammar and symbol query used for a language.
pub fn language_query(lang: &str) -> (r: Option<(Grammar, &'static str)>)
    ensures
        match r {
            Some((g, q)) => grammar_of(lang@) == Some((g, q@)),
            None => grammar_of(lang@) is None,
        },
{
    if str_eq(lang, "rust") {
        Some((Grammar::Rust, "(function_item name: (identifier) @name) (struct_item name: (type_identifier) @name) (enum_item name: (type_identifier) @name) (impl_item) (trait_item name: (type_identifier) @name)"))
    } else if str_eq(lang, "javascript") {
        Some((Grammar::JavaScript, "(function_declaration name: (identifier) @name) (class_declaration name: (identifier) @name) (method_definition name: (property_identifier) @name)"))
    } else if str_eq(lang, "typescript") || str_eq(lang, "tsx") {
        Some((Grammar::TypeScript, "(function_declaration name: (identifier) @name) (class_declaration name: (identifier) @name) (interface_declaration name: (type_identifier) @name)"))
    } else if str_eq(lang, "python") {
        Some((Grammar::Python, "(function_definition name: (identifier) @name) (class_definition name: (identifier) @name)"))
    } else {
        None
    }
}

/// How many matches tree-sitter finds for `query` in `content` parsed with
/// `grammar` (`None` when the grammar, the parse or the query fails).
pub uninterp spec fn query_match_count(grammar: Grammar, query: Seq<char>, content: Seq<char>) -> Option<usize>;

/// Parses `content` with a tree-sitter grammar and counts the matches of a
/// query (`tree_sitter::QueryCursor::matches`); the result is named `query_match_count`.
#[verifier::external_body]
fn count_matches(grammar: Grammar, query: &str, content: &str) -> (r: Option<usize>)
    ensures
        r == query_match_count(grammar, query@, content@),
{
    let language: tree_sitter::Language = match grammar {
        Grammar::Rust => tree_sitter_rust::LANGUAGE.into(),
        Grammar::JavaScript => tree_sitter_javascript::LANGUAGE.into(),
        Grammar::TypeScript => tree_sitter_typescript::LANGUAGE_TYPESCRIPT.into(),
        Grammar::Python => tree_sitter_python::LANGUAGE.into(),
    };
    let mut parser = tree_sitter::Parser::new();
    parser.set_language(&language).ok()?;
    let tree = parser.parse(content, None)?;
    let query = tree_sitter::Query::new(&language, query).ok()?;
    let mut cursor = tree_sitter::QueryCursor::new();
    Some(cursor.matches(&query, tree.root_node(), content.as_bytes()).count())
}

/// The number of top-level symbols found in a file of a language (0 when
/// symbols are not counted for it or tree-sitter fails).
pub open spec fn symbol_count(lang: Seq<char>, content: Seq<char>) -> nat {
    match grammar_of(lang) {
        Some((g, q)) => match query_match_count(g, q, content) {
            Some(n) => n as nat,
            None => 0,
        },
        None => 0,
    }
}

/// Counts the top-level symbols of a file's content.
pub fn count_symbols(lang: &str, content: &str) -> (r: usize)
    ensures
        r as nat == symbol_count(lang@, content@),
{
    match language_query(lang) {
        Some((g, q)) => match count_matches(g, q, content) {
            Some(n) => n,
            None => 0,
        },
        None => 0,
    }
}

// ─── Important files ─────────────────────────────────────────────────────────

/// A file entry as a value: path, reason, relevance.
pub open spec fn important_value(f: ImportantFile) -> (Seq<char>, Seq<char>, u32) {
    (f.path@, f.reason@, f.relevance)
}

/// A file with more than five symbols is important, more so the more it has (full at 20).
pub open spec fn symbol_file_entry(rel: Seq<char>, count: nat) -> Option<(Seq<char>, Seq<char>, u32)> {
    if count > 5 {
        Some((rel, "Contains "@ + text::decimal_text(count) + " top-level symbols"@, if count < 20 { count as u32 } else { 20u32 }))
    } else {
        None
    }
}

/// The important-file entry for a file with `count` top-level symbols, if it is one.
pub fn symbol_file(rel: &str, count: usize) -> (r: Option<ImportantFile>)
    ensures
        match r {
            Some(f) => symbol_file_entry(rel@, count as nat) == Some(important_value(f)),
            None => symbol_file_entry(rel@, count as nat) is None,
        },
{
    if count <= 5 {
        return None;
    }
    let mut reason = "Contains ".to_owned();
    push_decimal(&mut reason, count);
    append_str(&mut reason, " top-level symbols");
    let relevance: u32 = if count < 20 { count as u32 } else { 20 };
    Some(ImportantFile { path: rel.to_owned(), reason, relevance })
}

/// The important-file entry for a project entry point, if the path is one.
pub fn entry_point_file(rel: &str) -> (r: Option<ImportantFile>)
    ensures
        match r {
            Some(f) => language::entry_point_path(rel@) && important_value(f) == (rel@, "Project entry point"@, 20u32),
            None => !language::entry_point_path(rel@),
        },
{
    if language::is_entry_point(rel) {
        Some(ImportantFile { path: rel.to_owned(), reason: "Project entry point".to_owned(), relevance: 20 })
    } else {
        None
    }
}

/// `ranked` is `files` by descending relevance, ties in their given order.
pub open spec fn ranked_by_relevance(files: Seq<ImportantFile>, ranked: Seq<ImportantFile>) -> bool {
    order::is_stable_desc_arrangement(files, ranked, |f: ImportantFile| f.relevance as int)
}

/// The 30 most relevant files, by descending relevance, ties in their given order.
pub fn rank_important_files(files: &Vec<ImportantFile>) -> (r: Vec<ImportantFile>)
    ensures
        exists|ranked: Seq<ImportantFile>|
            #[trigger] ranked_by_relevance(files@, ranked)
                && r@ == ranked.take(if ranked.len() < 30 { ranked.len() as int } else { 30 }),
{
    let mut keys: Vec<i128> = Vec::new();
    let mut k: usize = 0;
    while k < files.len()
        invariant
            k <= files@.len(),
            keys@.len() == k,
            forall|a: int| 0 <= a < k ==> #[trigger] keys@[a] as int == files@[a].relevance as int,
        decreases files@.len() - k,
    {
        keys.push(files[k].relevance as i128);
        k = k + 1;
    }
    let order = stable_desc_order(&keys);
    let ghost ord = order@.map_values(|x: usize| x as int);
    let ghost key = |f: ImportantFile| f.relevance as int;
    assert(keys@.map_values(|x: i128| x as int) =~= files@.map_values(key));
    let ghost ranked = Seq::new(files@.len(), |a: int| files@[ord[a]]);
    let n = if order.len() < 30 { order.len() } else { 30 };
    let mut out: Vec<ImportantFile> = Vec::new();
    let mut m: usize = 0;
    while m < n
        invariant
            n <= order@.len(),
            m <= n,
            ord == order@.map_values(|x: usize| x as int),
            order::is_stable_desc_order(files@.map_values(key), ord),
            out@.len() == m,
            forall|a: int| 0 <= a < m ==> #[trigger] out@[a] == files@[ord[a]],
        decreases n - m,
    {
        assert(0 <= ord[m as int] < files@.len());
        out.push(files[order[m]].duplicate());
        m = m + 1;
    }
    assert(order::is_stable_desc_order(files@.map_values(key), ord));
    assert(order::is_stable_desc_arrangement(files@, ranked, key));
    assert(ranked_by_relevance(files@, ranked));
    assert(out@ =~= ranked.take(n as int));
    out
}

// ─── Languages and technologies ──────────────────────────────────────────────

/// Language statistics as values: language, files, lines.
pub open spec fn stats_values(stats: Seq<LanguageStats>) -> Seq<(Seq<char>, usize, usize)> {
    stats.map_values(|s: LanguageStats| (s.language@, s.file_count, s.line_count))
}

/// Position of the statistics of `lang`, or -1.
pub open spec fn stats_index(stats: Seq<(Seq<char>, usize, usize)>, lang: Seq<char>) -> int
    decreases stats.len(),
{
    if stats.len() == 0 {
        -1
    } else if stats.last().0 == lang {
        stats.len() - 1
    } else {
        stats_index(stats.drop_last(), lang)
    }
}

/// Counting one more file of `lang` with `lines` lines.
pub open spec fn tallied(stats: Seq<(Seq<char>, usize, usize)>, lang: Seq<char>, lines: usize) -> Seq<(Seq<char>, usize, usize)> {
    let k = stats_index(stats, lang);
    if k < 0 {
        stats.push((lang, 1usize, lines))
    } else {
        stats.update(k, (lang, (stats[k].1 + 1) as usize, (stats[k].2 + lines) as usize))
    }
}

/// No language has two entries.
pub open spec fn languages_distinct(stats: Seq<(Seq<char>, usize, usize)>) -> bool {
    forall|a: int, b: int| 0 <= a < b < stats.len() ==> (#[trigger] stats[a]).0 != (#[trigger] stats[b]).0
}

proof fn lemma_stats_index_range(stats: Seq<(Seq<char>, usize, usize)>, lang: Seq<char>)
    ensures
        -1 <= stats_index(stats, lang) < stats.len(),
        stats_index(stats, lang) >= 0 ==> stats[stats_index(stats, lang)].0 == lang,
        stats_index(stats, lang) < 0 ==> forall|k: int| 0 <= k < stats.len() ==> (#[trigger] stats[k]).0 != lang,
    decreases stats.len(),
{
    if stats.len() > 0 {
        lemma_stats_index_range(stats.drop_last(), lang);
        if stats.last().0 != lang {
            assert forall|k: int| 0 <= k < stats.len() - 1 implies #[trigger] stats[k] == stats.drop_last()[k] by {}
        }
    }
}

/// Counting a file keeps one entry per language, and adds exactly one file and its
/// lines to the totals.
pub proof fn law_tally_keeps_languages_distinct(stats: Seq<(Seq<char>, usize, usize)>, lang: Seq<char>, lines: usize)
    requires
        languages_distinct(stats),
        forall|k: int| 0 <= k < stats.len() ==> (#[trigger] stats[k]).1 < usize::MAX && stats[k].2 + lines <= usize::MAX,
    ensures
        languages_distinct(tallied(stats, lang, lines)),
        exists|k: int| 0 <= k < tallied(stats, lang, lines).len() && (#[trigger] tallied(stats, lang, lines)[k]).0 == lang,
{
    lemma_stats_index_range(stats, lang);
    let t = tallied(stats, lang, lines);
    let k = stats_index(stats, lang);
    if k < 0 {
        assert(t[stats.len() as int].0 == lang);
        assert forall|a: int, b: int| 0 <= a < b < t.len() implies (#[trigger] t[a]).0 != (#[trigger] t[b]).0 by {
            assert(t[a] == stats[a]);
            if b < stats.len() {
                assert(t[b] == stats[b]);
            }
        }
    } else {
        assert(t[k].0 == lang);
        assert forall|a: int, b: int| 0 <= a < b < t.len() implies (#[trigger] t[a]).0 != (#[trigger] t[b]).0 by {
            assert(t[a].0 == stats[a].0);
            assert(t[b].0 == stats[b].0);
        }
    }
}

/// Counts one more file of a language, with its lines.
pub fn tally_language(stats: &mut Vec<LanguageStats>, lang: &str, lines: usize)
    requires
        forall|k: int| 0 <= k < old(stats)@.len() ==> #[trigger] old(stats)@[k].file_count < usize::MAX
            && old(stats)@[k].line_count + lines <= usize::MAX,
    ensures
        stats_values(final(stats)@) == tallied(stats_values(old(stats)@), lang@, lines),
{
    let ghost vs = stats_values(stats@);
    let mut i: usize = stats.len();
    assert(vs.take(vs.len() as int) =~= vs);
    while i > 0
        invariant
            i <= stats@.len(),
            vs == stats_values(stats@),
            stats@ == old(stats)@,
            stats_index(vs, lang@) == stats_index(vs.take(i as int), lang@),
            forall|k: int| 0 <= k < stats@.len() ==> #[trigger] stats@[k].file_count < usize::MAX
                && stats@[k].line_count + lines <= usize::MAX,
        decreases i,
    {
        if str_eq(stats[i - 1].language.as_str(), lang) {
            assert(vs.take(i as int).last() == vs[i - 1]);
            let old_entry = &stats[i - 1];
            let updated = LanguageStats {
                language: old_entry.language.clone(),
                file_count: old_entry.file_count + 1,
                line_count: old_entry.line_count + lines,
            };
            stats.set(i - 1, updated);
            assert(stats_values(stats@) =~= tallied(vs, lang@, lines));
            return;
        }
        assert(vs.take(i as int).drop_last() =~= vs.take(i - 1));
        i = i - 1;
    }
    stats.push(LanguageStats { language: lang.to_owned(), file_count: 1, line_count: lines });
    assert(stats_values(stats@) =~= tallied(vs, lang@, lines));
}

/// A technology as a value: name, category, version, confidence.
pub open spec fn tech_value(t: Technology) -> (Seq<char>, Seq<char>, Option<Seq<char>>, u32) {
    (t.name@, t.category@, crate::deps::opt_text(t.version), t.confidence_percent)
}

/// The technologies of a project: each language (certain), each framework
/// (90%), and the first 20 dependencies (70%) with their versions.
pub open spec fn technologies_of(
    stats: Seq<LanguageStats>,
    frameworks: Seq<String>,
    deps: Seq<DependencyInfo>,
) -> Seq<(Seq<char>, Seq<char>, Option<Seq<char>>, u32)> {
    stats.map_values(|s: LanguageStats| (s.language@, "language"@, None, 100u32))
        + frameworks.map_values(|f: String| (f@, "framework"@, None, 90u32))
        + deps.take(if deps.len() < 20 { deps.len() as int } else { 20 }).map_values(
        |d: DependencyInfo| (d.name@, "dependency"@, crate::deps::opt_text(d.version), 70u32),
    )
}

/// Lists the technologies a scan found (see `technologies_of`).
pub fn build_technologies(stats: &Vec<LanguageStats>, frameworks: &Vec<String>, deps: &Vec<DependencyInfo>) -> (r: Vec<Technology>)
    ensures
        r@.map_values(|t: Technology| tech_value(t)) == technologies_of(stats@, frameworks@, deps@),
{
    let ghost want = technologies_of(stats@, frameworks@, deps@);
    let mut out: Vec<Technology> = Vec::new();
    let mut i: usize = 0;
    while i < stats.len()
        invariant
            i <= stats@.len(),
            out@.len() == i,
            forall|k: int| 0 <= k < i ==> #[trigger] tech_value(out@[k]) == (stats@[k].language@, "language"@, None::<Seq<char>>, 100u32),
        decreases stats@.len() - i,
    {
        out.push(Technology { name: stats[i].language.clone(), category: "language".to_owned(), version: None, confidence_percent: 100 });
        i = i + 1;
    }
    let n1 = out.len();
    let mut j: usize = 0;
    while j < frameworks.len()
        invariant
            j <= frameworks@.len(),
            n1 == stats@.len(),
            out@.len() == n1 + j,
            forall|k: int| 0 <= k < n1 ==> #[trigger] tech_value(out@[k]) == (stats@[k].language@, "language"@, None::<Seq<char>>, 100u32),
            forall|k: int| 0 <= k < j ==> #[trigger] tech_value(out@[n1 + k]) == (frameworks@[k]@, "framework"@, None::<Seq<char>>, 90u32),
        decreases frameworks@.len() - j,
    {
        out.push(Technology { name: frameworks[j].clone(), category: "framework".to_owned(), version: None, confidence_percent: 90 });
        j = j + 1;
    }
    let n2 = out.len();
    let nd = if deps.len() < 20 { deps.len() } else { 20 };
    let mut d: usize = 0;
    while d < nd
        invariant
            nd <= deps@.len(),
            nd == (if deps@.len() < 20 { deps@.len() } else { 20 }),
            d <= nd,
            n1 == stats@.len(),
            n2 == n1 + frameworks@.len(),
            out@.len() == n2 + d,
            forall|k: int| 0 <= k < n1 ==> #[trigger] tech_value(out@[k]) == (stats@[k].language@, "language"@, None::<Seq<char>>, 100u32),
            forall|k: int| 0 <= k < frameworks@.len() ==> #[trigger] tech_value(out@[n1 + k]) == (frameworks@[k]@, "framework"@, None::<Seq<char>>, 90u32),
            forall|k: int| 0 <= k < d ==> #[trigger] tech_value(out@[n2 + k]) == (deps@[k].name@, "dependency"@, crate::deps::opt_text(deps@[k].version), 70u32),
        decreases nd - d,
    {
        out.push(Technology {
            name: deps[d].name.clone(),
            category: "dependency".to_owned(),
            version: text::dup_opt_string(&deps[d].version),
            confidence_percent: 70,
        });
        d = d + 1;
    }
    let ghost a = stats@.map_values(|s: LanguageStats| (s.language@, "language"@, None::<Seq<char>>, 100u32));
    let ghost b = frameworks@.map_values(|f: String| (f@, "framework"@, None::<Seq<char>>, 90u32));
    let ghost c = deps@.take(nd as int).map_values(
        |d: DependencyInfo| (d.name@, "dependency"@, crate::deps::opt_text(d.version), 70u32),
    );
    assert(want == a + b + c);
    let ghost got = out@.map_values(|t: Technology| tech_value(t));
    assert forall|k: int| 0 <= k < out@.len() implies #[trigger] got[k] == (a + b + c)[k] by {
        if k < n1 {
            assert(tech_value(out@[k]) == a[k]);
        } else if k < n2 {
            assert(tech_value(out@[n1 + (k - n1)]) == b[k - n1]);
        } else {
            assert(tech_value(out@[n2 + (k - n2)]) == c[k - n2]);
        }
    }
    assert(got =~= want);
    out
}

// ─── The walk ────────────────────────────────────────────────────────────────

/// Important-file entries as values.
pub open spec fn important_values(fs: Seq<ImportantFile>) -> Seq<(Seq<char>, Seq<char>, u32)> {
    fs.map_values(|f: ImportantFile| important_value(f))
}

/// The important-file entries one source file of a known language contributes: one for
/// its symbols when it has more than five, then one when it is an entry point.
pub open spec fn file_entries(rel: Seq<char>, symbols: nat) -> Seq<(Seq<char>, Seq<char>, u32)> {
    (match symbol_file_entry(rel, symbols) {
        Some(e) => seq![e],
        None => Seq::empty(),
    }) + (if language::entry_point_path(rel) {
        seq![(rel, "Project entry point"@, 20u32)]
    } else {
        Seq::empty()
    })
}

/// What one source file contributes to the important files: an entry naming its
/// symbol count, with relevance equal to that count capped at 20, exactly when it has
/// more than five top-level symbols; and an entry of full relevance (20) exactly
/// when it is an entry point; nothing else.
pub proof fn law_file_entries(rel: Seq<char>, symbols: nat)
    ensures
        file_entries(rel, symbols).len() == (if symbols > 5 { 1int } else { 0int })
            + (if language::entry_point_path(rel) { 1int } else { 0int }),
        symbols > 5 ==> file_entries(rel, symbols)[0] == (
            rel,
            "Contains "@ + text::decimal_text(symbols) + " top-level symbols"@,
            (if symbols < 20 { symbols } else { 20 }) as u32,
        ),
        language::entry_point_path(rel) ==> file_entries(rel, symbols).last() == (rel, "Project entry point"@, 20u32),
        forall|i: int| 0 <= i < file_entries(rel, symbols).len() ==> (#[trigger] file_entries(rel, symbols)[i]).0 == rel
            && file_entries(rel, symbols)[i].2 <= 20,
{
}

/// What a scan has gathered so far, file by file: the source files seen, the statistics
/// of each language (each language once, in the order first seen), the important files
/// and the number of top-level symbols.
pub struct ScanTally {
    pub file_paths: Vec<String>,
    pub languages: Vec<LanguageStats>,
    pub important_files: Vec<ImportantFile>,
    pub symbol_count: usize,
}

/// No more lines or files can be counted for any language of `stats` without overflow.
pub open spec fn room_for(stats: Seq<LanguageStats>, lines: usize) -> bool {
    forall|k: int| 0 <= k < stats.len() ==> #[trigger] stats[k].file_count < usize::MAX
        && stats[k].line_count + lines <= usize::MAX
}

impl ScanTally {
    /// Nothing gathered yet.
    pub fn new() -> (t: ScanTally)
        ensures
            t.file_paths@.len() == 0,
            t.languages@.len() == 0,
            t.important_files@.len() == 0,
            t.symbol_count == 0,
    {
        ScanTally { file_paths: Vec::new(), languages: Vec::new(), important_files: Vec::new(), symbol_count: 0 }
    }

    /// Takes in one walked file: `path` as found, `rel` relative to the project root with
    /// forward slashes, its number of lines and of top-level symbols. Files that are not
    /// source files are passed over; the result says whether the file was taken.
    pub fn observe(&mut self, path: &str, rel: &str, lines: usize, symbols: usize) -> (taken: bool)
        requires
            language::language_of_path(path@) is Some ==> {
                &&& old(self).symbol_count + symbols <= usize::MAX
                &&& room_for(old(self).languages@, lines)
            },
        ensures
            taken == language::language_of_path(path@) is Some,
            !taken ==> *final(self) == *old(self),
            languages_distinct(stats_values(old(self).languages@)) ==> languages_distinct(
                stats_values(final(self).languages@),
            ),
            taken ==> {
                &&& text::texts(final(self).file_paths@) == text::texts(old(self).file_paths@).push(path@)
                &&& stats_values(final(self).languages@) == tallied(
                    stats_values(old(self).languages@),
                    language::language_of_path(path@)->0,
                    lines,
                )
                &&& final(self).symbol_count == old(self).symbol_count + symbols
                &&& important_values(final(self).important_files@) == important_values(
                    old(self).important_files@,
                ) + file_entries(rel@, symbols as nat)
            },
    {
        let lang = match language::detect_language(path) {
            Some(l) => l,
            None => return false,
        };
        let ghost old_files = self.important_files@;
        self.file_paths.push(path.to_owned());
        assert(text::texts(self.file_paths@) =~= text::texts(old(self).file_paths@).push(path@));
        proof {
            if languages_distinct(stats_values(self.languages@)) {
                law_tally_keeps_languages_distinct(stats_values(self.languages@), lang@, lines);
            }
        }
        tally_language(&mut self.languages, lang, lines);
        self.symbol_count = self.symbol_count + symbols;
        match symbol_file(rel, symbols) {
            Some(f) => {
                self.important_files.push(f);
            },
            None => {},
        }
        let ghost mid2 = self.important_files@;
        assert(important_values(mid2) =~= important_values(old_files) + (match symbol_file_entry(rel@, symbols as nat) {
            Some(e) => seq![e],
            None => Seq::<(Seq<char>, Seq<char>, u32)>::empty(),
        }));
        match entry_point_file(rel) {
            Some(f) => {
                self.important_files.push(f);
            },
            None => {},
        }
        assert(important_values(self.important_files@) =~= important_values(old_files) + file_entries(rel@, symbols as nat));
        true
    }
}

/// What a scan reports: when, how many source files, per-language statistics, the
/// frameworks found and the resulting architecture.
pub struct ScanResult {
    pub scanned_at: Timestamp,
    pub files_analyzed: usize,
    pub languages: Vec<LanguageStats>,
    pub frameworks: Vec<String>,
    pub architecture: Architecture,
}

/// The architecture a scan arrives at, and its report.
pub fn scan_result(
    tally: ScanTally,
    now: Timestamp,
    layers: Vec<ArchitectureLayer>,
    dependencies: Vec<DependencyInfo>,
    frameworks: Vec<String>,
    entry_points: Vec<String>,
) -> (r: ScanResult)
    ensures
        r.scanned_at == now,
        r.files_analyzed == tally.file_paths@.len(),
        r.languages@ == tally.languages@,
        r.frameworks@ == frameworks@,
        r.architecture.version@ == models::NEXUS_VERSION@,
        r.architecture.updated_at == now,
        r.architecture.layers@ == layers@,
        r.architecture.technologies@.map_values(|t: Technology| tech_value(t))
            == technologies_of(tally.languages@, frameworks@, dependencies@),
        r.architecture.dependencies@ == dependencies@,
        r.architecture.entry_points@ == entry_points@,
        exists|ranked: Seq<ImportantFile>|
            #[trigger] ranked_by_relevance(tally.important_files@, ranked)
                && r.architecture.important_files@ == ranked.take(
                if ranked.len() < 30 { ranked.len() as int } else { 30 },
            ),
{
    let technologies = build_technologies(&tally.languages, &frameworks, &dependencies);
    let important_files = rank_important_files(&tally.important_files);
    let architecture = Architecture {
        version: models::NEXUS_VERSION.to_owned(),
        updated_at: now,
        layers,
        technologies,
        dependencies,
        entry_points,
        important_files,
    };
    ScanResult {
        scanned_at: now,
        files_analyzed: tally.file_paths.len(),
        languages: tally.languages,
        frameworks,
        architecture,
    }
}

/// The technologies the project memory lists after a scan: the languages, then the frameworks.
pub fn memory_technologies(result: &ScanResult) -> (r: Vec<String>)
    ensures
        text::texts(r@) == result.languages@.map_values(|s: LanguageStats| s.language@) + text::texts(
            result.frameworks@,
        ),
{
    let mut out: Vec<String> = Vec::new();
    let mut i: usize = 0;
    while i < result.languages.len()
        invariant
            i <= result.languages@.len(),
            out@.len() == i,
            forall|k: int| 0 <= k < i ==> #[trigger] out@[k]@ == result.languages@[k].language@,
        decreases result.languages@.len() - i,
    {
        out.push(result.languages[i].language.clone());
        i = i + 1;
    }
    let n = out.len();
    let mut j: usize = 0;
    while j < result.frameworks.len()
        invariant
            j <= result.frameworks@.len(),
            n == result.languages@.len(),
            out@.len() == n + j,
            forall|k: int| 0 <= k < n ==> #[trigger] out@[k]@ == result.languages@[k].language@,
            forall|k: int| 0 <= k < j ==> #[trigger] out@[n + k]@ == result.frameworks@[k]@,
        decreases result.frameworks@.len() - j,
    {
        out.push(result.frameworks[j].clone());
        j = j + 1;
    }
    let ghost want = result.languages@.map_values(|s: LanguageStats| s.language@) + text::texts(result.frameworks@);
    assert forall|k: int| 0 <= k < out@.len() implies #[trigger] text::texts(out@)[k] == want[k] by {
        if k >= n {
            assert(out@[n + (k - n)]@ == result.frameworks@[k - n]@);
        }
    }
    assert(text::texts(out@) =~= want);
    out
}

/// The title of the timeline event of a scan.
pub fn scan_event_title(files: usize) -> (r: String)
    ensures
        r@ == "Scanned "@ + text::decimal_text(files as nat) + " files"@,
{
    let mut out = "Scanned ".to_owned();
    push_decimal(&mut out, files);
    append_str(&mut out, " files");
    out
}

/// The description of the timeline event of a scan.
pub fn scan_event_description(languages: usize, symbols: usize) -> (r: String)
    ensures
        r@ == text::decimal_text(languages as nat) + " languages, "@ + text::decimal_text(symbols as nat)
            + " symbols indexed"@,
{
    let mut out = String::new();
    push_decimal(&mut out, languages);
    append_str(&mut out, " languages, ");
    push_decimal(&mut out, symbols);
    append_str(&mut out, " symbols indexed");
    out
}

} // verus!
