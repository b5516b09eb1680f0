//! Architecture inference from file paths, and its tree rendering.

use crate::models::{ArchitectureComponent, ArchitectureLayer, ComponentKind};
use crate::text::{self, append_str, chars_of, str_contains, str_ends_with, str_starts_with, to_lower};
use vstd::prelude::*;

verus! {

/// Position of the last `/` in `p`, or -1.
pub open spec fn last_slash(p: Seq<char>) -> int
    decreases p.len(),
{
    if p.len() == 0 {
        -1
    } else if p.last() == '/' {
        p.len() - 1
    } else {
        last_slash(p.drop_last())
    }
}

/// The final segment of a `/`-separated path.
pub open spec fn leaf_name(p: Seq<char>) -> Seq<char> {
    p.subrange(last_slash(p) + 1, p.len() as int)
}

/// The final segment of a `/`-separated path.
pub fn leaf_of(path: &str) -> (r: String)
    ensures
        r@ == leaf_name(path@),
{
    let cs = chars_of(path);
    let mut i: usize = cs.len();
    assert(path@.take(path@.len() as int) =~= path@);
    while i > 0 && cs[i - 1] != '/'
        invariant
            i <= cs@.len(),
            cs@ == path@,
            last_slash(path@) == last_slash(path@.take(i as int)),
        decreases i,
    {
        assert(path@.take(i as int).drop_last() =~= path@.take(i - 1));
        i = i - 1;
    }
    proof {
        if i > 0 {
            assert(path@.take(i as int).last() == '/');
        }
        assert(path@.take(path@.len() as int) =~= path@);
    }
    path.substring_char(i, cs.len()).to_owned()
}

/// The tree lines of a layer's components.
pub open spec fn component_lines(cs: Seq<ArchitectureComponent>) -> Seq<char>
    decreases cs.len(),
{
    if cs.len() == 0 {
        Seq::empty()
    } else {
        component_lines(cs.drop_last()) + "├── "@ + leaf_name(cs.last().path@) + "\n"@
    }
}

/// The tree block of one layer: its name, one line per component, and a blank line.
pub open spec fn layer_block(l: ArchitectureLayer) -> Seq<char> {
    l.name@ + "\n"@ + component_lines(l.components@) + "\n"@
}

/// The tree of all layers.
pub open spec fn architecture_tree(layers: Seq<ArchitectureLayer>) -> Seq<char>
    decreases layers.len(),
{
    if layers.len() == 0 {
        Seq::empty()
    } else {
        architecture_tree(layers.drop_last()) + layer_block(layers.last())
    }
}

fn append_layer(out: &mut String, l: &ArchitectureLayer)
    ensures
        final(out)@ == old(out)@ + layer_block(*l),
{
    let ghost s0 = out@;
    append_str(out, l.name.as_str());
    append_str(out, "\n");
    let ghost s1 = out@;
    let mut i: usize = 0;
    while i < l.components.len()
        invariant
            i <= l.components@.len(),
            out@ == s1 + component_lines(l.components@.take(i as int)),
        decreases l.components@.len() - i,
    {
        append_str(out, "├── ");
        let leaf = leaf_of(l.components[i].path.as_str());
        append_str(out, leaf.as_str());
        append_str(out, "\n");
        assert(l.components@.take(i + 1).drop_last() =~= l.components@.take(i as int));
        assert(out@ =~= s1 + component_lines(l.components@.take(i + 1)));
        i = i + 1;
    }
    assert(l.components@.take(l.components@.len() as int) =~= l.components@);
    append_str(out, "\n");
    assert(out@ =~= s0 + layer_block(*l));
}

/// Renders layers as a tree: each layer's name, then `├── ` and the last path
/// segment of each component, then a blank line.
pub fn format_architecture_tree(layers: &Vec<ArchitectureLayer>) -> (r: String)
    ensures
        r@ == architecture_tree(layers@),
{
    let mut out = String::new();
    let mut i: usize = 0;
    while i < layers.len()
        invariant
            i <= layers@.len(),
            out@ == architecture_tree(layers@.take(i as int)),
        decreases layers@.len() - i,
    {
        append_layer(&mut out, &layers[i]);
        assert(layers@.take(i + 1).drop_last() =~= layers@.take(i as int));
        i = i + 1;
    }
    assert(layers@.take(layers@.len() as int) =~= layers@);
    out
}


// ─── Classification ──────────────────────────────────────────────────────────

/// The kind of component a (lower-cased, `/`-separated) relative path belongs to.
pub open spec fn classification(lower: Seq<char>) -> ComponentKind {
    let occurs = |n: Seq<char>| text::seq_contains_text(lower, n);
    if occurs("/test"@) || occurs("/tests/"@) || text::seq_starts_with(lower, "test/"@) {
        ComponentKind::Test
    } else if occurs("frontend"@) || occurs("/ui/"@) || occurs("/components/"@) || occurs("/pages/"@) || (occurs("/app/"@) && !occurs("/api/"@)) {
        ComponentKind::Frontend
    } else if occurs("/api/"@) || occurs("routes/"@) || occurs("handlers/"@) {
        ComponentKind::Api
    } else if occurs("database"@) || occurs("/db/"@) || occurs("migration"@) || occurs("schema"@) {
        ComponentKind::Database
    } else if occurs("shared"@) || occurs("/lib/"@) || occurs("/common/"@) || occurs("/utils/"@) {
        ComponentKind::Shared
    } else if occurs("docker"@) || occurs(".github"@) || occurs("infra"@) || occurs("deploy"@) {
        ComponentKind::Infrastructure
    } else if text::seq_ends_with(lower, ".toml"@) || text::seq_ends_with(lower, ".yaml"@) || text::seq_ends_with(lower, ".yml"@) || occurs("config"@) {
        ComponentKind::Config
    } else if occurs("src/"@) || occurs("crates/"@) || occurs("server/"@) {
        ComponentKind::Backend
    } else {
        ComponentKind::Other
    }
}

/// The classification table, in priority order: each kind with the markers whose
/// occurrence anywhere in a lower-cased path signals it.
pub open spec fn kind_markers() -> Seq<(ComponentKind, Seq<Seq<char>>)> {
    seq![
        (ComponentKind::Test, seq!["/test"@, "/tests/"@]),
        (ComponentKind::Frontend, seq!["frontend"@, "/ui/"@, "/components/"@, "/pages/"@]),
        (ComponentKind::Api, seq!["/api/"@, "routes/"@, "handlers/"@]),
        (ComponentKind::Database, seq!["database"@, "/db/"@, "migration"@, "schema"@]),
        (ComponentKind::Shared, seq!["shared"@, "/lib/"@, "/common/"@, "/utils/"@]),
        (ComponentKind::Infrastructure, seq!["docker"@, ".github"@, "infra"@, "deploy"@]),
        (ComponentKind::Config, seq!["config"@]),
        (ComponentKind::Backend, seq!["src/"@, "crates/"@, "server/"@]),
    ]
}

/// Whether a lower-cased path signals rank `r` of the table: one of its markers
/// occurs in it, or (for tests) it starts with `test/`, (for the frontend) it has
/// `/app/` but no `/api/`, (for configuration) it ends with `.toml`, `.yaml` or `.yml`.
pub open spec fn signals_rank(lower: Seq<char>, r: int) -> bool {
    (exists|j: int| 0 <= j < kind_markers()[r].1.len() && #[trigger] text::seq_contains_text(lower, kind_markers()[r].1[j]))
        || (r == 0 && text::seq_starts_with(lower, "test/"@))
        || (r == 1 && text::seq_contains_text(lower, "/app/"@) && !text::seq_contains_text(lower, "/api/"@))
        || (r == 6 && (text::seq_ends_with(lower, ".toml"@) || text::seq_ends_with(lower, ".yaml"@)
            || text::seq_ends_with(lower, ".yml"@)))
}

/// A path is classified by the first rank of the table it signals: for example
/// every path containing `routes/` and no test or frontend marker is an API component.
pub proof fn law_classification_by_table(lower: Seq<char>, r: int)
    requires
        0 <= r < kind_markers().len(),
        signals_rank(lower, r),
        forall|s: int| 0 <= s < r ==> !signals_rank(lower, s),
    ensures
        classification(lower) == kind_markers()[r].0,
{
    let km = kind_markers();
    assert(km[0].1 =~= seq!["/test"@, "/tests/"@]);
    assert(km[1].1 =~= seq!["frontend"@, "/ui/"@, "/components/"@, "/pages/"@]);
    assert(km[2].1 =~= seq!["/api/"@, "routes/"@, "handlers/"@]);
    assert(km[3].1 =~= seq!["database"@, "/db/"@, "migration"@, "schema"@]);
    assert(km[4].1 =~= seq!["shared"@, "/lib/"@, "/common/"@, "/utils/"@]);
    assert(km[5].1 =~= seq!["docker"@, ".github"@, "infra"@, "deploy"@]);
    assert(km[6].1 =~= seq!["config"@]);
    assert(km[7].1 =~= seq!["src/"@, "crates/"@, "server/"@]);
    lemma_rank_signals(lower, 0);
    lemma_rank_signals(lower, 1);
    lemma_rank_signals(lower, 2);
    lemma_rank_signals(lower, 3);
    lemma_rank_signals(lower, 4);
    lemma_rank_signals(lower, 5);
    lemma_rank_signals(lower, 6);
    lemma_rank_signals(lower, 7);
}

/// A path that signals no rank of the table is classified `Other`.
pub proof fn law_unsignalled_is_other(lower: Seq<char>)
    requires
        forall|s: int| 0 <= s < kind_markers().len() ==> !signals_rank(lower, s),
    ensures
        classification(lower) == ComponentKind::Other,
{
    lemma_rank_signals(lower, 0);
    lemma_rank_signals(lower, 1);
    lemma_rank_signals(lower, 2);
    lemma_rank_signals(lower, 3);
    lemma_rank_signals(lower, 4);
    lemma_rank_signals(lower, 5);
    lemma_rank_signals(lower, 6);
    lemma_rank_signals(lower, 7);
}

/// Rank `r` of the table, spelled out marker by marker.
proof fn lemma_rank_signals(lower: Seq<char>, r: int)
    requires
        0 <= r < 8,
    ensures
        signals_rank(lower, r) <==> rank_spelled(lower, r),
{
    let ms = kind_markers()[r].1;
    let occ = |n: Seq<char>| text::seq_contains_text(lower, n);
    if r == 0 {
        assert(ms =~= seq!["/test"@, "/tests/"@]);
    } else if r == 1 {
        assert(ms =~= seq!["frontend"@, "/ui/"@, "/components/"@, "/pages/"@]);
    } else if r == 2 {
        assert(ms =~= seq!["/api/"@, "routes/"@, "handlers/"@]);
    } else if r == 3 {
        assert(ms =~= seq!["database"@, "/db/"@, "migration"@, "schema"@]);
    } else if r == 4 {
        assert(ms =~= seq!["shared"@, "/lib/"@, "/common/"@, "/utils/"@]);
    } else if r == 5 {
        assert(ms =~= seq!["docker"@, ".github"@, "infra"@, "deploy"@]);
    } else if r == 6 {
        assert(ms =~= seq!["config"@]);
    } else {
        assert(ms =~= seq!["src/"@, "crates/"@, "server/"@]);
    }
    if rank_spelled(lower, r) {
        if signals_rank(lower, r) {
        } else {
            assert(forall|j: int| 0 <= j < ms.len() ==> !occ(ms[j]));
            assert(occ(ms[0]) || (ms.len() > 1 && occ(ms[1])) || (ms.len() > 2 && occ(ms[2])) || (ms.len() > 3 && occ(ms[3]))
                || (r == 0 && text::seq_starts_with(lower, "test/"@))
                || (r == 1 && occ("/app/"@) && !occ("/api/"@))
                || (r == 6 && (text::seq_ends_with(lower, ".toml"@) || text::seq_ends_with(lower, ".yaml"@)
                    || text::seq_ends_with(lower, ".yml"@))));
        }
    }
    if signals_rank(lower, r) && !((r == 0 && text::seq_starts_with(lower, "test/"@))
        || (r == 1 && occ("/app/"@) && !occ("/api/"@))
        || (r == 6 && (text::seq_ends_with(lower, ".toml"@) || text::seq_ends_with(lower, ".yaml"@)
            || text::seq_ends_with(lower, ".yml"@)))) {
        let j = choose|j: int| 0 <= j < ms.len() && #[trigger] text::seq_contains_text(lower, ms[j]);
        assert(j == 0 || j == 1 || j == 2 || j == 3);
    }
}

/// The conditions of rank `r`, written out.
spec fn rank_spelled(lower: Seq<char>, r: int) -> bool {
    let occ = |n: Seq<char>| text::seq_contains_text(lower, n);
    if r == 0 {
        occ("/test"@) || occ("/tests/"@) || text::seq_starts_with(lower, "test/"@)
    } else if r == 1 {
        occ("frontend"@) || occ("/ui/"@) || occ("/components/"@) || occ("/pages/"@) || (occ("/app/"@) && !occ("/api/"@))
    } else if r == 2 {
        occ("/api/"@) || occ("routes/"@) || occ("handlers/"@)
    } else if r == 3 {
        occ("database"@) || occ("/db/"@) || occ("migration"@) || occ("schema"@)
    } else if r == 4 {
        occ("shared"@) || occ("/lib/"@) || occ("/common/"@) || occ("/utils/"@)
    } else if r == 5 {
        occ("docker"@) || occ(".github"@) || occ("infra"@) || occ("deploy"@)
    } else if r == 6 {
        text::seq_ends_with(lower, ".toml"@) || text::seq_ends_with(lower, ".yaml"@) || text::seq_ends_with(lower, ".yml"@) || occ("config"@)
    } else {
        occ("src/"@) || occ("crates/"@) || occ("server/"@)
    }
}

/// The kind of component a lower-cased relative path belongs to.
pub fn classify_lowered(lower: &str) -> (k: ComponentKind)
    ensures
        k == classification(lower@),
{
    if str_contains(lower, "/test") || str_contains(lower, "/tests/") || str_starts_with(lower, "test/") {
        return ComponentKind::Test;
    }
    if str_contains(lower, "frontend") || str_contains(lower, "/ui/") || str_contains(lower, "/components/")
        || str_contains(lower, "/pages/") || (str_contains(lower, "/app/") && !str_contains(lower, "/api/")) {
        return ComponentKind::Frontend;
    }
    if str_contains(lower, "/api/") || str_contains(lower, "routes/") || str_contains(lower, "handlers/") {
        return ComponentKind::Api;
    }
    if str_contains(lower, "database") || str_contains(lower, "/db/") || str_contains(lower, "migration")
        || str_contains(lower, "schema") {
        return ComponentKind::Database;
    }
    if str_contains(lower, "shared") || str_contains(lower, "/lib/") || str_contains(lower, "/common/")
        || str_contains(lower, "/utils/") {
        return ComponentKind::Shared;
    }
    if str_contains(lower, "docker") || str_contains(lower, ".github") || str_contains(lower, "infra")
        || str_contains(lower, "deploy") {
        return ComponentKind::Infrastructure;
    }
    if str_ends_with(lower, ".toml") || str_ends_with(lower, ".yaml") || str_ends_with(lower, ".yml")
        || str_contains(lower, "config") {
        return ComponentKind::Config;
    }
    if str_contains(lower, "src/") || str_contains(lower, "crates/") || str_contains(lower, "server/") {
        return ComponentKind::Backend;
    }
    ComponentKind::Other
}

/// The kind of component a relative path belongs to, judged on its lower-cased form.
pub fn classify_path(rel: &str) -> (k: ComponentKind)
    ensures
        k == classification(text::lowercase_text(rel@)),
{
    let lower = to_lower(rel);
    classify_lowered(lower.as_str())
}

// ─── Layers ──────────────────────────────────────────────────────────────────

/// What `std::path::Path::strip_prefix` leaves of `path` under `root`, shown with `to_string_lossy`.
pub uninterp spec fn stripped_prefix(path: Seq<char>, root: Seq<char>) -> Option<Seq<char>>;

/// Calls `std::path::Path::strip_prefix`; the result is named `stripped_prefix`.
#[verifier::external_body]
fn strip_root(path: &str, root: &str) -> (r: Option<String>)
    ensures
        r matches Some(s) ==> stripped_prefix(path@, root@) == Some(s@),
        r is None ==> stripped_prefix(path@, root@) is None,
{
    match std::path::Path::new(path).strip_prefix(root) {
        Ok(p) => Some(p.to_string_lossy().into_owned()),
        Err(_) => None,
    }
}

/// The file stem of a path, as `std::path::Path::file_stem` finds it.
pub uninterp spec fn path_file_stem(path: Seq<char>) -> Option<Seq<char>>;

/// Calls `std::path::Path::file_stem`; the result is named `path_file_stem`.
#[verifier::external_body]
fn stem_of(path: &str) -> (r: Option<String>)
    ensures
        r matches Some(s) ==> path_file_stem(path@) == Some(s@),
        r is None ==> path_file_stem(path@) is None,
{
    match std::path::Path::new(path).file_stem() {
        Some(s) => match s.to_str() {
            Some(t) => Some(t.to_owned()),
            None => None,
        },
        None => None,
    }
}

/// `s` with every `\` written as `/`.
pub open spec fn forward_slashes(s: Seq<char>) -> Seq<char> {
    s.map_values(|c: char| if c == '\\' { '/' } else { c })
}

fn to_forward_slashes(s: &str) -> (r: String)
    ensures
        r@ == forward_slashes(s@),
{
    let cs = chars_of(s);
    let mut out = String::new();
    let mut i: usize = 0;
    while i < cs.len()
        invariant
            i <= cs@.len(),
            cs@ == s@,
            out@ == forward_slashes(s@.take(i as int)),
        decreases cs@.len() - i,
    {
        let c = if cs[i] == '\\' { '/' } else { cs[i] };
        text::push_char(&mut out, c);
        assert(forward_slashes(s@.take(i + 1)) =~= forward_slashes(s@.take(i as int)).push(c));
        i = i + 1;
    }
    assert(s@.take(s@.len() as int) =~= s@);
    out
}

/// A file's path relative to the project root, `/`-separated.
pub open spec fn relative_of(root: Seq<char>, path: Seq<char>) -> Seq<char> {
    forward_slashes(
        match stripped_prefix(path, root) {
            Some(r) => r,
            None => path,
        },
    )
}

/// A file's path relative to the project root, `/`-separated (the file itself when it is
/// not under the root).
pub fn relative_path(root: &str, path: &str) -> (r: String)
    ensures
        r@ == relative_of(root@, path@),
{
    match strip_root(path, root) {
        Some(r) => to_forward_slashes(r.as_str()),
        None => to_forward_slashes(path),
    }
}

/// A component as a value: name, relative path, kind, description.
pub type ComponentValue = (Seq<char>, Seq<char>, ComponentKind, Seq<char>);

/// The view of a component.
pub open spec fn component_value(c: ArchitectureComponent) -> ComponentValue {
    (c.name@, c.path@, c.kind, c.description@)
}

/// The component a scanned file becomes.
pub open spec fn component_for(root: Seq<char>, path: Seq<char>) -> ComponentValue {
    let rel = relative_of(root, path);
    (
        match path_file_stem(path) {
            Some(s) => s,
            None => "unknown"@,
        },
        rel,
        classification(text::lowercase_text(rel)),
        Seq::empty(),
    )
}

fn make_component(root: &str, path: &str) -> (c: ArchitectureComponent)
    ensures
        component_value(c) == component_for(root@, path@),
{
    let rel = relative_path(root, path);
    let kind = classify_path(rel.as_str());
    let name = match stem_of(path) {
        Some(s) => s,
        None => "unknown".to_owned(),
    };
    let c = ArchitectureComponent { name, path: rel, kind, description: String::new() };
    assert(component_value(c) =~= component_for(root@, path@));
    c
}

/// The components of kind `k` among `cs`, in order.
pub open spec fn of_kind(cs: Seq<ComponentValue>, k: ComponentKind) -> Seq<ComponentValue>
    decreases cs.len(),
{
    if cs.len() == 0 {
        Seq::empty()
    } else if cs.last().2 == k {
        of_kind(cs.drop_last(), k).push(cs.last())
    } else {
        of_kind(cs.drop_last(), k)
    }
}

/// A layer as a value: name, description, components.
pub type LayerValue = (Seq<char>, Seq<char>, Seq<ComponentValue>);

/// The view of a layer.
pub open spec fn layer_value(l: ArchitectureLayer) -> LayerValue {
    (l.name@, l.description@, l.components@.map_values(|c: ArchitectureComponent| component_value(c)))
}

/// The layers in the order they are reported, with their display names.
pub open spec fn layer_order() -> Seq<(ComponentKind, Seq<char>)> {
    seq![
        (ComponentKind::Frontend, "Frontend"@),
        (ComponentKind::Backend, "Backend"@),
        (ComponentKind::Api, "API"@),
        (ComponentKind::Database, "Database"@),
        (ComponentKind::Shared, "Shared"@),
        (ComponentKind::Infrastructure, "Infrastructure"@),
        (ComponentKind::Test, "Tests"@),
        (ComponentKind::Config, "Configuration"@),
        (ComponentKind::Other, "Other"@),
    ]
}

/// At most the first `max` of `cs`.
pub open spec fn first_at_most<T>(cs: Seq<T>, max: nat) -> Seq<T> {
    cs.take(if cs.len() <= max { cs.len() as int } else { max as int })
}

/// The non-empty layers for the kinds of `order`, each with at most 50 components.
pub open spec fn layers_for(order: Seq<(ComponentKind, Seq<char>)>, cs: Seq<ComponentValue>) -> Seq<LayerValue>
    decreases order.len(),
{
    if order.len() == 0 {
        Seq::empty()
    } else {
        let rest = layers_for(order.drop_last(), cs);
        let (k, name) = order.last();
        let members = of_kind(cs, k);
        if members.len() == 0 {
            rest
        } else {
            rest.push((name, name + " components detected by structure analysis"@, first_at_most(members, 50)))
        }
    }
}

/// How many of `cs` are of kind `k`.
pub open spec fn kind_count(cs: Seq<ComponentValue>, k: ComponentKind) -> nat
    decreases cs.len(),
{
    if cs.len() == 0 {
        0
    } else {
        kind_count(cs.drop_last(), k) + if cs.last().2 == k { 1nat } else { 0nat }
    }
}

proof fn lemma_of_kind_facts(cs: Seq<ComponentValue>, k: ComponentKind)
    ensures
        of_kind(cs, k).len() == kind_count(cs, k),
        forall|t: int| 0 <= t < of_kind(cs, k).len() ==> (#[trigger] of_kind(cs, k)[t]).2 == k && cs.contains(of_kind(cs, k)[t]),
    decreases cs.len(),
{
    if cs.len() > 0 {
        lemma_of_kind_facts(cs.drop_last(), k);
        let prev = of_kind(cs.drop_last(), k);
        assert forall|t: int| 0 <= t < of_kind(cs, k).len() implies (#[trigger] of_kind(cs, k)[t]).2 == k && cs.contains(
            of_kind(cs, k)[t],
        ) by {
            if t < prev.len() {
                assert(of_kind(cs, k)[t] == prev[t]);
                assert(cs.drop_last().contains(prev[t]));
                let w = choose|w: int| 0 <= w < cs.drop_last().len() && cs.drop_last()[w] == prev[t];
                assert(cs[w] == prev[t]);
            } else {
                assert(of_kind(cs, k)[t] == cs.last());
                assert(cs[cs.len() - 1] == cs.last());
            }
        }
    }
}

proof fn lemma_of_kind_prefix(cs: Seq<ComponentValue>, k: ComponentKind, m: int)
    requires
        0 <= m <= cs.len(),
    ensures
        of_kind(cs.take(m), k).len() <= of_kind(cs, k).len(),
        forall|t: int| 0 <= t < of_kind(cs.take(m), k).len() ==> #[trigger] of_kind(cs.take(m), k)[t] == of_kind(cs, k)[t],
    decreases cs.len(),
{
    if m == cs.len() {
        assert(cs.take(m) =~= cs);
    } else {
        lemma_of_kind_prefix(cs.drop_last(), k, m);
        assert(cs.drop_last().take(m) =~= cs.take(m));
    }
}

proof fn lemma_layers_for_has(order: Seq<(ComponentKind, Seq<char>)>, cs: Seq<ComponentValue>, r: int)
    requires
        0 <= r < order.len(),
        of_kind(cs, order[r].0).len() > 0,
    ensures
        exists|q: int|
            0 <= q < layers_for(order, cs).len() && #[trigger] layers_for(order, cs)[q] == (
                order[r].1,
                order[r].1 + " components detected by structure analysis"@,
                first_at_most(of_kind(cs, order[r].0), 50),
            ),
    decreases order.len(),
{
    let rest = layers_for(order.drop_last(), cs);
    if r < order.len() - 1 {
        lemma_layers_for_has(order.drop_last(), cs, r);
        assert(order.drop_last()[r] == order[r]);
        let q = choose|q: int|
            0 <= q < rest.len() && #[trigger] rest[q] == (
                order[r].1,
                order[r].1 + " components detected by structure analysis"@,
                first_at_most(of_kind(cs, order[r].0), 50),
            );
        assert(layers_for(order, cs)[q] == rest[q]);
    } else {
        assert(layers_for(order, cs)[rest.len() as int] == layers_for(order, cs).last());
    }
}

proof fn lemma_layers_for_entries(order: Seq<(ComponentKind, Seq<char>)>, cs: Seq<ComponentValue>, q: int)
    requires
        0 <= q < layers_for(order, cs).len(),
    ensures
        exists|r: int|
            0 <= r < order.len() && #[trigger] order[r] == order[r] && layers_for(order, cs)[q] == (
                order[r].1,
                order[r].1 + " components detected by structure analysis"@,
                first_at_most(of_kind(cs, order[r].0), 50),
            ),
    decreases order.len(),
{
    let rest = layers_for(order.drop_last(), cs);
    if q < rest.len() {
        lemma_layers_for_entries(order.drop_last(), cs, q);
        let r = choose|r: int|
            0 <= r < order.drop_last().len() && #[trigger] order.drop_last()[r] == order.drop_last()[r] && rest[q] == (
                order.drop_last()[r].1,
                order.drop_last()[r].1 + " components detected by structure analysis"@,
                first_at_most(of_kind(cs, order.drop_last()[r].0), 50),
            );
        assert(order.drop_last()[r] == order[r]);
        assert(layers_for(order, cs)[q] == rest[q]);
    } else {
        assert(order[order.len() - 1] == order.last());
    }
}

/// Every scanned component lands in the layer of its kind (a `Frontend`, `Backend`,
/// `API`, `Database`, `Shared`, `Infrastructure`, `Tests`, `Configuration` or
/// `Other` layer) unless fifty components of that kind came before it.
pub proof fn law_component_in_its_layer(cs: Seq<ComponentValue>, i: int, k: ComponentKind, name: Seq<char>)
    requires
        0 <= i < cs.len(),
        cs[i].2 == k,
        kind_count(cs.take(i), k) < 50,
        (k == ComponentKind::Frontend && name == "Frontend"@) ||
            (k == ComponentKind::Backend && name == "Backend"@) ||
            (k == ComponentKind::Api && name == "API"@) ||
            (k == ComponentKind::Database && name == "Database"@) ||
            (k == ComponentKind::Shared && name == "Shared"@) ||
            (k == ComponentKind::Infrastructure && name == "Infrastructure"@) ||
            (k == ComponentKind::Test && name == "Tests"@) ||
            (k == ComponentKind::Config && name == "Configuration"@) ||
            (k == ComponentKind::Other && name == "Other"@),
    ensures
        exists|q: int|
            0 <= q < layers_for(layer_order(), cs).len() && (#[trigger] layers_for(layer_order(), cs)[q]).0 == name
                && layers_for(layer_order(), cs)[q].2.contains(cs[i]),
{
    let order = layer_order();
    let mut r: int = 0;
    if k == ComponentKind::Frontend && name == "Frontend"@ {
        r = 0;
    } else if k == ComponentKind::Backend && name == "Backend"@ {
        r = 1;
    } else if k == ComponentKind::Api && name == "API"@ {
        r = 2;
    } else if k == ComponentKind::Database && name == "Database"@ {
        r = 3;
    } else if k == ComponentKind::Shared && name == "Shared"@ {
        r = 4;
    } else if k == ComponentKind::Infrastructure && name == "Infrastructure"@ {
        r = 5;
    } else if k == ComponentKind::Test && name == "Tests"@ {
        r = 6;
    } else if k == ComponentKind::Config && name == "Configuration"@ {
        r = 7;
    } else if k == ComponentKind::Other && name == "Other"@ {
        r = 8;
    }
    assert(order[r].0 == k && order[r].1 == name);
    lemma_of_kind_facts(cs.take(i), k);
    lemma_of_kind_prefix(cs, k, i + 1);
    assert(cs.take(i + 1).drop_last() =~= cs.take(i));
    let before = of_kind(cs.take(i), k);
    assert(of_kind(cs.take(i + 1), k) == before.push(cs[i]));
    let members = of_kind(cs, k);
    assert(of_kind(cs.take(i + 1), k)[before.len() as int] == cs[i]);
    assert(members[before.len() as int] == cs[i]);
    lemma_layers_for_has(order, cs, r);
    let q = choose|q: int|
        0 <= q < layers_for(order, cs).len() && #[trigger] layers_for(order, cs)[q] == (
            order[r].1,
            order[r].1 + " components detected by structure analysis"@,
            first_at_most(of_kind(cs, order[r].0), 50),
        );
    assert(first_at_most(members, 50)[before.len() as int] == cs[i]);
    assert(layers_for(order, cs)[q].0 == name);
}

/// A layer holds only components of its kind, all of them scanned ones, and at most fifty.
pub proof fn law_layer_members_share_kind(cs: Seq<ComponentValue>, q: int, t: int, k: ComponentKind, name: Seq<char>)
    requires
        0 <= q < layers_for(layer_order(), cs).len(),
        layers_for(layer_order(), cs)[q].0 == name,
        (k == ComponentKind::Frontend && name == "Frontend"@) ||
            (k == ComponentKind::Backend && name == "Backend"@) ||
            (k == ComponentKind::Api && name == "API"@) ||
            (k == ComponentKind::Database && name == "Database"@) ||
            (k == ComponentKind::Shared && name == "Shared"@) ||
            (k == ComponentKind::Infrastructure && name == "Infrastructure"@) ||
            (k == ComponentKind::Test && name == "Tests"@) ||
            (k == ComponentKind::Config && name == "Configuration"@) ||
            (k == ComponentKind::Other && name == "Other"@),
        0 <= t < layers_for(layer_order(), cs)[q].2.len(),
    ensures
        layers_for(layer_order(), cs)[q].2[t].2 == k,
        cs.contains(layers_for(layer_order(), cs)[q].2[t]),
        layers_for(layer_order(), cs)[q].2.len() <= 50,
{
    let order = layer_order();
    lemma_layers_for_entries(order, cs, q);
    let r = choose|r: int|
        0 <= r < order.len() && #[trigger] order[r] == order[r] && layers_for(order, cs)[q] == (
            order[r].1,
            order[r].1 + " components detected by structure analysis"@,
            first_at_most(of_kind(cs, order[r].0), 50),
        );
    reveal_strlit("Frontend");
    reveal_strlit("Backend");
    reveal_strlit("API");
    reveal_strlit("Database");
    reveal_strlit("Shared");
    reveal_strlit("Infrastructure");
    reveal_strlit("Tests");
    reveal_strlit("Configuration");
    reveal_strlit("Other");
    assert(order[r].0 == k) by {
        if order[r].1 == name {
            assert(order[r].1.len() == name.len());
            if name.len() > 0 {
                assert(order[r].1[0] == name[0]);
            }
        }
    }
    lemma_of_kind_facts(cs, k);
    assert(layers_for(order, cs)[q].2[t] == of_kind(cs, k)[t]);
}

/// Keeps at most `max` components.
pub fn truncate_components(components: Vec<ArchitectureComponent>, max: usize) -> (r: Vec<ArchitectureComponent>)
    ensures
        r@ == first_at_most(components@, max as nat),
{
    let mut components = components;
    if components.len() > max {
        components.truncate(max);
    }
    components
}

fn dup_component(c: &ArchitectureComponent) -> (r: ArchitectureComponent)
    ensures
        component_value(r) == component_value(*c),
{
    ArchitectureComponent { name: c.name.clone(), path: c.path.clone(), kind: c.kind, description: c.description.clone() }
}

fn members_of(cs: &Vec<ArchitectureComponent>, k: ComponentKind) -> (r: Vec<ArchitectureComponent>)
    ensures
        r@.map_values(|c: ArchitectureComponent| component_value(c)) == of_kind(
            cs@.map_values(|c: ArchitectureComponent| component_value(c)),
            k,
        ),
{
    let ghost vs = cs@.map_values(|c: ArchitectureComponent| component_value(c));
    let mut out: Vec<ArchitectureComponent> = Vec::new();
    let mut i: usize = 0;
    while i < cs.len()
        invariant
            i <= cs@.len(),
            vs == cs@.map_values(|c: ArchitectureComponent| component_value(c)),
            out@.map_values(|c: ArchitectureComponent| component_value(c)) == of_kind(vs.take(i as int), k),
        decreases cs@.len() - i,
    {
        let ghost prev = out@.map_values(|c: ArchitectureComponent| component_value(c));
        assert(vs.take(i + 1).drop_last() =~= vs.take(i as int));
        assert(vs.take(i + 1).last() == component_value(cs@[i as int]));
        if cs[i].kind == k {
            out.push(dup_component(&cs[i]));
            assert(out@.map_values(|c: ArchitectureComponent| component_value(c)) =~= prev.push(vs[i as int]));
        }
        i = i + 1;
    }
    assert(vs.take(vs.len() as int) =~= vs);
    out
}

/// Groups scanned files into architecture layers: each file becomes a component
/// named by its stem, at its root-relative path, of the kind its path suggests;
/// non-empty kinds become layers in a fixed order, each keeping its first 50 components.
pub fn infer_layers(project_root: &str, file_paths: &Vec<String>) -> (r: Vec<ArchitectureLayer>)
    ensures
        r@.map_values(|l: ArchitectureLayer| layer_value(l)) == layers_for(
            layer_order(),
            text::texts(file_paths@).map_values(|p: Seq<char>| component_for(project_root@, p)),
        ),
{
    let ghost want = text::texts(file_paths@).map_values(|p: Seq<char>| component_for(project_root@, p));
    let mut comps: Vec<ArchitectureComponent> = Vec::new();
    let mut i: usize = 0;
    while i < file_paths.len()
        invariant
            i <= file_paths@.len(),
            comps@.len() == i,
            forall|k: int| 0 <= k < i ==> #[trigger] component_value(comps@[k]) == component_for(project_root@, file_paths@[k]@),
        decreases file_paths@.len() - i,
    {
        comps.push(make_component(project_root, file_paths[i].as_str()));
        i = i + 1;
    }
    let ghost cvs = comps@.map_values(|c: ArchitectureComponent| component_value(c));
    assert(cvs =~= want);
    let kinds = vec![
        (ComponentKind::Frontend, "Frontend"),
        (ComponentKind::Backend, "Backend"),
        (ComponentKind::Api, "API"),
        (ComponentKind::Database, "Database"),
        (ComponentKind::Shared, "Shared"),
        (ComponentKind::Infrastructure, "Infrastructure"),
        (ComponentKind::Test, "Tests"),
        (ComponentKind::Config, "Configuration"),
        (ComponentKind::Other, "Other"),
    ];
    let ghost order = kinds@.map_values(|p: (ComponentKind, &str)| (p.0, p.1@));
    assert(order =~= layer_order());
    let mut layers: Vec<ArchitectureLayer> = Vec::new();
    let mut j: usize = 0;
    while j < kinds.len()
        invariant
            j <= kinds@.len(),
            order == kinds@.map_values(|p: (ComponentKind, &str)| (p.0, p.1@)),
            cvs == comps@.map_values(|c: ArchitectureComponent| component_value(c)),
            layers@.map_values(|l: ArchitectureLayer| layer_value(l)) == layers_for(order.take(j as int), cvs),
        decreases kinds@.len() - j,
    {
        let ghost prev = layers@.map_values(|l: ArchitectureLayer| layer_value(l));
        assert(order.take(j + 1).drop_last() =~= order.take(j as int));
        let (k, name) = kinds[j];
        let members = members_of(&comps, k);
        if members.len() > 0 {
            let mut description = name.to_owned();
            append_str(&mut description, " components detected by structure analysis");
            let kept = truncate_components(members, 50);
            let layer = ArchitectureLayer { name: name.to_owned(), description, components: kept };
            layers.push(layer);
            assert(layers@.map_values(|l: ArchitectureLayer| layer_value(l)) =~= prev.push(layer_value(layer)));
            assert(layer_value(layer).2 =~= first_at_most(of_kind(cvs, k), 50));
        }
        j = j + 1;
    }
    assert(order.take(order.len() as int) =~= order);
    layers
}

} // verus!
