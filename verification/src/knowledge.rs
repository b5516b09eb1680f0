//! The knowledge graph: files, layers, packages, decisions and tasks, and what
//! a file is connected to.

use crate::deps::{self, opt_text};
use crate::ids::fresh_id;
use crate::models::{
    self, Architecture, ArchitectureComponent, ArchitectureLayer, ComponentKind, Decision,
    DecisionStatus, DependencyInfo, EdgeRelation, KnowledgeEdge, KnowledgeGraph, KnowledgeNode,
    NodeKind, NodeMetadata, Task, TaskPriority, TaskStatus,
};
use crate::structure;
use crate::text::{self, dup_opt_string, dup_strings, str_contains, to_lower, trim_text, truncate_chars};
use vstd::prelude::*;

verus! {

/// Node metadata as a value.
pub enum MetaValue {
    Layer(nat),
    Component(ComponentKind),
    Package(Option<Seq<char>>, Seq<char>),
    DecisionInfo(Seq<Seq<char>>, DecisionStatus),
    TaskInfo(TaskStatus, TaskPriority),
    Empty,
}

/// The view of node metadata.
pub open spec fn meta_value(m: NodeMetadata) -> MetaValue {
    match m {
        NodeMetadata::Layer { component_count } => MetaValue::Layer(component_count as nat),
        NodeMetadata::Component { component_kind } => MetaValue::Component(component_kind),
        NodeMetadata::Package { version, section } => MetaValue::Package(opt_text(version), section@),
        NodeMetadata::DecisionInfo { tags, decision_status } => MetaValue::DecisionInfo(text::texts(tags@), decision_status),
        NodeMetadata::TaskInfo { task_status, priority } => MetaValue::TaskInfo(task_status, priority),
        NodeMetadata::Empty => MetaValue::Empty,
    }
}

/// A node apart from its identifier: kind, name, path, metadata.
pub type NodeShape = (NodeKind, Seq<char>, Option<Seq<char>>, MetaValue);

/// The shape of a node.
pub open spec fn node_shape(n: KnowledgeNode) -> NodeShape {
    (n.kind, n.name@, opt_text(n.path), meta_value(n.metadata))
}

/// The shapes of nodes.
pub open spec fn node_shapes(ns: Seq<KnowledgeNode>) -> Seq<NodeShape> {
    ns.map_values(|n: KnowledgeNode| node_shape(n))
}

// ─── Architecture ────────────────────────────────────────────────────────────

/// The file node a component becomes.
pub open spec fn component_shape(c: ArchitectureComponent) -> NodeShape {
    (NodeKind::File, c.name@, Some(c.path@), MetaValue::Component(c.kind))
}

/// The nodes a layer becomes: a module node, then one file node per component.
pub open spec fn layer_shapes(l: ArchitectureLayer) -> Seq<NodeShape> {
    seq![(NodeKind::Module, l.name@, None, MetaValue::Layer(l.components@.len()))]
        + l.components@.map_values(|c: ArchitectureComponent| component_shape(c))
}

/// The nodes the layers become, layer after layer.
pub open spec fn layers_shapes(ls: Seq<ArchitectureLayer>) -> Seq<NodeShape>
    decreases ls.len(),
{
    if ls.len() == 0 {
        Seq::empty()
    } else {
        layers_shapes(ls.drop_last()) + layer_shapes(ls.last())
    }
}

/// The package node a dependency becomes.
pub open spec fn package_shape(d: DependencyInfo) -> NodeShape {
    (NodeKind::Package, d.name@, Some(d.source_file@), MetaValue::Package(opt_text(d.version), d.kind@))
}

/// The nodes an architecture becomes: its layers, then its packages.
pub open spec fn architecture_shapes(arch: Architecture) -> Seq<NodeShape> {
    layers_shapes(arch.layers@) + arch.dependencies@.map_values(|d: DependencyInfo| package_shape(d))
}

/// Number of components in the layers.
pub open spec fn component_total(ls: Seq<ArchitectureLayer>) -> nat
    decreases ls.len(),
{
    if ls.len() == 0 {
        0
    } else {
        component_total(ls.drop_last()) + ls.last().components@.len()
    }
}

/// The `owns` edges of a layer whose module node is `nodes[base]`: one to each
/// of its file nodes, which follow it.
pub open spec fn layer_edges_ok(nodes: Seq<KnowledgeNode>, base: int, edges: Seq<KnowledgeEdge>, ebase: int, count: nat) -> bool {
    forall|j: int|
        0 <= j < count ==> {
            let e = #[trigger] edges[ebase + j];
            &&& e.from == nodes[base].id
            &&& e.to == nodes[base + 1 + j].id
            &&& e.relation == EdgeRelation::Owns
            &&& e.weight_percent == 100
        }
}

/// The edges of all layers: each layer's module node owns its file nodes.
pub open spec fn layers_edges_ok(nodes: Seq<KnowledgeNode>, edges: Seq<KnowledgeEdge>, ls: Seq<ArchitectureLayer>) -> bool
    decreases ls.len(),
{
    if ls.len() == 0 {
        true
    } else {
        let prev = ls.drop_last();
        layers_edges_ok(nodes, edges, prev) && layer_edges_ok(
            nodes,
            layers_shapes(prev).len() as int,
            edges,
            component_total(prev) as int,
            ls.last().components@.len(),
        )
    }
}

proof fn lemma_layers_edges_prefix(
    nodes: Seq<KnowledgeNode>,
    more_nodes: Seq<KnowledgeNode>,
    edges: Seq<KnowledgeEdge>,
    more_edges: Seq<KnowledgeEdge>,
    ls: Seq<ArchitectureLayer>,
)
    requires
        layers_edges_ok(nodes, edges, ls),
        nodes.len() >= layers_shapes(ls).len(),
        edges.len() >= component_total(ls),
    ensures
        layers_edges_ok(nodes + more_nodes, edges + more_edges, ls),
    decreases ls.len(),
{
    if ls.len() > 0 {
        let prev = ls.drop_last();
        lemma_shapes_len(ls);
        lemma_layers_edges_prefix(nodes, more_nodes, edges, more_edges, prev);
        let base = layers_shapes(prev).len() as int;
        let ebase = component_total(prev) as int;
        let count = ls.last().components@.len();
        assert forall|j: int| 0 <= j < count implies {
            let e = #[trigger] (edges + more_edges)[ebase + j];
            &&& e.from == (nodes + more_nodes)[base].id
            &&& e.to == (nodes + more_nodes)[base + 1 + j].id
            &&& e.relation == EdgeRelation::Owns
            &&& e.weight_percent == 100
        } by {
            assert(edges[ebase + j].from == nodes[base].id);
        }
    }
}

proof fn lemma_shapes_len(ls: Seq<ArchitectureLayer>)
    ensures
        layers_shapes(ls).len() == ls.len() + component_total(ls),
    decreases ls.len(),
{
    if ls.len() > 0 {
        lemma_shapes_len(ls.drop_last());
    }
}

fn component_node(c: &ArchitectureComponent) -> (n: KnowledgeNode)
    ensures
        node_shape(n) == component_shape(*c),
{
    KnowledgeNode {
        id: fresh_id(),
        kind: NodeKind::File,
        name: c.name.clone(),
        path: Some(c.path.clone()),
        metadata: NodeMetadata::Component { component_kind: c.kind },
    }
}

/// Adds a layer's nodes and edges: a module node owning one file node per component.
fn ingest_layer(graph: &mut KnowledgeGraph, l: &ArchitectureLayer)
    ensures
        final(graph).nodes@ =~= old(graph).nodes@ + final(graph).nodes@.skip(old(graph).nodes@.len() as int),
        final(graph).edges@ =~= old(graph).edges@ + final(graph).edges@.skip(old(graph).edges@.len() as int),
        node_shapes(final(graph).nodes@.skip(old(graph).nodes@.len() as int)) == layer_shapes(*l),
        final(graph).edges@.len() == old(graph).edges@.len() + l.components@.len(),
        layer_edges_ok(final(graph).nodes@, old(graph).nodes@.len() as int, final(graph).edges@, old(graph).edges@.len() as int, l.components@.len()),
{
    let ghost n0 = graph.nodes@.len();
    let ghost e0 = graph.edges@.len();
    let ghost nodes0 = graph.nodes@;
    let ghost edges0 = graph.edges@;
    let layer_id = fresh_id();
    graph.nodes.push(KnowledgeNode {
        id: layer_id,
        kind: NodeKind::Module,
        name: l.name.clone(),
        path: None,
        metadata: NodeMetadata::Layer { component_count: l.components.len() },
    });
    let ghost shapes = layer_shapes(*l);
    let mut i: usize = 0;
    while i < l.components.len()
        invariant
            i <= l.components@.len(),
            graph.nodes@.len() == n0 + 1 + i,
            graph.edges@.len() == e0 + i,
            graph.nodes@.take(n0 as int) == nodes0,
            graph.edges@.take(e0 as int) == edges0,
            graph.nodes@[n0 as int].id == layer_id,
            shapes == layer_shapes(*l),
            node_shapes(graph.nodes@.skip(n0 as int)) == shapes.take(1 + i),
            layer_edges_ok(graph.nodes@, n0 as int, graph.edges@, e0 as int, i as nat),
        decreases l.components@.len() - i,
    {
        let ghost nodes_before = graph.nodes@;
        let ghost edges_before = graph.edges@;
        let node = component_node(&l.components[i]);
        let file_id = node.id;
        graph.nodes.push(node);
        graph.edges.push(KnowledgeEdge {
            id: fresh_id(),
            from: layer_id,
            to: file_id,
            relation: EdgeRelation::Owns,
            weight_percent: 100,
        });
        assert(graph.nodes@.take(n0 as int) =~= nodes0) by {
            assert(nodes_before.take(n0 as int) == nodes0);
        }
        assert(graph.edges@.take(e0 as int) =~= edges0) by {
            assert(edges_before.take(e0 as int) == edges0);
        }
        assert(node_shapes(graph.nodes@.skip(n0 as int)) =~= shapes.take(1 + i + 1)) by {
            assert(node_shapes(nodes_before.skip(n0 as int)) == shapes.take(1 + i));
            assert(graph.nodes@.skip(n0 as int) =~= nodes_before.skip(n0 as int).push(node));
            assert(shapes[1 + i] == component_shape(l.components@[i as int]));
        }
        assert forall|j: int| 0 <= j < i + 1 implies {
            let e = #[trigger] graph.edges@[e0 + j];
            &&& e.from == graph.nodes@[n0 as int].id
            &&& e.to == graph.nodes@[n0 + 1 + j].id
            &&& e.relation == EdgeRelation::Owns
            &&& e.weight_percent == 100
        } by {
            if j < i {
                assert(edges_before[e0 + j] == graph.edges@[e0 + j]);
                assert(nodes_before[n0 + 1 + j] == graph.nodes@[n0 + 1 + j]);
                assert(nodes_before[n0 as int] == graph.nodes@[n0 as int]);
            }
        }
        i = i + 1;
    }
    assert(shapes.take(1 + l.components@.len() as int) =~= shapes);
    assert(graph.nodes@ =~= nodes0 + graph.nodes@.skip(n0 as int));
    assert(graph.edges@ =~= edges0 + graph.edges@.skip(e0 as int));
}


fn package_node(d: &DependencyInfo) -> (n: KnowledgeNode)
    ensures
        node_shape(n) == package_shape(*d),
{
    KnowledgeNode {
        id: fresh_id(),
        kind: NodeKind::Package,
        name: d.name.clone(),
        path: Some(d.source_file.clone()),
        metadata: NodeMetadata::Package { version: dup_opt_string(&d.version), section: d.kind.clone() },
    }
}

/// Adds the nodes and edges of an architecture: for each layer a module node
/// owning a file node per component, then a package node per dependency.
/// Identifiers are fresh random UUIDs.
pub fn ingest_architecture(graph: &mut KnowledgeGraph, arch: &Architecture)
    ensures
        final(graph).nodes@ == old(graph).nodes@ + final(graph).nodes@.skip(old(graph).nodes@.len() as int),
        final(graph).edges@ == old(graph).edges@ + final(graph).edges@.skip(old(graph).edges@.len() as int),
        node_shapes(final(graph).nodes@.skip(old(graph).nodes@.len() as int)) == architecture_shapes(*arch),
        final(graph).edges@.len() == old(graph).edges@.len() + component_total(arch.layers@),
        layers_edges_ok(
            final(graph).nodes@.skip(old(graph).nodes@.len() as int),
            final(graph).edges@.skip(old(graph).edges@.len() as int),
            arch.layers@,
        ),
{
    let ghost n0 = graph.nodes@.len();
    let ghost e0 = graph.edges@.len();
    let ghost nodes0 = graph.nodes@;
    let ghost edges0 = graph.edges@;
    let mut i: usize = 0;
    while i < arch.layers.len()
        invariant
            i <= arch.layers@.len(),
            graph.nodes@ == nodes0 + graph.nodes@.skip(n0 as int),
            graph.edges@ == edges0 + graph.edges@.skip(e0 as int),
            n0 == nodes0.len(),
            e0 == edges0.len(),
            node_shapes(graph.nodes@.skip(n0 as int)) == layers_shapes(arch.layers@.take(i as int)),
            graph.edges@.len() == e0 + component_total(arch.layers@.take(i as int)),
            layers_edges_ok(graph.nodes@.skip(n0 as int), graph.edges@.skip(e0 as int), arch.layers@.take(i as int)),
        decreases arch.layers@.len() - i,
    {
        let ghost nodes_b = graph.nodes@;
        let ghost edges_b = graph.edges@;
        let ghost prev = arch.layers@.take(i as int);
        let l = &arch.layers[i];
        ingest_layer(graph, l);
        proof {
            let nn = graph.nodes@.skip(n0 as int);
            let ne = graph.edges@.skip(e0 as int);
            let added = graph.nodes@.skip(nodes_b.len() as int);
            let added_e = graph.edges@.skip(edges_b.len() as int);
            assert(arch.layers@.take(i + 1).drop_last() =~= prev);
            assert(arch.layers@.take(i + 1).last() == *l);
            lemma_shapes_len(prev);
            assert(nn =~= nodes_b.skip(n0 as int) + added);
            assert(ne =~= edges_b.skip(e0 as int) + added_e);
            assert(node_shapes(nn) =~= node_shapes(nodes_b.skip(n0 as int)) + node_shapes(added));
            lemma_layers_edges_prefix(nodes_b.skip(n0 as int), added, edges_b.skip(e0 as int), added_e, prev);
            let base = layers_shapes(prev).len() as int;
            let ebase = component_total(prev) as int;
            assert(nodes_b.len() == n0 + base);
            assert forall|j: int| 0 <= j < l.components@.len() implies {
                let e = #[trigger] ne[ebase + j];
                &&& e.from == nn[base].id
                &&& e.to == nn[base + 1 + j].id
                &&& e.relation == EdgeRelation::Owns
                &&& e.weight_percent == 100
            } by {
                assert(ne[ebase + j] == graph.edges@[edges_b.len() + j]);
                assert(nn[base] == graph.nodes@[nodes_b.len() as int]);
                assert(nn[base + 1 + j] == graph.nodes@[nodes_b.len() + 1 + j]);
            }
            assert(graph.nodes@ =~= nodes0 + nn);
            assert(graph.edges@ =~= edges0 + ne);
        }
        i = i + 1;
    }
    assert(arch.layers@.take(arch.layers@.len() as int) =~= arch.layers@);
    let ghost nodes_l = graph.nodes@;
    let ghost lshapes = layers_shapes(arch.layers@);
    let mut k: usize = 0;
    while k < arch.dependencies.len()
        invariant
            k <= arch.dependencies@.len(),
            n0 == nodes0.len(),
            graph.nodes@ == nodes_l + graph.nodes@.skip(nodes_l.len() as int),
            nodes_l == nodes0 + nodes_l.skip(n0 as int),
            nodes_l.len() >= n0,
            node_shapes(nodes_l.skip(n0 as int)) == lshapes,
            node_shapes(graph.nodes@.skip(nodes_l.len() as int)) == arch.dependencies@.take(k as int).map_values(
                |d: DependencyInfo| package_shape(d),
            ),
            graph.edges@ == edges0 + graph.edges@.skip(e0 as int),
            graph.edges@.len() == e0 + component_total(arch.layers@),
            layers_edges_ok(nodes_l.skip(n0 as int), graph.edges@.skip(e0 as int), arch.layers@),
        decreases arch.dependencies@.len() - k,
    {
        let ghost before = graph.nodes@;
        let node = package_node(&arch.dependencies[k]);
        graph.nodes.push(node);
        assert(graph.nodes@.skip(nodes_l.len() as int) =~= before.skip(nodes_l.len() as int).push(node));
        assert(node_shapes(before.skip(nodes_l.len() as int).push(node)) =~= node_shapes(before.skip(nodes_l.len() as int)).push(node_shape(node)));
        assert(arch.dependencies@.take(k + 1).map_values(|d: DependencyInfo| package_shape(d)) =~= arch.dependencies@.take(k as int).map_values(|d: DependencyInfo| package_shape(d)).push(package_shape(arch.dependencies@[k as int])));
        assert(node_shapes(graph.nodes@.skip(nodes_l.len() as int)) =~= arch.dependencies@.take(k + 1).map_values(
            |d: DependencyInfo| package_shape(d),
        ));
        assert(graph.nodes@ =~= nodes_l + graph.nodes@.skip(nodes_l.len() as int));
        k = k + 1;
    }
    proof {
        let tail = graph.nodes@.skip(nodes_l.len() as int);
        assert(arch.dependencies@.take(arch.dependencies@.len() as int) =~= arch.dependencies@);
        assert(graph.nodes@.skip(n0 as int) =~= nodes_l.skip(n0 as int) + tail);
        assert(node_shapes(graph.nodes@.skip(n0 as int)) =~= node_shapes(nodes_l.skip(n0 as int)) + node_shapes(tail));
        lemma_shapes_len(arch.layers@);
        lemma_layers_edges_prefix(nodes_l.skip(n0 as int), tail, graph.edges@.skip(e0 as int), Seq::empty(), arch.layers@);
        assert(graph.edges@.skip(e0 as int) + Seq::<KnowledgeEdge>::empty() =~= graph.edges@.skip(e0 as int));
        assert(graph.nodes@ =~= nodes0 + graph.nodes@.skip(n0 as int));
    }
}


// ─── Decisions and tasks ─────────────────────────────────────────────────────

/// The node a decision becomes (its identifier is the decision's).
pub open spec fn decision_shape(d: Decision) -> NodeShape {
    (NodeKind::Decision, text::truncated_text(d.content@, 60), None, MetaValue::DecisionInfo(text::texts(d.tags@), d.status))
}

/// Adds the node of a decision, named by its text cut to 60 characters.
pub fn add_decision_node(graph: &mut KnowledgeGraph, d: &Decision)
    ensures
        final(graph).nodes@.len() == old(graph).nodes@.len() + 1,
        final(graph).nodes@.take(old(graph).nodes@.len() as int) == old(graph).nodes@,
        final(graph).nodes@.last().id == d.id,
        node_shape(final(graph).nodes@.last()) == decision_shape(*d),
        final(graph).edges@ == old(graph).edges@,
{
    let ghost before = graph.nodes@;
    let tags = dup_strings(&d.tags);
    graph.nodes.push(KnowledgeNode {
        id: d.id,
        kind: NodeKind::Decision,
        name: truncate_chars(d.content.as_str(), 60),
        path: None,
        metadata: NodeMetadata::DecisionInfo { tags, decision_status: d.status },
    });
    assert(graph.nodes@.take(before.len() as int) =~= before);
}

/// The nodes a task becomes: the task node, then a file node per related file.
pub open spec fn task_shapes(t: Task) -> Seq<NodeShape> {
    seq![(NodeKind::Task, t.title@, None, MetaValue::TaskInfo(t.status, t.priority))] + text::texts(t.related_files@).map_values(
        |f: Seq<char>| (NodeKind::File, structure::leaf_name(f), Some(f), MetaValue::Empty),
    )
}

/// The `related_to` edges of a task whose node is `nodes[base]`: one to each of
/// its file nodes, which follow it.
pub open spec fn task_edges_ok(nodes: Seq<KnowledgeNode>, base: int, edges: Seq<KnowledgeEdge>, ebase: int, count: nat) -> bool {
    forall|j: int|
        0 <= j < count ==> {
            let e = #[trigger] edges[ebase + j];
            &&& e.from == nodes[base].id
            &&& e.to == nodes[base + 1 + j].id
            &&& e.relation == EdgeRelation::RelatedTo
            &&& e.weight_percent == 80
        }
}

/// Adds a task node (with the task's identifier) and, for each related file, a
/// file node named by the path's last segment, related to the task.
pub fn add_task_node(graph: &mut KnowledgeGraph, t: &Task)
    ensures
        final(graph).nodes@ == old(graph).nodes@ + final(graph).nodes@.skip(old(graph).nodes@.len() as int),
        final(graph).edges@ == old(graph).edges@ + final(graph).edges@.skip(old(graph).edges@.len() as int),
        node_shapes(final(graph).nodes@.skip(old(graph).nodes@.len() as int)) == task_shapes(*t),
        final(graph).nodes@[old(graph).nodes@.len() as int].id == t.id,
        final(graph).edges@.len() == old(graph).edges@.len() + t.related_files@.len(),
        task_edges_ok(final(graph).nodes@, old(graph).nodes@.len() as int, final(graph).edges@, old(graph).edges@.len() as int, t.related_files@.len()),
{
    let ghost n0 = graph.nodes@.len();
    let ghost e0 = graph.edges@.len();
    let ghost nodes0 = graph.nodes@;
    let ghost edges0 = graph.edges@;
    graph.nodes.push(KnowledgeNode {
        id: t.id,
        kind: NodeKind::Task,
        name: t.title.clone(),
        path: None,
        metadata: NodeMetadata::TaskInfo { task_status: t.status, priority: t.priority },
    });
    let ghost shapes = task_shapes(*t);
    let mut i: usize = 0;
    while i < t.related_files.len()
        invariant
            i <= t.related_files@.len(),
            graph.nodes@.len() == n0 + 1 + i,
            graph.edges@.len() == e0 + i,
            graph.nodes@.take(n0 as int) == nodes0,
            graph.edges@.take(e0 as int) == edges0,
            graph.nodes@[n0 as int].id == t.id,
            shapes == task_shapes(*t),
            node_shapes(graph.nodes@.skip(n0 as int)) == shapes.take(1 + i),
            task_edges_ok(graph.nodes@, n0 as int, graph.edges@, e0 as int, i as nat),
        decreases t.related_files@.len() - i,
    {
        let ghost nodes_before = graph.nodes@;
        let ghost edges_before = graph.edges@;
        let file = &t.related_files[i];
        let node = KnowledgeNode {
            id: fresh_id(),
            kind: NodeKind::File,
            name: structure::leaf_of(file.as_str()),
            path: Some(file.clone()),
            metadata: NodeMetadata::Empty,
        };
        let file_id = node.id;
        graph.nodes.push(node);
        graph.edges.push(KnowledgeEdge {
            id: fresh_id(),
            from: t.id,
            to: file_id,
            relation: EdgeRelation::RelatedTo,
            weight_percent: 80,
        });
        assert(graph.nodes@.take(n0 as int) =~= nodes0) by {
            assert(nodes_before.take(n0 as int) == nodes0);
        }
        assert(graph.edges@.take(e0 as int) =~= edges0) by {
            assert(edges_before.take(e0 as int) == edges0);
        }
        assert(node_shapes(graph.nodes@.skip(n0 as int)) =~= shapes.take(1 + i + 1)) by {
            assert(node_shapes(nodes_before.skip(n0 as int)) == shapes.take(1 + i));
            assert(graph.nodes@.skip(n0 as int) =~= nodes_before.skip(n0 as int).push(node));
            assert(shapes[1 + i] == (NodeKind::File, structure::leaf_name(file@), Some(file@), MetaValue::Empty));
        }
        assert forall|j: int| 0 <= j < i + 1 implies {
            let e = #[trigger] graph.edges@[e0 + j];
            &&& e.from == graph.nodes@[n0 as int].id
            &&& e.to == graph.nodes@[n0 + 1 + j].id
            &&& e.relation == EdgeRelation::RelatedTo
            &&& e.weight_percent == 80
        } by {
            if j < i {
                assert(edges_before[e0 + j] == graph.edges@[e0 + j]);
                assert(nodes_before[n0 + 1 + j] == graph.nodes@[n0 + 1 + j]);
                assert(nodes_before[n0 as int] == graph.nodes@[n0 as int]);
            }
        }
        i = i + 1;
    }
    assert(shapes.take(1 + t.related_files@.len() as int) =~= shapes);
    assert(graph.nodes@ =~= nodes0 + graph.nodes@.skip(n0 as int));
    assert(graph.edges@ =~= edges0 + graph.edges@.skip(e0 as int));
}


/// The nodes the tasks become, task after task.
pub open spec fn tasks_shapes(ts: Seq<Task>) -> Seq<NodeShape>
    decreases ts.len(),
{
    if ts.len() == 0 {
        Seq::empty()
    } else {
        tasks_shapes(ts.drop_last()) + task_shapes(ts.last())
    }
}

/// Number of related files over the tasks.
pub open spec fn related_total(ts: Seq<Task>) -> nat
    decreases ts.len(),
{
    if ts.len() == 0 {
        0
    } else {
        related_total(ts.drop_last()) + ts.last().related_files@.len()
    }
}

/// The task nodes (starting at `nodes[nbase]`) carry the tasks' identifiers and
/// relate to their file nodes by the edges starting at `edges[ebase]`.
pub open spec fn tasks_edges_ok(nodes: Seq<KnowledgeNode>, edges: Seq<KnowledgeEdge>, nbase: int, ebase: int, ts: Seq<Task>) -> bool
    decreases ts.len(),
{
    if ts.len() == 0 {
        true
    } else {
        let prev = ts.drop_last();
        let base = nbase + tasks_shapes(prev).len();
        &&& tasks_edges_ok(nodes, edges, nbase, ebase, prev)
        &&& nodes[base].id == ts.last().id
        &&& task_edges_ok(nodes, base, edges, ebase + related_total(prev), ts.last().related_files@.len())
    }
}

proof fn lemma_task_shapes_len(ts: Seq<Task>)
    ensures
        tasks_shapes(ts).len() == ts.len() + related_total(ts),
    decreases ts.len(),
{
    if ts.len() > 0 {
        lemma_task_shapes_len(ts.drop_last());
    }
}

proof fn lemma_tasks_edges_extend(
    nodes: Seq<KnowledgeNode>,
    nodes2: Seq<KnowledgeNode>,
    edges: Seq<KnowledgeEdge>,
    edges2: Seq<KnowledgeEdge>,
    nbase: int,
    ebase: int,
    ts: Seq<Task>,
)
    requires
        tasks_edges_ok(nodes, edges, nbase, ebase, ts),
        0 <= nbase,
        0 <= ebase,
        nbase + tasks_shapes(ts).len() <= nodes.len() <= nodes2.len(),
        ebase + related_total(ts) <= edges.len() <= edges2.len(),
        nodes2.take(nodes.len() as int) == nodes,
        edges2.take(edges.len() as int) == edges,
    ensures
        tasks_edges_ok(nodes2, edges2, nbase, ebase, ts),
    decreases ts.len(),
{
    if ts.len() > 0 {
        let prev = ts.drop_last();
        lemma_task_shapes_len(ts);
        lemma_task_shapes_len(prev);
        lemma_tasks_edges_extend(nodes, nodes2, edges, edges2, nbase, ebase, prev);
        let base = nbase + tasks_shapes(prev).len();
        let eb = ebase + related_total(prev);
        assert(nodes2[base] == nodes.take(nodes.len() as int)[base]);
        assert forall|j: int| 0 <= j < ts.last().related_files@.len() implies {
            let e = #[trigger] edges2[eb + j];
            &&& e.from == nodes2[base].id
            &&& e.to == nodes2[base + 1 + j].id
            &&& e.relation == EdgeRelation::RelatedTo
            &&& e.weight_percent == 80
        } by {
            assert(edges2[eb + j] == edges.take(edges.len() as int)[eb + j]);
            assert(nodes2[base + 1 + j] == nodes.take(nodes.len() as int)[base + 1 + j]);
            assert(edges[eb + j].from == nodes[base].id);
        }
    }
}

proof fn lemma_layers_edges_extend(
    nodes: Seq<KnowledgeNode>,
    nodes2: Seq<KnowledgeNode>,
    edges: Seq<KnowledgeEdge>,
    edges2: Seq<KnowledgeEdge>,
    ls: Seq<ArchitectureLayer>,
)
    requires
        layers_edges_ok(nodes, edges, ls),
        layers_shapes(ls).len() <= nodes.len() <= nodes2.len(),
        component_total(ls) <= edges.len() <= edges2.len(),
        nodes2.take(nodes.len() as int) == nodes,
        edges2.take(edges.len() as int) == edges,
    ensures
        layers_edges_ok(nodes2, edges2, ls),
{
    lemma_layers_edges_prefix(nodes, nodes2.skip(nodes.len() as int), edges, edges2.skip(edges.len() as int), ls);
    assert(nodes + nodes2.skip(nodes.len() as int) =~= nodes2);
    assert(edges + edges2.skip(edges.len() as int) =~= edges2);
}

/// Some node of `nodes` has identifier `id`.
pub open spec fn has_node(nodes: Seq<KnowledgeNode>, id: u128) -> bool {
    exists|n: int| 0 <= n < nodes.len() && (#[trigger] nodes[n]).id == id
}

/// Every edge of the graph connects two of its nodes.
pub open spec fn edges_connect_nodes(g: KnowledgeGraph) -> bool {
    forall|k: int|
        0 <= k < g.edges@.len() ==> has_node(g.nodes@, (#[trigger] g.edges@[k]).from) && has_node(
            g.nodes@,
            g.edges@[k].to,
        )
}

proof fn lemma_layer_edge_endpoints(nodes: Seq<KnowledgeNode>, edges: Seq<KnowledgeEdge>, ls: Seq<ArchitectureLayer>)
    requires
        layers_edges_ok(nodes, edges, ls),
        layers_shapes(ls).len() <= nodes.len(),
    ensures
        forall|k: int|
            0 <= k < component_total(ls) ==> has_node(nodes, (#[trigger] edges[k]).from) && has_node(
                nodes,
                edges[k].to,
            ),
    decreases ls.len(),
{
    if ls.len() > 0 {
        let prev = ls.drop_last();
        let base = layers_shapes(prev).len() as int;
        let ebase = component_total(prev) as int;
        assert(layers_shapes(ls).len() == base + 1 + ls.last().components@.len());
        lemma_layer_edge_endpoints(nodes, edges, prev);
        assert forall|k: int| 0 <= k < component_total(ls) implies has_node(nodes, (#[trigger] edges[k]).from)
            && has_node(nodes, edges[k].to) by {
            if k >= ebase {
                let j = k - ebase;
                assert(edges[ebase + j].from == nodes[base].id);
                assert(edges[ebase + j].to == nodes[base + 1 + j].id);
                assert(nodes[base].id == edges[k].from);
                assert(nodes[base + 1 + j].id == edges[k].to);
            }
        }
    }
}

proof fn lemma_task_edge_endpoints(
    nodes: Seq<KnowledgeNode>,
    edges: Seq<KnowledgeEdge>,
    nbase: int,
    ebase: int,
    ts: Seq<Task>,
)
    requires
        tasks_edges_ok(nodes, edges, nbase, ebase, ts),
        0 <= nbase,
        nbase + tasks_shapes(ts).len() <= nodes.len(),
    ensures
        forall|k: int|
            ebase <= k < ebase + related_total(ts) ==> has_node(nodes, (#[trigger] edges[k]).from) && has_node(
                nodes,
                edges[k].to,
            ),
    decreases ts.len(),
{
    if ts.len() > 0 {
        let prev = ts.drop_last();
        let base = nbase + tasks_shapes(prev).len();
        let eb = ebase + related_total(prev);
        assert(tasks_shapes(ts).len() == tasks_shapes(prev).len() + 1 + ts.last().related_files@.len());
        lemma_task_edge_endpoints(nodes, edges, nbase, ebase, prev);
        assert forall|k: int| ebase <= k < ebase + related_total(ts) implies has_node(
            nodes,
            (#[trigger] edges[k]).from,
        ) && has_node(nodes, edges[k].to) by {
            if k >= eb {
                let j = k - eb;
                assert(edges[eb + j].from == nodes[base].id);
                assert(edges[eb + j].to == nodes[base + 1 + j].id);
                assert(nodes[base].id == edges[k].from);
                assert(nodes[base + 1 + j].id == edges[k].to);
            }
        }
    }
}

/// Builds a fresh graph from an architecture, the decisions and the tasks.
pub fn build_graph(arch: &Architecture, decisions: &Vec<Decision>, tasks: &Vec<Task>) -> (g: KnowledgeGraph)
    ensures
        node_shapes(g.nodes@) == architecture_shapes(*arch) + decisions@.map_values(|d: Decision| decision_shape(d))
            + tasks_shapes(tasks@),
        g.edges@.len() == component_total(arch.layers@) + related_total(tasks@),
        layers_edges_ok(g.nodes@, g.edges@, arch.layers@),
        forall|k: int| 0 <= k < decisions@.len() ==> #[trigger] g.nodes@[architecture_shapes(*arch).len() + k].id == decisions@[k].id,
        tasks_edges_ok(
            g.nodes@,
            g.edges@,
            (architecture_shapes(*arch).len() + decisions@.len()) as int,
            component_total(arch.layers@) as int,
            tasks@,
        ),
        edges_connect_nodes(g),
{
    let mut g = KnowledgeGraph { nodes: Vec::new(), edges: Vec::new() };
    ingest_architecture(&mut g, arch);
    assert(g.nodes@.skip(0) =~= g.nodes@);
    assert(g.edges@.skip(0) =~= g.edges@);
    let ghost arch_nodes = g.nodes@;
    let ghost arch_edges = g.edges@;
    proof {
        lemma_shapes_len(arch.layers@);
    }
    let mut i: usize = 0;
    while i < decisions.len()
        invariant
            i <= decisions@.len(),
            g.edges@ == arch_edges,
            g.nodes@.len() == arch_nodes.len() + i,
            g.nodes@.take(arch_nodes.len() as int) == arch_nodes,
            node_shapes(arch_nodes) == architecture_shapes(*arch),
            node_shapes(g.nodes@.skip(arch_nodes.len() as int)) == decisions@.take(i as int).map_values(|d: Decision| decision_shape(d)),
            forall|k: int| 0 <= k < i ==> #[trigger] g.nodes@[arch_nodes.len() + k].id == decisions@[k].id,
        decreases decisions@.len() - i,
    {
        let ghost before = g.nodes@;
        add_decision_node(&mut g, &decisions[i]);
        assert(g.nodes@ =~= before.push(g.nodes@.last()));
        assert(g.nodes@.take(arch_nodes.len() as int) =~= arch_nodes) by {
            assert(before.take(arch_nodes.len() as int) == arch_nodes);
        }
        assert(g.nodes@.skip(arch_nodes.len() as int) =~= before.skip(arch_nodes.len() as int).push(g.nodes@.last()));
        assert(node_shapes(before.skip(arch_nodes.len() as int).push(g.nodes@.last())) =~= node_shapes(before.skip(arch_nodes.len() as int)).push(node_shape(g.nodes@.last())));
        assert(decisions@.take(i + 1).map_values(|d: Decision| decision_shape(d)) =~= decisions@.take(i as int).map_values(|d: Decision| decision_shape(d)).push(decision_shape(decisions@[i as int])));
        assert forall|k: int| 0 <= k < i + 1 implies #[trigger] g.nodes@[arch_nodes.len() + k].id == decisions@[k].id by {
            if k < i {
                assert(before[arch_nodes.len() + k] == g.nodes@[arch_nodes.len() + k]);
            }
        }
        i = i + 1;
    }
    assert(decisions@.take(decisions@.len() as int) =~= decisions@);
    let ghost mid_nodes = g.nodes@;
    let ghost nbase = mid_nodes.len() as int;
    let ghost ebase = arch_edges.len() as int;
    let mut j: usize = 0;
    assert(g.nodes@.skip(nbase) =~= Seq::<KnowledgeNode>::empty());
    assert(g.edges@.skip(ebase) =~= Seq::<KnowledgeEdge>::empty());
    while j < tasks.len()
        invariant
            j <= tasks@.len(),
            nbase == mid_nodes.len(),
            ebase == arch_edges.len(),
            ebase == component_total(arch.layers@),
            nbase >= layers_shapes(arch.layers@).len(),
            g.nodes@ == mid_nodes + g.nodes@.skip(nbase),
            g.edges@ == arch_edges + g.edges@.skip(ebase),
            node_shapes(g.nodes@.skip(nbase)) == tasks_shapes(tasks@.take(j as int)),
            g.edges@.len() == ebase + related_total(tasks@.take(j as int)),
            tasks_edges_ok(g.nodes@, g.edges@, nbase, ebase, tasks@.take(j as int)),
        decreases tasks@.len() - j,
    {
        let ghost nb = g.nodes@;
        let ghost eb = g.edges@;
        let ghost prev = tasks@.take(j as int);
        add_task_node(&mut g, &tasks[j]);
        proof {
            lemma_task_shapes_len(prev);
            assert(tasks@.take(j + 1).drop_last() =~= prev);
            assert(tasks@.take(j + 1).last() == tasks@[j as int]);
            assert(g.nodes@.take(nb.len() as int) =~= nb);
            assert(g.edges@.take(eb.len() as int) =~= eb);
            lemma_tasks_edges_extend(nb, g.nodes@, eb, g.edges@, nbase, ebase, prev);
            let added = g.nodes@.skip(nb.len() as int);
            assert(g.nodes@.skip(nbase) =~= nb.skip(nbase) + added);
            assert(node_shapes(nb.skip(nbase) + added) =~= node_shapes(nb.skip(nbase)) + node_shapes(added));
            assert(g.nodes@ =~= mid_nodes + g.nodes@.skip(nbase));
            assert(g.edges@ =~= arch_edges + g.edges@.skip(ebase));
        }
        j = j + 1;
    }
    proof {
        assert(tasks@.take(tasks@.len() as int) =~= tasks@);
        let all = g.nodes@;
        assert(all.take(arch_nodes.len() as int) =~= arch_nodes) by {
            assert(mid_nodes.take(arch_nodes.len() as int) == arch_nodes);
        }
        assert(g.edges@.take(arch_edges.len() as int) =~= arch_edges);
        lemma_layers_edges_extend(arch_nodes, all, arch_edges, g.edges@, arch.layers@);
        assert(all =~= arch_nodes + mid_nodes.skip(arch_nodes.len() as int) + all.skip(nbase));
        assert(node_shapes(all) =~= node_shapes(arch_nodes) + node_shapes(mid_nodes.skip(arch_nodes.len() as int)) + node_shapes(all.skip(nbase)));
        assert forall|k: int| 0 <= k < decisions@.len() implies #[trigger] all[architecture_shapes(*arch).len() + k].id == decisions@[k].id by {
            assert(mid_nodes[arch_nodes.len() + k] == all[arch_nodes.len() + k]);
        }
        assert(node_shapes(all).len() == all.len());
        lemma_task_shapes_len(tasks@);
        lemma_layer_edge_endpoints(all, g.edges@, arch.layers@);
        lemma_task_edge_endpoints(all, g.edges@, nbase, ebase, tasks@);
    }
    g
}


// ─── Impact ──────────────────────────────────────────────────────────────────

/// A file node whose path or name, lower-cased, contains `q`.
pub open spec fn matches_query(n: KnowledgeNode, q: Seq<char>) -> bool {
    &&& n.kind == NodeKind::File
    &&& (n.path matches Some(p) && text::seq_contains_text(text::lowercase_text(p@), q))
        || text::seq_contains_text(text::lowercase_text(n.name@), q)
}

/// The identifiers of the nodes matching `q`, in node order.
pub open spec fn matched_ids(nodes: Seq<KnowledgeNode>, q: Seq<char>) -> Seq<u128>
    decreases nodes.len(),
{
    if nodes.len() == 0 {
        Seq::empty()
    } else if matches_query(nodes.last(), q) {
        matched_ids(nodes.drop_last(), q).push(nodes.last().id)
    } else {
        matched_ids(nodes.drop_last(), q)
    }
}

/// The paths of the nodes matching `q`, each once, in order of first appearance.
pub open spec fn matched_paths(nodes: Seq<KnowledgeNode>, q: Seq<char>) -> Seq<Seq<char>>
    decreases nodes.len(),
{
    if nodes.len() == 0 {
        Seq::empty()
    } else {
        let prev = matched_paths(nodes.drop_last(), q);
        let n = nodes.last();
        if matches_query(n, q) && (n.path matches Some(p) && !prev.contains(p@)) {
            prev.push(n.path.unwrap()@)
        } else {
            prev
        }
    }
}

/// A file node whose lower-cased path or name contains the query anywhere is
/// matched: its identifier is among the matched ones, and its path (when it has
/// one) among the matched paths.
pub proof fn law_query_anywhere_matches(nodes: Seq<KnowledgeNode>, q: Seq<char>, k: int)
    requires
        0 <= k < nodes.len(),
        nodes[k].kind == NodeKind::File,
        (nodes[k].path matches Some(p) && text::seq_contains_text(text::lowercase_text(p@), q))
            || text::seq_contains_text(text::lowercase_text(nodes[k].name@), q),
    ensures
        matched_ids(nodes, q).contains(nodes[k].id),
        nodes[k].path matches Some(p) ==> matched_paths(nodes, q).contains(p@),
    decreases nodes.len(),
{
    let last = nodes.len() - 1;
    if k < last {
        law_query_anywhere_matches(nodes.drop_last(), q, k);
        assert(nodes.drop_last()[k] == nodes[k]);
        let prev = matched_ids(nodes.drop_last(), q);
        let w = choose|j: int| 0 <= j < prev.len() && prev[j] == nodes[k].id;
        if matches_query(nodes.last(), q) {
            assert(matched_ids(nodes, q)[w] == nodes[k].id);
        } else {
            assert(matched_ids(nodes, q)[w] == nodes[k].id);
        }
        if let Some(p) = nodes[k].path {
            let pp = matched_paths(nodes.drop_last(), q);
            let v = choose|j: int| 0 <= j < pp.len() && pp[j] == p@;
            assert(matched_paths(nodes, q)[v] == p@);
        }
    } else {
        assert(matches_query(nodes[k], q));
        assert(matched_ids(nodes, q).last() == nodes[k].id);
        if let Some(p) = nodes[k].path {
            let pp = matched_paths(nodes.drop_last(), q);
            if !pp.contains(p@) {
                assert(matched_paths(nodes, q).last() == p@);
            }
        }
    }
}

/// Only file nodes whose lower-cased path or name contains the query are matched.
pub proof fn law_matched_nodes_contain_query(nodes: Seq<KnowledgeNode>, q: Seq<char>, id: u128)
    requires
        matched_ids(nodes, q).contains(id),
    ensures
        exists|k: int|
            0 <= k < nodes.len() && #[trigger] nodes[k].id == id && nodes[k].kind == NodeKind::File && ((
            nodes[k].path matches Some(p) && text::seq_contains_text(text::lowercase_text(p@), q))
                || text::seq_contains_text(text::lowercase_text(nodes[k].name@), q)),
    decreases nodes.len(),
{
    let last = nodes.len() - 1;
    let prev = matched_ids(nodes.drop_last(), q);
    if prev.contains(id) {
        law_matched_nodes_contain_query(nodes.drop_last(), q, id);
        let k = choose|k: int|
            0 <= k < nodes.drop_last().len() && #[trigger] nodes.drop_last()[k].id == id && nodes.drop_last()[k].kind
                == NodeKind::File && ((nodes.drop_last()[k].path matches Some(p) && text::seq_contains_text(
                text::lowercase_text(p@),
                q,
            )) || text::seq_contains_text(text::lowercase_text(nodes.drop_last()[k].name@), q));
        assert(nodes[k] == nodes.drop_last()[k]);
    } else {
        assert(matches_query(nodes.last(), q) && nodes.last().id == id);
        assert(nodes[last].id == id);
    }
}

/// The lower-case name of a node kind.
pub open spec fn kind_name(k: NodeKind) -> Seq<char> {
    match k {
        NodeKind::File => "file"@,
        NodeKind::Function => "function"@,
        NodeKind::Service => "service"@,
        NodeKind::Api => "api"@,
        NodeKind::Database => "database"@,
        NodeKind::Task => "task"@,
        NodeKind::Decision => "decision"@,
        NodeKind::Module => "module"@,
        NodeKind::Package => "package"@,
    }
}

/// Writes the lower-case name of a node kind.
pub fn kind_text(k: NodeKind) -> (r: String)
    ensures
        r@ == kind_name(k),
{
    match k {
        NodeKind::File => "file".to_owned(),
        NodeKind::Function => "function".to_owned(),
        NodeKind::Service => "service".to_owned(),
        NodeKind::Api => "api".to_owned(),
        NodeKind::Database => "database".to_owned(),
        NodeKind::Task => "task".to_owned(),
        NodeKind::Decision => "decision".to_owned(),
        NodeKind::Module => "module".to_owned(),
        NodeKind::Package => "package".to_owned(),
    }
}

/// The lower-case name of an edge relation.
pub open spec fn relation_name(r: EdgeRelation) -> Seq<char> {
    match r {
        EdgeRelation::Imports => "imports"@,
        EdgeRelation::Calls => "calls"@,
        EdgeRelation::DependsOn => "dependson"@,
        EdgeRelation::Implements => "implements"@,
        EdgeRelation::RelatedTo => "relatedto"@,
        EdgeRelation::Owns => "owns"@,
        EdgeRelation::Documents => "documents"@,
    }
}

/// Writes the lower-case name of an edge relation.
pub fn relation_text(r: EdgeRelation) -> (t: String)
    ensures
        t@ == relation_name(r),
{
    match r {
        EdgeRelation::Imports => "imports".to_owned(),
        EdgeRelation::Calls => "calls".to_owned(),
        EdgeRelation::DependsOn => "dependson".to_owned(),
        EdgeRelation::Implements => "implements".to_owned(),
        EdgeRelation::RelatedTo => "relatedto".to_owned(),
        EdgeRelation::Owns => "owns".to_owned(),
        EdgeRelation::Documents => "documents".to_owned(),
    }
}

/// A connection from a queried file to another node in the knowledge graph.
#[derive(Clone, Debug)]
pub struct ImpactLink {
    pub kind: String,
    pub name: String,
    pub relation: String,
}

/// What a file (or path fragment) is connected to in the knowledge graph.
#[derive(Clone, Debug)]
pub struct ImpactReport {
    pub query: String,
    pub matched_files: Vec<String>,
    pub links: Vec<ImpactLink>,
}

/// A link as a value: kind, name, relation.
pub type LinkValue = (Seq<char>, Seq<char>, Seq<char>);

/// The view of a link.
pub open spec fn link_value(l: ImpactLink) -> LinkValue {
    (l.kind@, l.name@, l.relation@)
}

/// The neighbours found walking the edges: for every edge with exactly one
/// matched end, the other end once (the first edge reaching it decides the
/// relation), reported when a node has that identifier; with the identifiers seen.
pub open spec fn impact_walk(nodes: Seq<KnowledgeNode>, edges: Seq<KnowledgeEdge>, matched: Seq<u128>) -> (Seq<LinkValue>, Seq<u128>)
    decreases edges.len(),
{
    if edges.len() == 0 {
        (Seq::empty(), Seq::empty())
    } else {
        let (links, seen) = impact_walk(nodes, edges.drop_last(), matched);
        let e = edges.last();
        let neighbour = if matched.contains(e.from) {
            Some(e.to)
        } else if matched.contains(e.to) {
            Some(e.from)
        } else {
            None
        };
        match neighbour {
            Some(id) => if matched.contains(id) || seen.contains(id) {
                (links, seen)
            } else {
                let k = crate::context::last_node_index(nodes, id);
                if k >= 0 {
                    (links.push((kind_name(nodes[k].kind), nodes[k].name@, relation_name(e.relation))), seen.push(id))
                } else {
                    (links, seen.push(id))
                }
            },
            None => (links, seen),
        }
    }
}

/// Impact analysis reports each neighbour at most once and never a matched file: the
/// identifiers it walks to are distinct, none of them matched, and there are no more
/// links than such identifiers.
pub proof fn law_impact_neighbours_once(nodes: Seq<KnowledgeNode>, edges: Seq<KnowledgeEdge>, matched: Seq<u128>)
    ensures
        impact_walk(nodes, edges, matched).1.no_duplicates(),
        forall|i: int|
            0 <= i < impact_walk(nodes, edges, matched).1.len() ==> !matched.contains(
                #[trigger] impact_walk(nodes, edges, matched).1[i],
            ),
        impact_walk(nodes, edges, matched).0.len() <= impact_walk(nodes, edges, matched).1.len(),
    decreases edges.len(),
{
    if edges.len() > 0 {
        law_impact_neighbours_once(nodes, edges.drop_last(), matched);
        let (links, seen) = impact_walk(nodes, edges.drop_last(), matched);
        let (links2, seen2) = impact_walk(nodes, edges, matched);
        if seen2.len() == seen.len() + 1 {
            let id = seen2.last();
            assert(seen2 == seen.push(id));
            assert(!seen.contains(id));
            assert forall|a: int, b: int| 0 <= a < b < seen2.len() implies seen2[a] != seen2[b] by {
                if b == seen.len() {
                    assert(seen2[a] == seen[a]);
                    assert(seen.contains(seen[a]));
                } else {
                    assert(seen2[a] == seen[a]);
                    assert(seen2[b] == seen[b]);
                }
            }
            assert forall|i: int| 0 <= i < seen2.len() implies !matched.contains(#[trigger] seen2[i]) by {
                if i < seen.len() {
                    assert(seen2[i] == seen[i]);
                }
            }
        }
    }
}

/// Impact analysis walks to exactly the neighbours of the matched files: every node
/// one edge away from a matched file (and not itself matched) is walked to, and
/// everything walked to is such a neighbour.
pub proof fn law_impact_walks_all_neighbours(nodes: Seq<KnowledgeNode>, edges: Seq<KnowledgeEdge>, matched: Seq<u128>, j: int)
    requires
        0 <= j < edges.len(),
    ensures
        matched.contains(edges[j].from) && !matched.contains(edges[j].to) ==> impact_walk(nodes, edges, matched).1.contains(
            edges[j].to,
        ),
        matched.contains(edges[j].to) && !matched.contains(edges[j].from) ==> impact_walk(nodes, edges, matched).1.contains(
            edges[j].from,
        ),
    decreases edges.len(),
{
    let (links, seen) = impact_walk(nodes, edges.drop_last(), matched);
    let seen2 = impact_walk(nodes, edges, matched).1;
    assert(seen2 == seen || seen2 == seen.push(seen2.last()));
    if j < edges.len() - 1 {
        law_impact_walks_all_neighbours(nodes, edges.drop_last(), matched, j);
        assert(edges.drop_last()[j] == edges[j]);
        if seen.contains(edges[j].to) {
            let w = choose|w: int| 0 <= w < seen.len() && seen[w] == edges[j].to;
            assert(seen2[w] == edges[j].to);
        }
        if seen.contains(edges[j].from) {
            let w = choose|w: int| 0 <= w < seen.len() && seen[w] == edges[j].from;
            assert(seen2[w] == edges[j].from);
        }
    } else {
        assert(edges[j] == edges.last());
        if seen.contains(edges[j].to) {
            let w = choose|w: int| 0 <= w < seen.len() && seen[w] == edges[j].to;
            assert(seen2[w] == edges[j].to);
        }
        if seen.contains(edges[j].from) {
            let w = choose|w: int| 0 <= w < seen.len() && seen[w] == edges[j].from;
            assert(seen2[w] == edges[j].from);
        }
    }
}

/// Everything impact analysis walks to is the other end of an edge from a matched file.
pub proof fn law_impact_walks_only_neighbours(nodes: Seq<KnowledgeNode>, edges: Seq<KnowledgeEdge>, matched: Seq<u128>, i: int)
    requires
        0 <= i < impact_walk(nodes, edges, matched).1.len(),
    ensures
        exists|j: int|
            0 <= j < edges.len() && ((matched.contains(#[trigger] edges[j].from) && edges[j].to == impact_walk(nodes, edges, matched).1[i])
                || (matched.contains(edges[j].to) && edges[j].from == impact_walk(nodes, edges, matched).1[i])),
    decreases edges.len(),
{
    let (links, seen) = impact_walk(nodes, edges.drop_last(), matched);
    let seen2 = impact_walk(nodes, edges, matched).1;
    if i < seen.len() {
        law_impact_walks_only_neighbours(nodes, edges.drop_last(), matched, i);
        assert(seen2[i] == seen[i]);
        let j = choose|j: int|
            0 <= j < edges.drop_last().len() && ((matched.contains(#[trigger] edges.drop_last()[j].from) && edges.drop_last()[j].to
                == seen[i]) || (matched.contains(edges.drop_last()[j].to) && edges.drop_last()[j].from == seen[i]));
        assert(edges.drop_last()[j] == edges[j]);
    } else {
        assert(edges[edges.len() - 1] == edges.last());
    }
}

fn ids_contain(ids: &Vec<u128>, id: u128) -> (b: bool)
    ensures
        b == ids@.contains(id),
{
    let mut i: usize = 0;
    while i < ids.len()
        invariant
            i <= ids@.len(),
            forall|k: int| 0 <= k < i ==> ids@[k] != id,
        decreases ids@.len() - i,
    {
        if ids[i] == id {
            return true;
        }
        i = i + 1;
    }
    false
}

fn node_matches(n: &KnowledgeNode, q: &str) -> (b: bool)
    ensures
        b == matches_query(*n, q@),
{
    if n.kind != NodeKind::File {
        return false;
    }
    let path_match = match &n.path {
        Some(p) => {
            let lp = to_lower(p.as_str());
            str_contains(lp.as_str(), q)
        },
        None => false,
    };
    let ln = to_lower(n.name.as_str());
    path_match || str_contains(ln.as_str(), q)
}

fn find_node(nodes: &Vec<KnowledgeNode>, id: u128) -> (r: Option<usize>)
    ensures
        match r {
            Some(k) => crate::context::last_node_index(nodes@, id) == k as int && k < nodes@.len(),
            None => crate::context::last_node_index(nodes@, id) == -1,
        },
{
    let mut i: usize = nodes.len();
    assert(nodes@.take(nodes@.len() as int) =~= nodes@);
    while i > 0
        invariant
            i <= nodes@.len(),
            crate::context::last_node_index(nodes@, id) == crate::context::last_node_index(nodes@.take(i as int), id),
        decreases i,
    {
        if nodes[i - 1].id == id {
            return Some(i - 1);
        }
        assert(nodes@.take(i as int).drop_last() =~= nodes@.take(i - 1));
        i = i - 1;
    }
    None
}

/// Traces what a file connects to: the file nodes whose path or name contains
/// the trimmed, lower-cased query, and the nodes one edge away from them.
pub fn impact(graph: &KnowledgeGraph, file: &str) -> (r: ImpactReport)
    ensures
        r.query@ == file@,
        text::texts(r.matched_files@) == matched_paths(graph.nodes@, text::lowercase_text(text::trimmed_text(file@))),
        r.links@.map_values(|l: ImpactLink| link_value(l)) == impact_walk(
            graph.nodes@,
            graph.edges@,
            matched_ids(graph.nodes@, text::lowercase_text(text::trimmed_text(file@))),
        ).0,
{
    let q = to_lower(trim_text(file));
    let ghost qs = q@;
    let mut ids: Vec<u128> = Vec::new();
    let mut files: Vec<String> = Vec::new();
    let mut i: usize = 0;
    while i < graph.nodes.len()
        invariant
            i <= graph.nodes@.len(),
            qs == q@,
            ids@ == matched_ids(graph.nodes@.take(i as int), qs),
            text::texts(files@) == matched_paths(graph.nodes@.take(i as int), qs),
        decreases graph.nodes@.len() - i,
    {
        let ghost prev_files = text::texts(files@);
        assert(graph.nodes@.take(i + 1).drop_last() =~= graph.nodes@.take(i as int));
        assert(graph.nodes@.take(i + 1).last() == graph.nodes@[i as int]);
        let n = &graph.nodes[i];
        if node_matches(n, q.as_str()) {
            ids.push(n.id);
            if let Some(p) = &n.path {
                if !text::id_in(&files, p.as_str()) {
                    files.push(p.clone());
                    assert(text::texts(files@) =~= prev_files.push(p@));
                }
            }
        }
        i = i + 1;
    }
    assert(graph.nodes@.take(graph.nodes@.len() as int) =~= graph.nodes@);
    let ghost matched = ids@;
    let mut seen: Vec<u128> = Vec::new();
    let mut links: Vec<ImpactLink> = Vec::new();
    let mut j: usize = 0;
    while j < graph.edges.len()
        invariant
            j <= graph.edges@.len(),
            matched == ids@,
            links@.map_values(|l: ImpactLink| link_value(l)) == impact_walk(graph.nodes@, graph.edges@.take(j as int), matched).0,
            seen@ == impact_walk(graph.nodes@, graph.edges@.take(j as int), matched).1,
        decreases graph.edges@.len() - j,
    {
        let ghost prev_links = links@.map_values(|l: ImpactLink| link_value(l));
        assert(graph.edges@.take(j + 1).drop_last() =~= graph.edges@.take(j as int));
        assert(graph.edges@.take(j + 1).last() == graph.edges@[j as int]);
        let e = graph.edges[j];
        let neighbour = if ids_contain(&ids, e.from) {
            Some(e.to)
        } else if ids_contain(&ids, e.to) {
            Some(e.from)
        } else {
            None
        };
        if let Some(id) = neighbour {
            if !(ids_contain(&ids, id) || ids_contain(&seen, id)) {
                seen.push(id);
                if let Some(k) = find_node(&graph.nodes, id) {
                    let node = &graph.nodes[k];
                    let link = ImpactLink { kind: kind_text(node.kind), name: node.name.clone(), relation: relation_text(e.relation) };
                    links.push(link);
                    assert(links@.map_values(|l: ImpactLink| link_value(l)) =~= prev_links.push(link_value(link)));
                }
            }
        }
        j = j + 1;
    }
    assert(graph.edges@.take(graph.edges@.len() as int) =~= graph.edges@);
    ImpactReport { query: file.to_owned(), matched_files: files, links }
}

/// A file node whose lower-cased name or path contains `q`, and that has a path.
pub open spec fn related_file(n: KnowledgeNode, q: Seq<char>) -> bool {
    &&& n.kind == NodeKind::File
    &&& text::seq_contains_text(text::lowercase_text(n.name@), q) || (n.path matches Some(p)
        && text::seq_contains_text(text::lowercase_text(p@), q))
    &&& n.path is Some
}

/// The paths of the file nodes related to `q`, in node order.
pub open spec fn related_paths(nodes: Seq<KnowledgeNode>, q: Seq<char>) -> Seq<Seq<char>>
    decreases nodes.len(),
{
    if nodes.len() == 0 {
        Seq::empty()
    } else if related_file(nodes.last(), q) {
        related_paths(nodes.drop_last(), q).push(nodes.last().path.unwrap()@)
    } else {
        related_paths(nodes.drop_last(), q)
    }
}

/// The related files are exactly the paths of the file nodes whose lower-cased name
/// or path contains the query, in node order: one path per such node.
pub proof fn law_related_paths_contain_query(nodes: Seq<KnowledgeNode>, q: Seq<char>, k: int)
    requires
        0 <= k < nodes.len(),
        nodes[k].kind == NodeKind::File,
        nodes[k].path is Some,
        text::seq_contains_text(text::lowercase_text(nodes[k].name@), q)
            || text::seq_contains_text(text::lowercase_text(nodes[k].path->0@), q),
    ensures
        related_paths(nodes, q).contains(nodes[k].path->0@),
    decreases nodes.len(),
{
    if k < nodes.len() - 1 {
        law_related_paths_contain_query(nodes.drop_last(), q, k);
        assert(nodes.drop_last()[k] == nodes[k]);
        let prev = related_paths(nodes.drop_last(), q);
        let w = choose|j: int| 0 <= j < prev.len() && prev[j] == nodes[k].path->0@;
        assert(related_paths(nodes, q)[w] == nodes[k].path->0@);
    } else {
        assert(related_file(nodes.last(), q));
        assert(related_paths(nodes, q).last() == nodes[k].path->0@);
    }
}

/// Every related path is the path of a file node whose lower-cased name or path
/// contains the query.
pub proof fn law_related_paths_only_matches(nodes: Seq<KnowledgeNode>, q: Seq<char>, i: int)
    requires
        0 <= i < related_paths(nodes, q).len(),
    ensures
        exists|k: int|
            0 <= k < nodes.len() && #[trigger] nodes[k].kind == NodeKind::File && nodes[k].path is Some
                && nodes[k].path->0@ == related_paths(nodes, q)[i] && (text::seq_contains_text(
                text::lowercase_text(nodes[k].name@),
                q,
            ) || text::seq_contains_text(text::lowercase_text(nodes[k].path->0@), q)),
    decreases nodes.len(),
{
    let prev = related_paths(nodes.drop_last(), q);
    if i < prev.len() {
        law_related_paths_only_matches(nodes.drop_last(), q, i);
        let k = choose|k: int|
            0 <= k < nodes.drop_last().len() && #[trigger] nodes.drop_last()[k].kind == NodeKind::File
                && nodes.drop_last()[k].path is Some && nodes.drop_last()[k].path->0@ == prev[i] && (
            text::seq_contains_text(text::lowercase_text(nodes.drop_last()[k].name@), q)
                || text::seq_contains_text(text::lowercase_text(nodes.drop_last()[k].path->0@), q));
        assert(nodes[k] == nodes.drop_last()[k]);
        assert(related_paths(nodes, q)[i] == prev[i]);
    } else {
        assert(related_file(nodes.last(), q));
        assert(nodes[nodes.len() - 1] == nodes.last());
    }
}

/// The paths of file nodes whose name or path contains the lower-cased query.
pub fn find_related_files(graph: &KnowledgeGraph, query: &str) -> (r: Vec<String>)
    ensures
        text::texts(r@) == related_paths(graph.nodes@, text::lowercase_text(query@)),
{
    let q = to_lower(query);
    let mut out: Vec<String> = Vec::new();
    let mut i: usize = 0;
    while i < graph.nodes.len()
        invariant
            i <= graph.nodes@.len(),
            text::texts(out@) == related_paths(graph.nodes@.take(i as int), q@),
            q@ == text::lowercase_text(query@),
        decreases graph.nodes@.len() - i,
    {
        let ghost prev = text::texts(out@);
        assert(graph.nodes@.take(i + 1).drop_last() =~= graph.nodes@.take(i as int));
        assert(graph.nodes@.take(i + 1).last() == graph.nodes@[i as int]);
        let n = &graph.nodes[i];
        if n.kind == NodeKind::File {
            if let Some(p) = &n.path {
                let ln = to_lower(n.name.as_str());
                let lp = to_lower(p.as_str());
                if str_contains(ln.as_str(), q.as_str()) || str_contains(lp.as_str(), q.as_str()) {
                    out.push(p.clone());
                    assert(text::texts(out@) =~= prev.push(p@));
                }
            }
        }
        i = i + 1;
    }
    assert(graph.nodes@.take(graph.nodes@.len() as int) =~= graph.nodes@);
    out
}

} // verus!
