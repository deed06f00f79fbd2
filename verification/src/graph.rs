//! The mesh as an undirected graph: what it holds, what connects, and the
//! operations of the graph library that the router relies on.

use vstd::prelude::*;

verus! {

/// The graph type of the graph library, `petgraph::graphmap::GraphMap`:
/// opaque here, known only through the names and wrappers below.
#[verifier::external_type_specification]
#[verifier::external_body]
#[verifier::reject_recursive_types(N)]
#[verifier::reject_recursive_types(E)]
#[verifier::reject_recursive_types(Ty)]
pub struct ExGraphMap<N, E, Ty>(petgraph::graphmap::GraphMap<N, E, Ty>);

/// The marker of undirected graphs of the graph library,
/// `petgraph::Undirected`.
#[verifier::external_type_specification]
#[verifier::external_body]
pub struct ExUndirected(petgraph::Undirected);

/// The graph of the mesh: nodes are ids, edges are undirected and weighted.
pub type MeshGraph = petgraph::graphmap::GraphMap<u8, u8, petgraph::Undirected>;

/// The nodes that a graph holds.
pub uninterp spec fn graph_nodes(graph: petgraph::graphmap::GraphMap<u8, u8, petgraph::Undirected>) -> Set<u8>;

/// The edges that a graph holds, each under the key of its two ends, with
/// its weight.
pub uninterp spec fn graph_edges(graph: petgraph::graphmap::GraphMap<u8, u8, petgraph::Undirected>) -> Map<
    (u8, u8),
    u8,
>;

/// The key of the edge between `a` and `b`: the two ends, smaller first.
pub open spec fn edge_key(a: u8, b: u8) -> (u8, u8) {
    if a <= b {
        (a, b)
    } else {
        (b, a)
    }
}

/// Whether an edge joins `a` and `b`.
pub open spec fn adjacent(edges: Map<(u8, u8), u8>, a: u8, b: u8) -> bool {
    edges.contains_key(edge_key(a, b))
}

/// The edges of a graph without edges.
pub open spec fn no_edges() -> Map<(u8, u8), u8> {
    Map::empty()
}

/// Whether `key` is the key of an edge that ends in `node`.
pub open spec fn touches(key: (u8, u8), node: u8) -> bool {
    key.0 == node || key.1 == node
}

/// Whether `walk` is a walk: a list of at least one node in which an edge
/// joins each node to the next.
pub open spec fn is_walk(edges: Map<(u8, u8), u8>, walk: Seq<u8>) -> bool {
    &&& walk.len() >= 1
    &&& forall|i: int| 0 <= i < walk.len() - 1 ==> adjacent(edges, #[trigger] walk[i], walk[i + 1])
}

/// Whether `walk` is a walk that starts at `from` and ends at `to`.
pub open spec fn walk_between(edges: Map<(u8, u8), u8>, walk: Seq<u8>, from: u8, to: u8) -> bool {
    &&& is_walk(edges, walk)
    &&& walk[0] == from
    &&& walk[walk.len() - 1] == to
}

/// Whether a walk leads from `from` to `to`. Every node is connected to
/// itself.
pub open spec fn connected(edges: Map<(u8, u8), u8>, from: u8, to: u8) -> bool {
    exists|walk: Seq<u8>| walk_between(edges, walk, from, to)
}

/// The sum of the weights of the edges along a walk.
pub open spec fn walk_cost(edges: Map<(u8, u8), u8>, walk: Seq<u8>) -> nat
    decreases walk.len(),
{
    if walk.len() <= 1 {
        0
    } else {
        walk_cost(edges, walk.drop_last()) + edges[edge_key(walk[walk.len() - 2], walk[walk.len() - 1])] as nat
    }
}

/// The key of the edge that a walk takes at its step `i`.
pub open spec fn step_key(walk: Seq<u8>, i: int) -> (u8, u8)
    recommends
        0 <= i < walk.len() - 1,
{
    edge_key(walk[i], walk[i + 1])
}

/// Whether `walk` is a cycle: a walk over at least one edge that ends where
/// it starts and takes no edge twice.
pub open spec fn is_cycle(edges: Map<(u8, u8), u8>, walk: Seq<u8>) -> bool {
    &&& is_walk(edges, walk)
    &&& walk.len() >= 2
    &&& walk[0] == walk[walk.len() - 1]
    &&& forall|i: int, j: int|
        0 <= i < j < walk.len() - 1 ==> #[trigger] step_key(walk, i) != #[trigger] step_key(walk, j)
}

/// Whether the edges form no cycle.
pub open spec fn acyclic(edges: Map<(u8, u8), u8>) -> bool {
    forall|walk: Seq<u8>| !is_cycle(edges, walk)
}

/// Whether two sets of edges connect the same pairs of nodes.
pub open spec fn same_connections(first: Map<(u8, u8), u8>, second: Map<(u8, u8), u8>) -> bool {
    forall|a: u8, b: u8| connected(first, a, b) == connected(second, a, b)
}

/// Whether `node` is the smallest node of its connected component.
pub open spec fn is_leader(nodes: Set<u8>, edges: Map<(u8, u8), u8>, node: u8) -> bool {
    &&& nodes.contains(node)
    &&& forall|other: u8| nodes.contains(other) && connected(edges, node, other) ==> node <= other
}

/// The number of connected components: one for each node that is the
/// smallest of its component.
pub open spec fn component_count(nodes: Set<u8>, edges: Map<(u8, u8), u8>) -> nat {
    nodes.filter(|node: u8| is_leader(nodes, edges, node)).len()
}

/// Whether every edge weighs 1.
pub open spec fn unit_weights(edges: Map<(u8, u8), u8>) -> bool {
    forall|key: (u8, u8)| #[trigger] edges.contains_key(key) ==> edges[key] == 1
}

/// Whether the nodes and edges are those of a graph of the mesh: finitely
/// many, every edge under the key of its ends, both ends among the nodes,
/// and every weight 1.
pub open spec fn mesh_graph(nodes: Set<u8>, edges: Map<(u8, u8), u8>) -> bool {
    &&& nodes.finite()
    &&& edges.dom().finite()
    &&& forall|key: (u8, u8)| #[trigger]
        edges.contains_key(key) ==> key.0 <= key.1 && nodes.contains(key.0) && nodes.contains(key.1)
            && edges[key] == 1
}

/// Calls `GraphMap::new`. Trusted: the new graph holds no node and no edge.
#[verifier::external_body]
pub(crate) fn graph_new() -> (made: MeshGraph)
    ensures
        graph_nodes(made) == Set::<u8>::empty(),
        graph_edges(made) == no_edges(),
{
    petgraph::graphmap::GraphMap::new()
}

/// Calls `GraphMap::add_node`. Trusted: the node is among the nodes
/// afterwards, and nothing else changes.
#[verifier::external_body]
pub(crate) fn graph_add_node(graph: &mut MeshGraph, node: u8)
    ensures
        graph_nodes(*final(graph)) == graph_nodes(*old(graph)).insert(node),
        graph_edges(*final(graph)) == graph_edges(*old(graph)),
{
    graph.add_node(node);
}

/// Calls `GraphMap::add_edge`. Trusted: both ends are among the nodes
/// afterwards, the edge is held under its key with the given weight, no
/// other edge changes, and the weight that the edge had before is returned.
#[verifier::external_body]
pub(crate) fn graph_add_edge(
    graph: &mut MeshGraph,
    a: u8,
    b: u8,
    weight: u8,
) -> (before: Option<u8>)
    ensures
        graph_nodes(*final(graph)) == graph_nodes(*old(graph)).insert(a).insert(b),
        graph_edges(*final(graph)) == graph_edges(*old(graph)).insert(edge_key(a, b), weight),
        before == if adjacent(graph_edges(*old(graph)), a, b) {
            Some(graph_edges(*old(graph))[edge_key(a, b)])
        } else {
            None
        },
{
    graph.add_edge(a, b, weight)
}

/// Calls `GraphMap::remove_node`. Trusted: the node and the edges that end
/// in it are gone afterwards, nothing else changes, and the result says
/// whether the node was there.
#[verifier::external_body]
pub(crate) fn graph_remove_node(graph: &mut MeshGraph, node: u8) -> (was_there: bool)
    ensures
        was_there == graph_nodes(*old(graph)).contains(node),
        graph_nodes(*final(graph)) == graph_nodes(*old(graph)).remove(node),
        graph_edges(*final(graph)) == graph_edges(*old(graph)).remove_keys(
            Set::new(|key: (u8, u8)| touches(key, node)),
        ),
{
    graph.remove_node(node)
}

/// Calls `GraphMap::contains_node`. Trusted: it says whether the node is
/// among the nodes.
#[verifier::external_body]
pub(crate) fn graph_contains_node(graph: &MeshGraph, node: u8) -> (found: bool)
    ensures
        found == graph_nodes(*graph).contains(node),
{
    graph.contains_node(node)
}

/// Calls `GraphMap::contains_edge`. Trusted: it says whether an edge joins
/// the two nodes, in either direction.
#[verifier::external_body]
pub(crate) fn graph_contains_edge(graph: &MeshGraph, a: u8, b: u8) -> (found: bool)
    ensures
        found == adjacent(graph_edges(*graph), a, b),
{
    graph.contains_edge(a, b)
}

/// Calls `GraphMap::node_count`. Trusted: it is the number of nodes.
#[verifier::external_body]
pub(crate) fn graph_node_count(graph: &MeshGraph) -> (count: usize)
    ensures
        count == graph_nodes(*graph).len(),
{
    graph.node_count()
}

/// Calls `GraphMap::edge_count`. Trusted: it is the number of edges.
#[verifier::external_body]
pub(crate) fn graph_edge_count(graph: &MeshGraph) -> (count: usize)
    ensures
        count == graph_edges(*graph).dom().len(),
{
    graph.edge_count()
}

/// Calls `petgraph::algo::astar` from `from` to the goal `to`, with the
/// weight of an edge as its cost and the estimate zero. Trusted: a path is
/// found exactly when a walk leads from `from` to `to`; the path is then such
/// a walk, the cost is the sum of its weights, and no walk between the two
/// costs less.
#[verifier::external_body]
pub(crate) fn graph_shortest_path(graph: &MeshGraph, from: u8, to: u8) -> (found: Option<(u32, Vec<u8>)>)
    ensures
        found.is_some() == connected(graph_edges(*graph), from, to),
        found.is_some() ==> walk_between(graph_edges(*graph), found.unwrap().1@, from, to),
        found.is_some() ==> found.unwrap().0 == walk_cost(graph_edges(*graph), found.unwrap().1@),
        found.is_some() ==> forall|other: Seq<u8>| #[trigger]
            walk_between(graph_edges(*graph), other, from, to) ==> found.unwrap().0 <= walk_cost(
                graph_edges(*graph),
                other,
            ),
{
    petgraph::algo::astar(graph, from, |node| node == to, |edge| u32::from(*edge.2), |_| 0u32)
}

/// Calls `petgraph::algo::min_spanning_tree` and builds a graph from what
/// it yields with `FromElements::from_elements`. Trusted: the new graph has
/// the same nodes; its edges are edges of the old graph with their weights;
/// it connects the same pairs of nodes; it has no cycle; and it has as many
/// edges as the old graph has nodes, less one for each connected component.
/// It is called only where every edge weighs 1, so that every spanning
/// forest is one of least weight.
#[verifier::external_body]
pub(crate) fn graph_spanning_forest(graph: &MeshGraph) -> (forest: MeshGraph)
    requires
        unit_weights(graph_edges(*graph)),
    ensures
        graph_nodes(forest) == graph_nodes(*graph),
        graph_edges(forest).submap_of(graph_edges(*graph)),
        same_connections(graph_edges(forest), graph_edges(*graph)),
        acyclic(graph_edges(forest)),
        graph_edges(forest).dom().len() + component_count(graph_nodes(*graph), graph_edges(*graph))
            == graph_nodes(*graph).len(),
{
    petgraph::data::FromElements::from_elements(petgraph::algo::min_spanning_tree(graph))
}

/// Where every weight is 1, a walk costs as much as it has edges.
pub proof fn lemma_unit_cost(nodes: Set<u8>, edges: Map<(u8, u8), u8>, walk: Seq<u8>)
    requires
        mesh_graph(nodes, edges),
        is_walk(edges, walk),
    ensures
        walk_cost(edges, walk) == walk.len() - 1,
    decreases walk.len(),
{
    if walk.len() > 1 {
        let shorter = walk.drop_last();
        assert forall|i: int| 0 <= i < shorter.len() - 1 implies adjacent(
            edges,
            #[trigger] shorter[i],
            shorter[i + 1],
        ) by {
            assert(adjacent(edges, walk[i], walk[i + 1]));
        }
        lemma_unit_cost(nodes, edges, shorter);
        let last = walk.len() - 2;
        assert(adjacent(edges, walk[last], walk[last + 1]));
        assert(edges.contains_key(edge_key(walk[last], walk[last + 1])));
    }
}

/// Sets of edges that connect the same pairs have the same number of
/// connected components.
pub proof fn lemma_same_components(nodes: Set<u8>, first: Map<(u8, u8), u8>, second: Map<(u8, u8), u8>)
    requires
        same_connections(first, second),
    ensures
        component_count(nodes, first) == component_count(nodes, second),
{
    let leaders_first = nodes.filter(|node: u8| is_leader(nodes, first, node));
    let leaders_second = nodes.filter(|node: u8| is_leader(nodes, second, node));
    assert forall|node: u8| is_leader(nodes, first, node) == is_leader(nodes, second, node) by {
        assert forall|other: u8| connected(first, node, other) == connected(second, node, other) by {}
    }
    assert(leaders_first =~= leaders_second);
}

/// A part of a finite set of edges that has as many edges is the whole.
pub proof fn lemma_submap_same_size(part: Map<(u8, u8), u8>, whole: Map<(u8, u8), u8>)
    requires
        part.submap_of(whole),
        whole.dom().finite(),
        part.dom().len() == whole.dom().len(),
    ensures
        part == whole,
{
    vstd::set_lib::lemma_len_subset(part.dom(), whole.dom());
    vstd::set_lib::lemma_subset_equality(part.dom(), whole.dom());
    assert(part =~= whole);
}

/// A part of the edges of a mesh graph is a mesh graph over the same nodes.
pub proof fn lemma_submap_mesh_graph(nodes: Set<u8>, part: Map<(u8, u8), u8>, whole: Map<(u8, u8), u8>)
    requires
        mesh_graph(nodes, whole),
        part.submap_of(whole),
    ensures
        mesh_graph(nodes, part),
{
    vstd::set_lib::lemma_len_subset(part.dom(), whole.dom());
    assert forall|key: (u8, u8)| #[trigger] part.contains_key(key) implies key.0 <= key.1 && nodes.contains(key.0)
        && nodes.contains(key.1) && part[key] == 1 by {
        assert(whole.contains_key(key));
    }
}

/// Whether `forest` is a spanning forest of the graph with the given nodes
/// and edges: made of its edges, connecting the same pairs of nodes, without
/// a cycle, and with one edge less than nodes for each connected component.
pub open spec fn spanning_forest_of(nodes: Set<u8>, forest: Map<(u8, u8), u8>, edges: Map<(u8, u8), u8>) -> bool {
    &&& forest.submap_of(edges)
    &&& same_connections(forest, edges)
    &&& acyclic(forest)
    &&& forest.dom().len() + component_count(nodes, edges) == nodes.len()
}

/// A spanning forest of a spanning forest is that forest itself.
pub proof fn lemma_forest_fixed_point(
    nodes: Set<u8>,
    edges: Map<(u8, u8), u8>,
    first: Map<(u8, u8), u8>,
    second: Map<(u8, u8), u8>,
)
    requires
        mesh_graph(nodes, edges),
        spanning_forest_of(nodes, first, edges),
        spanning_forest_of(nodes, second, first),
    ensures
        second == first,
{
    lemma_same_components(nodes, first, edges);
    lemma_submap_mesh_graph(nodes, first, edges);
    lemma_submap_same_size(second, first);
}

/// A spanning forest has at most as many edges as the graph has nodes, less
/// one for each of its own connected components, and has no cycle.
pub proof fn lemma_forest_size(nodes: Set<u8>, edges: Map<(u8, u8), u8>, forest: Map<(u8, u8), u8>)
    requires
        spanning_forest_of(nodes, forest, edges),
    ensures
        forest.dom().len() + component_count(nodes, forest) == nodes.len(),
        forest.dom().len() <= nodes.len() - component_count(nodes, forest),
        acyclic(forest),
{
    lemma_same_components(nodes, forest, edges);
}

/// Whether no node comes twice in the walk.
pub open spec fn is_path(walk: Seq<u8>) -> bool {
    forall|i: int, j: int| 0 <= i < j < walk.len() ==> walk[i] != walk[j]
}

/// A walk than which none between the same two nodes is shorter passes no
/// node twice.
pub proof fn lemma_shortest_walk_is_path(edges: Map<(u8, u8), u8>, walk: Seq<u8>, from: u8, to: u8)
    requires
        walk_between(edges, walk, from, to),
        forall|other: Seq<u8>| #[trigger] walk_between(edges, other, from, to) ==> walk.len() <= other.len(),
    ensures
        is_path(walk),
{
    assert forall|i: int, j: int| 0 <= i < j < walk.len() implies walk[i] != walk[j] by {
        if walk[i] == walk[j] {
            let other = walk.take(i + 1) + walk.skip(j + 1);
            assert(other.len() == walk.len() - (j - i));
            assert forall|k: int| 0 <= k < other.len() - 1 implies adjacent(edges, #[trigger] other[k], other[k + 1]) by {
                if k < i {
                    assert(other[k] == walk[k] && other[k + 1] == walk[k + 1]);
                    assert(adjacent(edges, walk[k], walk[k + 1]));
                } else {
                    assert(other[k] == walk[k + (j - i)]);
                    assert(other[k + 1] == walk[k + (j - i) + 1]);
                    assert(adjacent(edges, walk[k + (j - i)], walk[k + (j - i) + 1]));
                }
            }
            assert(other[0] == walk[0]);
            assert(other[other.len() - 1] == walk[walk.len() - 1]);
            assert(walk_between(edges, other, from, to));
        }
    }
}

} // verus!
