//! The mesh router: the graph of observed nodes, the binding of ids to
//! addresses, and the routes through the mesh.

use std::collections::HashMap;
use vstd::prelude::*;
use vstd::std_specs::hash::*;
use vstd::string::*;
use crate::addr::Ipv4Addr;
use crate::broadcast::BroadcastMessage;
use crate::ipassign::IPAssignFailureMessage;
use crate::packet::{destination_of, source_of, Ipv4Packet};
use crate::graph::{
    acyclic, adjacent, component_count, edge_key, graph_add_edge, graph_add_node, graph_contains_edge,
    graph_contains_node, graph_edge_count, graph_edges, graph_new, graph_node_count, graph_nodes, graph_remove_node,
    graph_shortest_path, graph_spanning_forest, is_path, lemma_shortest_walk_is_path, lemma_forest_fixed_point, lemma_forest_size, lemma_submap_mesh_graph,
    lemma_unit_cost, mesh_graph, no_edges, spanning_forest_of, touches, walk_between, MeshGraph,
};

verus! {

broadcast use vstd::std_specs::hash::group_hash_axioms;

/// The smallest id that a node can have.
pub const MIN_NODE_ID: u8 = 1;

/// The largest id that a node can have.
pub const MAX_NODE_ID: u8 = 254;

/// The reason given to a node whose id is none that a node can have.
pub const ID_OUT_OF_RANGE: &'static str = "node id out of range";

/// The address that the gateway assigns to the node `nodeid`.
pub open spec fn assigned_address(nodeid: u8) -> Ipv4Addr {
    Ipv4Addr { a: 172, b: 16, c: 0, d: nodeid }
}

/// Whether the two maps are inverses of each other.
pub open spec fn inverse_maps(id_to_ip: Map<u8, Ipv4Addr>, ip_to_id: Map<Ipv4Addr, u8>) -> bool {
    &&& forall|id: u8| #[trigger]
        id_to_ip.contains_key(id) ==> ip_to_id.contains_key(id_to_ip[id]) && ip_to_id[id_to_ip[id]] == id
    &&& forall|ip: Ipv4Addr| #[trigger]
        ip_to_id.contains_key(ip) ==> id_to_ip.contains_key(ip_to_id[ip]) && id_to_ip[ip_to_id[ip]] == ip
}

/// The ids that are bound to the address `ip`.
pub open spec fn holders_of(id_to_ip: Map<u8, Ipv4Addr>, ip: Ipv4Addr) -> Set<u8> {
    Set::new(|id: u8| id_to_ip.contains_key(id) && id_to_ip[id] == ip)
}

/// The addresses that are bound to the id `id`.
pub open spec fn addresses_of(ip_to_id: Map<Ipv4Addr, u8>, id: u8) -> Set<Ipv4Addr> {
    Set::new(|ip: Ipv4Addr| ip_to_id.contains_key(ip) && ip_to_id[ip] == id)
}

/// The binding of ids to addresses after `id` is bound to `ip`: what held
/// `ip` before holds nothing.
pub open spec fn bound_ids(id_to_ip: Map<u8, Ipv4Addr>, id: u8, ip: Ipv4Addr) -> Map<u8, Ipv4Addr> {
    id_to_ip.remove_keys(holders_of(id_to_ip, ip)).insert(id, ip)
}

/// The binding of addresses to ids after `id` is bound to `ip`: what `id`
/// held before is free.
pub open spec fn bound_addresses(ip_to_id: Map<Ipv4Addr, u8>, id: u8, ip: Ipv4Addr) -> Map<Ipv4Addr, u8> {
    ip_to_id.remove_keys(addresses_of(ip_to_id, id)).insert(ip, id)
}

/// Whether `id` and `ip` can be bound without unbinding anything: neither is
/// bound.
pub open spec fn learnable(id_to_ip: Map<u8, Ipv4Addr>, ip_to_id: Map<Ipv4Addr, u8>, id: u8, ip: Ipv4Addr) -> bool {
    !id_to_ip.contains_key(id) && !ip_to_id.contains_key(ip)
}

/// The binding of ids to addresses after `id` was seen with `ip`: the pair
/// is added if neither was bound, and nothing changes otherwise.
pub open spec fn learned_ids(id_to_ip: Map<u8, Ipv4Addr>, ip_to_id: Map<Ipv4Addr, u8>, id: u8, ip: Ipv4Addr) -> Map<
    u8,
    Ipv4Addr,
> {
    if learnable(id_to_ip, ip_to_id, id, ip) {
        id_to_ip.insert(id, ip)
    } else {
        id_to_ip
    }
}

/// The binding of addresses to ids after `id` was seen with `ip`.
pub open spec fn learned_addresses(
    id_to_ip: Map<u8, Ipv4Addr>,
    ip_to_id: Map<Ipv4Addr, u8>,
    id: u8,
    ip: Ipv4Addr,
) -> Map<Ipv4Addr, u8> {
    if learnable(id_to_ip, ip_to_id, id, ip) {
        ip_to_id.insert(ip, id)
    } else {
        ip_to_id
    }
}

/// Whether a walk of at most `max_hops` edges leads from `from` to `to`.
pub open spec fn within_reach(edges: Map<(u8, u8), u8>, max_hops: u8, from: u8, to: u8) -> bool {
    exists|walk: Seq<u8>| #[trigger] walk_between(edges, walk, from, to) && walk.len() - 1 <= max_hops
}

/// Whether a datagram from `source` to `destination` can be routed: both
/// addresses are bound, and the node of the one is within reach of the node
/// of the other.
pub open spec fn routable(
    ip_to_id: Map<Ipv4Addr, u8>,
    edges: Map<(u8, u8), u8>,
    max_hops: u8,
    source: Ipv4Addr,
    destination: Ipv4Addr,
) -> bool {
    &&& ip_to_id.contains_key(source)
    &&& ip_to_id.contains_key(destination)
    &&& within_reach(edges, max_hops, ip_to_id[source], ip_to_id[destination])
}

/// The nodes after every node of `route` was added.
pub open spec fn with_route_nodes(nodes: Set<u8>, route: Seq<u8>) -> Set<u8> {
    Set::new(|node: u8| nodes.contains(node) || route.contains(node))
}

/// The sightings after every node of `route` was seen at the time `now`.
pub open spec fn with_sightings(last_seen: Map<u8, u64>, route: Seq<u8>, now: u64) -> Map<u8, u64> {
    Map::new(
        |node: u8| last_seen.contains_key(node) || route.contains(node),
        |node: u8|
            if route.contains(node) {
                now
            } else {
                last_seen[node]
            },
    )
}

/// The edges after each node of `route` was joined to the next by an edge
/// of weight 1.
pub open spec fn with_route_edges(edges: Map<(u8, u8), u8>, route: Seq<u8>) -> Map<(u8, u8), u8>
    decreases route.len(),
{
    if route.len() < 2 {
        edges
    } else {
        with_route_edges(edges, route.drop_last()).insert(
            edge_key(route[route.len() - 2], route[route.len() - 1]),
            1,
        )
    }
}

/// After a route was added, an edge joins each of its nodes to the next,
/// and every edge that was there before is still there.
pub proof fn lemma_route_edges(edges: Map<(u8, u8), u8>, route: Seq<u8>)
    ensures
        forall|i: int| 0 <= i < route.len() - 1 ==> adjacent(with_route_edges(edges, route), #[trigger] route[i], route[i + 1]),
        forall|key: (u8, u8)| #[trigger] edges.contains_key(key) ==> with_route_edges(edges, route).contains_key(key),
    decreases route.len(),
{
    if route.len() >= 2 {
        let shorter = route.drop_last();
        lemma_route_edges(edges, shorter);
        assert forall|i: int| 0 <= i < route.len() - 1 implies adjacent(
            with_route_edges(edges, route),
            #[trigger] route[i],
            route[i + 1],
        ) by {
            if i < route.len() - 2 {
                assert(adjacent(with_route_edges(edges, shorter), shorter[i], shorter[i + 1]));
            }
        }
    }
}

/// A node is in the first `count + 1` nodes of a route exactly when it is
/// in the first `count` or is the next one.
pub proof fn lemma_take_contains(route: Seq<u8>, count: int, node: u8)
    requires
        0 <= count < route.len(),
    ensures
        route.take(count + 1).contains(node) <==> route.take(count).contains(node) || route[count] == node,
{
    let longer = route.take(count + 1);
    let shorter = route.take(count);
    if longer.contains(node) {
        let i = choose|i: int| 0 <= i < longer.len() && longer[i] == node;
        if i < count {
            assert(shorter[i] == node);
        }
    }
    if shorter.contains(node) {
        let i = choose|i: int| 0 <= i < shorter.len() && shorter[i] == node;
        assert(longer[i] == node);
    }
    if route[count] == node {
        assert(longer[count] == node);
    }
}

/// The nodes after a broadcast with the given route was handled: the nodes
/// of the route and, if there are any, the node itself are added.
pub open spec fn broadcast_nodes(nodes: Set<u8>, self_id: u8, route: Seq<u8>) -> Set<u8> {
    if route.len() == 0 {
        nodes
    } else {
        with_route_nodes(nodes, route).insert(self_id)
    }
}

/// The edges after a broadcast with the given route was handled: each node
/// of the route is joined to the next, and the node itself to the last.
pub open spec fn broadcast_edges(edges: Map<(u8, u8), u8>, self_id: u8, route: Seq<u8>) -> Map<(u8, u8), u8> {
    if route.len() == 0 {
        edges
    } else {
        with_route_edges(edges, route).insert(edge_key(self_id, route[route.len() - 1]), 1)
    }
}

/// The gateway address after a broadcast was handled: what a gateway other
/// than the node itself announces, else what was known before.
pub open spec fn broadcast_gateway(
    gateway_ip: Option<Ipv4Addr>,
    self_id: u8,
    sender: u8,
    isgateway: bool,
    ipaddr: Option<Ipv4Addr>,
) -> Option<Ipv4Addr> {
    if isgateway && sender != self_id {
        ipaddr
    } else {
        gateway_ip
    }
}

/// The binding of ids to addresses after `sender` was seen with the address
/// that its broadcast carries, if any.
pub open spec fn seen_ids(
    id_to_ip: Map<u8, Ipv4Addr>,
    ip_to_id: Map<Ipv4Addr, u8>,
    sender: u8,
    ipaddr: Option<Ipv4Addr>,
) -> Map<u8, Ipv4Addr> {
    match ipaddr {
        Some(ip) => learned_ids(id_to_ip, ip_to_id, sender, ip),
        None => id_to_ip,
    }
}

/// The binding of addresses to ids after `sender` was seen with the address
/// that its broadcast carries, if any.
pub open spec fn seen_addresses(
    id_to_ip: Map<u8, Ipv4Addr>,
    ip_to_id: Map<Ipv4Addr, u8>,
    sender: u8,
    ipaddr: Option<Ipv4Addr>,
) -> Map<Ipv4Addr, u8> {
    match ipaddr {
        Some(ip) => learned_addresses(id_to_ip, ip_to_id, sender, ip),
        None => ip_to_id,
    }
}

/// Whether a broadcast asks this router for an address: it carries none, and
/// the router is the gateway's.
pub open spec fn asks_for_address(offset: usize, is_gateway: bool) -> bool {
    offset == 0 && is_gateway
}

/// Whether `node` is an end of one of the pairs.
pub open spec fn is_end_of(pairs: Seq<(u8, u8)>, node: u8) -> bool {
    exists|i: int| 0 <= i < pairs.len() && (#[trigger] pairs[i].0 == node || pairs[i].1 == node)
}

/// The nodes after both ends of every pair were added.
pub open spec fn with_pair_nodes(nodes: Set<u8>, pairs: Seq<(u8, u8)>) -> Set<u8> {
    Set::new(|node: u8| nodes.contains(node) || is_end_of(pairs, node))
}

/// The sightings after both ends of every pair were seen at the time `now`.
pub open spec fn with_pair_sightings(last_seen: Map<u8, u64>, pairs: Seq<(u8, u8)>, now: u64) -> Map<u8, u64> {
    Map::new(
        |node: u8| last_seen.contains_key(node) || is_end_of(pairs, node),
        |node: u8|
            if is_end_of(pairs, node) {
                now
            } else {
                last_seen[node]
            },
    )
}

/// The edges after the two ends of every pair were joined by an edge of
/// weight 1.
pub open spec fn with_pair_edges(edges: Map<(u8, u8), u8>, pairs: Seq<(u8, u8)>) -> Map<(u8, u8), u8>
    decreases pairs.len(),
{
    if pairs.len() == 0 {
        edges
    } else {
        with_pair_edges(edges, pairs.drop_last()).insert(
            edge_key(pairs[pairs.len() - 1].0, pairs[pairs.len() - 1].1),
            1,
        )
    }
}

/// After pairs were added, an edge joins the two ends of each.
pub proof fn lemma_pair_edges(edges: Map<(u8, u8), u8>, pairs: Seq<(u8, u8)>)
    ensures
        forall|i: int| 0 <= i < pairs.len() ==> adjacent(with_pair_edges(edges, pairs), (#[trigger] pairs[i]).0, pairs[i].1),
        forall|key: (u8, u8)| #[trigger] edges.contains_key(key) ==> with_pair_edges(edges, pairs).contains_key(key),
    decreases pairs.len(),
{
    if pairs.len() > 0 {
        let shorter = pairs.drop_last();
        lemma_pair_edges(edges, shorter);
        assert forall|i: int| 0 <= i < pairs.len() implies adjacent(
            with_pair_edges(edges, pairs),
            (#[trigger] pairs[i]).0,
            pairs[i].1,
        ) by {
            if i < pairs.len() - 1 {
                assert(adjacent(with_pair_edges(edges, shorter), shorter[i].0, shorter[i].1));
            }
        }
    }
}

/// A node is an end of one of the first `count + 1` pairs exactly when it
/// is an end of one of the first `count` or of the next one.
pub proof fn lemma_take_ends(pairs: Seq<(u8, u8)>, count: int, node: u8)
    requires
        0 <= count < pairs.len(),
    ensures
        is_end_of(pairs.take(count + 1), node) <==> is_end_of(pairs.take(count), node) || pairs[count].0 == node
            || pairs[count].1 == node,
{
    let longer = pairs.take(count + 1);
    let shorter = pairs.take(count);
    if is_end_of(longer, node) {
        let i = choose|i: int| 0 <= i < longer.len() && (#[trigger] longer[i].0 == node || longer[i].1 == node);
        if i < count {
            assert(shorter[i].0 == node || shorter[i].1 == node);
        }
    }
    if is_end_of(shorter, node) {
        let i = choose|i: int| 0 <= i < shorter.len() && (#[trigger] shorter[i].0 == node || shorter[i].1 == node);
        assert(longer[i].0 == node || longer[i].1 == node);
    }
    if pairs[count].0 == node || pairs[count].1 == node {
        assert(longer[count].0 == node || longer[count].1 == node);
    }
}

/// Whether a node can have the id.
pub open spec fn is_node_id(id: u8) -> bool {
    MIN_NODE_ID <= id <= MAX_NODE_ID
}

/// What the allocator answers when `id` asks for an address: the address
/// that `id` holds already, marked as not new; else, for an id that a node
/// can have, the address made from the id, marked as new; else nothing.
pub open spec fn assignment(id_to_ip: Map<u8, Ipv4Addr>, id: u8) -> Option<(Ipv4Addr, bool)> {
    if id_to_ip.contains_key(id) {
        Some((id_to_ip[id], false))
    } else if is_node_id(id) {
        Some((assigned_address(id), true))
    } else {
        None
    }
}

/// The binding of ids to addresses after the allocator has answered `id`.
pub open spec fn assigned_ids(id_to_ip: Map<u8, Ipv4Addr>, id: u8) -> Map<u8, Ipv4Addr> {
    if !id_to_ip.contains_key(id) && is_node_id(id) {
        bound_ids(id_to_ip, id, assigned_address(id))
    } else {
        id_to_ip
    }
}

/// The binding of addresses to ids after the allocator has answered `id`.
pub open spec fn assigned_addresses(id_to_ip: Map<u8, Ipv4Addr>, ip_to_id: Map<Ipv4Addr, u8>, id: u8) -> Map<
    Ipv4Addr,
    u8,
> {
    if !id_to_ip.contains_key(id) && is_node_id(id) {
        bound_addresses(ip_to_id, id, assigned_address(id))
    } else {
        ip_to_id
    }
}

/// An id that asks twice gets the same address twice, the second time
/// marked as not new, and the second answer changes no binding.
pub proof fn lemma_assign_twice(id_to_ip: Map<u8, Ipv4Addr>, ip_to_id: Map<Ipv4Addr, u8>, id: u8)
    requires
        assignment(id_to_ip, id).is_some(),
    ensures
        assignment(assigned_ids(id_to_ip, id), id) == Some((assignment(id_to_ip, id).unwrap().0, false)),
        assigned_ids(assigned_ids(id_to_ip, id), id) == assigned_ids(id_to_ip, id),
        assigned_addresses(assigned_ids(id_to_ip, id), assigned_addresses(id_to_ip, ip_to_id, id), id)
            == assigned_addresses(id_to_ip, ip_to_id, id),
{
}

/// Adding a node twice is adding it once.
pub proof fn lemma_node_add_twice(nodes: Set<u8>, node: u8)
    ensures
        nodes.insert(node).insert(node) == nodes.insert(node),
{
    assert(nodes.insert(node).insert(node) =~= nodes.insert(node));
}

/// Adding an edge twice is adding it once.
pub proof fn lemma_edge_add_twice(nodes: Set<u8>, edges: Map<(u8, u8), u8>, a: u8, b: u8)
    ensures
        nodes.insert(a).insert(b).insert(a).insert(b) == nodes.insert(a).insert(b),
        edges.insert(edge_key(a, b), 1).insert(edge_key(a, b), 1) == edges.insert(edge_key(a, b), 1),
        edges.insert(edge_key(a, b), 1) == edges.insert(edge_key(b, a), 1),
{
    assert(nodes.insert(a).insert(b).insert(a).insert(b) =~= nodes.insert(a).insert(b));
    assert(edges.insert(edge_key(a, b), 1).insert(edge_key(a, b), 1) =~= edges.insert(edge_key(a, b), 1));
}

/// Cutting a graph down to a spanning forest twice is cutting it down once:
/// the second time changes nothing.
pub proof fn lemma_prune_twice(first: &MeshRouter, second: &MeshRouter, third: &MeshRouter)
    requires
        first.wf(),
        second.pruned(first),
        third.pruned(second),
    ensures
        third.nodes() == second.nodes(),
        third.edges() == second.edges(),
        third.same_but_graph(second),
{
    first.lemma_wf();
    lemma_forest_fixed_point(first.nodes(), first.edges(), second.edges(), third.edges());
}

/// Binding keeps the two maps inverses of each other.
pub proof fn lemma_bound_inverse(id_to_ip: Map<u8, Ipv4Addr>, ip_to_id: Map<Ipv4Addr, u8>, id: u8, ip: Ipv4Addr)
    requires
        inverse_maps(id_to_ip, ip_to_id),
    ensures
        inverse_maps(bound_ids(id_to_ip, id, ip), bound_addresses(ip_to_id, id, ip)),
{
    let ids = bound_ids(id_to_ip, id, ip);
    let ips = bound_addresses(ip_to_id, id, ip);
    assert forall|j: u8| #[trigger] ids.contains_key(j) implies ips.contains_key(ids[j]) && ips[ids[j]] == j by {
        if j != id {
            assert(id_to_ip.contains_key(j));
            assert(ip_to_id.contains_key(id_to_ip[j]));
        }
    }
    assert forall|a: Ipv4Addr| #[trigger] ips.contains_key(a) implies ids.contains_key(ips[a]) && ids[ips[a]] == a by {
        if a != ip {
            assert(ip_to_id.contains_key(a));
            assert(id_to_ip.contains_key(ip_to_id[a]));
        }
    }
}

/// The state of the mesh as one node knows it.
pub struct MeshRouter {
    nodeid: u8,
    gatewayipaddr: Option<Ipv4Addr>,
    maxhops: u8,
    timeout: u64,
    retries: u8,
    observations: HashMap<u8, u64>,
    graph: MeshGraph,
    id2ip: HashMap<u8, Ipv4Addr>,
    ip2id: HashMap<u32, u8>,
    isgateway: bool,
}

impl MeshRouter {
    /// The id of the node that owns the router.
    pub closed spec fn self_id(&self) -> u8 {
        self.nodeid
    }

    /// Whether the node that owns the router is the gateway.
    pub closed spec fn is_gateway(&self) -> bool {
        self.isgateway
    }

    /// The address of the gateway, once known.
    pub closed spec fn gateway_ip(&self) -> Option<Ipv4Addr> {
        self.gatewayipaddr
    }

    /// The largest number of hops that a route may take.
    pub closed spec fn max_hops(&self) -> u8 {
        self.maxhops
    }

    /// The time, in milliseconds, after which an unanswered message is given up.
    pub closed spec fn timeout(&self) -> u64 {
        self.timeout
    }

    /// The number of times that an unanswered message is sent again.
    pub closed spec fn retries(&self) -> u8 {
        self.retries
    }

    /// The nodes of the graph.
    pub closed spec fn nodes(&self) -> Set<u8> {
        graph_nodes(self.graph)
    }

    /// The edges of the graph, each under the key of its ends, with its weight.
    pub closed spec fn edges(&self) -> Map<(u8, u8), u8> {
        graph_edges(self.graph)
    }

    /// The time at which each observed node was last seen.
    pub closed spec fn last_seen(&self) -> Map<u8, u64> {
        self.observations@
    }

    /// The address that each bound id holds.
    pub closed spec fn id_to_ip(&self) -> Map<u8, Ipv4Addr> {
        self.id2ip@
    }

    /// The id that holds each bound address.
    pub closed spec fn ip_to_id(&self) -> Map<Ipv4Addr, u8> {
        Map::new(
            |ip: Ipv4Addr| self.ip2id@.contains_key(ip.value() as u32),
            |ip: Ipv4Addr| self.ip2id@[ip.value() as u32],
        )
    }

    /// The graph is a mesh graph and the two bindings are inverses of each
    /// other.
    pub closed spec fn wf(&self) -> bool {
        &&& mesh_graph(self.nodes(), self.edges())
        &&& inverse_maps(self.id_to_ip(), self.ip_to_id())
    }

    /// What `wf` says, for callers.
    pub proof fn lemma_wf(&self)
        requires
            self.wf(),
        ensures
            mesh_graph(self.nodes(), self.edges()),
            inverse_maps(self.id_to_ip(), self.ip_to_id()),
    {
    }

    /// An id is bound to an address exactly when the address is bound to
    /// the id.
    pub proof fn lemma_bindings_inverse(&self, id: u8, ip: Ipv4Addr)
        requires
            self.wf(),
        ensures
            (self.id_to_ip().contains_key(id) && self.id_to_ip()[id] == ip) <==> (self.ip_to_id().contains_key(ip)
                && self.ip_to_id()[ip] == id),
    {
    }

    /// A router that knows no node, no edge and no binding.
    pub fn new(nodeid: u8, gatewayipaddr: Option<Ipv4Addr>, maxhops: u8, timeout: u64, isgateway: bool) -> (router: Self)
        ensures
            router.wf(),
            router.self_id() == nodeid,
            router.gateway_ip() == gatewayipaddr,
            router.max_hops() == maxhops,
            router.timeout() == timeout,
            router.retries() == 1,
            router.is_gateway() == isgateway,
            router.nodes() == Set::<u8>::empty(),
            router.edges() == no_edges(),
            router.last_seen() == Map::<u8, u64>::empty(),
            router.id_to_ip() == Map::<u8, Ipv4Addr>::empty(),
            router.ip_to_id() == Map::<Ipv4Addr, u8>::empty(),
    {
        let router = MeshRouter {
            nodeid,
            gatewayipaddr,
            maxhops,
            timeout,
            retries: 1,
            observations: HashMap::new(),
            graph: graph_new(),
            id2ip: HashMap::new(),
            ip2id: HashMap::new(),
            isgateway,
        };
        assert(router.ip_to_id() =~= Map::<Ipv4Addr, u8>::empty());
        router
    }

    /// Whether the two routers differ in nothing but their graphs.
    pub open spec fn same_but_graph(&self, other: &Self) -> bool {
        &&& self.same_settings(other)
        &&& self.gateway_ip() == other.gateway_ip()
        &&& self.last_seen() == other.last_seen()
        &&& self.id_to_ip() == other.id_to_ip()
        &&& self.ip_to_id() == other.ip_to_id()
    }

    /// Whether the two routers belong to the same node with the same limits.
    pub open spec fn same_settings(&self, other: &Self) -> bool {
        &&& self.self_id() == other.self_id()
        &&& self.is_gateway() == other.is_gateway()
        &&& self.max_hops() == other.max_hops()
        &&& self.timeout() == other.timeout()
        &&& self.retries() == other.retries()
    }

    /// Whether the two routers hold the same graph.
    pub open spec fn same_graph(&self, other: &Self) -> bool {
        &&& self.nodes() == other.nodes()
        &&& self.edges() == other.edges()
    }

    /// Add a new node to our mesh
    pub fn node_add(&mut self, nodeid: u8)
        requires
            old(self).wf(),
        ensures
            final(self).wf(),
            final(self).nodes() == old(self).nodes().insert(nodeid),
            final(self).edges() == old(self).edges(),
            final(self).same_but_graph(old(self)),
    {
        graph_add_node(&mut self.graph, nodeid);
    }

    /// Adds an edge of weight 1 between two nodes, and the nodes with it.
    pub fn edge_add(&mut self, src: u8, dest: u8)
        requires
            old(self).wf(),
        ensures
            final(self).wf(),
            final(self).nodes() == old(self).nodes().insert(src).insert(dest),
            final(self).edges() == old(self).edges().insert(edge_key(src, dest), 1),
            adjacent(final(self).edges(), src, dest),
            final(self).same_but_graph(old(self)),
    {
        graph_add_edge(&mut self.graph, src, dest, 1);
    }

    /// Removes a node from the mesh
    pub fn node_remove(&mut self, nodeid: u8)
        requires
            old(self).wf(),
        ensures
            final(self).wf(),
            final(self).nodes() == old(self).nodes().remove(nodeid),
            final(self).edges() == old(self).edges().remove_keys(Set::new(|key: (u8, u8)| touches(key, nodeid))),
            final(self).same_but_graph(old(self)),
    {
        graph_remove_node(&mut self.graph, nodeid);
        proof {
            let gone = Set::new(|key: (u8, u8)| touches(key, nodeid));
            assert(self.edges().dom() =~= old(self).edges().dom().difference(gone));
            vstd::set_lib::lemma_len_subset(self.edges().dom(), old(self).edges().dom());
            assert forall|key: (u8, u8)| #[trigger] self.edges().contains_key(key) implies key.0 <= key.1
                && self.nodes().contains(key.0) && self.nodes().contains(key.1) && self.edges()[key] == 1 by {
                assert(old(self).edges().contains_key(key));
            }
        }
    }

    /// Track each node observation for routing purposes
    pub fn node_observe_put(&mut self, nodeid: u8, now: u64)
        ensures
            final(self).last_seen() == old(self).last_seen().insert(nodeid, now),
            final(self).same_graph(old(self)),
            final(self).same_settings(old(self)),
            final(self).gateway_ip() == old(self).gateway_ip(),
            final(self).id_to_ip() == old(self).id_to_ip(),
            final(self).ip_to_id() == old(self).ip_to_id(),
            old(self).wf() ==> final(self).wf(),
    {
        self.observations.insert(nodeid, now);
    }

    /// The time at which the node was last seen, if it ever was.
    pub fn node_observe_get(&self, nodeid: &u8) -> (seen: Option<u64>)
        ensures
            seen == if self.last_seen().contains_key(*nodeid) {
                Some(self.last_seen()[*nodeid])
            } else {
                None
            },
    {
        match self.observations.get(nodeid) {
            Some(when) => Some(*when),
            None => None,
        }
    }

    /// Whether the node is in the graph.
    pub fn contains_node(&self, nodeid: u8) -> (found: bool)
        ensures
            found == self.nodes().contains(nodeid),
    {
        graph_contains_node(&self.graph, nodeid)
    }

    /// Whether an edge joins the two nodes.
    pub fn contains_edge(&self, src: u8, dest: u8) -> (found: bool)
        ensures
            found == adjacent(self.edges(), src, dest),
    {
        graph_contains_edge(&self.graph, src, dest)
    }

    /// The number of nodes in the graph.
    pub fn node_count(&self) -> (count: usize)
        ensures
            count == self.nodes().len(),
    {
        graph_node_count(&self.graph)
    }

    /// The number of edges in the graph.
    pub fn edge_count(&self) -> (count: usize)
        ensures
            count == self.edges().dom().len(),
    {
        graph_edge_count(&self.graph)
    }

    /// The address of the gateway, once known.
    pub fn gateway(&self) -> (ip: Option<Ipv4Addr>)
        ensures
            ip == self.gateway_ip(),
    {
        self.gatewayipaddr
    }

    /// The address that the id holds, if it is bound.
    pub fn ip_of(&self, nodeid: u8) -> (ip: Option<Ipv4Addr>)
        ensures
            ip == if self.id_to_ip().contains_key(nodeid) {
                Some(self.id_to_ip()[nodeid])
            } else {
                None
            },
    {
        match self.id2ip.get(&nodeid) {
            Some(ip) => Some(*ip),
            None => None,
        }
    }

    /// The id that holds the address, if it is bound.
    pub fn id_of(&self, ip: &Ipv4Addr) -> (nodeid: Option<u8>)
        ensures
            nodeid == if self.ip_to_id().contains_key(*ip) {
                Some(self.ip_to_id()[*ip])
            } else {
                None
            },
    {
        let key: u32 = ip.to_u32();
        match self.ip2id.get(&key) {
            Some(id) => Some(*id),
            None => None,
        }
    }

    /// Records the address of the gateway.
    pub fn handle_gateway_assignment(&mut self, gatewayip: &Ipv4Addr)
        ensures
            final(self).gateway_ip() == Some(*gatewayip),
            final(self).same_graph(old(self)),
            final(self).same_settings(old(self)),
            final(self).last_seen() == old(self).last_seen(),
            final(self).id_to_ip() == old(self).id_to_ip(),
            final(self).ip_to_id() == old(self).ip_to_id(),
            old(self).wf() ==> final(self).wf(),
    {
        self.gatewayipaddr = Some(*gatewayip);
    }

    /// Whether the two routers differ in nothing but their bindings.
    pub open spec fn same_but_bindings(&self, other: &Self) -> bool {
        &&& self.same_settings(other)
        &&& self.same_graph(other)
        &&& self.gateway_ip() == other.gateway_ip()
        &&& self.last_seen() == other.last_seen()
    }

    /// Binds `nodeid` and `ipaddr` to each other. What either was bound to
    /// before is bound no more.
    pub fn bind(&mut self, nodeid: u8, ipaddr: Ipv4Addr)
        requires
            old(self).wf(),
        ensures
            final(self).wf(),
            final(self).id_to_ip() == bound_ids(old(self).id_to_ip(), nodeid, ipaddr),
            final(self).ip_to_id() == bound_addresses(old(self).ip_to_id(), nodeid, ipaddr),
            final(self).same_but_bindings(old(self)),
    {
        let key: u32 = ipaddr.to_u32();
        let held: Option<Ipv4Addr> = self.ip_of(nodeid);
        if let Some(previous) = held {
            let previous_key: u32 = previous.to_u32();
            self.ip2id.remove(&previous_key);
        }
        let holder: Option<u8> = match self.ip2id.get(&key) {
            Some(id) => Some(*id),
            None => None,
        };
        if let Some(other) = holder {
            self.id2ip.remove(&other);
        }
        self.id2ip.insert(nodeid, ipaddr);
        self.ip2id.insert(key, nodeid);
        proof {
            let ids = old(self).id_to_ip();
            let ips = old(self).ip_to_id();
            assert forall|a: Ipv4Addr, b: Ipv4Addr| a.value() as u32 == b.value() as u32 implies a == b by {
                a.lemma_value_injective(b);
            }
            assert forall|j: u8| #[trigger] holders_of(ids, ipaddr).contains(j) implies (j == nodeid || holder == Some(
                j,
            )) by {
                assert(ips.contains_key(ids[j]));
            }
            if let Some(other) = holder {
                assert(ips.contains_key(ipaddr) && ips[ipaddr] == other);
                assert(holders_of(ids, ipaddr).contains(other));
            }
            assert(self.id_to_ip() =~= bound_ids(ids, nodeid, ipaddr));
            assert forall|a: Ipv4Addr| #[trigger] addresses_of(ips, nodeid).contains(a) implies held == Some(a) by {
                assert(ids.contains_key(ips[a]));
            }
            if let Some(previous) = held {
                assert(ips.contains_key(previous));
                assert(addresses_of(ips, nodeid).contains(previous));
            }
            assert(self.ip_to_id() =~= bound_addresses(ips, nodeid, ipaddr));
            lemma_bound_inverse(ids, ips, nodeid, ipaddr);
        }
    }

    /// Binds `nodeid` and `ipaddr` to each other if neither is bound, and
    /// says whether the two are bound to each other afterwards.
    pub fn learn(&mut self, nodeid: u8, ipaddr: Ipv4Addr) -> (known: bool)
        requires
            old(self).wf(),
        ensures
            final(self).wf(),
            final(self).same_but_bindings(old(self)),
            known == learnable(old(self).id_to_ip(), old(self).ip_to_id(), nodeid, ipaddr)
                || (old(self).id_to_ip().contains_key(nodeid) && old(self).id_to_ip()[nodeid] == ipaddr),
            final(self).id_to_ip() == learned_ids(old(self).id_to_ip(), old(self).ip_to_id(), nodeid, ipaddr),
            final(self).ip_to_id() == learned_addresses(old(self).id_to_ip(), old(self).ip_to_id(), nodeid, ipaddr),
    {
        let held = self.ip_of(nodeid);
        let holder = self.id_of(&ipaddr);
        match (held, holder) {
            (None, None) => {
                self.bind(nodeid, ipaddr);
                proof {
                    let ids = old(self).id_to_ip();
                    let ips = old(self).ip_to_id();
                    assert forall|j: u8| !(#[trigger] holders_of(ids, ipaddr).contains(j)) by {
                        if ids.contains_key(j) && ids[j] == ipaddr {
                            assert(ips.contains_key(ids[j]));
                        }
                    }
                    assert forall|a: Ipv4Addr| !(#[trigger] addresses_of(ips, nodeid).contains(a)) by {
                        if ips.contains_key(a) && ips[a] == nodeid {
                            assert(ids.contains_key(ips[a]));
                        }
                    }
                    assert(ids.remove_keys(holders_of(ids, ipaddr)) =~= ids);
                    assert(ips.remove_keys(addresses_of(ips, nodeid)) =~= ips);
                }
                true
            },
            (Some(previous), _) => previous == ipaddr,
            (None, Some(_)) => false,
        }
    }

    /// Whether this router is what `before` becomes when its own node gets
    /// the address `ipaddr`: the node is in the graph and bound to the address.
    pub open spec fn assigned_self(&self, before: &Self, ipaddr: Ipv4Addr) -> bool {
        &&& self.nodes() == before.nodes().insert(before.self_id())
        &&& self.edges() == before.edges()
        &&& self.id_to_ip() == bound_ids(before.id_to_ip(), before.self_id(), ipaddr)
        &&& self.ip_to_id() == bound_addresses(before.ip_to_id(), before.self_id(), ipaddr)
        &&& self.same_settings(before)
        &&& self.gateway_ip() == before.gateway_ip()
        &&& self.last_seen() == before.last_seen()
    }

    /// Update our router with new IP
    pub fn handle_ip_assignment(&mut self, ipaddr: &Ipv4Addr)
        requires
            old(self).wf(),
        ensures
            final(self).wf(),
            final(self).assigned_self(old(self), *ipaddr),
            final(self).nodes() == old(self).nodes().insert(old(self).self_id()),
            final(self).edges() == old(self).edges(),
            final(self).id_to_ip() == bound_ids(old(self).id_to_ip(), old(self).self_id(), *ipaddr),
            final(self).ip_to_id() == bound_addresses(old(self).ip_to_id(), old(self).self_id(), *ipaddr),
            final(self).id_to_ip()[final(self).self_id()] == *ipaddr,
            final(self).ip_to_id()[*ipaddr] == final(self).self_id(),
            final(self).same_settings(old(self)),
            final(self).gateway_ip() == old(self).gateway_ip(),
            final(self).last_seen() == old(self).last_seen(),
    {
        let nodeid: u8 = self.nodeid;
        self.node_add(nodeid);
        self.bind(nodeid, *ipaddr);
    }

    /// Assign IP address to node
    pub fn ip_assign(&mut self, nodeid: u8) -> (answer: Result<(Ipv4Addr, bool), IPAssignFailureMessage>)
        requires
            old(self).wf(),
        ensures
            final(self).wf(),
            final(self).same_but_bindings(old(self)),
            match assignment(old(self).id_to_ip(), nodeid) {
                Some(pair) => answer.is_ok() && answer.unwrap() == pair,
                None => answer.is_err() && answer.unwrap_err().header.is_none() && answer.unwrap_err().reason@
                    == ID_OUT_OF_RANGE@,
            },
            final(self).id_to_ip() == assigned_ids(old(self).id_to_ip(), nodeid),
            final(self).ip_to_id() == assigned_addresses(old(self).id_to_ip(), old(self).ip_to_id(), nodeid),
            answer.is_ok() ==> final(self).id_to_ip().contains_key(nodeid) && final(self).id_to_ip()[nodeid]
                == answer.unwrap().0,
    {
        match self.ip_of(nodeid) {
            None => {
                if nodeid < MIN_NODE_ID || nodeid > MAX_NODE_ID {
                    return Err(IPAssignFailureMessage::new(String::from_str(ID_OUT_OF_RANGE)));
                }
                let ipaddr = Ipv4Addr::new(172, 16, 0, nodeid);
                self.bind(nodeid, ipaddr);
                Ok((ipaddr, true))
            },
            Some(ip) => Ok((ip, false)),
        }
    }

    /// Whether this router is what `before` becomes when its graph is cut
    /// down to a spanning forest: the same nodes, and of the edges a spanning
    /// forest.
    pub open spec fn pruned(&self, before: &Self) -> bool {
        &&& self.nodes() == before.nodes()
        &&& spanning_forest_of(before.nodes(), self.edges(), before.edges())
        &&& self.same_but_graph(before)
    }

    /// Applies a spanning tree algorithm to the mesh graph
    pub fn min_spanning_tree(&mut self)
        requires
            old(self).wf(),
        ensures
            final(self).wf(),
            final(self).pruned(old(self)),
            final(self).nodes() == old(self).nodes(),
            spanning_forest_of(old(self).nodes(), final(self).edges(), old(self).edges()),
            final(self).nodes().len() == final(self).edges().dom().len() + component_count(
                final(self).nodes(),
                final(self).edges(),
            ),
            acyclic(final(self).edges()),
            final(self).same_but_graph(old(self)),
    {
        let forest = graph_spanning_forest(&self.graph);
        self.graph = forest;
        proof {
            lemma_submap_mesh_graph(old(self).nodes(), self.edges(), old(self).edges());
            lemma_forest_size(old(self).nodes(), old(self).edges(), self.edges());
        }
    }

    /// Routes an IP packet to a node in the mesh, if it's possible
    pub fn packet_route(&self, packet: &Ipv4Packet) -> (route: Option<Vec<u8>>)
        requires
            self.wf(),
        ensures
            route.is_some() == routable(
                self.ip_to_id(),
                self.edges(),
                self.max_hops(),
                source_of(packet@),
                destination_of(packet@),
            ),
            route.is_some() ==> {
                let from = self.ip_to_id()[source_of(packet@)];
                let to = self.ip_to_id()[destination_of(packet@)];
                &&& walk_between(self.edges(), route.unwrap()@, from, to)
                &&& route.unwrap()@.len() - 1 <= self.max_hops()
                &&& forall|other: Seq<u8>| #[trigger]
                    walk_between(self.edges(), other, from, to) ==> route.unwrap()@.len() <= other.len()
                &&& is_path(route.unwrap()@)
            },
    {
        // look up ip and ensure it's in our mesh
        let src: u8 = match self.id_of(&packet.source()) {
            Some(id) => id,
            None => {
                return None;
            },
        };
        let dest: u8 = match self.id_of(&packet.destination()) {
            Some(id) => id,
            None => {
                return None;
            },
        };
        match graph_shortest_path(&self.graph, src, dest) {
            None => None,
            Some((cost, path)) => {
                proof {
                    lemma_unit_cost(self.nodes(), self.edges(), path@);
                    assert forall|other: Seq<u8>| #[trigger]
                        walk_between(self.edges(), other, src, dest) implies path@.len() <= other.len() by {
                        lemma_unit_cost(self.nodes(), self.edges(), other);
                    }
                    lemma_shortest_walk_is_path(self.edges(), path@, src, dest);
                }
                if path.len() - 1 > self.maxhops as usize {
                    None
                } else {
                    Some(path)
                }
            },
        }
    }

    /// Whether the two routers differ in nothing but their graphs and
    /// sightings.
    pub open spec fn same_but_mesh(&self, other: &Self) -> bool {
        &&& self.same_settings(other)
        &&& self.gateway_ip() == other.gateway_ip()
        &&& self.id_to_ip() == other.id_to_ip()
        &&& self.ip_to_id() == other.ip_to_id()
    }

    /// Observes every node of a route and adds it to the graph.
    pub fn observe_route(&mut self, route: &Vec<u8>, now: u64)
        requires
            old(self).wf(),
        ensures
            final(self).wf(),
            final(self).nodes() == with_route_nodes(old(self).nodes(), route@),
            final(self).edges() == old(self).edges(),
            final(self).last_seen() == with_sightings(old(self).last_seen(), route@, now),
            final(self).same_but_mesh(old(self)),
    {
        let mut i: usize = 0;
        proof {
            assert(with_route_nodes(self.nodes(), route@.take(0)) =~= self.nodes());
            assert(with_sightings(self.last_seen(), route@.take(0), now) =~= self.last_seen());
        }
        while i < route.len()
            invariant
                i <= route@.len(),
                self.wf(),
                self.nodes() == with_route_nodes(old(self).nodes(), route@.take(i as int)),
                self.edges() == old(self).edges(),
                self.last_seen() == with_sightings(old(self).last_seen(), route@.take(i as int), now),
                self.same_but_mesh(old(self)),
            decreases route@.len() - i,
        {
            let nodeid: u8 = route[i];
            self.node_observe_put(nodeid, now);
            self.node_add(nodeid);
            proof {
                let longer = route@.take(i as int + 1);
                let shorter = route@.take(i as int);
                assert forall|node: u8| #[trigger]
                    longer.contains(node) <==> shorter.contains(node) || route@[i as int] == node by {
                    lemma_take_contains(route@, i as int, node);
                }
                assert(self.nodes() =~= with_route_nodes(old(self).nodes(), longer));
                assert(self.last_seen() =~= with_sightings(old(self).last_seen(), longer, now));
            }
            i = i + 1;
        }
        assert(route@.take(i as int) =~= route@);
    }

    /// Joins each node of a route to the next by an edge.
    pub fn link_route(&mut self, route: &Vec<u8>)
        requires
            old(self).wf(),
        ensures
            final(self).wf(),
            final(self).nodes() == with_route_nodes(old(self).nodes(), if route@.len() < 2 {
                Seq::<u8>::empty()
            } else {
                route@
            }),
            final(self).edges() == with_route_edges(old(self).edges(), route@),
            final(self).same_but_graph(old(self)),
    {
        if route.len() < 2 {
            assert(with_route_nodes(self.nodes(), Seq::<u8>::empty()) =~= self.nodes());
            return ;
        }
        let mut i: usize = 0;
        while i < route.len() - 1
            invariant
                route@.len() >= 2,
                i <= route@.len() - 1,
                self.wf(),
                i > 0 ==> self.nodes() == with_route_nodes(old(self).nodes(), route@.take(i + 1)),
                i == 0 ==> self.nodes() == old(self).nodes(),
                self.edges() == with_route_edges(old(self).edges(), route@.take(i + 1)),
                self.same_but_graph(old(self)),
            decreases route@.len() - i,
        {
            let ghost before = self.nodes();
            self.edge_add(route[i], route[i + 1]);
            proof {
                let longer = route@.take(i as int + 2);
                let shorter = route@.take(i as int + 1);
                let first = route@.take(1);
                assert(longer.drop_last() =~= shorter);
                assert forall|node: u8| #[trigger]
                    longer.contains(node) <==> shorter.contains(node) || route@[i as int + 1] == node by {
                    lemma_take_contains(route@, i as int + 1, node);
                }
                assert forall|node: u8| #[trigger] first.contains(node) <==> route@[0] == node by {
                    if route@[0] == node {
                        assert(first[0] == node);
                    }
                }
                assert(shorter.contains(route@[i as int])) by {
                    assert(shorter[i as int] == route@[i as int]);
                }
                assert(self.nodes() =~= with_route_nodes(old(self).nodes(), longer));
            }
            i = i + 1;
        }
        assert(route@.take(i + 1) =~= route@);
    }

    /// Whether this router is what `before` becomes when it hears a
    /// broadcast of `sender` that came over `route` at the time `now`.
    pub open spec fn heard_broadcast(
        &self,
        before: &Self,
        sender: u8,
        isgateway: bool,
        ipaddr: Option<Ipv4Addr>,
        offset: usize,
        route: Seq<u8>,
        now: u64,
    ) -> bool {
        let ids = seen_ids(before.id_to_ip(), before.ip_to_id(), sender, ipaddr);
        let ips = seen_addresses(before.id_to_ip(), before.ip_to_id(), sender, ipaddr);
        &&& self.same_settings(before)
        &&& self.gateway_ip() == broadcast_gateway(before.gateway_ip(), before.self_id(), sender, isgateway, ipaddr)
        &&& self.last_seen() == with_sightings(before.last_seen(), route, now)
        &&& self.nodes() == broadcast_nodes(before.nodes(), before.self_id(), route)
        &&& self.edges() == broadcast_edges(before.edges(), before.self_id(), route)
        &&& self.id_to_ip() == if asks_for_address(offset, before.is_gateway()) {
            assigned_ids(ids, sender)
        } else {
            ids
        }
        &&& self.ip_to_id() == if asks_for_address(offset, before.is_gateway()) {
            assigned_addresses(ids, ips, sender)
        } else {
            ips
        }
    }

    /// What this router answers to a broadcast of `sender`: nothing, unless
    /// the broadcast asks for an address; else the address assigned to the
    /// sender and whether it is new, or a refusal if the sender's id is none
    /// that a node can have.
    pub open spec fn broadcast_answer(&self, sender: u8, ipaddr: Option<Ipv4Addr>, offset: usize) -> Result<
        Option<(Ipv4Addr, bool)>,
        (),
    > {
        let ids = seen_ids(self.id_to_ip(), self.ip_to_id(), sender, ipaddr);
        if asks_for_address(offset, self.is_gateway()) {
            match assignment(ids, sender) {
                Some(pair) => Ok(Some(pair)),
                None => Err(()),
            }
        } else {
            Ok(None)
        }
    }

    /// Handle a network broadcast, maybe node needs an IP?
    ///
    /// Records the gateway that the broadcast announces, observes the nodes
    /// of the route and joins them, joins this node to the last of them,
    /// remembers the sender's address, and, on the gateway, answers a sender
    /// without address with the address assigned to it.
    pub fn handle_broadcast(&mut self, broadcast: Box<BroadcastMessage>, route: Vec<u8>, now: u64) -> (answer: Result<
        Option<(Ipv4Addr, bool)>,
        IPAssignFailureMessage,
    >)
        requires
            old(self).wf(),
            broadcast.header.is_some(),
        ensures
            final(self).wf(),
            final(self).heard_broadcast(
                old(self),
                broadcast.header.unwrap()@.sender,
                broadcast.isgateway,
                broadcast.ipaddr,
                broadcast.ipOffset,
                route@,
                now,
            ),
            forall|i: int|
                0 <= i < route@.len() - 1 ==> adjacent(final(self).edges(), #[trigger] route@[i], route@[i + 1]),
            route@.len() > 0 ==> adjacent(final(self).edges(), old(self).self_id(), route@[route@.len() - 1]),
            match old(self).broadcast_answer(broadcast.header.unwrap()@.sender, broadcast.ipaddr, broadcast.ipOffset) {
                Ok(pair) => answer.is_ok() && answer.unwrap() == pair,
                Err(_) => answer.is_err() && answer.unwrap_err().header.is_none() && answer.unwrap_err().reason@
                    == ID_OUT_OF_RANGE@,
            },
    {
        let srcid: u8 = match &broadcast.header {
            Some(header) => header.sender(),
            None => 0,
        };
        if broadcast.isgateway && srcid != self.nodeid {
            self.gatewayipaddr = broadcast.ipaddr;
        }
        // observe our latest sighting

        self.observe_route(&route, now);

        // add IP to graph
        if let Some(ip) = broadcast.ipaddr {
            self.learn(srcid, ip);
        }
        // add edges for each node in the route

        self.link_route(&route);
        proof {
            assert(self.nodes() =~= with_route_nodes(old(self).nodes(), route@));
        }

        // add edge for ourself
        if route.len() > 0 {
            let nodeid: u8 = self.nodeid;
            self.edge_add(nodeid, route[route.len() - 1]);
            proof {
                let last = route@[route@.len() - 1];
                assert(route@.contains(last));
                assert(self.nodes() =~= broadcast_nodes(old(self).nodes(), old(self).self_id(), route@));
            }
        }
        proof {
            lemma_route_edges(old(self).edges(), route@);
            assert(self.nodes() =~= broadcast_nodes(old(self).nodes(), old(self).self_id(), route@));
        }
        if broadcast.ipOffset == 0 && self.isgateway {
            match self.ip_assign(srcid) {
                Ok(pair) => Ok(Some(pair)),
                Err(failure) => Err(failure),
            }
        } else {
            Ok(None)
        }
    }

    /// Adds a new route to the mesh, fail if route does not exist
    ///
    /// Both ends of every pair are observed and added, and joined by an edge.
    pub fn route_add(&mut self, route: Vec<(u8, u8)>, now: u64)
        requires
            old(self).wf(),
        ensures
            final(self).wf(),
            final(self).nodes() == with_pair_nodes(old(self).nodes(), route@),
            final(self).edges() == with_pair_edges(old(self).edges(), route@),
            final(self).last_seen() == with_pair_sightings(old(self).last_seen(), route@, now),
            forall|i: int| 0 <= i < route@.len() ==> adjacent(final(self).edges(), (#[trigger] route@[i]).0, route@[i].1),
            final(self).same_but_mesh(old(self)),
    {
        let mut i: usize = 0;
        proof {
            assert(with_pair_nodes(self.nodes(), route@.take(0)) =~= self.nodes());
            assert(with_pair_sightings(self.last_seen(), route@.take(0), now) =~= self.last_seen());
        }
        while i < route.len()
            invariant
                i <= route@.len(),
                self.wf(),
                self.nodes() == with_pair_nodes(old(self).nodes(), route@.take(i as int)),
                self.edges() == with_pair_edges(old(self).edges(), route@.take(i as int)),
                self.last_seen() == with_pair_sightings(old(self).last_seen(), route@.take(i as int), now),
                self.same_but_mesh(old(self)),
            decreases route@.len() - i,
        {
            let src: u8 = route[i].0;
            let dest: u8 = route[i].1;
            // we track each observation of every node
            self.node_observe_put(src, now);
            self.node_observe_put(dest, now);

            // now add the node if necessary
            self.node_add(src);
            self.node_add(dest);

            // now add the edges to our mesh
            self.edge_add(src, dest);
            proof {
                let longer = route@.take(i as int + 1);
                let shorter = route@.take(i as int);
                assert(longer.drop_last() =~= shorter);
                assert forall|node: u8| #[trigger]
                    is_end_of(longer, node) <==> is_end_of(shorter, node) || src == node || dest == node by {
                    lemma_take_ends(route@, i as int, node);
                }
                assert(self.nodes() =~= with_pair_nodes(old(self).nodes(), longer));
                assert(self.last_seen() =~= with_pair_sightings(old(self).last_seen(), longer, now));
            }
            i = i + 1;
        }
        proof {
            assert(route@.take(i as int) =~= route@);
            lemma_pair_edges(old(self).edges(), route@);
        }
    }
}

} // verus!
