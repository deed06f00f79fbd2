use loramesh::addr::Ipv4Addr;
use loramesh::broadcast::BroadcastMessage;
use loramesh::frame::Frame;
use loramesh::message::ToFromFrame;
use loramesh::packet::Ipv4Packet;
use loramesh::router::MeshRouter;

fn heard(sender: u8, isgateway: bool, ipaddr: Option<Ipv4Addr>) -> Box<BroadcastMessage> {
    let offset = if ipaddr.is_some() { 4 } else { 0 };
    let msg = BroadcastMessage { header: None, isgateway, ipOffset: offset, ipaddr };
    let frame: Frame = msg.to_frame(9, sender, vec![sender]);
    BroadcastMessage::from_frame(&frame).unwrap()
}

fn datagram(source: Ipv4Addr, destination: Ipv4Addr) -> Ipv4Packet {
    let mut bytes = vec![0u8; 24];
    bytes[0] = 0x45;
    bytes[3] = 24;
    bytes[8] = 64;
    bytes[9] = 17;
    bytes[12..16].copy_from_slice(&source.octets());
    bytes[16..20].copy_from_slice(&destination.octets());
    Ipv4Packet::new(bytes).unwrap()
}

fn gateway() -> MeshRouter {
    let mut router = MeshRouter::new(1, None, 2, 10_000, true);
    let ip = Ipv4Addr::new(172, 16, 0, 1);
    router.handle_ip_assignment(&ip);
    router.handle_gateway_assignment(&ip);
    router
}

#[test]
fn new_router_is_empty() {
    let router = MeshRouter::new(4, None, 2, 10_000, false);
    assert_eq!(router.node_count(), 0);
    assert_eq!(router.edge_count(), 0);
    assert_eq!(router.gateway(), None);
    assert_eq!(router.ip_of(4), None);
    assert_eq!(router.id_of(&Ipv4Addr::new(172, 16, 0, 4)), None);
    assert_eq!(router.node_observe_get(&4), None);
    assert!(!router.contains_node(4));
}

#[test]
fn gateway_allocates_on_broadcast_without_address() {
    let mut router = gateway();
    let answer = router.handle_broadcast(heard(3, false, None), vec![3], 50).unwrap();
    assert_eq!(answer, Some((Ipv4Addr::new(172, 16, 0, 3), true)));
    assert_eq!(router.ip_of(3), Some(Ipv4Addr::new(172, 16, 0, 3)));
    assert_eq!(router.id_of(&Ipv4Addr::new(172, 16, 0, 3)), Some(3));
    assert!(router.contains_node(3));
    assert!(router.contains_edge(1, 3));
    assert!(router.contains_edge(3, 1));
    assert_eq!(router.node_observe_get(&3), Some(50));

    // a second identical broadcast gets the same address, not new
    let again = router.handle_broadcast(heard(3, false, None), vec![3], 60).unwrap();
    assert_eq!(again, Some((Ipv4Addr::new(172, 16, 0, 3), false)));
    assert_eq!(router.node_observe_get(&3), Some(60));
    assert_eq!(router.node_count(), 2);
    assert_eq!(router.edge_count(), 1);
}

#[test]
fn peer_does_not_allocate() {
    let mut router = MeshRouter::new(3, None, 2, 10_000, false);
    let answer = router.handle_broadcast(heard(5, false, None), vec![5], 1).unwrap();
    assert_eq!(answer, None);
    assert_eq!(router.ip_of(5), None);
    assert!(router.contains_edge(3, 5));
}

#[test]
fn broadcast_with_address_asks_for_none() {
    let mut router = gateway();
    let ip = Ipv4Addr::new(172, 16, 0, 9);
    let answer = router.handle_broadcast(heard(9, false, Some(ip)), vec![9], 1).unwrap();
    assert_eq!(answer, None);
    assert_eq!(router.ip_of(9), Some(ip));
    assert_eq!(router.id_of(&ip), Some(9));
}

#[test]
fn broadcast_records_the_gateway() {
    let mut router = MeshRouter::new(3, None, 2, 10_000, false);
    let ip = Ipv4Addr::new(172, 16, 0, 1);
    router.handle_broadcast(heard(1, true, Some(ip)), vec![1], 1).unwrap();
    assert_eq!(router.gateway(), Some(ip));
    assert_eq!(router.id_of(&ip), Some(1));
    // a broadcast of the node itself changes nothing
    let own = Ipv4Addr::new(172, 16, 0, 3);
    router.handle_broadcast(heard(3, true, Some(own)), vec![3], 2).unwrap();
    assert_eq!(router.gateway(), Some(ip));
    // a peer's broadcast does not change the gateway
    router.handle_broadcast(heard(7, false, Some(Ipv4Addr::new(172, 16, 0, 7))), vec![7], 3).unwrap();
    assert_eq!(router.gateway(), Some(ip));
}

#[test]
fn broadcast_route_becomes_edges() {
    let mut router = MeshRouter::new(1, None, 2, 10_000, false);
    router.handle_broadcast(heard(7, false, None), vec![5, 6, 7], 11).unwrap();
    assert!(router.contains_edge(5, 6));
    assert!(router.contains_edge(6, 7));
    assert!(router.contains_edge(1, 7));
    assert!(!router.contains_edge(5, 7));
    assert!(!router.contains_edge(1, 5));
    assert_eq!(router.edge_count(), 3);
    assert_eq!(router.node_count(), 4);
    for id in [5u8, 6, 7] {
        assert!(router.contains_node(id));
        assert_eq!(router.node_observe_get(&id), Some(11));
    }
    assert!(router.contains_node(1));
    assert_eq!(router.node_observe_get(&1), None);
}

#[test]
fn broadcast_with_empty_route_adds_no_edge() {
    let mut router = gateway();
    let answer = router.handle_broadcast(heard(3, false, None), vec![], 5).unwrap();
    assert_eq!(answer, Some((Ipv4Addr::new(172, 16, 0, 3), true)));
    assert_eq!(router.edge_count(), 0);
    assert_eq!(router.node_count(), 1);
    assert!(!router.contains_node(3));
}

#[test]
fn assign_then_assign_is_stable() {
    let mut router = gateway();
    let first = router.ip_assign(42).unwrap();
    assert_eq!(first, (Ipv4Addr::new(172, 16, 0, 42), true));
    let second = router.ip_assign(42).unwrap();
    assert_eq!(second, (Ipv4Addr::new(172, 16, 0, 42), false));
    assert_eq!(router.ip_of(42), Some(Ipv4Addr::new(172, 16, 0, 42)));
    assert_eq!(router.id_of(&Ipv4Addr::new(172, 16, 0, 42)), Some(42));
}

#[test]
fn allocator_refuses_ids_out_of_range() {
    let mut router = gateway();
    for id in [0u8, 255] {
        let refused = router.ip_assign(id).unwrap_err();
        assert_eq!(refused.reason, "node id out of range");
        assert!(refused.header.is_none());
        assert_eq!(router.ip_of(id), None);
    }
    assert_eq!(router.ip_assign(254).unwrap(), (Ipv4Addr::new(172, 16, 0, 254), true));
    assert_eq!(router.ip_assign(1).unwrap(), (Ipv4Addr::new(172, 16, 0, 1), false));
    let refused = router.handle_broadcast(heard(255, false, None), vec![255], 1).unwrap_err();
    assert_eq!(refused.reason, "node id out of range");
}

#[test]
fn bindings_stay_inverse() {
    let mut router = MeshRouter::new(1, None, 2, 10_000, true);
    let a = Ipv4Addr::new(172, 16, 0, 5);
    let b = Ipv4Addr::new(172, 16, 0, 6);
    router.bind(5, a);
    router.bind(6, b);
    // binding 5 to b frees a and unbinds 6
    router.bind(5, b);
    assert_eq!(router.ip_of(5), Some(b));
    assert_eq!(router.id_of(&b), Some(5));
    assert_eq!(router.ip_of(6), None);
    assert_eq!(router.id_of(&a), None);
    // learning never unbinds
    assert!(!router.learn(6, b));
    assert_eq!(router.id_of(&b), Some(5));
    assert!(!router.learn(5, a));
    assert_eq!(router.ip_of(5), Some(b));
    assert!(router.learn(5, b));
    assert!(router.learn(6, a));
    assert_eq!(router.ip_of(6), Some(a));
    assert_eq!(router.id_of(&a), Some(6));
    // the address of an id is taken over by the allocator
    router.bind(9, Ipv4Addr::new(172, 16, 0, 7));
    assert_eq!(router.ip_assign(7).unwrap(), (Ipv4Addr::new(172, 16, 0, 7), true));
    assert_eq!(router.ip_of(9), None);
    assert_eq!(router.id_of(&Ipv4Addr::new(172, 16, 0, 7)), Some(7));
}

#[test]
fn node_add_is_idempotent() {
    let mut router = MeshRouter::new(1, None, 2, 10_000, false);
    router.node_add(8);
    assert_eq!(router.node_count(), 1);
    router.node_add(8);
    assert_eq!(router.node_count(), 1);
    assert_eq!(router.edge_count(), 0);
    assert!(router.contains_node(8));
    router.edge_add(8, 9);
    router.edge_add(9, 8);
    router.edge_add(8, 9);
    assert_eq!(router.node_count(), 2);
    assert_eq!(router.edge_count(), 1);
}

#[test]
fn node_remove_takes_its_edges() {
    let mut router = MeshRouter::new(1, None, 2, 10_000, false);
    router.route_add(vec![(1, 2), (2, 3), (3, 1), (3, 4)], 77);
    assert_eq!(router.node_count(), 4);
    assert_eq!(router.edge_count(), 4);
    assert_eq!(router.node_observe_get(&4), Some(77));
    router.node_remove(3);
    assert_eq!(router.node_count(), 3);
    assert_eq!(router.edge_count(), 1);
    assert!(router.contains_edge(1, 2));
    assert!(!router.contains_edge(2, 3));
    assert!(!router.contains_node(3));
    assert!(router.contains_node(4));
    router.node_remove(3);
    assert_eq!(router.node_count(), 3);
}

#[test]
fn spanning_tree_keeps_components_and_drops_cycles() {
    let mut router = MeshRouter::new(1, None, 2, 10_000, false);
    // a triangle, a square with a diagonal, a loop on a node, and a lone node
    router.route_add(vec![(1, 2), (2, 3), (3, 1)], 0);
    router.route_add(vec![(10, 11), (11, 12), (12, 13), (13, 10), (10, 12)], 0);
    router.edge_add(20, 20);
    router.node_add(30);
    assert_eq!(router.node_count(), 9);
    assert_eq!(router.edge_count(), 9);
    router.min_spanning_tree();
    // nine nodes in four components
    assert_eq!(router.node_count(), 9);
    assert_eq!(router.edge_count(), 9 - 4);
    assert!(!router.contains_edge(20, 20));
    for id in [1u8, 2, 3, 10, 11, 12, 13, 20, 30] {
        assert!(router.contains_node(id));
    }
    let triangle = [(1u8, 2u8), (2, 3), (3, 1)].iter().filter(|(a, b)| router.contains_edge(*a, *b)).count();
    assert_eq!(triangle, 2);

    // running it again changes nothing
    let before: Vec<bool> = (0u8..40).flat_map(|a| (0u8..40).map(move |b| (a, b))).map(|(a, b)| router.contains_edge(a, b)).collect();
    router.min_spanning_tree();
    let after: Vec<bool> = (0u8..40).flat_map(|a| (0u8..40).map(move |b| (a, b))).map(|(a, b)| router.contains_edge(a, b)).collect();
    assert_eq!(before, after);
    assert_eq!(router.edge_count(), 5);
    assert_eq!(router.node_count(), 9);
}

#[test]
fn spanning_tree_keeps_bindings() {
    let mut router = gateway();
    router.handle_broadcast(heard(3, false, None), vec![3], 5).unwrap();
    router.min_spanning_tree();
    assert_eq!(router.ip_of(3), Some(Ipv4Addr::new(172, 16, 0, 3)));
    assert_eq!(router.gateway(), Some(Ipv4Addr::new(172, 16, 0, 1)));
    assert_eq!(router.node_observe_get(&3), Some(5));
    assert!(router.contains_edge(1, 3));
}

fn chain(max_hops: u8) -> MeshRouter {
    let mut router = MeshRouter::new(1, None, max_hops, 10_000, true);
    for id in 1u8..=5 {
        router.bind(id, Ipv4Addr::new(172, 16, 0, id));
    }
    router.route_add(vec![(1, 2), (2, 3), (3, 4), (4, 5)], 0);
    router
}

#[test]
fn packet_route_is_a_shortest_path() {
    let mut router = chain(4);
    let ip = |id: u8| Ipv4Addr::new(172, 16, 0, id);
    assert_eq!(router.packet_route(&datagram(ip(1), ip(3))), Some(vec![1, 2, 3]));
    assert_eq!(router.packet_route(&datagram(ip(5), ip(2))), Some(vec![5, 4, 3, 2]));
    assert_eq!(router.packet_route(&datagram(ip(2), ip(2))), Some(vec![2]));
    // a shortcut is taken once it is there
    router.edge_add(1, 4);
    assert_eq!(router.packet_route(&datagram(ip(1), ip(5))), Some(vec![1, 4, 5]));
}

#[test]
fn packet_route_needs_both_bindings_and_a_path() {
    let mut router = chain(4);
    let ip = |id: u8| Ipv4Addr::new(172, 16, 0, id);
    assert_eq!(router.packet_route(&datagram(ip(1), ip(9))), None);
    assert_eq!(router.packet_route(&datagram(ip(9), ip(1))), None);
    router.bind(9, ip(9));
    assert_eq!(router.packet_route(&datagram(ip(1), ip(9))), None);
    router.node_add(9);
    assert_eq!(router.packet_route(&datagram(ip(1), ip(9))), None);
    router.edge_add(9, 5);
    assert_eq!(router.packet_route(&datagram(ip(1), ip(9))), None);
}

#[test]
fn packet_route_suppresses_paths_over_max_hops() {
    let router = chain(2);
    let ip = |id: u8| Ipv4Addr::new(172, 16, 0, id);
    // two hops are accepted, three are not
    assert_eq!(router.packet_route(&datagram(ip(1), ip(3))), Some(vec![1, 2, 3]));
    assert_eq!(router.packet_route(&datagram(ip(1), ip(4))), None);
    let none = chain(0);
    assert_eq!(none.packet_route(&datagram(ip(1), ip(2))), None);
    assert_eq!(none.packet_route(&datagram(ip(1), ip(1))), Some(vec![1]));
}

#[test]
fn own_assignment_binds_the_node() {
    let mut router = MeshRouter::new(3, None, 2, 10_000, false);
    let ip = Ipv4Addr::new(172, 16, 0, 3);
    router.handle_ip_assignment(&ip);
    assert!(router.contains_node(3));
    assert_eq!(router.ip_of(3), Some(ip));
    assert_eq!(router.id_of(&ip), Some(3));
    assert_eq!(router.gateway(), None);
    router.handle_gateway_assignment(&Ipv4Addr::new(172, 16, 0, 1));
    assert_eq!(router.gateway(), Some(Ipv4Addr::new(172, 16, 0, 1)));
}

#[test]
fn observations_keep_the_latest_time() {
    let mut router = MeshRouter::new(3, None, 2, 10_000, false);
    router.node_observe_put(8, 100);
    router.node_observe_put(8, 250);
    assert_eq!(router.node_observe_get(&8), Some(250));
    assert_eq!(router.node_observe_get(&9), None);
    router.observe_route(&vec![8, 9], 300);
    assert_eq!(router.node_observe_get(&8), Some(300));
    assert_eq!(router.node_observe_get(&9), Some(300));
    assert_eq!(router.edge_count(), 0);
    router.link_route(&vec![8, 9, 10]);
    assert!(router.contains_edge(8, 9));
    assert!(router.contains_edge(9, 10));
    assert_eq!(router.node_observe_get(&10), None);
}
