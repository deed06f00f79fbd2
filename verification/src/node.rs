//! The decisions of a node: what it does with a datagram from the tunnel,
//! with a frame from the radio, and when its periodic tasks are due.

use vstd::prelude::*;
use crate::addr::Ipv4Addr;
use vstd::utf8::encode_utf8;
use crate::broadcast::{broadcast_address, broadcast_fault, broadcast_payload, BroadcastMessage};
use crate::router::ID_OUT_OF_RANGE;
use crate::util::bool_of_byte;
use crate::frame::{chunk_views, decode, encodings_of, lemma_chunk_round_trip, Frame, FrameView};
use crate::chunk::views_of;
use crate::graph::{is_path, walk_between};
use crate::ipassign::IPAssignSuccessMessage;
use crate::ippacket::IPPacketMessage;
use crate::message::{message_frame, MessageType, ToFromFrame};
use crate::packet::{datagram_len, destination_of, is_datagram, source_of, Ipv4Packet};
use crate::random::random_frame_id;
use crate::reassembly::{after_held, completed, expired_keys, is_held, key_of, ChunkBuffer};
use crate::router::{assigned_address, routable, MeshRouter};
use crate::settings::{settings_fault, Settings};
use crate::tun::{stub_address, tunnel_stub_address};

verus! {

/// What the event loop has to do for the node.
#[derive(Debug)]
pub enum NodeAction {
    /// Put the bytes of a frame on the outbound queue of the radio.
    Transmit(Vec<u8>),
    /// Write a datagram to the tunnel.
    Deliver(Vec<u8>),
    /// Give the tunnel interface an address.
    AssignAddress(Ipv4Addr),
    /// Add a kernel route to `dest` through `via`.
    AddRoute { dest: Ipv4Addr, via: Ipv4Addr },
}

/// An action, with the bytes that it carries as a value.
pub enum ActionView {
    Transmit(Seq<u8>),
    Deliver(Seq<u8>),
    AssignAddress(Ipv4Addr),
    AddRoute { dest: Ipv4Addr, via: Ipv4Addr },
}

impl View for NodeAction {
    type V = ActionView;

    open spec fn view(&self) -> ActionView {
        match self {
            NodeAction::Transmit(bytes) => ActionView::Transmit(bytes@),
            NodeAction::Deliver(bytes) => ActionView::Deliver(bytes@),
            NodeAction::AssignAddress(ip) => ActionView::AssignAddress(*ip),
            NodeAction::AddRoute { dest, via } => ActionView::AddRoute { dest: *dest, via: *via },
        }
    }
}

/// The views of a list of actions.
pub open spec fn action_views(actions: Seq<NodeAction>) -> Seq<ActionView> {
    actions.map_values(|action: NodeAction| action@)
}

/// The actions that transmit the given frames, in order.
pub open spec fn transmits(frames: Seq<Seq<u8>>) -> Seq<ActionView> {
    frames.map_values(|bytes: Seq<u8>| ActionView::Transmit(bytes))
}

/// No action.
pub open spec fn no_actions() -> Seq<ActionView> {
    Seq::empty()
}

/// The actions that send a frame in chunks of at most `limit` bytes on the
/// wire: one transmission for each chunk, or none if not even the header
/// fits into `limit` bytes with one byte of payload.
pub open spec fn chunk_actions(frame: FrameView, limit: usize) -> Seq<ActionView> {
    if limit > frame.header_len() {
        transmits(encodings_of(chunk_views(frame, limit as nat)))
    } else {
        no_actions()
    }
}

/// Whether every action transmits a frame of at most `limit` bytes.
pub open spec fn transmits_within(actions: Seq<ActionView>, limit: nat) -> bool {
    forall|i: int|
        0 <= i < actions.len() ==> match #[trigger] actions[i] {
            ActionView::Transmit(bytes) => bytes.len() <= limit,
            _ => false,
        }
}

/// A frame that is sent in chunks goes out in frames that are no longer on
/// the wire than the limit.
pub proof fn lemma_chunk_actions_fit(frame: FrameView, limit: usize)
    requires
        frame.valid(),
    ensures
        transmits_within(chunk_actions(frame, limit), limit as nat),
{
    if limit > frame.header_len() {
        lemma_chunk_round_trip(frame, limit as nat);
        let chunks = chunk_views(frame, limit as nat);
        let actions = chunk_actions(frame, limit);
        assert forall|i: int| 0 <= i < actions.len() implies match #[trigger] actions[i] {
            ActionView::Transmit(bytes) => bytes.len() <= limit,
            _ => false,
        } by {
            assert(actions[i] == ActionView::Transmit(chunks[i].encode()));
        }
    }
}

/// The actions that send a datagram along a route: the chunks of the frame
/// that carries it, or none if the route is too long for a frame.
pub open spec fn route_actions(datagram: Seq<u8>, frameid: u8, sender: u8, route: Seq<u8>, limit: usize) -> Seq<
    ActionView,
> {
    if route.len() > 255 {
        no_actions()
    } else {
        chunk_actions(
            message_frame(
                MessageType::IPPacket,
                frameid,
                sender,
                route,
                datagram.subrange(0, datagram_len(datagram) as int),
            ),
            limit,
        )
    }
}

/// Whether `route` is a shortest walk through the mesh from the node of the
/// source of a datagram to the node of its destination.
pub open spec fn is_shortest_route(router: MeshRouter, datagram: Seq<u8>, route: Seq<u8>) -> bool {
    let from = router.ip_to_id()[source_of(datagram)];
    let to = router.ip_to_id()[destination_of(datagram)];
    &&& walk_between(router.edges(), route, from, to)
    &&& route.len() - 1 <= router.max_hops()
    &&& forall|other: Seq<u8>| #[trigger] walk_between(router.edges(), other, from, to) ==> route.len() <= other.len()
    &&& is_path(route)
}

/// The actions that set up the address `ip` on the tunnel: the interface
/// gets the address, and the kernel a route to it through the stub address.
pub open spec fn address_actions(ip: Ipv4Addr) -> Seq<ActionView> {
    seq![ActionView::AssignAddress(ip), ActionView::AddRoute { dest: ip, via: stub_address() }]
}

/// What becomes of a frame at a node when its first hop is taken off.
#[derive(Clone, Copy, PartialEq, Eq, Debug, Structural)]
pub enum Hop {
    /// The frame has no route or its next hop is another node: it is dropped.
    Drop,
    /// The next hop is this node and no hop is left: the frame has arrived.
    Arrive,
    /// The next hop is this node and hops are left: the frame goes on.
    Forward,
}

/// What becomes of `frame` at the node `self_id`.
pub open spec fn hop_of(frame: FrameView, self_id: u8) -> Hop {
    if frame.route.len() == 0 || frame.route[0] != self_id {
        Hop::Drop
    } else if frame.route.len() == 1 {
        Hop::Arrive
    } else {
        Hop::Forward
    }
}

/// What a node does with a frame that carries a datagram for another node:
/// a frame that goes on is sent without its first hop, in chunks; any other
/// is dropped.
pub open spec fn nexthop_actions(frame: FrameView, self_id: u8, limit: usize) -> Seq<ActionView> {
    if hop_of(frame, self_id) == Hop::Forward {
        chunk_actions(frame.route_shifted(), limit)
    } else {
        no_actions()
    }
}

/// What a node does with a frame that answers a request for an address and
/// has not arrived: a frame that goes on is sent without its first hop, in
/// one piece; any other is dropped.
pub open spec fn relay_actions(frame: FrameView, self_id: u8) -> Seq<ActionView> {
    if hop_of(frame, self_id) == Hop::Forward {
        seq![ActionView::Transmit(frame.route_shifted().encode())]
    } else {
        no_actions()
    }
}

/// Whether a node passes a broadcast on: it is no gateway, it is not on
/// the route yet, and the route has room for it.
pub open spec fn propagates(is_gateway: bool, self_id: u8, route: Seq<u8>) -> bool {
    !is_gateway && !route.contains(self_id) && route.len() < 255
}

/// The broadcast as the router hears it: with this node in front of the
/// route if the node passes it on.
pub open spec fn heard_frame(frame: FrameView, is_gateway: bool, self_id: u8) -> FrameView {
    if propagates(is_gateway, self_id, frame.route) {
        frame.route_unshifted(self_id)
    } else {
        frame
    }
}

/// The actions that pass a broadcast on, if the node does so.
pub open spec fn propagation_actions(frame: FrameView, is_gateway: bool, self_id: u8) -> Seq<ActionView> {
    if propagates(is_gateway, self_id, frame.route) {
        seq![ActionView::Transmit(frame.route_unshifted(self_id).encode())]
    } else {
        no_actions()
    }
}

/// The actions that route the address of a broadcasting node through this
/// node: taken by a node that is no gateway and has an address, for another
/// node that it has not observed before and that announces a private address.
pub open spec fn neighbour_actions(
    node_ip: Option<Ipv4Addr>,
    is_gateway: bool,
    self_id: u8,
    sender: u8,
    ipaddr: Option<Ipv4Addr>,
    observed: bool,
) -> Seq<ActionView> {
    if !is_gateway && sender != self_id && !observed && node_ip.is_some() && ipaddr.is_some()
        && ipaddr.unwrap().private() {
        seq![ActionView::AddRoute { dest: ipaddr.unwrap(), via: node_ip.unwrap() }]
    } else {
        no_actions()
    }
}

/// The route on which an answer goes back to the sender of a broadcast: the
/// route of the broadcast, or the sender alone if it has none.
pub open spec fn reply_route(route: Seq<u8>, sender: u8) -> Seq<u8> {
    if route.len() > 0 {
        route
    } else {
        seq![sender]
    }
}

/// The actions that answer a broadcast: none if the router has no answer;
/// else the frame that carries the assigned address or the refusal back, and
/// for a new address a kernel route to it through this node.
pub open spec fn reply_actions(
    answer: Result<Option<(Ipv4Addr, bool)>, ()>,
    frameid: u8,
    self_id: u8,
    node_ip: Option<Ipv4Addr>,
    route: Seq<u8>,
    sender: u8,
) -> Seq<ActionView> {
    match answer {
        Ok(None) => no_actions(),
        Ok(Some((ip, is_new))) => {
            let reply = seq![
                ActionView::Transmit(
                    message_frame(
                        MessageType::IPAssignSuccess,
                        frameid,
                        self_id,
                        reply_route(route, sender),
                        ip.octets_spec(),
                    ).encode(),
                ),
            ];
            if is_new && node_ip.is_some() {
                reply.push(ActionView::AddRoute { dest: ip, via: node_ip.unwrap() })
            } else {
                reply
            }
        },
        Err(_) => seq![
            ActionView::Transmit(
                message_frame(
                    MessageType::IPAssignFailure,
                    frameid,
                    self_id,
                    reply_route(route, sender),
                    encode_utf8(ID_OUT_OF_RANGE@),
                ).encode(),
            ),
        ],
    }
}

/// The id of the frame that carries a node's own broadcast.
pub const BROADCAST_FRAME_ID: u8 = 1;

/// The frame in which a node announces itself: a broadcast of its role and
/// its address, if it has one, with the node alone on the route.
pub open spec fn own_broadcast(self_id: u8, is_gateway: bool, node_ip: Option<Ipv4Addr>) -> FrameView {
    message_frame(
        MessageType::Broadcast,
        BROADCAST_FRAME_ID,
        self_id,
        seq![self_id],
        broadcast_payload(is_gateway, node_ip),
    )
}

/// The address with the given four octets.
pub open spec fn address_of(octets: Seq<u8>) -> Ipv4Addr
    recommends
        octets.len() == 4,
{
    Ipv4Addr { a: octets[0], b: octets[1], c: octets[2], d: octets[3] }
}

/// A node of the mesh.
pub struct MeshNode {
    /// The ID of this node
    id: u8,
    /// IP address of this node's tunnel
    ipaddr: Option<Ipv4Addr>,
    /// Router instance
    router: MeshRouter,
    /// Options
    opt: Settings,
    /// Chunks that wait for the rest of their payload
    chunks: ChunkBuffer,
}

impl MeshNode {
    /// The id of the node.
    pub closed spec fn id(&self) -> u8 {
        self.id
    }

    /// The address of the node, once it has one.
    pub closed spec fn ip(&self) -> Option<Ipv4Addr> {
        self.ipaddr
    }

    /// The router of the node.
    pub closed spec fn router(&self) -> MeshRouter {
        self.router
    }

    /// The settings of the node.
    pub closed spec fn settings(&self) -> Settings {
        self.opt
    }

    /// The chunks that wait for the rest of their payload.
    pub closed spec fn chunks(&self) -> ChunkBuffer {
        self.chunks
    }

    /// The parts of the node fit together: the router and the buffer are
    /// well formed and made for this node with its settings, and the settings
    /// have no fault.
    pub closed spec fn wf(&self) -> bool {
        &&& self.router.wf()
        &&& self.chunks.wf()
        &&& self.router.self_id() == self.id
        &&& self.router.is_gateway() == self.opt.isgateway
        &&& self.router.max_hops() == self.opt.maxhops
        &&& self.chunks.timeout() == self.opt.chunktimeout
        &&& settings_fault(self.opt@).is_none()
    }

    /// What `wf` says of the router and the buffer, for callers.
    pub proof fn lemma_wf(&self)
        requires
            self.wf(),
        ensures
            self.router().wf(),
            self.chunks().wf(),
            self.router().self_id() == self.id(),
            self.router().is_gateway() == self.settings().isgateway,
            self.router().max_hops() == self.settings().maxhops,
            self.chunks().timeout() == self.settings().chunktimeout,
            settings_fault(self.settings()@).is_none(),
    {
    }

    /// Whether the two nodes have the same id and the same settings.
    pub open spec fn same_identity(&self, other: &Self) -> bool {
        &&& self.id() == other.id()
        &&& self.settings()@ == other.settings()@
    }

    /// The address of the node, once it has one.
    pub fn ipaddr(&self) -> (ip: Option<Ipv4Addr>)
        ensures
            ip == self.ip(),
    {
        self.ipaddr
    }

    /// The id of the node.
    pub fn nodeid(&self) -> (id: u8)
        ensures
            id == self.id(),
    {
        self.id
    }

    /// The router of the node, to look at.
    pub fn mesh(&self) -> (router: &MeshRouter)
        ensures
            *router == self.router(),
    {
        &self.router
    }

    /// The number of payloads of which chunks wait.
    pub fn waiting(&self) -> (count: usize)
        requires
            self.wf(),
        ensures
            count == self.chunks()@.dom().len(),
    {
        self.chunks.len()
    }

    /// The actions that send a frame in chunks that fit the largest packet
    /// of the settings.
    pub fn send_chunked(&self, frame: &Frame) -> (actions: Vec<NodeAction>)
        requires
            self.wf(),
            frame.wf(),
        ensures
            action_views(actions@) == chunk_actions(frame@, self.settings().maxpacketsize),
    {
        let mut actions: Vec<NodeAction> = Vec::new();
        let limit: usize = self.opt.maxpacketsize;
        if limit <= frame.header_len() {
            assert(action_views(actions@) =~= no_actions());
            return actions;
        }
        let chunks = frame.chunked(&limit);
        let ghost wanted = encodings_of(chunk_views(frame@, limit as nat));
        let mut i: usize = 0;
        assert(action_views(actions@) =~= transmits(wanted.take(0)));
        while i < chunks.len()
            invariant
                i <= chunks@.len(),
                views_of(chunks@) == wanted,
                action_views(actions@) == transmits(wanted.take(i as int)),
            decreases chunks@.len() - i,
        {
            let chunk = chunks[i].clone();
            proof {
                assert(chunk@ =~= chunks@[i as int]@);
                assert(views_of(chunks@)[i as int] == chunks@[i as int]@);
                assert(wanted.take(i as int + 1) =~= wanted.take(i as int).push(chunk@));
                assert(transmits(wanted.take(i as int).push(chunk@)) =~= transmits(wanted.take(i as int)).push(
                    ActionView::Transmit(chunk@),
                ));
                assert(action_views(actions@.push(NodeAction::Transmit(chunk))) =~= action_views(actions@).push(
                    ActionView::Transmit(chunk@),
                ));
                assert(action_views(actions@.push(NodeAction::Transmit(chunk))) =~= transmits(
                    wanted.take(i as int + 1),
                ));
            }
            actions.push(NodeAction::Transmit(chunk));
            i = i + 1;
        }
        assert(wanted.take(i as int) =~= wanted);
        actions
    }

    /// The actions that send a datagram along the given route, in frames
    /// with the given id.
    pub fn route_packet(&self, frameid: u8, packet: &Ipv4Packet, route: Vec<u8>) -> (actions: Vec<NodeAction>)
        requires
            self.wf(),
        ensures
            action_views(actions@) == route_actions(
                packet@,
                frameid,
                self.id(),
                route@,
                self.settings().maxpacketsize,
            ),
    {
        if route.len() > 255 {
            let actions: Vec<NodeAction> = Vec::new();
            assert(action_views(actions@) =~= no_actions());
            return actions;
        }
        let message = IPPacketMessage::new(packet.clone());
        let frame = message.to_frame(frameid, self.id, route);
        self.send_chunked(&frame)
    }

    /// Whether `actions` are what the node does with a datagram from the
    /// tunnel, sending it in frames of the id `frameid`: nothing if the node
    /// has no address; the datagram back to the tunnel if it is for the node
    /// itself; nothing if it cannot be routed; else the frames that send it
    /// along a shortest route.
    pub open spec fn tun_outcome(&self, datagram: Seq<u8>, frameid: u8, actions: Seq<ActionView>) -> bool {
        if self.ip().is_none() {
            actions == no_actions()
        } else if destination_of(datagram) == self.ip().unwrap() {
            actions == seq![ActionView::Deliver(datagram.subrange(0, datagram_len(datagram) as int))]
        } else if !routable(
            self.router().ip_to_id(),
            self.router().edges(),
            self.router().max_hops(),
            source_of(datagram),
            destination_of(datagram),
        ) {
            actions == no_actions()
        } else {
            exists|route: Seq<u8>| #[trigger]
                is_shortest_route(self.router(), datagram, route) && actions == route_actions(
                    datagram,
                    frameid,
                    self.id(),
                    route,
                    self.settings().maxpacketsize,
                )
        }
    }

    /// Handle routing of a tunnel packet
    /// checks if packet was destinated for this node or if
    /// routing logic should be applied and forwarding necessary
    ///
    /// A node without address drops the datagram. A datagram for the node
    /// itself goes back to the tunnel. Any other is sent along a shortest
    /// route to the node of its destination, in frames with the given id, and
    /// dropped if there is no such route within the largest number of hops.
    pub fn handle_tun_ip(&self, frameid: u8, packet: Ipv4Packet) -> (actions: Vec<NodeAction>)
        requires
            self.wf(),
        ensures
            self.tun_outcome(packet@, frameid, action_views(actions@)),
    {
        let mut actions: Vec<NodeAction> = Vec::new();
        // apply routing logic
        // if it cannot be routed, drop it
        match self.ipaddr {
            None => {
                assert(action_views(actions@) =~= no_actions());
                actions
            },
            Some(ip) => {
                if packet.destination() == ip {
                    actions.push(NodeAction::Deliver(packet.to_bytes()));
                    assert(action_views(actions@) =~= seq![
                        ActionView::Deliver(packet@.subrange(0, datagram_len(packet@) as int)),
                    ]);
                    actions
                } else {
                    // look up a route for this destination IP
                    // then send it in chunks if necessary
                    match self.router.packet_route(&packet) {
                        None => {
                            assert(action_views(actions@) =~= no_actions());
                            actions
                        },
                        Some(route) => {
                            assert(is_shortest_route(self.router(), packet@, route@));
                            self.route_packet(frameid, &packet, route)
                        },
                    }
                }
            },
        }
    }

    /// Takes a datagram from the tunnel: draws the id for its frames and
    /// handles it under that id.
    pub fn tun_ingress(&self, packet: Ipv4Packet) -> (actions: Vec<NodeAction>)
        requires
            self.wf(),
        ensures
            exists|frameid: u8|
                crate::random::is_frame_id(frameid) && #[trigger] self.tun_outcome(
                    packet@,
                    frameid,
                    action_views(actions@),
                ),
    {
        let frameid: u8 = random_frame_id();
        self.handle_tun_ip(frameid, packet)
    }

    /// Whether the two nodes differ in nothing but the chunks that wait.
    pub open spec fn same_but_chunks(&self, other: &Self) -> bool {
        &&& self.same_identity(other)
        &&& self.ip() == other.ip()
        &&& self.router() == other.router()
    }

    /// Whether the two nodes differ in nothing at all.
    pub open spec fn same_as(&self, other: &Self) -> bool {
        &&& self.same_but_chunks(other)
        &&& self.chunks() == other.chunks()
    }

    /// A node with the given id and settings, and what has to be done for
    /// it at once. A gateway takes the address made from its id, sets it up on
    /// the tunnel, and is its own gateway; any other node has no address yet.
    pub fn new(id: u8, opt: Settings) -> (made: (Self, Vec<NodeAction>))
        requires
            settings_fault(opt@).is_none(),
        ensures
            made.0.wf(),
            made.0.id() == id,
            made.0.settings()@ == opt@,
            made.0.chunks()@ == Map::<(u8, u8), crate::reassembly::PartialView>::empty(),
            made.0.router().edges() == crate::graph::no_edges(),
            made.0.router().last_seen() == Map::<u8, u64>::empty(),
            opt.isgateway ==> made.0.ip() == Some(assigned_address(id)) && action_views(made.1@) == address_actions(
                assigned_address(id),
            ) && made.0.router().gateway_ip() == Some(assigned_address(id)) && made.0.router().nodes()
                == Set::<u8>::empty().insert(id) && made.0.router().id_to_ip() == Map::<u8, Ipv4Addr>::empty().insert(
                id,
                assigned_address(id),
            ),
            !opt.isgateway ==> made.0.ip().is_none() && action_views(made.1@) == no_actions()
                && made.0.router().gateway_ip().is_none() && made.0.router().nodes() == Set::<u8>::empty()
                && made.0.router().id_to_ip() == Map::<u8, Ipv4Addr>::empty(),
    {
        let mut actions: Vec<NodeAction> = Vec::new();
        let mut router = MeshRouter::new(id, None, opt.maxhops, opt.chunktimeout, opt.isgateway);
        let chunks = ChunkBuffer::new(opt.chunktimeout);
        // If this node is a gateway, assign an IP address of 172.16.0.<id>.
        // Otherwise, we will wait for DHCP from a network gateway and
        // assign a default address.
        let mut ipaddr: Option<Ipv4Addr> = None;
        if opt.isgateway {
            let ip = Ipv4Addr::new(172, 16, 0, id);
            ipaddr = Some(ip);
            actions.push(NodeAction::AssignAddress(ip));
            actions.push(NodeAction::AddRoute { dest: ip, via: tunnel_stub_address() });
            router.handle_ip_assignment(&ip);
            router.handle_gateway_assignment(&ip);
            proof {
                assert(action_views(actions@) =~= address_actions(ip));
                let none = Map::<u8, Ipv4Addr>::empty();
                assert(none.remove_keys(crate::router::holders_of(none, ip)) =~= none);
            }
        } else {
            assert(action_views(actions@) =~= no_actions());
        }
        (MeshNode { id, ipaddr, router, opt, chunks }, actions)
    }

    /// Takes in the bytes of a frame from the radio. Bytes that are no
    /// frame are dropped. A chunk that more follow waits in the buffer. A
    /// final frame is handed on, reassembled with the chunks that waited for
    /// it.
    pub fn receive(&mut self, data: &Vec<u8>, now: u64) -> (ready: Option<Frame>)
        requires
            old(self).wf(),
        ensures
            final(self).wf(),
            final(self).same_but_chunks(old(self)),
            final(self).chunks().timeout() == old(self).chunks().timeout(),
            match decode(data@) {
                Err(_) => ready.is_none() && final(self).chunks()@ == old(self).chunks()@,
                Ok(frame) => if is_held(frame) {
                    ready.is_none() && final(self).chunks()@ == after_held(old(self).chunks()@, frame, now)
                } else {
                    ready.is_some() && ready.unwrap().wf() && ready.unwrap()@ == completed(old(self).chunks()@, frame)
                        && final(self).chunks()@ == old(self).chunks()@.remove(key_of(frame))
                },
            },
    {
        match Frame::from_bytes(data) {
            Err(_) => None,
            Ok(frame) => self.chunks.accept(frame, now),
        }
    }

    /// retransmit or drop an IP packet bound for another destination
    pub fn handle_ip_nexthop(&self, frame: Frame) -> (actions: Vec<NodeAction>)
        requires
            self.wf(),
            frame.wf(),
        ensures
            action_views(actions@) == nexthop_actions(frame@, self.id(), self.settings().maxpacketsize),
    {
        let mut frame = frame;
        match self.take_hop(&mut frame) {
            // we can still forward it to another node id
            // chunk it
            Hop::Forward => self.send_chunked(&frame),
            _ => {
                let none: Vec<NodeAction> = Vec::new();
                assert(action_views(none@) =~= no_actions());
                none
            },
        }
    }

    /// Handle routing of an IP packet from radio
    /// checks if packet was destined for this node or if
    /// it should be passed to the next hop
    pub fn handle_radio_ip(&self, packet: Ipv4Packet, frame: Frame) -> (actions: Vec<NodeAction>)
        requires
            self.wf(),
            frame.wf(),
        ensures
            self.ip() == Some(destination_of(packet@)) ==> action_views(actions@) == seq![
                ActionView::Deliver(packet@.subrange(0, datagram_len(packet@) as int)),
            ],
            self.ip() != Some(destination_of(packet@)) ==> action_views(actions@) == nexthop_actions(
                frame@,
                self.id(),
                self.settings().maxpacketsize,
            ),
    {
        // apply routing logic
        // was this packet meant for us? if not, drop
        match self.ipaddr {
            None => self.handle_ip_nexthop(frame),
            Some(ipaddr) => {
                if packet.destination() == ipaddr {
                    let mut actions: Vec<NodeAction> = Vec::new();
                    actions.push(NodeAction::Deliver(packet.to_bytes()));
                    assert(action_views(actions@) =~= seq![
                        ActionView::Deliver(packet@.subrange(0, datagram_len(packet@) as int)),
                    ]);
                    actions
                } else {
                    self.handle_ip_nexthop(frame)
                }
            },
        }
    }

    /// Takes the first hop off the route of a frame, and says what becomes
    /// of the frame at this node.
    pub fn take_hop(&self, frame: &mut Frame) -> (hop: Hop)
        requires
            old(frame).wf(),
        ensures
            final(frame).wf(),
            hop == hop_of(old(frame)@, self.id()),
            old(frame)@.route.len() > 0 ==> final(frame)@ == old(frame)@.route_shifted(),
            old(frame)@.route.len() == 0 ==> final(frame)@ == old(frame)@,
    {
        match frame.route_shift() {
            None => Hop::Drop,
            Some(nexthop) => {
                if nexthop != self.id {
                    Hop::Drop
                } else if frame.routeoffset() == 0 {
                    Hop::Arrive
                } else {
                    Hop::Forward
                }
            },
        }
    }

    /// Handle an IP assignment
    /// ensures a new local route is set up and node
    /// accepts new IP
    ///
    /// A node that has an address keeps it and does nothing.
    pub fn handle_ip_assignment(&mut self, ipaddr: Ipv4Addr) -> (actions: Vec<NodeAction>)
        requires
            old(self).wf(),
        ensures
            final(self).wf(),
            final(self).same_identity(old(self)),
            final(self).chunks() == old(self).chunks(),
            old(self).ip().is_some() ==> final(self).same_as(old(self)) && action_views(actions@) == no_actions(),
            old(self).ip().is_none() ==> final(self).ip() == Some(ipaddr) && action_views(actions@) == address_actions(
                ipaddr,
            ) && final(self).router().assigned_self(&old(self).router(), ipaddr),
    {
        let mut actions: Vec<NodeAction> = Vec::new();
        if self.ipaddr.is_none() {
            self.ipaddr = Some(ipaddr);
            actions.push(NodeAction::AssignAddress(ipaddr));
            actions.push(NodeAction::AddRoute { dest: ipaddr, via: tunnel_stub_address() });
            self.router.handle_ip_assignment(&ipaddr);
            assert(action_views(actions@) =~= address_actions(ipaddr));
        } else {
            assert(action_views(actions@) =~= no_actions());
        }
        actions
    }

    /// The actions that send a frame on in one piece.
    pub fn send_whole(&self, frame: &Frame) -> (actions: Vec<NodeAction>)
        requires
            frame.wf(),
        ensures
            action_views(actions@) == seq![ActionView::Transmit(frame@.encode())],
    {
        let mut actions: Vec<NodeAction> = Vec::new();
        actions.push(NodeAction::Transmit(frame.to_bytes()));
        assert(action_views(actions@) =~= seq![ActionView::Transmit(frame@.encode())]);
        actions
    }

    /// Handles a frame that assigns an address. A frame that has arrived
    /// gives this node its address, unless it has one or the payload is no
    /// address. A frame that goes on is sent on. Any other is dropped.
    pub fn handle_assign_success(&mut self, frame: Frame) -> (actions: Vec<NodeAction>)
        requires
            old(self).wf(),
            frame.wf(),
        ensures
            final(self).wf(),
            final(self).same_identity(old(self)),
            final(self).chunks() == old(self).chunks(),
            final(self).assign_outcome(old(self), frame@, action_views(actions@)),
    {
        let mut frame = frame;
        let none: Vec<NodeAction> = Vec::new();
        assert(action_views(none@) =~= no_actions());
        match self.take_hop(&mut frame) {
            Hop::Drop => none,
            Hop::Forward => self.send_whole(&frame),  // retransmit to next hop
            Hop::Arrive => {
                match IPAssignSuccessMessage::from_frame(&frame) {
                    Err(_) => none,
                    Ok(message) => {
                        proof {
                            let octets = message.ipaddr.octets_spec();
                            assert(octets[0] == message.ipaddr.a && octets[1] == message.ipaddr.b);
                            assert(octets[2] == message.ipaddr.c && octets[3] == message.ipaddr.d);
                        }
                        self.handle_ip_assignment(message.ipaddr)
                    },
                }
            },
        }
    }

    /// Handles a frame that refuses an address. A frame that goes on is
    /// sent on. Any other is dropped; one that has arrived has nothing to
    /// change at this node.
    pub fn handle_assign_failure(&self, frame: Frame) -> (actions: Vec<NodeAction>)
        requires
            self.wf(),
            frame.wf(),
        ensures
            action_views(actions@) == relay_actions(frame@, self.id()),
    {
        let mut frame = frame;
        match self.take_hop(&mut frame) {
            Hop::Forward => self.send_whole(&frame),  // retransmit to next hop
            _ => {
                let none: Vec<NodeAction> = Vec::new();
                assert(action_views(none@) =~= no_actions());
                none
            },
        }
    }

    /// Whether this node and `actions` are what becomes of `before` when
    /// it handles a frame that assigns an address: a frame that has not
    /// arrived is sent on or dropped; one that has arrived gives the node the
    /// address in its payload, with the actions that set the address up,
    /// unless the node has an address or the payload is none.
    pub open spec fn assign_outcome(&self, before: &Self, frame: FrameView, actions: Seq<ActionView>) -> bool {
        if hop_of(frame, before.id()) != Hop::Arrive {
            &&& self.ip() == before.ip()
            &&& self.router() == before.router()
            &&& actions == relay_actions(frame, before.id())
        } else if frame.payload.len() != 4 || before.ip().is_some() {
            &&& self.ip() == before.ip()
            &&& self.router() == before.router()
            &&& actions == no_actions()
        } else {
            &&& self.ip() == Some(address_of(frame.payload))
            &&& self.router().assigned_self(&before.router(), address_of(frame.payload))
            &&& actions == address_actions(address_of(frame.payload))
        }
    }

    /// Whether this node and `actions` are what becomes of `before` when it
    /// handles a frame that carries a broadcast, and answers with frames of
    /// the id `frameid` at the time `now`.
    pub open spec fn broadcast_outcome(
        &self,
        before: &Self,
        frame: FrameView,
        frameid: u8,
        now: u64,
        actions: Seq<ActionView>,
    ) -> bool {
        if broadcast_fault(frame.payload).is_some() {
            &&& self.ip() == before.ip()
            &&& self.router() == before.router()
            &&& actions == no_actions()
        } else {
            let is_gateway = before.settings().isgateway;
            let heard = heard_frame(frame, is_gateway, before.id());
            let announced = bool_of_byte(frame.payload[0]).unwrap();
            let ipaddr = broadcast_address(frame.payload);
            let offset = frame.payload[1] as usize;
            &&& self.ip() == before.ip()
            &&& self.router().heard_broadcast(
                &before.router(),
                frame.sender,
                announced,
                ipaddr,
                offset,
                heard.route,
                now,
            )
            &&& actions == propagation_actions(frame, is_gateway, before.id()) + neighbour_actions(
                before.ip(),
                is_gateway,
                before.id(),
                frame.sender,
                ipaddr,
                before.router().last_seen().contains_key(frame.sender),
            ) + reply_actions(
                before.router().broadcast_answer(frame.sender, ipaddr, offset),
                frameid,
                before.id(),
                before.ip(),
                heard.route,
                frame.sender,
            )
        }
    }

    /// What a node does with a frame that carries a datagram: a payload
    /// that is no datagram is dropped, a datagram for the node itself goes to
    /// the tunnel, and any other goes on to its next hop.
    pub open spec fn packet_actions(&self, frame: FrameView) -> Seq<ActionView> {
        if !is_datagram(frame.payload) {
            no_actions()
        } else if self.ip() == Some(destination_of(frame.payload)) {
            seq![ActionView::Deliver(frame.payload.subrange(0, datagram_len(frame.payload) as int))]
        } else {
            nexthop_actions(frame, self.id(), self.settings().maxpacketsize)
        }
    }

    /// Whether this node and `actions` are what becomes of `before` when it
    /// handles a complete frame, by the kind of message that the frame
    /// carries. The kinds that are set apart for later use are dropped.
    pub open spec fn dispatch_outcome(
        &self,
        before: &Self,
        frame: FrameView,
        frameid: u8,
        now: u64,
        actions: Seq<ActionView>,
    ) -> bool {
        let kind = MessageType::of_code(frame.msgtype);
        if kind == MessageType::IPPacket {
            &&& self.ip() == before.ip()
            &&& self.router() == before.router()
            &&& actions == before.packet_actions(frame)
        } else if kind == MessageType::Broadcast {
            self.broadcast_outcome(before, frame, frameid, now, actions)
        } else if kind == MessageType::IPAssignSuccess {
            self.assign_outcome(before, frame, actions)
        } else if kind == MessageType::IPAssignFailure {
            &&& self.ip() == before.ip()
            &&& self.router() == before.router()
            &&& actions == relay_actions(frame, before.id())
        } else {
            &&& self.ip() == before.ip()
            &&& self.router() == before.router()
            &&& actions == no_actions()
        }
    }

    /// Whether the two nodes differ in nothing but their routers.
    pub open spec fn same_but_router(&self, other: &Self) -> bool {
        &&& self.same_identity(other)
        &&& self.ip() == other.ip()
        &&& self.chunks() == other.chunks()
    }

    /// Handles a frame that carries a broadcast. A payload that is no
    /// broadcast is dropped. Else the node passes the broadcast on if it has
    /// to, routes the sender's address through itself if the sender is new to
    /// it, lets its router hear the broadcast, and sends the router's answer
    /// back in a frame with the given id.
    pub fn handle_broadcast_frame(&mut self, frame: Frame, frameid: u8, now: u64) -> (actions: Vec<NodeAction>)
        requires
            old(self).wf(),
            frame.wf(),
        ensures
            final(self).wf(),
            final(self).same_but_router(old(self)),
            final(self).broadcast_outcome(old(self), frame@, frameid, now, action_views(actions@)),
    {
        let mut frame = frame;
        let mut actions: Vec<NodeAction> = Vec::new();
        let broadcast = match BroadcastMessage::from_frame(&frame) {
            Err(_) => {
                assert(action_views(actions@) =~= no_actions());
                return actions;
            },
            Ok(broadcast) => broadcast,
        };
        let sender: u8 = frame.sender();
        let ghost is_gateway = self.opt.isgateway;
        let ghost first = propagation_actions(frame@, is_gateway, self.id);
        let ghost second = neighbour_actions(
            self.ipaddr,
            is_gateway,
            self.id,
            sender,
            broadcast.ipaddr,
            self.router.last_seen().contains_key(sender),
        );
        // we aren't a gateway, we should rebroadcast this
        if !self.opt.isgateway && frame.routeoffset() < 255 && !contains_id(&frame.route(), self.id) {
            frame.route_unshift(self.id);
            actions.push(NodeAction::Transmit(frame.to_bytes()));
        }
        assert(action_views(actions@) =~= first);
        // add route to IP if new observation and we aren't a gateway
        if let Some(via) = self.ipaddr {
            if sender != self.id && !self.opt.isgateway {
                if let Some(ip) = broadcast.ipaddr {
                    if self.router.node_observe_get(&sender).is_none() && ip.is_private() {
                        actions.push(NodeAction::AddRoute { dest: ip, via });
                    }
                }
            }
        }
        assert(action_views(actions@) =~= first + second);
        // let our router handle the broadcast and add route to IP if we are a gateway
        let route = frame.route();
        proof {
            frame.lemma_view_valid();
        }
        let reply: Vec<u8> = if route.len() > 0 {
            route.clone()  // this was multi-hop, send it back
        } else {
            let mut direct: Vec<u8> = Vec::new();
            direct.push(sender);
            direct
        };
        assert(reply@ =~= reply_route(route@, sender));
        let ghost answer = self.router.broadcast_answer(sender, broadcast.ipaddr, broadcast.ipOffset);
        let ghost third = reply_actions(answer, frameid, self.id, self.ipaddr, route@, sender);
        match self.router.handle_broadcast(broadcast, route, now) {
            Err(failure) => {
                // ip address assignment failed, notify the source
                let bytes = failure.to_frame(frameid, self.id, reply).to_bytes();
                actions.push(NodeAction::Transmit(bytes));
                assert(action_views(actions@) =~= first + second + third);
            },
            Ok(None) => {
                // no response, we know this node already
                assert(action_views(actions@) =~= first + second + third);
            },
            Ok(Some((ipaddr, isnew))) => {
                // tell the node of their new IP address
                let bits = IPAssignSuccessMessage::new(ipaddr).to_frame(frameid, self.id, reply).to_bytes();
                actions.push(NodeAction::Transmit(bits));
                // since we are a gateway, we must route the IP locally
                if isnew {
                    if let Some(via) = self.ipaddr {
                        actions.push(NodeAction::AddRoute { dest: ipaddr, via });
                    }
                }
                assert(action_views(actions@) =~= first + second + third);
            },
        }
        actions
    }
}

/// Whether `id` is among `ids`.
pub fn contains_id(ids: &Vec<u8>, id: u8) -> (found: bool)
    ensures
        found == ids@.contains(id),
{
    let mut i: usize = 0;
    while i < ids.len()
        invariant
            i <= ids@.len(),
            forall|j: int| 0 <= j < i ==> ids@[j] != id,
        decreases ids@.len() - i,
    {
        if ids[i] == id {
            return true;
        }
        i = i + 1;
    }
    false
}

impl MeshNode {
    /// Handles a complete frame by the kind of message that it carries.
    pub fn dispatch(&mut self, frame: Frame, frameid: u8, now: u64) -> (actions: Vec<NodeAction>)
        requires
            old(self).wf(),
            frame.wf(),
        ensures
            final(self).wf(),
            final(self).same_identity(old(self)),
            final(self).chunks() == old(self).chunks(),
            final(self).dispatch_outcome(old(self), frame@, frameid, now, action_views(actions@)),
    {
        match frame.msgtype() {
            // received IP packet, handle it
            MessageType::IPPacket => {
                match IPPacketMessage::from_frame(&frame) {
                    Err(_) => {
                        let none: Vec<NodeAction> = Vec::new();
                        assert(action_views(none@) =~= no_actions());
                        none
                    },
                    Ok(msg) => {
                        let packet = msg.packet();
                        self.handle_radio_ip(packet, frame)
                    },
                }
            },
            // process another node's broadcast
            MessageType::Broadcast => self.handle_broadcast_frame(frame, frameid, now),
            // we were successfully assigned an IP
            MessageType::IPAssignSuccess => self.handle_assign_success(frame),
            // we sent a broadcast without IP, but got a failure
            MessageType::IPAssignFailure => self.handle_assign_failure(frame),
            // kinds set apart for later use
            MessageType::RouteDiscovery
            | MessageType::RouteSuccess
            | MessageType::RouteFailure
            | MessageType::TransmitRequest
            | MessageType::TransmitConfirm => {
                let none: Vec<NodeAction> = Vec::new();
                assert(action_views(none@) =~= no_actions());
                none
            },
        }
    }

    /// Whether this node and `actions` are what becomes of `before` when it
    /// takes in the bytes `data` from the radio at the time `now`: bytes that
    /// are no frame are dropped, a chunk that more follow waits, and a final
    /// frame is reassembled with the chunks that waited for it and handled.
    pub open spec fn radio_outcome(
        &self,
        before: &Self,
        data: Seq<u8>,
        frameid: u8,
        now: u64,
        actions: Seq<ActionView>,
    ) -> bool {
        match decode(data) {
            Err(_) => {
                &&& self.ip() == before.ip()
                &&& self.router() == before.router()
                &&& self.chunks()@ == before.chunks()@
                &&& actions == no_actions()
            },
            Ok(frame) => if is_held(frame) {
                &&& self.ip() == before.ip()
                &&& self.router() == before.router()
                &&& self.chunks()@ == after_held(before.chunks()@, frame, now)
                &&& actions == no_actions()
            } else {
                &&& self.chunks()@ == before.chunks()@.remove(key_of(frame))
                &&& self.dispatch_outcome(before, completed(before.chunks()@, frame), frameid, now, actions)
            },
        }
    }

    /// Handles the bytes of a frame from the radio, and answers with frames
    /// of the given id.
    pub fn handle_radio(&mut self, data: &Vec<u8>, frameid: u8, now: u64) -> (actions: Vec<NodeAction>)
        requires
            old(self).wf(),
        ensures
            final(self).wf(),
            final(self).same_identity(old(self)),
            final(self).radio_outcome(old(self), data@, frameid, now, action_views(actions@)),
    {
        match self.receive(data, now) {
            None => {
                let none: Vec<NodeAction> = Vec::new();
                assert(action_views(none@) =~= no_actions());
                none
            },
            Some(frame) => self.dispatch(frame, frameid, now),
        }
    }

    /// Takes in the bytes of a frame from the radio: draws the id for the
    /// frames of an answer and handles the bytes under that id.
    pub fn radio_ingress(&mut self, data: &Vec<u8>, now: u64) -> (actions: Vec<NodeAction>)
        requires
            old(self).wf(),
        ensures
            final(self).wf(),
            final(self).same_identity(old(self)),
            exists|frameid: u8|
                crate::random::is_frame_id(frameid) && #[trigger] final(self).radio_outcome(
                    old(self),
                    data@,
                    frameid,
                    now,
                    action_views(actions@),
                ),
    {
        let frameid: u8 = random_frame_id();
        self.handle_radio(data, frameid, now)
    }

    /// Send a broadcast packet to nearby nodes
    pub fn broadcast(&self) -> (actions: Vec<NodeAction>)
        ensures
            action_views(actions@) == seq![
                ActionView::Transmit(own_broadcast(self.id(), self.settings().isgateway, self.ip()).encode()),
            ],
    {
        // prepare broadcast
        let offset: usize = if self.ipaddr.is_some() {
            4
        } else {
            0
        };
        let msg = BroadcastMessage {
            header: None,
            isgateway: self.opt.isgateway,
            ipOffset: offset,
            ipaddr: self.ipaddr,
        };
        let mut route: Vec<u8> = Vec::new();
        route.push(self.id);
        let frame = msg.to_frame(BROADCAST_FRAME_ID, self.id, route);
        self.send_whole(&frame)
    }

    /// Whether this node and `actions` are what becomes of `before` when it
    /// does its periodic tasks at the time `now`: it announces itself if the
    /// broadcast is due and the radio has nothing left to send, it cuts its
    /// graph down to a spanning forest if that is due, and it gives up the
    /// chunks that have waited too long.
    pub open spec fn periodic_outcome(
        &self,
        before: &Self,
        broadcast_due: bool,
        mst_due: bool,
        outbound_empty: bool,
        now: u64,
        actions: Seq<ActionView>,
    ) -> bool {
        &&& self.ip() == before.ip()
        &&& actions == if broadcast_due && outbound_empty {
            seq![ActionView::Transmit(own_broadcast(before.id(), before.settings().isgateway, before.ip()).encode())]
        } else {
            no_actions()
        }
        &&& if mst_due {
            self.router().pruned(&before.router())
        } else {
            self.router() == before.router()
        }
        &&& self.chunks()@ == before.chunks()@.remove_keys(
            expired_keys(before.chunks()@, now, before.settings().chunktimeout),
        )
    }

    /// Does the periodic tasks of the node.
    pub fn periodic(&mut self, broadcast_due: bool, mst_due: bool, outbound_empty: bool, now: u64) -> (actions: Vec<
        NodeAction,
    >)
        requires
            old(self).wf(),
        ensures
            final(self).wf(),
            final(self).same_identity(old(self)),
            final(self).periodic_outcome(old(self), broadcast_due, mst_due, outbound_empty, now, action_views(actions@)),
    {
        // now handle any protocol tasks
        // such as broadcasts or route discovery
        let actions = if broadcast_due && outbound_empty {
            self.broadcast()
        } else {
            let none: Vec<NodeAction> = Vec::new();
            assert(action_views(none@) =~= no_actions());
            none
        };
        // clean up the mesh graph to optimize
        // routing and performance
        if mst_due {
            self.router.min_spanning_tree();
        }
        self.chunks.evict(now);
        actions
    }
}

} // verus!
