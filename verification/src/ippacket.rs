//! The message that carries an IPv4 datagram through the mesh.

use vstd::prelude::*;
use crate::frame::{Frame, FrameHeader};
use crate::message::{is_header_of, MessageError, MessageType, ToFromFrame};
use crate::packet::{datagram_len, is_datagram, Ipv4Packet};

verus! {

/// Container for IP-level packets
#[derive(Debug)]
pub struct IPPacketMessage {
    header: Option<FrameHeader>,
    packet: Ipv4Packet,
}

impl IPPacketMessage {
    /// The bytes of the packet that the message holds.
    pub closed spec fn packet_view(&self) -> Seq<u8> {
        self.packet@
    }

    /// The header of the frame that the message was read from, if any.
    pub closed spec fn header_view(&self) -> Option<FrameHeader> {
        self.header
    }

    /// The message that carries `packet`, not yet in a frame.
    pub fn new(packet: Ipv4Packet) -> (msg: Self)
        ensures
            msg.packet_view() == packet@,
            msg.header_view().is_none(),
    {
        IPPacketMessage { header: None, packet }
    }

    /// The packet that the message carries.
    pub fn packet(&self) -> (packet: Ipv4Packet)
        ensures
            packet@ == self.packet_view(),
            is_datagram(packet@),
    {
        self.packet.clone()
    }

    /// The header of the frame that the message was read from, if any.
    pub fn header(&self) -> (header: Option<FrameHeader>)
        ensures
            header.is_some() == self.header_view().is_some(),
            header.is_some() ==> header.unwrap()@ == self.header_view().unwrap()@
                && (self.header_view().unwrap().wf() ==> header.unwrap().wf()),
    {
        match &self.header {
            Some(h) => Some(h.clone()),
            None => None,
        }
    }
}

impl ToFromFrame for IPPacketMessage {
    open spec fn kind() -> MessageType {
        MessageType::IPPacket
    }

    /// The datagram, without what its buffer holds behind it.
    open spec fn payload_spec(&self) -> Seq<u8> {
        self.packet_view().subrange(0, datagram_len(self.packet_view()) as int)
    }

    /// The payload must start with an IPv4 datagram.
    open spec fn fault(payload: Seq<u8>) -> Option<MessageError> {
        if is_datagram(payload) {
            None
        } else {
            Some(MessageError::InvalidPacket)
        }
    }

    fn from_frame(f: &Frame) -> (parsed: Result<Box<Self>, MessageError>)
        ensures
            parsed.is_ok() ==> is_header_of(parsed.unwrap().header_view(), f@)
                && parsed.unwrap().packet_view() == f@.payload,
    {
        let header = f.header();
        let data = f.payload();
        match Ipv4Packet::new(data) {
            Ok(packet) => Ok(Box::new(IPPacketMessage { header: Some(header), packet })),
            Err(fault) => Err(fault),
        }
    }

    fn to_frame(&self, frameid: u8, sender: u8, route: Vec<u8>) -> (frame: Frame)
        ensures
            frame@.payload == self.packet_view().subrange(0, datagram_len(self.packet_view()) as int),
    {
        let routeoffset: u8 = route.len() as u8;

        // write the payload
        let payload: Vec<u8> = self.packet.to_bytes();
        Frame::new(0u8, frameid, MessageType::IPPacket.to_u8(), sender, routeoffset, route, payload)
    }
}

} // verus!
