//! The broadcast by which a node makes itself known.

use vstd::prelude::*;
use vstd::slice::slice_subrange;
use crate::addr::Ipv4Addr;
use crate::frame::{Frame, FrameHeader};
use crate::message::{is_header_of, MessageError, MessageType, ToFromFrame};
use crate::util::{bool_of_byte, byte_of_bool, parse_bool, parse_byte, parse_ipv4};

verus! {

/// Broadcast this node to nearby devices.
#[derive(Debug)]
#[allow(non_snake_case)]
pub struct BroadcastMessage {
    pub header: Option<FrameHeader>,
    pub isgateway: bool,
    pub ipOffset: usize,
    pub ipaddr: Option<Ipv4Addr>,
}

/// The payload of a broadcast: the gateway byte, the number of address
/// octets that follow (4 or 0), and the octets of the sender's address if it
/// has one.
pub open spec fn broadcast_payload(isgateway: bool, ipaddr: Option<Ipv4Addr>) -> Seq<u8> {
    match ipaddr {
        Some(ip) => seq![byte_of_bool(isgateway), 4u8] + ip.octets_spec(),
        None => seq![byte_of_bool(isgateway), 0u8],
    }
}

/// What is wrong with a broadcast payload, if anything: it is too short for
/// its two fixed bytes, its gateway byte is no truth value, its offset is
/// neither 0 nor 4, or it is too short for the address that it announces.
pub open spec fn broadcast_fault(payload: Seq<u8>) -> Option<MessageError> {
    if payload.len() < 2 {
        Some(MessageError::Truncated)
    } else if bool_of_byte(payload[0]).is_err() {
        Some(MessageError::InvalidBoolean)
    } else if payload[1] != 0 && payload[1] != 4 {
        Some(MessageError::InvalidOffset)
    } else if payload[1] == 4 && payload.len() < 6 {
        Some(MessageError::Truncated)
    } else {
        None
    }
}

/// The address that a faultless broadcast payload carries, if any.
pub open spec fn broadcast_address(payload: Seq<u8>) -> Option<Ipv4Addr>
    recommends
        broadcast_fault(payload).is_none(),
{
    if payload[1] == 4 {
        Some(Ipv4Addr { a: payload[2], b: payload[3], c: payload[4], d: payload[5] })
    } else {
        None
    }
}

/// The payload of a broadcast has no fault and gives its fields back.
pub proof fn lemma_broadcast_round_trip(isgateway: bool, ipaddr: Option<Ipv4Addr>)
    ensures
        broadcast_fault(broadcast_payload(isgateway, ipaddr)).is_none(),
        bool_of_byte(broadcast_payload(isgateway, ipaddr)[0]) == Ok::<bool, MessageError>(isgateway),
        broadcast_address(broadcast_payload(isgateway, ipaddr)) == ipaddr,
{
}

impl ToFromFrame for BroadcastMessage {
    open spec fn kind() -> MessageType {
        MessageType::Broadcast
    }

    open spec fn payload_spec(&self) -> Seq<u8> {
        broadcast_payload(self.isgateway, self.ipaddr)
    }

    open spec fn fault(payload: Seq<u8>) -> Option<MessageError> {
        broadcast_fault(payload)
    }

    fn from_frame(f: &Frame) -> (parsed: Result<Box<Self>, MessageError>)
        ensures
            parsed.is_ok() ==> {
                let msg = parsed.unwrap();
                &&& is_header_of(msg.header, f@)
                &&& bool_of_byte(f@.payload[0]) == Ok::<bool, MessageError>(msg.isgateway)
                &&& msg.ipOffset == f@.payload[1]
                &&& msg.ipaddr == broadcast_address(f@.payload)
            },
    {
        let header = f.header();
        let data = f.payload();
        if data.len() < 2 {
            return Err(MessageError::Truncated);
        }
        let isgateway = match parse_bool(data[0]) {
            Ok(flag) => flag,
            Err(fault) => {
                return Err(fault);
            },
        };
        let offset: usize = data[1] as usize;
        let mut ipaddr: Option<Ipv4Addr> = None;
        if offset == 4 {
            if data.len() < 6 {
                return Err(MessageError::Truncated);
            }
            let octets = slice_subrange(data.as_slice(), 2, 6);
            ipaddr = Some(parse_ipv4(octets));
            assert(ipaddr.unwrap().octets_spec()[0] == data@[2]);
            assert(ipaddr.unwrap().octets_spec()[1] == data@[3]);
            assert(ipaddr.unwrap().octets_spec()[2] == data@[4]);
            assert(ipaddr.unwrap().octets_spec()[3] == data@[5]);
        } else if offset != 0 {
            return Err(MessageError::InvalidOffset);
        }
        Ok(Box::new(BroadcastMessage { header: Some(header), isgateway, ipOffset: offset, ipaddr }))
    }

    fn to_frame(&self, frameid: u8, sender: u8, route: Vec<u8>) -> (frame: Frame)
        ensures
            frame@.payload == broadcast_payload(self.isgateway, self.ipaddr),
    {
        // write the payload
        let mut payload: Vec<u8> = Vec::new();
        payload.push(parse_byte(self.isgateway));

        // write offset and octets if ip assigned
        match self.ipaddr {
            Some(ip) => {
                payload.push(4u8);
                let octets = ip.octets();
                payload.push(octets[0]);
                payload.push(octets[1]);
                payload.push(octets[2]);
                payload.push(octets[3]);
                assert(payload@ =~= self.payload_spec());
            },
            None => {
                payload.push(0u8);
                assert(payload@ =~= self.payload_spec());
            },
        }
        let routeoffset: u8 = route.len() as u8;
        Frame::new(0u8, frameid, MessageType::Broadcast.to_u8(), sender, routeoffset, route, payload)
    }
}

} // verus!
