//! The gateway's answers to a node that asked for an address.

use vstd::prelude::*;
use vstd::string::*;
use vstd::utf8::{decode_utf8, encode_utf8, encode_utf8_decode_utf8, encode_utf8_valid_utf8, valid_utf8};
use crate::addr::Ipv4Addr;
use crate::frame::{Frame, FrameHeader};
use crate::message::{is_header_of, MessageError, MessageType, ToFromFrame};
use crate::util::parse_ipv4;

verus! {

/// Notify node of their new IP address.
#[derive(Debug)]
pub struct IPAssignSuccessMessage {
    pub header: Option<FrameHeader>,
    pub ipaddr: Ipv4Addr,
}

impl IPAssignSuccessMessage {
    /// The message that assigns `ipaddr`, not yet in a frame.
    pub fn new(ipaddr: Ipv4Addr) -> (msg: Self)
        ensures
            msg.header.is_none(),
            msg.ipaddr == ipaddr,
    {
        IPAssignSuccessMessage { header: None, ipaddr }
    }
}

impl ToFromFrame for IPAssignSuccessMessage {
    open spec fn kind() -> MessageType {
        MessageType::IPAssignSuccess
    }

    /// The four octets of the assigned address.
    open spec fn payload_spec(&self) -> Seq<u8> {
        self.ipaddr.octets_spec()
    }

    /// The payload must hold exactly four bytes.
    open spec fn fault(payload: Seq<u8>) -> Option<MessageError> {
        if payload.len() != 4 {
            Some(MessageError::InvalidLength)
        } else {
            None
        }
    }

    fn from_frame(f: &Frame) -> (parsed: Result<Box<Self>, MessageError>)
        ensures
            parsed.is_ok() ==> is_header_of(parsed.unwrap().header, f@)
                && parsed.unwrap().ipaddr.octets_spec() == f@.payload,
    {
        let header = f.header();
        let data = f.payload();
        if data.len() != 4 {
            return Err(MessageError::InvalidLength);
        }
        let ipaddr = parse_ipv4(data.as_slice());
        Ok(Box::new(IPAssignSuccessMessage { header: Some(header), ipaddr }))
    }

    fn to_frame(&self, frameid: u8, sender: u8, route: Vec<u8>) -> (frame: Frame)
        ensures
            frame@.payload == self.ipaddr.octets_spec(),
    {
        let routeoffset: u8 = route.len() as u8;

        // write the payload
        let mut data: Vec<u8> = Vec::new();
        let octets = self.ipaddr.octets();
        data.push(octets[0]);
        data.push(octets[1]);
        data.push(octets[2]);
        data.push(octets[3]);
        assert(data@ =~= self.payload_spec());
        Frame::new(0u8, frameid, MessageType::IPAssignSuccess.to_u8(), sender, routeoffset, route, data)
    }
}

/// Calls `String::from_utf8`. Trusted: the bytes are accepted exactly when
/// they are UTF-8, and the text is then what they encode.
#[verifier::external_body]
fn text_of_bytes(bytes: Vec<u8>) -> (text: Option<String>)
    ensures
        text.is_some() <==> valid_utf8(bytes@),
        text.is_some() ==> text.unwrap()@ == decode_utf8(bytes@),
{
    String::from_utf8(bytes).ok()
}

/// Assigning IP to node failed, tell them.
#[derive(Debug)]
pub struct IPAssignFailureMessage {
    pub header: Option<FrameHeader>,
    pub reason: String,
}

impl IPAssignFailureMessage {
    /// The message that gives `reason`, not yet in a frame.
    pub fn new(reason: String) -> (msg: Self)
        ensures
            msg.header.is_none(),
            msg.reason@ == reason@,
    {
        IPAssignFailureMessage { header: None, reason }
    }
}

/// The payload of a reason is UTF-8 and decodes to the reason.
pub proof fn lemma_reason_round_trip(reason: Seq<char>)
    ensures
        valid_utf8(encode_utf8(reason)),
        decode_utf8(encode_utf8(reason)) == reason,
{
    encode_utf8_valid_utf8(reason);
    encode_utf8_decode_utf8(reason);
}

impl ToFromFrame for IPAssignFailureMessage {
    open spec fn kind() -> MessageType {
        MessageType::IPAssignFailure
    }

    /// The reason as UTF-8.
    open spec fn payload_spec(&self) -> Seq<u8> {
        encode_utf8(self.reason@)
    }

    /// The payload must be UTF-8.
    open spec fn fault(payload: Seq<u8>) -> Option<MessageError> {
        if valid_utf8(payload) {
            None
        } else {
            Some(MessageError::InvalidText)
        }
    }

    fn from_frame(f: &Frame) -> (parsed: Result<Box<Self>, MessageError>)
        ensures
            parsed.is_ok() ==> is_header_of(parsed.unwrap().header, f@)
                && parsed.unwrap().reason@ == decode_utf8(f@.payload),
    {
        let header = f.header();
        match text_of_bytes(f.payload()) {
            Some(reason) => Ok(Box::new(IPAssignFailureMessage { header: Some(header), reason })),
            None => Err(MessageError::InvalidText),
        }
    }

    fn to_frame(&self, frameid: u8, sender: u8, route: Vec<u8>) -> (frame: Frame)
        ensures
            frame@.payload == encode_utf8(self.reason@),
    {
        let routeoffset: u8 = route.len() as u8;
        let payload = self.reason.as_str().as_bytes_vec();
        Frame::new(0u8, frameid, MessageType::IPAssignFailure.to_u8(), sender, routeoffset, route, payload)
    }
}

} // verus!
