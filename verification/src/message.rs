//! The kinds of message that a frame can carry.

use vstd::prelude::*;
use crate::frame::{Frame, FrameHeader, FrameView, TransmissionState};

verus! {

/// Defines the type of message in the protocol.
#[derive(Clone, Copy, PartialEq, Eq, Debug, Structural)]
pub enum MessageType {
    Broadcast,
    IPAssignSuccess,
    IPAssignFailure,
    RouteDiscovery,
    RouteSuccess,
    RouteFailure,
    TransmitRequest,
    TransmitConfirm,
    IPPacket,
}

/// Why a payload is not the message that its frame announces.
#[derive(Clone, Copy, PartialEq, Eq, Debug, Structural)]
pub enum MessageError {
    /// The payload ends before the end of the message.
    Truncated,
    /// The payload has not the length that the message has.
    InvalidLength,
    /// A byte that stands for a truth value is neither 0 nor 1.
    InvalidBoolean,
    /// The address offset is neither 0 nor 4.
    InvalidOffset,
    /// The text is not UTF-8.
    InvalidText,
    /// The bytes are not an IPv4 datagram.
    InvalidPacket,
}

/// Whether `code` is the wire code of a message kind.
pub open spec fn is_message_code(code: u8) -> bool {
    1 <= code <= 9
}

impl MessageType {
    /// The wire code of the kind.
    pub open spec fn code(self) -> u8 {
        match self {
            MessageType::Broadcast => 1,
            MessageType::IPAssignSuccess => 2,
            MessageType::IPAssignFailure => 3,
            MessageType::RouteDiscovery => 4,
            MessageType::RouteSuccess => 5,
            MessageType::RouteFailure => 6,
            MessageType::TransmitRequest => 7,
            MessageType::TransmitConfirm => 8,
            MessageType::IPPacket => 9,
        }
    }

    /// The kind with wire code `code`, for a code that names one.
    pub open spec fn of_code(code: u8) -> MessageType
        recommends
            is_message_code(code),
    {
        if code == 1 {
            MessageType::Broadcast
        } else if code == 2 {
            MessageType::IPAssignSuccess
        } else if code == 3 {
            MessageType::IPAssignFailure
        } else if code == 4 {
            MessageType::RouteDiscovery
        } else if code == 5 {
            MessageType::RouteSuccess
        } else if code == 6 {
            MessageType::RouteFailure
        } else if code == 7 {
            MessageType::TransmitRequest
        } else if code == 8 {
            MessageType::TransmitConfirm
        } else {
            MessageType::IPPacket
        }
    }

    /// Converts the kind to its wire code.
    pub fn to_u8(&self) -> (code: u8)
        ensures
            code == self.code(),
    {
        match self {
            MessageType::Broadcast => 1u8,
            MessageType::IPAssignSuccess => 2u8,
            MessageType::IPAssignFailure => 3u8,
            MessageType::RouteDiscovery => 4u8,
            MessageType::RouteSuccess => 5u8,
            MessageType::RouteFailure => 6u8,
            MessageType::TransmitRequest => 7u8,
            MessageType::TransmitConfirm => 8u8,
            MessageType::IPPacket => 9u8,
        }
    }

    /// Reads a wire code: `Some` kind exactly for the codes 1 to 9.
    pub fn from_u8(code: u8) -> (kind: Option<MessageType>)
        ensures
            kind.is_some() <==> is_message_code(code),
            kind.is_some() ==> kind.unwrap() == MessageType::of_code(code),
    {
        match code {
            1u8 => Some(MessageType::Broadcast),
            2u8 => Some(MessageType::IPAssignSuccess),
            3u8 => Some(MessageType::IPAssignFailure),
            4u8 => Some(MessageType::RouteDiscovery),
            5u8 => Some(MessageType::RouteSuccess),
            6u8 => Some(MessageType::RouteFailure),
            7u8 => Some(MessageType::TransmitRequest),
            8u8 => Some(MessageType::TransmitConfirm),
            9u8 => Some(MessageType::IPPacket),
            _ => None,
        }
    }
}

/// The frame that carries a payload of kind `kind` unchunked: flagged as
/// final, with the given id, sender and route.
pub open spec fn message_frame(kind: MessageType, frameid: u8, sender: u8, route: Seq<u8>, payload: Seq<u8>) -> FrameView {
    FrameView {
        txflag: TransmissionState::FinalChunk.code(),
        frameid,
        msgtype: kind.code(),
        sender,
        route,
        payload,
    }
}

/// Instantiate a new frame for tx
pub trait ToFromFrame: Sized {
    /// The kind under which the message travels.
    spec fn kind() -> MessageType;

    /// The payload that carries the message.
    spec fn payload_spec(&self) -> Seq<u8>;

    /// What is wrong with a payload that does not carry such a message.
    spec fn fault(payload: Seq<u8>) -> Option<MessageError>;

    /// Reads the message from the payload of a frame, and keeps the frame's
    /// header with it. The payload is refused exactly when it has a fault.
    fn from_frame(f: &Frame) -> (parsed: Result<Box<Self>, MessageError>)
        requires
            f.wf(),
        ensures
            match Self::fault(f@.payload) {
                Some(fault) => parsed == Err::<Box<Self>, MessageError>(fault),
                None => parsed.is_ok(),
            },
    ;

    /// Wraps the message in a frame with the given id, sender and route.
    fn to_frame(&self, frameid: u8, sender: u8, route: Vec<u8>) -> (frame: Frame)
        requires
            route@.len() <= 255,
        ensures
            frame.wf(),
            frame@ == message_frame(Self::kind(), frameid, sender, route@, self.payload_spec()),
    ;
}

/// Whether `header` is the header of `frame`.
pub open spec fn is_header_of(header: Option<FrameHeader>, frame: FrameView) -> bool {
    &&& header.is_some()
    &&& header.unwrap().wf()
    &&& header.unwrap()@ == frame.with_chunk(frame.txflag, Seq::<u8>::empty())
}

/// Broadcasts by a mesh node to discover a route to a node.
pub struct RouteDiscoveryMessage {
    pub header: Option<FrameHeader>,
    pub dest: u8,  // destination node being sought
    pub invalidhops: [u8; 197],  // nodes tried so far
}

/// Replies to a discovery message with a successful route.
pub struct RouteSuccessMessage {
    pub header: Option<FrameHeader>,
    pub to: u8,  // the node requesting discovery
    pub dest: u8,  // destination node being sought
    pub hops: [u8; 196],  // the nodes, in sequence, the requester must hop to deliver a message
}

/// A node is no longer reachable from the sender.
pub struct RouteFailureMessage {
    pub header: Option<FrameHeader>,
    pub failednodeid: u8,
}

/// Request destination node if okay to transmit.
pub struct TransmitRequestMessage {
    pub header: Option<FrameHeader>,
    pub dest: u8,  // the intended receiver
}

/// Confirm to original requester that it is okay to transmit.
pub struct TransmitConfirmMessage {
    pub header: Option<FrameHeader>,
    pub requester: u8,  // the original requester
}

} // verus!
