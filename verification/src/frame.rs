//! The link frame: its layout on the wire, its route, and its chunks.

use vstd::prelude::*;
use vstd::slice::{slice_subrange, slice_to_vec};
use crate::chunk::{chunk_data, chunks_of, concat_all, views_of, lemma_chunks_bounds, lemma_chunks_concat};
use crate::message::{MessageType, is_message_code};

verus! {

/// The largest frame that the radio carries, in bytes.
pub const MTU_FRAME: usize = 250;

/// The number of header bytes that precede the route.
pub const FIXED_HEADER_LEN: usize = 5;

/// Defines continuity in current transmission
#[derive(Clone, Copy, PartialEq, Eq, Debug, Structural)]
pub enum TransmissionState {
    FinalChunk,
    MoreChunks,
    SlotExceeded,
}

/// Whether `code` is the wire code of a transmission state.
pub open spec fn is_tx_code(code: u8) -> bool {
    code <= 2
}

impl TransmissionState {
    /// The wire code of the state.
    pub open spec fn code(self) -> u8 {
        match self {
            TransmissionState::FinalChunk => 0,
            TransmissionState::MoreChunks => 1,
            TransmissionState::SlotExceeded => 2,
        }
    }

    /// The state with wire code `code`, for a code that names one.
    pub open spec fn of_code(code: u8) -> TransmissionState
        recommends
            is_tx_code(code),
    {
        if code == 0 {
            TransmissionState::FinalChunk
        } else if code == 1 {
            TransmissionState::MoreChunks
        } else {
            TransmissionState::SlotExceeded
        }
    }

    /// convert txflag to byte
    pub fn to_u8(&self) -> (code: u8)
        ensures
            code == self.code(),
            is_tx_code(code),
            TransmissionState::of_code(code) == *self,
    {
        match self {
            TransmissionState::FinalChunk => 0u8,
            TransmissionState::MoreChunks => 1u8,
            TransmissionState::SlotExceeded => 2u8,
        }
    }

    /// Reads a wire code: `Some` state exactly for the codes 0 to 2.
    pub fn from_u8(code: u8) -> (state: Option<TransmissionState>)
        ensures
            state.is_some() <==> is_tx_code(code),
            state.is_some() ==> state.unwrap() == TransmissionState::of_code(code)
                && state.unwrap().code() == code,
    {
        match code {
            0u8 => Some(TransmissionState::FinalChunk),
            1u8 => Some(TransmissionState::MoreChunks),
            2u8 => Some(TransmissionState::SlotExceeded),
            _ => None,
        }
    }

    /// boolean to determine if more rx is needed
    pub fn more_chunks(&self) -> (more: bool)
        ensures
            more == (*self != TransmissionState::FinalChunk),
    {
        match self {
            TransmissionState::FinalChunk => false,
            TransmissionState::MoreChunks => true,
            TransmissionState::SlotExceeded => true,
        }
    }
}

/// What a frame holds: the header fields, the remaining route and the payload.
pub struct FrameView {
    pub txflag: u8,
    pub frameid: u8,
    pub msgtype: u8,
    pub sender: u8,
    pub route: Seq<u8>,
    pub payload: Seq<u8>,
}

impl FrameView {
    /// The fields are in range and the route length fits its header byte.
    pub open spec fn valid(self) -> bool {
        &&& is_tx_code(self.txflag)
        &&& is_message_code(self.msgtype)
        &&& self.route.len() <= 255
    }

    /// The number of bytes that precede the payload on the wire.
    pub open spec fn header_len(self) -> nat {
        FIXED_HEADER_LEN as nat + self.route.len()
    }

    /// The header bytes on the wire: the five fixed bytes, then the route.
    pub open spec fn header_bytes(self) -> Seq<u8> {
        seq![self.txflag, self.frameid, self.msgtype, self.sender, self.route.len() as u8] + self.route
    }

    /// The frame on the wire: header, then payload.
    pub open spec fn encode(self) -> Seq<u8> {
        self.header_bytes() + self.payload
    }

    /// The same frame after its first hop is taken off the route.
    pub open spec fn route_shifted(self) -> FrameView
        recommends
            self.route.len() > 0,
    {
        FrameView { route: self.route.subrange(1, self.route.len() as int), ..self }
    }

    /// The same frame with `nodeid` put in front of the route.
    pub open spec fn route_unshifted(self, nodeid: u8) -> FrameView {
        FrameView { route: seq![nodeid] + self.route, ..self }
    }

    /// The same frame with another transmission flag and payload.
    pub open spec fn with_chunk(self, txflag: u8, payload: Seq<u8>) -> FrameView {
        FrameView { txflag, payload, ..self }
    }
}

/// Why a byte string is not a frame.
#[derive(Clone, Copy, PartialEq, Eq, Debug, Structural)]
pub enum FrameError {
    /// The bytes end before the fixed header or before the end of the route.
    Truncated,
    /// The transmission flag is none of the known codes.
    InvalidTxFlag,
    /// The message type is none of the known codes.
    InvalidMessageType,
}

/// What decoding `bytes` gives: the frame, or the first fault found when
/// reading the fixed header, the two coded fields and then the route.
pub open spec fn decode(bytes: Seq<u8>) -> Result<FrameView, FrameError> {
    if bytes.len() < FIXED_HEADER_LEN {
        Err(FrameError::Truncated)
    } else if !is_tx_code(bytes[0]) {
        Err(FrameError::InvalidTxFlag)
    } else if !is_message_code(bytes[2]) {
        Err(FrameError::InvalidMessageType)
    } else if bytes.len() < FIXED_HEADER_LEN + bytes[4] {
        Err(FrameError::Truncated)
    } else {
        Ok(
            FrameView {
                txflag: bytes[0],
                frameid: bytes[1],
                msgtype: bytes[2],
                sender: bytes[3],
                route: bytes.subrange(FIXED_HEADER_LEN as int, FIXED_HEADER_LEN + bytes[4]),
                payload: bytes.subrange(FIXED_HEADER_LEN + bytes[4], bytes.len() as int),
            },
        )
    }
}

/// Decoding the encoding of a valid frame gives the frame back.
pub proof fn lemma_decode_encode(frame: FrameView)
    requires
        frame.valid(),
    ensures
        decode(frame.encode()) == Ok::<FrameView, FrameError>(frame),
{
    let bytes = frame.encode();
    assert(bytes.len() == 5 + frame.route.len() + frame.payload.len());
    assert(bytes[4] == frame.route.len() as u8);
    let got = decode(bytes).unwrap();
    assert(got.route =~= frame.route);
    assert(got.payload =~= frame.payload);
}

/// A byte string that decodes is the encoding of what it decodes to, and
/// that frame is valid.
pub proof fn lemma_encode_decode(bytes: Seq<u8>)
    requires
        decode(bytes).is_ok(),
    ensures
        decode(bytes).unwrap().valid(),
        decode(bytes).unwrap().encode() == bytes,
{
    let frame = decode(bytes).unwrap();
    assert(frame.encode() =~= bytes);
}

/// header of a frame
#[derive(Debug)]
pub struct FrameHeader {
    txflag: TransmissionState,
    frameid: u8,
    msgtype: MessageType,
    sender: u8,
    routeoffset: usize,
    route: Vec<u8>,
}

impl Clone for FrameHeader {
    fn clone(&self) -> (copy: Self)
        ensures
            copy@ == self@,
            self.wf() ==> copy.wf(),
    {
        FrameHeader {
            txflag: self.txflag,
            frameid: self.frameid,
            msgtype: self.msgtype,
            sender: self.sender,
            routeoffset: self.routeoffset,
            route: self.route.clone(),
        }
    }
}

impl FrameHeader {
    /// The header as a frame without payload.
    pub closed spec fn view(&self) -> FrameView {
        FrameView {
            txflag: self.txflag.code(),
            frameid: self.frameid,
            msgtype: self.msgtype.code(),
            sender: self.sender,
            route: self.route@,
            payload: Seq::<u8>::empty(),
        }
    }

    /// The recorded route length is the length of the route, and it fits one byte.
    pub closed spec fn wf(&self) -> bool {
        &&& self.routeoffset == self.route@.len()
        &&& self.route@.len() <= 255
    }

    /// A well-formed header is a valid frame without payload.
    pub proof fn lemma_view_valid(&self)
        requires
            self.wf(),
        ensures
            self@.valid(),
            self@.payload == Seq::<u8>::empty(),
    {
    }

    /// constructor
    pub fn new(txflag: TransmissionState, frameid: u8, msgtype: MessageType, sender: u8, route: Vec<u8>) -> (header: Self)
        requires
            route@.len() <= 255,
        ensures
            header.wf(),
            header@ == (FrameView {
                txflag: txflag.code(),
                frameid,
                msgtype: msgtype.code(),
                sender,
                route: route@,
                payload: Seq::<u8>::empty(),
            }),
    {
        FrameHeader { txflag, frameid, msgtype, sender, routeoffset: route.len(), route }
    }

    /// convert a packet to bytes
    pub fn bytes(&self) -> (bytes: Vec<u8>)
        requires
            self.wf(),
        ensures
            bytes@ == self@.header_bytes(),
    {
        let mut bytes: Vec<u8> = Vec::new();
        bytes.push(self.txflag.to_u8());
        bytes.push(self.frameid);
        bytes.push(self.msgtype.to_u8());
        bytes.push(self.sender);
        bytes.push(self.routeoffset as u8);
        bytes.extend_from_slice(self.route.as_slice());
        assert(bytes@ =~= self@.header_bytes());
        bytes
    }

    /// The transmission state of the frame.
    pub fn txflag(&self) -> (state: TransmissionState)
        ensures
            state.code() == self@.txflag,
    {
        self.txflag
    }

    /// The id that the chunks of one payload share.
    pub fn frameid(&self) -> (id: u8)
        ensures
            id == self@.frameid,
    {
        self.frameid
    }

    /// The kind of message that the frame carries.
    pub fn msgtype(&self) -> (kind: MessageType)
        ensures
            kind.code() == self@.msgtype,
    {
        self.msgtype
    }

    /// The node that the frame comes from.
    pub fn sender(&self) -> (id: u8)
        ensures
            id == self@.sender,
    {
        self.sender
    }

    /// The hops that the frame has still to take.
    pub fn route(&self) -> (route: Vec<u8>)
        ensures
            route@ == self@.route,
    {
        self.route.clone()
    }

    /// The hops that the frame has still to take, as bytes.
    pub fn route_bytes(&self) -> (route: Vec<u8>)
        ensures
            route@ == self@.route,
    {
        self.route.clone()
    }
}

/// A simple packet indicating the sender, message type, and transmission state
#[derive(Debug)]
pub struct Frame {
    txflag: u8,  // indicates if chunked
    frameid: u8,  // shared by the chunks of one payload
    msgtype: u8,  // a flag for message type
    sender: u8,  // which node ID sent this frame?
    routeoffset: u8,  // size of array of route for frame
    route: Vec<u8>,  // a list of node IDs that frame should pass
    payload: Vec<u8>,  // payload data
}

impl View for Frame {
    type V = FrameView;

    closed spec fn view(&self) -> FrameView {
        FrameView {
            txflag: self.txflag,
            frameid: self.frameid,
            msgtype: self.msgtype,
            sender: self.sender,
            route: self.route@,
            payload: self.payload@,
        }
    }
}

impl Clone for Frame {
    fn clone(&self) -> (copy: Self)
        ensures
            copy@ == self@,
            self.wf() ==> copy.wf(),
    {
        Frame {
            txflag: self.txflag,
            frameid: self.frameid,
            msgtype: self.msgtype,
            sender: self.sender,
            routeoffset: self.routeoffset,
            route: self.route.clone(),
            payload: self.payload.clone(),
        }
    }
}

impl Frame {
    /// The coded fields are in range and the recorded route length is the
    /// length of the route.
    pub closed spec fn wf(&self) -> bool {
        &&& is_tx_code(self.txflag)
        &&& is_message_code(self.msgtype)
        &&& self.routeoffset == self.route@.len()
    }

    /// A well-formed frame holds a valid view.
    pub proof fn lemma_view_valid(&self)
        requires
            self.wf(),
        ensures
            self@.valid(),
    {
    }

    /// public construct for Frame
    pub fn new(
        txflag: u8,
        frameid: u8,
        msgtype: u8,
        sender: u8,
        routeoffset: u8,
        route: Vec<u8>,
        payload: Vec<u8>,
    ) -> (frame: Self)
        requires
            is_tx_code(txflag),
            is_message_code(msgtype),
            routeoffset == route@.len(),
        ensures
            frame.wf(),
            frame@ == (FrameView { txflag, frameid, msgtype, sender, route: route@, payload: payload@ }),
    {
        Frame { txflag, frameid, msgtype, sender, routeoffset, route, payload }
    }

    /// construct a frame from a header and payload
    pub fn from_header(header: FrameHeader, payload: Vec<u8>) -> (frame: Self)
        requires
            header.wf(),
        ensures
            frame.wf(),
            frame@ == header@.with_chunk(header@.txflag, payload@),
    {
        let route = header.route_bytes();
        Frame {
            txflag: header.txflag.to_u8(),
            frameid: header.frameid,
            msgtype: header.msgtype.to_u8(),
            sender: header.sender,
            routeoffset: header.routeoffset as u8,
            route,
            payload,
        }
    }

    /// convert a packet to bytes
    pub fn to_bytes(&self) -> (bytes: Vec<u8>)
        requires
            self.wf(),
        ensures
            bytes@ == self@.encode(),
    {
        let mut bytes: Vec<u8> = Vec::new();
        bytes.push(self.txflag);
        bytes.push(self.frameid);
        bytes.push(self.msgtype);
        bytes.push(self.sender);
        bytes.push(self.routeoffset);
        bytes.extend_from_slice(self.route.as_slice());
        // push data, if any
        bytes.extend_from_slice(self.payload.as_slice());
        assert(bytes@ =~= self@.encode());
        bytes
    }

    /// parse from raw bytes
    pub fn from_bytes(bytes: &Vec<u8>) -> (parsed: Result<Self, FrameError>)
        ensures
            match decode(bytes@) {
                Ok(view) => parsed.is_ok() && parsed.unwrap()@ == view && parsed.unwrap().wf(),
                Err(fault) => parsed == Err::<Self, FrameError>(fault),
            },
    {
        if bytes.len() < FIXED_HEADER_LEN {
            return Err(FrameError::Truncated);
        }
        let txflag: u8 = bytes[0];
        let frameid: u8 = bytes[1];
        let msgtype: u8 = bytes[2];
        let sender: u8 = bytes[3];
        let routeoffset: u8 = bytes[4];
        if txflag > 2 {
            return Err(FrameError::InvalidTxFlag);
        }
        if msgtype < 1 || msgtype > 9 {
            return Err(FrameError::InvalidMessageType);
        }
        let routeend: usize = FIXED_HEADER_LEN + routeoffset as usize;
        if bytes.len() < routeend {
            return Err(FrameError::Truncated);
        }
        let route = slice_to_vec(slice_subrange(bytes.as_slice(), FIXED_HEADER_LEN, routeend));
        let payload = slice_to_vec(slice_subrange(bytes.as_slice(), routeend, bytes.len()));
        Ok(Frame { txflag, frameid, msgtype, sender, routeoffset, route, payload })
    }

    /// remove the next hop in the route, and return the hop ID
    /// this is useful for message passing
    pub fn route_shift(&mut self) -> (hop: Option<u8>)
        requires
            old(self).wf(),
        ensures
            final(self).wf(),
            old(self)@.route.len() == 0 ==> hop.is_none() && final(self)@ == old(self)@,
            old(self)@.route.len() > 0 ==> hop == Some(old(self)@.route[0])
                && final(self)@ == old(self)@.route_shifted(),
    {
        if self.route.len() == 0 {
            return None;
        }
        let hop: u8 = self.route.remove(0);
        self.routeoffset = self.routeoffset - 1;
        assert(self.route@ =~= old(self)@.route.subrange(1, old(self)@.route.len() as int));
        Some(hop)
    }

    /// insert a hop at the beginning of the route
    /// useful for when a message is rebroadcasted
    pub fn route_unshift(&mut self, nodeid: u8)
        requires
            old(self).wf(),
            old(self)@.route.len() < 255,
        ensures
            final(self).wf(),
            final(self)@ == old(self)@.route_unshifted(nodeid),
    {
        self.route.insert(0, nodeid);
        self.routeoffset = self.routeoffset + 1;
        assert(self.route@ =~= seq![nodeid] + old(self)@.route);
    }

    /// The header of the frame.
    pub fn header(&self) -> (header: FrameHeader)
        requires
            self.wf(),
        ensures
            header.wf(),
            header@ == self@.with_chunk(self@.txflag, Seq::<u8>::empty()),
    {
        FrameHeader {
            txflag: self.txflag(),
            frameid: self.frameid,
            msgtype: self.msgtype(),
            sender: self.sender,
            routeoffset: self.route.len(),
            route: self.route.clone(),
        }
    }

    /// The transmission state of the frame.
    pub fn txflag(&self) -> (state: TransmissionState)
        requires
            self.wf(),
        ensures
            state == TransmissionState::of_code(self@.txflag),
            state.code() == self@.txflag,
    {
        if self.txflag == 0 {
            TransmissionState::FinalChunk
        } else if self.txflag == 1 {
            TransmissionState::MoreChunks
        } else {
            TransmissionState::SlotExceeded
        }
    }

    /// The kind of message that the frame carries.
    pub fn msgtype(&self) -> (kind: MessageType)
        requires
            self.wf(),
        ensures
            kind == MessageType::of_code(self@.msgtype),
            kind.code() == self@.msgtype,
    {
        match MessageType::from_u8(self.msgtype) {
            Some(kind) => kind,
            None => MessageType::IPPacket,
        }
    }

    /// The id that the chunks of one payload share.
    pub fn frameid(&self) -> (id: u8)
        ensures
            id == self@.frameid,
    {
        self.frameid
    }

    /// The node that the frame comes from.
    pub fn sender(&self) -> (id: u8)
        ensures
            id == self@.sender,
    {
        self.sender
    }

    /// The number of hops that the frame has still to take.
    pub fn routeoffset(&self) -> (len: u8)
        requires
            self.wf(),
        ensures
            len == self@.route.len(),
    {
        self.routeoffset
    }

    /// The hops that the frame has still to take.
    pub fn route(&self) -> (route: Vec<u8>)
        ensures
            route@ == self@.route,
    {
        self.route.clone()
    }

    /// The hops that the frame has still to take, as bytes.
    pub fn route_bytes(&self) -> (route: Vec<u8>)
        ensures
            route@ == self@.route,
    {
        self.route.clone()
    }

    /// The payload of the frame.
    pub fn payload(&self) -> (payload: Vec<u8>)
        ensures
            payload@ == self@.payload,
    {
        self.payload.clone()
    }
}

/// The frames that carry `frame` over a link whose frames hold at most
/// `limit` bytes: the payload is cut into pieces that fit beside the header,
/// every frame repeats the header, all but the last are flagged as followed
/// by more, and the last is flagged as final.
pub open spec fn chunk_views(frame: FrameView, limit: nat) -> Seq<FrameView>
    recommends
        limit > frame.header_len(),
{
    let parts = chunks_of(frame.payload, (limit - frame.header_len()) as nat);
    Seq::new(
        parts.len(),
        |i: int|
            frame.with_chunk(
                if i < parts.len() - 1 {
                    TransmissionState::MoreChunks.code()
                } else {
                    TransmissionState::FinalChunk.code()
                },
                parts[i],
            ),
    )
}

/// The payloads of a list of frames.
pub open spec fn payloads_of(frames: Seq<FrameView>) -> Seq<Seq<u8>> {
    frames.map_values(|f: FrameView| f.payload)
}

/// The frame that a group of chunks stands for: the header of `last`, and
/// the payloads of `held` in order followed by that of `last`.
pub open spec fn reassembled(held: Seq<FrameView>, last: FrameView) -> FrameView {
    last.with_chunk(last.txflag, concat_all(payloads_of(held)) + last.payload)
}

/// Appending one piece appends it to the concatenation.
pub proof fn lemma_concat_push(parts: Seq<Seq<u8>>, piece: Seq<u8>)
    ensures
        concat_all(parts.push(piece)) == concat_all(parts) + piece,
    decreases parts.len(),
{
    if parts.len() == 0 {
        assert(parts.push(piece).subrange(1, 1) =~= Seq::<Seq<u8>>::empty());
        assert(concat_all(parts.push(piece).subrange(1, 1)) =~= Seq::<u8>::empty());
        assert(concat_all(parts) =~= Seq::<u8>::empty());
        assert(concat_all(parts.push(piece)) =~= concat_all(parts) + piece);
    } else {
        let rest = parts.subrange(1, parts.len() as int);
        lemma_concat_push(rest, piece);
        assert(parts.push(piece).subrange(1, parts.len() as int + 1) =~= rest.push(piece));
        assert(concat_all(parts.push(piece)) =~= concat_all(parts) + piece);
    }
}

/// Chunking and reassembling round-trips: each chunk is a valid frame of at
/// most `limit` bytes that decodes to itself, only the last chunk is final,
/// and the chunks before the last, reassembled with the last, give the frame
/// back, flagged as final.
pub proof fn lemma_chunk_round_trip(frame: FrameView, limit: nat)
    requires
        frame.valid(),
        limit > frame.header_len(),
    ensures
        chunk_views(frame, limit).len() >= 1,
        forall|i: int| 0 <= i < chunk_views(frame, limit).len() ==> {
            let chunk = #[trigger] chunk_views(frame, limit)[i];
            &&& chunk.valid()
            &&& chunk.encode().len() <= limit
            &&& decode(chunk.encode()) == Ok::<FrameView, FrameError>(chunk)
            &&& (chunk.txflag == TransmissionState::FinalChunk.code()) == (i == chunk_views(frame, limit).len() - 1)
        },
        reassembled(chunk_views(frame, limit).drop_last(), chunk_views(frame, limit).last())
            == frame.with_chunk(TransmissionState::FinalChunk.code(), frame.payload),
        frame.payload.len() + frame.header_len() <= limit <==> chunk_views(frame, limit).len() == 1,
{
    let room = (limit - frame.header_len()) as nat;
    let parts = chunks_of(frame.payload, room);
    let chunks = chunk_views(frame, limit);
    lemma_chunks_bounds(frame.payload, room);
    lemma_chunks_concat(frame.payload, room);
    assert forall|i: int| 0 <= i < chunks.len() implies {
        let chunk = #[trigger] chunks[i];
        &&& chunk.valid()
        &&& chunk.encode().len() <= limit
        &&& decode(chunk.encode()) == Ok::<FrameView, FrameError>(chunk)
        &&& (chunk.txflag == TransmissionState::FinalChunk.code()) == (i == chunks.len() - 1)
    } by {
        let chunk = chunks[i];
        assert(chunk.payload == parts[i]);
        assert(parts[i].len() <= room);
        lemma_decode_encode(chunk);
    }
    let held = chunks.drop_last();
    let last = chunks.last();
    assert(payloads_of(held).push(last.payload) =~= parts);
    lemma_concat_push(payloads_of(held), last.payload);
    assert(reassembled(held, last) == frame.with_chunk(0, frame.payload));
}

/// Taking the first hop off a route and putting `nodeid` in front gives the
/// route back exactly when the hop taken off was `nodeid`.
pub proof fn lemma_shift_unshift(frame: FrameView, nodeid: u8)
    requires
        frame.route.len() > 0,
    ensures
        (frame.route_shifted().route_unshifted(nodeid) == frame) <==> frame.route[0] == nodeid,
        frame.route_unshifted(nodeid).route_shifted() == frame,
{
    let back = frame.route_shifted().route_unshifted(nodeid);
    assert(back.route[0] == nodeid);
    if frame.route[0] == nodeid {
        assert(back.route =~= frame.route);
    }
    assert(frame.route_unshifted(nodeid).route_shifted().route =~= frame.route);
}

/// The views of a vector of frames.
pub open spec fn frame_views(frames: Seq<Frame>) -> Seq<FrameView> {
    frames.map_values(|f: Frame| f@)
}

/// The encodings of a list of frames.
pub open spec fn encodings_of(frames: Seq<FrameView>) -> Seq<Seq<u8>> {
    frames.map_values(|f: FrameView| f.encode())
}

impl Frame {
    /// The number of bytes that precede the payload on the wire.
    pub fn header_len(&self) -> (len: usize)
        requires
            self.wf(),
        ensures
            len == self@.header_len(),
            len <= 260,
    {
        FIXED_HEADER_LEN + self.route.len()
    }

    /// chunk a frame into multiple frames
    pub fn chunked(&self, chunksize: &usize) -> (chunks: Vec<Vec<u8>>)
        requires
            self.wf(),
            *chunksize > self@.header_len(),
        ensures
            views_of(chunks@) == encodings_of(chunk_views(self@, *chunksize as nat)),
    {
        let room: usize = *chunksize - self.header_len();
        let payloadchunks = chunk_data(self.payload.clone(), &room);
        let ghost parts = chunks_of(self@.payload, room as nat);
        let ghost wanted = encodings_of(chunk_views(self@, *chunksize as nat));
        proof {
            lemma_chunks_bounds(self@.payload, room as nat);
            assert(payloadchunks@.len() == views_of(payloadchunks@).len());
        }
        // add header data to each frame
        let mut chunks: Vec<Vec<u8>> = Vec::new();
        let count: usize = payloadchunks.len();
        let mut i: usize = 0;
        while i < count
            invariant
                self.wf(),
                i <= count,
                count == payloadchunks@.len(),
                count == parts.len(),
                views_of(payloadchunks@) == parts,
                wanted == encodings_of(chunk_views(self@, *chunksize as nat)),
                parts == chunks_of(self@.payload, (*chunksize - self@.header_len()) as nat),
                wanted.len() == count,
                chunks@.len() == i,
                forall|k: int| 0 <= k < i ==> (#[trigger] chunks@[k])@ == wanted[k],
            decreases count - i,
        {
            let mut chunk: Vec<u8> = Vec::new();
            // set tx flag
            if i < count - 1 {
                chunk.push(TransmissionState::MoreChunks.to_u8());
            } else {
                chunk.push(TransmissionState::FinalChunk.to_u8());
            }
            chunk.push(self.frameid);
            chunk.push(self.msgtype);
            chunk.push(self.sender);
            chunk.push(self.routeoffset);
            chunk.extend_from_slice(self.route.as_slice());
            chunk.extend_from_slice(payloadchunks[i].as_slice());
            proof {
                assert(views_of(payloadchunks@)[i as int] == payloadchunks@[i as int]@);
                assert(chunk@ =~= chunk_views(self@, *chunksize as nat)[i as int].encode());
            }
            chunks.push(chunk);
            i = i + 1;
        }
        assert(views_of(chunks@) =~= wanted);
        chunks
    }
}

/// take a list of received chunked frames and recombine their payload
pub fn recombine_chunks(chunks: Vec<Frame>, header: FrameHeader) -> (frame: Frame)
    requires
        header.wf(),
    ensures
        frame.wf(),
        frame@ == header@.with_chunk(header@.txflag, concat_all(payloads_of(frame_views(chunks@)))),
{
    let mut combinedbytes: Vec<u8> = Vec::new();
    let mut i: usize = 0;
    assert(payloads_of(frame_views(chunks@)).subrange(0, 0) =~= Seq::<Seq<u8>>::empty());
    while i < chunks.len()
        invariant
            i <= chunks@.len(),
            combinedbytes@ == concat_all(payloads_of(frame_views(chunks@)).subrange(0, i as int)),
        decreases chunks@.len() - i,
    {
        proof {
            let all = payloads_of(frame_views(chunks@));
            lemma_concat_push(all.subrange(0, i as int), all[i as int]);
            assert(all.subrange(0, i as int).push(all[i as int]) =~= all.subrange(0, i + 1));
            assert(all[i as int] == chunks@[i as int]@.payload);
        }
        combinedbytes.extend_from_slice(chunks[i].payload.as_slice());
        i = i + 1;
    }
    proof {
        let all = payloads_of(frame_views(chunks@));
        assert(all.subrange(0, i as int) =~= all);
    }
    Frame::from_header(header, combinedbytes)
}

} // verus!
