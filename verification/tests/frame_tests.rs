use loramesh::addr::Ipv4Addr;
use loramesh::broadcast::BroadcastMessage;
use loramesh::chunk::chunk_data;
use loramesh::frame::{recombine_chunks, Frame, FrameError, FrameHeader, TransmissionState};
use loramesh::ipassign::{IPAssignFailureMessage, IPAssignSuccessMessage};
use loramesh::ippacket::IPPacketMessage;
use loramesh::message::{MessageError, MessageType, ToFromFrame};
use loramesh::packet::Ipv4Packet;

fn dns_query() -> Vec<u8> {
    vec![
        0x45u8, 0x00, 0x00, 0x42, 0x47, 0x07, 0x40, 0x00, 0x40, 0x11, 0x6e, 0xcc, 0xc0, 0xa8, 0x01, 0x89, 0xc0, 0xa8,
        0x01, 0xfe, 0xba, 0x2f, 0x00, 0x35, 0x00, 0x2e, 0x1d, 0xf8, 0xbc, 0x81, 0x01, 0x00, 0x00, 0x01, 0x00, 0x00,
        0x00, 0x00, 0x00, 0x00, 0x03, 0x61, 0x70, 0x69, 0x0c, 0x73, 0x74, 0x65, 0x61, 0x6d, 0x70, 0x6f, 0x77, 0x65,
        0x72, 0x65, 0x64, 0x03, 0x63, 0x6f, 0x6d, 0x00, 0x00, 0x1c, 0x00, 0x01,
    ]
}

#[test]
fn frame_chunking() {
    // check sizes during chunking
    let sender = 3u8;
    let raw = dns_query();
    let hex1 = hex::encode(&raw);
    let originalsize = raw.len();
    let packet = Ipv4Packet::new(raw.clone()).expect("Invalid packet");

    // ensure the packet buffer is same as original packet
    assert_eq!(&hex1, &hex::encode(&raw));

    let msg = IPPacketMessage::new(packet);
    let frame = msg.to_frame(7u8, sender, Vec::new());

    // no frame on the wire is longer than the chunk size, header included
    let chunksize = 45usize;
    let headersize = 5usize;
    let chunks = frame.chunked(&chunksize);

    // ensure the sizes of the chunked packet are correct
    assert_eq!(&originalsize, &66usize);
    assert_eq!(chunks.len(), 2);
    assert_eq!(&chunks[0].len(), &chunksize);
    assert_eq!(&chunks[1].len(), &(originalsize - (chunksize - headersize) + headersize));
    assert_eq!(chunks[0][0], 1);
    assert_eq!(chunks[1][0], 0);

    // check recombination
    let mut chunkedframes = Vec::new();
    for chunk in chunks {
        chunkedframes.push(Frame::from_bytes(&chunk).expect("Invalid chunked frame"));
    }

    let mut rawchunks = chunkedframes[0].clone().payload();
    rawchunks.extend(chunkedframes[1].clone().payload().iter());

    // check that manually recombined chunks are correct
    assert_eq!(&hex1, &hex::encode(&rawchunks.clone()));

    let packet2 = Ipv4Packet::new(rawchunks.clone()).expect("Invalid manually recombined packet");
    let msg2 = IPPacketMessage::new(packet2);

    let frame3 = recombine_chunks(chunkedframes, frame.header());
    let msg3 = IPPacketMessage::from_frame(&frame3).expect("Invalid recombined IPPacketMessage");
    let packet3 = msg2.packet();
    let raw3 = packet3.to_bytes();

    assert_eq!(&raw3[0], &raw[0]);
    assert_eq!(&raw3[50], &raw[50]);
    assert_eq!(msg3.packet().to_bytes(), raw);
    assert_eq!(frame3.payload(), raw);
    assert_eq!(frame3.frameid(), 7);
    assert_eq!(frame3.sender(), sender);
}

#[test]
fn broadcast_tofrom_frame() {
    let id = 5u8;
    let isgateway = false;
    let msg = BroadcastMessage { header: None, isgateway, ipOffset: 4, ipaddr: Some(Ipv4Addr::new(172, 16, 0, id)) };
    let mut route: Vec<u8> = Vec::new();
    route.push(id);

    // check tofrom frame
    let frame = msg.to_frame(9u8, id, route);

    assert_eq!(frame.sender(), id);
    assert_eq!(frame.payload().get(0).unwrap().clone() as i8, 0i8);
    assert_eq!(frame.payload().get(1).unwrap().clone() as usize, 4);
    assert_eq!(frame.payload().get(2).unwrap().clone() as i32, 172);
    assert_eq!(frame.payload().get(3).unwrap().clone() as i32, 16);
    assert_eq!(frame.payload().get(4).unwrap().clone() as i32, 0);
    assert_eq!(frame.payload().get(5).unwrap().clone(), id);

    // ensure representation is same after hex encoding
    let bytes = frame.to_bytes();
    let h = 5 + 1;

    assert_eq!(bytes.get(h).unwrap().clone() as i8, 0i8);
    assert_eq!(bytes.get(h + 1).unwrap().clone() as usize, 4);
    assert_eq!(bytes.get(h + 2).unwrap().clone() as i32, 172);
    assert_eq!(bytes.get(h + 3).unwrap().clone() as i32, 16);
    assert_eq!(bytes.get(h + 4).unwrap().clone() as i32, 0);
    assert_eq!(bytes.get(h + 5).unwrap().clone(), id);
    assert_eq!(&bytes[h..], &[0x00, 0x04, 0xAC, 0x10, 0x00, 0x05]);

    let frame2 = Frame::from_bytes(&bytes).unwrap();
    let msg2 = BroadcastMessage::from_frame(&frame2).unwrap();

    assert_eq!(frame2.sender(), id);
    assert_eq!(msg2.header.as_ref().unwrap().sender(), id);
    assert_eq!(msg2.isgateway, isgateway);
    assert_eq!(msg2.ipOffset, 4);
    assert_eq!(msg2.ipaddr.unwrap(), msg.ipaddr.unwrap());
}

#[test]
fn ippacket_tofrom_frame() {
    // check conversion from bytes
    let hexmsg2 = "0000090002000445000023180440004011caa1ac100000ac100004e6ba0bb8000ff4914142433132330a";
    let frame2 = Frame::from_bytes(&hex::decode(&hexmsg2).unwrap()).unwrap();
    let msg2 = IPPacketMessage::from_frame(&frame2);
    let packet2 = msg2.unwrap().packet();

    assert_eq!(&frame2.sender(), &0u8);
    assert_eq!(&packet2.destination().to_string(), "172.16.0.4");
    assert_eq!(packet2.source(), Ipv4Addr::new(172, 16, 0, 0));
    assert_eq!(frame2.route(), vec![0u8, 4u8]);
    assert_eq!(frame2.msgtype(), MessageType::IPPacket);
    assert_eq!(frame2.txflag(), TransmissionState::FinalChunk);
}

#[test]
fn frame_encode_layout_is_header_route_payload() {
    let frame = Frame::new(1, 200, 9, 3, 2, vec![7, 8], vec![0xaa, 0xbb, 0xcc]);
    assert_eq!(frame.to_bytes(), vec![1, 200, 9, 3, 2, 7, 8, 0xaa, 0xbb, 0xcc]);
    assert_eq!(frame.header().bytes(), vec![1, 200, 9, 3, 2, 7, 8]);
    assert_eq!(frame.header_len(), 7);
    assert_eq!(frame.routeoffset(), 2);
    assert_eq!(frame.route_bytes(), vec![7, 8]);
}

#[test]
fn frame_decode_round_trips() {
    for txflag in 0u8..=2 {
        for msgtype in 1u8..=9 {
            let frame = Frame::new(txflag, 17, msgtype, 254, 3, vec![1, 2, 3], vec![9; 11]);
            let bytes = frame.to_bytes();
            let back = Frame::from_bytes(&bytes).unwrap();
            assert_eq!(back.txflag().to_u8(), txflag);
            assert_eq!(back.frameid(), 17);
            assert_eq!(back.msgtype().to_u8(), msgtype);
            assert_eq!(back.sender(), 254);
            assert_eq!(back.route(), vec![1, 2, 3]);
            assert_eq!(back.payload(), vec![9; 11]);
            assert_eq!(back.to_bytes(), bytes);
        }
    }
}

#[test]
fn frame_decode_rejects_malformed_input() {
    assert_eq!(Frame::from_bytes(&vec![]).unwrap_err(), FrameError::Truncated);
    assert_eq!(Frame::from_bytes(&vec![0, 1, 1, 1]).unwrap_err(), FrameError::Truncated);
    assert_eq!(Frame::from_bytes(&vec![3, 1, 1, 1, 0]).unwrap_err(), FrameError::InvalidTxFlag);
    assert_eq!(Frame::from_bytes(&vec![0, 1, 0, 1, 0]).unwrap_err(), FrameError::InvalidMessageType);
    assert_eq!(Frame::from_bytes(&vec![0, 1, 10, 1, 0]).unwrap_err(), FrameError::InvalidMessageType);
    assert_eq!(Frame::from_bytes(&vec![0, 1, 1, 1, 2, 9]).unwrap_err(), FrameError::Truncated);
    assert_eq!(Frame::from_bytes(&vec![3, 1, 0, 1]).unwrap_err(), FrameError::Truncated);
    assert_eq!(Frame::from_bytes(&vec![3, 1, 0, 1, 9]).unwrap_err(), FrameError::InvalidTxFlag);
    let empty = Frame::from_bytes(&vec![0, 0, 1, 1, 0]).unwrap();
    assert_eq!(empty.route(), Vec::<u8>::new());
    assert_eq!(empty.payload(), Vec::<u8>::new());
    assert_eq!(empty.frameid(), 0);
}

#[test]
fn route_shift_then_unshift() {
    let mut frame = Frame::new(0, 5, 2, 1, 2, vec![3, 7], vec![172, 16, 0, 7]);
    assert_eq!(frame.route_shift(), Some(3));
    assert_eq!(frame.route(), vec![7]);
    assert_eq!(frame.routeoffset(), 1);
    assert_eq!(frame.to_bytes(), vec![0, 5, 2, 1, 1, 7, 172, 16, 0, 7]);

    let mut same = frame.clone();
    same.route_unshift(3);
    assert_eq!(same.route(), vec![3, 7]);
    assert_eq!(same.routeoffset(), 2);

    let mut other = frame.clone();
    other.route_unshift(4);
    assert_eq!(other.route(), vec![4, 7]);
    assert_ne!(other.route(), vec![3, 7]);

    assert_eq!(frame.route_shift(), Some(7));
    assert_eq!(frame.route_shift(), None);
    assert_eq!(frame.route(), Vec::<u8>::new());
    assert_eq!(frame.routeoffset(), 0);
}

#[test]
fn chunk_data_cuts_in_order() {
    assert_eq!(chunk_data(vec![], &4), vec![Vec::<u8>::new()]);
    assert_eq!(chunk_data(vec![1, 2, 3], &4), vec![vec![1, 2, 3]]);
    assert_eq!(chunk_data(vec![1, 2, 3, 4], &4), vec![vec![1, 2, 3, 4]]);
    assert_eq!(chunk_data(vec![1, 2, 3, 4, 5], &4), vec![vec![1, 2, 3, 4], vec![5]]);
    assert_eq!(chunk_data(vec![1, 2, 3, 4, 5], &1), vec![vec![1], vec![2], vec![3], vec![4], vec![5]]);
    assert_eq!(chunk_data(vec![1, 2, 3, 4, 5, 6, 7, 8, 9], &4), vec![vec![1, 2, 3, 4], vec![5, 6, 7, 8], vec![9]]);
}

fn reassemble(chunks: Vec<Vec<u8>>) -> Frame {
    let mut frames: Vec<Frame> = Vec::new();
    for chunk in chunks.iter() {
        frames.push(Frame::from_bytes(chunk).unwrap());
    }
    let count = frames.len();
    for (i, frame) in frames.iter().enumerate() {
        assert_eq!(frame.txflag().more_chunks(), i + 1 < count);
    }
    let header = frames[count - 1].header();
    recombine_chunks(frames, header)
}

#[test]
fn chunking_round_trips_for_every_size() {
    let payload: Vec<u8> = (0..=255u8).chain(0..=99u8).collect();
    for route in [vec![], vec![4u8], vec![4u8, 9, 2]] {
        let frame = Frame::new(0, 99, 9, 1, route.len() as u8, route.clone(), payload.clone());
        let h = 5 + route.len();
        for limit in (h + 1)..(h + 60) {
            let chunks = frame.chunked(&limit);
            for chunk in chunks.iter() {
                assert!(chunk.len() <= limit);
                assert!(chunk.len() > h);
            }
            assert_eq!(chunks.len(), (payload.len() + (limit - h) - 1) / (limit - h));
            let back = reassemble(chunks);
            assert_eq!(back.to_bytes(), frame.to_bytes());
        }
    }
}

#[test]
fn smallest_packet_size_forces_chunking() {
    let frame = Frame::new(0, 42, 9, 2, 1, vec![5], vec![1, 2, 3, 4, 5, 6, 7, 8, 9]);
    let chunks = frame.chunked(&10);
    assert_eq!(
        chunks,
        vec![
            vec![1, 42, 9, 2, 1, 5, 1, 2, 3, 4],
            vec![1, 42, 9, 2, 1, 5, 5, 6, 7, 8],
            vec![0, 42, 9, 2, 1, 5, 9],
        ]
    );
    let back = reassemble(chunks);
    assert_eq!(back.payload(), vec![1, 2, 3, 4, 5, 6, 7, 8, 9]);
    assert_eq!(back.to_bytes(), frame.to_bytes());
}

#[test]
fn payload_that_fits_is_one_final_frame() {
    let frame = Frame::new(0, 42, 1, 2, 1, vec![2], vec![0, 0]);
    let chunks = frame.chunked(&200);
    assert_eq!(chunks, vec![frame.to_bytes()]);
    let exact = frame.chunked(&8);
    assert_eq!(exact, vec![frame.to_bytes()]);
    let empty = Frame::new(0, 42, 1, 2, 0, vec![], vec![]);
    assert_eq!(empty.chunked(&6), vec![vec![0, 42, 1, 2, 0]]);
}

#[test]
fn chunks_of_a_frame_flagged_more_end_final() {
    let frame = Frame::new(1, 42, 9, 2, 0, vec![], vec![1, 2, 3]);
    assert_eq!(frame.chunked(&7), vec![vec![1, 42, 9, 2, 0, 1, 2], vec![0, 42, 9, 2, 0, 3]]);
}

#[test]
fn header_constructor_and_frame_from_header() {
    let header = FrameHeader::new(TransmissionState::MoreChunks, 11, MessageType::IPAssignFailure, 6, vec![1, 2]);
    assert_eq!(header.bytes(), vec![1, 11, 3, 6, 2, 1, 2]);
    assert_eq!(header.sender(), 6);
    assert_eq!(header.frameid(), 11);
    assert_eq!(header.route(), vec![1, 2]);
    assert_eq!(header.route_bytes(), vec![1, 2]);
    assert_eq!(header.txflag(), TransmissionState::MoreChunks);
    assert_eq!(header.msgtype(), MessageType::IPAssignFailure);
    let copy = header.clone();
    let frame = Frame::from_header(header, vec![b'n', b'o']);
    assert_eq!(frame.to_bytes(), vec![1, 11, 3, 6, 2, 1, 2, b'n', b'o']);
    assert_eq!(copy.bytes(), vec![1, 11, 3, 6, 2, 1, 2]);
}

#[test]
fn transmission_state_codes() {
    assert_eq!(TransmissionState::FinalChunk.to_u8(), 0);
    assert_eq!(TransmissionState::MoreChunks.to_u8(), 1);
    assert_eq!(TransmissionState::SlotExceeded.to_u8(), 2);
    assert!(!TransmissionState::FinalChunk.more_chunks());
    assert!(TransmissionState::MoreChunks.more_chunks());
    assert!(TransmissionState::SlotExceeded.more_chunks());
    assert_eq!(TransmissionState::from_u8(0), Some(TransmissionState::FinalChunk));
    assert_eq!(TransmissionState::from_u8(1), Some(TransmissionState::MoreChunks));
    assert_eq!(TransmissionState::from_u8(2), Some(TransmissionState::SlotExceeded));
    assert_eq!(TransmissionState::from_u8(3), None);
}

#[test]
fn message_type_codes() {
    let kinds = [
        MessageType::Broadcast,
        MessageType::IPAssignSuccess,
        MessageType::IPAssignFailure,
        MessageType::RouteDiscovery,
        MessageType::RouteSuccess,
        MessageType::RouteFailure,
        MessageType::TransmitRequest,
        MessageType::TransmitConfirm,
        MessageType::IPPacket,
    ];
    for (i, kind) in kinds.iter().enumerate() {
        assert_eq!(kind.to_u8() as usize, i + 1);
        assert_eq!(MessageType::from_u8((i + 1) as u8), Some(*kind));
    }
    assert_eq!(MessageType::from_u8(0), None);
    assert_eq!(MessageType::from_u8(10), None);
    assert_eq!(MessageType::from_u8(255), None);
}

#[test]
fn broadcast_without_address() {
    let msg = BroadcastMessage { header: None, isgateway: true, ipOffset: 0, ipaddr: None };
    let frame = msg.to_frame(1, 3, vec![3]);
    assert_eq!(frame.to_bytes(), vec![0, 1, 1, 3, 1, 3, 1, 0]);
    let back = BroadcastMessage::from_frame(&frame).unwrap();
    assert!(back.isgateway);
    assert_eq!(back.ipOffset, 0);
    assert_eq!(back.ipaddr, None);
    assert_eq!(back.header.as_ref().unwrap().sender(), 3);
    assert_eq!(back.header.as_ref().unwrap().route(), vec![3]);
}

#[test]
fn broadcast_decode_errors() {
    let parse = |payload: Vec<u8>| BroadcastMessage::from_frame(&Frame::new(0, 1, 1, 3, 0, vec![], payload));
    assert_eq!(parse(vec![]).unwrap_err(), MessageError::Truncated);
    assert_eq!(parse(vec![0]).unwrap_err(), MessageError::Truncated);
    assert_eq!(parse(vec![2, 0]).unwrap_err(), MessageError::InvalidBoolean);
    assert_eq!(parse(vec![1, 3]).unwrap_err(), MessageError::InvalidOffset);
    assert_eq!(parse(vec![1, 4, 10, 0, 0]).unwrap_err(), MessageError::Truncated);
    assert_eq!(parse(vec![1, 4, 10, 0, 0, 9]).unwrap().ipaddr, Some(Ipv4Addr::new(10, 0, 0, 9)));
}

#[test]
fn ip_assign_success_tofrom_frame() {
    let msg = IPAssignSuccessMessage::new(Ipv4Addr::new(172, 16, 0, 3));
    assert!(msg.header.is_none());
    let frame = msg.to_frame(8, 1, vec![3]);
    assert_eq!(frame.to_bytes(), vec![0, 8, 2, 1, 1, 3, 172, 16, 0, 3]);
    let back = IPAssignSuccessMessage::from_frame(&frame).unwrap();
    assert_eq!(back.ipaddr, Ipv4Addr::new(172, 16, 0, 3));
    assert_eq!(back.header.as_ref().unwrap().sender(), 1);
    let short = Frame::new(0, 8, 2, 1, 0, vec![], vec![172, 16, 0]);
    assert_eq!(IPAssignSuccessMessage::from_frame(&short).unwrap_err(), MessageError::InvalidLength);
    let long = Frame::new(0, 8, 2, 1, 0, vec![], vec![172, 16, 0, 3, 0]);
    assert_eq!(IPAssignSuccessMessage::from_frame(&long).unwrap_err(), MessageError::InvalidLength);
}

#[test]
fn ip_assign_failure_tofrom_frame() {
    let msg = IPAssignFailureMessage::new(String::from("no address left \u{2639}"));
    let frame = msg.to_frame(8, 1, vec![3]);
    assert_eq!(frame.msgtype(), MessageType::IPAssignFailure);
    assert_eq!(frame.payload(), "no address left \u{2639}".as_bytes().to_vec());
    let back = IPAssignFailureMessage::from_frame(&frame).unwrap();
    assert_eq!(back.reason, "no address left \u{2639}");
    let bad = Frame::new(0, 8, 3, 1, 0, vec![], vec![0xff, 0xfe]);
    assert_eq!(IPAssignFailureMessage::from_frame(&bad).unwrap_err(), MessageError::InvalidText);
}

#[test]
fn ip_packet_message_rejects_what_is_no_datagram() {
    let parse = |payload: Vec<u8>| IPPacketMessage::from_frame(&Frame::new(0, 1, 9, 3, 0, vec![], payload));
    assert_eq!(parse(vec![]).unwrap_err(), MessageError::InvalidPacket);
    assert_eq!(parse(vec![0x45; 19]).unwrap_err(), MessageError::InvalidPacket);
    let mut ok = vec![0u8; 20];
    ok[0] = 0x45;
    ok[3] = 20;
    assert!(parse(ok.clone()).is_ok());
    let mut v6 = ok.clone();
    v6[0] = 0x65;
    assert_eq!(parse(v6).unwrap_err(), MessageError::InvalidPacket);
    let mut long_header = ok.clone();
    long_header[0] = 0x46;
    assert_eq!(parse(long_header).unwrap_err(), MessageError::InvalidPacket);
    let mut long_total = ok.clone();
    long_total[3] = 21;
    assert_eq!(parse(long_total).unwrap_err(), MessageError::InvalidPacket);
}

#[test]
fn ip_packet_payload_drops_what_follows_the_datagram() {
    let mut buffer = dns_query();
    buffer.extend_from_slice(&[1, 2, 3]);
    let packet = Ipv4Packet::new(buffer).unwrap();
    assert_eq!(packet.source(), Ipv4Addr::new(192, 168, 1, 137));
    assert_eq!(packet.destination(), Ipv4Addr::new(192, 168, 1, 254));
    assert_eq!(packet.to_bytes(), dns_query());
    let frame = IPPacketMessage::new(packet.clone()).to_frame(1, 2, vec![2, 3]);
    assert_eq!(frame.payload(), dns_query());
    assert_eq!(packet.clone().to_bytes(), dns_query());
}
