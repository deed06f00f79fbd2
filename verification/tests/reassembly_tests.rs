use loramesh::frame::Frame;
use loramesh::reassembly::ChunkBuffer;

fn chunk(txflag: u8, sender: u8, frameid: u8, payload: &[u8]) -> Frame {
    Frame::new(txflag, frameid, 9, sender, 1, vec![4], payload.to_vec())
}

#[test]
fn final_frame_without_partial_dispatches_directly() {
    let mut buffer = ChunkBuffer::new(10_000);
    let frame = chunk(0, 3, 17, &[1, 2, 3]);
    let ready = buffer.accept(frame.clone(), 5).unwrap();
    assert_eq!(ready.to_bytes(), frame.to_bytes());
    assert_eq!(buffer.len(), 0);
}

#[test]
fn more_frames_wait_for_the_final_one() {
    let mut buffer = ChunkBuffer::new(10_000);
    assert!(buffer.accept(chunk(1, 3, 17, &[1, 2]), 0).is_none());
    assert_eq!(buffer.len(), 1);
    assert!(buffer.accept(chunk(1, 3, 17, &[3]), 10).is_none());
    assert_eq!(buffer.len(), 1);
    let ready = buffer.accept(chunk(0, 3, 17, &[4, 5]), 20).unwrap();
    assert_eq!(ready.payload(), vec![1, 2, 3, 4, 5]);
    assert_eq!(ready.txflag().to_u8(), 0);
    assert_eq!(ready.frameid(), 17);
    assert_eq!(ready.sender(), 3);
    assert_eq!(ready.route(), vec![4]);
    assert_eq!(buffer.len(), 0);
    // the group is gone: the next final frame stands alone
    let alone = buffer.accept(chunk(0, 3, 17, &[9]), 30).unwrap();
    assert_eq!(alone.payload(), vec![9]);
}

#[test]
fn slot_exceeded_frames_wait_too() {
    let mut buffer = ChunkBuffer::new(10_000);
    assert!(buffer.accept(chunk(2, 3, 17, &[1]), 0).is_none());
    let ready = buffer.accept(chunk(0, 3, 17, &[2]), 1).unwrap();
    assert_eq!(ready.payload(), vec![1, 2]);
}

#[test]
fn groups_are_kept_apart_by_sender_and_frame_id() {
    let mut buffer = ChunkBuffer::new(10_000);
    assert!(buffer.accept(chunk(1, 3, 17, &[1]), 0).is_none());
    assert!(buffer.accept(chunk(1, 4, 17, &[2]), 0).is_none());
    assert!(buffer.accept(chunk(1, 3, 18, &[3]), 0).is_none());
    assert!(buffer.accept(chunk(1, 3, 17, &[4]), 0).is_none());
    assert_eq!(buffer.len(), 3);
    assert_eq!(buffer.accept(chunk(0, 4, 17, &[9]), 1).unwrap().payload(), vec![2, 9]);
    assert_eq!(buffer.accept(chunk(0, 3, 17, &[9]), 1).unwrap().payload(), vec![1, 4, 9]);
    assert_eq!(buffer.accept(chunk(0, 3, 18, &[9]), 1).unwrap().payload(), vec![3, 9]);
    assert_eq!(buffer.len(), 0);
}

#[test]
fn reassembled_frame_has_the_header_of_the_final_frame() {
    let mut buffer = ChunkBuffer::new(10_000);
    let first = Frame::new(1, 17, 9, 3, 2, vec![4, 5], vec![1]);
    let last = Frame::new(0, 17, 2, 3, 1, vec![6], vec![2]);
    assert!(buffer.accept(first, 0).is_none());
    let ready = buffer.accept(last, 1).unwrap();
    assert_eq!(ready.to_bytes(), vec![0, 17, 2, 3, 1, 6, 1, 2]);
}

#[test]
fn silence_for_the_timeout_evicts_the_partial() {
    let mut buffer = ChunkBuffer::new(10_000);
    assert!(buffer.accept(chunk(1, 3, 17, &[1]), 1_000).is_none());
    buffer.evict(10_999);
    assert_eq!(buffer.len(), 1);
    buffer.evict(11_000);
    assert_eq!(buffer.len(), 0);
    // the final frame then stands alone
    let ready = buffer.accept(chunk(0, 3, 17, &[2]), 11_001).unwrap();
    assert_eq!(ready.payload(), vec![2]);
}

#[test]
fn eviction_counts_from_the_first_chunk() {
    let mut buffer = ChunkBuffer::new(100);
    assert!(buffer.accept(chunk(1, 3, 17, &[1]), 0).is_none());
    assert!(buffer.accept(chunk(1, 3, 17, &[2]), 90).is_none());
    assert!(buffer.accept(chunk(1, 5, 1, &[3]), 50).is_none());
    assert!(buffer.accept(chunk(1, 6, 1, &[4]), 120).is_none());
    buffer.evict(100);
    assert_eq!(buffer.len(), 2);
    assert_eq!(buffer.accept(chunk(0, 3, 17, &[9]), 101).unwrap().payload(), vec![9]);
    assert_eq!(buffer.accept(chunk(0, 5, 1, &[9]), 101).unwrap().payload(), vec![3, 9]);
    // a clock that runs backwards evicts nothing
    buffer.evict(0);
    assert_eq!(buffer.len(), 1);
    buffer.evict(220);
    assert_eq!(buffer.len(), 0);
}
