//! The buffer in which the chunks of a payload wait for the last one.

use vstd::prelude::*;
use crate::chunk::concat_all;
use crate::frame::{
    chunk_views, frame_views, lemma_chunk_round_trip, lemma_concat_push, payloads_of, reassembled, recombine_chunks,
    Frame, FrameView, TransmissionState,
};

verus! {

/// The chunks of one payload that have arrived so far.
pub struct PartialView {
    /// The time at which the first chunk arrived, in milliseconds.
    pub created: u64,
    /// The chunks, in the order in which they arrived.
    pub chunks: Seq<FrameView>,
}

/// Whether a frame is a chunk that more chunks follow.
pub open spec fn is_held(frame: FrameView) -> bool {
    frame.txflag != TransmissionState::FinalChunk.code()
}

/// The key under which the chunks of a frame's payload wait: the sender and
/// the frame id.
pub open spec fn key_of(frame: FrameView) -> (u8, u8) {
    (frame.sender, frame.frameid)
}

/// Whether chunks that began to arrive at `created` are given up at `now`:
/// at least `timeout` milliseconds have passed.
pub open spec fn expired(created: u64, now: u64, timeout: u64) -> bool {
    now >= created && now - created >= timeout
}

/// The keys of the chunks that are given up at `now`.
pub open spec fn expired_keys(partials: Map<(u8, u8), PartialView>, now: u64, timeout: u64) -> Set<(u8, u8)> {
    Set::new(|key: (u8, u8)| partials.contains_key(key) && expired(partials[key].created, now, timeout))
}

/// The waiting chunks after a chunk that more follow has arrived: it joins
/// those of its key, or waits as the first, from `now` on.
pub open spec fn after_held(partials: Map<(u8, u8), PartialView>, frame: FrameView, now: u64) -> Map<
    (u8, u8),
    PartialView,
> {
    let key = key_of(frame);
    if partials.contains_key(key) {
        partials.insert(key, PartialView { created: partials[key].created, chunks: partials[key].chunks.push(frame) })
    } else {
        partials.insert(key, PartialView { created: now, chunks: seq![frame] })
    }
}

/// The frame that is handed on when a final chunk arrives: the chunks that
/// waited under its key reassembled with it, or the frame itself if none
/// waited.
pub open spec fn completed(partials: Map<(u8, u8), PartialView>, frame: FrameView) -> FrameView {
    let key = key_of(frame);
    if partials.contains_key(key) {
        reassembled(partials[key].chunks, frame)
    } else {
        frame
    }
}

/// The waiting chunks after each of `frames` has arrived in turn as a chunk
/// that more follow.
pub open spec fn after_all_held(partials: Map<(u8, u8), PartialView>, frames: Seq<FrameView>, now: u64) -> Map<
    (u8, u8),
    PartialView,
>
    decreases frames.len(),
{
    if frames.len() == 0 {
        partials
    } else {
        after_held(after_all_held(partials, frames.drop_last(), now), frames.last(), now)
    }
}

/// Chunks of one sender and frame id for which nothing waited wait
/// together, in the order in which they arrived.
pub proof fn lemma_chunks_wait_together(
    partials: Map<(u8, u8), PartialView>,
    frames: Seq<FrameView>,
    key: (u8, u8),
    now: u64,
)
    requires
        !partials.contains_key(key),
        frames.len() > 0,
        forall|i: int| 0 <= i < frames.len() ==> key_of(#[trigger] frames[i]) == key,
    ensures
        after_all_held(partials, frames, now).contains_key(key),
        after_all_held(partials, frames, now)[key].chunks == frames,
        after_all_held(partials, frames, now)[key].created == now,
    decreases frames.len(),
{
    let shorter = frames.drop_last();
    if shorter.len() == 0 {
        assert(after_all_held(partials, shorter, now) == partials);
        assert(seq![frames.last()] =~= frames);
    } else {
        assert forall|i: int| 0 <= i < shorter.len() implies key_of(#[trigger] shorter[i]) == key by {
            assert(shorter[i] == frames[i]);
        }
        lemma_chunks_wait_together(partials, shorter, key, now);
        assert(shorter.push(frames.last()) =~= frames);
    }
}

/// A frame that is cut into chunks for a link of `limit` bytes comes back
/// whole, flagged as final, when its chunks arrive in order at a buffer in
/// which nothing waits for them.
pub proof fn lemma_chunked_frame_comes_back(
    partials: Map<(u8, u8), PartialView>,
    frame: FrameView,
    limit: nat,
    now: u64,
)
    requires
        frame.valid(),
        limit > frame.header_len(),
        !partials.contains_key(key_of(frame)),
    ensures
        !is_held(chunk_views(frame, limit).last()),
        forall|i: int| 0 <= i < chunk_views(frame, limit).len() - 1 ==> is_held(#[trigger] chunk_views(frame, limit)[i]),
        completed(
            after_all_held(partials, chunk_views(frame, limit).drop_last(), now),
            chunk_views(frame, limit).last(),
        ) == frame.with_chunk(TransmissionState::FinalChunk.code(), frame.payload),
{
    let chunks = chunk_views(frame, limit);
    lemma_chunk_round_trip(frame, limit);
    let held = chunks.drop_last();
    let last = chunks.last();
    assert(key_of(last) == key_of(frame));
    assert(chunks[chunks.len() - 1].txflag == TransmissionState::FinalChunk.code());
    if held.len() == 0 {
        assert(after_all_held(partials, held, now) == partials);
        assert(payloads_of(held) =~= Seq::<Seq<u8>>::empty());
        assert(concat_all(payloads_of(held)) =~= Seq::<u8>::empty());
        assert(concat_all(payloads_of(held)) + last.payload =~= last.payload);
    } else {
        assert forall|i: int| 0 <= i < held.len() implies key_of(#[trigger] held[i]) == key_of(frame) by {
            assert(held[i] == chunks[i]);
        }
        lemma_chunks_wait_together(partials, held, key_of(frame), now);
    }
}

/// One group of waiting chunks.
struct Partial {
    sender: u8,
    frameid: u8,
    created: u64,
    frames: Vec<Frame>,
}

impl Partial {
    spec fn key(&self) -> (u8, u8) {
        (self.sender, self.frameid)
    }

    spec fn view(&self) -> PartialView {
        PartialView { created: self.created, chunks: frame_views(self.frames@) }
    }

    spec fn wf(&self) -> bool {
        forall|i: int| 0 <= i < self.frames@.len() ==> (#[trigger] self.frames@[i]).wf()
    }
}

/// The waiting chunks that a list of groups holds, by key.
spec fn partial_map(entries: Seq<Partial>) -> Map<(u8, u8), PartialView>
    decreases entries.len(),
{
    if entries.len() == 0 {
        Map::empty()
    } else {
        partial_map(entries.drop_last()).insert(entries.last().key(), entries.last().view())
    }
}

/// Whether no two groups have the same key.
spec fn distinct_keys(entries: Seq<Partial>) -> bool {
    forall|i: int, j: int| 0 <= i < j < entries.len() ==> (#[trigger] entries[i]).key() != (#[trigger] entries[j]).key()
}

/// The map holds exactly the keys of the groups.
proof fn lemma_map_keys(entries: Seq<Partial>)
    ensures
        forall|key: (u8, u8)|
            partial_map(entries).contains_key(key) <==> exists|i: int|
                0 <= i < entries.len() && (#[trigger] entries[i]).key() == key,
        partial_map(entries).dom().finite(),
    decreases entries.len(),
{
    if entries.len() > 0 {
        let shorter = entries.drop_last();
        lemma_map_keys(shorter);
        assert forall|key: (u8, u8)|
            partial_map(entries).contains_key(key) <==> exists|i: int|
                0 <= i < entries.len() && (#[trigger] entries[i]).key() == key by {
            if partial_map(entries).contains_key(key) {
                if key == entries.last().key() {
                    assert(entries[entries.len() - 1].key() == key);
                } else {
                    let i = choose|i: int| 0 <= i < shorter.len() && (#[trigger] shorter[i]).key() == key;
                    assert(entries[i].key() == key);
                }
            }
            if exists|i: int| 0 <= i < entries.len() && (#[trigger] entries[i]).key() == key {
                let i = choose|i: int| 0 <= i < entries.len() && (#[trigger] entries[i]).key() == key;
                if i < entries.len() - 1 {
                    assert(shorter[i].key() == key);
                }
            }
        }
    }
}

/// With distinct keys, the map holds each group under its key.
proof fn lemma_map_values(entries: Seq<Partial>, i: int)
    requires
        distinct_keys(entries),
        0 <= i < entries.len(),
    ensures
        partial_map(entries).contains_key(entries[i].key()),
        partial_map(entries)[entries[i].key()] == entries[i].view(),
    decreases entries.len(),
{
    if i < entries.len() - 1 {
        let shorter = entries.drop_last();
        assert(shorter[i] == entries[i]);
        lemma_map_values(shorter, i);
        assert(entries[i].key() != entries[entries.len() - 1].key());
    }
}

/// With distinct keys, taking a group out takes its key out of the map.
proof fn lemma_map_remove(entries: Seq<Partial>, i: int)
    requires
        distinct_keys(entries),
        0 <= i < entries.len(),
    ensures
        partial_map(entries.remove(i)) == partial_map(entries).remove(entries[i].key()),
        distinct_keys(entries.remove(i)),
    decreases entries.len(),
{
    let rest = entries.remove(i);
    let shorter = entries.drop_last();
    if i == entries.len() - 1 {
        assert(rest =~= shorter);
        lemma_map_keys(shorter);
        assert(!partial_map(shorter).contains_key(entries[i].key())) by {
            if partial_map(shorter).contains_key(entries[i].key()) {
                let j = choose|j: int| 0 <= j < shorter.len() && (#[trigger] shorter[j]).key() == entries[i].key();
                assert(entries[j].key() == entries[i].key());
            }
        }
        assert(partial_map(rest) =~= partial_map(entries).remove(entries[i].key()));
    } else {
        assert(shorter[i] == entries[i]);
        lemma_map_remove(shorter, i);
        assert(rest.drop_last() =~= shorter.remove(i));
        assert(rest.last() == entries.last());
        assert(entries[i].key() != entries[entries.len() - 1].key());
        assert(partial_map(rest) =~= partial_map(entries).remove(entries[i].key()));
    }
}

/// The buffer of waiting chunks.
pub struct ChunkBuffer {
    timeout: u64,
    partials: Vec<Partial>,
}

impl View for ChunkBuffer {
    type V = Map<(u8, u8), PartialView>;

    closed spec fn view(&self) -> Map<(u8, u8), PartialView> {
        partial_map(self.partials@)
    }
}

impl ChunkBuffer {
    /// The time after which waiting chunks are given up, in milliseconds.
    pub closed spec fn timeout(&self) -> u64 {
        self.timeout
    }

    /// No two groups share a key, and every waiting chunk is well formed.
    pub closed spec fn wf(&self) -> bool {
        &&& distinct_keys(self.partials@)
        &&& forall|i: int| 0 <= i < self.partials@.len() ==> (#[trigger] self.partials@[i]).wf()
    }

    /// A buffer in which nothing waits.
    pub fn new(timeout: u64) -> (buffer: Self)
        ensures
            buffer.wf(),
            buffer.timeout() == timeout,
            buffer@ == Map::<(u8, u8), PartialView>::empty(),
    {
        ChunkBuffer { timeout, partials: Vec::new() }
    }

    /// The number of payloads of which chunks wait.
    pub fn len(&self) -> (count: usize)
        requires
            self.wf(),
        ensures
            count == self@.dom().len(),
    {
        proof {
            lemma_count(self.partials@);
        }
        self.partials.len()
    }

    /// The place of the group with the given key, if there is one.
    fn find(&self, sender: u8, frameid: u8) -> (place: Option<usize>)
        requires
            self.wf(),
        ensures
            place.is_some() == self@.contains_key((sender, frameid)),
            place.is_some() ==> place.unwrap() < self.partials@.len() && self.partials@[place.unwrap() as int].key() == (
                sender,
                frameid,
            ),
    {
        proof {
            lemma_map_keys(self.partials@);
        }
        let mut i: usize = 0;
        while i < self.partials.len()
            invariant
                i <= self.partials@.len(),
                forall|j: int| 0 <= j < i ==> (#[trigger] self.partials@[j]).key() != (sender, frameid),
            decreases self.partials@.len() - i,
        {
            if self.partials[i].sender == sender && self.partials[i].frameid == frameid {
                proof {
                    lemma_map_keys(self.partials@);
                    assert(self.partials@[i as int].key() == (sender, frameid));
                }
                return Some(i);
            }
            i = i + 1;
        }
        None
    }

    /// Takes in a received frame. A chunk that more follow waits in the
    /// buffer and nothing is handed on. A final frame is handed on: alone if
    /// nothing waited for it, else with the payloads of the chunks that
    /// waited, in order of arrival, before its own; those chunks wait no more.
    pub fn accept(&mut self, frame: Frame, now: u64) -> (ready: Option<Frame>)
        requires
            old(self).wf(),
            frame.wf(),
        ensures
            final(self).wf(),
            final(self).timeout() == old(self).timeout(),
            is_held(frame@) ==> ready.is_none() && final(self)@ == after_held(old(self)@, frame@, now),
            !is_held(frame@) ==> ready.is_some() && ready.unwrap().wf() && ready.unwrap()@ == completed(
                old(self)@,
                frame@,
            ) && final(self)@ == old(self)@.remove(key_of(frame@)),
    {
        let sender: u8 = frame.sender();
        let frameid: u8 = frame.frameid();
        let place = self.find(sender, frameid);
        let more: bool = frame.txflag().more_chunks();
        proof {
            lemma_map_keys(self.partials@);
        }
        match place {
            None => {
                if more {
                    let mut frames: Vec<Frame> = Vec::new();
                    let ghost view = frame@;
                    frames.push(frame);
                    let partial = Partial { sender, frameid, created: now, frames };
                    proof {
                        assert(partial.view().chunks =~= seq![view]);
                        assert(self.partials@.push(partial).drop_last() =~= self.partials@);
                    }
                    self.partials.push(partial);
                    None
                } else {
                    assert(self@.remove(key_of(frame@)) =~= self@);
                    Some(frame)
                }
            },
            Some(i) => {
                proof {
                    lemma_map_values(self.partials@, i as int);
                    lemma_map_remove(self.partials@, i as int);
                }
                let partial = self.partials.remove(i);
                let Partial { sender: held_sender, frameid: held_id, created, frames } = partial;
                let mut frames = frames;
                if more {
                    let ghost view = frame@;
                    let ghost before = frame_views(frames@);
                    frames.push(frame);
                    let again = Partial { sender: held_sender, frameid: held_id, created, frames };
                    proof {
                        assert(again.view().chunks =~= before.push(view));
                        assert(self.partials@.push(again).drop_last() =~= self.partials@);
                        lemma_map_keys(self.partials@);
                        assert(self.partials@.push(again).last() == again);
                        assert(partial_map(self.partials@.push(again)) =~= after_held(old(self)@, view, now));
                    }
                    self.partials.push(again);
                    None
                } else {
                    let header = frame.header();
                    let ghost view = frame@;
                    let ghost before = frame_views(frames@);
                    frames.push(frame);  // push final frame
                    proof {
                        assert(frame_views(frames@) =~= before.push(view));
                        assert(payloads_of(before.push(view)) =~= payloads_of(before).push(view.payload));
                        lemma_concat_push(payloads_of(before), view.payload);
                    }
                    Some(recombine_chunks(frames, header))
                }
            },
        }
    }

    /// Gives up the chunks that have waited for the time limit or longer.
    pub fn evict(&mut self, now: u64)
        requires
            old(self).wf(),
        ensures
            final(self).wf(),
            final(self).timeout() == old(self).timeout(),
            final(self)@ == old(self)@.remove_keys(expired_keys(old(self)@, now, old(self).timeout())),
    {
        let mut kept: Vec<Partial> = Vec::new();
        let ghost all = self.partials@;
        let timeout: u64 = self.timeout;
        proof {
            assert(all.take(0) =~= Seq::<Partial>::empty());
            assert(partial_map(kept@) =~= partial_map(all.take(0)).remove_keys(
                expired_keys(partial_map(all.take(0)), now, timeout),
            ));
        }
        while self.partials.len() > 0
            invariant
                distinct_keys(all),
                forall|i: int| 0 <= i < all.len() ==> (#[trigger] all[i]).wf(),
                timeout == self.timeout,
                self.partials@.len() <= all.len(),
                self.partials@ == all.subrange(all.len() - self.partials@.len(), all.len() as int),
                distinct_keys(kept@),
                forall|i: int| 0 <= i < kept@.len() ==> (#[trigger] kept@[i]).wf(),
                partial_map(kept@) == partial_map(all.take(all.len() - self.partials@.len())).remove_keys(
                    expired_keys(partial_map(all.take(all.len() - self.partials@.len())), now, timeout),
                ),
            decreases self.partials@.len(),
        {
            let ghost done = all.len() - self.partials@.len();
            let ghost before = all.take(done);
            let ghost after = all.take(done + 1);
            let partial = self.partials.remove(0);
            proof {
                assert(partial == all[done]);
                assert(after.drop_last() =~= before);
                assert(after.last() == partial);
                assert(self.partials@ =~= all.subrange(done + 1, all.len() as int));
                lemma_map_keys(before);
                lemma_map_keys(kept@);
                assert(!partial_map(before).contains_key(partial.key())) by {
                    if partial_map(before).contains_key(partial.key()) {
                        let j = choose|j: int| 0 <= j < before.len() && (#[trigger] before[j]).key() == partial.key();
                        assert(all[j].key() == all[done].key());
                    }
                }
            }
            let late: bool = now >= partial.created && now - partial.created >= timeout;
            if !late {
                proof {
                    assert(kept@.push(partial).drop_last() =~= kept@);
                    assert forall|i: int, j: int| 0 <= i < j < kept@.push(partial).len() implies (#[trigger] kept@.push(
                        partial,
                    )[i]).key() != (#[trigger] kept@.push(partial)[j]).key() by {
                        if j == kept@.len() {
                            assert(partial_map(kept@).contains_key(kept@[i].key()));
                        }
                    }
                    assert(partial_map(kept@.push(partial)) =~= partial_map(after).remove_keys(
                        expired_keys(partial_map(after), now, timeout),
                    ));
                }
                kept.push(partial);
            } else {
                proof {
                    assert(partial_map(kept@) =~= partial_map(after).remove_keys(
                        expired_keys(partial_map(after), now, timeout),
                    ));
                }
            }
        }
        proof {
            assert(all.take(all.len() as int) =~= all);
        }
        self.partials = kept;
    }
}

/// With distinct keys, the map has as many keys as there are groups.
proof fn lemma_count(entries: Seq<Partial>)
    requires
        distinct_keys(entries),
    ensures
        partial_map(entries).dom().len() == entries.len(),
        partial_map(entries).dom().finite(),
    decreases entries.len(),
{
    lemma_map_keys(entries);
    if entries.len() > 0 {
        let shorter = entries.drop_last();
        lemma_count(shorter);
        lemma_map_keys(shorter);
        assert(!partial_map(shorter).contains_key(entries.last().key())) by {
            if partial_map(shorter).contains_key(entries.last().key()) {
                let j = choose|j: int| 0 <= j < shorter.len() && (#[trigger] shorter[j]).key() == entries.last().key();
                assert(entries[j].key() == entries[entries.len() - 1].key());
            }
        }
        assert(partial_map(entries).dom() =~= partial_map(shorter).dom().insert(entries.last().key()));
    }
}

} // verus!
