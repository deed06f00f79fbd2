//! Splitting a byte string into bounded pieces.

use vstd::prelude::*;
use vstd::slice::{slice_subrange, slice_to_vec};

verus! {

/// The pieces of `data`, in order: every piece but the last holds exactly
/// `max` bytes, the last holds what is left (between 1 and `max` bytes, or
/// nothing when `data` is empty). There is always at least one piece.
pub open spec fn chunks_of(data: Seq<u8>, max: nat) -> Seq<Seq<u8>>
    decreases data.len(),
{
    if max == 0 || data.len() <= max {
        seq![data]
    } else {
        seq![data.subrange(0, max as int)] + chunks_of(data.subrange(max as int, data.len() as int), max)
    }
}

/// The concatenation of a list of byte strings.
pub open spec fn concat_all(parts: Seq<Seq<u8>>) -> Seq<u8>
    decreases parts.len(),
{
    if parts.len() == 0 {
        Seq::<u8>::empty()
    } else {
        parts[0] + concat_all(parts.subrange(1, parts.len() as int))
    }
}

/// The views of a vector of byte vectors.
pub open spec fn views_of(parts: Seq<Vec<u8>>) -> Seq<Seq<u8>> {
    parts.map_values(|p: Vec<u8>| p@)
}

/// Joining the pieces gives the data back.
pub proof fn lemma_chunks_concat(data: Seq<u8>, max: nat)
    ensures
        concat_all(chunks_of(data, max)) == data,
    decreases data.len(),
{
    let parts = chunks_of(data, max);
    if max == 0 || data.len() <= max {
        assert(parts.subrange(1, parts.len() as int) =~= Seq::<Seq<u8>>::empty());
        assert(concat_all(parts.subrange(1, parts.len() as int)) =~= Seq::<u8>::empty());
        assert(concat_all(parts) =~= data);
    } else {
        let rest = data.subrange(max as int, data.len() as int);
        lemma_chunks_concat(rest, max);
        assert(parts.subrange(1, parts.len() as int) =~= chunks_of(rest, max));
        assert(concat_all(parts) =~= data);
    }
}

/// No piece is longer than `max`, only the last may be shorter, and only a
/// piece of empty data is empty.
pub proof fn lemma_chunks_bounds(data: Seq<u8>, max: nat)
    requires
        max > 0,
    ensures
        chunks_of(data, max).len() >= 1,
        forall|i: int| 0 <= i < chunks_of(data, max).len() ==> #[trigger] chunks_of(data, max)[i].len() <= max,
        forall|i: int| 0 <= i < chunks_of(data, max).len() - 1 ==> #[trigger] chunks_of(data, max)[i].len() == max,
        data.len() > 0 ==> forall|i: int| 0 <= i < chunks_of(data, max).len() ==> #[trigger] chunks_of(data, max)[i].len() > 0,
        data.len() <= max <==> chunks_of(data, max).len() == 1,
    decreases data.len(),
{
    if data.len() > max {
        let rest = data.subrange(max as int, data.len() as int);
        lemma_chunks_bounds(rest, max);
        let parts = chunks_of(data, max);
        let tail = chunks_of(rest, max);
        assert forall|i: int| 0 <= i < parts.len() implies #[trigger] parts[i].len() <= max && parts[i].len() > 0 by {
            if i > 0 {
                assert(parts[i] == tail[i - 1]);
            }
        }
        assert forall|i: int| 0 <= i < parts.len() - 1 implies #[trigger] parts[i].len() == max by {
            if i > 0 {
                assert(parts[i] == tail[i - 1]);
            }
        }
    }
}

/// Splits `data` into pieces of at most `maxlength` bytes.
pub fn chunk_data(data: Vec<u8>, maxlength: &usize) -> (ret: Vec<Vec<u8>>)
    requires
        *maxlength > 0,
    ensures
        views_of(ret@) == chunks_of(data@, *maxlength as nat),
{
    let max: usize = *maxlength;
    let mut ret: Vec<Vec<u8>> = Vec::new();
    let mut start: usize = 0;
    let total: usize = data.len();
    proof {
        assert(data@.subrange(0, total as int) =~= data@);
        assert(views_of(ret@) + chunks_of(data@, max as nat) =~= chunks_of(data@, max as nat));
    }
    while total - start > max
        invariant
            max > 0,
            total == data@.len(),
            start <= total,
            views_of(ret@) + chunks_of(data@.subrange(start as int, total as int), max as nat)
                == chunks_of(data@, max as nat),
        decreases total - start,
    {
        let piece = slice_to_vec(slice_subrange(data.as_slice(), start, start + max));
        proof {
            let rest = data@.subrange(start as int, total as int);
            let next = data@.subrange(start + max as int, total as int);
            assert(rest.subrange(0, max as int) =~= piece@);
            assert(rest.subrange(max as int, rest.len() as int) =~= next);
            assert(views_of(ret@.push(piece)) =~= views_of(ret@) + seq![piece@]);
            assert(views_of(ret@) + (seq![piece@] + chunks_of(next, max as nat))
                =~= (views_of(ret@) + seq![piece@]) + chunks_of(next, max as nat));
        }
        ret.push(piece);
        start = start + max;
    }
    let last = slice_to_vec(slice_subrange(data.as_slice(), start, total));
    proof {
        assert(views_of(ret@.push(last)) =~= views_of(ret@) + seq![last@]);
    }
    ret.push(last);
    ret
}

} // verus!
