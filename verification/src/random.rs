//! Numbers drawn at random.

use vstd::prelude::*;

verus! {

/// The smallest id that a frame of a new payload gets.
pub const MIN_FRAME_ID: u8 = 1;

/// The largest id that a frame of a new payload gets.
pub const MAX_FRAME_ID: u8 = 243;

/// Calls `rand::Rng::gen_range` on the generator of the thread. Trusted:
/// the number is at least `low` and less than `high`. Which number it is
/// nobody can say.
#[verifier::external_body]
fn random_in_range(low: u64, high: u64) -> (value: u64)
    requires
        low < high,
    ensures
        low <= value < high,
{
    rand::Rng::gen_range(&mut rand::thread_rng(), low, high)
}

/// Whether `id` can be the id of the frames of a new payload.
pub open spec fn is_frame_id(id: u8) -> bool {
    MIN_FRAME_ID <= id <= MAX_FRAME_ID
}

/// Draws the id for the frames of a new payload.
pub fn random_frame_id() -> (id: u8)
    ensures
        is_frame_id(id),
{
    let value: u64 = random_in_range(1, 244);
    value as u8
}

/// Draws the number of seconds between two broadcasts of a node: at least
/// 40 and less than 80.
pub fn random_broadcast_interval() -> (seconds: u64)
    ensures
        40 <= seconds < 80,
{
    random_in_range(40, 80)
}

} // verus!
