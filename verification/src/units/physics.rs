//! Time, as far as the frame loop needs it.

use vstd::prelude::*;

verus! {

/// Length of a frame at the rate aimed for, in milliseconds: a hundred and
/// twenty frames make a second.
pub const TARGET_FPS_MS: u64 = 8;

/// How long to sleep at the end of a frame that took `elapsed_ms`, when
/// frames are to take `target_ms`: the time left over. A frame that took
/// longer than that was missed; then there is nothing to sleep, and nothing
/// is made up for later.
pub fn frame_sleep(target_ms: u64, elapsed_ms: u64) -> (sleep: Option<u64>)
    ensures
        sleep == if elapsed_ms > target_ms {
            None
        } else {
            Some((target_ms - elapsed_ms) as u64)
        },
{
    if elapsed_ms > target_ms {
        None
    } else {
        Some(target_ms - elapsed_ms)
    }
}

} // verus!
