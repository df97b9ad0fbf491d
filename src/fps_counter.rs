use vstd::prelude::*;

use crate::clock::{elapsed_micros, now};
use std::collections::VecDeque;
use web_time::Instant;

verus! {

/// Microseconds in a second.
pub const ONE_SECOND: u128 = 1_000_000;

/// What stays of a queue of deadlines at time `now`: those at the front
/// that have passed are dropped.
pub open spec fn drop_expired(frames: Seq<u128>, now: u128) -> Seq<u128>
    decreases frames.len(),
{
    if frames.len() > 0 && frames[0] < now {
        drop_expired(frames.drop_first(), now)
    } else {
        frames
    }
}

/// The queue after a frame counted at `now`: its deadline, a second later
/// (saturating), joins the back, and the deadlines passed by `now` leave.
pub open spec fn ticked(frames: Seq<u128>, now: u128) -> Seq<u128> {
    let deadline = if now + ONE_SECOND > u128::MAX {
        u128::MAX
    } else {
        (now + ONE_SECOND) as u128
    };
    drop_expired(frames.push(deadline), now)
}

/// Counts the frames of the last second.
pub struct FpsCounter {
    /// For each frame, a second after it was counted, in microseconds since
    /// `origin`.
    pub frames: VecDeque<u128>,
    pub origin: Instant,
}

impl FpsCounter {
    pub fn new() -> (r: FpsCounter)
        ensures
            r.frames@.len() == 0,
    {
        FpsCounter { frames: VecDeque::new(), origin: now() }
    }

    /// Counts a frame at `now` microseconds and returns the frames counted
    /// within the second up to it.
    pub fn tick_at(&mut self, now: u128) -> (r: usize)
        ensures
            final(self).origin == old(self).origin,
            final(self).frames@ == ticked(old(self).frames@, now),
            r == final(self).frames@.len(),
    {
        let deadline = now.saturating_add(ONE_SECOND);
        self.frames.push_back(deadline);
        let ghost pushed = self.frames@;
        while self.frames.len() > 0 && self.frames[0] < now
            invariant
                drop_expired(self.frames@, now) == drop_expired(pushed, now),
                self.origin == old(self).origin,
            decreases self.frames@.len(),
        {
            let ghost before = self.frames@;
            let _ = self.frames.pop_front();
            assert(self.frames@ =~= before.drop_first());
        }
        self.frames.len()
    }

    /// Counts a frame now and returns the frames counted within the last second.
    pub fn tick(&mut self) -> (r: usize)
        ensures
            final(self).origin == old(self).origin,
            exists|t: u128| final(self).frames@ == #[trigger] ticked(old(self).frames@, t),
            r == final(self).frames@.len(),
    {
        let t = elapsed_micros(&self.origin);
        self.tick_at(t)
    }
}

} // verus!
