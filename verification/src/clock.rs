//! The clock gate: what the block height says about the round.

use vstd::prelude::*;

verus! {

/// The number of blocks, counted from the start of the round, during which
/// tickets are sold.
pub const ENTRY_PERIOD: u32 = 100800;

/// The number of blocks, counted from the start of the round, after which
/// the winner may be drawn.
pub const DRAWING_DELAY: u32 = 100900;

/// The two heights that divide a round: tickets are sold below the first,
/// the winner may be drawn from the second on.
#[derive(Clone, Copy, Debug, PartialEq, Eq, Structural)]
pub struct Schedule {
    /// The first height at which no ticket is sold any more.
    pub ending_height: u32,
    /// The first height at which the winner may be drawn.
    pub drawing_height: u32,
}

impl Schedule {
    /// The validity of a schedule: sales end before the draw.
    pub open spec fn wf(self) -> bool {
        self.ending_height < self.drawing_height
    }

    /// Whether tickets are sold at height `now`.
    pub open spec fn open_at(self, now: u32) -> bool {
        now < self.ending_height
    }

    /// Whether the winner may be drawn at height `now`.
    pub open spec fn drawable_at(self, now: u32) -> bool {
        now >= self.drawing_height
    }

    /// The schedule of a round that starts at height `now`.
    pub fn starting_at(now: u32) -> (schedule: Schedule)
        requires
            now + DRAWING_DELAY <= u32::MAX,
        ensures
            schedule.wf(),
            schedule.ending_height == now + ENTRY_PERIOD,
            schedule.drawing_height == now + DRAWING_DELAY,
    {
        Schedule { ending_height: now + ENTRY_PERIOD, drawing_height: now + DRAWING_DELAY }
    }

    /// Tells whether tickets are sold at height `now`.
    pub fn is_open(&self, now: u32) -> (open: bool)
        ensures
            open == self.open_at(now),
    {
        now < self.ending_height
    }

    /// Tells whether the winner may be drawn at height `now`.
    pub fn is_drawable(&self, now: u32) -> (drawable: bool)
        ensures
            drawable == self.drawable_at(now),
    {
        now >= self.drawing_height
    }

    /// Between the two heights the round is closed and not yet drawable; at
    /// no height is it both open and drawable.
    pub proof fn lemma_never_open_and_drawable(self, now: u32)
        requires
            self.wf(),
        ensures
            !(self.open_at(now) && self.drawable_at(now)),
            self.ending_height <= now < self.drawing_height ==> !self.open_at(now)
                && !self.drawable_at(now),
    {
    }
}

} // verus!
