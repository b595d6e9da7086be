//! The sim's debug statistics: the frame times of the last 200 frames, how
//! many of them were short, and how often a fix stepped in for the game.

use crate::fixed::{fixed_div16_spec, fixed_div_16};
use crate::sim::shots::{crossed_boundary, guide_missile_to_target, update_all_shots, SHOT_PROXIMITY_FUSE};
use vstd::prelude::*;

verus! {

/// The frames that the history remembers.
pub const HISTORY_LEN: usize = 200;

/// How many entries of `s` are frame times below `bound` or, with
/// `zero_only`, equal to zero.
pub open spec fn count_where(s: Seq<Option<i32>>, bound: i32, zero_only: bool) -> nat
    decreases s.len(),
{
    if s.len() == 0 {
        0
    } else {
        let rest = count_where(s.drop_last(), bound, zero_only);
        match s.last() {
            Some(x) => if (zero_only && x == 0) || (!zero_only && x < bound) {
                rest + 1
            } else {
                rest
            },
            None => rest,
        }
    }
}

/// The frame times of the last frames, oldest first; `None` before the
/// history has filled.
pub struct DeltaHistory {
    pub recent: Vec<Option<i32>>,
}

impl DeltaHistory {
    /// Whether the history has its length.
    pub open spec fn well_formed(&self) -> bool {
        self.recent@.len() == HISTORY_LEN
    }

    /// An empty history.
    pub fn new() -> (h: DeltaHistory)
        ensures
            h.well_formed(),
            forall|k: int| 0 <= k < HISTORY_LEN ==> h.recent@[k] is None,
    {
        let mut recent: Vec<Option<i32>> = Vec::new();
        while recent.len() < HISTORY_LEN
            invariant
                recent@.len() <= HISTORY_LEN,
                forall|k: int| 0 <= k < recent@.len() ==> recent@[k] is None,
            decreases HISTORY_LEN - recent@.len(),
        {
            recent.push(None);
        }
        DeltaHistory { recent }
    }

    /// Records the frame time of a new frame: the oldest is forgotten.
    pub fn record(&mut self, delta_time: i32)
        requires
            old(self).well_formed(),
        ensures
            final(self).well_formed(),
            final(self).recent@ == old(self).recent@.skip(1).push(Some(delta_time)),
    {
        let mut next: Vec<Option<i32>> = Vec::new();
        let mut i: usize = 1;
        while i < HISTORY_LEN
            invariant
                1 <= i <= HISTORY_LEN,
                self.recent@.len() == HISTORY_LEN,
                next@ == self.recent@.subrange(1, i as int),
            decreases HISTORY_LEN - i,
        {
            next.push(self.recent[i]);
            i = i + 1;
            assert(next@ =~= self.recent@.subrange(1, i as int));
        }
        next.push(Some(delta_time));
        assert(next@ =~= self.recent@.skip(1).push(Some(delta_time)));
        self.recent = next;
    }

    fn count(&self, bound: i32, zero_only: bool) -> (n: u32)
        requires
            self.well_formed(),
        ensures
            n == count_where(self.recent@, bound, zero_only),
    {
        let mut n: u32 = 0;
        let mut i: usize = 0;
        while i < HISTORY_LEN
            invariant
                i <= HISTORY_LEN,
                self.recent@.len() == HISTORY_LEN,
                n == count_where(self.recent@.take(i as int), bound, zero_only),
                n <= i,
            decreases HISTORY_LEN - i,
        {
            assert(self.recent@.take(i + 1).drop_last() =~= self.recent@.take(i as int));
            match self.recent[i] {
                Some(x) => {
                    if (zero_only && x == 0) || (!zero_only && x < bound) {
                        n = n + 1;
                    }
                },
                None => {},
            }
            i = i + 1;
        }
        assert(self.recent@.take(HISTORY_LEN as int) =~= self.recent@);
        n
    }

    /// How many of the remembered frames were shorter than an ideal frame
    /// (four ticks).
    pub fn count_short(&self) -> (n: u32)
        requires
            self.well_formed(),
        ensures
            n == count_where(self.recent@, 4, false),
    {
        self.count(4, false)
    }

    /// How many of the remembered frames took no time.
    pub fn count_still(&self) -> (n: u32)
        requires
            self.well_formed(),
        ensures
            n == count_where(self.recent@, 0, true),
    {
        self.count(0, true)
    }
}

/// A counter after one more event: it wraps around as an atomic counter's
/// `fetch_add` does.
pub open spec fn bumped(count: u32) -> u32 {
    if count == u32::MAX {
        0
    } else {
        (count + 1) as u32
    }
}

fn bump(count: u32) -> (r: u32)
    ensures
        r == bumped(count),
{
    if count == u32::MAX {
        0
    } else {
        count + 1
    }
}

/// How often the fixes stepped in, shown in the debug overlay.
#[derive(Clone, Copy, Debug, PartialEq, Eq, Structural)]
pub struct SuppressionCounts {
    /// Divisions by zero answered with 0 instead of crashing.
    pub zero_divisors: u32,
    /// Proximity fuses disarmed because the shot crossed no ideal frame
    /// boundary.
    pub fuses_suppressed: u32,
    /// Frames that took no time, on which the shots did not advance.
    pub zero_frames_skipped: u32,
}

impl SuppressionCounts {
    /// Nothing counted yet.
    pub fn new() -> (c: SuppressionCounts)
        ensures
            c == (SuppressionCounts { zero_divisors: 0, fuses_suppressed: 0, zero_frames_skipped: 0 }),
    {
        SuppressionCounts { zero_divisors: 0, fuses_suppressed: 0, zero_frames_skipped: 0 }
    }

    /// Divides two 16.16 values as `fixed::fixed_div_16` does, counting a
    /// zero divisor that was answered with 0.
    pub fn fixed_div_16(&mut self, value: u32, divisor: i32) -> (r: u32)
        ensures
            r == fixed_div16_spec(value, divisor),
            *final(self) == (SuppressionCounts {
                zero_divisors: if divisor == 0 {
                    bumped(old(self).zero_divisors)
                } else {
                    old(self).zero_divisors
                },
                ..*old(self)
            }),
    {
        if divisor == 0 {
            self.zero_divisors = bump(self.zero_divisors);
        }
        fixed_div_16(value, divisor)
    }

    /// The flags of a guided missile after its steering, as
    /// `shots::guide_missile_to_target` gives them, counting a disarmed fuse.
    pub fn guide_missile_to_target(&mut self, flags: u32, age: i32, delta_time: i32) -> (r: u32)
        ensures
            ({
                let disarmed = flags & SHOT_PROXIMITY_FUSE != 0 && !crossed_boundary(age, delta_time);
                &&& r == (if disarmed {
                    flags & !SHOT_PROXIMITY_FUSE
                } else {
                    flags
                })
                &&& *final(self) == (SuppressionCounts {
                    fuses_suppressed: if disarmed {
                        bumped(old(self).fuses_suppressed)
                    } else {
                        old(self).fuses_suppressed
                    },
                    ..*old(self)
                })
            }),
    {
        let (next, disarmed) = guide_missile_to_target(flags, age, delta_time);
        if disarmed {
            self.fuses_suppressed = bump(self.fuses_suppressed);
        }
        next
    }

    /// Whether the shots advance on a frame, as `shots::update_all_shots`
    /// says, counting a frame that took no time.
    pub fn update_all_shots(&mut self, delta_time: i32) -> (runs: bool)
        ensures
            runs == (delta_time != 0),
            *final(self) == (SuppressionCounts {
                zero_frames_skipped: if delta_time == 0 {
                    bumped(old(self).zero_frames_skipped)
                } else {
                    old(self).zero_frames_skipped
                },
                ..*old(self)
            }),
    {
        let runs = update_all_shots(delta_time);
        if !runs {
            self.zero_frames_skipped = bump(self.zero_frames_skipped);
        }
        runs
    }
}

/// A frame that took no time is also a short one: there are never more still
/// frames than short ones.
pub proof fn lemma_still_frames_are_short(s: Seq<Option<i32>>)
    ensures
        count_where(s, 0, true) <= count_where(s, 4, false),
    decreases s.len(),
{
    if s.len() > 0 {
        lemma_still_frames_are_short(s.drop_last());
    }
}

} // verus!
