//! Projectiles in flight: the proximity fuse of guided missiles, armed no
//! more often than at the ideal frame rate, and the skipping of frames that
//! took no time.

use crate::sim::timing::TICKS_PER_IDEAL_FRAME;
use vstd::prelude::*;

verus! {

/// Set when a guided missile is within 101 units of its lock: the shot then
/// detonates on the locked target without any collision test.
pub const SHOT_PROXIMITY_FUSE: u32 = 32768;

/// `a - b` held within the range of an `i32`, as `i32::saturating_sub`.
pub open spec fn saturating_sub_i32(a: i32, b: i32) -> i32 {
    if a - b < i32::MIN {
        i32::MIN
    } else if a - b > i32::MAX {
        i32::MAX
    } else {
        (a - b) as i32
    }
}

/// Whether a shot that has just aged to `age` ticks, in a frame of
/// `delta_time` ticks, crossed a boundary of ideal frames doing so: whether
/// a 45 FPS sim would have sampled it on this frame.
pub open spec fn crossed_boundary(age: i32, delta_time: i32) -> bool {
    (age as int) / (TICKS_PER_IDEAL_FRAME as int) != (saturating_sub_i32(age, delta_time) as int) / (
    TICKS_PER_IDEAL_FRAME as int)
}

fn saturating_sub(a: i32, b: i32) -> (r: i32)
    ensures
        r == saturating_sub_i32(a, b),
{
    let d = a as i64 - b as i64;
    if d < i32::MIN as i64 {
        i32::MIN
    } else if d > i32::MAX as i64 {
        i32::MAX
    } else {
        d as i32
    }
}

/// Whether a shot of age `age` crossed an ideal frame boundary in a frame of
/// `delta_time` ticks.
pub fn crossed_ideal_frame_boundary(age: i32, delta_time: i32) -> (b: bool)
    ensures
        b == crossed_boundary(age, delta_time),
{
    let previous = saturating_sub(age, delta_time);
    let now_frame = age >> 2u32;
    let previous_frame = previous >> 2u32;
    assert(now_frame == (age as int) / 4 && previous_frame == (previous as int) / 4) by (bit_vector)
        requires
            now_frame == age >> 2u32,
            previous_frame == previous >> 2u32,
    ;
    now_frame != previous_frame
}

/// The flags of a guided missile after its steering: an armed proximity
/// fuse is disarmed again unless the shot crossed an ideal frame boundary,
/// which keeps the density of fuse checks of 45 FPS. The second value says
/// whether a fuse was disarmed.
pub fn guide_missile_to_target(flags: u32, age: i32, delta_time: i32) -> (r: (u32, bool))
    ensures
        r.1 == (flags & SHOT_PROXIMITY_FUSE != 0 && !crossed_boundary(age, delta_time)),
        r.0 == (if r.1 {
            flags & !SHOT_PROXIMITY_FUSE
        } else {
            flags
        }),
{
    if flags & SHOT_PROXIMITY_FUSE != 0 && !crossed_ideal_frame_boundary(age, delta_time) {
        (flags & !SHOT_PROXIMITY_FUSE, true)
    } else {
        (flags, false)
    }
}

/// Whether the shots advance on a frame: not on one that took no time, on
/// which the game's point test would detonate a missile on the mech that
/// fired it.
pub fn update_all_shots(delta_time: i32) -> (runs: bool)
    ensures
        runs == (delta_time != 0),
{
    delta_time != 0
}

/// At the ideal frame rate or below (frames of four ticks or more) every
/// frame crosses a boundary, so the fuse is never disarmed there.
pub proof fn lemma_slow_frames_always_cross(age: i32, delta_time: i32)
    requires
        delta_time >= TICKS_PER_IDEAL_FRAME,
        age - delta_time >= i32::MIN,
    ensures
        crossed_boundary(age, delta_time),
{
    assert((age - delta_time) / 4 < age / 4) by (nonlinear_arith)
        requires
            delta_time >= 4,
    ;
}

/// A frame that took no time crosses no boundary.
pub proof fn lemma_still_frames_never_cross(age: i32)
    ensures
        !crossed_boundary(age, 0),
{
}

} // verus!
