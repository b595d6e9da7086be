//! Key-driven input axes (throttle, steering, torso twist), ramped against
//! the time that a frame took rather than once per frame.

use crate::sim::carry::{CarryTable, carry_of};
use crate::sim::timing::TICKS_PER_IDEAL_FRAME;
use vstd::prelude::*;

verus! {

/// The ends of an axis's travel.
pub const AXIS_POSITION_MAX: i32 = 65536;

/// The fastest an axis may ramp, in units per ideal frame.
pub const AXIS_RATE_MAX: i32 = 32768;

/// The fields of one of the game's virtual input axes that the ramp reads
/// and writes.
#[derive(Clone, Copy, Debug, PartialEq, Eq, Structural)]
pub struct InputAxis {
    /// Ramp speed while a key is held, in axis units per ideal frame.
    pub rate: i32,
    /// Where the axis sits, `-AXIS_POSITION_MAX..=AXIS_POSITION_MAX`.
    pub position: i32,
    /// Per-axis sensitivity, as a left shift on the ramp step.
    pub ramp_shift: u8,
    /// Nonzero once something has driven the axis this frame.
    pub updated: u8,
}

/// `x` held within `lo..=hi`.
pub open spec fn clamp_int(x: int, lo: int, hi: int) -> int {
    if x < lo {
        lo
    } else if x > hi {
        hi
    } else {
        x
    }
}

/// Whether `x` fits in an `i32`.
pub open spec fn fits_i32(x: int) -> bool {
    i32::MIN <= x <= i32::MAX
}

/// How much one frame of `delta_time` ticks adds to the rate: three units a
/// tick, shifted left by the axis's sensitivity (the shift wraps at 32 bits).
pub open spec fn ramp_step(delta_time: i32, shift: u8) -> i32 {
    ((3 * delta_time) as i32).wrapping_shl(shift as u32)
}

/// The rate a ramp starts from: pressing the key opposite to the current
/// motion starts again from a standstill.
pub open spec fn ramp_start(rate: i32, direction: int) -> int {
    if rate * direction < 0 {
        0
    } else {
        rate as int
    }
}

/// The rate after one frame of ramping in `direction` (1 for the increase
/// key, -1 for decrease).
pub open spec fn ramped_rate(axis: InputAxis, direction: int, delta_time: i32) -> int {
    clamp_int(
        ramp_start(axis.rate, direction) + direction * ramp_step(delta_time, axis.ramp_shift),
        -AXIS_RATE_MAX as int,
        AXIS_RATE_MAX as int,
    )
}

/// The travel of one frame in quarter-frame units: the rate is one ideal
/// frame's travel, scaled by the ticks that the frame took, plus what the
/// last frames left over.
pub open spec fn ramp_travel(axis: InputAxis, carry: i32, direction: int, delta_time: i32) -> int {
    ramped_rate(axis, direction, delta_time) * delta_time + carry
}

/// Whether one ramp stays within the game's 32-bit arithmetic (outside it
/// the arithmetic overflows).
pub open spec fn ramp_fits(axis: InputAxis, carry: i32, direction: int, delta_time: i32) -> bool {
    let step = ramp_step(delta_time, axis.ramp_shift);
    &&& direction == 1 || direction == -1
    &&& fits_i32(3 * delta_time)
    &&& fits_i32(axis.rate * direction)
    &&& fits_i32(direction * step)
    &&& fits_i32(ramp_start(axis.rate, direction) + direction * step)
    &&& fits_i32(ramped_rate(axis, direction, delta_time) * delta_time)
    &&& fits_i32(ramp_travel(axis, carry, direction, delta_time))
    &&& fits_i32(
        axis.position + ramp_travel(axis, carry, direction, delta_time) / (TICKS_PER_IDEAL_FRAME as int),
    )
}

/// The axis and the carried travel after one frame of ramping: the position
/// moves by the whole ideal frames of travel (rounding down) and keeps
/// within its ends; the rest is carried to the next frame.
pub open spec fn ramped(axis: InputAxis, carry: i32, direction: int, delta_time: i32) -> (InputAxis, i32) {
    let travel = ramp_travel(axis, carry, direction, delta_time);
    (
        InputAxis {
            rate: ramped_rate(axis, direction, delta_time) as i32,
            position: clamp_int(
                axis.position + travel / (TICKS_PER_IDEAL_FRAME as int),
                -AXIS_POSITION_MAX as int,
                AXIS_POSITION_MAX as int,
            ) as i32,
            ..axis
        },
        (travel % (TICKS_PER_IDEAL_FRAME as int)) as i32,
    )
}

fn clamp_i32(x: i32, lo: i32, hi: i32) -> (r: i32)
    requires
        lo <= hi,
    ensures
        r == clamp_int(x as int, lo as int, hi as int),
{
    if x < lo {
        lo
    } else if x > hi {
        hi
    } else {
        x
    }
}

/// One frame of an axis ramp, `direction` being 1 for the increase key and
/// -1 for decrease; the carried travel of the axis, filed under `key`, is
/// updated.
pub fn ramp_axis(axis: &mut InputAxis, carries: &mut CarryTable, key: usize, direction: i32, delta_time: i32)
    requires
        ramp_fits(*old(axis), carry_of(old(carries)@, key), direction as int, delta_time),
    ensures
        (*final(axis), carry_of(final(carries)@, key)) == ramped(
            *old(axis),
            carry_of(old(carries)@, key),
            direction as int,
            delta_time,
        ),
        final(carries)@ == old(carries)@.insert(
            key,
            ramped(*old(axis), carry_of(old(carries)@, key), direction as int, delta_time).1,
        ),
{
    let step = (3 * delta_time).wrapping_shl(axis.ramp_shift as u32);
    let mut rate = axis.rate;
    if rate * direction < 0 {
        rate = 0;
    }
    rate = clamp_i32(rate + direction * step, -AXIS_RATE_MAX, AXIS_RATE_MAX);
    axis.rate = rate;
    let carry = carries.get(key);
    let travel = rate * delta_time + carry;
    let rem = travel & 3;
    let quot = travel >> 2u32;
    assert(rem == travel % 4 && quot == travel / 4) by (bit_vector)
        requires
            rem == travel & 3,
            quot == travel >> 2u32,
    ;
    carries.set(key, rem);
    let position = axis.position + quot;
    axis.position = clamp_i32(position, -AXIS_POSITION_MAX, AXIS_POSITION_MAX);
}

/// The axis, the carried travel and the result after the key handling of one
/// frame, the game's own handling having run with the keys hidden and
/// `saved_rate` being the rate from before it. Where the keys apply (nothing
/// else drove the axis yet), a held increase key ramps up, then a held
/// decrease key ramps down; an axis that nothing drove stops, and its carried
/// travel is forgotten.
pub open spec fn keys_update(
    axis: InputAxis,
    carries: Map<usize, i32>,
    key: usize,
    keys_apply: bool,
    plus_held: bool,
    minus_held: bool,
    saved_rate: i32,
    updated: i32,
    delta_time: i32,
) -> (InputAxis, Map<usize, i32>, i32) {
    let a0 = InputAxis { rate: saved_rate, ..axis };
    if !keys_apply {
        (a0, carries, updated)
    } else {
        let (a1, c1, u1) = if plus_held {
            let (a, c) = ramped(a0, carry_of(carries, key), 1, delta_time);
            (a, carries.insert(key, c), 1i32)
        } else {
            (a0, carries, updated)
        };
        let (a2, c2, u2) = if minus_held {
            let (a, c) = ramped(a1, carry_of(c1, key), -1, delta_time);
            (a, c1.insert(key, c), 1i32)
        } else {
            (a1, c1, u1)
        };
        if u2 == 0 {
            (InputAxis { rate: 0, updated: 0, ..a2 }, c2.remove(key), 0)
        } else {
            (InputAxis { updated: u2 as u8, ..a2 }, c2, u2)
        }
    }
}

/// Whether the key handling of a frame stays within the game's 32-bit
/// arithmetic.
pub open spec fn keys_fit(
    axis: InputAxis,
    carries: Map<usize, i32>,
    key: usize,
    keys_apply: bool,
    plus_held: bool,
    minus_held: bool,
    saved_rate: i32,
    delta_time: i32,
) -> bool {
    let a0 = InputAxis { rate: saved_rate, ..axis };
    let (a1, c1) = if plus_held {
        let (a, c) = ramped(a0, carry_of(carries, key), 1, delta_time);
        (a, carries.insert(key, c))
    } else {
        (a0, carries)
    };
    keys_apply ==> {
        &&& plus_held ==> ramp_fits(a0, carry_of(carries, key), 1, delta_time)
        &&& minus_held ==> ramp_fits(a1, carry_of(c1, key), -1, delta_time)
    }
}

/// Finishes a frame of an input axis after the game's own handling, which ran
/// with the keys hidden and returned `updated`: restores the rate from before
/// it and ramps the axis by the keys held. Returns whether the axis was
/// driven this frame.
pub fn update_axis_from_keys(
    axis: &mut InputAxis,
    carries: &mut CarryTable,
    key: usize,
    keys_apply: bool,
    plus_held: bool,
    minus_held: bool,
    saved_rate: i32,
    updated: i32,
    delta_time: i32,
) -> (driven: i32)
    requires
        keys_fit(*old(axis), old(carries)@, key, keys_apply, plus_held, minus_held, saved_rate, delta_time),
    ensures
        (*final(axis), final(carries)@, driven) == keys_update(
            *old(axis),
            old(carries)@,
            key,
            keys_apply,
            plus_held,
            minus_held,
            saved_rate,
            updated,
            delta_time,
        ),
{
    axis.rate = saved_rate;
    let mut updated = updated;
    if keys_apply {
        if plus_held {
            ramp_axis(axis, carries, key, 1, delta_time);
            updated = 1;
        }
        if minus_held {
            ramp_axis(axis, carries, key, -1, delta_time);
            updated = 1;
        }
        if updated == 0 {
            axis.rate = 0;
            carries.forget(key);
        }
        axis.updated = updated as u8;
    }
    updated
}

/// Frame-rate independence of a ramp: the travel of a frame at the ramped
/// rate, with the travel carried in, is exactly the whole frames that the
/// position moves plus the travel carried out, wherever the position does
/// not reach an end of the axis.
pub proof fn lemma_ramp_keeps_all_travel(axis: InputAxis, carry: i32, direction: int, delta_time: i32)
    requires
        ramp_fits(axis, carry, direction, delta_time),
        -AXIS_POSITION_MAX <= axis.position + ramp_travel(axis, carry, direction, delta_time) / 4
            <= AXIS_POSITION_MAX,
    ensures
        ramped_rate(axis, direction, delta_time) * delta_time + carry == 4 * (ramped(
            axis,
            carry,
            direction,
            delta_time,
        ).0.position - axis.position) + ramped(axis, carry, direction, delta_time).1,
        0 <= ramped(axis, carry, direction, delta_time).1 < 4,
{
}

} // verus!
