//! Jumpjet fuel, recharged at the same rate whatever the frame rate: the
//! quarter ticks that the game's recharge truncates away are carried over.

use crate::fixed::{trunc_div, div_trunc_i32};
use crate::sim::carry::{CarryTable, carry_of};
use vstd::prelude::*;

verus! {

/// A full jumpjet tank, in ticks.
pub const JUMPJET_FUEL_MAX: i32 = 1810;

/// The power state of a mech that is powered up and under the pilot's
/// control.
pub const POWERED_UP: i32 = 2;

/// The fields of a player's mech that the recharge reads.
#[derive(Clone, Copy, Debug, PartialEq, Eq, Structural)]
pub struct Player {
    pub shutdown_state: i32,
    /// Fuel in ticks; negative where the mech has no jumpjets.
    pub jumpjet_fuel: i32,
    pub overheat_flags: u16,
    /// Whether the jumpjet key is held; `None` where the mech has no game
    /// object or cockpit input.
    pub jumpjet_held: Option<bool>,
}

/// The fuel that the game's recharge will leave, or `None` where it will not
/// recharge: not while overheated (flag 0x200), not without jumpjets or with
/// a full tank, not without input, and not while jumping under power.
pub open spec fn recharge_result(p: Player, delta_time: i32) -> Option<int> {
    if p.overheat_flags & 0x200 != 0 {
        None
    } else if p.jumpjet_fuel < 0 || p.jumpjet_fuel >= JUMPJET_FUEL_MAX {
        None
    } else {
        match p.jumpjet_held {
            None => None,
            Some(held) => if held && p.shutdown_state == POWERED_UP {
                None
            } else {
                Some(p.jumpjet_fuel + trunc_div(delta_time as int, 4))
            },
        }
    }
}

/// The fuel that the game's recharge will leave for this frame, if it
/// recharges.
pub fn jumpjet_recharge_result(p: Player, delta_time: i32) -> (r: Option<i32>)
    ensures
        match r {
            Some(f) => recharge_result(p, delta_time) == Some(f as int),
            None => recharge_result(p, delta_time) is None,
        },
{
    if p.overheat_flags & 0x200 != 0 {
        return None;
    }
    if p.jumpjet_fuel < 0 || p.jumpjet_fuel >= JUMPJET_FUEL_MAX {
        return None;
    }
    let held = match p.jumpjet_held {
        None => {
            return None;
        },
        Some(h) => h,
    };
    if held && p.shutdown_state == POWERED_UP {
        return None;
    }
    let q = div_trunc_i32(delta_time, 4);
    assert(-0x2000_0000 <= trunc_div(delta_time as int, 4) <= 0x2000_0000) by (nonlinear_arith)
        requires
            q == trunc_div(delta_time as int, 4),
            i32::MIN <= delta_time <= i32::MAX,
    {
    }
    Some(p.jumpjet_fuel + q)
}

/// The remainder of `delta_time` by four, as Rust's `%` computes it (with the
/// sign of `delta_time`).
pub open spec fn quarter_rem(delta_time: i32) -> int {
    crate::fixed::trunc_rem(delta_time as int, 4)
}

/// The fuel and the carried remainder after the game's recharge left
/// `fuel` where the recharge was expected to leave `expected`. A frame that
/// did not recharge as expected drops the carry; one that did adds the
/// frame's truncated quarter ticks to it and turns each four into one more
/// tick of fuel, up to a full tank.
pub open spec fn recharged(expected: Option<i32>, fuel: i32, carry: i32, delta_time: i32) -> (i32, i32) {
    if expected != Some(fuel) {
        (fuel, 0)
    } else {
        let c = carry + quarter_rem(delta_time);
        if c >= 4 {
            (
                if fuel < JUMPJET_FUEL_MAX {
                    (fuel + 1) as i32
                } else {
                    fuel
                },
                (c - 4) as i32,
            )
        } else {
            (fuel, c as i32)
        }
    }
}

/// Finishes the game's jumpjet recharge of a frame: `expected` is what
/// `jumpjet_recharge_result` said before it ran and `fuel` what it left.
/// Returns the fuel, and files the new carry under `key`.
pub fn func_with_jumpjet_calc(
    expected: Option<i32>,
    fuel: i32,
    carries: &mut CarryTable,
    key: usize,
    delta_time: i32,
) -> (new_fuel: i32)
    requires
        expected == Some(fuel) ==> i32::MIN <= carry_of(old(carries)@, key) + quarter_rem(delta_time)
            <= i32::MAX,
    ensures
        (new_fuel, carry_of(final(carries)@, key)) == recharged(
            expected,
            fuel,
            carry_of(old(carries)@, key),
            delta_time,
        ),
        final(carries)@ == old(carries)@.insert(key, carry_of(final(carries)@, key)),
{
    let carry = carries.get(key);
    let same = match expected {
        Some(e) => e == fuel,
        None => false,
    };
    if !same {
        carries.set(key, 0);
        return fuel;
    }
    let rem = delta_time % 4;
    let mut c = carry + rem;
    let mut fuel = fuel;
    if c >= 4 {
        c = c - 4;
        if fuel < JUMPJET_FUEL_MAX {
            fuel = fuel + 1;
        }
    }
    carries.set(key, c);
    fuel
}

/// Frame-rate independence of the recharge: over a frame of `delta_time`
/// ticks that recharged as the game was expected to, below a full tank, the
/// fuel counted in quarter ticks (four times the fuel plus the carry) grows
/// by exactly `delta_time`, and the carry stays below four.
pub proof fn lemma_recharge_keeps_all_time(p: Player, carry: i32, delta_time: i32)
    requires
        delta_time >= 0,
        0 <= carry < 4,
        recharge_result(p, delta_time) is Some,
        recharge_result(p, delta_time)->0 < JUMPJET_FUEL_MAX,
    ensures
        ({
            let fuel = recharge_result(p, delta_time)->0 as i32;
            let (f2, c2) = recharged(Some(fuel), fuel, carry, delta_time);
            &&& 4 * f2 + c2 == 4 * p.jumpjet_fuel + carry + delta_time
            &&& 0 <= c2 < 4
        }),
{
    assert(0 <= delta_time - 4 * (delta_time / 4) < 4) by (nonlinear_arith)
        requires
            delta_time >= 0,
    ;
}

} // verus!
