//! The sim's clock: the 181 Hz tick counters and the loading screen's
//! animation timer.

use vstd::prelude::*;

verus! {

/// Ticks per frame at the ideal 45 FPS, which every sim system is tuned for.
pub const TICKS_PER_IDEAL_FRAME: i32 = 4;

/// The two tick counters after one tick of the 181 Hz timer: each counts
/// unless its hold bit (0x200 for the first, 0x100 for the second) is set.
pub open spec fn ticked(check: u32, ticks_1: u32, ticks_2: u32) -> (u32, u32) {
    (
        if check & 0x200 == 0 {
            (ticks_1 + 1) as u32
        } else {
            ticks_1
        },
        if check & 0x100 == 0 {
            (ticks_2 + 1) as u32
        } else {
            ticks_2
        },
    )
}

/// One tick of the game's 181 Hz timer. A counter at its maximum that would
/// count overflows, so it is left out.
pub fn game_tick_timer_callback(check: u32, ticks_1: u32, ticks_2: u32) -> (r: (u32, u32))
    requires
        check & 0x200 == 0 ==> ticks_1 < u32::MAX,
        check & 0x100 == 0 ==> ticks_2 < u32::MAX,
    ensures
        r == ticked(check, ticks_1, ticks_2),
{
    let t1 = if check & 0x200 == 0 {
        ticks_1 + 1
    } else {
        ticks_1
    };
    let t2 = if check & 0x100 == 0 {
        ticks_2 + 1
    } else {
        ticks_2
    };
    (t1, t2)
}

/// Each counter follows its own hold bit alone: the first counts (by one)
/// exactly when bit 0x200 is clear and the second exactly when bit 0x100 is
/// clear, so flipping the other counter's bit changes neither result.
pub proof fn lemma_counters_follow_their_own_bit(check: u32, ticks_1: u32, ticks_2: u32)
    ensures
        check & 0x200 == 0 && ticks_1 < u32::MAX ==> ticked(check, ticks_1, ticks_2).0 == ticks_1 + 1,
        check & 0x200 != 0 ==> ticked(check, ticks_1, ticks_2).0 == ticks_1,
        check & 0x100 == 0 && ticks_2 < u32::MAX ==> ticked(check, ticks_1, ticks_2).1 == ticks_2 + 1,
        check & 0x100 != 0 ==> ticked(check, ticks_1, ticks_2).1 == ticks_2,
        ticked(check, ticks_1, ticks_2).0 == ticked(check ^ 0x100, ticks_1, ticks_2).0,
        ticked(check, ticks_1, ticks_2).1 == ticked(check ^ 0x200, ticks_1, ticks_2).1,
{
    assert((check ^ 0x100) & 0x200 == check & 0x200 && (check ^ 0x200) & 0x100 == check & 0x100)
        by (bit_vector);
}

/// What the loading screen's timer finds when it fires.
#[derive(Clone, Copy, Debug, PartialEq, Eq, Structural)]
pub struct SupAnimState {
    /// The display geometry has been set up.
    pub display_ready: bool,
    /// The backdrop and the dropship's frames are loaded.
    pub loaded: bool,
    pub frame_count: i32,
    pub frame: i32,
    /// The game's window is active.
    pub window_active: bool,
}

/// Whether a firing of the loading screen's timer draws a frame: the display
/// and the graphics must be there, with more than one frame to show, in an
/// active window.
pub open spec fn sup_anim_draws(s: SupAnimState) -> bool {
    s.display_ready && s.loaded && s.frame_count > 1 && s.window_active
}

/// Whether the loading screen's timer draws on this firing (the display
/// buffer must also lock, which only the caller can try).
pub fn sup_anim_should_draw(s: SupAnimState) -> (b: bool)
    ensures
        b == sup_anim_draws(s),
{
    if !s.display_ready || !s.loaded || s.frame_count <= 1 {
        return false;
    }
    s.window_active
}

/// The frame of the dropship that follows `frame`, wrapping at the frame
/// count (a remainder as Rust computes it, which keeps the sign of `frame`).
pub fn sup_anim_timer_callback(frame: i32, frame_count: i32) -> (next: i32)
    requires
        frame_count > 1,
        frame < i32::MAX,
    ensures
        next == crate::fixed::trunc_rem(frame + 1, frame_count as int),
{
    crate::fixed::rem_trunc_i32(frame + 1, frame_count)
}

/// Frames that the loading screen shows in turn: the next frame of a frame in
/// range is in range.
pub proof fn lemma_sup_anim_frame_stays_in_range(frame: i32, frame_count: i32)
    requires
        frame_count > 1,
        0 <= frame < frame_count,
    ensures
        0 <= crate::fixed::trunc_rem(frame + 1, frame_count as int) < frame_count,
        frame + 1 < frame_count ==> crate::fixed::trunc_rem(frame + 1, frame_count as int) == frame + 1,
{
    let n: int = frame + 1;
    let c: int = frame_count as int;
    if n < c {
        assert(n / c == 0) by (nonlinear_arith)
            requires
                0 <= n < c,
        ;
    } else {
        assert(n / c == 1) by (nonlinear_arith)
            requires
                n == c,
                c > 1,
        ;
    }
    assert(crate::fixed::trunc_div(n, c) == n / c);
}

} // verus!
