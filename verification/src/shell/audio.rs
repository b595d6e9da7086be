//! The shell's sounds: the volume and fading of a digital sample, the
//! volume of a MIDI sequence under the master MIDI volume, and the small
//! decisions of the game's audio interface.

use vstd::prelude::*;

verus! {

/// The loudest a sample plays.
pub const SAMPLE_VOLUME_MAX: i32 = 127;

/// The volume a new MIDI sequence has, in percent.
pub const MIDI_DEFAULT_VOLUME: i32 = 50;

/// `v` held within the volumes that a sample can have.
pub open spec fn clamp_volume(v: int) -> int {
    if v < 0 {
        0
    } else if v > SAMPLE_VOLUME_MAX {
        SAMPLE_VOLUME_MAX as int
    } else {
        v
    }
}

/// The volume and fade of a digital sample.
#[derive(Clone, Copy, Debug, PartialEq, Eq, Structural)]
pub struct SampleVolume {
    /// The volume, `0..=127`.
    pub volume: i32,
    /// The fade calls between two steps of the fade.
    pub initial_fade_rate: i32,
    /// The fade calls left before the next step.
    pub fade_rate: i32,
    /// The steps of the fade left.
    pub max_fade: i32,
    pub start_volume: i32,
    pub end_volume: i32,
}

impl SampleVolume {
    /// Whether the volume is one that a sample can have.
    pub open spec fn well_formed(&self) -> bool {
        0 <= self.volume <= SAMPLE_VOLUME_MAX
    }

    /// A new sample: silent, with no fade.
    pub fn new() -> (s: SampleVolume)
        ensures
            s == (SampleVolume {
                volume: 0,
                initial_fade_rate: 0,
                fade_rate: 0,
                max_fade: 0,
                start_volume: 0,
                end_volume: 0,
            }),
            s.well_formed(),
    {
        SampleVolume { volume: 0, initial_fade_rate: 0, fade_rate: 0, max_fade: 0, start_volume: 0, end_volume: 0 }
    }

    /// Sets the volume, held within `0..=127`; returns the volume to play at.
    pub fn set_volume(&mut self, volume: i32) -> (applied: i32)
        ensures
            final(self).volume == clamp_volume(volume as int),
            applied == final(self).volume,
            *final(self) == (SampleVolume { volume: final(self).volume, ..*old(self) }),
            final(self).well_formed(),
    {
        let v = if volume < 0 {
            0
        } else if volume > SAMPLE_VOLUME_MAX {
            SAMPLE_VOLUME_MAX
        } else {
            volume
        };
        self.volume = v;
        v
    }

    /// The volume to play at when the sample starts or its volume is applied
    /// again.
    pub fn apply_volume(&self) -> (v: i32)
        ensures
            v == self.volume,
    {
        self.volume
    }

    /// Starts a fade from `start` toward `end`, one step every `rate` fade
    /// calls, at most `max` steps; the volume jumps to `start` (held within
    /// range). Returns the volume to play at.
    pub fn set_fade(&mut self, rate: i32, max: i32, start: i32, end: i32) -> (applied: i32)
        ensures
            *final(self) == fade_started(rate, max, start, end),
            applied == final(self).volume,
            final(self).well_formed(),
    {
        self.initial_fade_rate = rate;
        self.fade_rate = rate;
        self.max_fade = max;
        self.start_volume = start;
        self.end_volume = end;
        self.set_volume(start)
    }
}

/// The volume state that `set_fade(rate, max, start, end)` leaves.
pub open spec fn fade_started(rate: i32, max: i32, start: i32, end: i32) -> SampleVolume {
    SampleVolume {
        volume: clamp_volume(start as int) as i32,
        initial_fade_rate: rate,
        fade_rate: rate,
        max_fade: max,
        start_volume: start,
        end_volume: end,
    }
}

/// The volume state after one fade call: nothing once the fade is done; the
/// countdown to the next step otherwise; at a step, the countdown starts
/// again, one step fewer is left, and the volume moves one toward the end
/// volume (held within range).
pub open spec fn faded(s: SampleVolume) -> SampleVolume {
    if s.max_fade <= 0 {
        s
    } else if s.fade_rate - 1 != 0 {
        SampleVolume { fade_rate: (s.fade_rate - 1) as i32, ..s }
    } else {
        let stepped = SampleVolume { max_fade: (s.max_fade - 1) as i32, fade_rate: s.initial_fade_rate, ..s };
        if s.end_volume == s.start_volume {
            stepped
        } else if s.end_volume > s.start_volume {
            SampleVolume { volume: clamp_volume(s.volume + 1) as i32, ..stepped }
        } else {
            SampleVolume { volume: clamp_volume(s.volume - 1) as i32, ..stepped }
        }
    }
}

impl SampleVolume {
    /// One call of the fade. Returns the volume to play at where it changed.
    /// A fade countdown at `i32::MIN` cannot count down and is left out.
    pub fn do_fade(&mut self) -> (changed: Option<i32>)
        requires
            old(self).well_formed(),
            old(self).max_fade > 0 ==> old(self).fade_rate > i32::MIN,
        ensures
            *final(self) == faded(*old(self)),
            final(self).well_formed(),
            match changed {
                Some(v) => v == final(self).volume,
                None => final(self).volume == old(self).volume,
            },
    {
        if self.max_fade <= 0 {
            return None;
        }
        self.fade_rate = self.fade_rate - 1;
        if self.fade_rate != 0 {
            return None;
        }
        self.max_fade = self.max_fade - 1;
        self.fade_rate = self.initial_fade_rate;
        if self.end_volume == self.start_volume {
            return None;
        }
        let v = if self.end_volume > self.start_volume {
            self.volume + 1
        } else {
            self.volume - 1
        };
        Some(self.set_volume(v))
    }
}

/// A fade never takes the volume out of range and moves it by at most one,
/// toward the end volume.
pub proof fn lemma_fade_steps_by_one(s: SampleVolume)
    requires
        s.well_formed(),
    ensures
        faded(s).well_formed(),
        faded(s).volume - s.volume <= 1,
        s.volume - faded(s).volume <= 1,
        s.end_volume > s.start_volume ==> faded(s).volume >= s.volume,
        s.end_volume < s.start_volume ==> faded(s).volume <= s.volume,
        s.end_volume == s.start_volume ==> faded(s).volume == s.volume,
{
}

/// The volume state after `k` fade calls.
pub open spec fn faded_times(s: SampleVolume, k: nat) -> SampleVolume
    decreases k,
{
    if k == 0 {
        s
    } else {
        faded(faded_times(s, (k - 1) as nat))
    }
}

/// The volume of a fade from `start` toward `end` after `steps` steps: the
/// start volume (held within range) moved `steps` toward the end volume, and
/// held within range again.
pub open spec fn fade_volume_after(start: i32, end: i32, steps: int) -> int {
    let v0 = clamp_volume(start as int);
    if end > start {
        if v0 + steps > SAMPLE_VOLUME_MAX {
            SAMPLE_VOLUME_MAX as int
        } else {
            v0 + steps
        }
    } else if end < start {
        if v0 - steps < 0 {
            0
        } else {
            v0 - steps
        }
    } else {
        v0
    }
}

/// `k + 1` against `k`, divided by `r`: the quotient grows exactly where the
/// remainder wraps.
proof fn lemma_div_mod_next(k: int, r: int)
    requires
        k >= 0,
        r >= 1,
    ensures
        0 <= k % r < r,
        k / r >= 0,
        k % r == r - 1 ==> (k + 1) / r == k / r + 1 && (k + 1) % r == 0,
        k % r != r - 1 ==> (k + 1) / r == k / r && (k + 1) % r == k % r + 1,
{
    let q = k / r;
    let m = k % r;
    assert(k == q * r + m) by {
        vstd::arithmetic::div_mod::lemma_fundamental_div_mod(k, r);
        vstd::arithmetic::mul::lemma_mul_is_commutative(r, q);
    }
    vstd::arithmetic::div_mod::lemma_mod_pos_bound(k, r);
    vstd::arithmetic::div_mod::lemma_div_pos_is_pos(k, r);
    if m == r - 1 {
        assert(k + 1 == (q + 1) * r + 0) by (nonlinear_arith)
            requires
                k == q * r + m,
                m == r - 1,
        ;
        vstd::arithmetic::div_mod::lemma_fundamental_div_mod_converse_div(k + 1, r, q + 1, 0);
        vstd::arithmetic::div_mod::lemma_fundamental_div_mod_converse_mod(k + 1, r, q + 1, 0);
    } else {
        assert(k + 1 == q * r + (m + 1));
        vstd::arithmetic::div_mod::lemma_fundamental_div_mod_converse_div(k + 1, r, q, m + 1);
        vstd::arithmetic::div_mod::lemma_fundamental_div_mod_converse_mod(k + 1, r, q, m + 1);
    }
}

/// Where `k` stands against `rate * max`, in whole steps of `rate`.
proof fn lemma_steps_bound(k: int, rate: int, max: int)
    requires
        k >= 0,
        rate >= 1,
        max >= 0,
    ensures
        k < rate * max ==> k / rate < max,
        k == rate * max ==> k / rate == max && k % rate == 0,
        k >= rate * max ==> k / rate >= max,
{
    let q = k / rate;
    let m = k % rate;
    assert(k == q * rate + m) by {
        vstd::arithmetic::div_mod::lemma_fundamental_div_mod(k, rate);
        vstd::arithmetic::mul::lemma_mul_is_commutative(rate, q);
    }
    vstd::arithmetic::div_mod::lemma_mod_pos_bound(k, rate);
    assert(k < rate * max ==> q < max) by (nonlinear_arith)
        requires
            k == q * rate + m,
            0 <= m,
            rate >= 1,
    ;
    assert(k >= rate * max ==> q >= max) by (nonlinear_arith)
        requires
            k == q * rate + m,
            m < rate,
            rate >= 1,
    ;
    if k == rate * max {
        vstd::arithmetic::mul::lemma_mul_is_commutative(rate, max);
        vstd::arithmetic::div_mod::lemma_fundamental_div_mod_converse_div(k, rate, max, 0);
        vstd::arithmetic::div_mod::lemma_fundamental_div_mod_converse_mod(k, rate, max, 0);
    }
}

proof fn lemma_fade_calls_inner(rate: i32, max: i32, start: i32, end: i32, k: nat)
    requires
        rate >= 1,
        max >= 0,
    ensures
        ({
            let s = faded_times(fade_started(rate, max, start, end), k);
            &&& s.well_formed()
            &&& s.initial_fade_rate == rate
            &&& s.start_volume == start
            &&& s.end_volume == end
            &&& k <= rate * max ==> {
                &&& s.max_fade == max - (k as int) / (rate as int)
                &&& s.fade_rate == rate - (k as int) % (rate as int)
                &&& s.volume == fade_volume_after(start, end, (k as int) / (rate as int))
            }
            &&& k >= rate * max ==> s == faded_times(fade_started(rate, max, start, end), (rate * max) as nat)
        }),
    decreases k,
{
    let s0 = fade_started(rate, max, start, end);
    lemma_steps_bound(k as int, rate as int, max as int);
    if k == 0 {
        assert(0int / (rate as int) == 0 && 0int % (rate as int) == 0) by {
            vstd::arithmetic::div_mod::lemma_fundamental_div_mod_converse_div(0, rate as int, 0, 0);
            vstd::arithmetic::div_mod::lemma_fundamental_div_mod_converse_mod(0, rate as int, 0, 0);
        }
    } else {
        let j = (k - 1) as nat;
        lemma_fade_calls_inner(rate, max, start, end, j);
        lemma_steps_bound(j as int, rate as int, max as int);
        lemma_div_mod_next(j as int, rate as int);
        let p = faded_times(s0, j);
        assert(faded_times(s0, k) == faded(p));
        if k > rate * max {
            assert(j >= rate * max);
            assert(p == faded_times(s0, (rate * max) as nat));
            lemma_steps_bound((rate * max) as int, rate as int, max as int);
            lemma_fade_calls_inner(rate, max, start, end, (rate * max) as nat);
            assert(p.max_fade == 0);
            assert(faded(p) == p);
        } else {
            assert(j < rate * max);
            assert(p.max_fade > 0);
            lemma_fade_steps_by_one(p);
        }
    }
}

/// After `set_fade(rate, max, start, end)` with a rate of at least one and a
/// step count that is not negative, and `k` fade calls: the volume has moved
/// one step toward the end volume every `rate` calls, for at most `max`
/// steps, held within `0..=127`; until the fade is done the steps left and
/// the countdown stand at `max - k / rate` and `rate - k % rate`; after
/// `rate * max` calls further calls change nothing.
pub proof fn lemma_fade_after_calls(rate: i32, max: i32, start: i32, end: i32, k: nat)
    requires
        rate >= 1,
        max >= 0,
    ensures
        ({
            let s = faded_times(fade_started(rate, max, start, end), k);
            let steps = if (k as int) / (rate as int) < max {
                (k as int) / (rate as int)
            } else {
                max as int
            };
            &&& s.volume == fade_volume_after(start, end, steps)
            &&& s.well_formed()
            &&& k <= rate * max ==> {
                &&& s.max_fade == max - (k as int) / (rate as int)
                &&& s.fade_rate == rate - (k as int) % (rate as int)
            }
            &&& k >= rate * max ==> s == faded_times(
                fade_started(rate, max, start, end),
                (rate * max) as nat,
            )
        }),
{
    lemma_fade_calls_inner(rate, max, start, end, k);
    lemma_steps_bound(k as int, rate as int, max as int);
    if k > rate * max {
        lemma_fade_calls_inner(rate, max, start, end, (rate * max) as nat);
        lemma_steps_bound((rate * max) as int, rate as int, max as int);
    }
}

/// A finished fade changes nothing.
pub proof fn lemma_finished_fade_is_still(s: SampleVolume)
    requires
        s.max_fade <= 0,
    ensures
        faded(s) == s,
{
}

/// Whether a sample is playing: started and with sound left.
pub fn is_playing(paused: bool, empty: bool) -> (b: bool)
    ensures
        b == (!paused && !empty),
{
    !paused && !empty
}

/// Whether setting a loop count makes the sample loop: a count of zero loops
/// it forever; other counts are not supported and change nothing.
pub fn loops_forever(loop_count: i32) -> (b: bool)
    ensures
        b == (loop_count == 0),
{
    loop_count == 0
}

/// A sequence's volume under the master MIDI volume (`0..=0x10000`): the
/// product in 16.16, rounded down.
pub open spec fn midi_scaled_volume_spec(midi_volume: i32, volume: i32) -> int {
    (midi_volume * volume) / 0x10000
}

/// A sequence's volume, in percent, scaled by the master MIDI volume.
pub fn midi_scaled_volume(midi_volume: i32, volume: i32) -> (scaled: i64)
    ensures
        scaled == midi_scaled_volume_spec(midi_volume, volume),
{
    proof {
        crate::fixed::lemma_i32_product_bounds(midi_volume, volume);
    }
    let p = (midi_volume as i64) * (volume as i64);
    let q = p >> 16u64;
    assert(q == p / 0x10000) by (bit_vector)
        requires
            q == p >> 16u64,
    ;
    q
}

/// The level of the master effects volume (`0..=0x10000`) that a movie's
/// sound plays at, held within that range.
pub fn fmv_volume_level(effects_volume: i32) -> (level: i32)
    ensures
        level == (if effects_volume < 0 {
            0
        } else if effects_volume > 0x10000 {
            0x10000
        } else {
            effects_volume
        }),
{
    if effects_volume < 0 {
        0
    } else if effects_volume > 0x10000 {
        0x10000
    } else {
        effects_volume
    }
}

/// The number of MIDI sequences that the game is told are playing: none,
/// as the sequences play on their own.
pub fn active_sequence_count() -> (n: u32)
    ensures
        n == 0,
{
    0
}

} // verus!
