//! The shell's full-motion video: the `Smack` structure that the game reads,
//! the choice of audio track, where a decoded frame lands in the game's
//! buffer, and the pacing of frames by the wall clock or by the audio.

use vstd::prelude::*;

verus! {

/// Size in bytes of the file header that the `Smack` structure starts with.
pub const HEADER_LEN: usize = 104;

/// Size in bytes of each of the structure's two palette buffers.
pub const PALETTE_LEN: usize = 768;

/// Bit `9 + n` selects audio track `n` in open flags and track masks.
pub const TRACK_FLAG_BASE: u32 = 0x200;

/// The number of audio tracks a Smacker file can have.
pub const TRACK_COUNT: usize = 7;

/// The flag of unbuffered file reads, which the video library must not use.
pub const FILE_FLAG_NO_BUFFERING: u32 = 0x2000_0000;

/// The longest duration, in nanoseconds (`Duration::MAX`).
pub const DURATION_MAX_NANOS: u128 = 18_446_744_073_709_551_615_999_999_999;

/// The flags that the video library opens its files with: the same, but
/// never unbuffered (unbuffered reads made it loop forever on modern
/// systems).
pub fn create_file_flags(flags: u32) -> (r: u32)
    ensures
        r == flags & !FILE_FLAG_NO_BUFFERING,
{
    flags & !FILE_FLAG_NO_BUFFERING
}

/// The part of an open movie that the game reads.
pub struct Smack {
    /// The file's header.
    pub header: Vec<u8>,
    /// Non-zero when this frame brought a palette.
    pub new_palette: u32,
    /// 1 when the current palette is `palette_a`, 2 when `palette_b`.
    pub pal_type: u32,
    /// The first palette buffer, RGB triplets.
    pub palette_a: Vec<u8>,
    /// The second palette buffer.
    pub palette_b: Vec<u8>,
    /// The index of the frame loaded.
    pub frame_num: u32,
}

impl Smack {
    /// Whether the buffers have the sizes that the game reads.
    pub open spec fn well_formed(&self) -> bool {
        &&& self.header@.len() == HEADER_LEN
        &&& self.palette_a@.len() == PALETTE_LEN
        &&& self.palette_b@.len() == PALETTE_LEN
    }

    /// The structure of a movie just opened from `data`: its header, no new
    /// palette, palette A current and empty. `None` where the file is shorter
    /// than a header.
    pub fn new(data: &[u8]) -> (r: Option<Smack>)
        ensures
            data@.len() < HEADER_LEN ==> r is None,
            data@.len() >= HEADER_LEN ==> (r matches Some(s) && s.well_formed() && s.header@
                == data@.take(HEADER_LEN as int) && s.new_palette == 0 && s.pal_type == 1
                && s.frame_num == 0 && (forall|k: int| 0 <= k < PALETTE_LEN ==> s.palette_a@[k] == 0
                && s.palette_b@[k] == 0)),
    {
        if data.len() < HEADER_LEN {
            return None;
        }
        let mut header: Vec<u8> = Vec::new();
        let mut i: usize = 0;
        while i < HEADER_LEN
            invariant
                i <= HEADER_LEN <= data@.len(),
                header@ == data@.take(i as int),
            decreases HEADER_LEN - i,
        {
            header.push(data[i]);
            i = i + 1;
            assert(header@ =~= data@.take(i as int));
        }
        let palette_a = zeros(PALETTE_LEN);
        let palette_b = zeros(PALETTE_LEN);
        Some(Smack { header, new_palette: 0, pal_type: 1, palette_a, palette_b, frame_num: 0 })
    }

    /// Copies the decoder's state of the new current frame into the
    /// structure: its index, and, where the frame changed the palette, the
    /// palette flattened into the buffer that is not current, which becomes
    /// current.
    pub fn publish_frame_state(&mut self, frame_index: u32, palette_changed: bool, palette: &[(u8, u8, u8)])
        requires
            old(self).well_formed(),
        ensures
            final(self).well_formed(),
            final(self).frame_num == frame_index,
            final(self).header == old(self).header,
            !palette_changed ==> final(self).new_palette == 0 && final(self).pal_type == old(self).pal_type
                && final(self).palette_a == old(self).palette_a && final(self).palette_b == old(
                self,
            ).palette_b,
            palette_changed ==> final(self).new_palette == 1 && final(self).pal_type == (if old(self).pal_type
                == 1 {
                2u32
            } else {
                1u32
            }),
            palette_changed && old(self).pal_type == 1 ==> final(self).palette_b@ == flat_palette(palette@)
                && final(self).palette_a == old(self).palette_a,
            palette_changed && old(self).pal_type != 1 ==> final(self).palette_a@ == flat_palette(palette@)
                && final(self).palette_b == old(self).palette_b,
    {
        self.frame_num = frame_index;
        if !palette_changed {
            self.new_palette = 0;
            return ;
        }
        let flat = flatten_palette(palette);
        if self.pal_type == 1 {
            self.palette_b = flat;
            self.pal_type = 2;
        } else {
            self.palette_a = flat;
            self.pal_type = 1;
        }
        self.new_palette = 1;
    }
}

/// The palette laid out as the game reads it: the triplets one after the
/// other, as many as fit in the buffer, then zeros.
pub open spec fn flat_palette(palette: Seq<(u8, u8, u8)>) -> Seq<u8> {
    Seq::new(
        PALETTE_LEN as nat,
        |k: int|
            if k / 3 < palette.len() {
                let (r, g, b) = palette[k / 3];
                if k % 3 == 0 {
                    r
                } else if k % 3 == 1 {
                    g
                } else {
                    b
                }
            } else {
                0u8
            },
    )
}

fn zeros(n: usize) -> (v: Vec<u8>)
    ensures
        v@.len() == n,
        forall|k: int| 0 <= k < n ==> v@[k] == 0,
{
    let mut v: Vec<u8> = Vec::new();
    while v.len() < n
        invariant
            v@.len() <= n,
            forall|k: int| 0 <= k < v@.len() ==> v@[k] == 0,
        decreases n - v@.len(),
    {
        v.push(0);
    }
    v
}

fn flatten_palette(palette: &[(u8, u8, u8)]) -> (flat: Vec<u8>)
    ensures
        flat@ == flat_palette(palette@),
{
    let mut flat: Vec<u8> = Vec::new();
    let mut i: usize = 0;
    while i < PALETTE_LEN / 3
        invariant
            i <= PALETTE_LEN / 3,
            flat@.len() == 3 * i,
            forall|k: int| 0 <= k < flat@.len() ==> #[trigger] flat@[k] == flat_palette(palette@)[k],
        decreases PALETTE_LEN / 3 - i,
    {
        let ghost before = flat@;
        if i < palette.len() {
            let (r, g, b) = palette[i];
            flat.push(r);
            flat.push(g);
            flat.push(b);
        } else {
            flat.push(0);
            flat.push(0);
            flat.push(0);
        }
        assert forall|k: int| 0 <= k < flat@.len() implies #[trigger] flat@[k] == flat_palette(palette@)[k] by {
            if k >= 3 * i {
                assert(k / 3 == i) by (nonlinear_arith)
                    requires
                        3 * i <= k < 3 * i + 3,
                ;
                assert(k % 3 == k - 3 * i) by (nonlinear_arith)
                    requires
                        3 * i <= k < 3 * i + 3,
                ;
            } else {
                assert(flat@[k] == before[k]);
            }
        }
        i = i + 1;
    }
    assert(flat@ =~= flat_palette(palette@));
    flat
}

/// Whether `flags` selects audio track `t`.
pub open spec fn selects(flags: u32, t: int) -> bool {
    flags & (TRACK_FLAG_BASE << (t as u32)) != 0
}

/// The first track at or after `t` that `flags` selects and, where
/// `must_exist`, that the file has.
pub open spec fn first_track_from(flags: u32, exists: Seq<bool>, must_exist: bool, t: int) -> Option<int>
    decreases TRACK_COUNT - t,
{
    if t < 0 || t >= TRACK_COUNT {
        None
    } else if selects(flags, t) && (!must_exist || exists[t]) {
        Some(t)
    } else {
        first_track_from(flags, exists, must_exist, t + 1)
    }
}

fn first_track(flags: u32, exists: &[bool], must_exist: bool) -> (r: Option<usize>)
    requires
        exists@.len() == TRACK_COUNT,
    ensures
        r matches Some(t) ==> t < TRACK_COUNT,
        match r {
            Some(t) => first_track_from(flags, exists@, must_exist, 0) == Some(t as int),
            None => first_track_from(flags, exists@, must_exist, 0) is None,
        },
{
    let mut t: usize = 0;
    while t < TRACK_COUNT
        invariant
            t <= TRACK_COUNT,
            exists@.len() == TRACK_COUNT,
            first_track_from(flags, exists@, must_exist, 0) == first_track_from(
                flags,
                exists@,
                must_exist,
                t as int,
            ),
        decreases TRACK_COUNT - t,
    {
        let bit = TRACK_FLAG_BASE << (t as u32);
        if flags & bit != 0 && (!must_exist || exists[t]) {
            return Some(t);
        }
        t = t + 1;
    }
    None
}

/// The audio track that a movie opened with `flags` plays: the first one
/// selected that the file has. `exists[t]` says whether it has track `t`.
pub fn sound_track(flags: u32, exists: &[bool]) -> (r: Option<usize>)
    requires
        exists@.len() == TRACK_COUNT,
    ensures
        match r {
            Some(t) => first_track_from(flags, exists@, true, 0) == Some(t as int),
            None => first_track_from(flags, exists@, true, 0) is None,
        },
{
    first_track(flags, exists, true)
}

/// Whether any track that `flags` selects exists in the file.
pub fn sound_in_track(flags: u32, exists: &[bool]) -> (b: bool)
    requires
        exists@.len() == TRACK_COUNT,
    ensures
        b == first_track_from(flags, exists@, true, 0) is Some,
{
    first_track(flags, exists, true).is_some()
}

/// The track whose audio `get_track_data` decodes: the first that `flags`
/// selects, where the file has it; `None` (no data) otherwise.
pub fn track_data_track(flags: u32, exists: &[bool]) -> (r: Option<usize>)
    requires
        exists@.len() == TRACK_COUNT,
    ensures
        r == (match first_track_from(flags, exists@, false, 0) {
            Some(t) => if exists@[t] {
                Some(t as usize)
            } else {
                None::<usize>
            },
            None => None::<usize>,
        }),
{
    match first_track(flags, exists, false) {
        Some(t) => if exists[t] {
            Some(t)
        } else {
            None
        },
        None => None,
    }
}

/// What `get_track_data` does with the current frame's audio.
#[derive(Clone, Copy, Debug, PartialEq, Eq, Structural)]
pub enum TrackDataStep {
    /// Nothing to decode: it reports 0 bytes and writes nothing.
    NoData,
    /// A track is there but the destination is null: an error.
    NullDestination,
    /// Decode this track into the destination.
    Decode(usize),
}

/// The first step of `get_track_data`: the first track that `flags` selects
/// is the only one tried; where there is none, or the file lacks it, there
/// is no data whatever the destination. Only then is a null destination an
/// error.
pub fn get_track_data(flags: u32, exists: &[bool], has_destination: bool) -> (r: TrackDataStep)
    requires
        exists@.len() == TRACK_COUNT,
    ensures
        r == (match first_track_from(flags, exists@, false, 0) {
            None => TrackDataStep::NoData,
            Some(t) => if !exists@[t] {
                TrackDataStep::NoData
            } else if !has_destination {
                TrackDataStep::NullDestination
            } else {
                TrackDataStep::Decode(t as usize)
            },
        }),
{
    match track_data_track(flags, exists) {
        None => TrackDataStep::NoData,
        Some(t) => if !has_destination {
            TrackDataStep::NullDestination
        } else {
            TrackDataStep::Decode(t)
        },
    }
}

/// The byte count that `get_track_data` reports for what was written:
/// saturated to 32 bits.
pub fn track_data_count(written: usize) -> (n: u32)
    ensures
        n == (if written > u32::MAX {
            u32::MAX
        } else {
            written as u32
        }),
{
    if written > 0xffff_ffffusize {
        0xffff_ffff
    } else {
        written as u32
    }
}

/// Where the game wants the decoded frames.
#[derive(Clone, Copy, Debug, PartialEq, Eq, Structural)]
pub struct Destination {
    pub left: u32,
    pub top: u32,
    /// Bytes from one row of the buffer to the next.
    pub pitch: u32,
    /// The buffer's height in rows.
    pub dest_height: u32,
    /// Whether frames are drawn bottom row first.
    pub flip: bool,
}

/// Why a frame could not be decoded into the destination.
#[derive(Clone, Copy, Debug, PartialEq, Eq, Structural)]
pub enum FrameError {
    /// The destination buffer is null.
    NullBuffer,
    /// A row of the frame is wider than the buffer, or the frame is empty.
    PitchTooSmall,
    /// A flipped frame does not fit the buffer's height.
    FlippedDoesNotFit,
    /// The offset of the frame in the buffer overflows.
    OffsetOverflows,
    /// The bytes that the frame spans overflow.
    SpanOverflows,
}

/// The part of the buffer that a `width` by `height` frame is decoded into:
/// the offset of its first byte (the top-left corner, from the bottom when
/// flipped) and the bytes from there to the end of its last row.
pub open spec fn frame_span_spec(dest: Destination, width: int, height: int) -> Result<(int, int), FrameError> {
    if dest.pitch < width || height == 0 {
        Err(FrameError::PitchTooSmall)
    } else {
        let first_row: Option<int> = if dest.flip {
            if dest.top + height > usize::MAX || dest.dest_height < dest.top + height {
                None
            } else {
                Some(dest.dest_height - (dest.top + height))
            }
        } else {
            Some(dest.top as int)
        };
        match first_row {
            None => Err(FrameError::FlippedDoesNotFit),
            Some(row) => if row * dest.pitch > usize::MAX || row * dest.pitch + dest.left > usize::MAX {
                Err(FrameError::OffsetOverflows)
            } else if (height - 1) * dest.pitch > usize::MAX || (height - 1) * dest.pitch + width
                > usize::MAX {
                Err(FrameError::SpanOverflows)
            } else {
                Ok((row * dest.pitch + dest.left, (height - 1) * dest.pitch + width))
            },
        }
    }
}

/// Where a frame lands in the destination, or why it cannot.
pub fn frame_span(has_buffer: bool, dest: Destination, width: usize, height: usize) -> (r: Result<
    (usize, usize),
    FrameError,
>)
    ensures
        !has_buffer ==> r == Err::<(usize, usize), FrameError>(FrameError::NullBuffer),
        has_buffer ==> match r {
            Ok((start, len)) => frame_span_spec(dest, width as int, height as int) == Ok::<
                (int, int),
                FrameError,
            >((start as int, len as int)),
            Err(e) => frame_span_spec(dest, width as int, height as int) == Err::<(int, int), FrameError>(
                e,
            ),
        },
{
    if !has_buffer {
        return Err(FrameError::NullBuffer);
    }
    let pitch = dest.pitch as usize;
    let left = dest.left as usize;
    let top = dest.top as usize;
    if pitch < width || height == 0 {
        return Err(FrameError::PitchTooSmall);
    }
    let first_row = if dest.flip {
        match top.checked_add(height) {
            None => {
                return Err(FrameError::FlippedDoesNotFit);
            },
            Some(bottom) => match (dest.dest_height as usize).checked_sub(bottom) {
                None => {
                    return Err(FrameError::FlippedDoesNotFit);
                },
                Some(row) => row,
            },
        }
    } else {
        top
    };
    let start = match first_row.checked_mul(pitch) {
        None => {
            return Err(FrameError::OffsetOverflows);
        },
        Some(o) => match o.checked_add(left) {
            None => {
                return Err(FrameError::OffsetOverflows);
            },
            Some(s) => s,
        },
    };
    let len = match (height - 1).checked_mul(pitch) {
        None => {
            return Err(FrameError::SpanOverflows);
        },
        Some(o) => match o.checked_add(width) {
            None => {
                return Err(FrameError::SpanOverflows);
            },
            Some(l) => l,
        },
    };
    Ok((start, len))
}

/// Starting a movie's sound on its first paced frame: while a sound plays or
/// is loading nothing happens; otherwise the pending track is taken (it is
/// tried once) and, where the file has it, handed out to be loaded. Returns
/// the track to load and the track left pending.
pub fn start_sound(busy: bool, pending: Option<usize>, exists: &[bool]) -> (r: (Option<usize>, Option<usize>))
    requires
        exists@.len() == TRACK_COUNT,
    ensures
        busy ==> r == (None::<usize>, pending),
        !busy ==> r.1 is None && r.0 == (match pending {
            Some(t) => if t < TRACK_COUNT && exists@[t as int] {
                Some(t)
            } else {
                None::<usize>
            },
            None => None::<usize>,
        }),
{
    if busy {
        return (None, pending);
    }
    match pending {
        Some(t) => if t < TRACK_COUNT && exists[t] {
            (Some(t), None)
        } else {
            (None, None)
        },
        None => (None, None),
    }
}

/// The frame that seeking to `frame` makes current: `frame - 1`, or the
/// current one again for 0.
pub fn goto_target(frame: u32, current: u32) -> (target: u32)
    ensures
        target == (if frame == 0 {
            current as int
        } else {
            frame - 1
        }),
{
    if frame == 0 {
        current
    } else {
        frame - 1
    }
}

/// How long one frame is on screen, in nanoseconds, from the file's frame
/// time in tens of microseconds.
pub fn frame_duration(frame_time_10us: u32) -> (nanos: u128)
    ensures
        nanos == frame_time_10us * 10_000,
{
    (frame_time_10us as u128) * 10_000
}

/// A duration in nanoseconds added to another, up to the longest duration.
pub open spec fn saturating_add_duration(a: int, b: int) -> int {
    if a + b > DURATION_MAX_NANOS {
        DURATION_MAX_NANOS as int
    } else {
        a + b
    }
}

fn add_duration(a: u128, b: u128) -> (r: u128)
    requires
        a <= DURATION_MAX_NANOS,
        b <= DURATION_MAX_NANOS,
    ensures
        r == saturating_add_duration(a as int, b as int),
{
    if a + b > DURATION_MAX_NANOS {
        DURATION_MAX_NANOS
    } else {
        a + b
    }
}

/// The point of the audio that frame `target` starts at: the frame's
/// duration times `target`, up to the longest duration.
pub fn audio_point(step: u128, target: u32) -> (at: u128)
    requires
        step <= DURATION_MAX_NANOS,
    ensures
        at == (if step * target > DURATION_MAX_NANOS {
            DURATION_MAX_NANOS as int
        } else {
            step * target
        }),
{
    let t = target as u128;
    assert(step * t <= DURATION_MAX_NANOS * 0x1_0000_0000) by (nonlinear_arith)
        requires
            step <= DURATION_MAX_NANOS,
            t < 0x1_0000_0000,
    ;
    let p = step * t;
    if p > DURATION_MAX_NANOS {
        DURATION_MAX_NANOS
    } else {
        p
    }
}

/// The audio deadline after the sound was moved to a point: the point where
/// the seek worked, else wherever the sound is.
pub fn audio_sync_point(seek_worked: bool, at: u128, position: u128) -> (deadline: u128)
    ensures
        deadline == (if seek_worked {
            at
        } else {
            position
        }),
{
    if seek_worked {
        at
    } else {
        position
    }
}

/// The pacing of an open movie: when the current frame's time runs out, by
/// the audio or by the wall clock, and whether it already has.
#[derive(Clone, Copy, Debug, PartialEq, Eq, Structural)]
pub struct Pacing {
    /// The point of the audio, in nanoseconds, at which the frame is done.
    pub audio_deadline: u128,
    /// The instant, in nanoseconds on the caller's clock, at which the frame
    /// is done, once the clock paces it.
    pub deadline: Option<u128>,
    /// Whether the current frame's time has run out.
    pub released: bool,
}

/// The answer of `wait` and the pacing after it. With audio at `sound`, a
/// frame is done once the audio reaches the deadline, and the next deadline
/// is a frame later (or a frame after the audio, where the audio ran more
/// than a frame ahead); a zero frame time releases at once. Without audio,
/// the first wait sets the deadline a frame from `now`; once it passes, the
/// next is a frame later (or a frame from now, where more than a frame
/// behind), and the frame is released unless the frame time is zero.
/// 1 means "keep waiting", 0 "go on".
pub open spec fn waited(p: Pacing, step: int, now: int, sound: Option<int>) -> (u32, Pacing) {
    if p.released {
        (0, p)
    } else {
        match sound {
            Some(pos) => if step == 0 {
                (0, Pacing { released: true, ..p })
            } else if pos < p.audio_deadline {
                (1, p)
            } else {
                let next0 = saturating_add_duration(p.audio_deadline as int, step);
                let next = if pos > saturating_add_duration(next0, step) {
                    saturating_add_duration(pos, step)
                } else {
                    next0
                };
                (0, Pacing { audio_deadline: next as u128, released: true, ..p })
            },
            None => match p.deadline {
                None => (1, Pacing { deadline: Some((now + step) as u128), ..p }),
                Some(d) => if d <= now {
                    let next0 = d + step;
                    let behind = if now > next0 {
                        now - next0
                    } else {
                        0
                    };
                    let next = if behind > step {
                        now + step
                    } else {
                        next0
                    };
                    (0, Pacing { deadline: Some(next as u128), released: step != 0, ..p })
                } else {
                    (1, p)
                },
            },
        }
    }
}

impl Pacing {
    /// The pacing of a movie just opened.
    pub fn new() -> (p: Pacing)
        ensures
            p == (Pacing { audio_deadline: 0, deadline: None, released: false }),
    {
        Pacing { audio_deadline: 0, deadline: None, released: false }
    }

    /// A new current frame has its time yet to run.
    pub fn frame_changed(&mut self)
        ensures
            *final(self) == (Pacing { released: false, ..*old(self) }),
    {
        self.released = false;
    }

    /// Whether the current frame's time is still running (1) or has run out
    /// (0), at `now` on the caller's clock, with the audio at `sound` where
    /// the movie has it. `now` plus a frame, and the deadline plus a frame,
    /// must be instants of the caller's clock.
    pub fn wait(&mut self, step: u128, now: u128, sound: Option<u128>) -> (r: u32)
        requires
            step <= DURATION_MAX_NANOS,
            old(self).audio_deadline <= DURATION_MAX_NANOS,
            sound matches Some(pos) ==> pos <= DURATION_MAX_NANOS,
            now + step <= u128::MAX,
            old(self).deadline matches Some(d) ==> d + step <= u128::MAX,
        ensures
            (r, *final(self)) == waited(
                *old(self),
                step as int,
                now as int,
                match sound {
                    Some(p) => Some(p as int),
                    None => None::<int>,
                },
            ),
    {
        if self.released {
            return 0;
        }
        match sound {
            Some(pos) => {
                if step == 0 {
                    self.released = true;
                    return 0;
                }
                if pos < self.audio_deadline {
                    return 1;
                }
                let mut next = add_duration(self.audio_deadline, step);
                if pos > add_duration(next, step) {
                    next = add_duration(pos, step);
                }
                self.audio_deadline = next;
                self.released = true;
                0
            },
            None => match self.deadline {
                None => {
                    self.deadline = Some(now + step);
                    1
                },
                Some(d) => {
                    if d <= now {
                        let mut next = d + step;
                        let behind = if now > next {
                            now - next
                        } else {
                            0
                        };
                        if behind > step {
                            next = now + step;
                        }
                        self.deadline = Some(next);
                        if step != 0 {
                            self.released = true;
                        }
                        0
                    } else {
                        1
                    }
                },
            },
        }
    }
}

/// A frame that has been released stays released until the next frame: a
/// second wait goes on at once and changes nothing.
pub proof fn lemma_released_frame_stays_released(p: Pacing, step: int, now: int, sound: Option<int>)
    requires
        waited(p, step, now, sound).0 == 0,
        step != 0,
    ensures
        waited(p, step, now, sound).1.released,
        waited(waited(p, step, now, sound).1, step, now, sound) == (0u32, waited(p, step, now, sound).1),
{
}

/// Paced by the audio, a released frame's deadline is at least a frame past
/// the last one, and no more than a frame behind the audio.
pub proof fn lemma_audio_deadline_moves_forward(p: Pacing, step: int, pos: int)
    requires
        !p.released,
        0 < step <= DURATION_MAX_NANOS,
        p.audio_deadline <= DURATION_MAX_NANOS,
        0 <= pos <= DURATION_MAX_NANOS,
        pos >= p.audio_deadline,
        p.audio_deadline + step <= DURATION_MAX_NANOS,
    ensures
        waited(p, step, 0, Some(pos)).1.audio_deadline >= p.audio_deadline + step,
        waited(p, step, 0, Some(pos)).1.audio_deadline + step >= pos,
{
}

} // verus!
