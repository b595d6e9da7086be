//! The sim's CD music: the state machine that the game drives through
//! `start`, `status`, `update position` and `toggle paused`, played either
//! by the CD drive through MCI or by a player of music files.

use vstd::prelude::*;

verus! {

/// The highest track number that the music files can have.
pub const MAX_TRACK: u32 = 99;

/// MCI's mode "not ready".
pub const MCI_MODE_NOT_READY: u32 = 524;

/// MCI's mode "stopped".
pub const MCI_MODE_STOP: u32 = 525;

/// MCI's mode "playing".
pub const MCI_MODE_PLAY: u32 = 526;

/// MCI's mode "paused".
pub const MCI_MODE_PAUSE: u32 = 529;

/// MCI's mode "open" (which some CD emulators report when stopped).
pub const MCI_MODE_OPEN: u32 = 530;

/// MCI's flag for a play command with a start position.
pub const MCI_FROM: u32 = 4;

/// MCI's flag for a play command with an end position.
pub const MCI_TO: u32 = 8;

/// What the game knows of its CD music.
#[derive(Clone, Copy, Debug, PartialEq, Eq, Structural)]
pub enum AudioCdStatus {
    Unknown,
    Open,
    Stopped,
    Playing,
    Paused,
    Error,
}

impl AudioCdStatus {
    /// The number that the game stores for the status.
    pub fn code(self) -> (c: u32)
        ensures
            c == (match self {
                AudioCdStatus::Unknown => 0u32,
                AudioCdStatus::Open => 1,
                AudioCdStatus::Stopped => 2,
                AudioCdStatus::Playing => 3,
                AudioCdStatus::Paused => 4,
                AudioCdStatus::Error => 5,
            }),
    {
        match self {
            AudioCdStatus::Unknown => 0,
            AudioCdStatus::Open => 1,
            AudioCdStatus::Stopped => 2,
            AudioCdStatus::Playing => 3,
            AudioCdStatus::Paused => 4,
            AudioCdStatus::Error => 5,
        }
    }
}

/// A position on the CD: track, minute, second and frame.
#[derive(Clone, Copy, Debug, PartialEq, Eq, Structural)]
pub struct CdAudioPosition {
    pub track: u32,
    pub minute: u32,
    pub second: u32,
    pub frame: u32,
}

/// The position packed as MCI's TMSF time: the track in the low byte, then
/// the minute, the second and the frame, each cut to a byte, added up.
pub open spec fn packed_tmsf(p: CdAudioPosition) -> int {
    p.track + (p.minute % 256) * 0x100 + (p.second % 256) * 0x1_0000 + (p.frame % 256) * 0x100_0000
}

impl CdAudioPosition {
    /// The start of the CD.
    pub fn start() -> (p: CdAudioPosition)
        ensures
            p == (CdAudioPosition { track: 0, minute: 0, second: 0, frame: 0 }),
    {
        CdAudioPosition { track: 0, minute: 0, second: 0, frame: 0 }
    }

    /// The start of a track.
    pub fn of_track(track: u32) -> (p: CdAudioPosition)
        ensures
            p == (CdAudioPosition { track, minute: 0, second: 0, frame: 0 }),
    {
        CdAudioPosition { track, minute: 0, second: 0, frame: 0 }
    }

    /// The position as MCI's packed TMSF time. The sum must fit in 32 bits, as
    /// it does for any real position (the track is at most 99).
    pub fn packed(&self) -> (t: u32)
        requires
            packed_tmsf(*self) <= u32::MAX,
        ensures
            t == packed_tmsf(*self),
    {
        let minute = self.minute;
        let second = self.second;
        let frame = self.frame;
        let m = minute & 0xFF;
        let s = second & 0xFF;
        let frame_shifted = frame << 24u32;
        assert(m == minute % 256 && s == second % 256) by (bit_vector)
            requires
                m == minute & 0xFF,
                s == second & 0xFF,
        ;
        assert(frame_shifted == (frame % 256) * 0x100_0000) by (bit_vector)
            requires
                frame_shifted == frame << 24u32,
        ;
        assert((m << 8u32) == m * 0x100 && (s << 16u32) == s * 0x1_0000) by (bit_vector)
            requires
                m < 256,
                s < 256,
        ;
        self.track + (m << 8u32) + (s << 16u32) + frame_shifted
    }
}

/// Where the music comes from, as the settings ask.
#[derive(Clone, Copy, Debug, PartialEq, Eq, Structural)]
pub enum CdSource {
    /// Files when there are any, else the CD.
    Auto,
    /// Files only.
    Files,
    /// The CD only.
    Mci,
}

/// What starting the CD music does next, once a player of files has been
/// tried where the source allows one.
#[derive(Clone, Copy, Debug, PartialEq, Eq, Structural)]
pub enum CdInitPlan {
    /// Play from files: the device is 1 and the music is initialized.
    UsePlayer,
    /// Give up and report failure.
    Fail,
    /// Use the CD device that an earlier sim opened.
    ReuseDevice(u32),
    /// Open the CD device through MCI.
    OpenDevice,
}

/// Whether the source lets a player of files be tried.
pub fn tries_player(source: CdSource) -> (b: bool)
    ensures
        b == (source != CdSource::Mci),
{
    match source {
        CdSource::Mci => false,
        _ => true,
    }
}

/// What initializing the CD music does: a player of files wins where one
/// could be made and the source allows it; files asked for but unavailable
/// fail; otherwise a cached CD device is reused, or the device is opened.
pub fn init_cd_audio(source: CdSource, player_ready: bool, cached_device: Option<u32>) -> (plan: CdInitPlan)
    ensures
        plan == (if source != CdSource::Mci && player_ready {
            CdInitPlan::UsePlayer
        } else if source == CdSource::Files {
            CdInitPlan::Fail
        } else {
            match cached_device {
                Some(d) => CdInitPlan::ReuseDevice(d),
                None => CdInitPlan::OpenDevice,
            }
        }),
{
    if tries_player(source) {
        if player_ready {
            return CdInitPlan::UsePlayer;
        }
        if source == CdSource::Files {
            return CdInitPlan::Fail;
        }
    }
    match cached_device {
        Some(d) => CdInitPlan::ReuseDevice(d),
        None => CdInitPlan::OpenDevice,
    }
}

/// The result code of opening the CD device: 0 where both the open and the
/// switch to TMSF time succeeded (MCI answers 0 for success), 1 otherwise.
pub fn open_device_result(open_error: u32, set_format_error: u32) -> (code: u32)
    ensures
        code == (if open_error == 0 && set_format_error == 0 {
            0u32
        } else {
            1
        }),
{
    if open_error != 0 {
        1
    } else if set_format_error != 0 {
        1
    } else {
        0
    }
}

/// The status that an MCI mode stands for.
pub fn status_from_mci_mode(mode: u32) -> (s: AudioCdStatus)
    ensures
        s == (if mode == MCI_MODE_OPEN || mode == MCI_MODE_STOP {
            AudioCdStatus::Stopped
        } else if mode == MCI_MODE_PLAY {
            AudioCdStatus::Playing
        } else if mode == MCI_MODE_PAUSE {
            AudioCdStatus::Paused
        } else {
            AudioCdStatus::Error
        }),
{
    if mode == MCI_MODE_OPEN || mode == MCI_MODE_STOP {
        AudioCdStatus::Stopped
    } else if mode == MCI_MODE_PLAY {
        AudioCdStatus::Playing
    } else if mode == MCI_MODE_PAUSE {
        AudioCdStatus::Paused
    } else {
        AudioCdStatus::Error
    }
}

/// How the status of the music is found.
#[derive(Clone, Copy, Debug, PartialEq, Eq, Structural)]
pub enum StatusQuery {
    /// It is known without asking the device.
    Known(AudioCdStatus),
    /// The CD device must be asked for its mode.
    AskDevice,
}

/// How the status is found: from the player of files where there is one; an
/// uninitialized CD is in error; otherwise the device is asked.
pub fn get_cd_status(player_status: Option<AudioCdStatus>, initialized: bool) -> (q: StatusQuery)
    ensures
        q == (match player_status {
            Some(s) => StatusQuery::Known(s),
            None => if initialized {
                StatusQuery::AskDevice
            } else {
                StatusQuery::Known(AudioCdStatus::Error)
            },
        }),
{
    match player_status {
        Some(s) => StatusQuery::Known(s),
        None => if initialized {
            StatusQuery::AskDevice
        } else {
            StatusQuery::Known(AudioCdStatus::Error)
        },
    }
}

/// The status from the device's answer: its mode, or the MCI error that
/// it gave. An error also closes the music (`true` in the second place).
pub fn status_from_device(answer: Result<u32, u32>) -> (r: (AudioCdStatus, bool))
    ensures
        r == (match answer {
            Ok(mode) => (
                if mode == MCI_MODE_OPEN || mode == MCI_MODE_STOP {
                    AudioCdStatus::Stopped
                } else if mode == MCI_MODE_PLAY {
                    AudioCdStatus::Playing
                } else if mode == MCI_MODE_PAUSE {
                    AudioCdStatus::Paused
                } else {
                    AudioCdStatus::Error
                },
                false,
            ),
            Err(_) => (AudioCdStatus::Error, true),
        }),
{
    match answer {
        Ok(mode) => (status_from_mci_mode(mode), false),
        Err(_) => (AudioCdStatus::Error, true),
    }
}

/// What starting the music does once the device is initialized and its status
/// read.
#[derive(Clone, Copy, Debug, PartialEq, Eq, Structural)]
pub struct StartPlan {
    /// Whether the music stays marked initialized.
    pub initialized: bool,
    /// Whether the track table is read.
    pub read_tracks: bool,
    /// Whether the current position is saved as the paused position.
    pub save_paused_position: bool,
}

/// The steps of starting the music for a status: an open tray uninitializes
/// it; a stopped, playing or paused CD has its tracks read, and a paused one
/// its position saved as well.
pub fn start_cd_audio(status: AudioCdStatus) -> (plan: StartPlan)
    ensures
        plan.initialized == (status != AudioCdStatus::Open),
        plan.read_tracks == (status == AudioCdStatus::Stopped || status == AudioCdStatus::Playing
            || status == AudioCdStatus::Paused),
        plan.save_paused_position == (status == AudioCdStatus::Paused),
{
    match status {
        AudioCdStatus::Open => StartPlan {
            initialized: false,
            read_tracks: false,
            save_paused_position: false,
        },
        AudioCdStatus::Stopped | AudioCdStatus::Playing => StartPlan {
            initialized: true,
            read_tracks: true,
            save_paused_position: false,
        },
        AudioCdStatus::Paused => StartPlan {
            initialized: true,
            read_tracks: true,
            save_paused_position: true,
        },
        AudioCdStatus::Error | AudioCdStatus::Unknown => StartPlan {
            initialized: true,
            read_tracks: false,
            save_paused_position: false,
        },
    }
}

/// The result code of starting the music: 0 where initializing failed, 1
/// otherwise.
pub fn start_result(init_code: u32) -> (code: i32)
    ensures
        code == (if init_code == 0 {
            1i32
        } else {
            0
        }),
{
    if init_code != 0 {
        0
    } else {
        1
    }
}

/// How the game's current position is updated.
#[derive(Clone, Copy, Debug, PartialEq, Eq, Structural)]
pub enum PositionUpdate {
    /// Left as it is.
    Keep,
    /// Set to the given position.
    MoveTo(CdAudioPosition),
    /// Read from the device or the player.
    ReadDevice,
}

/// The update of the position for a status: nothing while uninitialized or
/// in error, the start when stopped or open, the device's position while
/// playing, and the saved position while paused.
pub fn update_cd_audio_position(initialized: bool, status: AudioCdStatus, paused: CdAudioPosition) -> (u:
    PositionUpdate)
    ensures
        u == (if !initialized {
            PositionUpdate::Keep
        } else {
            match status {
                AudioCdStatus::Open | AudioCdStatus::Stopped => PositionUpdate::MoveTo(
                    CdAudioPosition { track: 0, minute: 0, second: 0, frame: 0 },
                ),
                AudioCdStatus::Playing => PositionUpdate::ReadDevice,
                AudioCdStatus::Paused => PositionUpdate::MoveTo(paused),
                _ => PositionUpdate::Keep,
            }
        }),
{
    if !initialized {
        return PositionUpdate::Keep;
    }
    match status {
        AudioCdStatus::Open | AudioCdStatus::Stopped => PositionUpdate::MoveTo(CdAudioPosition::start()),
        AudioCdStatus::Playing => PositionUpdate::ReadDevice,
        AudioCdStatus::Paused => PositionUpdate::MoveTo(paused),
        _ => PositionUpdate::Keep,
    }
}

/// What pausing or unpausing the music does.
#[derive(Clone, Copy, Debug, PartialEq, Eq, Structural)]
pub enum ToggleAction {
    Nothing,
    /// Play from this packed position to the end.
    PlayFrom(u32),
    /// Save the current position as the paused one, then pause.
    SaveAndPause,
    Resume,
}

/// The action of the pause key for a status. A stopped CD plays again from
/// the position saved when it was paused, not from the first track.
pub fn cd_audio_toggle_paused(initialized: bool, status: AudioCdStatus, paused: CdAudioPosition) -> (a:
    ToggleAction)
    requires
        packed_tmsf(paused) <= u32::MAX,
    ensures
        a == (if !initialized {
            ToggleAction::Nothing
        } else {
            match status {
                AudioCdStatus::Stopped => ToggleAction::PlayFrom(packed_tmsf(paused) as u32),
                AudioCdStatus::Playing => ToggleAction::SaveAndPause,
                AudioCdStatus::Paused => ToggleAction::Resume,
                _ => ToggleAction::Nothing,
            }
        }),
{
    if !initialized {
        return ToggleAction::Nothing;
    }
    match status {
        AudioCdStatus::Stopped => ToggleAction::PlayFrom(paused.packed()),
        AudioCdStatus::Playing => ToggleAction::SaveAndPause,
        AudioCdStatus::Paused => ToggleAction::Resume,
        _ => ToggleAction::Nothing,
    }
}

/// The MCI play command for a range: the flags, and the end position where
/// there is one (an end of 0 plays to the end of the CD).
pub fn play_cd_audio(from: u32, to: u32) -> (cmd: (u32, u32, Option<u32>))
    ensures
        cmd == (if to != 0 {
            (MCI_FROM | MCI_TO, from, Some(to))
        } else {
            (MCI_FROM, from, None::<u32>)
        }),
{
    if to != 0 {
        (MCI_FROM | MCI_TO, from, Some(to))
    } else {
        (MCI_FROM, from, None)
    }
}

/// The track table that the player of files reports: the first track, the
/// number of tracks, and the packed start of each track from the first to
/// one past the last.
pub open spec fn player_track_table_spec(last_track: Option<u32>) -> (u32, u32, Seq<u32>) {
    let number: u32 = match last_track {
        Some(t) => t,
        None => 0,
    };
    (1u32, number, Seq::new((number + 1) as nat, |k: int| (k + 1) as u32))
}

/// The track table for the player of files, given the number of its last
/// track (none where it has no tracks).
pub fn get_cd_audio_tracks(last_track: Option<u32>) -> (table: (u32, u32, Vec<u32>))
    requires
        last_track matches Some(t) ==> t <= MAX_TRACK,
    ensures
        table.0 == player_track_table_spec(last_track).0,
        table.1 == player_track_table_spec(last_track).1,
        table.2@ == player_track_table_spec(last_track).2,
{
    let number: u32 = match last_track {
        Some(t) => t,
        None => 0,
    };
    let mut positions: Vec<u32> = Vec::new();
    let mut track: u32 = 1;
    while track <= number + 1
        invariant
            1 <= track <= number + 2,
            number <= MAX_TRACK,
            positions@.len() == track - 1,
            forall|k: int| 0 <= k < positions@.len() ==> positions@[k] == (k + 1) as u32,
        decreases number + 2 - track,
    {
        let p = CdAudioPosition::of_track(track).packed();
        positions.push(p);
        track = track + 1;
    }
    assert(positions@ =~= player_track_table_spec(last_track).2);
    (1, number, positions)
}

} // verus!
