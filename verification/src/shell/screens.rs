//! What the shell's screens decide each frame: which message ends a screen,
//! and the choices of the main menu and the mission debrief.

use vstd::prelude::*;

use super::confirm::{answer, answer_of, close, opened, open, lines_model, Buttons, PromptSlot};

verus! {

/// A window message the shell's screens exchange.
#[derive(Debug, Clone, Copy, PartialEq, Eq, Structural)]
pub struct ShellMsg(pub u32);

/// The shell messages, by the value they carry.
impl ShellMsg {
    pub const HELP_EXIT: u32 = 0x401;
    pub const EXIT_TO_DESKTOP: u32 = 0x402;
    pub const TICK: u32 = 0x404;
    pub const MISSION_BRIEFING: u32 = 0x406;
    pub const CLAN_HALL: u32 = 0x407;
    pub const MISSION_DEBRIEF: u32 = 0x409;
    pub const ARCHIVES: u32 = 0x40b;
    pub const TRIAL_SETUP: u32 = 0x40d;
    pub const MAIN_MENU: u32 = 0x40e;
    pub const MECHBAY: u32 = 0x40f;
    pub const LAUNCH: u32 = 0x410;
    pub const MISSION_SELECT: u32 = 0x411;
    pub const PILOT_ROSTER: u32 = 0x412;
    pub const MECH_CONFIG: u32 = 0x413;
    pub const TRAINING: u32 = 0x414;
    pub const LANDING: u32 = 0x415;
    pub const FINALE: u32 = 0x416;
    pub const SHUTDOWN: u32 = 0x41e;
    pub const INITIAL_KICK: u32 = 0x420;
}


/// The three games the shell can run.
#[derive(Debug, Clone, Copy, PartialEq, Eq, Structural)]
pub enum Campaign {
    Wolf,
    JadeFalcon,
    /// Not to be confused with the trial missions inside each clan's campaign
    TrialsOfGrievance,
}

/// The value the game stores for a campaign.
pub open spec fn campaign_raw(c: Campaign) -> i32 {
    match c {
        Campaign::Wolf => 0,
        Campaign::JadeFalcon => 1,
        Campaign::TrialsOfGrievance => 2,
    }
}

/// The campaign that the game's value stands for, if any.
pub open spec fn campaign_of(raw: i32) -> Option<Campaign> {
    if raw == 0 {
        Some(Campaign::Wolf)
    } else if raw == 1 {
        Some(Campaign::JadeFalcon)
    } else if raw == 2 {
        Some(Campaign::TrialsOfGrievance)
    } else {
        None
    }
}

impl Campaign {
    /// The campaign the game's value stands for, if any.
    pub fn from_raw(raw: i32) -> (c: Option<Campaign>)
        ensures
            c == campaign_of(raw),
            match c {
                Some(c) => campaign_raw(c) == raw,
                None => raw < 0 || raw > 2,
            },
    {
        match raw {
            0 => Some(Campaign::Wolf),
            1 => Some(Campaign::JadeFalcon),
            2 => Some(Campaign::TrialsOfGrievance),
            _ => None,
        }
    }

    /// The value the game stores for this campaign.
    pub fn to_raw(self) -> (raw: i32)
        ensures
            raw == campaign_raw(self),
    {
        match self {
            Campaign::Wolf => 0,
            Campaign::JadeFalcon => 1,
            Campaign::TrialsOfGrievance => 2,
        }
    }
}

/// A campaign stored and read back is the same campaign.
pub proof fn lemma_campaign_raw_roundtrip(c: Campaign)
    ensures
        0 <= campaign_raw(c) <= 2,
        forall|d: Campaign| campaign_raw(d) == campaign_raw(c) ==> d == c,
{
}

/// The message a screen leaves with after a message `msg`, where `ticked` is
/// what its tick returned (a screen only ticks on `TICK`): a tick that names a
/// message replaces it, and any message but `TICK` ends the screen.
pub open spec fn exit_message(msg: ShellMsg, ticked: Option<ShellMsg>) -> Option<ShellMsg> {
    let m = if msg.0 == ShellMsg::TICK && ticked is Some {
        ticked.unwrap()
    } else {
        msg
    };
    if m.0 != ShellMsg::TICK {
        Some(m)
    } else {
        None
    }
}

/// Decides whether a screen ends after handling `msg`, and with which
/// message: when it does, it is torn down and that message is posted, with the
/// screen's own id alongside.
pub fn screen_exit(msg: ShellMsg, ticked: Option<ShellMsg>) -> (r: Option<ShellMsg>)
    ensures
        r == exit_message(msg, ticked),
{
    let m = if msg.0 == ShellMsg::TICK && ticked.is_some() {
        ticked.unwrap()
    } else {
        msg
    };
    if m.0 != ShellMsg::TICK {
        Some(m)
    } else {
        None
    }
}

/// A screen stays up on a tick that names nothing, and leaves on any other
/// message it is sent.
pub proof fn lemma_screen_stays_only_on_quiet_ticks(msg: ShellMsg, ticked: Option<ShellMsg>)
    ensures
        msg.0 == ShellMsg::TICK && ticked is None ==> exit_message(msg, ticked) is None,
        msg.0 != ShellMsg::TICK ==> exit_message(msg, ticked) == Some(msg),
{
}

/// The main menu: the clan or trial that a click on button `hit` picks, and
/// the screen it leads to.
pub fn main_menu_choice(hit: i32) -> (r: Option<(Campaign, ShellMsg)>)
    ensures
        r == (if hit == 0 {
            Some((Campaign::TrialsOfGrievance, ShellMsg(ShellMsg::TRIAL_SETUP)))
        } else if hit == 1 {
            Some((Campaign::Wolf, ShellMsg(ShellMsg::LANDING)))
        } else if hit == 2 {
            Some((Campaign::JadeFalcon, ShellMsg(ShellMsg::LANDING)))
        } else {
            None
        }),
{
    match hit {
        0 => Some((Campaign::TrialsOfGrievance, ShellMsg(ShellMsg::TRIAL_SETUP))),
        1 => Some((Campaign::Wolf, ShellMsg(ShellMsg::LANDING))),
        2 => Some((Campaign::JadeFalcon, ShellMsg(ShellMsg::LANDING))),
        _ => None,
    }
}

/// The fade steps of the main menu's fire loop, one every 50 microseconds:
/// how many are due after `elapsed_nanos` with `done` already run, and the new
/// count of steps run.
pub fn fade_steps(elapsed_nanos: u128, done: u128) -> (r: (u128, u128))
    ensures
        r.1 == elapsed_nanos / 50_000,
        r.0 == (if r.1 > done {
            r.1 - done
        } else {
            0
        }),
{
    let due = elapsed_nanos / 50_000;
    let steps = if due > done {
        due - done
    } else {
        0
    };
    (steps, due)
}

/// The database item of the main menu's fire loop.
pub const AMBIENT_FIRE_DB_ITEM: i32 = 74;

/// The fade of the fire loop: one step every 500 fade calls, at most 1000
/// steps, from silence to volume 30.
pub const AMBIENT_FADE_RATE: i32 = 500;

pub const AMBIENT_FADE_STEPS: i32 = 1000;

pub const AMBIENT_FADE_START: i32 = 0;

pub const AMBIENT_FADE_END: i32 = 30;

/// What the main menu does about its ambient sound on a tick.
#[derive(Debug, Clone, Copy, PartialEq, Eq, Structural)]
pub enum AmbientStep {
    /// The fire loop runs: fade it by the steps that are due.
    Fade,
    /// The "MechWarrior: Choose Your Clan" voice still plays: wait.
    Wait,
    /// Load the fire loop (database item 74), loop it, start it, and fade it
    /// in from silence.
    Start,
}

/// The main menu's ambient sound on a tick: once started, the fire loop
/// fades in; before, it starts as soon as the voice is over (the game's
/// "is playing" answer has its low byte clear).
pub fn ambient_step(started: bool, voice_playing: u32) -> (step: AmbientStep)
    ensures
        step == (if started {
            AmbientStep::Fade
        } else if voice_playing & 0xff != 0 {
            AmbientStep::Wait
        } else {
            AmbientStep::Start
        }),
{
    if started {
        AmbientStep::Fade
    } else if voice_playing & 0xff != 0 {
        AmbientStep::Wait
    } else {
        AmbientStep::Start
    }
}

/// Missions in each clan's campaign.
pub const CAMPAIGN_LENGTH: i32 = 16;

/// The outcome the sim reports for a mission won, and one lost.
pub const OUTCOME_SUCCESS: i32 = 2;

pub const OUTCOME_FAILED: i32 = 3;

/// The index into the campaign tables of a clan campaign; the trials have
/// none.
pub open spec fn clan_index(c: Campaign) -> Option<usize> {
    match c {
        Campaign::Wolf => Some(0usize),
        Campaign::JadeFalcon => Some(1usize),
        Campaign::TrialsOfGrievance => None,
    }
}

fn clan_of(c: Campaign) -> (r: Option<usize>)
    ensures
        r == clan_index(c),
{
    match c {
        Campaign::Wolf => Some(0),
        Campaign::JadeFalcon => Some(1),
        Campaign::TrialsOfGrievance => None,
    }
}

/// The mission a pilot is on, as (campaign table, row) for the debug menu's
/// jump to the debrief: the pilot's mission kept within the campaign. The
/// trials have no campaign; no pilot, no mission.
pub fn current_scenario(campaign: Campaign, pilot_mission: Option<i32>) -> (r: Option<(usize, usize)>)
    ensures
        r == match (clan_index(campaign), pilot_mission) {
            (Some(clan), Some(m)) => Some(
                (
                    clan,
                    (if m < 0 {
                        0int
                    } else if m > CAMPAIGN_LENGTH - 1 {
                        CAMPAIGN_LENGTH - 1
                    } else {
                        m as int
                    }) as usize,
                ),
            ),
            _ => None,
        },
{
    let clan = clan_of(campaign)?;
    let m = pilot_mission?;
    let row = if m < 0 {
        0
    } else if m > CAMPAIGN_LENGTH - 1 {
        CAMPAIGN_LENGTH - 1
    } else {
        m
    };
    Some((clan, row as usize))
}

/// After the debrief's EXIT: back to mission select, where a won clan
/// mission also sets the scenario to the pilot's next mission (as (campaign
/// table, row)), unless the campaign is over, which leads to the finale.
pub fn next_mission(campaign: Option<Campaign>, outcome: i32, mission: i32) -> (r: (
    ShellMsg,
    Option<(usize, usize)>,
))
    ensures
        r == (match campaign {
            Some(c) => match clan_index(c) {
                Some(clan) => if outcome != OUTCOME_SUCCESS {
                    (ShellMsg(ShellMsg::MISSION_SELECT), None)
                } else if mission >= CAMPAIGN_LENGTH {
                    (ShellMsg(ShellMsg::FINALE), None)
                } else {
                    (ShellMsg(ShellMsg::MISSION_SELECT), Some((clan, mission as usize)))
                },
                None => (ShellMsg(ShellMsg::MISSION_SELECT), None),
            },
            None => (ShellMsg(ShellMsg::MISSION_SELECT), None),
        }),
{
    let clan = match campaign {
        Some(c) => match clan_of(c) {
            Some(clan) => clan,
            None => {
                return (ShellMsg(ShellMsg::MISSION_SELECT), None);
            },
        },
        None => {
            return (ShellMsg(ShellMsg::MISSION_SELECT), None);
        },
    };
    if outcome != OUTCOME_SUCCESS {
        return (ShellMsg(ShellMsg::MISSION_SELECT), None);
    }
    if mission >= CAMPAIGN_LENGTH {
        return (ShellMsg(ShellMsg::FINALE), None);
    }
    (ShellMsg(ShellMsg::MISSION_SELECT), Some((clan, mission as usize)))
}

/// The message the aftermath viewer's tick returns while it stays open.
pub const VIEWER_STAY: i32 = 0x40b;

/// What the debrief does after a tick of the aftermath viewer.
#[derive(Debug, Clone, Copy, PartialEq, Eq, Structural)]
pub enum AftermathStep {
    /// The viewer stays open.
    Stay,
    /// The viewer closes and the shell leaves with this message.
    Leave(ShellMsg),
    /// The viewer closes and the debrief's buttons and page come back.
    Back,
}

/// Decides the aftermath step from what the viewer's tick returned.
pub fn tick_aftermath(next: i32) -> (r: AftermathStep)
    ensures
        r == (if next == VIEWER_STAY {
            AftermathStep::Stay
        } else if next as u32 == ShellMsg::EXIT_TO_DESKTOP || next as u32 == ShellMsg::MAIN_MENU {
            AftermathStep::Leave(ShellMsg(next as u32))
        } else {
            AftermathStep::Back
        }),
{
    if next == VIEWER_STAY {
        return AftermathStep::Stay;
    }
    let msg = ShellMsg(next as u32);
    if msg.0 == ShellMsg::EXIT_TO_DESKTOP || msg.0 == ShellMsg::MAIN_MENU {
        AftermathStep::Leave(msg)
    } else {
        AftermathStep::Back
    }
}

/// What a click on one of the debrief's buttons does.
#[derive(Debug, Clone, Copy, PartialEq, Eq, Structural)]
pub enum DebriefButton {
    /// EXIT: leave for the next mission (see `next_mission`).
    Exit,
    /// AFTERMATH: open the aftermath viewer.
    Aftermath,
    /// REPLAY: replay the mission.
    Replay,
    Nothing,
}

pub fn debrief_button(hit: i32) -> (r: DebriefButton)
    ensures
        r == (if hit == 0 {
            DebriefButton::Exit
        } else if hit == 1 {
            DebriefButton::Aftermath
        } else if hit == 2 {
            DebriefButton::Replay
        } else {
            DebriefButton::Nothing
        }),
{
    match hit {
        0 => DebriefButton::Exit,
        1 => DebriefButton::Aftermath,
        2 => DebriefButton::Replay,
        _ => DebriefButton::Nothing,
    }
}

/// The mission debrief's own state: whether the replay prompt is open.
pub struct Debrief {
    pub confirm_pending: bool,
}

/// The prompt the replay of a won mission asks.
pub open spec fn replay_lines() -> Seq<Seq<char>> {
    seq!["Are you Sure?"@]
}

impl Debrief {
    pub fn new() -> (d: Debrief)
        ensures
            !d.confirm_pending,
    {
        Debrief { confirm_pending: false }
    }

    /// A click on REPLAY: a mission that was not won is replayed at once (the
    /// briefing); replaying a won one undoes its success, so it asks first.
    pub fn replay(&mut self, prompts: &mut PromptSlot, outcome: i32) -> (r: Option<ShellMsg>)
        ensures
            outcome != OUTCOME_SUCCESS ==> r == Some(ShellMsg(ShellMsg::MISSION_BRIEFING))
                && final(prompts)@ == old(prompts)@ && final(self).confirm_pending
                == old(self).confirm_pending,
            outcome == OUTCOME_SUCCESS ==> r is None && final(prompts)@ == opened(
                replay_lines(),
                Buttons::YesNo,
            ) && final(self).confirm_pending,
    {
        if outcome != OUTCOME_SUCCESS {
            return Some(ShellMsg(ShellMsg::MISSION_BRIEFING));
        }
        let lines: [&str; 1] = ["Are you Sure?"];
        open(prompts, &lines);
        proof {
            assert(lines_model(&lines) =~= replay_lines());
        }
        self.confirm_pending = true;
        None
    }

    /// While the replay prompt is open: nothing until it is answered; then it
    /// closes, and a yes restores the pilot as it was before the mission and
    /// goes back to the briefing (`Some(MISSION_BRIEFING)`).
    pub fn tick_prompt(&mut self, prompts: &mut PromptSlot) -> (r: Option<ShellMsg>)
        requires
            old(self).confirm_pending,
        ensures
            answer_of(old(prompts)@) is None ==> r is None && final(prompts)@ == old(prompts)@
                && final(self).confirm_pending,
            answer_of(old(prompts)@) == Some(true) ==> r == Some(
                ShellMsg(ShellMsg::MISSION_BRIEFING),
            ) && final(prompts)@ is None && !final(self).confirm_pending,
            answer_of(old(prompts)@) == Some(false) ==> r is None && final(prompts)@ is None
                && !final(self).confirm_pending,
    {
        let replay = match answer(prompts) {
            Some(a) => a,
            None => {
                return None;
            },
        };
        close(prompts);
        self.confirm_pending = false;
        if !replay {
            return None;
        }
        Some(ShellMsg(ShellMsg::MISSION_BRIEFING))
    }

    /// On leaving the screen (the shell can tear it down under an open
    /// prompt), the replay prompt is closed.
    pub fn teardown(&mut self, prompts: &mut PromptSlot)
        ensures
            old(self).confirm_pending ==> final(prompts)@ is None,
            !old(self).confirm_pending ==> final(prompts)@ == old(prompts)@,
    {
        if self.confirm_pending {
            close(prompts);
        }
    }
}

} // verus!
