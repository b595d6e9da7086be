//! The pilot roster: creating, selecting and terminating pilots, and replaying
//! the missions a pilot has flown.

use vstd::prelude::*;

use super::confirm::{answer, answer_of, close, lines_model, open, opened, Buttons, PromptSlot};
use super::screens::{clan_index, Campaign, ShellMsg};

verus! {

pub const BTN_MAIN_MENU: i32 = 0;
/// Buttons `1..=SLOT_COUNT` are the roster's rows.
pub const SLOT_COUNT: i32 = 10;
pub const BTN_CLAN_HALL: i32 = 0xb;
pub const BTN_TERMINATE: i32 = 0xc;
pub const BTN_SELECT_MISSION: i32 = 0xd;
pub const BTN_BACK: i32 = 0xe;

/// Where a row's callsign sits.
pub const CALLSIGN_X: i32 = 42;
pub const FIRST_ROW_Y: i32 = 92;
pub const ROW_HEIGHT: i32 = 35;
pub const CALLSIGN_MAX_CHARS: i32 = 14;
pub const CALLSIGN_MAX_WIDTH: i32 = 300;

/// The roster's own state: whether the terminate prompt is open.
pub struct Roster {
    pub confirm_pending: bool,
}

/// What a click on the roster does.
#[derive(Debug, Clone, Copy, PartialEq, Eq, Structural)]
pub enum RosterCommand {
    Nothing,
    /// Leave for the main menu, with no pilot selected.
    MainMenu,
    /// Name a new pilot in the empty row `slot` (counted from 0); if the mouse
    /// is still down afterwards, the button under it is handled in turn.
    CreatePilot { slot: usize },
    /// Select the pilot of row `slot`; a double click also chooses them and
    /// goes to the clan hall.
    SelectPilot { slot: usize, choose: bool },
    /// Choose the selected pilot and go to the clan hall.
    ClanHall,
    /// Ask whether to terminate the selected pilot.
    AskTerminate,
    /// Show the missions the pilot has flown in place of their stats.
    OpenMissionList,
    /// Back to the stats; `enable_select` re-enables the mission list's
    /// button for a pilot who has flown a mission.
    CloseMissionList { enable_select: bool },
}

/// What a click on button `hit` does: `slot_in_use` tells whether the
/// clicked row (if it is one) holds a pilot, `has_pilot` whether a pilot is
/// selected, and `pilot_mission` the selected pilot's mission.
pub open spec fn roster_command_for(
    hit: i32,
    slot_in_use: bool,
    double_clicked: bool,
    has_pilot: bool,
    pilot_mission: i32,
) -> RosterCommand {
    if hit == BTN_MAIN_MENU {
        RosterCommand::MainMenu
    } else if 1 <= hit <= SLOT_COUNT {
        if !slot_in_use {
            RosterCommand::CreatePilot { slot: (hit - 1) as usize }
        } else {
            RosterCommand::SelectPilot { slot: (hit - 1) as usize, choose: double_clicked }
        }
    } else if hit == BTN_CLAN_HALL {
        if has_pilot {
            RosterCommand::ClanHall
        } else {
            RosterCommand::Nothing
        }
    } else if hit == BTN_TERMINATE {
        if has_pilot {
            RosterCommand::AskTerminate
        } else {
            RosterCommand::Nothing
        }
    } else if hit == BTN_SELECT_MISSION {
        RosterCommand::OpenMissionList
    } else if hit == BTN_BACK {
        RosterCommand::CloseMissionList { enable_select: has_pilot && pilot_mission != 0 }
    } else {
        RosterCommand::Nothing
    }
}

/// Decides what a click on button `hit` does (see `roster_command_for`).
pub fn roster_command(
    hit: i32,
    slot_in_use: bool,
    double_clicked: bool,
    has_pilot: bool,
    pilot_mission: i32,
) -> (c: RosterCommand)
    ensures
        c == roster_command_for(hit, slot_in_use, double_clicked, has_pilot, pilot_mission),
{
    if hit == BTN_MAIN_MENU {
        RosterCommand::MainMenu
    } else if 1 <= hit && hit <= SLOT_COUNT {
        if !slot_in_use {
            RosterCommand::CreatePilot { slot: (hit - 1) as usize }
        } else {
            RosterCommand::SelectPilot { slot: (hit - 1) as usize, choose: double_clicked }
        }
    } else if hit == BTN_CLAN_HALL {
        if has_pilot {
            RosterCommand::ClanHall
        } else {
            RosterCommand::Nothing
        }
    } else if hit == BTN_TERMINATE {
        if has_pilot {
            RosterCommand::AskTerminate
        } else {
            RosterCommand::Nothing
        }
    } else if hit == BTN_SELECT_MISSION {
        RosterCommand::OpenMissionList
    } else if hit == BTN_BACK {
        RosterCommand::CloseMissionList { enable_select: has_pilot && pilot_mission != 0 }
    } else {
        RosterCommand::Nothing
    }
}

/// The mouse as the roster reads it on a frame.
#[derive(Debug, Clone, Copy, PartialEq, Eq, Structural)]
pub struct RosterMouse {
    /// The button under the pointer.
    pub hit: i32,
    /// 1 on the frame the left button went down.
    pub left_pressed: i32,
    pub double_clicked: bool,
}

/// Whether the mouse state is there and the left button went down.
pub open spec fn roster_clicked(mouse: Option<RosterMouse>) -> bool {
    mouse matches Some(m) && m.left_pressed == 1
}

/// What a frame of the roster does.
#[derive(Debug, Clone, Copy, PartialEq, Eq, Structural)]
pub enum RosterStep {
    /// Nothing: the prompt is unanswered, or there was no click.
    Idle,
    /// The terminate prompt was answered and closed; `terminate` says
    /// whether the selected pilot goes.
    Answered { terminate: bool },
    /// A click, and what it does (the message it leaves with is
    /// `roster_exit`'s).
    Clicked(RosterCommand),
}

/// The message the roster leaves with after a click: the main menu, the clan
/// hall for a chosen pilot, or else the replay of a mission (`launch`).
pub fn roster_exit(command: RosterCommand, launch: Option<ShellMsg>) -> (r: Option<ShellMsg>)
    ensures
        r == match command {
            RosterCommand::MainMenu => Some(ShellMsg(ShellMsg::MAIN_MENU)),
            RosterCommand::SelectPilot { choose: true, .. } => Some(ShellMsg(ShellMsg::CLAN_HALL)),
            RosterCommand::ClanHall => Some(ShellMsg(ShellMsg::CLAN_HALL)),
            _ => launch,
        },
{
    match command {
        RosterCommand::MainMenu => Some(ShellMsg(ShellMsg::MAIN_MENU)),
        RosterCommand::SelectPilot { choose: true, .. } => Some(ShellMsg(ShellMsg::CLAN_HALL)),
        RosterCommand::ClanHall => Some(ShellMsg(ShellMsg::CLAN_HALL)),
        _ => launch,
    }
}

/// The mission a click on the open mission list replays, as (campaign table,
/// row): only in a clan campaign, for a selected pilot, on a row of a mission
/// the pilot has already flown.
pub fn mission_to_replay(
    list_open: bool,
    campaign: Option<Campaign>,
    pilot_mission: Option<i32>,
    row: Option<i32>,
) -> (r: Option<(usize, usize)>)
    requires
        row matches Some(i) ==> i >= 0,
    ensures
        r == (if list_open && campaign is Some && clan_index(campaign.unwrap()) is Some
            && pilot_mission is Some && row is Some && row.unwrap() < pilot_mission.unwrap() {
            Some((clan_index(campaign.unwrap()).unwrap(), row.unwrap() as usize))
        } else {
            None
        }),
{
    if !list_open {
        return None;
    }
    let clan = match campaign {
        Some(Campaign::Wolf) => 0usize,
        Some(Campaign::JadeFalcon) => 1usize,
        _ => {
            return None;
        },
    };
    let mission = pilot_mission?;
    let row = row?;
    if row >= mission {
        return None;
    }
    Some((clan, row as usize))
}

/// The height at which the callsign of the pilot created in row `button`
/// is typed.
pub fn callsign_row_y(button: i32) -> (y: i32)
    requires
        1 <= button <= SLOT_COUNT,
    ensures
        y == (button - 1) * ROW_HEIGHT + FIRST_ROW_Y,
{
    (button - 1) * ROW_HEIGHT + FIRST_ROW_Y
}

/// Which of the roster's buttons that need a pilot are enabled.
#[derive(Debug, Clone, Copy, PartialEq, Eq, Structural)]
pub struct PilotButtons {
    pub clan_hall: bool,
    pub terminate: bool,
    pub select_mission: bool,
    pub back: bool,
}

/// The buttons once a pilot is selected: the clan hall and terminate, the
/// mission list only for a pilot who has finished a mission, and not back
/// (the stats show, not the list).
pub fn buttons_for_selected(pilot_mission: i32) -> (b: PilotButtons)
    ensures
        b == (PilotButtons { clan_hall: true, terminate: true, select_mission: pilot_mission != 0, back: false }),
{
    PilotButtons { clan_hall: true, terminate: true, select_mission: pilot_mission != 0, back: false }
}

/// The buttons with no pilot selected (while a new pilot is named, and after
/// one is terminated): all disabled.
pub fn buttons_without_pilot() -> (b: PilotButtons)
    ensures
        b == (PilotButtons { clan_hall: false, terminate: false, select_mission: false, back: false }),
{
    PilotButtons { clan_hall: false, terminate: false, select_mission: false, back: false }
}

/// The fields of a pilot record that the roster writes.
#[derive(Debug, Clone, Copy)]
pub struct PilotRecord {
    /// 1 once the slot holds a pilot.
    pub in_use: i32,
    pub mission: i32,
    /// Capped at 8.
    pub rank: i32,
    pub honor: i32,
    pub unknown: [i32; 4],
}

/// Whether a typed callsign names a pilot: an empty one leaves the slot as
/// it was.
pub fn names_pilot(callsign: &[u8]) -> (b: bool)
    ensures
        b == (callsign@.len() > 0 && callsign@[0] != 0),
{
    callsign.len() > 0 && callsign[0] != 0
}

/// A new pilot's record: in use, at the first mission, unranked, with the
/// honor that was drawn for them.
pub fn new_pilot(record: &mut PilotRecord, honor: i32)
    ensures
        final(record).in_use == 1,
        final(record).mission == 0,
        final(record).rank == 0,
        final(record).honor == honor,
        final(record).unknown@ == seq![0i32, 0, 0, 0],
{
    record.in_use = 1;
    record.mission = 0;
    record.rank = 0;
    record.honor = honor;
    record.unknown = [0, 0, 0, 0];
    assert(record.unknown@ =~= seq![0i32, 0, 0, 0]);
}

/// The terminate prompt.
pub open spec fn terminate_lines() -> Seq<Seq<char>> {
    seq!["Terminate MechWarrior?"@]
}

impl Roster {
    pub fn new() -> (r: Roster)
        ensures
            !r.confirm_pending,
    {
        Roster { confirm_pending: false }
    }

    /// Asks whether to terminate the selected pilot.
    pub fn ask_terminate(&mut self, prompts: &mut PromptSlot)
        ensures
            final(prompts)@ == opened(terminate_lines(), Buttons::YesNo),
            final(self).confirm_pending,
    {
        let lines: [&str; 1] = ["Terminate MechWarrior?"];
        open(prompts, &lines);
        assert(lines_model(&lines) =~= terminate_lines());
        self.confirm_pending = true;
    }

    /// While the terminate prompt is open: `None` until it is answered; then
    /// it closes, and the answer says whether the pilot is terminated.
    pub fn tick_prompt(&mut self, prompts: &mut PromptSlot) -> (terminate: Option<bool>)
        requires
            old(self).confirm_pending,
        ensures
            terminate == answer_of(old(prompts)@),
            terminate is None ==> final(prompts)@ == old(prompts)@ && final(self).confirm_pending,
            terminate is Some ==> final(prompts)@ is None && !final(self).confirm_pending,
    {
        let terminate = answer(prompts)?;
        close(prompts);
        self.confirm_pending = false;
        Some(terminate)
    }

    /// One frame of the roster. While the terminate prompt is open it takes
    /// the frame and the mouse is not looked at. Otherwise nothing happens
    /// unless the mouse state is there and the left button went down this
    /// frame (`left_pressed == 1`); then the click on the button under the
    /// pointer is decided, and a click on terminate with a pilot selected
    /// opens its prompt. `slot_in_use`, `has_pilot` and `pilot_mission` are
    /// as `roster_command_for` takes them.
    pub fn tick(
        &mut self,
        prompts: &mut PromptSlot,
        mouse: Option<RosterMouse>,
        slot_in_use: bool,
        has_pilot: bool,
        pilot_mission: i32,
    ) -> (step: RosterStep)
        ensures
            old(self).confirm_pending ==> match answer_of(old(prompts)@) {
                None => step == RosterStep::Idle && final(prompts)@ == old(prompts)@
                    && final(self).confirm_pending,
                Some(t) => step == (RosterStep::Answered { terminate: t }) && final(prompts)@ is None
                    && !final(self).confirm_pending,
            },
            !old(self).confirm_pending && !roster_clicked(mouse) ==> step == RosterStep::Idle
                && final(prompts)@ == old(prompts)@ && !final(self).confirm_pending,
            !old(self).confirm_pending && roster_clicked(mouse) ==> ({
                let m = mouse.unwrap();
                let c = roster_command_for(m.hit, slot_in_use, m.double_clicked, has_pilot, pilot_mission);
                &&& step == RosterStep::Clicked(c)
                &&& c == RosterCommand::AskTerminate ==> final(prompts)@ == opened(
                    terminate_lines(),
                    Buttons::YesNo,
                ) && final(self).confirm_pending
                &&& c != RosterCommand::AskTerminate ==> final(prompts)@ == old(prompts)@
                    && !final(self).confirm_pending
            }),
    {
        if self.confirm_pending {
            return match self.tick_prompt(prompts) {
                None => RosterStep::Idle,
                Some(terminate) => RosterStep::Answered { terminate },
            };
        }
        let m = match mouse {
            Some(m) => m,
            None => {
                return RosterStep::Idle;
            },
        };
        if m.left_pressed != 1 {
            return RosterStep::Idle;
        }
        let c = roster_command(m.hit, slot_in_use, m.double_clicked, has_pilot, pilot_mission);
        if c == RosterCommand::AskTerminate {
            self.ask_terminate(prompts);
        }
        RosterStep::Clicked(c)
    }

    /// On leaving the screen, an open prompt is closed.
    pub fn teardown(&mut self, prompts: &mut PromptSlot)
        ensures
            old(self).confirm_pending ==> final(prompts)@ is None,
            !old(self).confirm_pending ==> final(prompts)@ == old(prompts)@,
    {
        if self.confirm_pending {
            close(prompts);
        }
    }
}

} // verus!
