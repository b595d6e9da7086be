//! The shell's debug menu: jumps to other screens, the campaign, and an
//! override of the mission's outcome for the debrief.

use crate::shell::screens::{Campaign, ShellMsg, campaign_of, clan_index, current_scenario, CAMPAIGN_LENGTH};
use vstd::prelude::*;

verus! {

/// The window message that asks the shell to jump to another screen
/// (`WM_APP + 0x100`), with the target in its parameter.
pub const JUMP_TO_SCREEN: u32 = 0x8100;

/// The outcome that the debrief reads: the override where one is chosen (not
/// zero), else what the mission results file gave.
pub fn read_mission_results(outcome: i32, outcome_override: i32) -> (r: i32)
    ensures
        r == (if outcome_override != 0 {
            outcome_override
        } else {
            outcome
        }),
{
    if outcome_override != 0 {
        outcome_override
    } else {
        outcome
    }
}

/// A screen that the debug menu can jump to.
#[derive(Clone, Copy, Debug, PartialEq, Eq, Structural)]
pub enum JumpTarget {
    MainMenu,
    PilotRoster,
    Mechbay,
    MissionDebrief,
}

impl JumpTarget {
    /// The shell message of the screen.
    pub fn message(self) -> (m: ShellMsg)
        ensures
            m == ShellMsg(
                match self {
                    JumpTarget::MainMenu => ShellMsg::MAIN_MENU,
                    JumpTarget::PilotRoster => ShellMsg::PILOT_ROSTER,
                    JumpTarget::Mechbay => ShellMsg::MECHBAY,
                    JumpTarget::MissionDebrief => ShellMsg::MISSION_DEBRIEF,
                },
            ),
    {
        match self {
            JumpTarget::MainMenu => ShellMsg(ShellMsg::MAIN_MENU),
            JumpTarget::PilotRoster => ShellMsg(ShellMsg::PILOT_ROSTER),
            JumpTarget::Mechbay => ShellMsg(ShellMsg::MECHBAY),
            JumpTarget::MissionDebrief => ShellMsg(ShellMsg::MISSION_DEBRIEF),
        }
    }

    /// Whether the menu offers the jump: the mechbay and the debrief need a
    /// pilot.
    pub fn enabled(self, has_pilot: bool) -> (b: bool)
        ensures
            b == (match self {
                JumpTarget::Mechbay | JumpTarget::MissionDebrief => has_pilot,
                _ => true,
            }),
    {
        match self {
            JumpTarget::Mechbay | JumpTarget::MissionDebrief => has_pilot,
            _ => true,
        }
    }
}

/// How a jump to the screen of message `msg` is made.
#[derive(Clone, Copy, Debug)]
pub enum JumpPlan {
    /// No screen is running: post the message to the shell's window.
    Post(u32),
    /// Call the running screen with the message, having set the scenario to
    /// (campaign table, row) where given.
    Call(Option<(usize, usize)>),
}

/// How the shell jumps: with no screen running, the message is posted;
/// otherwise the running screen gets it, and a jump to the debrief in a clan
/// campaign first sets the scenario to the pilot's mission.
pub fn jump(screen_running: bool, msg: u32, campaign_raw: i32, pilot_mission: Option<i32>) -> (plan: JumpPlan)
    ensures
        !screen_running ==> plan == JumpPlan::Post(msg),
        screen_running ==> plan == JumpPlan::Call(
            if msg == ShellMsg::MISSION_DEBRIEF {
                match campaign_of(campaign_raw) {
                    Some(c) => match (clan_index(c), pilot_mission) {
                        (Some(clan), Some(m)) => Some(
                            (
                                clan,
                                (if m < 0 {
                                    0int
                                } else if m > CAMPAIGN_LENGTH - 1 {
                                    CAMPAIGN_LENGTH - 1
                                } else {
                                    m as int
                                }) as usize,
                            ),
                        ),
                        _ => None,
                    },
                    None => None,
                }
            } else {
                None
            },
        ),
{
    if !screen_running {
        return JumpPlan::Post(msg);
    }
    if msg == ShellMsg::MISSION_DEBRIEF {
        match Campaign::from_raw(campaign_raw) {
            Some(c) => JumpPlan::Call(current_scenario(c, pilot_mission)),
            None => JumpPlan::Call(None),
        }
    } else {
        JumpPlan::Call(None)
    }
}

} // verus!
