use remech::shell::confirm::{answer, is_open, record, Buttons, PromptSlot};
use remech::shell::debug::{jump, read_mission_results, JumpPlan, JumpTarget, JUMP_TO_SCREEN};
use remech::shell::mechbay::{
    browsing_buttons, customize_button, customizing_buttons, delete_enabled, free_user_slot,
    leaves_customize, mechbay_command, name_new_variant, BayMouse, BayStep, Mechbay, MechbayCommand,
    MechbayPrompt, PromptTick, BTN_ACCEPT_MECH, BTN_CUSTOMIZE, BTN_DELETE, BTN_EXIT_LAB, BTN_NEXT_CHASSIS,
    BTN_PREV_VARIANT,
};
use remech::shell::roster::{
    buttons_for_selected, buttons_without_pilot, callsign_row_y, mission_to_replay, names_pilot,
    new_pilot, roster_command, roster_exit, PilotRecord, Roster, RosterCommand, RosterMouse,
    RosterStep, BTN_MAIN_MENU, BTN_TERMINATE,
};
use remech::shell::screens::{
    ambient_step, current_scenario, debrief_button, fade_steps, main_menu_choice, next_mission,
    screen_exit, tick_aftermath, AftermathStep, AmbientStep, Campaign, Debrief, DebriefButton,
    ShellMsg, OUTCOME_FAILED, OUTCOME_SUCCESS,
};

#[test]
fn campaign_from_raw_values() {
    assert_eq!(Campaign::from_raw(0), Some(Campaign::Wolf));
    assert_eq!(Campaign::from_raw(1), Some(Campaign::JadeFalcon));
    assert_eq!(Campaign::from_raw(2), Some(Campaign::TrialsOfGrievance));
    assert_eq!(Campaign::from_raw(3), None);
    assert_eq!(Campaign::from_raw(-1), None);
    for c in [Campaign::Wolf, Campaign::JadeFalcon, Campaign::TrialsOfGrievance] {
        assert_eq!(Campaign::from_raw(c.to_raw()), Some(c));
    }
}

#[test]
fn screen_exit_on_tick_and_other_messages() {
    let tick = ShellMsg(ShellMsg::TICK);
    assert_eq!(screen_exit(tick, None), None);
    assert_eq!(
        screen_exit(tick, Some(ShellMsg(ShellMsg::MAIN_MENU))),
        Some(ShellMsg(ShellMsg::MAIN_MENU))
    );
    assert_eq!(
        screen_exit(ShellMsg(ShellMsg::SHUTDOWN), None),
        Some(ShellMsg(ShellMsg::SHUTDOWN))
    );
}

#[test]
fn main_menu_buttons() {
    assert_eq!(
        main_menu_choice(0),
        Some((Campaign::TrialsOfGrievance, ShellMsg(ShellMsg::TRIAL_SETUP)))
    );
    assert_eq!(main_menu_choice(1), Some((Campaign::Wolf, ShellMsg(ShellMsg::LANDING))));
    assert_eq!(main_menu_choice(2), Some((Campaign::JadeFalcon, ShellMsg(ShellMsg::LANDING))));
    assert_eq!(main_menu_choice(3), None);
}

#[test]
fn main_menu_fade_steps_every_fifty_microseconds() {
    assert_eq!(fade_steps(0, 0), (0, 0));
    assert_eq!(fade_steps(149_999, 0), (2, 2));
    assert_eq!(fade_steps(1_000_000, 15), (5, 20));
    assert_eq!(fade_steps(100_000, 5), (0, 2));
}

#[test]
fn main_menu_ambient_waits_for_voice() {
    assert_eq!(ambient_step(true, 1), AmbientStep::Fade);
    assert_eq!(ambient_step(false, 1), AmbientStep::Wait);
    assert_eq!(ambient_step(false, 0x100), AmbientStep::Start);
    assert_eq!(ambient_step(false, 0), AmbientStep::Start);
}

#[test]
fn debrief_scenario_and_next_mission() {
    assert_eq!(current_scenario(Campaign::Wolf, Some(3)), Some((0, 3)));
    assert_eq!(current_scenario(Campaign::JadeFalcon, Some(40)), Some((1, 15)));
    assert_eq!(current_scenario(Campaign::Wolf, Some(-2)), Some((0, 0)));
    assert_eq!(current_scenario(Campaign::TrialsOfGrievance, Some(3)), None);
    assert_eq!(current_scenario(Campaign::Wolf, None), None);
    assert_eq!(
        next_mission(Some(Campaign::Wolf), OUTCOME_SUCCESS, 4),
        (ShellMsg(ShellMsg::MISSION_SELECT), Some((0, 4)))
    );
    assert_eq!(
        next_mission(Some(Campaign::JadeFalcon), OUTCOME_SUCCESS, 16),
        (ShellMsg(ShellMsg::FINALE), None)
    );
    assert_eq!(
        next_mission(Some(Campaign::Wolf), OUTCOME_FAILED, 4),
        (ShellMsg(ShellMsg::MISSION_SELECT), None)
    );
    assert_eq!(
        next_mission(Some(Campaign::TrialsOfGrievance), OUTCOME_SUCCESS, 4),
        (ShellMsg(ShellMsg::MISSION_SELECT), None)
    );
}

#[test]
fn debrief_buttons_and_aftermath() {
    assert_eq!(debrief_button(0), DebriefButton::Exit);
    assert_eq!(debrief_button(1), DebriefButton::Aftermath);
    assert_eq!(debrief_button(2), DebriefButton::Replay);
    assert_eq!(debrief_button(5), DebriefButton::Nothing);
    assert_eq!(tick_aftermath(0x40b), AftermathStep::Stay);
    assert_eq!(tick_aftermath(0x402), AftermathStep::Leave(ShellMsg(ShellMsg::EXIT_TO_DESKTOP)));
    assert_eq!(tick_aftermath(0x40e), AftermathStep::Leave(ShellMsg(ShellMsg::MAIN_MENU)));
    assert_eq!(tick_aftermath(0x409), AftermathStep::Back);
}

#[test]
fn debrief_replay_of_won_mission_asks_first() {
    let mut prompts = PromptSlot::new();
    let mut debrief = Debrief::new();
    assert_eq!(
        debrief.replay(&mut prompts, OUTCOME_FAILED),
        Some(ShellMsg(ShellMsg::MISSION_BRIEFING))
    );
    assert!(!is_open(&prompts));
    assert_eq!(debrief.replay(&mut prompts, OUTCOME_SUCCESS), None);
    assert!(debrief.confirm_pending);
    assert_eq!(prompts.prompt.as_ref().unwrap().lines, vec!["Are you Sure?".to_string()]);
    assert_eq!(debrief.tick_prompt(&mut prompts), None);
    record(&mut prompts, Some(true));
    assert_eq!(debrief.tick_prompt(&mut prompts), Some(ShellMsg(ShellMsg::MISSION_BRIEFING)));
    assert!(!is_open(&prompts));
    assert!(!debrief.confirm_pending);
    assert_eq!(debrief.replay(&mut prompts, OUTCOME_SUCCESS), None);
    debrief.teardown(&mut prompts);
    assert!(!is_open(&prompts));
}

#[test]
fn mechbay_commands() {
    assert_eq!(
        mechbay_command(BTN_EXIT_LAB, true, false),
        MechbayCommand::Leave(ShellMsg(ShellMsg::MISSION_SELECT))
    );
    assert_eq!(mechbay_command(BTN_EXIT_LAB, false, true), MechbayCommand::Nothing);
    assert_eq!(
        mechbay_command(BTN_NEXT_CHASSIS, false, true),
        MechbayCommand::Chassis { next: true, resume: true, step: false }
    );
    assert_eq!(
        mechbay_command(BTN_PREV_VARIANT, true, true),
        MechbayCommand::Variant { next: false, resume: true, step: true }
    );
    assert_eq!(mechbay_command(BTN_CUSTOMIZE, true, false), MechbayCommand::Customize);
    assert_eq!(mechbay_command(BTN_CUSTOMIZE, false, true), MechbayCommand::Nothing);
    assert_eq!(mechbay_command(BTN_ACCEPT_MECH, true, false), MechbayCommand::Accept);
    assert_eq!(mechbay_command(BTN_DELETE, true, false), MechbayCommand::Delete);
    assert_eq!(mechbay_command(42, true, false), MechbayCommand::Nothing);
}

#[test]
fn mechbay_buttons_follow_mode() {
    assert!(leaves_customize(false, false));
    assert!(!leaves_customize(true, false));
    assert!(leaves_customize(true, true));
    assert_eq!(customize_button(15, false), Some(false));
    assert_eq!(customize_button(3, false), Some(true));
    assert_eq!(customize_button(3, true), None);
    assert!(!delete_enabled(99));
    assert!(delete_enabled(100));
    let c = customizing_buttons();
    assert!(!c.browse && c.save_abort && !c.delete);
    let b = browsing_buttons(120);
    assert!(b.browse && !b.save_abort && b.delete);
    assert!(!browsing_buttons(5).delete);
}

#[test]
fn mechbay_free_slot_and_new_name() {
    let mut firsts = vec![1u8; 200];
    assert_eq!(free_user_slot(&firsts), None);
    firsts[150] = 0;
    firsts[20] = 0;
    assert_eq!(free_user_slot(&firsts), Some(150));
    assert_eq!(name_new_variant(100), b"User Variant #1".to_vec());
    assert_eq!(name_new_variant(199), b"User Variant #100".to_vec());
    assert_eq!(name_new_variant(141), b"User Variant #42".to_vec());
}

#[test]
fn mechbay_keshik_max_and_delete_prompt() {
    let mut prompts = PromptSlot::new();
    let mut bay = Mechbay::new();
    assert_eq!(bay.tick_prompt(&mut prompts), PromptTick::Idle);
    bay.keshik_max(&mut prompts);
    assert_eq!(bay.prompt, MechbayPrompt::Alert);
    let p = prompts.prompt.as_ref().unwrap();
    assert_eq!(p.buttons, Buttons::OkOnly);
    assert_eq!(p.lines.len(), 3);
    assert_eq!(p.lines[1], "Keshik Defined Maximum Tonnage (KDMT)".to_string());
    assert_eq!(bay.tick_prompt(&mut prompts), PromptTick::Waiting);
    record(&mut prompts, Some(true));
    assert_eq!(bay.tick_prompt(&mut prompts), PromptTick::Answered { delete: false });
    bay.ask_delete(&mut prompts);
    record(&mut prompts, Some(true));
    assert_eq!(bay.tick_prompt(&mut prompts), PromptTick::Answered { delete: true });
    assert_eq!(answer(&prompts), None);
}

#[test]
fn mechbay_alert_and_customize_full() {
    let mut prompts = PromptSlot::new();
    let mut bay = Mechbay::new();
    bay.alert(&mut prompts, &["Hello"]);
    assert_eq!(prompts.prompt.as_ref().unwrap().lines, vec!["Hello".to_string()]);
    assert_eq!(bay.customize(&mut prompts, None), None);
    assert_eq!(prompts.prompt.as_ref().unwrap().lines[0], "Error: Too many mechs".to_string());
    let name = bay.customize(&mut prompts, Some(102)).unwrap();
    assert_eq!(name, b"User Variant #3".to_vec());
    assert_eq!(
        bay.after_registration(&mut prompts, true, ShellMsg(ShellMsg::MECH_CONFIG)),
        Some(ShellMsg(ShellMsg::MECH_CONFIG))
    );
}

#[test]
fn roster_commands_and_exit() {
    assert_eq!(roster_command(0, false, false, false, 0), RosterCommand::MainMenu);
    assert_eq!(roster_command(3, false, false, false, 0), RosterCommand::CreatePilot { slot: 2 });
    assert_eq!(
        roster_command(3, true, true, false, 0),
        RosterCommand::SelectPilot { slot: 2, choose: true }
    );
    assert_eq!(roster_command(0xb, false, false, false, 0), RosterCommand::Nothing);
    assert_eq!(roster_command(0xb, false, false, true, 0), RosterCommand::ClanHall);
    assert_eq!(roster_command(0xc, false, false, true, 0), RosterCommand::AskTerminate);
    assert_eq!(
        roster_command(0xe, false, false, true, 2),
        RosterCommand::CloseMissionList { enable_select: true }
    );
    assert_eq!(
        roster_exit(RosterCommand::ClanHall, None),
        Some(ShellMsg(ShellMsg::CLAN_HALL))
    );
    assert_eq!(
        roster_exit(RosterCommand::Nothing, Some(ShellMsg(ShellMsg::LAUNCH))),
        Some(ShellMsg(ShellMsg::LAUNCH))
    );
}

#[test]
fn roster_replay_only_flown_missions() {
    assert_eq!(mission_to_replay(true, Some(Campaign::Wolf), Some(3), Some(2)), Some((0, 2)));
    assert_eq!(mission_to_replay(true, Some(Campaign::Wolf), Some(3), Some(3)), None);
    assert_eq!(mission_to_replay(false, Some(Campaign::Wolf), Some(3), Some(0)), None);
    assert_eq!(
        mission_to_replay(true, Some(Campaign::TrialsOfGrievance), Some(3), Some(0)),
        None
    );
    assert_eq!(callsign_row_y(1), 92);
    assert_eq!(callsign_row_y(10), 92 + 9 * 35);
}

#[test]
fn roster_pilots_and_buttons() {
    assert!(!names_pilot(b""));
    assert!(!names_pilot(b"\0abc"));
    assert!(names_pilot(b"FOX"));
    let mut record = PilotRecord { in_use: 0, mission: 5, rank: 3, honor: 1, unknown: [1, 2, 3, 4] };
    new_pilot(&mut record, 777);
    assert_eq!(record.in_use, 1);
    assert_eq!(record.mission, 0);
    assert_eq!(record.rank, 0);
    assert_eq!(record.honor, 777);
    assert_eq!(record.unknown, [0, 0, 0, 0]);
    let s = buttons_for_selected(0);
    assert!(s.clan_hall && s.terminate && !s.select_mission && !s.back);
    assert!(buttons_for_selected(2).select_mission);
    let n = buttons_without_pilot();
    assert!(!n.clan_hall && !n.terminate && !n.select_mission && !n.back);
}

#[test]
fn roster_terminate_prompt() {
    let mut prompts = PromptSlot::new();
    let mut roster = Roster::new();
    roster.ask_terminate(&mut prompts);
    assert_eq!(prompts.prompt.as_ref().unwrap().lines, vec!["Terminate MechWarrior?".to_string()]);
    assert_eq!(roster.tick_prompt(&mut prompts), None);
    record(&mut prompts, Some(false));
    assert_eq!(roster.tick_prompt(&mut prompts), Some(false));
    assert!(!is_open(&prompts));
}

#[test]
fn debug_outcome_override_and_jumps() {
    assert_eq!(read_mission_results(3, 0), 3);
    assert_eq!(read_mission_results(3, 2), 2);
    assert_eq!(JUMP_TO_SCREEN, 0x8100);
    assert_eq!(JumpTarget::Mechbay.message(), ShellMsg(ShellMsg::MECHBAY));
    assert!(!JumpTarget::MissionDebrief.enabled(false));
    assert!(JumpTarget::MainMenu.enabled(false));
    assert!(matches!(jump(false, 0x40e, 0, None), JumpPlan::Post(0x40e)));
    assert!(matches!(jump(true, 0x409, 1, Some(4)), JumpPlan::Call(Some((1, 4)))));
    assert!(matches!(jump(true, 0x409, 2, Some(4)), JumpPlan::Call(None)));
    assert!(matches!(jump(true, 0x40e, 1, Some(4)), JumpPlan::Call(None)));
}

#[test]
fn roster_does_nothing_without_a_click() {
    let mut prompts = PromptSlot::new();
    let mut roster = Roster::new();
    let hover = RosterMouse { hit: BTN_MAIN_MENU, left_pressed: 0, double_clicked: false };
    assert_eq!(roster.tick(&mut prompts, Some(hover), false, true, 0), RosterStep::Idle);
    assert_eq!(roster.tick(&mut prompts, None, false, true, 0), RosterStep::Idle);
    assert!(!roster.confirm_pending);
    assert!(!is_open(&prompts));
    let click = RosterMouse { hit: BTN_MAIN_MENU, left_pressed: 1, double_clicked: false };
    assert_eq!(roster.tick(&mut prompts, Some(click), false, true, 0), RosterStep::Clicked(RosterCommand::MainMenu));
    assert_eq!(roster_exit(RosterCommand::MainMenu, None), Some(ShellMsg(ShellMsg::MAIN_MENU)));
    let terminate = RosterMouse { hit: BTN_TERMINATE, left_pressed: 1, double_clicked: false };
    assert_eq!(roster.tick(&mut prompts, Some(terminate), false, true, 0), RosterStep::Clicked(RosterCommand::AskTerminate));
    assert!(roster.confirm_pending);
    assert_eq!(prompts.prompt.as_ref().unwrap().lines, vec!["Terminate MechWarrior?".to_string()]);
    // While the prompt is open, clicks are not looked at.
    assert_eq!(roster.tick(&mut prompts, Some(click), false, true, 0), RosterStep::Idle);
    record(&mut prompts, Some(true));
    assert_eq!(roster.tick(&mut prompts, Some(click), false, true, 0), RosterStep::Answered { terminate: true });
    assert!(!roster.confirm_pending);
    assert!(!is_open(&prompts));
}

#[test]
fn mechbay_prompt_takes_the_tick() {
    let mut prompts = PromptSlot::new();
    let mut bay = Mechbay::new();
    assert_eq!(bay.tick(&mut prompts, None), BayStep::NoMouse);
    let exit = BayMouse { hit: BTN_EXIT_LAB, clicked: true, held: false };
    assert_eq!(
        bay.tick(&mut prompts, Some(exit)),
        BayStep::Command(MechbayCommand::Leave(ShellMsg(ShellMsg::MISSION_SELECT)))
    );
    let delete = BayMouse { hit: BTN_DELETE, clicked: true, held: false };
    assert_eq!(bay.tick(&mut prompts, Some(delete)), BayStep::Command(MechbayCommand::Delete));
    assert_eq!(bay.prompt, MechbayPrompt::Delete);
    assert_eq!(bay.tick(&mut prompts, Some(exit)), BayStep::Prompt(PromptTick::Waiting));
    record(&mut prompts, Some(true));
    assert_eq!(bay.tick(&mut prompts, Some(exit)), BayStep::Prompt(PromptTick::Answered { delete: true }));
    assert_eq!(bay.prompt, MechbayPrompt::Nothing);
}
