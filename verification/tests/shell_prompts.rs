use remech::shell::confirm::{
    alert, answer, answer_for_button, awaiting, close, is_open, open, record, Buttons, PromptSlot,
};
use remech::shell::dialog::{parse, show_dialog, ParkedTransition, DECLINED};
use remech::shell::menu::{lock, locked, MenuLocks};
use remech::shell::screens::ShellMsg;

#[test]
fn prompt_buttons_labels() {
    assert_eq!(Buttons::YesNo.labels(), vec!["Yes", "No"]);
    assert_eq!(Buttons::OkOnly.labels(), vec!["Ok"]);
}

#[test]
fn prompt_answer_is_recorded_once() {
    let mut slot = PromptSlot::new();
    assert!(!is_open(&slot));
    assert_eq!(answer(&slot), None);
    open(&mut slot, &["Terminate MechWarrior?"]);
    assert!(is_open(&slot));
    assert!(awaiting(&slot));
    assert_eq!(answer(&slot), None);
    record(&mut slot, None);
    assert!(awaiting(&slot));
    record(&mut slot, Some(answer_for_button(1)));
    assert_eq!(answer(&slot), Some(false));
    // A later click does not change the answer.
    record(&mut slot, Some(true));
    assert_eq!(answer(&slot), Some(false));
    assert!(!awaiting(&slot));
    close(&mut slot);
    assert!(!is_open(&slot));
    assert_eq!(answer(&slot), None);
}

#[test]
fn prompt_alert_is_acknowledged_with_ok() {
    let mut slot = PromptSlot::new();
    alert(&mut slot, &["'Mech exceeds", "for mission."]);
    let prompt = slot.prompt.as_ref().unwrap();
    assert_eq!(prompt.buttons, Buttons::OkOnly);
    assert_eq!(prompt.lines, vec!["'Mech exceeds".to_string(), "for mission.".to_string()]);
    record(&mut slot, Some(answer_for_button(0)));
    assert_eq!(answer(&slot), Some(true));
}

#[test]
fn prompt_open_replaces_open_prompt() {
    let mut slot = PromptSlot::new();
    open(&mut slot, &["First?"]);
    record(&mut slot, Some(true));
    open(&mut slot, &["Second?"]);
    assert_eq!(answer(&slot), None);
    assert_eq!(slot.prompt.as_ref().unwrap().lines, vec!["Second?".to_string()]);
}

#[test]
fn dialog_parse_splits_lines_and_buttons() {
    let m = parse("line1|line2#Ok");
    assert_eq!(m.lines, vec!["line1".to_string(), "line2".to_string()]);
    assert_eq!(m.buttons, 1);
    let m = parse("Are you sure?#Yes|No");
    assert_eq!(m.lines, vec!["Are you sure?".to_string()]);
    assert_eq!(m.buttons, 2);
}

#[test]
fn dialog_parse_without_hash_has_no_buttons() {
    let m = parse("just|text");
    assert_eq!(m.lines, vec!["just".to_string(), "text".to_string()]);
    assert_eq!(m.buttons, 0);
}

#[test]
fn dialog_parse_empty_lines() {
    let m = parse("");
    assert!(m.lines.is_empty());
    assert_eq!(m.buttons, 0);
    let m = parse("#Ok");
    assert!(m.lines.is_empty());
    assert_eq!(m.buttons, 1);
    let m = parse("a||b#");
    assert_eq!(m.lines, vec!["a".to_string(), String::new(), "b".to_string()]);
    assert_eq!(m.buttons, 1);
}

#[test]
fn dialog_parse_keeps_non_ascii_text() {
    let m = parse("Clan Wolf – Ü#Ok");
    assert_eq!(m.lines, vec!["Clan Wolf – Ü".to_string()]);
}

#[test]
fn dialog_show_declines_questions() {
    let mut slot = PromptSlot::new();
    assert_eq!(show_dialog(&mut slot, "Replay?#Yes|No"), DECLINED);
    assert!(!is_open(&slot));
}

#[test]
fn dialog_show_notifies_messages() {
    let mut slot = PromptSlot::new();
    assert_eq!(show_dialog(&mut slot, "Mission saved|Good hunting#Ok"), 0);
    let prompt = slot.prompt.as_ref().unwrap();
    assert_eq!(prompt.buttons, Buttons::OkOnly);
    assert_eq!(prompt.lines, vec!["Mission saved".to_string(), "Good hunting".to_string()]);
}

#[test]
fn dialog_transition_held_while_prompt_open() {
    let mut parked = ParkedTransition::new();
    assert!(!parked.park_transition(ShellMsg::MAIN_MENU, 1, true));
    assert!(!parked.park_transition(ShellMsg::LANDING, 1, false));
    assert!(parked.park_transition(ShellMsg::LANDING, 7, true));
    assert_eq!(parked.replay_transition(true), None);
    assert!(parked.park_transition(ShellMsg::FINALE, 9, true));
    assert_eq!(parked.replay_transition(false), Some((ShellMsg::FINALE, 9)));
    assert_eq!(parked.replay_transition(false), None);
}

#[test]
fn menu_lock_hides_until_released() {
    let mut locks = MenuLocks::new();
    assert!(!locked(&locks));
    let a = lock(&mut locks);
    let b = lock(&mut locks);
    assert!(locked(&locks));
    a.release(&mut locks);
    assert!(locked(&locks));
    b.release(&mut locks);
    assert!(!locked(&locks));
}

#[test]
fn menu_lock_count_follows_guards_dropped_in_any_order() {
    let mut locks = MenuLocks::new();
    assert!(!locked(&locks));
    let a = lock(&mut locks);
    let b = lock(&mut locks);
    let c = lock(&mut locks);
    assert_eq!(locks.count, 3);
    b.release(&mut locks);
    assert!(locked(&locks));
    assert_eq!(locks.count, 2);
    let d = lock(&mut locks);
    c.release(&mut locks);
    a.release(&mut locks);
    assert!(locked(&locks));
    assert_eq!(locks.count, 1);
    d.release(&mut locks);
    assert_eq!(locks.count, 0);
    assert!(!locked(&locks));
}
