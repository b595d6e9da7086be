//! The mech bay: browsing the stock and user variants of each chassis,
//! customizing new ones, and the prompts it raises.

use vstd::prelude::*;

use super::confirm::{alert, answer, answer_of, close, lines_model, open, opened, Buttons, PromptSlot};
use super::screens::ShellMsg;

verus! {

pub const BTN_EXIT_LAB: i32 = 0;
pub const BTN_STAR_CONFIG: i32 = 1;
pub const BTN_NEXT_CHASSIS: i32 = 2;
pub const BTN_PREV_CHASSIS: i32 = 3;
pub const BTN_NEXT_VARIANT: i32 = 4;
pub const BTN_PREV_VARIANT: i32 = 5;
pub const BTN_CUSTOMIZE: i32 = 6;
pub const BTN_ACCEPT_MECH: i32 = 7;
pub const BTN_SAVE: i32 = 8;
pub const BTN_ABORT: i32 = 9;
pub const BTN_DELETE: i32 = 10;

/// The first of the user's variant slots: `0..100` are the stock ones.
pub const FIRST_USER_VARIANT: usize = 100;

/// Later chassis are trials-only and have no custom variants.
pub const CUSTOMIZABLE_CHASSIS: i32 = 15;

/// What prompt the screen is waiting on, if any.
#[derive(Debug, Clone, Copy, PartialEq, Eq, Structural)]
pub enum MechbayPrompt {
    Nothing,
    Delete,
    Alert,
}

/// The mech bay's own state.
pub struct Mechbay {
    pub prompt: MechbayPrompt,
}

/// The lines of the tonnage check message.
pub open spec fn keshik_lines() -> Seq<Seq<char>> {
    seq!["'Mech exceeds"@, "Keshik Defined Maximum Tonnage (KDMT)"@, "for mission."@]
}

/// The lines of the delete prompt.
pub open spec fn delete_lines() -> Seq<Seq<char>> {
    seq!["Delete this 'Mech?"@, "Are you sure?"@]
}

/// The lines shown when every user slot is taken.
pub open spec fn slots_full_lines() -> Seq<Seq<char>> {
    seq!["Error: Too many mechs"@, "of this variant to save."@]
}

/// What an open prompt does to a tick.
#[derive(Debug, Clone, Copy, PartialEq, Eq, Structural)]
pub enum PromptTick {
    /// No prompt is open: the tick goes on.
    Idle,
    /// The prompt is still unanswered: nothing else happens.
    Waiting,
    /// The prompt was answered and closed; `delete` says whether the selected
    /// variant is to be deleted.
    Answered { delete: bool },
}

/// The mouse as the mech bay reads it on a tick: the button under the
/// pointer (found after a click has gone to the variant rows), and whether
/// the left button went down this tick or is held.
#[derive(Debug, Clone, Copy, PartialEq, Eq, Structural)]
pub struct BayMouse {
    pub hit: i32,
    pub clicked: bool,
    pub held: bool,
}

/// What a tick of the mech bay does.
#[derive(Debug, Clone, Copy, PartialEq, Eq, Structural)]
pub enum BayStep {
    /// The open prompt takes the tick (`Waiting` or `Answered`): no button
    /// is read and nothing is returned.
    Prompt(PromptTick),
    /// There is no mouse state: nothing happens.
    NoMouse,
    /// What the button under the mouse does; a click on DELETE has also
    /// opened its prompt.
    Command(MechbayCommand),
}

/// What the button under the mouse asks for.
#[derive(Debug, Clone, Copy, PartialEq, Eq, Structural)]
pub enum MechbayCommand {
    /// Nothing.
    Nothing,
    /// Leave the screen with this message.
    Leave(ShellMsg),
    /// The star config button: its animation shows; a click goes to the
    /// mech config, after registering the mech when one is being edited.
    StarConfig { clicked: bool },
    /// The chassis (or variant) arrows: `resume` runs the arrow's animation
    /// while held, `step` moves on a click.
    Chassis { next: bool, resume: bool, step: bool },
    Variant { next: bool, resume: bool, step: bool },
    /// Enter customize mode.
    Customize,
    /// ACCEPT MECH: register the mech and leave with the screen's exit message.
    Accept,
    /// SAVE: save the variant and go back to browsing if the save is taken.
    Save,
    /// ABORT: go back to browsing.
    Abort,
    /// DELETE: ask whether to delete the variant.
    Delete,
}

/// What the button `hit` under the mouse does this tick, given a click
/// (`clicked`) or a held button (`held`).
pub open spec fn mechbay_command_for(hit: i32, clicked: bool, held: bool) -> MechbayCommand {
    if hit == BTN_EXIT_LAB {
        if clicked {
            MechbayCommand::Leave(ShellMsg(ShellMsg::MISSION_SELECT))
        } else {
            MechbayCommand::Nothing
        }
    } else if hit == BTN_STAR_CONFIG {
        MechbayCommand::StarConfig { clicked }
    } else if hit == BTN_NEXT_CHASSIS || hit == BTN_PREV_CHASSIS {
        MechbayCommand::Chassis { next: hit == BTN_NEXT_CHASSIS, resume: held, step: clicked }
    } else if hit == BTN_NEXT_VARIANT || hit == BTN_PREV_VARIANT {
        MechbayCommand::Variant { next: hit == BTN_NEXT_VARIANT, resume: held, step: clicked }
    } else if !clicked {
        MechbayCommand::Nothing
    } else if hit == BTN_CUSTOMIZE {
        MechbayCommand::Customize
    } else if hit == BTN_ACCEPT_MECH {
        MechbayCommand::Accept
    } else if hit == BTN_SAVE {
        MechbayCommand::Save
    } else if hit == BTN_ABORT {
        MechbayCommand::Abort
    } else if hit == BTN_DELETE {
        MechbayCommand::Delete
    } else {
        MechbayCommand::Nothing
    }
}

/// Decides what the button `hit` under the mouse does this tick (see
/// `mechbay_command_for`).
pub fn mechbay_command(hit: i32, clicked: bool, held: bool) -> (c: MechbayCommand)
    ensures
        c == mechbay_command_for(hit, clicked, held),
{
    if hit == BTN_EXIT_LAB {
        if clicked {
            MechbayCommand::Leave(ShellMsg(ShellMsg::MISSION_SELECT))
        } else {
            MechbayCommand::Nothing
        }
    } else if hit == BTN_STAR_CONFIG {
        MechbayCommand::StarConfig { clicked }
    } else if hit == BTN_NEXT_CHASSIS || hit == BTN_PREV_CHASSIS {
        MechbayCommand::Chassis { next: hit == BTN_NEXT_CHASSIS, resume: held, step: clicked }
    } else if hit == BTN_NEXT_VARIANT || hit == BTN_PREV_VARIANT {
        MechbayCommand::Variant { next: hit == BTN_NEXT_VARIANT, resume: held, step: clicked }
    } else if !clicked {
        MechbayCommand::Nothing
    } else if hit == BTN_CUSTOMIZE {
        MechbayCommand::Customize
    } else if hit == BTN_ACCEPT_MECH {
        MechbayCommand::Accept
    } else if hit == BTN_SAVE {
        MechbayCommand::Save
    } else if hit == BTN_ABORT {
        MechbayCommand::Abort
    } else if hit == BTN_DELETE {
        MechbayCommand::Delete
    } else {
        MechbayCommand::Nothing
    }
}

/// After SAVE or ABORT: whether the screen goes back to browsing; a save that
/// was refused keeps the customize screen open.
pub fn leaves_customize(save: bool, saved: bool) -> (b: bool)
    ensures
        b == (!save || saved),
{
    !save || saved
}

/// What happens to the customize button when the chassis changes: disabled
/// for trials-only chassis (`Some(false)`), enabled unless a mech is being
/// edited (`Some(true)`), otherwise left as it is.
pub fn customize_button(chassis: i32, editing: bool) -> (r: Option<bool>)
    ensures
        r == (if chassis >= CUSTOMIZABLE_CHASSIS {
            Some(false)
        } else if !editing {
            Some(true)
        } else {
            None
        }),
{
    if chassis >= CUSTOMIZABLE_CHASSIS {
        Some(false)
    } else if !editing {
        Some(true)
    } else {
        None
    }
}

/// Only the user variants can be deleted.
pub fn delete_enabled(variant: i32) -> (b: bool)
    ensures
        b == (variant >= FIRST_USER_VARIANT as i32),
{
    variant >= FIRST_USER_VARIANT as i32
}

/// Which of the bay's buttons are enabled.
#[derive(Debug, Clone, Copy, PartialEq, Eq, Structural)]
pub struct BayButtons {
    /// The buttons of browsing: exit, star config, the chassis and variant
    /// arrows, customize and accept.
    pub browse: bool,
    /// SAVE and ABORT.
    pub save_abort: bool,
    pub delete: bool,
}

/// The buttons while a new variant is customized: only SAVE and ABORT.
pub fn customizing_buttons() -> (b: BayButtons)
    ensures
        b == (BayButtons { browse: false, save_abort: true, delete: false }),
{
    BayButtons { browse: false, save_abort: true, delete: false }
}

/// The buttons when browsing again: the browsing ones, and DELETE for a user
/// variant.
pub fn browsing_buttons(variant: i32) -> (b: BayButtons)
    ensures
        b == (BayButtons { browse: true, save_abort: false, delete: variant >= FIRST_USER_VARIANT }),
{
    BayButtons { browse: true, save_abort: false, delete: delete_enabled(variant) }
}

/// The first free slot for user variants: the first slot from 100 on whose
/// file name is empty, given the first byte of every slot's name.
pub fn free_user_slot(first_bytes: &[u8]) -> (r: Option<usize>)
    ensures
        match r {
            Some(i) => FIRST_USER_VARIANT <= i < first_bytes@.len() && first_bytes@[i as int] == 0
                && forall|j: int| FIRST_USER_VARIANT <= j < i ==> first_bytes@[j] != 0,
            None => forall|j: int|
                FIRST_USER_VARIANT <= j < first_bytes@.len() ==> first_bytes@[j] != 0,
        },
{
    let mut i = FIRST_USER_VARIANT;
    while i < first_bytes.len()
        invariant
            FIRST_USER_VARIANT <= i,
            forall|j: int| FIRST_USER_VARIANT <= j < i && j < first_bytes@.len() ==> first_bytes@[j] != 0,
        decreases first_bytes@.len() - i,
    {
        if first_bytes[i] == 0 {
            return Some(i);
        }
        i += 1;
    }
    None
}

/// The decimal digits of `n`, most significant first, in ASCII.
pub open spec fn decimal(n: nat) -> Seq<u8>
    decreases n,
{
    if n < 10 {
        seq![(48 + n) as u8]
    } else {
        decimal(n / 10) + seq![(48 + n % 10) as u8]
    }
}

fn push_decimal(out: &mut Vec<u8>, n: u32)
    ensures
        final(out)@ == old(out)@ + decimal(n as nat),
    decreases n,
{
    if n < 10 {
        out.push((48 + n) as u8);
    } else {
        let ghost start = out@;
        push_decimal(out, n / 10);
        out.push((48 + n % 10) as u8);
        assert(out@ =~= start + decimal(n as nat));
    }
}

/// `User Variant #`, in ASCII.
pub open spec fn user_variant_prefix() -> Seq<u8> {
    seq![85u8, 115, 101, 114, 32, 86, 97, 114, 105, 97, 110, 116, 32, 35]
}

/// The name of a new variant, after the slot it will take: `User Variant #1`
/// for the first user slot and up.
pub fn name_new_variant(slot: usize) -> (name: Vec<u8>)
    requires
        FIRST_USER_VARIANT <= slot < FIRST_USER_VARIANT + 100,
    ensures
        name@ == user_variant_prefix() + decimal((slot - FIRST_USER_VARIANT + 1) as nat),
{
    let mut name: Vec<u8> = Vec::new();
    name.push(85);
    name.push(115);
    name.push(101);
    name.push(114);
    name.push(32);
    name.push(86);
    name.push(97);
    name.push(114);
    name.push(105);
    name.push(97);
    name.push(110);
    name.push(116);
    name.push(32);
    name.push(35);
    assert(name@ =~= user_variant_prefix());
    push_decimal(&mut name, (slot - FIRST_USER_VARIANT + 1) as u32);
    name
}

impl Mechbay {
    pub fn new() -> (m: Mechbay)
        ensures
            m.prompt == MechbayPrompt::Nothing,
    {
        Mechbay { prompt: MechbayPrompt::Nothing }
    }

    /// Shows a dialog box with "Ok" as the only button.
    pub fn alert(&mut self, prompts: &mut PromptSlot, lines: &[&str])
        ensures
            final(prompts)@ == opened(lines_model(lines), Buttons::OkOnly),
            final(self).prompt == MechbayPrompt::Alert,
    {
        alert(prompts, lines);
        self.prompt = MechbayPrompt::Alert;
    }

    /// Shows the tonnage check message.
    pub fn keshik_max(&mut self, prompts: &mut PromptSlot)
        ensures
            final(prompts)@ == opened(keshik_lines(), Buttons::OkOnly),
            final(self).prompt == MechbayPrompt::Alert,
    {
        let lines: [&str; 3] = [
            "'Mech exceeds",
            "Keshik Defined Maximum Tonnage (KDMT)",
            "for mission.",
        ];
        self.alert(prompts, &lines);
        assert(lines_model(&lines) =~= keshik_lines());
    }

    /// Asks whether to delete the selected variant.
    pub fn ask_delete(&mut self, prompts: &mut PromptSlot)
        ensures
            final(prompts)@ == opened(delete_lines(), Buttons::YesNo),
            final(self).prompt == MechbayPrompt::Delete,
    {
        let lines: [&str; 2] = ["Delete this 'Mech?", "Are you sure?"];
        open(prompts, &lines);
        assert(lines_model(&lines) =~= delete_lines());
        self.prompt = MechbayPrompt::Delete;
    }

    /// Enters customize mode on the free user slot, if there is one, giving
    /// the name the new variant gets; with every slot taken it says so instead.
    pub fn customize(&mut self, prompts: &mut PromptSlot, free_slot: Option<usize>) -> (name: Option<
        Vec<u8>,
    >)
        requires
            free_slot matches Some(s) ==> FIRST_USER_VARIANT <= s < FIRST_USER_VARIANT + 100,
        ensures
            match free_slot {
                Some(s) => name matches Some(n) && n@ == user_variant_prefix() + decimal(
                    (s - FIRST_USER_VARIANT + 1) as nat,
                ) && final(prompts)@ == old(prompts)@ && final(self).prompt == old(self).prompt,
                None => name is None && final(prompts)@ == opened(
                    slots_full_lines(),
                    Buttons::OkOnly,
                ) && final(self).prompt == MechbayPrompt::Alert,
            },
    {
        match free_slot {
            Some(slot) => Some(name_new_variant(slot)),
            None => {
                let lines: [&str; 2] = ["Error: Too many mechs", "of this variant to save."];
                self.alert(prompts, &lines);
                assert(lines_model(&lines) =~= slots_full_lines());
                None
            },
        }
    }

    /// After STAR CONFIG or ACCEPT MECH was clicked and the mech registered
    /// (`registered`, false when it is over the mission's tonnage): leave with
    /// `exit`, or show the tonnage message and stay.
    pub fn after_registration(&mut self, prompts: &mut PromptSlot, registered: bool, exit: ShellMsg) -> (r:
        Option<ShellMsg>)
        ensures
            registered ==> r == Some(exit) && final(prompts)@ == old(prompts)@ && final(self).prompt
                == old(self).prompt,
            !registered ==> r is None && final(prompts)@ == opened(keshik_lines(), Buttons::OkOnly)
                && final(self).prompt == MechbayPrompt::Alert,
    {
        if registered {
            Some(exit)
        } else {
            self.keshik_max(prompts);
            None
        }
    }

    /// The open prompt, if any, takes the tick: an unanswered one waits; an
    /// answered one is closed, and a yes to the delete prompt deletes the
    /// selected variant.
    pub fn tick_prompt(&mut self, prompts: &mut PromptSlot) -> (r: PromptTick)
        ensures
            old(self).prompt == MechbayPrompt::Nothing ==> r == PromptTick::Idle && final(prompts)@
                == old(prompts)@ && final(self).prompt == old(self).prompt,
            old(self).prompt != MechbayPrompt::Nothing && answer_of(old(prompts)@) is None ==> r
                == PromptTick::Waiting && final(prompts)@ == old(prompts)@ && final(self).prompt
                == old(self).prompt,
            old(self).prompt != MechbayPrompt::Nothing && answer_of(old(prompts)@) is Some ==> r
                == (PromptTick::Answered {
                delete: old(self).prompt == MechbayPrompt::Delete && answer_of(old(prompts)@)
                    == Some(true),
            }) && final(prompts)@ is None && final(self).prompt == MechbayPrompt::Nothing,
    {
        match self.prompt {
            MechbayPrompt::Nothing => PromptTick::Idle,
            MechbayPrompt::Delete => {
                let delete = match answer(prompts) {
                    Some(a) => a,
                    None => {
                        return PromptTick::Waiting;
                    },
                };
                close(prompts);
                self.prompt = MechbayPrompt::Nothing;
                PromptTick::Answered { delete }
            },
            MechbayPrompt::Alert => {
                if answer(prompts).is_none() {
                    return PromptTick::Waiting;
                }
                close(prompts);
                self.prompt = MechbayPrompt::Nothing;
                PromptTick::Answered { delete: false }
            },
        }
    }

    /// One tick of the mech bay. An open prompt takes the tick, as
    /// `tick_prompt` says, and the mouse is not looked at. Otherwise, with
    /// the mouse state there, the button under it decides the command, and
    /// a click on DELETE opens the delete prompt.
    pub fn tick(&mut self, prompts: &mut PromptSlot, mouse: Option<BayMouse>) -> (step: BayStep)
        ensures
            old(self).prompt != MechbayPrompt::Nothing && answer_of(old(prompts)@) is None ==> step
                == BayStep::Prompt(PromptTick::Waiting) && final(prompts)@ == old(prompts)@
                && final(self).prompt == old(self).prompt,
            old(self).prompt != MechbayPrompt::Nothing && answer_of(old(prompts)@) is Some ==> step
                == BayStep::Prompt(
                PromptTick::Answered {
                    delete: old(self).prompt == MechbayPrompt::Delete && answer_of(old(prompts)@)
                        == Some(true),
                },
            ) && final(prompts)@ is None && final(self).prompt == MechbayPrompt::Nothing,
            old(self).prompt == MechbayPrompt::Nothing && mouse is None ==> step == BayStep::NoMouse
                && final(prompts)@ == old(prompts)@ && final(self).prompt == MechbayPrompt::Nothing,
            old(self).prompt == MechbayPrompt::Nothing && mouse is Some ==> ({
                let m = mouse.unwrap();
                let c = mechbay_command_for(m.hit, m.clicked, m.held);
                &&& step == BayStep::Command(c)
                &&& c == MechbayCommand::Delete ==> final(prompts)@ == opened(
                    delete_lines(),
                    Buttons::YesNo,
                ) && final(self).prompt == MechbayPrompt::Delete
                &&& c != MechbayCommand::Delete ==> final(prompts)@ == old(prompts)@
                    && final(self).prompt == MechbayPrompt::Nothing
            }),
    {
        let gate = self.tick_prompt(prompts);
        if gate != PromptTick::Idle {
            return BayStep::Prompt(gate);
        }
        let m = match mouse {
            Some(m) => m,
            None => {
                return BayStep::NoMouse;
            },
        };
        let c = mechbay_command(m.hit, m.clicked, m.held);
        if c == MechbayCommand::Delete {
            self.ask_delete(prompts);
        }
        BayStep::Command(c)
    }

    /// On leaving the screen, an open prompt is closed.
    pub fn teardown(&mut self, prompts: &mut PromptSlot)
        ensures
            old(self).prompt != MechbayPrompt::Nothing ==> final(prompts)@ is None,
            old(self).prompt == MechbayPrompt::Nothing ==> final(prompts)@ == old(prompts)@,
            final(self).prompt == old(self).prompt,
    {
        if self.prompt != MechbayPrompt::Nothing {
            close(prompts);
        }
    }
}

} // verus!
