//! The shell's prompt: at most one message at a time, answered with a Yes/No
//! or acknowledged with Ok.

use vstd::prelude::*;

verus! {

/// The buttons under a prompt.
#[derive(Clone, Copy, Debug, PartialEq, Eq, Structural)]
pub enum Buttons {
    YesNo,
    OkOnly,
}

impl Buttons {
    /// The labels of the buttons, left to right.
    pub fn labels(self) -> (labels: Vec<&'static str>)
        ensures
            labels@.len() == (match self {
                Buttons::YesNo => 2int,
                Buttons::OkOnly => 1int,
            }),
            self == Buttons::YesNo ==> labels@[0] == "Yes" && labels@[1] == "No",
            self == Buttons::OkOnly ==> labels@[0] == "Ok",
    {
        match self {
            Buttons::YesNo => vec!["Yes", "No"],
            Buttons::OkOnly => vec!["Ok"],
        }
    }
}

/// An open prompt: its lines, its buttons, and its answer once given.
pub struct Prompt {
    pub lines: Vec<String>,
    pub buttons: Buttons,
    pub answer: Option<bool>,
}

/// A prompt as the specifications see it.
pub struct PromptModel {
    pub lines: Seq<Seq<char>>,
    pub buttons: Buttons,
    pub answer: Option<bool>,
}

/// Where the one prompt of the shell lives.
pub struct PromptSlot {
    pub prompt: Option<Prompt>,
}

impl View for PromptSlot {
    type V = Option<PromptModel>;

    open spec fn view(&self) -> Option<PromptModel> {
        match &self.prompt {
            Some(p) => Some(
                PromptModel {
                    lines: p.lines@.map_values(|l: String| l@),
                    buttons: p.buttons,
                    answer: p.answer,
                },
            ),
            None => None,
        }
    }
}

/// The lines as the specifications see them.
pub open spec fn lines_model(lines: &[&str]) -> Seq<Seq<char>> {
    lines@.map_values(|l: &str| l@)
}

/// The prompt that `set` opens.
pub open spec fn opened(lines: Seq<Seq<char>>, buttons: Buttons) -> Option<PromptModel> {
    Some(PromptModel { lines, buttons, answer: None })
}

/// What `answer` reports of a slot.
pub open spec fn answer_of(slot: Option<PromptModel>) -> Option<bool> {
    match slot {
        Some(p) => p.answer,
        None => None,
    }
}

/// Whether a prompt is open and not yet answered.
pub open spec fn awaiting_answer(slot: Option<PromptModel>) -> bool {
    slot matches Some(p) && p.answer is None
}

/// The slot after the button row has been drawn and `clicked` came back:
/// an open, unanswered prompt takes it as its answer.
pub open spec fn recorded(slot: Option<PromptModel>, clicked: Option<bool>) -> Option<PromptModel> {
    match slot {
        Some(p) => if p.answer is None {
            Some(PromptModel { answer: clicked, ..p })
        } else {
            slot
        },
        None => None,
    }
}

impl PromptSlot {
    /// A slot with no prompt open.
    pub fn new() -> (slot: PromptSlot)
        ensures
            slot@ is None,
    {
        PromptSlot { prompt: None }
    }
}

/// Opens a prompt with `lines` and `buttons`, replacing any open one.
pub fn set(slot: &mut PromptSlot, lines: &[&str], buttons: Buttons)
    ensures
        final(slot)@ == opened(lines_model(lines), buttons),
{
    let mut owned: Vec<String> = Vec::new();
    let mut i: usize = 0;
    while i < lines.len()
        invariant
            i <= lines@.len(),
            owned@.map_values(|l: String| l@) == lines_model(lines).take(i as int),
        decreases lines@.len() - i,
    {
        let line: &str = lines[i];
        let ghost before = owned@.map_values(|l: String| l@);
        let o = line.to_owned();
        assert(o@ == lines_model(lines)[i as int]);
        owned.push(o);
        assert(owned@.map_values(|l: String| l@) =~= before.push(o@));
        i += 1;
        assert(owned@.map_values(|l: String| l@) =~= lines_model(lines).take(i as int));
    }
    assert(lines_model(lines).take(i as int) =~= lines_model(lines));
    slot.prompt = Some(Prompt { lines: owned, buttons, answer: None });
}

/// Opens a Yes/No prompt, replacing any open one.
pub fn open(slot: &mut PromptSlot, lines: &[&str])
    ensures
        final(slot)@ == opened(lines_model(lines), Buttons::YesNo),
{
    set(slot, lines, Buttons::YesNo);
}

/// Opens a message with a single `Ok`, replacing any open prompt. `answer`
/// reports `Some(true)` once it is acknowledged.
pub fn alert(slot: &mut PromptSlot, lines: &[&str])
    ensures
        final(slot)@ == opened(lines_model(lines), Buttons::OkOnly),
{
    set(slot, lines, Buttons::OkOnly);
}

/// `Some(true)` for Yes (or Ok), `Some(false)` for No; `None` while
/// unanswered, or if nothing is open.
pub fn answer(slot: &PromptSlot) -> (r: Option<bool>)
    ensures
        r == answer_of(slot@),
{
    match &slot.prompt {
        Some(p) => p.answer,
        None => None,
    }
}

/// Closes the prompt, if one is open.
pub fn close(slot: &mut PromptSlot)
    ensures
        final(slot)@ is None,
{
    slot.prompt = None;
}

/// Whether a prompt is open, answered or not.
pub fn is_open(slot: &PromptSlot) -> (b: bool)
    ensures
        b == slot@ is Some,
{
    slot.prompt.is_some()
}

/// Whether a prompt is open and still waiting for its answer: the one case in
/// which its window is drawn.
pub fn awaiting(slot: &PromptSlot) -> (b: bool)
    ensures
        b == awaiting_answer(slot@),
{
    match &slot.prompt {
        Some(p) => p.answer.is_none(),
        None => false,
    }
}

/// Takes what a drawing of the prompt's window returned: an open, unanswered
/// prompt keeps it as its answer; anything else is left as it is.
pub fn record(slot: &mut PromptSlot, clicked: Option<bool>)
    ensures
        final(slot)@ == recorded(old(slot)@, clicked),
{
    if let Some(p) = &mut slot.prompt {
        if p.answer.is_none() {
            p.answer = clicked;
        }
    }
}

/// The answer a click on button `index` (counted from the left) gives: the
/// leftmost button answers `true`.
pub fn answer_for_button(index: usize) -> (answer: bool)
    ensures
        answer == (index == 0),
{
    index == 0
}

/// A prompt that was just opened has no answer yet.
pub proof fn lemma_opened_is_unanswered(lines: Seq<Seq<char>>, buttons: Buttons)
    ensures
        answer_of(opened(lines, buttons)) is None,
        awaiting_answer(opened(lines, buttons)),
{
}

/// The answer recorded on a waiting prompt is the one reported, and a later
/// drawing does not change it.
pub proof fn lemma_recorded_answer_sticks(
    slot: Option<PromptModel>,
    first: Option<bool>,
    later: Option<bool>,
)
    requires
        awaiting_answer(slot),
        first is Some,
    ensures
        answer_of(recorded(slot, first)) == first,
        recorded(recorded(slot, first), later) == recorded(slot, first),
{
}

/// Nothing is reported once the prompt is closed, and recording on a closed
/// slot opens nothing.
pub proof fn lemma_closed_has_no_answer(clicked: Option<bool>)
    ensures
        answer_of(None) is None,
        recorded(None, clicked) is None,
{
}

} // verus!
