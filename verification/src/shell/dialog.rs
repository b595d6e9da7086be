//! The game's own message box: its text `line1|line2#button1|button2`
//! split into lines and a count of buttons, shown as a prompt of the
//! overlay; and the video transitions held back while a prompt is up.

use crate::shell::confirm::{PromptSlot, lines_model, opened, Buttons, alert, is_open};
use crate::shell::screens::ShellMsg;
use vstd::prelude::*;

verus! {

/// The result that the game's message box returns for a declined question.
pub const DECLINED: i32 = 1;

/// The pieces of `s` between the occurrences of `sep` (one more than there
/// are separators), as `str::split` gives them.
pub open spec fn split_pieces(s: Seq<char>, sep: char) -> Seq<Seq<char>>
    decreases s.len(),
{
    if s.len() == 0 {
        seq![Seq::<char>::empty()]
    } else {
        let rest = split_pieces(s.drop_last(), sep);
        if s.last() == sep {
            rest.push(Seq::<char>::empty())
        } else {
            rest.update(rest.len() - 1, rest.last().push(s.last()))
        }
    }
}

/// A message as the game's text gives it: its lines and number of buttons.
pub struct Message {
    pub lines: Vec<String>,
    pub buttons: usize,
}

/// A message as the specifications see it.
pub struct MessageModel {
    pub lines: Seq<Seq<char>>,
    pub buttons: nat,
}

/// Where the first `#` of `s` at or after `i` is, if there is one.
pub open spec fn hash_from(s: Seq<char>, i: int) -> Option<int>
    decreases s.len() - i,
{
    if i < 0 || i >= s.len() {
        None
    } else if s[i] == '#' {
        Some(i)
    } else {
        hash_from(s, i + 1)
    }
}

/// Where the first `#` of `s` is, if it has one.
pub open spec fn first_hash(s: Seq<char>) -> Option<int> {
    hash_from(s, 0)
}

/// The message of a text: what comes before the first `#` are the lines,
/// split at `|` (none for an empty text); what comes after it are the
/// buttons, split at `|`. A text with no `#` has no buttons (the game then
/// shows a single `Ok`).
pub open spec fn parsed(s: Seq<char>) -> MessageModel {
    let (lines, buttons) = match first_hash(s) {
        Some(k) => (s.take(k), split_pieces(s.skip(k + 1), '|').len()),
        None => (s, 0nat),
    };
    MessageModel {
        lines: if lines.len() == 0 {
            Seq::empty()
        } else {
            split_pieces(lines, '|')
        },
        buttons,
    }
}

/// Appends `c` to `s` with std's `String::push`, which vstd leaves without a
/// specification. Claimed: the string afterwards is the one before with `c`
/// at its end, as std documents.
#[verifier::external_body]
fn push_char(s: &mut String, c: char)
    ensures
        final(s)@ == old(s)@.push(c),
{
    s.push(c);
}

/// The characters of a text.
fn text_chars(text: &str) -> (chars: Vec<char>)
    ensures
        chars@ == text@,
{
    let mut chars: Vec<char> = Vec::new();
    for c in it: text.chars()
        invariant
            chars@ == it.seq().take(it.index() as int),
            it.seq() == text@,
    {
        chars.push(c);
        assert(chars@ =~= it.seq().take(it.index() + 1));
    }
    assert(chars@ =~= text@);
    chars
}

/// The model of a list of strings.
pub open spec fn strings_model(v: Seq<String>) -> Seq<Seq<char>> {
    v.map_values(|p: String| p@)
}

/// Splitting a text one character longer.
proof fn lemma_split_pieces_push(s: Seq<char>, c: char, sep: char)
    ensures
        split_pieces(s.push(c), sep) == (if c == sep {
            split_pieces(s, sep).push(Seq::<char>::empty())
        } else {
            let rest = split_pieces(s, sep);
            rest.update(rest.len() - 1, rest.last().push(c))
        }),
{
    assert(s.push(c).drop_last() =~= s);
}

/// The pieces of `chars[start..end]` between the occurrences of `sep`.
fn split_chars(chars: &Vec<char>, start: usize, end: usize, sep: char) -> (pieces: Vec<String>)
    requires
        start <= end <= chars@.len(),
    ensures
        strings_model(pieces@) == split_pieces(chars@.subrange(start as int, end as int), sep),
{
    let mut done: Vec<String> = Vec::new();
    let mut cur = String::new();
    let mut i = start;
    assert(chars@.subrange(start as int, start as int) =~= Seq::<char>::empty());
    while i < end
        invariant
            start <= i <= end <= chars@.len(),
            strings_model(done@).push(cur@) == split_pieces(chars@.subrange(start as int, i as int), sep),
        decreases end - i,
    {
        let c = chars[i];
        proof {
            lemma_split_pieces_push(chars@.subrange(start as int, i as int), c, sep);
            assert(chars@.subrange(start as int, i as int).push(c) =~= chars@.subrange(
                start as int,
                i + 1,
            ));
        }
        let ghost before = strings_model(done@);
        if c == sep {
            let finished = cur;
            done.push(finished);
            cur = String::new();
            assert(strings_model(done@) =~= before.push(finished@));
            assert(strings_model(done@).push(cur@) =~= before.push(finished@).push(
                Seq::<char>::empty(),
            ));
        } else {
            let ghost old_cur = cur@;
            push_char(&mut cur, c);
            assert(strings_model(done@).push(cur@) =~= before.push(old_cur).update(
                before.len() as int,
                old_cur.push(c),
            ));
        }
        i = i + 1;
    }
    done.push(cur);
    assert(strings_model(done@) =~= split_pieces(chars@.subrange(start as int, end as int), sep));
    done
}

/// Where the first `#` of the text is.
fn find_hash(chars: &Vec<char>) -> (k: Option<usize>)
    ensures
        k matches Some(i) ==> i < chars@.len(),
        match k {
            Some(i) => first_hash(chars@) == Some(i as int),
            None => first_hash(chars@) is None,
        },
{
    let mut i: usize = 0;
    while i < chars.len()
        invariant
            i <= chars@.len(),
            first_hash(chars@) == hash_from(chars@, i as int),
        decreases chars@.len() - i,
    {
        if chars[i] == '#' {
            return Some(i);
        }
        i = i + 1;
    }
    None
}

/// Splits a text such as `line1|line2#Ok` into its lines and its number of
/// buttons.
pub fn parse(message: &str) -> (m: Message)
    ensures
        strings_model(m.lines@) == parsed(message@).lines,
        m.buttons == parsed(message@).buttons,
{
    let chars = text_chars(message);
    let n = chars.len();
    let (end, buttons) = match find_hash(&chars) {
        Some(k) => {
            assert(k < n);
            let pieces = split_chars(&chars, k + 1, n, '|');
            assert(chars@.subrange(k + 1, chars@.len() as int) =~= chars@.skip(k + 1));
            (k, pieces.len())
        },
        None => (chars.len(), 0),
    };
    assert(chars@.subrange(0, end as int) =~= match first_hash(chars@) {
        Some(k) => chars@.take(k),
        None => chars@,
    });
    let lines = if end == 0 {
        Vec::new()
    } else {
        split_chars(&chars, 0, end, '|')
    };
    assert(strings_model(lines@) =~= parsed(message@).lines);
    Message { lines, buttons }
}

/// What the game's message box does with a text: a question (two buttons
/// or more) is declined without showing anything, as every question the
/// shell asks goes through the overlay's own prompts; anything else is shown
/// as a message with a single `Ok`. Returns the message box's result.
pub fn show_dialog(prompts: &mut PromptSlot, message: &str) -> (r: i32)
    ensures
        parsed(message@).buttons >= 2 ==> r == DECLINED && final(prompts)@ == old(prompts)@,
        parsed(message@).buttons < 2 ==> r == 0 && final(prompts)@ == opened(
            parsed(message@).lines,
            Buttons::OkOnly,
        ),
{
    let m = parse(message);
    if m.buttons >= 2 {
        return DECLINED;
    }
    let mut lines: Vec<&str> = Vec::new();
    let mut i: usize = 0;
    while i < m.lines.len()
        invariant
            i <= m.lines@.len(),
            lines@.len() == i,
            forall|k: int| 0 <= k < i ==> #[trigger] lines@[k]@ == m.lines@[k]@,
        decreases m.lines@.len() - i,
    {
        lines.push(m.lines[i].as_str());
        i = i + 1;
    }
    let shown = lines.as_slice();
    assert(lines_model(shown) =~= strings_model(m.lines@));
    alert(prompts, shown);
    0
}

/// A video transition held back while a prompt is up: its message and
/// parameter.
pub struct ParkedTransition {
    pub parked: Option<(u32, usize)>,
}

/// Whether a message is one of the transitions that a prompt holds back: the
/// landing and the finale videos.
pub open spec fn is_held_transition(message: u32) -> bool {
    message == ShellMsg::LANDING || message == ShellMsg::FINALE
}

/// Parking a transition: whether it is held, and what is held after.
pub open spec fn parked_after(parked: Option<(u32, usize)>, message: u32, wparam: usize, prompt_open: bool) -> (
    bool,
    Option<(u32, usize)>,
) {
    if is_held_transition(message) && prompt_open {
        (true, Some((message, wparam)))
    } else {
        (false, parked)
    }
}

/// Replaying: what is posted again, and what is held after.
pub open spec fn replayed(parked: Option<(u32, usize)>, prompt_open: bool) -> (
    Option<(u32, usize)>,
    Option<(u32, usize)>,
) {
    if prompt_open {
        (None, parked)
    } else {
        (parked, None)
    }
}

impl ParkedTransition {
    /// Nothing held back.
    pub fn new() -> (p: ParkedTransition)
        ensures
            p.parked is None,
    {
        ParkedTransition { parked: None }
    }

    /// Holds back the landing and finale transitions while a prompt is on
    /// screen, replacing any held before. Returns whether it held this one.
    pub fn park_transition(&mut self, message: u32, wparam: usize, prompt_open: bool) -> (held: bool)
        ensures
            (held, final(self).parked) == parked_after(old(self).parked, message, wparam, prompt_open),
    {
        if (message != ShellMsg::LANDING && message != ShellMsg::FINALE) || !prompt_open {
            return false;
        }
        self.parked = Some((message, wparam));
        true
    }

    /// Once the prompt is gone, hands back the transition that was held, to
    /// be posted again; it is held no more.
    pub fn replay_transition(&mut self, prompt_open: bool) -> (replay: Option<(u32, usize)>)
        ensures
            (replay, final(self).parked) == replayed(old(self).parked, prompt_open),
    {
        if prompt_open {
            return None;
        }
        let replay = self.parked;
        self.parked = None;
        replay
    }
}

/// A landing or finale held back while a prompt is up comes back unchanged
/// once the prompt has gone, and only once; while the prompt stays up it
/// stays held.
pub proof fn lemma_held_transition_replays_once(
    parked: Option<(u32, usize)>,
    message: u32,
    wparam: usize,
)
    requires
        is_held_transition(message),
    ensures
        ({
            let (held, after) = parked_after(parked, message, wparam, true);
            &&& held
            &&& replayed(after, true) == (None::<(u32, usize)>, Some((message, wparam)))
            &&& replayed(after, false) == (Some((message, wparam)), None::<(u32, usize)>)
            &&& replayed(replayed(after, false).1, false).0 is None
        }),
{
}

/// Other messages, and any message while no prompt is up, pass through.
pub proof fn lemma_unheld_messages_pass(parked: Option<(u32, usize)>, message: u32, wparam: usize, prompt_open: bool)
    requires
        !is_held_transition(message) || !prompt_open,
    ensures
        parked_after(parked, message, wparam, prompt_open) == (false, parked),
{
}

} // verus!
