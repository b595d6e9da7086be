//! The shell's mouse: the game's own mouse record, refreshed once a frame from
//! the window's cursor and buttons, and the overlay's view of it, from which
//! pointer events are made.

use vstd::prelude::*;

verus! {

/// Longest time between two left clicks, in milliseconds, that still makes
/// a double click.
pub const DOUBLE_CLICK_MILLIS: u32 = 201;

/// The mouse as the overlay sees it: the position in shell coordinates and
/// the buttons held.
#[derive(Clone, Copy, Debug, PartialEq, Eq, Structural)]
pub struct OverlayMouseState {
    pub pos_x: i32,
    pub pos_y: i32,
    pub left_down: bool,
    pub right_down: bool,
    pub middle_down: bool,
}

impl OverlayMouseState {
    /// The mouse at the origin with no button held, as the overlay hands to
    /// the shell when the pointer is not over it.
    pub fn released() -> (m: OverlayMouseState)
        ensures
            m == (OverlayMouseState {
                pos_x: 0,
                pos_y: 0,
                left_down: false,
                right_down: false,
                middle_down: false,
            }),
    {
        OverlayMouseState { pos_x: 0, pos_y: 0, left_down: false, right_down: false, middle_down: false }
    }
}

impl Default for OverlayMouseState {
    fn default() -> (m: OverlayMouseState)
        ensures
            m == (OverlayMouseState {
                pos_x: 0,
                pos_y: 0,
                left_down: false,
                right_down: false,
                middle_down: false,
            }),
    {
        OverlayMouseState::released()
    }
}

/// The fields of the game's mouse record that the shell reads and writes.
#[derive(Clone, Copy, Debug, PartialEq, Eq, Structural)]
pub struct MouseState {
    pub left_pressed: bool,
    pub right_pressed: bool,
    pub middle_pressed: bool,
    pub double_clicked: bool,
    /// When the last single left click happened, in milliseconds.
    pub last_clicked: u32,
    pub pos_x: i32,
    pub pos_y: i32,
    pub left_down: bool,
    pub right_down: bool,
    pub middle_down: bool,
    /// Whether the game wants the record refreshed from the device.
    pub polling: bool,
}

/// What the window gives for one refresh: the cursor already in shell
/// coordinates, the buttons held, and the time in milliseconds.
#[derive(Clone, Copy, Debug, PartialEq, Eq, Structural)]
pub struct MouseSample {
    pub shell_x: i32,
    pub shell_y: i32,
    pub left: bool,
    pub right: bool,
    pub middle: bool,
    pub now: u32,
}

/// Whether the left button went down on this refresh to make a double click:
/// the time since the last single click, taken modulo 2^32 as the timer
/// wraps, is under `DOUBLE_CLICK_MILLIS`.
pub open spec fn is_double_click(last_clicked: u32, now: u32) -> bool {
    ((now - last_clicked) % 0x1_0000_0000) < DOUBLE_CLICK_MILLIS
}

/// The record after one refresh. `None` is a refresh in which the cursor
/// could not be read or lay outside the window: the record stays as it is.
/// Otherwise the position and buttons are taken from the sample when the
/// game polls, a button is "pressed" when it is held now and was not before,
/// and a left press within `DOUBLE_CLICK_MILLIS` of the last single click is
/// a double click; a left press that is not stamps the time.
pub open spec fn refreshed(state: MouseState, sample: Option<MouseSample>) -> MouseState {
    match sample {
        None => state,
        Some(s) => {
            let left = state.polling && s.left;
            let right = state.polling && s.right;
            let middle = state.polling && s.middle;
            let left_pressed = left && !state.left_down;
            let double = left_pressed && is_double_click(state.last_clicked, s.now);
            MouseState {
                left_pressed,
                right_pressed: right && !state.right_down,
                middle_pressed: middle && !state.middle_down,
                double_clicked: double,
                last_clicked: if left_pressed && !double {
                    s.now
                } else {
                    state.last_clicked
                },
                pos_x: if state.polling {
                    s.shell_x
                } else {
                    state.pos_x
                },
                pos_y: if state.polling {
                    s.shell_y
                } else {
                    state.pos_y
                },
                left_down: if state.polling {
                    s.left
                } else {
                    state.left_down
                },
                right_down: if state.polling {
                    s.right
                } else {
                    state.right_down
                },
                middle_down: if state.polling {
                    s.middle
                } else {
                    state.middle_down
                },
                polling: state.polling,
            }
        },
    }
}

/// Refreshes the game's mouse record from one sample of the window's cursor.
pub fn read_mouse_state(state: &mut MouseState, sample: Option<MouseSample>)
    ensures
        *final(state) == refreshed(*old(state), sample),
{
    let s = match sample {
        None => {
            return ;
        },
        Some(s) => s,
    };
    let left_before = state.left_down;
    let right_before = state.right_down;
    let middle_before = state.middle_down;
    let mut left = false;
    let mut right = false;
    let mut middle = false;
    if state.polling {
        state.pos_x = s.shell_x;
        state.pos_y = s.shell_y;
        state.left_down = s.left;
        left = s.left;
        state.right_down = s.right;
        right = s.right;
        state.middle_down = s.middle;
        middle = s.middle;
    }
    state.left_pressed = left && !left_before;
    state.right_pressed = right && !right_before;
    state.middle_pressed = middle && !middle_before;
    state.double_clicked = false;
    if left && !left_before {
        let now = s.now;
        let last = state.last_clicked;
        let elapsed = now.wrapping_sub(last);
        assert(elapsed == (now - last) % 0x1_0000_0000) by (bit_vector)
            requires
                elapsed == now.wrapping_sub(last),
        ;
        if elapsed < DOUBLE_CLICK_MILLIS {
            state.double_clicked = true;
        } else {
            state.last_clicked = s.now;
        }
    }
}

/// A mouse button, as the overlay reports it.
#[derive(Clone, Copy, Debug, PartialEq, Eq, Structural)]
pub enum PointerButton {
    Primary,
    Secondary,
    Middle,
}

/// A pointer event handed to the overlay, at a position in shell coordinates.
#[derive(Clone, Copy, Debug, PartialEq, Eq, Structural)]
pub enum PointerEvent {
    Moved { x: i32, y: i32 },
    Button { x: i32, y: i32, button: PointerButton, pressed: bool },
}

/// The event for one button, if it changed between the two states.
pub open spec fn button_event(
    now: OverlayMouseState,
    held_now: bool,
    held_before: bool,
    button: PointerButton,
    pressed: bool,
) -> Seq<PointerEvent> {
    if held_now == pressed && held_before != pressed {
        seq![PointerEvent::Button { x: now.pos_x, y: now.pos_y, button, pressed }]
    } else {
        Seq::empty()
    }
}

/// The events that take the overlay from `before` to `now`: a move if the
/// position changed, then the presses of the left, right and middle buttons,
/// then their releases, all at the new position.
pub open spec fn pointer_events_spec(before: OverlayMouseState, now: OverlayMouseState) -> Seq<
    PointerEvent,
> {
    let moved = if now.pos_x != before.pos_x || now.pos_y != before.pos_y {
        seq![PointerEvent::Moved { x: now.pos_x, y: now.pos_y }]
    } else {
        Seq::empty()
    };
    moved + button_event(now, now.left_down, before.left_down, PointerButton::Primary, true)
        + button_event(now, now.right_down, before.right_down, PointerButton::Secondary, true)
        + button_event(now, now.middle_down, before.middle_down, PointerButton::Middle, true)
        + button_event(now, now.left_down, before.left_down, PointerButton::Primary, false)
        + button_event(now, now.right_down, before.right_down, PointerButton::Secondary, false)
        + button_event(now, now.middle_down, before.middle_down, PointerButton::Middle, false)
}

fn push_button_event(
    events: &mut Vec<PointerEvent>,
    now: OverlayMouseState,
    held_now: bool,
    held_before: bool,
    button: PointerButton,
    pressed: bool,
)
    ensures
        final(events)@ == old(events)@ + button_event(now, held_now, held_before, button, pressed),
{
    if held_now == pressed && held_before != pressed {
        events.push(PointerEvent::Button { x: now.pos_x, y: now.pos_y, button, pressed });
    }
    assert(events@ =~= old(events)@ + button_event(now, held_now, held_before, button, pressed));
}

/// The pointer events for the overlay after the mouse went from `before` to
/// `now`.
pub fn pointer_events(before: OverlayMouseState, now: OverlayMouseState) -> (events: Vec<PointerEvent>)
    ensures
        events@ == pointer_events_spec(before, now),
{
    let mut events: Vec<PointerEvent> = Vec::new();
    if now.pos_x != before.pos_x || now.pos_y != before.pos_y {
        events.push(PointerEvent::Moved { x: now.pos_x, y: now.pos_y });
    }
    push_button_event(&mut events, now, now.left_down, before.left_down, PointerButton::Primary, true);
    push_button_event(
        &mut events,
        now,
        now.right_down,
        before.right_down,
        PointerButton::Secondary,
        true,
    );
    push_button_event(&mut events, now, now.middle_down, before.middle_down, PointerButton::Middle, true);
    push_button_event(&mut events, now, now.left_down, before.left_down, PointerButton::Primary, false);
    push_button_event(
        &mut events,
        now,
        now.right_down,
        before.right_down,
        PointerButton::Secondary,
        false,
    );
    push_button_event(
        &mut events,
        now,
        now.middle_down,
        before.middle_down,
        PointerButton::Middle,
        false,
    );
    events
}

/// What the shell gets of the mouse: the overlay's state while the pointer is
/// over the shell and no prompt is open, and a released mouse otherwise.
pub fn forwarded_mouse_state(hovered: bool, prompt_open: bool, state: OverlayMouseState) -> (m:
    OverlayMouseState)
    ensures
        hovered && !prompt_open ==> m == state,
        !(hovered && !prompt_open) ==> m == OverlayMouseState::released_spec(),
{
    if hovered && !prompt_open {
        state
    } else {
        OverlayMouseState::released()
    }
}

impl OverlayMouseState {
    /// The released mouse, as a value of the specifications.
    pub open spec fn released_spec() -> OverlayMouseState {
        OverlayMouseState { pos_x: 0, pos_y: 0, left_down: false, right_down: false, middle_down: false }
    }
}

/// Whether the overlay's menu bar shows after this frame. A locked menu is
/// hidden; otherwise it shows once the pointer is near the top of the window
/// and hides once the pointer is over the shell with no menu open.
pub fn menu_bar_visible(visible: bool, locked: bool, near_top: bool, hovered: bool, menu_open: bool) -> (v:
    bool)
    ensures
        v == (if locked {
            false
        } else if near_top {
            true
        } else if hovered && !menu_open {
            false
        } else {
            visible
        }),
{
    if locked {
        false
    } else if near_top {
        true
    } else if hovered && !menu_open {
        false
    } else {
        visible
    }
}

/// An item of the overlay's menu bar.
#[derive(Clone, Copy, Debug, PartialEq, Eq, Structural)]
pub enum MenuItem {
    NewAlliance,
    HallOfHonor,
    FleeToDesktop,
    CombatVariables,
    CockpitControls,
    TheKeshik,
    About,
}

/// The window command that an item of the menu bar posts to the game, if it
/// posts one (fleeing and the about box are answered by the overlay itself).
pub fn menu_command(item: MenuItem) -> (id: Option<u16>)
    ensures
        id == (match item {
            MenuItem::NewAlliance => Some(40001u16),
            MenuItem::HallOfHonor => Some(40002u16),
            MenuItem::FleeToDesktop => None,
            MenuItem::CombatVariables => Some(40084u16),
            MenuItem::CockpitControls => Some(40011u16),
            MenuItem::TheKeshik => Some(40082u16),
            MenuItem::About => None,
        }),
{
    match item {
        MenuItem::NewAlliance => Some(40001),
        MenuItem::HallOfHonor => Some(40002),
        MenuItem::FleeToDesktop => None,
        MenuItem::CombatVariables => Some(40084),
        MenuItem::CockpitControls => Some(40011),
        MenuItem::TheKeshik => Some(40082),
        MenuItem::About => None,
    }
}

/// What the overlay's "Flee to Desktop" question leads to.
#[derive(Clone, Copy, Debug, PartialEq, Eq, Structural)]
pub enum ExitDialog {
    /// Yes: the game ends.
    Quit,
    /// No: the question closes.
    Close,
    /// Not answered yet: it stays.
    Keep,
}

/// The step of the exit question for the answer its window gave.
pub fn exit_dialog_step(answer: Option<bool>) -> (step: ExitDialog)
    ensures
        step == (match answer {
            Some(true) => ExitDialog::Quit,
            Some(false) => ExitDialog::Close,
            None => ExitDialog::Keep,
        }),
{
    match answer {
        Some(true) => ExitDialog::Quit,
        Some(false) => ExitDialog::Close,
        None => ExitDialog::Keep,
    }
}

/// Refreshing with no sample leaves the record as it was.
pub proof fn lemma_missed_refresh_keeps_state(state: MouseState)
    ensures
        refreshed(state, None) == state,
{
}

/// On a refresh that read the cursor, a button counts as pressed only when it
/// is held now and was not held before, and a double click is a left press.
pub proof fn lemma_pressed_only_on_edges(state: MouseState, sample: Option<MouseSample>)
    requires
        sample is Some,
    ensures
        refreshed(state, sample).left_pressed ==> !state.left_down && refreshed(state, sample).left_down,
        refreshed(state, sample).right_pressed ==> !state.right_down && refreshed(state, sample).right_down,
        refreshed(state, sample).middle_pressed ==> !state.middle_down
            && refreshed(state, sample).middle_down,
        refreshed(state, sample).double_clicked ==> refreshed(state, sample).left_pressed,
{
}

/// On a refresh that read the cursor while the game polls, each button is
/// pressed exactly when the sample holds it and the record did not: every
/// edge from up to down is a press, for the left, right and middle buttons
/// alike; the record then holds the sample's position and buttons. While
/// the game does not poll, no button is pressed and the held buttons stay.
pub proof fn lemma_pressed_on_every_edge(state: MouseState, s: MouseSample)
    ensures
        state.polling ==> {
            let r = refreshed(state, Some(s));
            &&& r.left_pressed == (s.left && !state.left_down)
            &&& r.right_pressed == (s.right && !state.right_down)
            &&& r.middle_pressed == (s.middle && !state.middle_down)
            &&& r.left_down == s.left && r.right_down == s.right && r.middle_down == s.middle
            &&& r.pos_x == s.shell_x && r.pos_y == s.shell_y
        },
        !state.polling ==> {
            let r = refreshed(state, Some(s));
            &&& !r.left_pressed && !r.right_pressed && !r.middle_pressed && !r.double_clicked
            &&& r.left_down == state.left_down && r.right_down == state.right_down
            &&& r.middle_down == state.middle_down
        },
{
}

/// Whether `button` is held in `state`.
pub open spec fn held(state: OverlayMouseState, button: PointerButton) -> bool {
    match button {
        PointerButton::Primary => state.left_down,
        PointerButton::Secondary => state.right_down,
        PointerButton::Middle => state.middle_down,
    }
}

/// Whether an event is one that going from `before` to `now` can give: a
/// move to the new position where it changed, or a button of the new
/// position that changed, pressed exactly when it is held now.
pub open spec fn event_fits(before: OverlayMouseState, now: OverlayMouseState, e: PointerEvent) -> bool {
    match e {
        PointerEvent::Moved { x, y } => x == now.pos_x && y == now.pos_y && (now.pos_x != before.pos_x
            || now.pos_y != before.pos_y),
        PointerEvent::Button { x, y, button, pressed } => x == now.pos_x && y == now.pos_y && held(
            now,
            button,
        ) == pressed && held(before, button) != pressed,
    }
}

proof fn lemma_fits_concat(before: OverlayMouseState, now: OverlayMouseState, a: Seq<PointerEvent>, b: Seq<PointerEvent>)
    requires
        forall|i: int| 0 <= i < a.len() ==> event_fits(before, now, #[trigger] a[i]),
        forall|i: int| 0 <= i < b.len() ==> event_fits(before, now, #[trigger] b[i]),
    ensures
        forall|i: int| 0 <= i < (a + b).len() ==> event_fits(before, now, #[trigger] (a + b)[i]),
{
    assert forall|i: int| 0 <= i < (a + b).len() implies event_fits(before, now, #[trigger] (a + b)[i]) by {
        if i < a.len() {
            assert((a + b)[i] == a[i]);
        } else {
            assert((a + b)[i] == b[i - a.len()]);
        }
    }
}

proof fn lemma_button_event_fits(
    before: OverlayMouseState,
    now: OverlayMouseState,
    button: PointerButton,
    pressed: bool,
)
    ensures
        forall|i: int|
            0 <= i < button_event(now, held(now, button), held(before, button), button, pressed).len()
                ==> event_fits(
                before,
                now,
                #[trigger] button_event(now, held(now, button), held(before, button), button, pressed)[i],
            ),
{
}

/// The events going from `before` to `now`, in the order they are made.
spec fn event_parts(before: OverlayMouseState, now: OverlayMouseState) -> Seq<Seq<PointerEvent>> {
    seq![
        if now.pos_x != before.pos_x || now.pos_y != before.pos_y {
            seq![PointerEvent::Moved { x: now.pos_x, y: now.pos_y }]
        } else {
            Seq::empty()
        },
        button_event(now, now.left_down, before.left_down, PointerButton::Primary, true),
        button_event(now, now.right_down, before.right_down, PointerButton::Secondary, true),
        button_event(now, now.middle_down, before.middle_down, PointerButton::Middle, true),
        button_event(now, now.left_down, before.left_down, PointerButton::Primary, false),
        button_event(now, now.right_down, before.right_down, PointerButton::Secondary, false),
        button_event(now, now.middle_down, before.middle_down, PointerButton::Middle, false),
    ]
}

/// The first `k` parts, one after the other.
spec fn joined(parts: Seq<Seq<PointerEvent>>, k: int) -> Seq<PointerEvent>
    decreases k,
{
    if k <= 0 {
        Seq::empty()
    } else {
        joined(parts, k - 1) + parts[k - 1]
    }
}

proof fn lemma_joined_is_events(before: OverlayMouseState, now: OverlayMouseState)
    ensures
        joined(event_parts(before, now), 7) =~= pointer_events_spec(before, now),
{
    let p = event_parts(before, now);
    assert(joined(p, 0) =~= Seq::<PointerEvent>::empty());
    assert(joined(p, 1) =~= p[0]);
    reveal_with_fuel(joined, 8);
}

proof fn lemma_joined_fits(before: OverlayMouseState, now: OverlayMouseState, k: int)
    requires
        0 <= k <= 7,
    ensures
        forall|i: int| 0 <= i < joined(event_parts(before, now), k).len() ==> event_fits(
            before,
            now,
            #[trigger] joined(event_parts(before, now), k)[i],
        ),
    decreases k,
{
    let p = event_parts(before, now);
    if k > 0 {
        lemma_joined_fits(before, now, k - 1);
        let part = p[k - 1];
        if k == 2 {
            lemma_button_event_fits(before, now, PointerButton::Primary, true);
        } else if k == 3 {
            lemma_button_event_fits(before, now, PointerButton::Secondary, true);
        } else if k == 4 {
            lemma_button_event_fits(before, now, PointerButton::Middle, true);
        } else if k == 5 {
            lemma_button_event_fits(before, now, PointerButton::Primary, false);
        } else if k == 6 {
            lemma_button_event_fits(before, now, PointerButton::Secondary, false);
        } else if k == 7 {
            lemma_button_event_fits(before, now, PointerButton::Middle, false);
        }
        assert forall|i: int| 0 <= i < part.len() implies event_fits(before, now, #[trigger] part[i]) by {}
        lemma_fits_concat(before, now, joined(p, k - 1), part);
    }
}

proof fn lemma_joined_keeps(parts: Seq<Seq<PointerEvent>>, k: int, m: int, i: int)
    requires
        0 <= k <= m <= parts.len(),
        0 <= i < joined(parts, k).len(),
    ensures
        joined(parts, k).len() <= joined(parts, m).len(),
        joined(parts, m)[i] == joined(parts, k)[i],
    decreases m - k,
{
    if k < m {
        lemma_joined_keeps(parts, k, m - 1, i);
        assert(joined(parts, m) == joined(parts, m - 1) + parts[m - 1]);
    }
}

proof fn lemma_part_reported(before: OverlayMouseState, now: OverlayMouseState, k: int, e: PointerEvent)
    requires
        1 <= k <= 7,
        event_parts(before, now)[k - 1] == seq![e],
    ensures
        pointer_events_spec(before, now).contains(e),
{
    let p = event_parts(before, now);
    let at = joined(p, k - 1).len() as int;
    assert(joined(p, k) == joined(p, k - 1) + seq![e]);
    assert(joined(p, k)[at] == e);
    lemma_joined_keeps(p, k, 7, at);
    lemma_joined_is_events(before, now);
    assert(pointer_events_spec(before, now)[at] == e);
}

/// Each button reaches the overlay as itself: every event is a move to a
/// changed position or a change of the button it names (a Secondary event
/// only from the right button, a Middle one only from the middle), pressed
/// exactly when that button is held now; and a button that went down gives
/// its own press, one that went up its own release, at the new position.
pub proof fn lemma_buttons_reported_as_themselves(before: OverlayMouseState, now: OverlayMouseState)
    ensures
        forall|i: int|
            0 <= i < pointer_events_spec(before, now).len() ==> event_fits(
                before,
                now,
                #[trigger] pointer_events_spec(before, now)[i],
            ),
        forall|b: PointerButton|
            held(now, b) && !held(before, b) ==> pointer_events_spec(before, now).contains(
                PointerEvent::Button { x: now.pos_x, y: now.pos_y, button: b, pressed: true },
            ),
        forall|b: PointerButton|
            !held(now, b) && held(before, b) ==> pointer_events_spec(before, now).contains(
                PointerEvent::Button { x: now.pos_x, y: now.pos_y, button: b, pressed: false },
            ),
        now.pos_x != before.pos_x || now.pos_y != before.pos_y ==> pointer_events_spec(
            before,
            now,
        ).contains(PointerEvent::Moved { x: now.pos_x, y: now.pos_y }),
{
    lemma_joined_fits(before, now, 7);
    lemma_joined_is_events(before, now);
    if now.pos_x != before.pos_x || now.pos_y != before.pos_y {
        lemma_part_reported(before, now, 1, PointerEvent::Moved { x: now.pos_x, y: now.pos_y });
    }
    assert forall|b: PointerButton| held(now, b) && !held(before, b) implies pointer_events_spec(
        before,
        now,
    ).contains(PointerEvent::Button { x: now.pos_x, y: now.pos_y, button: b, pressed: true }) by {
        let ev = PointerEvent::Button { x: now.pos_x, y: now.pos_y, button: b, pressed: true };
        let k = match b {
            PointerButton::Primary => 2int,
            PointerButton::Secondary => 3int,
            PointerButton::Middle => 4int,
        };
        assert(event_parts(before, now)[k - 1] == seq![ev]);
        lemma_part_reported(before, now, k, ev);
    }
    assert forall|b: PointerButton| !held(now, b) && held(before, b) implies pointer_events_spec(
        before,
        now,
    ).contains(PointerEvent::Button { x: now.pos_x, y: now.pos_y, button: b, pressed: false }) by {
        let ev = PointerEvent::Button { x: now.pos_x, y: now.pos_y, button: b, pressed: false };
        let k = match b {
            PointerButton::Primary => 5int,
            PointerButton::Secondary => 6int,
            PointerButton::Middle => 7int,
        };
        assert(event_parts(before, now)[k - 1] == seq![ev]);
        lemma_part_reported(before, now, k, ev);
    }
}

/// Where an event stands in the order the overlay gets them: the move
/// first, then the presses, then the releases, each of the left, right and
/// middle buttons in that order.
pub open spec fn event_rank(e: PointerEvent) -> int {
    match e {
        PointerEvent::Moved { .. } => 0,
        PointerEvent::Button { button, pressed, .. } => (if pressed {
            1int
        } else {
            4int
        }) + match button {
            PointerButton::Primary => 0int,
            PointerButton::Secondary => 1int,
            PointerButton::Middle => 2int,
        },
    }
}

proof fn lemma_joined_ranked(before: OverlayMouseState, now: OverlayMouseState, k: int)
    requires
        0 <= k <= 7,
    ensures
        forall|i: int|
            0 <= i < joined(event_parts(before, now), k).len() ==> event_rank(
                #[trigger] joined(event_parts(before, now), k)[i],
            ) < k,
        forall|i: int, j: int|
            0 <= i < j < joined(event_parts(before, now), k).len() ==> event_rank(
                #[trigger] joined(event_parts(before, now), k)[i],
            ) < event_rank(#[trigger] joined(event_parts(before, now), k)[j]),
    decreases k,
{
    let p = event_parts(before, now);
    if k > 0 {
        lemma_joined_ranked(before, now, k - 1);
        let part = p[k - 1];
        let a = joined(p, k - 1);
        assert(part.len() <= 1);
        assert forall|i: int| 0 <= i < part.len() implies event_rank(#[trigger] part[i]) == k - 1 by {}
        assert(joined(p, k) == a + part);
        assert forall|i: int| 0 <= i < (a + part).len() implies event_rank(#[trigger] (a + part)[i]) < k by {
            if i < a.len() {
                assert((a + part)[i] == a[i]);
            } else {
                assert((a + part)[i] == part[i - a.len()]);
            }
        }
        assert forall|i: int, j: int| 0 <= i < j < (a + part).len() implies event_rank(
            #[trigger] (a + part)[i],
        ) < event_rank(#[trigger] (a + part)[j]) by {
            assert((a + part)[i] == a[i]);
            if j < a.len() {
                assert((a + part)[j] == a[j]);
            } else {
                assert((a + part)[j] == part[j - a.len()]);
            }
        }
    }
}

/// The events come in one fixed order, each at most once: the move, then
/// the presses, then the releases, the left, right and middle buttons in
/// that order within each. With `lemma_buttons_reported_as_themselves` this
/// fixes the events of every change.
pub proof fn lemma_events_in_order(before: OverlayMouseState, now: OverlayMouseState)
    ensures
        forall|i: int, j: int|
            0 <= i < j < pointer_events_spec(before, now).len() ==> event_rank(
                #[trigger] pointer_events_spec(before, now)[i],
            ) < event_rank(#[trigger] pointer_events_spec(before, now)[j]),
{
    lemma_joined_ranked(before, now, 7);
    lemma_joined_is_events(before, now);
}

/// Two states that agree give no events.
pub proof fn lemma_no_change_no_events(state: OverlayMouseState)
    ensures
        pointer_events_spec(state, state).len() == 0,
{
}

} // verus!
