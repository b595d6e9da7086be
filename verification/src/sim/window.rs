//! The sim's window: the resolution that the game's display driver name
//! selects, the HUD box that goes with it, what a frame's blit does, and the
//! handling of window messages.

use crate::sim::hud::Rect;
use crate::text::{ascii_bytes, ascii_upper_bytes, upper_name, uppercase_name};
use vstd::prelude::*;

verus! {

/// The size of the HUD box that the game allocated.
#[derive(Clone, Copy, Debug, PartialEq, Eq, Structural)]
pub struct GameWindowGeometry {
    pub width: i32,
    pub height: i32,
}

fn bytes_equal(a: &[u8], b: &[u8]) -> (eq: bool)
    ensures
        eq == (a@ == b@),
{
    if a.len() != b.len() {
        return false;
    }
    let mut i: usize = 0;
    while i < a.len()
        invariant
            a@.len() == b@.len(),
            i <= a@.len(),
            forall|k: int| 0 <= k < i ==> a@[k] == b@[k],
        decreases a@.len() - i,
    {
        if a[i] != b[i] {
            assert(a@[i as int] != b@[i as int]);
            return false;
        }
        i = i + 1;
    }
    assert(a@ =~= b@);
    true
}

/// The name of the driver of the 640 by 480 mode.
pub open spec fn vesa480() -> Seq<u8> {
    seq![86u8, 69, 83, 65, 52, 56, 48, 46, 68, 76, 76]
}

/// The name of the driver of the 1024 by 768 mode.
pub open spec fn vesa768() -> Seq<u8> {
    seq![86u8, 69, 83, 65, 55, 54, 56, 46, 68, 76, 76]
}

fn vesa480_name() -> (v: Vec<u8>)
    ensures
        v@ == vesa480(),
{
    let v = vec![86u8, 69, 83, 65, 52, 56, 48, 46, 68, 76, 76];
    assert(v@ =~= vesa480());
    v
}

fn vesa768_name() -> (v: Vec<u8>)
    ensures
        v@ == vesa768(),
{
    let v = vec![86u8, 69, 83, 65, 55, 54, 56, 46, 68, 76, 76];
    assert(v@ =~= vesa768());
    v
}

/// The game window's size for a display driver name, given in upper case
/// (the game's names come in any case): 640 or 854 by 480 for
/// "VESA480.DLL", 1024 or 1366 by 768 for "VESA768.DLL", and 320 or 427 by
/// 240 for any other (the game's "MCGA.DLL"), the wider of each where the
/// widescreen setting is on.
pub open spec fn resolution_for(name: Seq<u8>, widescreen: bool) -> (u32, u32) {
    if name == vesa480() {
        (if widescreen {
            854u32
        } else {
            640
        }, 480u32)
    } else if name == vesa768() {
        (if widescreen {
            1366u32
        } else {
            1024
        }, 768u32)
    } else {
        (if widescreen {
            427u32
        } else {
            320
        }, 240u32)
    }
}

/// The upper-cased name that a driver name is compared as: the name put in
/// upper case as `str::to_uppercase` does. A name that is not UTF-8 is read
/// with replacement characters, which are their own upper case, so it names
/// no driver: it stands as the empty name.
pub open spec fn compared_name(name: Seq<u8>) -> Seq<u8> {
    match upper_name(name) {
        Some(u) => u,
        None => Seq::empty(),
    }
}

/// The game window's size for the display driver that the game names, the
/// name compared in upper case (so without regard to case): see
/// `resolution_for`.
pub fn set_game_resolution(name: &[u8], widescreen: bool) -> (size: (u32, u32))
    ensures
        size == resolution_for(compared_name(name@), widescreen),
        ascii_bytes(name@) ==> size == resolution_for(ascii_upper_bytes(name@), widescreen),
{
    match uppercase_name(name) {
        Some(upper) => resolution_of_upper_name(upper.as_slice(), widescreen),
        None => {
            let empty: Vec<u8> = Vec::new();
            assert(empty@ =~= Seq::<u8>::empty());
            resolution_of_upper_name(empty.as_slice(), widescreen)
        },
    }
}

/// The game window's size for a driver name already in upper case.
pub fn resolution_of_upper_name(name: &[u8], widescreen: bool) -> (size: (u32, u32))
    ensures
        size == resolution_for(name@, widescreen),
{
    let v480 = vesa480_name();
    let v768 = vesa768_name();
    if bytes_equal(name, v480.as_slice()) {
        (if widescreen {
            854
        } else {
            640
        }, 480)
    } else if bytes_equal(name, v768.as_slice()) {
        (if widescreen {
            1366
        } else {
            1024
        }, 768)
    } else {
        (if widescreen {
            427
        } else {
            320
        }, 240)
    }
}

/// The game window's size in the classic modes, with no widescreen setting
/// and the 200-line MCGA mode, for an upper-cased driver name: 640 by 480,
/// 1024 by 768, or 320 by 200 for "MCGA.DLL" and any other name.
pub open spec fn classic_resolution_for(name: Seq<u8>) -> (u32, u32) {
    if name == vesa480() {
        (640u32, 480u32)
    } else if name == vesa768() {
        (1024u32, 768u32)
    } else {
        (320u32, 200u32)
    }
}

/// The game window's size for a display driver name in the classic modes,
/// the name compared in upper case. The name must be UTF-8: the classic
/// hook aborts on one that is not.
pub fn set_game_resolution_classic(name: &[u8]) -> (size: (u32, u32))
    requires
        vstd::utf8::valid_utf8(name@),
    ensures
        size == classic_resolution_for(compared_name(name@)),
        ascii_bytes(name@) ==> size == classic_resolution_for(ascii_upper_bytes(name@)),
{
    match uppercase_name(name) {
        Some(upper) => classic_resolution_of_upper_name(upper.as_slice()),
        None => {
            let empty: Vec<u8> = Vec::new();
            assert(empty@ =~= Seq::<u8>::empty());
            classic_resolution_of_upper_name(empty.as_slice())
        },
    }
}

/// The game window's size in the classic modes for a driver name already
/// in upper case.
pub fn classic_resolution_of_upper_name(name: &[u8]) -> (size: (u32, u32))
    ensures
        size == classic_resolution_for(name@),
{
    let v480 = vesa480_name();
    let v768 = vesa768_name();
    if bytes_equal(name, v480.as_slice()) {
        (640, 480)
    } else if bytes_equal(name, v768.as_slice()) {
        (1024, 768)
    } else {
        (320, 200)
    }
}

/// The HUD box for a game window height: the 4:3 box of that height for the
/// 480 and 768 line modes, 320 by 240 otherwise.
pub open spec fn hud_box_for(window_height: u32) -> (i32, i32) {
    if window_height == 480 {
        (640i32, 480i32)
    } else if window_height == 768 {
        (1024i32, 768i32)
    } else {
        (320i32, 240i32)
    }
}

/// What setting up the HUD box changes after the game's own set-up returned
/// `result`: where it succeeded and allocated a box, the box takes the size
/// that goes with the window height, and the last column and row are cached
/// for the scaling functions.
pub fn init_game_window_geometry(result: i32, geometry: Option<GameWindowGeometry>, window_height: u32) -> (r:
    Option<(GameWindowGeometry, i32, i32)>)
    ensures
        r == (if result != 0 && geometry is Some {
            let (w, h) = hud_box_for(window_height);
            Some((GameWindowGeometry { width: w, height: h }, (w - 1) as i32, (h - 1) as i32))
        } else {
            None
        }),
{
    let (width, height): (i32, i32) = if window_height == 480 {
        (640, 480)
    } else if window_height == 768 {
        (1024, 768)
    } else {
        (320, 240)
    };
    if result != 0 && geometry.is_some() {
        Some((GameWindowGeometry { width, height }, width - 1, height - 1))
    } else {
        None
    }
}

/// What a frame's blit does.
#[derive(Clone, Copy, Debug, PartialEq, Eq, Structural)]
pub enum BlitAction {
    /// Nothing: the window is not active.
    Nothing,
    /// Flip the whole frame to the window.
    Flip,
    /// Stretch the given source rectangle (left, top, right, bottom) to the
    /// window, then take the other source rectangle for the next time.
    Stretch(i32, i32, i32, i32),
}

/// The blit of a frame: a pending stretch is done from its source rectangle,
/// whose left and top are exclusive; otherwise an active window is flipped.
pub fn blit(stretch_pending: bool, window_active: bool, source: Rect) -> (a: BlitAction)
    requires
        stretch_pending ==> source.left < i32::MAX && source.top < i32::MAX,
    ensures
        a == (if !stretch_pending {
            if window_active {
                BlitAction::Flip
            } else {
                BlitAction::Nothing
            }
        } else {
            BlitAction::Stretch(
                (source.left + 1) as i32,
                (source.top + 1) as i32,
                source.right,
                source.bottom,
            )
        }),
{
    if !stretch_pending {
        if window_active {
            BlitAction::Flip
        } else {
            BlitAction::Nothing
        }
    } else {
        BlitAction::Stretch(source.left + 1, source.top + 1, source.right, source.bottom)
    }
}

/// What handling one window message does with a message that was taken off
/// the queue: a quit message addressed to a window ends the sim, anything
/// else (thread messages included) is dispatched. `true` is a dispatch.
pub fn dispatches(no_window: bool, is_quit: bool) -> (d: bool)
    ensures
        d == (no_window || !is_quit),
{
    no_window || !is_quit
}

/// Whether the message handler looks at the queue: not once the sim is
/// quitting. (An inactive window first waits for a message.)
pub fn handle_messages(should_quit: bool) -> (peek: bool)
    ensures
        peek == !should_quit,
{
    !should_quit
}

/// Every resolution that the game can select gets a 4:3 HUD box no larger
/// than its window.
pub proof fn lemma_hud_box_fits_window(name: Seq<u8>, widescreen: bool)
    ensures
        ({
            let (w, h) = resolution_for(name, widescreen);
            let (bw, bh) = hud_box_for(h);
            &&& bw <= w && bh == h
            &&& 3 * bw == 4 * bh
        }),
{
}

} // verus!
