//! The shell's settings screen: the resolution row, whose value is the name
//! of the game's display driver in a 15-byte buffer, told apart by its fifth
//! character.

use crate::fixed::{div_trunc_i32, trunc_div};
use vstd::prelude::*;

verus! {

/// The size of the resolution row's value buffer.
pub const VALUE_LEN: usize = 15;

/// The bytes that a driver name is copied with, its terminating zero
/// included.
pub const NAME_BYTES: usize = 12;

/// The in-game resolution that the row shows.
#[derive(Clone, Copy, Debug, PartialEq, Eq, Structural)]
pub enum Resolution {
    /// 320 by 200, the game's "MCGA.DLL" (an empty value).
    Mcga,
    /// 640 by 480, "vesa480.dll".
    Vesa480,
    /// 1024 by 768, "vesa768.dll".
    Vesa768,
}

/// The resolution that a value names, by its fifth character.
pub open spec fn resolution_spec(value: Seq<u8>) -> Resolution {
    if value[4] == 52 {
        Resolution::Vesa480
    } else if value[4] == 55 {
        Resolution::Vesa768
    } else {
        Resolution::Mcga
    }
}

/// The resolution that the row's value names.
pub fn resolution_of(value: &[u8]) -> (r: Resolution)
    requires
        value@.len() == VALUE_LEN,
    ensures
        r == resolution_spec(value@),
{
    if value[4] == 52 {
        Resolution::Vesa480
    } else if value[4] == 55 {
        Resolution::Vesa768
    } else {
        Resolution::Mcga
    }
}

impl Resolution {
    /// The row's label (the `~` marks it for the shell's label renderer).
    pub fn label(self) -> (l: &'static str)
        ensures
            self == Resolution::Vesa480 ==> l@ == "~640x480"@,
            self == Resolution::Vesa768 ==> l@ == "~1024x768"@,
            self == Resolution::Mcga ==> l@ == "~320x200"@,
    {
        match self {
            Resolution::Vesa480 => "~640x480",
            Resolution::Vesa768 => "~1024x768",
            Resolution::Mcga => "~320x200",
        }
    }

    /// The resolution that a click on the row moves to: 320 by 200, then
    /// 640 by 480, then 1024 by 768, then round again.
    pub open spec fn next(self) -> Resolution {
        match self {
            Resolution::Mcga => Resolution::Vesa480,
            Resolution::Vesa480 => Resolution::Vesa768,
            Resolution::Vesa768 => Resolution::Mcga,
        }
    }
}

/// The label of the resolution row's value.
pub fn resolution_label(value: &[u8]) -> (l: &'static str)
    requires
        value@.len() == VALUE_LEN,
    ensures
        resolution_spec(value@) == Resolution::Vesa480 ==> l@ == "~640x480"@,
        resolution_spec(value@) == Resolution::Vesa768 ==> l@ == "~1024x768"@,
        resolution_spec(value@) == Resolution::Mcga ==> l@ == "~320x200"@,
{
    resolution_of(value).label()
}

/// Where the label is drawn across: the middle of the row, rounded toward
/// zero.
pub fn label_x(left: i32, width: i32) -> (x: i32)
    requires
        i32::MIN <= left + trunc_div(width as int, 2) <= i32::MAX,
    ensures
        x == left + trunc_div(width as int, 2),
{
    left + div_trunc_i32(width, 2)
}

/// "vesa480.dll" and its terminating zero.
pub open spec fn vesa480_bytes() -> Seq<u8> {
    seq![118u8, 101, 115, 97, 52, 56, 48, 46, 100, 108, 108, 0]
}

/// "vesa768.dll" and its terminating zero.
pub open spec fn vesa768_bytes() -> Seq<u8> {
    seq![118u8, 101, 115, 97, 55, 54, 56, 46, 100, 108, 108, 0]
}

/// The value after a click on the row: a 640 by 480 value becomes
/// "vesa768.dll", a 1024 by 768 one is cleared (320 by 200), and any other
/// becomes "vesa480.dll". A name is copied with its zero over the start of
/// the buffer; the bytes after it stay.
pub open spec fn toggled(value: Seq<u8>) -> Seq<u8> {
    match resolution_spec(value) {
        Resolution::Vesa480 => vesa768_bytes() + value.skip(NAME_BYTES as int),
        Resolution::Vesa768 => Seq::new(VALUE_LEN as nat, |k: int| 0u8),
        Resolution::Mcga => vesa480_bytes() + value.skip(NAME_BYTES as int),
    }
}

/// Cycles the resolution row's value.
pub fn resolution_toggle(value: &[u8]) -> (next: Vec<u8>)
    requires
        value@.len() == VALUE_LEN,
    ensures
        next@ == toggled(value@),
{
    let r = resolution_of(value);
    let mut next: Vec<u8> = match r {
        Resolution::Vesa480 => vec![118u8, 101, 115, 97, 55, 54, 56, 46, 100, 108, 108, 0],
        Resolution::Vesa768 => vec![0u8, 0, 0, 0, 0, 0, 0, 0, 0, 0, 0, 0],
        Resolution::Mcga => vec![118u8, 101, 115, 97, 52, 56, 48, 46, 100, 108, 108, 0],
    };
    let mut i: usize = NAME_BYTES;
    while i < VALUE_LEN
        invariant
            NAME_BYTES <= i <= VALUE_LEN,
            value@.len() == VALUE_LEN,
            next@.len() == i,
            r == resolution_spec(value@),
            forall|k: int| 0 <= k < NAME_BYTES ==> #[trigger] next@[k] == toggled(value@)[k],
            forall|k: int| NAME_BYTES <= k < i ==> #[trigger] next@[k] == toggled(value@)[k],
        decreases VALUE_LEN - i,
    {
        let b = match r {
            Resolution::Vesa768 => 0u8,
            _ => value[i],
        };
        next.push(b);
        i = i + 1;
    }
    assert(next@ =~= toggled(value@));
    next
}

/// A click moves the row to the next resolution, whatever the buffer held.
pub proof fn lemma_toggle_moves_to_next(value: Seq<u8>)
    requires
        value.len() == VALUE_LEN,
    ensures
        toggled(value).len() == VALUE_LEN,
        resolution_spec(toggled(value)) == resolution_spec(value).next(),
{
    let t = toggled(value);
    match resolution_spec(value) {
        Resolution::Vesa480 => assert(t[4] == 55),
        Resolution::Vesa768 => assert(t[4] == 0),
        Resolution::Mcga => assert(t[4] == 52),
    }
}

/// Three clicks bring the row back to the resolution it showed.
pub proof fn lemma_three_toggles_cycle(value: Seq<u8>)
    requires
        value.len() == VALUE_LEN,
    ensures
        resolution_spec(toggled(toggled(toggled(value)))) == resolution_spec(value),
{
    lemma_toggle_moves_to_next(value);
    lemma_toggle_moves_to_next(toggled(value));
    lemma_toggle_moves_to_next(toggled(toggled(value)));
}

} // verus!
