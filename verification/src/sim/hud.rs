//! The HUD box: a 4:3 box of the game's HUD size, centred in a game window
//! that may be wider, and the scaling of the HUD's normalised 16.16
//! coordinates into it.

use crate::fixed::{div_trunc_i32, fmul16, fmul16_spec, trunc_div};
use crate::sim::window::GameWindowGeometry;
use vstd::prelude::*;

verus! {

/// A rectangle of the game's render targets, corners included.
#[derive(Clone, Copy, Debug, PartialEq, Eq, Structural)]
pub struct Rect {
    pub left: i32,
    pub top: i32,
    pub right: i32,
    pub bottom: i32,
}

/// A point in normalised 16.16 or in screen coordinates.
#[derive(Clone, Copy, Debug, PartialEq, Eq, Structural)]
pub struct Point {
    pub x: i32,
    pub y: i32,
}

/// The window size as the game's signed arithmetic reads it.
pub open spec fn as_i32(x: u32) -> int {
    if x > i32::MAX {
        x - 0x1_0000_0000
    } else {
        x as int
    }
}

/// Where the HUD box starts in the game window: the box centred, each
/// coordinate rounded toward zero.
pub open spec fn hud_origin_spec(window_width: u32, window_height: u32, geometry: GameWindowGeometry) -> (
    int,
    int,
) {
    (
        trunc_div(as_i32(window_width) - geometry.width, 2),
        trunc_div(as_i32(window_height) - geometry.height, 2),
    )
}

fn u32_as_i32(x: u32) -> (r: i32)
    ensures
        r == as_i32(x),
{
    if x > 0x7fff_ffff {
        let d = x - 0x8000_0000u32;
        assert(d < 0x8000_0000);
        (d as i32) - 0x7fff_ffff - 1
    } else {
        x as i32
    }
}

/// Where the HUD box starts in the game window. The differences must fit
/// in 32 bits, where the game computes them.
pub fn hud_origin(window_width: u32, window_height: u32, geometry: GameWindowGeometry) -> (origin: (i32, i32))
    requires
        i32::MIN <= as_i32(window_width) - geometry.width <= i32::MAX,
        i32::MIN <= as_i32(window_height) - geometry.height <= i32::MAX,
    ensures
        origin.0 == hud_origin_spec(window_width, window_height, geometry).0,
        origin.1 == hud_origin_spec(window_width, window_height, geometry).1,
{
    let w = u32_as_i32(window_width);
    let h = u32_as_i32(window_height);
    (div_trunc_i32(w - geometry.width, 2), div_trunc_i32(h - geometry.height, 2))
}

/// A coordinate scaled into the HUD box: the box's size less one times the
/// 16.16 coordinate, moved to the box's start.
pub open spec fn scaled(origin: i32, extent_minus_1: i32, v: i32) -> int {
    origin + fmul16_spec(extent_minus_1, v)
}

/// Whether the scaled coordinate fits in 32 bits.
pub open spec fn scales(origin: i32, extent_minus_1: i32, v: i32) -> bool {
    i32::MIN <= scaled(origin, extent_minus_1, v) <= i32::MAX
}

/// A rectangle of normalised 16.16 coordinates scaled into the HUD box.
pub fn scale_rect_to_screen(origin: (i32, i32), width_minus_1: i32, height_minus_1: i32, src: Rect) -> (dst:
    Rect)
    requires
        scales(origin.0, width_minus_1, src.left),
        scales(origin.1, height_minus_1, src.top),
        scales(origin.0, width_minus_1, src.right),
        scales(origin.1, height_minus_1, src.bottom),
    ensures
        dst.left == scaled(origin.0, width_minus_1, src.left),
        dst.top == scaled(origin.1, height_minus_1, src.top),
        dst.right == scaled(origin.0, width_minus_1, src.right),
        dst.bottom == scaled(origin.1, height_minus_1, src.bottom),
{
    Rect {
        left: origin.0 + fmul16(width_minus_1, src.left),
        top: origin.1 + fmul16(height_minus_1, src.top),
        right: origin.0 + fmul16(width_minus_1, src.right),
        bottom: origin.1 + fmul16(height_minus_1, src.bottom),
    }
}

/// A point of normalised 16.16 coordinates scaled into the HUD box.
pub fn scale_point_to_screen(origin: (i32, i32), width_minus_1: i32, height_minus_1: i32, src: Point) -> (dst:
    Point)
    requires
        scales(origin.0, width_minus_1, src.x),
        scales(origin.1, height_minus_1, src.y),
    ensures
        dst.x == scaled(origin.0, width_minus_1, src.x),
        dst.y == scaled(origin.1, height_minus_1, src.y),
{
    Point { x: origin.0 + fmul16(width_minus_1, src.x), y: origin.1 + fmul16(height_minus_1, src.y) }
}

/// The start of a span of `size` pixels centred in the HUD box along one
/// axis: half the room that is left, rounded toward zero.
pub open spec fn centred_start(origin: i32, extent_minus_1: i32, size: int) -> int {
    origin + trunc_div(extent_minus_1 - size - 1, 2)
}

/// Whether centring a rectangle stays within the game's 32-bit arithmetic.
pub open spec fn centring_fits(origin: (i32, i32), width_minus_1: i32, height_minus_1: i32, src: Rect) -> bool {
    let width = src.right - src.left + 1;
    let height = src.bottom - src.top + 1;
    &&& i32::MIN <= src.right - src.left <= i32::MAX
    &&& i32::MIN <= width <= i32::MAX
    &&& i32::MIN <= src.bottom - src.top <= i32::MAX
    &&& i32::MIN <= height <= i32::MAX
    &&& i32::MIN <= width_minus_1 - width <= i32::MAX
    &&& i32::MIN <= width_minus_1 - width - 1 <= i32::MAX
    &&& i32::MIN <= height_minus_1 - height <= i32::MAX
    &&& i32::MIN <= height_minus_1 - height - 1 <= i32::MAX
    &&& i32::MIN <= centred_start(origin.0, width_minus_1, width) <= i32::MAX
    &&& i32::MIN <= centred_start(origin.1, height_minus_1, height) <= i32::MAX
    &&& i32::MIN <= centred_start(origin.0, width_minus_1, width) + width <= i32::MAX
    &&& i32::MIN <= centred_start(origin.0, width_minus_1, width) + width - 1 <= i32::MAX
    &&& i32::MIN <= centred_start(origin.1, height_minus_1, height) + height <= i32::MAX
    &&& i32::MIN <= centred_start(origin.1, height_minus_1, height) + height - 1 <= i32::MAX
}

/// A rectangle of the same size as `src`, centred in the HUD box.
pub fn center_rect_on_screen(origin: (i32, i32), width_minus_1: i32, height_minus_1: i32, src: Rect) -> (dst:
    Rect)
    requires
        centring_fits(origin, width_minus_1, height_minus_1, src),
    ensures
        dst.left == centred_start(origin.0, width_minus_1, src.right - src.left + 1),
        dst.top == centred_start(origin.1, height_minus_1, src.bottom - src.top + 1),
        dst.right == dst.left + (src.right - src.left),
        dst.bottom == dst.top + (src.bottom - src.top),
{
    let width = src.right - src.left + 1;
    let height = src.bottom - src.top + 1;
    let left = origin.0 + div_trunc_i32(width_minus_1 - width - 1, 2);
    let top = origin.1 + div_trunc_i32(height_minus_1 - height - 1, 2);
    Rect { left, top, right: left + width - 1, bottom: top + height - 1 }
}

/// The horizon haze after the game set up a resolution: thinned by the HUD
/// box's horizontal start, so the haze lines up with the widened view.
pub fn set_res(haze_thickness: i32, origin_x: i32) -> (r: i32)
    requires
        i32::MIN <= haze_thickness - origin_x <= i32::MAX,
    ensures
        r == haze_thickness - origin_x,
{
    haze_thickness - origin_x
}

/// The whole game window, as a rectangle (an empty window gives the single
/// pixel at the origin).
pub open spec fn framebuffer_rect(window_width: u32, window_height: u32) -> Rect {
    Rect {
        left: 0,
        top: 0,
        right: if as_i32(window_width) - 1 > 0 {
            (as_i32(window_width) - 1) as i32
        } else {
            0
        },
        bottom: if as_i32(window_height) - 1 > 0 {
            (as_i32(window_height) - 1) as i32
        } else {
            0
        },
    }
}

impl Rect {
    /// Makes the rectangle cover the whole game window. A window width or
    /// height that reads as `i32::MIN` has no last pixel and is left out.
    pub fn cover_framebuffer(&mut self, window_width: u32, window_height: u32)
        requires
            as_i32(window_width) > i32::MIN,
            as_i32(window_height) > i32::MIN,
        ensures
            *final(self) == framebuffer_rect(window_width, window_height),
    {
        let w = u32_as_i32(window_width) - 1;
        let h = u32_as_i32(window_height) - 1;
        self.left = 0;
        self.top = 0;
        self.right = if w > 0 {
            w
        } else {
            0
        };
        self.bottom = if h > 0 {
            h
        } else {
            0
        };
    }

    /// Makes the rectangle cover the HUD box, where the game has allocated
    /// one; without it the rectangle is left as it is.
    pub fn cover_hud_box(&mut self, geometry: Option<GameWindowGeometry>, origin: (i32, i32))
        requires
            geometry matches Some(g) ==> i32::MIN <= origin.0 + g.width - 1 <= i32::MAX && i32::MIN
                <= origin.0 + g.width <= i32::MAX && i32::MIN <= origin.1 + g.height - 1 <= i32::MAX
                && i32::MIN <= origin.1 + g.height <= i32::MAX,
        ensures
            match geometry {
                None => *final(self) == *old(self),
                Some(g) => *final(self) == (Rect {
                    left: origin.0,
                    top: origin.1,
                    right: (origin.0 + g.width - 1) as i32,
                    bottom: (origin.1 + g.height - 1) as i32,
                }),
            },
    {
        match geometry {
            None => {},
            Some(g) => {
                self.left = origin.0;
                self.top = origin.1;
                self.right = origin.0 + g.width - 1;
                self.bottom = origin.1 + g.height - 1;
            },
        }
    }
}

/// A HUD box as wide as the window starts at its left edge, and one as tall
/// at its top.
pub proof fn lemma_full_width_box_starts_at_edge(window_width: u32, window_height: u32, geometry: GameWindowGeometry)
    requires
        as_i32(window_width) == geometry.width,
        as_i32(window_height) == geometry.height,
    ensures
        hud_origin_spec(window_width, window_height, geometry) == (0int, 0int),
{
}

/// A HUD box centred in a window wider by an even number of pixels has as
/// many pixels on either side.
pub proof fn lemma_hud_box_is_centred(window_width: u32, geometry: GameWindowGeometry, margin: int)
    requires
        margin >= 0,
        as_i32(window_width) == geometry.width + 2 * margin,
    ensures
        hud_origin_spec(window_width, 0, geometry).0 == margin,
        as_i32(window_width) - (hud_origin_spec(window_width, 0, geometry).0 + geometry.width) == margin,
{
    crate::fixed::lemma_trunc_div_exact(2 * margin, 2, margin);
}

} // verus!
