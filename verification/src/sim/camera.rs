//! The camera (the game's "eyepoint"): the field of view widened with the
//! window ("Hor+"), square pixels, and the render targets of the satellite
//! view widened to the whole window behind the centred HUD.

use crate::fixed::{div_trunc_i64, trunc_div};
use vstd::prelude::*;

verus! {

/// The 4:3 aspect ratio in 16.16 (rounded down).
pub const ASPECT_4_3: i64 = 0x15555;

/// One in 16.16.
pub const FIXED_ONE: i32 = 0x10000;

/// The number of slots of the game's render target table.
pub const RENDER_TARGET_SLOTS: usize = 11;

/// The cockpit layout of the satellite view.
pub const SATELLITE_LAYOUT: i32 = 4;

/// The window's aspect ratio in 16.16, rounded down.
pub open spec fn aspect_16(width: u32, height: u32) -> int {
    (width * 0x10000) / (height as int)
}

/// The factor that widens the field of view from 4:3 to the window's aspect
/// ratio, in 16.16: 4:3 divided by the window's aspect (both rounded down),
/// cut to 32 bits. An empty window keeps the view as it is.
pub open spec fn fov_correction_spec(width: u32, height: u32) -> i32 {
    if width == 0 || height == 0 {
        FIXED_ONE
    } else {
        ((ASPECT_4_3 * 0x10000) / aspect_16(width, height)) as i32
    }
}

/// The correction of the field of view for a game window. A window whose
/// aspect rounds down to zero in 16.16 (over 65536 times as tall as wide)
/// would divide by zero and is left out.
pub fn fov_correction(width: u32, height: u32) -> (c: i32)
    requires
        width != 0 && height != 0 ==> aspect_16(width, height) != 0,
    ensures
        c == fov_correction_spec(width, height),
{
    if width == 0 || height == 0 {
        return FIXED_ONE;
    }
    let w = width as u64;
    let h = height as u64;
    let aspect = (w * 0x10000) / h;
    let scaled: u64 = 0x15555u64 * 0x10000u64;
    let q = scaled / aspect;
    q as i32
}

/// The field of view after the correction: the game's own value times the
/// correction in 16.16, rounded down and cut to 32 bits.
pub open spec fn corrected_fov_spec(raw_fov: i32, correction: i32) -> i32 {
    ((raw_fov * correction) / 0x10000) as i32
}

/// Applies the correction to the game's own field of view. The game keeps
/// its uncorrected value between frames, so the correction never compounds.
pub fn apply_eyepoint_fov(raw_fov: i32, correction: i32) -> (fov: i32)
    ensures
        fov == corrected_fov_spec(raw_fov, correction),
{
    proof {
        crate::fixed::lemma_i32_product_bounds(raw_fov, correction);
    }
    let p = (raw_fov as i64) * (correction as i64);
    let q = p >> 16u64;
    assert(q == p / 0x10000) by (bit_vector)
        requires
            q == p >> 16u64,
    ;
    q as i32
}

/// The pixel aspect ratio that the projection is set up with: square.
pub fn setup_eyepoint_projection() -> (aspect: i32)
    ensures
        aspect == FIXED_ONE,
{
    FIXED_ONE
}

/// The index of a slot of the render target table, where it exists.
pub fn render_target(slot: i32) -> (index: Option<usize>)
    ensures
        index == (if 0 <= slot < RENDER_TARGET_SLOTS {
            Some(slot as usize)
        } else {
            None::<usize>
        }),
{
    if 0 <= slot && slot < 11 {
        Some(slot as usize)
    } else {
        None
    }
}

/// What loading a cockpit layout changes.
#[derive(Clone, Copy, Debug, PartialEq, Eq, Structural)]
pub struct LayoutChanges {
    /// The render target slot widened to the whole window, if it exists.
    pub widen_slot: Option<usize>,
    /// The satellite view's scene slot, if this layout sets it.
    pub scene_slot: Option<i32>,
    /// Whether the layout's own viewport is widened too.
    pub widen_viewport: bool,
}

/// The changes after the game loaded a cockpit layout whose viewport is
/// copied into `slot`: that slot covers the whole window; the satellite
/// layout also makes it the scene slot and widens its viewport.
pub fn load_cockpit_layout(cockpit: i32, slot: i32, has_viewport: bool) -> (c: LayoutChanges)
    ensures
        c.widen_slot == (if 0 <= slot < RENDER_TARGET_SLOTS {
            Some(slot as usize)
        } else {
            None::<usize>
        }),
        c.scene_slot == (if cockpit == SATELLITE_LAYOUT {
            Some(slot)
        } else {
            None::<i32>
        }),
        c.widen_viewport == (cockpit == SATELLITE_LAYOUT && has_viewport),
{
    let widen_slot = render_target(slot);
    if cockpit == SATELLITE_LAYOUT {
        LayoutChanges { widen_slot, scene_slot: Some(slot), widen_viewport: has_viewport }
    } else {
        LayoutChanges { widen_slot, scene_slot: None, widen_viewport: false }
    }
}

/// The slot widened before the game selects render target `slot`: only the
/// main scene (slot 0) and the satellite view's scene are, where they exist.
pub fn select_render_target(slot: i32, scene_slot: i32) -> (widen: Option<usize>)
    ensures
        widen == (if (slot == 0 || slot == scene_slot) && 0 <= slot < RENDER_TARGET_SLOTS {
            Some(slot as usize)
        } else {
            None::<usize>
        }),
{
    if slot == 0 || slot == scene_slot {
        render_target(slot)
    } else {
        None
    }
}

/// The world span of the satellite map: for the scene slot, with a HUD box
/// of positive width, scaled from the box's width to the window's (the
/// product divided toward zero, cut to 32 bits); otherwise as the game gave
/// it.
pub open spec fn map_span(slot: i32, scene_slot: i32, box_width: Option<i32>, window_width: u32, world_span: i32) -> i32 {
    match box_width {
        Some(bw) => if slot == scene_slot && bw > 0 {
            trunc_div(world_span * window_width, bw as int) as i32
        } else {
            world_span
        },
        None => world_span,
    }
}

/// The world span that the satellite map is projected with.
pub fn setup_map_projection(slot: i32, scene_slot: i32, box_width: Option<i32>, window_width: u32, world_span: i32) -> (span:
    i32)
    ensures
        span == map_span(slot, scene_slot, box_width, window_width, world_span),
{
    match box_width {
        Some(bw) => {
            if slot == scene_slot && bw > 0 {
                assert(-0x8000_0000_0000_0000 < world_span * window_width < 0x8000_0000_0000_0000) by (
                nonlinear_arith)
                    requires
                        i32::MIN <= world_span <= i32::MAX,
                        0 <= window_width <= u32::MAX,
                ;
                let p = (world_span as i64) * (window_width as i64);
                div_trunc_i64(p, bw as i64) as i32
            } else {
                world_span
            }
        },
        None => world_span,
    }
}

/// Whether the satellite view's readouts are drawn in the HUD box (with the
/// viewport narrowed for them and restored after): for the scene slot's
/// layout with a viewport.
pub fn draw_map_view_text(layout_slot: Option<i32>, scene_slot: i32, has_viewport: bool) -> (narrow: bool)
    ensures
        narrow == (layout_slot == Some(scene_slot) && has_viewport),
{
    match layout_slot {
        Some(s) => s == scene_slot && has_viewport,
        None => false,
    }
}

/// A 4:3 window needs no correction of the field of view: the factor is
/// exactly one.
pub proof fn lemma_four_three_window_keeps_fov(n: u32)
    requires
        1 <= n <= 0x1000,
    ensures
        fov_correction_spec((4 * n) as u32, (3 * n) as u32) == FIXED_ONE,
{
    let w: int = 4 * n;
    let h: int = 3 * n;
    assert(w * 0x10000 == 0x15555 * h + n) by (nonlinear_arith)
        requires
            w == 4 * n,
            h == 3 * n,
    ;
    assert((w * 0x10000) / h == 0x15555) by (nonlinear_arith)
        requires
            w * 0x10000 == 0x15555 * h + n,
            h == 3 * n,
            n >= 1,
    ;
    assert(aspect_16((4 * n) as u32, (3 * n) as u32) == 0x15555);
    assert((0x15555int * 0x10000) / 0x15555int == 0x10000) by (nonlinear_arith);
}

} // verus!
