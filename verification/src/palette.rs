//! The 256-colour palette of the game's GDI draw mode, shared by the shell
//! and the sim, with the display brightness applied through the game's gamma
//! table, and the size of the frames that it blits.

use vstd::prelude::*;

verus! {

/// The number of colours of the palette.
pub const PALETTE_SIZE: usize = 256;

/// The size of the game's gamma table: 64 entries per brightness step.
pub const GAMMA_TABLE_SIZE: usize = 1024;

/// A colour of the palette.
#[derive(Clone, Copy, Debug, PartialEq, Eq, Structural)]
pub struct PaletteColor {
    pub red: u8,
    pub green: u8,
    pub blue: u8,
}

/// Whether a `set_palette` call is valid: a colour table given, a start
/// within the palette and at least one colour, none past its end.
pub open spec fn palette_range_ok(has_colors: bool, start: i32, count: i32) -> bool {
    has_colors && 0 <= start <= 255 && count >= 1 && 256 - start >= count
}

/// The palette after `count` colours were copied into it from `start` on.
pub open spec fn with_colors(palette: Seq<PaletteColor>, start: int, count: int, colors: Seq<PaletteColor>) -> Seq<
    PaletteColor,
> {
    Seq::new(
        palette.len(),
        |k: int|
            if start <= k < start + count {
                colors[k - start]
            } else {
                palette[k]
            },
    )
}

/// Sets `count` colours of the palette from `start` on. Returns 0, or -1
/// without a change where no colour table is given or the range does not
/// lie within the palette.
pub fn set_palette(palette: &mut Vec<PaletteColor>, start: i32, count: i32, colors: Option<&[PaletteColor]>) -> (r:
    i32)
    requires
        old(palette)@.len() == PALETTE_SIZE,
        colors matches Some(c) ==> (palette_range_ok(true, start, count) ==> c@.len() >= count),
    ensures
        r == (if palette_range_ok(colors is Some, start, count) {
            0i32
        } else {
            -1i32
        }),
        r == 0 ==> final(palette)@ == with_colors(
            old(palette)@,
            start as int,
            count as int,
            colors->0@,
        ),
        r != 0 ==> final(palette)@ == old(palette)@,
{
    let c = match colors {
        None => {
            return -1;
        },
        Some(c) => c,
    };
    if start < 0 || start > 255 || count < 1 || 256 - start < count {
        return -1;
    }
    let ghost before = palette@;
    let mut i: i32 = 0;
    while i < count
        invariant
            0 <= i <= count,
            0 <= start <= 255,
            start + count <= 256,
            c@.len() >= count,
            palette@.len() == PALETTE_SIZE,
            before.len() == PALETTE_SIZE,
            palette@ == with_colors(before, start as int, i as int, c@),
        decreases count - i,
    {
        let index = (start + i) as usize;
        palette.set(index, c[i as usize]);
        i = i + 1;
        assert(palette@ =~= with_colors(before, start as int, i as int, c@));
    }
    0
}

/// The gamma table's value for one colour component at a brightness.
pub open spec fn gamma_of(gamma: Seq<u8>, component: u8, brightness: u32) -> u8 {
    gamma[component + brightness * 64]
}

/// A colour seen through the gamma table at a brightness.
pub open spec fn brightened(gamma: Seq<u8>, c: PaletteColor, brightness: u32) -> PaletteColor {
    PaletteColor {
        red: gamma_of(gamma, c.red, brightness),
        green: gamma_of(gamma, c.green, brightness),
        blue: gamma_of(gamma, c.blue, brightness),
    }
}

/// Whether every component of the colours, at the brightness, indexes the
/// gamma table (a lookup past its end is an error).
pub open spec fn brightness_in_table(colors: Seq<PaletteColor>, brightness: u32) -> bool {
    forall|i: int|
        0 <= i < colors.len() ==> {
            &&& #[trigger] colors[i].red + brightness * 64 < GAMMA_TABLE_SIZE
            &&& colors[i].green + brightness * 64 < GAMMA_TABLE_SIZE
            &&& colors[i].blue + brightness * 64 < GAMMA_TABLE_SIZE
        }
}

/// Takes a whole new palette: it is kept as given, and the palette shown is
/// each colour through the gamma table at the display brightness.
pub fn set_palette_with_brightness(
    shown: &mut Vec<PaletteColor>,
    given: &mut Vec<PaletteColor>,
    colors: &[PaletteColor],
    gamma: &[u8],
    brightness: u32,
)
    requires
        old(shown)@.len() == PALETTE_SIZE,
        old(given)@.len() == PALETTE_SIZE,
        colors@.len() >= PALETTE_SIZE,
        gamma@.len() == GAMMA_TABLE_SIZE,
        brightness_in_table(colors@.take(PALETTE_SIZE as int), brightness),
    ensures
        final(given)@ == colors@.take(PALETTE_SIZE as int),
        final(shown)@.len() == PALETTE_SIZE,
        forall|i: int|
            0 <= i < PALETTE_SIZE ==> #[trigger] final(shown)@[i] == brightened(gamma@, colors@[i], brightness),
{
    let mut i: usize = 0;
    while i < PALETTE_SIZE
        invariant
            i <= PALETTE_SIZE,
            colors@.len() >= PALETTE_SIZE,
            gamma@.len() == GAMMA_TABLE_SIZE,
            brightness_in_table(colors@.take(PALETTE_SIZE as int), brightness),
            shown@.len() == PALETTE_SIZE,
            given@.len() == PALETTE_SIZE,
            forall|k: int| 0 <= k < i ==> #[trigger] given@[k] == colors@[k],
            forall|k: int| 0 <= k < i ==> #[trigger] shown@[k] == brightened(gamma@, colors@[k], brightness),
        decreases PALETTE_SIZE - i,
    {
        let c = colors[i];
        assert(colors@.take(PALETTE_SIZE as int)[i as int] == c);
        assert(colors@.take(PALETTE_SIZE as int)[i as int].red + brightness * 64 < GAMMA_TABLE_SIZE);
        let offset = (brightness as usize) * 64;
        given.set(i, c);
        let red = gamma[c.red as usize + offset];
        let green = gamma[c.green as usize + offset];
        let blue = gamma[c.blue as usize + offset];
        shown.set(i, PaletteColor { red, green, blue });
        i = i + 1;
    }
    assert(given@ =~= colors@.take(PALETTE_SIZE as int));
}

/// The draw mode that the game's display is always set up in: its GDI mode,
/// whatever mode it asked for.
pub const GDI_DRAW_MODE: i32 = 5;

/// The draw mode used for a request for `requested`.
pub fn init_draw_mode(requested: i32) -> (mode: i32)
    ensures
        mode == GDI_DRAW_MODE,
{
    GDI_DRAW_MODE
}

/// The size of the frame that a flip blits: the pixel buffer's last column
/// and row (or last column and height, for the shell's buffer) made into
/// a width and height, with the number of pixels; `None` for an empty frame.
pub open spec fn blit_extent(last_column: i32, rows: i32) -> Option<(int, int, int)> {
    let width = last_column + 1;
    if width <= 0 || rows <= 0 {
        None
    } else {
        Some((width, rows as int, width * rows))
    }
}

/// The width, height and pixel count of the frame to flip, given the buffer's
/// last column and its number of rows.
pub fn blit_flip(last_column: i32, rows: i32) -> (r: Option<(usize, usize, usize)>)
    requires
        last_column < i32::MAX,
        (last_column + 1) * rows <= i32::MAX,
    ensures
        match r {
            None => blit_extent(last_column, rows) is None,
            Some((w, h, n)) => blit_extent(last_column, rows) == Some((w as int, h as int, n as int)),
        },
{
    let width = last_column + 1;
    if width <= 0 || rows <= 0 {
        return None;
    }
    assert(width * rows >= 0) by (nonlinear_arith)
        requires
            width > 0,
            rows > 0,
    ;
    let n = width * rows;
    Some((width as usize, rows as usize, n as usize))
}

/// The bytes that `begin` asks the heap for, for a pixel buffer: two per
/// pixel, computed on 32 bits and taken as a size. A negative product turns
/// into a size that no allocation meets, so `begin` then fails. A product
/// beyond 32 bits is left out.
pub fn begin(width: i32, height: i32) -> (bytes: usize)
    requires
        i32::MIN <= height * width * 2 <= i32::MAX,
    ensures
        bytes == (height * width * 2) as usize,
        height * width * 2 >= 0 ==> bytes == height * width * 2,
{
    let n = height * width * 2;
    n as usize
}

} // verus!
