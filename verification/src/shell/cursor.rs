//! The shell's mouse cursor: a 29 by 25 run-length coded graphic in fifteen
//! shades of grey, decoded into one optional grey level per pixel (`None` is
//! transparent).

use vstd::prelude::*;

verus! {

/// Width of the cursor in pixels.
pub const CURSOR_WIDTH: usize = 29;

/// Height of the cursor in pixels.
pub const CURSOR_HEIGHT: usize = 25;

/// Number of pixels of the cursor.
pub const CURSOR_PIXELS: usize = 725;

/// Where the coded pixels start in the game's cursor graphic.
pub const CURSOR_DATA_START: usize = 0x28;

/// Where the coded pixels end in the game's cursor graphic.
pub const CURSOR_DATA_END: usize = 0x1A7;

/// The grey level of each of the fifteen colours of the cursor.
pub open spec fn cursor_palette() -> Seq<u8> {
    seq![0u8, 255, 238, 221, 204, 187, 170, 153, 127, 102, 85, 68, 51, 34, 17]
}

/// The coded pixels within the game's cursor graphic.
pub open spec fn cursor_stream(graphic: Seq<u8>) -> Seq<u8> {
    graphic.subrange(CURSOR_DATA_START as int, CURSOR_DATA_END as int)
}

/// An empty (fully transparent) cursor.
pub open spec fn blank_cursor() -> Seq<Option<u8>> {
    Seq::new(CURSOR_PIXELS as nat, |k: int| None::<u8>)
}

/// `pixels` with `count` pixels from `pos` on set to the grey `color`, as far
/// as the cursor goes.
pub open spec fn fill_run(pixels: Seq<Option<u8>>, pos: int, count: int, color: u8) -> Seq<Option<u8>> {
    Seq::new(pixels.len(), |k: int| if pos <= k < pos + count { Some(color) } else { pixels[k] })
}

/// The smaller of two integers.
pub open spec fn min_int(a: int, b: int) -> int {
    if a < b {
        a
    } else {
        b
    }
}

/// Writes the literal pixels `data[i..end]` from `pos` on. Each pixel moves
/// the position one to the right, except in the last column, where the
/// next pixel overwrites it. `None` where a colour is out of the palette.
pub open spec fn literal_run(data: Seq<u8>, i: int, end: int, pos: int, pixels: Seq<Option<u8>>) -> Option<
    (int, Seq<Option<u8>>),
>
    decreases end - i,
{
    if i >= end {
        Some((pos, pixels))
    } else if data[i] >= 15 {
        None
    } else {
        let pixels2 = pixels.update(pos, Some(cursor_palette()[data[i] as int]));
        let pos2 = if pos % (CURSOR_WIDTH as int) < CURSOR_WIDTH - 1 {
            pos + 1
        } else {
            pos
        };
        literal_run(data, i + 1, end, pos2, pixels2)
    }
}

/// Decodes the stream from byte `i`, pixel `pos`, onto `pixels`. Decoding
/// stops at the end of the stream or of the cursor. Control byte 0 moves to
/// the start of the next line; 1 skips the number of pixels that follows; any
/// other even number `2n` repeats the colour that follows `n` times; an odd
/// number `2n + 1` writes the `n` colours that follow. `None` where a colour
/// that is written is out of the palette.
pub open spec fn cursor_decode(data: Seq<u8>, i: int, pos: int, pixels: Seq<Option<u8>>) -> Option<
    Seq<Option<u8>>,
>
    decreases data.len() - i,
{
    if i < 0 || pos >= CURSOR_PIXELS || i >= data.len() {
        Some(pixels)
    } else {
        let ctrl = data[i];
        if ctrl == 0 {
            cursor_decode(data, i + 1, (pos / (CURSOR_WIDTH as int) + 1) * (CURSOR_WIDTH as int), pixels)
        } else if ctrl == 1 {
            if i + 1 < data.len() {
                cursor_decode(
                    data,
                    i + 2,
                    min_int(pos + data[i + 1], CURSOR_PIXELS as int),
                    pixels,
                )
            } else {
                Some(pixels)
            }
        } else if ctrl % 2 == 0 {
            if i + 1 < data.len() {
                let v = data[i + 1];
                if v >= 15 {
                    None
                } else {
                    let count = (ctrl / 2) as int;
                    cursor_decode(
                        data,
                        i + 2,
                        min_int(pos + count, CURSOR_PIXELS as int),
                        fill_run(pixels, pos, count, cursor_palette()[v as int]),
                    )
                }
            } else {
                Some(pixels)
            }
        } else {
            let end = min_int(i + 1 + ctrl / 2, data.len() as int);
            match literal_run(data, i + 1, end, pos, pixels) {
                None => None,
                Some((pos2, pixels2)) => cursor_decode(data, end, pos2, pixels2),
            }
        }
    }
}

/// The cursor that the game's cursor graphic codes, or `None` where it
/// writes a colour out of the palette.
pub open spec fn cursor_image(graphic: Seq<u8>) -> Option<Seq<Option<u8>>> {
    cursor_decode(cursor_stream(graphic), 0, 0, blank_cursor())
}

fn palette_grey(v: u8) -> (g: u8)
    requires
        v < 15,
    ensures
        g == cursor_palette()[v as int],
{
    let table: [u8; 15] = [0, 255, 238, 221, 204, 187, 170, 153, 127, 102, 85, 68, 51, 34, 17];
    assert(table@ =~= cursor_palette());
    table[v as usize]
}

/// Writes the literal pixels of `data[i..end]`; `false` where one is out of
/// the palette (the pixels are then left in no particular state).
fn write_literals(data: &Vec<u8>, i: usize, end: usize, pos: &mut usize, pixels: &mut Vec<Option<u8>>) -> (ok: bool)
    requires
        i <= end <= data@.len(),
        *old(pos) < CURSOR_PIXELS,
        old(pixels)@.len() == CURSOR_PIXELS,
    ensures
        final(pixels)@.len() == CURSOR_PIXELS,
        *final(pos) < CURSOR_PIXELS,
        ok <==> literal_run(data@, i as int, end as int, *old(pos) as int, old(pixels)@) is Some,
        ok ==> literal_run(data@, i as int, end as int, *old(pos) as int, old(pixels)@) == Some(
            (*final(pos) as int, final(pixels)@),
        ),
{
    let mut k = i;
    while k < end
        invariant
            i <= k <= end <= data@.len(),
            *pos < CURSOR_PIXELS,
            pixels@.len() == CURSOR_PIXELS,
            literal_run(data@, i as int, end as int, *old(pos) as int, old(pixels)@) == literal_run(
                data@,
                k as int,
                end as int,
                *pos as int,
                pixels@,
            ),
        decreases end - k,
    {
        let v = data[k];
        if v >= 15 {
            return false;
        }
        let g = palette_grey(v);
        pixels.set(*pos, Some(g));
        if *pos % CURSOR_WIDTH < CURSOR_WIDTH - 1 {
            *pos = *pos + 1;
        }
        k = k + 1;
    }
    true
}

/// Decodes the cursor that the game's cursor graphic codes: `None` where it
/// writes a colour out of the palette.
pub fn decode_cursor(graphic: &[u8]) -> (r: Option<Vec<Option<u8>>>)
    requires
        graphic@.len() >= CURSOR_DATA_END,
    ensures
        match r {
            Some(px) => cursor_image(graphic@) == Some(px@),
            None => cursor_image(graphic@) is None,
        },
{
    let mut data: Vec<u8> = Vec::new();
    let mut j = CURSOR_DATA_START;
    while j < CURSOR_DATA_END
        invariant
            CURSOR_DATA_START <= j <= CURSOR_DATA_END <= graphic@.len(),
            data@ == graphic@.subrange(CURSOR_DATA_START as int, j as int),
        decreases CURSOR_DATA_END - j,
    {
        data.push(graphic[j]);
        j = j + 1;
        assert(data@ =~= graphic@.subrange(CURSOR_DATA_START as int, j as int));
    }
    let mut pixels: Vec<Option<u8>> = Vec::new();
    while pixels.len() < CURSOR_PIXELS
        invariant
            pixels@.len() <= CURSOR_PIXELS,
            forall|k: int| 0 <= k < pixels@.len() ==> pixels@[k] is None,
        decreases CURSOR_PIXELS - pixels@.len(),
    {
        pixels.push(None);
    }
    assert(pixels@ =~= blank_cursor());
    let len = data.len();
    let mut i: usize = 0;
    let mut pos: usize = 0;
    while i < len && pos < CURSOR_PIXELS
        invariant
            len == data@.len(),
            len == CURSOR_DATA_END - CURSOR_DATA_START,
            i <= len,
            pos <= CURSOR_PIXELS,
            pixels@.len() == CURSOR_PIXELS,
            cursor_image(graphic@) == cursor_decode(data@, i as int, pos as int, pixels@),
        decreases len - i,
    {
        let ctrl = data[i];
        if ctrl == 0 {
            pos = (pos / CURSOR_WIDTH + 1) * CURSOR_WIDTH;
            i = i + 1;
        } else if ctrl == 1 {
            if i + 1 < len {
                let skip = data[i + 1] as usize;
                pos = if pos + skip < CURSOR_PIXELS {
                    pos + skip
                } else {
                    CURSOR_PIXELS
                };
                i = i + 2;
            } else {
                i = i + 1;
            }
        } else if ctrl % 2 == 0 {
            if i + 1 < len {
                let v = data[i + 1];
                if v >= 15 {
                    return None;
                }
                let g = palette_grey(v);
                let count = (ctrl / 2) as usize;
                let ghost before = pixels@;
                let ghost start = pos;
                let stop = if pos + count < CURSOR_PIXELS {
                    pos + count
                } else {
                    CURSOR_PIXELS
                };
                while pos < stop
                    invariant
                        start <= pos <= stop <= CURSOR_PIXELS,
                        pixels@.len() == CURSOR_PIXELS,
                        forall|k: int|
                            0 <= k < CURSOR_PIXELS ==> #[trigger] pixels@[k] == (if start <= k < pos {
                                Some(g)
                            } else {
                                before[k]
                            }),
                    decreases stop - pos,
                {
                    pixels.set(pos, Some(g));
                    pos = pos + 1;
                }
                assert(pixels@ =~= fill_run(before, start as int, count as int, g));
                i = i + 2;
            } else {
                i = i + 1;
            }
        } else {
            let count = (ctrl / 2) as usize;
            let end = if i + 1 + count < len {
                i + 1 + count
            } else {
                len
            };
            let ok = write_literals(&data, i + 1, end, &mut pos, &mut pixels);
            if !ok {
                return None;
            }
            i = end;
        }
    }
    Some(pixels)
}

/// Whether the game's cursor graphic can be decoded: it writes no colour out
/// of the palette.
pub fn cursor_decodes(graphic: &[u8]) -> (b: bool)
    requires
        graphic@.len() >= CURSOR_DATA_END,
    ensures
        b <==> cursor_image(graphic@) is Some,
{
    decode_cursor(graphic).is_some()
}

/// The cursor's pixels, row by row, for a graphic that decodes (the game's
/// does; one that writes a colour out of the palette is an error).
pub fn load_cursor_texture(graphic: &[u8]) -> (pixels: Vec<Option<u8>>)
    requires
        graphic@.len() >= CURSOR_DATA_END,
        cursor_image(graphic@) is Some,
    ensures
        cursor_image(graphic@) == Some(pixels@),
        pixels@.len() == CURSOR_PIXELS,
{
    match decode_cursor(graphic) {
        Some(px) => {
            proof {
                lemma_cursor_decode_len(cursor_stream(graphic@), 0, 0, blank_cursor());
            }
            px
        },
        None => Vec::new(),
    }
}

proof fn lemma_literal_run_len(data: Seq<u8>, i: int, end: int, pos: int, pixels: Seq<Option<u8>>)
    requires
        0 <= pos < CURSOR_PIXELS,
        pixels.len() == CURSOR_PIXELS,
    ensures
        literal_run(data, i, end, pos, pixels) matches Some((p, px)) ==> px.len() == CURSOR_PIXELS && 0
            <= p < CURSOR_PIXELS,
    decreases end - i,
{
    if i < end && data[i] < 15 {
        let pixels2 = pixels.update(pos, Some(cursor_palette()[data[i] as int]));
        let pos2 = if pos % (CURSOR_WIDTH as int) < CURSOR_WIDTH - 1 {
            pos + 1
        } else {
            pos
        };
        assert(pos2 < CURSOR_PIXELS);
        lemma_literal_run_len(data, i + 1, end, pos2, pixels2);
    }
}

/// Decoding keeps the cursor's size.
proof fn lemma_cursor_decode_len(data: Seq<u8>, i: int, pos: int, pixels: Seq<Option<u8>>)
    requires
        0 <= pos,
        pixels.len() == CURSOR_PIXELS,
    ensures
        cursor_decode(data, i, pos, pixels) matches Some(px) ==> px.len() == CURSOR_PIXELS,
    decreases data.len() - i,
{
    if i < 0 || pos >= CURSOR_PIXELS || i >= data.len() {
    } else {
        let ctrl = data[i];
        if ctrl == 0 {
            lemma_cursor_decode_len(data, i + 1, (pos / (CURSOR_WIDTH as int) + 1) * (CURSOR_WIDTH as int), pixels);
        } else if ctrl == 1 {
            if i + 1 < data.len() {
                lemma_cursor_decode_len(data, i + 2, min_int(pos + data[i + 1], CURSOR_PIXELS as int), pixels);
            }
        } else if ctrl % 2 == 0 {
            if i + 1 < data.len() && data[i + 1] < 15 {
                let count = (ctrl / 2) as int;
                lemma_cursor_decode_len(
                    data,
                    i + 2,
                    min_int(pos + count, CURSOR_PIXELS as int),
                    fill_run(pixels, pos, count, cursor_palette()[data[i + 1] as int]),
                );
            }
        } else {
            let end = min_int(i + 1 + ctrl / 2, data.len() as int);
            lemma_literal_run_len(data, i + 1, end, pos, pixels);
            match literal_run(data, i + 1, end, pos, pixels) {
                None => {},
                Some((pos2, pixels2)) => {
                    lemma_cursor_decode_len(data, end, pos2, pixels2);
                },
            }
        }
    }
}

} // verus!
