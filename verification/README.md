# remech

The verified logic of a replacement engine for the Windows 95 release of a
1995 mech combat game, written in Verus.

- `src/xmi`: the game's XMI music, parsed from bytes and written out as a
  standard MIDI file, with note-offs computed from the notes' durations.
- `src/shell`: the shell (menus and screens): the one prompt of the overlay,
  the menu-bar lock, the screens' decisions (main menu, pilot roster, mech
  bay, mission debrief), the game's message box, the mouse record and pointer
  events, the run-length coded cursor, the variant list, the settings row,
  full-motion video pacing and layout, and sample fades.
- `src/sim`: the mission engine: frame-rate independent input ramps and
  jumpjet recharge, proximity fuses, the HUD box and its scaling in wide
  windows, the field of view, the window's resolution, the CD music state
  machine and the loading screen.
- `src/fixed.rs`, `src/palette.rs`, `src/launch.rs`: 16.16 fixed point and
  the game's `a * b / c`, the palette and gamma, and the entry points.
- `src/text.rs`: bytes read as UTF-8 and names put in upper case.

`app/lib.rs` holds a part of what the library cannot: process-wide state
(the prompt, the menu lock, the counters), the file system for the variant
list, some egui drawing, the wall clock and floating point. The bindings to
the game itself (its hooks, screen drivers and audio and video back-ends)
are not part of this crate.
