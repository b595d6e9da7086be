use remech::shell::audio::{
    active_sequence_count, fmv_volume_level, is_playing, loops_forever, midi_scaled_volume,
    SampleVolume, MIDI_DEFAULT_VOLUME,
};
use remech::shell::cursor::{cursor_decodes, decode_cursor, load_cursor_texture, CURSOR_PIXELS};
use remech::shell::mouse::{
    exit_dialog_step, forwarded_mouse_state, menu_bar_visible, menu_command, pointer_events,
    read_mouse_state, ExitDialog, MenuItem, MouseSample, MouseState, OverlayMouseState,
    PointerButton, PointerEvent,
};
use remech::shell::settings::{
    label_x, resolution_label, resolution_of, resolution_toggle, Resolution,
};
use remech::shell::smacker::{
    audio_point, audio_sync_point, create_file_flags, frame_duration, frame_span, goto_target,
    get_track_data, sound_in_track, sound_track, start_sound, track_data_count, track_data_track,
    Destination, FrameError, Pacing, Smack, TrackDataStep, DURATION_MAX_NANOS, TRACK_FLAG_BASE,
};
use remech::shell::variants::{
    load_mech_variant_list, refresh_mech_variant_list, slot_bytes, user_variant_slot, variant_name,
};

fn graphic_with(stream: &[u8]) -> Vec<u8> {
    let mut g = vec![0xEEu8; 0x28];
    g.extend_from_slice(stream);
    g.resize(0x1A7, 0);
    g
}

#[test]
fn cursor_runs_and_literals() {
    // A run of three of colour 1 (white), a skip of two, two literal pixels
    // (colours 2 and 14), then the end of the line and one pixel of colour 0.
    let g = graphic_with(&[6, 1, 1, 2, 5, 2, 14, 0, 2, 0]);
    assert!(cursor_decodes(&g));
    let px = load_cursor_texture(&g);
    assert_eq!(px.len(), CURSOR_PIXELS);
    assert_eq!(&px[0..3], &[Some(255), Some(255), Some(255)]);
    assert_eq!(&px[3..5], &[None, None]);
    assert_eq!(&px[5..7], &[Some(238), Some(17)]);
    assert_eq!(px[7], None);
    assert_eq!(px[29], Some(0));
    assert_eq!(px[30], None);
}

#[test]
fn cursor_literals_stop_at_the_last_column() {
    // Skip to column 27, then four literals: the last column is overwritten.
    let g = graphic_with(&[1, 27, 9, 1, 2, 3, 4]);
    let px = decode_cursor(&g).unwrap();
    assert_eq!(px[27], Some(255));
    assert_eq!(px[28], Some(204));
    assert_eq!(px[29], None);
}

#[test]
fn cursor_out_of_palette_colour_is_refused() {
    let g = graphic_with(&[4, 15]);
    assert!(!cursor_decodes(&g));
    assert!(decode_cursor(&g).is_none());
}

#[test]
fn cursor_empty_stream_is_transparent() {
    let g = graphic_with(&[]);
    let px = load_cursor_texture(&g);
    assert!(px.iter().all(|p| p.is_none()));
}

fn mouse(polling: bool) -> MouseState {
    MouseState {
        left_pressed: false,
        right_pressed: false,
        middle_pressed: false,
        double_clicked: false,
        last_clicked: 1000,
        pos_x: 0,
        pos_y: 0,
        left_down: false,
        right_down: false,
        middle_down: false,
        polling,
    }
}

fn sample(left: bool, now: u32) -> MouseSample {
    MouseSample { shell_x: 10, shell_y: 20, left, right: false, middle: true, now }
}

#[test]
fn mouse_press_and_double_click() {
    let mut m = mouse(true);
    read_mouse_state(&mut m, Some(sample(true, 1100)));
    assert!(m.left_pressed && m.double_clicked && m.middle_pressed);
    assert_eq!((m.pos_x, m.pos_y), (10, 20));
    assert_eq!(m.last_clicked, 1000);
    // Held: no new press.
    read_mouse_state(&mut m, Some(sample(true, 1150)));
    assert!(!m.left_pressed && !m.double_clicked && m.left_down);
    read_mouse_state(&mut m, Some(sample(false, 1200)));
    assert!(!m.left_down);
    // Too late for a double click: the time is stamped.
    read_mouse_state(&mut m, Some(sample(true, 1300)));
    assert!(m.left_pressed && !m.double_clicked);
    assert_eq!(m.last_clicked, 1300);
}

#[test]
fn mouse_outside_window_and_not_polling() {
    let mut m = mouse(true);
    read_mouse_state(&mut m, None);
    assert_eq!(m, mouse(true));
    let mut m = mouse(false);
    read_mouse_state(&mut m, Some(sample(true, 5000)));
    assert!(!m.left_pressed && !m.left_down);
    assert_eq!((m.pos_x, m.pos_y), (0, 0));
}

#[test]
fn mouse_double_click_across_timer_wrap() {
    let mut m = mouse(true);
    m.last_clicked = u32::MAX - 50;
    read_mouse_state(&mut m, Some(sample(true, 100)));
    assert!(m.double_clicked);
}

#[test]
fn overlay_pointer_events() {
    let before = OverlayMouseState::default();
    assert!(pointer_events(before, before).is_empty());
    let now = OverlayMouseState { pos_x: 5, pos_y: 6, left_down: true, right_down: false, middle_down: false };
    assert_eq!(
        pointer_events(before, now),
        vec![
            PointerEvent::Moved { x: 5, y: 6 },
            PointerEvent::Button { x: 5, y: 6, button: PointerButton::Primary, pressed: true },
        ]
    );
    let later = OverlayMouseState { left_down: false, right_down: true, ..now };
    assert_eq!(
        pointer_events(now, later),
        vec![
            PointerEvent::Button { x: 5, y: 6, button: PointerButton::Secondary, pressed: true },
            PointerEvent::Button { x: 5, y: 6, button: PointerButton::Primary, pressed: false },
        ]
    );
}

#[test]
fn overlay_menu_and_forwarding() {
    let s = OverlayMouseState { pos_x: 1, pos_y: 2, left_down: true, right_down: false, middle_down: false };
    assert_eq!(forwarded_mouse_state(true, false, s), s);
    assert_eq!(forwarded_mouse_state(true, true, s), OverlayMouseState::released());
    assert_eq!(forwarded_mouse_state(false, false, s), OverlayMouseState::default());
    assert!(!menu_bar_visible(true, true, true, false, false));
    assert!(menu_bar_visible(false, false, true, true, false));
    assert!(!menu_bar_visible(true, false, false, true, false));
    assert!(menu_bar_visible(true, false, false, true, true));
    assert_eq!(menu_command(MenuItem::NewAlliance), Some(40001));
    assert_eq!(menu_command(MenuItem::CockpitControls), Some(40011));
    assert_eq!(menu_command(MenuItem::FleeToDesktop), None);
    assert_eq!(exit_dialog_step(Some(true)), ExitDialog::Quit);
    assert_eq!(exit_dialog_step(Some(false)), ExitDialog::Close);
    assert_eq!(exit_dialog_step(None), ExitDialog::Keep);
}

fn value(name: &[u8]) -> Vec<u8> {
    let mut v = name.to_vec();
    v.resize(15, 0);
    v
}

#[test]
fn settings_resolution_cycles() {
    let mcga = value(b"");
    assert_eq!(resolution_of(&mcga), Resolution::Mcga);
    assert_eq!(resolution_label(&mcga), "~320x200");
    let v480 = resolution_toggle(&mcga);
    assert_eq!(v480, value(b"vesa480.dll"));
    assert_eq!(resolution_label(&v480), "~640x480");
    let v768 = resolution_toggle(&v480);
    assert_eq!(v768, value(b"vesa768.dll"));
    assert_eq!(resolution_label(&v768), "~1024x768");
    assert_eq!(resolution_toggle(&v768), value(b""));
    assert_eq!(label_x(100, 41), 120);
    assert_eq!(label_x(-10, -5), -12);
}

#[test]
fn settings_toggle_keeps_bytes_after_name() {
    let mut v = value(b"MCGA.DLL");
    v[12] = 7;
    let t = resolution_toggle(&v);
    assert_eq!(&t[..12], b"vesa480.dll\0");
    assert_eq!(t[12], 7);
}

#[test]
fn variants_names_and_slots() {
    assert_eq!(variant_name(b"MAD", 7), b"MAD07std".to_vec());
    assert_eq!(variant_name(b"TIM", 42), b"TIM42std".to_vec());
    let s = slot_bytes(b"MAD07std");
    assert_eq!(s.len(), 13);
    assert_eq!(&s[..8], b"MAD07std");
    assert!(s[8..].iter().all(|&b| b == 0));
    assert_eq!(user_variant_slot(b"mad05USR.MEK", b"MAD"), Some(105));
    assert_eq!(user_variant_slot(b"MAD5xusr.mek", b"MAD"), None);
    assert_eq!(user_variant_slot(b"TIM05usr.mek", b"MAD"), None);
    assert_eq!(user_variant_slot(b"MAD05usr.mekx", b"MAD"), None);
}

#[test]
fn variants_list_assembly() {
    let mut found = vec![false; 99];
    found[0] = true;
    found[9] = true;
    let files = vec![
        b"MAD03usr.mek".to_vec(),
        b"readme.txt".to_vec(),
        b"mad03USR.MEK".to_vec(),
        b"TIM01usr.mek".to_vec(),
    ];
    let list = load_mech_variant_list(b"MAD", &found, &files);
    assert_eq!(list.len(), 200);
    assert_eq!(&list[0][..8], b"MAD00std");
    assert_eq!(&list[1][..8], b"MAD01std");
    assert_eq!(list[2], vec![0u8; 13]);
    assert_eq!(&list[10][..8], b"MAD10std");
    assert_eq!(&list[103][..8], b"mad03USR");
    assert_eq!(list[103][8], 0);
    assert_eq!(list[101], vec![0u8; 13]);
}

#[test]
fn smacker_header_and_palette() {
    assert!(Smack::new(&[0u8; 50]).is_none());
    let data: Vec<u8> = (0..200u32).map(|i| i as u8).collect();
    let mut smk = Smack::new(&data).unwrap();
    assert_eq!(smk.header, data[..104].to_vec());
    assert_eq!(smk.pal_type, 1);
    smk.publish_frame_state(3, false, &[]);
    assert_eq!((smk.frame_num, smk.new_palette, smk.pal_type), (3, 0, 1));
    smk.publish_frame_state(4, true, &[(1, 2, 3), (4, 5, 6)]);
    assert_eq!((smk.frame_num, smk.new_palette, smk.pal_type), (4, 1, 2));
    assert_eq!(&smk.palette_b[..7], &[1, 2, 3, 4, 5, 6, 0]);
    assert!(smk.palette_a.iter().all(|&b| b == 0));
    smk.publish_frame_state(5, true, &[(9, 9, 9)]);
    assert_eq!(smk.pal_type, 1);
    assert_eq!(&smk.palette_a[..4], &[9, 9, 9, 0]);
}

#[test]
fn smacker_tracks() {
    let exists = [false, true, false, true, false, false, false];
    assert_eq!(sound_track(0x200 | 0x400, &exists), Some(1));
    assert_eq!(sound_track(0x200, &exists), None);
    assert!(sound_in_track(0x1000, &exists));
    assert!(!sound_in_track(0x800, &exists));
    assert_eq!(track_data_track(0x200 | 0x400, &exists), None);
    assert_eq!(track_data_track(0x400 | 0x1000, &exists), Some(1));
    assert_eq!(track_data_count(5), 5);
    assert_eq!(track_data_count(usize::MAX), u32::MAX);
    assert_eq!(create_file_flags(0x6000_0080), 0x4000_0080);
}

#[test]
fn smacker_frame_span() {
    let dest = Destination { left: 10, top: 5, pitch: 640, dest_height: 480, flip: false };
    assert_eq!(frame_span(true, dest, 320, 200), Ok((5 * 640 + 10, 199 * 640 + 320)));
    let flipped = Destination { flip: true, ..dest };
    assert_eq!(frame_span(true, flipped, 320, 200), Ok(((480 - 205) * 640 + 10, 199 * 640 + 320)));
    assert_eq!(frame_span(false, dest, 320, 200), Err(FrameError::NullBuffer));
    assert_eq!(frame_span(true, dest, 641, 200), Err(FrameError::PitchTooSmall));
    assert_eq!(frame_span(true, dest, 320, 0), Err(FrameError::PitchTooSmall));
    let tall = Destination { dest_height: 100, ..flipped };
    assert_eq!(frame_span(true, tall, 320, 200), Err(FrameError::FlippedDoesNotFit));
}

#[test]
fn smacker_seek_and_timing() {
    assert_eq!(goto_target(0, 17), 17);
    assert_eq!(goto_target(5, 17), 4);
    assert_eq!(frame_duration(6667), 66_670_000);
    assert_eq!(audio_point(66_670_000, 3), 200_010_000);
    assert_eq!(audio_point(DURATION_MAX_NANOS, 2), DURATION_MAX_NANOS);
    assert_eq!(audio_sync_point(true, 5, 9), 5);
    assert_eq!(audio_sync_point(false, 5, 9), 9);
}

#[test]
fn smacker_wait_on_the_clock() {
    let mut p = Pacing::new();
    assert_eq!(p.wait(100, 1000, None), 1);
    assert_eq!(p.deadline, Some(1100));
    assert_eq!(p.wait(100, 1050, None), 1);
    assert_eq!(p.wait(100, 1100, None), 0);
    assert!(p.released);
    assert_eq!(p.deadline, Some(1200));
    assert_eq!(p.wait(100, 1100, None), 0);
    p.frame_changed();
    // Far behind: the next deadline is a frame from now.
    assert_eq!(p.wait(100, 5000, None), 0);
    assert_eq!(p.deadline, Some(5100));
}

#[test]
fn smacker_wait_on_the_audio() {
    let mut p = Pacing::new();
    p.audio_deadline = 1000;
    assert_eq!(p.wait(100, 0, Some(900)), 1);
    assert_eq!(p.wait(100, 0, Some(1000)), 0);
    assert_eq!(p.audio_deadline, 1100);
    p.frame_changed();
    assert_eq!(p.wait(100, 0, Some(5000)), 0);
    assert_eq!(p.audio_deadline, 5100);
    p.frame_changed();
    assert_eq!(p.wait(0, 0, Some(0)), 0);
    assert!(p.released);
}

#[test]
fn audio_sample_fade_and_volume() {
    let mut s = SampleVolume::new();
    assert_eq!(s.set_volume(200), 127);
    assert_eq!(s.set_volume(-4), 0);
    assert_eq!(s.set_fade(2, 3, 0, 30), 0);
    assert_eq!(s.do_fade(), None);
    assert_eq!(s.do_fade(), Some(1));
    assert_eq!(s.do_fade(), None);
    assert_eq!(s.do_fade(), Some(2));
    assert_eq!(s.do_fade(), None);
    assert_eq!(s.do_fade(), Some(3));
    // Three steps taken: the fade is over.
    assert_eq!(s.do_fade(), None);
    assert_eq!(s.do_fade(), None);
    assert_eq!(s.apply_volume(), 3);
    assert_eq!(s.set_fade(1, 5, 2, 0), 2);
    assert_eq!(s.do_fade(), Some(1));
    assert_eq!(s.do_fade(), Some(0));
    assert_eq!(s.do_fade(), Some(0));
}

#[test]
fn audio_decisions() {
    assert!(is_playing(false, false));
    assert!(!is_playing(true, false));
    assert!(!is_playing(false, true));
    assert!(loops_forever(0));
    assert!(!loops_forever(3));
    assert_eq!(midi_scaled_volume(0x10000, MIDI_DEFAULT_VOLUME), 50);
    assert_eq!(midi_scaled_volume(0x8000, 100), 50);
    assert_eq!(midi_scaled_volume(0x8000, -3), -2);
    assert_eq!(active_sequence_count(), 0);
}

#[test]
fn smacker_sound_starts_once() {
    let exists = [false, true, false, false, false, false, false];
    assert_eq!(start_sound(true, Some(1), &exists), (None, Some(1)));
    assert_eq!(start_sound(false, Some(1), &exists), (Some(1), None));
    assert_eq!(start_sound(false, Some(0), &exists), (None, None));
    assert_eq!(start_sound(false, None, &exists), (None, None));
}

#[test]
fn audio_fmv_volume_level() {
    assert_eq!(fmv_volume_level(-5), 0);
    assert_eq!(fmv_volume_level(0x8000), 0x8000);
    assert_eq!(fmv_volume_level(0x20000), 0x10000);
}

#[test]
fn get_track_data_tries_only_the_first_selected_track() {
    let none = [false; 7];
    // No track selected: no data, whatever the destination.
    assert_eq!(get_track_data(0, &none, false), TrackDataStep::NoData);
    // The first selected track is missing: no data even with a null
    // destination.
    assert_eq!(get_track_data(TRACK_FLAG_BASE, &none, false), TrackDataStep::NoData);
    // A later selected track that exists is not tried.
    let mut later = [false; 7];
    later[2] = true;
    let flags = (TRACK_FLAG_BASE << 1) | (TRACK_FLAG_BASE << 2);
    assert_eq!(get_track_data(flags, &later, false), TrackDataStep::NoData);
    assert_eq!(get_track_data(flags, &later, true), TrackDataStep::NoData);
    // The first selected track exists: a null destination is an error.
    assert_eq!(get_track_data(TRACK_FLAG_BASE << 2, &later, false), TrackDataStep::NullDestination);
    assert_eq!(get_track_data(TRACK_FLAG_BASE << 2, &later, true), TrackDataStep::Decode(2));
}

#[test]
fn refresh_variant_list_leaves_list_for_non_utf8_type() {
    let found = vec![false; 99];
    let files: Vec<Vec<u8>> = Vec::new();
    let mut list = vec![vec![7u8, 8, 9]];
    assert!(!refresh_mech_variant_list(&mut list, &[0xFF, b'A', b'D'], &found, &files));
    assert_eq!(list, vec![vec![7u8, 8, 9]]);
    assert!(refresh_mech_variant_list(&mut list, b"MAD", &found, &files));
    assert_eq!(list, load_mech_variant_list(b"MAD", &found, &files));
    assert_eq!(list.len(), 200);
    assert_eq!(list[0], slot_bytes(b"MAD00std"));
}

/// The volume after `k` fade calls from `set_fade(rate, max, start, end)`,
/// by the closed form: one step every `rate` calls, at most `max` steps.
fn fade_closed_form(rate: i32, max: i32, start: i32, end: i32, k: i32) -> i32 {
    let v0 = start.clamp(0, 127);
    let steps = (k / rate).min(max);
    if end > start {
        (v0 + steps).min(127)
    } else if end < start {
        (v0 - steps).max(0)
    } else {
        v0
    }
}

#[test]
fn fade_after_many_calls_matches_closed_form() {
    for &(rate, max, start, end) in &[(2, 3, 10, 20), (1, 5, 1, 0), (3, 4, 125, 200), (4, 2, 50, 50)] {
        let mut s = SampleVolume::new();
        s.set_fade(rate, max, start, end);
        for k in 1..=30 {
            s.do_fade();
            assert_eq!(s.volume, fade_closed_form(rate, max, start, end, k), "rate {rate} call {k}");
            if k <= rate * max {
                assert_eq!(s.max_fade, max - k / rate);
                assert_eq!(s.fade_rate, rate - k % rate);
            }
        }
    }
    let mut s = SampleVolume::new();
    s.set_fade(2, 3, 10, 20);
    for _ in 0..4 {
        s.do_fade();
    }
    assert_eq!(s.volume, 12);
}
