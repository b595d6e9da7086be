use remech::sim::camera::{
    apply_eyepoint_fov, draw_map_view_text, fov_correction, load_cockpit_layout, render_target,
    select_render_target, setup_eyepoint_projection, setup_map_projection,
};
use remech::sim::carry::CarryTable;
use remech::sim::cd_audio::{
    cd_audio_toggle_paused, get_cd_audio_tracks, get_cd_status, init_cd_audio,
    open_device_result, play_cd_audio, start_cd_audio, start_result, status_from_device,
    status_from_mci_mode, tries_player, update_cd_audio_position, AudioCdStatus, CdAudioPosition,
    CdInitPlan, CdSource, PositionUpdate, StatusQuery, ToggleAction,
};
use remech::sim::hud::{
    center_rect_on_screen, hud_origin, scale_point_to_screen, scale_rect_to_screen, set_res,
    Point, Rect,
};
use remech::sim::input::{ramp_axis, update_axis_from_keys, InputAxis};
use remech::sim::jumpjets::{func_with_jumpjet_calc, jumpjet_recharge_result, Player};
use remech::sim::shots::{
    crossed_ideal_frame_boundary, guide_missile_to_target, update_all_shots, SHOT_PROXIMITY_FUSE,
};
use remech::sim::stats::{DeltaHistory, SuppressionCounts};
use remech::sim::timing::{
    game_tick_timer_callback, sup_anim_should_draw, sup_anim_timer_callback, SupAnimState,
};
use remech::sim::window::{
    blit, classic_resolution_of_upper_name, dispatches, handle_messages, init_game_window_geometry,
    resolution_of_upper_name, set_game_resolution, set_game_resolution_classic, BlitAction, GameWindowGeometry,
};

#[test]
fn cd_position_packs_as_tmsf() {
    let p = CdAudioPosition { track: 3, minute: 2, second: 30, frame: 10 };
    assert_eq!(p.packed(), 3 + (2 << 8) + (30 << 16) + (10 << 24));
    let wide = CdAudioPosition { track: 1, minute: 0x1FF, second: 0x100, frame: 0x101 };
    assert_eq!(wide.packed(), 1 + (0xFF << 8) + (1 << 24));
}

#[test]
fn cd_init_plans() {
    assert!(!tries_player(CdSource::Mci));
    assert_eq!(init_cd_audio(CdSource::Auto, true, None), CdInitPlan::UsePlayer);
    assert_eq!(init_cd_audio(CdSource::Files, false, Some(4)), CdInitPlan::Fail);
    assert_eq!(init_cd_audio(CdSource::Auto, false, Some(4)), CdInitPlan::ReuseDevice(4));
    assert_eq!(init_cd_audio(CdSource::Mci, true, None), CdInitPlan::OpenDevice);
    assert_eq!(open_device_result(0, 0), 0);
    assert_eq!(open_device_result(263, 0), 1);
    assert_eq!(open_device_result(0, 5), 1);
}

#[test]
fn cd_status_from_mci() {
    assert_eq!(status_from_mci_mode(525), AudioCdStatus::Stopped);
    assert_eq!(status_from_mci_mode(530), AudioCdStatus::Stopped);
    assert_eq!(status_from_mci_mode(526), AudioCdStatus::Playing);
    assert_eq!(status_from_mci_mode(529), AudioCdStatus::Paused);
    assert_eq!(status_from_mci_mode(524), AudioCdStatus::Error);
    assert_eq!(status_from_device(Err(7)), (AudioCdStatus::Error, true));
    assert_eq!(status_from_device(Ok(526)), (AudioCdStatus::Playing, false));
    assert_eq!(get_cd_status(Some(AudioCdStatus::Paused), false), StatusQuery::Known(AudioCdStatus::Paused));
    assert_eq!(get_cd_status(None, false), StatusQuery::Known(AudioCdStatus::Error));
    assert_eq!(get_cd_status(None, true), StatusQuery::AskDevice);
    assert_eq!(AudioCdStatus::Paused.code(), 4);
}

#[test]
fn cd_start_update_and_toggle() {
    let open = start_cd_audio(AudioCdStatus::Open);
    assert!(!open.initialized && !open.read_tracks);
    let paused = start_cd_audio(AudioCdStatus::Paused);
    assert!(paused.initialized && paused.read_tracks && paused.save_paused_position);
    assert_eq!(start_result(0), 1);
    assert_eq!(start_result(1), 0);
    let saved = CdAudioPosition { track: 5, minute: 1, second: 2, frame: 3 };
    assert_eq!(update_cd_audio_position(false, AudioCdStatus::Playing, saved), PositionUpdate::Keep);
    assert_eq!(
        update_cd_audio_position(true, AudioCdStatus::Stopped, saved),
        PositionUpdate::MoveTo(CdAudioPosition::start())
    );
    assert_eq!(update_cd_audio_position(true, AudioCdStatus::Paused, saved), PositionUpdate::MoveTo(saved));
    assert_eq!(update_cd_audio_position(true, AudioCdStatus::Playing, saved), PositionUpdate::ReadDevice);
    // Unpausing a stopped CD resumes at the saved position.
    assert_eq!(
        cd_audio_toggle_paused(true, AudioCdStatus::Stopped, saved),
        ToggleAction::PlayFrom(saved.packed())
    );
    assert_eq!(cd_audio_toggle_paused(true, AudioCdStatus::Playing, saved), ToggleAction::SaveAndPause);
    assert_eq!(cd_audio_toggle_paused(true, AudioCdStatus::Paused, saved), ToggleAction::Resume);
    assert_eq!(cd_audio_toggle_paused(false, AudioCdStatus::Paused, saved), ToggleAction::Nothing);
    assert_eq!(play_cd_audio(7, 0), (4, 7, None));
    assert_eq!(play_cd_audio(7, 9), (12, 7, Some(9)));
}

#[test]
fn cd_player_track_table() {
    assert_eq!(get_cd_audio_tracks(Some(3)), (1, 3, vec![1, 2, 3, 4]));
    assert_eq!(get_cd_audio_tracks(None), (1, 0, vec![1]));
}

#[test]
fn hud_box_centred_and_scaled() {
    let g = GameWindowGeometry { width: 640, height: 480 };
    assert_eq!(hud_origin(854, 480, g), (107, 0));
    assert_eq!(hud_origin(640, 480, g), (0, 0));
    assert_eq!(hud_origin(320, 240, g), (-160, -120));
    let r = scale_rect_to_screen((107, 0), 639, 479, Rect { left: 0, top: 0, right: 0x10000, bottom: 0x8000 });
    assert_eq!(r, Rect { left: 107, top: 0, right: 107 + 639, bottom: 240 });
    let p = scale_point_to_screen((107, 0), 639, 479, Point { x: 0x8000, y: 0x10000 });
    assert_eq!(p, Point { x: 107 + 320, y: 479 });
    let c = center_rect_on_screen((107, 0), 639, 479, Rect { left: 10, top: 10, right: 109, bottom: 59 });
    assert_eq!(c, Rect { left: 107 + 269, top: 214, right: 107 + 269 + 99, bottom: 214 + 49 });
    assert_eq!(set_res(50, 107), -57);
}

#[test]
fn hud_covering_rects() {
    let mut r = Rect { left: 1, top: 2, right: 3, bottom: 4 };
    r.cover_framebuffer(854, 480);
    assert_eq!(r, Rect { left: 0, top: 0, right: 853, bottom: 479 });
    r.cover_framebuffer(0, 0);
    assert_eq!(r, Rect { left: 0, top: 0, right: 0, bottom: 0 });
    r.cover_hud_box(Some(GameWindowGeometry { width: 640, height: 480 }), (107, 0));
    assert_eq!(r, Rect { left: 107, top: 0, right: 746, bottom: 479 });
    let before = r;
    r.cover_hud_box(None, (1, 1));
    assert_eq!(r, before);
}

#[test]
fn window_resolution_from_driver_name() {
    // The name is compared without regard to case.
    assert_eq!(set_game_resolution(b"vesa480.dll", false), (640, 480));
    assert_eq!(set_game_resolution(b"VESA480.DLL", true), (854, 480));
    assert_eq!(set_game_resolution(b"Vesa768.Dll", false), (1024, 768));
    assert_eq!(set_game_resolution(b"VESA768.DLL", true), (1366, 768));
    assert_eq!(set_game_resolution(b"MCGA.DLL", false), (320, 240));
    assert_eq!(set_game_resolution(b"mcga.dll", true), (427, 240));
    assert_eq!(set_game_resolution(b"vesa480.dllx", false), (320, 240));
    // A name that is not UTF-8 names no driver.
    assert_eq!(set_game_resolution(&[0xFF, b'E', b'S', b'A'], true), (427, 240));
    // Unicode upper case: the long s is an upper-case S.
    assert_eq!(set_game_resolution("ve\u{17F}a480.dll".as_bytes(), false), (640, 480));
    assert_eq!(set_game_resolution_classic(b"MCGA.DLL"), (320, 200));
    assert_eq!(set_game_resolution_classic(b"vesa768.dll"), (1024, 768));
    assert_eq!(set_game_resolution_classic(b"VESA480.DLLX"), (320, 200));
    assert_eq!(resolution_of_upper_name(b"vesa480.dll", false), (320, 240));
    assert_eq!(classic_resolution_of_upper_name(b"VESA480.DLL"), (640, 480));
}

#[test]
fn window_geometry_and_blit() {
    let g = GameWindowGeometry { width: 1, height: 1 };
    let r = init_game_window_geometry(1, Some(g), 480).unwrap();
    assert_eq!((r.0, r.1, r.2), (GameWindowGeometry { width: 640, height: 480 }, 639, 479));
    let r = init_game_window_geometry(1, Some(g), 200).unwrap();
    assert_eq!(r.0, GameWindowGeometry { width: 320, height: 240 });
    assert!(init_game_window_geometry(0, Some(g), 480).is_none());
    assert!(init_game_window_geometry(1, None, 480).is_none());
    let src = Rect { left: 4, top: 5, right: 300, bottom: 200 };
    assert_eq!(blit(false, true, src), BlitAction::Flip);
    assert_eq!(blit(false, false, src), BlitAction::Nothing);
    assert_eq!(blit(true, false, src), BlitAction::Stretch(5, 6, 300, 200));
    assert!(dispatches(true, true));
    assert!(dispatches(false, false));
    assert!(!dispatches(false, true));
    assert!(handle_messages(false));
    assert!(!handle_messages(true));
}

#[test]
fn camera_fov_and_slots() {
    assert_eq!(fov_correction(640, 480), 0x10000);
    assert_eq!(fov_correction(0, 480), 0x10000);
    // 16:9 widens the view: the factor is 4:3 over 16:9, about 0.75.
    assert_eq!(fov_correction(1366, 768), ((0x15555i64 << 16) / ((1366i64 << 16) / 768)) as i32);
    assert_eq!(apply_eyepoint_fov(0x20000, 0xC000), 0x18000);
    assert_eq!(apply_eyepoint_fov(-3, 0x8000), -2);
    assert_eq!(setup_eyepoint_projection(), 0x10000);
    assert_eq!(render_target(10), Some(10));
    assert_eq!(render_target(11), None);
    assert_eq!(render_target(-1), None);
    let c = load_cockpit_layout(4, 7, true);
    assert_eq!((c.widen_slot, c.scene_slot, c.widen_viewport), (Some(7), Some(7), true));
    let c = load_cockpit_layout(1, 20, true);
    assert_eq!((c.widen_slot, c.scene_slot, c.widen_viewport), (None, None, false));
    assert_eq!(select_render_target(0, 7), Some(0));
    assert_eq!(select_render_target(7, 7), Some(7));
    assert_eq!(select_render_target(3, 7), None);
    assert_eq!(setup_map_projection(7, 7, Some(640), 854, 1000), 1334);
    assert_eq!(setup_map_projection(7, 7, Some(640), 854, -1000), -1334);
    assert_eq!(setup_map_projection(6, 7, Some(640), 854, 1000), 1000);
    assert_eq!(setup_map_projection(7, 7, Some(0), 854, 1000), 1000);
    assert_eq!(setup_map_projection(7, 7, None, 854, 1000), 1000);
    assert!(draw_map_view_text(Some(7), 7, true));
    assert!(!draw_map_view_text(Some(7), 7, false));
    assert!(!draw_map_view_text(None, 7, true));
}

#[test]
fn input_ramp_carries_travel() {
    let mut carries = CarryTable::new();
    let mut axis = InputAxis { rate: 0, position: 0, ramp_shift: 0, updated: 0 };
    // A frame of 2 ticks: the rate grows by 6, travel 6 * 2 = 12 quarter frames.
    ramp_axis(&mut axis, &mut carries, 1, 1, 2);
    assert_eq!(axis.rate, 6);
    assert_eq!(axis.position, 3);
    assert_eq!(carries.get(1), 0);
    // 3 ticks: rate 6 + 9 = 15, travel 45: 11 whole, 1 carried.
    ramp_axis(&mut axis, &mut carries, 1, 1, 3);
    assert_eq!(axis.rate, 15);
    assert_eq!(axis.position, 14);
    assert_eq!(carries.get(1), 1);
    // The opposite key restarts from a standstill.
    ramp_axis(&mut axis, &mut carries, 1, -1, 1);
    assert_eq!(axis.rate, -3);
    assert_eq!(axis.position, 13);
    assert_eq!(carries.get(1), 2);
}

#[test]
fn input_ramp_clamps_rate_and_position() {
    let mut carries = CarryTable::new();
    let mut axis = InputAxis { rate: 32000, position: 65530, ramp_shift: 8, updated: 0 };
    ramp_axis(&mut axis, &mut carries, 9, 1, 4);
    assert_eq!(axis.rate, 32768);
    assert_eq!(axis.position, 65536);
}

#[test]
fn input_keys_drive_axis() {
    let mut carries = CarryTable::new();
    let mut axis = InputAxis { rate: 999, position: 10, ramp_shift: 0, updated: 0 };
    let driven = update_axis_from_keys(&mut axis, &mut carries, 5, true, true, false, 0, 0, 4);
    assert_eq!(driven, 1);
    assert_eq!(axis.rate, 12);
    assert_eq!(axis.position, 22);
    assert_eq!(axis.updated, 1);
    // No key held: the axis stops and its carry is forgotten.
    carries.set(5, 3);
    let driven = update_axis_from_keys(&mut axis, &mut carries, 5, true, false, false, 12, 0, 4);
    assert_eq!(driven, 0);
    assert_eq!(axis.rate, 0);
    assert_eq!(carries.get(5), 0);
    // Something else drove the axis: the keys do not apply.
    let driven = update_axis_from_keys(&mut axis, &mut carries, 5, false, true, false, 7, 1, 4);
    assert_eq!(driven, 1);
    assert_eq!(axis.rate, 7);
}

#[test]
fn jumpjet_recharge_and_carry() {
    let p = Player { shutdown_state: 2, jumpjet_fuel: 100, overheat_flags: 0, jumpjet_held: Some(false) };
    assert_eq!(jumpjet_recharge_result(p, 7), Some(101));
    assert_eq!(jumpjet_recharge_result(Player { jumpjet_held: Some(true), ..p }, 7), None);
    assert_eq!(jumpjet_recharge_result(Player { shutdown_state: 1, jumpjet_held: Some(true), ..p }, 7), Some(101));
    assert_eq!(jumpjet_recharge_result(Player { overheat_flags: 0x200, ..p }, 7), None);
    assert_eq!(jumpjet_recharge_result(Player { jumpjet_fuel: -1, ..p }, 7), None);
    assert_eq!(jumpjet_recharge_result(Player { jumpjet_fuel: 1810, ..p }, 7), None);
    assert_eq!(jumpjet_recharge_result(Player { jumpjet_held: None, ..p }, 7), None);
    let mut carries = CarryTable::new();
    // Frames of 7 ticks give 1 tick of fuel plus 3 quarter ticks carried.
    assert_eq!(func_with_jumpjet_calc(Some(101), 101, &mut carries, 1, 7), 101);
    assert_eq!(carries.get(1), 3);
    assert_eq!(func_with_jumpjet_calc(Some(102), 102, &mut carries, 1, 7), 103);
    assert_eq!(carries.get(1), 2);
    // A frame that did not recharge as expected drops the carry.
    assert_eq!(func_with_jumpjet_calc(Some(104), 50, &mut carries, 1, 7), 50);
    assert_eq!(carries.get(1), 0);
}

#[test]
fn shots_fuse_and_zero_frames() {
    assert!(crossed_ideal_frame_boundary(8, 1));
    assert!(!crossed_ideal_frame_boundary(9, 1));
    assert!(crossed_ideal_frame_boundary(9, 4));
    assert!(!crossed_ideal_frame_boundary(9, 0));
    // The previous age saturates at i32::MIN, in the same ideal frame.
    assert!(!crossed_ideal_frame_boundary(i32::MIN + 1, 5));
    assert_eq!(guide_missile_to_target(0x8001, 9, 1), (0x0001, true));
    assert_eq!(guide_missile_to_target(0x8001, 8, 1), (0x8001, false));
    assert_eq!(guide_missile_to_target(0x0001, 9, 1), (0x0001, false));
    assert!(!update_all_shots(0));
    assert!(update_all_shots(3));
}

#[test]
fn timing_ticks_and_loading_screen() {
    assert_eq!(game_tick_timer_callback(0, 5, 7), (6, 8));
    assert_eq!(game_tick_timer_callback(0x200, 5, 7), (5, 8));
    assert_eq!(game_tick_timer_callback(0x300, 5, 7), (5, 7));
    let s = SupAnimState { display_ready: true, loaded: true, frame_count: 4, frame: 0, window_active: true };
    assert!(sup_anim_should_draw(s));
    assert!(!sup_anim_should_draw(SupAnimState { frame_count: 1, ..s }));
    assert!(!sup_anim_should_draw(SupAnimState { window_active: false, ..s }));
    assert_eq!(sup_anim_timer_callback(2, 4), 3);
    assert_eq!(sup_anim_timer_callback(3, 4), 0);
    assert_eq!(sup_anim_timer_callback(-3, 4), -2);
}

#[test]
fn stats_history_counts() {
    let mut h = DeltaHistory::new();
    assert_eq!(h.count_short(), 0);
    for dt in [0, 3, 4, 7, 0] {
        h.record(dt);
    }
    assert_eq!(h.recent.len(), 200);
    assert_eq!(h.recent[199], Some(0));
    assert_eq!(h.recent[195], Some(0));
    assert_eq!(h.count_short(), 3);
    assert_eq!(h.count_still(), 2);
    for _ in 0..200 {
        h.record(5);
    }
    assert_eq!(h.count_short(), 0);
}

#[test]
fn suppression_counts_count_zero_divisors() {
    let mut counts = SuppressionCounts::new();
    assert_eq!(counts.fixed_div_16(0x10000, 0x20000), 0x8000);
    assert_eq!(counts.zero_divisors, 0);
    assert_eq!(counts.fixed_div_16(0x10000, 0), 0);
    assert_eq!(counts.fixed_div_16(5, 0), 0);
    assert_eq!(counts.zero_divisors, 2);
    assert_eq!(counts.fuses_suppressed, 0);
    assert_eq!(counts.zero_frames_skipped, 0);
    counts.zero_divisors = u32::MAX;
    assert_eq!(counts.fixed_div_16(1, 0), 0);
    assert_eq!(counts.zero_divisors, 0);
}

#[test]
fn suppression_counts_count_fuses_and_still_frames() {
    let mut counts = SuppressionCounts::new();
    // Age 5 after a frame of one tick crossed no boundary: disarmed.
    assert_eq!(counts.guide_missile_to_target(SHOT_PROXIMITY_FUSE | 1, 5, 1), 1);
    assert_eq!(counts.fuses_suppressed, 1);
    // Age 8 after a frame of one tick crossed one: kept.
    assert_eq!(counts.guide_missile_to_target(SHOT_PROXIMITY_FUSE, 8, 1), SHOT_PROXIMITY_FUSE);
    assert_eq!(counts.fuses_suppressed, 1);
    assert!(!counts.update_all_shots(0));
    assert!(counts.update_all_shots(4));
    assert_eq!(counts.zero_frames_skipped, 1);
    assert_eq!(counts.zero_divisors, 0);
}
