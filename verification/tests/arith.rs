use remech::fixed::{
    div_trunc_i32, div_trunc_i64, fixed_div_16, fmul16, integer_overflow_happens_here, mul_div_64,
    random_int_below, rem_trunc_i32,
};
use remech::launch::{
    entry_result, load_settings_from_registry, registry_root, LaunchError, HKEY_CURRENT_USER,
    HKEY_LOCAL_MACHINE,
};
use remech::palette::{
    begin, blit_flip, init_draw_mode, set_palette, set_palette_with_brightness, PaletteColor,
};

#[test]
fn fixed_point_multiplication() {
    assert_eq!(fmul16(0x10000, 0x10000), 0x10000);
    assert_eq!(fmul16(0x18000, 0x20000), 0x30000);
    assert_eq!(fmul16(639, 0x8000), 320);
    assert_eq!(fmul16(-0x10000, 0x8000), -0x8000);
    assert_eq!(fmul16(1, 0x8000), 1);
    assert_eq!(fmul16(-1, 0x8000), 0);
    assert_eq!(fmul16(7, 0x10000), 7);
}

#[test]
fn divisions_round_toward_zero() {
    assert_eq!(div_trunc_i64(7, 2), 3);
    assert_eq!(div_trunc_i64(-7, 2), -3);
    assert_eq!(div_trunc_i64(7, -2), -3);
    assert_eq!(div_trunc_i64(i64::MIN, 1), i64::MIN);
    assert_eq!(div_trunc_i32(-9, 4), -2);
    assert_eq!(rem_trunc_i32(-9, 4), -1);
    assert_eq!(rem_trunc_i32(9, 4), 1);
    assert_eq!(mul_div_64(100_000, 100_000, 1000), 10_000_000);
    assert_eq!(mul_div_64(-7, 3, 2), -10);
    assert_eq!(integer_overflow_happens_here(1 << 30, 4, 2), ((1i64 << 31) as i32));
    assert_eq!(integer_overflow_happens_here(6, 7, -4), -10);
}

#[test]
fn fixed_division_by_zero_answers_zero() {
    assert_eq!(fixed_div_16(0x10000, 0), 0);
    assert_eq!(fixed_div_16(0x30000, 0x20000), 0x18000);
    assert_eq!(fixed_div_16((-0x30000i32) as u32, 0x20000), (-0x18000i32) as u32);
}

#[test]
fn random_numbers_stay_below_max() {
    for _ in 0..1000 {
        let r = random_int_below(3);
        assert!((0..3).contains(&r));
    }
    assert_eq!(random_int_below(1), 0);
}

#[test]
fn launch_results_and_registry() {
    assert_eq!(entry_result(5), Ok(5));
    assert_eq!(entry_result(-1), Err(LaunchError::ComponentsMissing));
    assert_eq!(
        LaunchError::ComponentsMissing.message(),
        "REMECH 2 is unable to locate necessary program components."
    );
    assert_eq!(registry_root(HKEY_LOCAL_MACHINE), HKEY_CURRENT_USER);
    assert_eq!(registry_root(0x8000_0000), 0x8000_0000);
    assert_eq!(load_settings_from_registry(), (0, 0, 0, true));
}

fn grey(v: u8) -> PaletteColor {
    PaletteColor { red: v, green: v, blue: v }
}

#[test]
fn palette_ranges() {
    let mut palette = vec![grey(0); 256];
    let colors = vec![grey(1), grey(2), grey(3)];
    assert_eq!(set_palette(&mut palette, 254, 2, Some(&colors)), 0);
    assert_eq!(palette[254], grey(1));
    assert_eq!(palette[255], grey(2));
    assert_eq!(palette[253], grey(0));
    assert_eq!(set_palette(&mut palette, 255, 2, Some(&colors)), -1);
    assert_eq!(set_palette(&mut palette, -1, 1, Some(&colors)), -1);
    assert_eq!(set_palette(&mut palette, 0, 0, Some(&colors)), -1);
    assert_eq!(set_palette(&mut palette, 0, 1, None), -1);
    assert_eq!(palette[0], grey(0));
}

#[test]
fn palette_brightness_through_gamma() {
    let gamma: Vec<u8> = (0..1024u32).map(|i| (i / 4) as u8).collect();
    let colors: Vec<PaletteColor> =
        (0..256u32).map(|i| PaletteColor { red: (i % 64) as u8, green: 1, blue: 63 }).collect();
    let mut shown = vec![grey(0); 256];
    let mut given = vec![grey(0); 256];
    set_palette_with_brightness(&mut shown, &mut given, &colors, &gamma, 2);
    assert_eq!(given, colors);
    assert_eq!(shown[5], PaletteColor { red: ((5 + 128) / 4) as u8, green: (129 / 4) as u8, blue: (191 / 4) as u8 });
}

#[test]
fn blit_sizes() {
    assert_eq!(blit_flip(319, 200), Some((320, 200, 64000)));
    assert_eq!(blit_flip(-1, 200), None);
    assert_eq!(blit_flip(319, 0), None);
    assert_eq!(begin(320, 200), 128000);
    assert_eq!(init_draw_mode(2), 5);
}

#[test]
fn begin_takes_a_negative_product_as_a_size() {
    assert_eq!(begin(-1, 10), (-20i32) as usize);
    assert_eq!(begin(0, 480), 0);
    assert_eq!(begin(640, 480), 614400);
}
