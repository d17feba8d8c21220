use matrix_rain::cli::{parse_args, parse_u64};
use matrix_rain::color::{hsv_to_rgb, ColorScheme, Rgb};
use matrix_rain::drops::Drop;
use matrix_rain::field::Matrix;
use matrix_rain::glyphs::{charset_char, charset_len, is_charset_glyph};
use matrix_rain::settings::{Key, Settings};

fn five_by_five() -> Settings {
    Settings {
        frame_delay_ms: 50,
        density_pct: 100,
        spawns_per_frame: 1,
        min_length: 5,
        max_length: 5,
        min_speed: 1,
        max_speed: 1,
        color_scheme: ColorScheme::Green,
    }
}

#[test]
fn hsv_pure_red() {
    assert_eq!(hsv_to_rgb(0, 1000, 1000), (255, 0, 0));
}

#[test]
fn hsv_pure_green_within_rounding() {
    let (r, g, b) = hsv_to_rgb(333, 1000, 1000);
    assert!(r <= 2);
    assert_eq!(g, 255);
    assert_eq!(b, 0);
}

#[test]
fn hsv_pure_blue_within_rounding() {
    let (r, g, b) = hsv_to_rgb(667, 1000, 1000);
    assert!(r <= 2);
    assert!(g <= 2);
    assert_eq!(b, 255);
}

#[test]
fn green_scheme_exact_values() {
    let s = ColorScheme::Green;
    assert_eq!(s.get_colors(0, 5, 0), Rgb { r: 200, g: 255, b: 200 });
    assert_eq!(s.get_colors(1, 5, 0), Rgb { r: 100, g: 255, b: 100 });
    // fade = 400, intensity = 660: g = 255*660/1000, r = 30*600/1000
    assert_eq!(s.get_colors(2, 5, 0), Rgb { r: 18, g: 168, b: 0 });
}

#[test]
fn channels_fade_monotonically() {
    for scheme in [
        ColorScheme::Green,
        ColorScheme::Blue,
        ColorScheme::Red,
        ColorScheme::Purple,
        ColorScheme::Cyan,
    ] {
        let mut prev: Option<Rgb> = None;
        for i in 2..40 {
            let c = scheme.get_colors(i, 40, 7);
            if let Some(p) = prev {
                assert!(c.r <= p.r && c.g <= p.g && c.b <= p.b);
            }
            prev = Some(c);
        }
    }
}

#[test]
fn rainbow_head_is_white_regardless_of_column() {
    for x in [0u16, 1, 17, 4000, 65535] {
        assert_eq!(
            ColorScheme::Rainbow.get_colors(0, 12, x),
            Rgb { r: 255, g: 255, b: 255 }
        );
    }
}

#[test]
fn scheme_key_six_gives_white_head() {
    let mut s = Settings::default();
    let quit = s.apply_key(Key::Char('6'), false);
    assert!(!quit);
    assert!(matches!(s.color_scheme, ColorScheme::Rainbow));
    assert_eq!(
        s.color_scheme.get_colors(0, 20, 33),
        Rgb { r: 255, g: 255, b: 255 }
    );
}

#[test]
fn from_str_recognizes_names_case_insensitively() {
    assert!(matches!(ColorScheme::from_str("green"), Some(ColorScheme::Green)));
    assert!(matches!(ColorScheme::from_str("GREEN"), Some(ColorScheme::Green)));
    assert!(matches!(ColorScheme::from_str("Blue"), Some(ColorScheme::Blue)));
    assert!(matches!(ColorScheme::from_str("rAinBow"), Some(ColorScheme::Rainbow)));
    assert!(matches!(ColorScheme::from_str("red"), Some(ColorScheme::Red)));
    assert!(matches!(ColorScheme::from_str("purple"), Some(ColorScheme::Purple)));
    assert!(matches!(ColorScheme::from_str("cyan"), Some(ColorScheme::Cyan)));
    assert!(ColorScheme::from_str("").is_none());
    assert!(ColorScheme::from_str("greenish").is_none());
    assert!(ColorScheme::from_str("mauve").is_none());
}

#[test]
fn charset_shape() {
    assert_eq!(charset_len(), 133);
    assert_eq!(charset_char(0), 'a');
    assert_eq!(charset_char(26), 'A');
    assert_eq!(charset_char(62), '@');
    assert!(is_charset_glyph('a'));
    assert!(is_charset_glyph('?'));
    assert!(!is_charset_glyph('~'));
    assert!(!is_charset_glyph(' '));
}

#[test]
fn new_drop_samples_within_settings() {
    let s = Settings::default();
    for _ in 0..50 {
        let d = Drop::new(5, &s);
        assert_eq!(d.x, 5);
        assert!(d.y >= -30 && d.y < 0);
        assert!(d.speed >= s.min_speed && d.speed <= s.max_speed);
        assert!(d.length >= s.min_length && d.length <= s.max_length);
        assert_eq!(d.glyphs.len(), d.length);
        for &g in d.glyphs.iter() {
            assert!(is_charset_glyph(g));
        }
        assert_eq!(d.tick, 0);
    }
}

#[test]
fn fresh_drop_is_not_done() {
    let s = Settings::default();
    for _ in 0..20 {
        let d = Drop::new(0, &s);
        assert!(!d.is_done(24));
        assert!(!d.is_done(0));
    }
}

#[test]
fn update_keeps_glyph_buffer_in_charset() {
    let s = five_by_five();
    let mut d = Drop::new(3, &s);
    for _ in 0..40 {
        d.update(24, ColorScheme::Green);
        assert_eq!(d.glyphs.len(), d.length);
        for &g in d.glyphs.iter() {
            assert!(is_charset_glyph(g));
        }
    }
}

#[test]
fn slow_drop_moves_every_speed_ticks() {
    let mut d = Drop {
        x: 0,
        y: -1,
        speed: 3,
        length: 2,
        glyphs: vec!['a', 'b'],
        tick: 0,
    };
    let draws = d.update(24, ColorScheme::Green);
    assert_eq!(d.y, -1);
    assert!(draws.is_empty());
    let draws = d.update(24, ColorScheme::Green);
    assert_eq!(d.y, -1);
    assert!(draws.is_empty());
    d.update(24, ColorScheme::Green);
    assert_eq!(d.y, 0);
}

#[test]
fn head_reaches_row_four_after_five_advances() {
    let mut d = Drop {
        x: 10,
        y: -1,
        speed: 1,
        length: 5,
        glyphs: vec!['a', 'b', 'c', 'd', 'e'],
        tick: 0,
    };
    let mut last = Vec::new();
    for _ in 0..5 {
        last = d.update(24, ColorScheme::Green);
    }
    assert_eq!(d.y, 4);
    // rows 4,3,2,1,0 are visible; the tail blank at row -1 is not emitted
    assert_eq!(last.len(), 5);
    for (k, cmd) in last.iter().enumerate() {
        assert_eq!(cmd.x, 10);
        assert_eq!(cmd.y as i32, 4 - k as i32);
        assert!(is_charset_glyph(cmd.glyph));
    }
}

#[test]
fn update_blanks_the_trailing_cell() {
    let mut d = Drop {
        x: 2,
        y: 9,
        speed: 1,
        length: 3,
        glyphs: vec!['a', 'b', 'c'],
        tick: 0,
    };
    let draws = d.update(24, ColorScheme::Green);
    // head moves to 10; glyph cells at 10, 9, 8 and a blank at 7
    assert_eq!(d.y, 10);
    assert_eq!(draws.len(), 4);
    assert_eq!(draws[0].y, 10);
    assert_eq!(draws[0].color, Rgb { r: 200, g: 255, b: 200 });
    assert_eq!(draws[1].y, 9);
    assert_eq!(draws[2].y, 8);
    let blank = &draws[3];
    assert_eq!(blank.y, 7);
    assert_eq!(blank.glyph, ' ');
    assert_eq!(blank.color, Rgb { r: 0, g: 0, b: 0 });
}

#[test]
fn drop_retires_after_length_plus_height_rows() {
    let height: u16 = 24;
    let mut d = Drop {
        x: 0,
        y: -1,
        speed: 1,
        length: 5,
        glyphs: vec!['a', 'b', 'c', 'd', 'e'],
        tick: 0,
    };
    // done exactly when y - length > height, i.e. y >= 30, after 31 advances
    for _ in 0..30 {
        d.update(height, ColorScheme::Green);
        assert!(!d.is_done(height));
    }
    d.update(height, ColorScheme::Green);
    assert!(d.is_done(height));
}

#[test]
fn density_increase_clamps_at_full() {
    let mut s = Settings::default();
    for _ in 0..30 {
        let quit = s.apply_key(Key::Right, false);
        assert!(!quit);
        assert!(s.density_pct <= 100);
        assert!(s.spawns_per_frame <= 20);
    }
    assert_eq!(s.density_pct, 100);
    assert_eq!(s.spawns_per_frame, 20);
}

#[test]
fn density_decrease_clamps_at_five_percent() {
    let mut s = Settings::default();
    for _ in 0..20 {
        let quit = s.apply_key(Key::Left, false);
        assert!(!quit);
        assert!(s.density_pct >= 5);
    }
    assert_eq!(s.density_pct, 5);
    assert_eq!(s.spawns_per_frame, 1);
}

#[test]
fn frame_delay_clamps_both_ways() {
    let mut s = Settings::default();
    for _ in 0..20 {
        s.apply_key(Key::Up, false);
        assert!(s.frame_delay_ms >= 5);
    }
    assert_eq!(s.frame_delay_ms, 5);
    for _ in 0..30 {
        s.apply_key(Key::Down, false);
        assert!(s.frame_delay_ms <= 100);
    }
    assert_eq!(s.frame_delay_ms, 100);
}

#[test]
fn length_keys_clamp_and_keep_range_ordered() {
    let mut s = Settings::default();
    for _ in 0..10 {
        s.apply_key(Key::Char('+'), false);
        assert!(s.max_length <= 50);
        assert!(s.min_length <= s.max_length);
    }
    assert_eq!(s.max_length, 50);
    for _ in 0..20 {
        s.apply_key(Key::Char('-'), false);
        assert!(s.max_length >= 5);
        assert!(s.min_length <= s.max_length);
    }
    assert_eq!(s.max_length, 5);
    assert_eq!(s.min_length, 5);
}

#[test]
fn quit_keys_are_recognized() {
    let mut s = Settings::default();
    assert!(s.apply_key(Key::Char('q'), false));
    assert!(s.apply_key(Key::Esc, false));
    assert!(s.apply_key(Key::Enter, false));
    assert!(s.apply_key(Key::Char(' '), false));
    assert!(s.apply_key(Key::Char('c'), true));
    assert!(s.apply_key(Key::Char('d'), true));
    assert!(s.apply_key(Key::Char('z'), true));
    assert!(!s.apply_key(Key::Char('c'), false));
    assert!(!s.apply_key(Key::Other, false));
    assert!(!s.apply_key(Key::Char('x'), true));
}

#[test]
fn scheme_keys_select_schemes() {
    let mut s = Settings::default();
    s.apply_key(Key::Char('2'), false);
    assert!(matches!(s.color_scheme, ColorScheme::Blue));
    s.apply_key(Key::Char('3'), false);
    assert!(matches!(s.color_scheme, ColorScheme::Red));
    s.apply_key(Key::Char('4'), false);
    assert!(matches!(s.color_scheme, ColorScheme::Purple));
    s.apply_key(Key::Char('5'), false);
    assert!(matches!(s.color_scheme, ColorScheme::Cyan));
    s.apply_key(Key::Char('1'), false);
    assert!(matches!(s.color_scheme, ColorScheme::Green));
}

#[test]
fn full_density_spawns_exactly_one_drop_per_frame() {
    let mut m = Matrix::new(five_by_five(), 80, 24);
    let draws = m.advance_frame();
    assert_eq!(m.drops.len(), 1);
    let d = &m.drops[0];
    assert!(d.x < 80);
    assert_eq!(d.length, 5);
    // the freshly spawned drop advanced once within the same frame
    assert!(d.y <= 0);
    for cmd in draws.iter() {
        assert!(cmd.y < 24);
    }
}

#[test]
fn spawning_appends_fresh_drops() {
    let mut m = Matrix::new(five_by_five(), 40, 20);
    m.spawn_drops();
    assert_eq!(m.drops.len(), 1);
    assert!(m.drops[0].y < 0);
    assert!(m.drops[0].x < 40);
    m.spawn_drops();
    assert_eq!(m.drops.len(), 2);
}

#[test]
fn zero_width_terminal_spawns_nothing() {
    let mut m = Matrix::new(five_by_five(), 0, 20);
    m.spawn_drops();
    assert_eq!(m.drops.len(), 0);
    let draws = m.advance_frame();
    assert_eq!(m.drops.len(), 0);
    assert!(draws.is_empty());
}

#[test]
fn retired_drops_are_culled() {
    let mut m = Matrix::new(five_by_five(), 10, 5);
    // every drop is gone once its tail passes the 5-row screen
    for _ in 0..200 {
        m.advance_frame();
        for d in m.drops.iter() {
            assert!(!d.is_done(5));
        }
        assert!(m.drops.len() <= 200);
    }
}

#[test]
fn parse_u64_accepts_digits_only() {
    assert_eq!(parse_u64("0"), Some(0));
    assert_eq!(parse_u64("42"), Some(42));
    assert_eq!(parse_u64("18446744073709551615"), Some(u64::MAX));
    assert_eq!(parse_u64("18446744073709551616"), None);
    assert_eq!(parse_u64(""), None);
    assert_eq!(parse_u64("-3"), None);
    assert_eq!(parse_u64("4x"), None);
    assert_eq!(parse_u64("3.5"), None);
}

#[test]
fn parse_args_reads_every_flag() {
    let args: Vec<String> = ["rain", "-s", "40", "-d", "90", "-n", "5", "-l", "20", "-c", "rainbow"]
        .iter()
        .map(|s| s.to_string())
        .collect();
    let (s, help) = parse_args(&args);
    assert!(!help);
    assert_eq!(s.frame_delay_ms, 40);
    assert_eq!(s.density_pct, 90);
    assert_eq!(s.spawns_per_frame, 5);
    assert_eq!(s.max_length, 20);
    assert_eq!(s.min_length, 10);
    assert!(matches!(s.color_scheme, ColorScheme::Rainbow));
}

#[test]
fn parse_args_long_flags_and_help() {
    let args: Vec<String> = ["rain", "--density", "55", "--help", "--speed", "9"]
        .iter()
        .map(|s| s.to_string())
        .collect();
    let (s, help) = parse_args(&args);
    assert!(help);
    // parsing stops at the help flag
    assert_eq!(s.density_pct, 55);
    assert_eq!(s.frame_delay_ms, 50);
}

#[test]
fn parse_args_falls_back_on_bad_values() {
    let args: Vec<String> = ["rain", "-s", "fast", "-d", "200", "-n", "0", "-c", "plaid"]
        .iter()
        .map(|s| s.to_string())
        .collect();
    let (s, help) = parse_args(&args);
    assert!(!help);
    assert_eq!(s.frame_delay_ms, 30);
    assert_eq!(s.density_pct, 100);
    assert_eq!(s.spawns_per_frame, 1);
    assert!(matches!(s.color_scheme, ColorScheme::Green));
}

#[test]
fn parse_args_small_length_lowers_min() {
    let args: Vec<String> = ["rain", "-l", "3"].iter().map(|s| s.to_string()).collect();
    let (s, _) = parse_args(&args);
    assert_eq!(s.max_length, 3);
    assert_eq!(s.min_length, 3);
    assert!(s.is_wf());
}

#[test]
fn parse_args_ignores_unknown_and_trailing() {
    let args: Vec<String> = ["rain", "--wibble", "-s"].iter().map(|s| s.to_string()).collect();
    let (s, help) = parse_args(&args);
    assert!(!help);
    assert_eq!(s, Settings::default());
}
