use sgtop::config::{names_builtin, theme_of, Cli, Config};
use sgtop::ui::cells::{Color, Rect};
use sgtop::ui::layout::{min_size, solve, Boxes};
use sgtop::ui::theme::{expand_rgb, named_overlays, to_color, ColorMode, Theme, DEFAULT};

// ---- layout ----

#[test]
fn matches_btop_calc_sizes_at_120x40() {
    let l = solve(Rect::new(0, 0, 120, 40), &Boxes::all());
    assert_eq!(l.engine, Rect::new(0, 0, 120, 13));
    assert_eq!(l.kv, Rect::new(0, 13, 54, 16));
    assert_eq!(l.traffic, Rect::new(0, 29, 54, 11));
    assert_eq!(l.ranks, Rect::new(54, 13, 66, 27));
}

#[test]
fn boxes_touch_no_overlap() {
    let l = solve(Rect::new(0, 0, 120, 40), &Boxes::all());
    assert_eq!(l.engine.bottom(), l.kv.top(), "engine/kv abut");
    assert_eq!(l.kv.bottom(), l.traffic.top(), "kv/traffic abut");
    assert_eq!(l.traffic.bottom(), 40, "traffic reaches bottom");
    assert_eq!(l.kv.right(), l.ranks.left(), "kv/ranks abut");
    assert_eq!(l.ranks.right(), 120, "ranks reaches right edge");
}

#[test]
fn grid_always_tiles_top_and_left_edges() {
    for h in 24..120 {
        let l = solve(Rect::new(0, 0, 120, h), &Boxes::all());
        assert_eq!(l.traffic.bottom(), h, "bottom at height {h}");
        assert_eq!(l.ranks.right(), 120, "right edge at width 120");
    }
}

#[test]
fn hidden_ranks_widens_left_boxes() {
    let boxes = Boxes { ranks: false, ..Boxes::all() };
    let l = solve(Rect::new(0, 0, 120, 40), &boxes);
    assert_eq!(l.kv.width, 120);
}

#[test]
fn no_hidden_box_overflows_the_area() {
    let boxes = Boxes { engine: false, kv: false, traffic: true, ranks: false };
    let l = solve(Rect::new(0, 0, 36, 6), &boxes);
    assert_eq!(l.ranks.area(), 0);
    assert_eq!(l.engine.area(), 0);
    for (name, r) in [("kv", l.kv), ("traffic", l.traffic)] {
        assert!(r.bottom() <= 6 && r.right() <= 36, "{name} {r:?}");
    }
}

#[test]
fn fuzz_every_size_and_visible_mask() {
    for w in 2u16..160 {
        for h in 2u16..80 {
            let area = Rect::new(0, 0, w, h);
            for e in [true, false] {
                for k in [true, false] {
                    for t in [true, false] {
                        for r in [true, false] {
                            let boxes = Boxes { engine: e, kv: k, traffic: t, ranks: r };
                            let (mw, mh) = min_size(&boxes);
                            if w < mw || h < mh {
                                continue;
                            }
                            let l = solve(area, &boxes);
                            for (name, rect, on) in [
                                ("engine", l.engine, e),
                                ("kv", l.kv, k),
                                ("traffic", l.traffic, t),
                                ("ranks", l.ranks, r),
                            ] {
                                if !on {
                                    assert_eq!(rect.area(), 0, "{name} hidden but has area: {rect:?}");
                                    continue;
                                }
                                assert!(
                                    rect.bottom() <= h && rect.right() <= w,
                                    "{w}x{h}: {name} {rect:?} exceeds area"
                                );
                            }
                        }
                    }
                }
            }
        }
    }
}

#[test]
fn the_four_boxes_need_55_by_24() {
    assert_eq!(min_size(&Boxes::all()), (55, 24));
}

#[test]
fn nothing_visible_takes_no_room() {
    let none = Boxes { engine: false, kv: false, traffic: false, ranks: false };
    let l = solve(Rect::new(0, 0, 80, 24), &none);
    assert_eq!(l.engine.area() + l.kv.area() + l.traffic.area() + l.ranks.area(), 0);
}

// ---- themes ----

#[test]
fn shorthand_grayscale() {
    assert_eq!(expand_rgb("#cc"), Some((0xcc, 0xcc, 0xcc)));
    assert_eq!(expand_rgb("#00"), Some((0, 0, 0)));
    assert_eq!(expand_rgb("#77ca9b"), Some((0x77, 0xca, 0x9b)));
    assert_eq!(expand_rgb("#f0a"), Some((0xff, 0x00, 0xaa)));
}

#[test]
fn texts_that_are_no_colour_are_refused() {
    for s in ["", "#", "#f", "#12345", "#ggg", "#1234567", "red"] {
        assert_eq!(expand_rgb(s), None, "{s:?}");
    }
}

#[test]
fn gradient_terminals() {
    let t = Theme::builtin("Default", ColorMode::TrueColor);
    assert_eq!(t.grad("cpu", 0), Color::Rgb(0x77, 0xca, 0x9b));
    assert_eq!(t.grad("cpu", 100), Color::Rgb(0xdc, 0x4c, 0x4c));
    assert_eq!(t.grad("cpu", 50), Color::Rgb(0xcb, 0xc0, 0x6c));
}

#[test]
fn color16_downgrade_never_panic() {
    let t = Theme::builtin("Default", ColorMode::Color16);
    for p in 0..=100 {
        let _ = t.grad("cpu", p);
    }
    assert!(matches!(t.c("title"), Color::Indexed(_)));
}

#[test]
fn modern_builtins_ship_a_main_bg() {
    for name in ["gruvbox-dark", "tokyo-night", "catppuccin-mocha"] {
        let t = Theme::builtin(name, ColorMode::TrueColor);
        assert!(matches!(t.c("main_bg"), Color::Rgb(..)), "{name} main_bg");
    }
}

#[test]
fn modern_builtins_overlay_and_reramp() {
    let t = Theme::builtin("tokyo-night", ColorMode::TrueColor);
    assert_eq!(t.c("hi_fg"), Color::Rgb(0xf7, 0x76, 0x8e));
    assert_eq!(t.grad("cpu", 0), Color::Rgb(0x9e, 0xce, 0x6a));
    assert_eq!(t.grad("cpu", 100), Color::Rgb(0xf7, 0x76, 0x8e));
}

#[test]
fn modern_builtins_resolve_all_names() {
    for name in ["gruvbox-dark", "tokyo-night", "catppuccin-mocha"] {
        let t = Theme::builtin(name, ColorMode::TrueColor);
        for key in ["main_fg", "title", "hi_fg", "cpu_box", "proc_box"] {
            assert!(matches!(t.c(key), Color::Rgb(..)), "{name}.{key} resolves to a real colour");
        }
        assert!(matches!(t.grad("cpu", 100), Color::Rgb(..)));
    }
}

#[test]
fn modern_builtins_downgrade_to_tty_under_color16() {
    let t = Theme::builtin("gruvbox-dark", ColorMode::Color16);
    assert!(matches!(t.c("title"), Color::Indexed(_)));
}

#[test]
fn theme_files_override_single_colours() {
    let contents = "# a comment\nmain_bg = \"#102030\"\nhi_fg: '#abc'\ncpu_start=#0f\nnonsense\n";
    let t = Theme::from_file("mine", contents, ColorMode::TrueColor);
    assert_eq!(t.name, "mine");
    assert_eq!(t.c("main_bg"), Color::Rgb(0x10, 0x20, 0x30));
    assert_eq!(t.c("hi_fg"), Color::Rgb(0xaa, 0xbb, 0xcc));
    assert_eq!(t.grad("cpu", 0), Color::Rgb(0x0f, 0x0f, 0x0f));
    let default = Theme::builtin("Default", ColorMode::TrueColor);
    assert_eq!(t.c("title"), default.c("title"));
    assert_eq!(t.grad("cpu", 100), default.grad("cpu", 100));
}

#[test]
fn colour_modes_are_detected_from_the_environment() {
    assert_eq!(ColorMode::detect("truecolor", ""), ColorMode::TrueColor);
    assert_eq!(ColorMode::detect("24bit", ""), ColorMode::TrueColor);
    assert_eq!(ColorMode::detect("", "xterm-256color"), ColorMode::Color256);
    assert_eq!(ColorMode::detect("", "linux"), ColorMode::Color16);
}

// ---- configuration ----

#[test]
fn defaults_clamp_interval() {
    let cli = Cli { interval: 5, ..Cli::default() };
    let cfg = Config::build(&cli, Config::default());
    assert_eq!(cfg.interval_ms, 100);
}

#[test]
fn explicit_url_overrides() {
    let cli = Cli { url: "http://h:1".to_string(), ..Cli::default() };
    assert_eq!(Config::build(&cli, Config::default()).url, "http://h:1");
}

#[test]
fn builtin_themes_resolve_without_file_search() {
    let cli = Cli { theme: "tokyo-night".to_string(), color: "truecolor".to_string(), ..Cli::default() };
    let cfg = Config::build(&cli, Config::default());
    assert!(cfg.has_builtin_theme());
    assert_eq!(cfg.theme("", "", None).c("hi_fg"), Color::Rgb(0xf7, 0x76, 0x8e));
}

#[test]
fn flags_stand_above_the_file_and_the_file_above_defaults() {
    let file = Config {
        url: "http://file:1".to_string(),
        interval_ms: 50_000,
        timeout_ms: 7,
        graph: "block".to_string(),
        round_corners: false,
        ..Config::default()
    };
    let cli = Cli { url: "http://flag:1".to_string(), ..Cli::default() };
    let cfg = Config::build(&cli, file);
    assert_eq!(cfg.url, "http://flag:1");
    assert_eq!(cfg.interval_ms, 10_000);
    assert_eq!(cfg.timeout_ms, 7);
    assert_eq!(cfg.graph, "block");
    assert!(!cfg.round_corners && !cfg.graph_braille());
    assert!(Config::default().graph_braille());
    assert_eq!(Config::build(&Cli::default(), Config::default()).graph, "btop");
}

#[test]
fn theme_names_are_told_without_regard_to_case() {
    let shout = Config { theme: "TOKYO-Night".to_string(), color_mode: "24bit".to_string(), ..Config::default() };
    assert!(shout.has_builtin_theme());
    let t = shout.theme("", "", None);
    assert_eq!(t.name, "tokyo-night");
    assert_eq!(t.c("hi_fg"), Color::Rgb(0xf7, 0x76, 0x8e));
    let dotted = Config { theme: "İNK".to_string(), ..Config::default() };
    assert!(!dotted.has_builtin_theme());
    assert!(names_builtin("tty") && !names_builtin("TTY"));
}

#[test]
fn other_themes_come_from_their_file_or_fall_back() {
    let cfg = Config { theme: "mine".to_string(), color_mode: "truecolor".to_string(), ..Config::default() };
    assert_eq!(cfg.theme_file(), "mine.theme");
    let t = cfg.theme("", "", Some("title = \"#010203\"\n"));
    assert_eq!((t.name.as_str(), t.c("title")), ("mine", Color::Rgb(1, 2, 3)));
    let t = cfg.theme("", "", None);
    assert_eq!(t.name, "Default");
    let t = theme_of("mine", "tty", None, ColorMode::Color16);
    assert_eq!(t.name, "tty");
}

#[test]
fn the_configured_colour_mode_beats_the_environment() {
    let mode = |m: &str| Config { color_mode: m.to_string(), ..Config::default() };
    assert_eq!(mode("16").color_mode("truecolor", ""), ColorMode::Color16);
    assert_eq!(mode("256").color_mode("", ""), ColorMode::Color256);
    assert_eq!(mode("24bit").color_mode("", ""), ColorMode::TrueColor);
    assert_eq!(mode("auto").color_mode("truecolor", ""), ColorMode::TrueColor);
    assert_eq!(mode("auto").color_mode("", "xterm-256color"), ColorMode::Color256);
}

#[test]
fn colours_snap_to_the_levels_of_the_table() {
    let c = |r: u8, g: u8, b: u8| to_color(r, g, b, ColorMode::Color256);
    assert_eq!(c(95, 0, 0), Color::Indexed(52));
    assert_eq!(c(0, 135, 255), Color::Indexed(33));
    assert_eq!(c(255, 175, 47), Color::Indexed(214));
    assert_eq!(c(255, 175, 48), Color::Indexed(215));
    assert_eq!(c(8, 8, 8), Color::Indexed(232));
    assert_eq!(c(118, 118, 118), Color::Indexed(243));
    assert_eq!(c(238, 238, 238), Color::Indexed(255));
    assert_eq!(c(0, 0, 0), Color::Indexed(16));
    assert_eq!(c(255, 255, 255), Color::Indexed(231));
    assert_eq!(c(204, 204, 204), Color::Indexed(252));
    assert_eq!(c(118, 118, 130), Color::Indexed(243));
    assert_eq!(to_color(1, 2, 3, ColorMode::TrueColor), Color::Rgb(1, 2, 3));
    assert_eq!(to_color(250, 80, 90, ColorMode::Color16), Color::Indexed(9));
}

#[test]
fn builtin_palettes_colour_every_key() {
    for name in ["gruvbox-dark", "tokyo-night", "catppuccin-mocha"] {
        let mut raw: Vec<(String, String)> = Vec::new();
        named_overlays(name, &mut raw);
        assert_eq!(raw.len(), 40, "{name}");
        let mut keys: Vec<&str> = raw.iter().map(|e| e.0.as_str()).collect();
        keys.sort();
        keys.dedup();
        assert_eq!(keys.len(), 40, "{name}");
        assert!(DEFAULT.iter().all(|d| keys.contains(&d.0)), "{name}");
        assert!(raw.iter().all(|e| expand_rgb(&e.1).is_some()), "{name}");
    }
    let mut raw: Vec<(String, String)> = Vec::new();
    named_overlays("Gruvbox-Dark", &mut raw);
    named_overlays("nord", &mut raw);
    assert!(raw.is_empty());
}
