use sgtop::app::{header_buttons, place_buttons, place_buttons_at, App, KeyCode, KeyEvent};
use sgtop::config::Config;
use sgtop::error::SgtopError;
use sgtop::model::hist::Ring;
use sgtop::model::snapshot::{
    Connection, EnginePanel, HiCache, HttpEndpoint, KvPanel, LatencySet, Percentile, RankRow,
    ServerMeta, Snapshot, TrafficPanel,
};
use sgtop::num::{Num, Text};
use sgtop::ui::cells::{plain, span, Buffer, Color, Line, Rect};
use sgtop::ui::frame::{border_set, button_spans, centered, centered_at, write_lines, Pane};
use sgtop::ui::overlays::{put_box, put_text, render, Live, Overlay};
use sgtop::ui::panels::human::{
    human_count, human_duration, human_pct, human_rate, human_rate_frac, kv_row, value_cell,
    value_cell_at,
};
use sgtop::ui::panels::{engine, kv, traffic, Gui};
use sgtop::ui::theme::{ColorMode, Theme};
use sgtop::ui::widgets::table::SortCol;

/// Double precision, as the monitor runs with it.
#[derive(Clone, Copy, Debug, PartialEq)]
struct F(f64);

impl std::fmt::Display for F {
    fn fmt(&self, out: &mut std::fmt::Formatter<'_>) -> std::fmt::Result {
        self.0.fmt(out)
    }
}

impl PartialEq<f64> for F {
    fn eq(&self, other: &f64) -> bool {
        self.0 == *other
    }
}

impl std::ops::Sub<f64> for F {
    type Output = f64;

    fn sub(self, other: f64) -> f64 {
        self.0 - other
    }
}

impl Num for F {
    fn zero() -> F {
        F(0.0)
    }

    fn lowest() -> F {
        F(f64::MIN)
    }

    fn epsilon() -> F {
        F(f64::EPSILON)
    }

    fn infinity() -> F {
        F(f64::INFINITY)
    }

    fn neg_infinity() -> F {
        F(f64::NEG_INFINITY)
    }

    fn nan() -> F {
        F(f64::NAN)
    }

    fn of_count(n: u64) -> F {
        F(n as f64)
    }

    fn of_nanos(n: u64) -> F {
        F(std::time::Duration::from_nanos(n).as_secs_f64())
    }

    fn read(text: &str) -> Option<F> {
        text.parse().ok().map(F)
    }

    fn plus(self, other: F) -> F {
        F(self.0 + other.0)
    }

    fn minus(self, other: F) -> F {
        F(self.0 - other.0)
    }

    fn times(self, other: F) -> F {
        F(self.0 * other.0)
    }

    fn over(self, other: F) -> F {
        F(self.0 / other.0)
    }

    fn round(self) -> F {
        F(self.0.round())
    }

    fn less(self, other: F) -> bool {
        self.0 < other.0
    }

    fn below(self, other: F) -> bool {
        self.0.total_cmp(&other.0).is_lt()
    }

    fn is_nan(self) -> bool {
        self.0.is_nan()
    }

    fn is_finite(self) -> bool {
        self.0.is_finite()
    }

    fn to_count(self) -> u64 {
        self.0 as u64
    }

    fn fixed(self, places: u8) -> String {
        format!("{:.*}", places as usize, self.0)
    }

    fn shown(self) -> String {
        format!("{}", self.0)
    }

    // The model of each operation is the operation itself; only proofs speak of it.

    fn zero_spec() -> F {
        F::zero()
    }

    fn lowest_spec() -> F {
        F::lowest()
    }

    fn epsilon_spec() -> F {
        F::epsilon()
    }

    fn infinity_spec() -> F {
        F::infinity()
    }

    fn neg_infinity_spec() -> F {
        F::neg_infinity()
    }

    fn nan_spec() -> F {
        F::nan()
    }

    fn of_count_spec(n: u64) -> F {
        F::of_count(n)
    }

    fn of_nanos_spec(n: u64) -> F {
        F::of_nanos(n)
    }

    fn read_spec(_: Text) -> Option<F> {
        unreachable!()
    }

    fn plus_spec(self, other: F) -> F {
        self.plus(other)
    }

    fn minus_spec(self, other: F) -> F {
        self.minus(other)
    }

    fn times_spec(self, other: F) -> F {
        self.times(other)
    }

    fn over_spec(self, other: F) -> F {
        self.over(other)
    }

    fn round_spec(self) -> F {
        self.round()
    }

    fn less_spec(self, other: F) -> bool {
        self.less(other)
    }

    fn below_spec(self, other: F) -> bool {
        self.below(other)
    }

    fn is_nan_spec(self) -> bool {
        self.is_nan()
    }

    fn is_finite_spec(self) -> bool {
        self.is_finite()
    }

    fn to_count_spec(self) -> u64 {
        self.to_count()
    }

    fn fixed_spec(self, _: u8) -> Text {
        unreachable!()
    }

    fn shown_spec(self) -> Text {
        unreachable!()
    }

    fn less_asymmetric(_: F, _: F) {}

    fn less_transitive(_: F, _: F, _: F) {}

    fn less_splits(_: F, _: F, _: F) {}

    fn less_excludes_nan(_: F, _: F) {}

    fn below_asymmetric(_: F, _: F) {}

    fn below_transitive(_: F, _: F, _: F) {}

    fn below_total(_: F, _: F) {}

    fn named_values() {}
    fn shown_is_read_back(_: F) {}
    fn no_growth(_: F) {}
}

type Snap = Snapshot<F>;

/// A moment on the monotonic clock.
const NOW: u64 = 75_000_000_000;

/// Every cell of the screen, row by row.
fn shown(b: &Buffer) -> String {
    (0..b.height()).map(|y| line(b, y)).collect()
}

fn line(b: &Buffer, y: u16) -> String {
    (0..b.width()).map(|x| b.cell(x, y).map(|c| c.symbol.clone()).unwrap_or_default()).collect()
}

fn app() -> App {
    let cfg = Config::default();
    let theme = cfg.theme("truecolor", "", None);
    App::new(cfg, theme)
}

fn render_at(w: u16, h: u16) -> Vec<Vec<String>> {
    grid(&app().draw(&Snap::default(), "12:34:56", NOW, w, h))
}

fn render_snapshot(snap: Snap) -> Vec<Vec<String>> {
    grid(&app().draw(&snap, "12:34:56", NOW, 120, 40))
}

fn grid(b: &Buffer) -> Vec<Vec<String>> {
    (0..b.height())
        .map(|y| {
            (0..b.width())
                .map(|x| b.cell(x, y).map(|c| c.symbol.clone()).unwrap_or_default())
                .collect()
        })
        .collect()
}

fn cell(buf: &[Vec<String>], x: usize, y: usize) -> &str {
    let row = &buf[y];
    assert!(x < row.len(), "cell({x},{y}) out of 120-wide row");
    &row[x]
}

fn all_text(buf: &[Vec<String>]) -> String {
    buf.iter().flat_map(|r| r.iter()).map(String::as_str).collect()
}

// ---- the whole screen ----

#[test]
fn clock_right_aligns_left_of_the_interval_stepper() {
    let th = Theme::builtin("Default", ColorMode::TrueColor);
    let items = header_buttons(1000, "12:34:56", &th);
    let placed = place_buttons(&items, 120, true);
    let stepper = &placed[placed.len() - 2];
    let clock = placed.last().unwrap();
    assert!(clock.1 < stepper.1, "clock {} < stepper {}", clock.1, stepper.1);
    let text: String = clock.0.iter().map(|s| s.content.as_str()).collect();
    assert_eq!(text, "12:34:56");
}

#[test]
fn buttons_of_given_widths_chain_from_the_right() {
    let items = vec![
        (vec![span("left", plain())], 3),
        (vec![span("a", plain())], 0),
        (vec![span("b", plain())], 0),
    ];
    let placed = place_buttons_at(&items, &vec![4, 10, 20], 100, true);
    assert_eq!(placed[0].1, 3);
    assert!(placed[1].1 + 10 <= 100);
    assert!(placed[2].1 + 20 <= placed[1].1);
}

#[test]
fn theme_main_bg_paints_the_ground() {
    let cfg = Config {
        theme: "tokyo-night".into(),
        color_mode: "truecolor".into(),
        ..Config::default()
    };
    let theme = cfg.theme("", "", None);
    let mut app = App::new(cfg, theme);
    let buf = app.draw(&Snap::default(), "12:34:56", NOW, 120, 40);
    let bg = buf.cell(30, 25).expect("cell").bg;
    assert_eq!(bg, app.theme.c("main_bg"));
    assert_ne!(bg, Color::Reset);
}

#[test]
fn four_boxes_geometry_at_120x40() {
    let b = render_at(120, 40);
    assert_eq!(cell(&b, 0, 0), "╭");
    assert_eq!(cell(&b, 119, 0), "╮");
    assert_eq!(cell(&b, 0, 12), "╰");
    assert_eq!(cell(&b, 119, 12), "╯");
    assert_eq!(cell(&b, 0, 13), "╭");
    assert_eq!(cell(&b, 53, 28), "╯");
    assert_eq!(cell(&b, 0, 29), "╭");
    assert_eq!(cell(&b, 53, 39), "╯");
    assert_eq!(cell(&b, 54, 13), "╭");
    assert_eq!(cell(&b, 119, 39), "╯");
}

#[test]
fn title_breaks_top_border() {
    let b = render_at(120, 40);
    assert_eq!(cell(&b, 2, 0), "┐");
    assert_eq!(cell(&b, 3, 0), "¹");
    assert_eq!(cell(&b, 4, 0), "e");
    assert_eq!(cell(&b, 10, 0), "┌");
    assert_eq!(cell(&b, 56, 13), "┐");
    assert_eq!(cell(&b, 57, 13), "⁴");
}

#[test]
fn no_gaps_in_border_grid() {
    let b = render_at(120, 40);
    for x in 1..119 {
        assert!(!cell(&b, x, 12).trim().is_empty(), "engine bottom row blank at x={x}");
    }
}

#[test]
fn toosmall_screen_replaces_layout() {
    let b = render_at(60, 10);
    let text: String = b.iter().flatten().map(|s| s.as_str()).collect();
    assert!(text.contains("Terminal size too small"), "{text}");
    assert!(text.contains("60"));
}

#[test]
fn tiny_screens_are_drawn_without_harm() {
    for (w, h) in [(0, 0), (1, 1), (3, 2), (0, 50), (200, 1), (7, 9)] {
        let b = app().draw(&Snap::default(), "12:34:56", NOW, w, h);
        assert_eq!((b.width(), b.height()), (w, h));
    }
}

#[test]
fn seams_are_btop_double_lines() {
    let b = render_at(120, 40);
    assert_eq!(cell(&b, 0, 12), "╰");
    assert_eq!(cell(&b, 0, 13), "╭");
    assert_eq!(cell(&b, 53, 28), "╯");
    assert_eq!(cell(&b, 0, 29), "╭");
    assert_eq!(cell(&b, 53, 20), "│");
    assert_eq!(cell(&b, 54, 20), "│");
}

#[test]
fn pending_conn_shows_connecting() {
    let text = all_text(&render_at(120, 40));
    assert!(text.contains("connecting"), "{text}");
}

#[test]
fn lost_conn_freezes_and_warns() {
    let mut s = Snap::default();
    s.conn = Connection::Lost { since: 0, last_err: "transport: refused".into() };
    s.engine.running_reqs = 42;
    let text = all_text(&render_snapshot(s));
    assert!(text.contains("connection lost"), "{text}");
    assert!(text.contains("42"), "frozen value must still render");
}

#[test]
fn stale_values_come_with_their_age() {
    let mut s = Snap::default();
    s.conn = Connection::Lost { since: 0, last_err: "x".into() };
    assert!(all_text(&render_snapshot(s)).contains("connection lost (1m15s): x — values frozen"));
    let mut s = Snap::default();
    s.conn = Connection::Degraded { since: 70_000_000_000, consecutive: 1, last_err: "x".into() };
    assert!(all_text(&render_snapshot(s)).contains("degraded (1×, 5s): x — holding last values"));
}

#[test]
fn truncation_warns_on_the_footer_row() {
    let mut s = Snap::default();
    s.conn = Connection::Live { rtt: 5_000_000, metrics_ok: true };
    s.metrics_truncated = true;
    let text = all_text(&render_snapshot(s));
    assert!(text.contains("truncated"), "{text}");
}

#[test]
fn conn_warning_outranks_truncation_note() {
    let mut s = Snap::default();
    s.metrics_truncated = true;
    s.conn = Connection::Lost { since: 0, last_err: "x".into() };
    let text = all_text(&render_snapshot(s));
    assert!(text.contains("connection lost"), "{text}");
    assert!(!text.contains("truncated"), "one message per row");
}

#[test]
fn rank_rows_render_when_present() {
    let mut s = Snap::default();
    s.ranks = vec![RankRow { running: 9, ..RankRow::default() }];
    let text = all_text(&render_snapshot(s));
    assert!(text.contains("rank"), "header");
    assert!(text.contains("agg"), "aggregate row label");
}

// ---- keys ----

fn key(code: KeyCode) -> KeyEvent {
    KeyEvent::new(code)
}

fn app_with_ranks(n: usize) -> (App, Snap) {
    let mut s = Snap::default();
    s.ranks = (0..n)
        .map(|i| RankRow { dp_rank: i as u32, running: (n - i) as u64, ..RankRow::default() })
        .collect();
    (app(), s)
}

#[test]
fn arrow_keys_walk_selection_and_sort() {
    let (mut app, s) = app_with_ranks(4);
    assert_eq!(app.rank_sel, 0);
    app.on_key(key(KeyCode::Down), &s);
    assert_eq!(app.rank_sel, 1);
    app.on_key(key(KeyCode::Up), &s);
    assert_eq!(app.rank_sel, 0, "up from agg stays clamped at agg");
    app.on_key(key(KeyCode::End), &s);
    assert_eq!(app.rank_sel, 3);
    app.on_key(key(KeyCode::Right), &s);
    assert_eq!(app.sort_col, SortCol::Run);
    app.on_key(key(KeyCode::Left), &s);
    assert_eq!(app.sort_col, SortCol::Rank);
    app.on_key(key(KeyCode::Char('r')), &s);
    assert!(app.sort_reverse);
}

#[test]
fn selection_follows_display_order_after_sorting() {
    let (mut app, s) = app_with_ranks(3);
    app.on_key(key(KeyCode::Right), &s);
    app.on_key(key(KeyCode::Down), &s);
    assert_eq!(app.rank_sel, 2, "down follows display order");
}

#[test]
fn enter_opens_detail_esc_closes() {
    let (mut app, s) = app_with_ranks(2);
    assert!(!app.detail_open);
    app.on_key(key(KeyCode::Enter), &s);
    assert!(app.detail_open);
    app.on_key(key(KeyCode::Esc), &s);
    assert!(!app.detail_open);
}

#[test]
fn u_toggles_pause_shared_with_poller() {
    let (mut app, s) = app_with_ranks(1);
    assert!(!app.control.paused);
    app.on_key(key(KeyCode::Char('u')), &s);
    assert!(app.control.paused);
    app.on_key(key(KeyCode::Char('u')), &s);
    assert!(!app.control.paused);
}

#[test]
fn plus_minus_step_the_live_interval() {
    let (mut app, s) = app_with_ranks(1);
    let start = app.control.interval_ms;
    app.on_key(key(KeyCode::Char('+')), &s);
    assert_eq!(app.control.interval_ms, start + 100);
    app.on_key(key(KeyCode::Char('-')), &s);
    app.on_key(key(KeyCode::Char('-')), &s);
    assert_eq!(app.control.interval_ms, start.saturating_sub(100));
}

#[test]
fn interval_clamps_to_bounds() {
    let (mut app, s) = app_with_ranks(1);
    for _ in 0..200 {
        app.on_key(key(KeyCode::Char('+')), &s);
    }
    assert_eq!(app.control.interval_ms, 10_000);
    for _ in 0..200 {
        app.on_key(key(KeyCode::Char('-')), &s);
    }
    assert_eq!(app.control.interval_ms, 100);
}

#[test]
fn overlay_opens_then_any_key_closes_and_is_consumed() {
    let (mut app, s) = app_with_ranks(1);
    app.on_key(key(KeyCode::Char('?')), &s);
    assert_eq!(app.overlay, Some(Overlay::Help));
    assert!(!app.on_key(key(KeyCode::Char('q')), &s));
    assert_eq!(app.overlay, None);
    assert!(app.on_key(key(KeyCode::Char('q')), &s));
}

#[test]
fn only_presses_count_and_control_c_always_quits() {
    let (mut app, s) = app_with_ranks(1);
    let up = KeyEvent { press: false, ..key(KeyCode::Char('q')) };
    assert!(!app.on_key(up, &s));
    app.on_key(key(KeyCode::Char('?')), &s);
    let interrupt = KeyEvent { control: true, ..key(KeyCode::Char('c')) };
    assert!(app.on_key(interrupt, &s), "even over an overlay");
}

#[test]
fn keys_leave_the_settings_alone() {
    let (mut app, s) = app_with_ranks(3);
    let url = app.config.url.clone();
    for c in ['1', '2', 'u', '+', 'r', 'o', 'i', 'x'] {
        app.on_key(key(KeyCode::Char(c)), &s);
        assert!(app.rank_sel < 3);
    }
    assert_eq!(app.config.url, url);
    assert_eq!(app.theme.name, "default");
}

#[test]
fn overlay_renders_over_the_screen() {
    let (mut app, s) = app_with_ranks(1);
    app.overlay = Some(Overlay::Help);
    let text = shown(&app.draw(&s, "12:34:56", NOW, 120, 40));
    assert!(text.contains("quit"), "help text drawn over the layout: {text}");
}

#[test]
fn detail_replaces_ranks_interior_keeps_other_panels() {
    let mut s = Snap::default();
    s.ranks = vec![
        RankRow { running: 5, spec_accept_length: Some(F(2.5)), ..RankRow::default() },
        RankRow { dp_rank: 1, running: 5, spec_accept_length: Some(F(2.5)), ..RankRow::default() },
    ];
    let mut app = app();
    app.detail_open = true;
    app.rank_sel = 1;
    let text = shown(&app.draw(&s, "12:34:56", NOW, 120, 40));
    assert!(text.contains("rank 1"), "detail names the row: {text}");
    assert!(text.contains("tok/fwd"), "spec detail row: {text}");
    assert!(text.contains("esc back"), "back hint: {text}");
}

#[test]
fn a_server_without_metrics_is_fatal() {
    let mut s = Snap::default();
    assert!(App::fatal_error(&s).is_none());
    s.conn = Connection::MetricsDisabled;
    assert!(matches!(App::fatal_error(&s), Some(SgtopError::MetricsDisabled)));
}

// ---- humanized values ----

#[test]
fn counts() {
    assert_eq!(human_count(999), "999");
    assert_eq!(human_count(1000), "1.00k");
    assert_eq!(human_count(12345), "12.3k");
    assert_eq!(human_count(1_234_567), "1.23M");
    assert_eq!(human_count(2_500_000_000), "2.50G");
}

#[test]
fn durations() {
    assert_eq!(human_duration(F(0.23)), "230ms");
    assert_eq!(human_duration(F(9.4)), "9s");
    assert_eq!(human_duration(F(75.0)), "1m15s");
    assert_eq!(human_duration(F(3726.0)), "1h02m");
}

#[test]
fn pct() {
    assert_eq!(human_pct(F(0.731)), "73%");
}

#[test]
fn fractional_rates_keep_their_decimal() {
    assert_eq!(human_rate_frac(F(0.0)), "0.0");
    assert_eq!(human_rate_frac(F(0.19)), "0.2");
    assert_eq!(human_rate_frac(F(0.9)), "0.9");
    assert_eq!(human_rate_frac(F(99.94)), "99.9");
    assert_eq!(human_rate_frac(F(3500.0)), "3.50k");
}

#[test]
fn whole_rates_drop_their_decimal() {
    assert_eq!(human_rate(F(0.9)), "0");
    assert_eq!(human_rate(F(-4.0)), "0");
    assert_eq!(human_rate(F(1500.0)), "1.50k");
}

#[test]
fn counts_agree_with_binary_rounding() {
    for v in [1004, 1005, 9_994, 9_995, 9_996, 99_949, 99_950, 999_499, 999_949, 1_004_999, 1_005_000] {
        let f = v as f64;
        let expected = if v < 1_000_000 {
            let x = f / 1e3;
            if x < 10.0 {
                format!("{x:.2}k")
            } else if x < 100.0 {
                format!("{x:.1}k")
            } else {
                format!("{x:.0}k")
            }
        } else {
            format!("{:.2}M", f / 1e6)
        };
        assert_eq!(human_count(v), expected, "{v}");
    }
}

#[test]
fn unknown_values_are_dimmed_and_never_a_number() {
    let th = Theme::builtin("Default", ColorMode::TrueColor);
    let na = value_cell(None, 6, &th, false);
    assert_eq!(na.content.trim(), "N/A");
    let known = value_cell(Some("42".to_string()), 6, &th, false);
    assert_eq!(known.content.trim(), "42");
    assert_eq!(known.content.chars().count(), 6);
    assert_ne!(na.style, known.style);
    let wide = value_cell(Some("漢字".to_string()), 6, &th, false);
    assert_eq!(wide.content.chars().count(), 4, "two columns each: {:?}", wide.content);
    let told = value_cell_at(Some("42".to_string()), 5, 6, &th, false);
    assert_eq!(told.content.chars().count(), 3);
    let row = kv_row("label", None, 6, &th, false);
    let text: String = row.spans.iter().map(|s| s.content.as_str()).collect();
    assert!(text.contains("label") && text.contains("N/A"));
}

#[test]
fn values_held_over_a_failure_are_dimmed() {
    let th = Theme::builtin("Default", ColorMode::TrueColor);
    let live = value_cell(Some("42".to_string()), 6, &th, false);
    let held = value_cell(Some("42".to_string()), 6, &th, true);
    assert!(held.style.dim && !live.style.dim);
    assert_eq!(held.content, live.content);
}

// ---- frames ----

#[test]
fn a_pane_has_its_own_frame_with_holes_for_buttons() {
    let th = Theme::builtin("Default", ColorMode::TrueColor);
    let mut b = Buffer::empty(20, 4);
    let pane = Pane {
        rect: Rect::new(0, 0, 20, 4),
        line_color_key: "cpu_box",
        title: Some("t"),
        top_buttons: Vec::new(),
        bottom_buttons: vec![(button_spans('q', "quit", &th), 3)],
    };
    pane.render(&mut b, &th, &border_set(true));
    assert_eq!(line(&b, 0), "╭─┐t┌──────────────╮");
    assert_eq!(line(&b, 1), "│                  │");
    assert!(line(&b, 3).contains("┘quit└"), "{}", line(&b, 3));
    assert_eq!(b.cell(0, 0).unwrap().fg, th.c("cpu_box"));
    let mut sq = Buffer::empty(20, 4);
    pane.render(&mut sq, &th, &border_set(false));
    assert_eq!(sq.cell(0, 0).unwrap().symbol, "┌");
}

#[test]
fn texts_stay_inside_their_area() {
    let mut b = Buffer::empty(7, 4);
    for y in 0..4 {
        for x in 0..7 {
            b.put(x, y, "#", plain());
        }
    }
    let lines = vec![
        Line { spans: vec![span("longer than that", plain())] },
        Line { spans: vec![span("2", plain())] },
        Line { spans: vec![span("3", plain())] },
    ];
    write_lines(&mut b, Rect::new(1, 0, 5, 4), &lines);
    assert_eq!(line(&b, 0), "#######");
    assert_eq!(line(&b, 1), "##lon##");
    assert_eq!(line(&b, 2), "##2  ##");
    assert_eq!(line(&b, 3), "#######");
}

#[test]
fn lines_are_centered_by_their_columns() {
    let mut b = Buffer::empty(10, 2);
    centered(&mut b, Rect::new(0, 0, 10, 2), 0, &Line { spans: vec![span("ab", plain())] });
    assert_eq!(line(&b, 0), "    ab    ");
    centered_at(&mut b, Rect::new(0, 0, 10, 2), 1, &Line { spans: vec![span("ab", plain())] }, 6);
    assert_eq!(line(&b, 1), "  ab      ");
    let mut wide = Buffer::empty(10, 1);
    centered(&mut wide, Rect::new(0, 0, 10, 1), 0, &Line { spans: vec![span("漢字", plain())] });
    assert_eq!(wide.cell(3, 0).unwrap().symbol, "漢", "four columns from the third on");
}

// ---- panels ----

fn render_traffic(s: &Snap) -> String {
    render_traffic_w(s, 60)
}

fn render_traffic_w(s: &Snap, w: u16) -> String {
    let th = Theme::builtin("Default", ColorMode::TrueColor);
    let mut buf = Buffer::empty(w, 20);
    traffic(s, &th, Gui::modern(), Rect::new(0, 0, w, 20), &mut buf);
    shown(&buf)
}

fn render_kv(s: &Snap, width: u16) -> String {
    let th = Theme::builtin("Default", ColorMode::TrueColor);
    let mut buf = Buffer::empty(width, 12);
    kv(s, &th, Gui::modern(), Rect::new(0, 0, width, 12), &mut buf);
    shown(&buf)
}

fn snap_hicache() -> Snap {
    let hc = HiCache {
        host_used: 2_000_000,
        host_total: 2_100_000,
        backuped_total: Some(72_500_000),
        dropped_total: Some(0),
        load_back_total: Some(11_100_000),
        prefetch_failed_total: Some(48_800),
        storage_backuped_total: None,
        storage_prefetched_total: None,
        backup_mean_secs: None,
        load_back_mean_secs: None,
        backup_gbps: None,
        load_back_gbps: None,
    };
    Snap {
        kv: KvPanel {
            hicache: Some(hc),
            ..Default::default()
        },
        ..Default::default()
    }
}

#[test]
fn subpool_free_count_follows_family_presence() {
    let baseline = render_kv(&Snap::default(), 52);
    assert!(!baseline.contains("free"), "{baseline}");

    let mut s = Snap::default();
    s.kv.swa_token_usage = Some(F(0.0));
    s.kv.swa_used = Some(0);
    s.kv.swa_available = Some(0);
    s.kv.swa_evictable = Some(0);
    s.kv.mamba_usage = Some(F(0.2));
    s.kv.mamba_used = Some(8);
    s.kv.mamba_available = Some(2);
    s.kv.mamba_evictable = Some(30);
    let text = render_kv(&s, 52);
    assert!(
        text.contains("swa") && text.contains("free 0  evict 0"),
        "{text}"
    );
    assert!(
        text.contains("mamba") && text.contains("free 2  evict 30"),
        "{text}"
    );
}

#[test]
fn gone_row_carries_the_per_pass_cost() {
    let mut s = Snap::default();
    s.kv.evicted_total = Some(112_000_000);
    s.kv.evicted_tps = Some(F(333.0));
    s.kv.token_usage = F(0.5);
    s.kv.evict_pass_mean_secs = Some(F(0.0021));
    let text = render_kv(&s, 52);
    assert!(text.contains("gone"), "{text}");
    assert!(text.contains("2ms"), "{text}");

    s.kv.evict_pass_mean_secs = None;
    let text = render_kv(&s, 52);
    assert!(text.contains("gone"), "{text}");
    assert!(!text.contains("ms"), "no fake cost suffix: {text}");
}

#[test]
fn ctx_column_needs_running_sequences() {
    let mut s = Snap::default();
    s.engine.running_reqs = 2;
    s.engine.decode_ctx_sum = Some(F(147728.0));
    let text = render_engine(&s);
    assert!(text.contains("ctx") && text.contains("73.9k"), "{text}");

    s.engine.running_reqs = 0;
    let idle = render_engine(&s);
    assert!(!idle.contains("ctx"), "idle has no average: {idle}");

    let mut s2 = Snap::default();
    s2.engine.running_reqs = 3;
    let none = render_engine(&s2);
    assert!(!none.contains("ctx"), "{none}");
}

#[test]
fn hicache_row_keeps_alarm_columns_when_narrow() {
    let wide = render_kv(&snap_hicache(), 60);
    assert!(
        wide.contains("backup") && wide.contains("back"),
        "wide: {wide}"
    );

    let narrow = render_kv(&snap_hicache(), 34);
    assert!(
        narrow.contains("fail"),
        "fail alarm survives narrow: {narrow}"
    );
    assert!(
        !narrow.contains("backup"),
        "routine backup dropped to keep fail: {narrow}"
    );
}

#[test]
fn storage_round_trip_row_appears_with_counters() {
    let baseline = render_kv(&snap_hicache(), 52);
    assert!(!baseline.contains("store"), "{baseline}");

    let mut s = snap_hicache();
    let hc = s.kv.hicache.as_mut().unwrap();
    hc.storage_backuped_total = Some(82_500_000);
    hc.storage_prefetched_total = Some(1_080_000);
    let text = render_kv(&s, 52);
    assert!(text.contains("store "), "{text}");
    assert!(text.contains("82.5M"), "backup side: {text}");
    assert!(text.contains("1.08M"), "prefetch side: {text}");
    assert!(text.contains("1%"), "reuse share: {text}");
}

#[test]
fn hicache_copy_latency_rides_the_counts() {
    let mut s = snap_hicache();
    let hc = s.kv.hicache.as_mut().unwrap();
    hc.backup_mean_secs = Some(F(0.0214));
    hc.load_back_mean_secs = Some(F(0.5));
    let text = render_kv(&s, 70);
    assert!(text.contains("backup 72.5M 21ms"), "{text}");
    assert!(text.contains("back 11.1M 500ms"), "{text}");

    let bare = render_kv(&snap_hicache(), 70);
    assert!(
        bare.contains("backup 72.5M") && !bare.contains("21ms"),
        "{bare}"
    );
}

#[test]
fn hicache_speed_prefers_live_bandwidth() {
    let mut s = snap_hicache();
    let hc = s.kv.hicache.as_mut().unwrap();
    hc.backup_mean_secs = Some(F(0.0214));
    hc.backup_gbps = Some(F(21.3e9));
    hc.load_back_mean_secs = Some(F(0.5));
    hc.load_back_gbps = Some(F(340.0e6));
    let text = render_kv(&s, 80);
    assert!(text.contains("backup 72.5M 21.3GB/s"), "{text}");
    assert!(text.contains("back 11.1M 340.0MB/s"), "{text}");
    assert!(!text.contains("21ms"), "mean yields to bandwidth: {text}");
}

fn snap_with_latency(set: LatencySet<F>) -> Snap {
    Snap {
        traffic: TrafficPanel {
            latency: set,
            ..Default::default()
        },
        ..Default::default()
    }
}

fn snap_pd(mode: &str) -> Snap {
    Snap {
        server: ServerMeta {
            disaggregation_mode: mode.to_string(),
            ..Default::default()
        },
        traffic: TrafficPanel {
            pd_prefill_bootstrap: Some(3),
            pd_decode_prealloc: Some(1),
            pd_prefill_inflight: Some(0),
            pd_decode_transfer: Some(0),
            ..Default::default()
        },
        ..Default::default()
    }
}

#[test]
fn pd_row_only_for_disaggregation_servers() {
    let unified = render_traffic(&snap_pd("null"));
    assert!(
        !unified.contains("boot"),
        "unified must not render pd row: {unified}"
    );

    let pd = render_traffic(&snap_pd("prefill"));
    assert!(
        pd.contains("boot 3") && pd.contains("pre 1"),
        "prefill server shows queue counts: {pd}"
    );
}

fn render_engine(s: &Snap) -> String {
    let th = Theme::builtin("Default", ColorMode::TrueColor);
    let mut buf = Buffer::empty(80, 12);
    engine(s, &th, Gui::modern(), Rect::new(0, 0, 80, 12), &mut buf);
    shown(&buf)
}

#[test]
fn rate_readouts_show_current_slash_window_peak() {
    let mut ring = Ring::default();
    for v in [100.0, 1500.0, 300.0] {
        ring.push(F(v));
    }
    let s = Snap {
        engine: EnginePanel {
            gen_throughput: F(300.0),
            gen_series: ring.clone(),
            prefill_tps: None,
            prefill_series: ring.clone(),
            decode_tps: Some(F(300.0)),
            token_rate_series: ring,
            ..Default::default()
        },
        ..Default::default()
    };
    let text = render_engine(&s);
    assert!(text.contains("300/1.50k"), "cur/max pair: {text}");
    let seg = &text[text.find("prefill").unwrap()..text.find("decode").unwrap()];
    assert!(seg.contains("N/A"), "None prefill → N/A: {seg}");
    assert!(
        !seg.contains("1.50k"),
        "None rate shows N/A, not a cur/peak pair: {seg}"
    );
}

#[test]
fn latency_rows_hidden_when_family_unknown() {
    let text = render_traffic(&snap_with_latency(LatencySet::default()));
    assert!(
        !text.contains("p50"),
        "no known family → no percentile rows"
    );
}

#[test]
fn known_family_with_no_percentile_yet_shows_na() {
    let set = LatencySet {
        known: [false, true, false, false],
        ..Default::default()
    };
    let text = render_traffic(&snap_with_latency(set));
    assert!(text.contains("ttft"), "row present for the known family");
    assert!(text.contains("N/A"), "window not filled → honest N/A");
}

#[test]
fn known_family_with_percentiles_renders_humanized() {
    let set = LatencySet {
        ttft: Some(Percentile {
            p50: F(0.42),
            p90: F(1.1),
            p99: F(3.0),
            mean: Some(F(0.6)),
        }),
        known: [false, true, false, false],
        ..Default::default()
    };
    let mut s = snap_with_latency(set);
    s.traffic.http_rps = Some(F(2.0));
    s.traffic.http_err_rate = Some(F(0.0));
    s.traffic.http_active = Some(1);
    s.traffic.cached_device_tps = Some(F(10.0));
    s.traffic.cached_device_total = 100;
    s.traffic.prompt_total_tokens = 200;
    let text = render_traffic(&s);
    assert!(text.contains("420ms"), "p50 humanized: {text}");
    assert!(text.contains("50%"), "all-time cache share: {text}");
    assert!(!text.contains("N/A"), "filled → no N/A in the ttft row");
}

#[test]
fn cache_row_breaks_out_hicache_tiers() {
    let mut s = Snap::default();
    s.traffic.prompt_total_tokens = 2_000;
    s.traffic.cached_device_tps = Some(F(10.0));
    s.traffic.cached_device_total = 1_000;
    s.traffic.cached_host_total = 500;
    s.traffic.cached_storage_total = 0;
    let text = render_traffic(&s);
    assert!(text.contains("d 1.00k") && text.contains("h 500"), "{text}");
    assert!(text.contains("75%"), "{text}");
}

#[test]
fn cache_now_column_tracks_family_presence() {
    let mut s = Snap::default();
    s.traffic.cached_device_total = 1_000;
    s.traffic.prompt_total_tokens = 2_000;

    let text = render_traffic(&s);
    assert!(!text.contains("now"), "absent family: {text}");

    s.traffic.cache_window_known = true;
    s.traffic.cache_window_share = Some(F(0.8));
    let text = render_traffic(&s);
    assert!(text.contains("now 80%"), "filled window: {text}");

    s.traffic.cache_window_share = None;
    let text = render_traffic(&s);
    assert!(text.contains("now N/A"), "quiet window: {text}");
}

#[test]
fn mem_ledger_row_renders_present_ledgers() {
    let mut s = Snap::default();
    s.kv.weight_gb = Some(F(81.45));
    s.kv.kv_cache_gb = Some(F(5.93));
    s.kv.graph_gb = None;
    let text = render_kv(&s, 40);
    assert!(text.contains("mem "), "{text}");
    assert!(text.contains("81.5G") && text.contains("5.9G"), "{text}");
    let g = text.find("graph").expect("graph label present");
    assert!(
        text[g..g + 14].contains("N/A"),
        "graph ledger absent → N/A: {text}"
    );

    let bare = render_kv(&Snap::default(), 40);
    assert!(
        !bare.contains("mem "),
        "row hidden when families absent: {bare}"
    );
}

#[test]
fn an_unknown_busy_share_is_not_shown_as_idle() {
    let mut s = Snap::default();
    let text = render_engine(&s);
    let seg = &text[text.find("engine busy").unwrap()..text.find("fwd").unwrap()];
    assert!(seg.contains("N/A") && !seg.contains('%'), "{seg}");
    s.engine.utilization = Some(F(0.52));
    assert!(render_engine(&s).contains("  52%"));
}

#[test]
fn unknown_fates_of_evicted_tokens_say_so() {
    let mut s = snap_hicache();
    let hc = s.kv.hicache.as_mut().unwrap();
    hc.dropped_total = None;
    assert!(render_kv(&s, 70).contains("drop N/A"));
    let hc = s.kv.hicache.as_mut().unwrap();
    hc.dropped_total = Some(7);
    hc.backuped_total = None;
    let text = render_kv(&s, 70);
    assert!(text.contains("backup N/A") && text.contains("drop 7"), "{text}");
}

#[test]
fn tiers_without_hits_are_not_shown() {
    let mut s = Snap::default();
    s.traffic.cached_host_total = 500;
    let text = render_traffic(&s);
    assert!(text.contains("h 500") && !text.contains("s 0"), "{text}");
    s.traffic.cached_storage_total = 7;
    assert!(render_traffic(&s).contains("h 500  s 7"));
}

#[test]
fn quiet_windows_show_no_stale_length() {
    let mut s = Snap::default();
    s.traffic.avg_prompt_len = Some(F(200.0));
    s.traffic.avg_gen_len = Some(F(50.0));
    let text = render_traffic_w(&s, 60);
    let at = text.find("len").expect("row present");
    assert!(text[at..].contains("N/A"), "{text}");
}

// ---- overlays ----

fn render_overlay(
    which: Overlay,
    cfg: &Config,
    snap: &Snap,
    paused: bool,
    interval_ms: u64,
    w: u16,
    h: u16,
) -> String {
    let th = Theme::builtin("Default", ColorMode::TrueColor);
    let mut buf = Buffer::empty(w, h);
    render(
        which,
        cfg,
        snap,
        Live {
            paused,
            interval_ms,
        },
        &th,
        Rect::new(0, 0, w, h),
        &mut buf,
    );
    shown(&buf)
}

#[test]
fn help_lists_the_hot_keys() {
    let text = render_overlay(
        Overlay::Help,
        &Config::default(),
        &Snap::default(),
        false,
        1000,
        80,
        30,
    );
    assert!(text.contains("quit"), "{text}");
    assert!(text.contains("pause"), "{text}");
}

#[test]
fn options_reflect_live_interval_and_pause() {
    let run = render_overlay(
        Overlay::Options,
        &Config::default(),
        &Snap::default(),
        false,
        850,
        80,
        30,
    );
    assert!(run.contains("850 ms"), "{run}");
    let held = render_overlay(
        Overlay::Options,
        &Config::default(),
        &Snap::default(),
        true,
        850,
        80,
        30,
    );
    assert!(held.contains("PAUSED"), "{held}");
}

#[test]
fn server_info_shows_meta_when_loaded() {
    let mut snap = Snap::default();
    snap.server.loaded = true;
    snap.server.served_model_name = "Qwen3.8-Flash-Next".into();
    snap.server.tp_size = 2;
    let text = render_overlay(
        Overlay::ServerInfo,
        &Config::default(),
        &snap,
        false,
        1000,
        80,
        30,
    );
    assert!(text.contains("Qwen3.8-Flash-Next"), "{text}");
}

#[test]
fn server_info_lists_latency_percentiles() {
    let mut snap = Snap::default();
    snap.server.loaded = true;
    snap.traffic.latency.known = [true, true, true, true];
    snap.traffic.latency.queue = Some(Percentile {
        p50: F(0.004),
        p90: F(0.021),
        p99: F(0.048),
        mean: Some(F(0.012)),
    });
    snap.traffic.latency.itl = Some(Percentile {
        p50: F(0.031),
        p90: F(0.052),
        p99: F(0.061),
        mean: None,
    });
    let text = render_overlay(
        Overlay::ServerInfo,
        &Config::default(),
        &snap,
        false,
        1000,
        80,
        44,
    );
    assert!(text.contains("latency percentiles"), "{text}");
    assert!(text.contains("queue") && text.contains("4ms"), "{text}");
    assert!(text.contains("itl") && text.contains("31ms"), "{text}");
    assert!(text.contains("e2e") && text.contains('—'), "{text}");
    assert!(!text.contains("e2e             48ms"), "{text}");
}

#[test]
fn server_info_lists_request_stages() {
    let mut snap = Snap::default();
    snap.server.loaded = true;
    snap.traffic.stage_means = vec![
        ("prefill_forward".into(), F(0.374)),
        ("chunked_prefill".into(), F(0.319)),
        ("request_process".into(), F(0.0002)),
    ];
    let text = render_overlay(
        Overlay::ServerInfo,
        &Config::default(),
        &snap,
        false,
        1000,
        80,
        40,
    );
    assert!(text.contains("request stages"), "{text}");
    assert!(
        text.contains("prefill_forward") && text.contains("374ms"),
        "{text}"
    );
    assert!(
        text.contains("request_process") && text.contains("0ms"),
        "{text}"
    );
}

#[test]
fn server_info_lists_the_routes() {
    let mut snap = Snap::default();
    snap.server.loaded = true;
    snap.traffic.http_endpoints = vec![HttpEndpoint {
        path: "/generate".into(),
        rps: Some(F(0.9)),
        total: 1500,
        err: 2,
    }];
    let text =
        render_overlay(Overlay::ServerInfo, &Config::default(), &snap, false, 1000, 80, 40);
    assert!(text.contains("http routes"), "{text}");
    assert!(text.contains("/generate") && text.contains("1.50k"), "{text}");
}

#[test]
fn an_overlay_hides_what_is_behind_and_is_framed() {
    let th = Theme::builtin("Default", ColorMode::TrueColor);
    let mut buf = Buffer::empty(80, 30);
    for y in 0..30 {
        for x in 0..80 {
            buf.put(x, y, "#", plain());
        }
    }
    let live = Live { paused: false, interval_ms: 1000 };
    render(Overlay::Help, &Config::default(), &Snap::default(), live, &th, Rect::new(0, 0, 80, 30), &mut buf);
    assert_eq!(buf.cell(0, 0).unwrap().symbol, "#", "the corner is left alone");
    let middle = line(&buf, 15);
    let inner: Vec<char> = middle.chars().skip_while(|c| *c == '#').collect();
    assert_eq!(inner[0], '│', "a frame of its own: {middle}");
    let end = inner.iter().position(|c| *c == '#').unwrap();
    assert!(!inner[..end].contains(&'#'));
}

#[test]
fn drawn_cells_take_their_colour_from_their_tag() {
    let mut b = Buffer::empty(2, 1);
    let cells = vec![Some(("a".to_string(), 1)), None];
    put_box(&mut b, Rect::new(0, 0, 2, 1), &cells, Color::Red, Color::Indexed(7));
    assert_eq!(line(&b, 0), "a ");
    assert_eq!(b.cell(0, 0).unwrap().fg, Color::Red);
    let mut t = Buffer::empty(2, 1);
    let lines = vec![Line { spans: vec![span("xy", sgtop::ui::cells::ink(Color::Indexed(3)))] }];
    put_text(&mut t, Rect::new(0, 0, 2, 1), &vec![Some(("x".to_string(), 0)), None], &lines);
    assert_eq!(line(&t, 0), "x ");
}

#[test]
fn overlay_takes_a_name_of_any_length() {
    let mut snap = Snap::default();
    snap.server.loaded = true;
    snap.server.served_model_name = format!("a{}", "\u{1100}".repeat(40_000));
    let text = render_overlay(Overlay::ServerInfo, &Config::default(), &snap, false, 1000, 80, 30);
    assert!(text.contains("server info"), "{text}");
}

#[test]
fn keys_are_taken_whatever_the_interval_is() {
    let mut app = app();
    app.control.interval_ms = u64::MAX;
    assert!(!app.on_key(key(KeyCode::Char('1')), &Snap::default()));
    assert_eq!(app.control.interval_ms, u64::MAX);
    assert!(!app.on_key(key(KeyCode::Char('+')), &Snap::default()));
    assert_eq!(app.control.interval_ms, 100);
}

#[test]
fn a_name_keeps_what_follows_its_marks() {
    let mut snap = Snap::default();
    snap.server.loaded = true;
    snap.server.served_model_name = format!("a{}tail", "\u{301}".repeat(5_000));
    let text = render_overlay(Overlay::ServerInfo, &Config::default(), &snap, false, 1000, 80, 30);
    assert!(text.contains("tail"), "behind marks");
    snap.server.served_model_name = format!("a{}{}", "\u{301}".repeat(5_000), "b".repeat(65_535));
    let text = render_overlay(Overlay::ServerInfo, &Config::default(), &snap, false, 1000, 80, 30);
    assert!(text.contains("bbbb"), "each symbol is narrow");
    snap.server.served_model_name = format!("a{}tail", "\u{1100}".repeat(32_767));
    let text = render_overlay(Overlay::ServerInfo, &Config::default(), &snap, false, 1000, 80, 30);
    assert!(text.contains("atail"), "behind a symbol that is wider than the panel");
    snap.server.served_model_name = format!("a{}", "\u{1100}".repeat(32_768));
    let text = render_overlay(Overlay::ServerInfo, &Config::default(), &snap, false, 1000, 80, 30);
    assert!(text.contains("server info"), "{text}");
}

#[test]
fn cache_row_ends_with_what_fits() {
    let th = Theme::builtin("Default", ColorMode::TrueColor);
    let mut t: TrafficPanel<F> = TrafficPanel::default();
    t.cached_host_total = 50;
    t.prompt_total_tokens = 100;
    t.cache_window_known = true;
    let share = format!("  {}", human_pct(F(0.5)));
    let now = "  now N/A".to_string();
    assert!(share.len() < now.len());
    let shown = |room: usize| -> Vec<String> {
        let mut l = Vec::new();
        sgtop::ui::panels::traffic::add_cache_tail(&mut l, &t, &th, 10, 10 + room);
        l.into_iter().map(|s| s.content).collect()
    };
    assert_eq!(shown(share.len() + now.len()), vec![share.clone(), now.clone()]);
    assert_eq!(shown(share.len() + now.len() - 1), vec![now.clone()]);
    assert_eq!(shown(now.len()), vec![now.clone()]);
    assert_eq!(shown(now.len() - 1), vec![share.clone()]);
    assert_eq!(shown(share.len() - 1), Vec::<String>::new());
}
