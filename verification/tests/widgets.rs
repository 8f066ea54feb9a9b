use sgtop::model::snapshot::{RankGranularity, RankRow, Snapshot};
use sgtop::num::{Num, Text};
use sgtop::ui::cells::{Buffer, Cell, Color, Rect};
use sgtop::ui::theme::{ColorMode, Theme};
use sgtop::ui::widgets::block::{self, peak_label, sparkline};
use sgtop::ui::widgets::braille::{self, BG};
use sgtop::ui::widgets::meter::{meter_bar, meter_spans, BLOCK};
use sgtop::ui::widgets::table::{
    clamp_sel, order, put_scrollbar, ranks, scroll_for, SortCol, NUM_COLS,
};
use sgtop::ui::widgets::{area_graph, Gui};

/// Double precision, as the monitor runs with it.
#[derive(Clone, Copy, Debug, PartialEq)]
struct F(f64);

impl std::fmt::Display for F {
    fn fmt(&self, out: &mut std::fmt::Formatter<'_>) -> std::fmt::Result {
        self.0.fmt(out)
    }
}

impl PartialEq<f64> for F {
    fn eq(&self, other: &f64) -> bool {
        self.0 == *other
    }
}

impl std::ops::Sub<f64> for F {
    type Output = f64;

    fn sub(self, other: f64) -> f64 {
        self.0 - other
    }
}

impl Num for F {
    fn zero() -> F {
        F(0.0)
    }

    fn lowest() -> F {
        F(f64::MIN)
    }

    fn epsilon() -> F {
        F(f64::EPSILON)
    }

    fn infinity() -> F {
        F(f64::INFINITY)
    }

    fn neg_infinity() -> F {
        F(f64::NEG_INFINITY)
    }

    fn nan() -> F {
        F(f64::NAN)
    }

    fn of_count(n: u64) -> F {
        F(n as f64)
    }

    fn of_nanos(n: u64) -> F {
        F(std::time::Duration::from_nanos(n).as_secs_f64())
    }

    fn read(text: &str) -> Option<F> {
        text.parse().ok().map(F)
    }

    fn plus(self, other: F) -> F {
        F(self.0 + other.0)
    }

    fn minus(self, other: F) -> F {
        F(self.0 - other.0)
    }

    fn times(self, other: F) -> F {
        F(self.0 * other.0)
    }

    fn over(self, other: F) -> F {
        F(self.0 / other.0)
    }

    fn round(self) -> F {
        F(self.0.round())
    }

    fn less(self, other: F) -> bool {
        self.0 < other.0
    }

    fn below(self, other: F) -> bool {
        self.0.total_cmp(&other.0).is_lt()
    }

    fn is_nan(self) -> bool {
        self.0.is_nan()
    }

    fn is_finite(self) -> bool {
        self.0.is_finite()
    }

    fn to_count(self) -> u64 {
        self.0 as u64
    }

    fn fixed(self, places: u8) -> String {
        format!("{:.*}", places as usize, self.0)
    }

    fn shown(self) -> String {
        format!("{}", self.0)
    }

    // The model of each operation is the operation itself; only proofs speak of it.

    fn zero_spec() -> F {
        F::zero()
    }

    fn lowest_spec() -> F {
        F::lowest()
    }

    fn epsilon_spec() -> F {
        F::epsilon()
    }

    fn infinity_spec() -> F {
        F::infinity()
    }

    fn neg_infinity_spec() -> F {
        F::neg_infinity()
    }

    fn nan_spec() -> F {
        F::nan()
    }

    fn of_count_spec(n: u64) -> F {
        F::of_count(n)
    }

    fn of_nanos_spec(n: u64) -> F {
        F::of_nanos(n)
    }

    fn read_spec(_: Text) -> Option<F> {
        unreachable!()
    }

    fn plus_spec(self, other: F) -> F {
        self.plus(other)
    }

    fn minus_spec(self, other: F) -> F {
        self.minus(other)
    }

    fn times_spec(self, other: F) -> F {
        self.times(other)
    }

    fn over_spec(self, other: F) -> F {
        self.over(other)
    }

    fn round_spec(self) -> F {
        self.round()
    }

    fn less_spec(self, other: F) -> bool {
        self.less(other)
    }

    fn below_spec(self, other: F) -> bool {
        self.below(other)
    }

    fn is_nan_spec(self) -> bool {
        self.is_nan()
    }

    fn is_finite_spec(self) -> bool {
        self.is_finite()
    }

    fn to_count_spec(self) -> u64 {
        self.to_count()
    }

    fn fixed_spec(self, _: u8) -> Text {
        unreachable!()
    }

    fn shown_spec(self) -> Text {
        unreachable!()
    }

    fn less_asymmetric(_: F, _: F) {}

    fn less_transitive(_: F, _: F, _: F) {}

    fn less_splits(_: F, _: F, _: F) {}

    fn less_excludes_nan(_: F, _: F) {}

    fn below_asymmetric(_: F, _: F) {}

    fn below_transitive(_: F, _: F, _: F) {}

    fn below_total(_: F, _: F) {}

    fn named_values() {}
    fn shown_is_read_back(_: F) {}
    fn no_growth(_: F) {}
}

fn th() -> Theme {
    Theme::builtin("Default", ColorMode::TrueColor)
}

fn at(b: &Buffer, x: u16, y: u16) -> &Cell {
    b.cell(x, y).unwrap()
}

fn glyph(b: &Buffer, x: u16, y: u16) -> char {
    at(b, x, y).symbol.chars().next().unwrap_or(' ')
}

fn row(b: &Buffer, y: u16) -> String {
    (0..b.width()).map(|x| at(b, x, y).symbol.clone()).collect()
}

fn vals(v: &[f64]) -> Vec<F> {
    v.iter().map(|x| F(*x)).collect()
}

// ---- solid graphs ----

#[test]
fn tall_column_fills_bottom_up() {
    let mut b = Buffer::empty(2, 3);
    block::draw(&mut b, Rect::new(0, 0, 2, 3), &vals(&[10.0, 10.0]), &th(), "cpu");
    assert_eq!(at(&b, 1, 2).symbol, "█");
    assert_eq!(at(&b, 1, 0).symbol, "█");
}

#[test]
fn partial_column_gets_half_block() {
    let mut b = Buffer::empty(2, 1);
    block::draw(&mut b, Rect::new(0, 0, 2, 1), &vals(&[8.0, 4.0]), &th(), "cpu");
    assert_eq!(at(&b, 0, 0).symbol, "█");
    assert_eq!(at(&b, 1, 0).symbol, "▄");
}

#[test]
fn short_history_right_aligns_and_never_pads() {
    let mut b = Buffer::empty(5, 1);
    block::draw(&mut b, Rect::new(0, 0, 5, 1), &vals(&[1.0]), &th(), "cpu");
    assert_eq!(at(&b, 0, 0).symbol, " ");
    assert_eq!(at(&b, 4, 0).symbol, "█");
}

#[test]
fn sparkline_one_char_per_sample() {
    let mut b = Buffer::empty(3, 1);
    sparkline(&mut b, Rect::new(0, 0, 3, 1), &vals(&[1.0, 0.0, 0.5]), &th(), "cpu");
    assert_eq!(at(&b, 0, 0).symbol, "█");
    assert_eq!(at(&b, 1, 0).symbol, "▁");
    assert_eq!(at(&b, 2, 0).symbol, "▄");
}

#[test]
fn peak_label_prints_at_top_left() {
    let mut b = Buffer::empty(20, 2);
    block::draw(&mut b, Rect::new(0, 0, 20, 2), &vals(&[500.0]), &th(), "cpu");
    peak_label(&mut b, Rect::new(0, 0, 20, 2), &vals(&[500.0]), &th(), |v: F| format!("{v:.0}"));
    let row: String = (0..6).map(|x| at(&b, x, 0).symbol.clone()).collect();
    assert_eq!(row, "↑ 500 ");
}

#[test]
fn only_the_newest_samples_are_shown() {
    let mut b = Buffer::empty(2, 1);
    block::draw(&mut b, Rect::new(0, 0, 2, 1), &vals(&[100.0, 8.0, 4.0]), &th(), "cpu");
    assert_eq!(row(&b, 0), "█▄", "the scale is that of the visible window");
}

#[test]
fn graphs_stay_inside_their_area() {
    let mut b = Buffer::empty(4, 4);
    block::draw(&mut b, Rect::new(1, 1, 2, 2), &vals(&[1.0, 1.0, 1.0]), &th(), "cpu");
    assert_eq!(row(&b, 0), "    ");
    assert_eq!(row(&b, 1), " ██ ");
    assert_eq!(row(&b, 2), " ██ ");
    assert_eq!(row(&b, 3), "    ");
}

#[test]
fn the_style_is_a_single_switch() {
    let mut dots = Buffer::empty(4, 2);
    let area = Rect::new(0, 0, 4, 2);
    area_graph(&mut dots, area, &vals(&[1.0, 2.0]), &th(), "cpu", true, Some("peak".to_string()));
    assert!(('\u{2801}'..='\u{28ff}').contains(&glyph(&dots, 3, 1)));
    let mut solid = Buffer::empty(4, 2);
    area_graph(&mut solid, area, &vals(&[1.0, 2.0]), &th(), "cpu", false, Some("p".to_string()));
    assert_eq!(row(&solid, 0), "p  █");
    assert!(!Gui::modern().braille_graphs);
}

// ---- braille graphs ----

#[test]
fn empty_series_leaves_only_background() {
    let mut b = Buffer::empty(4, 3);
    let none: Vec<F> = Vec::new();
    braille::draw(&mut b, Rect::new(0, 0, 4, 3), &none, &th(), "cpu", None, false);
    assert_eq!(glyph(&b, 0, 0), BG);
    assert_eq!(glyph(&b, 3, 2), BG);
}

#[test]
fn right_aligns_newest_sample() {
    let mut b = Buffer::empty(10, 2);
    braille::draw(&mut b, Rect::new(0, 0, 10, 2), &vals(&[1.0, 1.0, 1.0]), &th(), "cpu", None, false);
    assert_eq!(glyph(&b, 0, 0), BG, "left padding stays background");
    assert_ne!(glyph(&b, 9, 1), BG, "newest cell painted");
}

#[test]
fn flat_zero_with_no_zero_paints_bottom_row() {
    let mut b = Buffer::empty(3, 2);
    braille::draw(&mut b, Rect::new(0, 0, 3, 2), &vals(&[0.0, 0.0]), &th(), "cpu", None, true);
    let g = glyph(&b, 2, 1);
    assert_ne!(g, BG, "no_zero paints the baseline dot");
    assert!(('\u{2800}'..='\u{28ff}').contains(&g), "a braille char: {g}");
}

#[test]
fn full_scale_reaches_top_row() {
    let mut b = Buffer::empty(2, 2);
    braille::draw(&mut b, Rect::new(0, 0, 2, 2), &vals(&[50.0, 50.0]), &th(), "cpu", Some(F(50.0)), false);
    let g = glyph(&b, 1, 0);
    assert!(('\u{2800}'..='\u{28ff}').contains(&g), "top painted: {g}");
    assert_ne!(g, BG);
    assert_eq!(g, '\u{28ff}', "every dot of the cell");
}

#[test]
fn colour_scales_with_value() {
    let th = th();
    let mut b = Buffer::empty(2, 2);
    braille::draw(&mut b, Rect::new(0, 0, 2, 2), &vals(&[0.0, 0.0]), &th, "cpu", Some(F(100.0)), true);
    let low = at(&b, 1, 1).fg;
    let mut b2 = Buffer::empty(2, 2);
    braille::draw(&mut b2, Rect::new(0, 0, 2, 2), &vals(&[100.0, 100.0]), &th, "cpu", Some(F(100.0)), false);
    let high = at(&b2, 1, 1).fg;
    assert_eq!(low, th.grad("cpu", 0), "low → gradient start");
    assert_eq!(high, th.grad("cpu", 100), "high → gradient end");
}

// ---- meters ----

#[test]
fn width_is_exact_and_cells_graded() {
    let th = th();
    let full = meter_spans(F(1.0), 10, "cpu", &th);
    assert_eq!(full.len(), 10);
    let half = meter_spans(F(0.0), 10, "cpu", &th);
    assert_eq!(half.len(), 10);
    assert!(half.iter().all(|s| s.style.fg == Some(th.c("meter_bg"))));
    let full = meter_spans(F(1.0), 10, "cpu", &th);
    assert_eq!(full[0].style.fg, Some(th.grad("cpu", 0)));
    assert_eq!(full[9].style.fg, Some(th.grad("cpu", 100)));
}

#[test]
fn clamps_out_of_range() {
    let th = th();
    assert_eq!(meter_spans(F(-1.0), 5, "cpu", &th).len(), 5);
    assert_eq!(meter_spans(F(3.0), 5, "cpu", &th).len(), 5);
    assert!(meter_spans(F(3.0), 5, "cpu", &th).iter().all(|s| s.style.fg != Some(th.c("meter_bg"))));
}

#[test]
fn meter_bar_caps_both_ends() {
    let th = th();
    let bar = meter_bar(F(0.5), 10, "cpu", &th);
    assert_eq!(bar.len(), 12, "run + two caps");
    assert_eq!(bar[0].content, "▏");
    assert_eq!(bar[11].content, "▕");
    assert_eq!(bar[0].style.fg, Some(th.c("meter_bg")));
    assert_eq!(bar[11].style.fg, Some(th.c("meter_bg")));
    assert_eq!(bar[1].content, BLOCK.to_string());
}

// ---- the table of ranks ----

fn snap_with(n: usize) -> Snapshot<F> {
    Snapshot {
        ranks: (0..n)
            .map(|i| RankRow { dp_rank: i as u32, running: (n - i) as u64, ..RankRow::default() })
            .collect(),
        ..Snapshot::default()
    }
}

fn drawn(s: &Snapshot<F>, sel: usize, col: SortCol, rev: bool, w: u16, h: u16) -> Buffer {
    let mut buf = Buffer::empty(w, h);
    ranks(s, &th(), Gui::modern(), Rect::new(0, 0, w, h), &mut buf, sel, col, rev);
    buf
}

fn rendered(s: &Snapshot<F>, sel: usize, col: SortCol, rev: bool, w: u16, h: u16) -> String {
    let b = drawn(s, sel, col, rev, w, h);
    (0..h).map(|y| row(&b, y)).collect()
}

#[test]
fn aggregate_row_stays_first_whatever_the_sort() {
    let s = snap_with(4);
    for col in SortCol::ALL {
        for rev in [false, true] {
            assert_eq!(order(&s, col, rev)[0], 0, "agg pinned: {col:?} rev={rev}");
        }
    }
}

#[test]
fn sorts_by_column_and_reverse_flips() {
    let s = snap_with(3);
    assert_eq!(order(&s, SortCol::Run, false), vec![0, 2, 1]);
    assert_eq!(order(&s, SortCol::Run, true), vec![0, 1, 2]);
}

#[test]
fn missing_values_trail_in_both_directions() {
    let mut s = snap_with(3);
    s.ranks[1].utilization = Some(F(90.0));
    s.ranks[2].utilization = None;
    assert_eq!(order(&s, SortCol::Util, false), vec![0, 1, 2]);
    assert_eq!(order(&s, SortCol::Util, true), vec![0, 1, 2], "None still trails reversed");
}

#[test]
fn every_row_is_shown_once() {
    let mut s = snap_with(6);
    s.ranks[2].utilization = Some(F(1.0));
    s.ranks[4].utilization = Some(F(f64::NAN));
    for col in SortCol::ALL {
        let mut o = order(&s, col, true);
        o.sort();
        assert_eq!(o, vec![0, 1, 2, 3, 4, 5]);
    }
}

#[test]
fn column_cycles_forward_backward() {
    assert_eq!(SortCol::Rank.next(), SortCol::Run);
    assert_eq!(SortCol::Util.next(), SortCol::Rank);
    assert_eq!(SortCol::Rank.prev(), SortCol::Util);
}

#[test]
fn column_steps_cancel_each_other() {
    for col in SortCol::ALL {
        assert_eq!(col.next().prev(), col);
        assert_eq!(col.prev().next(), col);
    }
    let total: usize = SortCol::ALL.iter().map(|c| c.width()).sum();
    assert_eq!(total, NUM_COLS);
}

#[test]
fn header_marks_the_sort_column_with_an_arrow() {
    let s = snap_with(2);
    let text = rendered(&s, 0, SortCol::Gen, false, 66, 8);
    assert!(text.contains("gen/s▲"), "sort column marked: {text}");
    let rev = rendered(&s, 0, SortCol::Gen, true, 66, 8);
    assert!(rev.contains("gen/s▼"), "reverse arrow: {rev}");
}

#[test]
fn header_rule_divides_titles_from_rows() {
    let s = snap_with(2);
    let th = th();
    let buf = drawn(&s, 0, SortCol::Rank, false, 66, 12);
    let rule: String = (1..65).map(|x| at(&buf, x, 2).symbol.clone()).collect();
    assert!(rule.starts_with(&"─".repeat(NUM_COLS)), "rule spans the numeric block: {rule:?}");
    assert_eq!(at(&buf, 5, 2).fg, th.c("div_line"));
}

#[test]
fn dp_size_one_renders_agg_and_a_single_row_footer() {
    let s = snap_with(1);
    let text = rendered(&s, 0, SortCol::Rank, false, 66, 12);
    assert!(text.contains("agg"), "{text}");
    assert!(text.contains("1/1"), "page footer: {text}");
}

#[test]
fn aggregated_granularity_note_appears_in_footer() {
    let mut s = snap_with(1);
    s.rank_granularity =
        RankGranularity::Aggregated("dp-attention without all-schedulers metrics".to_string());
    let text = rendered(&s, 0, SortCol::Rank, false, 66, 12);
    assert!(text.contains("aggregated"), "{text}");
}

#[test]
fn selection_out_of_range_clamps_instead_of_panicking() {
    let s = snap_with(2);
    let _ = rendered(&s, 99, SortCol::Rank, false, 66, 12);
}

#[test]
fn long_list_scrolls_to_keep_selection_visible() {
    let s = snap_with(11);
    let text = rendered(&s, 10, SortCol::Rank, false, 66, 9);
    assert!(text.contains("10"), "selected tail rank visible: {text}");
    assert!(!text.contains("agg"), "scrolled past the aggregate row: {text}");
}

#[test]
fn a_long_list_has_a_scrollbar_whose_thumb_moves() {
    let s = snap_with(40);
    let column = |sel: usize| -> Vec<char> {
        let b = drawn(&s, sel, SortCol::Rank, false, 66, 12);
        (1..11).map(|y| glyph(&b, 64, y)).collect()
    };
    let top = column(0);
    let end = column(39);
    assert!(top.contains(&'█') && end.contains(&'█'), "{top:?} {end:?}");
    assert_eq!(top[0], '█', "the thumb begins at the top");
    assert_ne!(end[0], '█', "and leaves it");
    let short = drawn(&snap_with(2), 0, SortCol::Rank, false, 66, 12);
    assert!((1..11).all(|y| glyph(&short, 64, y) != '█'));
}

#[test]
fn scrollbar_cells_go_beside_the_right_border() {
    let th = th();
    let mut b = Buffer::empty(6, 5);
    let cells = vec![Some(("█".to_string(), 1)), Some(("║".to_string(), 2)), None];
    put_scrollbar(&mut b, Rect::new(0, 0, 6, 5), &th, &cells);
    let column: String = (0..5).map(|y| at(&b, 4, y).symbol.clone()).collect();
    assert_eq!(column, " █║  ");
    assert_eq!(at(&b, 4, 1).fg, th.c("selected_fg"));
    assert_eq!(at(&b, 4, 2).fg, th.c("div_line"));
    assert_eq!(at(&b, 4, 3).fg, Color::Reset);
}

#[test]
fn scroll_offset_tracks_selection() {
    assert_eq!(scroll_for(0, 5), 0);
    assert_eq!(scroll_for(4, 5), 0);
    assert_eq!(scroll_for(5, 5), 1);
    assert_eq!(scroll_for(9, 5), 5);
    assert_eq!(scroll_for(3, 0), 0, "zero-height interior must not underflow");
}

#[test]
fn clamp_sel_bounds_and_empty() {
    assert_eq!(clamp_sel(5, 3), 2);
    assert_eq!(clamp_sel(5, 0), 0);
}

#[test]
fn selection_stays_visible_in_any_order() {
    let s = snap_with(11);
    let labels = |sel: usize, rev: bool| -> Vec<String> {
        let b = drawn(&s, sel, SortCol::Run, rev, 66, 9);
        (3..7).map(|y| (1..6).map(|x| at(&b, x, y).symbol.clone()).collect::<String>()).map(|t| t.trim().to_string()).collect()
    };
    assert_eq!(labels(1, false), vec!["4", "3", "2", "1"]);
    assert_eq!(labels(10, false), vec!["agg", "10", "9", "8"]);
    for rev in [false, true] {
        for sel in 1..11 {
            assert!(labels(sel, rev).contains(&sel.to_string()), "{sel} {rev}");
        }
    }
}

#[test]
fn scrollbar_of_a_part_without_columns() {
    let s = snap_with(20);
    let mut b = Buffer::empty(8, 9);
    ranks(&s, &th(), Gui::modern(), Rect::new(3, 0, 0, 9), &mut b, 0, SortCol::Rank, false);
    assert_eq!(glyph(&b, 3, 1), '█');
    let mut b = Buffer::empty(8, 9);
    ranks(&s, &th(), Gui::modern(), Rect::new(8, 0, 0, 9), &mut b, 0, SortCol::Rank, false);
    assert!((0..8).all(|x| (0..9).all(|y| glyph(&b, x, y) == ' ')));
}

#[test]
fn partly_filled_cell_is_filled() {
    let th = th();
    let count = |frac: f64| {
        let bg = Some(th.c("meter_bg"));
        meter_spans(F(frac), 10, "cpu", &th).iter().filter(|s| s.style.fg != bg).count()
    };
    assert_eq!(count(0.0), 0);
    assert_eq!(count(0.01), 1);
    assert_eq!(count(0.5), 5);
    assert_eq!(count(0.51), 6);
    assert_eq!(count(0.99), 10);
    assert_eq!(count(1.0), 10);
    assert_eq!(count(f64::NAN), 0);
}

#[test]
fn whole_numbers_have_a_nan() {
    let nan = <i64 as Num>::nan();
    assert!(Num::is_nan(nan) && !Num::is_finite(nan));
    assert!(Num::is_nan(Num::plus(nan, 1)) && Num::is_nan(Num::over(1i64, nan)));
    assert!(!Num::less(nan, 5) && !Num::less(5i64, nan));
    assert_eq!(Num::shown(nan), "NaN");
    assert_eq!(Num::shown(-7i64), "-7");
    assert_eq!(Num::plus(i64::MAX, 1), <i64 as Num>::infinity());
    assert_eq!(Num::minus(i64::MIN + 1, 5), <i64 as Num>::neg_infinity());
    assert!(Num::is_finite(<i64 as Num>::lowest()) && !Num::is_finite(<i64 as Num>::infinity()));
    assert_eq!(Num::over(-7i64, 2), -4);
}
