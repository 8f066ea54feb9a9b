//! Dotted area graphs, two samples to a cell.
use crate::model::hist::newest;
use crate::num::{larger, larger_spec, peak, peak_from, Num};
use crate::ui::cells::{char_text, fits, ink, mark_view, shaped, stamp, stamped, Buffer, Color, Grid,
    Mark, Rect, Style};
use crate::ui::theme::Theme;
use crate::ui::widgets::block::{newest_of, steps, steps_of};
use vstd::prelude::*;
use vstd::string::*;

verus! {

/// `char::from_u32`: the character with that number, where the number is one of a
/// character.
pub assume_specification[ char::from_u32 ](i: u32) -> (r: Option<char>)
    ensures
        r is Some == (i <= 0xd7ff || 0xe000 <= i <= 0x10ffff),
        r matches Some(c) ==> c as int == i,
;

/// The dots of a cell's left column from the top, as parts of the character's number.
pub const LEFT: [u32; 4] = [1, 2, 4, 64];

/// The dots of the right column.
pub const RIGHT: [u32; 4] = [8, 16, 32, 128];

/// The character without a dot.
pub const BASE: u32 = 0x2800;

/// The dotted placeholder inside an empty graph region.
pub const BG: char = '⣤';

/// How many dots a sample rises out of `rows`. With `no_zero` the lowest dot is
/// always set.
pub open spec fn dots<N: Num>(v: N, scale: N, rows: u64, no_zero: bool) -> int {
    let s = steps(v, scale, rows) as int;
    if no_zero && s == 0 {
        if rows < 1 {
            0
        } else {
            1
        }
    } else {
        s
    }
}

/// The top of the scale: the given one, else the largest visible sample; not nought.
pub open spec fn dot_scale<N: Num>(vis: Seq<N>, max: Option<N>) -> N {
    larger_spec(
        match max {
            Some(m) => m,
            None => peak_from(vis, N::zero_spec()),
        },
        N::epsilon_spec(),
    )
}

/// The part of the character's number for the dot `k` from the top in a column that
/// rises `tall` dots, in character row `y` of a graph with `rows` rows of dots.
pub open spec fn dot(tall: int, rows: int, y: int, k: int, bit: u32) -> int {
    if tall >= rows - 4 * y - k {
        bit as int
    } else {
        0
    }
}

/// The dots of one column in character row `y`.
pub open spec fn column_bits(tall: int, rows: int, y: int, bits: Seq<u32>) -> int {
    dot(tall, rows, y, 0, bits[0]) + dot(tall, rows, y, 1, bits[1]) + dot(tall, rows, y, 2, bits[2])
        + dot(tall, rows, y, 3, bits[3])
}

/// The dots of a cell whose columns rise `a` and `b` dots.
pub open spec fn cell_bits(a: int, b: int, rows: int, y: int) -> int {
    column_bits(a, rows, y, LEFT@) + column_bits(b, rows, y, RIGHT@)
}

/// The sample that column `i` shows where `pad` columns are empty; negative ones
/// count as nought.
pub open spec fn column_value<N: Num>(vis: Seq<N>, pad: int, i: int) -> N {
    larger_spec(vis[i - pad], N::zero_spec())
}

/// How many dots column `i` rises; an empty one none.
pub open spec fn column_dots<N: Num>(
    vis: Seq<N>,
    pad: int,
    i: int,
    scale: N,
    rows: u64,
    no_zero: bool,
) -> int {
    if i < pad {
        0
    } else {
        dots(column_value(vis, pad, i), scale, rows, no_zero)
    }
}

/// The larger of the values of a cell's columns.
pub open spec fn cell_peak<N: Num>(vis: Seq<N>, pad: int, x: int) -> N {
    let first = if 2 * x < pad {
        N::zero_spec()
    } else {
        larger_spec(N::zero_spec(), column_value(vis, pad, 2 * x))
    };
    larger_spec(first, column_value(vis, pad, 2 * x + 1))
}

/// What an empty place of a graph shows.
pub open spec fn ground_mark(th: Theme) -> Mark {
    Some((seq![BG], ink(th.color("div_line"@))))
}

/// A cell with the dots `bits` in the colour `c`.
pub open spec fn dotted(bits: int, c: Color) -> Mark {
    Some((seq![(BASE + bits) as char], ink(c)))
}

/// What a graph of `w` by `h` cells shows at (`x`, `y`): two samples to a cell, the
/// newest in the last column; cells without a dot keep the dotted ground.
pub open spec fn braille_mark<N: Num>(
    series: Seq<N>,
    th: Theme,
    family: Seq<char>,
    max: Option<N>,
    no_zero: bool,
    w: int,
    h: int,
    x: int,
    y: int,
) -> Mark {
    let vis = newest(series, (2 * w) as nat);
    let pad = 2 * w - vis.len();
    let scale = dot_scale(vis, max);
    let rows = (4 * h) as u64;
    let bits = cell_bits(
        column_dots(vis, pad, 2 * x, scale, rows, no_zero),
        column_dots(vis, pad, 2 * x + 1, scale, rows, no_zero),
        4 * h,
        y,
    );
    if 2 * x + 1 < pad || bits == 0 {
        ground_mark(th)
    } else {
        dotted(bits, th.shade(family, steps(cell_peak(vis, pad, x), scale, 100) as int))
    }
}

/// The grid with the dotted graph of a series on `area`.
pub open spec fn braille_drawn<N: Num>(
    g: Grid,
    area: Rect,
    series: Seq<N>,
    th: Theme,
    family: Seq<char>,
    max: Option<N>,
    no_zero: bool,
) -> Grid {
    stamped(
        g,
        area,
        |x: int, y: int|
            braille_mark(
                series,
                th,
                family,
                max,
                no_zero,
                area.width as int,
                area.height as int,
                x,
                y,
            ),
    )
}

/// How many dots a sample rises.
fn dots_of<N: Num>(v: N, scale: N, rows: u64, no_zero: bool) -> (r: u64)
    ensures
        r == dots(v, scale, rows, no_zero),
        r <= rows,
{
    let s: u64 = steps_of(v, scale, rows);
    if no_zero && s == 0 && rows >= 1 {
        1
    } else {
        s
    }
}

/// The dots of one column in character row `y`.
fn bits_of(tall: u64, rows: u64, y: u64, bits: &[u32; 4]) -> (r: u32)
    requires
        4 * y + 4 <= rows <= 0x4_0000,
        bits@[0] < 256,
        bits@[1] < 256,
        bits@[2] < 256,
        bits@[3] < 256,
    ensures
        r == column_bits(tall as int, rows as int, y as int, bits@),
{
    let mut sum: u32 = 0;
    let level: u64 = rows - 4 * y;
    if tall >= level {
        sum = sum + bits[0];
    }
    if tall >= level - 1 {
        sum = sum + bits[1];
    }
    if tall >= level - 2 {
        sum = sum + bits[2];
    }
    if tall >= level - 3 {
        sum = sum + bits[3];
    }
    sum
}

/// The heights of the columns of cell `x` and its colour, where it has a sample.
pub open spec fn cell_of<N: Num>(
    vis: Seq<N>,
    th: Theme,
    family: Seq<char>,
    scale: N,
    no_zero: bool,
    w: int,
    rows: u64,
    x: int,
) -> Option<(int, int, Color)> {
    let pad = 2 * w - vis.len();
    if 2 * x + 1 < pad {
        None
    } else {
        Some(
            (
                column_dots(vis, pad, 2 * x, scale, rows, no_zero),
                column_dots(vis, pad, 2 * x + 1, scale, rows, no_zero),
                th.shade(family, steps(cell_peak(vis, pad, x), scale, 100) as int),
            ),
        )
    }
}

/// The heights and the colour of a computed cell.
pub open spec fn cell_view(c: Option<(u64, u64, Color)>) -> Option<(int, int, Color)> {
    match c {
        Some((a, b, color)) => Some((a as int, b as int, color)),
        None => None,
    }
}

/// The cells of a graph from the left.
fn cells_of<N: Num>(
    vis: &Vec<N>,
    th: &Theme,
    family: &str,
    scale: N,
    no_zero: bool,
    w: usize,
    rows: u64,
) -> (r: Vec<Option<(u64, u64, Color)>>)
    requires
        w <= 0xffff,
        vis@.len() <= 2 * w,
    ensures
        r@.len() == w,
        forall|x: int|
            0 <= x < w ==> cell_view(#[trigger] r@[x]) == cell_of(
                vis@,
                *th,
                family@,
                scale,
                no_zero,
                w as int,
                rows,
                x,
            ),
{
    let pad: usize = 2 * w - vis.len();
    let mut out: Vec<Option<(u64, u64, Color)>> = Vec::new();
    let mut x: usize = 0;
    while x < w
        invariant
            x <= w <= 0xffff,
            vis@.len() <= 2 * w,
            pad == 2 * w - vis@.len(),
            out@.len() == x,
            forall|j: int|
                0 <= j < x ==> cell_view(#[trigger] out@[j]) == cell_of(
                    vis@,
                    *th,
                    family@,
                    scale,
                    no_zero,
                    w as int,
                    rows,
                    j,
                ),
        decreases w - x,
    {
        if 2 * x + 1 < pad {
            out.push(None);
        } else {
            let mut top = N::zero();
            let mut a: u64 = 0;
            if 2 * x >= pad {
                let v = larger(vis[2 * x - pad], N::zero());
                a = dots_of(v, scale, rows, no_zero);
                top = larger(top, v);
            }
            let v = larger(vis[2 * x + 1 - pad], N::zero());
            let b: u64 = dots_of(v, scale, rows, no_zero);
            top = larger(top, v);
            let pct: u64 = steps_of(top, scale, 100);
            out.push(Some((a, b, th.grad(family, pct as usize))));
        }
        x += 1;
    }
    out
}

/// Renders `series` (oldest first) into `area` as a dotted area graph: two samples
/// per cell, filled bottom-up to each sample's value, each cell coloured from
/// `family`'s gradient at its own value.
///
/// - Right-aligned: the newest sample is always in the last cell; a short history
///   draws a short graph, never zero-padded.
/// - `no_zero`: a flat-zero series still paints the bottom dot row instead of
///   disappearing into the background.
/// - The scale is `autoscale_max` when given, else the window's peak.
pub fn draw<N: Num>(
    buf: &mut Buffer,
    area: Rect,
    series: &Vec<N>,
    th: &Theme,
    family: &str,
    autoscale_max: Option<N>,
    no_zero: bool,
)
    requires
        fits(area, old(buf).w(), old(buf).h()),
    ensures
        final(buf).w() == old(buf).w(),
        final(buf).h() == old(buf).h(),
        shaped(old(buf)@, old(buf).w() as int, old(buf).h() as int),
        shaped(final(buf)@, old(buf).w() as int, old(buf).h() as int),
        final(buf)@ == braille_drawn(
            old(buf)@,
            area,
            series@,
            *th,
            family@,
            autoscale_max,
            no_zero,
        ),
{
    let w: usize = area.width as usize;
    let h: usize = area.height as usize;
    let rows: u64 = (h * 4) as u64;
    let vis = newest_of(series, w * 2);
    let scale = larger(
        match autoscale_max {
            Some(m) => m,
            None => peak(&vis, N::zero()),
        },
        N::epsilon(),
    );
    let cells = cells_of(&vis, th, family, scale, no_zero, w, rows);
    let empty = ink(th.c("div_line"));
    let ghost p = |x: int, y: int|
        braille_mark(
            series@,
            *th,
            family@,
            autoscale_max,
            no_zero,
            area.width as int,
            area.height as int,
            x,
            y,
        );
    let f = |x: u16, y: u16| -> (m: Option<(String, Style)>)
        requires
            x < area.width,
            y < area.height,
            w == area.width,
            h == area.height,
            rows == 4 * h,
            vis@ == newest(series@, (2 * w) as nat),
            scale == dot_scale(vis@, autoscale_max),
            cells@.len() == w,
            forall|i: int|
                0 <= i < w ==> cell_view(#[trigger] cells@[i]) == cell_of(
                    vis@,
                    *th,
                    family@,
                    scale,
                    no_zero,
                    w as int,
                    rows,
                    i,
                ),
        ensures
            mark_view(m) == p(x as int, y as int),
        {
            let c = cells[x as usize];
            assert(cell_view(c) == cell_view(cells@[x as int]));
            if let Some((a, b, color)) = c {
                let bits: u32 = bits_of(a, rows, y as u64, &LEFT) + bits_of(b, rows, y as u64, &RIGHT);
                if bits != 0 {
                    let glyph = match char::from_u32(BASE + bits) {
                        Some(g) => g,
                        None => ' ',
                    };
                    assert(glyph as int == BASE + bits);
                    return Some((char_text(glyph), ink(color)));
                }
            }
            Some((char_text(BG), empty))
        };
    stamp(buf, area, f, Ghost(p));
}

// ---- laws ----

/// The newest sample always stands in the right column of the last cell.
pub proof fn newest_stands_in_the_last_cell<N: Num>(series: Seq<N>, w: int)
    requires
        series.len() > 0,
        w > 0,
    ensures
        ({
            let vis = newest(series, (2 * w) as nat);
            let pad = 2 * w - vis.len();
            0 <= pad < 2 * w && vis[2 * (w - 1) + 1 - pad] == series.last()
        }),
{
}

/// A history too short to reach a cell leaves the dotted ground there, never noughts.
pub proof fn short_history_leaves_the_ground<N: Num>(
    series: Seq<N>,
    th: Theme,
    family: Seq<char>,
    max: Option<N>,
    no_zero: bool,
    w: int,
    h: int,
    x: int,
    y: int,
)
    requires
        0 <= x,
        2 * x + 1 < 2 * w - series.len(),
    ensures
        braille_mark(series, th, family, max, no_zero, w, h, x, y) == ground_mark(th),
{
}

/// With `no_zero` a cell that has a sample shows a dot of its own in the bottom row.
pub proof fn flat_series_stay_visible<N: Num>(
    series: Seq<N>,
    th: Theme,
    family: Seq<char>,
    max: Option<N>,
    w: int,
    h: int,
    x: int,
)
    requires
        0 <= x < w,
        0 < h <= 0xffff,
        2 * x + 1 >= 2 * w - series.len(),
    ensures
        ({
            let vis = newest(series, (2 * w) as nat);
            let pad = 2 * w - vis.len();
            let color = th.shade(
                family,
                steps(cell_peak(vis, pad, x), dot_scale(vis, max), 100) as int,
            );
            exists|bits: int|
                0 < bits < 256 && braille_mark(series, th, family, max, true, w, h, x, h - 1)
                    == #[trigger] dotted(bits, color)
        }),
{
    let vis = newest(series, (2 * w) as nat);
    let pad = 2 * w - vis.len();
    let scale = dot_scale(vis, max);
    let rows = (4 * h) as u64;
    let b = column_dots(vis, pad, 2 * x + 1, scale, rows, true);
    assert(b >= 1);
    let a = column_dots(vis, pad, 2 * x, scale, rows, true);
    let bits = cell_bits(a, b, 4 * h, h - 1);
    assert(dot(b, 4 * h, h - 1, 3, RIGHT@[3]) == 128);
    assert(0 < bits < 256);
    let color = th.shade(family, steps(cell_peak(vis, pad, x), scale, 100) as int);
    assert(braille_mark(series, th, family, max, true, w, h, x, h - 1) == dotted(bits, color));
}

}
