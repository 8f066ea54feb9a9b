//! Solid area graphs, one sample to a column.
use crate::model::hist::newest;
use crate::num::{larger, larger_spec, peak, peak_from, Num};
use crate::text::cat;
use crate::ui::cells::{add_span, char_text, fits, ink, mark_view, shaped, sp, spans_view, stamp,
    stamped, Buffer, Color, Grid, Mark, Rect, Span, Style};
use crate::ui::frame::{put_row, row_written};
use crate::ui::theme::Theme;
use vstd::prelude::*;
use vstd::string::*;

verus! {

/// Block heights, from one eighth to the full cell.
pub const BLOCKS: [char; 8] = ['▁', '▂', '▃', '▄', '▅', '▆', '▇', '█'];

/// How many of `n` steps `v` reaches on a scale up to `max`; all at most.
pub open spec fn steps<N: Num>(v: N, max: N, n: u64) -> u64 {
    let s = v.over_spec(max).times_spec(N::of_count_spec(n)).round_spec().to_count_spec();
    if s < n {
        s
    } else {
        n
    }
}

/// How many of `n` steps `v` reaches on a scale up to `max`; all at most.
pub fn steps_of<N: Num>(v: N, max: N, n: u64) -> (r: u64)
    ensures
        r == steps(v, max, n),
{
    let s: u64 = v.over(max).times(N::of_count(n)).round().to_count();
    if s < n {
        s
    } else {
        n
    }
}

/// The top of the scale of a graph: the largest sample, but not nought.
pub open spec fn scale_of<N: Num>(vis: Seq<N>) -> N {
    larger_spec(peak_from(vis, N::zero_spec()), N::epsilon_spec())
}

/// The top of the scale of a graph.
pub fn find_scale<N: Num>(vis: &Vec<N>) -> (r: N)
    ensures
        r == scale_of(vis@),
{
    larger(peak(vis, N::zero()), N::epsilon())
}

/// The newest `n` samples.
pub fn newest_of<N: Num>(series: &Vec<N>, n: usize) -> (r: Vec<N>)
    ensures
        r@ == newest(series@, n as nat),
{
    let len: usize = series.len();
    let from: usize = len.saturating_sub(n);
    let mut out: Vec<N> = Vec::new();
    let mut i: usize = from;
    while i < len
        invariant
            from <= i <= len,
            len == series@.len(),
            out@ == series@.subrange(from as int, i as int),
        decreases len - i,
    {
        out.push(series[i]);
        i += 1;
        assert(out@ =~= series@.subrange(from as int, i as int));
    }
    assert(out@ =~= newest(series@, n as nat));
    out
}

/// What a column filled by `eighths` shows in row `y` of `h`.
pub open spec fn bar_mark(eighths: int, style: Style, h: int, y: int) -> Mark {
    let left = eighths - 8 * (h - 1 - y);
    if left >= 8 {
        Some((seq!['█'], style))
    } else if left > 0 {
        Some((seq![BLOCKS@[left - 1]], style))
    } else {
        None
    }
}

/// What a graph of `w` by `h` cells shows at (`x`, `y`). The newest sample stands in
/// the last column; columns without a sample stay as they were.
pub open spec fn block_mark<N: Num>(
    series: Seq<N>,
    th: Theme,
    family: Seq<char>,
    w: int,
    h: int,
    x: int,
    y: int,
) -> Mark {
    let vis = newest(series, w as nat);
    let pad = w - vis.len();
    let max = scale_of(vis);
    if x < pad {
        None
    } else {
        let v = larger_spec(vis[x - pad], N::zero_spec());
        bar_mark(
            steps(v, max, (8 * h) as u64) as int,
            ink(th.shade(family, steps(v, max, 100) as int)),
            h,
            y,
        )
    }
}

/// The grid with the solid graph of a series on `area`.
pub open spec fn block_drawn<N: Num>(
    g: Grid,
    area: Rect,
    series: Seq<N>,
    th: Theme,
    family: Seq<char>,
) -> Grid {
    if area.width == 0 || area.height == 0 || series.len() == 0 {
        g
    } else {
        stamped(
            g,
            area,
            |x: int, y: int|
                block_mark(series, th, family, area.width as int, area.height as int, x, y),
        )
    }
}

/// The height and the colour of each visible sample.
fn bars<N: Num>(vis: &Vec<N>, max: N, n: u64, th: &Theme, family: &str) -> (r: Vec<(u64, Color)>)
    ensures
        r@.len() == vis@.len(),
        forall|i: int|
            0 <= i < vis@.len() ==> #[trigger] r@[i] == ({
                let v = larger_spec(vis@[i], N::zero_spec());
                (steps(v, max, n), th.shade(family@, steps(v, max, 100) as int))
            }),
{
    let mut out: Vec<(u64, Color)> = Vec::new();
    let n_vis: usize = vis.len();
    let mut i: usize = 0;
    while i < n_vis
        invariant
            i <= n_vis,
            n_vis == vis@.len(),
            out@.len() == i,
            forall|j: int|
                0 <= j < i ==> #[trigger] out@[j] == ({
                    let v = larger_spec(vis@[j], N::zero_spec());
                    (steps(v, max, n), th.shade(family@, steps(v, max, 100) as int))
                }),
        decreases n_vis - i,
    {
        let v = larger(vis[i], N::zero());
        let pct: u64 = steps_of(v, max, 100);
        out.push((steps_of(v, max, n), th.grad(family, pct as usize)));
        i += 1;
    }
    out
}

/// Solid-area graph: one sample per column, painted bottom-up with full `█` cells
/// and one eighth-resolution partial block on the boundary row. Empty cells keep
/// whatever background the panel left. Colour grades per column along `family`'s
/// ramp at the sample's own value. Right-aligned; a short history draws short.
pub fn draw<N: Num>(buf: &mut Buffer, area: Rect, series: &Vec<N>, th: &Theme, family: &str)
    requires
        fits(area, old(buf).w(), old(buf).h()),
    ensures
        final(buf).w() == old(buf).w(),
        final(buf).h() == old(buf).h(),
        shaped(old(buf)@, old(buf).w() as int, old(buf).h() as int),
        shaped(final(buf)@, old(buf).w() as int, old(buf).h() as int),
        final(buf)@ == block_drawn(old(buf)@, area, series@, *th, family@),
{
    let w0: u16 = buf.width();
    let w: usize = area.width as usize;
    let h: usize = area.height as usize;
    if w == 0 || h == 0 || series.len() == 0 {
        return;
    }
    let vis = newest_of(series, w);
    let pad: usize = w - vis.len();
    let max = find_scale(&vis);
    let cols = bars(&vis, max, (h * 8) as u64, th, family);
    let ghost p = |x: int, y: int|
        block_mark(series@, *th, family@, area.width as int, area.height as int, x, y);
    let f = |x: u16, y: u16| -> (m: Option<(String, Style)>)
        requires
            x < area.width,
            y < area.height,
            w == area.width,
            h == area.height,
            vis@ == newest(series@, w as nat),
            pad == w - vis@.len(),
            max == scale_of(vis@),
            cols@.len() == vis@.len(),
            forall|i: int|
                0 <= i < vis@.len() ==> #[trigger] cols@[i] == ({
                    let v = larger_spec(vis@[i], N::zero_spec());
                    (
                        steps(v, max, (h * 8) as u64),
                        th.shade(family@, steps(v, max, 100) as int),
                    )
                }),
        ensures
            mark_view(m) == p(x as int, y as int),
        {
            if (x as usize) < pad {
                return None;
            }
            let bar = cols[x as usize - pad];
            let below: u64 = 8 * (h as u64 - 1 - y as u64);
            let style = ink(bar.1);
            if bar.0 >= below + 8 {
                Some((char_text('█'), style))
            } else if bar.0 > below {
                Some((char_text(BLOCKS[(bar.0 - below - 1) as usize]), style))
            } else {
                None
            }
        };
    stamp(buf, area, f, Ghost(p));
}

/// The height of a sample in a line of single characters: one eighth at least.
pub open spec fn spark_height<N: Num>(v: N, max: N) -> int {
    let s = steps(larger_spec(v, N::zero_spec()), max, 8) as int;
    if s < 1 {
        1
    } else {
        s
    }
}

/// What a line of single characters shows in column `x` of `w`.
pub open spec fn spark_mark<N: Num>(
    series: Seq<N>,
    th: Theme,
    family: Seq<char>,
    w: int,
    x: int,
) -> Mark {
    let vis = newest(series, w as nat);
    let pad = w - vis.len();
    let max = scale_of(vis);
    if x < pad {
        None
    } else {
        let v = vis[x - pad];
        Some(
            (
                seq![BLOCKS@[spark_height(v, max) - 1]],
                ink(
                    th.shade(family, steps(larger_spec(v, N::zero_spec()), max, 100) as int),
                ),
            ),
        )
    }
}

/// The first row of `area`.
pub open spec fn first_row(area: Rect) -> Rect {
    Rect { x: area.x, y: area.y, width: area.width, height: 1 }
}

/// The grid with the one-line graph of a series on the first row of `area`.
pub open spec fn spark_drawn<N: Num>(
    g: Grid,
    area: Rect,
    series: Seq<N>,
    th: Theme,
    family: Seq<char>,
) -> Grid {
    if area.width == 0 || area.height == 0 || series.len() == 0 {
        g
    } else {
        stamped(
            g,
            first_row(area),
            |x: int, y: int| spark_mark(series, th, family, area.width as int, x),
        )
    }
}

/// A one-line sparkline, a single character per sample. Right-aligned and never
/// padded like [`draw`], sized to one text row.
pub fn sparkline<N: Num>(buf: &mut Buffer, area: Rect, series: &Vec<N>, th: &Theme, family: &str)
    requires
        fits(area, old(buf).w(), old(buf).h()),
    ensures
        final(buf).w() == old(buf).w(),
        final(buf).h() == old(buf).h(),
        shaped(old(buf)@, old(buf).w() as int, old(buf).h() as int),
        shaped(final(buf)@, old(buf).w() as int, old(buf).h() as int),
        final(buf)@ == spark_drawn(old(buf)@, area, series@, *th, family@),
{
    let w0: u16 = buf.width();
    if area.width == 0 || area.height == 0 || series.len() == 0 {
        return;
    }
    let w: usize = area.width as usize;
    let vis = newest_of(series, w);
    let pad: usize = w - vis.len();
    let max = find_scale(&vis);
    let cols = bars(&vis, max, 8, th, family);
    let ghost p = |x: int, y: int| spark_mark(series@, *th, family@, area.width as int, x);
    let f = |x: u16, y: u16| -> (m: Option<(String, Style)>)
        requires
            x < area.width,
            w == area.width,
            vis@ == newest(series@, w as nat),
            pad == w - vis@.len(),
            max == scale_of(vis@),
            cols@.len() == vis@.len(),
            forall|i: int|
                0 <= i < vis@.len() ==> #[trigger] cols@[i] == ({
                    let v = larger_spec(vis@[i], N::zero_spec());
                    (steps(v, max, 8), th.shade(family@, steps(v, max, 100) as int))
                }),
        ensures
            mark_view(m) == p(x as int, y as int),
        {
            if (x as usize) < pad {
                return None;
            }
            let bar = cols[x as usize - pad];
            let tall: u64 = if bar.0 < 1 {
                1
            } else {
                bar.0
            };
            Some((char_text(BLOCKS[(tall - 1) as usize]), ink(bar.1)))
        };
    let r = Rect { x: area.x, y: area.y, width: area.width, height: 1 };
    stamp(buf, r, f, Ghost(p));
}

/// The grid with a text on the first row of `area`.
pub open spec fn text_put(g: Grid, area: Rect, text: Seq<char>, style: Style) -> Grid {
    if area.height == 0 {
        g
    } else {
        row_written(g, area.x as int, area.y as int, area.right_spec(), seq![sp(text, style)])
    }
}

/// Whether a graph has room for the note on its peak.
pub open spec fn has_peak_label(area: Rect, samples: nat) -> bool {
    area.width >= 8 && area.height > 0 && samples > 0
}

/// Peak annotation inside a graph's top-left corner: `↑ 1.2k`. Drawn after
/// [`draw`], so that the text overwrites the corner.
pub fn peak_label<N: Num, F: Fn(N) -> String>(
    buf: &mut Buffer,
    area: Rect,
    series: &Vec<N>,
    th: &Theme,
    fmt: F,
)
    requires
        fits(area, old(buf).w(), old(buf).h()),
        fmt.requires((peak_from(series@, N::zero_spec()),)),
    ensures
        final(buf).w() == old(buf).w(),
        final(buf).h() == old(buf).h(),
        shaped(old(buf)@, old(buf).w() as int, old(buf).h() as int),
        shaped(final(buf)@, old(buf).w() as int, old(buf).h() as int),
        !has_peak_label(area, series@.len()) ==> final(buf)@ == old(buf)@,
        has_peak_label(area, series@.len()) ==> exists|t: String|
            fmt.ensures((peak_from(series@, N::zero_spec()),), t) && final(buf)@ == text_put(
                old(buf)@,
                area,
                "↑ "@ + #[trigger] t@,
                ink(th.color("graph_text"@)),
            ),
{
    let w0: u16 = buf.width();
    if area.width < 8 || area.height == 0 || series.len() == 0 {
        return;
    }
    let top = peak(series, N::zero());
    let t = fmt(top);
    put_text(buf, area, cat("↑ ", t.as_str()).as_str(), ink(th.c("graph_text")));
}

/// Writes text onto a graph's first row, clipped at the area's right edge.
pub fn put_text(buf: &mut Buffer, area: Rect, text: &str, style: Style)
    requires
        fits(area, old(buf).w(), old(buf).h()),
    ensures
        final(buf).w() == old(buf).w(),
        final(buf).h() == old(buf).h(),
        shaped(old(buf)@, old(buf).w() as int, old(buf).h() as int),
        shaped(final(buf)@, old(buf).w() as int, old(buf).h() as int),
        final(buf)@ == text_put(old(buf)@, area, text@, style),
{
    let w0: u16 = buf.width();
    if area.height == 0 {
        return;
    }
    let mut line: Vec<Span> = Vec::new();
    add_span(&mut line, text, style);
    assert(spans_view(line@) =~= seq![sp(text@, style)]);
    put_row(buf, area.x, area.y, area.right(), &line);
}

// ---- laws ----

/// The newest sample always stands in the last column of a graph of `w` columns, in
/// which one sample takes one column.
pub proof fn newest_stands_last<N: Num>(series: Seq<N>, w: nat)
    requires
        series.len() > 0,
        w > 0,
    ensures
        ({
            let vis = newest(series, w);
            let pad = w - vis.len();
            0 <= pad < w && vis[w - 1 - pad] == series.last()
        }),
{
}

/// A history shorter than the graph draws a short graph: the columns on the left
/// that have no sample are left alone, never filled with noughts.
pub proof fn short_history_is_not_padded<N: Num>(
    series: Seq<N>,
    th: Theme,
    family: Seq<char>,
    w: int,
    h: int,
    x: int,
    y: int,
)
    requires
        0 <= x < w - series.len(),
    ensures
        block_mark(series, th, family, w, h, x, y) is None,
        spark_mark(series, th, family, w, x) is None,
{
}

/// Columns fill from the bottom up: where a column shows something in one row, the
/// rows below it are full.
pub proof fn columns_fill_from_the_bottom(eighths: int, style: Style, h: int, y: int, lower: int)
    requires
        0 <= y < lower < h,
        bar_mark(eighths, style, h, y) is Some,
    ensures
        bar_mark(eighths, style, h, lower) == Some((seq!['█'], style)),
{
}

}
