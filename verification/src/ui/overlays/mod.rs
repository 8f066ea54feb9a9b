//! Full-screen overlays: help, options, server info. They are drawn on top of a
//! still-live screen; any key closes an open one.
use crate::config::Config;
use crate::model::snapshot::Snapshot;
use crate::num::Num;
use crate::text::cat3;
use crate::ui::cells::{add_span, bold, clear, cleared, fits, ink, italic, lines_view, mark_view,
    place_bounds, push_line, shaped, sp, spans_view, stamp, stamped, Buffer, Color, Grid, Line,
    LineView, Mark, Rect, Span, Style};
use crate::ui::overlays::lines::{add_blank, help_lines, help_text, options_lines, options_text,
    server_lines, server_text};
use crate::ui::terminal::{box_cells, box_drawn, drawn_view, run_counts, runs_count, symbol_counts,
    symbols, symbols_of, tagged_view, text_cells, text_drawn, Drawn, TaggedLine, RUN_CHARS};
use crate::ui::theme::Theme;
use crate::ui::width::text_width;
use vstd::prelude::*;
use vstd::string::*;

pub mod lines;

verus! {

#[derive(Debug, Clone, Copy, PartialEq, Eq, Structural)]
pub enum Overlay {
    Help,
    Options,
    ServerInfo,
}

/// Live poll-control state that the options reflect.
#[derive(Debug, Clone, Copy, PartialEq, Eq, Structural)]
pub struct Live {
    pub paused: bool,
    pub interval_ms: u64,
}

/// The title of an overlay.
pub open spec fn title_text(which: Overlay) -> Seq<char> {
    match which {
        Overlay::Help => "help"@,
        Overlay::Options => "options"@,
        Overlay::ServerInfo => "server info"@,
    }
}

fn title(which: Overlay) -> (r: &'static str)
    ensures
        r@ == title_text(which),
{
    match which {
        Overlay::Help => "help",
        Overlay::Options => "options",
        Overlay::ServerInfo => "server info",
    }
}

/// The key of the colour of an overlay's frame.
pub open spec fn frame_key(which: Overlay) -> Seq<char> {
    match which {
        Overlay::Help => "title"@,
        Overlay::Options => "proc_misc"@,
        Overlay::ServerInfo => "free_mid"@,
    }
}

fn border_style_key(which: Overlay) -> (r: &'static str)
    ensures
        r@ == frame_key(which),
{
    match which {
        Overlay::Help => "title",
        Overlay::Options => "proc_misc",
        Overlay::ServerInfo => "free_mid",
    }
}

// ---- the text ----

/// What an overlay says.
pub open spec fn body_text<N: Num>(
    which: Overlay,
    cfg: Config,
    snap: Snapshot<N>,
    live: Live,
    th: Theme,
) -> Seq<LineView> {
    let lines = match which {
        Overlay::Help => help_text(th),
        Overlay::Options => options_text(cfg, live.paused, live.interval_ms, th),
        Overlay::ServerInfo => server_text(cfg, snap, th),
    };
    lines + seq![
        Seq::empty(),
        seq![sp("any key: back"@, italic(th.color("inactive_fg"@)))],
    ]
}

fn body_lines<N: Num>(which: Overlay, cfg: &Config, snap: &Snapshot<N>, live: Live, th: &Theme) -> (r:
    Vec<Line>)
    ensures
        lines_view(r@) == body_text(which, *cfg, *snap, live, *th),
{
    let mut lines = match which {
        Overlay::Help => help_lines(th),
        Overlay::Options => options_lines(cfg, live.paused, live.interval_ms, th),
        Overlay::ServerInfo => server_lines(cfg, snap, th),
    };
    let ghost head = lines_view(lines@);
    add_blank(&mut lines);
    let mut l: Vec<Span> = Vec::new();
    add_span(&mut l, "any key: back", italic(th.c("inactive_fg")));
    let ghost last = seq![sp("any key: back"@, italic(th.color("inactive_fg"@)))];
    assert(spans_view(l@) =~= last);
    push_line(&mut lines, l);
    assert(lines_view(lines@) =~= head + seq![Seq::empty(), last]);
    lines
}

// ---- the panel ----

/// The smaller of two.
pub open spec fn smaller(a: int, b: int) -> int {
    if a < b {
        a
    } else {
        b
    }
}

/// What is left of a size without its border.
pub open spec fn less_two(n: int) -> int {
    if n < 2 {
        0
    } else {
        n - 2
    }
}

/// The width of an overlay.
pub open spec fn panel_width(area: Rect) -> int {
    smaller(66, less_two(area.width as int))
}

/// The height of an overlay with `n` lines: it grows with them as far as the screen
/// allows.
pub open spec fn panel_height(area: Rect, n: int) -> int {
    smaller(
        if n + 2 < 26 {
            26
        } else {
            n + 2
        },
        less_two(area.height as int),
    )
}

/// The part of `w` by `h` cells in the middle of `area`.
pub open spec fn middle_part(area: Rect, w: int, h: int) -> Rect {
    Rect {
        x: (area.x + if w < area.width {
            (area.width - w) / 2
        } else {
            0
        }) as u16,
        y: (area.y + if h < area.height {
            (area.height - h) / 2
        } else {
            0
        }) as u16,
        width: smaller(w, area.width as int) as u16,
        height: smaller(h, area.height as int) as u16,
    }
}

/// The part of `w` by `h` cells in the middle of `area`.
fn centered_rect(area: Rect, w: u16, h: u16) -> (r: Rect)
    requires
        area.right_spec() <= u16::MAX,
        area.bottom_spec() <= u16::MAX,
    ensures
        r == middle_part(area, w as int, h as int),
{
    let x: u16 = area.x + area.width.saturating_sub(w) / 2;
    let y: u16 = area.y + area.height.saturating_sub(h) / 2;
    Rect {
        x,
        y,
        width: if w < area.width {
            w
        } else {
            area.width
        },
        height: if h < area.height {
            h
        } else {
            area.height
        },
    }
}

/// What the framed block shows at (`x`, `y`).
pub open spec fn box_mark(cells: Seq<Drawn>, w: int, frame: Color, main: Color, x: int, y: int) -> Mark {
    match cells[y * w + x] {
        Some((symbol, tag)) => Some(
            (
                symbol,
                if tag == 1 {
                    ink(frame)
                } else if tag == 2 {
                    bold(frame)
                } else {
                    ink(main)
                },
            ),
        ),
        None => None,
    }
}

/// Puts the cells of a framed block on `r`.
pub fn put_box(
    buf: &mut Buffer,
    r: Rect,
    cells: &Vec<Option<(String, u8)>>,
    frame: Color,
    main: Color,
)
    requires
        fits(r, old(buf).w(), old(buf).h()),
        cells@.len() == r.width * r.height,
    ensures
        final(buf).w() == old(buf).w(),
        final(buf).h() == old(buf).h(),
        shaped(old(buf)@, old(buf).w() as int, old(buf).h() as int),
        shaped(final(buf)@, old(buf).w() as int, old(buf).h() as int),
        final(buf)@ == stamped(
            old(buf)@,
            r,
            |x: int, y: int| box_mark(drawn_view(cells@), r.width as int, frame, main, x, y),
        ),
{
    let ghost p = |x: int, y: int|
        box_mark(drawn_view(cells@), r.width as int, frame, main, x, y);
    let f = |x: u16, y: u16| -> (m: Option<(String, Style)>)
        requires
            x < r.width,
            y < r.height,
            cells@.len() == r.width * r.height,
        ensures
            mark_view(m) == p(x as int, y as int),
        {
            let at: usize = place(x, y, r.width, r.height);
            let c = &cells[at];
            assert(drawn_view(cells@)[y * r.width + x] == match c {
                Some((symbol, tag)) => Some((symbol@, *tag)),
                None => None,
            });
            match c {
                Some((symbol, tag)) => {
                    let style = if *tag == 1 {
                        ink(frame)
                    } else if *tag == 2 {
                        bold(frame)
                    } else {
                        ink(main)
                    };
                    Some((symbol.clone(), style))
                },
                None => None,
            }
        };
    stamp(buf, r, f, Ghost(p));
}

/// The place of the cell (`x`, `y`) among `w` by `h` cells.
fn place(x: u16, y: u16, w: u16, h: u16) -> (r: usize)
    requires
        x < w,
        y < h,
    ensures
        r == y * w + x,
        r < w * h,
{
    proof {
        place_bounds(x as int, y as int, w as int, h as int);
        assert(w * h <= 0xffff * 0xffff) by (nonlinear_arith)
            requires
                w <= 0xffff,
                h <= 0xffff,
        ;
    }
    (y as u32 * w as u32 + x as u32) as usize
}

// ---- the paragraph ----

/// The tag of the run `i` of a line.
pub open spec fn tag_of(i: int) -> u8 {
    if i < 255 {
        i as u8
    } else {
        255
    }
}

/// A run as the paragraph is given it: whole, or its beginning where it cannot be laid
/// out.
pub open spec fn head_of(text: Seq<char>) -> Seq<char> {
    if run_counts(text) {
        text
    } else {
        text.take(RUN_CHARS as int)
    }
}

/// Whether a run can be laid out.
fn counts(text: &str) -> (r: bool)
    ensures
        r == run_counts(text@),
{
    if text.unicode_len() <= RUN_CHARS {
        return true;
    }
    let v = symbols_of(text);
    let ghost all = symbols(text@);
    assert(v@.map_values(|s: String| s@).len() == v@.len());
    let n: usize = v.len();
    let mut k: usize = 0;
    while k < n
        invariant
            k <= n,
            n == v@.len(),
            n == all.len(),
            all == symbols(text@),
            text@.len() > RUN_CHARS,
            v@.map_values(|s: String| s@) == all,
            forall|i: int| 0 <= i < k ==> symbol_counts(#[trigger] all[i]),
        decreases n - k,
    {
        let w: usize = text_width(v[k].as_str());
        assert(v@.map_values(|s: String| s@)[k as int] == v@[k as int]@);
        if w != 0 && w % 0x1_0000 == 0 {
            assert(!symbol_counts(all[k as int]));
            return false;
        }
        k += 1;
    }
    true
}

/// A run as the paragraph is given it.
fn head(text: &str) -> (r: String)
    ensures
        r@ == head_of(text@),
        run_counts(r@),
{
    if counts(text) {
        text.to_owned()
    } else {
        text.substring_char(0, RUN_CHARS).to_owned()
    }
}

/// The runs of the lines, each with its tag.
pub open spec fn tagged_lines(lines: Seq<LineView>) -> Seq<TaggedLine> {
    lines.map_values(|l: LineView| Seq::new(l.len(), |i: int| (head_of(l[i].text), tag_of(i))))
}

/// What the paragraph shows at (`x`, `y`): a symbol in the style of the run that it is
/// of.
pub open spec fn text_mark(
    cells: Seq<Drawn>,
    lines: Seq<LineView>,
    w: int,
    x: int,
    y: int,
) -> Mark {
    match cells[y * w + x] {
        Some((symbol, tag)) => if y < lines.len() && tag < lines[y].len() {
            Some((symbol, lines[y][tag as int].style))
        } else {
            None
        },
        None => None,
    }
}

/// Puts the cells of a paragraph of `lines` on `r`.
pub fn put_text(buf: &mut Buffer, r: Rect, cells: &Vec<Option<(String, u8)>>, lines: &Vec<Line>)
    requires
        fits(r, old(buf).w(), old(buf).h()),
        cells@.len() == r.width * r.height,
    ensures
        final(buf).w() == old(buf).w(),
        final(buf).h() == old(buf).h(),
        shaped(old(buf)@, old(buf).w() as int, old(buf).h() as int),
        shaped(final(buf)@, old(buf).w() as int, old(buf).h() as int),
        final(buf)@ == stamped(
            old(buf)@,
            r,
            |x: int, y: int|
                text_mark(drawn_view(cells@), lines_view(lines@), r.width as int, x, y),
        ),
{
    let ghost p = |x: int, y: int|
        text_mark(drawn_view(cells@), lines_view(lines@), r.width as int, x, y);
    let f = |x: u16, y: u16| -> (m: Option<(String, Style)>)
        requires
            x < r.width,
            y < r.height,
            cells@.len() == r.width * r.height,
        ensures
            mark_view(m) == p(x as int, y as int),
        {
            let at: usize = place(x, y, r.width, r.height);
            let c = &cells[at];
            assert(drawn_view(cells@)[y * r.width + x] == match c {
                Some((symbol, tag)) => Some((symbol@, *tag)),
                None => None,
            });
            match c {
                Some((symbol, tag)) => {
                    if (y as usize) < lines.len() && (*tag as usize) < lines[y as usize].spans.len() {
                        Some((symbol.clone(), lines[y as usize].spans[*tag as usize].style))
                    } else {
                        None
                    }
                },
                None => None,
            }
        };
    stamp(buf, r, f, Ghost(p));
}

/// The runs of a line, each with its tag.
fn tag_runs(l: &Line) -> (r: Vec<(String, u8)>)
    ensures
        r@.map_values(|s: (String, u8)| (s.0@, s.1)) == Seq::new(
            l@.len(),
            |i: int| (head_of(l@[i].text), tag_of(i)),
        ),
{
    let mut out: Vec<(String, u8)> = Vec::new();
    let n: usize = l.spans.len();
    let mut i: usize = 0;
    while i < n
        invariant
            i <= n,
            n == l.spans@.len(),
            out@.len() == i,
            forall|j: int|
                0 <= j < i ==> (#[trigger] out@[j]).0@ == head_of(l@[j].text) && out@[j].1 == tag_of(j),
        decreases n - i,
    {
        let tag: u8 = if i < 255 {
            i as u8
        } else {
            255
        };
        out.push((head(l.spans[i].content.as_str()), tag));
        i += 1;
    }
    assert(out@.map_values(|s: (String, u8)| (s.0@, s.1)) =~= Seq::new(
        l@.len(),
        |i: int| (head_of(l@[i].text), tag_of(i)),
    ));
    out
}

/// The runs of the lines, each with its tag.
fn tag_lines(lines: &Vec<Line>) -> (r: Vec<Vec<(String, u8)>>)
    ensures
        tagged_view(r@) == tagged_lines(lines_view(lines@)),
        runs_count(r@),
{
    let mut out: Vec<Vec<(String, u8)>> = Vec::new();
    let n: usize = lines.len();
    let mut i: usize = 0;
    while i < n
        invariant
            i <= n,
            n == lines@.len(),
            out@.len() == i,
            forall|j: int|
                0 <= j < i ==> (#[trigger] out@[j])@.map_values(|s: (String, u8)| (s.0@, s.1))
                    == Seq::new(
                    lines@[j]@.len(),
                    |k: int| (head_of(lines@[j]@[k].text), tag_of(k)),
                ),
        decreases n - i,
    {
        out.push(tag_runs(&lines[i]));
        i += 1;
    }
    assert(tagged_view(out@) =~= tagged_lines(lines_view(lines@)));
    assert forall|i: int, j: int|
        0 <= i < out@.len() && 0 <= j < out@[i]@.len() implies run_counts(
        (#[trigger] out@[i]@[j]).0@,
    ) by {
        let runs = out@[i]@.map_values(|s: (String, u8)| (s.0@, s.1));
        assert(runs[j].0 == out@[i]@[j].0@);
        assert(runs[j].0 == head_of(lines@[i]@[j].text));
    }
    out
}

// ---- the overlay ----

/// The inside of a framed part.
pub open spec fn inside_of(r: Rect) -> Rect {
    Rect {
        x: (r.x + 1) as u16,
        y: (r.y + 1) as u16,
        width: (r.width - 2) as u16,
        height: (r.height - 2) as u16,
    }
}

/// The grid with a framed text on `r`, of which nothing else is left.
pub open spec fn panel_drawn(
    g: Grid,
    r: Rect,
    title: Seq<char>,
    frame: Color,
    main: Color,
    lines: Seq<LineView>,
) -> Grid {
    let inner = inside_of(r);
    let boxed = box_drawn(r.width, r.height, title, (1, 2, 3));
    let text = text_drawn(inner.width, inner.height, tagged_lines(lines));
    stamped(
        stamped(
            cleared(g, r),
            r,
            |x: int, y: int| box_mark(boxed, r.width as int, frame, main, x, y),
        ),
        inner,
        |x: int, y: int| text_mark(text, lines, inner.width as int, x, y),
    )
}

/// The grid with an overlay in the middle of `area`; nothing where there is no room for
/// one.
pub open spec fn overlay_drawn<N: Num>(
    g: Grid,
    which: Overlay,
    cfg: Config,
    snap: Snapshot<N>,
    live: Live,
    th: Theme,
    area: Rect,
) -> Grid {
    let body = body_text(which, cfg, snap, live, th);
    let w = panel_width(area);
    let h = panel_height(area, body.len() as int);
    if w < 20 || h < 6 {
        g
    } else {
        panel_drawn(
            g,
            middle_part(area, w, h),
            " "@ + title_text(which) + " "@,
            th.color(frame_key(which)),
            th.color("main_fg"@),
            body,
        )
    }
}

/// Draws a framed text on `r`.
fn draw_panel(buf: &mut Buffer, r: Rect, title: &str, frame: Color, main: Color, lines: &Vec<Line>)
    requires
        fits(r, old(buf).w(), old(buf).h()),
        20 <= r.width <= 66,
        r.height >= 6,
        title@.len() <= 0x1000,
    ensures
        final(buf).w() == old(buf).w(),
        final(buf).h() == old(buf).h(),
        shaped(old(buf)@, old(buf).w() as int, old(buf).h() as int),
        shaped(final(buf)@, old(buf).w() as int, old(buf).h() as int),
        final(buf)@ == panel_drawn(old(buf)@, r, title@, frame, main, lines_view(lines@)),
{
    clear(buf, r);
    let boxed = box_cells(r.width, r.height, title, (1, 2, 3));
    put_box(buf, r, &boxed, frame, main);
    let inner = Rect { x: r.x + 1, y: r.y + 1, width: r.width - 2, height: r.height - 2 };
    let tagged = tag_lines(lines);
    let text = text_cells(inner.width, inner.height, &tagged);
    put_text(buf, inner, &text, lines);
}

/// Renders the given overlay centered over `area`. The panel is sized to its content
/// and capped inside the area.
pub fn render<N: Num>(
    which: Overlay,
    cfg: &Config,
    snap: &Snapshot<N>,
    live: Live,
    th: &Theme,
    area: Rect,
    buf: &mut Buffer,
)
    requires
        fits(area, old(buf).w(), old(buf).h()),
    ensures
        final(buf).w() == old(buf).w(),
        final(buf).h() == old(buf).h(),
        shaped(old(buf)@, old(buf).w() as int, old(buf).h() as int),
        shaped(final(buf)@, old(buf).w() as int, old(buf).h() as int),
        final(buf)@ == overlay_drawn(old(buf)@, which, *cfg, *snap, live, *th, area),
{
    let w0: u16 = buf.width();
    let body = body_lines(which, cfg, snap, live, th);
    let inner_w: u16 = area.width.saturating_sub(2);
    let inner_h: u16 = area.height.saturating_sub(2);
    let w: u16 = if 66 < inner_w {
        66
    } else {
        inner_w
    };
    let n: usize = body.len();
    let wanted: u16 = if n < 24 {
        26
    } else if n < 0xfffd {
        n as u16 + 2
    } else {
        0xffff
    };
    let h: u16 = if wanted < inner_h {
        wanted
    } else {
        inner_h
    };
    assert(h == panel_height(area, n as int));
    if w < 20 || h < 6 {
        return;
    }
    let r = centered_rect(area, w, h);
    let name = cat3(" ", title(which), " ");
    proof {
        reveal_strlit(" ");
        reveal_strlit("help");
        reveal_strlit("options");
        reveal_strlit("server info");
    }
    draw_panel(buf, r, name.as_str(), th.c(border_style_key(which)), th.c("main_fg"), &body);
}

// ---- laws ----

/// An overlay hides all that is behind it: no cell of its part keeps anything of what
/// it showed.
pub proof fn overlay_hides_what_is_behind(
    a: Grid,
    b: Grid,
    r: Rect,
    title: Seq<char>,
    frame: Color,
    main: Color,
    lines: Seq<LineView>,
    w: int,
    h: int,
    x: int,
    y: int,
)
    requires
        shaped(a, w, h),
        shaped(b, w, h),
        0 <= x < w,
        0 <= y < h,
        crate::ui::cells::inside(r, x, y),
    ensures
        panel_drawn(a, r, title, frame, main, lines)[y][x] == panel_drawn(
            b,
            r,
            title,
            frame,
            main,
            lines,
        )[y][x],
{
}

/// The middle part lies within the area.
pub proof fn overlay_stays_inside(area: Rect, w: int, h: int)
    requires
        0 <= w,
        0 <= h,
        area.right_spec() <= u16::MAX,
        area.bottom_spec() <= u16::MAX,
    ensures
        ({
            let r = middle_part(area, w, h);
            &&& area.x <= r.x
            &&& area.y <= r.y
            &&& r.right_spec() <= area.right_spec()
            &&& r.bottom_spec() <= area.bottom_spec()
        }),
{
}

}
