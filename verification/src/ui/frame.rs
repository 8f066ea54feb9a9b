//! Frames: boxes with a title and with buttons on their borders.
use crate::text::{chars_of, of_chars};
use crate::ui::cells::{add_span, bold, char_text, extend_spans, fits, glyphs, glyphs_of, ink,
    lines_view, mark_view, plain, repainted, same_grid, shaped, sp, spans_view, stamp, stamped,
    stamped_shape, written, Buffer, CellView, Color, Grid, Line, LineView, Mark, Rect, Span, Style};
use crate::ui::theme::Theme;
use crate::ui::width::{line_width, width_of};
use vstd::prelude::*;
use vstd::string::*;

verus! {

pub const H_LINE: char = '─';

pub const V_LINE: char = '│';

/// Dotted vertical: the divider of a gap.
pub const DOTTED_V: char = '╎';

/// The corners of a frame.
#[derive(Debug, Clone, Copy, PartialEq, Eq, Structural)]
pub struct BorderSet {
    pub top_left: char,
    pub top_right: char,
    pub bottom_left: char,
    pub bottom_right: char,
}

/// Round corners.
#[verifier::allow_in_spec]
pub fn rounded() -> BorderSet
    returns
        (BorderSet { top_left: '╭', top_right: '╮', bottom_left: '╰', bottom_right: '╯' }),
{
    BorderSet { top_left: '╭', top_right: '╮', bottom_left: '╰', bottom_right: '╯' }
}

/// Square corners.
#[verifier::allow_in_spec]
pub fn square() -> BorderSet
    returns
        (BorderSet { top_left: '┌', top_right: '┐', bottom_left: '└', bottom_right: '┘' }),
{
    BorderSet { top_left: '┌', top_right: '┐', bottom_left: '└', bottom_right: '┘' }
}

pub fn border_set(rounded: bool) -> (r: BorderSet)
    ensures
        r == if rounded {
            self::rounded()
        } else {
            square()
        },
{
    if rounded {
        self::rounded()
    } else {
        square()
    }
}

/// The glyphs around a title: inverted corners, which read as the border opening
/// around the text.
pub const TITLE_LEFT: char = '┐';

pub const TITLE_RIGHT: char = '┌';

pub const TITLE_LEFT_DOWN: char = '┘';

pub const TITLE_RIGHT_DOWN: char = '└';

pub const SUPERSCRIPT: [char; 10] = ['⁰', '¹', '²', '³', '⁴', '⁵', '⁶', '⁷', '⁸', '⁹'];

// ---- rows of text ----

/// The grid with a line written on row `y` from column `x` on, cut before `limit`.
pub open spec fn row_written(g: Grid, x: int, y: int, limit: int, line: LineView) -> Grid {
    let gl = glyphs(line);
    repainted(
        g,
        |a: int, b: int, c: CellView|
            if b == y && x <= a < limit && a - x < gl.len() {
                written(c, seq![gl[a - x].0], gl[a - x].1)
            } else {
                c
            },
    )
}

/// Writes a line on row `y` from column `x` on, cut before `limit`.
pub fn put_row(buf: &mut Buffer, x: u16, y: u16, limit: u16, spans: &Vec<Span>)
    requires
        limit <= old(buf).w(),
        y < old(buf).h(),
    ensures
        final(buf).w() == old(buf).w(),
        final(buf).h() == old(buf).h(),
        shaped(old(buf)@, old(buf).w() as int, old(buf).h() as int),
        shaped(final(buf)@, old(buf).w() as int, old(buf).h() as int),
        final(buf)@ == row_written(
            old(buf)@,
            x as int,
            y as int,
            limit as int,
            spans_view(spans@),
        ),
{
    let ghost g = buf@;
    let ghost line = spans_view(spans@);
    let w: u16 = buf.width();
    let h: u16 = buf.height();
    let ghost goal = row_written(g, x as int, y as int, limit as int, line);
    if x >= limit {
        proof {
            same_grid(g, goal, w as int, h as int);
        }
        return;
    }
    let gl = glyphs_of(spans);
    let ghost p = |a: int, b: int|
        if a < gl@.len() {
            Some((seq![gl@[a].0], gl@[a].1))
        } else {
            None::<(Seq<char>, Style)>
        };
    let f = |a: u16, b: u16| -> (m: Option<(String, Style)>)
        ensures
            mark_view(m) == p(a as int, b as int),
        {
            if (a as usize) < gl.len() {
                Some((char_text(gl[a as usize].0), gl[a as usize].1))
            } else {
                None
            }
        };
    let r = Rect { x, y, width: limit - x, height: 1 };
    stamp(buf, r, f, Ghost(p));
    proof {
        stamped_shape(g, r, p, w as int, h as int);
        same_grid(buf@, goal, w as int, h as int);
    }
}

// ---- boxes ----

/// What the border of a box of `w` by `h` cells shows; the inside is blank.
pub open spec fn border_mark(bs: BorderSet, style: Style, w: int, h: int, x: int, y: int) -> Mark {
    let c = if x == 0 && y == 0 {
        bs.top_left
    } else if x == w - 1 && y == 0 {
        bs.top_right
    } else if x == 0 && y == h - 1 {
        bs.bottom_left
    } else if x == w - 1 && y == h - 1 {
        bs.bottom_right
    } else if y == 0 || y == h - 1 {
        H_LINE
    } else if x == 0 || x == w - 1 {
        V_LINE
    } else {
        ' '
    };
    let edge = x == 0 || y == 0 || x == w - 1 || y == h - 1;
    Some(
        (
            seq![c],
            if edge {
                style
            } else {
                plain()
            },
        ),
    )
}

/// Two cells are the least that a frame takes either way.
pub open spec fn has_frame(r: Rect) -> bool {
    r.width >= 2 && r.height >= 2
}

/// The grid with a frame around `r`, its inside blank.
pub open spec fn framed(g: Grid, r: Rect, c: Color, bs: BorderSet) -> Grid {
    if has_frame(r) {
        stamped(
            g,
            r,
            |x: int, y: int| border_mark(bs, ink(c), r.width as int, r.height as int, x, y),
        )
    } else {
        g
    }
}

/// A button on a border: its text, and its distance from the left.
pub type ButtonView = (LineView, u16);

/// The buttons of a border.
pub open spec fn buttons_view(v: Seq<(Vec<Span>, u16)>) -> Seq<ButtonView> {
    v.map_values(|b: (Vec<Span>, u16)| (spans_view(b.0@), b.1))
}

/// Whether a title starts with a box number.
pub open spec fn numbered(title: Seq<char>) -> bool {
    title.len() > 0 && SUPERSCRIPT@.contains(title[0])
}

/// A title within its corners; a leading box number has the colour of the hotkeys.
pub open spec fn title_line(title: Seq<char>, style: Style, th: Theme) -> LineView {
    let number = if numbered(title) {
        seq![sp(seq![title[0]], ink(th.color("hi_fg"@)))]
    } else {
        Seq::empty()
    };
    let rest = if numbered(title) {
        title.drop_first()
    } else {
        title
    };
    seq![sp(seq![TITLE_LEFT], style)] + number + seq![
        sp(rest, bold(th.color("title"@))),
        sp(seq![TITLE_RIGHT], style),
    ]
}

/// A text within corners.
pub open spec fn cornered(left: char, line: LineView, right: char, style: Style) -> LineView {
    seq![sp(seq![left], style)] + line + seq![sp(seq![right], style)]
}

/// The grid with buttons on row `y`, from column `x` on, in order.
pub open spec fn buttons_put(
    g: Grid,
    v: Seq<ButtonView>,
    x: int,
    y: int,
    limit: int,
    left: char,
    right: char,
    style: Style,
) -> Grid
    decreases v.len(),
{
    if v.len() == 0 {
        g
    } else {
        let b = v.last();
        row_written(
            buttons_put(g, v.drop_last(), x, y, limit, left, right, style),
            x + b.1,
            y,
            limit,
            cornered(left, b.0, right, style),
        )
    }
}

/// The grid with a title and buttons on the borders of `r`.
pub open spec fn pane_decorated(
    g: Grid,
    r: Rect,
    key: Seq<char>,
    title: Option<Seq<char>>,
    tops: Seq<ButtonView>,
    bottoms: Seq<ButtonView>,
    th: Theme,
    w: int,
) -> Grid {
    if has_frame(r) {
        let style = ink(th.color(key));
        let titled = match title {
            Some(t) => row_written(g, r.x + 2, r.y as int, w, title_line(t, style, th)),
            None => g,
        };
        let topped = buttons_put(
            titled,
            tops,
            r.x as int,
            r.y as int,
            w,
            TITLE_LEFT,
            TITLE_RIGHT,
            style,
        );
        buttons_put(
            topped,
            bottoms,
            r.x as int,
            r.bottom_spec() - 1,
            w,
            TITLE_LEFT_DOWN,
            TITLE_RIGHT_DOWN,
            style,
        )
    } else {
        g
    }
}

/// The grid with a box on `r`: its frame, its title, and buttons on its borders.
pub open spec fn pane_drawn(
    g: Grid,
    r: Rect,
    key: Seq<char>,
    title: Option<Seq<char>>,
    tops: Seq<ButtonView>,
    bottoms: Seq<ButtonView>,
    th: Theme,
    bs: BorderSet,
    w: int,
) -> Grid {
    pane_decorated(framed(g, r, th.color(key), bs), r, key, title, tops, bottoms, th, w)
}

/// A box drawn with its own frame in the box's own colour, plus `┐text┌` buttons
/// punching holes in the top border and `┘text└` buttons in the bottom one, each at
/// its distance from the left.
pub struct Pane<'a> {
    pub rect: Rect,
    pub line_color_key: &'a str,
    /// Title text, including any leading superscript.
    pub title: Option<&'a str>,
    pub top_buttons: Vec<(Vec<Span>, u16)>,
    pub bottom_buttons: Vec<(Vec<Span>, u16)>,
}

/// The runs of a button: a bold hotkey and the rest of its label.
pub open spec fn button_line(hotkey: char, label: Seq<char>, th: Theme) -> LineView {
    seq![
        sp(seq![hotkey], bold(th.color("hi_fg"@))),
        sp(label.drop_first(), ink(th.color("title"@))),
    ]
}

/// The runs of a border button: the hotkey, then the label behind its first
/// character.
pub fn button_spans(hotkey: char, label: &str, th: &Theme) -> (r: Vec<Span>)
    requires
        label@.len() > 0,
        label@[0] <= '\u{7f}',
    ensures
        spans_view(r@) == button_line(hotkey, label@, *th),
{
    let mut out: Vec<Span> = Vec::new();
    let v = chars_of(label);
    let n: usize = v.len();
    let tail = of_chars(&v, 1, n);
    assert(tail@ =~= label@.drop_first());
    add_span(&mut out, char_text(hotkey).as_str(), bold(th.c("hi_fg")));
    add_span(&mut out, tail.as_str(), ink(th.c("title")));
    assert(spans_view(out@) =~= button_line(hotkey, label@, *th));
    out
}

/// Whether `c` is a box number.
fn is_superscript(c: char) -> (r: bool)
    ensures
        r == SUPERSCRIPT@.contains(c),
{
    let mut i: usize = 0;
    while i < 10
        invariant
            i <= 10,
            forall|j: int| 0 <= j < i ==> SUPERSCRIPT@[j] != c,
        decreases 10 - i,
    {
        if SUPERSCRIPT[i] == c {
            assert(SUPERSCRIPT@[i as int] == c);
            return true;
        }
        i += 1;
    }
    false
}

/// A title within its corners.
fn title_spans(title: &str, style: Style, th: &Theme) -> (r: Vec<Span>)
    ensures
        spans_view(r@) == title_line(title@, style, *th),
{
    let mut out: Vec<Span> = Vec::new();
    let v = chars_of(title);
    let n: usize = v.len();
    add_span(&mut out, char_text(TITLE_LEFT).as_str(), style);
    let mut from: usize = 0;
    if n > 0 && is_superscript(v[0]) {
        add_span(&mut out, char_text(v[0]).as_str(), ink(th.c("hi_fg")));
        from = 1;
    }
    let rest = of_chars(&v, from, n);
    assert(v@.subrange(0, n as int) =~= title@);
    assert(from == 1 ==> v@.subrange(1, n as int) =~= title@.drop_first());
    add_span(&mut out, rest.as_str(), bold(th.c("title")));
    add_span(&mut out, char_text(TITLE_RIGHT).as_str(), style);
    assert(spans_view(out@) =~= title_line(title@, style, *th));
    out
}

/// A copy of a line.
pub fn copy_spans(spans: &Vec<Span>) -> (r: Vec<Span>)
    ensures
        spans_view(r@) == spans_view(spans@),
{
    let ghost all = spans_view(spans@);
    let mut out: Vec<Span> = Vec::new();
    let n: usize = spans.len();
    let mut i: usize = 0;
    assert(spans_view(out@) =~= all.take(0));
    while i < n
        invariant
            i <= n,
            n == spans@.len(),
            all == spans_view(spans@),
            spans_view(out@) == all.take(i as int),
        decreases n - i,
    {
        add_span(&mut out, spans[i].content.as_str(), spans[i].style);
        i += 1;
        assert(spans_view(out@) =~= all.take(i as int));
    }
    assert(all.take(n as int) =~= all);
    out
}

/// A text within corners.
fn with_corners(left: char, spans: &Vec<Span>, right: char, style: Style) -> (r: Vec<Span>)
    ensures
        spans_view(r@) == cornered(left, spans_view(spans@), right, style),
{
    let mut out: Vec<Span> = Vec::new();
    add_span(&mut out, char_text(left).as_str(), style);
    extend_spans(&mut out, copy_spans(spans));
    add_span(&mut out, char_text(right).as_str(), style);
    assert(spans_view(out@) =~= cornered(left, spans_view(spans@), right, style));
    out
}

/// Puts the buttons on row `y`, from column `x` on.
fn put_buttons(
    buf: &mut Buffer,
    buttons: &Vec<(Vec<Span>, u16)>,
    x: u16,
    y: u16,
    left: char,
    right: char,
    style: Style,
)
    requires
        y < old(buf).h(),
        forall|i: int| 0 <= i < buttons@.len() ==> x + (#[trigger] buttons@[i]).1 <= u16::MAX,
    ensures
        final(buf).w() == old(buf).w(),
        final(buf).h() == old(buf).h(),
        shaped(old(buf)@, old(buf).w() as int, old(buf).h() as int),
        shaped(final(buf)@, old(buf).w() as int, old(buf).h() as int),
        final(buf)@ == buttons_put(
            old(buf)@,
            buttons_view(buttons@),
            x as int,
            y as int,
            old(buf).w() as int,
            left,
            right,
            style,
        ),
{
    let ghost all = buttons_view(buttons@);
    let ghost g = buf@;
    let w: u16 = buf.width();
    let h: u16 = buf.height();
    let n: usize = buttons.len();
    let mut i: usize = 0;
    assert(all.take(0) =~= Seq::empty());
    while i < n
        invariant
            i <= n,
            n == buttons@.len(),
            all == buttons_view(buttons@),
            buf.w() == w,
            buf.h() == h,
            y < h,
            shaped(g, w as int, h as int),
            shaped(buf@, w as int, h as int),
            forall|j: int| 0 <= j < buttons@.len() ==> x + (#[trigger] buttons@[j]).1 <= u16::MAX,
            buf@ == buttons_put(
                g,
                all.take(i as int),
                x as int,
                y as int,
                w as int,
                left,
                right,
                style,
            ),
        decreases n - i,
    {
        assert(all.take(i + 1).drop_last() =~= all.take(i as int));
        let b = &buttons[i];
        let spans = with_corners(left, &b.0, right, style);
        put_row(buf, x + b.1, y, w, &spans);
        i += 1;
    }
    assert(all.take(n as int) =~= all);
}

impl<'a> Pane<'a> {
    /// Whether the pane lies on the screen, and no button lies off the coordinates.
    pub open spec fn placed(self, w: u16, h: u16) -> bool {
        &&& fits(self.rect, w, h)
        &&& forall|i: int|
            0 <= i < self.top_buttons@.len() ==> self.rect.x + (#[trigger] self.top_buttons@[i]).1
                <= u16::MAX
        &&& forall|i: int|
            0 <= i < self.bottom_buttons@.len() ==> self.rect.x + (
            #[trigger] self.bottom_buttons@[i]).1 <= u16::MAX
    }

    /// The grid with the title and the buttons of the pane on its borders.
    pub open spec fn decorated(self, g: Grid, th: Theme, w: int) -> Grid {
        pane_decorated(
            g,
            self.rect,
            self.line_color_key@,
            match self.title {
                Some(t) => Some(t@),
                None => None,
            },
            buttons_view(self.top_buttons@),
            buttons_view(self.bottom_buttons@),
            th,
            w,
        )
    }

    /// The grid with the pane drawn on it.
    pub open spec fn drawn(self, g: Grid, th: Theme, bs: BorderSet, w: int) -> Grid {
        self.decorated(framed(g, self.rect, th.color(self.line_color_key@), bs), th, w)
    }

    /// Draws the frame and what stands on it. Boxes are drawn in order, each a
    /// complete frame of its own; there are no merged borders.
    pub fn render(&self, buf: &mut Buffer, th: &Theme, bs: &BorderSet)
        requires
            self.placed(old(buf).w(), old(buf).h()),
        ensures
            final(buf).w() == old(buf).w(),
            final(buf).h() == old(buf).h(),
            shaped(old(buf)@, old(buf).w() as int, old(buf).h() as int),
            shaped(final(buf)@, old(buf).w() as int, old(buf).h() as int),
            final(buf)@ == self.drawn(old(buf)@, *th, *bs, old(buf).w() as int),
    {
        self.frame(buf, th, bs);
        self.decorations(buf, th);
    }

    /// Draws the border: lines, corners, blank interior.
    pub fn frame(&self, buf: &mut Buffer, th: &Theme, bs: &BorderSet)
        requires
            fits(self.rect, old(buf).w(), old(buf).h()),
        ensures
            final(buf).w() == old(buf).w(),
            final(buf).h() == old(buf).h(),
            shaped(old(buf)@, old(buf).w() as int, old(buf).h() as int),
            shaped(final(buf)@, old(buf).w() as int, old(buf).h() as int),
            final(buf)@ == framed(
                old(buf)@,
                self.rect,
                th.color(self.line_color_key@),
                *bs,
            ),
    {
        let w0: u16 = buf.width();
        let r = self.rect;
        if r.width < 2 || r.height < 2 {
            return;
        }
        let c = th.c(self.line_color_key);
        let style = ink(c);
        let set = *bs;
        let ghost p = |x: int, y: int|
            border_mark(set, style, r.width as int, r.height as int, x, y);
        let f = |x: u16, y: u16| -> (m: Option<(String, Style)>)
            requires
                r.width >= 2,
                r.height >= 2,
            ensures
                mark_view(m) == p(x as int, y as int),
            {
                let left = x == 0;
                let right = x == r.width - 1;
                let top = y == 0;
                let bottom = y == r.height - 1;
                let c = if left && top {
                    set.top_left
                } else if right && top {
                    set.top_right
                } else if left && bottom {
                    set.bottom_left
                } else if right && bottom {
                    set.bottom_right
                } else if top || bottom {
                    H_LINE
                } else if left || right {
                    V_LINE
                } else {
                    ' '
                };
                let s = if left || right || top || bottom {
                    style
                } else {
                    plain()
                };
                Some((char_text(c), s))
            };
        stamp(buf, r, f, Ghost(p));
        assert(p =~= (|x: int, y: int|
            border_mark(*bs, ink(c), r.width as int, r.height as int, x, y)));
    }

    /// Title and border buttons; called after `frame`.
    pub fn decorations(&self, buf: &mut Buffer, th: &Theme)
        requires
            self.placed(old(buf).w(), old(buf).h()),
        ensures
            final(buf).w() == old(buf).w(),
            final(buf).h() == old(buf).h(),
            shaped(old(buf)@, old(buf).w() as int, old(buf).h() as int),
            shaped(final(buf)@, old(buf).w() as int, old(buf).h() as int),
            final(buf)@ == self.decorated(old(buf)@, *th, old(buf).w() as int),
    {
        let r = self.rect;
        let w: u16 = buf.width();
        if r.width < 2 || r.height < 2 {
            return;
        }
        let style = ink(th.c(self.line_color_key));
        if let Some(title) = self.title {
            let spans = title_spans(title, style, th);
            put_row(buf, r.x + 2, r.y, w, &spans);
        }
        put_buttons(buf, &self.top_buttons, r.x, r.y, TITLE_LEFT, TITLE_RIGHT, style);
        put_buttons(
            buf,
            &self.bottom_buttons,
            r.x,
            r.y + (r.height - 1),
            TITLE_LEFT_DOWN,
            TITLE_RIGHT_DOWN,
            style,
        );
    }
}

// ---- text inside a box ----

/// What column `x` of a line shows; behind its end blanks.
pub open spec fn line_cell(c: CellView, line: LineView, x: int) -> CellView {
    let gl = glyphs(line);
    if x < gl.len() {
        written(c, seq![gl[x].0], gl[x].1)
    } else {
        written(c, seq![' '], plain())
    }
}

/// The grid with lines written on the inside of `r`, from its first row on. The
/// rows of the lines are filled up with blanks.
pub open spec fn lines_written(g: Grid, r: Rect, lines: Seq<LineView>) -> Grid {
    repainted(
        g,
        |x: int, y: int, c: CellView|
            if r.x + 1 <= x < r.right_spec() - 1 && r.y + 1 <= y < r.bottom_spec() - 1 && y - r.y - 1
                < lines.len() {
                line_cell(c, lines[y - r.y - 1], x - r.x - 1)
            } else {
                c
            },
    )
}

/// The characters of the first `n` lines.
fn glyph_rows(lines: &Vec<Line>, n: usize) -> (r: Vec<Vec<(char, Style)>>)
    requires
        n <= lines@.len(),
    ensures
        r@.len() == n,
        forall|i: int| 0 <= i < n ==> (#[trigger] r@[i])@ == glyphs(lines_view(lines@)[i]),
{
    let mut out: Vec<Vec<(char, Style)>> = Vec::new();
    let mut i: usize = 0;
    while i < n
        invariant
            i <= n <= lines@.len(),
            out@.len() == i,
            forall|j: int| 0 <= j < i ==> (#[trigger] out@[j])@ == glyphs(lines_view(lines@)[j]),
        decreases n - i,
    {
        out.push(glyphs_of(&lines[i].spans));
        i += 1;
    }
    out
}

/// Renders `lines` into the interior of a framed rect, overwriting the frame's
/// blank interior. Cells past a line's end are reset to spaces so content never
/// bleeds from a previous frame.
pub fn write_lines(buf: &mut Buffer, r: Rect, lines: &Vec<Line>)
    requires
        fits(r, old(buf).w(), old(buf).h()),
    ensures
        final(buf).w() == old(buf).w(),
        final(buf).h() == old(buf).h(),
        shaped(old(buf)@, old(buf).w() as int, old(buf).h() as int),
        shaped(final(buf)@, old(buf).w() as int, old(buf).h() as int),
        final(buf)@ == lines_written(old(buf)@, r, lines_view(lines@)),
{
    let ghost g = buf@;
    let ghost all = lines_view(lines@);
    let ghost goal = lines_written(g, r, all);
    let w: u16 = buf.width();
    let h: u16 = buf.height();
    if r.width <= 2 || r.height <= 2 {
        proof {
            same_grid(g, goal, w as int, h as int);
        }
        return;
    }
    let n: usize = if lines.len() < (r.height - 2) as usize {
        lines.len()
    } else {
        (r.height - 2) as usize
    };
    let rows = glyph_rows(lines, n);
    let ghost p = |x: int, y: int|
        if x < rows@[y]@.len() {
            Some((seq![rows@[y]@[x].0], rows@[y]@[x].1))
        } else {
            Some((seq![' '], plain()))
        };
    let f = |x: u16, y: u16| -> (m: Option<(String, Style)>)
        requires
            y < rows@.len(),
        ensures
            mark_view(m) == p(x as int, y as int),
        {
            let row = &rows[y as usize];
            if (x as usize) < row.len() {
                Some((char_text(row[x as usize].0), row[x as usize].1))
            } else {
                Some((char_text(' '), plain()))
            }
        };
    let part = Rect { x: r.x + 1, y: r.y + 1, width: r.width - 2, height: n as u16 };
    stamp(buf, part, f, Ghost(p));
    proof {
        stamped_shape(g, part, p, w as int, h as int);
        same_grid(buf@, goal, w as int, h as int);
    }
}

/// The column from which a line of `width` columns stands in the middle of `r`.
pub open spec fn middle(r: Rect, width: nat) -> int {
    if width < r.width {
        r.x + (r.width - width) / 2
    } else {
        r.x as int
    }
}

/// The grid with a line of `width` columns in the middle of row `y` of `r`.
pub open spec fn centered_put_at(g: Grid, r: Rect, y: int, line: LineView, width: nat) -> Grid {
    if r.width == 0 || y >= r.bottom_spec() {
        g
    } else {
        row_written(g, middle(r, width), y, r.right_spec(), line)
    }
}

/// The grid with a line in the middle of row `y` of `r`.
pub open spec fn centered_put(g: Grid, r: Rect, y: int, line: LineView) -> Grid {
    centered_put_at(g, r, y, line, line_width(line))
}

/// Writes a line of `width` columns in the middle of row `y` of `r`.
pub fn centered_at(buf: &mut Buffer, r: Rect, y: u16, line: &Line, width: usize)
    requires
        fits(r, old(buf).w(), old(buf).h()),
    ensures
        final(buf).w() == old(buf).w(),
        final(buf).h() == old(buf).h(),
        shaped(old(buf)@, old(buf).w() as int, old(buf).h() as int),
        shaped(final(buf)@, old(buf).w() as int, old(buf).h() as int),
        final(buf)@ == centered_put_at(old(buf)@, r, y as int, line@, width as nat),
{
    let w0: u16 = buf.width();
    if r.width == 0 || y >= r.bottom() {
        return;
    }
    let mut x: u16 = r.x;
    if width < r.width as usize {
        x = r.x + (r.width - width as u16) / 2;
    }
    put_row(buf, x, y, r.right(), &line.spans);
}

/// Writes a line in the middle of row `y` of `r`.
pub fn centered(buf: &mut Buffer, r: Rect, y: u16, line: &Line)
    requires
        fits(r, old(buf).w(), old(buf).h()),
    ensures
        final(buf).w() == old(buf).w(),
        final(buf).h() == old(buf).h(),
        shaped(old(buf)@, old(buf).w() as int, old(buf).h() as int),
        shaped(final(buf)@, old(buf).w() as int, old(buf).h() as int),
        final(buf)@ == centered_put(old(buf)@, r, y as int, line@),
{
    let w: usize = width_of(&line.spans);
    centered_at(buf, r, y, line, w);
}

/// The inside of `r` below `n` lines of text; nothing where no cell is left.
pub open spec fn rest_of(r: Rect, n: int) -> Rect {
    if r.width <= 2 || r.height - 2 <= n {
        Rect { x: 0, y: 0, width: 0, height: 0 }
    } else {
        Rect {
            x: (r.x + 1) as u16,
            y: (r.y + 1 + n) as u16,
            width: (r.width - 2) as u16,
            height: (r.height - 2 - n) as u16,
        }
    }
}

/// The inside of `r` below `n` lines of text.
pub fn below(r: Rect, n: usize, buf: &Buffer) -> (g: Rect)
    requires
        fits(r, buf.w(), buf.h()),
    ensures
        g == rest_of(r, n as int),
        fits(g, buf.w(), buf.h()),
{
    if r.width <= 2 || r.height <= 2 || (r.height - 2) as usize <= n {
        Rect { x: 0, y: 0, width: 0, height: 0 }
    } else {
        Rect {
            x: r.x + 1,
            y: r.y + 1 + n as u16,
            width: r.width - 2,
            height: r.height - 2 - n as u16,
        }
    }
}

// ---- laws ----

/// Nothing bleeds through the rows of a text: what their cells show does not depend
/// on what stood there.
pub proof fn written_rows_hide_what_was(
    a: Grid,
    b: Grid,
    r: Rect,
    lines: Seq<LineView>,
    w: int,
    h: int,
    x: int,
    y: int,
)
    requires
        shaped(a, w, h),
        shaped(b, w, h),
        0 <= x < w,
        0 <= y < h,
        r.x + 1 <= x < r.right_spec() - 1,
        r.y + 1 <= y < r.bottom_spec() - 1,
        y - r.y - 1 < lines.len(),
    ensures
        lines_written(a, r, lines)[y][x].symbol == lines_written(b, r, lines)[y][x].symbol,
{
}

/// Text inside a box never touches its frame, nor anything outside the box.
pub proof fn text_stays_inside(
    g: Grid,
    r: Rect,
    lines: Seq<LineView>,
    w: int,
    h: int,
    x: int,
    y: int,
)
    requires
        shaped(g, w, h),
        0 <= x < w,
        0 <= y < h,
        !(r.x + 1 <= x < r.right_spec() - 1 && r.y + 1 <= y < r.bottom_spec() - 1),
    ensures
        lines_written(g, r, lines)[y][x] == g[y][x],
{
}

}
