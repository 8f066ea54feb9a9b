//! The screen: a grid of styled cells, and the text that is written on it.
use vstd::prelude::*;
use vstd::string::*;

verus! {

/// A part of the screen, by its upper left corner and its size.
#[derive(Debug, Clone, Copy, PartialEq, Eq, Structural)]
pub struct Rect {
    pub x: u16,
    pub y: u16,
    pub width: u16,
    pub height: u16,
}

impl Default for Rect {
    fn default() -> (r: Self)
        ensures
            r == (Rect { x: 0, y: 0, width: 0, height: 0 }),
    {
        Rect { x: 0, y: 0, width: 0, height: 0 }
    }
}

impl Rect {
    /// The part of `width` by `height` cells at (`x`, `y`), cut at the largest
    /// coordinate.
    pub fn new(x: u16, y: u16, width: u16, height: u16) -> (r: Self)
        ensures
            r.x == x,
            r.y == y,
            r.width == if x + width > u16::MAX {
                u16::MAX - x
            } else {
                width as int
            },
            r.height == if y + height > u16::MAX {
                u16::MAX - y
            } else {
                height as int
            },
    {
        let w: u16 = if width > u16::MAX - x {
            u16::MAX - x
        } else {
            width
        };
        let h: u16 = if height > u16::MAX - y {
            u16::MAX - y
        } else {
            height
        };
        Rect { x, y, width: w, height: h }
    }

    /// The column behind the last one.
    pub open spec fn right_spec(self) -> int {
        self.x + self.width
    }

    /// The row behind the last one.
    pub open spec fn bottom_spec(self) -> int {
        self.y + self.height
    }

    pub fn left(&self) -> (r: u16)
        ensures
            r == self.x,
    {
        self.x
    }

    pub fn top(&self) -> (r: u16)
        ensures
            r == self.y,
    {
        self.y
    }

    /// The column behind the last one, held to the largest coordinate.
    pub fn right(&self) -> (r: u16)
        ensures
            r == if self.right_spec() > u16::MAX {
                u16::MAX as int
            } else {
                self.right_spec()
            },
    {
        self.x.saturating_add(self.width)
    }

    /// The row behind the last one, held to the largest coordinate.
    pub fn bottom(&self) -> (r: u16)
        ensures
            r == if self.bottom_spec() > u16::MAX {
                u16::MAX as int
            } else {
                self.bottom_spec()
            },
    {
        self.y.saturating_add(self.height)
    }

    /// The number of cells.
    pub fn area(&self) -> (r: u32)
        ensures
            r == self.width * self.height,
    {
        assert(self.width * self.height <= 0xffff * 0xffff) by (nonlinear_arith)
            requires
                self.width <= 0xffff,
                self.height <= 0xffff,
        ;
        self.width as u32 * self.height as u32
    }
}

/// A colour as the terminal shows it.
#[derive(Debug, Clone, Copy, PartialEq, Eq, Structural)]
pub enum Color {
    /// The terminal's own colour.
    Reset,
    Red,
    Rgb(u8, u8, u8),
    Indexed(u8),
}

/// What writing changes of a cell beside its symbol: the colours that are given,
/// and the attributes that are switched on.
#[derive(Debug, Clone, Copy, PartialEq, Eq, Structural)]
pub struct Style {
    pub fg: Option<Color>,
    pub bg: Option<Color>,
    pub bold: bool,
    pub italic: bool,
    pub dim: bool,
}

impl Default for Style {
    fn default() -> (r: Self)
        ensures
            r == plain(),
    {
        plain()
    }
}

/// Nothing changes.
#[verifier::allow_in_spec]
pub fn plain() -> Style
    returns
        (Style { fg: None, bg: None, bold: false, italic: false, dim: false }),
{
    Style { fg: None, bg: None, bold: false, italic: false, dim: false }
}

/// In the colour `c`.
#[verifier::allow_in_spec]
pub fn ink(c: Color) -> Style
    returns
        (Style { fg: Some(c), bg: None, bold: false, italic: false, dim: false }),
{
    Style { fg: Some(c), bg: None, bold: false, italic: false, dim: false }
}

/// Bold, in the colour `c`.
#[verifier::allow_in_spec]
pub fn bold(c: Color) -> Style
    returns
        (Style { fg: Some(c), bg: None, bold: true, italic: false, dim: false }),
{
    Style { fg: Some(c), bg: None, bold: true, italic: false, dim: false }
}

/// Italic, in the colour `c`.
#[verifier::allow_in_spec]
pub fn italic(c: Color) -> Style
    returns
        (Style { fg: Some(c), bg: None, bold: false, italic: true, dim: false }),
{
    Style { fg: Some(c), bg: None, bold: false, italic: true, dim: false }
}

/// On the colour `c`.
#[verifier::allow_in_spec]
pub fn ground(c: Color) -> Style
    returns
        (Style { fg: None, bg: Some(c), bold: false, italic: false, dim: false }),
{
    Style { fg: None, bg: Some(c), bold: false, italic: false, dim: false }
}

// ---- text ----

/// A run of text in one style.
#[derive(Debug)]
pub struct Span {
    pub content: String,
    pub style: Style,
}

/// A run of text in one style.
#[verifier::ext_equal]
pub struct SpanView {
    pub text: Seq<char>,
    pub style: Style,
}

impl View for Span {
    type V = SpanView;

    open spec fn view(&self) -> SpanView {
        SpanView { text: self.content@, style: self.style }
    }
}

/// A line of text: its runs in order.
pub type LineView = Seq<SpanView>;

/// The runs of a line.
pub open spec fn spans_view(v: Seq<Span>) -> LineView {
    v.map_values(|s: Span| s@)
}

/// A line of text.
#[derive(Debug)]
pub struct Line {
    pub spans: Vec<Span>,
}

impl View for Line {
    type V = LineView;

    open spec fn view(&self) -> LineView {
        spans_view(self.spans@)
    }
}

/// The lines of a text.
pub open spec fn lines_view(v: Seq<Line>) -> Seq<LineView> {
    v.map_values(|l: Line| l@)
}

/// The run `text` in `style`.
pub open spec fn sp(text: Seq<char>, style: Style) -> SpanView {
    SpanView { text, style }
}

/// The run `text` in `style`.
pub fn span(text: &str, style: Style) -> (r: Span)
    ensures
        r@ == sp(text@, style),
{
    Span { content: text.to_owned(), style }
}

/// Adds the run `text` in `style` to a line.
pub fn add_span(line: &mut Vec<Span>, text: &str, style: Style)
    ensures
        spans_view(final(line)@) == spans_view(old(line)@).push(sp(text@, style)),
{
    line.push(span(text, style));
    assert(spans_view(line@) =~= spans_view(old(line)@).push(sp(text@, style)));
}

/// Adds a run to a line.
pub fn push_span(line: &mut Vec<Span>, s: Span)
    ensures
        spans_view(final(line)@) == spans_view(old(line)@).push(s@),
{
    let ghost sv = s@;
    line.push(s);
    assert(spans_view(line@) =~= spans_view(old(line)@).push(sv));
}

/// Adds the runs of `more` to a line.
pub fn extend_spans(line: &mut Vec<Span>, more: Vec<Span>)
    ensures
        spans_view(final(line)@) == spans_view(old(line)@) + spans_view(more@),
{
    let n: usize = more.len();
    let mut i: usize = 0;
    assert(spans_view(line@) =~= spans_view(old(line)@) + spans_view(more@).take(0));
    while i < n
        invariant
            i <= n,
            n == more@.len(),
            spans_view(line@) == spans_view(old(line)@) + spans_view(more@).take(i as int),
        decreases n - i,
    {
        add_span(line, more[i].content.as_str(), more[i].style);
        i += 1;
        assert(spans_view(line@) =~= spans_view(old(line)@) + spans_view(more@).take(i as int));
    }
    assert(spans_view(more@).take(n as int) =~= spans_view(more@));
}

/// Adds a line to a text.
pub fn push_line(lines: &mut Vec<Line>, spans: Vec<Span>)
    ensures
        lines_view(final(lines)@) == lines_view(old(lines)@).push(spans_view(spans@)),
{
    let l = Line { spans };
    let ghost lv = l@;
    lines.push(l);
    assert(lines_view(lines@) =~= lines_view(old(lines)@).push(lv));
}

/// The characters of a line, each with its style.
pub open spec fn glyphs(line: LineView) -> Seq<(char, Style)>
    decreases line.len(),
{
    if line.len() == 0 {
        Seq::empty()
    } else {
        let s = line.last();
        glyphs(line.drop_last()) + s.text.map_values(|c: char| (c, s.style))
    }
}

/// The characters of a line, each with its style.
pub fn glyphs_of(spans: &Vec<Span>) -> (r: Vec<(char, Style)>)
    ensures
        r@ == glyphs(spans_view(spans@)),
{
    let ghost all = spans_view(spans@);
    let mut out: Vec<(char, Style)> = Vec::new();
    let n: usize = spans.len();
    let mut i: usize = 0;
    assert(all.take(0) =~= Seq::empty());
    while i < n
        invariant
            i <= n,
            n == spans@.len(),
            all == spans_view(spans@),
            out@ == glyphs(all.take(i as int)),
        decreases n - i,
    {
        assert(all.take(i + 1).drop_last() =~= all.take(i as int));
        let s = &spans[i];
        let style = s.style;
        let ghost before = out@;
        let ghost tail = s@.text.map_values(|c: char| (c, style));
        let v = crate::text::chars_of(s.content.as_str());
        let k: usize = v.len();
        let mut j: usize = 0;
        assert(out@ =~= before + tail.take(0));
        while j < k
            invariant
                j <= k,
                k == v@.len(),
                tail == v@.map_values(|c: char| (c, style)),
                out@ == before + tail.take(j as int),
            decreases k - j,
        {
            out.push((v[j], style));
            j += 1;
            assert(out@ =~= before + tail.take(j as int));
        }
        assert(tail.take(k as int) =~= tail);
        i += 1;
    }
    assert(all.take(n as int) =~= all);
    out
}

// ---- the grid ----

/// One cell of the screen.
#[derive(Debug)]
pub struct Cell {
    pub symbol: String,
    pub fg: Color,
    pub bg: Color,
    pub bold: bool,
    pub italic: bool,
    pub dim: bool,
}

/// What a cell shows.
#[verifier::ext_equal]
pub struct CellView {
    pub symbol: Seq<char>,
    pub fg: Color,
    pub bg: Color,
    pub bold: bool,
    pub italic: bool,
    pub dim: bool,
}

impl View for Cell {
    type V = CellView;

    open spec fn view(&self) -> CellView {
        CellView {
            symbol: self.symbol@,
            fg: self.fg,
            bg: self.bg,
            bold: self.bold,
            italic: self.italic,
            dim: self.dim,
        }
    }
}

/// A cell on which nothing was written.
pub open spec fn blank_cell() -> CellView {
    CellView {
        symbol: seq![' '],
        fg: Color::Reset,
        bg: Color::Reset,
        bold: false,
        italic: false,
        dim: false,
    }
}

/// The cell in `s`: the colours that are given change, attributes only come on.
pub open spec fn styled(c: CellView, s: Style) -> CellView {
    CellView {
        symbol: c.symbol,
        fg: match s.fg {
            Some(x) => x,
            None => c.fg,
        },
        bg: match s.bg {
            Some(x) => x,
            None => c.bg,
        },
        bold: c.bold || s.bold,
        italic: c.italic || s.italic,
        dim: c.dim || s.dim,
    }
}

/// The cell with `symbol` written on it in `s`.
pub open spec fn written(c: CellView, symbol: Seq<char>, s: Style) -> CellView {
    CellView { symbol, ..styled(c, s) }
}

/// The rows of the screen, from the top; the cells of a row from the left.
pub type Grid = Seq<Seq<CellView>>;

/// Whether the grid has `h` rows of `w` cells.
pub open spec fn shaped(g: Grid, w: int, h: int) -> bool {
    g.len() == h && forall|y: int| 0 <= y < h ==> (#[trigger] g[y]).len() == w
}

/// The grid with every cell put through `f`, which is given its place.
pub open spec fn repainted(g: Grid, f: spec_fn(int, int, CellView) -> CellView) -> Grid {
    Seq::new(g.len(), |y: int| Seq::new(g[y].len(), |x: int| f(x, y, g[y][x])))
}

/// The grid with one cell put through `f`.
pub open spec fn touched(g: Grid, x: int, y: int, c: CellView) -> Grid {
    g.update(y, g[y].update(x, c))
}

/// The screen.
pub struct Buffer {
    width: u16,
    height: u16,
    cells: Vec<Cell>,
}

impl Buffer {
    #[verifier::type_invariant]
    spec fn wf(self) -> bool {
        self.cells@.len() == self.width * self.height
    }

    pub closed spec fn w(self) -> u16 {
        self.width
    }

    pub closed spec fn h(self) -> u16 {
        self.height
    }

    /// The whole screen.
    pub open spec fn whole(self) -> Rect {
        Rect { x: 0, y: 0, width: self.w(), height: self.h() }
    }
}

impl View for Buffer {
    type V = Grid;

    closed spec fn view(&self) -> Grid {
        Seq::new(
            self.height as nat,
            |y: int| Seq::new(self.width as nat, |x: int| self.cells@[y * self.width + x]@),
        )
    }
}

/// Whether `r` lies on a screen of `w` by `h` cells.
pub open spec fn fits(r: Rect, w: u16, h: u16) -> bool {
    r.right_spec() <= w && r.bottom_spec() <= h
}

pub(crate) proof fn place_bounds(x: int, y: int, w: int, h: int)
    requires
        0 <= x < w,
        0 <= y < h,
    ensures
        0 <= y * w + x < w * h,
{
    assert(0 <= y * w + x < w * h) by (nonlinear_arith)
        requires
            0 <= x < w,
            0 <= y < h,
    ;
}

proof fn places_differ(x: int, y: int, a: int, b: int, w: int)
    requires
        0 <= x < w,
        0 <= a < w,
        x != a || y != b,
    ensures
        y * w + x != b * w + a,
{
    if y < b {
        assert(y * w + w <= b * w) by (nonlinear_arith)
            requires
                y + 1 <= b,
                w > 0,
        ;
    } else if b < y {
        assert(b * w + w <= y * w) by (nonlinear_arith)
            requires
                b + 1 <= y,
                w > 0,
        ;
    }
}

impl Buffer {
    /// A screen on which nothing is written.
    pub fn empty(width: u16, height: u16) -> (r: Self)
        ensures
            r.w() == width,
            r.h() == height,
            shaped(r@, width as int, height as int),
            r@ == Seq::new(height as nat, |y: int| Seq::new(width as nat, |x: int| blank_cell())),
    {
        let mut cells: Vec<Cell> = Vec::new();
        assert(width * height <= 0xffff * 0xffff) by (nonlinear_arith)
            requires
                width <= 0xffff,
                height <= 0xffff,
        ;
        let n: u32 = width as u32 * height as u32;
        let mut i: u32 = 0;
        while i < n
            invariant
                i <= n,
                cells@.len() == i,
                forall|j: int| 0 <= j < i ==> (#[trigger] cells@[j])@ == blank_cell(),
            decreases n - i,
        {
            let mut symbol = String::new();
            symbol.push(' ');
            let c = Cell {
                symbol,
                fg: Color::Reset,
                bg: Color::Reset,
                bold: false,
                italic: false,
                dim: false,
            };
            assert(c@.symbol =~= seq![' ']);
            cells.push(c);
            i += 1;
        }
        let r = Buffer { width, height, cells };
        proof {
            assert forall|x: int, y: int| 0 <= x < width && 0 <= y < height implies #[trigger] r@[y][x]
                == blank_cell() by {
                place_bounds(x, y, width as int, height as int);
                assert(r.cells@[y * width + x]@ == blank_cell());
            }
            assert(r@ =~~= Seq::new(
                height as nat,
                |y: int| Seq::new(width as nat, |x: int| blank_cell()),
            ));
        }
        r
    }

    pub fn width(&self) -> (r: u16)
        ensures
            r == self.w(),
            shaped(self@, self.w() as int, self.h() as int),
    {
        self.width
    }

    pub fn height(&self) -> (r: u16)
        ensures
            r == self.h(),
            shaped(self@, self.w() as int, self.h() as int),
    {
        self.height
    }

    /// The cell at (`x`, `y`), where it is on the screen.
    pub fn cell(&self, x: u16, y: u16) -> (r: Option<&Cell>)
        ensures
            shaped(self@, self.w() as int, self.h() as int),
            r is Some == (x < self.w() && y < self.h()),
            r matches Some(c) ==> c@ == self@[y as int][x as int],
    {
        if x >= self.width || y >= self.height {
            return None;
        }
        proof {
            use_type_invariant(self);
            place_bounds(x as int, y as int, self.width as int, self.height as int);
            assert(self.width * self.height <= 0xffff * 0xffff) by (nonlinear_arith)
                requires
                    self.width <= 0xffff,
                    self.height <= 0xffff,
            ;
        }
        Some(&self.cells[(y as u32 * self.width as u32 + x as u32) as usize])
    }

    /// Replaces the cell at (`x`, `y`).
    fn replace(&mut self, x: u16, y: u16, c: Cell)
        requires
            x < old(self).w(),
            y < old(self).h(),
        ensures
            final(self).w() == old(self).w(),
            final(self).h() == old(self).h(),
            shaped(final(self)@, old(self).w() as int, old(self).h() as int),
            final(self)@ == touched(old(self)@, x as int, y as int, c@),
    {
        proof {
            use_type_invariant(&*self);
            place_bounds(x as int, y as int, self.width as int, self.height as int);
            assert(self.width * self.height <= 0xffff * 0xffff) by (nonlinear_arith)
                requires
                    self.width <= 0xffff,
                    self.height <= 0xffff,
            ;
        }
        let ghost cv = c@;
        let at: usize = (y as u32 * self.width as u32 + x as u32) as usize;
        self.cells[at] = c;
        proof {
            let g = touched(old(self)@, x as int, y as int, cv);
            assert forall|a: int, b: int|
                0 <= a < self.width && 0 <= b < self.height implies #[trigger] self@[b][a]
                == g[b][a] by {
                place_bounds(a, b, self.width as int, self.height as int);
                if a != x || b != y {
                    places_differ(a, b, x as int, y as int, self.width as int);
                }
            }
            assert(self@ =~~= g);
        }
    }

    /// Writes `symbol` on the cell at (`x`, `y`) in `style`.
    pub fn put(&mut self, x: u16, y: u16, symbol: &str, style: Style)
        requires
            x < old(self).w(),
            y < old(self).h(),
        ensures
            final(self).w() == old(self).w(),
            final(self).h() == old(self).h(),
            shaped(old(self)@, old(self).w() as int, old(self).h() as int),
            shaped(final(self)@, old(self).w() as int, old(self).h() as int),
            final(self)@ == touched(
                old(self)@,
                x as int,
                y as int,
                written(old(self)@[y as int][x as int], symbol@, style),
            ),
    {
        let w: u16 = self.width();
        if let Some(was) = self.cell(x, y) {
            let c = Cell {
                symbol: symbol.to_owned(),
                fg: match style.fg {
                    Some(v) => v,
                    None => was.fg,
                },
                bg: match style.bg {
                    Some(v) => v,
                    None => was.bg,
                },
                bold: was.bold || style.bold,
                italic: was.italic || style.italic,
                dim: was.dim || style.dim,
            };
            self.replace(x, y, c);
        }
    }
}

/// Grids that agree in every cell are the same.
pub proof fn same_grid(a: Grid, b: Grid, w: int, h: int)
    requires
        shaped(a, w, h),
        shaped(b, w, h),
        forall|x: int, y: int| 0 <= x < w && 0 <= y < h ==> #[trigger] a[y][x] == b[y][x],
    ensures
        a == b,
{
    assert forall|y: int| 0 <= y < h implies a[y] == b[y] by {
        assert(a[y] =~= b[y]);
    }
    assert(a =~= b);
}

// ---- stamps ----

/// What is written on one cell: a symbol in a style, or nothing.
pub type Mark = Option<(Seq<char>, Style)>;

/// The cell with `m` written on it.
pub open spec fn marked(c: CellView, m: Mark) -> CellView {
    match m {
        Some((symbol, style)) => written(c, symbol, style),
        None => c,
    }
}

/// Whether the cell (`x`, `y`) lies in `r`.
pub open spec fn inside(r: Rect, x: int, y: int) -> bool {
    r.x <= x < r.right_spec() && r.y <= y < r.bottom_spec()
}

/// The grid with `p` written on the part `r`; `p` is given the place within the part.
pub open spec fn stamped(g: Grid, r: Rect, p: spec_fn(int, int) -> Mark) -> Grid {
    repainted(
        g,
        |x: int, y: int, c: CellView|
            if inside(r, x, y) {
                marked(c, p(x - r.x, y - r.y))
            } else {
                c
            },
    )
}

/// What a computed mark writes.
pub open spec fn mark_view(m: Option<(String, Style)>) -> Mark {
    match m {
        Some((symbol, style)) => Some((symbol@, style)),
        None => None,
    }
}

/// The text of one character.
pub fn char_text(c: char) -> (r: String)
    ensures
        r@ == seq![c],
{
    let mut s = String::new();
    s.push(c);
    assert(s@ =~= seq![c]);
    s
}

/// Repainting keeps the shape.
pub proof fn stamped_shape(g: Grid, r: Rect, p: spec_fn(int, int) -> Mark, w: int, h: int)
    requires
        shaped(g, w, h),
    ensures
        shaped(stamped(g, r, p), w, h),
{
}

/// Writes on each cell of the part `r` what `f` gives for it.
pub(crate) fn stamp<F: Fn(u16, u16) -> Option<(String, Style)>>(
    buf: &mut Buffer,
    r: Rect,
    f: F,
    Ghost(p): Ghost<spec_fn(int, int) -> Mark>,
)
    requires
        fits(r, old(buf).w(), old(buf).h()),
        forall|x: u16, y: u16| x < r.width && y < r.height ==> f.requires((x, y)),
        forall|x: u16, y: u16, m: Option<(String, Style)>|
            x < r.width && y < r.height && f.ensures((x, y), m) ==> mark_view(m) == p(
                x as int,
                y as int,
            ),
    ensures
        final(buf).w() == old(buf).w(),
        final(buf).h() == old(buf).h(),
        shaped(old(buf)@, old(buf).w() as int, old(buf).h() as int),
        shaped(final(buf)@, old(buf).w() as int, old(buf).h() as int),
        final(buf)@ == stamped(old(buf)@, r, p),
{
    let ghost g = buf@;
    let w: u16 = buf.width();
    let h: u16 = buf.height();
    let mut j: u16 = 0;
    while j < r.height
        invariant
            j <= r.height,
            fits(r, w, h),
            buf.w() == w,
            buf.h() == h,
            shaped(g, w as int, h as int),
            shaped(buf@, w as int, h as int),
            forall|x: u16, y: u16| x < r.width && y < r.height ==> f.requires((x, y)),
            forall|x: u16, y: u16, m: Option<(String, Style)>|
                x < r.width && y < r.height && f.ensures((x, y), m) ==> mark_view(m) == p(
                    x as int,
                    y as int,
                ),
            forall|x: int, y: int|
                0 <= x < w && 0 <= y < h ==> #[trigger] buf@[y][x] == (if inside(r, x, y) && y
                    < r.y + j {
                    marked(g[y][x], p(x - r.x, y - r.y))
                } else {
                    g[y][x]
                }),
        decreases r.height - j,
    {
        let mut i: u16 = 0;
        while i < r.width
            invariant
                i <= r.width,
                j < r.height,
                fits(r, w, h),
                buf.w() == w,
                buf.h() == h,
                shaped(g, w as int, h as int),
                shaped(buf@, w as int, h as int),
                forall|x: u16, y: u16| x < r.width && y < r.height ==> f.requires((x, y)),
                forall|x: u16, y: u16, m: Option<(String, Style)>|
                    x < r.width && y < r.height && f.ensures((x, y), m) ==> mark_view(m) == p(
                        x as int,
                        y as int,
                    ),
                forall|x: int, y: int|
                    0 <= x < w && 0 <= y < h ==> #[trigger] buf@[y][x] == (if inside(r, x, y) && (y
                        < r.y + j || (y == r.y + j && x < r.x + i)) {
                        marked(g[y][x], p(x - r.x, y - r.y))
                    } else {
                        g[y][x]
                    }),
            decreases r.width - i,
        {
            let m = f(i, j);
            let ghost before = buf@;
            let ghost cx = r.x + i;
            let ghost cy = r.y + j;
            assert(inside(r, cx, cy));
            assert(mark_view(m) == p(cx - r.x, cy - r.y));
            assert(before[cy][cx] == g[cy][cx]);
            if let Some((symbol, style)) = m {
                buf.put(r.x + i, r.y + j, symbol.as_str(), style);
            }
            proof {
                assert forall|x: int, y: int| 0 <= x < w && 0 <= y < h implies #[trigger] buf@[y][x]
                    == (if inside(r, x, y) && (y < r.y + j || (y == r.y + j && x < r.x + i + 1)) {
                    marked(g[y][x], p(x - r.x, y - r.y))
                } else {
                    g[y][x]
                }) by {
                    if x == cx && y == cy {
                    } else {
                        assert(buf@[y][x] == before[y][x]);
                    }
                }
            }
            i += 1;
        }
        j += 1;
    }
    proof {
        stamped_shape(g, r, p, w as int, h as int);
        same_grid(buf@, stamped(g, r, p), w as int, h as int);
    }
}

// ---- changing what stands on a part ----

/// The grid with every cell of the part `r` put through `p`.
pub open spec fn reworked(g: Grid, r: Rect, p: spec_fn(CellView) -> CellView) -> Grid {
    repainted(
        g,
        |x: int, y: int, c: CellView|
            if inside(r, x, y) {
                p(c)
            } else {
                c
            },
    )
}

/// The grid with the cells of the part `r` in `style`; their symbols stay.
pub open spec fn tinted(g: Grid, r: Rect, style: Style) -> Grid {
    reworked(g, r, |c: CellView| styled(c, style))
}

/// The grid with nothing on the part `r`.
pub open spec fn cleared(g: Grid, r: Rect) -> Grid {
    reworked(g, r, |c: CellView| blank_cell())
}

/// The cell in `style`.
pub fn restyled(c: &Cell, style: Style) -> (r: Cell)
    ensures
        r@ == styled(c@, style),
{
    Cell {
        symbol: c.symbol.clone(),
        fg: match style.fg {
            Some(v) => v,
            None => c.fg,
        },
        bg: match style.bg {
            Some(v) => v,
            None => c.bg,
        },
        bold: c.bold || style.bold,
        italic: c.italic || style.italic,
        dim: c.dim || style.dim,
    }
}

/// A copy of the cell.
pub fn copy_cell(c: &Cell) -> (r: Cell)
    ensures
        r@ == c@,
{
    restyled(c, plain())
}

/// Puts every cell of the part `r` through `f`.
pub(crate) fn rework<F: Fn(&Cell) -> Cell>(
    buf: &mut Buffer,
    r: Rect,
    f: F,
    Ghost(p): Ghost<spec_fn(CellView) -> CellView>,
)
    requires
        fits(r, old(buf).w(), old(buf).h()),
        forall|c: &Cell| f.requires((c,)),
        forall|c: &Cell, d: Cell| f.ensures((c,), d) ==> d@ == p(c@),
    ensures
        final(buf).w() == old(buf).w(),
        final(buf).h() == old(buf).h(),
        shaped(old(buf)@, old(buf).w() as int, old(buf).h() as int),
        shaped(final(buf)@, old(buf).w() as int, old(buf).h() as int),
        final(buf)@ == reworked(old(buf)@, r, p),
{
    let ghost g = buf@;
    let w: u16 = buf.width();
    let h: u16 = buf.height();
    let mut j: u16 = 0;
    while j < r.height
        invariant
            j <= r.height,
            fits(r, w, h),
            buf.w() == w,
            buf.h() == h,
            shaped(g, w as int, h as int),
            shaped(buf@, w as int, h as int),
            forall|c: &Cell| f.requires((c,)),
            forall|c: &Cell, d: Cell| f.ensures((c,), d) ==> d@ == p(c@),
            forall|x: int, y: int|
                0 <= x < w && 0 <= y < h ==> #[trigger] buf@[y][x] == (if inside(r, x, y) && y
                    < r.y + j {
                    p(g[y][x])
                } else {
                    g[y][x]
                }),
        decreases r.height - j,
    {
        let mut i: u16 = 0;
        while i < r.width
            invariant
                i <= r.width,
                j < r.height,
                fits(r, w, h),
                buf.w() == w,
                buf.h() == h,
                shaped(g, w as int, h as int),
                shaped(buf@, w as int, h as int),
                forall|c: &Cell| f.requires((c,)),
                forall|c: &Cell, d: Cell| f.ensures((c,), d) ==> d@ == p(c@),
                forall|x: int, y: int|
                    0 <= x < w && 0 <= y < h ==> #[trigger] buf@[y][x] == (if inside(r, x, y) && (y
                        < r.y + j || (y == r.y + j && x < r.x + i)) {
                        p(g[y][x])
                    } else {
                        g[y][x]
                    }),
            decreases r.width - i,
        {
            let ghost before = buf@;
            let ghost cx = r.x + i;
            let ghost cy = r.y + j;
            assert(inside(r, cx, cy));
            assert(before[cy][cx] == g[cy][cx]);
            if let Some(c) = buf.cell(r.x + i, r.y + j) {
                let d = f(c);
                buf.replace(r.x + i, r.y + j, d);
            }
            proof {
                assert forall|x: int, y: int| 0 <= x < w && 0 <= y < h implies #[trigger] buf@[y][x]
                    == (if inside(r, x, y) && (y < r.y + j || (y == r.y + j && x < r.x + i + 1)) {
                    p(g[y][x])
                } else {
                    g[y][x]
                }) by {
                    if x == cx && y == cy {
                    } else {
                        assert(buf@[y][x] == before[y][x]);
                    }
                }
            }
            i += 1;
        }
        j += 1;
    }
    proof {
        assert(shaped(reworked(g, r, p), w as int, h as int));
        same_grid(buf@, reworked(g, r, p), w as int, h as int);
    }
}

/// Puts the cells of the part `r` in `style`; their symbols stay.
pub fn tint(buf: &mut Buffer, r: Rect, style: Style)
    requires
        fits(r, old(buf).w(), old(buf).h()),
    ensures
        final(buf).w() == old(buf).w(),
        final(buf).h() == old(buf).h(),
        shaped(old(buf)@, old(buf).w() as int, old(buf).h() as int),
        shaped(final(buf)@, old(buf).w() as int, old(buf).h() as int),
        final(buf)@ == tinted(old(buf)@, r, style),
{
    let ghost p = |c: CellView| styled(c, style);
    let f = |c: &Cell| -> (d: Cell)
        ensures
            d@ == p(c@),
        { restyled(c, style) };
    rework(buf, r, f, Ghost(p));
}

/// Takes everything off the part `r`.
pub fn clear(buf: &mut Buffer, r: Rect)
    requires
        fits(r, old(buf).w(), old(buf).h()),
    ensures
        final(buf).w() == old(buf).w(),
        final(buf).h() == old(buf).h(),
        shaped(old(buf)@, old(buf).w() as int, old(buf).h() as int),
        shaped(final(buf)@, old(buf).w() as int, old(buf).h() as int),
        final(buf)@ == cleared(old(buf)@, r),
{
    let ghost p = |c: CellView| blank_cell();
    let f = |c: &Cell| -> (d: Cell)
        ensures
            d@ == p(c@),
        {
            Cell {
                symbol: char_text(' '),
                fg: Color::Reset,
                bg: Color::Reset,
                bold: false,
                italic: false,
                dim: false,
            }
        };
    rework(buf, r, f, Ghost(p));
}

}
