//! What painting changes on the screen.
use crate::ui::cells::{cleared, stamped, styled, tinted, CellView, Color, Grid, Mark, Rect, Style};
use vstd::prelude::*;

verus! {

/// A style leaves the symbol, sets the colours that it has, and only ever adds attributes;
/// a second time it changes nothing.
pub proof fn styles_add_up(c: CellView, s: Style)
    ensures
        ({
            let d = styled(c, s);
            &&& d.symbol == c.symbol
            &&& s.fg matches Some(x) ==> d.fg == x
            &&& s.fg is None ==> d.fg == c.fg
            &&& s.bg matches Some(x) ==> d.bg == x
            &&& s.bg is None ==> d.bg == c.bg
            &&& d.bold <==> c.bold || s.bold
            &&& d.italic <==> c.italic || s.italic
            &&& d.dim <==> c.dim || s.dim
            &&& styled(d, s) == d
        }),
{
}

/// Painting on a part of the screen changes no cell outside of it and not the shape of the
/// screen. Inside, a mark writes its symbol in its colours, and no mark leaves the cell; a
/// tint leaves the symbols; what is cleared is blank without a colour.
pub proof fn paint_stays_in_its_part(
    g: Grid,
    r: Rect,
    p: spec_fn(int, int) -> Mark,
    s: Style,
    x: int,
    y: int,
)
    requires
        0 <= y < g.len(),
        0 <= x < g[y].len(),
    ensures
        ({
            let (a, b, c) = (stamped(g, r, p), tinted(g, r, s), cleared(g, r));
            let within = r.x <= x < r.x + r.width && r.y <= y < r.y + r.height;
            &&& a.len() == g.len() && b.len() == g.len() && c.len() == g.len()
            &&& a[y].len() == g[y].len() && b[y].len() == g[y].len() && c[y].len() == g[y].len()
            &&& !within ==> a[y][x] == g[y][x] && b[y][x] == g[y][x] && c[y][x] == g[y][x]
            &&& within ==> match p(x - r.x, y - r.y) {
                Some((symbol, style)) => a[y][x].symbol == symbol && (style.fg matches Some(f) ==> a[y][x].fg
                    == f) && (style.bg matches Some(f) ==> a[y][x].bg == f),
                None => a[y][x] == g[y][x],
            }
            &&& within ==> b[y][x] == styled(g[y][x], s)
            &&& within ==> c[y][x] == (CellView {
                symbol: seq![' '],
                fg: Color::Reset,
                bg: Color::Reset,
                bold: false,
                italic: false,
                dim: false,
            })
        }),
{
}

} // verus!
