//! Graphs, meters and the table.
use crate::num::Num;
use crate::ui::cells::{fits, ink, shaped, Buffer, Grid, Rect};
use crate::ui::theme::Theme;
use crate::ui::widgets::block::{block_drawn, text_put};
use crate::ui::widgets::braille::braille_drawn;
use vstd::prelude::*;

pub mod block;
pub mod braille;
pub mod meter;
pub mod table;

verus! {

/// Rendering-style options.
#[derive(Debug, Clone, Copy, PartialEq, Eq, Structural)]
pub struct Gui {
    /// Graphs use braille dots; otherwise the solid block style.
    pub braille_graphs: bool,
}

impl Gui {
    /// The block-graph look. The default at run time is braille.
    pub fn modern() -> (r: Gui)
        ensures
            !r.braille_graphs,
    {
        Gui { braille_graphs: false }
    }
}

/// The grid with an area graph in either style; a note on the peak rides on the solid
/// one alone.
pub open spec fn area_drawn<N: Num>(
    g: Grid,
    area: Rect,
    series: Seq<N>,
    th: Theme,
    family: Seq<char>,
    braille_style: bool,
    peak: Option<Seq<char>>,
) -> Grid {
    if braille_style {
        braille_drawn(g, area, series, th, family, None, true)
    } else {
        let drawn = block_drawn(g, area, series, th, family);
        match peak {
            Some(text) => text_put(drawn, area, text, ink(th.color("graph_text"@))),
            None => drawn,
        }
    }
}

/// Style-dispatched area graph: braille dots, or solid blocks. Every panel goes
/// through this, so that the style is a single switch.
pub fn area_graph<N: Num>(
    buf: &mut Buffer,
    area: Rect,
    series: &Vec<N>,
    th: &Theme,
    family: &str,
    braille_style: bool,
    peak_label: Option<String>,
)
    requires
        fits(area, old(buf).w(), old(buf).h()),
    ensures
        final(buf).w() == old(buf).w(),
        final(buf).h() == old(buf).h(),
        shaped(old(buf)@, old(buf).w() as int, old(buf).h() as int),
        shaped(final(buf)@, old(buf).w() as int, old(buf).h() as int),
        final(buf)@ == area_drawn(
            old(buf)@,
            area,
            series@,
            *th,
            family@,
            braille_style,
            crate::text::opt_view(peak_label),
        ),
{
    if braille_style {
        braille::draw(buf, area, series, th, family, None, true);
        return;
    }
    block::draw(buf, area, series, th, family);
    if let Some(text) = peak_label {
        block::put_text(buf, area, text.as_str(), ink(th.c("graph_text")));
    }
}

}
