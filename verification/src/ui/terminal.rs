//! What ratatui draws: its widgets rendered on a buffer of their own, each cell with
//! its symbol and with a tag for the style that it was given.
use ratatui::buffer::Buffer as Sheet;
use ratatui::layout::Rect as Part;
use ratatui::style::{Color as Ink, Style as Look};
use ratatui::text::{Line as Row, Span as Run};
use ratatui::widgets::{Block, Paragraph, Scrollbar, ScrollbarOrientation, ScrollbarState,
    StatefulWidget, Widget};
use crate::ui::width::display_width;
use vstd::prelude::*;

verus! {

/// A drawn cell: its symbol and the tag of its style; nothing where the widget gave
/// it no style.
pub type Drawn = Option<(Seq<char>, u8)>;

/// The drawn cells, row by row.
pub open spec fn drawn_view(v: Seq<Option<(String, u8)>>) -> Seq<Drawn> {
    v.map_values(
        |c: Option<(String, u8)>|
            match c {
                Some((symbol, tag)) => Some((symbol@, tag)),
                None => None,
            },
    )
}

/// The runs of a text, each with the tag of its style.
pub type TaggedLine = Seq<(Seq<char>, u8)>;

/// The lines of a tagged text.
pub open spec fn tagged_view(v: Seq<Vec<(String, u8)>>) -> Seq<TaggedLine> {
    v.map_values(|l: Vec<(String, u8)>| l@.map_values(|s: (String, u8)| (s.0@, s.1)))
}

/// What a vertical scrollbar shows, from the top.
pub uninterp spec fn scroll_drawn(
    height: u16,
    content: usize,
    viewport: usize,
    position: usize,
    thumb: Seq<char>,
    tags: (u8, u8),
) -> Seq<Drawn>;

/// `ratatui::widgets::Scrollbar`, without arrow heads, rendered on one column of
/// `height` rows for a list of `content` rows of which `viewport` are shown from
/// `position` on. The thumb's style has the first tag, the track's the second. The
/// buffer holds one cell a row.
#[verifier::external_body]
pub(crate) fn scroll_cells(
    height: u16,
    content: usize,
    viewport: usize,
    position: usize,
    thumb: &str,
    tags: (u8, u8),
) -> (r: Vec<Option<(String, u8)>>)
    ensures
        drawn_view(r@) == scroll_drawn(height, content, viewport, position, thumb@, tags),
        r@.len() == height,
{
    let mut sheet = Sheet::empty(Part::new(0, 0, 1, height));
    let mut state = ScrollbarState::new(content).viewport_content_length(viewport).position(position);
    let bar = Scrollbar::new(ScrollbarOrientation::VerticalRight).begin_symbol(None).end_symbol(None);
    let bar = bar.thumb_symbol(thumb).thumb_style(Look::new().fg(Ink::Indexed(tags.0)));
    let bar = bar.track_style(Look::new().fg(Ink::Indexed(tags.1)));
    StatefulWidget::render(bar, sheet.area, &mut sheet, &mut state);
    sheet.content.iter().map(|c| match c.fg {
        Ink::Indexed(tag) => Some((c.symbol().to_owned(), tag)),
        _ => None,
    }).collect()
}

/// What a bordered block with a title shows.
pub uninterp spec fn box_drawn(width: u16, height: u16, title: Seq<char>, tags: (u8, u8, u8)) -> Seq<
    Drawn,
>;

/// `ratatui::widgets::Block::bordered` with a title, rendered on `width` by `height`
/// cells. The border's style has the first tag, the title's the second, the rest of
/// the area the third. The buffer holds a cell for every place. The width of the title
/// is counted in 16 bits, so long titles are left out.
#[verifier::external_body]
pub(crate) fn box_cells(width: u16, height: u16, title: &str, tags: (u8, u8, u8)) -> (r: Vec<
    Option<(String, u8)>,
>)
    requires
        title@.len() <= 0x1000,
    ensures
        drawn_view(r@) == box_drawn(width, height, title@, tags),
        r@.len() == width * height,
{
    let mut sheet = Sheet::empty(Part::new(0, 0, width, height));
    let head = Row::from(Run::styled(title, Look::new().fg(Ink::Indexed(tags.1))));
    let block = Block::bordered().title(head).border_style(Look::new().fg(Ink::Indexed(tags.0)));
    Widget::render(block.style(Look::new().fg(Ink::Indexed(tags.2))), sheet.area, &mut sheet);
    sheet.content.iter().map(|c| match c.fg {
        Ink::Indexed(tag) => Some((c.symbol().to_owned(), tag)),
        _ => None,
    }).collect()
}

/// The symbols that a run is made of: what a reader takes for one character each.
pub uninterp spec fn symbols(text: Seq<char>) -> Seq<Seq<char>>;

/// `ratatui::text::Span::styled_graphemes`: the symbols of a run in order, a function of
/// its characters alone.
#[verifier::external_body]
pub(crate) fn symbols_of(text: &str) -> (r: Vec<String>)
    ensures
        r@.map_values(|s: String| s@) == symbols(text@),
{
    let run = Run::raw(text);
    run.styled_graphemes(Look::new()).map(|g| g.symbol.to_owned()).collect()
}

/// A run of so many characters is never too wide in one symbol.
pub const RUN_CHARS: usize = 0x1000;

/// Whether the columns of a symbol are told by their last 16 binary digits: it has none,
/// or those digits are not all nought.
pub open spec fn symbol_counts(symbol: Seq<char>) -> bool {
    display_width(symbol) == 0 || display_width(symbol) % 0x1_0000 != 0
}

/// Whether a run can be laid out: it is short, or the columns of each of its symbols are
/// told by their last 16 binary digits.
pub open spec fn run_counts(text: Seq<char>) -> bool {
    text.len() <= RUN_CHARS || forall|k: int|
        0 <= k < symbols(text).len() ==> symbol_counts(#[trigger] symbols(text)[k])
}

/// Whether every run can be laid out.
pub open spec fn runs_count(lines: Seq<Vec<(String, u8)>>) -> bool {
    forall|i: int, j: int|
        0 <= i < lines.len() && 0 <= j < lines[i]@.len() ==> run_counts(
            (#[trigger] lines[i]@[j]).0@,
        )
}

/// What a paragraph shows.
pub uninterp spec fn text_drawn(width: u16, height: u16, lines: Seq<TaggedLine>) -> Seq<Drawn>;

/// `ratatui::widgets::Paragraph` of the lines, neither wrapped nor scrolled, rendered
/// on `width` by `height` cells. Each run's style has the run's tag. The buffer holds a
/// cell for every place. Columns are counted in 16 bits up to one symbol beyond the
/// width, so the largest widths are left out, and so are runs with a symbol whose columns
/// are a multiple of what 16 bits hold: it would be written behind a full line.
#[verifier::external_body]
pub(crate) fn text_cells(width: u16, height: u16, lines: &Vec<Vec<(String, u8)>>) -> (r: Vec<
    Option<(String, u8)>,
>)
    requires
        width <= 0x7fff,
        runs_count(lines@),
    ensures
        drawn_view(r@) == text_drawn(width, height, tagged_view(lines@)),
        r@.len() == width * height,
{
    let mut sheet = Sheet::empty(Part::new(0, 0, width, height));
    let rows: Vec<Row> = lines.iter().map(|l| {
        Row::from_iter(l.iter().map(|s| Run::styled(s.0.as_str(), Look::new().fg(Ink::Indexed(s.1)))))
    }).collect();
    Widget::render(Paragraph::new(rows), sheet.area, &mut sheet);
    sheet.content.iter().map(|c| match c.fg {
        Ink::Indexed(tag) => Some((c.symbol().to_owned(), tag)),
        _ => None,
    }).collect()
}

}
