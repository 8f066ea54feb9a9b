//! Which histories the graphs show.
use crate::model::hist::{Ring, HIST_CAP};
use crate::model::snapshot::{RankRow, Snapshot};
use crate::num::Num;
use crate::poll::panels::grown;
use crate::ui::cells::{Grid, Rect};
use crate::ui::frame::{lines_written, rest_of};
use crate::ui::panels::engine::{engine_drawn, engine_lines, peak_text, window_of};
use crate::ui::panels::kv::{kv_drawn, kv_lines};
use crate::ui::panels::traffic::{lower, traffic_drawn, traffic_lines, upper};
use crate::ui::theme::Theme;
use crate::ui::widgets::table::{mini_area, mini_drawn, minis_drawn};
use crate::ui::widgets::{area_drawn, Gui};
use vstd::prelude::*;

verus! {

/// A history takes one sample at its end: those before it stay, but for the oldest where
/// there is room for no more.
pub proof fn histories_keep_what_they_can<N>(new: Ring<N>, old: Ring<N>, v: N)
    requires
        grown(new, old, v),
        old@.len() <= old.cap(),
        old.cap() > 0,
    ensures
        new.cap() == old.cap(),
        old@.len() < old.cap() ==> new@ == old@.push(v),
        old@.len() == old.cap() ==> new@ == old@.drop_first().push(v),
        HIST_CAP == 1024,
{
    let all = old@.push(v);
    if old@.len() < old.cap() {
        assert(new@ =~= all);
    } else {
        assert(new@ =~= old@.drop_first().push(v));
    }
}

/// Whether `out` is some grid with a graph of `series` inside the frame of `rect`, where
/// that has room for one.
#[verifier::opaque]
pub open spec fn graphs<N: Num>(
    out: Grid,
    rect: Rect,
    series: Seq<N>,
    th: Theme,
    family: Seq<char>,
    gui: Gui,
) -> bool {
    exists|under: Grid, at: Rect, note: Option<Seq<char>>|
        (at.height == 0 || (rect.y < at.y && at.y + at.height < rect.y + rect.height)) && out
            == #[trigger] area_drawn(under, at, series, th, family, gui.braille_graphs, note)
}

proof fn graph_stands_inside<N: Num>(
    under: Grid,
    rect: Rect,
    at: Rect,
    series: Seq<N>,
    th: Theme,
    family: Seq<char>,
    gui: Gui,
    note: Option<Seq<char>>,
)
    requires
        at.height == 0 || (rect.y < at.y && at.y + at.height < rect.y + rect.height),
    ensures
        graphs(
            area_drawn(under, at, series, th, family, gui.braille_graphs, note),
            rect,
            series,
            th,
            family,
            gui,
        ),
{
    reveal(graphs);
}

proof fn rest_is_inside(rect: Rect, n: nat)
    requires
        rect.height >= 3,
        rect.x + rect.width <= u16::MAX,
        rect.y + rect.height <= u16::MAX,
    ensures
        ({
            let at = rest_of(rect, n as int);
            at.height == 0 || (rect.y < at.y && at.y + at.height < rect.y + rect.height)
        }),
{
}

/// The engine box draws the history of the generation rate.
pub proof fn engine_draws_the_generation<N: Num>(
    g: Grid,
    s: Snapshot<N>,
    th: Theme,
    gui: Gui,
    rect: Rect,
)
    requires
        rect.height >= 3,
        rect.x + rect.width <= u16::MAX,
        rect.y + rect.height <= u16::MAX,
    ensures
        graphs(engine_drawn(g, s, th, gui, rect), rect, s.engine.gen_series@, th, "cpu"@, gui),
{
    let lines = engine_lines(s, th, window_of(rect.width, gui));
    rest_is_inside(rect, lines.len());
    graph_stands_inside(
        lines_written(g, rect, lines),
        rect,
        rest_of(rect, lines.len() as int),
        s.engine.gen_series@,
        th,
        "cpu"@,
        gui,
        peak_text(s.engine.gen_series@, gui, " tok/s"@),
    );
}

/// The token pool box draws the history of the share of hits.
pub proof fn pool_draws_the_hits<N: Num>(
    g: Grid,
    s: Snapshot<N>,
    th: Theme,
    gui: Gui,
    rect: Rect,
)
    requires
        rect.height >= 3,
        rect.x + rect.width <= u16::MAX,
        rect.y + rect.height <= u16::MAX,
    ensures
        graphs(kv_drawn(g, s, th, gui, rect), rect, s.kv.cache_hit_series@, th, "cached"@, gui),
{
    let lines = kv_lines(s, th, gui, rect);
    rest_is_inside(rect, lines.len());
    graph_stands_inside(
        lines_written(g, rect, lines),
        rect,
        rest_of(rect, lines.len() as int),
        s.kv.cache_hit_series@,
        th,
        "cached"@,
        gui,
        None,
    );
}

/// Whether `out` is some grid with two graphs, one over the other.
#[verifier::opaque]
pub open spec fn graphs_over<N: Num>(
    out: Grid,
    over: (Seq<N>, Seq<char>),
    under: (Seq<N>, Seq<char>),
    th: Theme,
    gui: Gui,
) -> bool {
    exists|
        base: Grid,
        hi: Rect,
        lo: Rect,
        first: Option<Seq<char>>,
        second: Option<Seq<char>>,
    |
        hi.y + hi.height <= lo.y && hi.height > 0 && lo.height > 0 && out == #[trigger] area_drawn(
            #[trigger] area_drawn(base, hi, over.0, th, over.1, gui.braille_graphs, first),
            lo,
            under.0,
            th,
            under.1,
            gui.braille_graphs,
            second,
        )
}

proof fn room_is_left(rect: Rect, n: nat)
    requires
        rect.x + rect.width <= u16::MAX,
        rect.y + rect.height <= u16::MAX,
        rect.width > 2,
        n + 4 <= rect.height,
    ensures
        rest_of(rect, n as int).height >= 2,
        rest_of(rect, n as int).y + rest_of(rect, n as int).height <= u16::MAX,
{
}

proof fn two_graphs_stand<N: Num>(
    base: Grid,
    rest: Rect,
    over: (Seq<N>, Seq<char>),
    under: (Seq<N>, Seq<char>),
    th: Theme,
    gui: Gui,
    first: Option<Seq<char>>,
    second: Option<Seq<char>>,
)
    requires
        rest.height >= 2,
        rest.y + rest.height <= u16::MAX,
    ensures
        graphs_over(
            area_drawn(
                area_drawn(base, upper(rest), over.0, th, over.1, gui.braille_graphs, first),
                lower(rest),
                under.0,
                th,
                under.1,
                gui.braille_graphs,
                second,
            ),
            over,
            under,
            th,
            gui,
        ),
{
    reveal(graphs_over);
    let (hi, lo) = (upper(rest), lower(rest));
    assert(hi.y + hi.height <= lo.y && hi.height > 0 && lo.height > 0);
}

/// With two rows left below its lines the traffic box draws the generated tokens over the
/// prompted ones.
pub proof fn traffic_draws_both_directions<N: Num>(
    g: Grid,
    s: Snapshot<N>,
    th: Theme,
    gui: Gui,
    rect: Rect,
)
    requires
        rect.x + rect.width <= u16::MAX,
        rect.y + rect.height <= u16::MAX,
        rect.width > 2,
        traffic_lines(s, th, rect).len() + 4 <= rect.height,
    ensures
        graphs_over(
            traffic_drawn(g, s, th, gui, rect),
            (s.traffic.gen_series@, "upload"@),
            (s.traffic.prompt_series@, "download"@),
            th,
            gui,
        ),
{
    let n = traffic_lines(s, th, rect).len();
    room_is_left(rect, n);
    let (out, inward) = (s.traffic.gen_series@, s.traffic.prompt_series@);
    two_graphs_stand(
        lines_written(g, rect, traffic_lines(s, th, rect)),
        rest_of(rect, n as int),
        (out, "upload"@),
        (inward, "download"@),
        th,
        gui,
        peak_text(out, gui, ""@),
        peak_text(inward, gui, ""@),
    );
}

/// A row of the table draws the generation rate of its own rank, in the row that it stands
/// in, and leaves the graphs of the rows above it.
pub proof fn rows_draw_their_own_history<N: Num>(
    g: Grid,
    rect: Rect,
    ranks: Seq<RankRow<N>>,
    shown: Seq<usize>,
    i: usize,
    th: Theme,
    gui: Gui,
    sel: int,
)
    requires
        rect.x + rect.width <= u16::MAX,
        rect.y + rect.height <= u16::MAX,
        shown.len() + 3 < rect.height,
    ensures
        ({
            let at = mini_area(rect, shown.len() as int);
            &&& at.y == rect.y + 3 + shown.len()
            &&& at.height == 1
            &&& minis_drawn(g, rect, ranks, shown.push(i), th, gui, sel) == mini_drawn(
                minis_drawn(g, rect, ranks, shown, th, gui, sel),
                at,
                ranks[i as int].gen_series@,
                th,
                gui,
                i == sel,
            )
        }),
        minis_drawn(g, rect, ranks, Seq::empty(), th, gui, sel) == g,
{
    assert(shown.push(i).drop_last() =~= shown);
}

} // verus!
