//! What stands where on the screen.
use crate::app::{bodies_drawn, frames_drawn, header_view, notice, size_line, too_small, App};
use crate::config::Config;
use crate::laws::boxes::plain_text;
use crate::model::snapshot::{Connection, Snapshot};
use crate::num::Num;
use crate::text::decimal_text;
use crate::ui::cells::{Grid, LineView, Rect};
use crate::ui::frame::{pane_drawn, BorderSet, ButtonView};
use crate::ui::layout::{min_height_of, min_width_of, Boxes, Layout};
use crate::ui::overlays::lines::{help_text, options_text, server_text};
use crate::ui::overlays::{body_text, title_text, Live, Overlay};
use crate::ui::panels::engine::engine_drawn;
use crate::ui::panels::human::duration_text;
use crate::ui::panels::kv::kv_drawn;
use crate::ui::panels::traffic::traffic_drawn;
use crate::ui::theme::Theme;
use crate::ui::widgets::braille::{column_bits, LEFT, RIGHT};
use crate::ui::widgets::table::{detail_drawn, ranks_drawn};
use vstd::prelude::*;

verus! {

// ---- boxes ----

/// What a box that is the only one shown holds stands in its own part of the screen; a part
/// of two rows or fewer holds nothing.
pub proof fn lone_boxes_hold_their_own<N: Num>(g: Grid, a: App, s: Snapshot<N>, l: Layout)
    ensures
        a.boxes == (Boxes { engine: true, kv: false, traffic: false, ranks: false })
            && l.engine.height >= 3 ==> bodies_drawn(g, a, s, l) == engine_drawn(
            g,
            s,
            a.theme,
            a.gui,
            l.engine,
        ),
        a.boxes == (Boxes { engine: false, kv: true, traffic: false, ranks: false })
            && l.kv.height >= 3 ==> bodies_drawn(g, a, s, l) == kv_drawn(
            g,
            s,
            a.theme,
            a.gui,
            l.kv,
        ),
        a.boxes == (Boxes { engine: false, kv: false, traffic: true, ranks: false })
            && l.traffic.height >= 3 ==> bodies_drawn(g, a, s, l) == traffic_drawn(
            g,
            s,
            a.theme,
            a.gui,
            l.traffic,
        ),
        a.boxes == (Boxes { engine: false, kv: false, traffic: false, ranks: true })
            && l.ranks.height >= 3 ==> bodies_drawn(g, a, s, l) == if a.detail_open {
            detail_drawn(g, s, a.theme, l.ranks, a.rank_sel as int)
        } else {
            ranks_drawn(
                g,
                s,
                a.theme,
                a.gui,
                l.ranks,
                a.rank_sel as int,
                a.sort_col,
                a.sort_reverse,
            )
        },
        l.engine.height <= 2 && l.kv.height <= 2 && l.traffic.height <= 2 && l.ranks.height <= 2
            ==> bodies_drawn(g, a, s, l) == g,
{
}

/// The boxes of a screen are filled one by one: each adds to what the others drew the same
/// as it draws alone.
pub proof fn boxes_are_filled_in_turn<N: Num>(g: Grid, a: App, s: Snapshot<N>, l: Layout)
    ensures
        ({
            let only = |b: Boxes, g: Grid| bodies_drawn(g, App { boxes: b, ..a }, s, l);
            let no = Boxes { engine: false, kv: false, traffic: false, ranks: false };
            let g1 = only(Boxes { engine: a.boxes.engine, ..no }, g);
            let g2 = only(Boxes { kv: a.boxes.kv, ..no }, g1);
            let g3 = only(Boxes { traffic: a.boxes.traffic, ..no }, g2);
            bodies_drawn(g, a, s, l) == only(Boxes { ranks: a.boxes.ranks, ..no }, g3)
        }),
{
}

/// Whether `drawn` is `g` with a frame of that title round `r`, in the colour of `key`, with
/// some buttons or none.
pub open spec fn framed_as(
    g: Grid,
    drawn: Grid,
    r: Rect,
    key: Seq<char>,
    title: Seq<char>,
    th: Theme,
    bs: BorderSet,
    w: int,
) -> bool {
    exists|top: Seq<ButtonView>, bottom: Seq<ButtonView>|
        drawn == #[trigger] pane_drawn(g, r, key, Some(title), top, bottom, th, bs, w)
}

/// A frame stands round the part of its box, under the number that toggles the box and its
/// name; a box that is not shown has none.
pub proof fn frames_name_their_boxes(
    g: Grid,
    b: Boxes,
    l: Layout,
    interval_ms: u64,
    clock: Seq<char>,
    th: Theme,
    bs: BorderSet,
    w: int,
)
    ensures
        ({
            let drawn = frames_drawn(g, b, l, interval_ms, clock, th, bs, w);
            &&& !b.engine && !b.kv && !b.traffic && !b.ranks ==> drawn == g
            &&& b.engine && !b.kv && !b.traffic && !b.ranks ==> framed_as(
                g,
                drawn,
                l.engine,
                "cpu_box"@,
                "¹engine"@,
                th,
                bs,
                w,
            )
            &&& !b.engine && b.kv && !b.traffic && !b.ranks ==> framed_as(
                g,
                drawn,
                l.kv,
                "mem_box"@,
                "²token pool"@,
                th,
                bs,
                w,
            )
            &&& !b.engine && !b.kv && b.traffic && !b.ranks ==> framed_as(
                g,
                drawn,
                l.traffic,
                "net_box"@,
                "³traffic"@,
                th,
                bs,
                w,
            )
            &&& !b.engine && !b.kv && !b.traffic && b.ranks ==> framed_as(
                g,
                drawn,
                l.ranks,
                "proc_box"@,
                "⁴ranks"@,
                th,
                bs,
                w,
            )
        }),
{
    let drawn = frames_drawn(g, b, l, interval_ms, clock, th, bs, w);
    assert(drawn == drawn);
}

// ---- the last row ----

proof fn one_span(line: LineView)
    requires
        line.len() == 1,
    ensures
        plain_text(line) == line[0].text,
{
    assert(plain_text(line.drop_last()) == Seq::<char>::empty());
    assert(plain_text(line) =~= line[0].text);
}

/// The last row says how the connection stands: for how long values are stale, what failed
/// and how often; a cut metrics body is told only while the values are fresh, and with
/// nothing to tell there is no notice.
pub proof fn notices_tell_the_connection<N: Num>(
    conn: Connection,
    truncated: bool,
    th: Theme,
    now: u64,
)
    ensures
        ({
            let n = notice::<N>(conn, truncated, th, now);
            let ago = |since: u64| duration_text(N::of_nanos_spec((now - since) as u64));
            &&& n is None <==> !truncated && (conn is Live || conn is MetricsDisabled)
            &&& conn is Pending ==> plain_text(n->0) == "connecting…"@
            &&& conn matches Connection::Degraded { since, consecutive, last_err } ==> since <= now
                ==> plain_text(n->0) == "⚠ degraded ("@ + decimal_text(consecutive as nat)
                + "×, "@ + ago(since) + "): "@ + last_err@ + " — holding last values"@
            &&& conn matches Connection::Lost { since, last_err } ==> since <= now ==> plain_text(
                n->0,
            ) == "⚠ connection lost ("@ + ago(since) + "): "@ + last_err@ + " — values frozen"@
            &&& truncated && (conn is Live || conn is MetricsDisabled) ==> plain_text(n->0)
                == "⚠ metrics body truncated at --max-metrics-bytes — absent values may be cut, not missing"@
        }),
{
    if let Some(line) = notice::<N>(conn, truncated, th, now) {
        one_span(line);
    }
}

proof fn three_spans(line: LineView)
    requires
        line.len() == 3,
    ensures
        plain_text(line) == line[0].text + line[1].text + line[2].text,
{
    reveal_with_fuel(plain_text, 4);
    assert(line.drop_last().drop_last().drop_last() =~= Seq::empty());
    assert(plain_text(line) =~= line[0].text + line[1].text + line[2].text);
}

/// A screen that is too small says of each side how long it is, how long it has to be, and
/// whether that is met.
pub proof fn small_screens_say_their_size(label: Seq<char>, size: u16, least: u16, th: Theme)
    ensures
        plain_text(size_line(label, size as int, least as int, th)) == label + decimal_text(
            size as nat,
        ) + ("  (min "@ + decimal_text(least as nat) + ") "@ + if size < least {
            "✗"@
        } else {
            "✓"@
        }),
{
    three_spans(size_line(label, size as int, least as int, th));
}

/// A screen is too small where either side is shorter than the shown boxes need.
pub proof fn small_screens_are_found(b: Boxes, w: int, h: int)
    ensures
        too_small(b, w, h) <==> w < min_width_of(b) || h < min_height_of(b),
        forall|dw: nat, dh: nat|
            !too_small(b, w, h) ==> !#[trigger] too_small(b, w + dw, h + dh),
{
}

// ---- overlays and borders ----

/// Each overlay has its own title and its own lines.
pub proof fn overlays_hold_their_own<N: Num>(
    cfg: Config,
    snap: Snapshot<N>,
    live: Live,
    th: Theme,
)
    ensures
        title_text(Overlay::Help) == "help"@,
        title_text(Overlay::Options) == "options"@,
        title_text(Overlay::ServerInfo) == "server info"@,
        help_text(th).is_prefix_of(body_text(Overlay::Help, cfg, snap, live, th)),
        options_text(cfg, live.paused, live.interval_ms, th).is_prefix_of(
            body_text(Overlay::Options, cfg, snap, live, th),
        ),
        server_text(cfg, snap, th).is_prefix_of(body_text(Overlay::ServerInfo, cfg, snap, live, th)),
{
}

/// The top border of the engine box shows the interval between the keys that change it, and
/// the clock.
pub proof fn header_shows_interval_and_clock(interval_ms: u64, clock: Seq<char>, th: Theme)
    ensures
        ({
            let h = header_view(interval_ms, clock, th);
            &&& exists|i: int|
                0 <= i < h.len() && plain_text((#[trigger] h[i]).0) == "-"@ + (" "@ + decimal_text(
                    interval_ms as nat,
                ) + "ms "@) + "+"@
            &&& exists|i: int| 0 <= i < h.len() && plain_text((#[trigger] h[i]).0) == clock
        }),
{
    let h = header_view(interval_ms, clock, th);
    three_spans(h[3].0);
    one_span(h[4].0);
}

// ---- graphs ----

/// How many of the four dots of a column are lit in character row `y` of `h`, where the
/// column rises `tall` dots from the bottom of the graph.
pub open spec fn lit(tall: int, h: int, y: int) -> int {
    let above = tall - 4 * (h - 1 - y);
    if above < 0 {
        0
    } else if above > 4 {
        4
    } else {
        above
    }
}

/// A column is lit from the bottom up, in its own half of the cell: the characters of one to
/// four dots are ⡀, ⡄, ⡆ and ⡇ on the left, ⢀, ⢠, ⢰ and ⢸ on the right.
pub proof fn columns_are_lit_from_the_bottom(tall: int, h: int, y: int)
    ensures
        column_bits(tall, 4 * h, y, LEFT@) == seq![0int, '⡀' as int, '⡄' as int, '⡆' as int,
            '⡇' as int][lit(tall, h, y)] - if lit(tall, h, y) == 0 {
            0
        } else {
            '⠀' as int
        },
        column_bits(tall, 4 * h, y, RIGHT@) == seq![0int, '⢀' as int, '⢠' as int, '⢰' as int,
            '⢸' as int][lit(tall, h, y)] - if lit(tall, h, y) == 0 {
            0
        } else {
            '⠀' as int
        },
{
}

} // verus!
