//! The peaks beside the rates.
use crate::laws::boxes::{box_reads, box_says, known_says, line_is_among, lines_say, maybe_says,
    plain_text, row_reads, says, says_within};
use crate::laws::fields::peak_is_largest;
use crate::model::hist::newest;
use crate::model::snapshot::{EnginePanel, Snapshot, TrafficPanel};
use crate::num::{peak_from, Num, Ordered};
use crate::poll::flow::FlowView;
use crate::poll::prom::SampleView;
use crate::poll::traffic::directions_built;
use crate::text::blanks;
use crate::ui::cells::{fits, shaped, Grid, LineView, Rect};
use crate::ui::panels::engine::{engine_drawn, engine_lines, pair_text, peak_text, rates_line, window_of};
use crate::ui::panels::human::{pct_text, rate_text};
use crate::ui::panels::kv::{bar_width, hit_line, kv_lines, metered, pool_lines};
use crate::ui::theme::Theme;
use crate::ui::widgets::meter::meter_line;
use crate::ui::widgets::Gui;
use vstd::prelude::*;

verus! {

/// The last `n` samples.
pub open spec fn lately<N>(s: Seq<N>, n: nat) -> Seq<N> {
    if n < s.len() {
        s.skip(s.len() - n)
    } else {
        s
    }
}

/// Whether `v` is the largest of the samples, nought where none is above it.
pub open spec fn is_top<N: Num>(v: N, s: Seq<N>) -> bool {
    &&& forall|i: int| 0 <= i < s.len() ==> !v.less_spec(#[trigger] s[i])
    &&& !v.less_spec(N::zero_spec())
    &&& v == N::zero_spec() || s.contains(v)
}

/// Whether all samples are numbers.
pub open spec fn all_numbers<N: Num>(s: Seq<N>) -> bool {
    forall|i: int| 0 <= i < s.len() ==> !(#[trigger] s[i]).is_nan_spec()
}

proof fn peak_is_top<N: Ordered>(s: Seq<N>, n: nat)
    requires
        all_numbers(s),
    ensures
        is_top(peak_from(newest(s, n), N::zero_spec()), lately(s, n)),
{
    let w = newest(s, n);
    N::counts_are_numbers(0);
    N::nan_spreads(N::zero_spec(), N::zero_spec());
    assert(w == lately(s, n));
    assert forall|i: int| 0 <= i < w.len() implies !(#[trigger] w[i]).is_nan_spec() by {
        if n < s.len() {
            assert(w[i] == s[s.len() - n + i]);
        }
    }
    peak_is_largest(w, N::zero_spec());
}

/// How many samples the graph of a box shows: one to a column of its inside, two with dots.
pub open spec fn shown_by(width: u16, dotted: bool) -> nat {
    let inner = if width < 2 {
        0
    } else {
        (width - 2) as nat
    };
    if dotted {
        2 * inner
    } else {
        inner
    }
}

/// Whether the row of rates says the rate and the largest one that the graph shows.
pub open spec fn says_with_peak<N: Num>(
    g: Grid,
    r: Rect,
    label: Seq<char>,
    cur: N,
    seen: Seq<N>,
) -> bool {
    exists|top: N| #[trigger]
        is_top(top, seen) && box_says(
            g,
            r,
            0,
            label,
            rate_text(cur) + "/"@ + rate_text(top) + " tok/s"@,
        )
}

/// Beside each rate of the engine box stands the largest one that the graph shows.
pub proof fn engine_rates_have_their_peaks<N: Ordered>(
    g: Grid,
    s: Snapshot<N>,
    th: Theme,
    gui: Gui,
    rect: Rect,
    w: u16,
    h: u16,
)
    requires
        shaped(g, w as int, h as int),
        fits(rect, w, h),
        rect.height >= 3,
        all_numbers(s.engine.gen_series@),
        all_numbers(s.engine.prefill_series@),
        all_numbers(s.engine.token_rate_series@),
    ensures
        ({
            let out = engine_drawn(g, s, th, gui, rect);
            let e = s.engine;
            let n = shown_by(rect.width, gui.braille_graphs);
            &&& says_with_peak(out, rect, "gen "@, e.gen_throughput, lately(e.gen_series@, n))
            &&& e.prefill_tps matches Some(v) ==> says_with_peak(
                out,
                rect,
                "  prefill "@,
                v,
                lately(e.prefill_series@, n),
            )
            &&& e.decode_tps matches Some(v) ==> says_with_peak(
                out,
                rect,
                "  decode "@,
                v,
                lately(e.token_rate_series@, n),
            )
        }),
{
    let e = s.engine;
    let dim = s.conn.dimmed_spec();
    let n = window_of(rect.width, gui);
    let lines = engine_lines(s, th, n);
    let out = engine_drawn(g, s, th, gui, rect);
    box_reads(
        g,
        rect,
        lines,
        e.gen_series@,
        th,
        "cpu"@,
        gui.braille_graphs,
        peak_text(e.gen_series@, gui, " tok/s"@),
        w,
        h,
    );
    assert(lines[0] == rates_line(e, n, th, dim));
    assert(row_reads(out, rect, 0, plain_text(lines[0])));
    pairs_say(e, n, th, dim);
    peak_is_top(e.gen_series@, n);
    peak_is_top(e.prefill_series@, n);
    peak_is_top(e.token_rate_series@, n);
}

proof fn pairs_say<N: Num>(e: EnginePanel<N>, n: nat, th: Theme, dim: bool)
    ensures
        ({
            let t = plain_text(rates_line(e, n, th, dim));
            let zero = N::zero_spec();
            &&& says(
                t,
                "gen "@,
                rate_text(e.gen_throughput) + "/"@ + rate_text(
                    peak_from(newest(e.gen_series@, n), zero),
                ) + " tok/s"@,
            )
            &&& e.prefill_tps matches Some(v) ==> says(
                t,
                "  prefill "@,
                rate_text(v) + "/"@ + rate_text(peak_from(newest(e.prefill_series@, n), zero))
                    + " tok/s"@,
            )
            &&& e.decode_tps matches Some(v) ==> says(
                t,
                "  decode "@,
                rate_text(v) + "/"@ + rate_text(peak_from(newest(e.token_rate_series@, n), zero))
                    + " tok/s"@,
            )
        }),
{
    let l = rates_line(e, n, th, dim);
    maybe_says(l, 0, pair_text(Some(e.gen_throughput), e.gen_series@, n), 18, th, dim);
    maybe_says(l, 2, pair_text(e.prefill_tps, e.prefill_series@, n), 18, th, dim);
    maybe_says(l, 4, pair_text(e.decode_tps, e.token_rate_series@, n), 18, th, dim);
}

/// The peak of a direction is the largest sample of its history.
pub proof fn direction_peaks_are_the_largest<N: Num>(
    t: TrafficPanel<N>,
    was: TrafficPanel<N>,
    m: Seq<SampleView<N>>,
    f: FlowView<N>,
)
    requires
        directions_built(t, was, m, f),
        !N::lowest_spec().is_nan_spec(),
        all_numbers(t.gen_series@),
        all_numbers(t.prompt_series@),
    ensures
        forall|i: int|
            0 <= i < t.gen_series@.len() ==> !t.gen_peak_tps.less_spec(#[trigger] t.gen_series@[i]),
        t.gen_peak_tps == N::lowest_spec() || t.gen_series@.contains(t.gen_peak_tps),
        forall|i: int|
            0 <= i < t.prompt_series@.len() ==> !t.prompt_peak_tps.less_spec(
                #[trigger] t.prompt_series@[i],
            ),
        t.prompt_peak_tps == N::lowest_spec() || t.prompt_series@.contains(t.prompt_peak_tps),
{
    peak_is_largest(t.gen_series@, N::lowest_spec());
    peak_is_largest(t.prompt_series@, N::lowest_spec());
}

/// Beside the hit rate of the token pool stands the largest one that the graph shows, and
/// beside the meter the share of the pool that is used.
pub proof fn pool_lines_have_their_peaks<N: Ordered>(s: Snapshot<N>, th: Theme, gui: Gui, rect: Rect)
    requires
        all_numbers(s.kv.cache_hit_series@),
    ensures
        ({
            let l = kv_lines(s, th, gui, rect);
            let n = shown_by(rect.width, gui.braille_graphs);
            &&& exists|top: N| #[trigger]
                is_top(top, lately(s.kv.cache_hit_series@, n)) && lines_say(
                    l,
                    "hit "@,
                    "hit "@,
                    pct_text(s.kv.cache_hit_rate) + "/"@ + pct_text(top),
                )
            &&& says(plain_text(l[1]), " "@, pct_text(s.kv.token_usage))
        }),
{
    let at = pool_places(s, th, gui, rect);
    assert(window_of(rect.width, gui) == shown_by(rect.width, gui.braille_graphs));
    pool_says(
        kv_lines(s, th, gui, rect),
        at,
        s,
        window_of(rect.width, gui),
        bar_width(rect),
        th,
        s.conn.dimmed_spec(),
    );
}

proof fn pool_places<N: Num>(s: Snapshot<N>, th: Theme, gui: Gui, rect: Rect) -> (at: int)
    ensures
        ({
            let l = kv_lines(s, th, gui, rect);
            &&& 1 < at < l.len()
            &&& l[at] == hit_line(s.kv, window_of(rect.width, gui), th, s.conn.dimmed_spec())
            &&& l[1] == metered(s.kv.token_usage, bar_width(rect), th)
        }),
{
    let own = pool_lines(s.kv, th, gui, rect, s.conn.dimmed_spec());
    let l = kv_lines(s, th, gui, rect);
    assert forall|i: int| 0 <= i < own.len() implies #[trigger] l[i] == own[i] by {}
    let at = own.len() - 1;
    assert(l[at] == own[at]);
    at
}

proof fn pool_says<N: Ordered>(
    l: Seq<LineView>,
    at: int,
    s: Snapshot<N>,
    n: nat,
    width: nat,
    th: Theme,
    dim: bool,
)
    requires
        1 < at < l.len(),
        l[at] == hit_line(s.kv, n, th, dim),
        l[1] == metered(s.kv.token_usage, width, th),
        all_numbers(s.kv.cache_hit_series@),
    ensures
        exists|top: N| #[trigger]
            is_top(top, lately(s.kv.cache_hit_series@, n)) && lines_say(
                l,
                "hit "@,
                "hit "@,
                pct_text(s.kv.cache_hit_rate) + "/"@ + pct_text(top),
            ),
        says(plain_text(l[1]), " "@, pct_text(s.kv.token_usage)),
{
    peak_is_top(s.kv.cache_hit_series@, n);
    hit_says(l, at, s, n, th, dim);
    meter_says(s.kv.token_usage, width, th);
}

proof fn hit_says<N: Num>(l: Seq<LineView>, at: int, s: Snapshot<N>, n: nat, th: Theme, dim: bool)
    requires
        0 <= at < l.len(),
        l[at] == hit_line(s.kv, n, th, dim),
    ensures
        lines_say(
            l,
            "hit "@,
            "hit "@,
            pct_text(s.kv.cache_hit_rate) + "/"@ + pct_text(
                peak_from(newest(s.kv.cache_hit_series@, n), N::zero_spec()),
            ),
        ),
{
    let v = pct_text(s.kv.cache_hit_rate) + "/"@ + pct_text(
        peak_from(newest(s.kv.cache_hit_series@, n), N::zero_spec()),
    );
    known_says(l[at], 0, v, 12, th, dim);
    line_is_among(l, at, "hit "@, "hit "@, v);
}

proof fn meter_says<N: Num>(v: N, width: nat, th: Theme)
    ensures
        says(plain_text(metered(v, width, th)), " "@, pct_text(v)),
{
    let l = metered(v, width, th);
    let i = meter_line(v, width, "cpu"@, th).len() as int;
    assert(l[i].text =~= Seq::empty() + " "@ + blanks(0) + pct_text(v) + Seq::empty());
    says_within(l, i, Seq::empty(), " "@, 0, pct_text(v), Seq::empty());
}

}
