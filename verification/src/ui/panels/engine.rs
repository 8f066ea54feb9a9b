//! The engine box: headline rates, a busy meter, totals.
use crate::model::hist::{newest, Ring};
use crate::model::snapshot::{EnginePanel, Snapshot};
use crate::num::{or_zero, peak, peak_from, value_or_zero, Num};
use crate::text::{cat, cat3, cat4, has_suffix, opt_view, pad_left, padded_left};
use crate::ui::cells::{add_span, bold, extend_spans, fits, ink, lines_view, plain, push_line,
    shaped, sp, spans_view, Buffer, Color, Grid, Line, LineView, Rect, Span, SpanView};
use crate::ui::frame::{below, lines_written, rest_of, write_lines};
use crate::ui::panels::human::{count_text, human_count, human_rate, hundredths_text, rate_text,
    unknown_is_never_a_number, value_span};
use crate::ui::panels::rows::{add_known, add_main, add_note, add_title, add_value, fixed_if_known,
    fixed_known, known_sp, main_sp, note_sp, title_sp};
use crate::ui::theme::Theme;
use crate::ui::widgets::meter::{meter_line, meter_spans};
use crate::ui::widgets::{area_drawn, area_graph, Gui};
use vstd::prelude::*;
use vstd::string::*;

verus! {

/// How many samples the graph of a box of `width` columns shows: one to a column, two
/// in the dotted style.
pub open spec fn window_of(width: u16, gui: Gui) -> nat {
    let inner = if width < 2 {
        0
    } else {
        (width - 2) as nat
    };
    if gui.braille_graphs {
        2 * inner
    } else {
        inner
    }
}

/// How many samples the graph of a box shows.
pub fn window_for(width: u16, gui: Gui) -> (r: usize)
    ensures
        r == window_of(width, gui),
{
    let inner: usize = width.saturating_sub(2) as usize;
    if gui.braille_graphs {
        2 * inner
    } else {
        inner
    }
}

/// A rate and the peak of the samples that the graph shows.
pub open spec fn pair_text<N: Num>(cur: Option<N>, series: Seq<N>, window: nat) -> Option<Seq<char>> {
    match cur {
        Some(c) => Some(
            rate_text(c) + "/"@ + rate_text(peak_from(newest(series, window), N::zero_spec()))
                + " tok/s"@,
        ),
        None => None,
    }
}

/// A rate and the peak of the samples that the graph shows.
fn pair_of<N: Num>(cur: Option<N>, series: &Ring<N>, window: usize) -> (r: Option<String>)
    ensures
        opt_view(r) == pair_text(cur, series@, window as nat),
{
    match cur {
        Some(c) => {
            let vis = series.tail_owned(window);
            let top = peak(&vis, N::zero());
            Some(cat4(human_rate(c).as_str(), "/", human_rate(top).as_str(), " tok/s"))
        },
        None => None,
    }
}

/// The rates of generation, prefill and decode.
pub open spec fn rates_line<N: Num>(e: EnginePanel<N>, window: nat, th: Theme, dim: bool) -> LineView {
    seq![
        title_sp("gen "@, th),
        value_span(pair_text(Some(e.gen_throughput), e.gen_series@, window), 18, th, dim),
        title_sp("  prefill "@, th),
        value_span(pair_text(e.prefill_tps, e.prefill_series@, window), 18, th, dim),
        title_sp("  decode "@, th),
        value_span(pair_text(e.decode_tps, e.token_rate_series@, window), 18, th, dim),
    ]
}

fn rates_row<N: Num>(e: &EnginePanel<N>, window: usize, th: &Theme, dim: bool) -> (l: Vec<Span>)
    ensures
        spans_view(l@) == rates_line(*e, window as nat, *th, dim),
{
    let mut l: Vec<Span> = Vec::new();
    add_title(&mut l, "gen ", th);
    add_value(&mut l, pair_of(Some(e.gen_throughput), &e.gen_series, window), 18, th, dim);
    add_title(&mut l, "  prefill ", th);
    add_value(&mut l, pair_of(e.prefill_tps, &e.prefill_series, window), 18, th, dim);
    add_title(&mut l, "  decode ", th);
    add_value(&mut l, pair_of(e.decode_tps, &e.token_rate_series, window), 18, th, dim);
    assert(spans_view(l@) =~= rates_line(*e, window as nat, *th, dim));
    l
}

/// A share in percent, right-aligned in four columns.
pub open spec fn four_pct<N: Num>(v: N) -> Seq<char> {
    padded_left(hundredths_text(v), 4) + "%"@
}

/// A share in percent, right-aligned in four columns.
pub fn in_four<N: Num>(v: N) -> (r: String)
    ensures
        r@ == four_pct(v),
{
    cat(pad_left(v.times(N::of_count(100)).fixed(0).as_str(), 4).as_str(), "%")
}

/// The share of time that the engine is busy, in percent; N/A where it is unknown.
pub open spec fn busy_readout<N: Num>(v: Option<N>, th: Theme, dim: bool) -> SpanView {
    match v {
        Some(v) => main_sp(" "@ + four_pct(v), th),
        None => value_span(None, 6, th, dim),
    }
}

/// The busy meter, empty where the share is unknown.
pub open spec fn busy_line<N: Num>(e: EnginePanel<N>, th: Theme, dim: bool) -> LineView {
    seq![title_sp("engine busy "@, th)] + meter_line(or_zero(e.utilization), 24, "cpu"@, th) + seq![
        busy_readout(e.utilization, th, dim),
        title_sp("  fwd "@, th),
        value_span(fixed_known(e.fwd_occupancy, 1, "%"@), 8, th, dim),
    ]
}

fn busy_row<N: Num>(e: &EnginePanel<N>, th: &Theme, dim: bool) -> (l: Vec<Span>)
    ensures
        spans_view(l@) == busy_line(*e, *th, dim),
{
    let mut l: Vec<Span> = Vec::new();
    add_title(&mut l, "engine busy ", th);
    extend_spans(&mut l, meter_spans(value_or_zero(e.utilization), 24, "cpu", th));
    match e.utilization {
        Some(v) => add_main(&mut l, cat(" ", in_four(v).as_str()).as_str(), th),
        None => add_value(&mut l, None, 6, th, dim),
    }
    add_title(&mut l, "  fwd ", th);
    add_value(&mut l, fixed_if_known(e.fwd_occupancy, 1, "%"), 8, th, dim);
    assert(spans_view(l@) =~= busy_line(*e, *th, dim));
    l
}

/// The mean context of a running sequence; none while nothing runs, since an average
/// over no sequence is meaningless.
pub open spec fn context_spans<N: Num>(e: EnginePanel<N>, th: Theme, dim: bool) -> LineView {
    match e.decode_ctx_sum {
        Some(sum) => if e.running_reqs > 0 {
            let mean = sum.over_spec(N::of_count_spec(e.running_reqs));
            seq![
                title_sp("  ctx "@, th),
                known_sp(count_text(mean.to_count_spec()), 8, th, dim),
            ]
        } else {
            Seq::empty()
        },
        None => Seq::empty(),
    }
}

/// The cores that the tokenizer and the detokenizer use.
pub open spec fn cores_spans<N: Num>(e: EnginePanel<N>, th: Theme, dim: bool) -> LineView {
    if e.tokenizer_cores is Some || e.detokenizer_cores is Some {
        seq![
            title_sp("  tok "@, th),
            value_span(fixed_known(e.tokenizer_cores, 1, "c"@), 7, th, dim),
            note_sp("  detok "@, th),
            value_span(fixed_known(e.detokenizer_cores, 1, "c"@), 7, th, dim),
        ]
    } else {
        Seq::empty()
    }
}

/// The requests, and what goes with them.
pub open spec fn requests_line<N: Num>(e: EnginePanel<N>, th: Theme, dim: bool) -> LineView {
    seq![
        title_sp("running "@, th),
        known_sp(count_text(e.running_reqs), 8, th, dim),
        title_sp("  waiting "@, th),
        known_sp(count_text(e.waiting_reqs), 8, th, dim),
    ] + context_spans(e, th, dim) + cores_spans(e, th, dim)
}

fn requests_row<N: Num>(e: &EnginePanel<N>, th: &Theme, dim: bool) -> (l: Vec<Span>)
    ensures
        spans_view(l@) == requests_line(*e, *th, dim),
{
    let mut l: Vec<Span> = Vec::new();
    add_title(&mut l, "running ", th);
    add_known(&mut l, human_count(e.running_reqs), 8, th, dim);
    add_title(&mut l, "  waiting ", th);
    add_known(&mut l, human_count(e.waiting_reqs), 8, th, dim);
    if let Some(sum) = e.decode_ctx_sum {
        if e.running_reqs > 0 {
            let mean = sum.over(N::of_count(e.running_reqs));
            add_title(&mut l, "  ctx ", th);
            add_known(&mut l, human_count(mean.to_count()), 8, th, dim);
        }
    }
    if e.tokenizer_cores.is_some() || e.detokenizer_cores.is_some() {
        add_title(&mut l, "  tok ", th);
        add_value(&mut l, fixed_if_known(e.tokenizer_cores, 1, "c"), 7, th, dim);
        add_note(&mut l, "  detok ", th);
        add_value(&mut l, fixed_if_known(e.detokenizer_cores, 1, "c"), 7, th, dim);
    }
    assert(spans_view(l@) =~= requests_line(*e, *th, dim));
    l
}

/// The colour of a share of passes under graphs: one below 95% stands out.
pub open spec fn coverage_color<N: Num>(share: N, th: Theme, dim: bool) -> Color {
    if dim {
        th.color("inactive_fg"@)
    } else if share.less_spec(N::of_count_spec(95).over_spec(N::of_count_spec(100))) {
        th.color("hi_fg"@)
    } else {
        th.color("main_fg"@)
    }
}

/// Graph coverage and admission pressure, as far as they are known.
pub open spec fn internals_line<N: Num>(e: EnginePanel<N>, th: Theme, dim: bool) -> LineView {
    let coverage = match e.cg_decode_share {
        Some(v) => seq![
            title_sp("cg "@, th),
            sp(four_pct(v), ink(coverage_color(v, th, dim))),
        ],
        None => Seq::empty(),
    };
    let admission = match e.new_token_ratio {
        Some(v) => seq![title_sp("admit "@, th), main_sp(four_pct(v), th)],
        None => Seq::empty(),
    };
    let gap = if e.cg_decode_share is Some && e.new_token_ratio is Some {
        seq![sp("  "@, plain())]
    } else {
        Seq::empty()
    };
    coverage + gap + admission
}

fn internals_row<N: Num>(e: &EnginePanel<N>, th: &Theme, dim: bool) -> (l: Vec<Span>)
    ensures
        spans_view(l@) == internals_line(*e, *th, dim),
{
    let mut l: Vec<Span> = Vec::new();
    if let Some(v) = e.cg_decode_share {
        let color = if dim {
            th.c("inactive_fg")
        } else if v.less(N::of_count(95).over(N::of_count(100))) {
            th.c("hi_fg")
        } else {
            th.c("main_fg")
        };
        add_title(&mut l, "cg ", th);
        add_span(&mut l, in_four(v).as_str(), ink(color));
    }
    if let Some(v) = e.new_token_ratio {
        if e.cg_decode_share.is_some() {
            add_span(&mut l, "  ", plain());
        }
        add_title(&mut l, "admit ", th);
        add_main(&mut l, in_four(v).as_str(), th);
    }
    assert(spans_view(l@) =~= internals_line(*e, *th, dim));
    l
}

/// The lines of the engine box.
pub open spec fn engine_lines<N: Num>(s: Snapshot<N>, th: Theme, window: nat) -> Seq<LineView> {
    let e = s.engine;
    let dim = s.conn.dimmed_spec();
    let internals = if e.cg_decode_share is Some || e.new_token_ratio is Some {
        seq![internals_line(e, th, dim)]
    } else {
        Seq::empty()
    };
    let paused = match s.paused {
        Some(reason) => seq![seq![sp("PAUSED — "@ + reason@, bold(th.color("hi_fg"@)))]],
        None => Seq::empty(),
    };
    seq![rates_line(e, window, th, dim), busy_line(e, th, dim), requests_line(e, th, dim)] + internals
        + paused
}

fn engine_rows<N: Num>(s: &Snapshot<N>, th: &Theme, window: usize) -> (r: Vec<Line>)
    ensures
        lines_view(r@) == engine_lines(*s, *th, window as nat),
{
    let e = &s.engine;
    let dim = s.conn.dimmed();
    let mut lines: Vec<Line> = Vec::new();
    push_line(&mut lines, rates_row(e, window, th, dim));
    push_line(&mut lines, busy_row(e, th, dim));
    push_line(&mut lines, requests_row(e, th, dim));
    if e.cg_decode_share.is_some() || e.new_token_ratio.is_some() {
        push_line(&mut lines, internals_row(e, th, dim));
    }
    if let Some(reason) = &s.paused {
        let mut l: Vec<Span> = Vec::new();
        add_span(&mut l, cat("PAUSED — ", reason.as_str()).as_str(), bold(th.c("hi_fg")));
        assert(spans_view(l@) =~= seq![sp("PAUSED — "@ + reason@, bold(th.color("hi_fg"@)))]);
        push_line(&mut lines, l);
    }
    assert(lines_view(lines@) =~= engine_lines(*s, *th, window as nat));
    lines
}

/// The note on the peak of a graph; the dotted style has none, nor has an empty graph.
pub open spec fn peak_text<N: Num>(series: Seq<N>, gui: Gui, unit: Seq<char>) -> Option<Seq<char>> {
    if gui.braille_graphs || series.len() == 0 {
        None
    } else {
        Some("↑ "@ + rate_text(peak_from(series, N::zero_spec())) + unit)
    }
}

/// The note on the peak of a graph.
pub fn peak_of<N: Num>(series: &Vec<N>, gui: Gui, unit: &str) -> (r: Option<String>)
    ensures
        opt_view(r) == peak_text(series@, gui, unit@),
{
    if gui.braille_graphs || series.len() == 0 {
        None
    } else {
        Some(cat3("↑ ", human_rate(peak(series, N::zero())).as_str(), unit))
    }
}

/// The grid with the engine box on the inside of `rect`: its lines, and below them the
/// graph of the generation rate.
pub open spec fn engine_drawn<N: Num>(
    g: Grid,
    s: Snapshot<N>,
    th: Theme,
    gui: Gui,
    rect: Rect,
) -> Grid {
    let lines = engine_lines(s, th, window_of(rect.width, gui));
    area_drawn(
        lines_written(g, rect, lines),
        rest_of(rect, lines.len() as int),
        s.engine.gen_series@,
        th,
        "cpu"@,
        gui.braille_graphs,
        peak_text(s.engine.gen_series@, gui, " tok/s"@),
    )
}

/// The engine box: headline rates, a busy meter, totals. "Engine busy" is the
/// *software* forward-time ratio, deliberately not labelled "GPU".
pub fn engine<N: Num>(s: &Snapshot<N>, th: &Theme, gui: Gui, rect: Rect, buf: &mut Buffer)
    requires
        fits(rect, old(buf).w(), old(buf).h()),
    ensures
        final(buf).w() == old(buf).w(),
        final(buf).h() == old(buf).h(),
        shaped(old(buf)@, old(buf).w() as int, old(buf).h() as int),
        shaped(final(buf)@, old(buf).w() as int, old(buf).h() as int),
        final(buf)@ == engine_drawn(old(buf)@, *s, *th, gui, rect),
{
    let lines = engine_rows(s, th, window_for(rect.width, gui));
    write_lines(buf, rect, &lines);
    let graph = below(rect, lines.len(), buf);
    let series = s.engine.gen_series.samples();
    let note = peak_of(&series, gui, " tok/s");
    area_graph(buf, graph, &series, th, "cpu", gui.braille_graphs, note);
}

// ---- laws ----

/// An engine whose busy share is unknown is not shown as idle: the readout says N/A.
pub proof fn unknown_is_not_idle<N: Num>(th: Theme, dim: bool)
    ensures
        has_suffix(busy_readout::<N>(None, th, dim).text, "N/A"@),
        busy_readout::<N>(None, th, dim).style.italic,
{
    unknown_is_never_a_number(None, 6, th, dim);
}

}
