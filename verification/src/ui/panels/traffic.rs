//! The traffic box: tokens in both directions, requests, caches and latencies.
use crate::model::snapshot::{Percentile, Snapshot, TrafficPanel};
use crate::num::Num;
use crate::text::{cat, cat4, opt_view, same};
use crate::ui::cells::{add_span, fits, ink, lines_view, push_line, shaped, sp, spans_view, Buffer,
    Grid, Line, LineView, Rect, Span, SpanView};
use crate::ui::frame::{below, lines_written, rest_of, write_lines};
use crate::ui::panels::engine::{peak_of, peak_text};
use crate::ui::panels::human::{count_text, human_count, human_pct, human_rate, pct_text, rate_text,
    value_span};
use crate::ui::panels::kv::inner_width;
use crate::ui::panels::rows::{add_known, add_note, add_title, add_value, count_if_known, count_known,
    duration_if_known, duration_known, known_sp, note_sp, rate_if_known, rate_known, title_sp};
use crate::ui::theme::Theme;
use crate::ui::widgets::{area_drawn, area_graph, Gui};
use crate::ui::width::{line_width, width_of};
use vstd::prelude::*;
use vstd::string::*;
use vstd::utf8::encode_utf8;

verus! {

// ---- tokens and requests ----

/// One direction: the current rate, its peak, and all tokens so far.
pub open spec fn direction_line<N: Num>(
    dir: Seq<char>,
    cur: N,
    top: N,
    accum: u64,
    th: Theme,
    dim: bool,
) -> LineView {
    seq![
        title_sp(dir + " "@, th),
        known_sp(rate_text(cur), 8, th, dim),
        note_sp("  peak "@, th),
        known_sp(rate_text(top), 8, th, dim),
        note_sp("  accum "@, th),
        known_sp(count_text(accum), 10, th, dim),
        note_sp(" tok"@, th),
    ]
}

fn direction_row<N: Num>(dir: &str, cur: N, top: N, accum: u64, th: &Theme, dim: bool) -> (l: Vec<Span>)
    ensures
        spans_view(l@) == direction_line(dir@, cur, top, accum, *th, dim),
{
    let mut l: Vec<Span> = Vec::new();
    add_title(&mut l, cat(dir, " ").as_str(), th);
    add_known(&mut l, human_rate(cur), 8, th, dim);
    add_note(&mut l, "  peak ", th);
    add_known(&mut l, human_rate(top), 8, th, dim);
    add_note(&mut l, "  accum ", th);
    add_known(&mut l, human_count(accum), 10, th, dim);
    add_note(&mut l, " tok", th);
    assert(spans_view(l@) =~= direction_line(dir@, cur, top, accum, *th, dim));
    l
}

/// The requests.
pub open spec fn requests_line<N: Num>(t: TrafficPanel<N>, th: Theme, dim: bool) -> LineView {
    seq![
        title_sp("req "@, th),
        known_sp(rate_text(t.req_rate_in), 8, th, dim),
        note_sp("  total "@, th),
        known_sp(count_text(t.total_requests), 10, th, dim),
        note_sp("  aborted "@, th),
        known_sp(count_text(t.aborted), 8, th, dim),
    ]
}

fn requests_row<N: Num>(t: &TrafficPanel<N>, th: &Theme, dim: bool) -> (l: Vec<Span>)
    ensures
        spans_view(l@) == requests_line(*t, *th, dim),
{
    let mut l: Vec<Span> = Vec::new();
    add_title(&mut l, "req ", th);
    add_known(&mut l, human_rate(t.req_rate_in), 8, th, dim);
    add_note(&mut l, "  total ", th);
    add_known(&mut l, human_count(t.total_requests), 10, th, dim);
    add_note(&mut l, "  aborted ", th);
    add_known(&mut l, human_count(t.aborted), 8, th, dim);
    assert(spans_view(l@) =~= requests_line(*t, *th, dim));
    l
}

/// The server's own HTTP counters.
pub open spec fn http_line<N: Num>(t: TrafficPanel<N>, th: Theme, dim: bool) -> LineView {
    seq![
        title_sp("http "@, th),
        note_sp("rps "@, th),
        value_span(rate_known(t.http_rps), 7, th, dim),
        note_sp(" active "@, th),
        value_span(count_known(t.http_active), 6, th, dim),
        note_sp(" err/s "@, th),
        value_span(rate_known(t.http_err_rate), 7, th, dim),
    ]
}

fn http_row<N: Num>(t: &TrafficPanel<N>, th: &Theme, dim: bool) -> (l: Vec<Span>)
    ensures
        spans_view(l@) == http_line(*t, *th, dim),
{
    let mut l: Vec<Span> = Vec::new();
    add_title(&mut l, "http ", th);
    add_note(&mut l, "rps ", th);
    add_value(&mut l, rate_if_known(t.http_rps), 7, th, dim);
    add_note(&mut l, " active ", th);
    add_value(&mut l, count_if_known(t.http_active), 6, th, dim);
    add_note(&mut l, " err/s ", th);
    add_value(&mut l, rate_if_known(t.http_err_rate), 7, th, dim);
    assert(spans_view(l@) =~= http_line(*t, *th, dim));
    l
}

// ---- the cache ----

/// The tokens that came out of any tier of the cache, held to the largest count.
pub open spec fn cached_all<N: Num>(t: TrafficPanel<N>) -> u64 {
    let sum = t.cached_device_total + t.cached_host_total + t.cached_storage_total;
    if sum > u64::MAX {
        u64::MAX
    } else {
        sum as u64
    }
}

/// The share of all prompt tokens that came out of the cache.
pub open spec fn cached_share<N: Num>(t: TrafficPanel<N>) -> N {
    if t.prompt_total_tokens > 0 {
        N::of_count_spec(cached_all(t)).over_spec(N::of_count_spec(t.prompt_total_tokens))
    } else {
        N::zero_spec()
    }
}

/// Whether a tier beside the device has hits.
pub open spec fn has_tiers<N: Num>(t: TrafficPanel<N>) -> bool {
    t.cached_host_total > 0 || t.cached_storage_total > 0
}

/// A count of a tier.
pub open spec fn tier_sp(n: u64, th: Theme, dim: bool) -> SpanView {
    sp(
        count_text(n),
        ink(
            if dim {
                th.color("inactive_fg"@)
            } else {
                th.color("main_fg"@)
            },
        ),
    )
}

/// A rate of tokens.
pub open spec fn token_rate<N: Num>(v: Option<N>) -> Option<Seq<char>> {
    match v {
        Some(x) => Some(rate_text(x) + " tok/s"@),
        None => None,
    }
}

/// A tier beside the device; one without hits is not shown.
pub open spec fn tier_spans(label: Seq<char>, n: u64, th: Theme, dim: bool) -> LineView {
    if n > 0 {
        seq![note_sp(label, th), tier_sp(n, th, dim)]
    } else {
        Seq::empty()
    }
}

/// The cache: its tiers where there are any, else the rate of the device.
pub open spec fn cache_head<N: Num>(t: TrafficPanel<N>, th: Theme, dim: bool) -> LineView {
    if has_tiers(t) {
        seq![
            title_sp("cache "@, th),
            note_sp("all "@, th),
            tier_sp(cached_all(t), th, dim),
            note_sp("  d "@, th),
            tier_sp(t.cached_device_total, th, dim),
        ] + tier_spans("  h "@, t.cached_host_total, th, dim) + tier_spans(
            "  s "@,
            t.cached_storage_total,
            th,
            dim,
        )
    } else {
        seq![
            title_sp("cache "@, th),
            note_sp("rate "@, th),
            value_span(token_rate(t.cached_device_tps), 12, th, dim),
            note_sp(" all "@, th),
            known_sp(
                pct_text(cached_share(t)) + " ("@ + count_text(cached_all(t)) + ")"@,
                14,
                th,
                dim,
            ),
        ]
    }
}

/// The all-time share behind the tiers.
pub open spec fn share_text<N: Num>(t: TrafficPanel<N>) -> Seq<char> {
    "  "@ + pct_text(cached_share(t))
}

/// The share of the last window, where the server counts it.
pub open spec fn now_text<N: Num>(t: TrafficPanel<N>) -> Option<Seq<char>> {
    if t.cache_window_known {
        match t.cache_window_share {
            Some(v) => Some("  now "@ + pct_text(v)),
            None => Some("  now N/A"@),
        }
    } else {
        None
    }
}

/// Whether a text fits behind `used` columns.
pub open spec fn has_room(used: nat, text: Seq<char>, room: int) -> bool {
    used + encode_utf8(text).len() <= room
}

/// Whether the all-time share is shown: there are tiers, and it fits together with the
/// share of the window, or alone where that one is not shown.
pub open spec fn keeps_share<N: Num>(t: TrafficPanel<N>, used: nat, room: int) -> bool {
    has_tiers(t) && has_room(used, share_text(t), room) && match now_text(t) {
        Some(now) => has_room(used, share_text(t) + now, room) || !has_room(used, now, room),
        None => true,
    }
}

/// Whether the share of the window is shown.
pub open spec fn keeps_now<N: Num>(t: TrafficPanel<N>, used: nat, room: int) -> bool {
    match now_text(t) {
        Some(now) => has_room(used, now, room),
        None => false,
    }
}

/// The shares at the end of the row on the cache, behind `used` of `room` columns: both
/// where they fit together, else that of the window, else the all-time one.
pub open spec fn cache_tail<N: Num>(t: TrafficPanel<N>, th: Theme, used: nat, room: int) -> LineView {
    let share = if keeps_share(t, used, room) {
        seq![note_sp(share_text(t), th)]
    } else {
        Seq::empty()
    };
    let now = if keeps_now(t, used, room) {
        seq![note_sp(now_text(t)->0, th)]
    } else {
        Seq::empty()
    };
    share + now
}

/// The row on the cache in `room` columns.
pub open spec fn cache_line<N: Num>(t: TrafficPanel<N>, th: Theme, dim: bool, room: int) -> LineView {
    let head = cache_head(t, th, dim);
    head + cache_tail(t, th, line_width(head), room)
}

/// Adds a count of a tier to a row.
fn add_tier(l: &mut Vec<Span>, n: u64, th: &Theme, dim: bool)
    ensures
        spans_view(final(l)@) == spans_view(old(l)@).push(tier_sp(n, *th, dim)),
{
    let color = if dim {
        th.c("inactive_fg")
    } else {
        th.c("main_fg")
    };
    add_span(l, human_count(n).as_str(), ink(color));
}

/// The tokens that came out of any tier, and their share of all prompt tokens.
fn cached_of<N: Num>(t: &TrafficPanel<N>) -> (r: (u64, N))
    ensures
        r.0 == cached_all(*t),
        r.1 == cached_share(*t),
{
    let all: u64 = t.cached_device_total.saturating_add(t.cached_host_total).saturating_add(
        t.cached_storage_total,
    );
    let share = if t.prompt_total_tokens > 0 {
        N::of_count(all).over(N::of_count(t.prompt_total_tokens))
    } else {
        N::zero()
    };
    (all, share)
}

fn cache_head_row<N: Num>(t: &TrafficPanel<N>, th: &Theme, dim: bool) -> (l: Vec<Span>)
    ensures
        spans_view(l@) == cache_head(*t, *th, dim),
{
    let (all, share) = cached_of(t);
    let mut l: Vec<Span> = Vec::new();
    add_title(&mut l, "cache ", th);
    if t.cached_host_total > 0 || t.cached_storage_total > 0 {
        add_note(&mut l, "all ", th);
        add_tier(&mut l, all, th, dim);
        add_note(&mut l, "  d ", th);
        add_tier(&mut l, t.cached_device_total, th, dim);
        if t.cached_host_total > 0 {
            add_note(&mut l, "  h ", th);
            add_tier(&mut l, t.cached_host_total, th, dim);
        }
        if t.cached_storage_total > 0 {
            add_note(&mut l, "  s ", th);
            add_tier(&mut l, t.cached_storage_total, th, dim);
        }
    } else {
        add_note(&mut l, "rate ", th);
        let rate = match t.cached_device_tps {
            Some(v) => Some(cat(human_rate(v).as_str(), " tok/s")),
            None => None,
        };
        add_value(&mut l, rate, 12, th, dim);
        add_note(&mut l, " all ", th);
        add_known(
            &mut l,
            cat4(human_pct(share).as_str(), " (", human_count(all).as_str(), ")"),
            14,
            th,
            dim,
        );
    }
    assert(spans_view(l@) =~= cache_head(*t, *th, dim));
    l
}

/// Whether a text fits behind `used` columns.
fn room_for(used: usize, text: &str, room: usize) -> (r: bool)
    ensures
        room < usize::MAX ==> r == has_room(used as nat, text@, room as int),
{
    used.saturating_add(text.as_bytes().len()) <= room
}

/// Adds the shares at the end of the row on the cache, behind `used` of `room` columns.
pub fn add_cache_tail<N: Num>(
    l: &mut Vec<Span>,
    t: &TrafficPanel<N>,
    th: &Theme,
    used: usize,
    room: usize,
)
    requires
        room <= 0xffff,
    ensures
        spans_view(final(l)@) == spans_view(old(l)@) + cache_tail(
            *t,
            *th,
            used as nat,
            room as int,
        ),
{
    let (all, share) = cached_of(t);
    let share_pct = cat("  ", human_pct(share).as_str());
    let now = if t.cache_window_known {
        match t.cache_window_share {
            Some(v) => Some(cat("  now ", human_pct(v).as_str())),
            None => Some("  now N/A".to_owned()),
        }
    } else {
        None
    };
    assert(opt_view(now) == now_text(*t));
    let tiers = t.cached_host_total > 0 || t.cached_storage_total > 0;
    let keep_share = tiers && room_for(used, share_pct.as_str(), room) && match &now {
        Some(n) => room_for(used, cat(share_pct.as_str(), n.as_str()).as_str(), room)
            || !room_for(used, n.as_str(), room),
        None => true,
    };
    let keep_now = match &now {
        Some(n) => room_for(used, n.as_str(), room),
        None => false,
    };
    assert(keep_share == keeps_share(*t, used as nat, room as int));
    assert(keep_now == keeps_now(*t, used as nat, room as int));
    if keep_share {
        add_note(l, share_pct.as_str(), th);
    }
    if keep_now {
        if let Some(n) = &now {
            add_note(l, n.as_str(), th);
        }
    }
    assert(spans_view(l@) =~= spans_view(old(l)@) + cache_tail(
        *t,
        *th,
        used as nat,
        room as int,
    ));
}

fn cache_row<N: Num>(t: &TrafficPanel<N>, th: &Theme, dim: bool, room: usize) -> (l: Vec<Span>)
    requires
        room <= 0xffff,
    ensures
        spans_view(l@) == cache_line(*t, *th, dim, room as int),
{
    let mut l = cache_head_row(t, th, dim);
    let ghost head = spans_view(l@);
    let used: usize = width_of(&l);
    add_cache_tail(&mut l, t, th, used, room);
    proof {
        if line_width(head) > usize::MAX {
            assert(cache_tail(*t, *th, used as nat, room as int) =~= cache_tail(
                *t,
                *th,
                line_width(head),
                room as int,
            ));
        }
    }
    l
}

// ---- lengths and queues ----

/// A mean length in tokens.
pub open spec fn length_text<N: Num>(v: Option<N>) -> Option<Seq<char>> {
    match v {
        Some(x) => Some(count_text(x.to_count_spec()) + " tok"@),
        None => None,
    }
}

/// A mean length in tokens.
fn length_of<N: Num>(v: Option<N>) -> (r: Option<String>)
    ensures
        opt_view(r) == length_text(v),
{
    match v {
        Some(x) => Some(cat(human_count(x.to_count()).as_str(), " tok")),
        None => None,
    }
}

/// The mean lengths of the requests of the last window, where the server counts them;
/// `N/A` while the window is quiet. What is computed of a prompt stands beside it where
/// the server counts that too.
pub open spec fn length_lines<N: Num>(t: TrafficPanel<N>, th: Theme, dim: bool) -> Seq<LineView> {
    if t.avg_prompt_len is Some || t.avg_gen_len is Some || t.avg_uncached_len is Some {
        let computed = if t.avg_uncached_len is Some {
            seq![
                note_sp(" comp "@, th),
                value_span(length_text(t.len_window@[2]), 9, th, dim),
            ]
        } else {
            Seq::empty()
        };
        seq![
            seq![
                title_sp("len "@, th),
                note_sp("in "@, th),
                value_span(length_text(t.len_window@[0]), 10, th, dim),
                note_sp(" out "@, th),
                value_span(length_text(t.len_window@[1]), 8, th, dim),
            ] + computed,
        ]
    } else {
        Seq::empty()
    }
}

fn add_lengths<N: Num>(lines: &mut Vec<Line>, t: &TrafficPanel<N>, th: &Theme, dim: bool)
    ensures
        lines_view(final(lines)@) == lines_view(old(lines)@) + length_lines(*t, *th, dim),
{
    if t.avg_prompt_len.is_some() || t.avg_gen_len.is_some() || t.avg_uncached_len.is_some() {
        let mut l: Vec<Span> = Vec::new();
        add_title(&mut l, "len ", th);
        add_note(&mut l, "in ", th);
        add_value(&mut l, length_of(t.len_window[0]), 10, th, dim);
        add_note(&mut l, " out ", th);
        add_value(&mut l, length_of(t.len_window[1]), 8, th, dim);
        if t.avg_uncached_len.is_some() {
            add_note(&mut l, " comp ", th);
            add_value(&mut l, length_of(t.len_window[2]), 9, th, dim);
        }
        assert(spans_view(l@) =~= length_lines(*t, *th, dim)[0]);
        push_line(lines, l);
    }
    assert(lines_view(lines@) =~= lines_view(old(lines)@) + length_lines(*t, *th, dim));
}

/// The requests that wait or were put back.
pub open spec fn queues_line<N: Num>(t: TrafficPanel<N>, th: Theme, dim: bool) -> LineView {
    seq![
        title_sp("retracted "@, th),
        known_sp(count_text(t.retracted), 8, th, dim),
        note_sp("  paused "@, th),
        known_sp(count_text(t.paused), 6, th, dim),
        note_sp("  grammar "@, th),
        known_sp(count_text(t.grammar_queue), 6, th, dim),
    ]
}

fn queues_row<N: Num>(t: &TrafficPanel<N>, th: &Theme, dim: bool) -> (l: Vec<Span>)
    ensures
        spans_view(l@) == queues_line(*t, *th, dim),
{
    let mut l: Vec<Span> = Vec::new();
    add_title(&mut l, "retracted ", th);
    add_known(&mut l, human_count(t.retracted), 8, th, dim);
    add_note(&mut l, "  paused ", th);
    add_known(&mut l, human_count(t.paused), 6, th, dim);
    add_note(&mut l, "  grammar ", th);
    add_known(&mut l, human_count(t.grammar_queue), 6, th, dim);
    assert(spans_view(l@) =~= queues_line(*t, *th, dim));
    l
}

/// Whether the server takes part in a disaggregation.
pub open spec fn disaggregated(mode: Seq<char>) -> bool {
    mode == "prefill"@ || mode == "decode"@ || mode == "both"@
}

/// A queue of a disaggregated server.
pub open spec fn stage_queue(label: Seq<char>, v: Option<u64>, th: Theme) -> SpanView {
    note_sp(
        " "@ + label + match v {
            Some(n) => count_text(n),
            None => "N/A"@,
        } + " "@,
        th,
    )
}

/// The queues of a disaggregated server. The gauges exist on every server, but a nought
/// that means "no such topology" must not stand next to one that means "empty".
pub open spec fn stage_lines<N: Num>(
    t: TrafficPanel<N>,
    mode: Seq<char>,
    th: Theme,
) -> Seq<LineView> {
    if disaggregated(mode) {
        seq![
            seq![
                title_sp("pd "@, th),
                stage_queue("boot "@, t.pd_prefill_bootstrap, th),
                stage_queue("pre "@, t.pd_decode_prealloc, th),
                stage_queue("inflight "@, t.pd_prefill_inflight, th),
                stage_queue("xfer "@, t.pd_decode_transfer, th),
            ],
        ]
    } else {
        Seq::empty()
    }
}

/// Adds a queue of a disaggregated server to a row.
fn add_stage(l: &mut Vec<Span>, label: &str, v: Option<u64>, th: &Theme)
    ensures
        spans_view(final(l)@) == spans_view(old(l)@).push(stage_queue(label@, v, *th)),
{
    let count = match v {
        Some(n) => human_count(n),
        None => "N/A".to_owned(),
    };
    add_note(l, cat4(" ", label, count.as_str(), " ").as_str(), th);
}

fn add_stages<N: Num>(lines: &mut Vec<Line>, t: &TrafficPanel<N>, mode: &str, th: &Theme)
    ensures
        lines_view(final(lines)@) == lines_view(old(lines)@) + stage_lines(*t, mode@, *th),
{
    if same(mode, "prefill") || same(mode, "decode") || same(mode, "both") {
        let mut l: Vec<Span> = Vec::new();
        add_title(&mut l, "pd ", th);
        add_stage(&mut l, "boot ", t.pd_prefill_bootstrap, th);
        add_stage(&mut l, "pre ", t.pd_decode_prealloc, th);
        add_stage(&mut l, "inflight ", t.pd_prefill_inflight, th);
        add_stage(&mut l, "xfer ", t.pd_decode_transfer, th);
        assert(spans_view(l@) =~= stage_lines(*t, mode@, *th)[0]);
        push_line(lines, l);
    }
    assert(lines_view(lines@) =~= lines_view(old(lines)@) + stage_lines(*t, mode@, *th));
}

// ---- latencies ----

/// One of the values of a set of percentiles, where there is a set.
pub open spec fn pick<N: Num>(p: Option<Percentile<N>>, f: spec_fn(Percentile<N>) -> Option<N>) -> Option<
    N,
> {
    match p {
        Some(x) => f(x),
        None => None,
    }
}

/// The percentiles of a family that the server exposes.
pub open spec fn latency_lines<N: Num>(
    label: Seq<char>,
    known: bool,
    p: Option<Percentile<N>>,
    th: Theme,
    dim: bool,
) -> Seq<LineView> {
    if known {
        seq![
            seq![
                title_sp(label + " "@, th),
                note_sp("p50 "@, th),
                value_span(
                    duration_known(pick(p, |x: Percentile<N>| Some(x.p50))),
                    7,
                    th,
                    dim,
                ),
                note_sp(" p90 "@, th),
                value_span(
                    duration_known(pick(p, |x: Percentile<N>| Some(x.p90))),
                    7,
                    th,
                    dim,
                ),
                note_sp(" p99 "@, th),
                value_span(
                    duration_known(pick(p, |x: Percentile<N>| Some(x.p99))),
                    7,
                    th,
                    dim,
                ),
                note_sp(" μ "@, th),
                value_span(duration_known(pick(p, |x: Percentile<N>| x.mean)), 7, th, dim),
            ],
        ]
    } else {
        Seq::empty()
    }
}

fn add_latency<N: Num>(
    lines: &mut Vec<Line>,
    label: &str,
    known: bool,
    p: Option<Percentile<N>>,
    th: &Theme,
    dim: bool,
)
    ensures
        lines_view(final(lines)@) == lines_view(old(lines)@) + latency_lines(
            label@,
            known,
            p,
            *th,
            dim,
        ),
{
    if known {
        let (p50, p90, p99, mean) = match p {
            Some(x) => (Some(x.p50), Some(x.p90), Some(x.p99), x.mean),
            None => (None, None, None, None),
        };
        let mut l: Vec<Span> = Vec::new();
        add_title(&mut l, cat(label, " ").as_str(), th);
        add_note(&mut l, "p50 ", th);
        add_value(&mut l, duration_if_known(p50), 7, th, dim);
        add_note(&mut l, " p90 ", th);
        add_value(&mut l, duration_if_known(p90), 7, th, dim);
        add_note(&mut l, " p99 ", th);
        add_value(&mut l, duration_if_known(p99), 7, th, dim);
        add_note(&mut l, " μ ", th);
        add_value(&mut l, duration_if_known(mean), 7, th, dim);
        assert(spans_view(l@) =~= latency_lines(label@, known, p, *th, dim)[0]);
        push_line(lines, l);
    }
    assert(lines_view(lines@) =~= lines_view(old(lines)@) + latency_lines(
        label@,
        known,
        p,
        *th,
        dim,
    ));
}

// ---- the box ----

/// The lines that are always there.
pub open spec fn flow_lines<N: Num>(t: TrafficPanel<N>, th: Theme, dim: bool, room: int) -> Seq<LineView> {
    seq![
        direction_line("out"@, t.gen_tps, t.gen_peak_tps, t.gen_total_tokens, th, dim),
        direction_line("in "@, t.prompt_tps, t.prompt_peak_tps, t.prompt_total_tokens, th, dim),
        requests_line(t, th, dim),
        http_line(t, th, dim),
        cache_line(t, th, dim, room),
    ]
}

/// The lines of the traffic box.
pub open spec fn traffic_lines<N: Num>(s: Snapshot<N>, th: Theme, rect: Rect) -> Seq<LineView> {
    let t = s.traffic;
    let dim = s.conn.dimmed_spec();
    let l = t.latency;
    flow_lines(t, th, dim, inner_width(rect)) + length_lines(t, th, dim) + seq![
        queues_line(t, th, dim),
    ] + stage_lines(t, s.server.disaggregation_mode@, th) + latency_lines(
        "queue"@,
        l.known@[0],
        l.queue,
        th,
        dim,
    ) + latency_lines("ttft "@, l.known@[1], l.ttft, th, dim) + latency_lines(
        "itl  "@,
        l.known@[2],
        l.itl,
        th,
        dim,
    ) + latency_lines("e2e  "@, l.known@[3], l.e2e, th, dim)
}

/// A text of five lines.
fn five_lines(a: Vec<Span>, b: Vec<Span>, c: Vec<Span>, d: Vec<Span>, e: Vec<Span>) -> (r: Vec<Line>)
    ensures
        lines_view(r@) == seq![
            spans_view(a@),
            spans_view(b@),
            spans_view(c@),
            spans_view(d@),
            spans_view(e@),
        ],
{
    let ghost all = seq![
        spans_view(a@),
        spans_view(b@),
        spans_view(c@),
        spans_view(d@),
        spans_view(e@),
    ];
    let mut lines: Vec<Line> = Vec::new();
    push_line(&mut lines, a);
    push_line(&mut lines, b);
    push_line(&mut lines, c);
    push_line(&mut lines, d);
    push_line(&mut lines, e);
    assert(lines_view(lines@) =~= all);
    lines
}

fn flow_rows<N: Num>(t: &TrafficPanel<N>, th: &Theme, dim: bool, room: usize) -> (r: Vec<Line>)
    requires
        room <= 0xffff,
    ensures
        lines_view(r@) == flow_lines(*t, *th, dim, room as int),
{
    five_lines(
        direction_row("out", t.gen_tps, t.gen_peak_tps, t.gen_total_tokens, th, dim),
        direction_row("in ", t.prompt_tps, t.prompt_peak_tps, t.prompt_total_tokens, th, dim),
        requests_row(t, th, dim),
        http_row(t, th, dim),
        cache_row(t, th, dim, room),
    )
}

fn traffic_rows<N: Num>(s: &Snapshot<N>, th: &Theme, rect: Rect) -> (r: Vec<Line>)
    ensures
        lines_view(r@) == traffic_lines(*s, *th, rect),
{
    let t = &s.traffic;
    let dim = s.conn.dimmed();
    let mut lines = flow_rows(t, th, dim, rect.width.saturating_sub(2) as usize);
    add_lengths(&mut lines, t, th, dim);
    let ghost before = lines_view(lines@);
    push_line(&mut lines, queues_row(t, th, dim));
    assert(lines_view(lines@) =~= before + seq![queues_line(*t, *th, dim)]);
    add_stages(&mut lines, t, s.server.disaggregation_mode.as_str(), th);
    add_latency(&mut lines, "queue", t.latency.known[0], t.latency.queue, th, dim);
    add_latency(&mut lines, "ttft ", t.latency.known[1], t.latency.ttft, th, dim);
    add_latency(&mut lines, "itl  ", t.latency.known[2], t.latency.itl, th, dim);
    add_latency(&mut lines, "e2e  ", t.latency.known[3], t.latency.e2e, th, dim);
    lines
}

/// The upper half of a part.
pub open spec fn upper(r: Rect) -> Rect {
    Rect { x: r.x, y: r.y, width: r.width, height: r.height / 2 }
}

/// The lower half of a part; the odd row is its.
pub open spec fn lower(r: Rect) -> Rect {
    Rect {
        x: r.x,
        y: (r.y + r.height / 2) as u16,
        width: r.width,
        height: (r.height - r.height / 2) as u16,
    }
}

/// The grid with the traffic box on the inside of `rect`: its lines, and where two rows
/// are left the graphs of both directions, one above the other.
pub open spec fn traffic_drawn<N: Num>(
    g: Grid,
    s: Snapshot<N>,
    th: Theme,
    gui: Gui,
    rect: Rect,
) -> Grid {
    let lines = traffic_lines(s, th, rect);
    let lined = lines_written(g, rect, lines);
    let rest = rest_of(rect, lines.len() as int);
    if rest.height >= 2 {
        let out = s.traffic.gen_series@;
        let inward = s.traffic.prompt_series@;
        area_drawn(
            area_drawn(
                lined,
                upper(rest),
                out,
                th,
                "upload"@,
                gui.braille_graphs,
                peak_text(out, gui, ""@),
            ),
            lower(rest),
            inward,
            th,
            "download"@,
            gui.braille_graphs,
            peak_text(inward, gui, ""@),
        )
    } else {
        lined
    }
}

/// The traffic box: current, peak and accumulated tokens in both directions (out is
/// what was generated, in what was prompted), then the requests, the queues and the
/// latencies.
pub fn traffic<N: Num>(s: &Snapshot<N>, th: &Theme, gui: Gui, rect: Rect, buf: &mut Buffer)
    requires
        fits(rect, old(buf).w(), old(buf).h()),
    ensures
        final(buf).w() == old(buf).w(),
        final(buf).h() == old(buf).h(),
        shaped(old(buf)@, old(buf).w() as int, old(buf).h() as int),
        shaped(final(buf)@, old(buf).w() as int, old(buf).h() as int),
        final(buf)@ == traffic_drawn(old(buf)@, *s, *th, gui, rect),
{
    let lines = traffic_rows(s, th, rect);
    write_lines(buf, rect, &lines);
    let rest = below(rect, lines.len(), buf);
    if rest.height >= 2 {
        let half: u16 = rest.height / 2;
        let out = s.traffic.gen_series.samples();
        let note = peak_of(&out, gui, "");
        let top = Rect { x: rest.x, y: rest.y, width: rest.width, height: half };
        area_graph(buf, top, &out, th, "upload", gui.braille_graphs, note);
        let inward = s.traffic.prompt_series.samples();
        let note = peak_of(&inward, gui, "");
        let bottom = Rect {
            x: rest.x,
            y: rest.y + half,
            width: rest.width,
            height: rest.height - half,
        };
        area_graph(buf, bottom, &inward, th, "download", gui.braille_graphs, note);
    }
}

// ---- laws ----

/// The queues of a disaggregation are never shown for a server that takes no part in
/// one, whatever the gauges say.
pub proof fn unified_servers_show_no_stages<N: Num>(t: TrafficPanel<N>, mode: Seq<char>, th: Theme)
    requires
        mode == "null"@ || mode.len() == 0,
    ensures
        stage_lines(t, mode, th).len() == 0,
{
    reveal_strlit("null");
    reveal_strlit("prefill");
    reveal_strlit("decode");
    reveal_strlit("both");
    assert("prefill"@.len() == 7);
    assert("decode"@.len() == 6);
    assert("both"@.len() == 4 && "both"@[0] == 'b');
    assert("null"@.len() == 4 && "null"@[0] == 'n');
}

/// A family that the server does not expose has no row; a known one without
/// percentiles says `N/A`.
pub proof fn unknown_families_have_no_row<N: Num>(
    label: Seq<char>,
    p: Option<Percentile<N>>,
    th: Theme,
    dim: bool,
)
    ensures
        latency_lines(label, false, p, th, dim).len() == 0,
        latency_lines::<N>(label, true, None, th, dim).len() == 1,
        latency_lines::<N>(label, true, None, th, dim)[0][2] == value_span(None, 7, th, dim),
        latency_lines::<N>(label, true, None, th, dim)[0][4] == value_span(None, 7, th, dim),
        latency_lines::<N>(label, true, None, th, dim)[0][6] == value_span(None, 7, th, dim),
        latency_lines::<N>(label, true, None, th, dim)[0][8] == value_span(None, 7, th, dim),
{
}

}
