//! What the traffic box reads.
use crate::laws::boxes::{graph_stays_below, known_says, line_is_among, lines_read, lines_say,
    maybe_says, or_na, plain_text, row_reads, says, says_behind, says_within};
use crate::laws::pool::count_or_none;
use crate::model::snapshot::{LatencySet, Percentile, Snapshot, TrafficPanel};
use crate::num::Num;
use crate::text::blanks;
use crate::ui::cells::{fits, shaped, Grid, LineView, Rect};
use crate::ui::frame::{lines_written, rest_of};
use crate::ui::panels::engine::peak_text;
use crate::ui::panels::human::{count_text, duration_text, pct_text, rate_text};
use crate::ui::panels::kv::inner_width;
use crate::ui::panels::rows::{count_known, duration_known, rate_known};
use crate::ui::panels::traffic::{cache_head, cache_line, cached_all, cached_share, direction_line,
    flow_lines, has_tiers, http_line, latency_lines, length_lines, length_text, lower,
    pick, queues_line, requests_line, stage_lines, stage_queue, tier_spans, token_rate,
    traffic_drawn, traffic_lines, upper};
use crate::ui::theme::Theme;
use crate::ui::widgets::{area_drawn, Gui};
use vstd::prelude::*;

verus! {

/// A rate, or `N/A`.
pub open spec fn rate_or_none<N: Num>(v: Option<N>) -> Seq<char> {
    match v {
        Some(x) => rate_text(x),
        None => "N/A"@,
    }
}

/// A span of time, or `N/A`.
pub open spec fn time_or_none<N: Num>(v: Option<N>) -> Seq<char> {
    match v {
        Some(x) => duration_text(x),
        None => "N/A"@,
    }
}

/// A mean length in whole tokens, or `N/A`.
pub open spec fn length_or_none<N: Num>(v: Option<N>) -> Seq<char> {
    match v {
        Some(x) => count_text(x.to_count_spec()) + " tok"@,
        None => "N/A"@,
    }
}

/// Every line of the traffic box stands on its row.
pub proof fn traffic_box_reads<N: Num>(
    g: Grid,
    s: Snapshot<N>,
    th: Theme,
    gui: Gui,
    rect: Rect,
    w: u16,
    h: u16,
    k: int,
)
    requires
        shaped(g, w as int, h as int),
        fits(rect, w, h),
        0 <= k < traffic_lines(s, th, rect).len(),
        k < rect.height - 2,
    ensures
        row_reads(
            traffic_drawn(g, s, th, gui, rect),
            rect,
            k,
            plain_text(traffic_lines(s, th, rect)[k]),
        ),
{
    two_graphs_read(
        g,
        traffic_lines(s, th, rect),
        s.traffic.gen_series@,
        s.traffic.prompt_series@,
        th,
        gui,
        rect,
        w,
        h,
        k,
    );
}

/// The rows of a box with two graphs below its lines.
proof fn two_graphs_read<N: Num>(
    g: Grid,
    lines: Seq<LineView>,
    a: Seq<N>,
    b: Seq<N>,
    th: Theme,
    gui: Gui,
    rect: Rect,
    w: u16,
    h: u16,
    k: int,
)
    requires
        shaped(g, w as int, h as int),
        fits(rect, w, h),
        0 <= k < lines.len(),
        k < rect.height - 2,
    ensures
        ({
            let lined = lines_written(g, rect, lines);
            let rest = rest_of(rect, lines.len() as int);
            let half = area_drawn(
                lined,
                upper(rest),
                a,
                th,
                "upload"@,
                gui.braille_graphs,
                peak_text(a, gui, ""@),
            );
            let out = area_drawn(
                half,
                lower(rest),
                b,
                th,
                "download"@,
                gui.braille_graphs,
                peak_text(b, gui, ""@),
            );
            &&& row_reads(lined, rect, k, plain_text(lines[k]))
            &&& rest.height >= 2 ==> row_reads(out, rect, k, plain_text(lines[k]))
        }),
{
    let lined = lines_written(g, rect, lines);
    let rest = rest_of(rect, lines.len() as int);
    let y = rect.y + 1 + k;
    lines_read(g, rect, lines, w, h, k);
    if rest.height >= 2 {
        graph_stays_below(
            lined,
            upper(rest),
            a,
            th,
            "upload"@,
            gui.braille_graphs,
            peak_text(a, gui, ""@),
            w,
            h,
            y,
        );
        let half = area_drawn(
            lined,
            upper(rest),
            a,
            th,
            "upload"@,
            gui.braille_graphs,
            peak_text(a, gui, ""@),
        );
        graph_stays_below(
            half,
            lower(rest),
            b,
            th,
            "download"@,
            gui.braille_graphs,
            peak_text(b, gui, ""@),
            w,
            h,
            y,
        );
        reveal(row_reads);
    }
}

// ---- directions and requests ----

proof fn direction_says<N: Num>(
    lines: Seq<LineView>,
    i: int,
    dir: Seq<char>,
    cur: N,
    top: N,
    accum: u64,
    th: Theme,
    dim: bool,
)
    requires
        0 <= i < lines.len(),
        lines[i] == direction_line(dir, cur, top, accum, th, dim),
    ensures
        lines_say(lines, dir + " "@, dir + " "@, rate_text(cur)),
        lines_say(lines, dir + " "@, "  peak "@, rate_text(top)),
        lines_say(lines, dir + " "@, "  accum "@, count_text(accum)),
{
    let l = lines[i];
    known_says(l, 0, rate_text(cur), 8, th, dim);
    known_says(l, 2, rate_text(top), 8, th, dim);
    known_says(l, 4, count_text(accum), 10, th, dim);
    line_is_among(lines, i, dir + " "@, dir + " "@, rate_text(cur));
    line_is_among(lines, i, dir + " "@, "  peak "@, rate_text(top));
    line_is_among(lines, i, dir + " "@, "  accum "@, count_text(accum));
}

proof fn flow_is_first<N: Num>(s: Snapshot<N>, th: Theme, rect: Rect)
    ensures
        ({
            let l = traffic_lines(s, th, rect);
            let t = s.traffic;
            let dim = s.conn.dimmed_spec();
            &&& l.len() >= 6
            &&& l[0] == direction_line(
                "out"@,
                t.gen_tps,
                t.gen_peak_tps,
                t.gen_total_tokens,
                th,
                dim,
            )
            &&& l[1] == direction_line(
                "in "@,
                t.prompt_tps,
                t.prompt_peak_tps,
                t.prompt_total_tokens,
                th,
                dim,
            )
            &&& l[2] == requests_line(t, th, dim)
            &&& l[3] == http_line(t, th, dim)
            &&& l[4] == cache_line(t, th, dim, inner_width(rect))
        }),
{
    let t = s.traffic;
    let dim = s.conn.dimmed_spec();
    let l = t.latency;
    let f = flow_lines(t, th, dim, inner_width(rect));
    let q = seq![queues_line(t, th, dim)];
    let a = latency_lines("queue"@, l.known@[0], l.queue, th, dim);
    let b = latency_lines("ttft "@, l.known@[1], l.ttft, th, dim);
    let c = latency_lines("itl  "@, l.known@[2], l.itl, th, dim);
    let d = latency_lines("e2e  "@, l.known@[3], l.e2e, th, dim);
    let lengths = length_lines(t, th, dim);
    let stages = stage_lines(t, s.server.disaggregation_mode@, th);
    first_parts(f, lengths, q, stages, a, b, c, d);
}

proof fn first_parts<T>(
    f: Seq<T>,
    m: Seq<T>,
    q: Seq<T>,
    n: Seq<T>,
    a: Seq<T>,
    b: Seq<T>,
    c: Seq<T>,
    d: Seq<T>,
)
    requires
        f.len() == 5,
        q.len() == 1,
    ensures
        ({
            let l = f + m + q + n + a + b + c + d;
            &&& l.len() >= 6
            &&& l[0] == f[0]
            &&& l[1] == f[1]
            &&& l[2] == f[2]
            &&& l[3] == f[3]
            &&& l[4] == f[4]
        }),
{
}

/// What stands behind each label of the two directions.
pub proof fn direction_lines_say<N: Num>(s: Snapshot<N>, th: Theme, rect: Rect)
    ensures
        ({
            let l = traffic_lines(s, th, rect);
            let t = s.traffic;
            &&& lines_say(l, "out"@ + " "@, "out"@ + " "@, rate_text(t.gen_tps))
            &&& lines_say(l, "out"@ + " "@, "  peak "@, rate_text(t.gen_peak_tps))
            &&& lines_say(l, "out"@ + " "@, "  accum "@, count_text(t.gen_total_tokens))
            &&& lines_say(l, "in "@ + " "@, "in "@ + " "@, rate_text(t.prompt_tps))
            &&& lines_say(l, "in "@ + " "@, "  peak "@, rate_text(t.prompt_peak_tps))
            &&& lines_say(l, "in "@ + " "@, "  accum "@, count_text(t.prompt_total_tokens))
        }),
{
    flow_is_first(s, th, rect);
    let l = traffic_lines(s, th, rect);
    let t = s.traffic;
    let dim = s.conn.dimmed_spec();
    direction_says(l, 0, "out"@, t.gen_tps, t.gen_peak_tps, t.gen_total_tokens, th, dim);
    direction_says(l, 1, "in "@, t.prompt_tps, t.prompt_peak_tps, t.prompt_total_tokens, th, dim);
}

/// What stands behind each label of the requests.
pub proof fn request_lines_say<N: Num>(s: Snapshot<N>, th: Theme, rect: Rect)
    ensures
        ({
            let l = traffic_lines(s, th, rect);
            let t = s.traffic;
            &&& lines_say(l, "req "@, "req "@, rate_text(t.req_rate_in))
            &&& lines_say(l, "req "@, "  total "@, count_text(t.total_requests))
            &&& lines_say(l, "req "@, "  aborted "@, count_text(t.aborted))
            &&& lines_say(l, "http "@, "rps "@, rate_or_none(t.http_rps))
            &&& lines_say(l, "http "@, " active "@, count_or_none(t.http_active))
            &&& lines_say(l, "http "@, " err/s "@, rate_or_none(t.http_err_rate))
        }),
{
    flow_is_first(s, th, rect);
    let l = traffic_lines(s, th, rect);
    let t = s.traffic;
    let dim = s.conn.dimmed_spec();
    let a = requests_line(t, th, dim);
    known_says(a, 0, rate_text(t.req_rate_in), 8, th, dim);
    known_says(a, 2, count_text(t.total_requests), 10, th, dim);
    known_says(a, 4, count_text(t.aborted), 8, th, dim);
    line_is_among(l, 2, "req "@, "req "@, rate_text(t.req_rate_in));
    line_is_among(l, 2, "req "@, "  total "@, count_text(t.total_requests));
    line_is_among(l, 2, "req "@, "  aborted "@, count_text(t.aborted));
    let b = http_line(t, th, dim);
    maybe_says(b, 1, rate_known(t.http_rps), 7, th, dim);
    maybe_says(b, 3, count_known(t.http_active), 6, th, dim);
    maybe_says(b, 5, rate_known(t.http_err_rate), 7, th, dim);
    line_is_among(l, 3, "http "@, "rps "@, rate_or_none(t.http_rps));
    line_is_among(l, 3, "http "@, " active "@, count_or_none(t.http_active));
    line_is_among(l, 3, "http "@, " err/s "@, rate_or_none(t.http_err_rate));
}

// ---- the cache ----

/// What the row on the cache says: the tiers that have hits, or the rate of the device.
pub proof fn cache_line_says<N: Num>(s: Snapshot<N>, th: Theme, rect: Rect)
    ensures
        ({
            let l = traffic_lines(s, th, rect);
            let t = s.traffic;
            let sum = t.cached_device_total + t.cached_host_total + t.cached_storage_total;
            let all = if sum > u64::MAX {
                u64::MAX
            } else {
                sum as u64
            };
            if t.cached_host_total > 0 || t.cached_storage_total > 0 {
                &&& lines_say(l, "cache "@, "all "@, count_text(all))
                &&& lines_say(l, "cache "@, "  d "@, count_text(t.cached_device_total))
                &&& t.cached_host_total > 0 ==> lines_say(
                    l,
                    "cache "@,
                    "  h "@,
                    count_text(t.cached_host_total),
                )
                &&& t.cached_storage_total > 0 ==> lines_say(
                    l,
                    "cache "@,
                    "  s "@,
                    count_text(t.cached_storage_total),
                )
            } else {
                &&& lines_say(
                    l,
                    "cache "@,
                    "rate "@,
                    match t.cached_device_tps {
                        Some(v) => rate_text(v) + " tok/s"@,
                        None => "N/A"@,
                    },
                )
                &&& lines_say(
                    l,
                    "cache "@,
                    " all "@,
                    pct_text(
                        if t.prompt_total_tokens > 0 {
                            N::of_count_spec(all).over_spec(
                                N::of_count_spec(t.prompt_total_tokens),
                            )
                        } else {
                            N::zero_spec()
                        },
                    ) + " ("@ + count_text(all) + ")"@,
                )
            }
        }),
{
    flow_is_first(s, th, rect);
    let l = traffic_lines(s, th, rect);
    let t = s.traffic;
    let dim = s.conn.dimmed_spec();
    if has_tiers(t) {
        tiers_say(l, t, th, dim, inner_width(rect));
    } else {
        device_says(l, t, th, dim, inner_width(rect));
    }
}

proof fn tiers_say<N: Num>(l: Seq<LineView>, t: TrafficPanel<N>, th: Theme, dim: bool, room: int)
    requires
        l.len() > 4,
        l[4] == cache_line(t, th, dim, room),
        has_tiers(t),
    ensures
        lines_say(l, "cache "@, "all "@, count_text(cached_all(t))),
        lines_say(l, "cache "@, "  d "@, count_text(t.cached_device_total)),
        t.cached_host_total > 0 ==> lines_say(
            l,
            "cache "@,
            "  h "@,
            count_text(t.cached_host_total),
        ),
        t.cached_storage_total > 0 ==> lines_say(
            l,
            "cache "@,
            "  s "@,
            count_text(t.cached_storage_total),
        ),
{
    let c = l[4];
    let head = cache_head(t, th, dim);
    assert forall|i: int| 0 <= i < head.len() implies #[trigger] c[i] == head[i] by {}
    plain_says(c, 1, count_text(cached_all(t)));
    plain_says(c, 3, count_text(t.cached_device_total));
    line_is_among(l, 4, "cache "@, "all "@, count_text(cached_all(t)));
    line_is_among(l, 4, "cache "@, "  d "@, count_text(t.cached_device_total));
    let a = tier_spans("  h "@, t.cached_host_total, th, dim);
    let b = tier_spans("  s "@, t.cached_storage_total, th, dim);
    if t.cached_host_total > 0 {
        assert(head[5] == a[0] && head[6] == a[1]);
        plain_says(c, 5, count_text(t.cached_host_total));
        line_is_among(l, 4, "cache "@, "  h "@, count_text(t.cached_host_total));
    }
    if t.cached_storage_total > 0 {
        let n = 5 + a.len() as int;
        assert(head[n] == b[0] && head[n + 1] == b[1]);
        plain_says(c, n, count_text(t.cached_storage_total));
        line_is_among(l, 4, "cache "@, "  s "@, count_text(t.cached_storage_total));
    }
}

proof fn device_says<N: Num>(l: Seq<LineView>, t: TrafficPanel<N>, th: Theme, dim: bool, room: int)
    requires
        l.len() > 4,
        l[4] == cache_line(t, th, dim, room),
        !has_tiers(t),
    ensures
        lines_say(l, "cache "@, "rate "@, or_na(token_rate(t.cached_device_tps))),
        lines_say(
            l,
            "cache "@,
            " all "@,
            pct_text(cached_share(t)) + " ("@ + count_text(cached_all(t)) + ")"@,
        ),
{
    let c = l[4];
    let head = cache_head(t, th, dim);
    assert forall|i: int| 0 <= i < head.len() implies #[trigger] c[i] == head[i] by {}
    maybe_says(c, 1, token_rate(t.cached_device_tps), 12, th, dim);
    let v = pct_text(cached_share(t)) + " ("@ + count_text(cached_all(t)) + ")"@;
    known_says(c, 3, v, 14, th, dim);
    line_is_among(l, 4, "cache "@, "rate "@, or_na(token_rate(t.cached_device_tps)));
    line_is_among(l, 4, "cache "@, " all "@, v);
}

/// A label and a value that is the next part of the line.
proof fn plain_says(line: LineView, i: int, value: Seq<char>)
    requires
        0 <= i < line.len() - 1,
        line[i + 1].text == value,
    ensures
        says(plain_text(line), line[i].text, value),
{
    assert(line[i + 1].text =~= blanks(0) + value + Seq::empty());
    says_behind(line, i, 0, value, Seq::empty());
}

// ---- lengths and queues ----

/// What stands behind each label of the mean lengths and of the queues.
pub proof fn queue_lines_say<N: Num>(s: Snapshot<N>, th: Theme, rect: Rect)
    ensures
        ({
            let l = traffic_lines(s, th, rect);
            let t = s.traffic;
            &&& t.avg_prompt_len is Some || t.avg_gen_len is Some || t.avg_uncached_len is Some ==> {
                &&& lines_say(l, "len "@, "in "@, length_or_none(t.len_window@[0]))
                &&& lines_say(l, "len "@, " out "@, length_or_none(t.len_window@[1]))
                &&& t.avg_uncached_len is Some ==> lines_say(
                    l,
                    "len "@,
                    " comp "@,
                    length_or_none(t.len_window@[2]),
                )
            }
            &&& lines_say(l, "retracted "@, "retracted "@, count_text(t.retracted))
            &&& lines_say(l, "retracted "@, "  paused "@, count_text(t.paused))
            &&& lines_say(l, "retracted "@, "  grammar "@, count_text(t.grammar_queue))
        }),
{
    let l = traffic_lines(s, th, rect);
    let t = s.traffic;
    let dim = s.conn.dimmed_spec();
    let (f, c, d) = what_stands_around(s, th, rect);
    lengths_and_queues_say(l, f, c, d, t, th, dim);
}

proof fn lengths_and_queues_say<N: Num>(
    l: Seq<LineView>,
    f: Seq<LineView>,
    c: Seq<LineView>,
    d: Seq<LineView>,
    t: TrafficPanel<N>,
    th: Theme,
    dim: bool,
)
    requires
        f.len() == 5,
        l == f + length_lines(t, th, dim) + seq![queues_line(t, th, dim)] + c + d,
    ensures
        t.avg_prompt_len is Some || t.avg_gen_len is Some || t.avg_uncached_len is Some ==> {
            &&& lines_say(l, "len "@, "in "@, length_or_none(t.len_window@[0]))
            &&& lines_say(l, "len "@, " out "@, length_or_none(t.len_window@[1]))
            &&& t.avg_uncached_len is Some ==> lines_say(
                l,
                "len "@,
                " comp "@,
                length_or_none(t.len_window@[2]),
            )
        },
        lines_say(l, "retracted "@, "retracted "@, count_text(t.retracted)),
        lines_say(l, "retracted "@, "  paused "@, count_text(t.paused)),
        lines_say(l, "retracted "@, "  grammar "@, count_text(t.grammar_queue)),
{
    let n = queues_stand_behind_lengths(l, f, c, d, t, th, dim);
    if t.avg_prompt_len is Some || t.avg_gen_len is Some || t.avg_uncached_len is Some {
        length_line_says(l, t, th, dim);
    }
    queue_line_says(l, n, t, th, dim);
}

proof fn queues_stand_behind_lengths<N: Num>(
    l: Seq<LineView>,
    f: Seq<LineView>,
    c: Seq<LineView>,
    d: Seq<LineView>,
    t: TrafficPanel<N>,
    th: Theme,
    dim: bool,
) -> (n: int)
    requires
        f.len() == 5,
        l == f + length_lines(t, th, dim) + seq![queues_line(t, th, dim)] + c + d,
    ensures
        t.avg_prompt_len is Some || t.avg_gen_len is Some || t.avg_uncached_len is Some ==> l[5]
            == length_lines(t, th, dim)[0],
        5 <= n < l.len(),
        l[n] == queues_line(t, th, dim),
        c.len() > 0 ==> n + 1 < l.len() && l[n + 1] == c[0],
{
    let a = length_lines(t, th, dim);
    parts_stand_in_order(f, a, seq![queues_line(t, th, dim)], c, d);
    (5 + a.len()) as int
}

proof fn what_stands_around<N: Num>(s: Snapshot<N>, th: Theme, rect: Rect) -> (r: (
    Seq<LineView>,
    Seq<LineView>,
    Seq<LineView>,
))
    ensures
        r.0.len() == 5,
        r.1 == stage_lines(s.traffic, s.server.disaggregation_mode@, th),
        traffic_lines(s, th, rect) == r.0 + length_lines(
            s.traffic,
            th,
            s.conn.dimmed_spec(),
        ) + seq![queues_line(s.traffic, th, s.conn.dimmed_spec())] + r.1 + r.2,
{
    let t = s.traffic;
    let dim = s.conn.dimmed_spec();
    let l = t.latency;
    let f = flow_lines(t, th, dim, inner_width(rect));
    let a = latency_lines("queue"@, l.known@[0], l.queue, th, dim);
    let b = latency_lines("ttft "@, l.known@[1], l.ttft, th, dim);
    let c = latency_lines("itl  "@, l.known@[2], l.itl, th, dim);
    let d = latency_lines("e2e  "@, l.known@[3], l.e2e, th, dim);
    let stages = stage_lines(t, s.server.disaggregation_mode@, th);
    let head = f + length_lines(t, th, dim) + seq![queues_line(t, th, dim)] + stages;
    parts_join(head, a, b, c, d);
    (f, stages, a + b + c + d)
}

proof fn parts_join<T>(h: Seq<T>, a: Seq<T>, b: Seq<T>, c: Seq<T>, d: Seq<T>)
    ensures
        h + a + b + c + d == h + (a + b + c + d),
{
    assert(h + a + b + c + d =~= h + (a + b + c + d));
}

proof fn queue_line_says<N: Num>(
    l: Seq<LineView>,
    n: int,
    t: TrafficPanel<N>,
    th: Theme,
    dim: bool,
)
    requires
        0 <= n < l.len(),
        l[n] == queues_line(t, th, dim),
    ensures
        lines_say(l, "retracted "@, "retracted "@, count_text(t.retracted)),
        lines_say(l, "retracted "@, "  paused "@, count_text(t.paused)),
        lines_say(l, "retracted "@, "  grammar "@, count_text(t.grammar_queue)),
{
    let q = queues_line(t, th, dim);
    known_says(q, 0, count_text(t.retracted), 8, th, dim);
    known_says(q, 2, count_text(t.paused), 6, th, dim);
    known_says(q, 4, count_text(t.grammar_queue), 6, th, dim);
    line_is_among(l, n, "retracted "@, "retracted "@, count_text(t.retracted));
    line_is_among(l, n, "retracted "@, "  paused "@, count_text(t.paused));
    line_is_among(l, n, "retracted "@, "  grammar "@, count_text(t.grammar_queue));
}

proof fn length_line_says<N: Num>(l: Seq<LineView>, t: TrafficPanel<N>, th: Theme, dim: bool)
    requires
        l.len() > 5,
        t.avg_prompt_len is Some || t.avg_gen_len is Some || t.avg_uncached_len is Some,
        l[5] == length_lines(t, th, dim)[0],
    ensures
        lines_say(l, "len "@, "in "@, length_or_none(t.len_window@[0])),
        lines_say(l, "len "@, " out "@, length_or_none(t.len_window@[1])),
        t.avg_uncached_len is Some ==> lines_say(
            l,
            "len "@,
            " comp "@,
            length_or_none(t.len_window@[2]),
        ),
{
    let c = l[5];
    maybe_says(c, 1, length_text(t.len_window@[0]), 10, th, dim);
    maybe_says(c, 3, length_text(t.len_window@[1]), 8, th, dim);
    line_is_among(l, 5, "len "@, "in "@, length_or_none(t.len_window@[0]));
    line_is_among(l, 5, "len "@, " out "@, length_or_none(t.len_window@[1]));
    if t.avg_uncached_len is Some {
        maybe_says(c, 5, length_text(t.len_window@[2]), 9, th, dim);
        line_is_among(l, 5, "len "@, " comp "@, length_or_none(t.len_window@[2]));
    }
}

/// What stands behind each label of the queues of a server with a role.
pub proof fn role_lines_say<N: Num>(s: Snapshot<N>, th: Theme, rect: Rect)
    requires
        s.server.disaggregation_mode@ == "prefill"@ || s.server.disaggregation_mode@ == "decode"@
            || s.server.disaggregation_mode@ == "both"@,
    ensures
        ({
            let l = traffic_lines(s, th, rect);
            let t = s.traffic;
            &&& lines_say(l, "pd "@, "boot "@, count_or_none(t.pd_prefill_bootstrap))
            &&& lines_say(l, "pd "@, "pre "@, count_or_none(t.pd_decode_prealloc))
            &&& lines_say(l, "pd "@, "inflight "@, count_or_none(t.pd_prefill_inflight))
            &&& lines_say(l, "pd "@, "xfer "@, count_or_none(t.pd_decode_transfer))
        }),
{
    let l = traffic_lines(s, th, rect);
    let t = s.traffic;
    let dim = s.conn.dimmed_spec();
    let (f, c, d) = what_stands_around(s, th, rect);
    role_line_says(l, f, c, d, t, s.server.disaggregation_mode@, th, dim);
}

proof fn role_line_says<N: Num>(
    l: Seq<LineView>,
    f: Seq<LineView>,
    c: Seq<LineView>,
    d: Seq<LineView>,
    t: TrafficPanel<N>,
    mode: Seq<char>,
    th: Theme,
    dim: bool,
)
    requires
        f.len() == 5,
        l == f + length_lines(t, th, dim) + seq![queues_line(t, th, dim)] + c + d,
        c == stage_lines(t, mode, th),
        mode == "prefill"@ || mode == "decode"@ || mode == "both"@,
    ensures
        lines_say(l, "pd "@, "boot "@, count_or_none(t.pd_prefill_bootstrap)),
        lines_say(l, "pd "@, "pre "@, count_or_none(t.pd_decode_prealloc)),
        lines_say(l, "pd "@, "inflight "@, count_or_none(t.pd_prefill_inflight)),
        lines_say(l, "pd "@, "xfer "@, count_or_none(t.pd_decode_transfer)),
{
    let n = queues_stand_behind_lengths(l, f, c, d, t, th, dim) + 1;
    stage_says(l, n, 1, "boot "@, t.pd_prefill_bootstrap, th);
    stage_says(l, n, 2, "pre "@, t.pd_decode_prealloc, th);
    stage_says(l, n, 3, "inflight "@, t.pd_prefill_inflight, th);
    stage_says(l, n, 4, "xfer "@, t.pd_decode_transfer, th);
}

proof fn stage_says(l: Seq<LineView>, n: int, i: int, label: Seq<char>, v: Option<u64>, th: Theme)
    requires
        0 <= n < l.len(),
        0 <= i < l[n].len(),
        l[n][0].text == "pd "@,
        l[n][i] == stage_queue(label, v, th),
    ensures
        lines_say(l, "pd "@, label, count_or_none(v)),
{
    assert(l[n][i].text =~= " "@ + label + blanks(0) + count_or_none(v) + " "@);
    says_within(l[n], i, " "@, label, 0, count_or_none(v), " "@);
    line_is_among(l, n, "pd "@, label, count_or_none(v));
}

// ---- latencies ----

/// What the row of a latency family says: each percentile, and the mean.
pub open spec fn family_says<N: Num>(
    l: Seq<LineView>,
    head: Seq<char>,
    p: Option<Percentile<N>>,
) -> bool {
    &&& lines_say(
        l,
        head,
        "p50 "@,
        match p {
            Some(x) => duration_text(x.p50),
            None => "N/A"@,
        },
    )
    &&& lines_say(
        l,
        head,
        " p90 "@,
        match p {
            Some(x) => duration_text(x.p90),
            None => "N/A"@,
        },
    )
    &&& lines_say(
        l,
        head,
        " p99 "@,
        match p {
            Some(x) => duration_text(x.p99),
            None => "N/A"@,
        },
    )
    &&& lines_say(
        l,
        head,
        " μ "@,
        match p {
            Some(x) => time_or_none(x.mean),
            None => "N/A"@,
        },
    )
}

proof fn latency_line_says<N: Num>(
    l: Seq<LineView>,
    n: int,
    label: Seq<char>,
    p: Option<Percentile<N>>,
    th: Theme,
    dim: bool,
)
    requires
        0 <= n < l.len(),
        l[n] == latency_lines(label, true, p, th, dim)[0],
    ensures
        family_says(l, label + " "@, p),
{
    let c = l[n];
    let a = duration_known(pick(p, |x: Percentile<N>| Some(x.p50)));
    let b = duration_known(pick(p, |x: Percentile<N>| Some(x.p90)));
    let d = duration_known(pick(p, |x: Percentile<N>| Some(x.p99)));
    let e = duration_known(pick(p, |x: Percentile<N>| x.mean));
    maybe_says(c, 1, a, 7, th, dim);
    maybe_says(c, 3, b, 7, th, dim);
    maybe_says(c, 5, d, 7, th, dim);
    maybe_says(c, 7, e, 7, th, dim);
    let head = label + " "@;
    line_is_among(l, n, head, "p50 "@, or_na(a));
    line_is_among(l, n, head, " p90 "@, or_na(b));
    line_is_among(l, n, head, " p99 "@, or_na(d));
    line_is_among(l, n, head, " μ "@, or_na(e));
}

/// What the rows of the latency families say; a family that the server does not expose has
/// none.
pub proof fn latency_lines_say<N: Num>(s: Snapshot<N>, th: Theme, rect: Rect)
    ensures
        ({
            let l = traffic_lines(s, th, rect);
            let t = s.traffic.latency;
            &&& t.known@[0] ==> family_says(l, "queue"@ + " "@, t.queue)
            &&& t.known@[1] ==> family_says(l, "ttft "@ + " "@, t.ttft)
            &&& t.known@[2] ==> family_says(l, "itl  "@ + " "@, t.itl)
            &&& t.known@[3] ==> family_says(l, "e2e  "@ + " "@, t.e2e)
        }),
{
    let l = traffic_lines(s, th, rect);
    let t = s.traffic.latency;
    let dim = s.conn.dimmed_spec();
    let h = what_stands_before(s, th, rect);
    families_say(l, h, t, th, dim);
}

proof fn families_say<N: Num>(
    l: Seq<LineView>,
    h: Seq<LineView>,
    t: LatencySet<N>,
    th: Theme,
    dim: bool,
)
    requires
        l == h + latency_lines("queue"@, t.known@[0], t.queue, th, dim) + latency_lines(
            "ttft "@,
            t.known@[1],
            t.ttft,
            th,
            dim,
        ) + latency_lines("itl  "@, t.known@[2], t.itl, th, dim) + latency_lines(
            "e2e  "@,
            t.known@[3],
            t.e2e,
            th,
            dim,
        ),
    ensures
        t.known@[0] ==> family_says(l, "queue"@ + " "@, t.queue),
        t.known@[1] ==> family_says(l, "ttft "@ + " "@, t.ttft),
        t.known@[2] ==> family_says(l, "itl  "@ + " "@, t.itl),
        t.known@[3] ==> family_says(l, "e2e  "@ + " "@, t.e2e),
{
    let n = latencies_stand_last(l, h, t, th, dim);
    if t.known@[0] {
        latency_line_says(l, n[0], "queue"@, t.queue, th, dim);
    }
    if t.known@[1] {
        latency_line_says(l, n[1], "ttft "@, t.ttft, th, dim);
    }
    if t.known@[2] {
        latency_line_says(l, n[2], "itl  "@, t.itl, th, dim);
    }
    if t.known@[3] {
        latency_line_says(l, n[3], "e2e  "@, t.e2e, th, dim);
    }
}

proof fn latencies_stand_last<N: Num>(
    l: Seq<LineView>,
    h: Seq<LineView>,
    t: LatencySet<N>,
    th: Theme,
    dim: bool,
) -> (n: Seq<int>)
    requires
        l == h + latency_lines("queue"@, t.known@[0], t.queue, th, dim) + latency_lines(
            "ttft "@,
            t.known@[1],
            t.ttft,
            th,
            dim,
        ) + latency_lines("itl  "@, t.known@[2], t.itl, th, dim) + latency_lines(
            "e2e  "@,
            t.known@[3],
            t.e2e,
            th,
            dim,
        ),
    ensures
        t.known@[0] ==> 0 <= n[0] < l.len() && l[n[0]] == latency_lines(
            "queue"@,
            true,
            t.queue,
            th,
            dim,
        )[0],
        t.known@[1] ==> 0 <= n[1] < l.len() && l[n[1]] == latency_lines(
            "ttft "@,
            true,
            t.ttft,
            th,
            dim,
        )[0],
        t.known@[2] ==> 0 <= n[2] < l.len() && l[n[2]] == latency_lines(
            "itl  "@,
            true,
            t.itl,
            th,
            dim,
        )[0],
        t.known@[3] ==> 0 <= n[3] < l.len() && l[n[3]] == latency_lines(
            "e2e  "@,
            true,
            t.e2e,
            th,
            dim,
        )[0],
{
    let a = latency_lines("queue"@, t.known@[0], t.queue, th, dim);
    let b = latency_lines("ttft "@, t.known@[1], t.ttft, th, dim);
    let c = latency_lines("itl  "@, t.known@[2], t.itl, th, dim);
    let d = latency_lines("e2e  "@, t.known@[3], t.e2e, th, dim);
    parts_stand_in_order(h, a, b, c, d);
    one_latency_line("queue"@, t.known@[0], t.queue, th, dim);
    one_latency_line("ttft "@, t.known@[1], t.ttft, th, dim);
    one_latency_line("itl  "@, t.known@[2], t.itl, th, dim);
    one_latency_line("e2e  "@, t.known@[3], t.e2e, th, dim);
    places(h, a, b, c, d)
}

/// Where the parts stand.
spec fn places<T>(h: Seq<T>, a: Seq<T>, b: Seq<T>, c: Seq<T>, d: Seq<T>) -> Seq<int> {
    let n = h.len() as int;
    seq![n, n + a.len(), n + a.len() + b.len(), n + a.len() + b.len() + c.len()]
}

proof fn one_latency_line<N: Num>(
    label: Seq<char>,
    known: bool,
    p: Option<Percentile<N>>,
    th: Theme,
    dim: bool,
)
    ensures
        latency_lines(label, known, p, th, dim).len() == if known {
            1int
        } else {
            0
        },
{
}

proof fn what_stands_before<N: Num>(s: Snapshot<N>, th: Theme, rect: Rect) -> (h: Seq<LineView>)
    ensures
        ({
            let t = s.traffic.latency;
            let dim = s.conn.dimmed_spec();
            traffic_lines(s, th, rect) == h + latency_lines(
                "queue"@,
                t.known@[0],
                t.queue,
                th,
                dim,
            ) + latency_lines("ttft "@, t.known@[1], t.ttft, th, dim) + latency_lines(
                "itl  "@,
                t.known@[2],
                t.itl,
                th,
                dim,
            ) + latency_lines("e2e  "@, t.known@[3], t.e2e, th, dim)
        }),
{
    let dim = s.conn.dimmed_spec();
    flow_lines(s.traffic, th, dim, inner_width(rect)) + length_lines(s.traffic, th, dim) + seq![
        queues_line(s.traffic, th, dim),
    ] + stage_lines(s.traffic, s.server.disaggregation_mode@, th)
}

proof fn parts_stand_in_order<T>(h: Seq<T>, a: Seq<T>, b: Seq<T>, c: Seq<T>, d: Seq<T>)
    ensures
        ({
            let l = h + a + b + c + d;
            &&& a.len() > 0 ==> l[h.len() as int] == a[0]
            &&& b.len() > 0 ==> l[(h.len() + a.len()) as int] == b[0]
            &&& c.len() > 0 ==> l[(h.len() + a.len() + b.len()) as int] == c[0]
            &&& d.len() > 0 ==> l[(h.len() + a.len() + b.len() + c.len()) as int] == d[0]
            &&& l.len() == h.len() + a.len() + b.len() + c.len() + d.len()
        }),
{
}

}
