//! The token pool box: a bounded pool, used, available and evictable.
use crate::model::hist::newest;
use crate::model::snapshot::{HiCache, KvPanel, Snapshot};
use crate::num::{peak, peak_from, Num};
use crate::text::{cat, cat3, cat4, decimal, decimal_text};
use crate::ui::cells::{add_span, extend_spans, fits, ink, lines_view, push_line, shaped, sp,
    spans_view, Buffer, Color, Grid, Line, LineView, Rect, Span, SpanView};
use crate::ui::frame::{below, lines_written, rest_of, write_lines};
use crate::ui::panels::engine::{window_for, window_of};
use crate::ui::panels::human::{count_text, duration_text, human_count, human_duration, human_pct,
    human_rate, pct_text, rate_text, value_span};
use crate::ui::panels::rows::{add_known, add_main, add_note, add_title, add_value, count_if_known,
    count_known, fixed_if_known, fixed_known, known_sp, main_sp, note_sp, title_sp};
use crate::ui::theme::Theme;
use crate::ui::widgets::meter::{meter_line, meter_spans};
use crate::ui::widgets::{area_drawn, area_graph, Gui};
use vstd::prelude::*;
use vstd::string::*;
use vstd::utf8::encode_utf8;

verus! {

// ---- the pool ----

/// The size of the pool, and how much of it is used.
pub open spec fn pool_line<N: Num>(k: KvPanel<N>, th: Theme, dim: bool) -> LineView {
    seq![
        title_sp("Total:"@, th),
        known_sp(count_text(k.total_tokens), 12, th, dim),
        main_sp("  used "@ + count_text(k.used_tokens), th),
    ]
}

fn pool_row<N: Num>(k: &KvPanel<N>, th: &Theme, dim: bool) -> (l: Vec<Span>)
    ensures
        spans_view(l@) == pool_line(*k, *th, dim),
{
    let mut l: Vec<Span> = Vec::new();
    add_title(&mut l, "Total:", th);
    add_known(&mut l, human_count(k.total_tokens), 12, th, dim);
    add_main(&mut l, cat("  used ", human_count(k.used_tokens).as_str()).as_str(), th);
    assert(spans_view(l@) =~= pool_line(*k, *th, dim));
    l
}

/// A meter and the share that it shows.
pub open spec fn metered<N: Num>(v: N, width: nat, th: Theme) -> LineView {
    meter_line(v, width, "cpu"@, th) + seq![main_sp(" "@ + pct_text(v), th)]
}

/// A meter and the share that it shows.
fn meter_of<N: Num>(v: N, width: usize, th: &Theme) -> (l: Vec<Span>)
    ensures
        spans_view(l@) == metered(v, width as nat, *th),
{
    let mut l = meter_spans(v, width, "cpu", th);
    add_main(&mut l, cat(" ", human_pct(v).as_str()).as_str(), th);
    assert(spans_view(l@) =~= metered(v, width as nat, *th));
    l
}

/// The columns of the pool's meter.
pub open spec fn bar_width(rect: Rect) -> nat {
    if rect.width < 10 {
        0
    } else {
        (rect.width - 10) as nat
    }
}

/// What is free, and what can be freed.
pub open spec fn room_line<N: Num>(k: KvPanel<N>, th: Theme, dim: bool) -> LineView {
    seq![
        title_sp("available "@, th),
        value_span(count_known(k.available_tokens), 10, th, dim),
        title_sp("  evict "@, th),
        value_span(count_known(k.evictable_tokens), 10, th, dim),
    ]
}

fn room_row<N: Num>(k: &KvPanel<N>, th: &Theme, dim: bool) -> (l: Vec<Span>)
    ensures
        spans_view(l@) == room_line(*k, *th, dim),
{
    let mut l: Vec<Span> = Vec::new();
    add_title(&mut l, "available ", th);
    add_value(&mut l, count_if_known(k.available_tokens), 10, th, dim);
    add_title(&mut l, "  evict ", th);
    add_value(&mut l, count_if_known(k.evictable_tokens), 10, th, dim);
    assert(spans_view(l@) =~= room_line(*k, *th, dim));
    l
}

/// Whether the server accounts for any of its memory.
pub open spec fn has_ledger<N: Num>(k: KvPanel<N>) -> bool {
    k.weight_gb is Some || k.kv_cache_gb is Some || k.graph_gb is Some
}

/// The memory ledger: weights, the pool, captured graphs. Their sum is not the card's
/// usage.
pub open spec fn ledger_line<N: Num>(k: KvPanel<N>, th: Theme, dim: bool) -> LineView {
    seq![
        title_sp("mem "@, th),
        note_sp("w "@, th),
        value_span(fixed_known(k.weight_gb, 1, "G"@), 7, th, dim),
        note_sp(" kv "@, th),
        value_span(fixed_known(k.kv_cache_gb, 1, "G"@), 7, th, dim),
        note_sp(" graph "@, th),
        value_span(fixed_known(k.graph_gb, 1, "G"@), 7, th, dim),
    ]
}

fn ledger_row<N: Num>(k: &KvPanel<N>, th: &Theme, dim: bool) -> (l: Vec<Span>)
    ensures
        spans_view(l@) == ledger_line(*k, *th, dim),
{
    let mut l: Vec<Span> = Vec::new();
    add_title(&mut l, "mem ", th);
    add_note(&mut l, "w ", th);
    add_value(&mut l, fixed_if_known(k.weight_gb, 1, "G"), 7, th, dim);
    add_note(&mut l, " kv ", th);
    add_value(&mut l, fixed_if_known(k.kv_cache_gb, 1, "G"), 7, th, dim);
    add_note(&mut l, " graph ", th);
    add_value(&mut l, fixed_if_known(k.graph_gb, 1, "G"), 7, th, dim);
    assert(spans_view(l@) =~= ledger_line(*k, *th, dim));
    l
}

/// What one pass of eviction costs, where it is known.
pub open spec fn cost_text<N: Num>(secs: Option<N>) -> Seq<char> {
    match secs {
        Some(v) => " "@ + duration_text(v),
        None => ""@,
    }
}

/// How many tokens were evicted, how fast, and at what cost.
pub open spec fn gone_text<N: Num>(total: u64, rate: Option<N>, cost: Option<N>) -> Seq<char> {
    match rate {
        Some(r) => count_text(total) + " ("@ + rate_text(r) + "/s)"@ + cost_text(cost),
        None => count_text(total) + cost_text(cost),
    }
}

/// The hit rate and its peak over the visible window, and the tokens that were evicted.
pub open spec fn hit_line<N: Num>(k: KvPanel<N>, window: nat, th: Theme, dim: bool) -> LineView {
    let top = peak_from(newest(k.cache_hit_series@, window), N::zero_spec());
    let gone = match k.evicted_total {
        Some(total) => seq![
            note_sp("  gone "@, th),
            known_sp(gone_text(total, k.evicted_tps, k.evict_pass_mean_secs), 18, th, dim),
        ],
        None => Seq::empty(),
    };
    seq![
        title_sp("hit "@, th),
        known_sp(pct_text(k.cache_hit_rate) + "/"@ + pct_text(top), 12, th, dim),
    ] + gone
}

/// How many tokens were evicted, how fast, and at what cost.
fn gone_of<N: Num>(total: u64, rate: Option<N>, cost: Option<N>) -> (r: String)
    ensures
        r@ == gone_text(total, rate, cost),
{
    let cost = match cost {
        Some(v) => cat(" ", human_duration(v).as_str()),
        None => "".to_owned(),
    };
    match rate {
        Some(v) => cat(
            cat4(human_count(total).as_str(), " (", human_rate(v).as_str(), "/s)").as_str(),
            cost.as_str(),
        ),
        None => cat(human_count(total).as_str(), cost.as_str()),
    }
}

fn hit_row<N: Num>(k: &KvPanel<N>, window: usize, th: &Theme, dim: bool) -> (l: Vec<Span>)
    ensures
        spans_view(l@) == hit_line(*k, window as nat, *th, dim),
{
    let mut l: Vec<Span> = Vec::new();
    let vis = k.cache_hit_series.tail_owned(window);
    let top = peak(&vis, N::zero());
    add_title(&mut l, "hit ", th);
    add_known(
        &mut l,
        cat3(human_pct(k.cache_hit_rate).as_str(), "/", human_pct(top).as_str()),
        12,
        th,
        dim,
    );
    if let Some(total) = k.evicted_total {
        add_note(&mut l, "  gone ", th);
        add_known(&mut l, gone_of(total, k.evicted_tps, k.evict_pass_mean_secs), 18, th, dim);
    }
    assert(spans_view(l@) =~= hit_line(*k, window as nat, *th, dim));
    l
}

// ---- sub-pools ----

/// A count behind a word, where it is known.
pub open spec fn counted_note(word: Seq<char>, v: Option<u64>, th: Theme) -> LineView {
    match v {
        Some(n) => seq![note_sp(word + decimal_text(n as nat), th)],
        None => Seq::empty(),
    }
}

/// The free slots, where they are known; none left is an alarm.
pub open spec fn free_note(v: Option<u64>, th: Theme) -> LineView {
    match v {
        Some(n) => seq![
            sp(
                "  free "@ + decimal_text(n as nat),
                ink(
                    if n == 0 {
                        th.color("hi_fg"@)
                    } else {
                        th.color("graph_text"@)
                    },
                ),
            ),
        ],
        None => Seq::empty(),
    }
}

/// A sub-pool: its meter, and its slots as far as they are known.
pub open spec fn subpool_line<N: Num>(
    label: Seq<char>,
    v: N,
    used: Option<u64>,
    free: Option<u64>,
    evict: Option<u64>,
    th: Theme,
) -> LineView {
    seq![title_sp(label + " "@, th)] + metered(v, 16, th) + counted_note("  "@, used, th) + free_note(
        free,
        th,
    ) + counted_note("  evict "@, evict, th)
}

/// The line of a sub-pool that the model has.
pub open spec fn subpool<N: Num>(
    label: Seq<char>,
    v: Option<N>,
    used: Option<u64>,
    free: Option<u64>,
    evict: Option<u64>,
    th: Theme,
) -> Seq<LineView> {
    match v {
        Some(x) => seq![subpool_line(label, x, used, free, evict, th)],
        None => Seq::empty(),
    }
}

/// Adds the line of a sub-pool that the model has.
fn add_subpool<N: Num>(
    lines: &mut Vec<Line>,
    label: &str,
    v: Option<N>,
    used: Option<u64>,
    free: Option<u64>,
    evict: Option<u64>,
    th: &Theme,
)
    ensures
        lines_view(final(lines)@) == lines_view(old(lines)@) + subpool(
            label@,
            v,
            used,
            free,
            evict,
            *th,
        ),
{
    if let Some(x) = v {
        let mut l: Vec<Span> = Vec::new();
        add_title(&mut l, cat(label, " ").as_str(), th);
        extend_spans(&mut l, meter_of(x, 16, th));
        if let Some(n) = used {
            add_note(&mut l, cat("  ", decimal(n).as_str()).as_str(), th);
        }
        if let Some(n) = free {
            let color = if n == 0 {
                th.c("hi_fg")
            } else {
                th.c("graph_text")
            };
            add_span(&mut l, cat("  free ", decimal(n).as_str()).as_str(), ink(color));
        }
        if let Some(n) = evict {
            add_note(&mut l, cat("  evict ", decimal(n).as_str()).as_str(), th);
        }
        assert(spans_view(l@) =~= subpool_line(label@, x, used, free, evict, *th));
        push_line(lines, l);
    }
    assert(lines_view(lines@) =~= lines_view(old(lines)@) + subpool(
        label@,
        v,
        used,
        free,
        evict,
        *th,
    ));
}

// ---- the hierarchical cache ----

/// How much of the host memory is used.
pub open spec fn host_share<N: Num>(hc: HiCache<N>) -> N {
    if hc.host_total > 0 {
        N::of_count_spec(hc.host_used).over_spec(N::of_count_spec(hc.host_total))
    } else {
        N::zero_spec()
    }
}

/// The host memory.
pub open spec fn host_line<N: Num>(hc: HiCache<N>, th: Theme) -> LineView {
    seq![title_sp("hicache "@, th)] + meter_line(host_share(hc), 16, "cached"@, th) + seq![
        main_sp(" "@ + count_text(hc.host_used) + "/"@ + count_text(hc.host_total), th),
    ]
}

fn host_row<N: Num>(hc: &HiCache<N>, th: &Theme) -> (l: Vec<Span>)
    ensures
        spans_view(l@) == host_line(*hc, *th),
{
    let share = if hc.host_total > 0 {
        N::of_count(hc.host_used).over(N::of_count(hc.host_total))
    } else {
        N::zero()
    };
    let mut l: Vec<Span> = Vec::new();
    add_title(&mut l, "hicache ", th);
    extend_spans(&mut l, meter_spans(share, 16, "cached", th));
    add_main(
        &mut l,
        cat4(
            " ",
            human_count(hc.host_used).as_str(),
            "/",
            human_count(hc.host_total).as_str(),
        ).as_str(),
        th,
    );
    assert(spans_view(l@) =~= host_line(*hc, *th));
    l
}

/// How much of what went to storage ever came back.
pub open spec fn reuse_share<N: Num>(stored: u64, back: u64) -> N {
    if stored > 0 {
        N::of_count_spec(back).over_spec(N::of_count_spec(stored))
    } else {
        N::zero_spec()
    }
}

/// The round trip through storage, where both directions are counted.
pub open spec fn storage_lines<N: Num>(hc: HiCache<N>, th: Theme, dim: bool) -> Seq<LineView> {
    match (hc.storage_backuped_total, hc.storage_prefetched_total) {
        (Some(stored), Some(back)) => seq![
            seq![
                note_sp("          store "@, th),
                known_sp(count_text(stored), 10, th, dim),
                note_sp("  hit "@, th),
                known_sp(
                    count_text(back) + " ("@ + pct_text(reuse_share::<N>(stored, back)) + ")"@,
                    14,
                    th,
                    dim,
                ),
            ],
        ],
        _ => Seq::empty(),
    }
}

fn add_storage<N: Num>(lines: &mut Vec<Line>, hc: &HiCache<N>, th: &Theme, dim: bool)
    ensures
        lines_view(final(lines)@) == lines_view(old(lines)@) + storage_lines(*hc, *th, dim),
{
    if let Some(stored) = hc.storage_backuped_total {
        if let Some(back) = hc.storage_prefetched_total {
            let share: N = if stored > 0 {
                N::of_count(back).over(N::of_count(stored))
            } else {
                N::zero()
            };
            let mut l: Vec<Span> = Vec::new();
            add_note(&mut l, "          store ", th);
            add_known(&mut l, human_count(stored), 10, th, dim);
            add_note(&mut l, "  hit ", th);
            add_known(
                &mut l,
                cat4(human_count(back).as_str(), " (", human_pct(share).as_str(), ")"),
                14,
                th,
                dim,
            );
            assert(spans_view(l@) =~= storage_lines(*hc, *th, dim)[0]);
            push_line(lines, l);
        }
    }
    assert(lines_view(lines@) =~= lines_view(old(lines)@) + storage_lines(*hc, *th, dim));
}

/// The speed of a copy: the bandwidth while one runs, else the mean time of one.
pub open spec fn speed_text<N: Num>(gbps: Option<N>, mean: Option<N>) -> Option<Seq<char>> {
    let giga = N::of_count_spec(1_000_000_000);
    let mega = N::of_count_spec(1_000_000);
    let fallback = match mean {
        Some(secs) => Some(duration_text(secs)),
        None => None,
    };
    match gbps {
        Some(g) => if N::zero_spec().less_spec(g) {
            if !g.less_spec(giga) {
                Some(g.over_spec(giga).fixed_spec(1) + "GB/s"@)
            } else if !g.less_spec(mega) {
                Some(g.over_spec(mega).fixed_spec(1) + "MB/s"@)
            } else {
                Some(g.fixed_spec(1) + "B/s"@)
            }
        } else {
            fallback
        },
        None => fallback,
    }
}

/// The speed of a copy.
fn speed_of<N: Num>(gbps: Option<N>, mean: Option<N>) -> (r: Option<String>)
    ensures
        crate::text::opt_view(r) == speed_text(gbps, mean),
{
    if let Some(g) = gbps {
        if N::zero().less(g) {
            let giga = N::of_count(1_000_000_000);
            let mega = N::of_count(1_000_000);
            let text = if !g.less(giga) {
                cat(g.over(giga).fixed(1).as_str(), "GB/s")
            } else if !g.less(mega) {
                cat(g.over(mega).fixed(1).as_str(), "MB/s")
            } else {
                cat(g.fixed(1).as_str(), "B/s")
            };
            return Some(text);
        }
    }
    match mean {
        Some(secs) => Some(human_duration(secs)),
        None => None,
    }
}

/// A count, or that there is none.
pub open spec fn count_or_na(v: Option<u64>) -> Seq<char> {
    match v {
        Some(n) => count_text(n),
        None => "N/A"@,
    }
}

/// A count, or that there is none.
fn count_if_any(v: Option<u64>) -> (r: String)
    ensures
        r@ == count_or_na(v),
{
    match v {
        Some(n) => human_count(n),
        None => "N/A".to_owned(),
    }
}

/// A count with the speed, where one is known.
pub open spec fn with_speed(count: Seq<char>, speed: Option<Seq<char>>) -> Seq<char> {
    match speed {
        Some(t) => count + " "@ + t,
        None => count,
    }
}

/// A count with the speed, where one is known.
fn count_with(count: String, speed: Option<String>) -> (r: String)
    ensures
        r@ == with_speed(count@, crate::text::opt_view(speed)),
{
    match speed {
        Some(t) => cat3(count.as_str(), " ", t.as_str()),
        None => count,
    }
}

/// A count, nought where there is none.
pub open spec fn or_nought(v: Option<u64>) -> u64 {
    match v {
        Some(n) => n,
        None => 0,
    }
}

/// A count, nought where there is none.
fn nought_if_none(v: Option<u64>) -> (r: u64)
    ensures
        r == or_nought(v),
{
    match v {
        Some(n) => n,
        None => 0,
    }
}

/// The colour of a count: dimmed where there is none; any at all stands out in an
/// alarm.
pub open spec fn count_color(v: Option<u64>, alarm: bool, th: Theme) -> Color {
    match v {
        Some(n) => if alarm && n > 0 {
            th.color("hi_fg"@)
        } else {
            th.color("graph_text"@)
        },
        None => th.color("inactive_fg"@),
    }
}

/// The colour of a count.
fn color_of(v: Option<u64>, alarm: bool, th: &Theme) -> (r: Color)
    ensures
        r == count_color(v, alarm, *th),
{
    match v {
        Some(n) => if alarm && n > 0 {
            th.c("hi_fg")
        } else {
            th.c("graph_text")
        },
        None => th.c("inactive_fg"),
    }
}

/// The tokens that were saved to the host.
pub open spec fn backup_column<N: Num>(hc: HiCache<N>, th: Theme) -> SpanView {
    sp(
        "backup "@ + with_speed(
            count_or_na(hc.backuped_total),
            speed_text(hc.backup_gbps, hc.backup_mean_secs),
        ),
        ink(count_color(hc.backuped_total, false, th)),
    )
}

/// The tokens that were lost; any is an alarm.
pub open spec fn drop_column<N: Num>(hc: HiCache<N>, th: Theme) -> SpanView {
    sp(
        "drop "@ + count_or_na(hc.dropped_total),
        ink(count_color(hc.dropped_total, true, th)),
    )
}

/// The tokens that came back from the host.
pub open spec fn back_column<N: Num>(hc: HiCache<N>, n: u64, th: Theme) -> SpanView {
    note_sp(
        "back "@ + with_speed(
            count_text(n),
            speed_text(hc.load_back_gbps, hc.load_back_mean_secs),
        ),
        th,
    )
}

/// The tokens that were fetched and thrown away: an alarm, hidden while there are none.
pub open spec fn fail_column<N: Num>(hc: HiCache<N>, th: Theme) -> SpanView {
    sp(
        "fail "@ + count_text(or_nought(hc.prefetch_failed_total)),
        ink(th.color("hi_fg"@)),
    )
}

/// The columns of the row on where evicted tokens went, with or without the two
/// routine ones.
pub open spec fn fate_columns<N: Num>(hc: HiCache<N>, th: Theme, backup: bool, back: bool) -> LineView {
    let first = if backup {
        seq![backup_column(hc, th)]
    } else {
        Seq::empty()
    };
    let third = match hc.load_back_total {
        Some(n) => if back {
            seq![back_column(hc, n, th)]
        } else {
            Seq::empty()
        },
        None => Seq::empty(),
    };
    let last = if or_nought(hc.prefetch_failed_total) > 0 {
        seq![fail_column(hc, th)]
    } else {
        Seq::empty()
    };
    first + seq![drop_column(hc, th)] + third + last
}

/// The bytes of the texts of some columns.
pub open spec fn bytes_of(cols: LineView) -> nat
    decreases cols.len(),
{
    if cols.len() == 0 {
        0
    } else {
        bytes_of(cols.drop_last()) + encode_utf8(cols.last().text).len()
    }
}

/// The width of a row of columns: the indent, the texts, two blanks between them.
pub open spec fn columns_width(cols: LineView) -> nat {
    10 + bytes_of(cols) + if cols.len() > 0 {
        2 * (cols.len() - 1) as nat
    } else {
        0
    }
}

/// Whether some columns can stay: they fit, or there are no more than two.
pub open spec fn columns_stay(cols: LineView, room: int) -> bool {
    columns_width(cols) <= room || cols.len() <= 2
}

/// The columns that are shown in `room` columns: the routine ones yield, `back` before
/// `backup`, until the rest fits; the alarms stay.
pub open spec fn shown_columns<N: Num>(hc: HiCache<N>, th: Theme, room: int) -> LineView {
    let back = columns_stay(fate_columns(hc, th, true, true), room);
    let backup = columns_stay(fate_columns(hc, th, true, back), room);
    fate_columns(hc, th, backup, back)
}

/// The columns with two blanks between them.
pub open spec fn spaced(cols: LineView, th: Theme) -> LineView
    decreases cols.len(),
{
    if cols.len() == 0 {
        Seq::empty()
    } else if cols.len() == 1 {
        cols
    } else {
        spaced(cols.drop_last(), th).push(note_sp("  "@, th)).push(cols.last())
    }
}

/// The inside width of a box.
pub open spec fn inner_width(rect: Rect) -> int {
    if rect.width < 2 {
        0
    } else {
        rect.width - 2
    }
}

/// Where evicted tokens went, where the server says.
pub open spec fn fate_lines<N: Num>(hc: HiCache<N>, th: Theme, room: int) -> Seq<LineView> {
    if hc.backuped_total is Some || hc.dropped_total is Some {
        seq![
            seq![sp("          "@, ink(th.color("title"@)))] + spaced(
                shown_columns(hc, th, room),
                th,
            ),
        ]
    } else {
        Seq::empty()
    }
}

/// The columns, with or without the two routine ones.
fn columns_of<N: Num>(hc: &HiCache<N>, th: &Theme, backup: bool, back: bool) -> (l: Vec<Span>)
    ensures
        spans_view(l@) == fate_columns(*hc, *th, backup, back),
{
    let mut l: Vec<Span> = Vec::new();
    if backup {
        let text = count_with(
            count_if_any(hc.backuped_total),
            speed_of(hc.backup_gbps, hc.backup_mean_secs),
        );
        add_span(
            &mut l,
            cat("backup ", text.as_str()).as_str(),
            ink(color_of(hc.backuped_total, false, th)),
        );
    }
    add_span(
        &mut l,
        cat("drop ", count_if_any(hc.dropped_total).as_str()).as_str(),
        ink(color_of(hc.dropped_total, true, th)),
    );
    if let Some(n) = hc.load_back_total {
        if back {
            let text = count_with(
                human_count(n),
                speed_of(hc.load_back_gbps, hc.load_back_mean_secs),
            );
            add_note(&mut l, cat("back ", text.as_str()).as_str(), th);
        }
    }
    let failed: u64 = nought_if_none(hc.prefetch_failed_total);
    if failed > 0 {
        add_span(
            &mut l,
            cat("fail ", human_count(failed).as_str()).as_str(),
            ink(th.c("hi_fg")),
        );
    }
    assert(spans_view(l@) =~= fate_columns(*hc, *th, backup, back));
    l
}

/// Whether some columns can stay.
fn can_stay(cols: &Vec<Span>, room: usize) -> (r: bool)
    requires
        room <= 0xffff,
    ensures
        r == columns_stay(spans_view(cols@), room as int),
{
    let ghost all = spans_view(cols@);
    let n: usize = cols.len();
    if n <= 2 {
        return true;
    }
    let mut sum: usize = 0;
    let mut i: usize = 0;
    assert(all.take(0) =~= Seq::empty());
    while i < n
        invariant
            i <= n,
            n == cols@.len(),
            all == spans_view(cols@),
            sum == if bytes_of(all.take(i as int)) > usize::MAX {
                usize::MAX as nat
            } else {
                bytes_of(all.take(i as int))
            },
        decreases n - i,
    {
        assert(all.take(i + 1).drop_last() =~= all.take(i as int));
        sum = sum.saturating_add(cols[i].content.as_str().as_bytes().len());
        i += 1;
    }
    assert(all.take(n as int) =~= all);
    let gaps: usize = (n - 1).saturating_add(n - 1);
    sum.saturating_add(gaps).saturating_add(10) <= room
}

/// The columns with two blanks between them.
fn space_out(cols: &Vec<Span>, th: &Theme) -> (l: Vec<Span>)
    ensures
        spans_view(l@) == spaced(spans_view(cols@), *th),
{
    let ghost all = spans_view(cols@);
    let mut l: Vec<Span> = Vec::new();
    let n: usize = cols.len();
    let mut i: usize = 0;
    assert(all.take(0) =~= Seq::empty());
    assert(spans_view(l@) =~= Seq::empty());
    while i < n
        invariant
            i <= n,
            n == cols@.len(),
            all == spans_view(cols@),
            spans_view(l@) == spaced(all.take(i as int), *th),
        decreases n - i,
    {
        assert(all.take(i + 1).drop_last() =~= all.take(i as int));
        if i > 0 {
            add_note(&mut l, "  ", th);
        }
        add_span(&mut l, cols[i].content.as_str(), cols[i].style);
        i += 1;
        assert(spans_view(l@) =~= spaced(all.take(i as int), *th));
    }
    assert(all.take(n as int) =~= all);
    l
}

fn add_fate<N: Num>(lines: &mut Vec<Line>, hc: &HiCache<N>, th: &Theme, room: usize)
    requires
        room <= 0xffff,
    ensures
        lines_view(final(lines)@) == lines_view(old(lines)@) + fate_lines(*hc, *th, room as int),
{
    if hc.backuped_total.is_some() || hc.dropped_total.is_some() {
        let back = can_stay(&columns_of(hc, th, true, true), room);
        let backup = can_stay(&columns_of(hc, th, true, back), room);
        let cols = columns_of(hc, th, backup, back);
        let mut l: Vec<Span> = Vec::new();
        add_span(&mut l, "          ", ink(th.c("title")));
        extend_spans(&mut l, space_out(&cols, th));
        assert(spans_view(l@) =~= fate_lines(*hc, *th, room as int)[0]);
        push_line(lines, l);
    }
    assert(lines_view(lines@) =~= lines_view(old(lines)@) + fate_lines(*hc, *th, room as int));
}

// ---- the box ----

/// The lines on the hierarchical cache.
pub open spec fn hicache_lines<N: Num>(h: Option<HiCache<N>>, th: Theme, dim: bool, room: int) -> Seq<
    LineView,
> {
    match h {
        Some(hc) => seq![host_line(hc, th)] + storage_lines(hc, th, dim) + fate_lines(hc, th, room),
        None => Seq::empty(),
    }
}

/// The lines on the pool itself.
pub open spec fn pool_lines<N: Num>(k: KvPanel<N>, th: Theme, gui: Gui, rect: Rect, dim: bool) -> Seq<
    LineView,
> {
    let ledger = if has_ledger(k) {
        seq![ledger_line(k, th, dim)]
    } else {
        Seq::empty()
    };
    seq![
        pool_line(k, th, dim),
        metered(k.token_usage, bar_width(rect), th),
        room_line(k, th, dim),
    ] + ledger + seq![hit_line(k, window_of(rect.width, gui), th, dim)]
}

/// The lines of the token pool box.
pub open spec fn kv_lines<N: Num>(s: Snapshot<N>, th: Theme, gui: Gui, rect: Rect) -> Seq<LineView> {
    let k = s.kv;
    let dim = s.conn.dimmed_spec();
    pool_lines(k, th, gui, rect, dim) + subpool("full"@, k.full_token_usage, None, None, None, th)
        + subpool("swa"@, k.swa_token_usage, k.swa_used, k.swa_available, k.swa_evictable, th)
        + subpool("mamba"@, k.mamba_usage, k.mamba_used, k.mamba_available, k.mamba_evictable, th)
        + hicache_lines(k.hicache, th, dim, inner_width(rect))
}

fn pool_rows<N: Num>(k: &KvPanel<N>, th: &Theme, gui: Gui, rect: Rect, dim: bool) -> (r: Vec<Line>)
    ensures
        lines_view(r@) == pool_lines(*k, *th, gui, rect, dim),
{
    let mut lines: Vec<Line> = Vec::new();
    push_line(&mut lines, pool_row(k, th, dim));
    push_line(
        &mut lines,
        meter_of(k.token_usage, rect.width.saturating_sub(10) as usize, th),
    );
    push_line(&mut lines, room_row(k, th, dim));
    if k.weight_gb.is_some() || k.kv_cache_gb.is_some() || k.graph_gb.is_some() {
        push_line(&mut lines, ledger_row(k, th, dim));
    }
    push_line(&mut lines, hit_row(k, window_for(rect.width, gui), th, dim));
    assert(lines_view(lines@) =~= pool_lines(*k, *th, gui, rect, dim));
    lines
}

fn add_hicache<N: Num>(lines: &mut Vec<Line>, h: &Option<HiCache<N>>, th: &Theme, dim: bool, room: usize)
    requires
        room <= 0xffff,
    ensures
        lines_view(final(lines)@) == lines_view(old(lines)@) + hicache_lines(
            *h,
            *th,
            dim,
            room as int,
        ),
{
    if let Some(hc) = h {
        push_line(lines, host_row(hc, th));
        add_storage(lines, hc, th, dim);
        add_fate(lines, hc, th, room);
    }
    assert(lines_view(lines@) =~= lines_view(old(lines)@) + hicache_lines(
        *h,
        *th,
        dim,
        room as int,
    ));
}

fn kv_rows<N: Num>(s: &Snapshot<N>, th: &Theme, gui: Gui, rect: Rect) -> (r: Vec<Line>)
    ensures
        lines_view(r@) == kv_lines(*s, *th, gui, rect),
{
    let k = &s.kv;
    let dim = s.conn.dimmed();
    let mut lines = pool_rows(k, th, gui, rect, dim);
    add_subpool(&mut lines, "full", k.full_token_usage, None, None, None, th);
    add_subpool(
        &mut lines,
        "swa",
        k.swa_token_usage,
        k.swa_used,
        k.swa_available,
        k.swa_evictable,
        th,
    );
    add_subpool(
        &mut lines,
        "mamba",
        k.mamba_usage,
        k.mamba_used,
        k.mamba_available,
        k.mamba_evictable,
        th,
    );
    add_hicache(&mut lines, &k.hicache, th, dim, rect.width.saturating_sub(2) as usize);
    lines
}

/// The grid with the token pool box on the inside of `rect`: its lines, and below them
/// the graph of the hit rate.
pub open spec fn kv_drawn<N: Num>(g: Grid, s: Snapshot<N>, th: Theme, gui: Gui, rect: Rect) -> Grid {
    let lines = kv_lines(s, th, gui, rect);
    area_drawn(
        lines_written(g, rect, lines),
        rest_of(rect, lines.len() as int),
        s.kv.cache_hit_series@,
        th,
        "cached"@,
        gui.braille_graphs,
        None,
    )
}

/// The token pool box: a bounded pool, used, available and evictable, hit rate,
/// sub-pool ratios, and the hierarchical cache where there is one.
pub fn kv<N: Num>(s: &Snapshot<N>, th: &Theme, gui: Gui, rect: Rect, buf: &mut Buffer)
    requires
        fits(rect, old(buf).w(), old(buf).h()),
    ensures
        final(buf).w() == old(buf).w(),
        final(buf).h() == old(buf).h(),
        shaped(old(buf)@, old(buf).w() as int, old(buf).h() as int),
        shaped(final(buf)@, old(buf).w() as int, old(buf).h() as int),
        final(buf)@ == kv_drawn(old(buf)@, *s, *th, gui, rect),
{
    let lines = kv_rows(s, th, gui, rect);
    write_lines(buf, rect, &lines);
    let graph = below(rect, lines.len(), buf);
    let series = s.kv.cache_hit_series.samples();
    area_graph(buf, graph, &series, th, "cached", gui.braille_graphs, None);
}

// ---- laws ----

/// However narrow the box, the alarms of the hierarchical cache stay: the column of
/// lost tokens always, and that of failed fetches whenever there are any.
pub proof fn alarms_survive<N: Num>(hc: HiCache<N>, th: Theme, room: int)
    ensures
        shown_columns(hc, th, room).contains(drop_column(hc, th)),
        or_nought(hc.prefetch_failed_total) > 0 ==> shown_columns(hc, th, room).contains(
            fail_column(hc, th),
        ),
{
    let cols = shown_columns(hc, th, room);
    if cols[0] == drop_column(hc, th) {
        assert(cols.contains(cols[0]));
    } else {
        assert(cols[1] == drop_column(hc, th));
        assert(cols.contains(cols[1]));
    }
    if or_nought(hc.prefetch_failed_total) > 0 {
        assert(cols[cols.len() - 1] == fail_column(hc, th));
        assert(cols.contains(cols[cols.len() - 1]));
    }
}

/// A column yields only where the row would not fit.
pub proof fn columns_yield_only_for_room<N: Num>(hc: HiCache<N>, th: Theme, room: int)
    requires
        columns_width(fate_columns(hc, th, true, true)) <= room,
    ensures
        shown_columns(hc, th, room) == fate_columns(hc, th, true, true),
{
}

/// What became of evicted tokens is never made up: a counter that the server does not
/// have says N/A, dimmed, wherever it would stand.
pub proof fn unknown_fates_are_not_counted<N: Num>(hc: HiCache<N>, th: Theme)
    ensures
        hc.dropped_total is None ==> drop_column(hc, th) == sp(
            "drop "@ + "N/A"@,
            ink(th.color("inactive_fg"@)),
        ),
        hc.backuped_total is None ==> backup_column(hc, th) == sp(
            "backup "@ + with_speed("N/A"@, speed_text(hc.backup_gbps, hc.backup_mean_secs)),
            ink(th.color("inactive_fg"@)),
        ),
{
}

}
