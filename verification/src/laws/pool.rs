//! What the token pool box reads.
use crate::laws::boxes::{box_reads, fixed_or_na, known_says, line_is_among, lines_say,
    maybe_says, plain_text, row_reads, same_text, says, says_behind, says_within, value_says};
use crate::model::snapshot::{HiCache, KvPanel, Snapshot};
use crate::num::Num;
use crate::text::{blanks, decimal_text};
use crate::ui::cells::{fits, ink, shaped, Grid, LineView, Rect};
use crate::ui::panels::engine::window_of;
use crate::ui::panels::human::{count_text, duration_text, pct_text, rate_text};
use crate::ui::panels::kv::{back_column, backup_column, counted_note, drop_column,
    fail_column, fate_columns, free_note, gone_text, hicache_lines, hit_line, host_line,
    inner_width, kv_drawn, kv_lines, ledger_line, metered, pool_line, pool_lines, reuse_share,
    room_line, storage_lines, subpool, subpool_line};
use crate::ui::panels::rows::{count_known, fixed_known};
use crate::ui::theme::Theme;
use crate::ui::widgets::meter::meter_line;
use crate::ui::widgets::Gui;
use vstd::prelude::*;

verus! {

/// A count, or `N/A`.
pub open spec fn count_or_none(v: Option<u64>) -> Seq<char> {
    match v {
        Some(n) => count_text(n),
        None => "N/A"@,
    }
}

/// Every line of the token pool box stands on its row.
pub proof fn pool_box_reads<N: Num>(
    g: Grid,
    s: Snapshot<N>,
    th: Theme,
    gui: Gui,
    rect: Rect,
    w: u16,
    h: u16,
    k: int,
)
    requires
        shaped(g, w as int, h as int),
        fits(rect, w, h),
        0 <= k < kv_lines(s, th, gui, rect).len(),
        k < rect.height - 2,
    ensures
        row_reads(
            kv_drawn(g, s, th, gui, rect),
            rect,
            k,
            plain_text(kv_lines(s, th, gui, rect)[k]),
        ),
{
    let lines = kv_lines(s, th, gui, rect);
    box_reads(
        g,
        rect,
        lines,
        s.kv.cache_hit_series@,
        th,
        "cached"@,
        gui.braille_graphs,
        None,
        w,
        h,
    );
    assert(lines[k] == lines[k]);
}

/// What stands behind each label of the pool itself.
pub proof fn pool_lines_say<N: Num>(s: Snapshot<N>, th: Theme, gui: Gui, rect: Rect)
    ensures
        ({
            let l = kv_lines(s, th, gui, rect);
            let k = s.kv;
            &&& lines_say(l, "Total:"@, "Total:"@, count_text(k.total_tokens))
            &&& lines_say(l, "Total:"@, "  used "@, count_text(k.used_tokens))
            &&& lines_say(l, "available "@, "available "@, count_or_none(k.available_tokens))
            &&& lines_say(l, "available "@, "  evict "@, count_or_none(k.evictable_tokens))
            &&& has_any(k) ==> {
                &&& lines_say(l, "mem "@, "w "@, fixed_or_na(k.weight_gb, 1, "G"@))
                &&& lines_say(l, "mem "@, " kv "@, fixed_or_na(k.kv_cache_gb, 1, "G"@))
                &&& lines_say(l, "mem "@, " graph "@, fixed_or_na(k.graph_gb, 1, "G"@))
            }
            &&& lines_say(l, "hit "@, "hit "@, pct_text(k.cache_hit_rate) + "/"@)
            &&& k.evicted_total matches Some(n) ==> lines_say(
                l,
                "hit "@,
                "  gone "@,
                count_text(n) + match k.evicted_tps {
                    Some(r) => " ("@ + rate_text(r) + "/s)"@,
                    None => ""@,
                } + match k.evict_pass_mean_secs {
                    Some(t) => " "@ + duration_text(t),
                    None => ""@,
                },
            )
        }),
{
    let k = s.kv;
    let dim = s.conn.dimmed_spec();
    let own = pool_lines(k, th, gui, rect, dim);
    let l = kv_lines(s, th, gui, rect);
    assert forall|i: int| 0 <= i < own.len() implies #[trigger] l[i] == own[i] by {}
    assert(l[0] == pool_line(k, th, dim));
    assert(l[2] == room_line(k, th, dim));
    total_line_says(l, k, th, dim);
    room_line_says(l, k, th, dim);
    if has_any(k) {
        assert(l[3] == ledger_line(k, th, dim));
        ledger_line_says(l, k, th, dim);
    }
    hit_line_says(k, window_of(rect.width, gui), th, dim);
    let n = own.len() - 1;
    assert(l[n] == hit_line(k, window_of(rect.width, gui), th, dim));
    line_is_among(l, n, "hit "@, "hit "@, pct_text(k.cache_hit_rate) + "/"@);
    if let Some(total) = k.evicted_total {
        line_is_among(l, n, "hit "@, "  gone "@, gone_text(total, k.evicted_tps, k.evict_pass_mean_secs));
        reveal_strlit("");
        assert(gone_text(total, k.evicted_tps, k.evict_pass_mean_secs) =~= count_text(total)
            + match k.evicted_tps {
            Some(r) => " ("@ + rate_text(r) + "/s)"@,
            None => ""@,
        } + match k.evict_pass_mean_secs {
            Some(t) => " "@ + duration_text(t),
            None => ""@,
        });
    }
}

proof fn total_line_says<N: Num>(l: Seq<LineView>, k: KvPanel<N>, th: Theme, dim: bool)
    requires
        l.len() > 0,
        l[0] == pool_line(k, th, dim),
    ensures
        lines_say(l, "Total:"@, "Total:"@, count_text(k.total_tokens)),
        lines_say(l, "Total:"@, "  used "@, count_text(k.used_tokens)),
{
    let a = pool_line(k, th, dim);
    known_says(a, 0, count_text(k.total_tokens), 12, th, dim);
    assert(a[2].text =~= Seq::empty() + "  used "@ + blanks(0) + count_text(k.used_tokens)
        + Seq::empty());
    says_within(a, 2, Seq::empty(), "  used "@, 0, count_text(k.used_tokens), Seq::empty());
    line_is_among(l, 0, "Total:"@, "Total:"@, count_text(k.total_tokens));
    line_is_among(l, 0, "Total:"@, "  used "@, count_text(k.used_tokens));
}

proof fn room_line_says<N: Num>(l: Seq<LineView>, k: KvPanel<N>, th: Theme, dim: bool)
    requires
        l.len() > 2,
        l[2] == room_line(k, th, dim),
    ensures
        lines_say(l, "available "@, "available "@, count_or_none(k.available_tokens)),
        lines_say(l, "available "@, "  evict "@, count_or_none(k.evictable_tokens)),
{
    let b = room_line(k, th, dim);
    maybe_says(b, 0, count_known(k.available_tokens), 10, th, dim);
    maybe_says(b, 2, count_known(k.evictable_tokens), 10, th, dim);
    line_is_among(l, 2, "available "@, "available "@, count_or_none(k.available_tokens));
    line_is_among(l, 2, "available "@, "  evict "@, count_or_none(k.evictable_tokens));
}

proof fn ledger_line_says<N: Num>(l: Seq<LineView>, k: KvPanel<N>, th: Theme, dim: bool)
    requires
        l.len() > 3,
        l[3] == ledger_line(k, th, dim),
    ensures
        lines_say(l, "mem "@, "w "@, fixed_or_na(k.weight_gb, 1, "G"@)),
        lines_say(l, "mem "@, " kv "@, fixed_or_na(k.kv_cache_gb, 1, "G"@)),
        lines_say(l, "mem "@, " graph "@, fixed_or_na(k.graph_gb, 1, "G"@)),
{
    let c = ledger_line(k, th, dim);
    maybe_says(c, 1, fixed_known(k.weight_gb, 1, "G"@), 7, th, dim);
    maybe_says(c, 3, fixed_known(k.kv_cache_gb, 1, "G"@), 7, th, dim);
    maybe_says(c, 5, fixed_known(k.graph_gb, 1, "G"@), 7, th, dim);
    line_is_among(l, 3, "mem "@, "w "@, fixed_or_na(k.weight_gb, 1, "G"@));
    line_is_among(l, 3, "mem "@, " kv "@, fixed_or_na(k.kv_cache_gb, 1, "G"@));
    line_is_among(l, 3, "mem "@, " graph "@, fixed_or_na(k.graph_gb, 1, "G"@));
}

/// Whether the server accounts for any of its memory.
pub open spec fn has_any<N: Num>(k: KvPanel<N>) -> bool {
    k.weight_gb is Some || k.kv_cache_gb is Some || k.graph_gb is Some
}

proof fn hit_line_says<N: Num>(k: KvPanel<N>, window: nat, th: Theme, dim: bool)
    ensures
        ({
            let t = plain_text(hit_line(k, window, th, dim));
            &&& says(t, "hit "@, pct_text(k.cache_hit_rate) + "/"@)
            &&& k.evicted_total matches Some(n) ==> says(
                t,
                "  gone "@,
                gone_text(n, k.evicted_tps, k.evict_pass_mean_secs),
            )
        }),
{
    let l = hit_line(k, window, th, dim);
    let top = pct_text(
        crate::num::peak_from(
            crate::model::hist::newest(k.cache_hit_series@, window),
            N::zero_spec(),
        ),
    );
    value_says(
        l,
        0,
        Some(pct_text(k.cache_hit_rate) + "/"@ + top),
        12,
        th,
        dim,
        pct_text(k.cache_hit_rate) + "/"@,
        top,
    );
    if let Some(n) = k.evicted_total {
        known_says(l, 2, gone_text(n, k.evicted_tps, k.evict_pass_mean_secs), 18, th, dim);
    }
}

// ---- sub-pools ----

/// What the line of a sub-pool says.
pub open spec fn subpool_says(
    l: Seq<LineView>,
    head: Seq<char>,
    share: Seq<char>,
    used: Option<u64>,
    free: Option<u64>,
    evict: Option<u64>,
) -> bool {
    &&& lines_say(l, head, " "@, share)
    &&& used matches Some(n) ==> lines_say(l, head, share, decimal_text(n as nat))
    &&& free matches Some(n) ==> lines_say(l, head, "  free "@, decimal_text(n as nat))
    &&& evict matches Some(n) ==> lines_say(l, head, "  evict "@, decimal_text(n as nat))
}

proof fn subpool_line_says<N: Num>(
    lines: Seq<LineView>,
    k: int,
    label: Seq<char>,
    v: N,
    used: Option<u64>,
    free: Option<u64>,
    evict: Option<u64>,
    th: Theme,
)
    requires
        0 <= k < lines.len(),
        lines[k] == subpool_line(label, v, used, free, evict, th),
    ensures
        subpool_says(lines, label + " "@, pct_text(v), used, free, evict),
{
    let l = subpool_line(label, v, used, free, evict, th);
    let head = label + " "@;
    let bar = meter_line(v, 16, "cpu"@, th);
    let i = bar.len() as int + 1;
    let m = metered(v, 16, th);
    assert(m[i - 1] == l[i]);
    assert(l[i].text == " "@ + pct_text(v));
    assert(head.is_prefix_of(l[0].text));
    assert(l[i].text =~= Seq::empty() + " "@ + blanks(0) + pct_text(v) + Seq::empty());
    says_within(l, i, Seq::empty(), " "@, 0, pct_text(v), Seq::empty());
    line_is_among(lines, k, head, " "@, pct_text(v));
    reveal_strlit("  ");
    let u = counted_note("  "@, used, th);
    let f = free_note(free, th);
    let e = counted_note("  evict "@, evict, th);
    if let Some(n) = used {
        assert(l[i + 1] == u[0]);
        assert(l[i + 1].text =~= blanks(2) + decimal_text(n as nat));
        share_before(l, i, pct_text(v), decimal_text(n as nat));
        line_is_among(lines, k, head, pct_text(v), decimal_text(n as nat));
    }
    if let Some(n) = free {
        let j = i + 1 + u.len();
        assert(l[j] == f[0]);
        assert(l[j].text =~= Seq::empty() + "  free "@ + blanks(0) + decimal_text(n as nat)
            + Seq::empty());
        says_within(l, j, Seq::empty(), "  free "@, 0, decimal_text(n as nat), Seq::empty());
        line_is_among(lines, k, head, "  free "@, decimal_text(n as nat));
    }
    if let Some(n) = evict {
        let j = i + 1 + u.len() + f.len();
        assert(l[j] == e[0]);
        assert(l[j].text =~= Seq::empty() + "  evict "@ + blanks(0) + decimal_text(n as nat)
            + Seq::empty());
        says_within(l, j, Seq::empty(), "  evict "@, 0, decimal_text(n as nat), Seq::empty());
        line_is_among(lines, k, head, "  evict "@, decimal_text(n as nat));
    }
}

/// The end of a part and a value behind blanks in the next part.
proof fn share_before(line: LineView, i: int, end: Seq<char>, value: Seq<char>)
    requires
        0 <= i < line.len() - 1,
        line[i].text == " "@ + end,
        line[i + 1].text == blanks(2) + value,
    ensures
        says(plain_text(line), end, value),
{
    // The line reads the same with the blank in a part of its own.
    let split = line.take(i) + seq![
        crate::ui::cells::sp(" "@, crate::ui::cells::plain()),
        crate::ui::cells::sp(end, crate::ui::cells::plain()),
    ] + line.skip(i + 1);
    assert(split.take(i) =~= line.take(i));
    assert(split.skip(i + 2) =~= line.skip(i + 1));
    same_text(line, split, i);
    assert(split[i + 1].text == end);
    assert(split[i + 2] == line[i + 1]);
    assert(split[i + 2].text =~= blanks(2) + value + Seq::empty());
    says_behind(split, i + 1, 2, value, Seq::empty());
}

/// What the line of each sub-pool says; a sub-pool that the model does not have has none.
pub proof fn subpool_lines_say<N: Num>(s: Snapshot<N>, th: Theme, gui: Gui, rect: Rect)
    ensures
        ({
            let l = kv_lines(s, th, gui, rect);
            let k = s.kv;
            &&& k.full_token_usage matches Some(v) ==> subpool_says(
                l,
                "full"@ + " "@,
                pct_text(v),
                None,
                None,
                None,
            )
            &&& k.swa_token_usage matches Some(v) ==> subpool_says(
                l,
                "swa"@ + " "@,
                pct_text(v),
                k.swa_used,
                k.swa_available,
                k.swa_evictable,
            )
            &&& k.mamba_usage matches Some(v) ==> subpool_says(
                l,
                "mamba"@ + " "@,
                pct_text(v),
                k.mamba_used,
                k.mamba_available,
                k.mamba_evictable,
            )
        }),
{
    let k = s.kv;
    let dim = s.conn.dimmed_spec();
    let l = kv_lines(s, th, gui, rect);
    let a = pool_lines(k, th, gui, rect, dim);
    let b = subpool("full"@, k.full_token_usage, None, None, None, th);
    let c = subpool("swa"@, k.swa_token_usage, k.swa_used, k.swa_available, k.swa_evictable, th);
    let d = subpool(
        "mamba"@,
        k.mamba_usage,
        k.mamba_used,
        k.mamba_available,
        k.mamba_evictable,
        th,
    );
    if let Some(v) = k.full_token_usage {
        assert(l[a.len() as int] == b[0]);
        subpool_line_says(l, a.len() as int, "full"@, v, None, None, None, th);
    }
    if let Some(v) = k.swa_token_usage {
        let n = (a.len() + b.len()) as int;
        assert(l[n] == c[0]);
        subpool_line_says(l, n, "swa"@, v, k.swa_used, k.swa_available, k.swa_evictable, th);
    }
    if let Some(v) = k.mamba_usage {
        let n = (a.len() + b.len() + c.len()) as int;
        assert(l[n] == d[0]);
        subpool_line_says(l, n, "mamba"@, v, k.mamba_used, k.mamba_available, k.mamba_evictable, th);
    }
}

// ---- the host tier ----

/// What the lines on the host tier say: how much of it is used of how much, and what went to
/// storage and came back.
pub proof fn host_lines_say<N: Num>(s: Snapshot<N>, th: Theme, gui: Gui, rect: Rect)
    ensures
        s.kv.hicache matches Some(hc) ==> {
            let l = kv_lines(s, th, gui, rect);
            &&& lines_say(
                l,
                "hicache "@,
                " "@,
                count_text(hc.host_used) + "/"@ + count_text(hc.host_total),
            )
            &&& hc.storage_backuped_total is Some && hc.storage_prefetched_total is Some ==> {
                &&& lines_say(
                    l,
                    "          store "@,
                    "          store "@,
                    count_text(hc.storage_backuped_total->0),
                )
                &&& lines_say(
                    l,
                    "          store "@,
                    "  hit "@,
                    count_text(hc.storage_prefetched_total->0) + " ("@,
                )
            }
        },
{
    let k = s.kv;
    let dim = s.conn.dimmed_spec();
    if let Some(hc) = k.hicache {
        let l = kv_lines(s, th, gui, rect);
        let tail = hicache_lines(k.hicache, th, dim, inner_width(rect));
        let n = (l.len() - tail.len()) as int;
        let a = host_line(hc, th);
        assert(tail[0] == a);
        assert(l[n] == a);
        let i = a.len() - 1;
        let v = count_text(hc.host_used) + "/"@ + count_text(hc.host_total);
        assert(a[i].text =~= Seq::empty() + " "@ + blanks(0) + v + Seq::empty());
        says_within(a, i, Seq::empty(), " "@, 0, v, Seq::empty());
        line_is_among(l, n, "hicache "@, " "@, v);
        if hc.storage_backuped_total is Some && hc.storage_prefetched_total is Some {
            let (x, y) = (hc.storage_backuped_total->0, hc.storage_prefetched_total->0);
            let b = storage_lines(hc, th, dim)[0];
            assert(tail[1] == b);
            assert(l[n + 1] == b);
            known_says(b, 0, count_text(x), 10, th, dim);
            let rest = pct_text(reuse_share::<N>(x, y)) + ")"@;
            let full = count_text(y) + " ("@ + pct_text(reuse_share::<N>(x, y)) + ")"@;
            assert(full =~= count_text(y) + " ("@ + rest);
            value_says(b, 2, Some(full), 14, th, dim, count_text(y) + " ("@, rest);
            line_is_among(l, n + 1, "          store "@, "          store "@, count_text(x));
            line_is_among(l, n + 1, "          store "@, "  hit "@, count_text(y) + " ("@);
        }
    }
}

/// What the columns on the fate of evicted tokens say: each the count of its own counter.
pub proof fn fate_columns_say<N: Num>(hc: HiCache<N>, th: Theme)
    ensures
        ("backup "@ + count_or_none(hc.backuped_total)).is_prefix_of(backup_column(hc, th).text),
        drop_column(hc, th).text == "drop "@ + count_or_none(hc.dropped_total),
        hc.load_back_total matches Some(n) ==> ("back "@ + count_text(n)).is_prefix_of(
            back_column(hc, n, th).text,
        ),
        hc.load_back_total matches Some(n) ==> fate_columns(hc, th, true, true).contains(
            back_column(hc, n, th),
        ),
        fate_columns(hc, th, true, true).contains(backup_column(hc, th)),
        hc.prefetch_failed_total matches Some(n) ==> fail_column(hc, th).text == "fail "@
            + count_text(n),
        hc.dropped_total matches Some(n) ==> drop_column(hc, th).style == ink(
            if n > 0 {
                th.color("hi_fg"@)
            } else {
                th.color("graph_text"@)
            },
        ),
{
    let cols = fate_columns(hc, th, true, true);
    assert(cols[0] == backup_column(hc, th));
    let a = "backup "@ + count_or_none(hc.backuped_total);
    let b = backup_column(hc, th).text;
    assert(a =~= b.subrange(0, a.len() as int));
    if let Some(n) = hc.load_back_total {
        assert(cols[2] == back_column(hc, n, th));
        let c = "back "@ + count_text(n);
        let d = back_column(hc, n, th).text;
        assert(c =~= d.subrange(0, c.len() as int));
    }
}

}
