//! What the rank table, the detail of a rank and the overlays read.
use crate::config::Config;
use crate::laws::boxes::{fixed_or_na, known_says, line_is_among, lines_say, maybe_says, padded_says,
    plain_text, says, share_or_na};
use crate::model::snapshot::{HttpEndpoint, Percentile, RankRow, Snapshot};
use crate::num::Num;
use crate::text::{blanks, decimal_text, padded_left, padded_right};
use crate::ui::cells::LineView;
use crate::ui::overlays::lines::{identity_text, options_text, percentile_text, route_text,
    server_text};
use crate::ui::panels::human::{count_text, duration_text, fill_of, pct_text, rate_frac_text,
    rate_text, shown_text};
use crate::ui::panels::rows::{fixed_known, pct_known};
use crate::ui::theme::Theme;
use crate::ui::widgets::table::{detail_lines, field_span, header_line, header_span, row_line, SortCol};
use crate::ui::width::display_width;
use vstd::prelude::*;

verus! {

// ---- columns ----

/// Whether a text is the value with blanks around it.
pub open spec fn holds(t: Seq<char>, value: Seq<char>) -> bool {
    exists|n: nat, m: nat| t == #[trigger] (blanks(n) + value) + #[trigger] blanks(m)
}

/// The mark of the column that is sorted by.
pub open spec fn mark_of(c: SortCol, col: SortCol, reverse: bool) -> Seq<char> {
    if c != col {
        ""@
    } else if reverse {
        "▼"@
    } else {
        "▲"@
    }
}

proof fn left_holds(t: Seq<char>, value: Seq<char>, n: nat)
    requires
        t == blanks(n) + value,
    ensures
        holds(t, value),
{
    assert(t =~= (blanks(n) + value) + blanks(0));
}

proof fn padded_holds(s: Seq<char>, width: nat)
    ensures
        holds(padded_left(s, width), s),
        holds(padded_right(s, width), s),
{
    if s.len() >= width {
        assert(s =~= (blanks(0) + s) + blanks(0));
    } else {
        let n = (width - s.len()) as nat;
        assert(padded_left(s, width) =~= (blanks(n) + s) + blanks(0));
        assert(padded_right(s, width) =~= (blanks(0) + s) + blanks(n));
    }
}

/// Each column has its title above, with a mark where it is the one that is sorted by.
pub proof fn columns_have_their_titles(col: SortCol, reverse: bool, th: Theme)
    ensures
        ({
            let h = header_line(col, reverse, th);
            &&& h.len() == 8
            &&& holds(h[0].text, "rank"@ + mark_of(SortCol::Rank, col, reverse))
            &&& holds(h[1].text, "run"@ + mark_of(SortCol::Run, col, reverse))
            &&& holds(h[2].text, "wait"@ + mark_of(SortCol::Wait, col, reverse))
            &&& holds(h[3].text, "used"@ + mark_of(SortCol::Used, col, reverse))
            &&& holds(h[4].text, "usage"@ + mark_of(SortCol::Usage, col, reverse))
            &&& holds(h[5].text, "gen/s"@ + mark_of(SortCol::Gen, col, reverse))
            &&& holds(h[6].text, "hit"@ + mark_of(SortCol::Hit, col, reverse))
            &&& holds(h[7].text, "util"@ + mark_of(SortCol::Util, col, reverse))
        }),
{
    let h = header_line(col, reverse, th);
    assert forall|c: SortCol| holds(
        (#[trigger] header_span(c, col, reverse, th)).text,
        c.label_spec() + mark_of(c, col, reverse),
    ) by {
        let t = c.label_spec() + mark_of(c, col, reverse);
        padded_holds(t, 5);
        padded_holds(t, c.width_spec());
    }
    let all = SortCol::ALL@;
    assert(all[0] == SortCol::Rank && all[1] == SortCol::Run && all[2] == SortCol::Wait && all[3]
        == SortCol::Used && all[4] == SortCol::Usage && all[5] == SortCol::Gen && all[6]
        == SortCol::Hit && all[7] == SortCol::Util);
}

/// A row shows in each column what stands above it.
pub proof fn rows_show_their_columns<N: Num>(
    r: RankRow<N>,
    i: int,
    selected: bool,
    th: Theme,
    dim: bool,
)
    ensures
        ({
            let l = row_line(r, i, selected, th, dim);
            &&& l.len() == 8
            &&& holds(
                l[0].text,
                if i == 0 {
                    "agg"@
                } else {
                    decimal_text(r.dp_rank as nat)
                },
            )
            &&& holds(l[1].text, count_text(r.running))
            &&& holds(l[2].text, count_text(r.waiting))
            &&& holds(l[3].text, count_text(r.used_tokens))
            &&& holds(l[4].text, pct_text(r.token_usage))
            &&& holds(l[5].text, rate_text(r.gen_throughput))
            &&& holds(l[6].text, pct_text(r.cache_hit_rate))
            &&& holds(l[7].text, share_or_na(r.utilization))
        }),
{
    let l = row_line(r, i, selected, th, dim);
    padded_holds(
        if i == 0 {
            "agg"@
        } else {
            decimal_text(r.dp_rank as nat)
        },
        5,
    );
    assert forall|c: SortCol, v: Option<Seq<char>>| holds(
        (#[trigger] field_span(c, v, selected, th, dim)).text,
        shown_text(v),
    ) by {
        let n = fill_of(display_width(shown_text(v)) as int, c.width_spec() as int);
        left_holds(field_span(c, v, selected, th, dim).text, shown_text(v), n);
    }
    assert(l[1] == field_span(SortCol::Run, Some(count_text(r.running)), selected, th, dim));
    assert(l[2] == field_span(SortCol::Wait, Some(count_text(r.waiting)), selected, th, dim));
    assert(l[3] == field_span(SortCol::Used, Some(count_text(r.used_tokens)), selected, th, dim));
    assert(l[4] == field_span(SortCol::Usage, Some(pct_text(r.token_usage)), selected, th, dim));
    assert(l[5] == field_span(SortCol::Gen, Some(rate_text(r.gen_throughput)), selected, th, dim));
    assert(l[6] == field_span(SortCol::Hit, Some(pct_text(r.cache_hit_rate)), selected, th, dim));
    assert(l[7] == field_span(SortCol::Util, pct_known(r.utilization), selected, th, dim));
}

/// What stands behind each label of a rank in detail.
pub proof fn detail_says<N: Num>(r: RankRow<N>, i: int, th: Theme, dim: bool)
    ensures
        ({
            let l = detail_lines(r, i, th, dim);
            &&& says(plain_text(l[1]), "running "@, count_text(r.running))
            &&& says(plain_text(l[1]), "  waiting "@, count_text(r.waiting))
            &&& says(plain_text(l[2]), "used    "@, count_text(r.used_tokens))
            &&& says(plain_text(l[2]), "  total  "@, count_text(r.total_tokens))
            &&& says(plain_text(l[2]), "  usage  "@, pct_text(r.token_usage))
            &&& says(plain_text(l[3]), "gen/s   "@, rate_text(r.gen_throughput))
            &&& says(plain_text(l[3]), "  hit    "@, pct_text(r.cache_hit_rate))
            &&& says(plain_text(l[3]), "  util   "@, share_or_na(r.utilization))
            &&& says(
                plain_text(l[4]),
                "spec    "@,
                fixed_or_na(r.spec_accept_length, 2, " tok/fwd"@),
            )
            &&& says(plain_text(l[4]), "  accept  "@, share_or_na(r.spec_accept_rate))
            &&& l[0][0].text == if i == 0 {
                "agg"@
            } else {
                "rank "@ + decimal_text(r.dp_rank as nat)
            }
        }),
{
    let l = detail_lines(r, i, th, dim);
    known_says(l[1], 0, count_text(r.running), 8, th, dim);
    known_says(l[1], 2, count_text(r.waiting), 8, th, dim);
    known_says(l[2], 0, count_text(r.used_tokens), 8, th, dim);
    known_says(l[2], 2, count_text(r.total_tokens), 8, th, dim);
    known_says(l[2], 4, pct_text(r.token_usage), 6, th, dim);
    known_says(l[3], 0, rate_text(r.gen_throughput), 8, th, dim);
    known_says(l[3], 2, pct_text(r.cache_hit_rate), 8, th, dim);
    maybe_says(l[3], 4, pct_known(r.utilization), 6, th, dim);
    maybe_says(l[4], 0, fixed_known(r.spec_accept_length, 2, " tok/fwd"@), 10, th, dim);
    maybe_says(l[4], 2, pct_known(r.spec_accept_rate), 8, th, dim);
}

// ---- the overlays ----

/// A text that is known once the server was asked.
pub open spec fn known_if(loaded: bool, v: Seq<char>) -> Seq<char> {
    if loaded {
        v
    } else {
        "—"@
    }
}

/// A flag in words.
pub open spec fn yes_no(v: bool) -> Seq<char> {
    if v {
        "yes"@
    } else {
        "no"@
    }
}

/// A number written out, or a dash.
pub open spec fn number_or_dash(v: Option<u64>) -> Seq<char> {
    match v {
        Some(n) => decimal_text(n as nat),
        None => "—"@,
    }
}

pub(crate) proof fn field_says(l: Seq<LineView>, k: int, label: Seq<char>, width: nat, value: Seq<char>)
    requires
        0 <= k < l.len(),
        l[k].len() == 2,
        l[k][0].text == padded_right(label, width),
        l[k][1].text == value,
    ensures
        lines_say(l, label, label, value),
{
    let n = if label.len() >= width {
        0
    } else {
        (width - label.len()) as nat
    };
    assert(l[k][0].text =~= label + blanks(n));
    assert(value =~= value + Seq::empty());
    padded_says(l[k], 0, label, n, value, Seq::empty());
    assert(label =~= l[k][0].text.subrange(0, label.len() as int));
    line_is_among(l, k, label, label, value);
}

/// What the server overlay says of the server.
pub proof fn server_overlay_says<N: Num>(cfg: Config, snap: Snapshot<N>, th: Theme)
    ensures
        ({
            let l = server_text(cfg, snap, th);
            let m = snap.server;
            &&& lines_say(l, "url"@, "url"@, cfg.url@)
            &&& lines_say(l, "served model"@, "served model"@, known_if(m.loaded, m.served_model_name@))
            &&& lines_say(l, "model path"@, "model path"@, known_if(m.loaded, m.model_path@))
            &&& lines_say(l, "version"@, "version"@, known_if(m.loaded, m.version@))
            &&& lines_say(l, "tp / pp / dp"@, "tp / pp / dp"@, decimal_text(m.tp_size as nat) + " / "@ + decimal_text(m.pp_size as nat) + " / "@ + decimal_text(m.dp_size as nat))
            &&& lines_say(l, "dp attention"@, "dp attention"@, yes_no(m.enable_dp_attention))
            &&& lines_say(l, "all-sched metrics"@, "all-sched metrics"@, yes_no(m.enable_metrics_for_all_schedulers))
            &&& lines_say(l, "hierarchical cache"@, "hierarchical cache"@, yes_no(m.enable_hierarchical_cache))
            &&& lines_say(l, "max_total_tokens"@, "max_total_tokens"@, number_or_dash(m.max_total_num_tokens))
            &&& lines_say(l, "context_len"@, "context_len"@, number_or_dash(m.context_len))
        }),
{
    let l = server_text(cfg, snap, th);
    let m = snap.server;
    identity_stands_first(cfg, snap, th);
    field_says(l, 0, "url"@, 16, cfg.url@);
    field_says(l, 1, "served model"@, 16, known_if(m.loaded, m.served_model_name@));
    field_says(l, 2, "model path"@, 16, known_if(m.loaded, m.model_path@));
    field_says(l, 3, "version"@, 16, known_if(m.loaded, m.version@));
    field_says(l, 4, "tp / pp / dp"@, 16, decimal_text(m.tp_size as nat) + " / "@ + decimal_text(m.pp_size as nat) + " / "@ + decimal_text(m.dp_size as nat));
    field_says(l, 5, "dp attention"@, 16, yes_no(m.enable_dp_attention));
    field_says(l, 6, "all-sched metrics"@, 16, yes_no(m.enable_metrics_for_all_schedulers));
    field_says(l, 7, "hierarchical cache"@, 16, yes_no(m.enable_hierarchical_cache));
    field_says(l, 8, "max_total_tokens"@, 16, number_or_dash(m.max_total_num_tokens));
    field_says(l, 9, "context_len"@, 16, number_or_dash(m.context_len));
}

proof fn identity_stands_first<N: Num>(cfg: Config, snap: Snapshot<N>, th: Theme)
    ensures
        server_text(cfg, snap, th).len() >= 11,
        forall|i: int|
            0 <= i < 11 ==> #[trigger] server_text(cfg, snap, th)[i] == identity_text(
                cfg.url@,
                snap.server,
                th,
            )[i],
{
}

/// What the row of a latency family says in the server overlay: each percentile behind its
/// name.
pub proof fn percentiles_are_spelled_out<N: Num>(p: Option<Percentile<N>>)
    ensures
        p matches Some(x) ==> percentile_text(p) == "p50 "@ + duration_text(x.p50) + "  p90 "@
            + duration_text(x.p90) + "  p99 "@ + duration_text(x.p99) + "  avg "@ + match x.mean {
            Some(v) => duration_text(v),
            None => "—"@,
        },
        p is None ==> percentile_text(p) == "—"@,
{
}

/// What the row of a route says in the server overlay: its rate, its requests, its failures.
pub proof fn routes_are_spelled_out<N: Num>(e: HttpEndpoint<N>)
    ensures
        route_text(e) == (match e.rps {
            Some(v) => rate_frac_text(v) + "/s"@,
            None => "N/A"@,
        }) + "  total "@ + count_text(e.total) + "  err "@ + count_text(e.err),
{
}

/// What the options overlay says.
pub proof fn options_overlay_says(cfg: Config, paused: bool, interval_ms: u64, th: Theme)
    ensures
        ({
            let l = options_text(cfg, paused, interval_ms, th);
            &&& lines_say(
                l,
                "poll interval"@,
                "poll interval"@,
                decimal_text(interval_ms as nat) + " ms"@,
            )
            &&& lines_say(
                l,
                "scraping"@,
                "scraping"@,
                if paused {
                    "PAUSED"@
                } else {
                    "running"@
                },
            )
            &&& lines_say(l, "theme"@, "theme"@, cfg.theme@)
            &&& lines_say(l, "color mode"@, "color mode"@, cfg.color_mode@)
            &&& lines_say(
                l,
                "round corners"@,
                "round corners"@,
                if cfg.round_corners {
                    "ON"@
                } else {
                    "OFF"@
                },
            )
        }),
{
    let l = options_text(cfg, paused, interval_ms, th);
    field_says(l, 0, "poll interval"@, 16, decimal_text(interval_ms as nat) + " ms"@);
    field_says(
        l,
        2,
        "scraping"@,
        16,
        if paused {
            "PAUSED"@
        } else {
            "running"@
        },
    );
    field_says(l, 4, "theme"@, 16, cfg.theme@);
    field_says(l, 5, "color mode"@, 16, cfg.color_mode@);
    field_says(
        l,
        6,
        "round corners"@,
        16,
        if cfg.round_corners {
            "ON"@
        } else {
            "OFF"@
        },
    );
}

}
