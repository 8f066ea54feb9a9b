//! What the overlays say.
use crate::config::Config;
use crate::model::snapshot::{HttpEndpoint, LatencySet, Percentile, ServerMeta, Snapshot};
use crate::num::Num;
use crate::text::{cat, cat3, cat4, decimal, decimal_text, pad_right, padded_right, same};
use crate::ui::cells::{add_span, bold, italic, lines_view, push_line, sp, spans_view, Color, Line,
    LineView, Span};
use crate::ui::panels::human::{count_text, duration_text, human_count, human_duration,
    human_rate_frac, rate_frac_text};
use crate::ui::panels::rows::{add_main, add_title, main_sp, title_sp};
use crate::ui::theme::Theme;
use vstd::prelude::*;
use vstd::string::*;

verus! {

// ---- rows ----

/// A row of help: a key and what it does.
pub open spec fn help_line(key: Seq<char>, desc: Seq<char>, th: Theme) -> LineView {
    seq![sp(padded_right(key, 6), bold(th.color("hi_fg"@))), main_sp(desc, th)]
}

/// The colour of a setting: a switch tells by it whether it is on.
pub open spec fn setting_color(on: Option<bool>, th: Theme) -> Color {
    match on {
        Some(true) => th.color("proc_misc"@),
        Some(false) => th.color("hi_fg"@),
        None => th.color("main_fg"@),
    }
}

/// A setting, which may be a switch.
pub open spec fn opt_line(label: Seq<char>, value: Seq<char>, on: Option<bool>, th: Theme) -> LineView {
    seq![title_sp(padded_right(label, 16), th), sp(value, bold(setting_color(on, th)))]
}

/// A label of `width` columns and its value.
pub open spec fn field_line(label: Seq<char>, width: nat, value: Seq<char>, th: Theme) -> LineView {
    seq![title_sp(padded_right(label, width), th), main_sp(value, th)]
}

/// A label and its value.
pub open spec fn meta_line(label: Seq<char>, value: Seq<char>, th: Theme) -> LineView {
    field_line(label, 16, value, th)
}

/// A label and its value, with room for long labels.
pub open spec fn wide_line(label: Seq<char>, value: Seq<char>, th: Theme) -> LineView {
    field_line(label, 20, value, th)
}

/// A heading.
pub open spec fn heading(text: Seq<char>, th: Theme) -> LineView {
    seq![title_sp(text, th)]
}

/// A remark.
pub open spec fn remark(text: Seq<char>, th: Theme) -> LineView {
    seq![sp(text, italic(th.color("graph_text"@)))]
}

fn add_help(lines: &mut Vec<Line>, key: &str, desc: &str, th: &Theme)
    ensures
        lines_view(final(lines)@) == lines_view(old(lines)@).push(help_line(key@, desc@, *th)),
{
    let mut l: Vec<Span> = Vec::new();
    add_span(&mut l, pad_right(key, 6).as_str(), bold(th.c("hi_fg")));
    add_main(&mut l, desc, th);
    assert(spans_view(l@) =~= help_line(key@, desc@, *th));
    push_line(lines, l);
}

fn add_opt(lines: &mut Vec<Line>, label: &str, value: &str, on: Option<bool>, th: &Theme)
    ensures
        lines_view(final(lines)@) == lines_view(old(lines)@).push(
            opt_line(label@, value@, on, *th),
        ),
{
    let color = match on {
        Some(true) => th.c("proc_misc"),
        Some(false) => th.c("hi_fg"),
        None => th.c("main_fg"),
    };
    let mut l: Vec<Span> = Vec::new();
    add_title(&mut l, pad_right(label, 16).as_str(), th);
    add_span(&mut l, value, bold(color));
    assert(spans_view(l@) =~= opt_line(label@, value@, on, *th));
    push_line(lines, l);
}

fn add_field(lines: &mut Vec<Line>, label: &str, width: usize, value: &str, th: &Theme)
    ensures
        lines_view(final(lines)@) == lines_view(old(lines)@).push(
            field_line(label@, width as nat, value@, *th),
        ),
{
    let mut l: Vec<Span> = Vec::new();
    add_title(&mut l, pad_right(label, width).as_str(), th);
    add_main(&mut l, value, th);
    assert(spans_view(l@) =~= field_line(label@, width as nat, value@, *th));
    push_line(lines, l);
}

fn add_meta(lines: &mut Vec<Line>, label: &str, value: &str, th: &Theme)
    ensures
        lines_view(final(lines)@) == lines_view(old(lines)@).push(meta_line(label@, value@, *th)),
{
    add_field(lines, label, 16, value, th);
}

fn add_wide(lines: &mut Vec<Line>, label: &str, value: &str, th: &Theme)
    ensures
        lines_view(final(lines)@) == lines_view(old(lines)@).push(wide_line(label@, value@, *th)),
{
    add_field(lines, label, 20, value, th);
}

fn add_heading(lines: &mut Vec<Line>, text: &str, th: &Theme)
    ensures
        lines_view(final(lines)@) == lines_view(old(lines)@).push(heading(text@, *th)),
{
    let mut l: Vec<Span> = Vec::new();
    add_title(&mut l, text, th);
    assert(spans_view(l@) =~= heading(text@, *th));
    push_line(lines, l);
}

fn add_remark(lines: &mut Vec<Line>, text: &str, th: &Theme)
    ensures
        lines_view(final(lines)@) == lines_view(old(lines)@).push(remark(text@, *th)),
{
    let mut l: Vec<Span> = Vec::new();
    add_span(&mut l, text, italic(th.c("graph_text")));
    assert(spans_view(l@) =~= remark(text@, *th));
    push_line(lines, l);
}

/// Adds an empty line.
pub fn add_blank(lines: &mut Vec<Line>)
    ensures
        lines_view(final(lines)@) == lines_view(old(lines)@).push(Seq::empty()),
{
    let l: Vec<Span> = Vec::new();
    assert(spans_view(l@) =~= Seq::empty());
    push_line(lines, l);
}

// ---- help ----

/// The keys and what they do.
pub const KEYS: [(&'static str, &'static str); 12] = [
    ("q / ^C", "quit"),
    ("? / F1", "this help"),
    ("o / F2", "options"),
    ("i / F9", "server info"),
    ("esc", "close an open overlay"),
    ("1 2 3 4", "toggle engine / pool / traffic / ranks"),
    ("↑↓ / j k", "select rank  (Home/End jump)"),
    ("← →", "change sort column"),
    ("r", "reverse sort order"),
    ("Enter", "rank detail  (esc back)"),
    ("u", "pause / resume scraping"),
    ("+ / -", "poll interval ±100ms (100ms–10s)"),
];

/// What the help says.
pub open spec fn help_text(th: Theme) -> Seq<LineView> {
    Seq::new(12, |i: int| help_line(KEYS@[i].0@, KEYS@[i].1@, th)) + seq![
        Seq::empty(),
        remark("Percentile rows appear only for latency families the server exposes."@, th),
    ]
}

pub fn help_lines(th: &Theme) -> (r: Vec<Line>)
    ensures
        lines_view(r@) == help_text(*th),
{
    let ghost all = help_text(*th);
    let mut lines: Vec<Line> = Vec::new();
    let mut i: usize = 0;
    assert(lines_view(lines@) =~= all.take(0));
    while i < 12
        invariant
            i <= 12,
            all == help_text(*th),
            lines_view(lines@) == all.take(i as int),
        decreases 12 - i,
    {
        let (key, desc) = KEYS[i];
        add_help(&mut lines, key, desc, th);
        i += 1;
        assert(lines_view(lines@) =~= all.take(i as int));
    }
    add_blank(&mut lines);
    add_remark(
        &mut lines,
        "Percentile rows appear only for latency families the server exposes.",
        th,
    );
    assert(lines_view(lines@) =~= all);
    lines
}

// ---- options ----

/// A switch.
pub open spec fn on_off(v: bool) -> Seq<char> {
    if v {
        "ON"@
    } else {
        "OFF"@
    }
}

/// What the options say; the interval and the pause are live.
pub open spec fn options_text(cfg: Config, paused: bool, interval_ms: u64, th: Theme) -> Seq<LineView> {
    seq![
        opt_line("poll interval"@, decimal_text(interval_ms as nat) + " ms"@, None, th),
        remark("  (live: + / -  ±100ms, u pauses)"@, th),
        opt_line(
            "scraping"@,
            if paused {
                "PAUSED"@
            } else {
                "running"@
            },
            Some(!paused),
            th,
        ),
        Seq::empty(),
        opt_line("theme"@, cfg.theme@, None, th),
        opt_line("color mode"@, cfg.color_mode@, None, th),
        opt_line("round corners"@, on_off(cfg.round_corners), Some(cfg.round_corners), th),
    ]
}

pub fn options_lines(cfg: &Config, paused: bool, interval_ms: u64, th: &Theme) -> (r: Vec<Line>)
    ensures
        lines_view(r@) == options_text(*cfg, paused, interval_ms, *th),
{
    let mut lines: Vec<Line> = Vec::new();
    add_opt(
        &mut lines,
        "poll interval",
        cat(decimal(interval_ms).as_str(), " ms").as_str(),
        None,
        th,
    );
    add_remark(&mut lines, "  (live: + / -  ±100ms, u pauses)", th);
    add_opt(
        &mut lines,
        "scraping",
        if paused {
            "PAUSED"
        } else {
            "running"
        },
        Some(!paused),
        th,
    );
    add_blank(&mut lines);
    add_opt(&mut lines, "theme", cfg.theme.as_str(), None, th);
    add_opt(&mut lines, "color mode", cfg.color_mode.as_str(), None, th);
    add_opt(
        &mut lines,
        "round corners",
        if cfg.round_corners {
            "ON"
        } else {
            "OFF"
        },
        Some(cfg.round_corners),
        th,
    );
    assert(lines_view(lines@) =~= options_text(*cfg, paused, interval_ms, *th));
    lines
}

// ---- the server ----

/// What is known of the server once it was asked.
pub open spec fn if_loaded(loaded: bool, v: Seq<char>) -> Seq<char> {
    if loaded {
        v
    } else {
        "—"@
    }
}

/// A number that may be unknown.
pub open spec fn number_text(v: Option<u64>) -> Seq<char> {
    match v {
        Some(n) => decimal_text(n as nat),
        None => "—"@,
    }
}

/// A number that may be unknown.
fn number_of(v: Option<u64>) -> (r: String)
    ensures
        r@ == number_text(v),
{
    match v {
        Some(n) => decimal(n),
        None => "—".to_owned(),
    }
}

/// A flag of the server.
pub open spec fn flag_line(label: Seq<char>, v: bool, th: Theme) -> LineView {
    opt_line(
        label,
        if v {
            "yes"@
        } else {
            "no"@
        },
        Some(v),
        th,
    )
}

fn add_flag(lines: &mut Vec<Line>, label: &str, v: bool, th: &Theme)
    ensures
        lines_view(final(lines)@) == lines_view(old(lines)@).push(flag_line(label@, v, *th)),
{
    add_opt(
        lines,
        label,
        if v {
            "yes"
        } else {
            "no"
        },
        Some(v),
        th,
    );
}

/// The topology: a unified server calls itself `null`.
pub open spec fn topology_text(mode: Seq<char>) -> Seq<char> {
    if mode.len() == 0 {
        "—"@
    } else if mode == "null"@ {
        "unified"@
    } else {
        mode
    }
}

/// The sizes of the three parallelisms.
pub open spec fn sizes_text<N>(m: ServerMeta<N>) -> Seq<char> {
    decimal_text(m.tp_size as nat) + " / "@ + decimal_text(m.pp_size as nat) + " / "@ + decimal_text(
        m.dp_size as nat,
    )
}

/// What the server is.
pub open spec fn identity_text<N>(url: Seq<char>, m: ServerMeta<N>, th: Theme) -> Seq<LineView> {
    seq![
        meta_line("url"@, url, th),
        meta_line("served model"@, if_loaded(m.loaded, m.served_model_name@), th),
        meta_line("model path"@, if_loaded(m.loaded, m.model_path@), th),
        meta_line("version"@, if_loaded(m.loaded, m.version@), th),
        meta_line("tp / pp / dp"@, sizes_text(m), th),
        flag_line("dp attention"@, m.enable_dp_attention, th),
        flag_line("all-sched metrics"@, m.enable_metrics_for_all_schedulers, th),
        flag_line("hierarchical cache"@, m.enable_hierarchical_cache, th),
        meta_line("max_total_tokens"@, number_text(m.max_total_num_tokens), th),
        meta_line("context_len"@, number_text(m.context_len), th),
        meta_line("disaggregation"@, topology_text(m.disaggregation_mode@), th),
    ]
}

/// The first five lines on the server.
fn name_lines<N: Num>(url: &str, m: &ServerMeta<N>, th: &Theme) -> (r: Vec<Line>)
    ensures
        lines_view(r@) == identity_text(url@, *m, *th).take(5),
{
    let ghost all = identity_text(url@, *m, *th);
    let dash = "—";
    let mut lines: Vec<Line> = Vec::new();
    add_meta(&mut lines, "url", url, th);
    add_meta(
        &mut lines,
        "served model",
        if m.loaded {
            m.served_model_name.as_str()
        } else {
            dash
        },
        th,
    );
    add_meta(
        &mut lines,
        "model path",
        if m.loaded {
            m.model_path.as_str()
        } else {
            dash
        },
        th,
    );
    add_meta(
        &mut lines,
        "version",
        if m.loaded {
            m.version.as_str()
        } else {
            dash
        },
        th,
    );
    let sizes = cat(
        cat4(
            decimal(m.tp_size as u64).as_str(),
            " / ",
            decimal(m.pp_size as u64).as_str(),
            " / ",
        ).as_str(),
        decimal(m.dp_size as u64).as_str(),
    );
    add_meta(&mut lines, "tp / pp / dp", sizes.as_str(), th);
    assert(lines_view(lines@) =~= all.take(5));
    lines
}

fn identity_lines<N: Num>(url: &str, m: &ServerMeta<N>, th: &Theme) -> (r: Vec<Line>)
    ensures
        lines_view(r@) == identity_text(url@, *m, *th),
{
    let ghost all = identity_text(url@, *m, *th);
    let mut lines = name_lines(url, m, th);
    add_flag(&mut lines, "dp attention", m.enable_dp_attention, th);
    add_flag(&mut lines, "all-sched metrics", m.enable_metrics_for_all_schedulers, th);
    add_flag(&mut lines, "hierarchical cache", m.enable_hierarchical_cache, th);
    add_meta(&mut lines, "max_total_tokens", number_of(m.max_total_num_tokens).as_str(), th);
    add_meta(&mut lines, "context_len", number_of(m.context_len).as_str(), th);
    let mode = m.disaggregation_mode.as_str();
    let topology = if mode.is_empty() {
        "—"
    } else if same(mode, "null") {
        "unified"
    } else {
        mode
    };
    proof {
        no_bytes_no_text(mode);
    }
    add_meta(&mut lines, "disaggregation", topology, th);
    assert(lines_view(lines@) =~= all);
    lines
}

/// A text without a byte has no character.
proof fn no_bytes_no_text(s: &str)
    ensures
        s.spec_bytes().len() == 0 <==> s@.len() == 0,
{
    if s@.len() > 0 {
        vstd::utf8::encode_utf8_first_scalar(s@);
    }
}

/// How long the phases of the start took.
pub open spec fn startup_text<N: Num>(m: ServerMeta<N>, th: Theme) -> Seq<LineView> {
    if m.startup_phases@.len() == 0 {
        Seq::empty()
    } else {
        let graph = match m.startup_graph_secs {
            Some(v) => seq![wide_line("graph capture"@, v.fixed_spec(1) + "s"@, th)],
            None => Seq::empty(),
        };
        let free = match m.startup_free_gpu_gb {
            Some(v) => seq![wide_line("free gpu @boot"@, v.fixed_spec(1) + " GB"@, th)],
            None => Seq::empty(),
        };
        seq![Seq::empty(), heading("startup"@, th)] + Seq::new(
            m.startup_phases@.len(),
            |i: int|
                wide_line(
                    m.startup_phases@[i].0@,
                    m.startup_phases@[i].1.fixed_spec(1) + "s"@,
                    th,
                ),
        ) + graph + free
    }
}

fn add_startup<N: Num>(lines: &mut Vec<Line>, m: &ServerMeta<N>, th: &Theme)
    ensures
        lines_view(final(lines)@) == lines_view(old(lines)@) + startup_text(*m, *th),
{
    let ghost before = lines_view(lines@);
    let n: usize = m.startup_phases.len();
    if n == 0 {
        assert(before + Seq::<LineView>::empty() =~= before);
        return;
    }
    add_blank(lines);
    add_heading(lines, "startup", th);
    let ghost rows = Seq::new(
        m.startup_phases@.len(),
        |i: int|
            wide_line(
                m.startup_phases@[i].0@,
                m.startup_phases@[i].1.fixed_spec(1) + "s"@,
                *th,
            ),
    );
    let ghost head = before + seq![Seq::empty(), heading("startup"@, *th)];
    assert(lines_view(lines@) =~= head + rows.take(0));
    let mut i: usize = 0;
    while i < n
        invariant
            i <= n,
            n == m.startup_phases@.len(),
            rows == Seq::new(
                m.startup_phases@.len(),
                |k: int|
                    wide_line(
                        m.startup_phases@[k].0@,
                        m.startup_phases@[k].1.fixed_spec(1) + "s"@,
                        *th,
                    ),
            ),
            lines_view(lines@) == head + rows.take(i as int),
        decreases n - i,
    {
        let p = &m.startup_phases[i];
        add_wide(lines, p.0.as_str(), cat(p.1.fixed(1).as_str(), "s").as_str(), th);
        i += 1;
        assert(lines_view(lines@) =~= head + rows.take(i as int));
    }
    assert(rows.take(n as int) =~= rows);
    if let Some(v) = m.startup_graph_secs {
        add_wide(lines, "graph capture", cat(v.fixed(1).as_str(), "s").as_str(), th);
    }
    if let Some(v) = m.startup_free_gpu_gb {
        add_wide(lines, "free gpu @boot", cat(v.fixed(1).as_str(), " GB").as_str(), th);
    }
    assert(lines_view(lines@) =~= before + startup_text(*m, *th));
}

/// The percentiles of a family, in words.
pub open spec fn percentile_text<N: Num>(p: Option<Percentile<N>>) -> Seq<char> {
    match p {
        Some(x) => "p50 "@ + duration_text(x.p50) + "  p90 "@ + duration_text(x.p90) + "  p99 "@
            + duration_text(x.p99) + "  avg "@ + match x.mean {
            Some(v) => duration_text(v),
            None => "—"@,
        },
        None => "—"@,
    }
}

/// The percentiles of a family, in words.
fn percentile_of<N: Num>(p: Option<Percentile<N>>) -> (r: String)
    ensures
        r@ == percentile_text(p),
{
    match p {
        Some(x) => {
            let mean = match x.mean {
                Some(v) => human_duration(v),
                None => "—".to_owned(),
            };
            let a = cat4(
                "p50 ",
                human_duration(x.p50).as_str(),
                "  p90 ",
                human_duration(x.p90).as_str(),
            );
            let b = cat3(a.as_str(), "  p99 ", human_duration(x.p99).as_str());
            cat3(b.as_str(), "  avg ", mean.as_str())
        },
        None => "—".to_owned(),
    }
}

/// The row of a family that the server exposes.
pub open spec fn family_text<N: Num>(
    label: Seq<char>,
    known: bool,
    p: Option<Percentile<N>>,
    th: Theme,
) -> Seq<LineView> {
    if known {
        seq![wide_line(label, percentile_text(p), th)]
    } else {
        Seq::empty()
    }
}

fn add_family<N: Num>(
    lines: &mut Vec<Line>,
    label: &str,
    known: bool,
    p: Option<Percentile<N>>,
    th: &Theme,
)
    ensures
        lines_view(final(lines)@) == lines_view(old(lines)@) + family_text(label@, known, p, *th),
{
    if known {
        add_wide(lines, label, percentile_of(p).as_str(), th);
    }
    assert(lines_view(lines@) =~= lines_view(old(lines)@) + family_text(label@, known, p, *th));
}

/// The percentiles of every family that the server exposes.
pub open spec fn latency_text<N: Num>(l: LatencySet<N>, th: Theme) -> Seq<LineView> {
    if l.known@[0] || l.known@[1] || l.known@[2] || l.known@[3] {
        seq![Seq::empty(), heading("latency percentiles"@, th)] + family_text(
            "queue"@,
            l.known@[0],
            l.queue,
            th,
        ) + family_text("ttft"@, l.known@[1], l.ttft, th) + family_text(
            "itl"@,
            l.known@[2],
            l.itl,
            th,
        ) + family_text("e2e"@, l.known@[3], l.e2e, th)
    } else {
        Seq::empty()
    }
}

fn add_latencies<N: Num>(lines: &mut Vec<Line>, l: &LatencySet<N>, th: &Theme)
    ensures
        lines_view(final(lines)@) == lines_view(old(lines)@) + latency_text(*l, *th),
{
    let ghost before = lines_view(lines@);
    if l.known[0] || l.known[1] || l.known[2] || l.known[3] {
        add_blank(lines);
        add_heading(lines, "latency percentiles", th);
        let ghost head = seq![Seq::empty(), heading("latency percentiles"@, *th)];
        let ghost a = family_text("queue"@, l.known@[0], l.queue, *th);
        let ghost b = family_text("ttft"@, l.known@[1], l.ttft, *th);
        let ghost c = family_text("itl"@, l.known@[2], l.itl, *th);
        let ghost d = family_text("e2e"@, l.known@[3], l.e2e, *th);
        assert(lines_view(lines@) =~= before + head);
        add_family(lines, "queue", l.known[0], l.queue, th);
        add_family(lines, "ttft", l.known[1], l.ttft, th);
        add_family(lines, "itl", l.known[2], l.itl, th);
        add_family(lines, "e2e", l.known[3], l.e2e, th);
        assert(before + head + a + b + c + d =~= before + (head + a + b + c + d));
    } else {
        assert(before + Seq::<LineView>::empty() =~= before);
    }
}

/// The traffic of a route: its rate, its requests and its failures so far.
pub open spec fn route_text<N: Num>(e: HttpEndpoint<N>) -> Seq<char> {
    let rate = match e.rps {
        Some(v) => rate_frac_text(v) + "/s"@,
        None => "N/A"@,
    };
    rate + "  total "@ + count_text(e.total) + "  err "@ + count_text(e.err)
}

/// The traffic of a route.
fn route_of<N: Num>(e: &HttpEndpoint<N>) -> (r: String)
    ensures
        r@ == route_text(*e),
{
    let rate = match e.rps {
        Some(v) => cat(human_rate_frac(v).as_str(), "/s"),
        None => "N/A".to_owned(),
    };
    let a = cat3(rate.as_str(), "  total ", human_count(e.total).as_str());
    cat3(a.as_str(), "  err ", human_count(e.err).as_str())
}

/// The routes that the server serves, in the order of the snapshot.
pub open spec fn routes_text<N: Num>(v: Seq<HttpEndpoint<N>>, th: Theme) -> Seq<LineView> {
    if v.len() == 0 {
        Seq::empty()
    } else {
        seq![Seq::empty(), heading("http routes"@, th)] + Seq::new(
            v.len(),
            |i: int| wide_line(v[i].path@, route_text(v[i]), th),
        )
    }
}

fn add_routes<N: Num>(lines: &mut Vec<Line>, v: &Vec<HttpEndpoint<N>>, th: &Theme)
    ensures
        lines_view(final(lines)@) == lines_view(old(lines)@) + routes_text(v@, *th),
{
    let ghost before = lines_view(lines@);
    let n: usize = v.len();
    if n == 0 {
        assert(before + Seq::<LineView>::empty() =~= before);
        return;
    }
    add_blank(lines);
    add_heading(lines, "http routes", th);
    let ghost rows = Seq::new(
        v@.len(),
        |i: int| wide_line(v@[i].path@, route_text(v@[i]), *th),
    );
    let ghost head = before + seq![Seq::empty(), heading("http routes"@, *th)];
    assert(lines_view(lines@) =~= head + rows.take(0));
    let mut i: usize = 0;
    while i < n
        invariant
            i <= n,
            n == v@.len(),
            rows == Seq::new(
                v@.len(),
                |k: int| wide_line(v@[k].path@, route_text(v@[k]), *th),
            ),
            lines_view(lines@) == head + rows.take(i as int),
        decreases n - i,
    {
        add_wide(lines, v[i].path.as_str(), route_of(&v[i]).as_str(), th);
        i += 1;
        assert(lines_view(lines@) =~= head + rows.take(i as int));
    }
    assert(rows.take(n as int) =~= rows);
    assert(lines_view(lines@) =~= before + routes_text(v@, *th));
}

/// Where a request spends its time.
pub open spec fn stages_text<N: Num>(v: Seq<(String, N)>, th: Theme) -> Seq<LineView> {
    if v.len() == 0 {
        Seq::empty()
    } else {
        seq![Seq::empty(), heading("request stages"@, th)] + Seq::new(
            v.len(),
            |i: int| wide_line(v[i].0@, duration_text(v[i].1), th),
        )
    }
}

fn add_stages<N: Num>(lines: &mut Vec<Line>, v: &Vec<(String, N)>, th: &Theme)
    ensures
        lines_view(final(lines)@) == lines_view(old(lines)@) + stages_text(v@, *th),
{
    let ghost before = lines_view(lines@);
    let n: usize = v.len();
    if n == 0 {
        assert(before + Seq::<LineView>::empty() =~= before);
        return;
    }
    add_blank(lines);
    add_heading(lines, "request stages", th);
    let ghost rows = Seq::new(
        v@.len(),
        |i: int| wide_line(v@[i].0@, duration_text(v@[i].1), *th),
    );
    let ghost head = before + seq![Seq::empty(), heading("request stages"@, *th)];
    assert(lines_view(lines@) =~= head + rows.take(0));
    let mut i: usize = 0;
    while i < n
        invariant
            i <= n,
            n == v@.len(),
            rows == Seq::new(
                v@.len(),
                |k: int| wide_line(v@[k].0@, duration_text(v@[k].1), *th),
            ),
            lines_view(lines@) == head + rows.take(i as int),
        decreases n - i,
    {
        add_wide(lines, v[i].0.as_str(), human_duration(v[i].1).as_str(), th);
        i += 1;
        assert(lines_view(lines@) =~= head + rows.take(i as int));
    }
    assert(rows.take(n as int) =~= rows);
    assert(lines_view(lines@) =~= before + stages_text(v@, *th));
}

/// A remark while the server has not told what it is.
pub open spec fn unloaded_text(loaded: bool, th: Theme) -> Seq<LineView> {
    if loaded {
        Seq::empty()
    } else {
        seq![remark("metadata not yet fetched (auth-gated /server_info)"@, th)]
    }
}

/// What is known of the server.
pub open spec fn server_text<N: Num>(cfg: Config, snap: Snapshot<N>, th: Theme) -> Seq<LineView> {
    identity_text(cfg.url@, snap.server, th) + startup_text(snap.server, th) + latency_text(
        snap.traffic.latency,
        th,
    ) + routes_text(snap.traffic.http_endpoints@, th) + stages_text(snap.traffic.stage_means@, th)
        + unloaded_text(snap.server.loaded, th)
}

pub fn server_lines<N: Num>(cfg: &Config, snap: &Snapshot<N>, th: &Theme) -> (r: Vec<Line>)
    ensures
        lines_view(r@) == server_text(*cfg, *snap, *th),
{
    let mut lines = identity_lines(cfg.url.as_str(), &snap.server, th);
    add_startup(&mut lines, &snap.server, th);
    add_latencies(&mut lines, &snap.traffic.latency, th);
    add_routes(&mut lines, &snap.traffic.http_endpoints, th);
    add_stages(&mut lines, &snap.traffic.stage_means, th);
    let ghost before = lines_view(lines@);
    if !snap.server.loaded {
        add_remark(&mut lines, "metadata not yet fetched (auth-gated /server_info)", th);
    }
    assert(lines_view(lines@) =~= before + unloaded_text(snap.server.loaded, *th));
    lines
}

}
