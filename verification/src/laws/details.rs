//! What the server overlay says below the identity of the server.
use crate::config::Config;
use crate::laws::boxes::{lines_say, plain_text, says};
use crate::laws::table::field_says;
use crate::model::snapshot::{LatencySet, Snapshot};
use crate::num::Num;
use crate::ui::cells::LineView;
use crate::ui::overlays::lines::{identity_text, latency_text, percentile_text, route_text,
    routes_text, server_text, stages_text, startup_text, unloaded_text, wide_line};
use crate::ui::panels::human::duration_text;
use crate::ui::theme::Theme;
use vstd::prelude::*;

verus! {

/// What some lines say is said wherever they stand among others.
proof fn said_among_others(
    before: Seq<LineView>,
    part: Seq<LineView>,
    after: Seq<LineView>,
    label: Seq<char>,
    value: Seq<char>,
)
    requires
        lines_say(part, label, label, value),
    ensures
        lines_say(before + part + after, label, label, value),
{
    reveal(lines_say);
    let k = choose|k: int|
        0 <= k < part.len() && label.is_prefix_of(#[trigger] plain_text(part[k]))
            && says(plain_text(part[k]), label, value);
    let all = before + part + after;
    let at = before.len() + k;
    assert(all[at] == part[k]);
    assert(label.is_prefix_of(plain_text(all[at])));
}

proof fn latency_rows_say<N: Num>(l: LatencySet<N>, th: Theme)
    ensures
        ({
            let t = latency_text(l, th);
            &&& l.known@[0] ==> lines_say(t, "queue"@, "queue"@, percentile_text(l.queue))
            &&& l.known@[1] ==> lines_say(t, "ttft"@, "ttft"@, percentile_text(l.ttft))
            &&& l.known@[2] ==> lines_say(t, "itl"@, "itl"@, percentile_text(l.itl))
            &&& l.known@[3] ==> lines_say(t, "e2e"@, "e2e"@, percentile_text(l.e2e))
        }),
{
    let t = latency_text(l, th);
    let one = |b: bool| -> int {
        if b {
            1int
        } else {
            0int
        }
    };
    let k1: int = 2 + one(l.known@[0]);
    let k2: int = k1 + one(l.known@[1]);
    let k3: int = k2 + one(l.known@[2]);
    if l.known@[0] {
        assert(t[2] == wide_line("queue"@, percentile_text(l.queue), th));
        field_says(t, 2, "queue"@, 20, percentile_text(l.queue));
    }
    if l.known@[1] {
        assert(t[k1] == wide_line("ttft"@, percentile_text(l.ttft), th));
        field_says(t, k1, "ttft"@, 20, percentile_text(l.ttft));
    }
    if l.known@[2] {
        assert(t[k2] == wide_line("itl"@, percentile_text(l.itl), th));
        field_says(t, k2, "itl"@, 20, percentile_text(l.itl));
    }
    if l.known@[3] {
        assert(t[k3] == wide_line("e2e"@, percentile_text(l.e2e), th));
        field_says(t, k3, "e2e"@, 20, percentile_text(l.e2e));
    }
}

/// The server overlay has a row for each latency family that is known, with the percentiles
/// of that family.
pub proof fn latency_families_have_their_rows<N: Num>(cfg: Config, snap: Snapshot<N>, th: Theme)
    ensures
        ({
            let t = server_text(cfg, snap, th);
            let l = snap.traffic.latency;
            &&& l.known@[0] ==> lines_say(t, "queue"@, "queue"@, percentile_text(l.queue))
            &&& l.known@[1] ==> lines_say(t, "ttft"@, "ttft"@, percentile_text(l.ttft))
            &&& l.known@[2] ==> lines_say(t, "itl"@, "itl"@, percentile_text(l.itl))
            &&& l.known@[3] ==> lines_say(t, "e2e"@, "e2e"@, percentile_text(l.e2e))
        }),
{
    let l = snap.traffic.latency;
    latency_rows_say(l, th);
    let before = identity_text(cfg.url@, snap.server, th) + startup_text(snap.server, th);
    let after = routes_text(snap.traffic.http_endpoints@, th) + stages_text(
        snap.traffic.stage_means@,
        th,
    ) + unloaded_text(snap.server.loaded, th);
    assert(server_text(cfg, snap, th) =~= before + latency_text(l, th) + after);
    if l.known@[0] {
        said_among_others(before, latency_text(l, th), after, "queue"@, percentile_text(l.queue));
    }
    if l.known@[1] {
        said_among_others(before, latency_text(l, th), after, "ttft"@, percentile_text(l.ttft));
    }
    if l.known@[2] {
        said_among_others(before, latency_text(l, th), after, "itl"@, percentile_text(l.itl));
    }
    if l.known@[3] {
        said_among_others(before, latency_text(l, th), after, "e2e"@, percentile_text(l.e2e));
    }
}

/// The server overlay has a row for each route and for each stage of a request: behind the
/// route what was asked of it, behind the stage its mean time.
pub proof fn routes_and_stages_have_their_rows<N: Num>(
    cfg: Config,
    snap: Snapshot<N>,
    th: Theme,
    i: int,
)
    ensures
        ({
            let t = server_text(cfg, snap, th);
            let (routes, stages) = (snap.traffic.http_endpoints@, snap.traffic.stage_means@);
            &&& 0 <= i < routes.len() ==> lines_say(
                t,
                routes[i].path@,
                routes[i].path@,
                route_text(routes[i]),
            )
            &&& 0 <= i < stages.len() ==> lines_say(
                t,
                stages[i].0@,
                stages[i].0@,
                duration_text(stages[i].1),
            )
        }),
{
    let (routes, stages) = (snap.traffic.http_endpoints@, snap.traffic.stage_means@);
    let top = identity_text(cfg.url@, snap.server, th) + startup_text(snap.server, th)
        + latency_text(snap.traffic.latency, th);
    let (rs, ss) = (routes_text(routes, th), stages_text(stages, th));
    let end = unloaded_text(snap.server.loaded, th);
    let t = server_text(cfg, snap, th);
    assert(t =~= top + rs + (ss + end));
    assert(t =~= (top + rs) + ss + end);
    if 0 <= i < routes.len() {
        assert(rs[i + 2] == wide_line(routes[i].path@, route_text(routes[i]), th));
        field_says(rs, i + 2, routes[i].path@, 20, route_text(routes[i]));
        said_among_others(top, rs, ss + end, routes[i].path@, route_text(routes[i]));
    }
    if 0 <= i < stages.len() {
        assert(ss[i + 2] == wide_line(stages[i].0@, duration_text(stages[i].1), th));
        field_says(ss, i + 2, stages[i].0@, 20, duration_text(stages[i].1));
        said_among_others(top + rs, ss, end, stages[i].0@, duration_text(stages[i].1));
    }
}

/// The server overlay has a row for each phase of the startup, in seconds, and where they are
/// known the time that graphs took and the memory that was free; and it names the role of the
/// server.
pub proof fn startup_has_its_rows<N: Num>(cfg: Config, snap: Snapshot<N>, th: Theme, i: int)
    ensures
        ({
            let t = server_text(cfg, snap, th);
            let m = snap.server;
            let phases = m.startup_phases@;
            let mode = m.disaggregation_mode@;
            &&& 0 <= i < phases.len() ==> lines_say(
                t,
                phases[i].0@,
                phases[i].0@,
                phases[i].1.fixed_spec(1) + "s"@,
            )
            &&& phases.len() > 0 && m.startup_graph_secs is Some ==> lines_say(
                t,
                "graph capture"@,
                "graph capture"@,
                m.startup_graph_secs->0.fixed_spec(1) + "s"@,
            )
            &&& phases.len() > 0 && m.startup_free_gpu_gb is Some ==> lines_say(
                t,
                "free gpu @boot"@,
                "free gpu @boot"@,
                m.startup_free_gpu_gb->0.fixed_spec(1) + " GB"@,
            )
            &&& lines_say(
                t,
                "disaggregation"@,
                "disaggregation"@,
                if mode.len() == 0 {
                    "—"@
                } else if mode == "null"@ {
                    "unified"@
                } else {
                    mode
                },
            )
        }),
{
    let m = snap.server;
    let phases = m.startup_phases@;
    let mode = m.disaggregation_mode@;
    let top = identity_text(cfg.url@, m, th);
    let ls = startup_text(m, th);
    let rest = latency_text(snap.traffic.latency, th) + routes_text(
        snap.traffic.http_endpoints@,
        th,
    ) + stages_text(snap.traffic.stage_means@, th) + unloaded_text(m.loaded, th);
    let t = server_text(cfg, snap, th);
    assert(t =~= top + ls + rest);
    assert(t[10] == top[10]);
    field_says(
        t,
        10,
        "disaggregation"@,
        16,
        if mode.len() == 0 {
            "—"@
        } else if mode == "null"@ {
            "unified"@
        } else {
            mode
        },
    );
    if 0 <= i < phases.len() {
        let value = phases[i].1.fixed_spec(1) + "s"@;
        assert(ls[i + 2] == wide_line(phases[i].0@, value, th));
        field_says(ls, i + 2, phases[i].0@, 20, value);
        said_among_others(top, ls, rest, phases[i].0@, value);
    }
    let n = phases.len() as int + 2;
    if phases.len() > 0 {
        if let Some(v) = m.startup_graph_secs {
            let value = v.fixed_spec(1) + "s"@;
            assert(ls[n] == wide_line("graph capture"@, value, th));
            field_says(ls, n, "graph capture"@, 20, value);
            said_among_others(top, ls, rest, "graph capture"@, value);
        }
        if let Some(v) = m.startup_free_gpu_gb {
            let value = v.fixed_spec(1) + " GB"@;
            let k = n + if m.startup_graph_secs is Some {
                1int
            } else {
                0int
            };
            assert(ls[k] == wide_line("free gpu @boot"@, value, th));
            field_says(ls, k, "free gpu @boot"@, 20, value);
            said_among_others(top, ls, rest, "free gpu @boot"@, value);
        }
    }
}

} // verus!
