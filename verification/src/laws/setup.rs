//! What the surroundings, the settings and the scrapes decide.
use crate::config::{flag_or, held_interval, mode_of, number_or, DEFAULT_COLOR, DEFAULT_GRAPH,
    DEFAULT_INTERVAL_MS, DEFAULT_MAX_METRICS_BYTES, DEFAULT_THEME, DEFAULT_TIMEOUT_MS, DEFAULT_URL};
use crate::error::{PollError, SgtopError};
use crate::model::snapshot::{Connection, Snapshot};
use crate::num::Num;
use crate::poll::fetch::{is_missing, is_success};
use crate::poll::flow::FlowView;
use crate::poll::prom::{named, Metrics, SampleView};
use crate::poll::quantile::{EntryView, HIST_WINDOW};
use crate::poll::rate::{Series, RATE_WINDOW};
use crate::poll::read::{count_of, present, sum_of};
use crate::poll::traffic::{retracted_of, runs_a_role, stage_mean};
use crate::poll::{key_is_live, metrics_are_off, retained, snapshot_built, Poller, HELD_MS};
use crate::text::{decimal_text, has_infix, occurs_at, opt_view, upto};
use crate::ui::layout::{min_height_of, min_width_of, Boxes};
use crate::ui::theme::ColorMode;
use vstd::prelude::*;

verus! {

// ---- colours ----

/// A colour mode that is asked for by its name is taken whatever the terminal says of
/// itself.
pub proof fn wanted_colours_are_taken(colorterm: Seq<char>, term: Seq<char>)
    ensures
        mode_of("truecolor"@, colorterm, term) == ColorMode::TrueColor,
        mode_of("24bit"@, colorterm, term) == ColorMode::TrueColor,
        mode_of("256"@, colorterm, term) == ColorMode::Color256,
        mode_of("16"@, colorterm, term) == ColorMode::Color16,
{
    reveal_strlit("truecolor");
    reveal_strlit("24bit");
    reveal_strlit("256");
    reveal_strlit("16");
    assert("truecolor"@.len() == 9 && "24bit"@.len() == 5 && "256"@.len() == 3 && "16"@.len() == 2);
}

/// Any other wish leaves it to the terminal: all colours where it claims them, else the
/// table of 256 where its name holds that number, else sixteen.
pub proof fn terminals_tell_their_colours(
    wanted: Seq<char>,
    colorterm: Seq<char>,
    head: Seq<char>,
    tail: Seq<char>,
    term: Seq<char>,
)
    requires
        wanted != "truecolor"@ && wanted != "24bit"@ && wanted != "256"@ && wanted != "16"@,
    ensures
        mode_of(wanted, "truecolor"@, term) == ColorMode::TrueColor,
        mode_of(wanted, "24bit"@, term) == ColorMode::TrueColor,
        colorterm != "truecolor"@ && colorterm != "24bit"@ ==> mode_of(
            wanted,
            colorterm,
            head + "256"@ + tail,
        ) == ColorMode::Color256,
        colorterm != "truecolor"@ && colorterm != "24bit"@ && (forall|i: int|
            0 <= i <= term.len() - 3 ==> #[trigger] term.subrange(i, i + 3) != "256"@)
            ==> mode_of(wanted, colorterm, term) == ColorMode::Color16,
{
    reveal_strlit("256");
    let t = head + "256"@ + tail;
    let at = head.len() as int;
    assert(t.subrange(at, at + 3) =~= "256"@);
    assert(occurs_at(t, "256"@, at));
    if has_infix(term, "256"@) {
        let i = choose|i: int| occurs_at(term, "256"@, i);
        assert(term.subrange(i, i + 3) == "256"@);
    }
}

// ---- settings ----

/// A flag that was not given, and so has its default, leaves what the file says; any other
/// wins over it.
pub proof fn flags_have_their_defaults(flag: Seq<char>, file: Seq<char>, n: u64, m: u64)
    ensures
        flag_or(flag, DEFAULT_URL@, file) == if flag == "http://127.0.0.1:30000"@ {
            file
        } else {
            flag
        },
        flag_or(flag, DEFAULT_THEME@, file) == if flag == "default"@ {
            file
        } else {
            flag
        },
        flag_or(flag, DEFAULT_COLOR@, file) == if flag == "auto"@ {
            file
        } else {
            flag
        },
        flag_or(flag, DEFAULT_GRAPH@, file) == if flag == "btop"@ {
            file
        } else {
            flag
        },
        number_or(n, DEFAULT_INTERVAL_MS, m) == if n == 1000 {
            m
        } else {
            n
        },
        number_or(n, DEFAULT_TIMEOUT_MS, m) == if n == 2000 {
            m
        } else {
            n
        },
        number_or(n, DEFAULT_MAX_METRICS_BYTES, m) == if n == 8 * 1024 * 1024 {
            m
        } else {
            n
        },
{
}

/// The interval is held between a tenth of a second and ten seconds, and left alone there.
pub proof fn intervals_are_held(ms: u64)
    ensures
        100 <= held_interval(ms) <= 10_000,
        100 <= ms <= 10_000 ==> held_interval(ms) == ms,
        ms < 100 ==> held_interval(ms) == 100,
        ms > 10_000 ==> held_interval(ms) == 10_000,
{
}

// ---- room ----

/// A screen holds the engine box from 55 columns and 8 rows on, and each box below it in
/// its own size: the token pool over the traffic at the left, the rows of the ranks beside
/// them.
pub proof fn boxes_need_their_room(b: Boxes)
    ensures
        min_width_of(b) >= 2,
        min_height_of(b) >= 2,
        b.engine && !b.kv && !b.traffic && !b.ranks ==> min_width_of(b) == 55 && min_height_of(b)
            == 8,
        !b.engine && b.kv && !b.traffic && !b.ranks ==> min_width_of(b) == 24 && min_height_of(b)
            == 10,
        ({
            let no = Boxes { engine: false, kv: false, traffic: false, ranks: false };
            let (e, k, t, r) = (
                Boxes { engine: b.engine, ..no },
                Boxes { kv: b.kv, ..no },
                Boxes { traffic: b.traffic, ..no },
                Boxes { ranks: b.ranks, ..no },
            );
            b.engine && b.kv && b.traffic && b.ranks ==> {
                &&& min_width_of(b) >= min_width_of(k) + min_width_of(r)
                &&& min_width_of(b) >= min_width_of(e)
                &&& min_height_of(b) >= min_height_of(e) + min_height_of(k) + min_height_of(t)
                &&& min_height_of(b) >= min_height_of(e) + min_height_of(r)
            }
        }),
{
}

// ---- scrapes ----

/// Rates and histograms look back over half a minute, in nanoseconds.
pub proof fn windows_last_half_a_minute()
    ensures
        2 * RATE_WINDOW == 60 * 1_000_000_000,
        HIST_WINDOW == RATE_WINDOW,
{
}

/// A paused poller looks at its controls again within a sixth of a second.
pub proof fn pauses_end_soon()
    ensures
        0 < 6 * HELD_MS <= 900,
        HELD_MS == 150,
{
}

/// An error says what kind it is, and of an answer the status and the route; without metrics
/// it names the option that the server lacks.
pub proof fn errors_say_what_failed(e: PollError, said: String)
    ensures
        e matches PollError::Transport(t) ==> e.text() == "transport: "@ + t@,
        e matches PollError::Decode(t) ==> e.text() == "decode: "@ + t@,
        e matches PollError::Disabled(t) ==> e.text() == "disabled: "@ + t@,
        e matches PollError::Status { status, path } ==> e.text() == "http "@ + decimal_text(
            status as nat,
        ) + " on "@ + path@,
        SgtopError::Poll(e).text() == "poll failed: "@ + e.text(),
        SgtopError::Io(said).text() == "io: "@ + said@,
        SgtopError::Http(said).text() == "http: "@ + said@,
        SgtopError::Other(said).text() == said@,
        SgtopError::MetricsDisabled.text()
            == "server started without --enable-metrics (GET /metrics -> 404)"@,
{
}

/// A status is one of success from 200 on and below 300; a route that answers 404 is not
/// there, and the metrics are off where it is theirs.
pub proof fn statuses_are_told_apart(status: u16, head: Seq<char>, path: String)
    requires
        path@ == head + "/metrics"@,
    ensures
        is_success(status) <==> status / 100 == 2,
        is_missing(PollError::Status { status, path }) <==> status == 404,
        metrics_are_off(PollError::Status { status, path }) <==> status == 404,
{
    reveal_strlit("/metrics");
    assert(path@.skip(path@.len() - 8) =~= "/metrics"@);
}

/// The metadata is fetched until it is there, and again once another model is served.
pub proof fn metadata_is_of_the_served_model(p: Poller, served: Seq<char>)
    ensures
        p.needs_meta_spec(false, served),
        p.last_served_name is None ==> p.needs_meta_spec(true, served),
        p.last_served_name matches Some(name) ==> p.needs_meta_spec(true, served) == (name@
            != served),
{
    assert(p.last_served_name matches Some(name) ==> opt_view(p.last_served_name) == Some(name@));
}

/// A server with one of three roles runs disaggregated, and no other.
pub proof fn roles_are_named(mode: Seq<char>)
    ensures
        runs_a_role(mode) <==> mode == "prefill"@ || mode == "decode"@ || mode == "both"@,
{
}

/// Retracted requests are read under the newer of two names, else under the older, else
/// there are none.
pub proof fn retractions_have_two_names<N: Num>(m: Seq<SampleView<N>>)
    ensures
        present(m, "sglang:num_retracted_requests_total"@) ==> retracted_of(m) == count_of(
            m,
            "sglang:num_retracted_requests_total"@,
        ),
        !present(m, "sglang:num_retracted_requests_total"@) && present(
            m,
            "sglang:num_retracted_reqs"@,
        ) ==> retracted_of(m) == count_of(m, "sglang:num_retracted_reqs"@),
        !present(m, "sglang:num_retracted_requests_total"@) && !present(
            m,
            "sglang:num_retracted_reqs"@,
        ) ==> retracted_of(m) == N::zero_spec().to_count_spec(),
{
}

/// The samples of a scrape with that name and that stage.
pub open spec fn of_stage<N>(
    m: Seq<SampleView<N>>,
    name: Seq<char>,
    stage: Seq<char>,
) -> Seq<SampleView<N>>
    decreases m.len(),
{
    if m.len() == 0 {
        Seq::empty()
    } else {
        let before = of_stage(m.drop_last(), name, stage);
        if m.last().name == name && m.last().label("stage"@) == Some(stage) {
            before.push(m.last())
        } else {
            before
        }
    }
}

proof fn stages_are_chosen<N: Num>(m: Seq<SampleView<N>>, name: Seq<char>, stage: Seq<char>)
    ensures
        forall|q: spec_fn(SampleView<N>) -> bool|
            #![trigger named(m, name).filter(q)]
            (forall|x: SampleView<N>| q(x) == (x.label("stage"@) == Some(stage))) ==> named(
                m,
                name,
            ).filter(q) == of_stage(m, name, stage),
    decreases m.len(),
{
    reveal(Seq::filter);
    if m.len() > 0 {
        let d = m.drop_last();
        stages_are_chosen(d, name, stage);
        assert forall|q: spec_fn(SampleView<N>) -> bool|
            #![trigger named(m, name).filter(q)]
            (forall|x: SampleView<N>| q(x) == (x.label("stage"@) == Some(stage))) implies named(
            m,
            name,
        ).filter(q) == of_stage(m, name, stage) by {
            assert(named(d, name).filter(q) == of_stage(d, name, stage));
            if m.last().name == name {
                assert(named(m, name) =~= named(d, name).push(m.last()));
                assert(named(m, name).drop_last() =~= named(d, name));
            } else {
                assert(named(m, name) =~= named(d, name));
            }
        }
    }
}

/// The mean time of a stage is the seconds of its own samples over the number of them; a
/// stage that was never passed has none.
pub proof fn stage_means_are_of_their_stage<N: Num>(m: Seq<SampleView<N>>, stage: Seq<char>)
    ensures
        ({
            let count = sum_of(
                of_stage(m, "sglang:per_stage_req_latency_seconds_count"@, stage),
            );
            let secs = sum_of(of_stage(m, "sglang:per_stage_req_latency_seconds_sum"@, stage));
            &&& !N::zero_spec().less_spec(count) ==> stage_mean(m, stage) is None
            &&& N::zero_spec().less_spec(count) && secs.is_finite_spec() && count.is_finite_spec()
                ==> stage_mean(m, stage) == Some(secs.over_spec(count))
        }),
{
    stages_are_chosen(m, "sglang:per_stage_req_latency_seconds_count"@, stage);
    stages_are_chosen(m, "sglang:per_stage_req_latency_seconds_sum"@, stage);
}

/// After a scrape the connection is live with the time that the scrape took, the snapshot
/// is of its time, and it says whether the body was cut.
pub proof fn scrapes_mark_the_snapshot<N: Num>(
    s: Snapshot<N>,
    was: Snapshot<N>,
    m: Metrics<N>,
    f: FlowView<N>,
    hist: Seq<EntryView<N>>,
    now: u64,
    rtt: u64,
)
    requires
        snapshot_built(s, was, m, f, hist, now, rtt),
    ensures
        s.conn matches Connection::Live { rtt: took, metrics_ok } && took == rtt && metrics_ok,
        s.now == now,
        s.metrics_truncated == m.truncated,
        was.server.loaded && was.server.enable_dp_attention
            && !was.server.enable_metrics_for_all_schedulers ==> s.rank_granularity is Aggregated,
        !(was.server.loaded && was.server.enable_dp_attention
            && !was.server.enable_metrics_for_all_schedulers) ==> s.rank_granularity
            == was.rank_granularity,
{
}

proof fn names_end_at_the_bar(name: Seq<char>, tail: Seq<char>)
    requires
        forall|i: int| 0 <= i < name.len() ==> #[trigger] name[i] != '|',
    ensures
        upto(name + seq!['|'] + tail, '|') == name,
        upto(name, '|') == name,
    decreases name.len(),
{
    let t = name + seq!['|'] + tail;
    if name.len() > 0 {
        let rest = name.drop_first();
        assert forall|i: int| 0 <= i < rest.len() implies #[trigger] rest[i] != '|' by {
            assert(rest[i] == name[i + 1]);
        }
        names_end_at_the_bar(rest, tail);
        assert(t.drop_first() =~= rest + seq!['|'] + tail);
        assert(t[0] == name[0]);
        assert(seq![name[0]] + rest =~= name);
    }
}

/// The points of a counter outlast a scrape unchanged as long as the scrape has a sample of
/// its metric, and are forgotten once it has none.
pub proof fn vanished_counters_are_forgotten<N: Num>(
    s: Series<N>,
    m: Seq<SampleView<N>>,
    name: Seq<char>,
    labels: Seq<char>,
)
    requires
        forall|i: int| 0 <= i < name.len() ==> #[trigger] name[i] != '|',
        s.contains_key(name + seq!['|'] + labels),
    ensures
        ({
            let key = name + seq!['|'] + labels;
            let seen = exists|i: int| 0 <= i < m.len() && (#[trigger] m[i]).name == name;
            &&& retained(s, m).contains_key(key) == seen
            &&& seen ==> retained(s, m)[key] == s[key]
        }),
{
    let key = name + seq!['|'] + labels;
    names_end_at_the_bar(name, labels);
    assert(key_is_live(m, key) == exists|i: int| 0 <= i < m.len() && (#[trigger] m[i]).name == name);
}

} // verus!
