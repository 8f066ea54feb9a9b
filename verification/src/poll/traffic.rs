//! What a scrape says of the traffic panel.
use crate::model::snapshot::{HttpEndpoint, LatencySet, TrafficPanel};
use crate::num::{or_zero, peak_from, unit, unit_spec, value_or_zero, Num};
use crate::poll::flow::{effective_tokens, http_failures, http_requests, read_effective,
    read_http_failures, read_http_requests, Flow, FlowView};
use crate::poll::panels::{add_timing, grown, largest_first, timings_view};
use crate::poll::prom::{named, refs_view, Metrics, Sample, SampleView};
use crate::poll::quantile::{known_in, latency_of, windowed_mean_of, EntryView, HistTracker,
    FAMILIES, MEAN_ONLY};
use crate::poll::rate::{known_sum, sum_all, sum_every, sum_known};
use crate::poll::read::{choose_samples, chosen, count_if_present, count_if_there, count_of,
    count_samples, counted, first_val, is_labelled, is_own_polling, is_present, labelled,
    length_mean, length_mean_of, own_polling, present, read_count, read_first, sum_of, sum_samples};
use crate::text::{ends_with, has_prefix, has_suffix, same, starts_with};
use vstd::prelude::*;
use vstd::string::*;

verus! {

// ---- grouping by a label ----

/// The distinct values of a label, in the order of their first sample.
pub open spec fn label_values<N>(s: Seq<SampleView<N>>, key: Seq<char>) -> Seq<Seq<char>>
    decreases s.len(),
{
    if s.len() == 0 {
        Seq::empty()
    } else {
        let head = label_values(s.drop_last(), key);
        match s.last().label(key) {
            Some(v) => if head.contains(v) {
                head
            } else {
                head.push(v)
            },
            None => head,
        }
    }
}

/// The texts of a list of strings.
pub open spec fn texts_view(v: Seq<String>) -> Seq<Seq<char>> {
    v.map_values(|s: String| s@)
}

/// Whether `t` is among `v`.
fn is_among(v: &Vec<String>, t: &str) -> (r: bool)
    ensures
        r == texts_view(v@).contains(t@),
{
    let n: usize = v.len();
    let mut i: usize = 0;
    while i < n
        invariant
            i <= n,
            n == v@.len(),
            forall|j: int| 0 <= j < i ==> (#[trigger] texts_view(v@)[j]) != t@,
        decreases n - i,
    {
        assert(texts_view(v@)[i as int] == v@[i as int]@);
        if same(v[i].as_str(), t) {
            return true;
        }
        i += 1;
    }
    false
}

/// The distinct values of a label, in the order of their first sample.
fn read_label_values<N: Num>(v: &Vec<&Sample<N>>, key: &str) -> (r: Vec<String>)
    ensures
        texts_view(r@) == label_values(refs_view(v@), key@),
{
    let ghost all = refs_view(v@);
    let mut out: Vec<String> = Vec::new();
    let n: usize = v.len();
    let mut i: usize = 0;
    assert(texts_view(out@) =~= label_values(all.take(0), key@));
    while i < n
        invariant
            i <= n,
            n == v@.len(),
            all == refs_view(v@),
            texts_view(out@) == label_values(all.take(i as int), key@),
        decreases n - i,
    {
        assert(all.take(i + 1).drop_last() =~= all.take(i as int));
        assert(all[i as int] == v@[i as int]@);
        let ghost before = out@;
        match v[i].label(key) {
            Some(t) => if !is_among(&out, t) {
                out.push(t.to_owned());
                assert(texts_view(out@) =~= texts_view(before).push(t@));
            },
            None => {},
        }
        i += 1;
    }
    assert(all.take(n as int) =~= all);
    out
}

/// The rates of the samples that satisfy `p`.
pub open spec fn rates_where<N>(
    s: Seq<SampleView<N>>,
    rates: Seq<Option<N>>,
    p: spec_fn(SampleView<N>) -> bool,
) -> Seq<Option<N>>
    decreases s.len(),
{
    if s.len() == 0 {
        Seq::empty()
    } else {
        let head = rates_where(s.drop_last(), rates, p);
        if p(s.last()) {
            head.push(rates[s.len() - 1])
        } else {
            head
        }
    }
}

/// The rates of the samples for which `keep` answers yes; `p` says for which it
/// does.
fn pick_rates<N: Num, F: Fn(&Sample<N>) -> bool>(
    v: &Vec<&Sample<N>>,
    rates: &Vec<Option<N>>,
    keep: F,
    Ghost(p): Ghost<spec_fn(SampleView<N>) -> bool>,
) -> (r: Vec<Option<N>>)
    requires
        v@.len() == rates@.len(),
        forall|x: &Sample<N>| call_requires(keep, (x,)),
        forall|x: &Sample<N>, b: bool| call_ensures(keep, (x,), b) ==> b == p(x@),
    ensures
        r@ == rates_where(refs_view(v@), rates@, p),
{
    let ghost all = refs_view(v@);
    let mut out: Vec<Option<N>> = Vec::new();
    let n: usize = v.len();
    let mut i: usize = 0;
    assert(all.take(0) =~= Seq::empty());
    while i < n
        invariant
            i <= n,
            n == v@.len(),
            n == rates@.len(),
            all == refs_view(v@),
            forall|x: &Sample<N>| call_requires(keep, (x,)),
            forall|x: &Sample<N>, b: bool| call_ensures(keep, (x,), b) ==> b == p(x@),
            out@ == rates_where(all.take(i as int), rates@, p),
        decreases n - i,
    {
        assert(all.take(i + 1).drop_last() =~= all.take(i as int));
        let x = v[i];
        assert(all[i as int] == x@);
        if keep(x) {
            out.push(rates[i]);
        }
        i += 1;
    }
    assert(all.take(n as int) =~= all);
    out
}

// ---- HTTP routes ----

/// One route: its rate, its requests, its error responses.
#[verifier::ext_equal]
pub struct RouteView<N> {
    pub path: Seq<char>,
    pub rps: Option<N>,
    pub total: u64,
    pub err: u64,
}

impl<N> View for HttpEndpoint<N> {
    type V = RouteView<N>;

    open spec fn view(&self) -> RouteView<N> {
        RouteView { path: self.path@, rps: self.rps, total: self.total, err: self.err }
    }
}

/// The views of a list of routes.
pub open spec fn routes_view<N>(v: Seq<HttpEndpoint<N>>) -> Seq<RouteView<N>> {
    v.map_values(|r: HttpEndpoint<N>| r@)
}

/// What the scrape says of one route; `rates` belong to the requests.
pub open spec fn route_of<N: Num>(
    m: Seq<SampleView<N>>,
    rates: Seq<Option<N>>,
    path: Seq<char>,
) -> RouteView<N> {
    let p = |x: SampleView<N>| labelled(x, "endpoint"@, path);
    RouteView {
        path,
        rps: sum_known(rates_where(http_requests(m), rates, p)),
        total: counted(http_requests(m).filter(p)),
        err: counted(http_failures(m).filter(p)),
    }
}

/// Whether `a` is busier than `b`: by rate, then by requests served.
pub open spec fn busier<N: Num>(a: RouteView<N>, b: RouteView<N>) -> bool {
    match (a.rps, b.rps) {
        (Some(x), Some(y)) => y.below_spec(x) || (x == y && a.total > b.total),
        (Some(x), None) => true,
        (None, Some(y)) => false,
        (None, None) => a.total > b.total,
    }
}

/// `s` with `r` behind every route that is at least as busy.
pub open spec fn with_route<N: Num>(s: Seq<RouteView<N>>, r: RouteView<N>) -> Seq<RouteView<N>>
    decreases s.len(),
{
    if s.len() > 0 && busier(r, s.last()) {
        with_route(s.drop_last(), r).push(s.last())
    } else {
        s.push(r)
    }
}

/// The routes of `paths`, busiest first.
pub open spec fn busiest_first<N: Num>(
    m: Seq<SampleView<N>>,
    rates: Seq<Option<N>>,
    paths: Seq<Seq<char>>,
) -> Seq<RouteView<N>>
    decreases paths.len(),
{
    if paths.len() == 0 {
        Seq::empty()
    } else {
        with_route(busiest_first(m, rates, paths.drop_last()), route_of(m, rates, paths.last()))
    }
}

fn is_busier<N: Num>(a: &HttpEndpoint<N>, b: &HttpEndpoint<N>) -> (r: bool)
    ensures
        r == busier(a@, b@),
{
    match (a.rps, b.rps) {
        (Some(x), Some(y)) => {
            proof {
                N::below_total(x, y);
                if x.below_spec(y) {
                    N::below_asymmetric(x, y);
                }
            }
            y.below(x) || (!x.below(y) && a.total > b.total)
        },
        (Some(x), None) => true,
        (None, Some(y)) => false,
        (None, None) => a.total > b.total,
    }
}

/// The samples of a list that carry the label `key` = `value`.
fn only_labelled<'a, N: Num>(v: &Vec<&'a Sample<N>>, key: &str, value: &str) -> (r: Vec<
    &'a Sample<N>,
>)
    ensures
        refs_view(r@) == refs_view(v@).filter(
            |x: SampleView<N>| labelled(x, key@, value@),
        ),
{
    let ghost p = |x: SampleView<N>| labelled(x, key@, value@);
    let ghost all = refs_view(v@);
    let mut out: Vec<&'a Sample<N>> = Vec::new();
    let n: usize = v.len();
    let mut i: usize = 0;
    assert(refs_view(out@) =~= all.take(0).filter(p)) by {
        reveal(Seq::filter);
    }
    while i < n
        invariant
            i <= n,
            n == v@.len(),
            all == refs_view(v@),
            p == |x: SampleView<N>| labelled(x, key@, value@),
            refs_view(out@) == all.take(i as int).filter(p),
        decreases n - i,
    {
        let x = v[i];
        let ghost xv = all[i as int];
        assert(xv == x@);
        assert(all.take(i + 1) =~= all.take(i as int).push(xv));
        proof {
            all.take(i as int).lemma_filter_push(xv, p);
        }
        let ghost before = out@;
        if is_labelled(x, key, value) {
            out.push(x);
            assert(refs_view(out@) =~= refs_view(before).push(xv));
        }
        i += 1;
    }
    assert(all.take(n as int) =~= all);
    out
}

/// What the scrape says of one route.
fn read_route<N: Num>(
    requests: &Vec<&Sample<N>>,
    failures: &Vec<&Sample<N>>,
    rates: &Vec<Option<N>>,
    path: &str,
    Ghost(m): Ghost<Seq<SampleView<N>>>,
) -> (r: HttpEndpoint<N>)
    requires
        requests@.len() == rates@.len(),
        refs_view(requests@) == http_requests(m),
        refs_view(failures@) == http_failures(m),
    ensures
        r@ == route_of(m, rates@, path@),
{
    let ghost p = |x: SampleView<N>| labelled(x, "endpoint"@, path@);
    let keep = |x: &Sample<N>| -> (b: bool)
        ensures
            b == p(x@),
    {
        is_labelled(x, "endpoint", path)
    };
    let own = pick_rates(requests, rates, keep, Ghost(p));
    HttpEndpoint {
        path: path.to_owned(),
        rps: known_sum(&own),
        total: count_samples(&only_labelled(requests, "endpoint", path)),
        err: count_samples(&only_labelled(failures, "endpoint", path)),
    }
}

/// Adds a route behind every one that is at least as busy.
fn add_route<N: Num>(v: &mut Vec<HttpEndpoint<N>>, r: HttpEndpoint<N>)
    ensures
        routes_view(final(v)@) == with_route(routes_view(old(v)@), r@),
{
    let ghost all = routes_view(v@);
    let ghost rv = r@;
    let mut at: usize = v.len();
    assert(all.take(at as int) =~= all);
    assert(with_route(all, rv) =~= with_route(all.take(at as int), rv) + all.skip(at as int));
    while at > 0 && is_busier(&r, &v[at - 1])
        invariant
            at <= v@.len(),
            all == routes_view(v@),
            rv == r@,
            with_route(all, rv) == with_route(all.take(at as int), rv) + all.skip(at as int),
        decreases at,
    {
        assert(all.take(at as int).drop_last() =~= all.take(at - 1));
        assert(with_route(all.take(at - 1), rv).push(all[at - 1]) + all.skip(at as int)
            =~= with_route(all.take(at - 1), rv) + all.skip(at - 1));
        at -= 1;
    }
    assert(with_route(all.take(at as int), rv) == all.take(at as int).push(rv));
    v.insert(at, r);
    assert(routes_view(v@) =~= all.take(at as int).push(rv) + all.skip(at as int));
}

/// The routes that were requested, busiest first.
pub open spec fn routes<N: Num>(
    m: Seq<SampleView<N>>,
    rates: Seq<Option<N>>,
) -> Seq<RouteView<N>> {
    busiest_first(m, rates, label_values(http_requests(m), "endpoint"@))
}

/// The routes that were requested, busiest first.
fn read_routes<N: Num>(m: &Metrics<N>, rates: &Vec<Option<N>>) -> (r: Vec<HttpEndpoint<N>>)
    requires
        rates@.len() == http_requests(m@).len(),
    ensures
        routes_view(r@) == routes(m@, rates@),
{
    let requests = read_http_requests(m);
    let failures = read_http_failures(m);
    assert(refs_view(requests@).len() == requests@.len());
    let paths = read_label_values(&requests, "endpoint");
    let ghost all = texts_view(paths@);
    let mut out: Vec<HttpEndpoint<N>> = Vec::new();
    let n: usize = paths.len();
    let mut i: usize = 0;
    assert(routes_view(out@) =~= busiest_first(m@, rates@, all.take(0)));
    while i < n
        invariant
            i <= n,
            n == paths@.len(),
            all == texts_view(paths@),
            requests@.len() == rates@.len(),
            refs_view(requests@) == http_requests(m@),
            refs_view(failures@) == http_failures(m@),
            routes_view(out@) == busiest_first(m@, rates@, all.take(i as int)),
        decreases n - i,
    {
        assert(all.take(i + 1).drop_last() =~= all.take(i as int));
        let r = read_route(&requests, &failures, rates, paths[i].as_str(), Ghost(m@));
        add_route(&mut out, r);
        i += 1;
    }
    assert(all.take(n as int) =~= all);
    out
}

/// Requests in flight, our own polling excluded, where the gauge is there.
pub open spec fn active_requests<N: Num>(m: Seq<SampleView<N>>) -> Option<u64> {
    let own = chosen(
        m,
        "sglang:http_requests_active"@,
        |x: SampleView<N>| !own_polling(x) && !x.value.is_nan_spec(),
    );
    if own.len() > 0 {
        Some(sum_of(own).to_count_spec())
    } else {
        None
    }
}

fn read_active<N: Num>(m: &Metrics<N>) -> (r: Option<u64>)
    ensures
        r == active_requests(m@),
{
    let ghost p = |x: SampleView<N>| !own_polling(x) && !x.value.is_nan_spec();
    let keep = |x: &Sample<N>| -> (b: bool)
        ensures
            b == p(x@),
    {
        !is_own_polling(x) && !x.value.is_nan()
    };
    let own = choose_samples(m, "sglang:http_requests_active", keep, Ghost(p));
    assert(refs_view(own@).len() == own@.len());
    if own.len() > 0 {
        Some(sum_samples(&own).to_count())
    } else {
        None
    }
}

// ---- the cache tiers ----

/// Lifetime tokens of the tiers whose source begins with `prefix`.
pub open spec fn tier_total<N: Num>(m: Seq<SampleView<N>>, prefix: Seq<char>) -> u64 {
    counted(
        chosen(
            m,
            "sglang:cached_tokens_total"@,
            |x: SampleView<N>|
                (x.label("cache_source"@) matches Some(s) && has_prefix(s, prefix))
                    && !x.value.is_nan_spec(),
        ),
    )
}

/// Lifetime tokens of the tiers whose source begins with `prefix`: the storage
/// backend is baked into the source, so it is matched by prefix.
fn read_tier<N: Num>(m: &Metrics<N>, prefix: &str) -> (r: u64)
    ensures
        r == tier_total(m@, prefix@),
{
    let ghost p = |x: SampleView<N>|
        (x.label("cache_source"@) matches Some(s) && has_prefix(s, prefix@))
            && !x.value.is_nan_spec();
    let keep = |x: &Sample<N>| -> (b: bool)
        ensures
            b == p(x@),
    {
        match x.label("cache_source") {
            Some(s) => starts_with(s, prefix) && !x.value.is_nan(),
            None => false,
        }
    };
    count_samples(&choose_samples(m, "sglang:cached_tokens_total", keep, Ghost(p)))
}

/// Whether the sample counts cache hits.
pub open spec fn is_hit<N>(x: SampleView<N>) -> bool {
    x.label("mode"@) matches Some(mode) && has_suffix(mode, "_hit"@)
}

/// The share of hits among all modes over the window. A ratio is poisoned by a
/// partial baseline, so every member must have one.
pub open spec fn window_share<N: Num>(
    s: Seq<SampleView<N>>,
    rates: Seq<Option<N>>,
) -> Option<N> {
    match (sum_all(rates_where(s, rates, |x: SampleView<N>| is_hit(x))), sum_all(rates)) {
        (Some(hit), Some(all)) => if N::zero_spec().less_spec(all) {
            Some(unit_spec(hit.over_spec(all)))
        } else {
            None
        },
        _ => None,
    }
}

fn read_window_share<N: Num>(v: &Vec<&Sample<N>>, rates: &Vec<Option<N>>) -> (r: Option<N>)
    requires
        v@.len() == rates@.len(),
    ensures
        r == window_share(refs_view(v@), rates@),
{
    let ghost p = |x: SampleView<N>| is_hit(x);
    let keep = |x: &Sample<N>| -> (b: bool)
        ensures
            b == p(x@),
    {
        match x.label("mode") {
            Some(mode) => ends_with(mode, "_hit"),
            None => false,
        }
    };
    let hits = pick_rates(v, rates, keep, Ghost(p));
    match (sum_every(&hits), sum_every(rates)) {
        (Some(hit), Some(all)) => if N::zero().less(all) {
            Some(unit(hit.over(all)))
        } else {
            None
        },
        _ => None,
    }
}

// ---- request stages ----

/// The mean time of one request stage.
pub open spec fn stage_mean<N: Num>(m: Seq<SampleView<N>>, stage: Seq<char>) -> Option<N> {
    let p = |x: SampleView<N>| labelled(x, "stage"@, stage);
    let c = sum_of(named(m, "sglang:per_stage_req_latency_seconds_count"@).filter(p));
    let s = sum_of(named(m, "sglang:per_stage_req_latency_seconds_sum"@).filter(p));
    if N::zero_spec().less_spec(c) && s.is_finite_spec() && c.is_finite_spec() {
        Some(s.over_spec(c))
    } else {
        None
    }
}

/// The stages that have a mean, in order.
pub open spec fn stage_timings<N: Num>(
    m: Seq<SampleView<N>>,
    stages: Seq<Seq<char>>,
) -> Seq<(Seq<char>, N)>
    decreases stages.len(),
{
    if stages.len() == 0 {
        Seq::empty()
    } else {
        let head = stage_timings(m, stages.drop_last());
        match stage_mean(m, stages.last()) {
            Some(t) => head.push((stages.last(), t)),
            None => head,
        }
    }
}

/// The request stages, slowest first.
pub open spec fn slowest_stages<N: Num>(m: Seq<SampleView<N>>) -> Seq<(Seq<char>, N)> {
    largest_first(
        stage_timings(
            m,
            label_values(named(m, "sglang:per_stage_req_latency_seconds_count"@), "stage"@),
        ),
    )
}

fn read_stages<N: Num>(m: &Metrics<N>) -> (r: Vec<(String, N)>)
    ensures
        timings_view(r@) == slowest_stages(m@),
{
    let counts = m.get("sglang:per_stage_req_latency_seconds_count");
    let sums = m.get("sglang:per_stage_req_latency_seconds_sum");
    let stages = read_label_values(&counts, "stage");
    let ghost all = texts_view(stages@);
    let mut out: Vec<(String, N)> = Vec::new();
    let n: usize = stages.len();
    let mut i: usize = 0;
    assert(timings_view(out@) =~= largest_first(stage_timings(m@, all.take(0))));
    while i < n
        invariant
            i <= n,
            n == stages@.len(),
            all == texts_view(stages@),
            refs_view(counts@) == named(m@, "sglang:per_stage_req_latency_seconds_count"@),
            refs_view(sums@) == named(m@, "sglang:per_stage_req_latency_seconds_sum"@),
            timings_view(out@) == largest_first(stage_timings(m@, all.take(i as int))),
        decreases n - i,
    {
        assert(all.take(i + 1).drop_last() =~= all.take(i as int));
        let stage = stages[i].as_str();
        let c = sum_samples(&only_labelled(&counts, "stage", stage));
        let s = sum_samples(&only_labelled(&sums, "stage", stage));
        if N::zero().less(c) && s.is_finite() && c.is_finite() {
            let t = s.over(c);
            assert(stage_mean(m@, stage@) == Some(t));
            proof {
                let head = stage_timings(m@, all.take(i as int));
                assert(head.push((stage@, t)).drop_last() =~= head);
            }
            add_timing(&mut out, (stage.to_owned(), t));
        } else {
            assert(stage_mean(m@, stage@) is None);
        }
        i += 1;
    }
    assert(all.take(n as int) =~= all);
    out
}

// ---- the panel ----

/// Retracted requests: the first of two names that is present.
pub open spec fn retracted_of<N: Num>(m: Seq<SampleView<N>>) -> u64 {
    if present(m, "sglang:num_retracted_requests_total"@) {
        count_of(m, "sglang:num_retracted_requests_total"@)
    } else if present(m, "sglang:num_retracted_reqs"@) {
        count_of(m, "sglang:num_retracted_reqs"@)
    } else {
        N::zero_spec().to_count_spec()
    }
}

/// The latency set read from the histogram windows.
pub open spec fn latency_built<N: Num>(
    l: LatencySet<N>,
    hist: Seq<EntryView<N>>,
    now: u64,
) -> bool {
    &&& l.known@ == Seq::new(4, |i: int| known_in(hist, FAMILIES@[i]@))
    &&& l.queue == latency_of(hist, FAMILIES@[0]@, now)
    &&& l.ttft == latency_of(hist, FAMILIES@[1]@, now)
    &&& l.itl == latency_of(hist, FAMILIES@[2]@, now)
    &&& l.e2e == latency_of(hist, FAMILIES@[3]@, now)
}

/// Whether the server runs a disaggregation role.
pub open spec fn runs_a_role(mode: Seq<char>) -> bool {
    mode == "prefill"@ || mode == "decode"@ || mode == "both"@
}

/// The disaggregation queues: read only where a role is on, else left alone.
pub open spec fn queues_built<N: Num>(
    t: TrafficPanel<N>,
    was: TrafficPanel<N>,
    m: Seq<SampleView<N>>,
    role: bool,
) -> bool {
    if role {
        &&& t.pd_prefill_bootstrap == count_if_there(
            m,
            "sglang:num_prefill_bootstrap_queue_reqs"@,
        )
        &&& t.pd_prefill_inflight == count_if_there(m, "sglang:num_prefill_inflight_queue_reqs"@)
        &&& t.pd_decode_prealloc == count_if_there(m, "sglang:num_decode_prealloc_queue_reqs"@)
        &&& t.pd_decode_transfer == count_if_there(m, "sglang:num_decode_transfer_queue_reqs"@)
    } else {
        &&& t.pd_prefill_bootstrap == was.pd_prefill_bootstrap
        &&& t.pd_prefill_inflight == was.pd_prefill_inflight
        &&& t.pd_decode_prealloc == was.pd_decode_prealloc
        &&& t.pd_decode_transfer == was.pd_decode_transfer
    }
}

/// The two token directions.
pub open spec fn directions_built<N: Num>(
    t: TrafficPanel<N>,
    was: TrafficPanel<N>,
    m: Seq<SampleView<N>>,
    f: FlowView<N>,
) -> bool {
    &&& t.gen_tps == or_zero(f.decode)
    &&& grown(t.gen_series, was.gen_series, t.gen_tps)
    &&& t.gen_peak_tps == peak_from(t.gen_series@, N::lowest_spec())
    &&& t.gen_total_tokens == count_of(m, "sglang:generation_tokens_total"@)
    &&& t.prompt_tps == or_zero(f.prefill)
    &&& grown(t.prompt_series, was.prompt_series, t.prompt_tps)
    &&& t.prompt_peak_tps == peak_from(t.prompt_series@, N::lowest_spec())
    &&& t.prompt_total_tokens == count_of(m, "sglang:prompt_tokens_total"@)
}

/// What the traffic panel reads off the counters and gauges of a scrape.
pub open spec fn counters_built<N: Num>(
    t: TrafficPanel<N>,
    m: Seq<SampleView<N>>,
    f: FlowView<N>,
) -> bool {
    &&& t.req_rate_in == or_zero(f.requests)
    &&& t.req_rate_out == or_zero(f.decode)
    &&& t.total_requests == count_of(m, "sglang:num_requests_total"@)
    &&& t.aborted == count_of(m, "sglang:num_aborted_requests_total"@)
    &&& t.retracted == retracted_of(m)
    &&& t.paused == or_zero(first_val(m, "sglang:num_paused_reqs"@)).to_count_spec()
    &&& t.grammar_queue == or_zero(
        first_val(m, "sglang:num_grammar_queue_reqs"@),
    ).to_count_spec()
    &&& t.http_rps == sum_known(f.http)
    &&& t.http_err_rate == f.http_errors
    &&& t.http_active == active_requests(m)
    &&& routes_view(t.http_endpoints@) == routes(m, f.http)
    &&& t.cached_device_tps == f.cached_device
    &&& t.cached_device_total == counted(
        chosen(
            m,
            "sglang:cached_tokens_total"@,
            |x: SampleView<N>| labelled(x, "cache_source"@, "device"@),
        ),
    )
    &&& t.cached_host_total == tier_total(m, "host"@)
    &&& t.cached_storage_total == tier_total(m, "storage"@)
    &&& t.cache_window_known == (effective_tokens(m).len() > 0)
    &&& t.cache_window_share == window_share(effective_tokens(m), f.effective)
    &&& t.avg_prompt_len == length_mean_of(
        m,
        "sglang:prompt_tokens_histogram_count"@,
        "sglang:prompt_tokens_histogram_sum"@,
    )
    &&& t.avg_gen_len == length_mean_of(
        m,
        "sglang:generation_tokens_histogram_count"@,
        "sglang:generation_tokens_histogram_sum"@,
    )
    &&& t.avg_uncached_len == length_mean_of(
        m,
        "sglang:uncached_prompt_tokens_histogram_count"@,
        "sglang:uncached_prompt_tokens_histogram_sum"@,
    )
    &&& timings_view(t.stage_means@) == slowest_stages(m)
}

/// The traffic panel after a scrape.
pub open spec fn traffic_built<N: Num>(
    t: TrafficPanel<N>,
    was: TrafficPanel<N>,
    m: Seq<SampleView<N>>,
    f: FlowView<N>,
    hist: Seq<EntryView<N>>,
    now: u64,
    role: bool,
) -> bool {
    &&& directions_built(t, was, m, f)
    &&& counters_built(t, m, f)
    &&& queues_built(t, was, m, role)
    &&& latency_built(t.latency, hist, now)
    &&& t.len_window@ == Seq::new(3, |i: int| windowed_mean_of(hist, MEAN_ONLY@[i]@, now))
}

fn read_retracted<N: Num>(m: &Metrics<N>) -> (r: u64)
    ensures
        r == retracted_of(m@),
{
    if is_present(m, "sglang:num_retracted_requests_total") {
        read_count(m, "sglang:num_retracted_requests_total")
    } else if is_present(m, "sglang:num_retracted_reqs") {
        read_count(m, "sglang:num_retracted_reqs")
    } else {
        N::zero().to_count()
    }
}

/// Folds a scrape into the traffic panel.
pub fn build_traffic<N: Num>(
    m: &Metrics<N>,
    f: &Flow<N>,
    hist: &HistTracker<N>,
    now: u64,
    role: bool,
    t: &mut TrafficPanel<N>,
)
    requires
        f.http@.len() == http_requests(m@).len(),
        f.effective@.len() == effective_tokens(m@).len(),
    ensures
        traffic_built(*final(t), *old(t), m@, f@, hist@, now, role),
{
    t.gen_tps = value_or_zero(f.decode);
    t.gen_series.push(t.gen_tps);
    t.gen_peak_tps = match t.gen_series.max() {
        Some(p) => p,
        None => t.gen_tps,
    };
    t.gen_total_tokens = read_count(m, "sglang:generation_tokens_total");
    t.prompt_tps = value_or_zero(f.prefill);
    t.prompt_series.push(t.prompt_tps);
    t.prompt_peak_tps = match t.prompt_series.max() {
        Some(p) => p,
        None => t.prompt_tps,
    };
    t.prompt_total_tokens = read_count(m, "sglang:prompt_tokens_total");

    t.req_rate_in = value_or_zero(f.requests);
    t.total_requests = read_count(m, "sglang:num_requests_total");
    // The "out" direction on the wire is generated tokens: mirror that rate.
    t.req_rate_out = value_or_zero(f.decode);
    t.aborted = read_count(m, "sglang:num_aborted_requests_total");
    t.retracted = read_retracted(m);
    t.paused = value_or_zero(read_first(m, "sglang:num_paused_reqs")).to_count();
    t.grammar_queue = value_or_zero(read_first(m, "sglang:num_grammar_queue_reqs")).to_count();
    // The gauges exist on every server (a unified one reports zeros), so read them
    // *only* when the server told us it runs a role.
    if role {
        t.pd_prefill_bootstrap = count_if_present(m, "sglang:num_prefill_bootstrap_queue_reqs");
        t.pd_prefill_inflight = count_if_present(m, "sglang:num_prefill_inflight_queue_reqs");
        t.pd_decode_prealloc = count_if_present(m, "sglang:num_decode_prealloc_queue_reqs");
        t.pd_decode_transfer = count_if_present(m, "sglang:num_decode_transfer_queue_reqs");
    }
    // Percentiles read the window that this very scrape just fed.
    hist.fill(&mut t.latency, now);
    t.len_window = [
        hist.windowed_mean(MEAN_ONLY[0], now),
        hist.windowed_mean(MEAN_ONLY[1], now),
        hist.windowed_mean(MEAN_ONLY[2], now),
    ];
    assert(t.len_window@ =~= Seq::new(
        3,
        |i: int| windowed_mean_of(hist@, MEAN_ONLY@[i]@, now),
    ));

    t.http_rps = known_sum(&f.http);
    t.http_err_rate = f.http_errors;
    t.http_active = read_active(m);
    t.http_endpoints = read_routes(m, &f.http);

    t.cached_device_tps = f.cached_device;
    let ghost p = |x: SampleView<N>| labelled(x, "cache_source"@, "device"@);
    let device = |x: &Sample<N>| -> (b: bool)
        ensures
            b == p(x@),
    {
        is_labelled(x, "cache_source", "device")
    };
    t.cached_device_total = count_samples(
        &choose_samples(m, "sglang:cached_tokens_total", device, Ghost(p)),
    );
    t.cached_host_total = read_tier(m, "host");
    t.cached_storage_total = read_tier(m, "storage");
    let effective = read_effective(m);
    assert(refs_view(effective@).len() == effective@.len());
    t.cache_window_known = effective.len() > 0;
    t.cache_window_share = read_window_share(&effective, &f.effective);

    // Cumulative means, exact from the two counters.
    t.avg_prompt_len = length_mean(
        m,
        "sglang:prompt_tokens_histogram_count",
        "sglang:prompt_tokens_histogram_sum",
    );
    t.avg_gen_len = length_mean(
        m,
        "sglang:generation_tokens_histogram_count",
        "sglang:generation_tokens_histogram_sum",
    );
    t.avg_uncached_len = length_mean(
        m,
        "sglang:uncached_prompt_tokens_histogram_count",
        "sglang:uncached_prompt_tokens_histogram_sum",
    );
    t.stage_means = read_stages(m);
}

}
