//! Lists on the screen stand in their order and leave nothing out.
use crate::model::snapshot::{ServerMeta, TrafficPanel};
use crate::num::Num;
use crate::poll::flow::{http_requests, FlowView};
use crate::poll::panels::{largest_first, server_built, startup_phases, timings_view, with_timing};
use crate::poll::prom::SampleView;
use crate::poll::traffic::{busier, busiest_first, counters_built, label_values, route_of, routes,
    routes_view, stage_timings, with_route, RouteView};
use vstd::prelude::*;

verus! {

// ---- timings ----

/// Whether no timing is larger than one that stands before it.
pub open spec fn longest_first<N: Num>(s: Seq<(Seq<char>, N)>) -> bool {
    forall|i: int, j: int|
        0 <= i < j < s.len() ==> !(#[trigger] s[i]).1.below_spec((#[trigger] s[j]).1)
}

proof fn with_timing_stands<N: Num>(s: Seq<(Seq<char>, N)>, t: (Seq<char>, N))
    requires
        longest_first(s),
    ensures
        longest_first(with_timing(s, t)),
        with_timing(s, t).to_multiset() == s.push(t).to_multiset(),
        forall|x: N|
            !x.below_spec(t.1) && (forall|i: int|
                0 <= i < s.len() ==> !x.below_spec((#[trigger] s[i]).1)) ==> (forall|i: int|
                0 <= i < with_timing(s, t).len() ==> !x.below_spec(
                    (#[trigger] with_timing(s, t)[i]).1,
                )),
        forall|x: N|
            !t.1.below_spec(x) && (forall|i: int|
                0 <= i < s.len() ==> !(#[trigger] s[i]).1.below_spec(x)) ==> (forall|i: int|
                0 <= i < with_timing(s, t).len() ==> !(#[trigger] with_timing(s, t)[i]).1.below_spec(
                    x,
                )),
    decreases s.len(),
{
    broadcast use vstd::seq_lib::group_to_multiset_ensures;

    let r = with_timing(s, t);
    if s.len() > 0 && s.last().1.below_spec(t.1) {
        let d = s.drop_last();
        let last = s[s.len() - 1];
        assert forall|i: int, j: int| 0 <= i < j < d.len() implies !(
        #[trigger] d[i]).1.below_spec((#[trigger] d[j]).1) by {
            assert(d[i] == s[i] && d[j] == s[j]);
        }
        assert forall|i: int| 0 <= i < d.len() implies !(#[trigger] d[i]).1.below_spec(last.1) by {
            assert(d[i] == s[i]);
        }
        with_timing_stands(d, t);
        let v = with_timing(d, t);
        assert(r == v.push(last));
        N::below_asymmetric(last.1, t.1);
        assert forall|i: int| 0 <= i < v.len() implies !(#[trigger] v[i]).1.below_spec(last.1) by {}
        assert forall|i: int, j: int| 0 <= i < j < r.len() implies !(
        #[trigger] r[i]).1.below_spec((#[trigger] r[j]).1) by {
            assert(r[i] == v[i]);
            if j < v.len() {
                assert(r[j] == v[j]);
            }
        }
        assert(s =~= d.push(last));
        assert(r.to_multiset() =~= s.push(t).to_multiset());
        assert forall|x: N|
            !x.below_spec(t.1) && (forall|i: int|
                0 <= i < s.len() ==> !x.below_spec((#[trigger] s[i]).1)) implies (forall|i: int|
            0 <= i < r.len() ==> !x.below_spec((#[trigger] r[i]).1)) by {
            assert forall|i: int| 0 <= i < d.len() implies !x.below_spec((#[trigger] d[i]).1) by {
                assert(d[i] == s[i]);
            }
            assert forall|i: int| 0 <= i < r.len() implies !x.below_spec((#[trigger] r[i]).1) by {
                if i < v.len() {
                    assert(r[i] == v[i]);
                } else {
                    assert(r[i] == s[s.len() - 1]);
                }
            }
        }
        assert forall|x: N|
            !t.1.below_spec(x) && (forall|i: int|
                0 <= i < s.len() ==> !(#[trigger] s[i]).1.below_spec(x)) implies (forall|i: int|
            0 <= i < r.len() ==> !(#[trigger] r[i]).1.below_spec(x)) by {
            assert forall|i: int| 0 <= i < d.len() implies !(#[trigger] d[i]).1.below_spec(x) by {
                assert(d[i] == s[i]);
            }
            assert forall|i: int| 0 <= i < r.len() implies !(#[trigger] r[i]).1.below_spec(x) by {
                if i < v.len() {
                    assert(r[i] == v[i]);
                } else {
                    assert(r[i] == s[s.len() - 1]);
                }
            }
        }
    } else {
        assert(r == s.push(t));
        assert forall|i: int| 0 <= i < s.len() implies !(#[trigger] s[i]).1.below_spec(t.1) by {
            let last = s[s.len() - 1];
            if s[i].1.below_spec(t.1) {
                N::below_total(t.1, last.1);
                if i < s.len() - 1 {
                    assert(!s[i].1.below_spec(last.1));
                    if t.1.below_spec(last.1) {
                        N::below_transitive(s[i].1, t.1, last.1);
                    }
                }
            }
        }
        assert forall|i: int, j: int| 0 <= i < j < r.len() implies !(
        #[trigger] r[i]).1.below_spec((#[trigger] r[j]).1) by {
            assert(r[i] == s[i]);
            if j < s.len() {
                assert(r[j] == s[j]);
            }
        }
        assert forall|x: N|
            !x.below_spec(t.1) && (forall|i: int|
                0 <= i < s.len() ==> !x.below_spec((#[trigger] s[i]).1)) implies (forall|i: int|
            0 <= i < r.len() ==> !x.below_spec((#[trigger] r[i]).1)) by {
            assert forall|i: int| 0 <= i < r.len() implies !x.below_spec((#[trigger] r[i]).1) by {
                if i < s.len() {
                    assert(r[i] == s[i]);
                }
            }
        }
        assert forall|x: N|
            !t.1.below_spec(x) && (forall|i: int|
                0 <= i < s.len() ==> !(#[trigger] s[i]).1.below_spec(x)) implies (forall|i: int|
            0 <= i < r.len() ==> !(#[trigger] r[i]).1.below_spec(x)) by {
            assert forall|i: int| 0 <= i < r.len() implies !(#[trigger] r[i]).1.below_spec(x) by {
                if i < s.len() {
                    assert(r[i] == s[i]);
                }
            }
        }
    }
}

/// The timings stand from the longest to the shortest, and all of them stand there.
pub proof fn timings_stand_longest_first<N: Num>(s: Seq<(Seq<char>, N)>)
    ensures
        longest_first(largest_first(s)),
        largest_first(s).to_multiset() == s.to_multiset(),
    decreases s.len(),
{
    broadcast use vstd::seq_lib::group_to_multiset_ensures;

    if s.len() > 0 {
        let d = s.drop_last();
        timings_stand_longest_first(d);
        with_timing_stands(largest_first(d), s.last());
        assert(s =~= d.push(s.last()));
        assert(largest_first(s).to_multiset() =~= s.to_multiset());
    }
}

/// The phases of the start and the stages of a request stand from the longest to the
/// shortest, and none is left out.
pub proof fn phases_and_stages_stand_longest_first<N: Num>(
    t: TrafficPanel<N>,
    s: ServerMeta<N>,
    was: ServerMeta<N>,
    m: Seq<SampleView<N>>,
    f: FlowView<N>,
)
    requires
        counters_built(t, m, f),
        server_built(s, was, m),
    ensures
        longest_first(timings_view(t.stage_means@)),
        startup_phases(m).len() > 0 ==> longest_first(timings_view(s.startup_phases@))
            && timings_view(s.startup_phases@).to_multiset() == startup_phases(m).to_multiset(),
{
    timings_stand_longest_first(startup_phases(m));
    timings_stand_longest_first(
        stage_timings(
            m,
            label_values(
                crate::poll::prom::named(m, "sglang:per_stage_req_latency_seconds_count"@),
                "stage"@,
            ),
        ),
    );
}

// ---- routes ----

/// Whether of two routes the first may stand before the second: it has the higher rate, or
/// the same and at least as many requests; one without a rate stands behind one with a rate.
pub open spec fn may_stand_before<N: Num>(a: RouteView<N>, b: RouteView<N>) -> bool {
    match (a.rps, b.rps) {
        (Some(x), Some(y)) => y.below_spec(x) || (x == y && a.total >= b.total),
        (Some(_), None) => true,
        (None, Some(_)) => false,
        (None, None) => a.total >= b.total,
    }
}

proof fn not_busier<N: Num>(a: RouteView<N>, b: RouteView<N>)
    ensures
        !busier(b, a) <==> may_stand_before(a, b),
{
    if let (Some(x), Some(y)) = (a.rps, b.rps) {
        N::below_total(x, y);
        if x.below_spec(y) {
            N::below_asymmetric(x, y);
        }
        if y.below_spec(x) {
            N::below_asymmetric(y, x);
        }
    }
}

proof fn standing_chains<N: Num>(a: RouteView<N>, b: RouteView<N>, c: RouteView<N>)
    requires
        may_stand_before(a, b),
        may_stand_before(b, c),
    ensures
        may_stand_before(a, c),
{
    if let (Some(x), Some(y), Some(z)) = (a.rps, b.rps, c.rps) {
        if y.below_spec(x) && z.below_spec(y) {
            N::below_transitive(z, y, x);
        }
    }
}

/// Whether the routes stand from the busiest on.
pub open spec fn from_the_busiest<N: Num>(s: Seq<RouteView<N>>) -> bool {
    forall|i: int, j: int|
        0 <= i < j < s.len() ==> may_stand_before(#[trigger] s[i], #[trigger] s[j])
}

proof fn with_route_stands<N: Num>(s: Seq<RouteView<N>>, r: RouteView<N>)
    requires
        from_the_busiest(s),
    ensures
        from_the_busiest(with_route(s, r)),
        with_route(s, r).len() == s.len() + 1,
        with_route(s, r).contains(r),
        forall|i: int| 0 <= i < s.len() ==> with_route(s, r).contains(#[trigger] s[i]),
        forall|i: int|
            0 <= i < with_route(s, r).len() ==> #[trigger] with_route(s, r)[i] == r || s.contains(
                with_route(s, r)[i],
            ),
    decreases s.len(),
{
    let w = with_route(s, r);
    if s.len() > 0 && busier(r, s.last()) {
        let d = s.drop_last();
        let last = s[s.len() - 1];
        assert forall|i: int, j: int| 0 <= i < j < d.len() implies may_stand_before(
            #[trigger] d[i],
            #[trigger] d[j],
        ) by {
            assert(d[i] == s[i] && d[j] == s[j]);
        }
        with_route_stands(d, r);
        let v = with_route(d, r);
        assert(w == v.push(last));
        assert(may_stand_before(r, last)) by {
            not_busier(r, last);
            not_busier(last, r);
            if let (Some(x), Some(y)) = (r.rps, last.rps) {
                N::below_total(x, y);
            }
        }
        assert forall|i: int| 0 <= i < v.len() implies may_stand_before(#[trigger] v[i], last) by {
            if v[i] != r {
                assert(d.contains(v[i]));
                let k = choose|k: int| 0 <= k < d.len() && d[k] == v[i];
                assert(s[k] == v[i]);
            }
        }
        assert forall|i: int, j: int| 0 <= i < j < w.len() implies may_stand_before(
            #[trigger] w[i],
            #[trigger] w[j],
        ) by {
            assert(w[i] == v[i]);
            if j < v.len() {
                assert(w[j] == v[j]);
            }
        }
        let k = choose|k: int| 0 <= k < v.len() && v[k] == r;
        assert(w[k] == r);
        assert forall|i: int| 0 <= i < s.len() implies w.contains(#[trigger] s[i]) by {
            if i < d.len() {
                assert(d[i] == s[i]);
                let n = choose|n: int| 0 <= n < v.len() && v[n] == d[i];
                assert(w[n] == s[i]);
            } else {
                assert(w[v.len() as int] == s[i]);
            }
        }
        assert forall|i: int| 0 <= i < w.len() implies #[trigger] w[i] == r || s.contains(w[i]) by {
            if i < v.len() {
                assert(w[i] == v[i]);
                if v[i] != r {
                    let n = choose|n: int| 0 <= n < d.len() && d[n] == v[i];
                    assert(s[n] == w[i]);
                }
            } else {
                assert(s[s.len() - 1] == w[i]);
            }
        }
    } else {
        assert(w == s.push(r));
        assert(w[s.len() as int] == r);
        assert forall|i: int| 0 <= i < s.len() implies may_stand_before(#[trigger] s[i], r) by {
            let last = s[s.len() - 1];
            not_busier(last, r);
            if i < s.len() - 1 {
                standing_chains(s[i], last, r);
            }
        }
        assert forall|i: int, j: int| 0 <= i < j < w.len() implies may_stand_before(
            #[trigger] w[i],
            #[trigger] w[j],
        ) by {
            assert(w[i] == s[i]);
            if j < s.len() {
                assert(w[j] == s[j]);
            }
        }
        assert forall|i: int| 0 <= i < s.len() implies w.contains(#[trigger] s[i]) by {
            assert(w[i] == s[i]);
        }
        assert forall|i: int| 0 <= i < w.len() implies #[trigger] w[i] == r || s.contains(w[i]) by {
            if i < s.len() {
                assert(s[i] == w[i]);
            }
        }
    }
}

proof fn routes_stand<N: Num>(
    m: Seq<SampleView<N>>,
    rates: Seq<Option<N>>,
    paths: Seq<Seq<char>>,
)
    ensures
        from_the_busiest(busiest_first(m, rates, paths)),
        busiest_first(m, rates, paths).len() == paths.len(),
        forall|i: int|
            0 <= i < paths.len() ==> busiest_first(m, rates, paths).contains(
                route_of(m, rates, #[trigger] paths[i]),
            ),
    decreases paths.len(),
{
    if paths.len() > 0 {
        let d = paths.drop_last();
        routes_stand(m, rates, d);
        let v = busiest_first(m, rates, d);
        let r = route_of(m, rates, paths.last());
        with_route_stands(v, r);
        let w = busiest_first(m, rates, paths);
        assert forall|i: int| 0 <= i < paths.len() implies w.contains(
            route_of(m, rates, #[trigger] paths[i]),
        ) by {
            if i < d.len() {
                assert(d[i] == paths[i]);
                let x = route_of(m, rates, d[i]);
                assert(v.contains(x));
                let k = choose|k: int| 0 <= k < v.len() && v[k] == x;
                assert(w.contains(v[k]));
            }
        }
    }
}

/// The routes stand from the busiest on: by rate, then by requests served, those without a
/// rate last; and every route that was requested stands there.
pub proof fn routes_stand_from_the_busiest<N: Num>(
    t: TrafficPanel<N>,
    m: Seq<SampleView<N>>,
    f: FlowView<N>,
)
    requires
        counters_built(t, m, f),
    ensures
        from_the_busiest(routes_view(t.http_endpoints@)),
        forall|i: int|
            0 <= i < label_values(http_requests(m), "endpoint"@).len() ==> routes_view(
                t.http_endpoints@,
            ).contains(
                route_of(m, f.http, #[trigger] label_values(http_requests(m), "endpoint"@)[i]),
            ),
{
    routes_stand(m, f.http, label_values(http_requests(m), "endpoint"@));
}

}
