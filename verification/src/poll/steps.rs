//! The percentiles of a family whose scrapes all have the same bucket edges.
use crate::num::{at_most, Num, Ordered, MOST_WHOLE};
use crate::poll::history::{fed, fed_is_sound, feeds_one_ladder, grew_lately, window_follows_growth,
    Scrape};
use crate::poll::ladder::{are_cells, are_edges, cells_of_the_window, edge_below, is_cell,
    one_ladder};
use crate::poll::percentiles::{are_real, at_most_chains, at_most_itself, holder, is_ladder,
    ladder_goes_on, less_is_at_most, observations_have_percentiles, real_intervals, value_at,
    values_ascend, way_of};
use crate::poll::quantile::{all_intervals, by_upper, family_of, fraction, latency_of, mass, merged,
    quantile, reached, Interval};
use crate::poll::wholes::{are_whole, by_upper_is_whole, is_whole, merging_keeps_observations,
    share_is_reached, tally, tally_from_the_front, whole_intervals};
use vstd::prelude::*;

verus! {

// ---- up to rounding ----

/// The upper edge of an interval as the arithmetic gives it, from the lower edge and the
/// distance between the two; without rounding it is the upper edge.
pub open spec fn top_of<N: Num>(iv: Interval<N>) -> N {
    iv.lower.plus_spec(iv.upper.minus_spec(iv.lower))
}

/// The edge `i` as the arithmetic gives it, from the edge below.
pub open spec fn edge_again<N: Num>(e: Seq<N>, i: int) -> N {
    edge_below(e, i).plus_spec(e[i].minus_spec(edge_below(e, i)))
}

/// Whether `a` is at most `b`, up to the rounding of an edge that is at most `b`.
pub open spec fn nearly_at_most<N: Num>(e: Seq<N>, a: N, b: N) -> bool {
    at_most(a, b) || exists|i: int|
        0 <= i < e.len() && (#[trigger] e[i]).is_finite_spec() && at_most(a, edge_again(e, i))
            && at_most(e[i], b)
}

/// The largest finite edge; nought where there is none.
pub open spec fn top_edge<N: Num>(e: Seq<N>) -> N {
    if e.len() == 0 {
        N::zero_spec()
    } else if e.last().is_finite_spec() {
        e.last()
    } else {
        edge_below(e, e.len() - 1)
    }
}

// ---- one interval ----

/// What the arithmetic needs of the intervals that are gone through.
pub open spec fn are_steps<N: Num>(s: Seq<Interval<N>>) -> bool {
    &&& is_ladder(s)
    &&& are_whole(s)
    &&& are_real(s)
    &&& forall|i: int|
        0 <= i < s.len() ==> (#[trigger] s[i]).lower.is_finite_spec() && at_most(
            N::zero_spec(),
            s[i].lower,
        )
}

/// A value inside a closed interval is a number between its edges, up to rounding.
proof fn value_is_inside<N: Ordered>(iv: Interval<N>, t: N, c: u64)
    requires
        iv.lower.is_finite_spec(),
        iv.upper.is_finite_spec(),
        at_most(N::zero_spec(), iv.lower),
        at_most(iv.lower, iv.upper),
        is_whole(iv.count),
        N::zero_spec().less_spec(iv.count),
        c + iv.count.to_count_spec() <= MOST_WHOLE,
        t.is_finite_spec(),
        at_most(N::of_count_spec(c), t),
        at_most(t, N::of_count_spec(c).plus_spec(iv.count)),
    ensures
        ({
            let v = value_at(iv, way_of(iv, t, N::of_count_spec(c)));
            &&& !v.is_nan_spec()
            &&& at_most(iv.lower, v)
            &&& at_most(v, top_of(iv))
        }),
{
    let n = iv.count.to_count_spec();
    let cum = N::of_count_spec(c);
    let one = N::of_count_spec(1);
    N::counts_are_numbers(0);
    N::counts_are_numbers(1);
    N::counts_are_numbers(c);
    N::counts_are_numbers(n);
    N::counts_are_numbers((c + n) as u64);
    N::counts_add_up(c, n);
    N::counts_add_up(n, c);
    let upto = N::of_count_spec((c + n) as u64);
    // How far the target is above what lies below: at most the count.
    let d = t.minus_spec(cum);
    N::finite_results(t, cum);
    N::finite_results(upto, cum);
    N::results_ascend(t, upto, cum);
    N::signs_stay(cum, t);
    N::between_is_finite(N::zero_spec(), d, iv.count);
    // The way: at most one.
    let way = d.over_spec(iv.count);
    N::finite_results(d, iv.count);
    N::one_is_neutral(iv.count);
    N::nan_spreads(one, one);
    N::results_ascend(d, iv.count, iv.count);
    N::signs_stay(d, iv.count);
    N::between_is_finite(N::zero_spec(), way, one);
    // The distance between the edges.
    let width = iv.upper.minus_spec(iv.lower);
    N::finite_results(iv.upper, iv.lower);
    N::signs_stay(iv.lower, iv.upper);
    N::between_is_finite(N::zero_spec(), width, iv.upper);
    // The part of it that is covered.
    let x = width.times_spec(way);
    N::nan_spreads(width, way);
    N::nan_spreads(width, one);
    N::one_is_neutral(width);
    N::results_ascend(way, one, width);
    N::signs_stay(width, way);
    N::between_is_finite(N::zero_spec(), x, width);
    // The value.
    N::finite_results(iv.lower, x);
    N::finite_results(iv.lower, width);
    N::results_ascend(x, width, iv.lower);
    N::signs_stay(iv.lower, x);
    assert(way_of(iv, t, cum) == way);
}

// ---- a percentile ----

proof fn steps_go_on<N: Num>(s: Seq<Interval<N>>)
    requires
        are_steps(s),
        s.len() > 0,
    ensures
        are_steps(s.drop_first()),
{
    ladder_goes_on(s);
    let d = s.drop_first();
    assert forall|i: int| 0 <= i < d.len() implies {
        &&& (#[trigger] d[i]).lower.is_finite_spec()
        &&& at_most(N::zero_spec(), d[i].lower)
        &&& is_whole(d[i].count)
        &&& N::zero_spec().less_spec(d[i].count)
    } by {
        assert(d[i] == s[i + 1]);
    }
}

/// Where a percentile lies in its interval.
pub open spec fn is_inside<N: Num>(v: N, iv: Interval<N>) -> bool {
    &&& !v.is_nan_spec()
    &&& at_most(iv.lower, v)
    &&& if iv.upper.is_finite_spec() {
        at_most(v, top_of(iv))
    } else {
        v == iv.lower
    }
}

/// A share of the observations is found, and lies in the interval that holds it.
proof fn percentile_is_inside<N: Ordered>(s: Seq<Interval<N>>, t: N, c: u64)
    requires
        are_steps(s),
        s.len() > 0,
        c + tally(s) <= MOST_WHOLE,
        t.is_finite_spec(),
        at_most(N::of_count_spec(c), t),
        at_most(t, N::of_count_spec((c + tally(s)) as u64)),
    ensures
        ({
            let cum = N::of_count_spec(c);
            &&& reached(s, t, cum) is Some
            &&& holder(s, t, cum) < s.len()
            &&& is_inside(reached(s, t, cum)->0, s[holder(s, t, cum) as int])
        }),
    decreases s.len(),
{
    let cum = N::of_count_spec(c);
    let iv = s[0];
    let n = iv.count.to_count_spec();
    let upto = cum.plus_spec(iv.count);
    assert(is_whole(iv.count));
    assert(N::zero_spec().less_spec(iv.count));
    assert(at_most(iv.lower, iv.upper));
    tally_from_the_front(s);
    N::counts_add_up(c, n);
    N::counts_are_numbers((c + n) as u64);
    let d = s.drop_first();
    if upto.less_spec(t) {
        if d.len() == 0 {
            assert(tally(d) == 0);
        }
        steps_go_on(s);
        less_is_at_most(upto, t);
        percentile_is_inside(d, t, (c + n) as u64);
        let k = holder(d, t, upto) as int;
        assert(d[k] == s[k + 1]);
    } else {
        N::nan_spreads(t, t);
        N::nan_spreads(upto, upto);
        if iv.upper.is_finite_spec() {
            value_is_inside(iv, t, c);
            assert(reached(s, t, cum) == Some(value_at(iv, way_of(iv, t, cum))));
        } else {
            N::nan_spreads(iv.lower, iv.lower);
            at_most_itself(iv.lower);
        }
    }
}

/// Of two percentiles the higher one is not the smaller one, up to the rounding of an
/// edge between them.
proof fn percentiles_climb<N: Ordered>(s: Seq<Interval<N>>, low: N, high: N, c: u64)
    requires
        are_steps(s),
        s.len() > 0,
        c + tally(s) <= MOST_WHOLE,
        low.is_finite_spec(),
        high.is_finite_spec(),
        at_most(N::of_count_spec(c), low),
        at_most(low, high),
        at_most(high, N::of_count_spec((c + tally(s)) as u64)),
    ensures
        ({
            let cum = N::of_count_spec(c);
            let (a, b) = (reached(s, low, cum)->0, reached(s, high, cum)->0);
            let iv = s[holder(s, low, cum) as int];
            at_most(a, b) || (iv.upper.is_finite_spec() && at_most(a, top_of(iv)) && at_most(
                iv.upper,
                b,
            ))
        }),
    decreases s.len(),
{
    let cum = N::of_count_spec(c);
    let iv = s[0];
    let n = iv.count.to_count_spec();
    let upto = cum.plus_spec(iv.count);
    assert(is_whole(iv.count));
    assert(at_most(iv.lower, iv.upper));
    at_most_chains(cum, low, high);
    at_most_chains(low, high, N::of_count_spec((c + tally(s)) as u64));
    percentile_is_inside(s, low, c);
    percentile_is_inside(s, high, c);
    let (a, b) = (reached(s, low, cum)->0, reached(s, high, cum)->0);
    tally_from_the_front(s);
    N::counts_add_up(c, n);
    let d = s.drop_first();
    if upto.less_spec(low) {
        N::less_splits(upto, high, low);
        if d.len() == 0 {
            assert(tally(d) == 0);
        }
        steps_go_on(s);
        less_is_at_most(upto, low);
        percentiles_climb(d, low, high, (c + n) as u64);
        percentile_is_inside(d, low, (c + n) as u64);
        let k = holder(d, low, upto) as int;
        assert(d[k] == s[k + 1]);
    } else if upto.less_spec(high) {
        if d.len() == 0 {
            assert(tally(d) == 0);
        }
        steps_go_on(s);
        less_is_at_most(upto, high);
        percentile_is_inside(d, high, (c + n) as u64);
        let k = holder(d, high, upto) as int;
        assert(d[k] == s[k + 1]);
        assert(at_most(s[0].upper, s[k + 1].lower));
        at_most_chains(s[0].upper, s[k + 1].lower, b);
        if !iv.upper.is_finite_spec() {
            at_most_chains(a, iv.upper, b);
        }
    } else if iv.upper.is_finite_spec() {
        assert(a == value_at(iv, way_of(iv, low, cum)));
        assert(b == value_at(iv, way_of(iv, high, cum)));
        values_ascend(iv, low, high, cum);
    } else {
        at_most_itself(a);
    }
}

// ---- cells ----

proof fn edges_are_above_nought<N: Num>(e: Seq<N>, i: int)
    requires
        are_edges(e),
        0 <= i < e.len(),
    ensures
        at_most(N::zero_spec(), e[i]),
{
    if i > 0 {
        assert(e[0].less_spec(e[i]));
        less_is_at_most(e[0], e[i]);
        at_most_chains(N::zero_spec(), e[0], e[i]);
    }
}

/// A percentile in a cell lies between nought and the largest finite edge, up to
/// rounding.
proof fn inside_a_cell<N: Ordered>(v: N, iv: Interval<N>, e: Seq<N>)
    requires
        are_edges(e),
        is_cell(iv, e),
        is_inside(v, iv),
    ensures
        at_most(N::zero_spec(), v),
        nearly_at_most(e, v, top_edge(e)),
{
    let p = choose|p: int|
        0 <= p < e.len() && iv.upper == #[trigger] e[p] && iv.lower == edge_below(e, p);
    N::counts_are_numbers(0);
    N::nan_spreads(N::zero_spec(), N::zero_spec());
    at_most_itself(N::zero_spec());
    if p > 0 {
        edges_are_above_nought(e, p - 1);
    }
    at_most_chains(N::zero_spec(), iv.lower, v);
    if iv.upper.is_finite_spec() {
        assert(top_of(iv) == edge_again(e, p));
        let last = e.len() - 1;
        if e[last].is_finite_spec() {
            if p < last {
                assert(e[p].less_spec(e[last]));
                less_is_at_most(e[p], e[last]);
            } else {
                N::nan_spreads(e[p], e[p]);
                at_most_itself(e[p]);
            }
        } else {
            assert(p < last);
            if p < last - 1 {
                assert(e[p].less_spec(e[last - 1]));
                less_is_at_most(e[p], e[last - 1]);
            } else {
                N::nan_spreads(e[p], e[p]);
                at_most_itself(e[p]);
            }
        }
        assert(at_most(e[p], top_edge(e)));
    } else {
        assert(p == e.len() - 1);
        at_most_itself(v);
    }
}

proof fn cells_are_steps<N: Ordered>(r: Seq<Interval<N>>, e: Seq<N>)
    requires
        are_edges(e),
        are_cells(r, e),
        is_ladder(r),
        are_whole(r),
        are_real(r),
    ensures
        are_steps(r),
{
    N::named_values();
    N::nan_spreads(N::zero_spec(), N::zero_spec());
    at_most_itself(N::zero_spec());
    assert forall|i: int| 0 <= i < r.len() implies (#[trigger] r[i]).lower.is_finite_spec()
        && at_most(N::zero_spec(), r[i].lower) by {
        assert(is_cell(r[i], e));
        let p = choose|p: int|
            0 <= p < e.len() && r[i].upper == #[trigger] e[p] && r[i].lower == edge_below(e, p);
        if p > 0 {
            edges_are_above_nought(e, p - 1);
            assert(e[p - 1].is_finite_spec());
        }
    }
}

/// Two shares of the observations of a window on one ladder.
proof fn shares_climb<N: Ordered>(all: Seq<Interval<N>>, e: Seq<N>, x: N, y: N)
    requires
        are_edges(e),
        are_cells(by_upper(all), e),
        are_steps(by_upper(all)),
        by_upper(all).len() > 0,
        are_whole(all),
        tally(all) <= MOST_WHOLE,
        at_most(N::zero_spec(), x),
        at_most(x, y),
        at_most(y, N::of_count_spec(1)),
        x.is_finite_spec(),
        y.is_finite_spec(),
        N::zero_spec().less_spec(mass(all)),
    ensures
        ({
            let (a, b) = (quantile(all, x)->0, quantile(all, y)->0);
            &&& at_most(N::zero_spec(), a)
            &&& nearly_at_most(e, a, b)
            &&& nearly_at_most(e, a, top_edge(e))
            &&& at_most(N::zero_spec(), b)
            &&& nearly_at_most(e, b, top_edge(e))
        }),
{
    let r = by_upper(all);
    let m = mass(all);
    at_most_chains(N::zero_spec(), x, y);
    at_most_chains(x, y, N::of_count_spec(1));
    share_is_reached(all, x);
    share_is_reached(all, y);
    by_upper_is_whole(all);
    let (low, high) = (x.times_spec(m), y.times_spec(m));
    N::counts_are_numbers(0);
    N::counts_are_numbers(tally(all) as u64);
    N::nan_spreads(low, high);
    N::nan_spreads(high, low);
    less_is_at_most(N::zero_spec(), m);
    N::results_ascend(x, y, m);
    percentile_is_inside(r, low, 0);
    percentile_is_inside(r, high, 0);
    percentiles_climb(r, low, high, 0);
    let cum = N::zero_spec();
    let (h, k) = (holder(r, low, cum) as int, holder(r, high, cum) as int);
    assert(is_cell(r[h], e) && is_cell(r[k], e));
    let (a, b) = (quantile(all, x)->0, quantile(all, y)->0);
    inside_a_cell(a, r[h], e);
    inside_a_cell(b, r[k], e);
    if !at_most(a, b) {
        let iv = r[h];
        let p = choose|p: int|
            0 <= p < e.len() && iv.upper == #[trigger] e[p] && iv.lower == edge_below(e, p);
        assert(top_of(iv) == edge_again(e, p));
        assert(e[p].is_finite_spec() && at_most(a, edge_again(e, p)) && at_most(e[p], b));
    }
}

// ---- the law ----

/// The percentiles of a family whose scrapes all have the same bucket edges: they exist
/// if and only if a bucket of the family grew in a scrape that still counts, and then
/// the median, the ninth tenth and the last hundredth ascend from nought to the largest
/// finite edge, up to the rounding of an edge. A first scrape or a counter reset alone
/// is no growth, and observations beyond the last finite edge never give an infinite
/// value. The window holds fewer observations than counts have values of their own.
pub proof fn percentiles_of_one_ladder<N: Ordered>(
    h: Seq<Scrape<N>>,
    base: Seq<char>,
    e: Seq<N>,
    now: u64,
)
    requires
        feeds_one_ladder(h, base, e, now),
        tally(all_intervals(family_of(fed(h), base), now)) <= MOST_WHOLE,
    ensures
        latency_of(fed(h), base, now) is Some <==> exists|key: Seq<char>| #[trigger]
            grew_lately(h, (base, key), now),
        latency_of(fed(h), base, now) matches Some(p) ==> {
            &&& at_most(N::zero_spec(), p.p50)
            &&& nearly_at_most(e, p.p50, p.p90)
            &&& nearly_at_most(e, p.p90, p.p99)
            &&& nearly_at_most(e, p.p50, top_edge(e))
            &&& nearly_at_most(e, p.p90, top_edge(e))
            &&& nearly_at_most(e, p.p99, top_edge(e))
        },
{
    let s = fed(h);
    let seen = all_intervals(family_of(s, base), now);
    let all = merged(seen);
    fed_is_sound(h, base, e, now);
    window_follows_growth(h, base, e, now);
    whole_intervals(s, base, now);
    merging_keeps_observations(seen);
    let one = N::of_count_spec(1);
    let (x, y, z) = (fraction::<N>(1, 2), fraction::<N>(9, 10), fraction::<N>(99, 100));
    N::fractions_ascend(1, 2, 9, 10);
    N::fractions_ascend(9, 10, 99, 100);
    N::fractions_ascend(99, 100, 1, 1);
    N::counts_are_numbers(1);
    N::one_is_neutral(one);
    at_most_chains(y, z, one);
    at_most_chains(x, y, one);
    share_is_reached(all, x);
    share_is_reached(all, y);
    share_is_reached(all, z);
    observations_have_percentiles(s, base, now);
    if let Some(p) = latency_of(s, base, now) {
        real_intervals(s, base, now);
        one_ladder(s, base, now, e);
        cells_of_the_window(s, base, now, e);
        by_upper_is_whole(all);
        cells_are_steps(by_upper(all), e);
        shares_climb(all, e, x, y);
        shares_climb(all, e, y, z);
    }
}

/// Whether every finite edge is given back by the arithmetic as it is.
pub open spec fn edges_are_exact<N: Num>(e: Seq<N>) -> bool {
    forall|i: int|
        0 <= i < e.len() && (#[trigger] e[i]).is_finite_spec() ==> edge_again(e, i) == e[i]
}

proof fn exactly_at_most<N: Num>(e: Seq<N>, a: N, b: N)
    requires
        edges_are_exact(e),
        nearly_at_most(e, a, b),
    ensures
        at_most(a, b),
{
    if !at_most(a, b) {
        let i = choose|i: int|
            0 <= i < e.len() && (#[trigger] e[i]).is_finite_spec() && at_most(a, edge_again(e, i))
                && at_most(e[i], b);
        at_most_chains(a, e[i], b);
    }
}

/// With edges that are not rounded the percentiles ascend from nought to the largest
/// finite edge.
pub proof fn percentiles_between_exact_edges<N: Ordered>(
    h: Seq<Scrape<N>>,
    base: Seq<char>,
    e: Seq<N>,
    now: u64,
)
    requires
        feeds_one_ladder(h, base, e, now),
        tally(all_intervals(family_of(fed(h), base), now)) <= MOST_WHOLE,
        edges_are_exact(e),
    ensures
        latency_of(fed(h), base, now) matches Some(p) ==> {
            &&& at_most(N::zero_spec(), p.p50)
            &&& at_most(p.p50, p.p90)
            &&& at_most(p.p90, p.p99)
            &&& at_most(p.p99, top_edge(e))
        },
{
    percentiles_of_one_ladder(h, base, e, now);
    if let Some(p) = latency_of(fed(h), base, now) {
        exactly_at_most(e, p.p50, p.p90);
        exactly_at_most(e, p.p90, p.p99);
        exactly_at_most(e, p.p99, top_edge(e));
    }
}

}
