//! Which share of the observations each percentile stands for.
use crate::num::{at_most, Num, Ordered, MOST_WHOLE};
use crate::poll::history::{fed, fed_is_sound, feeds_one_ladder, Scrape};
use crate::poll::ladder::{are_cells, are_edges, cells_of_the_window, edge_below, edges_are_reached_in_order,
    edges_differ, is_cell};
use crate::poll::percentiles::{are_real, at_most_chains, holder, real_intervals};
use crate::poll::quantile::{all_intervals, by_upper, family_of, fraction, latency_of, mass, merged,
    merged_with, bounds_below, quantile, reached, with_upper, Interval};
use crate::poll::wholes::{are_whole, by_upper_is_whole, is_whole, merging_keeps_observations,
    share_is_reached, tally, tally_from_the_front, whole_intervals};
use vstd::prelude::*;

verus! {

// ---- observations up to an edge ----

/// Whether `u` is one of the edges up to `e[i]`.
pub open spec fn is_upto<N: Num>(u: N, e: Seq<N>, i: int) -> bool {
    exists|j: int| 0 <= j <= i && j < e.len() && #[trigger] e[j] == u
}

/// How many of the observations lie up to the edge `i`.
pub open spec fn observed_upto<N: Num>(s: Seq<Interval<N>>, e: Seq<N>, i: int) -> nat
    decreases s.len(),
{
    if s.len() == 0 {
        0
    } else {
        observed_upto(s.drop_last(), e, i) + if is_upto(s.last().upper, e, i) {
            s.last().count.to_count_spec() as nat
        } else {
            0
        }
    }
}

/// Whether `v` is the value of the observation at the given share, in the cell `i`: with the
/// observations up to its edge the share is reached, without those in the cell it is not,
/// and the value lies between its edges as far on as the share lies between the two counts;
/// on the last finite edge where the cell is open-ended.
pub open spec fn is_at_share<N: Num>(v: N, s: Seq<Interval<N>>, e: Seq<N>, share: N, i: int) -> bool {
    let all = observed_upto(s, e, e.len() - 1);
    let below = observed_upto(s, e, i - 1);
    let upto = observed_upto(s, e, i);
    let wanted = share.times_spec(N::of_count_spec(all as u64));
    &&& 0 <= i < e.len()
    &&& below < upto <= all
    &&& !N::of_count_spec(upto as u64).less_spec(wanted)
    &&& below > 0 ==> N::of_count_spec(below as u64).less_spec(wanted)
    &&& v == if e[i].is_finite_spec() {
        edge_below(e, i).plus_spec(
            e[i].minus_spec(edge_below(e, i)).times_spec(
                wanted.minus_spec(N::of_count_spec(below as u64)).over_spec(
                    N::of_count_spec((upto - below) as u64),
                ),
            ),
        )
    } else {
        edge_below(e, i)
    }
}

proof fn merged_with_observed<N: Ordered>(s: Seq<Interval<N>>, iv: Interval<N>, e: Seq<N>, i: int)
    requires
        are_whole(s),
        is_whole(iv.count),
        tally(s) + iv.count.to_count_spec() <= MOST_WHOLE,
    ensures
        observed_upto(merged_with(s, iv), e, i) == observed_upto(s, e, i) + observed_upto(
            seq![iv],
            e,
            i,
        ),
    decreases s.len(),
{
    let r = merged_with(s, iv);
    let fresh = Interval { count: N::zero_spec().plus_spec(iv.count), ..iv };
    N::counts_are_numbers(0);
    N::counts_add_up(0, iv.count.to_count_spec());
    assert(fresh.count == iv.count);
    assert(seq![iv].drop_last() =~= Seq::empty());
    assert(observed_upto(seq![iv].drop_last(), e, i) == 0);
    if s.len() == 0 {
        assert(r =~= seq![iv]);
    } else {
        let d = s.drop_last();
        assert forall|k: int| 0 <= k < d.len() implies is_whole((#[trigger] d[k]).count) by {
            assert(d[k] == s[k]);
        }
        let last = s[s.len() - 1];
        assert(is_whole(last.count));
        if last.lower == iv.lower && last.upper == iv.upper {
            let x = Interval { count: last.count.plus_spec(iv.count), ..iv };
            assert(r == d.push(x));
            assert(r.drop_last() =~= d);
            N::counts_add_up(last.count.to_count_spec(), iv.count.to_count_spec());
            N::counts_are_numbers((last.count.to_count_spec() + iv.count.to_count_spec()) as u64);
        } else if bounds_below(iv, last) {
            merged_with_observed(d, iv, e, i);
            assert(r.drop_last() =~= merged_with(d, iv));
        } else {
            assert(r.drop_last() =~= s);
        }
    }
}

proof fn merged_observed<N: Ordered>(s: Seq<Interval<N>>, e: Seq<N>, i: int)
    requires
        are_whole(s),
        tally(s) <= MOST_WHOLE,
    ensures
        observed_upto(merged(s), e, i) == observed_upto(s, e, i),
    decreases s.len(),
{
    if s.len() > 0 {
        let d = s.drop_last();
        assert forall|k: int| 0 <= k < d.len() implies is_whole((#[trigger] d[k]).count) by {
            assert(d[k] == s[k]);
        }
        merged_observed(d, e, i);
        merging_keeps_observations(d);
        assert(is_whole(s[s.len() - 1].count));
        merged_with_observed(merged(d), s.last(), e, i);
        assert(seq![s.last()].drop_last() =~= Seq::empty());
        assert(observed_upto(seq![s.last()].drop_last(), e, i) == 0);
    }
}

proof fn with_upper_observed<N: Num>(s: Seq<Interval<N>>, iv: Interval<N>, e: Seq<N>, i: int)
    ensures
        observed_upto(with_upper(s, iv), e, i) == observed_upto(s.push(iv), e, i),
    decreases s.len(),
{
    assert(s.push(iv).drop_last() =~= s);
    if s.len() > 0 && iv.upper.below_spec(s.last().upper) {
        let d = s.drop_last();
        with_upper_observed(d, iv, e, i);
        assert(d.push(iv).drop_last() =~= d);
        let w = with_upper(s, iv);
        assert(w.drop_last() =~= with_upper(d, iv));
        assert(w.last() == s.last());
        let last = observed_upto(seq![s.last()], e, i);
        one_observed(s.last(), e, i);
        assert(observed_upto(w, e, i) == observed_upto(w.drop_last(), e, i) + last);
        assert(observed_upto(s, e, i) == observed_upto(d, e, i) + last);
    }
}

proof fn one_observed<N: Num>(iv: Interval<N>, e: Seq<N>, i: int)
    ensures
        observed_upto(seq![iv], e, i) == if is_upto(iv.upper, e, i) {
            iv.count.to_count_spec() as nat
        } else {
            0
        },
{
    assert(seq![iv].drop_last() =~= Seq::empty());
    assert(observed_upto(seq![iv].drop_last(), e, i) == 0);
}

proof fn by_upper_observed<N: Num>(s: Seq<Interval<N>>, e: Seq<N>, i: int)
    ensures
        observed_upto(by_upper(s), e, i) == observed_upto(s, e, i),
    decreases s.len(),
{
    if s.len() > 0 {
        by_upper_observed(s.drop_last(), e, i);
        with_upper_observed(by_upper(s.drop_last()), s.last(), e, i);
        assert(by_upper(s.drop_last()).push(s.last()).drop_last() =~= by_upper(s.drop_last()));
    }
}

/// All observations lie up to the last edge.
proof fn all_are_observed<N: Num>(s: Seq<Interval<N>>, e: Seq<N>)
    requires
        are_cells(s, e),
    ensures
        observed_upto(s, e, e.len() - 1) == tally(s),
    decreases s.len(),
{
    if s.len() > 0 {
        let d = s.drop_last();
        assert forall|k: int| 0 <= k < d.len() implies is_cell(#[trigger] d[k], e) by {
            assert(d[k] == s[k]);
        }
        all_are_observed(d, e);
        assert(is_cell(s[s.len() - 1], e));
    }
}

/// Gone through in the order of the edges, the first ones are those up to an edge.
proof fn first_ones_observed<N: Num>(r: Seq<Interval<N>>, e: Seq<N>, n: int, i: int)
    requires
        0 <= n <= r.len(),
        forall|k: int| 0 <= k < n ==> is_upto((#[trigger] r[k]).upper, e, i),
        forall|k: int| n <= k < r.len() ==> !is_upto((#[trigger] r[k]).upper, e, i),
    ensures
        observed_upto(r, e, i) == tally(r.take(n)),
    decreases r.len(),
{
    if r.len() == 0 {
        assert(r.take(n) =~= r);
    } else {
        let d = r.drop_last();
        assert(r[r.len() - 1] == r.last());
        assert forall|k: int| 0 <= k < d.len() implies #[trigger] d[k] == r[k] by {}
        if n == r.len() {
            first_ones_observed(d, e, n - 1, i);
            assert(d.take(n - 1) =~= d);
            assert(r.take(n) =~= r);
        } else {
            first_ones_observed(d, e, n, i);
            assert(d.take(n) =~= r.take(n));
        }
    }
}

// ---- the interval that holds a share ----

proof fn holder_splits<N: Ordered>(s: Seq<Interval<N>>, t: N, c: u64)
    requires
        are_whole(s),
        are_real(s),
        c + tally(s) <= MOST_WHOLE,
        reached(s, t, N::of_count_spec(c)) is Some,
    ensures
        ({
            let k = holder(s, t, N::of_count_spec(c)) as int;
            let below = (c + tally(s.take(k))) as u64;
            let upto = (c + tally(s.take(k + 1))) as u64;
            &&& k < s.len()
            &&& tally(s.take(k)) + s[k].count.to_count_spec() == tally(s.take(k + 1))
            &&& tally(s.take(k + 1)) <= tally(s)
            &&& !N::of_count_spec(upto).less_spec(t)
            &&& k > 0 ==> N::of_count_spec(below).less_spec(t)
            &&& reached(s, t, N::of_count_spec(c)) == Some(
                if s[k].upper.is_finite_spec() {
                    s[k].lower.plus_spec(
                        s[k].upper.minus_spec(s[k].lower).times_spec(
                            t.minus_spec(N::of_count_spec(below)).over_spec(s[k].count),
                        ),
                    )
                } else {
                    s[k].lower
                },
            )
        }),
    decreases s.len(),
{
    let cum = N::of_count_spec(c);
    assert(s.len() > 0);
    let n = s[0].count.to_count_spec();
    assert(is_whole(s[0].count));
    assert(N::zero_spec().less_spec(s[0].count));
    tally_from_the_front(s);
    N::counts_add_up(c, n);
    let upto = cum.plus_spec(s[0].count);
    let d = s.drop_first();
    if upto.less_spec(t) {
        assert forall|i: int| 0 <= i < d.len() implies #[trigger] d[i] == s[i + 1] by {}
        holder_splits(d, t, (c + n) as u64);
        let k = holder(d, t, upto) as int;
        assert(s.take(k + 1).drop_first() =~= d.take(k));
        assert(s.take(k + 2).drop_first() =~= d.take(k + 1));
        tally_from_the_front(s.take(k + 1));
        tally_from_the_front(s.take(k + 2));
        assert(s.take(k + 1)[0] == s[0]);
        assert(s.take(k + 2)[0] == s[0]);
    } else {
        assert(s.take(0) =~= Seq::empty());
        assert(tally(s.take(0)) == 0);
        tally_from_the_front(s.take(1));
        assert(s.take(1)[0] == s[0]);
        assert(s.take(1).drop_first() =~= Seq::empty());
        assert(tally(s.take(1).drop_first()) == 0);
    }
}

/// A share of the observations of a window.
proof fn quantile_is_at_share<N: Ordered>(seen: Seq<Interval<N>>, e: Seq<N>, share: N) -> (i: int)
    requires
        are_edges(e),
        are_cells(seen, e),
        are_whole(seen),
        tally(seen) <= MOST_WHOLE,
        are_cells(by_upper(merged(seen)), e),
        are_real(by_upper(merged(seen))),
        ({
            let r = by_upper(merged(seen));
            forall|i: int, j: int, p: int, q: int|
                0 <= i < j < r.len() && 0 <= p < e.len() && 0 <= q < e.len() && (
                #[trigger] r[i]).upper == #[trigger] e[p] && (#[trigger] r[j]).upper
                    == #[trigger] e[q] ==> p < q
        }),
        at_most(N::zero_spec(), share),
        at_most(share, N::of_count_spec(1)),
        share.is_finite_spec(),
        quantile(merged(seen), share) is Some,
    ensures
        is_at_share(quantile(merged(seen), share)->0, seen, e, share, i),
{
    let all = merged(seen);
    let r = by_upper(all);
    merging_keeps_observations(seen);
    by_upper_is_whole(all);
    share_is_reached(all, share);
    all_are_observed(seen, e);
    let t = share.times_spec(mass(all));
    N::counts_are_numbers(0);
    holder_splits(r, t, 0);
    let k = holder(r, t, N::zero_spec()) as int;
    assert(is_cell(r[k], e));
    let p = choose|p: int|
        0 <= p < e.len() && r[k].upper == #[trigger] e[p] && r[k].lower == edge_below(e, p);
    assert(N::zero_spec().less_spec(r[k].count));
    assert(is_whole(r[k].count));
    if r[k].count.to_count_spec() == 0 {
        N::less_asymmetric(r[k].count, r[k].count);
    }
    assert forall|m: int| 0 <= m < k implies is_upto((#[trigger] r[m]).upper, e, p - 1) by {
        assert(is_cell(r[m], e));
        let q = choose|q: int|
            0 <= q < e.len() && r[m].upper == #[trigger] e[q] && r[m].lower == edge_below(e, q);
        assert(q < p);
    }
    assert forall|m: int| k < m < r.len() implies !is_upto((#[trigger] r[m]).upper, e, p) by {
        if is_upto(r[m].upper, e, p) {
            let q = choose|q: int| 0 <= q <= p && q < e.len() && #[trigger] e[q] == r[m].upper;
            assert(r[k].upper == e[p] && r[m].upper == e[q]);
        }
    }
    assert(is_upto(r[k].upper, e, p));
    assert(!is_upto(r[k].upper, e, p - 1)) by {
        if is_upto(r[k].upper, e, p - 1) {
            let q = choose|q: int| 0 <= q <= p - 1 && q < e.len() && #[trigger] e[q] == r[k].upper;
            edges_differ(e, p, q);
        }
    }
    assert forall|m: int| 0 <= m < k + 1 implies is_upto((#[trigger] r[m]).upper, e, p) by {
        if m < k {
            let q = choose|q: int| 0 <= q <= p - 1 && q < e.len() && #[trigger] e[q] == r[m].upper;
            assert(e[q] == r[m].upper);
        }
    }
    assert forall|m: int| k <= m < r.len() implies !is_upto((#[trigger] r[m]).upper, e, p - 1) by {
        if m > k && is_upto(r[m].upper, e, p - 1) {
            let q = choose|q: int| 0 <= q <= p - 1 && q < e.len() && #[trigger] e[q] == r[m].upper;
            assert(is_upto(r[m].upper, e, p));
        }
    }
    first_ones_observed(r, e, k, p - 1);
    first_ones_observed(r, e, k + 1, p);
    by_upper_observed(all, e, p - 1);
    by_upper_observed(all, e, p);
    merged_observed(seen, e, p - 1);
    merged_observed(seen, e, p);
    if k == 0 {
        assert(r.take(0) =~= Seq::empty());
        assert(tally(r.take(0)) == 0);
    }
    let (below, upto) = (observed_upto(seen, e, p - 1), observed_upto(seen, e, p));
    assert(below == tally(r.take(k)));
    assert(upto == tally(r.take(k + 1)));
    assert(r[k].count == N::of_count_spec((upto - below) as u64));
    assert(mass(all) == N::of_count_spec(tally(seen) as u64));
    p
}

// ---- the law ----

/// What each percentile of a family stands for: one half, nine of ten and ninety-nine of a
/// hundred of the observations in the window. Up to the edge above the percentile there are
/// at least as many as that share, up to the edge below it there are fewer, and it lies
/// between the two edges as far on as the share does between the two counts.
pub proof fn percentiles_stand_for_their_shares<N: Ordered>(
    h: Seq<Scrape<N>>,
    base: Seq<char>,
    e: Seq<N>,
    now: u64,
)
    requires
        feeds_one_ladder(h, base, e, now),
        observed_upto(all_intervals(family_of(fed(h), base), now), e, e.len() - 1) <= MOST_WHOLE,
    ensures
        latency_of(fed(h), base, now) matches Some(p) ==> {
            let seen = all_intervals(family_of(fed(h), base), now);
            let half = N::of_count_spec(1).over_spec(N::of_count_spec(2));
            let most = N::of_count_spec(9).over_spec(N::of_count_spec(10));
            let nearly_all = N::of_count_spec(99).over_spec(N::of_count_spec(100));
            &&& exists|i: int| #[trigger] is_at_share(p.p50, seen, e, half, i)
            &&& exists|i: int| #[trigger] is_at_share(p.p90, seen, e, most, i)
            &&& exists|i: int| #[trigger] is_at_share(p.p99, seen, e, nearly_all, i)
        },
{
    let s = fed(h);
    let seen = all_intervals(family_of(s, base), now);
    let all = merged(seen);
    fed_is_sound(h, base, e, now);
    whole_intervals(s, base, now);
    let one = N::of_count_spec(1);
    let (x, y, z) = (fraction::<N>(1, 2), fraction::<N>(9, 10), fraction::<N>(99, 100));
    N::fractions_ascend(1, 2, 9, 10);
    N::fractions_ascend(9, 10, 99, 100);
    N::fractions_ascend(99, 100, 1, 1);
    N::counts_are_numbers(1);
    N::one_is_neutral(one);
    at_most_chains(y, z, one);
    at_most_chains(x, y, one);
    if let Some(p) = latency_of(s, base, now) {
        real_intervals(s, base, now);
        cells_of_the_window(s, base, now, e);
        edges_are_reached_in_order(s, base, now, e);
        all_are_observed(seen, e);
        let i = quantile_is_at_share(seen, e, x);
        let j = quantile_is_at_share(seen, e, y);
        let k = quantile_is_at_share(seen, e, z);
        assert(is_at_share(p.p50, seen, e, x, i));
        assert(is_at_share(p.p90, seen, e, y, j));
        assert(is_at_share(p.p99, seen, e, z, k));
    }
}

}
