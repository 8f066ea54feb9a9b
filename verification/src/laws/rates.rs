//! Counters become rates.
use crate::num::Num;
use crate::poll::rate::{elapsed, history, observed, observed_all, rates_of, slope, sum_all,
    sum_known, unexpired, was_reset, Series};
use vstd::prelude::*;

verus! {

/// The points that are kept of a counter once all of `pts` were observed in order.
pub open spec fn kept_of<N: Num>(pts: Seq<(u64, N)>, window: u64) -> Seq<(u64, N)>
    decreases pts.len(),
{
    if pts.len() == 0 {
        Seq::empty()
    } else {
        observed(kept_of(pts.drop_last(), window), pts.last().0, pts.last().1, window)
    }
}

/// Observations in the order of their times, of a counter that is never reset.
pub open spec fn only_grows<N: Num>(pts: Seq<(u64, N)>) -> bool {
    &&& forall|i: int, j: int| 0 <= i < j < pts.len() ==> (#[trigger] pts[i]).0 <= (
        #[trigger] pts[j]).0
    &&& forall|i: int, j: int|
        0 <= i < j < pts.len() ==> !(#[trigger] pts[j]).1.less_spec((#[trigger] pts[i]).1)
}

/// The growth from one point to another for each second between them; never negative.
pub open spec fn growth_per_second<N: Num>(from: (u64, N), to: (u64, N)) -> N {
    let r = to.1.minus_spec(from.1).over_spec(N::of_nanos_spec((to.0 - from.0) as u64));
    if N::zero_spec().less_spec(r) {
        r
    } else {
        N::zero_spec()
    }
}

proof fn unexpired_from<N>(h: Seq<(u64, N)>, now: u64, window: u64, i: int)
    requires
        0 <= i < h.len(),
        forall|j: int| 0 <= j < i ==> elapsed(now, (#[trigger] h[j]).0) > window,
        i == h.len() - 1 || elapsed(now, h[i].0) <= window,
    ensures
        unexpired(h, now, window) == h.skip(i),
    decreases h.len(),
{
    if i == 0 {
        assert(h.skip(0) =~= h);
    } else {
        let d = h.drop_first();
        assert(elapsed(now, h[0].0) > window);
        assert forall|j: int| 0 <= j < i - 1 implies elapsed(now, (#[trigger] d[j]).0) > window by {
            assert(d[j] == h[j + 1]);
        }
        assert(d[i - 1] == h[i]);
        unexpired_from(d, now, window, i - 1);
        assert(d.skip(i - 1) =~= h.skip(i));
    }
}

/// Which points are kept: those from the first one on that is not older than the window.
proof fn kept_from<N: Num>(pts: Seq<(u64, N)>, window: u64, i: int)
    requires
        only_grows(pts),
        0 <= i < pts.len(),
        forall|j: int| 0 <= j < i ==> pts.last().0 - (#[trigger] pts[j]).0 > window,
        i == pts.len() - 1 || pts.last().0 - pts[i].0 <= window,
    ensures
        kept_of(pts, window) == pts.skip(i),
    decreases pts.len(),
{
    let d = pts.drop_last();
    let now = pts.last().0;
    let v = pts.last().1;
    if d.len() == 0 {
        assert(kept_of(d, window) =~= Seq::empty());
        assert(Seq::<(u64, N)>::empty().push(pts.last()) =~= pts);
        assert(!was_reset(Seq::<(u64, N)>::empty(), v));
        unexpired_from(pts, now, window, 0);
    } else {
        assert forall|a: int, b: int| 0 <= a < b < d.len() implies (#[trigger] d[a]).0 <= (
        #[trigger] d[b]).0 && !d[b].1.less_spec(d[a].1) by {
            assert(d[a] == pts[a] && d[b] == pts[b]);
        }
        let k = first_inside(d, window, 0);
        kept_from(d, window, k);
        let h = d.skip(k);
        assert forall|j: int| 0 <= j < h.len() implies !v.less_spec((#[trigger] h[j]).1) by {
            assert(h[j] == pts[k + j]);
            assert(pts[pts.len() - 1] == pts.last());
        }
        assert(!was_reset(h, v));
        assert(h.push(pts.last()) =~= pts.skip(k));
        let all = pts.skip(k);
        // What had left the window before has left it now.
        assert(k <= i) by {
            if i < k {
                assert(pts[i] == d[i]);
                assert(d.last().0 - d[i].0 > window);
                assert(d.last() == pts[pts.len() - 2]);
                assert(pts[pts.len() - 2].0 <= pts[pts.len() - 1].0);
            }
        }
        assert forall|j: int| 0 <= j < i - k implies elapsed(now, (#[trigger] all[j]).0)
            > window by {
            assert(all[j] == pts[k + j]);
            assert(pts[k + j].0 <= pts[pts.len() - 1].0);
        }
        assert(all[i - k] == pts[i]);
        if i < pts.len() - 1 {
            assert(pts[i].0 <= pts[pts.len() - 1].0);
        }
        unexpired_from(all, now, window, i - k);
        assert(all.skip(i - k) =~= pts.skip(i));
    }
}

/// The first point from `i` on that is not older than the window.
proof fn first_inside<N: Num>(pts: Seq<(u64, N)>, window: u64, i: int) -> (k: int)
    requires
        0 <= i < pts.len(),
        forall|j: int| 0 <= j < i ==> pts.last().0 - (#[trigger] pts[j]).0 > window,
    ensures
        0 <= k < pts.len(),
        forall|j: int| 0 <= j < k ==> pts.last().0 - (#[trigger] pts[j]).0 > window,
        k == pts.len() - 1 || pts.last().0 - pts[k].0 <= window,
    decreases pts.len() - i,
{
    if i == pts.len() - 1 || pts.last().0 - pts[i].0 <= window {
        i
    } else {
        first_inside(pts, window, i + 1)
    }
}

/// The rate of a counter is its growth from the oldest observation inside the window to
/// the newest one, for each second between them, whatever was observed in between: a
/// burst is smeared over the window.
pub proof fn rate_spans_the_window<N: Num>(pts: Seq<(u64, N)>, window: u64, i: int)
    requires
        only_grows(pts),
        0 <= i < pts.len() - 1,
        forall|j: int| 0 <= j < i ==> pts.last().0 - (#[trigger] pts[j]).0 > window,
        pts.last().0 - pts[i].0 <= window,
        pts[i].0 < pts.last().0,
    ensures
        slope(kept_of(pts, window)) == Some(growth_per_second(pts[i], pts.last())),
{
    kept_from(pts, window, i);
    let h = pts.skip(i);
    assert(h[0] == pts[i]);
    assert(h.last() == pts.last());
}

/// Two histories with the same oldest observation inside the window and the same newest
/// one have the same rate.
pub proof fn only_the_ends_matter<N: Num>(a: Seq<(u64, N)>, b: Seq<(u64, N)>, window: u64)
    requires
        only_grows(a),
        only_grows(b),
        a.len() > 1,
        b.len() > 1,
        a[0] == b[0],
        a.last() == b.last(),
        a[0].0 < a.last().0,
        a.last().0 - a[0].0 <= window,
    ensures
        slope(kept_of(a, window)) == slope(kept_of(b, window)),
        slope(kept_of(a, window)) == Some(growth_per_second(a[0], a.last())),
{
    rate_spans_the_window(a, window, 0);
    rate_spans_the_window(b, window, 0);
}

/// A counter without two observations inside the window, or with none at another time
/// than the newest, has no rate.
pub proof fn no_rate_without_a_span<N: Num>(pts: Seq<(u64, N)>, window: u64)
    requires
        only_grows(pts),
        pts.len() > 0,
        forall|j: int|
            0 <= j < pts.len() - 1 ==> pts.last().0 - (#[trigger] pts[j]).0 > window
                || pts[j].0 == pts.last().0,
    ensures
        slope(kept_of(pts, window)) is None,
{
    let k = first_inside(pts, window, 0);
    kept_from(pts, window, k);
    let h = pts.skip(k);
    assert(h.last() == pts.last());
    assert(h[0] == pts[k]);
}

/// A counter that reads less than before was reset: what was seen before is forgotten,
/// and the rate is that of the observations since.
pub proof fn reset_starts_over<N: Num>(before: Seq<(u64, N)>, since: Seq<(u64, N)>, window: u64)
    requires
        before.len() > 0,
        since.len() > 0,
        since[0].1.less_spec(before.last().1),
    ensures
        kept_of(before + since, window) == kept_of(since, window),
        since.len() == 1 ==> slope(kept_of(before + since, window)) is None,
    decreases since.len(),
{
    let all = before + since;
    let d = since.drop_last();
    assert(all.drop_last() =~= before + d);
    assert(all.last() == since.last());
    if since.len() == 1 {
        assert(before + d =~= before);
        assert(d =~= Seq::empty());
        let h = kept_of(before, window);
        kept_ends_with_newest(before, window);
        let p = since[0];
        assert(p.1.less_spec(h[h.len() - 1].1));
        assert(was_reset(h, p.1));
        assert(kept_of(d, window) =~= Seq::empty());
        assert(!was_reset(Seq::<(u64, N)>::empty(), p.1));
        assert(unexpired(Seq::<(u64, N)>::empty().push(p), p.0, window).len() == 1);
    } else {
        assert(d[0] == since[0]);
        reset_starts_over(before, d, window);
    }
}

proof fn unexpired_ends<N>(h: Seq<(u64, N)>, now: u64, window: u64)
    requires
        h.len() > 0,
    ensures
        unexpired(h, now, window).len() > 0,
        unexpired(h, now, window).last() == h.last(),
    decreases h.len(),
{
    if h.len() > 1 && elapsed(now, h[0].0) > window {
        unexpired_ends(h.drop_first(), now, window);
    }
}

proof fn kept_ends_with_newest<N: Num>(pts: Seq<(u64, N)>, window: u64)
    requires
        pts.len() > 0,
    ensures
        kept_of(pts, window).len() > 0,
        kept_of(pts, window).last() == pts.last(),
{
    let h = kept_of(pts.drop_last(), window);
    let p = pts.last();
    unexpired_ends(h.push((p.0, p.1)), p.0, window);
    unexpired_ends(Seq::empty().push((p.0, p.1)), p.0, window);
}

/// Counters do not disturb each other: each of several that are observed together has the
/// rate that it would have alone.
pub proof fn counters_stand_alone<N: Num>(
    s: Series<N>,
    window: u64,
    now: u64,
    pts: Seq<(Seq<char>, N)>,
    i: int,
)
    requires
        0 <= i < pts.len(),
        forall|j: int, k: int| 0 <= j < k < pts.len() ==> (#[trigger] pts[j]).0 != (
        #[trigger] pts[k]).0,
    ensures
        rates_of(s, window, now, pts).len() == pts.len(),
        rates_of(s, window, now, pts)[i] == slope(
            observed(history(s, pts[i].0), now, pts[i].1, window),
        ),
        history(observed_all(s, window, now, pts), pts[i].0) == observed(
            history(s, pts[i].0),
            now,
            pts[i].1,
            window,
        ),
    decreases pts.len(),
{
    let d = pts.drop_last();
    assert forall|j: int, k: int| 0 <= j < k < d.len() implies (#[trigger] d[j]).0 != (
    #[trigger] d[k]).0 by {
        assert(d[j] == pts[j] && d[k] == pts[k]);
    }
    crate::poll::rate::one_rate_per_point(s, window, now, d);
    if i < d.len() {
        counters_stand_alone(s, window, now, d, i);
        assert(d[i] == pts[i]);
        assert(pts[i].0 != pts[pts.len() - 1].0);
    } else {
        others_are_left_alone(s, window, now, d, pts[i].0);
    }
}

proof fn others_are_left_alone<N: Num>(
    s: Series<N>,
    window: u64,
    now: u64,
    pts: Seq<(Seq<char>, N)>,
    key: Seq<char>,
)
    requires
        forall|j: int| 0 <= j < pts.len() ==> (#[trigger] pts[j]).0 != key,
    ensures
        history(observed_all(s, window, now, pts), key) == history(s, key),
    decreases pts.len(),
{
    if pts.len() > 0 {
        let d = pts.drop_last();
        assert forall|j: int| 0 <= j < d.len() implies (#[trigger] d[j]).0 != key by {
            assert(d[j] == pts[j]);
        }
        others_are_left_alone(s, window, now, d, key);
        assert(pts[pts.len() - 1].0 != key);
    }
}

/// A sum of rates is known where each of them is, and one that is known can be taken off
/// the end: the rest and it make up the sum.
pub proof fn rates_add_up<N: Num>(rs: Seq<Option<N>>, r: Option<N>)
    ensures
        sum_all(rs.push(r)) is Some <==> sum_all(rs) is Some && r is Some,
        sum_all(rs.push(r)) is Some ==> sum_all(rs.push(r))->0 == sum_all(rs)->0.plus_spec(r->0),
        sum_known(rs.push(r)) is Some <==> sum_known(rs) is Some || r is Some,
        r is None ==> sum_known(rs.push(r)) == sum_known(rs),
        sum_known(rs) is Some && r is Some ==> sum_known(rs.push(r))->0 == sum_known(
            rs,
        )->0.plus_spec(r->0),
        sum_all::<N>(Seq::empty()) == Some(N::zero_spec()),
        sum_known::<N>(Seq::empty()) is None,
        sum_known(seq![r]) is Some ==> sum_known(seq![r])->0 == N::zero_spec().plus_spec(r->0),
{
    assert(rs.push(r).drop_last() =~= rs);
    assert(seq![r].drop_last() =~= Seq::empty());
    assert(sum_known::<N>(seq![r].drop_last()) is None);
}

}
