//! What the window of a histogram holds.
use crate::laws::shares::{is_upto, observed_upto};
use crate::num::{floored_spec, Num, Ordered, MOST_WHOLE};
use crate::poll::history::{all_recorded_known, edges_differ, fed, fed_is_sound, feeds_one_ladder,
    grouped_once, history_of_a_series, known_of, ladder_was_fed, last_readings, readings_elsewhere,
    said_of, staircase_reads, Scrape};
use crate::poll::ladder::{are_edges, edges_of};
use crate::poll::quantile::{all_growths, all_intervals, bucket_growth, by_edge, entry_ids,
    family_of, frame_intervals, fresh_subject, group_ids, grouped, growths, grown_count, grown_sum,
    in_window, latency_of, place, place_misses, recorded, staircase, sum_growth, windowed_mean_of,
    EntryView, Interval, ScrapedView, SubjectView};
use crate::poll::rate::elapsed;
use crate::poll::wholes::{is_whole, read_whole_buckets};
use vstd::prelude::*;

verus! {

// ---- one scrape ----

/// By how much a bucket grew from its last reading: not at all on first sight or a reset.
pub open spec fn growth<N: Num>(seen: Map<N, N>, b: (N, N)) -> nat {
    if seen.contains_key(b.0) && b.1.to_count_spec() > seen[b.0].to_count_spec() {
        (b.1.to_count_spec() - seen[b.0].to_count_spec()) as nat
    } else {
        0
    }
}

/// Whether the buckets hold whole counts that grew at least as much as those below, as
/// cumulative counts do.
pub open spec fn grows_upward<N: Num>(seen: Map<N, N>, b: Seq<(N, N)>) -> bool {
    &&& forall|k: N| #[trigger] seen.contains_key(k) ==> is_whole(seen[k])
    &&& read_whole_buckets(b)
    &&& forall|i: int, j: int|
        0 <= i < j < b.len() ==> growth(seen, #[trigger] b[i]) <= growth(seen, #[trigger] b[j])
}

proof fn floored_growth<N: Ordered>(a: N, b: N)
    requires
        is_whole(a),
        is_whole(b),
    ensures
        floored_spec(a.minus_spec(b)) == N::of_count_spec(
            if a.to_count_spec() > b.to_count_spec() {
                (a.to_count_spec() - b.to_count_spec()) as u64
            } else {
                0
            },
        ),
{
    let (x, y) = (a.to_count_spec(), b.to_count_spec());
    N::counts_are_numbers(0);
    N::counts_are_numbers(x);
    N::counts_are_numbers(y);
    N::nan_spreads(N::zero_spec(), N::zero_spec());
    crate::poll::percentiles::at_most_itself(N::zero_spec());
    if y <= x {
        N::counts_add_up((x - y) as u64, y);
        N::counts_are_numbers((x - y) as u64);
    } else {
        let d = (y - x) as u64;
        N::counts_add_up(x, d);
        N::counts_are_numbers(d);
        N::finite_results(a, N::of_count_spec(d));
        N::finite_results(a, b);
        N::finite_results(b, b);
        N::nan_spreads(a, b);
        N::nan_spreads(b, b);
        N::signs_stay(a, N::of_count_spec(d));
        N::results_ascend(a, b, b);
        N::counts_add_up(0, y);
    }
}

proof fn observed_more<N: Num>(s: Seq<Interval<N>>, iv: Interval<N>, e: Seq<N>, i: int)
    ensures
        observed_upto(s.push(iv), e, i) == observed_upto(s, e, i) + if is_upto(iv.upper, e, i) {
            iv.count.to_count_spec() as nat
        } else {
            0
        },
{
    assert(s.push(iv).drop_last() =~= s);
}

/// The first `n` buckets of a scrape.
proof fn found_by<N: Ordered>(seen: Map<N, N>, b: Seq<(N, N)>, e: Seq<N>, n: int, i: int)
    requires
        are_edges(e),
        edges_of(b) == e,
        grows_upward(seen, b),
        0 <= n <= b.len(),
        0 <= i,
    ensures
        n > 0 ==> staircase(seen, b.take(n)).grown == N::of_count_spec(
            growth(seen, b[n - 1]) as u64,
        ),
        observed_upto(staircase(seen, b.take(n)).found, e, i) == if n == 0 {
            0
        } else if i < n {
            growth(seen, b[i])
        } else {
            growth(seen, b[n - 1])
        },
    decreases n,
{
    let t = b.take(n);
    N::counts_are_numbers(0);
    if n > 0 {
        let d = b.take(n - 1);
        assert(t.drop_last() =~= d);
        assert(t.last() == b[n - 1]);
        found_by(seen, b, e, n - 1, i);
        let st = staircase(seen, d);
        let x = b[n - 1];
        edges_differ(b, e);
        staircase_reads(seen, d);
        assert forall|k: int| 0 <= k < d.len() implies (#[trigger] d[k]).0 != x.0 by {
            assert(d[k] == b[k]);
        }
        readings_elsewhere(seen, d, x.0);
        assert(is_whole(x.1));
        let g = growth(seen, x);
        if seen.contains_key(x.0) {
            floored_growth(x.1, seen[x.0]);
        }
        let grown = bucket_growth(st.buckets, x);
        assert(grown == N::of_count_spec(g as u64));
        N::counts_are_numbers(g as u64);
        let before = if n == 1 {
            0
        } else {
            growth(seen, b[n - 2])
        };
        if n > 1 {
            assert(growth(seen, b[n - 2]) <= growth(seen, b[n - 1]));
        }
        N::counts_are_numbers(before as u64);
        assert(st.grown == N::of_count_spec(before as u64));
        floored_growth(grown, st.grown);
        let fresh = floored_spec(grown.minus_spec(st.grown));
        assert(fresh == N::of_count_spec((g - before) as u64));
        N::counts_are_numbers((g - before) as u64);
        N::nan_spreads(N::zero_spec(), N::zero_spec());
        crate::poll::percentiles::at_most_itself(N::zero_spec());
        let iv = Interval { lower: st.edge, upper: x.0, count: fresh };
        observed_more(st.found, iv, e, i);
        assert(edges_of(b)[n - 1] == x.0);
        assert(is_upto(x.0, e, i) <==> i >= n - 1) by {
            if is_upto(x.0, e, i) {
                let j = choose|j: int| 0 <= j <= i && j < e.len() && #[trigger] e[j] == x.0;
                crate::poll::ladder::edges_differ(e, j, n - 1);
            }
            if i >= n - 1 {
                assert(e[n - 1] == x.0);
            }
        }
    } else {
        assert(staircase(seen, t).found.len() == 0);
    }
}

/// The new observations up to an edge are as many as the cumulative count of that edge grew.
pub proof fn new_observations_follow_growth<N: Ordered>(
    seen: Map<N, N>,
    b: Seq<(N, N)>,
    e: Seq<N>,
    i: int,
)
    requires
        are_edges(e),
        edges_of(b) == e,
        grows_upward(seen, b),
        0 <= i < b.len(),
    ensures
        observed_upto(staircase(seen, b).found, e, i) == growth(seen, b[i]),
{
    found_by(seen, b, e, b.len() as int, i);
    assert(b.take(b.len() as int) =~= b);
}

// ---- the window ----

/// By how much the edge `i` of a series grew in the last scrape.
pub open spec fn growth_now<N: Num>(h: Seq<Scrape<N>>, id: (Seq<char>, Seq<char>), i: int) -> nat {
    match said_of(h.last().0, id) {
        Some(sc) => growth(last_readings(h.drop_last(), id), by_edge(sc.buckets)[i]),
        None => 0,
    }
}

/// By how much the edge `i` of a series grew in the scrapes of the last thirty seconds.
pub open spec fn growth_lately<N: Num>(
    h: Seq<Scrape<N>>,
    id: (Seq<char>, Seq<char>),
    i: int,
    now: u64,
) -> nat
    decreases h.len(),
{
    if h.len() == 0 {
        0
    } else {
        growth_lately(h.drop_last(), id, i, now) + if now - h.last().1 <= 30_000_000_000 {
            growth_now(h, id, i)
        } else {
            0
        }
    }
}

/// Whether the series grows as cumulative counts do, in every scrape.
pub open spec fn always_grows_upward<N: Num>(h: Seq<Scrape<N>>, id: (Seq<char>, Seq<char>)) -> bool {
    forall|k: int|
        0 <= k < h.len() ==> (said_of((#[trigger] h[k]).0, id) matches Some(sc) ==> grows_upward(
            last_readings(h.take(k), id),
            by_edge(sc.buckets),
        ))
}

proof fn observed_joined<N: Num>(a: Seq<Interval<N>>, b: Seq<Interval<N>>, e: Seq<N>, i: int)
    ensures
        observed_upto(a + b, e, i) == observed_upto(a, e, i) + observed_upto(b, e, i),
    decreases b.len(),
{
    if b.len() == 0 {
        assert(a + b =~= a);
    } else {
        assert((a + b).drop_last() =~= a + b.drop_last());
        observed_joined(a, b.drop_last(), e, i);
    }
}

/// Frames that have left the window do not count later either.
proof fn trimming_loses_nothing<N: Num>(w: Seq<(u64, Seq<Interval<N>>)>, t: u64, now: u64)
    requires
        t <= now,
    ensures
        frame_intervals(in_window(w, t), now) == frame_intervals(w, now),
    decreases w.len(),
{
    if w.len() > 0 && elapsed(t, w[0].0) > crate::poll::quantile::HIST_WINDOW {
        trimming_loses_nothing(w.drop_first(), t, now);
        first_frame_is_old(w, now);
    }
}

proof fn first_frame_is_old<N: Num>(w: Seq<(u64, Seq<Interval<N>>)>, now: u64)
    requires
        w.len() > 0,
        elapsed(now, w[0].0) > crate::poll::quantile::HIST_WINDOW,
    ensures
        frame_intervals(w.drop_first(), now) == frame_intervals(w, now),
    decreases w.len(),
{
    if w.len() == 1 {
        assert(w.drop_last() =~= Seq::empty());
        assert(w.drop_first() =~= Seq::empty());
        assert(frame_intervals(w.drop_last(), now) =~= Seq::empty());
    } else {
        first_frame_is_old(w.drop_last(), now);
        assert(w.drop_last().drop_first() =~= w.drop_first().drop_last());
        assert(w.drop_first().last() == w.last());
    }
}

/// The observations that the window of a series holds up to an edge are as many as the
/// cumulative count of that edge grew in the scrapes of the last thirty seconds: a first
/// scrape and a reset bring none.
pub proof fn window_holds_the_growth<N: Ordered>(
    h: Seq<Scrape<N>>,
    base: Seq<char>,
    e: Seq<N>,
    now: u64,
    id: (Seq<char>, Seq<char>),
    i: int,
)
    requires
        feeds_one_ladder(h, base, e, now),
        id.0 == base,
        always_grows_upward(h, id),
        0 <= i < e.len(),
    ensures
        observed_upto(frame_intervals(known_of(fed(h), id).window, now), e, i) == growth_lately(
            h,
            id,
            i,
            now,
        ),
    decreases h.len(),
{
    place_misses(entry_ids(fed(h)), id);
    if h.len() == 0 {
        assert(entry_ids(fed(h)) =~= Seq::empty());
        assert(known_of(fed(h), id) == fresh_subject::<N>());
    } else {
        let d = h.drop_last();
        let (m, t) = h.last();
        let last = h.len() - 1;
        assert(h[last] == h.last());
        assert(h.take(last) =~= d);
        ladder_was_fed(h, base, e, now);
        assert forall|k: int| 0 <= k < d.len() implies (said_of((#[trigger] d[k]).0, id) matches Some(
            sc,
        ) ==> grows_upward(last_readings(d.take(k), id), by_edge(sc.buckets))) by {
            assert(d[k] == h[k]);
            assert(d.take(k) =~= h.take(k));
        }
        window_holds_the_growth(d, base, e, now, id, i);
        fed_is_sound(d, base, e, now);
        history_of_a_series(d, base, e, now, id);
        grouped_once(m);
        all_recorded_known(fed(d), grouped(m), t, id);
        let was = known_of(fed(d), id);
        let at = place(group_ids(grouped(m)), id);
        place_misses(group_ids(grouped(m)), id);
        if at >= 0 {
            assert(group_ids(grouped(m))[at] == grouped(m)[at].id);
            let sc = grouped(m)[at].said;
            let b = by_edge(sc.buckets);
            assert(edges_of(b) == e);
            assert(edges_of(b).len() == b.len());
            assert(said_of(m, id) == Some(sc));
            let st = staircase(was.buckets, b);
            new_observations_follow_growth(was.buckets, b, e, i);
            let w = if st.found.len() > 0 {
                was.window.push((t, st.found))
            } else {
                was.window
            };
            assert(known_of(fed(h), id) == recorded(was, sc, t));
            trimming_loses_nothing(w, t, now);
            if st.found.len() > 0 {
                assert(w.drop_last() =~= was.window);
                observed_joined(frame_intervals(was.window, now), st.found, e, i);
            } else {
                assert(observed_upto(st.found, e, i) == 0);
            }
        }
    }
}

/// What the series of a family hold up to an edge, added up.
pub open spec fn held_upto<N: Num>(s: Seq<EntryView<N>>, e: Seq<N>, i: int, now: u64) -> nat
    decreases s.len(),
{
    if s.len() == 0 {
        0
    } else {
        held_upto(s.drop_last(), e, i, now) + observed_upto(
            frame_intervals(s.last().sub.window, now),
            e,
            i,
        )
    }
}

/// The percentiles of a family are those of the observations of all its series.
pub proof fn series_add_up<N: Num>(s: Seq<EntryView<N>>, e: Seq<N>, i: int, now: u64)
    ensures
        observed_upto(all_intervals(s, now), e, i) == held_upto(s, e, i, now),
    decreases s.len(),
{
    if s.len() > 0 {
        series_add_up(s.drop_last(), e, i, now);
        observed_joined(
            all_intervals(s.drop_last(), now),
            frame_intervals(s.last().sub.window, now),
            e,
            i,
        );
    }
}

// ---- the mean ----

/// The last reading of the sum of a series.
pub open spec fn last_sum<N: Num>(h: Seq<Scrape<N>>, id: (Seq<char>, Seq<char>)) -> Option<N>
    decreases h.len(),
{
    if h.len() == 0 {
        None
    } else {
        match said_of(h.last().0, id) {
            Some(sc) => if sc.sum is Some {
                sc.sum
            } else {
                last_sum(h.drop_last(), id)
            },
            None => last_sum(h.drop_last(), id),
        }
    }
}

/// The last reading of the count of a series.
pub open spec fn last_count<N: Num>(h: Seq<Scrape<N>>, id: (Seq<char>, Seq<char>)) -> Option<N>
    decreases h.len(),
{
    if h.len() == 0 {
        None
    } else {
        match said_of(h.last().0, id) {
            Some(sc) => if sc.count is Some {
                sc.count
            } else {
                last_count(h.drop_last(), id)
            },
            None => last_count(h.drop_last(), id),
        }
    }
}

/// By how much a count grew from one reading to the next, where both are known.
pub open spec fn rise<N: Num>(from: Option<N>, to: Option<N>) -> nat {
    match (from, to) {
        (Some(a), Some(b)) => if b.to_count_spec() > a.to_count_spec() {
            (b.to_count_spec() - a.to_count_spec()) as nat
        } else {
            0
        },
        _ => 0,
    }
}

/// Whether the last scrape counts new observations of the series, and says their sum.
pub open spec fn counts_more<N: Num>(h: Seq<Scrape<N>>, id: (Seq<char>, Seq<char>)) -> bool {
    said_of(h.last().0, id) matches Some(sc) && sc.sum is Some && last_sum(h.drop_last(), id) is Some
        && rise(last_count(h.drop_last(), id), sc.count) > 0
}

/// The new observations of a series in the scrapes of the last thirty seconds, and their sum.
pub open spec fn added_lately<N: Num>(
    h: Seq<Scrape<N>>,
    id: (Seq<char>, Seq<char>),
    now: u64,
) -> (nat, nat)
    decreases h.len(),
{
    if h.len() == 0 {
        (0, 0)
    } else {
        let before = added_lately(h.drop_last(), id, now);
        if now - h.last().1 <= 30_000_000_000 && counts_more(h, id) {
            let sc = said_of(h.last().0, id)->0;
            (
                before.0 + rise(last_count(h.drop_last(), id), sc.count),
                before.1 + rise(last_sum(h.drop_last(), id), sc.sum),
            )
        } else {
            before
        }
    }
}

/// Whether every scrape reads whole sums and counts for the series.
pub open spec fn reads_whole_sums<N: Num>(h: Seq<Scrape<N>>, id: (Seq<char>, Seq<char>)) -> bool {
    forall|k: int|
        0 <= k < h.len() ==> (said_of((#[trigger] h[k]).0, id) matches Some(sc) ==> {
            &&& sc.sum matches Some(v) ==> is_whole(v)
            &&& sc.count matches Some(v) ==> is_whole(v)
        })
}

/// What growths come to, as counts: the new observations and their sum.
pub open spec fn growths_come_to<N: Num>(g: Seq<(N, N)>) -> (nat, nat)
    decreases g.len(),
{
    if g.len() == 0 {
        (0, 0)
    } else {
        let before = growths_come_to(g.drop_last());
        (
            before.0 + g.last().1.to_count_spec() as nat,
            before.1 + g.last().0.to_count_spec() as nat,
        )
    }
}

/// Whether all growths are whole.
pub open spec fn growths_are_whole<N: Num>(g: Seq<(N, N)>) -> bool {
    forall|i: int| 0 <= i < g.len() ==> is_whole((#[trigger] g[i]).0) && is_whole(g[i].1)
}

proof fn growths_trimmed<N: Num>(w: Seq<(u64, (N, N))>, t: u64, now: u64)
    requires
        t <= now,
    ensures
        growths(in_window(w, t), now) == growths(w, now),
    decreases w.len(),
{
    if w.len() > 0 && elapsed(t, w[0].0) > crate::poll::quantile::HIST_WINDOW {
        growths_trimmed(w.drop_first(), t, now);
        first_growth_is_old(w, now);
    }
}

proof fn first_growth_is_old<N: Num>(w: Seq<(u64, (N, N))>, now: u64)
    requires
        w.len() > 0,
        elapsed(now, w[0].0) > crate::poll::quantile::HIST_WINDOW,
    ensures
        growths(w.drop_first(), now) == growths(w, now),
    decreases w.len(),
{
    if w.len() == 1 {
        assert(w.drop_last() =~= Seq::empty());
        assert(w.drop_first() =~= Seq::empty());
        assert(growths(w.drop_last(), now) =~= Seq::empty());
    } else {
        first_growth_is_old(w.drop_last(), now);
        assert(w.drop_last().drop_first() =~= w.drop_first().drop_last());
        assert(w.drop_first().last() == w.last());
    }
}

/// The window of a series holds the growth of its sum and its count in the scrapes of the
/// last thirty seconds: a first scrape and a reset bring none.
pub proof fn window_holds_the_sums<N: Ordered>(
    h: Seq<Scrape<N>>,
    base: Seq<char>,
    e: Seq<N>,
    now: u64,
    id: (Seq<char>, Seq<char>),
)
    requires
        feeds_one_ladder(h, base, e, now),
        id.0 == base,
        reads_whole_sums(h, id),
    ensures
        ({
            let g = growths(known_of(fed(h), id).sums, now);
            &&& growths_come_to(g) == added_lately(h, id, now)
            &&& growths_are_whole(g)
            &&& known_of(fed(h), id).sum == last_sum(h, id)
            &&& known_of(fed(h), id).count == last_count(h, id)
            &&& last_sum(h, id) matches Some(v) ==> is_whole(v)
            &&& last_count(h, id) matches Some(v) ==> is_whole(v)
        }),
    decreases h.len(),
{
    place_misses(entry_ids(fed(h)), id);
    if h.len() == 0 {
        assert(entry_ids(fed(h)) =~= Seq::empty());
        assert(known_of(fed(h), id) == fresh_subject::<N>());
    } else {
        let d = h.drop_last();
        let (m, t) = h.last();
        let last = h.len() - 1;
        assert(h[last] == h.last());
        ladder_was_fed(h, base, e, now);
        assert forall|k: int| 0 <= k < d.len() implies (said_of((#[trigger] d[k]).0, id) matches Some(
            sc,
        ) ==> {
            &&& sc.sum matches Some(v) ==> is_whole(v)
            &&& sc.count matches Some(v) ==> is_whole(v)
        }) by {
            assert(d[k] == h[k]);
        }
        window_holds_the_sums(d, base, e, now, id);
        fed_is_sound(d, base, e, now);
        grouped_once(m);
        all_recorded_known(fed(d), grouped(m), t, id);
        let was = known_of(fed(d), id);
        let at = place(group_ids(grouped(m)), id);
        place_misses(group_ids(grouped(m)), id);
        if at >= 0 {
            let sc = grouped(m)[at].said;
            assert(said_of(m, id) == Some(sc));
            assert(known_of(fed(h), id) == recorded(was, sc, t));
            sums_grow(was, sc, t, now);
        }
    }
}

proof fn sums_grow<N: Ordered>(was: SubjectView<N>, sc: ScrapedView<N>, t: u64, now: u64)
    requires
        t <= now,
        was.sum matches Some(v) ==> is_whole(v),
        was.count matches Some(v) ==> is_whole(v),
        sc.sum matches Some(v) ==> is_whole(v),
        sc.count matches Some(v) ==> is_whole(v),
        growths_are_whole(growths(was.sums, now)),
    ensures
        ({
            let g = growths(recorded(was, sc, t).sums, now);
            let before = growths_come_to(growths(was.sums, now));
            &&& growths_are_whole(g)
            &&& growths_come_to(g) == if now - t <= 30_000_000_000 && sc.sum is Some && was.sum is Some
                && rise(was.count, sc.count) > 0 {
                (before.0 + rise(was.count, sc.count), before.1 + rise(was.sum, sc.sum))
            } else {
                before
            }
        }),
{
    N::counts_are_numbers(0);
    N::nan_spreads(N::zero_spec(), N::zero_spec());
    crate::poll::percentiles::at_most_itself(N::zero_spec());
    match sum_growth(was, sc) {
        Some(g) => {
            let w = was.sums.push((t, g));
            growths_trimmed(w, t, now);
            assert(w.drop_last() =~= was.sums);
            floored_growth(sc.sum->0, was.sum->0);
            floored_growth(sc.count->0, was.count->0);
            let (x, y) = (rise(was.sum, sc.sum) as u64, rise(was.count, sc.count) as u64);
            N::counts_are_numbers(x);
            N::counts_are_numbers(y);
            assert(g == (N::of_count_spec(x), N::of_count_spec(y)));
            let old = growths(was.sums, now);
            if elapsed(now, t) <= crate::poll::quantile::HIST_WINDOW {
                let all = old.push(g);
                assert(growths(w, now) == all);
                assert(all.drop_last() =~= old);
                assert forall|i: int| 0 <= i < all.len() implies is_whole((#[trigger] all[i]).0)
                    && is_whole(all[i].1) by {
                    if i < old.len() {
                        assert(all[i] == old[i]);
                    }
                }
            }
        },
        None => {
            growths_trimmed(was.sums, t, now);
            if sc.sum is Some && was.sum is Some && rise(was.count, sc.count) > 0 {
                floored_growth(sc.count->0, was.count->0);
                N::counts_are_numbers(rise(was.count, sc.count) as u64);
            }
        },
    }
}

proof fn whole_totals<N: Ordered>(g: Seq<(N, N)>)
    requires
        growths_are_whole(g),
        growths_come_to(g).0 <= MOST_WHOLE,
        growths_come_to(g).1 <= MOST_WHOLE,
    ensures
        grown_count(g) == N::of_count_spec(growths_come_to(g).0 as u64),
        grown_sum(g) == N::of_count_spec(growths_come_to(g).1 as u64),
    decreases g.len(),
{
    let a = g.map_values(|p: (N, N)| p.1);
    let b = g.map_values(|p: (N, N)| p.0);
    N::counts_are_numbers(0);
    if g.len() == 0 {
        assert(a =~= Seq::empty());
        assert(b =~= Seq::empty());
    } else {
        let d = g.drop_last();
        assert forall|i: int| 0 <= i < d.len() implies is_whole((#[trigger] d[i]).0) && is_whole(
            d[i].1,
        ) by {
            assert(d[i] == g[i]);
        }
        whole_totals(d);
        assert(a.drop_last() =~= d.map_values(|p: (N, N)| p.1));
        assert(b.drop_last() =~= d.map_values(|p: (N, N)| p.0));
        assert(is_whole(g[g.len() - 1].0) && is_whole(g[g.len() - 1].1));
        let before = growths_come_to(d);
        N::counts_add_up(before.0 as u64, g.last().1.to_count_spec());
        N::counts_add_up(before.1 as u64, g.last().0.to_count_spec());
    }
}

/// The mean of a family is the sum of the new observations in the window over their number;
/// there is none without new observations.
pub proof fn mean_is_sum_over_count<N: Ordered>(s: Seq<EntryView<N>>, base: Seq<char>, now: u64)
    requires
        growths_are_whole(all_growths(family_of(s, base), now)),
        growths_come_to(all_growths(family_of(s, base), now)).0 <= MOST_WHOLE,
        growths_come_to(all_growths(family_of(s, base), now)).1 <= MOST_WHOLE,
    ensures
        ({
            let (n, sum) = growths_come_to(all_growths(family_of(s, base), now));
            let mean = N::of_count_spec(sum as u64).over_spec(N::of_count_spec(n as u64));
            &&& latency_of(s, base, now) matches Some(p) ==> p.mean == if n > 0 {
                Some(mean)
            } else {
                None
            }
            &&& windowed_mean_of(s, base, now) == if n > 0 {
                Some(mean)
            } else {
                None
            }
        }),
{
    let g = all_growths(family_of(s, base), now);
    whole_totals(g);
    let (n, sum) = growths_come_to(g);
    N::counts_are_numbers(0);
    N::counts_are_numbers(n as u64);
    N::counts_are_numbers(sum as u64);
    N::nan_spreads(N::zero_spec(), N::zero_spec());
    crate::poll::percentiles::at_most_itself(N::zero_spec());
}

}
