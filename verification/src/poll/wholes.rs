//! Observations are counted in whole numbers, so that their sums are exact.
use crate::num::{at_most, floored_spec, total, Num, Ordered, MOST_WHOLE};
use crate::poll::percentiles::{climbed, comes_to};
use crate::poll::quantile::{all_intervals, all_recorded, bounds_below, bucket_growth, by_edge,
    by_upper, entry_ids, entry_recorded, family_of, frame_intervals, fresh_subject, in_window,
    in_window_is_a_tail, mass, merged, merged_with, place, place_misses, recorded, staircase,
    with_bucket, with_entry_members, with_upper, EntryView, GroupView, Interval, ScrapedView, SubjectView};
use vstd::prelude::*;

verus! {

// ---- whole values ----

/// Whether a value is a count that has a value of its own.
pub open spec fn is_whole<N: Num>(v: N) -> bool {
    v.to_count_spec() <= MOST_WHOLE && v == N::of_count_spec(v.to_count_spec())
}

/// Every interval holds a whole number of observations.
pub open spec fn are_whole<N: Num>(s: Seq<Interval<N>>) -> bool {
    forall|i: int| 0 <= i < s.len() ==> is_whole((#[trigger] s[i]).count)
}

/// The observations in all of `s`.
pub open spec fn tally<N: Num>(s: Seq<Interval<N>>) -> nat
    decreases s.len(),
{
    if s.len() == 0 {
        0
    } else {
        tally(s.drop_last()) + s.last().count.to_count_spec() as nat
    }
}

pub(crate) proof fn count_is_whole<N: Ordered>(n: u64)
    requires
        n <= MOST_WHOLE,
    ensures
        is_whole(N::of_count_spec(n)),
        N::of_count_spec(n).to_count_spec() == n,
{
    N::counts_are_numbers(n);
}

/// The growth from one whole number to another is whole; nought where there is none.
proof fn growth_is_whole<N: Ordered>(a: N, b: N)
    requires
        is_whole(a),
        is_whole(b),
    ensures
        is_whole(floored_spec(a.minus_spec(b))),
{
    let (x, y) = (a.to_count_spec(), b.to_count_spec());
    count_is_whole::<N>(0);
    N::counts_are_numbers(x);
    N::counts_are_numbers(y);
    if y <= x {
        N::counts_add_up((x - y) as u64, y);
        count_is_whole::<N>((x - y) as u64);
    } else {
        // a + d is b, so that a - b is not above b - b, which is nought.
        let d = (y - x) as u64;
        N::counts_add_up(x, d);
        N::counts_are_numbers(d);
        N::finite_results(a, N::of_count_spec(d));
        N::finite_results(a, b);
        N::finite_results(b, b);
        N::nan_spreads(a, b);
        N::nan_spreads(b, b);
        N::signs_stay(a, N::of_count_spec(d));
        N::results_ascend(a, b, b);
        N::counts_add_up(0, y);
    }
}

// ---- what is recorded ----

/// The last readings of a series and its intervals are whole.
pub open spec fn series_is_whole<N: Num>(s: SubjectView<N>) -> bool {
    &&& forall|k: N| #[trigger] s.buckets.contains_key(k) ==> is_whole(s.buckets[k])
    &&& forall|i: int| 0 <= i < s.window.len() ==> are_whole((#[trigger] s.window[i]).1)
}

/// Every series of a family is whole.
pub open spec fn family_is_whole<N: Num>(s: Seq<EntryView<N>>, base: Seq<char>) -> bool {
    forall|i: int| 0 <= i < s.len() && (#[trigger] s[i]).id.0 == base ==> series_is_whole(s[i].sub)
}

/// The readings of buckets are whole.
pub open spec fn read_whole_buckets<N: Num>(b: Seq<(N, N)>) -> bool {
    forall|i: int| 0 <= i < b.len() ==> is_whole((#[trigger] b[i]).1)
}

/// A scrape reads whole numbers for every series of a family.
pub open spec fn family_reads_whole<N: Num>(gs: Seq<GroupView<N>>, base: Seq<char>) -> bool {
    forall|i: int|
        0 <= i < gs.len() && (#[trigger] gs[i]).id.0 == base ==> read_whole_buckets(
            gs[i].said.buckets,
        )
}

proof fn with_bucket_is_whole<N: Num>(s: Seq<(N, N)>, b: (N, N))
    requires
        read_whole_buckets(s),
        is_whole(b.1),
    ensures
        read_whole_buckets(with_bucket(s, b)),
    decreases s.len(),
{
    if s.len() > 0 && b.0.less_spec(s.last().0) {
        let d = s.drop_last();
        assert forall|i: int| 0 <= i < d.len() implies is_whole((#[trigger] d[i]).1) by {
            assert(d[i] == s[i]);
        }
        with_bucket_is_whole(d, b);
        let v = with_bucket(d, b);
        let w = with_bucket(s, b);
        assert(is_whole(s[s.len() - 1].1));
        assert forall|i: int| 0 <= i < w.len() implies is_whole((#[trigger] w[i]).1) by {
            if i < v.len() {
                assert(w[i] == v[i]);
            }
        }
    }
}

pub(crate) proof fn by_edge_is_whole<N: Num>(s: Seq<(N, N)>)
    requires
        read_whole_buckets(s),
    ensures
        read_whole_buckets(by_edge(s)),
    decreases s.len(),
{
    if s.len() > 0 {
        let d = s.drop_last();
        assert forall|i: int| 0 <= i < d.len() implies is_whole((#[trigger] d[i]).1) by {
            assert(d[i] == s[i]);
        }
        by_edge_is_whole(d);
        assert(is_whole(s[s.len() - 1].1));
        with_bucket_is_whole(by_edge(d), s.last());
    }
}

pub(crate) proof fn staircase_is_whole<N: Ordered>(seen: Map<N, N>, b: Seq<(N, N)>)
    requires
        forall|k: N| #[trigger] seen.contains_key(k) ==> is_whole(seen[k]),
        read_whole_buckets(b),
    ensures
        forall|k: N| #[trigger]
            staircase(seen, b).buckets.contains_key(k) ==> is_whole(staircase(seen, b).buckets[k]),
        is_whole(staircase(seen, b).grown),
        are_whole(staircase(seen, b).found),
    decreases b.len(),
{
    N::counts_are_numbers(0);
    count_is_whole::<N>(0);
    if b.len() > 0 {
        let d = b.drop_last();
        assert forall|i: int| 0 <= i < d.len() implies is_whole((#[trigger] d[i]).1) by {
            assert(d[i] == b[i]);
        }
        staircase_is_whole(seen, d);
        let st = staircase(seen, d);
        let last = b[b.len() - 1];
        if st.buckets.contains_key(last.0) {
            growth_is_whole(last.1, st.buckets[last.0]);
        }
        let grown = bucket_growth(st.buckets, last);
        growth_is_whole(grown, st.grown);
        let w = staircase(seen, b).found;
        assert forall|i: int| 0 <= i < w.len() implies is_whole((#[trigger] w[i]).count) by {
            if i < st.found.len() {
                assert(w[i] == st.found[i]);
            }
        }
    }
}

proof fn recorded_is_whole<N: Ordered>(s: SubjectView<N>, sc: ScrapedView<N>, now: u64)
    requires
        series_is_whole(s),
        read_whole_buckets(sc.buckets),
    ensures
        series_is_whole(recorded(s, sc, now)),
{
    let b = by_edge(sc.buckets);
    by_edge_is_whole(sc.buckets);
    staircase_is_whole(s.buckets, b);
    let st = staircase(s.buckets, b);
    let w = if st.found.len() > 0 {
        s.window.push((now, st.found))
    } else {
        s.window
    };
    in_window_is_a_tail(w, now);
    let r = in_window(w, now);
    assert forall|i: int| 0 <= i < r.len() implies are_whole((#[trigger] r[i]).1) by {
        let k = w.len() - r.len() + i;
        assert(r[i] == w[k]);
        if k < s.window.len() {
            assert(w[k] == s.window[k]);
        }
    }
}

proof fn entry_recorded_is_whole<N: Ordered>(
    s: Seq<EntryView<N>>,
    g: GroupView<N>,
    now: u64,
    base: Seq<char>,
)
    requires
        family_is_whole(s, base),
        g.id.0 == base ==> read_whole_buckets(g.said.buckets),
    ensures
        family_is_whole(entry_recorded(s, g, now), base),
{
    let at = place(entry_ids(s), g.id);
    let r = entry_recorded(s, g, now);
    place_misses(entry_ids(s), g.id);
    if at < 0 {
        let x = EntryView { id: g.id, sub: recorded(fresh_subject(), g.said, now) };
        if g.id.0 == base {
            recorded_is_whole(fresh_subject(), g.said, now);
        }
        assert forall|i: int| 0 <= i < r.len() && (#[trigger] r[i]).id.0 == base implies
            series_is_whole(r[i].sub) by {
            with_entry_members(s, x, i);
        }
    } else {
        assert(entry_ids(s)[at] == s[at].id);
        if g.id.0 == base {
            recorded_is_whole(s[at].sub, g.said, now);
        }
        assert forall|i: int| 0 <= i < r.len() && (#[trigger] r[i]).id.0 == base implies
            series_is_whole(r[i].sub) by {
            if i != at {
                assert(r[i] == s[i]);
            }
        }
    }
}

/// As long as every scrape reads whole numbers for a family, its series are whole.
pub proof fn recording_keeps_wholes<N: Ordered>(
    s: Seq<EntryView<N>>,
    gs: Seq<GroupView<N>>,
    now: u64,
    base: Seq<char>,
)
    requires
        family_is_whole(s, base),
        family_reads_whole(gs, base),
    ensures
        family_is_whole(all_recorded(s, gs, now), base),
    decreases gs.len(),
{
    if gs.len() > 0 {
        let d = gs.drop_last();
        assert forall|i: int| 0 <= i < d.len() && (#[trigger] d[i]).id.0 == base implies
            read_whole_buckets(d[i].said.buckets) by {
            assert(d[i] == gs[i]);
        }
        recording_keeps_wholes(s, d, now, base);
        assert(gs[gs.len() - 1] == gs.last());
        entry_recorded_is_whole(all_recorded(s, d, now), gs.last(), now, base);
    }
}

// ---- the window ----

proof fn frame_intervals_are_whole<N: Num>(frames: Seq<(u64, Seq<Interval<N>>)>, now: u64)
    requires
        forall|i: int| 0 <= i < frames.len() ==> are_whole((#[trigger] frames[i]).1),
    ensures
        are_whole(frame_intervals(frames, now)),
    decreases frames.len(),
{
    if frames.len() > 0 {
        let d = frames.drop_last();
        assert forall|i: int| 0 <= i < d.len() implies are_whole((#[trigger] d[i]).1) by {
            assert(d[i] == frames[i]);
        }
        frame_intervals_are_whole(d, now);
        assert(are_whole(frames[frames.len() - 1].1));
    }
}

proof fn intervals_are_whole<N: Num>(s: Seq<EntryView<N>>, now: u64)
    requires
        forall|i: int| 0 <= i < s.len() ==> series_is_whole((#[trigger] s[i]).sub),
    ensures
        are_whole(all_intervals(s, now)),
    decreases s.len(),
{
    if s.len() > 0 {
        let d = s.drop_last();
        assert forall|i: int| 0 <= i < d.len() implies series_is_whole((#[trigger] d[i]).sub) by {
            assert(d[i] == s[i]);
        }
        intervals_are_whole(d, now);
        assert(series_is_whole(s[s.len() - 1].sub));
        frame_intervals_are_whole(s.last().sub.window, now);
    }
}

proof fn selected_are_whole<N: Num>(
    s: Seq<EntryView<N>>,
    p: spec_fn(EntryView<N>) -> bool,
    base: Seq<char>,
)
    requires
        family_is_whole(s, base),
        forall|x: EntryView<N>| #[trigger] p(x) ==> x.id.0 == base,
    ensures
        forall|i: int| 0 <= i < s.filter(p).len() ==> series_is_whole(
            (#[trigger] s.filter(p)[i]).sub,
        ),
    decreases s.len(),
{
    reveal(Seq::filter);
    if s.len() > 0 {
        let d = s.drop_last();
        assert forall|i: int| 0 <= i < d.len() && (#[trigger] d[i]).id.0 == base implies
            series_is_whole(d[i].sub) by {
            assert(d[i] == s[i]);
        }
        selected_are_whole(d, p, base);
        assert(s[s.len() - 1] == s.last());
    }
}

/// The intervals of a whole family hold whole numbers of observations.
pub(crate) proof fn whole_intervals<N: Num>(s: Seq<EntryView<N>>, base: Seq<char>, now: u64)
    requires
        family_is_whole(s, base),
    ensures
        are_whole(all_intervals(family_of(s, base), now)),
{
    assert forall|p: spec_fn(EntryView<N>) -> bool|
        #![trigger s.filter(p)]
        (forall|x: EntryView<N>| #[trigger] p(x) ==> x.id.0 == base) implies (forall|i: int|
        0 <= i < s.filter(p).len() ==> series_is_whole((#[trigger] s.filter(p)[i]).sub)) by {
        selected_are_whole(s, p, base);
    }
    intervals_are_whole(family_of(s, base), now);
}

// ---- sums ----

proof fn tally_of_more<N: Num>(s: Seq<Interval<N>>, x: Interval<N>)
    ensures
        tally(s.push(x)) == tally(s) + x.count.to_count_spec(),
{
    assert(s.push(x).drop_last() =~= s);
}

pub(crate) proof fn tally_from_the_front<N: Num>(s: Seq<Interval<N>>)
    requires
        s.len() > 0,
    ensures
        tally(s) == s[0].count.to_count_spec() + tally(s.drop_first()),
    decreases s.len(),
{
    let f = s.drop_first();
    if s.len() == 1 {
        assert(s.drop_last() =~= Seq::empty());
        assert(f =~= Seq::empty());
        assert(tally(s.drop_last()) == 0);
        assert(tally(f) == 0);
    } else {
        let d = s.drop_last();
        tally_from_the_front(d);
        assert(d.drop_first() =~= f.drop_last());
        assert(f.last() == s.last());
    }
}

/// The mass is the tally.
proof fn mass_is_whole<N: Ordered>(s: Seq<Interval<N>>)
    requires
        are_whole(s),
        tally(s) <= MOST_WHOLE,
    ensures
        mass(s) == N::of_count_spec(tally(s) as u64),
    decreases s.len(),
{
    let counts = s.map_values(|iv: Interval<N>| iv.count);
    N::counts_are_numbers(0);
    if s.len() == 0 {
        assert(counts =~= Seq::empty());
        assert(total(counts) == N::zero_spec());
    } else {
        let d = s.drop_last();
        assert forall|i: int| 0 <= i < d.len() implies is_whole((#[trigger] d[i]).count) by {
            assert(d[i] == s[i]);
        }
        mass_is_whole(d);
        assert(counts.drop_last() =~= d.map_values(|iv: Interval<N>| iv.count));
        let n = s[s.len() - 1].count.to_count_spec();
        assert(is_whole(s[s.len() - 1].count));
        N::counts_add_up(tally(d) as u64, n);
        assert(counts.last() == s.last().count);
    }
}

/// Added up from the front the observations come to the tally as well.
proof fn climbed_is_whole<N: Ordered>(s: Seq<Interval<N>>, c: u64)
    requires
        are_whole(s),
        c + tally(s) <= MOST_WHOLE,
    ensures
        climbed(s, N::of_count_spec(c)) == N::of_count_spec((c + tally(s)) as u64),
    decreases s.len(),
{
    if s.len() > 0 {
        let d = s.drop_first();
        assert forall|i: int| 0 <= i < d.len() implies is_whole((#[trigger] d[i]).count) by {
            assert(d[i] == s[i + 1]);
        }
        tally_from_the_front(s);
        let n = s[0].count.to_count_spec();
        assert(is_whole(s[0].count));
        N::counts_add_up(c, n);
        climbed_is_whole(d, (c + n) as u64);
    }
}

proof fn merged_with_is_whole<N: Ordered>(s: Seq<Interval<N>>, iv: Interval<N>)
    requires
        are_whole(s),
        is_whole(iv.count),
        tally(s) + iv.count.to_count_spec() <= MOST_WHOLE,
    ensures
        are_whole(merged_with(s, iv)),
        tally(merged_with(s, iv)) == tally(s) + iv.count.to_count_spec(),
    decreases s.len(),
{
    let n = iv.count.to_count_spec();
    let r = merged_with(s, iv);
    N::counts_are_numbers(0);
    N::counts_add_up(0, n);
    let fresh = Interval { count: N::zero_spec().plus_spec(iv.count), ..iv };
    assert(fresh.count == iv.count);
    if s.len() == 0 {
        assert(r == seq![fresh]);
        assert(seq![fresh] =~= s.push(fresh));
        tally_of_more(s, fresh);
    } else {
        let d = s.drop_last();
        let last = s[s.len() - 1];
        assert(is_whole(last.count));
        assert forall|i: int| 0 <= i < d.len() implies is_whole((#[trigger] d[i]).count) by {
            assert(d[i] == s[i]);
        }
        if last.lower == iv.lower && last.upper == iv.upper {
            let x = Interval { count: last.count.plus_spec(iv.count), ..iv };
            let m = last.count.to_count_spec();
            N::counts_add_up(m, n);
            count_is_whole::<N>((m + n) as u64);
            assert(r == d.push(x));
            tally_of_more(d, x);
            assert forall|i: int| 0 <= i < r.len() implies is_whole((#[trigger] r[i]).count) by {
                if i < d.len() {
                    assert(r[i] == d[i]);
                }
            }
        } else if bounds_below(iv, last) {
            merged_with_is_whole(d, iv);
            let v = merged_with(d, iv);
            assert(r == v.push(last));
            tally_of_more(v, last);
            assert forall|i: int| 0 <= i < r.len() implies is_whole((#[trigger] r[i]).count) by {
                if i < v.len() {
                    assert(r[i] == v[i]);
                }
            }
        } else {
            assert(r == s.push(fresh));
            tally_of_more(s, fresh);
            assert forall|i: int| 0 <= i < r.len() implies is_whole((#[trigger] r[i]).count) by {
                if i < s.len() {
                    assert(r[i] == s[i]);
                }
            }
        }
    }
}

/// Merging neither adds nor loses an observation.
pub proof fn merging_keeps_observations<N: Ordered>(s: Seq<Interval<N>>)
    requires
        are_whole(s),
        tally(s) <= MOST_WHOLE,
    ensures
        are_whole(merged(s)),
        tally(merged(s)) == tally(s),
    decreases s.len(),
{
    if s.len() > 0 {
        let d = s.drop_last();
        assert forall|i: int| 0 <= i < d.len() implies is_whole((#[trigger] d[i]).count) by {
            assert(d[i] == s[i]);
        }
        merging_keeps_observations(d);
        assert(is_whole(s[s.len() - 1].count));
        merged_with_is_whole(merged(d), s.last());
    }
}

proof fn with_upper_is_whole<N: Num>(s: Seq<Interval<N>>, iv: Interval<N>)
    requires
        are_whole(s),
        is_whole(iv.count),
    ensures
        are_whole(with_upper(s, iv)),
        tally(with_upper(s, iv)) == tally(s) + iv.count.to_count_spec(),
    decreases s.len(),
{
    let r = with_upper(s, iv);
    if s.len() > 0 && iv.upper.below_spec(s.last().upper) {
        let d = s.drop_last();
        let last = s[s.len() - 1];
        assert forall|i: int| 0 <= i < d.len() implies is_whole((#[trigger] d[i]).count) by {
            assert(d[i] == s[i]);
        }
        with_upper_is_whole(d, iv);
        let v = with_upper(d, iv);
        assert(r == v.push(last));
        tally_of_more(v, last);
        assert forall|i: int| 0 <= i < r.len() implies is_whole((#[trigger] r[i]).count) by {
            if i < v.len() {
                assert(r[i] == v[i]);
            }
        }
    } else {
        assert(r == s.push(iv));
        tally_of_more(s, iv);
        assert forall|i: int| 0 <= i < r.len() implies is_whole((#[trigger] r[i]).count) by {
            if i < s.len() {
                assert(r[i] == s[i]);
            }
        }
    }
}

pub(crate) proof fn by_upper_is_whole<N: Num>(s: Seq<Interval<N>>)
    requires
        are_whole(s),
    ensures
        are_whole(by_upper(s)),
        tally(by_upper(s)) == tally(s),
    decreases s.len(),
{
    if s.len() > 0 {
        let d = s.drop_last();
        assert forall|i: int| 0 <= i < d.len() implies is_whole((#[trigger] d[i]).count) by {
            assert(d[i] == s[i]);
        }
        by_upper_is_whole(d);
        assert(is_whole(s[s.len() - 1].count));
        with_upper_is_whole(by_upper(d), s.last());
    }
}

/// A share of at most one of whole observations is reached, and lies between nought and
/// their number.
pub(crate) proof fn share_is_reached<N: Ordered>(s: Seq<Interval<N>>, q: N)
    requires
        are_whole(s),
        tally(s) <= MOST_WHOLE,
        at_most(N::zero_spec(), q),
        at_most(q, N::of_count_spec(1)),
        q.is_finite_spec(),
    ensures
        comes_to(s, q),
        mass(s) == N::of_count_spec(tally(s) as u64),
        q.times_spec(mass(s)).is_finite_spec(),
        at_most(N::zero_spec(), q.times_spec(mass(s))),
        at_most(q.times_spec(mass(s)), mass(s)),
{
    let m = mass(s);
    mass_is_whole(s);
    by_upper_is_whole(s);
    climbed_is_whole(by_upper(s), 0);
    N::counts_are_numbers(0);
    N::counts_are_numbers(tally(s) as u64);
    N::nan_spreads(q, m);
    N::one_is_neutral(m);
    N::nan_spreads(N::of_count_spec(1), m);
    N::nan_spreads(m, m);
    N::results_ascend(q, N::of_count_spec(1), m);
    N::signs_stay(q, m);
    N::between_is_finite(N::zero_spec(), q.times_spec(m), m);
}

}
