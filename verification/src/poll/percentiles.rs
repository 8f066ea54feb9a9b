//! Where percentiles lie.
use crate::num::{at_most, Num, Ordered};
use crate::poll::prom::SampleView;
use crate::poll::quantile::{all_intervals, all_recorded, by_edge, by_upper, entry_ids,
    entry_recorded, family_of, fraction, frame_intervals, fresh_subject, in_window,
    in_window_is_a_tail, latency_of, mass, merged, merged_with, place, place_misses, pruned,
    quantile, reached, recorded, staircase, with_entry_members, with_upper, EntryView, GroupView,
    Interval, ScrapedView, SubjectView};
use vstd::prelude::*;

verus! {

// ---- what is recorded ----

/// Every interval starts at a finite edge.
pub open spec fn start_finite<N: Num>(s: Seq<Interval<N>>) -> bool {
    forall|i: int| 0 <= i < s.len() ==> (#[trigger] s[i]).lower.is_finite_spec()
}

/// Every interval holds an observation.
pub open spec fn are_real<N: Num>(s: Seq<Interval<N>>) -> bool {
    forall|i: int| 0 <= i < s.len() ==> N::zero_spec().less_spec((#[trigger] s[i]).count)
}

/// Every interval starts at a finite edge and holds an observation.
pub open spec fn are_sound<N: Num>(s: Seq<Interval<N>>) -> bool {
    start_finite(s) && are_real(s)
}

/// Every interval of a series is sound.
pub open spec fn frames_are_sound<N: Num>(s: SubjectView<N>) -> bool {
    forall|i: int| 0 <= i < s.window.len() ==> are_sound((#[trigger] s.window[i]).1)
}

/// Every interval of every series starts at a finite edge and holds an observation.
pub open spec fn windows_are_sound<N: Num>(s: Seq<EntryView<N>>) -> bool {
    forall|i: int| 0 <= i < s.len() ==> frames_are_sound((#[trigger] s[i]).sub)
}

proof fn staircase_is_sound<N: Num>(seen: Map<N, N>, buckets: Seq<(N, N)>)
    ensures
        staircase(seen, buckets).edge.is_finite_spec(),
        are_sound(staircase(seen, buckets).found),
    decreases buckets.len(),
{
    N::named_values();
    if buckets.len() > 0 {
        staircase_is_sound(seen, buckets.drop_last());
    }
}

proof fn recorded_is_sound<N: Num>(s: SubjectView<N>, sc: ScrapedView<N>, now: u64)
    requires
        frames_are_sound(s),
    ensures
        frames_are_sound(recorded(s, sc, now)),
{
    let st = staircase(s.buckets, by_edge(sc.buckets));
    staircase_is_sound(s.buckets, by_edge(sc.buckets));
    let w = if st.found.len() > 0 {
        s.window.push((now, st.found))
    } else {
        s.window
    };
    in_window_is_a_tail(w, now);
    let r = in_window(w, now);
    assert forall|i: int| 0 <= i < r.len() implies are_sound((#[trigger] r[i]).1) by {
        let k = w.len() - r.len() + i;
        assert(r[i] == w[k]);
        if k < s.window.len() {
            assert(w[k] == s.window[k]);
        }
    }
}

proof fn entry_recorded_is_sound<N: Num>(s: Seq<EntryView<N>>, g: GroupView<N>, now: u64)
    requires
        windows_are_sound(s),
    ensures
        windows_are_sound(entry_recorded(s, g, now)),
{
    let at = place(entry_ids(s), g.id);
    let r = entry_recorded(s, g, now);
    if at < 0 {
        let e = EntryView { id: g.id, sub: recorded(fresh_subject(), g.said, now) };
        recorded_is_sound(fresh_subject(), g.said, now);
        assert forall|i: int| 0 <= i < r.len() implies frames_are_sound((#[trigger] r[i]).sub) by {
            with_entry_members(s, e, i);
        }
    } else {
        place_misses(entry_ids(s), g.id);
        recorded_is_sound(s[at].sub, g.said, now);
        assert forall|i: int| 0 <= i < r.len() implies frames_are_sound((#[trigger] r[i]).sub) by {
            if i != at {
                assert(r[i] == s[i]);
            }
        }
    }
}

/// However many scrapes are recorded, every interval starts at a finite edge and holds an
/// observation.
pub proof fn recording_keeps_windows_sound<N: Num>(
    s: Seq<EntryView<N>>,
    gs: Seq<GroupView<N>>,
    m: Seq<SampleView<N>>,
    now: u64,
)
    requires
        windows_are_sound(s),
    ensures
        windows_are_sound(all_recorded(s, gs, now)),
        windows_are_sound(pruned(all_recorded(s, gs, now), m)),
    decreases gs.len(),
{
    if gs.len() > 0 {
        recording_keeps_windows_sound(s, gs.drop_last(), m, now);
        entry_recorded_is_sound(all_recorded(s, gs.drop_last(), now), gs.last(), now);
    }
    selected_windows_are_sound(all_recorded(s, gs, now));
}

pub(crate) proof fn filtered_windows_are_sound<N: Num>(
    s: Seq<EntryView<N>>,
    p: spec_fn(EntryView<N>) -> bool,
)
    requires
        windows_are_sound(s),
    ensures
        windows_are_sound(s.filter(p)),
    decreases s.len(),
{
    reveal(Seq::filter);
    if s.len() > 0 {
        let d = s.drop_last();
        assert forall|i: int| 0 <= i < d.len() implies frames_are_sound((#[trigger] d[i]).sub) by {
            assert(d[i] == s[i]);
        }
        filtered_windows_are_sound(d, p);
        assert(frames_are_sound(s[s.len() - 1].sub));
    }
}

pub(crate) proof fn selected_windows_are_sound<N: Num>(s: Seq<EntryView<N>>)
    requires
        windows_are_sound(s),
    ensures
        forall|p: spec_fn(EntryView<N>) -> bool| windows_are_sound(#[trigger] s.filter(p)),
{
    assert forall|p: spec_fn(EntryView<N>) -> bool| windows_are_sound(#[trigger] s.filter(p)) by {
        filtered_windows_are_sound(s, p);
    }
}

pub(crate) proof fn intervals_are_sound<N: Num>(s: Seq<EntryView<N>>, now: u64)
    requires
        windows_are_sound(s),
    ensures
        are_sound(all_intervals(s, now)),
    decreases s.len(),
{
    if s.len() > 0 {
        let d = s.drop_last();
        assert forall|i: int| 0 <= i < d.len() implies frames_are_sound((#[trigger] d[i]).sub) by {
            assert(d[i] == s[i]);
        }
        intervals_are_sound(d, now);
        assert(frames_are_sound(s[s.len() - 1].sub));
        frame_intervals_are_sound(s.last().sub.window, now);
    }
}

proof fn frame_intervals_are_sound<N: Num>(frames: Seq<(u64, Seq<Interval<N>>)>, now: u64)
    requires
        forall|i: int| 0 <= i < frames.len() ==> are_sound((#[trigger] frames[i]).1),
    ensures
        are_sound(frame_intervals(frames, now)),
    decreases frames.len(),
{
    if frames.len() > 0 {
        let d = frames.drop_last();
        assert forall|i: int| 0 <= i < d.len() implies are_sound((#[trigger] d[i]).1) by {
            assert(d[i] == frames[i]);
        }
        frame_intervals_are_sound(d, now);
        assert(are_sound(frames[frames.len() - 1].1));
    }
}

proof fn merged_with_starts_finite<N: Num>(s: Seq<Interval<N>>, iv: Interval<N>)
    requires
        start_finite(s),
        iv.lower.is_finite_spec(),
    ensures
        start_finite(merged_with(s, iv)),
    decreases s.len(),
{
    if s.len() > 0 {
        merged_with_starts_finite(s.drop_last(), iv);
    }
}

pub(crate) proof fn merged_starts_finite<N: Num>(s: Seq<Interval<N>>)
    requires
        start_finite(s),
    ensures
        start_finite(merged(s)),
    decreases s.len(),
{
    if s.len() > 0 {
        merged_starts_finite(s.drop_last());
        merged_with_starts_finite(merged(s.drop_last()), s.last());
    }
}

// ---- the order of the intervals ----

/// No upper edge comes before that of an interval in front of it.
pub open spec fn uppers_ascend<N: Num>(s: Seq<Interval<N>>) -> bool {
    forall|i: int, j: int|
        0 <= i < j < s.len() ==> !(#[trigger] s[j]).upper.below_spec((#[trigger] s[i]).upper)
}

proof fn with_upper_ascends<N: Num>(s: Seq<Interval<N>>, iv: Interval<N>)
    requires
        uppers_ascend(s),
    ensures
        uppers_ascend(with_upper(s, iv)),
        forall|i: int|
            0 <= i < with_upper(s, iv).len() ==> (#[trigger] with_upper(s, iv)[i] == iv
                || s.contains(with_upper(s, iv)[i])),
    decreases s.len(),
{
    let w = with_upper(s, iv);
    if s.len() > 0 && iv.upper.below_spec(s.last().upper) {
        let d = s.drop_last();
        with_upper_ascends(d, iv);
        let v = with_upper(d, iv);
        assert forall|i: int| 0 <= i < v.len() implies v[i] == iv || exists|k: int|
            0 <= k < d.len() && d[k] == v[i] by {
            assert(v[i] == iv || d.contains(v[i]));
        }
        assert forall|i: int| 0 <= i < w.len() implies (#[trigger] w[i] == iv || s.contains(w[i])) by {
            if i < v.len() {
                assert(w[i] == v[i]);
                if v[i] != iv {
                    let k = choose|k: int| 0 <= k < d.len() && d[k] == v[i];
                    assert(s[k] == w[i]);
                }
            } else {
                assert(s[s.len() - 1] == w[i]);
            }
        }
        assert forall|i: int, j: int| 0 <= i < j < w.len() implies !(
        #[trigger] w[j]).upper.below_spec((#[trigger] w[i]).upper) by {
            assert(w[i] == v[i]);
            if j < v.len() {
                assert(w[j] == v[j]);
            } else if v[i] == iv {
                N::below_asymmetric(iv.upper, s.last().upper);
            } else {
                let k = choose|k: int| 0 <= k < d.len() && d[k] == v[i];
                assert(s[k] == v[i]);
                assert(!s[s.len() - 1].upper.below_spec(s[k].upper));
            }
        }
    } else {
        assert forall|i: int| 0 <= i < w.len() implies (#[trigger] w[i] == iv || s.contains(w[i])) by {
            if i < s.len() {
                assert(w[i] == s[i]);
            }
        }
        assert forall|i: int, j: int| 0 <= i < j < w.len() implies !(
        #[trigger] w[j]).upper.below_spec((#[trigger] w[i]).upper) by {
            assert(w[i] == s[i]);
            if j < s.len() {
                assert(w[j] == s[j]);
            } else {
                let last = s[s.len() - 1];
                if iv.upper.below_spec(s[i].upper) {
                    if i < s.len() - 1 {
                        assert(!last.upper.below_spec(s[i].upper));
                        N::below_total(last.upper, s[i].upper);
                        if s[i].upper.below_spec(last.upper) {
                            N::below_transitive(iv.upper, s[i].upper, last.upper);
                        }
                    }
                }
            }
        }
    }
}

/// The intervals are gone through by ascending upper edge, and are those of the window.
pub proof fn intervals_ascend<N: Num>(s: Seq<Interval<N>>)
    ensures
        uppers_ascend(by_upper(s)),
        forall|i: int| 0 <= i < by_upper(s).len() ==> s.contains(#[trigger] by_upper(s)[i]),
    decreases s.len(),
{
    if s.len() > 0 {
        let d = s.drop_last();
        intervals_ascend(d);
        with_upper_ascends(by_upper(d), s.last());
        let r = by_upper(s);
        assert forall|i: int| 0 <= i < r.len() implies s.contains(#[trigger] r[i]) by {
            if r[i] == s.last() {
                assert(s[s.len() - 1] == r[i]);
            } else {
                assert(by_upper(d).contains(r[i]));
                let k = choose|k: int| 0 <= k < by_upper(d).len() && by_upper(d)[k] == r[i];
                assert(d.contains(by_upper(d)[k]));
                let n = choose|n: int| 0 <= n < d.len() && d[n] == r[i];
                assert(s[n] == r[i]);
            }
        }
    }
}

// ---- the percentiles ----

/// Which interval of `s` holds the mass `target`, `cum` lying below; their number where
/// none does.
pub open spec fn holder<N: Num>(s: Seq<Interval<N>>, target: N, cum: N) -> nat
    decreases s.len(),
{
    if s.len() == 0 || !cum.plus_spec(s[0].count).less_spec(target) {
        0
    } else {
        1 + holder(s.drop_first(), target, cum.plus_spec(s[0].count))
    }
}

/// What an interval says of a percentile in it: a value on the way between its edges,
/// or its lower edge, which is finite, where it is open-ended.
pub open spec fn lies_in<N: Num>(v: N, iv: Interval<N>) -> bool {
    if iv.upper.is_finite_spec() {
        exists|way: N|
            v == iv.lower.plus_spec(#[trigger] iv.upper.minus_spec(iv.lower).times_spec(way))
    } else {
        v == iv.lower && v.is_finite_spec()
    }
}

proof fn reached_in_holder<N: Num>(s: Seq<Interval<N>>, target: N, cum: N)
    requires
        start_finite(s),
    ensures
        holder(s, target, cum) <= s.len(),
        match reached(s, target, cum) {
            Some(v) => holder(s, target, cum) < s.len() && lies_in(
                v,
                s[holder(s, target, cum) as int],
            ),
            None => holder(s, target, cum) == s.len(),
        },
    decreases s.len(),
{
    if s.len() > 0 {
        let upto = cum.plus_spec(s[0].count);
        let iv = s[0];
        if upto.less_spec(target) {
            let d = s.drop_first();
            assert forall|i: int| 0 <= i < d.len() implies (
            #[trigger] d[i]).lower.is_finite_spec() by {
                assert(d[i] == s[i + 1]);
            }
            reached_in_holder(d, target, upto);
        } else if iv.upper.is_finite_spec() {
            let frac = if N::zero_spec().less_spec(iv.count) {
                target.minus_spec(cum).over_spec(iv.count)
            } else {
                N::zero_spec()
            };
            let way = iv.upper.minus_spec(iv.lower).times_spec(frac);
            assert(reached(s, target, cum) == Some(iv.lower.plus_spec(way)));
        }
    }
}

/// A percentile lies in an interval of the window; one that falls beyond the last finite
/// edge is that edge, never an infinite one.
pub proof fn percentile_lies_in_the_window<N: Num>(
    s: Seq<EntryView<N>>,
    base: Seq<char>,
    now: u64,
    q: N,
)
    requires
        windows_are_sound(s),
    ensures
        ({
            let all = merged(all_intervals(family_of(s, base), now));
            quantile(all, q) matches Some(v) ==> exists|i: int|
                0 <= i < all.len() && lies_in(v, #[trigger] all[i])
        }),
{
    let own = family_of(s, base);
    let all = merged(all_intervals(own, now));
    selected_windows_are_sound(s);
    intervals_are_sound(own, now);
    merged_starts_finite(all_intervals(own, now));
    let r = by_upper(all);
    intervals_ascend(all);
    assert forall|i: int| 0 <= i < r.len() implies (#[trigger] r[i]).lower.is_finite_spec() by {
        assert(all.contains(r[i]));
    }
    let target = q.times_spec(mass(all));
    reached_in_holder(r, target, N::zero_spec());
    if let Some(v) = quantile(all, q) {
        let h = r[holder(r, target, N::zero_spec()) as int];
        assert(all.contains(h));
        let i = choose|i: int| 0 <= i < all.len() && all[i] == h;
        assert(lies_in(v, all[i]));
    }
}

/// A higher percentile never falls into a lower interval.
pub proof fn higher_percentiles_climb<N: Num>(s: Seq<Interval<N>>, low: N, high: N, cum: N)
    requires
        !high.is_nan_spec(),
        !high.less_spec(low),
    ensures
        holder(s, low, cum) <= holder(s, high, cum),
    decreases s.len(),
{
    if s.len() > 0 {
        let upto = cum.plus_spec(s[0].count);
        if upto.less_spec(low) {
            N::less_splits(upto, high, low);
            higher_percentiles_climb(s.drop_first(), low, high, upto);
        }
    }
}

// ---- when there are percentiles ----

proof fn merged_with_is_real<N: Ordered>(s: Seq<Interval<N>>, iv: Interval<N>)
    requires
        are_real(s),
        N::zero_spec().less_spec(iv.count),
    ensures
        are_real(merged_with(s, iv)),
        merged_with(s, iv).len() > 0,
    decreases s.len(),
{
    N::named_values();
    N::nan_spreads(N::zero_spec(), N::zero_spec());
    at_most_itself(N::zero_spec());
    N::signs_stay(N::zero_spec(), iv.count);
    if s.len() > 0 {
        let last = s[s.len() - 1];
        less_is_at_most(N::zero_spec(), last.count);
        N::signs_stay(last.count, iv.count);
        merged_with_is_real(s.drop_last(), iv);
    }
}

pub(crate) proof fn merged_is_real<N: Ordered>(s: Seq<Interval<N>>)
    requires
        are_real(s),
    ensures
        are_real(merged(s)),
        merged(s).len() > 0 <==> s.len() > 0,
    decreases s.len(),
{
    if s.len() > 0 {
        merged_is_real(s.drop_last());
        merged_with_is_real(merged(s.drop_last()), s.last());
    }
}

pub(crate) proof fn real_mass<N: Ordered>(s: Seq<Interval<N>>)
    requires
        are_real(s),
    ensures
        N::zero_spec().less_spec(mass(s)) <==> s.len() > 0,
    decreases s.len(),
{
    let counts = s.map_values(|iv: Interval<N>| iv.count);
    N::named_values();
    N::nan_spreads(N::zero_spec(), N::zero_spec());
    at_most_itself(N::zero_spec());
    if s.len() == 0 {
        assert(counts =~= Seq::empty());
    } else {
        let d = s.drop_last();
        real_mass(d);
        assert(counts.drop_last() =~= d.map_values(|iv: Interval<N>| iv.count));
        assert(N::zero_spec().less_spec(s[s.len() - 1].count));
        if d.len() == 0 {
            assert(counts.drop_last() =~= Seq::empty());
        } else {
            less_is_at_most(N::zero_spec(), mass(d));
        }
        N::signs_stay(mass(d), s.last().count);
    }
}

/// The observations in `s`, added up in order on top of `cum`.
pub open spec fn climbed<N: Num>(s: Seq<Interval<N>>, cum: N) -> N
    decreases s.len(),
{
    if s.len() == 0 {
        cum
    } else {
        climbed(s.drop_first(), cum.plus_spec(s[0].count))
    }
}

pub(crate) proof fn target_is_reached<N: Num>(s: Seq<Interval<N>>, target: N, cum: N)
    requires
        s.len() > 0,
        !climbed(s, cum).less_spec(target),
    ensures
        reached(s, target, cum) is Some,
    decreases s.len(),
{
    let upto = cum.plus_spec(s[0].count);
    let d = s.drop_first();
    if upto.less_spec(target) {
        if d.len() == 0 {
            assert(climbed(d, upto) == upto);
        } else {
            target_is_reached(d, target, upto);
        }
    }
}

proof fn with_upper_adds_one<N: Num>(s: Seq<Interval<N>>, iv: Interval<N>)
    ensures
        with_upper(s, iv).len() == s.len() + 1,
    decreases s.len(),
{
    if s.len() > 0 {
        with_upper_adds_one(s.drop_last(), iv);
    }
}

pub(crate) proof fn by_upper_keeps_len<N: Num>(s: Seq<Interval<N>>)
    ensures
        by_upper(s).len() == s.len(),
    decreases s.len(),
{
    if s.len() > 0 {
        by_upper_keeps_len(s.drop_last());
        with_upper_adds_one(by_upper(s.drop_last()), s.last());
    }
}

/// Whether the observations in `s`, added up by ascending edge, come to the share `q` of
/// their sum, as they do where sums are not rounded.
pub open spec fn comes_to<N: Num>(s: Seq<Interval<N>>, q: N) -> bool {
    !climbed(by_upper(s), N::zero_spec()).less_spec(q.times_spec(mass(s)))
}

/// A family has percentiles if and only if an observation of it lies inside the window.
pub proof fn observations_have_percentiles<N: Ordered>(
    s: Seq<EntryView<N>>,
    base: Seq<char>,
    now: u64,
)
    requires
        windows_are_sound(s),
        ({
            let all = merged(all_intervals(family_of(s, base), now));
            &&& comes_to(all, fraction(1, 2))
            &&& comes_to(all, fraction(9, 10))
            &&& comes_to(all, fraction(99, 100))
        }),
    ensures
        latency_of(s, base, now) is Some <==> all_intervals(family_of(s, base), now).len() > 0,
{
    let own = family_of(s, base);
    let seen = all_intervals(own, now);
    let all = merged(seen);
    selected_windows_are_sound(s);
    intervals_are_sound(own, now);
    merged_is_real(seen);
    real_mass(all);
    by_upper_keeps_len(all);
    if seen.len() > 0 {
        let r = by_upper(all);
        target_is_reached(r, fraction::<N>(1, 2).times_spec(mass(all)), N::zero_spec());
        target_is_reached(r, fraction::<N>(9, 10).times_spec(mass(all)), N::zero_spec());
        target_is_reached(r, fraction::<N>(99, 100).times_spec(mass(all)), N::zero_spec());
    }
}

/// The intervals of a sound window hold observations, in the order they are gone through.
pub(crate) proof fn real_intervals<N: Ordered>(s: Seq<EntryView<N>>, base: Seq<char>, now: u64)
    requires
        windows_are_sound(s),
    ensures
        ({
            let seen = all_intervals(family_of(s, base), now);
            let all = merged(seen);
            &&& are_real(by_upper(all))
            &&& by_upper(all).len() > 0 <==> seen.len() > 0
            &&& N::zero_spec().less_spec(mass(all)) <==> seen.len() > 0
        }),
{
    let own = family_of(s, base);
    let seen = all_intervals(own, now);
    let all = merged(seen);
    selected_windows_are_sound(s);
    intervals_are_sound(own, now);
    merged_is_real(seen);
    real_mass(all);
    by_upper_keeps_len(all);
    intervals_ascend(all);
    let r = by_upper(all);
    assert forall|i: int| 0 <= i < r.len() implies N::zero_spec().less_spec(
        (#[trigger] r[i]).count,
    ) by {
        assert(all.contains(r[i]));
    }
}

// ---- on the way through an interval ----

/// The intervals stand one above the other.
pub open spec fn is_ladder<N: Num>(s: Seq<Interval<N>>) -> bool {
    &&& forall|i: int| 0 <= i < s.len() ==> at_most((#[trigger] s[i]).lower, s[i].upper)
    &&& forall|i: int, j: int|
        0 <= i < j < s.len() ==> at_most((#[trigger] s[i]).upper, (#[trigger] s[j]).lower)
}

pub(crate) proof fn ladder_goes_on<N: Num>(s: Seq<Interval<N>>)
    requires
        is_ladder(s),
        s.len() > 0,
    ensures
        is_ladder(s.drop_first()),
{
    let d = s.drop_first();
    assert forall|i: int| 0 <= i < d.len() implies at_most((#[trigger] d[i]).lower, d[i].upper) by {
        assert(d[i] == s[i + 1]);
    }
    assert forall|i: int, j: int| 0 <= i < j < d.len() implies at_most(
        (#[trigger] d[i]).upper,
        (#[trigger] d[j]).lower,
    ) by {
        assert(d[i] == s[i + 1] && d[j] == s[j + 1]);
    }
}

pub(crate) proof fn at_most_chains<N: Num>(a: N, b: N, c: N)
    requires
        at_most(a, b),
        at_most(b, c),
    ensures
        at_most(a, c),
{
    if c.less_spec(a) {
        N::less_splits(c, b, a);
    }
}

pub(crate) proof fn at_most_itself<N: Num>(a: N)
    requires
        !a.is_nan_spec(),
    ensures
        at_most(a, a),
{
    if a.less_spec(a) {
        N::less_asymmetric(a, a);
    }
}

pub(crate) proof fn less_is_at_most<N: Num>(a: N, b: N)
    requires
        a.less_spec(b),
    ensures
        at_most(a, b),
{
    N::less_excludes_nan(a, b);
    N::less_asymmetric(a, b);
}

/// How far on its way through the interval the target is.
pub open spec fn way_of<N: Num>(iv: Interval<N>, target: N, cum: N) -> N {
    if N::zero_spec().less_spec(iv.count) {
        target.minus_spec(cum).over_spec(iv.count)
    } else {
        N::zero_spec()
    }
}

/// The value on the way between the edges.
pub open spec fn value_at<N: Num>(iv: Interval<N>, way: N) -> N {
    iv.lower.plus_spec(iv.upper.minus_spec(iv.lower).times_spec(way))
}

/// What goes into a value that is a number are numbers.
proof fn value_parts_are_numbers<N: Ordered>(iv: Interval<N>, target: N, cum: N)
    requires
        !value_at(iv, way_of(iv, target, cum)).is_nan_spec(),
    ensures
        !way_of(iv, target, cum).is_nan_spec(),
        !iv.upper.minus_spec(iv.lower).is_nan_spec(),
        !iv.upper.minus_spec(iv.lower).times_spec(way_of(iv, target, cum)).is_nan_spec(),
        N::zero_spec().less_spec(iv.count) ==> !target.minus_spec(cum).is_nan_spec(),
{
    let way = way_of(iv, target, cum);
    let width = iv.upper.minus_spec(iv.lower);
    N::nan_spreads(iv.lower, width.times_spec(way));
    N::nan_spreads(width, way);
    N::nan_spreads(target.minus_spec(cum), iv.count);
}

pub(crate) proof fn values_ascend<N: Ordered>(iv: Interval<N>, low: N, high: N, cum: N)
    requires
        at_most(iv.lower, iv.upper),
        at_most(low, high),
        !value_at(iv, way_of(iv, low, cum)).is_nan_spec(),
        !value_at(iv, way_of(iv, high, cum)).is_nan_spec(),
    ensures
        at_most(value_at(iv, way_of(iv, low, cum)), value_at(iv, way_of(iv, high, cum))),
{
    let (a, b) = (way_of(iv, low, cum), way_of(iv, high, cum));
    let width = iv.upper.minus_spec(iv.lower);
    value_parts_are_numbers(iv, low, cum);
    value_parts_are_numbers(iv, high, cum);
    N::signs_stay(iv.lower, iv.upper);
    if N::zero_spec().less_spec(iv.count) {
        N::results_ascend(low, high, cum);
        N::results_ascend(low.minus_spec(cum), high.minus_spec(cum), iv.count);
    } else {
        at_most_itself(a);
    }
    N::results_ascend(a, b, width);
    N::results_ascend(width.times_spec(a), width.times_spec(b), iv.lower);
}

}
