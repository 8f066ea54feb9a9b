//! Series with the same bucket edges have their intervals one above the other.
use crate::num::{at_most, Num, Ordered};
use crate::poll::percentiles::{at_most_itself, intervals_ascend, is_ladder, less_is_at_most,
    uppers_ascend};
use crate::poll::prom::SampleView;
use crate::poll::quantile::{all_intervals, all_recorded, bounds_below, by_edge, by_upper,
    entry_ids, entry_recorded, family_of, frame_intervals, fresh_subject, in_window,
    in_window_is_a_tail, merged, merged_with, place, place_misses, pruned, recorded, staircase,
    with_entry_members, with_upper, EntryView, GroupView, Interval, ScrapedView, SubjectView};
use vstd::prelude::*;

verus! {

// ---- cells ----

/// Bucket edges: ascending from nought on, all but the last one finite.
pub open spec fn are_edges<N: Num>(e: Seq<N>) -> bool {
    &&& e.len() > 0 ==> at_most(N::zero_spec(), e[0])
    &&& forall|i: int, j: int| 0 <= i < j < e.len() ==> (#[trigger] e[i]).less_spec(#[trigger] e[j])
    &&& forall|i: int| 0 <= i < e.len() - 1 ==> (#[trigger] e[i]).is_finite_spec()
}

/// The edge below the edge `i`.
pub open spec fn edge_below<N: Num>(e: Seq<N>, i: int) -> N {
    if i <= 0 {
        N::zero_spec()
    } else {
        e[i - 1]
    }
}

/// Whether the interval lies between two neighbouring edges.
pub open spec fn is_cell<N: Num>(iv: Interval<N>, e: Seq<N>) -> bool {
    exists|i: int| 0 <= i < e.len() && iv.upper == #[trigger] e[i] && iv.lower == edge_below(e, i)
}

/// Every interval lies between two neighbouring edges.
pub open spec fn are_cells<N: Num>(s: Seq<Interval<N>>, e: Seq<N>) -> bool {
    forall|i: int| 0 <= i < s.len() ==> is_cell(#[trigger] s[i], e)
}

/// The edges of buckets.
pub open spec fn edges_of<N: Num>(buckets: Seq<(N, N)>) -> Seq<N> {
    buckets.map_values(|b: (N, N)| b.0)
}

proof fn staircase_finds_cells<N: Num>(seen: Map<N, N>, buckets: Seq<(N, N)>, e: Seq<N>)
    requires
        are_edges(e),
        buckets.len() <= e.len(),
        edges_of(buckets) == e.take(buckets.len() as int),
    ensures
        are_cells(staircase(seen, buckets).found, e),
        buckets.len() < e.len() ==> staircase(seen, buckets).edge == edge_below(
            e,
            buckets.len() as int,
        ),
    decreases buckets.len(),
{
    if buckets.len() > 0 {
        let d = buckets.drop_last();
        let k = d.len() as int;
        assert(edges_of(d) =~= e.take(k)) by {
            assert forall|i: int| 0 <= i < k implies edges_of(d)[i] == e[i] by {
                assert(edges_of(buckets)[i] == e.take(k + 1)[i]);
            }
        }
        staircase_finds_cells(seen, d, e);
        assert(buckets.last().0 == e[k]) by {
            assert(edges_of(buckets)[k] == e.take(k + 1)[k]);
        }
        let before = staircase(seen, d);
        let iv = Interval {
            lower: before.edge,
            upper: e[k],
            count: staircase(seen, buckets).found.last().count,
        };
        assert(is_cell(iv, e));
        let after = staircase(seen, buckets);
        assert forall|i: int| 0 <= i < after.found.len() implies is_cell(
            #[trigger] after.found[i],
            e,
        ) by {
            if i < before.found.len() {
                assert(after.found[i] == before.found[i]);
            } else {
                assert(after.found[i].upper == iv.upper && after.found[i].lower == iv.lower);
            }
        }
    }
}

// ---- what is recorded ----

/// The intervals of a series are cells.
pub open spec fn frames_are_cells<N: Num>(s: SubjectView<N>, e: Seq<N>) -> bool {
    forall|i: int| 0 <= i < s.window.len() ==> are_cells((#[trigger] s.window[i]).1, e)
}

/// The intervals of every series of a family are cells.
pub open spec fn family_has_cells<N: Num>(s: Seq<EntryView<N>>, base: Seq<char>, e: Seq<N>) -> bool {
    forall|i: int|
        0 <= i < s.len() && (#[trigger] s[i]).id.0 == base ==> frames_are_cells(s[i].sub, e)
}

/// Every series of the family has the edges `e`.
pub open spec fn family_has_edges<N: Num>(gs: Seq<GroupView<N>>, base: Seq<char>, e: Seq<N>) -> bool {
    forall|i: int|
        0 <= i < gs.len() && (#[trigger] gs[i]).id.0 == base ==> edges_of(
            by_edge(gs[i].said.buckets),
        ) == e
}

proof fn recorded_has_cells<N: Num>(s: SubjectView<N>, sc: ScrapedView<N>, now: u64, e: Seq<N>)
    requires
        are_edges(e),
        frames_are_cells(s, e),
        edges_of(by_edge(sc.buckets)) == e,
    ensures
        frames_are_cells(recorded(s, sc, now), e),
{
    let b = by_edge(sc.buckets);
    let st = staircase(s.buckets, b);
    assert(edges_of(b).len() == b.len());
    assert(e.take(b.len() as int) =~= e);
    staircase_finds_cells(s.buckets, b, e);
    let w = if st.found.len() > 0 {
        s.window.push((now, st.found))
    } else {
        s.window
    };
    in_window_is_a_tail(w, now);
    let r = in_window(w, now);
    assert forall|i: int| 0 <= i < r.len() implies are_cells((#[trigger] r[i]).1, e) by {
        let k = w.len() - r.len() + i;
        assert(r[i] == w[k]);
        if k < s.window.len() {
            assert(w[k] == s.window[k]);
        }
    }
}

proof fn entry_recorded_has_cells<N: Num>(
    s: Seq<EntryView<N>>,
    g: GroupView<N>,
    now: u64,
    base: Seq<char>,
    e: Seq<N>,
)
    requires
        are_edges(e),
        family_has_cells(s, base, e),
        g.id.0 == base ==> edges_of(by_edge(g.said.buckets)) == e,
    ensures
        family_has_cells(entry_recorded(s, g, now), base, e),
{
    let at = place(entry_ids(s), g.id);
    let r = entry_recorded(s, g, now);
    place_misses(entry_ids(s), g.id);
    if at < 0 {
        let x = EntryView { id: g.id, sub: recorded(fresh_subject(), g.said, now) };
        if g.id.0 == base {
            recorded_has_cells(fresh_subject(), g.said, now, e);
        }
        assert forall|i: int|
            0 <= i < r.len() && (#[trigger] r[i]).id.0 == base implies frames_are_cells(
            r[i].sub,
            e,
        ) by {
            with_entry_members(s, x, i);
        }
    } else {
        assert(entry_ids(s)[at] == s[at].id);
        if g.id.0 == base {
            recorded_has_cells(s[at].sub, g.said, now, e);
        }
        assert forall|i: int|
            0 <= i < r.len() && (#[trigger] r[i]).id.0 == base implies frames_are_cells(
            r[i].sub,
            e,
        ) by {
            if i != at {
                assert(r[i] == s[i]);
            }
        }
    }
}

proof fn fewer_have_cells<N: Num>(s: Seq<EntryView<N>>, base: Seq<char>, e: Seq<N>)
    requires
        family_has_cells(s, base, e),
    ensures
        forall|p: spec_fn(EntryView<N>) -> bool|
            family_has_cells(#[trigger] s.filter(p), base, e),
    decreases s.len(),
{
    reveal(Seq::filter);
    if s.len() > 0 {
        let d = s.drop_last();
        assert forall|i: int| 0 <= i < d.len() && (#[trigger] d[i]).id.0 == base implies
            frames_are_cells(d[i].sub, e) by {
            assert(d[i] == s[i]);
        }
        fewer_have_cells(d, base, e);
        assert forall|p: spec_fn(EntryView<N>) -> bool|
            family_has_cells(#[trigger] s.filter(p), base, e) by {
            let f = s.filter(p);
            let g = d.filter(p);
            assert(family_has_cells(g, base, e));
            assert forall|i: int| 0 <= i < f.len() && (#[trigger] f[i]).id.0 == base implies
                frames_are_cells(f[i].sub, e) by {
                if i < g.len() {
                    assert(f[i] == g[i]);
                } else {
                    assert(f[i] == s[s.len() - 1]);
                }
            }
        }
    }
}

/// As long as every series of a family is scraped with the same edges, its intervals
/// are cells.
pub proof fn recording_keeps_cells<N: Num>(
    s: Seq<EntryView<N>>,
    gs: Seq<GroupView<N>>,
    m: Seq<SampleView<N>>,
    now: u64,
    base: Seq<char>,
    e: Seq<N>,
)
    requires
        are_edges(e),
        family_has_cells(s, base, e),
        family_has_edges(gs, base, e),
    ensures
        family_has_cells(all_recorded(s, gs, now), base, e),
        family_has_cells(pruned(all_recorded(s, gs, now), m), base, e),
    decreases gs.len(),
{
    if gs.len() > 0 {
        let d = gs.drop_last();
        assert forall|i: int| 0 <= i < d.len() && (#[trigger] d[i]).id.0 == base implies edges_of(
            by_edge(d[i].said.buckets),
        ) == e by {
            assert(d[i] == gs[i]);
        }
        recording_keeps_cells(s, d, m, now, base, e);
        assert(gs[gs.len() - 1] == gs.last());
        entry_recorded_has_cells(all_recorded(s, d, now), gs.last(), now, base, e);
    }
    fewer_have_cells(all_recorded(s, gs, now), base, e);
}

proof fn selected_has_cells<N: Num>(
    s: Seq<EntryView<N>>,
    p: spec_fn(EntryView<N>) -> bool,
    base: Seq<char>,
    e: Seq<N>,
)
    requires
        family_has_cells(s, base, e),
        forall|x: EntryView<N>| #[trigger] p(x) ==> x.id.0 == base,
    ensures
        forall|i: int| 0 <= i < s.filter(p).len() ==> frames_are_cells(
            (#[trigger] s.filter(p)[i]).sub,
            e,
        ),
    decreases s.len(),
{
    reveal(Seq::filter);
    if s.len() > 0 {
        let d = s.drop_last();
        assert forall|i: int| 0 <= i < d.len() && (#[trigger] d[i]).id.0 == base implies
            frames_are_cells(d[i].sub, e) by {
            assert(d[i] == s[i]);
        }
        selected_has_cells(d, p, base, e);
        assert(s[s.len() - 1] == s.last());
    }
}

proof fn every_selection_has_cells<N: Num>(s: Seq<EntryView<N>>, base: Seq<char>, e: Seq<N>)
    requires
        family_has_cells(s, base, e),
    ensures
        forall|p: spec_fn(EntryView<N>) -> bool|
            #![trigger s.filter(p)]
            (forall|x: EntryView<N>| #[trigger] p(x) ==> x.id.0 == base) ==> (forall|i: int|
                0 <= i < s.filter(p).len() ==> frames_are_cells((#[trigger] s.filter(p)[i]).sub, e)),
{
    assert forall|p: spec_fn(EntryView<N>) -> bool|
        #![trigger s.filter(p)]
        (forall|x: EntryView<N>| #[trigger] p(x) ==> x.id.0 == base) implies (forall|i: int|
        0 <= i < s.filter(p).len() ==> frames_are_cells((#[trigger] s.filter(p)[i]).sub, e)) by {
        selected_has_cells(s, p, base, e);
    }
}

proof fn frame_intervals_are_cells<N: Num>(
    frames: Seq<(u64, Seq<Interval<N>>)>,
    now: u64,
    e: Seq<N>,
)
    requires
        forall|i: int| 0 <= i < frames.len() ==> are_cells((#[trigger] frames[i]).1, e),
    ensures
        are_cells(frame_intervals(frames, now), e),
    decreases frames.len(),
{
    if frames.len() > 0 {
        let d = frames.drop_last();
        assert forall|i: int| 0 <= i < d.len() implies are_cells((#[trigger] d[i]).1, e) by {
            assert(d[i] == frames[i]);
        }
        frame_intervals_are_cells(d, now, e);
        assert(are_cells(frames[frames.len() - 1].1, e));
    }
}

proof fn intervals_are_cells<N: Num>(s: Seq<EntryView<N>>, now: u64, e: Seq<N>)
    requires
        forall|i: int| 0 <= i < s.len() ==> frames_are_cells((#[trigger] s[i]).sub, e),
    ensures
        are_cells(all_intervals(s, now), e),
    decreases s.len(),
{
    if s.len() > 0 {
        let d = s.drop_last();
        assert forall|i: int| 0 <= i < d.len() implies frames_are_cells((#[trigger] d[i]).sub, e) by {
            assert(d[i] == s[i]);
        }
        intervals_are_cells(d, now, e);
        assert(frames_are_cells(s[s.len() - 1].sub, e));
        frame_intervals_are_cells(s.last().sub.window, now, e);
    }
}

// ---- merged intervals ----

/// Whether two intervals have the same bounds.
pub open spec fn same_bounds<N: Num>(a: Interval<N>, b: Interval<N>) -> bool {
    a.lower == b.lower && a.upper == b.upper
}

/// The bounds come strictly one after the other.
pub open spec fn bounds_ascend<N: Num>(s: Seq<Interval<N>>) -> bool {
    forall|i: int, j: int|
        0 <= i < j < s.len() ==> bounds_below(#[trigger] s[i], #[trigger] s[j])
}

proof fn bounds_chain<N: Num>(a: Interval<N>, b: Interval<N>, c: Interval<N>)
    requires
        bounds_below(a, b),
        bounds_below(b, c),
    ensures
        bounds_below(a, c),
{
    if a.lower.below_spec(b.lower) && b.lower.below_spec(c.lower) {
        N::below_transitive(a.lower, b.lower, c.lower);
    }
    if a.upper.below_spec(b.upper) && b.upper.below_spec(c.upper) {
        N::below_transitive(a.upper, b.upper, c.upper);
    }
}

proof fn bounds_differ<N: Num>(a: Interval<N>, b: Interval<N>)
    ensures
        bounds_below(a, b) ==> !same_bounds(a, b),
        bounds_below(a, b) || bounds_below(b, a) || same_bounds(a, b),
{
    N::below_total(a.lower, b.lower);
    N::below_total(a.upper, b.upper);
    if a.lower.below_spec(b.lower) {
        N::below_asymmetric(a.lower, b.lower);
    }
    if a.upper.below_spec(b.upper) {
        N::below_asymmetric(a.upper, b.upper);
    }
}

proof fn merged_with_ascends<N: Num>(s: Seq<Interval<N>>, iv: Interval<N>, e: Seq<N>)
    requires
        bounds_ascend(s),
        are_cells(s, e),
        is_cell(iv, e),
    ensures
        bounds_ascend(merged_with(s, iv)),
        are_cells(merged_with(s, iv), e),
        forall|x: Interval<N>|
            bounds_below(iv, x) && (forall|i: int|
                0 <= i < s.len() ==> bounds_below(#[trigger] s[i], x)) ==> (forall|i: int|
                0 <= i < merged_with(s, iv).len() ==> bounds_below(
                    #[trigger] merged_with(s, iv)[i],
                    x,
                )),
    decreases s.len(),
{
    let r = merged_with(s, iv);
    if s.len() > 0 {
        let d = s.drop_last();
        let last = s[s.len() - 1];
        assert forall|i: int, j: int| 0 <= i < j < d.len() implies bounds_below(
            #[trigger] d[i],
            #[trigger] d[j],
        ) by {
            assert(d[i] == s[i] && d[j] == s[j]);
        }
        assert forall|i: int| 0 <= i < d.len() implies is_cell(#[trigger] d[i], e) && bounds_below(
            d[i],
            last,
        ) by {
            assert(d[i] == s[i]);
        }
        if same_bounds(last, iv) {
            let x = Interval { count: last.count.plus_spec(iv.count), ..iv };
            assert(r == d.push(x));
            assert(is_cell(x, e)) by {
                let k = choose|k: int|
                    0 <= k < e.len() && iv.upper == #[trigger] e[k] && iv.lower == edge_below(e, k);
                assert(x.upper == e[k]);
            }
            assert forall|i: int| 0 <= i < r.len() implies is_cell(#[trigger] r[i], e) by {
                if i < d.len() {
                    assert(r[i] == d[i]);
                }
            }
            assert forall|i: int, j: int| 0 <= i < j < r.len() implies bounds_below(
                #[trigger] r[i],
                #[trigger] r[j],
            ) by {
                assert(r[i] == d[i]);
                if j < d.len() {
                    assert(r[j] == d[j]);
                } else {
                    assert(bounds_below(d[i], last));
                }
            }
            assert forall|y: Interval<N>|
                bounds_below(iv, y) && (forall|i: int|
                    0 <= i < s.len() ==> bounds_below(#[trigger] s[i], y)) implies (forall|i: int|
                0 <= i < r.len() ==> bounds_below(#[trigger] r[i], y)) by {
                assert forall|i: int| 0 <= i < r.len() implies bounds_below(#[trigger] r[i], y) by {
                    if i < d.len() {
                        assert(r[i] == s[i]);
                    }
                }
            }
        } else if bounds_below(iv, last) {
            merged_with_ascends(d, iv, e);
            let v = merged_with(d, iv);
            assert(r == v.push(last));
            assert forall|i: int, j: int| 0 <= i < j < r.len() implies bounds_below(
                #[trigger] r[i],
                #[trigger] r[j],
            ) by {
                assert(r[i] == v[i]);
                if j < v.len() {
                    assert(r[j] == v[j]);
                }
            }
            assert forall|i: int| 0 <= i < r.len() implies is_cell(#[trigger] r[i], e) by {
                if i < v.len() {
                    assert(r[i] == v[i]);
                }
            }
            assert forall|y: Interval<N>|
                bounds_below(iv, y) && (forall|i: int|
                    0 <= i < s.len() ==> bounds_below(#[trigger] s[i], y)) implies (forall|i: int|
                0 <= i < r.len() ==> bounds_below(#[trigger] r[i], y)) by {
                assert forall|i: int| 0 <= i < d.len() implies bounds_below(#[trigger] d[i], y) by {
                    assert(d[i] == s[i]);
                }
                assert forall|i: int| 0 <= i < r.len() implies bounds_below(#[trigger] r[i], y) by {
                    if i < v.len() {
                        assert(r[i] == v[i]);
                    } else {
                        assert(r[i] == s[s.len() - 1]);
                    }
                }
            }
        } else {
            bounds_differ(iv, last);
            let x = Interval { count: N::zero_spec().plus_spec(iv.count), ..iv };
            assert(r == s.push(x));
            pushed_ascends(s, iv, x, e);
        }
    } else {
        let x = Interval { count: N::zero_spec().plus_spec(iv.count), ..iv };
        assert(r == seq![x]);
        assert(seq![x] =~= s.push(x));
        pushed_ascends(s, iv, x, e);
    }
}

proof fn pushed_ascends<N: Num>(s: Seq<Interval<N>>, iv: Interval<N>, x: Interval<N>, e: Seq<N>)
    requires
        bounds_ascend(s),
        are_cells(s, e),
        is_cell(iv, e),
        same_bounds(iv, x),
        s.len() > 0 ==> bounds_below(s[s.len() - 1], iv),
    ensures
        bounds_ascend(s.push(x)),
        are_cells(s.push(x), e),
        forall|y: Interval<N>|
            bounds_below(iv, y) && (forall|i: int|
                0 <= i < s.len() ==> bounds_below(#[trigger] s[i], y)) ==> (forall|i: int|
                0 <= i < s.push(x).len() ==> bounds_below(#[trigger] s.push(x)[i], y)),
{
    let r = s.push(x);
    assert(is_cell(x, e)) by {
        let k = choose|k: int|
            0 <= k < e.len() && iv.upper == #[trigger] e[k] && iv.lower == edge_below(e, k);
        assert(x.upper == e[k]);
    }
    assert forall|i: int| 0 <= i < r.len() implies is_cell(#[trigger] r[i], e) by {
        if i < s.len() {
            assert(r[i] == s[i]);
        }
    }
    assert forall|i: int, j: int| 0 <= i < j < r.len() implies bounds_below(
        #[trigger] r[i],
        #[trigger] r[j],
    ) by {
        assert(r[i] == s[i]);
        if j < s.len() {
            assert(r[j] == s[j]);
        } else {
            let last = s[s.len() - 1];
            if i < s.len() - 1 {
                assert(bounds_below(s[i], last));
                bounds_chain(s[i], last, iv);
            }
        }
    }
    assert forall|y: Interval<N>|
        bounds_below(iv, y) && (forall|i: int|
            0 <= i < s.len() ==> bounds_below(#[trigger] s[i], y)) implies (forall|i: int|
        0 <= i < r.len() ==> bounds_below(#[trigger] r[i], y)) by {
        assert forall|i: int| 0 <= i < r.len() implies bounds_below(#[trigger] r[i], y) by {
            if i < s.len() {
                assert(r[i] == s[i]);
            }
        }
    }
}

proof fn merged_ascends<N: Num>(s: Seq<Interval<N>>, e: Seq<N>)
    requires
        are_cells(s, e),
    ensures
        bounds_ascend(merged(s)),
        are_cells(merged(s), e),
    decreases s.len(),
{
    if s.len() > 0 {
        let d = s.drop_last();
        assert forall|i: int| 0 <= i < d.len() implies is_cell(#[trigger] d[i], e) by {
            assert(d[i] == s[i]);
        }
        merged_ascends(d, e);
        assert(is_cell(s[s.len() - 1], e));
        merged_with_ascends(merged(d), s.last(), e);
    }
}

// ---- by upper edge ----

/// No two intervals have the same bounds.
spec fn bounds_are_distinct<N: Num>(s: Seq<Interval<N>>) -> bool {
    forall|i: int, j: int|
        0 <= i < j < s.len() ==> !same_bounds(#[trigger] s[i], #[trigger] s[j])
}

proof fn with_upper_stays_distinct<N: Num>(s: Seq<Interval<N>>, iv: Interval<N>)
    requires
        bounds_are_distinct(s),
        forall|i: int| 0 <= i < s.len() ==> !same_bounds(#[trigger] s[i], iv),
    ensures
        bounds_are_distinct(with_upper(s, iv)),
        forall|x: Interval<N>|
            !same_bounds(iv, x) && (forall|i: int|
                0 <= i < s.len() ==> !same_bounds(#[trigger] s[i], x)) ==> (forall|i: int|
                0 <= i < with_upper(s, iv).len() ==> !same_bounds(
                    #[trigger] with_upper(s, iv)[i],
                    x,
                )),
    decreases s.len(),
{
    let r = with_upper(s, iv);
    if s.len() > 0 && iv.upper.below_spec(s.last().upper) {
        let d = s.drop_last();
        let last = s[s.len() - 1];
        assert forall|i: int, j: int| 0 <= i < j < d.len() implies !same_bounds(
            #[trigger] d[i],
            #[trigger] d[j],
        ) by {
            assert(d[i] == s[i] && d[j] == s[j]);
        }
        assert forall|i: int| 0 <= i < d.len() implies !same_bounds(#[trigger] d[i], iv)
            && !same_bounds(d[i], last) by {
            assert(d[i] == s[i]);
        }
        with_upper_stays_distinct(d, iv);
        let v = with_upper(d, iv);
        assert(r == v.push(last));
        assert(!same_bounds(iv, last));
        assert forall|i: int, j: int| 0 <= i < j < r.len() implies !same_bounds(
            #[trigger] r[i],
            #[trigger] r[j],
        ) by {
            assert(r[i] == v[i]);
            if j < v.len() {
                assert(r[j] == v[j]);
            }
        }
        assert forall|x: Interval<N>|
            !same_bounds(iv, x) && (forall|i: int|
                0 <= i < s.len() ==> !same_bounds(#[trigger] s[i], x)) implies (forall|i: int|
            0 <= i < r.len() ==> !same_bounds(#[trigger] r[i], x)) by {
            assert forall|i: int| 0 <= i < d.len() implies !same_bounds(#[trigger] d[i], x) by {
                assert(d[i] == s[i]);
            }
            assert forall|i: int| 0 <= i < r.len() implies !same_bounds(#[trigger] r[i], x) by {
                if i < v.len() {
                    assert(r[i] == v[i]);
                } else {
                    assert(r[i] == s[s.len() - 1]);
                }
            }
        }
    } else {
        assert(r == s.push(iv));
        assert forall|i: int, j: int| 0 <= i < j < r.len() implies !same_bounds(
            #[trigger] r[i],
            #[trigger] r[j],
        ) by {
            assert(r[i] == s[i]);
            if j < s.len() {
                assert(r[j] == s[j]);
            }
        }
        assert forall|x: Interval<N>|
            !same_bounds(iv, x) && (forall|i: int|
                0 <= i < s.len() ==> !same_bounds(#[trigger] s[i], x)) implies (forall|i: int|
            0 <= i < r.len() ==> !same_bounds(#[trigger] r[i], x)) by {
            assert forall|i: int| 0 <= i < r.len() implies !same_bounds(#[trigger] r[i], x) by {
                if i < s.len() {
                    assert(r[i] == s[i]);
                }
            }
        }
    }
}

proof fn by_upper_stays_distinct<N: Num>(s: Seq<Interval<N>>)
    requires
        bounds_are_distinct(s),
    ensures
        bounds_are_distinct(by_upper(s)),
    decreases s.len(),
{
    if s.len() > 0 {
        let d = s.drop_last();
        assert forall|i: int, j: int| 0 <= i < j < d.len() implies !same_bounds(
            #[trigger] d[i],
            #[trigger] d[j],
        ) by {
            assert(d[i] == s[i] && d[j] == s[j]);
        }
        by_upper_stays_distinct(d);
        intervals_ascend(d);
        let q = by_upper(d);
        assert forall|i: int| 0 <= i < q.len() implies !same_bounds(#[trigger] q[i], s.last()) by {
            assert(d.contains(q[i]));
            let k = choose|k: int| 0 <= k < d.len() && d[k] == q[i];
            assert(s[k] == q[i]);
            assert(!same_bounds(s[k], s[s.len() - 1]));
        }
        with_upper_stays_distinct(q, s.last());
    }
}

// ---- the ladder ----

proof fn cells_are_a_ladder<N: Ordered>(s: Seq<Interval<N>>, e: Seq<N>)
    requires
        are_edges(e),
        are_cells(s, e),
        bounds_are_distinct(s),
        uppers_ascend(s),
    ensures
        is_ladder(s),
{
    assert forall|i: int| 0 <= i < s.len() implies at_most((#[trigger] s[i]).lower, s[i].upper) by {
        assert(is_cell(s[i], e));
        let p = choose|p: int|
            0 <= p < e.len() && s[i].upper == #[trigger] e[p] && s[i].lower == edge_below(e, p);
        if p > 0 {
            assert(e[p - 1].less_spec(e[p]));
            less_is_at_most(e[p - 1], e[p]);
        }
    }
    assert forall|i: int, j: int| 0 <= i < j < s.len() implies at_most(
        (#[trigger] s[i]).upper,
        (#[trigger] s[j]).lower,
    ) by {
        assert(is_cell(s[i], e) && is_cell(s[j], e));
        let p = choose|p: int|
            0 <= p < e.len() && s[i].upper == #[trigger] e[p] && s[i].lower == edge_below(e, p);
        let q = choose|q: int|
            0 <= q < e.len() && s[j].upper == #[trigger] e[q] && s[j].lower == edge_below(e, q);
        assert(!same_bounds(s[i], s[j]));
        assert(!s[j].upper.below_spec(s[i].upper));
        if q < p {
            assert(e[q].less_spec(e[p]));
            N::less_is_below(e[q], e[p]);
        }
        assert(p < q);
        if p == q - 1 {
            assert(e[p].less_spec(e[q]));
            N::less_excludes_nan(e[p], e[q]);
            at_most_itself(e[p]);
        } else {
            assert(e[p].less_spec(e[q - 1]));
            less_is_at_most(e[p], e[q - 1]);
        }
    }
}

/// The intervals of such a family are cells, in the order they are gone through.
pub(crate) proof fn cells_of_the_window<N: Num>(
    s: Seq<EntryView<N>>,
    base: Seq<char>,
    now: u64,
    e: Seq<N>,
)
    requires
        family_has_cells(s, base, e),
    ensures
        are_cells(by_upper(merged(all_intervals(family_of(s, base), now))), e),
        bounds_ascend(merged(all_intervals(family_of(s, base), now))),
{
    let own = family_of(s, base);
    every_selection_has_cells(s, base, e);
    intervals_are_cells(own, now, e);
    let all = merged(all_intervals(own, now));
    merged_ascends(all_intervals(own, now), e);
    intervals_ascend(all);
    let r = by_upper(all);
    assert forall|i: int| 0 <= i < r.len() implies is_cell(#[trigger] r[i], e) by {
        assert(all.contains(r[i]));
    }
}

/// The intervals of a family whose series have the same edges stand one above the other.
pub proof fn one_ladder<N: Ordered>(
    s: Seq<EntryView<N>>,
    base: Seq<char>,
    now: u64,
    e: Seq<N>,
)
    requires
        are_edges(e),
        family_has_cells(s, base, e),
    ensures
        is_ladder(by_upper(merged(all_intervals(family_of(s, base), now)))),
{
    cells_of_the_window(s, base, now, e);
    let all = merged(all_intervals(family_of(s, base), now));
    assert forall|i: int, j: int| 0 <= i < j < all.len() implies !same_bounds(
        #[trigger] all[i],
        #[trigger] all[j],
    ) by {
        bounds_differ(all[i], all[j]);
    }
    by_upper_stays_distinct(all);
    intervals_ascend(all);
    cells_are_a_ladder(by_upper(all), e);
}

/// Gone through by their upper edges, the intervals come to each edge once, from the lowest
/// on.
pub(crate) proof fn edges_are_reached_in_order<N: Ordered>(
    s: Seq<EntryView<N>>,
    base: Seq<char>,
    now: u64,
    e: Seq<N>,
)
    requires
        are_edges(e),
        family_has_cells(s, base, e),
    ensures
        are_cells(all_intervals(family_of(s, base), now), e),
        ({
            let r = by_upper(merged(all_intervals(family_of(s, base), now)));
            forall|i: int, j: int, p: int, q: int|
                0 <= i < j < r.len() && 0 <= p < e.len() && 0 <= q < e.len() && (
                #[trigger] r[i]).upper == #[trigger] e[p] && (#[trigger] r[j]).upper
                    == #[trigger] e[q] ==> p < q
        }),
{
    let own = family_of(s, base);
    every_selection_has_cells(s, base, e);
    intervals_are_cells(own, now, e);
    let all = merged(all_intervals(own, now));
    let r = by_upper(all);
    cells_of_the_window(s, base, now, e);
    assert forall|i: int, j: int| 0 <= i < j < all.len() implies !same_bounds(
        #[trigger] all[i],
        #[trigger] all[j],
    ) by {
        bounds_differ(all[i], all[j]);
    }
    by_upper_stays_distinct(all);
    intervals_ascend(all);
    assert forall|i: int, j: int, p: int, q: int|
        0 <= i < j < r.len() && 0 <= p < e.len() && 0 <= q < e.len() && (#[trigger] r[i]).upper
            == #[trigger] e[p] && (#[trigger] r[j]).upper == #[trigger] e[q] implies p < q by {
        assert(is_cell(r[i], e) && is_cell(r[j], e));
        let a = choose|a: int|
            0 <= a < e.len() && r[i].upper == #[trigger] e[a] && r[i].lower == edge_below(e, a);
        let b = choose|b: int|
            0 <= b < e.len() && r[j].upper == #[trigger] e[b] && r[j].lower == edge_below(e, b);
        edges_differ(e, p, a);
        edges_differ(e, q, b);
        assert(!same_bounds(r[i], r[j]));
        assert(!r[j].upper.below_spec(r[i].upper));
        if q < p {
            assert(e[q].less_spec(e[p]));
            N::less_is_below(e[q], e[p]);
        }
    }
}

/// No two edges are the same.
pub(crate) proof fn edges_differ<N: Num>(e: Seq<N>, p: int, q: int)
    requires
        are_edges(e),
        0 <= p < e.len(),
        0 <= q < e.len(),
        e[p] == e[q],
    ensures
        p == q,
{
    if p < q {
        assert(e[p].less_spec(e[q]));
        N::less_asymmetric(e[p], e[q]);
    }
    if q < p {
        assert(e[q].less_spec(e[p]));
        N::less_asymmetric(e[q], e[p]);
    }
}

}
