//! What a tracker holds after a history of scrapes.
use crate::num::{Num, Ordered};
use crate::poll::ladder::{are_edges, edges_of, family_has_cells, family_has_edges,
    recording_keeps_cells};
use crate::poll::percentiles::{recording_keeps_windows_sound, windows_are_sound};
use crate::poll::prom::SampleView;
use crate::poll::quantile::{all_intervals, all_recorded, bucket_growth, by_edge, entry_ids,
    entry_recorded, family_of, frame_intervals, fresh_subject, group_ids, grouped, id_less,
    in_id_order, in_window, joined, part_of, place, place_misses, recorded, recording_keeps_order,
    staircase, with_entry, with_entry_members, EntryView, GroupView, Interval, ScrapedView,
    SubjectView, HIST_WINDOW};
use crate::poll::rate::elapsed;
use crate::poll::wholes::{by_edge_is_whole, family_is_whole, family_reads_whole, is_whole,
    read_whole_buckets, recording_keeps_wholes, series_is_whole, staircase_is_whole};
use crate::text::{text_less, text_less_asymmetric};
use vstd::prelude::*;

verus! {

// ---- a history ----

/// The samples of a scrape and when it was taken.
pub type Scrape<N> = (Seq<SampleView<N>>, u64);

/// The series that are tracked once the scrapes of `h` were recorded in order.
pub open spec fn fed<N: Num>(h: Seq<Scrape<N>>) -> Seq<EntryView<N>>
    decreases h.len(),
{
    if h.len() == 0 {
        Seq::empty()
    } else {
        all_recorded(fed(h.drop_last()), grouped(h.last().0), h.last().1)
    }
}

/// What a scrape says of a series.
pub open spec fn said_of<N: Num>(m: Seq<SampleView<N>>, id: (Seq<char>, Seq<char>)) -> Option<
    ScrapedView<N>,
> {
    let i = place(group_ids(grouped(m)), id);
    if i < 0 {
        None
    } else {
        Some(grouped(m)[i].said)
    }
}

/// The readings of buckets on top of those that were known.
pub open spec fn with_readings<N: Num>(seen: Map<N, N>, b: Seq<(N, N)>) -> Map<N, N>
    decreases b.len(),
{
    if b.len() == 0 {
        seen
    } else {
        with_readings(seen, b.drop_last()).insert(b.last().0, b.last().1)
    }
}

/// The last reading of each bucket of a series, by its edge.
pub open spec fn last_readings<N: Num>(h: Seq<Scrape<N>>, id: (Seq<char>, Seq<char>)) -> Map<N, N>
    decreases h.len(),
{
    if h.len() == 0 {
        Map::empty()
    } else {
        let before = last_readings(h.drop_last(), id);
        match said_of(h.last().0, id) {
            Some(sc) => with_readings(before, by_edge(sc.buckets)),
            None => before,
        }
    }
}

/// Whether a bucket reads more than it did the last time.
pub open spec fn reads_more<N: Num>(seen: Map<N, N>, b: (N, N)) -> bool {
    seen.contains_key(b.0) && N::zero_spec().less_spec(b.1.minus_spec(seen[b.0]))
}

/// Whether a bucket of the series grew from its last reading to the scrape `k`.
pub open spec fn grew<N: Num>(h: Seq<Scrape<N>>, k: int, id: (Seq<char>, Seq<char>)) -> bool {
    match said_of(h[k].0, id) {
        Some(sc) => exists|i: int|
            0 <= i < by_edge(sc.buckets).len() && reads_more(
                last_readings(h.take(k), id),
                #[trigger] by_edge(sc.buckets)[i],
            ),
        None => false,
    }
}

/// Whether a bucket of the series grew in a scrape that still counts.
pub open spec fn grew_lately<N: Num>(h: Seq<Scrape<N>>, id: (Seq<char>, Seq<char>), now: u64) -> bool {
    exists|k: int|
        0 <= k < h.len() && elapsed(now, (#[trigger] h[k]).1) <= HIST_WINDOW && grew(h, k, id)
}

/// Whether every scrape has, for each series of the family, the bucket edges `e` and
/// whole counts, and the scrapes stand in the order of their times, none after `now`.
pub open spec fn feeds_one_ladder<N: Num>(
    h: Seq<Scrape<N>>,
    base: Seq<char>,
    e: Seq<N>,
    now: u64,
) -> bool {
    &&& are_edges(e)
    &&& forall|k: int|
        0 <= k < h.len() ==> {
            &&& family_has_edges(grouped((#[trigger] h[k]).0), base, e)
            &&& family_reads_whole(grouped(h[k].0), base)
            &&& h[k].1 <= now
        }
    &&& forall|j: int, k: int| 0 <= j < k < h.len() ==> (#[trigger] h[j]).1 <= (#[trigger] h[k]).1
}

pub(crate) proof fn ladder_was_fed<N: Num>(h: Seq<Scrape<N>>, base: Seq<char>, e: Seq<N>, now: u64)
    requires
        feeds_one_ladder(h, base, e, now),
        h.len() > 0,
    ensures
        feeds_one_ladder(h.drop_last(), base, e, now),
        family_has_edges(grouped(h.last().0), base, e),
        family_reads_whole(grouped(h.last().0), base),
        h.last().1 <= now,
{
    let d = h.drop_last();
    assert(h[h.len() - 1] == h.last());
    assert forall|k: int| 0 <= k < d.len() implies {
        &&& family_has_edges(grouped((#[trigger] d[k]).0), base, e)
        &&& family_reads_whole(grouped(d[k].0), base)
        &&& d[k].1 <= now
    } by {
        assert(d[k] == h[k]);
    }
    assert forall|j: int, k: int| 0 <= j < k < d.len() implies (#[trigger] d[j]).1 <= (
    #[trigger] d[k]).1 by {
        assert(d[j] == h[j] && d[k] == h[k]);
    }
}

/// What holds of the tracked series of such a history.
pub(crate) proof fn fed_is_sound<N: Ordered>(
    h: Seq<Scrape<N>>,
    base: Seq<char>,
    e: Seq<N>,
    now: u64,
)
    requires
        feeds_one_ladder(h, base, e, now),
    ensures
        in_id_order(fed(h)),
        windows_are_sound(fed(h)),
        family_has_cells(fed(h), base, e),
        family_is_whole(fed(h), base),
    decreases h.len(),
{
    if h.len() > 0 {
        ladder_was_fed(h, base, e, now);
        let d = h.drop_last();
        fed_is_sound(d, base, e, now);
        let gs = grouped(h.last().0);
        let t = h.last().1;
        recording_keeps_order(fed(d), gs, t);
        recording_keeps_windows_sound(fed(d), gs, Seq::empty(), t);
        recording_keeps_cells(fed(d), gs, Seq::empty(), t, base, e);
        recording_keeps_wholes(fed(d), gs, t, base);
    }
}

/// A first scrape alone is no growth: there is nothing to compare it with.
pub proof fn first_scrape_is_no_growth<N: Num>(
    h: Seq<Scrape<N>>,
    id: (Seq<char>, Seq<char>),
    now: u64,
)
    requires
        h.len() <= 1,
    ensures
        !grew_lately(h, id, now),
{
    if h.len() == 1 {
        assert(h.take(0) =~= Seq::empty());
        assert(last_readings(h.take(0), id) == Map::<N, N>::empty());
    }
}

// ---- one series ----

/// What is known of a series; nothing where it is not tracked.
pub open spec fn known_of<N: Num>(s: Seq<EntryView<N>>, id: (Seq<char>, Seq<char>)) -> SubjectView<N> {
    let i = place(entry_ids(s), id);
    if i < 0 {
        fresh_subject()
    } else {
        s[i].sub
    }
}

proof fn id_less_itself(a: (Seq<char>, Seq<char>))
    ensures
        !id_less(a, a),
{
    if text_less(a.0, a.0) {
        text_less_asymmetric(a.0, a.0);
    }
    if text_less(a.1, a.1) {
        text_less_asymmetric(a.1, a.1);
    }
}

proof fn known_of_entry<N: Num>(s: Seq<EntryView<N>>, i: int)
    requires
        in_id_order(s),
        0 <= i < s.len(),
    ensures
        known_of(s, s[i].id) == s[i].sub,
{
    let ids = entry_ids(s);
    let id = s[i].id;
    place_misses(ids, id);
    assert(ids[i] == id);
    let p = place(ids, id);
    if p != i {
        assert(ids[p] == s[p].id);
        id_less_itself(id);
        if p < i {
            assert(id_less(s[p].id, s[i].id));
        } else {
            assert(id_less(s[i].id, s[p].id));
        }
    }
}

proof fn known_of_none<N: Num>(s: Seq<EntryView<N>>, id: (Seq<char>, Seq<char>))
    requires
        forall|i: int| 0 <= i < s.len() ==> (#[trigger] s[i]).id != id,
    ensures
        known_of(s, id) == fresh_subject::<N>(),
{
    let ids = entry_ids(s);
    place_misses(ids, id);
    if place(ids, id) >= 0 {
        assert(ids[place(ids, id)] == s[place(ids, id)].id);
    }
}

proof fn with_entry_has<N>(s: Seq<EntryView<N>>, e: EntryView<N>)
    ensures
        with_entry(s, e).contains(e),
        forall|i: int| 0 <= i < s.len() ==> with_entry(s, e).contains(#[trigger] s[i]),
    decreases s.len(),
{
    let r = with_entry(s, e);
    if s.len() > 0 && id_less(e.id, s.last().id) {
        let d = s.drop_last();
        with_entry_has(d, e);
        let v = with_entry(d, e);
        assert(r == v.push(s.last()));
        let k = choose|k: int| 0 <= k < v.len() && v[k] == e;
        assert(r[k] == e);
        assert forall|i: int| 0 <= i < s.len() implies r.contains(#[trigger] s[i]) by {
            if i < d.len() {
                assert(d[i] == s[i]);
                let j = choose|j: int| 0 <= j < v.len() && v[j] == d[i];
                assert(r[j] == s[i]);
            } else {
                assert(r[v.len() as int] == s[i]);
            }
        }
    } else {
        assert(r == s.push(e));
        assert(r[s.len() as int] == e);
        assert forall|i: int| 0 <= i < s.len() implies r.contains(#[trigger] s[i]) by {
            assert(r[i] == s[i]);
        }
    }
}

/// Recording one series changes what is known of it, and nothing else.
proof fn entry_recorded_known<N: Num>(
    s: Seq<EntryView<N>>,
    g: GroupView<N>,
    now: u64,
    id: (Seq<char>, Seq<char>),
)
    requires
        in_id_order(s),
        in_id_order(entry_recorded(s, g, now)),
    ensures
        known_of(entry_recorded(s, g, now), id) == if id == g.id {
            recorded(known_of(s, id), g.said, now)
        } else {
            known_of(s, id)
        },
{
    let r = entry_recorded(s, g, now);
    let at = place(entry_ids(s), g.id);
    place_misses(entry_ids(s), g.id);
    if at < 0 {
        let x = EntryView { id: g.id, sub: recorded(fresh_subject(), g.said, now) };
        with_entry_has(s, x);
        if id == g.id {
            let k = choose|k: int| 0 <= k < r.len() && r[k] == x;
            known_of_entry(r, k);
        } else {
            let p = place(entry_ids(s), id);
            place_misses(entry_ids(s), id);
            if p >= 0 {
                assert(entry_ids(s)[p] == s[p].id);
                assert(r.contains(s[p]));
                let k = choose|k: int| 0 <= k < r.len() && r[k] == s[p];
                known_of_entry(r, k);
            } else {
                assert forall|i: int| 0 <= i < r.len() implies (#[trigger] r[i]).id != id by {
                    with_entry_members(s, x, i);
                    if r[i] != x {
                        let k = choose|k: int| 0 <= k < s.len() && s[k] == r[i];
                        assert(entry_ids(s)[k] == s[k].id);
                    }
                }
                known_of_none(r, id);
            }
        }
    } else {
        assert(entry_ids(s)[at] == s[at].id);
        known_of_entry(s, at);
        if id == g.id {
            known_of_entry(r, at);
        } else {
            let p = place(entry_ids(s), id);
            place_misses(entry_ids(s), id);
            if p >= 0 {
                assert(entry_ids(s)[p] == s[p].id);
                assert(r[p] == s[p]);
                known_of_entry(r, p);
            } else {
                assert forall|i: int| 0 <= i < r.len() implies (#[trigger] r[i]).id != id by {
                    assert(entry_ids(s)[i] == s[i].id);
                }
                known_of_none(r, id);
            }
        }
    }
}

/// Recording a scrape changes what is known of each of its series once.
pub(crate) proof fn all_recorded_known<N: Num>(
    s: Seq<EntryView<N>>,
    gs: Seq<GroupView<N>>,
    now: u64,
    id: (Seq<char>, Seq<char>),
)
    requires
        in_id_order(s),
        group_ids(gs).no_duplicates(),
    ensures
        known_of(all_recorded(s, gs, now), id) == if place(group_ids(gs), id) < 0 {
            known_of(s, id)
        } else {
            recorded(known_of(s, id), gs[place(group_ids(gs), id)].said, now)
        },
    decreases gs.len(),
{
    if gs.len() > 0 {
        let d = gs.drop_last();
        let g = gs.last();
        let ids = group_ids(gs);
        assert(group_ids(d) =~= ids.drop_last());
        assert(ids.last() == g.id);
        all_recorded_known(s, d, now, id);
        recording_keeps_order(s, d, now);
        recording_keeps_order(s, gs, now);
        entry_recorded_known(all_recorded(s, d, now), g, now, id);
        place_misses(group_ids(d), id);
        if id == g.id {
            let p = place(group_ids(d), id);
            if p >= 0 {
                assert(ids[p] == group_ids(d)[p]);
                assert(ids[p] == ids[ids.len() - 1]);
            }
        }
    }
}

/// No series stands twice in a scrape.
pub(crate) proof fn grouped_once<N: Num>(m: Seq<SampleView<N>>)
    ensures
        group_ids(grouped(m)).no_duplicates(),
    decreases m.len(),
{
    if m.len() > 0 {
        let before = grouped(m.drop_last());
        grouped_once(m.drop_last());
        if let Some((id, p)) = part_of(m.last()) {
            let ids = group_ids(before);
            let i = place(ids, id);
            place_misses(ids, id);
            let after = joined(before, id, p);
            if i < 0 {
                assert(group_ids(after) =~= ids.push(id));
            } else {
                assert(group_ids(after) =~= ids);
            }
        }
    }
}

// ---- growth ----

pub(crate) proof fn staircase_reads<N: Num>(seen: Map<N, N>, b: Seq<(N, N)>)
    ensures
        staircase(seen, b).buckets == with_readings(seen, b),
    decreases b.len(),
{
    if b.len() > 0 {
        staircase_reads(seen, b.drop_last());
    }
}

pub(crate) proof fn readings_elsewhere<N: Num>(seen: Map<N, N>, b: Seq<(N, N)>, k: N)
    requires
        forall|i: int| 0 <= i < b.len() ==> (#[trigger] b[i]).0 != k,
    ensures
        with_readings(seen, b).contains_key(k) == seen.contains_key(k),
        seen.contains_key(k) ==> with_readings(seen, b)[k] == seen[k],
    decreases b.len(),
{
    if b.len() > 0 {
        let d = b.drop_last();
        assert forall|i: int| 0 <= i < d.len() implies (#[trigger] d[i]).0 != k by {
            assert(d[i] == b[i]);
        }
        readings_elsewhere(seen, d, k);
        assert(b[b.len() - 1].0 != k);
    }
}

/// A scrape finds something if and only if a bucket grew.
proof fn growth_is_found<N: Ordered>(seen: Map<N, N>, b: Seq<(N, N)>)
    requires
        forall|k: N| #[trigger] seen.contains_key(k) ==> is_whole(seen[k]),
        read_whole_buckets(b),
        forall|i: int, j: int| 0 <= i < j < b.len() ==> (#[trigger] b[i]).0 != (#[trigger] b[j]).0,
    ensures
        staircase(seen, b).found.len() > 0 <==> exists|i: int|
            0 <= i < b.len() && reads_more(seen, #[trigger] b[i]),
        staircase(seen, b).found.len() == 0 ==> staircase(seen, b).grown == N::zero_spec(),
    decreases b.len(),
{
    N::counts_are_numbers(0);
    N::nan_spreads(N::zero_spec(), N::zero_spec());
    if N::zero_spec().less_spec(N::zero_spec()) {
        N::less_asymmetric(N::zero_spec(), N::zero_spec());
    }
    if b.len() > 0 {
        let d = b.drop_last();
        let last = b[b.len() - 1];
        assert forall|i: int| 0 <= i < d.len() implies is_whole((#[trigger] d[i]).1) && d[i].0
            != last.0 by {
            assert(d[i] == b[i]);
        }
        assert forall|i: int, j: int| 0 <= i < j < d.len() implies (#[trigger] d[i]).0 != (
        #[trigger] d[j]).0 by {
            assert(d[i] == b[i] && d[j] == b[j]);
        }
        growth_is_found(seen, d);
        staircase_reads(seen, d);
        readings_elsewhere(seen, d, last.0);
        staircase_is_whole(seen, d);
        staircase_is_whole(seen, b);
        let st = staircase(seen, d);
        let grown = bucket_growth(st.buckets, last);
        assert(N::zero_spec().less_spec(grown) <==> reads_more(seen, last));
        assert(!N::zero_spec().less_spec(grown) ==> grown == N::zero_spec());
        assert(staircase(seen, b).grown == grown);
        if st.found.len() == 0 {
            let n = grown.to_count_spec();
            N::counts_add_up(n, 0);
            assert(grown.minus_spec(st.grown) == grown);
            if reads_more(seen, last) {
                assert(staircase(seen, b).found.len() > 0);
            } else if exists|i: int| 0 <= i < b.len() && reads_more(seen, #[trigger] b[i]) {
                let i = choose|i: int| 0 <= i < b.len() && reads_more(seen, #[trigger] b[i]);
                assert(d[i] == b[i]);
            }
        } else {
            let i = choose|i: int| 0 <= i < d.len() && reads_more(seen, #[trigger] d[i]);
            assert(b[i] == d[i]);
        }
    }
}

// ---- the window ----

/// Whether a frame with observations still counts.
pub open spec fn counts_now<N>(w: Seq<(u64, Seq<Interval<N>>)>, now: u64) -> bool {
    exists|j: int|
        0 <= j < w.len() && elapsed(now, (#[trigger] w[j]).0) <= HIST_WINDOW && w[j].1.len() > 0
}

/// Frames that have left the window do not come back.
proof fn trimming_keeps_counts<N>(w: Seq<(u64, Seq<Interval<N>>)>, t: u64, now: u64)
    requires
        t <= now,
    ensures
        counts_now(in_window(w, t), now) == counts_now(w, now),
    decreases w.len(),
{
    if w.len() > 0 && elapsed(t, w[0].0) > HIST_WINDOW {
        let d = w.drop_first();
        trimming_keeps_counts(d, t, now);
        if counts_now(w, now) {
            let j = choose|j: int|
                0 <= j < w.len() && elapsed(now, (#[trigger] w[j]).0) <= HIST_WINDOW && w[j].1.len()
                    > 0;
            assert(j > 0);
            assert(d[j - 1] == w[j]);
        }
        if counts_now(d, now) {
            let j = choose|j: int|
                0 <= j < d.len() && elapsed(now, (#[trigger] d[j]).0) <= HIST_WINDOW && d[j].1.len()
                    > 0;
            assert(w[j + 1] == d[j]);
        }
    }
}

proof fn one_more_frame<N>(w: Seq<(u64, Seq<Interval<N>>)>, f: (u64, Seq<Interval<N>>), now: u64)
    requires
        f.1.len() > 0,
    ensures
        counts_now(w.push(f), now) == (counts_now(w, now) || elapsed(now, f.0) <= HIST_WINDOW),
{
    let r = w.push(f);
    if counts_now(w, now) {
        let j = choose|j: int|
            0 <= j < w.len() && elapsed(now, (#[trigger] w[j]).0) <= HIST_WINDOW && w[j].1.len() > 0;
        assert(r[j] == w[j]);
    }
    if elapsed(now, f.0) <= HIST_WINDOW {
        assert(r[w.len() as int] == f);
    }
    if counts_now(r, now) {
        let j = choose|j: int|
            0 <= j < r.len() && elapsed(now, (#[trigger] r[j]).0) <= HIST_WINDOW && r[j].1.len() > 0;
        if j < w.len() {
            assert(w[j] == r[j]);
        }
    }
}

/// The edges of buckets that have the edges `e` differ.
pub(crate) proof fn edges_differ<N: Num>(b: Seq<(N, N)>, e: Seq<N>)
    requires
        are_edges(e),
        edges_of(b) == e,
    ensures
        forall|i: int, j: int| 0 <= i < j < b.len() ==> (#[trigger] b[i]).0 != (#[trigger] b[j]).0,
{
    assert forall|i: int, j: int| 0 <= i < j < b.len() implies (#[trigger] b[i]).0 != (
    #[trigger] b[j]).0 by {
        assert(edges_of(b)[i] == b[i].0 && edges_of(b)[j] == b[j].0);
        assert(e[i].less_spec(e[j]));
        if e[i] == e[j] {
            N::less_asymmetric(e[i], e[j]);
        }
    }
}

/// What is known of a series of the family after the history: its last readings, and a
/// frame that counts if and only if it grew lately.
pub(crate) proof fn history_of_a_series<N: Ordered>(
    h: Seq<Scrape<N>>,
    base: Seq<char>,
    e: Seq<N>,
    now: u64,
    id: (Seq<char>, Seq<char>),
)
    requires
        feeds_one_ladder(h, base, e, now),
        id.0 == base,
    ensures
        known_of(fed(h), id).buckets == last_readings(h, id),
        series_is_whole(known_of(fed(h), id)),
        counts_now(known_of(fed(h), id).window, now) <==> grew_lately(h, id, now),
    decreases h.len(),
{
    fed_is_sound(h, base, e, now);
    place_misses(entry_ids(fed(h)), id);
    let p = place(entry_ids(fed(h)), id);
    if p >= 0 {
        assert(entry_ids(fed(h))[p] == fed(h)[p].id);
    }
    if h.len() == 0 {
        assert(fed(h).len() == 0);
        assert(entry_ids(fed(h)) =~= Seq::empty());
    } else {
        let d = h.drop_last();
        let m = h.last().0;
        let t = h.last().1;
        ladder_was_fed(h, base, e, now);
        history_of_a_series(d, base, e, now, id);
        fed_is_sound(d, base, e, now);
        grouped_once(m);
        all_recorded_known(fed(d), grouped(m), t, id);
        let last = h.len() - 1;
        assert(h[last] == h.last());
        assert(h.take(last) =~= d);
        assert forall|k: int| 0 <= k < d.len() implies grew(h, k, id) == grew(d, k, id) && h[k]
            == d[k] by {
            assert(h.take(k) =~= d.take(k));
        }
        assert(grew_lately(h, id, now) == (grew_lately(d, id, now) || (elapsed(now, t)
            <= HIST_WINDOW && grew(h, last, id)))) by {
            if grew_lately(d, id, now) {
                let k = choose|k: int|
                    0 <= k < d.len() && elapsed(now, (#[trigger] d[k]).1) <= HIST_WINDOW && grew(
                        d,
                        k,
                        id,
                    );
                assert(h[k] == d[k]);
            }
            if grew_lately(h, id, now) {
                let k = choose|k: int|
                    0 <= k < h.len() && elapsed(now, (#[trigger] h[k]).1) <= HIST_WINDOW && grew(
                        h,
                        k,
                        id,
                    );
                if k < d.len() {
                    assert(d[k] == h[k]);
                }
            }
        }
        let was = known_of(fed(d), id);
        let at = place(group_ids(grouped(m)), id);
        place_misses(group_ids(grouped(m)), id);
        if at >= 0 {
            assert(group_ids(grouped(m))[at] == grouped(m)[at].id);
            let sc = grouped(m)[at].said;
            let b = by_edge(sc.buckets);
            by_edge_is_whole(sc.buckets);
            edges_differ(b, e);
            growth_is_found(was.buckets, b);
            staircase_reads(was.buckets, b);
            let st = staircase(was.buckets, b);
            let w = if st.found.len() > 0 {
                was.window.push((t, st.found))
            } else {
                was.window
            };
            trimming_keeps_counts(w, t, now);
            if st.found.len() > 0 {
                one_more_frame(was.window, (t, st.found), now);
            }
            assert(grew(h, last, id) == (st.found.len() > 0));
        }
    }
}

proof fn frames_count<N>(frames: Seq<(u64, Seq<Interval<N>>)>, now: u64)
    ensures
        frame_intervals(frames, now).len() > 0 <==> counts_now(frames, now),
    decreases frames.len(),
{
    if frames.len() > 0 {
        let d = frames.drop_last();
        let f = frames[frames.len() - 1];
        frames_count(d, now);
        if counts_now(d, now) {
            let j = choose|j: int|
                0 <= j < d.len() && elapsed(now, (#[trigger] d[j]).0) <= HIST_WINDOW && d[j].1.len()
                    > 0;
            assert(frames[j] == d[j]);
        }
        if counts_now(frames, now) {
            let j = choose|j: int|
                0 <= j < frames.len() && elapsed(now, (#[trigger] frames[j]).0) <= HIST_WINDOW
                    && frames[j].1.len() > 0;
            if j < d.len() {
                assert(d[j] == frames[j]);
            }
        }
        if elapsed(now, f.0) <= HIST_WINDOW && f.1.len() > 0 {
            assert(frames[frames.len() - 1].1.len() > 0);
        }
    }
}

proof fn selected_count<N: Num>(
    s: Seq<EntryView<N>>,
    p: spec_fn(EntryView<N>) -> bool,
    now: u64,
)
    ensures
        all_intervals(s.filter(p), now).len() > 0 <==> exists|i: int|
            0 <= i < s.len() && p(#[trigger] s[i]) && counts_now(s[i].sub.window, now),
    decreases s.len(),
{
    reveal(Seq::filter);
    if s.len() > 0 {
        let d = s.drop_last();
        let last = s[s.len() - 1];
        selected_count(d, p, now);
        let f = d.filter(p);
        if p(last) {
            assert(s.filter(p) == f.push(last));
            assert(f.push(last).drop_last() =~= f);
            frames_count(last.sub.window, now);
        }
        if exists|i: int| 0 <= i < d.len() && p(#[trigger] d[i]) && counts_now(d[i].sub.window, now) {
            let i = choose|i: int|
                0 <= i < d.len() && p(#[trigger] d[i]) && counts_now(d[i].sub.window, now);
            assert(s[i] == d[i]);
        }
        if exists|i: int| 0 <= i < s.len() && p(#[trigger] s[i]) && counts_now(s[i].sub.window, now) {
            let i = choose|i: int|
                0 <= i < s.len() && p(#[trigger] s[i]) && counts_now(s[i].sub.window, now);
            if i < d.len() {
                assert(d[i] == s[i]);
            }
        }
    } else {
        assert(s.filter(p).len() == 0);
    }
}

proof fn family_counts<N: Num>(s: Seq<EntryView<N>>, base: Seq<char>, now: u64)
    ensures
        all_intervals(family_of(s, base), now).len() > 0 <==> exists|i: int|
            0 <= i < s.len() && (#[trigger] s[i]).id.0 == base && counts_now(s[i].sub.window, now),
{
    assert forall|p: spec_fn(EntryView<N>) -> bool|
        #![trigger s.filter(p)]
        all_intervals(s.filter(p), now).len() > 0 <==> exists|i: int|
            0 <= i < s.len() && p(#[trigger] s[i]) && counts_now(s[i].sub.window, now) by {
        selected_count(s, p, now);
    }
}

/// The window holds an observation of the family if and only if a bucket of one of its
/// series grew in a scrape that still counts.
pub proof fn window_follows_growth<N: Ordered>(
    h: Seq<Scrape<N>>,
    base: Seq<char>,
    e: Seq<N>,
    now: u64,
)
    requires
        feeds_one_ladder(h, base, e, now),
    ensures
        all_intervals(family_of(fed(h), base), now).len() > 0 <==> exists|key: Seq<char>|
            #[trigger] grew_lately(h, (base, key), now),
{
    let s = fed(h);
    fed_is_sound(h, base, e, now);
    family_counts(s, base, now);
    if all_intervals(family_of(s, base), now).len() > 0 {
        let i = choose|i: int|
            0 <= i < s.len() && (#[trigger] s[i]).id.0 == base && counts_now(s[i].sub.window, now);
        let id = s[i].id;
        known_of_entry(s, i);
        history_of_a_series(h, base, e, now, id);
        assert(id == (base, id.1));
        assert(grew_lately(h, (base, id.1), now));
    }
    if exists|key: Seq<char>| #[trigger] grew_lately(h, (base, key), now) {
        let key = choose|key: Seq<char>| #[trigger] grew_lately(h, (base, key), now);
        let id = (base, key);
        history_of_a_series(h, base, e, now, id);
        let p = place(entry_ids(s), id);
        place_misses(entry_ids(s), id);
        if p >= 0 {
            assert(entry_ids(s)[p] == s[p].id);
            assert(counts_now(s[p].sub.window, now));
        }
    }
}

}
