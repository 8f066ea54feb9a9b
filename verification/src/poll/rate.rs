//! Counter to rate conversion over a sliding window.
use crate::num::{floored, floored_spec, Num};
use crate::text::same;
use vstd::prelude::*;

verus! {

/// Window over which a counter's rate is computed, in nanoseconds. Some counters
/// are flushed in bursts on a log interval, and a per-scrape delta reads those
/// bursts as a spike-then-zero sawtooth. Keeping a sliding baseline (rate = first
/// to last point inside the window) smears a burst back into a smooth per-second
/// value.
pub const RATE_WINDOW: u64 = 30_000_000_000;

/// The time from `then` to `now`, nought where `then` is later.
pub open spec fn elapsed(now: u64, then: u64) -> u64 {
    if then <= now {
        (now - then) as u64
    } else {
        0
    }
}

/// The points of each tracked key, oldest first.
pub type Series<N> = Map<Seq<char>, Seq<(u64, N)>>;

/// The points kept for `key`.
pub open spec fn history<N>(s: Series<N>, key: Seq<char>) -> Seq<(u64, N)> {
    if s.contains_key(key) {
        s[key]
    } else {
        Seq::empty()
    }
}

/// Whether a kept point exceeds `value`: the counter was reset.
pub open spec fn was_reset<N: Num>(h: Seq<(u64, N)>, value: N) -> bool {
    exists|i: int| 0 <= i < h.len() && value.less_spec((#[trigger] h[i]).1)
}

/// `h` without the leading points older than the window; the last point stays.
pub open spec fn unexpired<N>(h: Seq<(u64, N)>, now: u64, window: u64) -> Seq<(u64, N)>
    decreases h.len(),
{
    if h.len() > 1 && elapsed(now, h[0].0) > window {
        unexpired(h.drop_first(), now, window)
    } else {
        h
    }
}

/// The points kept once `value` is seen at `now`.
pub open spec fn observed<N: Num>(
    h: Seq<(u64, N)>,
    now: u64,
    value: N,
    window: u64,
) -> Seq<(u64, N)> {
    let kept = if was_reset(h, value) {
        Seq::empty()
    } else {
        h
    };
    unexpired(kept.push((now, value)), now, window)
}

/// The rate from the first to the last point, never negative; nothing while there
/// are fewer than two points or no time lies between them.
pub open spec fn slope<N: Num>(h: Seq<(u64, N)>) -> Option<N> {
    if h.len() < 2 || elapsed(h.last().0, h[0].0) == 0 {
        None
    } else {
        Some(
            floored_spec(
                h.last().1.minus_spec(h[0].1).over_spec(
                    N::of_nanos_spec(elapsed(h.last().0, h[0].0)),
                ),
            ),
        )
    }
}

/// A key with the value to observe for it.
pub open spec fn points_view<N>(v: Seq<(String, N)>) -> Seq<(Seq<char>, N)> {
    v.map_values(|p: (String, N)| (p.0@, p.1))
}

/// The series once all of `pts` were seen at `now`, in order.
pub open spec fn observed_all<N: Num>(
    s: Series<N>,
    window: u64,
    now: u64,
    pts: Seq<(Seq<char>, N)>,
) -> Series<N>
    decreases pts.len(),
{
    if pts.len() == 0 {
        s
    } else {
        let before = observed_all(s, window, now, pts.drop_last());
        let p = pts.last();
        before.insert(p.0, observed(history(before, p.0), now, p.1, window))
    }
}

/// The rate of each of `pts` at the moment it is seen.
pub open spec fn rates_of<N: Num>(
    s: Series<N>,
    window: u64,
    now: u64,
    pts: Seq<(Seq<char>, N)>,
) -> Seq<Option<N>>
    decreases pts.len(),
{
    if pts.len() == 0 {
        Seq::empty()
    } else {
        let before = observed_all(s, window, now, pts.drop_last());
        let p = pts.last();
        rates_of(s, window, now, pts.drop_last()).push(
            slope(observed(history(before, p.0), now, p.1, window)),
        )
    }
}

/// The sum of the rates that are known; nothing where none is.
pub open spec fn sum_known<N: Num>(rs: Seq<Option<N>>) -> Option<N>
    decreases rs.len(),
{
    if rs.len() == 0 {
        None
    } else {
        match (sum_known(rs.drop_last()), rs.last()) {
            (sum, None) => sum,
            (None, Some(r)) => Some(N::zero_spec().plus_spec(r)),
            (Some(sum), Some(r)) => Some(sum.plus_spec(r)),
        }
    }
}

/// Per-label-set counter to rate conversion over a sliding window. Rates are
/// computed here, in the poller, never in the UI. A counter smaller than its
/// window history means that the process restarted: the window is cleared and
/// re-baselined (nothing until two points again) rather than a false spike shown.
pub struct RateTracker<N> {
    window: u64,
    series: Vec<(String, Vec<(u64, N)>)>,
}

/// Whether `keep` may answer `b` on the text `k`.
pub open spec fn answers<F: Fn(&str) -> bool>(keep: F, k: Seq<char>, b: bool) -> bool {
    exists|s: &str| s@ == k && #[trigger] call_ensures(keep, (s,), b)
}

/// No key occurs twice.
spec fn keyed<N>(v: Seq<(String, Vec<(u64, N)>)>) -> bool {
    forall|i: int, j: int| 0 <= i < j < v.len() ==> (#[trigger] v[i]).0@ != (#[trigger] v[j]).0@
}

/// Whether `key` stands at place `i`.
spec fn stands_at<N>(v: Seq<(String, Vec<(u64, N)>)>, key: Seq<char>, i: int) -> bool {
    0 <= i < v.len() && v[i].0@ == key
}

/// The mapping that the list stands for.
spec fn series_of<N>(v: Seq<(String, Vec<(u64, N)>)>) -> Series<N> {
    Map::new(
        |k: Seq<char>| exists|i: int| stands_at(v, k, i),
        |k: Seq<char>| v[choose|i: int| stands_at(v, k, i)].1@,
    )
}

impl<N> RateTracker<N> {
    #[verifier::type_invariant]
    spec fn wf(self) -> bool {
        keyed(self.series@)
    }

    /// How long a point may serve as a baseline, in nanoseconds.
    pub closed spec fn window(self) -> u64 {
        self.window
    }
}

impl<N> View for RateTracker<N> {
    type V = Series<N>;

    closed spec fn view(&self) -> Series<N> {
        series_of(self.series@)
    }
}

proof fn series_entry<N>(v: Seq<(String, Vec<(u64, N)>)>, i: int)
    requires
        keyed(v),
        0 <= i < v.len(),
    ensures
        series_of(v).contains_key(v[i].0@),
        series_of(v)[v[i].0@] == v[i].1@,
{
    assert(stands_at(v, v[i].0@, i));
}

/// The points kept once `value` is seen at `now`.
fn observe<N: Num>(h: &Vec<(u64, N)>, now: u64, value: N, window: u64) -> (r: Vec<(u64, N)>)
    ensures
        r@ == observed(h@, now, value, window),
{
    let n: usize = h.len();
    let mut reset = false;
    let mut i: usize = 0;
    while i < n && !reset
        invariant
            i <= n,
            n == h@.len(),
            reset ==> was_reset(h@, value),
            !reset ==> forall|j: int| 0 <= j < i ==> !value.less_spec((#[trigger] h@[j]).1),
        decreases
            n - i + if reset {
                0int
            } else {
                1
            },
    {
        if value.less(h[i].1) {
            reset = true;
        } else {
            i += 1;
        }
    }
    let mut kept: Vec<(u64, N)> = Vec::new();
    if !reset {
        let mut i: usize = 0;
        while i < n
            invariant
                i <= n,
                n == h@.len(),
                kept@ == h@.take(i as int),
            decreases n - i,
        {
            kept.push(h[i]);
            i += 1;
            assert(kept@ =~= h@.take(i as int));
        }
        assert(kept@ =~= h@);
    }
    kept.push((now, value));
    let ghost full = kept@;
    while kept.len() > 1 && now.saturating_sub(kept[0].0) > window
        invariant
            unexpired(full, now, window) == unexpired(kept@, now, window),
        decreases kept@.len(),
    {
        let ghost was = kept@;
        let first = kept.remove(0);
        assert(kept@ =~= was.drop_first());
    }
    kept
}

/// The rate from the first to the last point.
fn slope_of<N: Num>(h: &Vec<(u64, N)>) -> (r: Option<N>)
    ensures
        r == slope(h@),
{
    let n: usize = h.len();
    if n < 2 {
        return None;
    }
    let dt: u64 = h[n - 1].0.saturating_sub(h[0].0);
    if dt == 0 {
        return None;
    }
    Some(floored(h[n - 1].1.minus(h[0].1).over(N::of_nanos(dt))))
}

impl<N: Num> Default for RateTracker<N> {
    fn default() -> (r: Self)
        ensures
            r@ == Map::<Seq<char>, Seq<(u64, N)>>::empty(),
            r.window() == RATE_WINDOW,
    {
        RateTracker::with_window(RATE_WINDOW)
    }
}

impl<N: Num> RateTracker<N> {
    pub fn with_window(window: u64) -> (r: Self)
        ensures
            r@ == Map::<Seq<char>, Seq<(u64, N)>>::empty(),
            r.window() == window,
    {
        let r = RateTracker { window, series: Vec::new() };
        assert(r@ =~= Map::empty());
        r
    }

    /// Observe `value` for `key` at `now`, then report the rate over the retained
    /// window. `None` while fewer than two points exist (no baseline yet: render
    /// N/A, not 0) or when no two points are time-separated.
    pub fn rate(&mut self, key: &str, now: u64, value: N) -> (r: Option<N>)
        ensures
            final(self).window() == old(self).window(),
            final(self)@ == old(self)@.insert(
                key@,
                observed(history(old(self)@, key@), now, value, old(self).window()),
            ),
            r == slope(observed(history(old(self)@, key@), now, value, old(self).window())),
    {
        proof {
            use_type_invariant(&*self);
        }
        let mut series: Vec<(String, Vec<(u64, N)>)> = Vec::new();
        std::mem::swap(&mut series, &mut self.series);
        let ghost before = series@;
        let n: usize = series.len();
        let mut i: usize = 0;
        while i < n && !same(series[i].0.as_str(), key)
            invariant
                i <= n,
                n == series@.len(),
                forall|j: int| 0 <= j < i ==> (#[trigger] series@[j]).0@ != key@,
            decreases n - i,
        {
            i += 1;
        }
        let h = if i < n {
            proof {
                series_entry(before, i as int);
            }
            observe(&series[i].1, now, value, self.window)
        } else {
            assert(!series_of(before).contains_key(key@));
            observe(&Vec::new(), now, value, self.window)
        };
        let r = slope_of(&h);
        let ghost hv = h@;
        if i < n {
            series[i] = (key.to_owned(), h);
        } else {
            series.push((key.to_owned(), h));
        }
        proof {
            let a = series_of(before).insert(key@, hv);
            let v = series@;
            assert(keyed(v));
            assert forall|k: Seq<char>| series_of(v).contains_key(k) == a.contains_key(k) by {
                if k == key@ {
                    assert(stands_at(v, k, i as int));
                } else if series_of(v).contains_key(k) {
                    let j = choose|j: int| stands_at(v, k, j);
                    assert(stands_at(before, k, j));
                } else if series_of(before).contains_key(k) {
                    let j = choose|j: int| stands_at(before, k, j);
                    assert(stands_at(v, k, j));
                }
            }
            assert forall|k: Seq<char>| series_of(v).contains_key(k) implies #[trigger] series_of(
                v,
            )[k] == a[k] by {
                let j = choose|j: int| stands_at(v, k, j);
                series_entry(v, j);
                if k != key@ {
                    series_entry(before, j);
                }
            }
            assert(series_of(v) =~= a);
        }
        self.series = series;
        r
    }

    /// The rate of each of `pts`, observed at `now` in order.
    pub fn rate_each(&mut self, now: u64, pts: &Vec<(String, N)>) -> (r: Vec<Option<N>>)
        ensures
            final(self).window() == old(self).window(),
            final(self)@ == observed_all(old(self)@, old(self).window(), now, points_view(pts@)),
            r@ == rates_of(old(self)@, old(self).window(), now, points_view(pts@)),
    {
        let mut out: Vec<Option<N>> = Vec::new();
        let ghost all = points_view(pts@);
        let mut i: usize = 0;
        assert(all.take(0) =~= Seq::empty());
        while i < pts.len()
            invariant
                i <= pts@.len(),
                all == points_view(pts@),
                self.window() == old(self).window(),
                self@ == observed_all(old(self)@, old(self).window(), now, all.take(i as int)),
                out@ == rates_of(old(self)@, old(self).window(), now, all.take(i as int)),
            decreases pts@.len() - i,
        {
            let r = self.rate(pts[i].0.as_str(), now, pts[i].1);
            out.push(r);
            i += 1;
            assert(all.take(i as int).drop_last() =~= all.take(i - 1));
        }
        assert(all.take(all.len() as int) =~= all);
        out
    }

    /// Summed rate over a group of label sets (rates are additive across label
    /// sets that measure the same quantity). `None` only when *no* member has a
    /// usable baseline yet.
    pub fn rate_sum(&mut self, now: u64, pts: &Vec<(String, N)>) -> (r: Option<N>)
        ensures
            final(self).window() == old(self).window(),
            final(self)@ == observed_all(old(self)@, old(self).window(), now, points_view(pts@)),
            r == sum_known(rates_of(old(self)@, old(self).window(), now, points_view(pts@))),
    {
        let rs = self.rate_each(now, pts);
        known_sum(&rs)
    }

    /// Drop tracking state for keys the scrape no longer contains (rank set
    /// shrank, model reloaded) so a disappeared label set can't pin memory.
    pub fn retain<F: Fn(&str) -> bool>(&mut self, keep: F)
        requires
            forall|s: &str| call_requires(keep, (s,)),
        ensures
            final(self).window() == old(self).window(),
            forall|k: Seq<char>| #[trigger]
                final(self)@.contains_key(k) ==> old(self)@.contains_key(k) && final(self)@[k]
                    == old(self)@[k],
            forall|k: Seq<char>| #[trigger]
                old(self)@.contains_key(k) ==> answers(keep, k, final(self)@.contains_key(k)),
    {
        proof {
            use_type_invariant(&*self);
        }
        let mut series: Vec<(String, Vec<(u64, N)>)> = Vec::new();
        let ghost map = self@;
        std::mem::swap(&mut series, &mut self.series);
        let mut i: usize = 0;
        while i < series.len()
            invariant
                forall|s: &str| call_requires(keep, (s,)),
                i <= series@.len(),
                self.window() == old(self).window(),
                keyed(series@),
                forall|k: Seq<char>| #[trigger]
                    series_of(series@).contains_key(k) ==> map.contains_key(k) && series_of(
                        series@,
                    )[k] == map[k],
                forall|k: Seq<char>| #[trigger]
                    map.contains_key(k) ==> series_of(series@).contains_key(k) || answers(
                        keep,
                        k,
                        false,
                    ),
                forall|j: int| 0 <= j < i ==> answers(keep, (#[trigger] series@[j]).0@, true),
            decreases series@.len() - i,
        {
            let ghost was = series@;
            let key = series[i].0.as_str();
            let b = keep(key);
            assert(answers(keep, key@, b)) by {
                assert(key@ == key@ && call_ensures(keep, (key,), b));
            }
            if b {
                i += 1;
            } else {
                let gone = series.remove(i);
                proof {
                    removed_entry(was, i as int);
                    assert(series@ =~= was.remove(i as int));
                }
            }
        }
        proof {
            let v = series@;
            assert forall|k: Seq<char>| #[trigger] map.contains_key(k) implies answers(
                keep,
                k,
                series_of(v).contains_key(k),
            ) by {
                if series_of(v).contains_key(k) {
                    let j = choose|j: int| stands_at(v, k, j);
                    assert(v[j].0@ == k);
                }
            }
        }
        self.series = series;
    }
}

proof fn removed_entry<N>(v: Seq<(String, Vec<(u64, N)>)>, i: int)
    requires
        keyed(v),
        0 <= i < v.len(),
    ensures
        keyed(v.remove(i)),
        series_of(v.remove(i)) == series_of(v).remove(v[i].0@),
{
    let w = v.remove(i);
    let a = series_of(v).remove(v[i].0@);
    assert forall|k: Seq<char>| series_of(w).contains_key(k) == a.contains_key(k) by {
        if series_of(w).contains_key(k) {
            let j = choose|j: int| stands_at(w, k, j);
            let jv = if j < i {
                j
            } else {
                j + 1
            };
            assert(v[jv] == w[j]);
            assert(stands_at(v, k, jv));
        }
        if a.contains_key(k) {
            let j = choose|j: int| stands_at(v, k, j);
            let jw = if j < i {
                j
            } else {
                j - 1
            };
            assert(j != i);
            assert(stands_at(w, k, jw));
        }
    }
    assert forall|k: Seq<char>| series_of(w).contains_key(k) implies #[trigger] series_of(w)[k]
        == a[k] by {
        let j = choose|j: int| stands_at(w, k, j);
        series_entry(w, j);
        let jv = if j < i {
            j
        } else {
            j + 1
        };
        assert(v[jv] == w[j]);
        series_entry(v, jv);
    }
    assert(series_of(w) =~= a);
}

/// The sum of the rates that are known.
pub fn known_sum<N: Num>(rs: &Vec<Option<N>>) -> (r: Option<N>)
    ensures
        r == sum_known(rs@),
{
    let mut sum: Option<N> = None;
    let mut i: usize = 0;
    assert(rs@.take(0) =~= Seq::empty());
    while i < rs.len()
        invariant
            i <= rs@.len(),
            sum == sum_known(rs@.take(i as int)),
        decreases rs@.len() - i,
    {
        if let Some(r) = rs[i] {
            sum = match sum {
                None => Some(N::zero().plus(r)),
                Some(x) => Some(x.plus(r)),
            };
        }
        i += 1;
        assert(rs@.take(i as int).drop_last() =~= rs@.take(i - 1));
    }
    assert(rs@.take(rs@.len() as int) =~= rs@);
    sum
}

/// The sum of rates that are all known.
pub open spec fn sum_all<N: Num>(rs: Seq<Option<N>>) -> Option<N>
    decreases rs.len(),
{
    if rs.len() == 0 {
        Some(N::zero_spec())
    } else {
        match (sum_all(rs.drop_last()), rs.last()) {
            (Some(s), Some(r)) => Some(s.plus_spec(r)),
            _ => None,
        }
    }
}

/// The sum of rates that are all known.
pub fn sum_every<N: Num>(rs: &Vec<Option<N>>) -> (r: Option<N>)
    ensures
        r == sum_all(rs@),
{
    let mut sum: Option<N> = Some(N::zero());
    let n: usize = rs.len();
    let mut i: usize = 0;
    assert(rs@.take(0) =~= Seq::empty());
    while i < n
        invariant
            i <= n,
            n == rs@.len(),
            sum == sum_all(rs@.take(i as int)),
        decreases n - i,
    {
        assert(rs@.take(i + 1).drop_last() =~= rs@.take(i as int));
        sum = match (sum, rs[i]) {
            (Some(s), Some(r)) => Some(s.plus(r)),
            _ => None,
        };
        i += 1;
    }
    assert(rs@.take(n as int) =~= rs@);
    sum
}

// ---- laws ----

/// A rate is never negative.
pub proof fn rate_is_never_negative<N: Num>(h: Seq<(u64, N)>)
    ensures
        slope(h) matches Some(r) ==> !r.less_spec(N::zero_spec()),
{
    if let Some(r) = slope(h) {
        if r.less_spec(N::zero_spec()) {
            N::less_asymmetric(r, N::zero_spec());
        }
    }
}

/// The first observation of a key, and the first one after a reset, is the only
/// point kept and has no rate.
pub proof fn baseline_has_no_rate<N: Num>(h: Seq<(u64, N)>, now: u64, value: N, window: u64)
    requires
        h.len() == 0 || was_reset(h, value),
    ensures
        observed(h, now, value, window) == seq![(now, value)],
        slope(observed(h, now, value, window)) is None,
{
    assert(observed(h, now, value, window) =~= seq![(now, value)]);
}

proof fn unexpired_keeps_the_tail<N>(h: Seq<(u64, N)>, now: u64, window: u64)
    requires
        h.len() > 0,
    ensures
        0 < unexpired(h, now, window).len() <= h.len(),
        unexpired(h, now, window) == h.skip(h.len() - unexpired(h, now, window).len()),
        unexpired(h, now, window).len() > 1 ==> elapsed(now, unexpired(h, now, window)[0].0)
            <= window,
    decreases h.len(),
{
    let u = unexpired(h, now, window);
    if h.len() > 1 && elapsed(now, h[0].0) > window {
        unexpired_keeps_the_tail(h.drop_first(), now, window);
        assert(h.drop_first().skip(h.len() - 1 - u.len()) =~= h.skip(h.len() - u.len()));
    } else {
        assert(h.skip(0) =~= h);
    }
}

/// What is kept ends with the point just seen, is a tail of what was there, and
/// has its baseline inside the window.
pub proof fn baseline_is_inside_the_window<N: Num>(
    h: Seq<(u64, N)>,
    now: u64,
    value: N,
    window: u64,
)
    ensures
        observed(h, now, value, window).len() > 0,
        observed(h, now, value, window).last() == (now, value),
        observed(h, now, value, window).len() > 1 ==> elapsed(
            now,
            observed(h, now, value, window)[0].0,
        ) <= window,
        !was_reset(h, value) ==> observed(h, now, value, window) == h.push((now, value)).skip(
            h.len() + 1 - observed(h, now, value, window).len(),
        ),
{
    unexpired_keeps_the_tail(h.push((now, value)), now, window);
    unexpired_keeps_the_tail(Seq::empty().push((now, value)), now, window);
}

/// Two observations at one instant are no time apart and give no rate.
pub proof fn one_instant_gives_no_rate<N: Num>(a: N, b: N, now: u64, window: u64)
    ensures
        slope(observed(seq![(now, a)], now, b, window)) is None,
{
    unexpired_keeps_the_tail(seq![(now, a)].push((now, b)), now, window);
    unexpired_keeps_the_tail(Seq::empty().push((now, b)), now, window);
}

/// There is one rate for each observed point.
pub proof fn one_rate_per_point<N: Num>(
    s: Series<N>,
    window: u64,
    now: u64,
    pts: Seq<(Seq<char>, N)>,
)
    ensures
        rates_of(s, window, now, pts).len() == pts.len(),
    decreases pts.len(),
{
    if pts.len() > 0 {
        one_rate_per_point(s, window, now, pts.drop_last());
    }
}

}
