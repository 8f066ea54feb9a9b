//! Bucket histograms to windowed percentiles.
//!
//! - `_bucket` counters are cumulative in `le` and flush in bursts. The
//!   scrape-to-scrape delta of each bucket is one frame's worth of new
//!   observations; differencing across `le` turns cumulative deltas into
//!   per-interval counts. A first scrape has no delta: percentiles are `None`
//!   (N/A), never fabricated.
//! - Frames accumulate in a sliding window; a quantile merges the window and
//!   interpolates linearly inside the bucket holding the rank.
//! - `mean` rides the same window via `_sum` and `_count` deltas.
//! - Only the rendered families are baselined: memory follows the consumers.
use crate::model::snapshot::{LatencySet, Percentile};
use crate::num::{floored, floored_spec, total, Num};
use crate::poll::prom::{Metrics, Sample, SampleView};
use crate::poll::rate::elapsed;
use crate::text::{comes_before, has_suffix, same, strip_suffix, text_less, text_less_total,
    text_less_transitive};
use vstd::prelude::*;
use vstd::string::*;

verus! {

/// How long a frame counts, in nanoseconds.
pub const HIST_WINDOW: u64 = 30_000_000_000;

/// The latency families that are drawn, by metric base. Names are *chosen*, not
/// required: a rename degrades its row to N/A.
pub const FAMILIES: [&'static str; 4] = [
    "sglang:queue_time_seconds",
    "sglang:time_to_first_token_seconds",
    "sglang:inter_token_latency_seconds",
    "sglang:e2e_request_latency_seconds",
];

/// Request-length histograms tracked for their *windowed* mean only (no
/// percentiles drawn): an all-time mean goes stale, the window's mean says what
/// the traffic is *now*. Buckets aren't recorded for these families.
pub const MEAN_ONLY: [&'static str; 3] = [
    "sglang:prompt_tokens_histogram",
    "sglang:generation_tokens_histogram",
    "sglang:uncached_prompt_tokens_histogram",
];

/// Whether percentiles are drawn for `base`.
pub open spec fn is_family(base: Seq<char>) -> bool {
    exists|i: int| 0 <= i < 4 && (#[trigger] FAMILIES@[i])@ == base
}

/// Whether only the windowed mean is drawn for `base`.
pub open spec fn is_mean_only(base: Seq<char>) -> bool {
    exists|i: int| 0 <= i < 3 && (#[trigger] MEAN_ONLY@[i])@ == base
}

fn family(base: &str) -> (r: bool)
    ensures
        r == is_family(base@),
{
    let mut i: usize = 0;
    while i < 4
        invariant
            i <= 4,
            forall|j: int| 0 <= j < i ==> (#[trigger] FAMILIES@[j])@ != base@,
        decreases 4 - i,
    {
        if same(FAMILIES[i], base) {
            assert(FAMILIES@[i as int]@ == base@);
            return true;
        }
        i += 1;
    }
    false
}

fn mean_only(base: &str) -> (r: bool)
    ensures
        r == is_mean_only(base@),
{
    let mut i: usize = 0;
    while i < 3
        invariant
            i <= 3,
            forall|j: int| 0 <= j < i ==> (#[trigger] MEAN_ONLY@[j])@ != base@,
        decreases 3 - i,
    {
        if same(MEAN_ONLY[i], base) {
            assert(MEAN_ONLY@[i as int]@ == base@);
            return true;
        }
        i += 1;
    }
    false
}

/// Whether two representations are the same.
fn same_num<N: Num>(a: N, b: N) -> (r: bool)
    ensures
        r == (a == b),
{
    proof {
        N::below_total(a, b);
        if a.below_spec(b) {
            N::below_asymmetric(a, b);
        }
        if b.below_spec(a) {
            N::below_asymmetric(b, a);
        }
    }
    !a.below(b) && !b.below(a)
}

// ---- one series ----

/// One bucket interval's new observations: `count` of them in `(lower, upper]`.
#[derive(Clone, Copy)]
pub struct Interval<N> {
    pub lower: N,
    pub upper: N,
    pub count: N,
}

/// What is known of one histogram series.
#[verifier::ext_equal]
#[verifier::reject_recursive_types(N)]
pub struct SubjectView<N> {
    /// The last cumulative count of each bucket, by its upper edge.
    pub buckets: Map<N, N>,
    /// The frames with new observations, oldest first.
    pub window: Seq<(u64, Seq<Interval<N>>)>,
    pub sum: Option<N>,
    pub count: Option<N>,
    /// The growth of sum and count, scrape by scrape, oldest first.
    pub sums: Seq<(u64, (N, N))>,
}

/// One histogram series (label set without `le`) plus its sum and count.
struct Subject<N> {
    prev_bucket: Vec<(N, N)>,
    /// One entry per scrape with at least one new observation. Each interval
    /// carries its own true bounds: its lower bound is the bucket edge just below
    /// it on the full staircase, even when that edge's own interval is empty.
    window: Vec<(u64, Vec<Interval<N>>)>,
    prev_sum: Option<N>,
    prev_count: Option<N>,
    sums: Vec<(u64, (N, N))>,
}

/// The mapping that a list of assignments leaves; a later one wins.
pub open spec fn assigned<N>(v: Seq<(N, N)>) -> Map<N, N>
    decreases v.len(),
{
    if v.len() == 0 {
        Map::empty()
    } else {
        assigned(v.drop_last()).insert(v.last().0, v.last().1)
    }
}

/// The frames of a window.
pub open spec fn frames_view<N>(v: Seq<(u64, Vec<Interval<N>>)>) -> Seq<(u64, Seq<Interval<N>>)> {
    v.map_values(|f: (u64, Vec<Interval<N>>)| (f.0, f.1@))
}

impl<N> View for Subject<N> {
    type V = SubjectView<N>;

    closed spec fn view(&self) -> SubjectView<N> {
        SubjectView {
            buckets: assigned(self.prev_bucket@),
            window: frames_view(self.window@),
            sum: self.prev_sum,
            count: self.prev_count,
            sums: self.sums@,
        }
    }
}

/// A series of which nothing is known yet.
pub open spec fn fresh_subject<N>() -> SubjectView<N> {
    SubjectView {
        buckets: Map::empty(),
        window: Seq::empty(),
        sum: None,
        count: None,
        sums: Seq::empty(),
    }
}

/// How far the reading of one scrape's buckets has come.
#[verifier::ext_equal]
#[verifier::reject_recursive_types(N)]
pub struct Staircase<N> {
    pub buckets: Map<N, N>,
    /// The cumulative growth of the bucket just read.
    pub grown: N,
    /// The last finite edge.
    pub edge: N,
    pub found: Seq<Interval<N>>,
}

/// The growth of one bucket: nought on first sight (no baseline, no fake sample)
/// and on a reset.
pub open spec fn bucket_growth<N: Num>(seen: Map<N, N>, b: (N, N)) -> N {
    if seen.contains_key(b.0) {
        floored_spec(b.1.minus_spec(seen[b.0]))
    } else {
        N::zero_spec()
    }
}

/// Reads one more bucket: what it grew beyond the bucket below is new in the
/// interval from the last finite edge to its own.
pub open spec fn climb<N: Num>(st: Staircase<N>, b: (N, N)) -> Staircase<N> {
    let grown = bucket_growth(st.buckets, b);
    let fresh = floored_spec(grown.minus_spec(st.grown));
    Staircase {
        buckets: st.buckets.insert(b.0, b.1),
        grown,
        edge: if b.0.is_finite_spec() {
            b.0
        } else {
            st.edge
        },
        found: if N::zero_spec().less_spec(fresh) {
            st.found.push(Interval { lower: st.edge, upper: b.0, count: fresh })
        } else {
            st.found
        },
    }
}

/// Reads the buckets of one scrape in order.
pub open spec fn staircase<N: Num>(seen: Map<N, N>, buckets: Seq<(N, N)>) -> Staircase<N>
    decreases buckets.len(),
{
    if buckets.len() == 0 {
        Staircase {
            buckets: seen,
            grown: N::zero_spec(),
            edge: N::zero_spec(),
            found: Seq::empty(),
        }
    } else {
        climb(staircase(seen, buckets.drop_last()), buckets.last())
    }
}

/// `s` with `b` behind every bucket whose edge is not larger.
pub open spec fn with_bucket<N: Num>(s: Seq<(N, N)>, b: (N, N)) -> Seq<(N, N)>
    decreases s.len(),
{
    if s.len() > 0 && b.0.less_spec(s.last().0) {
        with_bucket(s.drop_last(), b).push(s.last())
    } else {
        s.push(b)
    }
}

/// The buckets by ascending edge; equal edges keep their order.
pub open spec fn by_edge<N: Num>(s: Seq<(N, N)>) -> Seq<(N, N)>
    decreases s.len(),
{
    if s.len() == 0 {
        s
    } else {
        with_bucket(by_edge(s.drop_last()), s.last())
    }
}

/// What one scrape says of a series.
#[verifier::ext_equal]
pub struct ScrapedView<N> {
    pub buckets: Seq<(N, N)>,
    pub sum: Option<N>,
    pub count: Option<N>,
}

/// `s` without the leading frames that are older than the window.
pub open spec fn in_window<T>(s: Seq<(u64, T)>, now: u64) -> Seq<(u64, T)>
    decreases s.len(),
{
    if s.len() > 0 && elapsed(now, s[0].0) > HIST_WINDOW {
        in_window(s.drop_first(), now)
    } else {
        s
    }
}

/// The growth of sum and count, where both have a baseline and the count grew.
pub open spec fn sum_growth<N: Num>(
    s: SubjectView<N>,
    sc: ScrapedView<N>,
) -> Option<(N, N)> {
    match (sc.sum, sc.count, s.sum, s.count) {
        (Some(a), Some(c), Some(pa), Some(pc)) => {
            let dc = floored_spec(c.minus_spec(pc));
            if N::zero_spec().less_spec(dc) {
                Some((floored_spec(a.minus_spec(pa)), dc))
            } else {
                None
            }
        },
        _ => None,
    }
}

/// A reading where there is one, else the last one.
pub open spec fn latest<N>(new: Option<N>, old: Option<N>) -> Option<N> {
    match new {
        Some(v) => Some(v),
        None => old,
    }
}

/// A series once a scrape was recorded.
pub open spec fn recorded<N: Num>(
    s: SubjectView<N>,
    sc: ScrapedView<N>,
    now: u64,
) -> SubjectView<N> {
    let st = staircase(s.buckets, by_edge(sc.buckets));
    SubjectView {
        buckets: st.buckets,
        window: in_window(
            if st.found.len() > 0 {
                s.window.push((now, st.found))
            } else {
                s.window
            },
            now,
        ),
        sum: latest(sc.sum, s.sum),
        count: latest(sc.count, s.count),
        sums: in_window(
            match sum_growth(s, sc) {
                Some(g) => s.sums.push((now, g)),
                None => s.sums,
            },
            now,
        ),
    }
}

proof fn assigned_last<N>(v: Seq<(N, N)>, i: int, x: N)
    requires
        0 <= i < v.len(),
        forall|j: int| i < j < v.len() ==> (#[trigger] v[j]).0 != v[i].0,
    ensures
        assigned(v).contains_key(v[i].0),
        assigned(v)[v[i].0] == v[i].1,
        assigned(v.update(i, (v[i].0, x))) == assigned(v).insert(v[i].0, x),
    decreases v.len(),
{
    let k = v[i].0;
    let u = v.update(i, (k, x));
    let d = v.drop_last();
    if i == v.len() - 1 {
        assert(u.drop_last() =~= d);
        assert(assigned(u) =~= assigned(v).insert(k, x));
    } else {
        assert(v.last().0 != k);
        assigned_last(d, i, x);
        assert(u.drop_last() =~= d.update(i, (k, x)));
        assert(assigned(u) =~= assigned(v).insert(k, x));
    }
}

proof fn assigned_none<N>(v: Seq<(N, N)>, k: N)
    requires
        forall|j: int| 0 <= j < v.len() ==> (#[trigger] v[j]).0 != k,
    ensures
        !assigned(v).contains_key(k),
    decreases v.len(),
{
    if v.len() > 0 {
        assert(v.last().0 != k);
        assigned_none(v.drop_last(), k);
    }
}

/// Assigns `x` to `k` and hands back what was assigned before.
fn assign<N: Num>(v: &mut Vec<(N, N)>, k: N, x: N) -> (r: Option<N>)
    ensures
        assigned(final(v)@) == assigned(old(v)@).insert(k, x),
        r == if assigned(old(v)@).contains_key(k) {
            Some(assigned(old(v)@)[k])
        } else {
            None
        },
{
    let mut i: usize = v.len();
    while i > 0
        invariant
            i <= v@.len(),
            v@ == old(v)@,
            forall|j: int| i <= j < v@.len() ==> (#[trigger] v@[j]).0 != k,
        decreases i,
    {
        i -= 1;
        if same_num(v[i].0, k) {
            let was = v[i].1;
            proof {
                assigned_last(v@, i as int, x);
            }
            v[i] = (k, x);
            return Some(was);
        }
    }
    proof {
        assigned_none(v@, k);
        assert(v@.push((k, x)).drop_last() =~= v@);
    }
    v.push((k, x));
    None
}

/// Drops the leading entries that are older than the window.
fn expire<T>(v: &mut Vec<(u64, T)>, now: u64)
    ensures
        final(v)@ == in_window(old(v)@, now),
{
    while v.len() > 0 && now.saturating_sub(v[0].0) > HIST_WINDOW
        invariant
            in_window(old(v)@, now) == in_window(v@, now),
        decreases v@.len(),
    {
        let ghost was = v@;
        let first = v.remove(0);
        assert(v@ =~= was.drop_first());
    }
}

proof fn in_window_frames<N>(v: Seq<(u64, Vec<Interval<N>>)>, now: u64)
    ensures
        frames_view(in_window(v, now)) == in_window(frames_view(v), now),
    decreases v.len(),
{
    if v.len() > 0 && elapsed(now, v[0].0) > HIST_WINDOW {
        in_window_frames(v.drop_first(), now);
        assert(frames_view(v.drop_first()) =~= frames_view(v).drop_first());
    }
}

/// The buckets by ascending edge.
fn sort_buckets<N: Num>(v: &Vec<(N, N)>) -> (r: Vec<(N, N)>)
    ensures
        r@ == by_edge(v@),
{
    let mut out: Vec<(N, N)> = Vec::new();
    let n: usize = v.len();
    let mut i: usize = 0;
    while i < n
        invariant
            i <= n,
            n == v@.len(),
            out@ == by_edge(v@.take(i as int)),
        decreases n - i,
    {
        let b = v[i];
        let ghost all = out@;
        let mut at: usize = out.len();
        assert(all.take(at as int) =~= all);
        assert(with_bucket(all, b) =~= with_bucket(all.take(at as int), b) + all.skip(at as int));
        while at > 0 && b.0.less(out[at - 1].0)
            invariant
                at <= out@.len(),
                all == out@,
                with_bucket(all, b) == with_bucket(all.take(at as int), b) + all.skip(at as int),
            decreases at,
        {
            assert(all.take(at as int).drop_last() =~= all.take(at - 1));
            assert(with_bucket(all.take(at - 1), b).push(all[at - 1]) + all.skip(at as int)
                =~= with_bucket(all.take(at - 1), b) + all.skip(at - 1));
            at -= 1;
        }
        assert(with_bucket(all.take(at as int), b) == all.take(at as int).push(b));
        out.insert(at, b);
        assert(out@ =~= all.take(at as int).push(b) + all.skip(at as int));
        i += 1;
        assert(v@.take(i as int).drop_last() =~= v@.take(i - 1));
    }
    assert(v@.take(n as int) =~= v@);
    out
}

impl<N: Num> Subject<N> {
    fn new() -> (r: Self)
        ensures
            r@ == fresh_subject::<N>(),
    {
        let r = Subject {
            prev_bucket: Vec::new(),
            window: Vec::new(),
            prev_sum: None,
            prev_count: None,
            sums: Vec::new(),
        };
        assert(r@ =~= fresh_subject::<N>());
        r
    }

    /// `buckets` by ascending edge. Scrape-to-scrape deltas of cumulative buckets
    /// are themselves cumulative: differencing across the edges turns them into
    /// per-interval counts, one window frame per scrape.
    fn record_buckets(&mut self, now: u64, buckets: &Vec<(N, N)>)
        ensures
            final(self)@ == (SubjectView {
                buckets: staircase(old(self)@.buckets, buckets@).buckets,
                window: if staircase(old(self)@.buckets, buckets@).found.len() > 0 {
                    old(self)@.window.push((now, staircase(old(self)@.buckets, buckets@).found))
                } else {
                    old(self)@.window
                },
                ..old(self)@
            }),
    {
        let ghost before = self@;
        let ghost window = self.window@;
        let mut found: Vec<Interval<N>> = Vec::new();
        let mut grown = N::zero();
        let mut edge = N::zero();
        let n: usize = buckets.len();
        let mut i: usize = 0;
        assert(buckets@.take(0) =~= Seq::empty());
        while i < n
            invariant
                i <= n,
                n == buckets@.len(),
                staircase(before.buckets, buckets@.take(i as int)) == (Staircase {
                    buckets: assigned(self.prev_bucket@),
                    grown,
                    edge,
                    found: found@,
                }),
                self.window@ == window,
                self.sums@ == before.sums,
                self.prev_sum == before.sum,
                self.prev_count == before.count,
            decreases n - i,
        {
            let le = buckets[i].0;
            let v = buckets[i].1;
            let d = match assign(&mut self.prev_bucket, le, v) {
                None => N::zero(),
                Some(was) => floored(v.minus(was)),
            };
            let fresh = floored(d.minus(grown));
            grown = d;
            if N::zero().less(fresh) {
                found.push(Interval { lower: edge, upper: le, count: fresh });
            }
            // Only finite edges advance the ladder: the open-ended bucket sorts
            // last, and a duplicate of it must not shift the lower bound.
            if le.is_finite() {
                edge = le;
            }
            i += 1;
            assert(buckets@.take(i as int).drop_last() =~= buckets@.take(i - 1));
        }
        assert(buckets@.take(n as int) =~= buckets@);
        if found.len() > 0 {
            let ghost f = found@;
            self.window.push((now, found));
            assert(frames_view(self.window@) =~= frames_view(window).push((now, f)));
        }
    }

    fn record_sum_count(&mut self, now: u64, sum: Option<N>, count: Option<N>)
        ensures
            final(self)@ == (SubjectView {
                sum: latest(sum, old(self)@.sum),
                count: latest(count, old(self)@.count),
                sums: match sum_growth(
                    old(self)@,
                    ScrapedView { buckets: Seq::empty(), sum, count },
                ) {
                    Some(g) => old(self)@.sums.push((now, g)),
                    None => old(self)@.sums,
                },
                ..old(self)@
            }),
    {
        if let (Some(s), Some(c)) = (sum, count) {
            if let (Some(ps), Some(pc)) = (self.prev_sum, self.prev_count) {
                let ds = floored(s.minus(ps));
                let dc = floored(c.minus(pc));
                if N::zero().less(dc) {
                    self.sums.push((now, (ds, dc)));
                }
            }
        }
        if let Some(s) = sum {
            self.prev_sum = Some(s);
        }
        if let Some(c) = count {
            self.prev_count = Some(c);
        }
    }

    /// Records one scrape and drops what has left the window.
    fn record(&mut self, now: u64, buckets: &Vec<(N, N)>, sum: Option<N>, count: Option<N>)
        ensures
            final(self)@ == recorded(
                old(self)@,
                ScrapedView { buckets: buckets@, sum, count },
                now,
            ),
    {
        let sorted = sort_buckets(buckets);
        self.record_buckets(now, &sorted);
        self.record_sum_count(now, sum, count);
        proof {
            in_window_frames(self.window@, now);
        }
        expire(&mut self.window, now);
        expire(&mut self.sums, now);
    }
}

// ---- grouping a scrape ----

/// What a sample's name says of a histogram.
pub enum Kind {
    Bucket,
    Sum,
    Count,
}

/// The histogram base of a metric name, and which of its series it is.
pub open spec fn base_of(name: Seq<char>) -> Option<(Seq<char>, Kind)> {
    if has_suffix(name, "_bucket"@) {
        Some((name.take(name.len() - "_bucket"@.len()), Kind::Bucket))
    } else if has_suffix(name, "_sum"@) {
        Some((name.take(name.len() - "_sum"@.len()), Kind::Sum))
    } else if has_suffix(name, "_count"@) {
        Some((name.take(name.len() - "_count"@.len()), Kind::Count))
    } else {
        None
    }
}

fn split_base(name: &str) -> (r: Option<(String, Kind)>)
    ensures
        base_of(name@) == (match r {
            Some((b, k)) => Some((b@, k)),
            None => None,
        }),
{
    match strip_suffix(name, "_bucket") {
        Some(b) => {
            return Some((b, Kind::Bucket));
        },
        None => {},
    }
    match strip_suffix(name, "_sum") {
        Some(b) => {
            return Some((b, Kind::Sum));
        },
        None => {},
    }
    match strip_suffix(name, "_count") {
        Some(b) => Some((b, Kind::Count)),
        None => None,
    }
}

/// `k=v,` for each label but `le`: identifies one histogram series.
pub open spec fn subject_key_of(labels: Seq<(Seq<char>, Seq<char>)>) -> Seq<char>
    decreases labels.len(),
{
    if labels.len() == 0 {
        Seq::empty()
    } else {
        let head = subject_key_of(labels.drop_last());
        let l = labels.last();
        if l.0 == "le"@ {
            head
        } else {
            (head + l.0).push('=') + l.1.push(',')
        }
    }
}

/// Labels without `le`: identifies one histogram series.
fn subject_key<N>(x: &Sample<N>) -> (r: String)
    ensures
        r@ == subject_key_of(x@.labels),
{
    let mut s = String::new();
    let ghost all = x@.labels;
    let n: usize = x.labels.len();
    let mut i: usize = 0;
    assert(all.take(0) =~= Seq::empty());
    while i < n
        invariant
            i <= n,
            n == x.labels@.len(),
            all == x@.labels,
            s@ == subject_key_of(all.take(i as int)),
        decreases n - i,
    {
        assert(all.take(i + 1).drop_last() =~= all.take(i as int));
        let ghost head = s@;
        if !same(x.labels[i].0.as_str(), "le") {
            s.append(x.labels[i].0.as_str());
            s.push('=');
            s.append(x.labels[i].1.as_str());
            s.push(',');
            assert(s@ =~= (head + all[i as int].0).push('=') + all[i as int].1.push(','));
        }
        i += 1;
    }
    assert(all.take(n as int) =~= all);
    s
}

/// The upper edge that a `le` label stands for; a malformed one is not trusted.
pub open spec fn edge_of<N: Num>(le: Option<Seq<char>>) -> Option<N> {
    match le {
        Some(t) => if t == "+Inf"@ {
            Some(N::infinity_spec())
        } else {
            match N::read_spec(t) {
                Some(v) => if v.is_finite_spec() {
                    Some(v)
                } else {
                    None
                },
                None => None,
            }
        },
        None => None,
    }
}

/// What one sample adds to its series.
pub enum Part<N> {
    /// The series is there, but the sample is not used.
    Nothing,
    Bucket(N, N),
    Sum(N),
    Count(N),
}

/// The family, the series and the addition of a sample; nothing for one that is
/// not tracked or whose value is negative or not finite.
pub open spec fn part_of<N: Num>(x: SampleView<N>) -> Option<((Seq<char>, Seq<char>), Part<N>)> {
    match base_of(x.name) {
        None => None,
        Some((base, kind)) => if (!is_family(base) && !is_mean_only(base))
            || !x.value.is_finite_spec() || x.value.less_spec(N::zero_spec()) {
            None
        } else {
            Some(
                (
                    (base, subject_key_of(x.labels)),
                    match kind {
                        Kind::Bucket => if is_mean_only(base) {
                            Part::Nothing
                        } else {
                            match edge_of::<N>(x.label("le"@)) {
                                Some(le) => Part::Bucket(le, x.value),
                                None => Part::Nothing,
                            }
                        },
                        Kind::Sum => Part::Sum(x.value),
                        Kind::Count => Part::Count(x.value),
                    },
                ),
            )
        },
    }
}

fn sample_part<N: Num>(x: &Sample<N>) -> (r: Option<(String, String, Part<N>)>)
    ensures
        part_of(x@) == (match r {
            Some((b, k, p)) => Some(((b@, k@), p)),
            None => None,
        }),
{
    match split_base(x.name.as_str()) {
        None => None,
        Some((base, kind)) => {
            let mean = mean_only(base.as_str());
            if (!family(base.as_str()) && !mean) || !x.value.is_finite() || x.value.less(
                N::zero(),
            ) {
                return None;
            }
            let part = match kind {
                Kind::Bucket => if mean {
                    Part::Nothing
                } else {
                    match x.label("le") {
                        Some(t) => if same(t, "+Inf") {
                            Part::Bucket(N::infinity(), x.value)
                        } else {
                            match N::read(t) {
                                Some(v) => if v.is_finite() {
                                    Part::Bucket(v, x.value)
                                } else {
                                    Part::Nothing
                                },
                                None => Part::Nothing,
                            }
                        },
                        None => Part::Nothing,
                    }
                },
                Kind::Sum => Part::Sum(x.value),
                Kind::Count => Part::Count(x.value),
            };
            let key = subject_key(x);
            Some((base, key, part))
        },
    }
}

/// The last place of `id` among `ids`, or -1.
pub open spec fn place(ids: Seq<(Seq<char>, Seq<char>)>, id: (Seq<char>, Seq<char>)) -> int
    decreases ids.len(),
{
    if ids.len() == 0 {
        -1
    } else if ids.last() == id {
        ids.len() - 1
    } else {
        place(ids.drop_last(), id)
    }
}

proof fn place_is(ids: Seq<(Seq<char>, Seq<char>)>, id: (Seq<char>, Seq<char>), i: int)
    requires
        -1 <= i < ids.len(),
        i >= 0 ==> ids[i] == id,
        forall|j: int| i < j < ids.len() ==> #[trigger] ids[j] != id,
    ensures
        place(ids, id) == i,
    decreases ids.len(),
{
    if ids.len() > 0 && i < ids.len() - 1 {
        assert(ids[ids.len() - 1] != id);
        place_is(ids.drop_last(), id, i);
    }
}

/// One series of a scrape.
#[verifier::ext_equal]
pub struct GroupView<N> {
    pub id: (Seq<char>, Seq<char>),
    pub said: ScrapedView<N>,
}

/// The families and series of a list of groups.
pub open spec fn group_ids<N>(gs: Seq<GroupView<N>>) -> Seq<(Seq<char>, Seq<char>)> {
    gs.map_values(|g: GroupView<N>| g.id)
}

/// What a series says with one more part.
pub open spec fn with_part<N>(s: ScrapedView<N>, p: Part<N>) -> ScrapedView<N> {
    match p {
        Part::Nothing => s,
        Part::Bucket(le, v) => ScrapedView { buckets: s.buckets.push((le, v)), ..s },
        Part::Sum(v) => ScrapedView { sum: Some(v), ..s },
        Part::Count(v) => ScrapedView { count: Some(v), ..s },
    }
}

/// The groups with one more part.
pub open spec fn joined<N>(
    gs: Seq<GroupView<N>>,
    id: (Seq<char>, Seq<char>),
    p: Part<N>,
) -> Seq<GroupView<N>> {
    let i = place(group_ids(gs), id);
    if i < 0 {
        gs.push(
            GroupView {
                id,
                said: with_part(
                    ScrapedView { buckets: Seq::empty(), sum: None, count: None },
                    p,
                ),
            },
        )
    } else {
        gs.update(i, GroupView { id, said: with_part(gs[i].said, p) })
    }
}

/// The series of a scrape, in the order of their first sample.
pub open spec fn grouped<N: Num>(m: Seq<SampleView<N>>) -> Seq<GroupView<N>>
    decreases m.len(),
{
    if m.len() == 0 {
        Seq::empty()
    } else {
        let before = grouped(m.drop_last());
        match part_of(m.last()) {
            Some((id, p)) => joined(before, id, p),
            None => before,
        }
    }
}

struct Group<N> {
    base: String,
    key: String,
    buckets: Vec<(N, N)>,
    sum: Option<N>,
    count: Option<N>,
}

impl<N> View for Group<N> {
    type V = GroupView<N>;

    closed spec fn view(&self) -> GroupView<N> {
        GroupView {
            id: (self.base@, self.key@),
            said: ScrapedView { buckets: self.buckets@, sum: self.sum, count: self.count },
        }
    }
}

spec fn groups_view<N>(v: Seq<Group<N>>) -> Seq<GroupView<N>> {
    v.map_values(|g: Group<N>| g@)
}

impl<N: Num> Group<N> {
    fn join(&mut self, p: Part<N>)
        ensures
            final(self)@ == (GroupView {
                id: old(self)@.id,
                said: with_part(old(self)@.said, p),
            }),
    {
        match p {
            Part::Nothing => {},
            Part::Bucket(le, v) => {
                self.buckets.push((le, v));
            },
            Part::Sum(v) => {
                self.sum = Some(v);
            },
            Part::Count(v) => {
                self.count = Some(v);
            },
        }
    }
}

/// Adds one part to the group it belongs to.
fn join<N: Num>(gs: &mut Vec<Group<N>>, base: String, key: String, p: Part<N>)
    ensures
        groups_view(final(gs)@) == joined(groups_view(old(gs)@), (base@, key@), p),
{
    let ghost id = (base@, key@);
    let ghost ids = group_ids(groups_view(gs@));
    let mut i: usize = gs.len();
    while i > 0
        invariant
            i <= gs@.len(),
            gs@ == old(gs)@,
            id == (base@, key@),
            ids == group_ids(groups_view(gs@)),
            forall|j: int| i <= j < gs@.len() ==> #[trigger] ids[j] != id,
        decreases i,
    {
        i -= 1;
        if same(gs[i].base.as_str(), base.as_str()) && same(gs[i].key.as_str(), key.as_str()) {
            proof {
                place_is(ids, id, i as int);
            }
            let mut g = Group {
                base,
                key,
                buckets: Vec::new(),
                sum: gs[i].sum,
                count: gs[i].count,
            };
            let ghost was = gs@[i as int]@;
            std::mem::swap(&mut g.buckets, &mut gs[i].buckets);
            assert(g@ == was);
            g.join(p);
            gs[i] = g;
            assert(groups_view(gs@) =~= joined(groups_view(old(gs)@), id, p));
            return;
        }
        assert(ids[i as int] != id);
    }
    proof {
        place_is(ids, id, -1);
    }
    let mut g = Group { base, key, buckets: Vec::new(), sum: None, count: None };
    assert(g@.said =~= (ScrapedView { buckets: Seq::empty(), sum: None, count: None }));
    g.join(p);
    gs.push(g);
    assert(groups_view(gs@) =~= joined(groups_view(old(gs)@), id, p));
}

/// The series of a scrape.
fn group<N: Num>(m: &Metrics<N>) -> (r: Vec<Group<N>>)
    ensures
        groups_view(r@) == grouped(m@),
{
    let mut gs: Vec<Group<N>> = Vec::new();
    let n: usize = m.samples.len();
    let mut i: usize = 0;
    assert(groups_view(gs@) =~= grouped(m@.take(0)));
    while i < n
        invariant
            i <= n,
            n == m.samples@.len(),
            groups_view(gs@) == grouped(m@.take(i as int)),
        decreases n - i,
    {
        assert(m@.take(i + 1).drop_last() =~= m@.take(i as int));
        match sample_part(&m.samples[i]) {
            Some((base, key, p)) => {
                join(&mut gs, base, key, p);
            },
            None => {},
        }
        i += 1;
    }
    assert(m@.take(n as int) =~= m@);
    gs
}

// ---- the tracked series ----

/// One tracked series: its family and labels, and what is known of it.
#[verifier::ext_equal]
#[verifier::reject_recursive_types(N)]
pub struct EntryView<N> {
    pub id: (Seq<char>, Seq<char>),
    pub sub: SubjectView<N>,
}

/// The families and series of a list of entries.
pub open spec fn entry_ids<N>(s: Seq<EntryView<N>>) -> Seq<(Seq<char>, Seq<char>)> {
    s.map_values(|e: EntryView<N>| e.id)
}

/// By family, then by series.
pub open spec fn id_less(a: (Seq<char>, Seq<char>), b: (Seq<char>, Seq<char>)) -> bool {
    text_less(a.0, b.0) || (a.0 == b.0 && text_less(a.1, b.1))
}

/// `s` with `e` behind every entry that does not come after it.
pub open spec fn with_entry<N>(s: Seq<EntryView<N>>, e: EntryView<N>) -> Seq<EntryView<N>>
    decreases s.len(),
{
    if s.len() > 0 && id_less(e.id, s.last().id) {
        with_entry(s.drop_last(), e).push(s.last())
    } else {
        s.push(e)
    }
}

/// The entries once a series was recorded.
pub open spec fn entry_recorded<N: Num>(
    s: Seq<EntryView<N>>,
    g: GroupView<N>,
    now: u64,
) -> Seq<EntryView<N>> {
    let i = place(entry_ids(s), g.id);
    if i < 0 {
        with_entry(s, EntryView { id: g.id, sub: recorded(fresh_subject(), g.said, now) })
    } else {
        s.update(i, EntryView { id: g.id, sub: recorded(s[i].sub, g.said, now) })
    }
}

/// The entries once all of `gs` were recorded.
pub open spec fn all_recorded<N: Num>(
    s: Seq<EntryView<N>>,
    gs: Seq<GroupView<N>>,
    now: u64,
) -> Seq<EntryView<N>>
    decreases gs.len(),
{
    if gs.len() == 0 {
        s
    } else {
        entry_recorded(all_recorded(s, gs.drop_last(), now), gs.last(), now)
    }
}

/// Whether the scrape still contains the series: a bucket of it, or a count where
/// only the mean is tracked.
pub open spec fn alive<N>(m: Seq<SampleView<N>>, id: (Seq<char>, Seq<char>)) -> bool {
    exists|i: int|
        0 <= i < m.len() && subject_key_of((#[trigger] m[i]).labels) == id.1 && (match base_of(
            m[i].name,
        ) {
            Some((base, Kind::Bucket)) => base == id.0 && is_family(base),
            Some((base, Kind::Count)) => base == id.0 && is_mean_only(base),
            _ => false,
        })
}

/// The entries of which the scrape still contains the series.
pub open spec fn pruned<N>(
    s: Seq<EntryView<N>>,
    m: Seq<SampleView<N>>,
) -> Seq<EntryView<N>> {
    s.filter(|e: EntryView<N>| alive(m, e.id))
}

/// The entries of one family.
pub open spec fn family_of<N>(s: Seq<EntryView<N>>, base: Seq<char>) -> Seq<EntryView<N>> {
    s.filter(|e: EntryView<N>| e.id.0 == base)
}

/// The intervals of the frames inside the window, in order.
pub open spec fn frame_intervals<N>(
    frames: Seq<(u64, Seq<Interval<N>>)>,
    now: u64,
) -> Seq<Interval<N>>
    decreases frames.len(),
{
    if frames.len() == 0 {
        Seq::empty()
    } else {
        let head = frame_intervals(frames.drop_last(), now);
        if elapsed(now, frames.last().0) > HIST_WINDOW {
            head
        } else {
            head + frames.last().1
        }
    }
}

/// The intervals of all entries inside the window, in order.
pub open spec fn all_intervals<N>(s: Seq<EntryView<N>>, now: u64) -> Seq<Interval<N>>
    decreases s.len(),
{
    if s.len() == 0 {
        Seq::empty()
    } else {
        all_intervals(s.drop_last(), now) + frame_intervals(s.last().sub.window, now)
    }
}

/// The growths of sum and count inside the window, in order.
pub open spec fn growths<N>(sums: Seq<(u64, (N, N))>, now: u64) -> Seq<(N, N)>
    decreases sums.len(),
{
    if sums.len() == 0 {
        Seq::empty()
    } else {
        let head = growths(sums.drop_last(), now);
        if elapsed(now, sums.last().0) > HIST_WINDOW {
            head
        } else {
            head.push(sums.last().1)
        }
    }
}

/// The growths of all entries inside the window, in order.
pub open spec fn all_growths<N>(s: Seq<EntryView<N>>, now: u64) -> Seq<(N, N)>
    decreases s.len(),
{
    if s.len() == 0 {
        Seq::empty()
    } else {
        all_growths(s.drop_last(), now) + growths(s.last().sub.sums, now)
    }
}

/// The growth of the sum over all of `g`.
pub open spec fn grown_sum<N: Num>(g: Seq<(N, N)>) -> N {
    total(g.map_values(|p: (N, N)| p.0))
}

/// The growth of the count over all of `g`.
pub open spec fn grown_count<N: Num>(g: Seq<(N, N)>) -> N {
    total(g.map_values(|p: (N, N)| p.1))
}

/// Whether the bounds of `a` come before those of `b`: by lower, then by upper
/// bound.
pub open spec fn bounds_below<N: Num>(a: Interval<N>, b: Interval<N>) -> bool {
    a.lower.below_spec(b.lower) || (a.lower == b.lower && a.upper.below_spec(b.upper))
}

/// Merged intervals with one more: added to the one with its bounds, or put
/// behind every one whose bounds come before.
pub open spec fn merged_with<N: Num>(s: Seq<Interval<N>>, iv: Interval<N>) -> Seq<Interval<N>>
    decreases s.len(),
{
    let fresh = Interval { count: N::zero_spec().plus_spec(iv.count), ..iv };
    if s.len() == 0 {
        seq![fresh]
    } else if s.last().lower == iv.lower && s.last().upper == iv.upper {
        s.drop_last().push(Interval { count: s.last().count.plus_spec(iv.count), ..iv })
    } else if bounds_below(iv, s.last()) {
        merged_with(s.drop_last(), iv).push(s.last())
    } else {
        s.push(fresh)
    }
}

/// The intervals merged by their bounds.
pub open spec fn merged<N: Num>(s: Seq<Interval<N>>) -> Seq<Interval<N>>
    decreases s.len(),
{
    if s.len() == 0 {
        s
    } else {
        merged_with(merged(s.drop_last()), s.last())
    }
}

/// The observations in all of `s`.
pub open spec fn mass<N: Num>(s: Seq<Interval<N>>) -> N {
    total(s.map_values(|iv: Interval<N>| iv.count))
}

/// `s` with `iv` behind every interval whose upper bound does not come after.
pub open spec fn with_upper<N: Num>(s: Seq<Interval<N>>, iv: Interval<N>) -> Seq<Interval<N>>
    decreases s.len(),
{
    if s.len() > 0 && iv.upper.below_spec(s.last().upper) {
        with_upper(s.drop_last(), iv).push(s.last())
    } else {
        s.push(iv)
    }
}

/// The intervals by ascending upper bound; equal ones keep their order.
pub open spec fn by_upper<N: Num>(s: Seq<Interval<N>>) -> Seq<Interval<N>>
    decreases s.len(),
{
    if s.len() == 0 {
        s
    } else {
        with_upper(by_upper(s.drop_last()), s.last())
    }
}

/// The value at which the mass reaches `target`, `cum` lying below: interpolated
/// inside the interval that holds it, or its lower bound where it is open-ended.
pub open spec fn reached<N: Num>(s: Seq<Interval<N>>, target: N, cum: N) -> Option<N>
    decreases s.len(),
{
    if s.len() == 0 {
        None
    } else {
        let iv = s[0];
        let upto = cum.plus_spec(iv.count);
        if upto.less_spec(target) {
            reached(s.drop_first(), target, upto)
        } else if !iv.upper.is_finite_spec() {
            Some(iv.lower)
        } else {
            let frac = if N::zero_spec().less_spec(iv.count) {
                target.minus_spec(cum).over_spec(iv.count)
            } else {
                N::zero_spec()
            };
            Some(iv.lower.plus_spec(iv.upper.minus_spec(iv.lower).times_spec(frac)))
        }
    }
}

/// Linear-interpolated quantile over merged intervals.
pub open spec fn quantile<N: Num>(s: Seq<Interval<N>>, q: N) -> Option<N> {
    if N::zero_spec().less_spec(mass(s)) {
        reached(by_upper(s), q.times_spec(mass(s)), N::zero_spec())
    } else {
        None
    }
}

/// `a` of `b`, as a fraction.
pub open spec fn fraction<N: Num>(a: u64, b: u64) -> N {
    N::of_count_spec(a).over_spec(N::of_count_spec(b))
}

/// The percentiles and the mean of one family.
pub open spec fn latency_of<N: Num>(
    s: Seq<EntryView<N>>,
    base: Seq<char>,
    now: u64,
) -> Option<Percentile<N>> {
    let own = family_of(s, base);
    let all = merged(all_intervals(own, now));
    let g = all_growths(own, now);
    match (
        quantile(all, fraction(1, 2)),
        quantile(all, fraction(9, 10)),
        quantile(all, fraction(99, 100)),
    ) {
        (Some(p50), Some(p90), Some(p99)) => Some(
            Percentile {
                p50,
                p90,
                p99,
                mean: if N::zero_spec().less_spec(grown_count(g)) {
                    Some(grown_sum(g).over_spec(grown_count(g)))
                } else {
                    None
                },
            },
        ),
        _ => None,
    }
}

/// The mean of one family over the window.
pub open spec fn windowed_mean_of<N: Num>(
    s: Seq<EntryView<N>>,
    base: Seq<char>,
    now: u64,
) -> Option<N> {
    let g = all_growths(family_of(s, base), now);
    if N::zero_spec().less_spec(grown_count(g)) && grown_sum(g).is_finite_spec() {
        Some(grown_sum(g).over_spec(grown_count(g)))
    } else {
        None
    }
}

/// Whether a series of the family is tracked.
pub open spec fn known_in<N>(s: Seq<EntryView<N>>, base: Seq<char>) -> bool {
    family_of(s, base).len() > 0
}

struct Entry<N> {
    base: String,
    key: String,
    sub: Subject<N>,
}

impl<N> View for Entry<N> {
    type V = EntryView<N>;

    closed spec fn view(&self) -> EntryView<N> {
        EntryView { id: (self.base@, self.key@), sub: self.sub@ }
    }
}

spec fn entries_view<N>(v: Seq<Entry<N>>) -> Seq<EntryView<N>> {
    v.map_values(|e: Entry<N>| e@)
}

/// The windows of all tracked histogram series.
pub struct HistTracker<N> {
    entries: Vec<Entry<N>>,
}

impl<N> View for HistTracker<N> {
    type V = Seq<EntryView<N>>;

    closed spec fn view(&self) -> Seq<EntryView<N>> {
        entries_view(self.entries@)
    }
}

/// Adds an entry behind every one that does not come after it.
fn add_entry<N: Num>(v: &mut Vec<Entry<N>>, e: Entry<N>)
    ensures
        entries_view(final(v)@) == with_entry(entries_view(old(v)@), e@),
{
    let ghost all = entries_view(v@);
    let ghost ev = e@;
    let mut at: usize = v.len();
    assert(all.take(at as int) =~= all);
    assert(with_entry(all, ev) =~= with_entry(all.take(at as int), ev) + all.skip(at as int));
    while at > 0 && (comes_before(e.base.as_str(), v[at - 1].base.as_str()) || (same(
        e.base.as_str(),
        v[at - 1].base.as_str(),
    ) && comes_before(e.key.as_str(), v[at - 1].key.as_str())))
        invariant
            at <= v@.len(),
            all == entries_view(v@),
            ev == e@,
            with_entry(all, ev) == with_entry(all.take(at as int), ev) + all.skip(at as int),
        decreases at,
    {
        assert(all.take(at as int).drop_last() =~= all.take(at - 1));
        assert(with_entry(all.take(at - 1), ev).push(all[at - 1]) + all.skip(at as int)
            =~= with_entry(all.take(at - 1), ev) + all.skip(at - 1));
        at -= 1;
    }
    assert(with_entry(all.take(at as int), ev) == all.take(at as int).push(ev));
    v.insert(at, e);
    assert(entries_view(v@) =~= all.take(at as int).push(ev) + all.skip(at as int));
}

/// Records one series.
fn record_group<N: Num>(v: &mut Vec<Entry<N>>, g: Group<N>, now: u64)
    ensures
        entries_view(final(v)@) == entry_recorded(entries_view(old(v)@), g@, now),
{
    let ghost gv = g@;
    let ghost ids = entry_ids(entries_view(v@));
    let mut i: usize = v.len();
    while i > 0
        invariant
            i <= v@.len(),
            v@ == old(v)@,
            gv == g@,
            ids == entry_ids(entries_view(v@)),
            forall|j: int| i <= j < v@.len() ==> #[trigger] ids[j] != gv.id,
        decreases i,
    {
        i -= 1;
        if same(v[i].base.as_str(), g.base.as_str()) && same(v[i].key.as_str(), g.key.as_str()) {
            proof {
                place_is(ids, gv.id, i as int);
            }
            let mut e = v.remove(i);
            e.sub.record(now, &g.buckets, g.sum, g.count);
            v.insert(i, e);
            assert(entries_view(v@) =~= entry_recorded(entries_view(old(v)@), gv, now));
            return;
        }
        assert(ids[i as int] != gv.id);
    }
    proof {
        place_is(ids, gv.id, -1);
    }
    let mut sub: Subject<N> = Subject::new();
    sub.record(now, &g.buckets, g.sum, g.count);
    add_entry(v, Entry { base: g.base, key: g.key, sub });
}

/// Whether the sample shows that a series of `base` and `key` is still there.
fn shows<N>(x: &Sample<N>, base: &str, key: &str) -> (r: bool)
    ensures
        r == (subject_key_of(x@.labels) == key@ && (match base_of(x@.name) {
            Some((b, Kind::Bucket)) => b == base@ && is_family(b),
            Some((b, Kind::Count)) => b == base@ && is_mean_only(b),
            _ => false,
        })),
{
    match split_base(x.name.as_str()) {
        Some((b, Kind::Bucket)) => same(b.as_str(), base) && family(b.as_str()) && same(
            subject_key(x).as_str(),
            key,
        ),
        Some((b, Kind::Count)) => same(b.as_str(), base) && mean_only(b.as_str()) && same(
            subject_key(x).as_str(),
            key,
        ),
        _ => false,
    }
}

/// Whether the scrape still contains the series.
fn is_alive<N>(m: &Metrics<N>, base: &str, key: &str) -> (r: bool)
    ensures
        r == alive(m@, (base@, key@)),
{
    let n: usize = m.samples.len();
    let mut i: usize = 0;
    while i < n
        invariant
            i <= n,
            n == m.samples@.len(),
            forall|j: int|
                0 <= j < i ==> !(subject_key_of((#[trigger] m@[j]).labels) == key@ && (
                match base_of(m@[j].name) {
                    Some((b, Kind::Bucket)) => b == base@ && is_family(b),
                    Some((b, Kind::Count)) => b == base@ && is_mean_only(b),
                    _ => false,
                })),
        decreases n - i,
    {
        assert(m@[i as int] == m.samples@[i as int]@);
        if shows(&m.samples[i], base, key) {
            return true;
        }
        i += 1;
    }
    false
}

/// Adds the intervals inside the window to `out`.
fn gather_frames<N: Num>(
    frames: &Vec<(u64, Vec<Interval<N>>)>,
    now: u64,
    out: &mut Vec<Interval<N>>,
)
    ensures
        final(out)@ == old(out)@ + frame_intervals(frames_view(frames@), now),
{
    let ghost all = frames_view(frames@);
    let n: usize = frames.len();
    let mut i: usize = 0;
    assert(all.take(0) =~= Seq::empty());
    assert(out@ =~= old(out)@ + frame_intervals(all.take(0), now));
    while i < n
        invariant
            i <= n,
            n == frames@.len(),
            all == frames_view(frames@),
            out@ == old(out)@ + frame_intervals(all.take(i as int), now),
        decreases n - i,
    {
        assert(all.take(i + 1).drop_last() =~= all.take(i as int));
        if now.saturating_sub(frames[i].0) <= HIST_WINDOW {
            let f = &frames[i].1;
            let ghost head = out@;
            let k: usize = f.len();
            let mut j: usize = 0;
            assert(out@ =~= head + f@.take(0));
            while j < k
                invariant
                    j <= k,
                    k == f@.len(),
                    out@ == head + f@.take(j as int),
                decreases k - j,
            {
                out.push(f[j]);
                j += 1;
                assert(out@ =~= head + f@.take(j as int));
            }
            assert(f@.take(k as int) =~= f@);
            assert(out@ =~= old(out)@ + (frame_intervals(all.take(i as int), now) + f@));
        }
        i += 1;
    }
    assert(all.take(n as int) =~= all);
}

/// Adds the growths inside the window to `out`.
fn gather_growths<N: Num>(sums: &Vec<(u64, (N, N))>, now: u64, out: &mut Vec<(N, N)>)
    ensures
        final(out)@ == old(out)@ + growths(sums@, now),
{
    let n: usize = sums.len();
    let mut i: usize = 0;
    assert(sums@.take(0) =~= Seq::empty());
    assert(out@ =~= old(out)@ + growths(sums@.take(0), now));
    while i < n
        invariant
            i <= n,
            n == sums@.len(),
            out@ == old(out)@ + growths(sums@.take(i as int), now),
        decreases n - i,
    {
        assert(sums@.take(i + 1).drop_last() =~= sums@.take(i as int));
        if now.saturating_sub(sums[i].0) <= HIST_WINDOW {
            out.push(sums[i].1);
            assert(out@ =~= old(out)@ + growths(sums@.take(i as int), now).push(
                sums@[i as int].1,
            ));
        }
        i += 1;
    }
    assert(sums@.take(n as int) =~= sums@);
}

/// The growth of the sum and of the count over all of `g`.
fn sum_growths<N: Num>(g: &Vec<(N, N)>) -> (r: (N, N))
    ensures
        r.0 == grown_sum(g@),
        r.1 == grown_count(g@),
{
    let mut a = N::zero();
    let mut c = N::zero();
    let ghost s = g@.map_values(|p: (N, N)| p.0);
    let ghost t = g@.map_values(|p: (N, N)| p.1);
    let n: usize = g.len();
    let mut i: usize = 0;
    assert(s.take(0) =~= Seq::empty());
    assert(t.take(0) =~= Seq::empty());
    while i < n
        invariant
            i <= n,
            n == g@.len(),
            s == g@.map_values(|p: (N, N)| p.0),
            t == g@.map_values(|p: (N, N)| p.1),
            a == total(s.take(i as int)),
            c == total(t.take(i as int)),
        decreases n - i,
    {
        a = a.plus(g[i].0);
        c = c.plus(g[i].1);
        i += 1;
        assert(s.take(i as int).drop_last() =~= s.take(i - 1));
        assert(t.take(i as int).drop_last() =~= t.take(i - 1));
    }
    assert(s.take(n as int) =~= s);
    assert(t.take(n as int) =~= t);
    (a, c)
}

/// Adds one interval to merged intervals.
fn merge_one<N: Num>(v: &mut Vec<Interval<N>>, iv: Interval<N>)
    ensures
        final(v)@ == merged_with(old(v)@, iv),
{
    let ghost all = v@;
    let mut at: usize = v.len();
    assert(all.take(at as int) =~= all);
    assert(merged_with(all, iv) =~= merged_with(all.take(at as int), iv) + all.skip(at as int));
    while at > 0 && !(same_num(v[at - 1].lower, iv.lower) && same_num(v[at - 1].upper, iv.upper))
        && (iv.lower.below(v[at - 1].lower) || (same_num(iv.lower, v[at - 1].lower)
        && iv.upper.below(v[at - 1].upper)))
        invariant
            at <= v@.len(),
            all == v@,
            merged_with(all, iv) == merged_with(all.take(at as int), iv) + all.skip(at as int),
        decreases at,
    {
        assert(all.take(at as int).drop_last() =~= all.take(at - 1));
        assert(merged_with(all.take(at - 1), iv).push(all[at - 1]) + all.skip(at as int)
            =~= merged_with(all.take(at - 1), iv) + all.skip(at - 1));
        at -= 1;
    }
    if at > 0 && same_num(v[at - 1].lower, iv.lower) && same_num(v[at - 1].upper, iv.upper) {
        let ghost last = all[at - 1];
        assert(all.take(at as int).drop_last() =~= all.take(at - 1));
        v[at - 1] = Interval {
            lower: iv.lower,
            upper: iv.upper,
            count: v[at - 1].count.plus(iv.count),
        };
        assert(v@ =~= all.take(at - 1).push(v@[at - 1]) + all.skip(at as int));
    } else {
        let fresh = Interval {
            lower: iv.lower,
            upper: iv.upper,
            count: N::zero().plus(iv.count),
        };
        assert(merged_with(all.take(at as int), iv) =~= all.take(at as int).push(fresh));
        v.insert(at, fresh);
        assert(v@ =~= all.take(at as int).push(fresh) + all.skip(at as int));
    }
}

/// The intervals merged by their bounds.
fn merge<N: Num>(v: &Vec<Interval<N>>) -> (r: Vec<Interval<N>>)
    ensures
        r@ == merged(v@),
{
    let mut out: Vec<Interval<N>> = Vec::new();
    let n: usize = v.len();
    let mut i: usize = 0;
    while i < n
        invariant
            i <= n,
            n == v@.len(),
            out@ == merged(v@.take(i as int)),
        decreases n - i,
    {
        merge_one(&mut out, v[i]);
        i += 1;
        assert(v@.take(i as int).drop_last() =~= v@.take(i - 1));
    }
    assert(v@.take(n as int) =~= v@);
    out
}

/// The observations in all of `v`.
fn mass_of<N: Num>(v: &Vec<Interval<N>>) -> (r: N)
    ensures
        r == mass(v@),
{
    let mut t = N::zero();
    let ghost c = v@.map_values(|iv: Interval<N>| iv.count);
    let n: usize = v.len();
    let mut i: usize = 0;
    assert(c.take(0) =~= Seq::empty());
    while i < n
        invariant
            i <= n,
            n == v@.len(),
            c == v@.map_values(|iv: Interval<N>| iv.count),
            t == total(c.take(i as int)),
        decreases n - i,
    {
        t = t.plus(v[i].count);
        i += 1;
        assert(c.take(i as int).drop_last() =~= c.take(i - 1));
    }
    assert(c.take(n as int) =~= c);
    t
}

/// The intervals by ascending upper bound.
fn sort_upper<N: Num>(v: &Vec<Interval<N>>) -> (r: Vec<Interval<N>>)
    ensures
        r@ == by_upper(v@),
{
    let mut out: Vec<Interval<N>> = Vec::new();
    let n: usize = v.len();
    let mut i: usize = 0;
    while i < n
        invariant
            i <= n,
            n == v@.len(),
            out@ == by_upper(v@.take(i as int)),
        decreases n - i,
    {
        let b = v[i];
        let ghost all = out@;
        let mut at: usize = out.len();
        assert(all.take(at as int) =~= all);
        assert(with_upper(all, b) =~= with_upper(all.take(at as int), b) + all.skip(at as int));
        while at > 0 && b.upper.below(out[at - 1].upper)
            invariant
                at <= out@.len(),
                all == out@,
                with_upper(all, b) == with_upper(all.take(at as int), b) + all.skip(at as int),
            decreases at,
        {
            assert(all.take(at as int).drop_last() =~= all.take(at - 1));
            assert(with_upper(all.take(at - 1), b).push(all[at - 1]) + all.skip(at as int)
                =~= with_upper(all.take(at - 1), b) + all.skip(at - 1));
            at -= 1;
        }
        assert(with_upper(all.take(at as int), b) == all.take(at as int).push(b));
        out.insert(at, b);
        assert(out@ =~= all.take(at as int).push(b) + all.skip(at as int));
        i += 1;
        assert(v@.take(i as int).drop_last() =~= v@.take(i - 1));
    }
    assert(v@.take(n as int) =~= v@);
    out
}

/// Linear-interpolated quantile over merged intervals, walked by ascending upper
/// bound so that cumulative mass accumulates up the ladder.
fn quantile_of<N: Num>(merged: &Vec<Interval<N>>, q: N) -> (r: Option<N>)
    ensures
        r == quantile(merged@, q),
{
    let all = mass_of(merged);
    if !N::zero().less(all) {
        return None;
    }
    let ivs = sort_upper(merged);
    let target = q.times(all);
    let mut cum = N::zero();
    let n: usize = ivs.len();
    let mut i: usize = 0;
    assert(ivs@.skip(0) =~= ivs@);
    while i < n
        invariant
            i <= n,
            n == ivs@.len(),
            ivs@ == by_upper(merged@),
            N::zero_spec().less_spec(mass(merged@)),
            target == q.times_spec(mass(merged@)),
            reached(ivs@, target, N::zero_spec()) == reached(ivs@.skip(i as int), target, cum),
        decreases n - i,
    {
        assert(ivs@.skip(i as int).drop_first() =~= ivs@.skip(i + 1));
        let iv = ivs[i];
        let upto = cum.plus(iv.count);
        if !upto.less(target) {
            if !iv.upper.is_finite() {
                return Some(iv.lower);
            }
            let frac = if N::zero().less(iv.count) {
                target.minus(cum).over(iv.count)
            } else {
                N::zero()
            };
            return Some(iv.lower.plus(iv.upper.minus(iv.lower).times(frac)));
        }
        cum = upto;
        i += 1;
    }
    None
}

impl<N: Num> Default for HistTracker<N> {
    fn default() -> (r: Self)
        ensures
            r@ == Seq::<EntryView<N>>::empty(),
    {
        HistTracker::new()
    }
}

impl<N: Num> HistTracker<N> {
    pub fn new() -> (r: Self)
        ensures
            r@ == Seq::<EntryView<N>>::empty(),
    {
        let r = HistTracker { entries: Vec::new() };
        assert(r@ =~= Seq::empty());
        r
    }

    /// Records a scrape.
    pub fn update(&mut self, m: &Metrics<N>, now: u64)
        ensures
            final(self)@ == all_recorded(old(self)@, grouped(m@), now),
    {
        let mut gs = group(m);
        let ghost all = grouped(m@);
        assert(all.take(0) =~= Seq::empty());
        let ghost mut done: int = 0;
        while gs.len() > 0
            invariant
                0 <= done <= all.len(),
                gs@.len() == all.len() - done,
                groups_view(gs@) == all.skip(done),
                self@ == all_recorded(old(self)@, all.take(done), now),
            decreases gs@.len(),
        {
            let ghost was = gs@;
            assert(groups_view(was)[0] == all[done]);
            let g = gs.remove(0);
            record_group(&mut self.entries, g, now);
            proof {
                assert(gs@ =~= was.remove(0));
                done = done + 1;
                assert(all.take(done).drop_last() =~= all.take(done - 1));
                assert forall|i: int| 0 <= i < gs@.len() implies groups_view(gs@)[i] == all.skip(
                    done,
                )[i] by {
                    assert(groups_view(was)[i + 1] == all.skip(done - 1)[i + 1]);
                }
                assert(groups_view(gs@) =~= all.skip(done));
            }
        }
        assert(all.take(done) =~= all);
    }

    /// The intervals and the growths of one family inside the window.
    fn gather(&self, base: &str, now: u64) -> (r: (Vec<Interval<N>>, Vec<(N, N)>))
        ensures
            r.0@ == all_intervals(family_of(self@, base@), now),
            r.1@ == all_growths(family_of(self@, base@), now),
    {
        let mut ivs: Vec<Interval<N>> = Vec::new();
        let mut g: Vec<(N, N)> = Vec::new();
        let ghost all = self@;
        let ghost p = |e: EntryView<N>| e.id.0 == base@;
        let n: usize = self.entries.len();
        let mut i: usize = 0;
        assert(all.take(0) =~= Seq::empty());
        assert(all.take(0).filter(p) =~= Seq::empty()) by {
            reveal(Seq::filter);
        }
        while i < n
            invariant
                i <= n,
                n == self.entries@.len(),
                all == self@,
                p == |e: EntryView<N>| e.id.0 == base@,
                ivs@ == all_intervals(all.take(i as int).filter(p), now),
                g@ == all_growths(all.take(i as int).filter(p), now),
            decreases n - i,
        {
            let ghost e = all[i as int];
            assert(e == self.entries@[i as int]@);
            assert(all.take(i + 1) =~= all.take(i as int).push(e));
            let ghost own = all.take(i as int).filter(p);
            proof {
                all.take(i as int).lemma_filter_push(e, p);
                assert(own.push(e).drop_last() =~= own);
            }
            if same(self.entries[i].base.as_str(), base) {
                gather_frames(&self.entries[i].sub.window, now, &mut ivs);
                gather_growths(&self.entries[i].sub.sums, now, &mut g);
            }
            i += 1;
        }
        assert(all.take(n as int) =~= all);
        (ivs, g)
    }

    /// p50, p90 and p99 (bucket-interpolated) and the mean for one family, merging
    /// every series. Nothing until the window holds observations.
    pub fn latency(&self, base: &str, now: u64) -> (r: Option<Percentile<N>>)
        ensures
            r == latency_of(self@, base@, now),
    {
        let (ivs, g) = self.gather(base, now);
        let all = merge(&ivs);
        let (dsum, dcnt) = sum_growths(&g);
        let mean = if N::zero().less(dcnt) {
            Some(dsum.over(dcnt))
        } else {
            None
        };
        let half = N::of_count(1).over(N::of_count(2));
        let nine = N::of_count(9).over(N::of_count(10));
        let most = N::of_count(99).over(N::of_count(100));
        match (quantile_of(&all, half), quantile_of(&all, nine), quantile_of(&all, most)) {
            (Some(p50), Some(p90), Some(p99)) => Some(Percentile { p50, p90, p99, mean }),
            _ => None,
        }
    }

    /// Fill the latency set; absent families stay `None`, and `known` records
    /// whether the family's series exist at all (independent of whether enough
    /// deltas have landed to interpolate yet).
    pub fn fill(&self, s: &mut LatencySet<N>, now: u64)
        ensures
            final(s).known@ == Seq::new(4, |i: int| known_in(self@, FAMILIES@[i]@)),
            final(s).queue == latency_of(self@, FAMILIES@[0]@, now),
            final(s).ttft == latency_of(self@, FAMILIES@[1]@, now),
            final(s).itl == latency_of(self@, FAMILIES@[2]@, now),
            final(s).e2e == latency_of(self@, FAMILIES@[3]@, now),
    {
        s.known = [
            self.known(FAMILIES[0]),
            self.known(FAMILIES[1]),
            self.known(FAMILIES[2]),
            self.known(FAMILIES[3]),
        ];
        s.queue = self.latency(FAMILIES[0], now);
        s.ttft = self.latency(FAMILIES[1], now);
        s.itl = self.latency(FAMILIES[2], now);
        s.e2e = self.latency(FAMILIES[3], now);
    }

    /// Windowed mean (growth of the sum over growth of the count, all series
    /// merged). `None` while the window holds no observations: a quiet window says
    /// nothing.
    pub fn windowed_mean(&self, base: &str, now: u64) -> (r: Option<N>)
        ensures
            r == windowed_mean_of(self@, base@, now),
    {
        let (ivs, g) = self.gather(base, now);
        let (dsum, dcnt) = sum_growths(&g);
        if N::zero().less(dcnt) && dsum.is_finite() {
            Some(dsum.over(dcnt))
        } else {
            None
        }
    }

    /// True once the latest scrapes have baselined at least one series of this
    /// family: the row is worth drawing.
    pub fn known(&self, base: &str) -> (r: bool)
        ensures
            r == known_in(self@, base@),
    {
        let ghost all = self@;
        let ghost p = |e: EntryView<N>| e.id.0 == base@;
        let n: usize = self.entries.len();
        let mut i: usize = 0;
        assert(all.take(0) =~= Seq::empty());
        assert(all.take(0).filter(p) =~= Seq::empty()) by {
            reveal(Seq::filter);
        }
        while i < n
            invariant
                i <= n,
                n == self.entries@.len(),
                all == self@,
                p == |e: EntryView<N>| e.id.0 == base@,
                all.take(i as int).filter(p).len() == 0,
            decreases n - i,
        {
            let ghost e = all[i as int];
            assert(e == self.entries@[i as int]@);
            assert(all.take(i + 1) =~= all.take(i as int).push(e));
            proof {
                all.take(i as int).lemma_filter_push(e, p);
            }
            if same(self.entries[i].base.as_str(), base) {
                proof {
                    all.lemma_filter_contains(p, i as int);
                }
                return true;
            }
            i += 1;
        }
        assert(all.take(n as int) =~= all);
        false
    }

    /// Drop series the latest scrape no longer contains (model reload, streaming
    /// split vanished) so a disappeared series can't pin its window in memory.
    /// Call after `update` with the same scrape.
    pub fn prune_to(&mut self, m: &Metrics<N>)
        ensures
            final(self)@ == pruned(old(self)@, m@),
    {
        let ghost all = self@;
        let ghost p = |e: EntryView<N>| alive(m@, e.id);
        let mut old_entries: Vec<Entry<N>> = Vec::new();
        std::mem::swap(&mut old_entries, &mut self.entries);
        let ghost mut done: int = 0;
        assert(entries_view(old_entries@) =~= all.skip(0));
        assert(entries_view(self.entries@) =~= all.take(0).filter(p)) by {
            reveal(Seq::filter);
        }
        while old_entries.len() > 0
            invariant
                0 <= done <= all.len(),
                old_entries@.len() == all.len() - done,
                p == |e: EntryView<N>| alive(m@, e.id),
                entries_view(old_entries@) == all.skip(done),
                entries_view(self.entries@) == all.take(done).filter(p),
            decreases old_entries@.len(),
        {
            let ghost was = old_entries@;
            let ghost kept = self.entries@;
            assert(entries_view(was)[0] == all[done]);
            let e = old_entries.remove(0);
            let ghost ev = e@;
            proof {
                assert(all.take(done + 1) =~= all.take(done).push(ev));
                all.take(done).lemma_filter_push(ev, p);
            }
            if is_alive(m, e.base.as_str(), e.key.as_str()) {
                self.entries.push(e);
                assert(entries_view(self.entries@) =~= entries_view(kept).push(ev));
            }
            proof {
                assert(old_entries@ =~= was.remove(0));
                done = done + 1;
                assert forall|i: int| 0 <= i < old_entries@.len() implies entries_view(
                    old_entries@,
                )[i] == all.skip(done)[i] by {
                    assert(entries_view(was)[i + 1] == all.skip(done - 1)[i + 1]);
                }
                assert(entries_view(old_entries@) =~= all.skip(done));
            }
        }
        assert(all.take(done) =~= all);
    }
}

// ---- laws ----

/// The entries stand in strictly ascending order of family and series.
pub open spec fn in_id_order<N>(s: Seq<EntryView<N>>) -> bool {
    forall|i: int, j: int| 0 <= i < j < s.len() ==> id_less((#[trigger] s[i]).id, (#[trigger] s[j]).id)
}

proof fn id_less_laws(
    a: (Seq<char>, Seq<char>),
    b: (Seq<char>, Seq<char>),
    c: (Seq<char>, Seq<char>),
)
    ensures
        id_less(a, b) && id_less(b, c) ==> id_less(a, c),
        id_less(a, b) || id_less(b, a) || a == b,
{
    text_less_total(a.0, b.0);
    text_less_total(a.1, b.1);
    if id_less(a, b) && id_less(b, c) {
        if text_less(a.0, b.0) && text_less(b.0, c.0) {
            text_less_transitive(a.0, b.0, c.0);
        }
        if text_less(a.1, b.1) && text_less(b.1, c.1) {
            text_less_transitive(a.1, b.1, c.1);
        }
    }
}

pub(crate) proof fn with_entry_members<N>(s: Seq<EntryView<N>>, e: EntryView<N>, i: int)
    requires
        0 <= i < with_entry(s, e).len(),
    ensures
        with_entry(s, e)[i] == e || s.contains(with_entry(s, e)[i]),
    decreases s.len(),
{
    if s.len() > 0 && id_less(e.id, s.last().id) {
        if i < with_entry(s.drop_last(), e).len() {
            with_entry_members(s.drop_last(), e, i);
            if with_entry(s, e)[i] != e {
                let k = choose|k: int|
                    0 <= k < s.drop_last().len() && s.drop_last()[k] == with_entry(s, e)[i];
                assert(s[k] == with_entry(s, e)[i]);
            }
        } else {
            assert(s[s.len() - 1] == with_entry(s, e)[i]);
        }
    } else if i < s.len() {
        assert(s[i] == with_entry(s, e)[i]);
    }
}

proof fn with_entry_keeps_order<N>(s: Seq<EntryView<N>>, e: EntryView<N>)
    requires
        in_id_order(s),
        forall|i: int| 0 <= i < s.len() ==> (#[trigger] s[i]).id != e.id,
    ensures
        in_id_order(with_entry(s, e)),
    decreases s.len(),
{
    let r = with_entry(s, e);
    if s.len() > 0 && id_less(e.id, s.last().id) {
        let d = s.drop_last();
        assert forall|i: int| 0 <= i < d.len() implies (#[trigger] d[i]).id != e.id by {
            assert(d[i] == s[i]);
        }
        with_entry_keeps_order(d, e);
        let rd = with_entry(d, e);
        assert forall|i: int, j: int| 0 <= i < j < r.len() implies id_less(
            (#[trigger] r[i]).id,
            (#[trigger] r[j]).id,
        ) by {
            assert(r[i] == rd[i]);
            if j < rd.len() {
                assert(r[j] == rd[j]);
            } else {
                with_entry_members(d, e, i);
                if rd[i] != e {
                    let k = choose|k: int| 0 <= k < d.len() && d[k] == rd[i];
                    assert(s[k] == rd[i]);
                }
            }
        }
    } else {
        assert forall|i: int, j: int| 0 <= i < j < r.len() implies id_less(
            (#[trigger] r[i]).id,
            (#[trigger] r[j]).id,
        ) by {
            if j == s.len() {
                id_less_laws(s[i].id, s.last().id, e.id);
                id_less_laws(s.last().id, e.id, e.id);
                assert(s[s.len() - 1].id != e.id);
            }
        }
    }
}

pub(crate) proof fn place_misses(ids: Seq<(Seq<char>, Seq<char>)>, id: (Seq<char>, Seq<char>))
    ensures
        -1 <= place(ids, id) < ids.len(),
        place(ids, id) < 0 ==> forall|i: int| 0 <= i < ids.len() ==> #[trigger] ids[i] != id,
        place(ids, id) >= 0 ==> ids[place(ids, id)] == id,
    decreases ids.len(),
{
    if ids.len() > 0 && ids.last() != id {
        place_misses(ids.drop_last(), id);
        if place(ids, id) < 0 {
            assert forall|i: int| 0 <= i < ids.len() implies #[trigger] ids[i] != id by {
                if i < ids.len() - 1 {
                    assert(ids.drop_last()[i] == ids[i]);
                }
            }
        }
    }
}

/// Recording keeps the series in their order: no series is tracked twice.
pub proof fn recording_keeps_order<N: Num>(
    s: Seq<EntryView<N>>,
    gs: Seq<GroupView<N>>,
    now: u64,
)
    requires
        in_id_order(s),
    ensures
        in_id_order(all_recorded(s, gs, now)),
    decreases gs.len(),
{
    if gs.len() > 0 {
        recording_keeps_order(s, gs.drop_last(), now);
        let t = all_recorded(s, gs.drop_last(), now);
        let g = gs.last();
        let i = place(entry_ids(t), g.id);
        place_misses(entry_ids(t), g.id);
        if i < 0 {
            assert forall|k: int| 0 <= k < t.len() implies (#[trigger] t[k]).id != g.id by {
                assert(entry_ids(t)[k] == t[k].id);
            }
            with_entry_keeps_order(
                t,
                EntryView { id: g.id, sub: recorded(fresh_subject(), g.said, now) },
            );
        } else {
            assert(entry_ids(t)[i] == t[i].id);
        }
    }
}

/// The frames of a series all hold observations.
pub open spec fn frames_are_real<N: Num>(s: SubjectView<N>) -> bool {
    forall|i: int, j: int|
        0 <= i < s.window.len() && 0 <= j < (#[trigger] s.window[i]).1.len()
            ==> N::zero_spec().less_spec((#[trigger] s.window[i].1[j]).count)
}

proof fn found_is_real<N: Num>(seen: Map<N, N>, buckets: Seq<(N, N)>)
    ensures
        forall|j: int|
            0 <= j < staircase(seen, buckets).found.len() ==> N::zero_spec().less_spec(
                (#[trigger] staircase(seen, buckets).found[j]).count,
            ),
    decreases buckets.len(),
{
    if buckets.len() > 0 {
        found_is_real(seen, buckets.drop_last());
        let before = staircase(seen, buckets.drop_last()).found;
        let after = staircase(seen, buckets).found;
        assert forall|j: int| 0 <= j < after.len() implies N::zero_spec().less_spec(
            (#[trigger] after[j]).count,
        ) by {
            if j < before.len() {
                assert(after[j] == before[j]);
            }
        }
    }
}

pub(crate) proof fn in_window_is_a_tail<T>(s: Seq<(u64, T)>, now: u64)
    ensures
        in_window(s, now).len() <= s.len(),
        in_window(s, now) == s.skip(s.len() - in_window(s, now).len()),
        in_window(s, now).len() > 0 ==> elapsed(now, in_window(s, now)[0].0) <= HIST_WINDOW,
    decreases s.len(),
{
    if s.len() > 0 && elapsed(now, s[0].0) > HIST_WINDOW {
        in_window_is_a_tail(s.drop_first(), now);
        let n = in_window(s, now).len();
        assert(s.drop_first().skip(s.len() - 1 - n) =~= s.skip(s.len() - n));
    } else {
        assert(s.skip(0) =~= s);
    }
}

/// Every recorded interval holds at least one new observation: a reset or a
/// missing baseline never fabricates a sample.
pub proof fn recorded_frames_are_real<N: Num>(s: SubjectView<N>, sc: ScrapedView<N>, now: u64)
    requires
        frames_are_real(s),
    ensures
        frames_are_real(recorded(s, sc, now)),
{
    let st = staircase(s.buckets, by_edge(sc.buckets));
    found_is_real(s.buckets, by_edge(sc.buckets));
    let w = if st.found.len() > 0 {
        s.window.push((now, st.found))
    } else {
        s.window
    };
    in_window_is_a_tail(w, now);
    let r = recorded(s, sc, now);
    assert forall|i: int, j: int|
        0 <= i < r.window.len() && 0 <= j < (#[trigger] r.window[i]).1.len() implies
            N::zero_spec().less_spec((#[trigger] r.window[i].1[j]).count) by {
        let k = w.len() - r.window.len() + i;
        assert(r.window[i] == w[k]);
        if k < s.window.len() {
            assert(w[k] == s.window[k]);
            assert(s.window[k].1[j] == r.window[i].1[j]);
        }
    }
}

/// After a scrape was recorded no leading frame is older than the window.
pub proof fn recorded_window_is_fresh<N: Num>(s: SubjectView<N>, sc: ScrapedView<N>, now: u64)
    ensures
        recorded(s, sc, now).window.len() > 0 ==> elapsed(now, recorded(s, sc, now).window[0].0)
            <= HIST_WINDOW,
        recorded(s, sc, now).sums.len() > 0 ==> elapsed(now, recorded(s, sc, now).sums[0].0)
            <= HIST_WINDOW,
{
    let st = staircase(s.buckets, by_edge(sc.buckets));
    in_window_is_a_tail(
        if st.found.len() > 0 {
            s.window.push((now, st.found))
        } else {
            s.window
        },
        now,
    );
    in_window_is_a_tail(
        match sum_growth(s, sc) {
            Some(g) => s.sums.push((now, g)),
            None => s.sums,
        },
        now,
    );
}

/// Buckets that were never seen before find nothing: without a baseline there is
/// no delta.
pub proof fn first_sight_finds_nothing<N: Num>(seen: Map<N, N>, buckets: Seq<(N, N)>)
    requires
        forall|i: int| 0 <= i < buckets.len() ==> !seen.contains_key((#[trigger] buckets[i]).0),
        forall|i: int, j: int|
            0 <= i < j < buckets.len() ==> (#[trigger] buckets[i]).0 != (#[trigger] buckets[j]).0,
    ensures
        staircase(seen, buckets).found.len() == 0,
        staircase(seen, buckets).grown == N::zero_spec(),
        forall|k: N| #[trigger]
            staircase(seen, buckets).buckets.contains_key(k) ==> seen.contains_key(k) || exists|
                i: int,
            |
                0 <= i < buckets.len() && (#[trigger] buckets[i]).0 == k,
    decreases buckets.len(),
{
    if buckets.len() > 0 {
        let d = buckets.drop_last();
        assert forall|i: int| 0 <= i < d.len() implies !seen.contains_key((#[trigger] d[i]).0) by {
            assert(d[i] == buckets[i]);
        }
        assert forall|i: int, j: int| 0 <= i < j < d.len() implies (#[trigger] d[i]).0 != (
        #[trigger] d[j]).0 by {
            assert(d[i] == buckets[i] && d[j] == buckets[j]);
        }
        first_sight_finds_nothing(seen, d);
        let st = staircase(seen, d);
        let b = buckets.last();
        if st.buckets.contains_key(b.0) {
            let i = choose|i: int| 0 <= i < d.len() && (#[trigger] d[i]).0 == b.0;
            assert(buckets[i].0 == buckets[buckets.len() - 1].0);
        }
        N::no_growth(N::zero_spec());
        if N::zero_spec().less_spec(N::zero_spec()) {
            N::less_asymmetric(N::zero_spec(), N::zero_spec());
        }
        assert forall|k: N| #[trigger]
            staircase(seen, buckets).buckets.contains_key(k) implies seen.contains_key(k) || exists|
            i: int,
        | 0 <= i < buckets.len() && (#[trigger] buckets[i]).0 == k by {
            if k == b.0 {
                assert(buckets[buckets.len() - 1].0 == k);
            } else if !seen.contains_key(k) {
                let i = choose|i: int| 0 <= i < d.len() && (#[trigger] d[i]).0 == k;
                assert(buckets[i].0 == k);
            }
        }
    }
}

proof fn old_frames_count_nothing<N>(frames: Seq<(u64, Seq<Interval<N>>)>, now: u64)
    requires
        forall|i: int|
            0 <= i < frames.len() ==> elapsed(now, (#[trigger] frames[i]).0) > HIST_WINDOW,
    ensures
        frame_intervals(frames, now).len() == 0,
    decreases frames.len(),
{
    if frames.len() > 0 {
        old_frames_count_nothing(frames.drop_last(), now);
    }
}

proof fn old_entries_count_nothing<N>(s: Seq<EntryView<N>>, now: u64)
    requires
        forall|i: int, j: int|
            0 <= i < s.len() && 0 <= j < (#[trigger] s[i]).sub.window.len() ==> elapsed(
                now,
                (#[trigger] s[i].sub.window[j]).0,
            ) > HIST_WINDOW,
    ensures
        all_intervals(s, now).len() == 0,
    decreases s.len(),
{
    if s.len() > 0 {
        let d = s.drop_last();
        assert forall|i: int, j: int|
            0 <= i < d.len() && 0 <= j < (#[trigger] d[i]).sub.window.len() implies elapsed(
            now,
            (#[trigger] d[i].sub.window[j]).0,
        ) > HIST_WINDOW by {
            assert(s[i].sub.window[j] == d[i].sub.window[j]);
        }
        old_entries_count_nothing(d, now);
        let w = s.last().sub.window;
        assert forall|j: int| 0 <= j < w.len() implies elapsed(now, (#[trigger] w[j]).0)
            > HIST_WINDOW by {
            assert(s[s.len() - 1].sub.window[j] == w[j]);
        }
        old_frames_count_nothing(w, now);
    }
}

/// A family without observations inside the window has no percentiles: neither
/// one that was never seen, nor one whose observations have all expired.
pub proof fn quiet_window_has_no_percentiles<N: Num>(
    s: Seq<EntryView<N>>,
    base: Seq<char>,
    now: u64,
)
    requires
        forall|i: int, j: int|
            0 <= i < family_of(s, base).len() && 0 <= j < (#[trigger] family_of(
                s,
                base,
            )[i]).sub.window.len() ==> elapsed(
                now,
                (#[trigger] family_of(s, base)[i].sub.window[j]).0,
            ) > HIST_WINDOW,
    ensures
        latency_of(s, base, now) is None,
{
    old_entries_count_nothing(family_of(s, base), now);
    let all = merged(all_intervals(family_of(s, base), now));
    assert(all.map_values(|iv: Interval<N>| iv.count) =~= Seq::empty());
    if N::zero_spec().less_spec(N::zero_spec()) {
        N::less_asymmetric(N::zero_spec(), N::zero_spec());
    }
}

}
