//! Reading a scrape: sums, peaks and rates over the samples of a metric.
use crate::num::{peak_from, total, larger, Num};
use crate::poll::exposition::{are_labels, exposed, exposed_body_is_read_back, is_name,
    joined_bodies_add_up};
use crate::poll::prom::{label_of, named, parsed_from, refs_view, sorted_labels, Metrics, Sample,
    SampleView};
use crate::poll::rate::{observed_all, points_view, rates_of, sum_all, sum_every, sum_known,
    RateTracker, Series};
use crate::text::{parse_count, parsed_count, same};
use vstd::prelude::*;
use vstd::string::*;

verus! {

// ---- which samples ----

/// Queue-count gauges carry an unlabelled total plus per-priority breakdowns: only
/// the default-priority series are totals.
pub open spec fn default_priority<N>(x: SampleView<N>) -> bool {
    match x.label("priority"@) {
        Some(p) => p.len() == 0,
        None => true,
    }
}

/// Whether the sample is attributed to a rank.
pub open spec fn has_rank<N>(x: SampleView<N>) -> bool {
    x.label("dp_rank"@) is Some
}

/// Whether the label `key` of the sample is `value`.
pub open spec fn labelled<N>(x: SampleView<N>, key: Seq<char>, value: Seq<char>) -> bool {
    x.label(key) == Some(value)
}

/// Whether the sample counts our own polling.
pub open spec fn own_polling<N>(x: SampleView<N>) -> bool {
    labelled(x, "endpoint"@, "/metrics"@)
}

/// Whether the sample counts responses with an error status.
pub open spec fn is_error<N>(x: SampleView<N>) -> bool {
    match x.label("status_code"@) {
        Some(t) => match parsed_count(t, 65535) {
            Some(n) => n >= 400,
            None => false,
        },
        None => false,
    }
}

/// The samples of `name` that satisfy `p`, in the order of the scrape.
pub open spec fn chosen<N>(
    m: Seq<SampleView<N>>,
    name: Seq<char>,
    p: spec_fn(SampleView<N>) -> bool,
) -> Seq<SampleView<N>> {
    named(m, name).filter(p)
}

pub fn is_default_priority<N>(x: &Sample<N>) -> (r: bool)
    ensures
        r == default_priority(x@),
{
    match x.label("priority") {
        Some(p) => p.is_empty(),
        None => true,
    }
}

pub fn is_ranked<N>(x: &Sample<N>) -> (r: bool)
    ensures
        r == has_rank(x@),
{
    match x.label("dp_rank") {
        Some(p) => true,
        None => false,
    }
}

pub fn is_labelled<N>(x: &Sample<N>, key: &str, value: &str) -> (r: bool)
    ensures
        r == labelled(x@, key@, value@),
{
    match x.label(key) {
        Some(v) => same(v, value),
        None => false,
    }
}

pub fn is_own_polling<N>(x: &Sample<N>) -> (r: bool)
    ensures
        r == own_polling(x@),
{
    is_labelled(x, "endpoint", "/metrics")
}

pub fn counts_errors<N>(x: &Sample<N>) -> (r: bool)
    ensures
        r == is_error(x@),
{
    match x.label("status_code") {
        Some(t) => match parse_count(t, 65535) {
            Some(n) => n >= 400,
            None => false,
        },
        None => false,
    }
}

/// The samples of `name` for which `keep` answers yes; `p` says for which it does.
pub(crate) fn choose_samples<'a, N, F: Fn(&Sample<N>) -> bool>(
    m: &'a Metrics<N>,
    name: &str,
    keep: F,
    Ghost(p): Ghost<spec_fn(SampleView<N>) -> bool>,
) -> (r: Vec<&'a Sample<N>>)
    requires
        forall|x: &Sample<N>| call_requires(keep, (x,)),
        forall|x: &Sample<N>, b: bool| call_ensures(keep, (x,), b) ==> b == p(x@),
    ensures
        refs_view(r@) == chosen(m@, name@, p),
{
    let all = m.get(name);
    let ghost av = refs_view(all@);
    let mut out: Vec<&'a Sample<N>> = Vec::new();
    let n: usize = all.len();
    let mut i: usize = 0;
    assert(refs_view(out@) =~= av.take(0).filter(p)) by {
        reveal(Seq::filter);
    }
    while i < n
        invariant
            i <= n,
            n == all@.len(),
            av == refs_view(all@),
            forall|x: &Sample<N>| call_requires(keep, (x,)),
            forall|x: &Sample<N>, b: bool| call_ensures(keep, (x,), b) ==> b == p(x@),
            refs_view(out@) == av.take(i as int).filter(p),
        decreases n - i,
    {
        let x = all[i];
        let ghost xv = av[i as int];
        assert(xv == x@);
        assert(av.take(i + 1) =~= av.take(i as int).push(xv));
        proof {
            av.take(i as int).lemma_filter_push(xv, p);
        }
        let ghost before = out@;
        if keep(x) {
            out.push(x);
            assert(refs_view(out@) =~= refs_view(before).push(xv));
        }
        i += 1;
    }
    assert(av.take(n as int) =~= av);
    out
}

// ---- sums and peaks ----

/// The values of samples.
pub open spec fn values<N>(s: Seq<SampleView<N>>) -> Seq<N> {
    s.map_values(|x: SampleView<N>| x.value)
}

/// The samples whose value is a number.
pub open spec fn numeric<N: Num>(s: Seq<SampleView<N>>) -> Seq<SampleView<N>> {
    s.filter(|x: SampleView<N>| !x.value.is_nan_spec())
}

/// The sum of the values that are numbers.
pub open spec fn sum_of<N: Num>(s: Seq<SampleView<N>>) -> N {
    total(values(numeric(s)))
}

/// The sum of the values that are numbers.
pub fn sum_samples<N: Num>(v: &Vec<&Sample<N>>) -> (r: N)
    ensures
        r == sum_of(refs_view(v@)),
{
    let ghost all = refs_view(v@);
    let ghost p = |x: SampleView<N>| !x.value.is_nan_spec();
    let mut sum = N::zero();
    let n: usize = v.len();
    let mut i: usize = 0;
    assert(all.take(0).filter(p) =~= Seq::empty()) by {
        reveal(Seq::filter);
    }
    assert(values(all.take(0).filter(p)) =~= Seq::empty());
    while i < n
        invariant
            i <= n,
            n == v@.len(),
            all == refs_view(v@),
            p == |x: SampleView<N>| !x.value.is_nan_spec(),
            sum == total(values(all.take(i as int).filter(p))),
        decreases n - i,
    {
        let ghost x = all[i as int];
        let ghost head = all.take(i as int).filter(p);
        assert(x == v@[i as int]@);
        assert(all.take(i + 1) =~= all.take(i as int).push(x));
        proof {
            all.take(i as int).lemma_filter_push(x, p);
            assert(values(head.push(x)).drop_last() =~= values(head));
        }
        if !v[i].value.is_nan() {
            sum = sum.plus(v[i].value);
        }
        i += 1;
    }
    assert(all.take(n as int) =~= all);
    sum
}

/// The first default-priority value of `name`, where it is a number.
pub open spec fn first_val<N: Num>(m: Seq<SampleView<N>>, name: Seq<char>) -> Option<N> {
    let own = chosen(m, name, |x: SampleView<N>| default_priority(x));
    if own.len() == 0 || own[0].value.is_nan_spec() {
        None
    } else {
        Some(own[0].value)
    }
}

/// The first default-priority value of `name`, where it is a number.
pub fn read_first<N: Num>(m: &Metrics<N>, name: &str) -> (r: Option<N>)
    ensures
        r == first_val(m@, name@),
{
    let ghost p = |x: SampleView<N>| default_priority(x);
    let keep = |x: &Sample<N>| -> (b: bool)
        ensures
            b == p(x@),
    {
        is_default_priority(x)
    };
    let own = choose_samples(m, name, keep, Ghost(p));
    assert(refs_view(own@).len() == own@.len());
    if own.len() == 0 {
        return None;
    }
    assert(refs_view(own@)[0] == own@[0]@);
    if own[0].value.is_nan() {
        None
    } else {
        Some(own[0].value)
    }
}

/// The samples that add up to the whole of `name`: those attributed to ranks, or,
/// where there are none, the unattributed ones (never both: it would double-count).
/// `scoped` leaves the per-priority breakdowns out of the latter.
pub open spec fn whole<N: Num>(
    m: Seq<SampleView<N>>,
    name: Seq<char>,
    scoped: bool,
) -> Seq<SampleView<N>> {
    let ranked = chosen(m, name, |x: SampleView<N>| has_rank(x));
    if ranked.len() > 0 {
        ranked
    } else {
        chosen(m, name, |x: SampleView<N>| !scoped || default_priority(x))
    }
}

/// The samples that add up to the whole of `name`.
pub fn read_whole<'a, N: Num>(m: &'a Metrics<N>, name: &str, scoped: bool) -> (r: Vec<
    &'a Sample<N>,
>)
    ensures
        refs_view(r@) == whole(m@, name@, scoped),
{
    let ghost p = |x: SampleView<N>| has_rank(x);
    let keep = |x: &Sample<N>| -> (b: bool)
        ensures
            b == p(x@),
    {
        is_ranked(x)
    };
    let ranked = choose_samples(m, name, keep, Ghost(p));
    assert(refs_view(ranked@).len() == ranked@.len());
    if ranked.len() > 0 {
        return ranked;
    }
    let ghost q = |x: SampleView<N>| !scoped || default_priority(x);
    let keep = |x: &Sample<N>| -> (b: bool)
        ensures
            b == q(x@),
    {
        !scoped || is_default_priority(x)
    };
    choose_samples(m, name, keep, Ghost(q))
}

/// The sum of a metric over the ranks, or its aggregate where none are attributed.
pub open spec fn across_ranks<N: Num>(m: Seq<SampleView<N>>, name: Seq<char>, scoped: bool) -> N {
    sum_of(whole(m, name, scoped))
}

/// The sum of a metric over the ranks, or its aggregate where none are attributed.
pub fn sum_across_ranks<N: Num>(m: &Metrics<N>, name: &str, scoped: bool) -> (r: N)
    ensures
        r == across_ranks(m@, name@, scoped),
{
    sum_samples(&read_whole(m, name, scoped))
}

/// A count read as the whole of `name`.
pub open spec fn count_of<N: Num>(m: Seq<SampleView<N>>, name: Seq<char>) -> u64 {
    across_ranks(m, name, true).to_count_spec()
}

/// A count read as the whole of `name`.
pub fn read_count<N: Num>(m: &Metrics<N>, name: &str) -> (r: u64)
    ensures
        r == count_of(m@, name@),
{
    sum_across_ranks(m, name, true).to_count()
}

/// Whether the scrape has a sample of `name`.
pub open spec fn present<N>(m: Seq<SampleView<N>>, name: Seq<char>) -> bool {
    named(m, name).len() > 0
}

/// Whether the scrape has a sample of `name`.
pub fn is_present<N: Num>(m: &Metrics<N>, name: &str) -> (r: bool)
    ensures
        r == present(m@, name@),
{
    let v = m.get(name);
    assert(refs_view(v@).len() == v@.len());
    v.len() > 0
}

/// The sum of a family where it appears at all: an absent family is N/A, a
/// present-but-zero one is a real zero.
pub open spec fn sum_if_there<N: Num>(m: Seq<SampleView<N>>, name: Seq<char>) -> Option<N> {
    if present(m, name) {
        Some(across_ranks(m, name, false))
    } else {
        None
    }
}

/// The sum of a family where it appears at all.
pub fn sum_if_present<N: Num>(m: &Metrics<N>, name: &str) -> (r: Option<N>)
    ensures
        r == sum_if_there(m@, name@),
{
    if is_present(m, name) {
        Some(sum_across_ranks(m, name, false))
    } else {
        None
    }
}

/// The count of a family where it appears at all.
pub open spec fn count_if_there<N: Num>(m: Seq<SampleView<N>>, name: Seq<char>) -> Option<u64> {
    match sum_if_there(m, name) {
        Some(v) => Some(v.to_count_spec()),
        None => None,
    }
}

/// The count of a family where it appears at all.
pub fn count_if_present<N: Num>(m: &Metrics<N>, name: &str) -> (r: Option<u64>)
    ensures
        r == count_if_there(m@, name@),
{
    match sum_if_present(m, name) {
        Some(v) => Some(v.to_count()),
        None => None,
    }
}

/// The largest value of a metric, at least nought.
pub open spec fn largest<N: Num>(m: Seq<SampleView<N>>, name: Seq<char>) -> N {
    peak_from(values(numeric(named(m, name))), N::zero_spec())
}

/// The largest value of a metric, at least nought.
pub fn max_val<N: Num>(m: &Metrics<N>, name: &str) -> (r: N)
    ensures
        r == largest(m@, name@),
{
    let v = m.get(name);
    let ghost all = refs_view(v@);
    let ghost p = |x: SampleView<N>| !x.value.is_nan_spec();
    let mut top = N::zero();
    let n: usize = v.len();
    let mut i: usize = 0;
    assert(all.take(0).filter(p) =~= Seq::empty()) by {
        reveal(Seq::filter);
    }
    assert(values(all.take(0).filter(p)) =~= Seq::empty());
    while i < n
        invariant
            i <= n,
            n == v@.len(),
            all == refs_view(v@),
            p == |x: SampleView<N>| !x.value.is_nan_spec(),
            top == peak_from(values(all.take(i as int).filter(p)), N::zero_spec()),
        decreases n - i,
    {
        let ghost x = all[i as int];
        let ghost head = all.take(i as int).filter(p);
        assert(x == v@[i as int]@);
        assert(all.take(i + 1) =~= all.take(i as int).push(x));
        proof {
            all.take(i as int).lemma_filter_push(x, p);
            assert(values(head.push(x)).drop_last() =~= values(head));
        }
        if !v[i].value.is_nan() {
            top = larger(top, v[i].value);
        }
        i += 1;
    }
    assert(all.take(n as int) =~= all);
    top
}

/// The mean of a histogram from its sum and its count; nothing without a count:
/// "none yet" is not "instant".
pub open spec fn mean_of<N: Num>(
    m: Seq<SampleView<N>>,
    count: Seq<char>,
    sum: Seq<char>,
) -> Option<N> {
    let c = across_ranks(m, count, false);
    let s = across_ranks(m, sum, false);
    if N::zero_spec().less_spec(c) && s.is_finite_spec() && c.is_finite_spec() {
        Some(s.over_spec(c))
    } else {
        None
    }
}

/// The mean of a histogram from its sum and its count.
pub fn hist_mean<N: Num>(m: &Metrics<N>, count: &str, sum: &str) -> (r: Option<N>)
    ensures
        r == mean_of(m@, count@, sum@),
{
    let c = sum_across_ranks(m, count, false);
    let s = sum_across_ranks(m, sum, false);
    if N::zero().less(c) && s.is_finite() && c.is_finite() {
        Some(s.over(c))
    } else {
        None
    }
}

/// The mean of a histogram whose sum must be positive too.
pub open spec fn length_mean_of<N: Num>(
    m: Seq<SampleView<N>>,
    count: Seq<char>,
    sum: Seq<char>,
) -> Option<N> {
    if N::zero_spec().less_spec(across_ranks(m, sum, false)) {
        mean_of(m, count, sum)
    } else {
        None
    }
}

/// The mean of a histogram whose sum must be positive too.
pub fn length_mean<N: Num>(m: &Metrics<N>, count: &str, sum: &str) -> (r: Option<N>)
    ensures
        r == length_mean_of(m@, count@, sum@),
{
    if N::zero().less(sum_across_ranks(m, sum, false)) {
        hist_mean(m, count, sum)
    } else {
        None
    }
}

/// The values of samples as counts, added up; held to the largest count.
pub open spec fn counted<N: Num>(s: Seq<SampleView<N>>) -> u64
    decreases s.len(),
{
    if s.len() == 0 {
        0
    } else {
        let c = counted(s.drop_last()) + s.last().value.to_count_spec();
        if c > u64::MAX {
            u64::MAX
        } else {
            c as u64
        }
    }
}

/// The values of samples as counts, added up; held to the largest count.
pub fn count_samples<N: Num>(v: &Vec<&Sample<N>>) -> (r: u64)
    ensures
        r == counted(refs_view(v@)),
{
    let ghost all = refs_view(v@);
    let mut sum: u64 = 0;
    let n: usize = v.len();
    let mut i: usize = 0;
    assert(all.take(0) =~= Seq::empty());
    while i < n
        invariant
            i <= n,
            n == v@.len(),
            all == refs_view(v@),
            sum == counted(all.take(i as int)),
        decreases n - i,
    {
        assert(all[i as int] == v@[i as int]@);
        assert(all.take(i + 1).drop_last() =~= all.take(i as int));
        sum = sum.saturating_add(v[i].value.to_count());
        i += 1;
    }
    assert(all.take(n as int) =~= all);
    sum
}

// ---- rates ----

/// The key and the value of each sample.
pub open spec fn points<N>(s: Seq<SampleView<N>>) -> Seq<(Seq<char>, N)> {
    s.map_values(|x: SampleView<N>| (x.key(), x.value))
}

/// The key and the value of each sample.
pub fn points_of<N: Num>(v: &Vec<&Sample<N>>) -> (r: Vec<(String, N)>)
    ensures
        points_view(r@) == points(refs_view(v@)),
{
    let mut out: Vec<(String, N)> = Vec::new();
    let ghost all = points(refs_view(v@));
    let n: usize = v.len();
    let mut i: usize = 0;
    assert(points_view(out@) =~= all.take(0));
    while i < n
        invariant
            i <= n,
            n == v@.len(),
            all == points(refs_view(v@)),
            points_view(out@) == all.take(i as int),
        decreases n - i,
    {
        let ghost before = out@;
        out.push((v[i].key(), v[i].value));
        i += 1;
        assert(points_view(out@) =~= points_view(before).push(all[i - 1]));
        assert(points_view(out@) =~= all.take(i as int));
    }
    assert(all.take(n as int) =~= all);
    out
}

/// A rate read from the tracker, and the tracker's series behind it.
#[verifier::reject_recursive_types(N)]
pub struct Reading<N> {
    pub rate: Option<N>,
    pub after: Series<N>,
}

/// The summed rate of samples.
pub open spec fn rate_over<N: Num>(
    s: Series<N>,
    window: u64,
    now: u64,
    of: Seq<SampleView<N>>,
) -> Reading<N> {
    Reading {
        rate: sum_known(rates_of(s, window, now, points(of))),
        after: observed_all(s, window, now, points(of)),
    }
}

/// The summed rate of samples.
pub fn read_rate<N: Num>(rates: &mut RateTracker<N>, now: u64, v: &Vec<&Sample<N>>) -> (r: Option<N>)
    ensures
        final(rates).window() == old(rates).window(),
        (Reading { rate: r, after: final(rates)@ }) == rate_over(
            old(rates)@,
            old(rates).window(),
            now,
            refs_view(v@),
        ),
{
    rates.rate_sum(now, &points_of(v))
}

/// The rate of a whole family: the sum over the ranks, or the default-priority
/// aggregate's where none are attributed. There is none until every contributing series
/// has a baseline.
pub open spec fn family_rate<N: Num>(
    s: Series<N>,
    window: u64,
    now: u64,
    m: Seq<SampleView<N>>,
    name: Seq<char>,
) -> Reading<N> {
    let of = points(whole(m, name, true));
    Reading {
        rate: if of.len() > 0 {
            sum_all(rates_of(s, window, now, of))
        } else {
            None
        },
        after: observed_all(s, window, now, of),
    }
}

/// The rate of a whole family, once every contributing series has a baseline.
pub fn rate_of<N: Num>(m: &Metrics<N>, rates: &mut RateTracker<N>, name: &str, now: u64) -> (r:
    Option<N>)
    ensures
        final(rates).window() == old(rates).window(),
        (Reading { rate: r, after: final(rates)@ }) == family_rate(
            old(rates)@,
            old(rates).window(),
            now,
            m@,
            name@,
        ),
{
    let of = points_of(&read_whole(m, name, true));
    let each = rates.rate_each(now, &of);
    assert(points_view(of@).len() == of@.len());
    if of.len() > 0 {
        sum_every(&each)
    } else {
        None
    }
}

/// The rate of the samples of `name` that carry the label `key` = `value`.
pub open spec fn labelled_rate<N: Num>(
    s: Series<N>,
    window: u64,
    now: u64,
    m: Seq<SampleView<N>>,
    name: Seq<char>,
    key: Seq<char>,
    value: Seq<char>,
) -> Reading<N> {
    rate_over(s, window, now, chosen(m, name, |x: SampleView<N>| labelled(x, key, value)))
}

/// The rate of the samples of `name` that carry the label `key` = `value`.
pub fn rate_labelled<N: Num>(
    m: &Metrics<N>,
    rates: &mut RateTracker<N>,
    name: &str,
    key: &str,
    value: &str,
    now: u64,
) -> (r: Option<N>)
    ensures
        final(rates).window() == old(rates).window(),
        (Reading { rate: r, after: final(rates)@ }) == labelled_rate(
            old(rates)@,
            old(rates).window(),
            now,
            m@,
            name@,
            key@,
            value@,
        ),
{
    let ghost p = |x: SampleView<N>| labelled(x, key@, value@);
    let keep = |x: &Sample<N>| -> (b: bool)
        ensures
            b == p(x@),
    {
        is_labelled(x, key, value)
    };
    let v = choose_samples(m, name, keep, Ghost(p));
    read_rate(rates, now, &v)
}

/// The rate of one `mode` of the realtime counters, or, while that has none, of a
/// request-scoped counter.
pub open spec fn mode_rate<N: Num>(
    s: Series<N>,
    window: u64,
    now: u64,
    m: Seq<SampleView<N>>,
    mode: Seq<char>,
    fallback: Seq<char>,
) -> Reading<N> {
    let first = labelled_rate(
        s,
        window,
        now,
        m,
        "sglang:realtime_tokens_total"@,
        "mode"@,
        mode,
    );
    match first.rate {
        Some(r) => first,
        None => family_rate(first.after, window, now, m, fallback),
    }
}

/// The rate of one `mode` of the realtime counters, or, while that has none, of a
/// request-scoped counter.
pub fn rate_of_mode<N: Num>(
    m: &Metrics<N>,
    rates: &mut RateTracker<N>,
    mode: &str,
    fallback: &str,
    now: u64,
) -> (r: Option<N>)
    ensures
        final(rates).window() == old(rates).window(),
        (Reading { rate: r, after: final(rates)@ }) == mode_rate(
            old(rates)@,
            old(rates).window(),
            now,
            m@,
            mode@,
            fallback@,
        ),
{
    match rate_labelled(m, rates, "sglang:realtime_tokens_total", "mode", mode, now) {
        Some(r) => Some(r),
        None => rate_of(m, rates, fallback, now),
    }
}

// ---- laws ----

/// A gauge that the server exposes as `NaN` is not known, whatever follows in the body.
pub proof fn nan_gauge_is_unknown<N: Num>(
    name: Seq<char>,
    ls: Seq<(Seq<char>, Seq<char>)>,
    rest: Seq<char>,
)
    requires
        is_name(name),
        are_labels(ls),
        label_of(sorted_labels(ls), "priority"@) is None,
    ensures
        ({
            let body = exposed(name, ls, "NaN"@) + seq!['\n'] + rest;
            first_val(parsed_from::<N>(body, 0).0, name) is None
        }),
{
    reveal_strlit("NaN");
    N::named_values();
    let text = "NaN"@;
    exposed_body_is_read_back::<N>(name, ls, text, N::nan_spec());
    joined_bodies_add_up::<N>(exposed(name, ls, text), rest);
    let x = SampleView { name, labels: sorted_labels(ls), value: N::nan_spec() };
    let m = parsed_from::<N>(exposed(name, ls, text) + seq!['\n'] + rest, 0).0;
    let more = parsed_from::<N>(rest, 0).0;
    assert(m == seq![x] + more);
    first_stays_first(x, more, |s: SampleView<N>| s.name == name);
    let own = named(m, name);
    assert(own == seq![x] + own.drop_first());
    first_stays_first(x, own.drop_first(), |s: SampleView<N>| default_priority(s));
}

/// The first element is the first of those that are kept, where it is kept.
proof fn first_stays_first<A>(x: A, more: Seq<A>, p: spec_fn(A) -> bool)
    requires
        p(x),
    ensures
        (seq![x] + more).filter(p).len() > 0,
        (seq![x] + more).filter(p)[0] == x,
    decreases more.len(),
{
    reveal(Seq::filter);
    let s = seq![x] + more;
    if more.len() == 0 {
        assert(s.drop_last() =~= Seq::empty());
    } else {
        assert(s.drop_last() =~= seq![x] + more.drop_last());
        first_stays_first(x, more.drop_last(), p);
    }
}

}
