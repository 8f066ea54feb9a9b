//! Which counters each rate of a scrape is read from.
use crate::laws::rates::counters_stand_alone;
use crate::num::Num;
use crate::poll::flow::{effective_tokens, flow, http_failures, http_requests};
use crate::poll::prom::{named, SampleView};
use crate::poll::rate::{history, observed, observed_all, rates_of, slope, sum_all, sum_known, Series};
use crate::poll::read::{chosen, labelled, labelled_rate, mode_rate, points, whole};
use vstd::prelude::*;

verus! {

/// The rate of each sample by itself.
pub open spec fn alone<N: Num>(
    s: Series<N>,
    window: u64,
    now: u64,
    of: Seq<SampleView<N>>,
) -> Seq<Option<N>> {
    Seq::new(
        of.len(),
        |i: int| slope(observed(history(s, of[i].key()), now, of[i].value, window)),
    )
}

/// Whether no two samples are of one series.
pub open spec fn one_each<N>(m: Seq<SampleView<N>>) -> bool {
    forall|i: int, j: int| 0 <= i < j < m.len() ==> (#[trigger] m[i]).key() != (#[trigger] m[j]).key()
}

/// The samples called `name` with the label, in the order of the scrape.
pub open spec fn with_label<N>(
    m: Seq<SampleView<N>>,
    name: Seq<char>,
    key: Seq<char>,
    value: Seq<char>,
) -> Seq<SampleView<N>>
    decreases m.len(),
{
    if m.len() == 0 {
        Seq::empty()
    } else {
        let head = with_label(m.drop_last(), name, key, value);
        if m.last().name == name && m.last().label(key) == Some(value) {
            head.push(m.last())
        } else {
            head
        }
    }
}

/// Whether every sample of `of` is one of `m`, and one that satisfies `p`.
spec fn taken<N>(m: Seq<SampleView<N>>, of: Seq<SampleView<N>>, p: spec_fn(SampleView<N>) -> bool) -> bool {
    &&& one_each(of)
    &&& forall|i: int| 0 <= i < of.len() ==> m.contains(#[trigger] of[i]) && p(of[i])
}

proof fn filter_takes<N>(m: Seq<SampleView<N>>, q: spec_fn(SampleView<N>) -> bool)
    requires
        one_each(m),
    ensures
        taken(m, m.filter(q), q),
    decreases m.len(),
{
    reveal(Seq::filter);
    let r = m.filter(q);
    if m.len() > 0 {
        let d = m.drop_last();
        assert forall|i: int, j: int| 0 <= i < j < d.len() implies (#[trigger] d[i]).key() != (
        #[trigger] d[j]).key() by {
            assert(d[i] == m[i] && d[j] == m[j]);
        }
        filter_takes(d, q);
        let v = d.filter(q);
        let last = m[m.len() - 1];
        assert forall|i: int| 0 <= i < v.len() implies m.contains(#[trigger] v[i]) && v[i].key()
            != last.key() by {
            assert(d.contains(v[i]));
            let k = choose|k: int| 0 <= k < d.len() && d[k] == v[i];
            assert(m[k] == v[i]);
        }
        if q(last) {
            assert(r == v.push(last));
            assert(m.contains(last));
            assert forall|i: int| 0 <= i < r.len() implies m.contains(#[trigger] r[i]) && q(r[i]) by {
                if i < v.len() {
                    assert(r[i] == v[i]);
                }
            }
            assert forall|i: int, j: int| 0 <= i < j < r.len() implies (#[trigger] r[i]).key() != (
            #[trigger] r[j]).key() by {
                assert(r[i] == v[i]);
                if j < v.len() {
                    assert(r[j] == v[j]);
                }
            }
        } else {
            assert(r == v);
        }
    }
}

proof fn choice_takes<N>(
    m: Seq<SampleView<N>>,
    name: Seq<char>,
    q: spec_fn(SampleView<N>) -> bool,
    p: spec_fn(SampleView<N>) -> bool,
)
    requires
        one_each(m),
        forall|x: SampleView<N>| #[trigger] p(x) <==> x.name == name && q(x),
    ensures
        taken(m, chosen(m, name, q), p),
{
    let own = named(m, name);
    let n = |x: SampleView<N>| x.name == name;
    filter_takes(m, n);
    assert(own == m.filter(n));
    filter_takes(own, q);
    let r = chosen(m, name, q);
    assert forall|i: int| 0 <= i < r.len() implies m.contains(#[trigger] r[i]) && p(r[i]) by {
        assert(own.contains(r[i]));
        let k = choose|k: int| 0 <= k < own.len() && own[k] == r[i];
        assert(n(own[k]));
    }
}

/// What reading some samples does to the series of others: nothing.
proof fn reading_leaves_others<N: Num>(
    s: Series<N>,
    window: u64,
    now: u64,
    m: Seq<SampleView<N>>,
    of: Seq<SampleView<N>>,
    x: SampleView<N>,
)
    requires
        one_each(m),
        m.contains(x),
        forall|i: int| 0 <= i < of.len() ==> m.contains(#[trigger] of[i]) && of[i] != x,
    ensures
        history(observed_all(s, window, now, points(of)), x.key()) == history(s, x.key()),
    decreases of.len(),
{
    if of.len() > 0 {
        let d = of.drop_last();
        assert forall|i: int| 0 <= i < d.len() implies m.contains(#[trigger] d[i]) && d[i] != x by {
            assert(d[i] == of[i]);
        }
        reading_leaves_others(s, window, now, m, d, x);
        assert(points(of).drop_last() =~= points(d));
        let last = of[of.len() - 1];
        let i = choose|i: int| 0 <= i < m.len() && m[i] == last;
        let j = choose|j: int| 0 <= j < m.len() && m[j] == x;
        assert(m[i].key() != m[j].key());
        assert(points(of).last().0 == last.key());
    }
}

/// Samples whose series are as they were have the rates that each has alone.
proof fn rates_stay<N: Num>(
    s: Series<N>,
    t: Series<N>,
    window: u64,
    now: u64,
    of: Seq<SampleView<N>>,
)
    requires
        one_each(of),
        forall|i: int| 0 <= i < of.len() ==> history(t, (#[trigger] of[i]).key()) == history(
            s,
            of[i].key(),
        ),
    ensures
        rates_of(t, window, now, points(of)) == alone(s, window, now, of),
{
    let pts = points(of);
    assert forall|j: int, k: int| 0 <= j < k < pts.len() implies (#[trigger] pts[j]).0 != (
    #[trigger] pts[k]).0 by {
        assert(of[j].key() != of[k].key());
    }
    crate::poll::rate::one_rate_per_point(t, window, now, pts);
    assert forall|i: int| 0 <= i < of.len() implies #[trigger] rates_of(t, window, now, pts)[i]
        == alone(s, window, now, of)[i] by {
        counters_stand_alone(t, window, now, pts, i);
        assert(pts[i].0 == of[i].key());
    }
    assert(rates_of(t, window, now, pts) =~= alone(s, window, now, of));
}

// ---- one scrape ----

proof fn names_differ()
    ensures
        "sglang:realtime_tokens_total"@ != "sglang:prompt_tokens_total"@,
        "sglang:realtime_tokens_total"@ != "sglang:generation_tokens_total"@,
        "sglang:realtime_tokens_total"@ != "sglang:process_cpu_seconds_total"@,
        "sglang:realtime_tokens_total"@ != "sglang:evicted_tokens_total"@,
        "sglang:realtime_tokens_total"@ != "sglang:hicache_backup_bytes_total"@,
        "sglang:realtime_tokens_total"@ != "sglang:hicache_backup_duration_seconds_sum"@,
        "sglang:realtime_tokens_total"@ != "sglang:num_requests_total"@,
        "sglang:realtime_tokens_total"@ != "sglang:http_requests_total"@,
        "sglang:realtime_tokens_total"@ != "sglang:http_responses_total"@,
        "sglang:realtime_tokens_total"@ != "sglang:cached_tokens_total"@,
        "sglang:realtime_tokens_total"@ != "sglang:prefill_effective_tokens_total"@,
        "sglang:prompt_tokens_total"@ != "sglang:generation_tokens_total"@,
        "sglang:prompt_tokens_total"@ != "sglang:process_cpu_seconds_total"@,
        "sglang:prompt_tokens_total"@ != "sglang:evicted_tokens_total"@,
        "sglang:prompt_tokens_total"@ != "sglang:hicache_backup_bytes_total"@,
        "sglang:prompt_tokens_total"@ != "sglang:hicache_backup_duration_seconds_sum"@,
        "sglang:prompt_tokens_total"@ != "sglang:num_requests_total"@,
        "sglang:prompt_tokens_total"@ != "sglang:http_requests_total"@,
        "sglang:prompt_tokens_total"@ != "sglang:http_responses_total"@,
        "sglang:prompt_tokens_total"@ != "sglang:cached_tokens_total"@,
        "sglang:prompt_tokens_total"@ != "sglang:prefill_effective_tokens_total"@,
        "sglang:generation_tokens_total"@ != "sglang:process_cpu_seconds_total"@,
        "sglang:generation_tokens_total"@ != "sglang:evicted_tokens_total"@,
        "sglang:generation_tokens_total"@ != "sglang:hicache_backup_bytes_total"@,
        "sglang:generation_tokens_total"@ != "sglang:hicache_backup_duration_seconds_sum"@,
        "sglang:generation_tokens_total"@ != "sglang:num_requests_total"@,
        "sglang:generation_tokens_total"@ != "sglang:http_requests_total"@,
        "sglang:generation_tokens_total"@ != "sglang:http_responses_total"@,
        "sglang:generation_tokens_total"@ != "sglang:cached_tokens_total"@,
        "sglang:generation_tokens_total"@ != "sglang:prefill_effective_tokens_total"@,
        "sglang:process_cpu_seconds_total"@ != "sglang:evicted_tokens_total"@,
        "sglang:process_cpu_seconds_total"@ != "sglang:hicache_backup_bytes_total"@,
        "sglang:process_cpu_seconds_total"@ != "sglang:hicache_backup_duration_seconds_sum"@,
        "sglang:process_cpu_seconds_total"@ != "sglang:num_requests_total"@,
        "sglang:process_cpu_seconds_total"@ != "sglang:http_requests_total"@,
        "sglang:process_cpu_seconds_total"@ != "sglang:http_responses_total"@,
        "sglang:process_cpu_seconds_total"@ != "sglang:cached_tokens_total"@,
        "sglang:process_cpu_seconds_total"@ != "sglang:prefill_effective_tokens_total"@,
        "sglang:evicted_tokens_total"@ != "sglang:hicache_backup_bytes_total"@,
        "sglang:evicted_tokens_total"@ != "sglang:hicache_backup_duration_seconds_sum"@,
        "sglang:evicted_tokens_total"@ != "sglang:num_requests_total"@,
        "sglang:evicted_tokens_total"@ != "sglang:http_requests_total"@,
        "sglang:evicted_tokens_total"@ != "sglang:http_responses_total"@,
        "sglang:evicted_tokens_total"@ != "sglang:cached_tokens_total"@,
        "sglang:evicted_tokens_total"@ != "sglang:prefill_effective_tokens_total"@,
        "sglang:hicache_backup_bytes_total"@ != "sglang:hicache_backup_duration_seconds_sum"@,
        "sglang:hicache_backup_bytes_total"@ != "sglang:num_requests_total"@,
        "sglang:hicache_backup_bytes_total"@ != "sglang:http_requests_total"@,
        "sglang:hicache_backup_bytes_total"@ != "sglang:http_responses_total"@,
        "sglang:hicache_backup_bytes_total"@ != "sglang:cached_tokens_total"@,
        "sglang:hicache_backup_bytes_total"@ != "sglang:prefill_effective_tokens_total"@,
        "sglang:hicache_backup_duration_seconds_sum"@ != "sglang:num_requests_total"@,
        "sglang:hicache_backup_duration_seconds_sum"@ != "sglang:http_requests_total"@,
        "sglang:hicache_backup_duration_seconds_sum"@ != "sglang:http_responses_total"@,
        "sglang:hicache_backup_duration_seconds_sum"@ != "sglang:cached_tokens_total"@,
        "sglang:hicache_backup_duration_seconds_sum"@ != "sglang:prefill_effective_tokens_total"@,
        "sglang:num_requests_total"@ != "sglang:http_requests_total"@,
        "sglang:num_requests_total"@ != "sglang:http_responses_total"@,
        "sglang:num_requests_total"@ != "sglang:cached_tokens_total"@,
        "sglang:num_requests_total"@ != "sglang:prefill_effective_tokens_total"@,
        "sglang:http_requests_total"@ != "sglang:http_responses_total"@,
        "sglang:http_requests_total"@ != "sglang:cached_tokens_total"@,
        "sglang:http_requests_total"@ != "sglang:prefill_effective_tokens_total"@,
        "sglang:http_responses_total"@ != "sglang:cached_tokens_total"@,
        "sglang:http_responses_total"@ != "sglang:prefill_effective_tokens_total"@,
        "sglang:cached_tokens_total"@ != "sglang:prefill_effective_tokens_total"@,
        "prefill_compute"@ != "decode"@,
        "tokenizer"@ != "detokenizer"@,
{
    reveal_strlit("sglang:realtime_tokens_total");
    reveal_strlit("sglang:prompt_tokens_total");
    reveal_strlit("sglang:generation_tokens_total");
    reveal_strlit("sglang:process_cpu_seconds_total");
    reveal_strlit("sglang:evicted_tokens_total");
    reveal_strlit("sglang:hicache_backup_bytes_total");
    reveal_strlit("sglang:hicache_backup_duration_seconds_sum");
    reveal_strlit("sglang:num_requests_total");
    reveal_strlit("sglang:http_requests_total");
    reveal_strlit("sglang:http_responses_total");
    reveal_strlit("sglang:cached_tokens_total");
    reveal_strlit("sglang:prefill_effective_tokens_total");
    reveal_strlit("prefill_compute");
    reveal_strlit("decode");
    reveal_strlit("tokenizer");
    reveal_strlit("detokenizer");
    assert("sglang:realtime_tokens_total"@.len() != "sglang:prompt_tokens_total"@.len());
    assert("sglang:realtime_tokens_total"@.len() != "sglang:generation_tokens_total"@.len());
    assert("sglang:realtime_tokens_total"@.len() != "sglang:process_cpu_seconds_total"@.len());
    assert("sglang:realtime_tokens_total"@.len() != "sglang:evicted_tokens_total"@.len());
    assert("sglang:realtime_tokens_total"@.len() != "sglang:hicache_backup_bytes_total"@.len());
    assert("sglang:realtime_tokens_total"@.len() != "sglang:hicache_backup_duration_seconds_sum"@.len());
    assert("sglang:realtime_tokens_total"@.len() != "sglang:num_requests_total"@.len());
    assert("sglang:realtime_tokens_total"@.len() != "sglang:http_requests_total"@.len());
    assert("sglang:realtime_tokens_total"@.len() != "sglang:http_responses_total"@.len());
    assert("sglang:realtime_tokens_total"@.len() != "sglang:cached_tokens_total"@.len());
    assert("sglang:realtime_tokens_total"@.len() != "sglang:prefill_effective_tokens_total"@.len());
    assert("sglang:prompt_tokens_total"@.len() != "sglang:generation_tokens_total"@.len());
    assert("sglang:prompt_tokens_total"@.len() != "sglang:process_cpu_seconds_total"@.len());
    assert("sglang:prompt_tokens_total"@.len() != "sglang:evicted_tokens_total"@.len());
    assert("sglang:prompt_tokens_total"@.len() != "sglang:hicache_backup_bytes_total"@.len());
    assert("sglang:prompt_tokens_total"@.len() != "sglang:hicache_backup_duration_seconds_sum"@.len());
    assert("sglang:prompt_tokens_total"@.len() != "sglang:num_requests_total"@.len());
    assert("sglang:prompt_tokens_total"@[7] != "sglang:http_requests_total"@[7]);
    assert("sglang:prompt_tokens_total"@.len() != "sglang:http_responses_total"@.len());
    assert("sglang:prompt_tokens_total"@[7] != "sglang:cached_tokens_total"@[7]);
    assert("sglang:prompt_tokens_total"@.len() != "sglang:prefill_effective_tokens_total"@.len());
    assert("sglang:generation_tokens_total"@.len() != "sglang:process_cpu_seconds_total"@.len());
    assert("sglang:generation_tokens_total"@.len() != "sglang:evicted_tokens_total"@.len());
    assert("sglang:generation_tokens_total"@.len() != "sglang:hicache_backup_bytes_total"@.len());
    assert("sglang:generation_tokens_total"@.len() != "sglang:hicache_backup_duration_seconds_sum"@.len());
    assert("sglang:generation_tokens_total"@.len() != "sglang:num_requests_total"@.len());
    assert("sglang:generation_tokens_total"@.len() != "sglang:http_requests_total"@.len());
    assert("sglang:generation_tokens_total"@.len() != "sglang:http_responses_total"@.len());
    assert("sglang:generation_tokens_total"@.len() != "sglang:cached_tokens_total"@.len());
    assert("sglang:generation_tokens_total"@.len() != "sglang:prefill_effective_tokens_total"@.len());
    assert("sglang:process_cpu_seconds_total"@.len() != "sglang:evicted_tokens_total"@.len());
    assert("sglang:process_cpu_seconds_total"@.len() != "sglang:hicache_backup_bytes_total"@.len());
    assert("sglang:process_cpu_seconds_total"@.len() != "sglang:hicache_backup_duration_seconds_sum"@.len());
    assert("sglang:process_cpu_seconds_total"@.len() != "sglang:num_requests_total"@.len());
    assert("sglang:process_cpu_seconds_total"@.len() != "sglang:http_requests_total"@.len());
    assert("sglang:process_cpu_seconds_total"@.len() != "sglang:http_responses_total"@.len());
    assert("sglang:process_cpu_seconds_total"@.len() != "sglang:cached_tokens_total"@.len());
    assert("sglang:process_cpu_seconds_total"@.len() != "sglang:prefill_effective_tokens_total"@.len());
    assert("sglang:evicted_tokens_total"@.len() != "sglang:hicache_backup_bytes_total"@.len());
    assert("sglang:evicted_tokens_total"@.len() != "sglang:hicache_backup_duration_seconds_sum"@.len());
    assert("sglang:evicted_tokens_total"@.len() != "sglang:num_requests_total"@.len());
    assert("sglang:evicted_tokens_total"@.len() != "sglang:http_requests_total"@.len());
    assert("sglang:evicted_tokens_total"@[7] != "sglang:http_responses_total"@[7]);
    assert("sglang:evicted_tokens_total"@.len() != "sglang:cached_tokens_total"@.len());
    assert("sglang:evicted_tokens_total"@.len() != "sglang:prefill_effective_tokens_total"@.len());
    assert("sglang:hicache_backup_bytes_total"@.len() != "sglang:hicache_backup_duration_seconds_sum"@.len());
    assert("sglang:hicache_backup_bytes_total"@.len() != "sglang:num_requests_total"@.len());
    assert("sglang:hicache_backup_bytes_total"@.len() != "sglang:http_requests_total"@.len());
    assert("sglang:hicache_backup_bytes_total"@.len() != "sglang:http_responses_total"@.len());
    assert("sglang:hicache_backup_bytes_total"@.len() != "sglang:cached_tokens_total"@.len());
    assert("sglang:hicache_backup_bytes_total"@.len() != "sglang:prefill_effective_tokens_total"@.len());
    assert("sglang:hicache_backup_duration_seconds_sum"@.len() != "sglang:num_requests_total"@.len());
    assert("sglang:hicache_backup_duration_seconds_sum"@.len() != "sglang:http_requests_total"@.len());
    assert("sglang:hicache_backup_duration_seconds_sum"@.len() != "sglang:http_responses_total"@.len());
    assert("sglang:hicache_backup_duration_seconds_sum"@.len() != "sglang:cached_tokens_total"@.len());
    assert("sglang:hicache_backup_duration_seconds_sum"@.len() != "sglang:prefill_effective_tokens_total"@.len());
    assert("sglang:num_requests_total"@.len() != "sglang:http_requests_total"@.len());
    assert("sglang:num_requests_total"@.len() != "sglang:http_responses_total"@.len());
    assert("sglang:num_requests_total"@.len() != "sglang:cached_tokens_total"@.len());
    assert("sglang:num_requests_total"@.len() != "sglang:prefill_effective_tokens_total"@.len());
    assert("sglang:http_requests_total"@.len() != "sglang:http_responses_total"@.len());
    assert("sglang:http_requests_total"@[7] != "sglang:cached_tokens_total"@[7]);
    assert("sglang:http_requests_total"@.len() != "sglang:prefill_effective_tokens_total"@.len());
    assert("sglang:http_responses_total"@.len() != "sglang:cached_tokens_total"@.len());
    assert("sglang:http_responses_total"@.len() != "sglang:prefill_effective_tokens_total"@.len());
    assert("sglang:cached_tokens_total"@.len() != "sglang:prefill_effective_tokens_total"@.len());
    assert("prefill_compute"@.len() != "decode"@.len());
    assert("tokenizer"@.len() != "detokenizer"@.len());
}

/// Whether the series of the samples that are not `touched` are as they were.
spec fn left<N: Num>(
    s: Series<N>,
    t: Series<N>,
    m: Seq<SampleView<N>>,
    touched: spec_fn(SampleView<N>) -> bool,
) -> bool {
    forall|x: SampleView<N>| #[trigger]
        m.contains(x) && !touched(x) ==> history(t, x.key()) == history(s, x.key())
}

proof fn step<N: Num>(
    s: Series<N>,
    t: Series<N>,
    window: u64,
    now: u64,
    m: Seq<SampleView<N>>,
    of: Seq<SampleView<N>>,
    p: spec_fn(SampleView<N>) -> bool,
    touched: spec_fn(SampleView<N>) -> bool,
    after: spec_fn(SampleView<N>) -> bool,
)
    requires
        one_each(m),
        left(s, t, m, touched),
        taken(m, of, p),
        forall|x: SampleView<N>| #[trigger] p(x) ==> !touched(x) && after(x),
        forall|x: SampleView<N>| #[trigger] touched(x) ==> after(x),
    ensures
        rates_of(t, window, now, points(of)) == alone(s, window, now, of),
        left(s, observed_all(t, window, now, points(of)), m, after),
{
    assert forall|i: int| 0 <= i < of.len() implies history(t, (#[trigger] of[i]).key()) == history(
        s,
        of[i].key(),
    ) by {
        assert(m.contains(of[i]) && p(of[i]));
    }
    rates_stay(s, t, window, now, of);
    let u = observed_all(t, window, now, points(of));
    assert forall|x: SampleView<N>| #[trigger] m.contains(x) && !after(x) implies history(u, x.key())
        == history(s, x.key()) by {
        assert forall|i: int| 0 <= i < of.len() implies m.contains(#[trigger] of[i]) && of[i]
            != x by {
            assert(p(of[i]));
        }
        reading_leaves_others(t, window, now, m, of, x);
        assert(!touched(x));
    }
}

proof fn labelled_are_those<N>(
    m: Seq<SampleView<N>>,
    name: Seq<char>,
    key: Seq<char>,
    value: Seq<char>,
    q: spec_fn(SampleView<N>) -> bool,
)
    requires
        forall|x: SampleView<N>| #[trigger] q(x) <==> labelled(x, key, value),
    ensures
        chosen(m, name, q) == with_label(m, name, key, value),
    decreases m.len(),
{
    reveal(Seq::filter);
    if m.len() > 0 {
        let d = m.drop_last();
        labelled_are_those(d, name, key, value, q);
        let (own, v) = (named(m, name), named(d, name));
        if m.last().name == name {
            assert(own == v.push(m.last()));
            assert(own.drop_last() =~= v);
        } else {
            assert(own == v);
        }
        assert(q(m.last()) <==> labelled(m.last(), key, value));
    } else {
        assert(named(m, name) =~= Seq::empty());
        assert(chosen(m, name, q) =~= Seq::empty());
    }
}

/// What is chosen by a label.
proof fn by_label<N>(m: Seq<SampleView<N>>, name: Seq<char>, key: Seq<char>, value: Seq<char>)
    requires
        one_each(m),
    ensures
        chosen(m, name, |x: SampleView<N>| labelled(x, key, value)) == with_label(
            m,
            name,
            key,
            value,
        ),
        taken(
            m,
            with_label(m, name, key, value),
            |x: SampleView<N>| x.name == name && x.label(key) == Some(value),
        ),
{
    let q = |x: SampleView<N>| labelled(x, key, value);
    let p = |x: SampleView<N>| x.name == name && x.label(key) == Some(value);
    labelled_are_those(m, name, key, value, q);
    choice_takes(m, name, q, p);
}

/// What is chosen by its name.
proof fn by_name<N: Num>(m: Seq<SampleView<N>>, name: Seq<char>)
    requires
        one_each(m),
    ensures
        taken(m, named(m, name), |x: SampleView<N>| x.name == name),
        taken(m, whole(m, name, true), |x: SampleView<N>| x.name == name),
{
    let n = |x: SampleView<N>| x.name == name;
    filter_takes(m, n);
    assert(named(m, name) == m.filter(n));
    let own = named(m, name);
    assert forall|q: spec_fn(SampleView<N>) -> bool| taken(m, #[trigger] own.filter(q), n) by {
        filter_takes(own, q);
        let r = own.filter(q);
        assert forall|i: int| 0 <= i < r.len() implies m.contains(#[trigger] r[i]) && n(r[i]) by {
            assert(own.contains(r[i]));
            let k = choose|k: int| 0 <= k < own.len() && own[k] == r[i];
            assert(m.contains(own[k]) && n(own[k]));
        }
    }
}

/// What is chosen by its name and something else.
proof fn by_more<N: Num>(m: Seq<SampleView<N>>, name: Seq<char>)
    requires
        one_each(m),
    ensures
        forall|q: spec_fn(SampleView<N>) -> bool|
            #![trigger named(m, name).filter(q)]
            taken(m, named(m, name).filter(q), |x: SampleView<N>| x.name == name),
{
    let n = |x: SampleView<N>| x.name == name;
    assert forall|q: spec_fn(SampleView<N>) -> bool|
        #![trigger named(m, name).filter(q)]
        taken(m, named(m, name).filter(q), n) by {
        let own = named(m, name);
        filter_takes(m, n);
        assert(own == m.filter(n));
        filter_takes(own, q);
        let r = own.filter(q);
        assert forall|i: int| 0 <= i < r.len() implies m.contains(#[trigger] r[i]) && n(r[i]) by {
            assert(own.contains(r[i]));
            let k = choose|k: int| 0 <= k < own.len() && own[k] == r[i];
            assert(m.contains(own[k]) && n(own[k]));
        }
    }
}

/// The rate of the samples of the realtime counters with a mode, or, while there is none, of
/// a whole family.
pub open spec fn rate_in_mode<N: Num>(
    s: Series<N>,
    window: u64,
    now: u64,
    m: Seq<SampleView<N>>,
    mode: Seq<char>,
    family: Seq<char>,
) -> Option<N> {
    match sum_known(
        alone(s, window, now, with_label(m, "sglang:realtime_tokens_total"@, "mode"@, mode)),
    ) {
        Some(r) => Some(r),
        None => family_alone(s, window, now, m, family),
    }
}

/// The rate of a whole family: that of all its parts, where there are any.
pub open spec fn family_alone<N: Num>(
    s: Series<N>,
    window: u64,
    now: u64,
    m: Seq<SampleView<N>>,
    name: Seq<char>,
) -> Option<N> {
    if whole(m, name, true).len() > 0 {
        sum_all(alone(s, window, now, whole(m, name, true)))
    } else {
        None
    }
}

proof fn mode_step<N: Num>(
    s: Series<N>,
    t: Series<N>,
    window: u64,
    now: u64,
    m: Seq<SampleView<N>>,
    mode: Seq<char>,
    family: Seq<char>,
    touched: spec_fn(SampleView<N>) -> bool,
    after: spec_fn(SampleView<N>) -> bool,
)
    requires
        one_each(m),
        left(s, t, m, touched),
        family != "sglang:realtime_tokens_total"@,
        forall|x: SampleView<N>| #[trigger]
            touched(x) ==> x.name != family && !(x.name == "sglang:realtime_tokens_total"@ && x.label(
                "mode"@,
            ) == Some(mode)),
        forall|x: SampleView<N>| #[trigger]
            after(x) <==> touched(x) || x.name == family || (x.name
                == "sglang:realtime_tokens_total"@ && x.label("mode"@) == Some(mode)),
    ensures
        mode_rate(t, window, now, m, mode, family).rate == rate_in_mode(
            s,
            window,
            now,
            m,
            mode,
            family,
        ),
        left(s, mode_rate(t, window, now, m, mode, family).after, m, after),
{
    let name = "sglang:realtime_tokens_total"@;
    let own = with_label(m, name, "mode"@, mode);
    by_label(m, name, "mode"@, mode);
    let p = |x: SampleView<N>| x.name == name && x.label("mode"@) == Some(mode);
    let between = |x: SampleView<N>| touched(x) || p(x);
    step(s, t, window, now, m, own, p, touched, between);
    let u = observed_all(t, window, now, points(own));
    by_name(m, family);
    let of = whole(m, family, true);
    let n = |x: SampleView<N>| x.name == family;
    step(s, u, window, now, m, of, n, between, after);
    assert(points(of).len() == of.len());
    let first = labelled_rate(t, window, now, m, name, "mode"@, mode);
    assert(first.rate == sum_known(alone(s, window, now, own)));
    assert(first.after == u);
    assert forall|x: SampleView<N>| #[trigger] m.contains(x) && !after(x) implies history(u, x.key())
        == history(s, x.key()) by {
        assert(!between(x));
    }
}

/// In which of the steps a sample is read.
#[verifier::opaque]
spec fn step_of<N>(x: SampleView<N>) -> int {
    if (x.name == "sglang:realtime_tokens_total"@ && x.label("mode"@) == Some("prefill_compute"@)) || x.name == "sglang:prompt_tokens_total"@ {
        1
    } else if (x.name == "sglang:realtime_tokens_total"@ && x.label("mode"@) == Some("decode"@)) || x.name == "sglang:generation_tokens_total"@ {
        2
    } else if x.name == "sglang:process_cpu_seconds_total"@ && x.label("component"@) == Some("tokenizer"@) {
        3
    } else if x.name == "sglang:process_cpu_seconds_total"@ && x.label("component"@) == Some("detokenizer"@) {
        4
    } else if x.name == "sglang:evicted_tokens_total"@ {
        5
    } else if x.name == "sglang:hicache_backup_bytes_total"@ {
        6
    } else if x.name == "sglang:hicache_backup_duration_seconds_sum"@ {
        7
    } else if x.name == "sglang:num_requests_total"@ {
        8
    } else if x.name == "sglang:http_requests_total"@ {
        9
    } else if x.name == "sglang:http_responses_total"@ {
        10
    } else if x.name == "sglang:cached_tokens_total"@ && x.label("cache_source"@) == Some("device"@) {
        11
    } else if x.name == "sglang:prefill_effective_tokens_total"@ {
        12
    } else {
        0
    }
}

proof fn steps_are_told<N>(x: SampleView<N>)
    ensures
        ((x.name == "sglang:realtime_tokens_total"@ && x.label("mode"@) == Some("prefill_compute"@)) || x.name == "sglang:prompt_tokens_total"@) <==> step_of(x) == 1,
        ((x.name == "sglang:realtime_tokens_total"@ && x.label("mode"@) == Some("decode"@)) || x.name == "sglang:generation_tokens_total"@) <==> step_of(x) == 2,
        x.name == "sglang:process_cpu_seconds_total"@ && x.label("component"@) == Some("tokenizer"@) ==> step_of(x) == 3,
        x.name == "sglang:process_cpu_seconds_total"@ && x.label("component"@) == Some("detokenizer"@) ==> step_of(x) == 4,
        x.name == "sglang:evicted_tokens_total"@ ==> step_of(x) == 5,
        x.name == "sglang:hicache_backup_bytes_total"@ ==> step_of(x) == 6,
        x.name == "sglang:hicache_backup_duration_seconds_sum"@ ==> step_of(x) == 7,
        x.name == "sglang:num_requests_total"@ ==> step_of(x) == 8,
        x.name == "sglang:http_requests_total"@ ==> step_of(x) == 9,
        x.name == "sglang:http_responses_total"@ ==> step_of(x) == 10,
        x.name == "sglang:cached_tokens_total"@ && x.label("cache_source"@) == Some("device"@) ==> step_of(x) == 11,
        x.name == "sglang:prefill_effective_tokens_total"@ ==> step_of(x) == 12,
        0 <= step_of(x) <= 12,
{
    reveal(step_of);
    names_differ();
}

/// Whether a sample was read in the first `k` steps.
spec fn read_by<N>(k: int) -> spec_fn(SampleView<N>) -> bool {
    |x: SampleView<N>| 0 < step_of(x) <= k
}

proof fn next_step<N: Num>(
    s: Series<N>,
    t: Series<N>,
    window: u64,
    now: u64,
    m: Seq<SampleView<N>>,
    of: Seq<SampleView<N>>,
    p: spec_fn(SampleView<N>) -> bool,
    k: int,
)
    requires
        one_each(m),
        k > 0,
        left(s, t, m, read_by(k - 1)),
        taken(m, of, p),
        forall|x: SampleView<N>| #[trigger] p(x) ==> step_of(x) == k,
    ensures
        rates_of(t, window, now, points(of)) == alone(s, window, now, of),
        left(s, observed_all(t, window, now, points(of)), m, read_by(k)),
{
    step(s, t, window, now, m, of, p, read_by(k - 1), read_by(k));
}

proof fn tokenizer_step<N: Num>(s: Series<N>, t: Series<N>, window: u64, now: u64, m: Seq<SampleView<N>>)
    requires
        one_each(m),
        left(s, t, m, read_by(2)),
    ensures
        rates_of(t, window, now, points(with_label(m, "sglang:process_cpu_seconds_total"@, "component"@, "tokenizer"@))) == alone(s, window, now, with_label(m, "sglang:process_cpu_seconds_total"@, "component"@, "tokenizer"@)),
        left(s, observed_all(t, window, now, points(with_label(m, "sglang:process_cpu_seconds_total"@, "component"@, "tokenizer"@))), m, read_by(3)),
{
    let p = |x: SampleView<N>| x.name == "sglang:process_cpu_seconds_total"@ && x.label("component"@) == Some("tokenizer"@);
    let of = with_label(m, "sglang:process_cpu_seconds_total"@, "component"@, "tokenizer"@);
    by_label(m, "sglang:process_cpu_seconds_total"@, "component"@, "tokenizer"@);
    assert(taken(m, of, p));
    assert forall|x: SampleView<N>| #[trigger] p(x) implies step_of(x) == 3 by {
        steps_are_told(x);
    }
    next_step(s, t, window, now, m, of, p, 3);
}

proof fn detokenizer_step<N: Num>(s: Series<N>, t: Series<N>, window: u64, now: u64, m: Seq<SampleView<N>>)
    requires
        one_each(m),
        left(s, t, m, read_by(3)),
    ensures
        rates_of(t, window, now, points(with_label(m, "sglang:process_cpu_seconds_total"@, "component"@, "detokenizer"@))) == alone(s, window, now, with_label(m, "sglang:process_cpu_seconds_total"@, "component"@, "detokenizer"@)),
        left(s, observed_all(t, window, now, points(with_label(m, "sglang:process_cpu_seconds_total"@, "component"@, "detokenizer"@))), m, read_by(4)),
{
    let p = |x: SampleView<N>| x.name == "sglang:process_cpu_seconds_total"@ && x.label("component"@) == Some("detokenizer"@);
    let of = with_label(m, "sglang:process_cpu_seconds_total"@, "component"@, "detokenizer"@);
    by_label(m, "sglang:process_cpu_seconds_total"@, "component"@, "detokenizer"@);
    assert(taken(m, of, p));
    assert forall|x: SampleView<N>| #[trigger] p(x) implies step_of(x) == 4 by {
        steps_are_told(x);
    }
    next_step(s, t, window, now, m, of, p, 4);
}

proof fn evicted_step<N: Num>(s: Series<N>, t: Series<N>, window: u64, now: u64, m: Seq<SampleView<N>>)
    requires
        one_each(m),
        left(s, t, m, read_by(4)),
    ensures
        rates_of(t, window, now, points(named(m, "sglang:evicted_tokens_total"@))) == alone(s, window, now, named(m, "sglang:evicted_tokens_total"@)),
        left(s, observed_all(t, window, now, points(named(m, "sglang:evicted_tokens_total"@))), m, read_by(5)),
{
    let p = |x: SampleView<N>| x.name == "sglang:evicted_tokens_total"@;
    let of = named(m, "sglang:evicted_tokens_total"@);
    by_name(m, "sglang:evicted_tokens_total"@);
    assert(taken(m, of, p));
    assert forall|x: SampleView<N>| #[trigger] p(x) implies step_of(x) == 5 by {
        steps_are_told(x);
    }
    next_step(s, t, window, now, m, of, p, 5);
}

proof fn backup_bytes_step<N: Num>(s: Series<N>, t: Series<N>, window: u64, now: u64, m: Seq<SampleView<N>>)
    requires
        one_each(m),
        left(s, t, m, read_by(5)),
    ensures
        rates_of(t, window, now, points(named(m, "sglang:hicache_backup_bytes_total"@))) == alone(s, window, now, named(m, "sglang:hicache_backup_bytes_total"@)),
        left(s, observed_all(t, window, now, points(named(m, "sglang:hicache_backup_bytes_total"@))), m, read_by(6)),
{
    let p = |x: SampleView<N>| x.name == "sglang:hicache_backup_bytes_total"@;
    let of = named(m, "sglang:hicache_backup_bytes_total"@);
    by_name(m, "sglang:hicache_backup_bytes_total"@);
    assert(taken(m, of, p));
    assert forall|x: SampleView<N>| #[trigger] p(x) implies step_of(x) == 6 by {
        steps_are_told(x);
    }
    next_step(s, t, window, now, m, of, p, 6);
}

proof fn backup_secs_step<N: Num>(s: Series<N>, t: Series<N>, window: u64, now: u64, m: Seq<SampleView<N>>)
    requires
        one_each(m),
        left(s, t, m, read_by(6)),
    ensures
        rates_of(t, window, now, points(named(m, "sglang:hicache_backup_duration_seconds_sum"@))) == alone(s, window, now, named(m, "sglang:hicache_backup_duration_seconds_sum"@)),
        left(s, observed_all(t, window, now, points(named(m, "sglang:hicache_backup_duration_seconds_sum"@))), m, read_by(7)),
{
    let p = |x: SampleView<N>| x.name == "sglang:hicache_backup_duration_seconds_sum"@;
    let of = named(m, "sglang:hicache_backup_duration_seconds_sum"@);
    by_name(m, "sglang:hicache_backup_duration_seconds_sum"@);
    assert(taken(m, of, p));
    assert forall|x: SampleView<N>| #[trigger] p(x) implies step_of(x) == 7 by {
        steps_are_told(x);
    }
    next_step(s, t, window, now, m, of, p, 7);
}

proof fn requests_step<N: Num>(s: Series<N>, t: Series<N>, window: u64, now: u64, m: Seq<SampleView<N>>)
    requires
        one_each(m),
        left(s, t, m, read_by(7)),
    ensures
        rates_of(t, window, now, points(whole(m, "sglang:num_requests_total"@, true))) == alone(s, window, now, whole(m, "sglang:num_requests_total"@, true)),
        left(s, observed_all(t, window, now, points(whole(m, "sglang:num_requests_total"@, true))), m, read_by(8)),
{
    let p = |x: SampleView<N>| x.name == "sglang:num_requests_total"@;
    let of = whole(m, "sglang:num_requests_total"@, true);
    by_name(m, "sglang:num_requests_total"@);
    assert(taken(m, of, p));
    assert forall|x: SampleView<N>| #[trigger] p(x) implies step_of(x) == 8 by {
        steps_are_told(x);
    }
    next_step(s, t, window, now, m, of, p, 8);
}

proof fn http_step<N: Num>(s: Series<N>, t: Series<N>, window: u64, now: u64, m: Seq<SampleView<N>>)
    requires
        one_each(m),
        left(s, t, m, read_by(8)),
    ensures
        rates_of(t, window, now, points(http_requests(m))) == alone(s, window, now, http_requests(m)),
        left(s, observed_all(t, window, now, points(http_requests(m))), m, read_by(9)),
{
    let p = |x: SampleView<N>| x.name == "sglang:http_requests_total"@;
    let of = http_requests(m);
    by_more(m, "sglang:http_requests_total"@);
    assert(taken(m, of, p));
    assert forall|x: SampleView<N>| #[trigger] p(x) implies step_of(x) == 9 by {
        steps_are_told(x);
    }
    next_step(s, t, window, now, m, of, p, 9);
}

proof fn http_errors_step<N: Num>(s: Series<N>, t: Series<N>, window: u64, now: u64, m: Seq<SampleView<N>>)
    requires
        one_each(m),
        left(s, t, m, read_by(9)),
    ensures
        rates_of(t, window, now, points(http_failures(m))) == alone(s, window, now, http_failures(m)),
        left(s, observed_all(t, window, now, points(http_failures(m))), m, read_by(10)),
{
    let p = |x: SampleView<N>| x.name == "sglang:http_responses_total"@;
    let of = http_failures(m);
    by_more(m, "sglang:http_responses_total"@);
    assert(taken(m, of, p));
    assert forall|x: SampleView<N>| #[trigger] p(x) implies step_of(x) == 10 by {
        steps_are_told(x);
    }
    next_step(s, t, window, now, m, of, p, 10);
}

proof fn cached_device_step<N: Num>(s: Series<N>, t: Series<N>, window: u64, now: u64, m: Seq<SampleView<N>>)
    requires
        one_each(m),
        left(s, t, m, read_by(10)),
    ensures
        rates_of(t, window, now, points(with_label(m, "sglang:cached_tokens_total"@, "cache_source"@, "device"@))) == alone(s, window, now, with_label(m, "sglang:cached_tokens_total"@, "cache_source"@, "device"@)),
        left(s, observed_all(t, window, now, points(with_label(m, "sglang:cached_tokens_total"@, "cache_source"@, "device"@))), m, read_by(11)),
{
    let p = |x: SampleView<N>| x.name == "sglang:cached_tokens_total"@ && x.label("cache_source"@) == Some("device"@);
    let of = with_label(m, "sglang:cached_tokens_total"@, "cache_source"@, "device"@);
    by_label(m, "sglang:cached_tokens_total"@, "cache_source"@, "device"@);
    assert(taken(m, of, p));
    assert forall|x: SampleView<N>| #[trigger] p(x) implies step_of(x) == 11 by {
        steps_are_told(x);
    }
    next_step(s, t, window, now, m, of, p, 11);
}

proof fn effective_step<N: Num>(s: Series<N>, t: Series<N>, window: u64, now: u64, m: Seq<SampleView<N>>)
    requires
        one_each(m),
        left(s, t, m, read_by(11)),
    ensures
        rates_of(t, window, now, points(effective_tokens(m))) == alone(s, window, now, effective_tokens(m)),
        left(s, observed_all(t, window, now, points(effective_tokens(m))), m, read_by(12)),
{
    let p = |x: SampleView<N>| x.name == "sglang:prefill_effective_tokens_total"@;
    let of = effective_tokens(m);
    by_more(m, "sglang:prefill_effective_tokens_total"@);
    assert(taken(m, of, p));
    assert forall|x: SampleView<N>| #[trigger] p(x) implies step_of(x) == 12 by {
        steps_are_told(x);
    }
    next_step(s, t, window, now, m, of, p, 12);
}

proof fn prefill_step<N: Num>(s: Series<N>, window: u64, now: u64, m: Seq<SampleView<N>>)
    requires
        one_each(m),
    ensures
        ({
            let r = mode_rate(s, window, now, m, "prefill_compute"@, "sglang:prompt_tokens_total"@);
            &&& r.rate == rate_in_mode(
                s,
                window,
                now,
                m,
                "prefill_compute"@,
                "sglang:prompt_tokens_total"@,
            )
            &&& left(s, r.after, m, read_by(1))
        }),
{
    names_differ();
    assert forall|x: SampleView<N>| #[trigger] read_by(1)(x) <==> read_by(0)(x) || x.name
        == "sglang:prompt_tokens_total"@ || (x.name == "sglang:realtime_tokens_total"@ && x.label(
        "mode"@,
    ) == Some("prefill_compute"@)) by {
        steps_are_told(x);
    }
    mode_step(
        s,
        s,
        window,
        now,
        m,
        "prefill_compute"@,
        "sglang:prompt_tokens_total"@,
        read_by(0),
        read_by(1),
    );
}

proof fn decode_step<N: Num>(s: Series<N>, t: Series<N>, window: u64, now: u64, m: Seq<SampleView<N>>)
    requires
        one_each(m),
        left(s, t, m, read_by(1)),
    ensures
        ({
            let r = mode_rate(t, window, now, m, "decode"@, "sglang:generation_tokens_total"@);
            &&& r.rate == rate_in_mode(
                s,
                window,
                now,
                m,
                "decode"@,
                "sglang:generation_tokens_total"@,
            )
            &&& left(s, r.after, m, read_by(2))
        }),
{
    names_differ();
    assert forall|x: SampleView<N>| #[trigger] read_by(2)(x) <==> read_by(1)(x) || x.name
        == "sglang:generation_tokens_total"@ || (x.name == "sglang:realtime_tokens_total"@
        && x.label("mode"@) == Some("decode"@)) by {
        steps_are_told(x);
    }
    assert forall|x: SampleView<N>| #[trigger] read_by(1)(x) implies x.name
        != "sglang:generation_tokens_total"@ && !(x.name == "sglang:realtime_tokens_total"@
        && x.label("mode"@) == Some("decode"@)) by {
        steps_are_told(x);
    }
    mode_step(
        s,
        t,
        window,
        now,
        m,
        "decode"@,
        "sglang:generation_tokens_total"@,
        read_by(1),
        read_by(2),
    );
}

/// Each rate of a scrape is that of its own counters, each of them by itself: what else is
/// read before does not change it.
pub proof fn rates_are_read_from_their_counters<N: Num>(
    m: Seq<SampleView<N>>,
    s: Series<N>,
    window: u64,
    now: u64,
)
    requires
        one_each(m),
    ensures
        ({
            let r = flow(m, s, window, now).0;
            &&& r.prefill == rate_in_mode(s, window, now, m, "prefill_compute"@, "sglang:prompt_tokens_total"@)
            &&& r.decode == rate_in_mode(s, window, now, m, "decode"@, "sglang:generation_tokens_total"@)
            &&& r.tokenizer == sum_known(alone(s, window, now, with_label(m, "sglang:process_cpu_seconds_total"@, "component"@, "tokenizer"@)))
            &&& r.detokenizer == sum_known(alone(s, window, now, with_label(m, "sglang:process_cpu_seconds_total"@, "component"@, "detokenizer"@)))
            &&& r.evicted == sum_known(alone(s, window, now, named(m, "sglang:evicted_tokens_total"@)))
            &&& r.backup_bytes == sum_known(alone(s, window, now, named(m, "sglang:hicache_backup_bytes_total"@)))
            &&& r.backup_secs == sum_known(alone(s, window, now, named(m, "sglang:hicache_backup_duration_seconds_sum"@)))
            &&& r.requests == family_alone(s, window, now, m, "sglang:num_requests_total"@)
            &&& r.http == alone(s, window, now, http_requests(m))
            &&& r.http_errors == sum_known(alone(s, window, now, http_failures(m)))
            &&& r.cached_device == sum_known(alone(s, window, now, with_label(m, "sglang:cached_tokens_total"@, "cache_source"@, "device"@)))
            &&& r.effective == alone(s, window, now, effective_tokens(m))
        }),
{
    prefill_step(s, window, now, m);
    let s1 = mode_rate(s, window, now, m, "prefill_compute"@, "sglang:prompt_tokens_total"@).after;
    decode_step(s, s1, window, now, m);
    let s2 = mode_rate(s1, window, now, m, "decode"@, "sglang:generation_tokens_total"@).after;
    tokenizer_step(s, s2, window, now, m);
    let s3 = observed_all(s2, window, now, points(with_label(m, "sglang:process_cpu_seconds_total"@, "component"@, "tokenizer"@)));
    by_label(m, "sglang:process_cpu_seconds_total"@, "component"@, "tokenizer"@);
    detokenizer_step(s, s3, window, now, m);
    let s4 = observed_all(s3, window, now, points(with_label(m, "sglang:process_cpu_seconds_total"@, "component"@, "detokenizer"@)));
    by_label(m, "sglang:process_cpu_seconds_total"@, "component"@, "detokenizer"@);
    evicted_step(s, s4, window, now, m);
    let s5 = observed_all(s4, window, now, points(named(m, "sglang:evicted_tokens_total"@)));
    backup_bytes_step(s, s5, window, now, m);
    let s6 = observed_all(s5, window, now, points(named(m, "sglang:hicache_backup_bytes_total"@)));
    backup_secs_step(s, s6, window, now, m);
    let s7 = observed_all(s6, window, now, points(named(m, "sglang:hicache_backup_duration_seconds_sum"@)));
    requests_step(s, s7, window, now, m);
    let s8 = observed_all(s7, window, now, points(whole(m, "sglang:num_requests_total"@, true)));
    assert(points(whole(m, "sglang:num_requests_total"@, true)).len() == whole(m, "sglang:num_requests_total"@, true).len());
    http_step(s, s8, window, now, m);
    let s9 = observed_all(s8, window, now, points(http_requests(m)));
    http_errors_step(s, s9, window, now, m);
    let s10 = observed_all(s9, window, now, points(http_failures(m)));
    cached_device_step(s, s10, window, now, m);
    let s11 = observed_all(s10, window, now, points(with_label(m, "sglang:cached_tokens_total"@, "cache_source"@, "device"@)));
    by_label(m, "sglang:cached_tokens_total"@, "cache_source"@, "device"@);
    effective_step(s, s11, window, now, m);
    let s12 = observed_all(s11, window, now, points(effective_tokens(m)));
}

}
