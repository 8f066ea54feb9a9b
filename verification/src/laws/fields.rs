//! Which metric each number on the screen is read from.
use crate::model::snapshot::{EnginePanel, HiCache, KvPanel, RankRow, ServerMeta, TrafficPanel};
use crate::num::{or_zero, peak_from, total, unit_spec, Num, Ordered, MOST_WHOLE};
use crate::poll::exposition::{exposed, exposed_body_is_read_back, is_label_name, is_name,
    joined_bodies_add_up, number_is_read_back, sorted_labels_stay};
use crate::poll::flow::FlowView;
use crate::poll::panels::{decode_pass, engine_built, graph_pass, hicache_built, kv_built, lifetime, server_built};
use crate::poll::prom::{carries, found, named, parsed_from, SampleView};
use crate::poll::ranks::{rank_built, rank_value, rows_built, shown_ranks};
use crate::poll::read::{across_ranks, chosen, count_if_there, count_of, counted, default_priority,
    first_val, has_rank, labelled, largest, length_mean_of, mean_of, numeric, own_polling, present, sum_if_there, sum_of, values, whole};
use crate::poll::quantile::{known_in, latency_of, windowed_mean_of, EntryView, FAMILIES, MEAN_ONLY};
use crate::poll::traffic::{counters_built, directions_built, queues_built, tier_total, traffic_built};
use crate::poll::wholes::is_whole;
use crate::text::{decimal_text, digit_char, has_infix, has_prefix};
use vstd::prelude::*;

verus! {

// ---- sums of samples ----

/// What the samples called `name` count, added up.
pub open spec fn counts_in<N: Num>(m: Seq<SampleView<N>>, name: Seq<char>) -> nat
    decreases m.len(),
{
    if m.len() == 0 {
        0
    } else {
        counts_in(m.drop_last(), name) + if m.last().name == name {
            m.last().value.to_count_spec() as nat
        } else {
            0
        }
    }
}

/// Whether the samples called `name` are whole counts, and either all of them are attributed
/// to a rank or none of them to a rank or a priority.
pub open spec fn reads_counts<N: Num>(m: Seq<SampleView<N>>, name: Seq<char>) -> bool {
    &&& forall|i: int| 0 <= i < m.len() && (#[trigger] m[i]).name == name ==> is_whole(m[i].value)
    &&& counts_in(m, name) <= MOST_WHOLE
    &&& {
        ||| forall|i: int|
            0 <= i < m.len() && (#[trigger] m[i]).name == name ==> m[i].label("dp_rank"@) is Some
        ||| forall|i: int|
            0 <= i < m.len() && (#[trigger] m[i]).name == name ==> m[i].label("dp_rank"@) is None
                && m[i].label("priority"@) is None
    }
}

/// Whether a sample is called `name`.
pub open spec fn appears<N>(m: Seq<SampleView<N>>, name: Seq<char>) -> bool {
    exists|i: int| 0 <= i < m.len() && (#[trigger] m[i]).name == name
}

/// What samples count, added up.
spec fn counts_of<N: Num>(s: Seq<SampleView<N>>) -> nat
    decreases s.len(),
{
    if s.len() == 0 {
        0
    } else {
        counts_of(s.drop_last()) + s.last().value.to_count_spec() as nat
    }
}

proof fn filter_keeps_all<T>(s: Seq<T>, q: spec_fn(T) -> bool)
    requires
        forall|i: int| 0 <= i < s.len() ==> q(#[trigger] s[i]),
    ensures
        s.filter(q) == s,
    decreases s.len(),
{
    reveal(Seq::filter);
    if s.len() > 0 {
        let d = s.drop_last();
        assert forall|i: int| 0 <= i < d.len() implies q(#[trigger] d[i]) by {
            assert(d[i] == s[i]);
        }
        filter_keeps_all(d, q);
        assert(q(s[s.len() - 1]));
        assert(d.push(s.last()) =~= s);
    }
}

proof fn filter_keeps_none<T>(s: Seq<T>, q: spec_fn(T) -> bool)
    requires
        forall|i: int| 0 <= i < s.len() ==> !q(#[trigger] s[i]),
    ensures
        s.filter(q).len() == 0,
    decreases s.len(),
{
    reveal(Seq::filter);
    if s.len() > 0 {
        let d = s.drop_last();
        assert forall|i: int| 0 <= i < d.len() implies !q(#[trigger] d[i]) by {
            assert(d[i] == s[i]);
        }
        filter_keeps_none(d, q);
        assert(!q(s[s.len() - 1]));
    }
}

/// What a choice keeps of samples that all have, or all lack, what it asks for.
proof fn choices<T>(s: Seq<T>)
    ensures
        forall|q: spec_fn(T) -> bool|
            #![trigger s.filter(q)]
            (forall|i: int| 0 <= i < s.len() ==> q(#[trigger] s[i])) ==> s.filter(q) == s,
        forall|q: spec_fn(T) -> bool|
            #![trigger s.filter(q)]
            (forall|i: int| 0 <= i < s.len() ==> !q(#[trigger] s[i])) ==> s.filter(q).len() == 0,
{
    assert forall|q: spec_fn(T) -> bool|
        #![trigger s.filter(q)]
        (forall|i: int| 0 <= i < s.len() ==> q(#[trigger] s[i])) implies s.filter(q) == s by {
        filter_keeps_all(s, q);
    }
    assert forall|q: spec_fn(T) -> bool|
        #![trigger s.filter(q)]
        (forall|i: int| 0 <= i < s.len() ==> !q(#[trigger] s[i])) implies s.filter(q).len()
        == 0 by {
        filter_keeps_none(s, q);
    }
}

/// The samples called `name` are those of the scrape that are.
proof fn named_members<N: Num>(m: Seq<SampleView<N>>, name: Seq<char>)
    ensures
        forall|k: int|
            0 <= k < named(m, name).len() ==> (#[trigger] named(m, name)[k]).name == name
                && m.contains(named(m, name)[k]),
        appears(m, name) <==> named(m, name).len() > 0,
        counts_of(named(m, name)) == counts_in(m, name),
    decreases m.len(),
{
    reveal(Seq::filter);
    let r = named(m, name);
    if m.len() > 0 {
        let d = m.drop_last();
        named_members(d, name);
        let v = named(d, name);
        assert forall|k: int| 0 <= k < r.len() implies (#[trigger] r[k]).name == name
            && m.contains(r[k]) by {
            if k < v.len() {
                assert(r[k] == v[k]);
                let j = choose|j: int| 0 <= j < d.len() && d[j] == v[k];
                assert(m[j] == r[k]);
            } else {
                assert(m[m.len() - 1] == r[k]);
            }
        }
        if m.last().name == name {
            assert(r == v.push(m.last()));
            assert(r.drop_last() =~= v);
            assert(m[m.len() - 1].name == name);
        } else {
            assert(r == v);
        }
        if appears(m, name) {
            let j = choose|j: int| 0 <= j < m.len() && (#[trigger] m[j]).name == name;
            if j < d.len() {
                assert(d[j].name == name);
            }
        }
        if r.len() > 0 {
            let j = choose|j: int| 0 <= j < m.len() && m[j] == r[0];
            assert(m[j].name == name);
        }
    }
}

proof fn whole_sum<N: Ordered>(s: Seq<SampleView<N>>)
    requires
        forall|i: int| 0 <= i < s.len() ==> is_whole((#[trigger] s[i]).value),
        counts_of(s) <= MOST_WHOLE,
    ensures
        total(values(s)) == N::of_count_spec(counts_of(s) as u64),
        counted(s) == counts_of(s),
    decreases s.len(),
{
    N::counts_are_numbers(0);
    if s.len() == 0 {
        assert(values(s) =~= Seq::empty());
    } else {
        let d = s.drop_last();
        assert forall|i: int| 0 <= i < d.len() implies is_whole((#[trigger] d[i]).value) by {
            assert(d[i] == s[i]);
        }
        whole_sum(d);
        assert(is_whole(s[s.len() - 1].value));
        assert(values(s).drop_last() =~= values(d));
        N::counts_add_up(counts_of(d) as u64, s.last().value.to_count_spec());
    }
}

/// Whole counts of a metric add up, over the ranks or without them.
pub proof fn counts_add_up<N: Ordered>(m: Seq<SampleView<N>>, name: Seq<char>)
    requires
        reads_counts(m, name),
    ensures
        across_ranks(m, name, true) == N::of_count_spec(counts_in(m, name) as u64),
        across_ranks(m, name, false) == N::of_count_spec(counts_in(m, name) as u64),
        sum_of(named(m, name)) == N::of_count_spec(counts_in(m, name) as u64),
        counted(named(m, name)) == counts_in(m, name),
        count_of(m, name) == counts_in(m, name),
        present(m, name) <==> appears(m, name),
{
    let own = named(m, name);
    named_members(m, name);
    assert forall|i: int| 0 <= i < own.len() implies is_whole((#[trigger] own[i]).value)
        && !own[i].value.is_nan_spec() by {
        assert(m.contains(own[i]));
        let j = choose|j: int| 0 <= j < m.len() && m[j] == own[i];
        assert(m[j].name == name);
        N::counts_are_numbers(own[i].value.to_count_spec());
        N::nan_spreads(own[i].value, own[i].value);
    }
    whole_sum(own);
    choices(own);
    N::counts_are_numbers(counts_in(m, name) as u64);
    if forall|i: int|
        0 <= i < m.len() && (#[trigger] m[i]).name == name ==> m[i].label("dp_rank"@) is Some {
        assert forall|i: int| 0 <= i < own.len() implies has_rank(#[trigger] own[i]) by {
            let j = choose|j: int| 0 <= j < m.len() && m[j] == own[i];
            assert(m[j].name == name);
        }
        if own.len() == 0 {
            assert(whole(m, name, true) =~= own);
            assert(whole(m, name, false) =~= own);
        }
        assert(whole(m, name, true) == own);
        assert(whole(m, name, false) == own);
    } else {
        assert forall|i: int| 0 <= i < own.len() implies !has_rank(#[trigger] own[i])
            && default_priority(own[i]) by {
            let j = choose|j: int| 0 <= j < m.len() && m[j] == own[i];
            assert(m[j].name == name);
        }
        assert(whole(m, name, true) == own);
        assert(whole(m, name, false) == own);
    }
    assert(numeric(own) == own);
}

// ---- first readings ----

/// Whether `m[i]` is the first sample called `name` without a priority, and is a number.
pub open spec fn is_first<N: Num>(m: Seq<SampleView<N>>, name: Seq<char>, i: int) -> bool {
    &&& 0 <= i < m.len()
    &&& m[i].name == name
    &&& m[i].label("priority"@) is None
    &&& !m[i].value.is_nan_spec()
    &&& forall|j: int| 0 <= j < i ==> (#[trigger] m[j]).name != name
}

proof fn filter_starts<T>(s: Seq<T>, q: spec_fn(T) -> bool, i: int)
    requires
        0 <= i < s.len(),
        q(s[i]),
        forall|j: int| 0 <= j < i ==> !q(#[trigger] s[j]),
    ensures
        s.filter(q).len() > 0,
        s.filter(q)[0] == s[i],
    decreases s.len(),
{
    reveal(Seq::filter);
    let d = s.drop_last();
    if i == s.len() - 1 {
        assert forall|j: int| 0 <= j < d.len() implies !q(#[trigger] d[j]) by {
            assert(d[j] == s[j]);
        }
        filter_keeps_none(d, q);
    } else {
        assert(d[i] == s[i]);
        assert forall|j: int| 0 <= j < i implies !q(#[trigger] d[j]) by {
            assert(d[j] == s[j]);
        }
        filter_starts(d, q, i);
    }
}

proof fn starts<T>(s: Seq<T>, i: int)
    requires
        0 <= i < s.len(),
    ensures
        forall|q: spec_fn(T) -> bool|
            #![trigger s.filter(q)]
            q(s[i]) && (forall|j: int| 0 <= j < i ==> !q(#[trigger] s[j])) ==> s.filter(q).len() > 0
                && s.filter(q)[0] == s[i],
{
    assert forall|q: spec_fn(T) -> bool|
        #![trigger s.filter(q)]
        q(s[i]) && (forall|j: int| 0 <= j < i ==> !q(#[trigger] s[j])) implies s.filter(q).len() > 0
        && s.filter(q)[0] == s[i] by {
        filter_starts(s, q, i);
    }
}

/// A gauge is its first reading.
pub proof fn first_reading_is_taken<N: Num>(m: Seq<SampleView<N>>, name: Seq<char>, i: int)
    requires
        is_first(m, name, i),
    ensures
        first_val(m, name) == Some(m[i].value),
{
    starts(m, i);
    let own = named(m, name);
    assert(own.len() > 0 && own[0] == m[i]);
    starts(own, 0);
}

// ---- the rows of the ranks ----

/// Whether `m[i]` is the first sample called `name` that is attributed to `rank`, and is a
/// number.
pub open spec fn is_of_rank<N: Num>(
    m: Seq<SampleView<N>>,
    name: Seq<char>,
    rank: u32,
    i: int,
) -> bool {
    &&& 0 <= i < m.len()
    &&& m[i].name == name
    &&& m[i].label("dp_rank"@) == Some(decimal_text(rank as nat))
    &&& !m[i].value.is_nan_spec()
    &&& forall|j: int|
        0 <= j < i ==> (#[trigger] m[j]).name != name || m[j].label("dp_rank"@) != Some(
            decimal_text(rank as nat),
        )
}

/// Whether no sample called `name` is attributed to `rank`.
pub open spec fn is_silent<N: Num>(m: Seq<SampleView<N>>, name: Seq<char>, rank: u32) -> bool {
    forall|j: int|
        0 <= j < m.len() ==> (#[trigger] m[j]).name != name || m[j].label("dp_rank"@) != Some(
            decimal_text(rank as nat),
        )
}

proof fn found_first<N: Num>(m: Seq<SampleView<N>>, name: Seq<char>, rank: u32, i: int)
    requires
        is_of_rank(m, name, rank, i),
    ensures
        found(m, name, seq![("dp_rank"@, decimal_text(rank as nat))]) == Some(m[i]),
    decreases i,
{
    let want = seq![("dp_rank"@, decimal_text(rank as nat))];
    if carries(m[0], want) {
        assert(m[0].label(want[0].0) == Some(want[0].1));
    }
    if i > 0 {
        let d = m.drop_first();
        assert(d[i - 1] == m[i]);
        assert forall|j: int| 0 <= j < i - 1 implies (#[trigger] d[j]).name != name || d[j].label(
            "dp_rank"@,
        ) != Some(decimal_text(rank as nat)) by {
            assert(d[j] == m[j + 1]);
        }
        found_first(d, name, rank, i - 1);
        assert(m[0].name != name || !carries(m[0], want));
    } else {
        assert forall|k: int| 0 <= k < want.len() implies m[0].label((#[trigger] want[k]).0)
            == Some(want[k].1) by {}
        assert(carries(m[0], want));
    }
}

proof fn found_none<N: Num>(m: Seq<SampleView<N>>, name: Seq<char>, rank: u32)
    requires
        is_silent(m, name, rank),
    ensures
        found(m, name, seq![("dp_rank"@, decimal_text(rank as nat))]) is None,
    decreases m.len(),
{
    let want = seq![("dp_rank"@, decimal_text(rank as nat))];
    if m.len() > 0 {
        let d = m.drop_first();
        assert forall|j: int| 0 <= j < d.len() implies (#[trigger] d[j]).name != name || d[j].label(
            "dp_rank"@,
        ) != Some(decimal_text(rank as nat)) by {
            assert(d[j] == m[j + 1]);
        }
        found_none(d, name, rank);
        if carries(m[0], want) {
            assert(m[0].label(want[0].0) == Some(want[0].1));
        }
        assert(m[0].name != name || !carries(m[0], want));
    }
}

/// What a column of counts says of a rank: the reading of its metric, nought without one.
pub open spec fn counts_for<N: Num>(
    v: u64,
    m: Seq<SampleView<N>>,
    name: Seq<char>,
    rank: u32,
) -> bool {
    &&& forall|i: int| #[trigger] is_of_rank(m, name, rank, i) ==> v == m[i].value.to_count_spec()
    &&& is_silent(m, name, rank) ==> v == 0
}

/// What a column of values says of a rank: the reading of its metric, nought without one.
pub open spec fn reads_for<N: Num>(
    v: N,
    m: Seq<SampleView<N>>,
    name: Seq<char>,
    rank: u32,
) -> bool {
    &&& forall|i: int| #[trigger] is_of_rank(m, name, rank, i) ==> v == m[i].value
    &&& is_silent(m, name, rank) ==> v == N::zero_spec()
}

/// What a column of values that may be missing says of a rank: the reading of its metric.
pub open spec fn tells_for<N: Num>(
    v: Option<N>,
    m: Seq<SampleView<N>>,
    name: Seq<char>,
    rank: u32,
) -> bool {
    &&& forall|i: int| #[trigger] is_of_rank(m, name, rank, i) ==> v == Some(m[i].value)
    &&& is_silent(m, name, rank) ==> v is None
}

proof fn rank_value_is_told<N: Num>(m: Seq<SampleView<N>>, name: Seq<char>, rank: u32)
    ensures
        tells_for(rank_value(m, name, rank), m, name, rank),
{
    assert forall|i: int| #[trigger] is_of_rank(m, name, rank, i) implies rank_value(m, name, rank)
        == Some(m[i].value) by {
        found_first(m, name, rank, i);
    }
    if is_silent(m, name, rank) {
        found_none(m, name, rank);
    }
}

/// Each column of the row of a rank is the reading of its own metric for that rank.
pub proof fn rank_rows_show_their_metrics<N: Ordered>(
    rows: Seq<RankRow<N>>,
    was: Seq<RankRow<N>>,
    m: Seq<SampleView<N>>,
    per_rank: bool,
    e: EnginePanel<N>,
    k: KvPanel<N>,
    n: int,
)
    requires
        rows_built(rows, was, m, per_rank, e, k),
        1 <= n < rows.len(),
    ensures
        ({
            let r = rows[n];
            &&& counts_for(r.running, m, "sglang:num_running_reqs"@, r.dp_rank)
            &&& counts_for(r.waiting, m, "sglang:num_queue_reqs"@, r.dp_rank)
            &&& counts_for(r.used_tokens, m, "sglang:num_used_tokens"@, r.dp_rank)
            &&& counts_for(r.total_tokens, m, "sglang:max_total_num_tokens"@, r.dp_rank)
            &&& reads_for(r.token_usage, m, "sglang:token_usage"@, r.dp_rank)
            &&& reads_for(r.gen_throughput, m, "sglang:gen_throughput"@, r.dp_rank)
            &&& reads_for(r.cache_hit_rate, m, "sglang:cache_hit_rate"@, r.dp_rank)
            &&& tells_for(r.utilization, m, "sglang:utilization"@, r.dp_rank)
            &&& tells_for(r.spec_accept_length, m, "sglang:spec_accept_length"@, r.dp_rank)
            &&& tells_for(r.spec_accept_rate, m, "sglang:spec_accept_rate"@, r.dp_rank)
            &&& r.gen_series.cap() > 0 ==> r.gen_series@.len() > 0 && r.gen_series@.last()
                == r.gen_throughput
        }),
{
    let ranks = shown_ranks(m, per_rank);
    let r = rows[n];
    assert(rank_built(rows[(n - 1) + 1], ranks[n - 1], was, m));
    let rank = r.dp_rank;
    N::counts_are_numbers(0);
    rank_value_is_told(m, "sglang:num_running_reqs"@, rank);
    rank_value_is_told(m, "sglang:num_queue_reqs"@, rank);
    rank_value_is_told(m, "sglang:num_used_tokens"@, rank);
    rank_value_is_told(m, "sglang:max_total_num_tokens"@, rank);
    rank_value_is_told(m, "sglang:token_usage"@, rank);
    rank_value_is_told(m, "sglang:gen_throughput"@, rank);
    rank_value_is_told(m, "sglang:cache_hit_rate"@, rank);
    rank_value_is_told(m, "sglang:utilization"@, rank);
    rank_value_is_told(m, "sglang:spec_accept_length"@, rank);
    rank_value_is_told(m, "sglang:spec_accept_rate"@, rank);
}

/// A column says the same of two scrapes with the same samples of its metric, whatever else
/// they hold.
pub proof fn columns_stand_alone<N: Num>(
    rows: (Seq<RankRow<N>>, Seq<RankRow<N>>),
    was: (Seq<RankRow<N>>, Seq<RankRow<N>>),
    m: (Seq<SampleView<N>>, Seq<SampleView<N>>),
    e: (EnginePanel<N>, EnginePanel<N>),
    k: (KvPanel<N>, KvPanel<N>),
    i: int,
    j: int,
)
    requires
        rows_built(rows.0, was.0, m.0, true, e.0, k.0),
        rows_built(rows.1, was.1, m.1, true, e.1, k.1),
        1 <= i < rows.0.len(),
        1 <= j < rows.1.len(),
        rows.0[i].dp_rank == rows.1[j].dp_rank,
    ensures
        alike(m.0, m.1, "sglang:num_running_reqs"@) ==> rows.0[i].running == rows.1[j].running,
        alike(m.0, m.1, "sglang:num_queue_reqs"@) ==> rows.0[i].waiting == rows.1[j].waiting,
        alike(m.0, m.1, "sglang:num_used_tokens"@) ==> rows.0[i].used_tokens
            == rows.1[j].used_tokens,
        alike(m.0, m.1, "sglang:max_total_num_tokens"@) ==> rows.0[i].total_tokens
            == rows.1[j].total_tokens,
        alike(m.0, m.1, "sglang:token_usage"@) ==> rows.0[i].token_usage == rows.1[j].token_usage,
        alike(m.0, m.1, "sglang:gen_throughput"@) ==> rows.0[i].gen_throughput
            == rows.1[j].gen_throughput,
        alike(m.0, m.1, "sglang:cache_hit_rate"@) ==> rows.0[i].cache_hit_rate
            == rows.1[j].cache_hit_rate,
        alike(m.0, m.1, "sglang:utilization"@) ==> rows.0[i].utilization == rows.1[j].utilization,
        alike(m.0, m.1, "sglang:spec_accept_length"@) ==> rows.0[i].spec_accept_length
            == rows.1[j].spec_accept_length,
        alike(m.0, m.1, "sglang:spec_accept_rate"@) ==> rows.0[i].spec_accept_rate
            == rows.1[j].spec_accept_rate,
{
    let rank = rows.0[i].dp_rank;
    assert(rank_built(rows.0[(i - 1) + 1], shown_ranks(m.0, true)[i - 1], was.0, m.0));
    assert(rank_built(rows.1[(j - 1) + 1], shown_ranks(m.1, true)[j - 1], was.1, m.1));
    let want = seq![("dp_rank"@, decimal_text(rank as nat))];
    assert forall|name: Seq<char>| #[trigger] alike(m.0, m.1, name) implies rank_value(
        m.0,
        name,
        rank,
    ) == rank_value(m.1, name, rank) by {
        found_among_named(m.0, name, want);
        found_among_named(m.1, name, want);
    }
}

/// Whether two scrapes have the same samples called `name`, in the same order.
pub open spec fn alike<N>(a: Seq<SampleView<N>>, b: Seq<SampleView<N>>, name: Seq<char>) -> bool {
    named(a, name) == named(b, name)
}

proof fn filter_from_the_front<T>(s: Seq<T>, q: spec_fn(T) -> bool)
    requires
        s.len() > 0,
    ensures
        s.filter(q) == (if q(s[0]) {
            seq![s[0]]
        } else {
            Seq::empty()
        }) + s.drop_first().filter(q),
    decreases s.len(),
{
    reveal(Seq::filter);
    let d = s.drop_last();
    let f = s.drop_first();
    if s.len() == 1 {
        assert(d =~= Seq::empty());
        assert(f =~= Seq::empty());
        assert(d.filter(q) =~= Seq::empty());
        assert(f.filter(q) =~= Seq::empty());
        assert(Seq::<T>::empty().push(s[0]) =~= seq![s[0]]);
    } else {
        filter_from_the_front(d, q);
        assert(d.drop_first() =~= f.drop_last());
        assert(f.last() == s.last());
        assert(d[0] == s[0]);
        assert(s.filter(q) =~= (if q(s[0]) {
            seq![s[0]]
        } else {
            Seq::empty()
        }) + f.filter(q));
    }
}

proof fn found_among_named<N: Num>(
    m: Seq<SampleView<N>>,
    name: Seq<char>,
    want: Seq<(Seq<char>, Seq<char>)>,
)
    ensures
        found(m, name, want) == found(named(m, name), name, want),
    decreases m.len(),
{
    let own = named(m, name);
    if m.len() == 0 {
        reveal(Seq::filter);
        assert(own.len() == 0);
    } else {
        let d = m.drop_first();
        found_among_named(d, name, want);
        assert forall|q: spec_fn(SampleView<N>) -> bool| #![trigger m.filter(q)]
            m.filter(q) == (if q(m[0]) {
                seq![m[0]]
            } else {
                Seq::empty()
            }) + d.filter(q) by {
            filter_from_the_front(m, q);
        }
        if m[0].name == name {
            assert(own == seq![m[0]] + named(d, name));
            assert(own.drop_first() =~= named(d, name));
            assert(own[0] == m[0]);
        } else {
            assert(own =~= named(d, name));
        }
    }
}

// ---- the ranks and the whole ----

proof fn digits_tell(a: int, b: int)
    requires
        0 <= a < 10,
        0 <= b < 10,
        digit_char(a) == digit_char(b),
    ensures
        a == b,
{
}

/// Numbers with the same decimal text are the same.
pub proof fn decimals_tell(a: nat, b: nat)
    requires
        decimal_text(a) == decimal_text(b),
    ensures
        a == b,
    decreases a,
{
    let (x, y) = (decimal_text(a), decimal_text(b));
    decimal_has_digits(a);
    decimal_has_digits(b);
    if a < 10 {
        assert(x.len() == 1);
        if b >= 10 {
            decimal_has_digits(b / 10);
            assert(y.len() > 1);
        }
        assert(x[0] == y[0]);
        digits_tell(a as int, b as int);
    } else {
        decimal_has_digits(a / 10);
        assert(x.len() > 1);
        assert(b >= 10);
        assert(x.last() == y.last());
        digits_tell((a % 10) as int, (b % 10) as int);
        assert(x.drop_last() =~= decimal_text(a / 10));
        assert(y.drop_last() =~= decimal_text(b / 10));
        decimals_tell(a / 10, b / 10);
    }
}

proof fn decimal_has_digits(a: nat)
    ensures
        decimal_text(a).len() > 0,
{
}

/// What the rows behind the aggregate say in a column, added up.
pub open spec fn added<N>(rows: Seq<RankRow<N>>, column: spec_fn(RankRow<N>) -> u64) -> nat
    decreases rows.len(),
{
    if rows.len() <= 1 {
        0
    } else {
        added(rows.drop_last(), column) + column(rows.last()) as nat
    }
}

/// Whether a metric has one whole count for each of `ranks`, in their order, and no other.
pub open spec fn one_for_each<N: Num>(
    m: Seq<SampleView<N>>,
    name: Seq<char>,
    ranks: Seq<u32>,
) -> bool {
    let own = named(m, name);
    &&& own.len() == ranks.len()
    &&& forall|i: int|
        0 <= i < ranks.len() ==> is_whole((#[trigger] own[i]).value) && own[i].label("dp_rank"@)
            == Some(decimal_text(ranks[i] as nat))
    &&& counts_in(m, name) <= MOST_WHOLE
}

proof fn own_rank_is_found<N: Ordered>(
    m: Seq<SampleView<N>>,
    name: Seq<char>,
    ranks: Seq<u32>,
    i: int,
)
    requires
        one_for_each(m, name, ranks),
        crate::poll::ranks::ascending(ranks),
        0 <= i < ranks.len(),
    ensures
        rank_value(m, name, ranks[i]) == Some(named(m, name)[i].value),
{
    let own = named(m, name);
    let want = seq![("dp_rank"@, decimal_text(ranks[i] as nat))];
    named_members(m, name);
    found_among_named(m, name, want);
    N::counts_are_numbers(own[i].value.to_count_spec());
    N::nan_spreads(own[i].value, own[i].value);
    assert forall|j: int| 0 <= j < i implies (#[trigger] own[j]).name != name || own[j].label(
        "dp_rank"@,
    ) != Some(decimal_text(ranks[i] as nat)) by {
        if decimal_text(ranks[j] as nat) == decimal_text(ranks[i] as nat) {
            decimals_tell(ranks[j] as nat, ranks[i] as nat);
        }
    }
    assert(own[i].name == name);
    assert(is_of_rank(own, name, ranks[i], i));
    found_first(own, name, ranks[i], i);
}

proof fn column_adds_up<N: Ordered>(
    rows: Seq<RankRow<N>>,
    own: Seq<SampleView<N>>,
    column: spec_fn(RankRow<N>) -> u64,
)
    requires
        rows.len() == own.len() + 1,
        forall|i: int|
            0 <= i < own.len() ==> column(rows[i + 1]) == (#[trigger] own[i]).value.to_count_spec(),
    ensures
        added(rows, column) == counts_of(own),
    decreases own.len(),
{
    if own.len() > 0 {
        let d = rows.drop_last();
        let f = own.drop_last();
        assert forall|i: int| 0 <= i < f.len() implies column(d[i + 1]) == (
        #[trigger] f[i]).value.to_count_spec() by {
            assert(f[i] == own[i]);
            assert(d[i + 1] == rows[i + 1]);
        }
        column_adds_up(d, f, column);
        let k = own.len() - 1;
        assert(column(rows[k + 1]) == own[k].value.to_count_spec());
        assert(rows.last() == rows[k + 1]);
    }
}

/// The rows of the ranks add up to the aggregate row, column by column.
pub proof fn rank_rows_add_up<N: Ordered>(
    rows: Seq<RankRow<N>>,
    was: Seq<RankRow<N>>,
    m: Seq<SampleView<N>>,
    e: EnginePanel<N>,
    k: KvPanel<N>,
)
    requires
        rows_built(rows, was, m, true, e, k),
    ensures
        one_for_each(m, "sglang:num_running_reqs"@, shown_ranks(m, true)) ==> added(
            rows,
            |r: RankRow<N>| r.running,
        ) == rows[0].running,
        one_for_each(m, "sglang:num_queue_reqs"@, shown_ranks(m, true)) ==> added(
            rows,
            |r: RankRow<N>| r.waiting,
        ) == rows[0].waiting,
        one_for_each(m, "sglang:num_used_tokens"@, shown_ranks(m, true)) ==> added(
            rows,
            |r: RankRow<N>| r.used_tokens,
        ) == rows[0].used_tokens,
        one_for_each(m, "sglang:max_total_num_tokens"@, shown_ranks(m, true)) ==> added(
            rows,
            |r: RankRow<N>| r.total_tokens,
        ) == rows[0].total_tokens,
{
    let ranks = shown_ranks(m, true);
    crate::poll::ranks::rank_rows_ascend(named(m, "sglang:num_running_reqs"@));
    assert forall|name: Seq<char>, column: spec_fn(RankRow<N>) -> u64|
        #![trigger one_for_each(m, name, ranks), added(rows, column)]
        one_for_each(m, name, ranks) && (forall|i: int|
            0 <= i < ranks.len() ==> column(#[trigger] rows[i + 1])
                == crate::poll::ranks::rank_count(m, name, ranks[i])) implies added(rows, column)
        == count_of(m, name) by {
        let own = named(m, name);
        named_members(m, name);
        assert forall|i: int| 0 <= i < m.len() && (#[trigger] m[i]).name == name implies is_whole(
            m[i].value,
        ) && m[i].label("dp_rank"@) is Some by {
            sample_is_named(m, name, i);
            let j = choose|j: int| 0 <= j < own.len() && own[j] == m[i];
            assert(is_whole(own[j].value));
        }
        counts_add_up(m, name);
        assert forall|i: int| 0 <= i < own.len() implies column(rows[i + 1]) == (
        #[trigger] own[i]).value.to_count_spec() by {
            own_rank_is_found(m, name, ranks, i);
            assert(column(rows[i + 1]) == crate::poll::ranks::rank_count(m, name, ranks[i]));
        }
        column_adds_up(rows, own, column);
    }
    assert forall|i: int| 0 <= i < ranks.len() implies rank_built(
        #[trigger] rows[i + 1],
        ranks[i],
        was,
        m,
    ) by {}
}

pub(crate) proof fn sample_is_named<N: Num>(m: Seq<SampleView<N>>, name: Seq<char>, i: int)
    requires
        0 <= i < m.len(),
        m[i].name == name,
    ensures
        named(m, name).contains(m[i]),
    decreases m.len(),
{
    reveal(Seq::filter);
    let d = m.drop_last();
    let r = named(m, name);
    let v = named(d, name);
    if i == m.len() - 1 {
        assert(r == v.push(m.last()));
        assert(r[v.len() as int] == m[i]);
    } else {
        assert(d[i] == m[i]);
        sample_is_named(d, name, i);
        let j = choose|j: int| 0 <= j < v.len() && v[j] == m[i];
        assert(r[j] == m[i]);
    }
}

/// The reading that a line of the exposition writes for a rank is the reading of that rank,
/// wherever the line stands behind lines that write none.
pub proof fn written_reading_is_of_its_rank<N: Ordered>(
    x: Seq<char>,
    y: Seq<char>,
    name: Seq<char>,
    rank: u32,
    v: N,
)
    requires
        is_name(name),
        v.is_finite_spec(),
        is_silent(parsed_from::<N>(x, 0).0, name, rank),
    ensures
        ({
            let line = exposed(
                name,
                seq![("dp_rank"@, decimal_text(rank as nat))],
                v.shown_spec(),
            );
            let m = parsed_from::<N>(x + seq!['\n'] + (line + seq!['\n'] + y), 0).0;
            let i = parsed_from::<N>(x, 0).0.len() as int;
            is_of_rank(m, name, rank, i) && m[i].value == v
        }),
{
    let ls = seq![("dp_rank"@, decimal_text(rank as nat))];
    let line = exposed(name, ls, v.shown_spec());
    reveal_strlit("dp_rank");
    assert forall|i: int| 0 <= i < ls.len() implies is_label_name((#[trigger] ls[i]).0) by {}
    number_is_read_back(v);
    exposed_body_is_read_back(name, ls, v.shown_spec(), v);
    sorted_labels_stay(ls);
    joined_bodies_add_up::<N>(x, line + seq!['\n'] + y);
    joined_bodies_add_up::<N>(line, y);
    let before = parsed_from::<N>(x, 0).0;
    let m = parsed_from::<N>(x + seq!['\n'] + (line + seq!['\n'] + y), 0).0;
    let i = before.len() as int;
    let s = SampleView { name, labels: ls, value: v };
    N::nan_spreads(v, v);
    assert(m[i] == s);
    assert(s.labels[0].0 == "dp_rank"@);
    assert forall|j: int| 0 <= j < i implies (#[trigger] m[j]).name != name || m[j].label(
        "dp_rank"@,
    ) != Some(decimal_text(rank as nat)) by {
        assert(m[j] == before[j]);
    }
}

// ---- the engine ----

/// Whether a count is what the samples called `name` come to.
pub open spec fn counts_all<N: Num>(v: u64, m: Seq<SampleView<N>>, name: Seq<char>) -> bool {
    reads_counts(m, name) ==> v == counts_in(m, name)
}

/// Whether a count that may be missing is what the samples called `name` come to; it is
/// missing where there are none.
pub open spec fn counts_any<N: Num>(v: Option<u64>, m: Seq<SampleView<N>>, name: Seq<char>) -> bool {
    reads_counts(m, name) ==> if appears(m, name) {
        v == Some(counts_in(m, name) as u64)
    } else {
        v is None
    }
}

/// Whether a value that may be missing is what the samples called `name` come to; it is
/// missing where there are none.
pub open spec fn sums_any<N: Num>(v: Option<N>, m: Seq<SampleView<N>>, name: Seq<char>) -> bool {
    reads_counts(m, name) ==> if appears(m, name) {
        v == Some(N::of_count_spec(counts_in(m, name) as u64))
    } else {
        v is None
    }
}

/// Whether a value that may be missing is the first reading called `name`; it is missing
/// where there is none.
pub open spec fn reads_first<N: Num>(v: Option<N>, m: Seq<SampleView<N>>, name: Seq<char>) -> bool {
    &&& forall|i: int| #[trigger] is_first(m, name, i) ==> v == Some(m[i].value)
    &&& !appears(m, name) ==> v is None
}

proof fn metrics_are_told<N: Ordered>(m: Seq<SampleView<N>>)
    ensures
        forall|name: Seq<char>| #[trigger] counts_all(count_of(m, name), m, name),
        forall|name: Seq<char>| #[trigger] counts_any(count_if_there(m, name), m, name),
        forall|name: Seq<char>| #[trigger] counts_any(lifetime(m, name), m, name),
        forall|name: Seq<char>| #[trigger] sums_any(sum_if_there(m, name), m, name),
        forall|name: Seq<char>| #[trigger] reads_first(first_val(m, name), m, name),
{
    assert forall|name: Seq<char>| reads_counts(m, name) implies {
        &&& #[trigger] count_of(m, name) == counts_in(m, name)
        &&& counts_any(count_if_there(m, name), m, name)
        &&& counts_any(lifetime(m, name), m, name)
        &&& sums_any(sum_if_there(m, name), m, name)
    } by {
        counts_add_up(m, name);
        N::counts_are_numbers(counts_in(m, name) as u64);
    }
    assert forall|name: Seq<char>| #[trigger] counts_any(count_if_there(m, name), m, name) by {
        assert(reads_counts(m, name) ==> count_of(m, name) == counts_in(m, name));
    }
    assert forall|name: Seq<char>| #[trigger] counts_any(lifetime(m, name), m, name) by {
        assert(reads_counts(m, name) ==> count_of(m, name) == counts_in(m, name));
    }
    assert forall|name: Seq<char>| #[trigger] sums_any(sum_if_there(m, name), m, name) by {
        assert(reads_counts(m, name) ==> count_of(m, name) == counts_in(m, name));
    }
    assert forall|name: Seq<char>| #[trigger] reads_first(first_val(m, name), m, name) by {
        assert forall|i: int| #[trigger] is_first(m, name, i) implies first_val(m, name) == Some(
            m[i].value,
        ) by {
            first_reading_is_taken(m, name, i);
        }
        named_members(m, name);
        if !appears(m, name) {
            choices(named(m, name));
        }
    }
}

/// Each number of the engine panel is read from its own metric.
pub proof fn engine_shows_its_metrics<N: Ordered>(
    e: EnginePanel<N>,
    was: EnginePanel<N>,
    m: Seq<SampleView<N>>,
    f: FlowView<N>,
)
    requires
        engine_built(e, was, m, f),
    ensures
        counts_all(e.running_reqs, m, "sglang:num_running_reqs"@),
        counts_all(e.waiting_reqs, m, "sglang:num_queue_reqs"@),
        reads_counts(m, "sglang:gen_throughput"@) ==> e.gen_throughput == N::of_count_spec(
            counts_in(m, "sglang:gen_throughput"@) as u64,
        ),
        reads_first(e.utilization, m, "sglang:utilization"@),
        reads_first(e.fwd_occupancy, m, "sglang:fwd_occupancy"@),
        reads_first(e.new_token_ratio, m, "sglang:new_token_ratio"@),
        sums_any(e.decode_ctx_sum, m, "sglang:decode_sum_seq_lens"@),
        e.prefill_tps == f.prefill,
        e.decode_tps == f.decode,
        e.tokenizer_cores == f.tokenizer,
        e.detokenizer_cores == f.detokenizer,
        was.gen_series.cap() > 0 ==> e.gen_series@.last() == e.gen_throughput,
        was.prefill_series.cap() > 0 ==> e.prefill_series@.last() == or_zero(e.prefill_tps),
        was.token_rate_series.cap() > 0 ==> e.token_rate_series@.last() == or_zero(e.decode_tps),
{
    metrics_are_told(m);
    assert(counts_all(count_of(m, "sglang:num_running_reqs"@), m, "sglang:num_running_reqs"@));
    assert(counts_all(count_of(m, "sglang:num_queue_reqs"@), m, "sglang:num_queue_reqs"@));
    assert(reads_first(first_val(m, "sglang:utilization"@), m, "sglang:utilization"@));
    assert(reads_first(first_val(m, "sglang:fwd_occupancy"@), m, "sglang:fwd_occupancy"@));
    assert(reads_first(first_val(m, "sglang:new_token_ratio"@), m, "sglang:new_token_ratio"@));
    assert(sums_any(
        sum_if_there(m, "sglang:decode_sum_seq_lens"@),
        m,
        "sglang:decode_sum_seq_lens"@,
    ));
    if reads_counts(m, "sglang:gen_throughput"@) {
        counts_add_up(m, "sglang:gen_throughput"@);
    }
}

// ---- the token pool ----

/// Whether a mean is what the sums of two metrics of whole counts come to, one over the
/// other; it is missing where nothing was counted.
pub open spec fn is_mean<N: Num>(
    v: Option<N>,
    m: Seq<SampleView<N>>,
    count: Seq<char>,
    sum: Seq<char>,
) -> bool {
    reads_counts(m, count) && reads_counts(m, sum) ==> if counts_in(m, count) > 0 {
        v == Some(
            N::of_count_spec(counts_in(m, sum) as u64).over_spec(
                N::of_count_spec(counts_in(m, count) as u64),
            ),
        )
    } else {
        v is None
    }
}

proof fn mean_is_told<N: Ordered>(m: Seq<SampleView<N>>, count: Seq<char>, sum: Seq<char>)
    ensures
        is_mean(mean_of(m, count, sum), m, count, sum),
{
    if reads_counts(m, count) && reads_counts(m, sum) {
        counts_add_up(m, count);
        counts_add_up(m, sum);
        N::counts_are_numbers(counts_in(m, sum) as u64);
        N::counts_are_numbers(counts_in(m, count) as u64);
        N::counts_are_numbers(0);
        if counts_in(m, count) > 0 {
            crate::laws::order::counts_ascend::<N>(0, counts_in(m, count) as u64);
        } else {
            N::nan_spreads(N::zero_spec(), N::zero_spec());
            crate::poll::percentiles::at_most_itself(N::zero_spec());
        }
    }
}

/// Whether `v` is the largest reading called `name`, nought where none is above it.
pub open spec fn is_largest<N: Num>(v: N, m: Seq<SampleView<N>>, name: Seq<char>) -> bool {
    &&& forall|i: int|
        0 <= i < m.len() && (#[trigger] m[i]).name == name && !m[i].value.is_nan_spec()
            ==> !v.less_spec(m[i].value)
    &&& !v.less_spec(N::zero_spec())
    &&& v == N::zero_spec() || exists|i: int|
        0 <= i < m.len() && (#[trigger] m[i]).name == name && m[i].value == v
}

/// Each number of the token pool panel is read from its own metric.
pub proof fn token_pool_shows_its_metrics<N: Ordered>(
    k: KvPanel<N>,
    was: KvPanel<N>,
    m: Seq<SampleView<N>>,
    f: FlowView<N>,
)
    requires
        kv_built(k, was, m, f),
    ensures
        counts_all(k.used_tokens, m, "sglang:num_used_tokens"@),
        counts_all(k.total_tokens, m, "sglang:max_total_num_tokens"@),
        reads_first(k.full_token_usage, m, "sglang:full_token_usage"@),
        reads_first(k.swa_token_usage, m, "sglang:swa_token_usage"@),
        reads_first(k.mamba_usage, m, "sglang:mamba_usage"@),
        counts_any(k.swa_used, m, "sglang:swa_used_tokens"@),
        counts_any(k.mamba_used, m, "sglang:mamba_used_tokens"@),
        counts_any(k.available_tokens, m, "sglang:kv_available_tokens"@),
        counts_any(k.evictable_tokens, m, "sglang:kv_evictable_tokens"@),
        counts_any(k.evicted_total, m, "sglang:evicted_tokens_total"@),
        sums_any(k.weight_gb, m, "sglang:weight_memory_usage_gb"@),
        sums_any(k.kv_cache_gb, m, "sglang:kv_cache_memory_usage_gb"@),
        sums_any(k.graph_gb, m, "sglang:graph_memory_usage_gb"@),
        forall|i: int| #[trigger]
            is_first(m, "sglang:cache_hit_rate"@, i) ==> k.cache_hit_rate == m[i].value,
        !appears(m, "sglang:cache_hit_rate"@) ==> k.cache_hit_rate == N::zero_spec(),
        was.cache_hit_series.cap() > 0 ==> k.cache_hit_series@.last() == k.cache_hit_rate,
        k.evicted_tps == f.evicted,
        is_mean(
            k.evict_pass_mean_secs,
            m,
            "sglang:eviction_duration_seconds_count"@,
            "sglang:eviction_duration_seconds_sum"@,
        ),
        k.hicache is Some <==> appears(m, "sglang:hicache_host_total_tokens"@),
        k.hicache matches Some(h) ==> host_tier_shows_its_metrics(h, m),
{
    metrics_are_told(m);
    assert(counts_all(count_of(m, "sglang:num_used_tokens"@), m, "sglang:num_used_tokens"@));
    assert(counts_all(count_of(m, "sglang:max_total_num_tokens"@), m, "sglang:max_total_num_tokens"@));
    assert(reads_first(first_val(m, "sglang:full_token_usage"@), m, "sglang:full_token_usage"@));
    assert(reads_first(first_val(m, "sglang:swa_token_usage"@), m, "sglang:swa_token_usage"@));
    assert(reads_first(first_val(m, "sglang:mamba_usage"@), m, "sglang:mamba_usage"@));
    assert(counts_any(count_if_there(m, "sglang:swa_used_tokens"@), m, "sglang:swa_used_tokens"@));
    assert(counts_any(count_if_there(m, "sglang:mamba_used_tokens"@), m, "sglang:mamba_used_tokens"@));
    assert(counts_any(count_if_there(m, "sglang:kv_available_tokens"@), m, "sglang:kv_available_tokens"@));
    assert(counts_any(count_if_there(m, "sglang:kv_evictable_tokens"@), m, "sglang:kv_evictable_tokens"@));
    assert(counts_any(lifetime(m, "sglang:evicted_tokens_total"@), m, "sglang:evicted_tokens_total"@));
    assert(sums_any(sum_if_there(m, "sglang:weight_memory_usage_gb"@), m, "sglang:weight_memory_usage_gb"@));
    assert(sums_any(sum_if_there(m, "sglang:kv_cache_memory_usage_gb"@), m, "sglang:kv_cache_memory_usage_gb"@));
    assert(sums_any(sum_if_there(m, "sglang:graph_memory_usage_gb"@), m, "sglang:graph_memory_usage_gb"@));
    assert(reads_first(first_val(m, "sglang:cache_hit_rate"@), m, "sglang:cache_hit_rate"@));
    mean_is_told(
        m,
        "sglang:eviction_duration_seconds_count"@,
        "sglang:eviction_duration_seconds_sum"@,
    );
    named_members(m, "sglang:hicache_host_total_tokens"@);
    if let Some(h) = k.hicache {
        host_tier_is_told(h, was.hicache, m, f);
    }
}

/// Each number of the host tier is read from its own metric.
pub open spec fn host_tier_shows_its_metrics<N: Num>(h: HiCache<N>, m: Seq<SampleView<N>>) -> bool {
    &&& counts_all(h.host_used, m, "sglang:hicache_host_used_tokens"@)
    &&& counts_all(h.host_total, m, "sglang:hicache_host_total_tokens"@)
    &&& counts_any(h.backuped_total, m, "sglang:hicache_backup_tokens_total"@)
    &&& counts_any(h.dropped_total, m, "sglang:hicache_dropped_tokens_total"@)
    &&& counts_any(h.load_back_total, m, "sglang:load_back_tokens_total"@)
    &&& counts_any(h.prefetch_failed_total, m, "sglang:hicache_prefetch_aux_alloc_failed_tokens_total"@)
    &&& counts_any(h.storage_backuped_total, m, "sglang:backuped_tokens_total"@)
    &&& counts_any(h.storage_prefetched_total, m, "sglang:prefetched_tokens_total"@)
    &&& is_mean(
        h.backup_mean_secs,
        m,
        "sglang:hicache_backup_duration_seconds_count"@,
        "sglang:hicache_backup_duration_seconds_sum"@,
    )
    &&& is_mean(
        h.load_back_mean_secs,
        m,
        "sglang:load_back_duration_seconds_count"@,
        "sglang:load_back_duration_seconds_sum"@,
    )
}

proof fn host_tier_is_told<N: Ordered>(
    h: HiCache<N>,
    was: Option<HiCache<N>>,
    m: Seq<SampleView<N>>,
    f: FlowView<N>,
)
    requires
        hicache_built(h, was, m, f),
    ensures
        host_tier_shows_its_metrics(h, m),
{
    metrics_are_told(m);
    assert(counts_all(count_of(m, "sglang:hicache_host_used_tokens"@), m, "sglang:hicache_host_used_tokens"@));
    assert(counts_all(count_of(m, "sglang:hicache_host_total_tokens"@), m, "sglang:hicache_host_total_tokens"@));
    assert(counts_any(count_if_there(m, "sglang:hicache_backup_tokens_total"@), m, "sglang:hicache_backup_tokens_total"@));
    assert(counts_any(count_if_there(m, "sglang:hicache_dropped_tokens_total"@), m, "sglang:hicache_dropped_tokens_total"@));
    assert(counts_any(count_if_there(m, "sglang:load_back_tokens_total"@), m, "sglang:load_back_tokens_total"@));
    assert(counts_any(count_if_there(m, "sglang:hicache_prefetch_aux_alloc_failed_tokens_total"@), m, "sglang:hicache_prefetch_aux_alloc_failed_tokens_total"@));
    assert(counts_any(count_if_there(m, "sglang:backuped_tokens_total"@), m, "sglang:backuped_tokens_total"@));
    assert(counts_any(count_if_there(m, "sglang:prefetched_tokens_total"@), m, "sglang:prefetched_tokens_total"@));
    mean_is_told(m, "sglang:hicache_backup_duration_seconds_count"@, "sglang:hicache_backup_duration_seconds_sum"@);
    mean_is_told(m, "sglang:load_back_duration_seconds_count"@, "sglang:load_back_duration_seconds_sum"@);
}

pub(crate) proof fn peak_is_largest<N: Num>(s: Seq<N>, start: N)
    requires
        !start.is_nan_spec(),
        forall|i: int| 0 <= i < s.len() ==> !(#[trigger] s[i]).is_nan_spec(),
    ensures
        forall|i: int| 0 <= i < s.len() ==> !peak_from(s, start).less_spec(#[trigger] s[i]),
        !peak_from(s, start).less_spec(start),
        peak_from(s, start) == start || s.contains(peak_from(s, start)),
        !peak_from(s, start).is_nan_spec(),
    decreases s.len(),
{
    let r = peak_from(s, start);
    if s.len() == 0 {
        if start.less_spec(start) {
            N::less_asymmetric(start, start);
        }
    } else {
        let d = s.drop_last();
        let last = s[s.len() - 1];
        assert forall|i: int| 0 <= i < d.len() implies !(#[trigger] d[i]).is_nan_spec() by {
            assert(d[i] == s[i]);
        }
        peak_is_largest(d, start);
        let p = peak_from(d, start);
        if r.less_spec(r) {
            N::less_asymmetric(r, r);
        }
        assert forall|i: int| 0 <= i < s.len() implies !r.less_spec(#[trigger] s[i]) by {
            if i < d.len() {
                assert(d[i] == s[i]);
                if r.less_spec(s[i]) {
                    N::less_splits(r, p, s[i]);
                    if p.less_spec(r) {
                        N::less_asymmetric(p, r);
                    }
                }
            }
        }
        if r.less_spec(start) {
            N::less_splits(r, p, start);
            if p.less_spec(r) {
                N::less_asymmetric(p, r);
            }
        }
        if r == p && r != start {
            let j = choose|j: int| 0 <= j < d.len() && d[j] == p;
            assert(s[j] == p);
        }
    }
}

/// The token usage is the largest reading of its metric.
pub proof fn token_usage_is_the_largest<N: Ordered>(
    k: KvPanel<N>,
    was: KvPanel<N>,
    m: Seq<SampleView<N>>,
    f: FlowView<N>,
)
    requires
        kv_built(k, was, m, f),
    ensures
        is_largest(k.token_usage, m, "sglang:token_usage"@),
{
    let name = "sglang:token_usage"@;
    let own = named(m, name);
    let nums = numeric(own);
    named_members(m, name);
    N::counts_are_numbers(0);
    N::nan_spreads(N::zero_spec(), N::zero_spec());
    numbers_are_kept(own);
    assert forall|i: int| 0 <= i < values(nums).len() implies !(#[trigger] values(
        nums,
    )[i]).is_nan_spec() by {
        assert(values(nums)[i] == nums[i].value);
    }
    peak_is_largest(values(nums), N::zero_spec());
    let v = k.token_usage;
    assert(v == largest(m, name));
    assert forall|i: int|
        0 <= i < m.len() && (#[trigger] m[i]).name == name && !m[i].value.is_nan_spec() implies
        !v.less_spec(m[i].value) by {
        sample_is_named(m, name, i);
        let j = choose|j: int| 0 <= j < own.len() && own[j] == m[i];
        assert(nums.contains(own[j]));
        let n = choose|n: int| 0 <= n < nums.len() && nums[n] == own[j];
        assert(values(nums)[n] == m[i].value);
    }
    if v != N::zero_spec() {
        let n = choose|n: int| 0 <= n < values(nums).len() && values(nums)[n] == v;
        assert(nums[n].value == v);
        assert(own.contains(nums[n]));
        let j = choose|j: int| 0 <= j < own.len() && own[j] == nums[n];
        assert(m.contains(own[j]));
        let i = choose|i: int| 0 <= i < m.len() && m[i] == own[j];
        assert(m[i].name == name && m[i].value == v);
    }
}

pub(crate) proof fn numbers_are_kept<N: Num>(s: Seq<SampleView<N>>)
    ensures
        forall|i: int|
            0 <= i < numeric(s).len() ==> !(#[trigger] numeric(s)[i]).value.is_nan_spec()
                && s.contains(numeric(s)[i]),
        forall|i: int|
            0 <= i < s.len() && !(#[trigger] s[i]).value.is_nan_spec() ==> numeric(s).contains(
                s[i],
            ),
    decreases s.len(),
{
    reveal(Seq::filter);
    if s.len() > 0 {
        let d = s.drop_last();
        numbers_are_kept(d);
        let (r, v) = (numeric(s), numeric(d));
        assert forall|i: int| 0 <= i < r.len() implies !(#[trigger] r[i]).value.is_nan_spec()
            && s.contains(r[i]) by {
            if i < v.len() {
                assert(r[i] == v[i]);
                let j = choose|j: int| 0 <= j < d.len() && d[j] == v[i];
                assert(s[j] == r[i]);
            } else {
                assert(s[s.len() - 1] == r[i]);
            }
        }
        assert forall|i: int| 0 <= i < s.len() && !(#[trigger] s[i]).value.is_nan_spec() implies
            r.contains(s[i]) by {
            if i < d.len() {
                assert(d[i] == s[i]);
                let j = choose|j: int| 0 <= j < v.len() && v[j] == d[i];
                assert(r[j] == s[i]);
            } else {
                assert(r[v.len() as int] == s[i]);
            }
        }
    }
}

// ---- the traffic ----

/// Each count of the traffic panel is read from its own metric.
pub proof fn traffic_shows_its_metrics<N: Ordered>(
    t: TrafficPanel<N>,
    was: TrafficPanel<N>,
    m: Seq<SampleView<N>>,
    f: FlowView<N>,
)
    requires
        counters_built(t, m, f),
        directions_built(t, was, m, f),
    ensures
        counts_all(t.total_requests, m, "sglang:num_requests_total"@),
        counts_all(t.aborted, m, "sglang:num_aborted_requests_total"@),
        counts_all(t.gen_total_tokens, m, "sglang:generation_tokens_total"@),
        counts_all(t.prompt_total_tokens, m, "sglang:prompt_tokens_total"@),
        appears(m, "sglang:num_retracted_requests_total"@) ==> counts_all(
            t.retracted,
            m,
            "sglang:num_retracted_requests_total"@,
        ),
        !appears(m, "sglang:num_retracted_requests_total"@) ==> counts_all(
            t.retracted,
            m,
            "sglang:num_retracted_reqs"@,
        ),
        forall|i: int| #[trigger]
            is_first(m, "sglang:num_paused_reqs"@, i) ==> t.paused == m[i].value.to_count_spec(),
        !appears(m, "sglang:num_paused_reqs"@) ==> t.paused == 0,
        forall|i: int| #[trigger]
            is_first(m, "sglang:num_grammar_queue_reqs"@, i) ==> t.grammar_queue
                == m[i].value.to_count_spec(),
        !appears(m, "sglang:num_grammar_queue_reqs"@) ==> t.grammar_queue == 0,
        t.gen_tps == or_zero(f.decode),
        t.prompt_tps == or_zero(f.prefill),
        t.req_rate_in == or_zero(f.requests),
        t.http_err_rate == f.http_errors,
        t.cached_device_tps == f.cached_device,
        is_length_mean(t.avg_prompt_len, m, "sglang:prompt_tokens_histogram_count"@, "sglang:prompt_tokens_histogram_sum"@),
        is_length_mean(t.avg_gen_len, m, "sglang:generation_tokens_histogram_count"@, "sglang:generation_tokens_histogram_sum"@),
        is_length_mean(t.avg_uncached_len, m, "sglang:uncached_prompt_tokens_histogram_count"@, "sglang:uncached_prompt_tokens_histogram_sum"@),
        was.gen_series.cap() > 0 ==> t.gen_series@.last() == t.gen_tps,
        was.prompt_series.cap() > 0 ==> t.prompt_series@.last() == t.prompt_tps,
{
    metrics_are_told(m);
    assert(counts_all(count_of(m, "sglang:num_requests_total"@), m, "sglang:num_requests_total"@));
    assert(counts_all(count_of(m, "sglang:num_aborted_requests_total"@), m, "sglang:num_aborted_requests_total"@));
    assert(counts_all(count_of(m, "sglang:generation_tokens_total"@), m, "sglang:generation_tokens_total"@));
    assert(counts_all(count_of(m, "sglang:prompt_tokens_total"@), m, "sglang:prompt_tokens_total"@));
    N::counts_are_numbers(0);
    named_members(m, "sglang:num_retracted_requests_total"@);
    named_members(m, "sglang:num_retracted_reqs"@);
    assert(counts_all(count_of(m, "sglang:num_retracted_requests_total"@), m, "sglang:num_retracted_requests_total"@));
    assert(counts_all(count_of(m, "sglang:num_retracted_reqs"@), m, "sglang:num_retracted_reqs"@));
    if !appears(m, "sglang:num_retracted_reqs"@) {
        assert(named(m, "sglang:num_retracted_reqs"@) =~= Seq::empty());
    }
    assert(reads_first(first_val(m, "sglang:num_paused_reqs"@), m, "sglang:num_paused_reqs"@));
    assert(reads_first(first_val(m, "sglang:num_grammar_queue_reqs"@), m, "sglang:num_grammar_queue_reqs"@));
    length_mean_is_told(m, "sglang:prompt_tokens_histogram_count"@, "sglang:prompt_tokens_histogram_sum"@);
    length_mean_is_told(m, "sglang:generation_tokens_histogram_count"@, "sglang:generation_tokens_histogram_sum"@);
    length_mean_is_told(m, "sglang:uncached_prompt_tokens_histogram_count"@, "sglang:uncached_prompt_tokens_histogram_sum"@);
}

/// Whether a mean length is what the sums of two metrics of whole counts come to, one over
/// the other; it is missing where nothing was counted or all lengths are nought.
pub open spec fn is_length_mean<N: Num>(
    v: Option<N>,
    m: Seq<SampleView<N>>,
    count: Seq<char>,
    sum: Seq<char>,
) -> bool {
    reads_counts(m, count) && reads_counts(m, sum) ==> if counts_in(m, count) > 0 && counts_in(
        m,
        sum,
    ) > 0 {
        v == Some(
            N::of_count_spec(counts_in(m, sum) as u64).over_spec(
                N::of_count_spec(counts_in(m, count) as u64),
            ),
        )
    } else {
        v is None
    }
}

proof fn length_mean_is_told<N: Ordered>(m: Seq<SampleView<N>>, count: Seq<char>, sum: Seq<char>)
    ensures
        is_length_mean(length_mean_of(m, count, sum), m, count, sum),
{
    mean_is_told(m, count, sum);
    if reads_counts(m, count) && reads_counts(m, sum) {
        counts_add_up(m, sum);
        N::counts_are_numbers(0);
        if counts_in(m, sum) > 0 {
            crate::laws::order::counts_ascend::<N>(0, counts_in(m, sum) as u64);
        } else {
            N::nan_spreads(N::zero_spec(), N::zero_spec());
            crate::poll::percentiles::at_most_itself(N::zero_spec());
        }
    }
}

/// The queues of a server with a role are each read from their own metric.
pub proof fn queues_show_their_metrics<N: Ordered>(
    t: TrafficPanel<N>,
    was: TrafficPanel<N>,
    m: Seq<SampleView<N>>,
)
    requires
        queues_built(t, was, m, true),
    ensures
        counts_any(t.pd_prefill_bootstrap, m, "sglang:num_prefill_bootstrap_queue_reqs"@),
        counts_any(t.pd_prefill_inflight, m, "sglang:num_prefill_inflight_queue_reqs"@),
        counts_any(t.pd_decode_prealloc, m, "sglang:num_decode_prealloc_queue_reqs"@),
        counts_any(t.pd_decode_transfer, m, "sglang:num_decode_transfer_queue_reqs"@),
{
    metrics_are_told(m);
    assert(counts_any(count_if_there(m, "sglang:num_prefill_bootstrap_queue_reqs"@), m, "sglang:num_prefill_bootstrap_queue_reqs"@));
    assert(counts_any(count_if_there(m, "sglang:num_prefill_inflight_queue_reqs"@), m, "sglang:num_prefill_inflight_queue_reqs"@));
    assert(counts_any(count_if_there(m, "sglang:num_decode_prealloc_queue_reqs"@), m, "sglang:num_decode_prealloc_queue_reqs"@));
    assert(counts_any(count_if_there(m, "sglang:num_decode_transfer_queue_reqs"@), m, "sglang:num_decode_transfer_queue_reqs"@));
}

/// The aggregate row shows the whole of each metric.
pub proof fn aggregate_row_shows_its_metrics<N: Ordered>(
    rows: Seq<RankRow<N>>,
    was: Seq<RankRow<N>>,
    m: Seq<SampleView<N>>,
    per_rank: bool,
    e: EnginePanel<N>,
    k: KvPanel<N>,
)
    requires
        rows_built(rows, was, m, per_rank, e, k),
    ensures
        counts_all(rows[0].running, m, "sglang:num_running_reqs"@),
        counts_all(rows[0].waiting, m, "sglang:num_queue_reqs"@),
        counts_all(rows[0].used_tokens, m, "sglang:num_used_tokens"@),
        counts_all(rows[0].total_tokens, m, "sglang:max_total_num_tokens"@),
        reads_first(rows[0].spec_accept_length, m, "sglang:spec_accept_length"@),
        reads_first(rows[0].spec_accept_rate, m, "sglang:spec_accept_rate"@),
        rows[0].token_usage == k.token_usage,
        rows[0].gen_throughput == e.gen_throughput,
        rows[0].cache_hit_rate == k.cache_hit_rate,
        rows[0].utilization == e.utilization,
{
    metrics_are_told(m);
    assert(counts_all(count_of(m, "sglang:num_running_reqs"@), m, "sglang:num_running_reqs"@));
    assert(counts_all(count_of(m, "sglang:num_queue_reqs"@), m, "sglang:num_queue_reqs"@));
    assert(counts_all(count_of(m, "sglang:num_used_tokens"@), m, "sglang:num_used_tokens"@));
    assert(counts_all(count_of(m, "sglang:max_total_num_tokens"@), m, "sglang:max_total_num_tokens"@));
    assert(reads_first(first_val(m, "sglang:spec_accept_length"@), m, "sglang:spec_accept_length"@));
    assert(reads_first(first_val(m, "sglang:spec_accept_rate"@), m, "sglang:spec_accept_rate"@));
}

/// What the server tells of itself in a scrape.
pub proof fn server_shows_its_metrics<N: Ordered>(
    s: ServerMeta<N>,
    was: ServerMeta<N>,
    m: Seq<SampleView<N>>,
)
    requires
        server_built(s, was, m),
    ensures
        counts_any(s.max_total_num_tokens, m, "sglang:max_total_num_tokens"@),
        was.context_len is Some ==> s.context_len == was.context_len,
        was.context_len is None ==> forall|i: int| #[trigger]
            is_first(m, "sglang:context_len"@, i) ==> s.context_len == Some(
                m[i].value.to_count_spec(),
            ),
        was.context_len is None && !appears(m, "sglang:context_len"@) ==> s.context_len is None,
        s.model_path == was.model_path,
        s.served_model_name == was.served_model_name,
        s.version == was.version,
        s.tp_size == was.tp_size,
        s.pp_size == was.pp_size,
        s.dp_size == was.dp_size,
{
    metrics_are_told(m);
    named_members(m, "sglang:max_total_num_tokens"@);
    assert(counts_all(
        count_of(m, "sglang:max_total_num_tokens"@),
        m,
        "sglang:max_total_num_tokens"@,
    ));
    assert(reads_first(first_val(m, "sglang:context_len"@), m, "sglang:context_len"@));
}

// ---- the histograms ----

/// Each latency family, and each mean length, is that of its own histogram.
pub proof fn histograms_fill_their_rows<N: Num>(
    t: TrafficPanel<N>,
    was: TrafficPanel<N>,
    m: Seq<SampleView<N>>,
    f: FlowView<N>,
    hist: Seq<EntryView<N>>,
    now: u64,
    role: bool,
)
    requires
        traffic_built(t, was, m, f, hist, now, role),
    ensures
        t.latency.queue == latency_of(hist, "sglang:queue_time_seconds"@, now),
        t.latency.ttft == latency_of(hist, "sglang:time_to_first_token_seconds"@, now),
        t.latency.itl == latency_of(hist, "sglang:inter_token_latency_seconds"@, now),
        t.latency.e2e == latency_of(hist, "sglang:e2e_request_latency_seconds"@, now),
        t.latency.known@[0] <==> has_series(hist, "sglang:queue_time_seconds"@),
        t.latency.known@[1] <==> has_series(hist, "sglang:time_to_first_token_seconds"@),
        t.latency.known@[2] <==> has_series(hist, "sglang:inter_token_latency_seconds"@),
        t.latency.known@[3] <==> has_series(hist, "sglang:e2e_request_latency_seconds"@),
        t.len_window@[0] == windowed_mean_of(hist, "sglang:prompt_tokens_histogram"@, now),
        t.len_window@[1] == windowed_mean_of(hist, "sglang:generation_tokens_histogram"@, now),
        t.len_window@[2] == windowed_mean_of(
            hist,
            "sglang:uncached_prompt_tokens_histogram"@,
            now,
        ),
{
    assert(FAMILIES@[0]@ == "sglang:queue_time_seconds"@);
    assert(FAMILIES@[1]@ == "sglang:time_to_first_token_seconds"@);
    assert(FAMILIES@[2]@ == "sglang:inter_token_latency_seconds"@);
    assert(FAMILIES@[3]@ == "sglang:e2e_request_latency_seconds"@);
    assert(MEAN_ONLY@[0]@ == "sglang:prompt_tokens_histogram"@);
    assert(MEAN_ONLY@[1]@ == "sglang:generation_tokens_histogram"@);
    assert(MEAN_ONLY@[2]@ == "sglang:uncached_prompt_tokens_histogram"@);
    assert forall|base: Seq<char>| #[trigger] known_in(hist, base) <==> has_series(hist, base) by {
        known_has_series(hist, base);
    }
    assert(t.latency.known@[0] == known_in(hist, FAMILIES@[0]@));
    assert(t.latency.known@[1] == known_in(hist, FAMILIES@[1]@));
    assert(t.latency.known@[2] == known_in(hist, FAMILIES@[2]@));
    assert(t.latency.known@[3] == known_in(hist, FAMILIES@[3]@));
    assert(t.len_window@[0] == windowed_mean_of(hist, MEAN_ONLY@[0]@, now));
    assert(t.len_window@[1] == windowed_mean_of(hist, MEAN_ONLY@[1]@, now));
    assert(t.len_window@[2] == windowed_mean_of(hist, MEAN_ONLY@[2]@, now));
}

/// Whether a series of the family is tracked.
pub open spec fn has_series<N>(s: Seq<EntryView<N>>, base: Seq<char>) -> bool {
    exists|i: int| 0 <= i < s.len() && (#[trigger] s[i]).id.0 == base
}

proof fn filter_finds<T>(s: Seq<T>, q: spec_fn(T) -> bool)
    ensures
        s.filter(q).len() > 0 <==> exists|i: int| 0 <= i < s.len() && q(#[trigger] s[i]),
    decreases s.len(),
{
    reveal(Seq::filter);
    if s.len() > 0 {
        let d = s.drop_last();
        filter_finds(d, q);
        if exists|i: int| 0 <= i < d.len() && q(#[trigger] d[i]) {
            let i = choose|i: int| 0 <= i < d.len() && q(#[trigger] d[i]);
            assert(q(s[i]));
        }
        if exists|i: int| 0 <= i < s.len() && q(#[trigger] s[i]) {
            let i = choose|i: int| 0 <= i < s.len() && q(#[trigger] s[i]);
            if i < d.len() {
                assert(q(d[i]));
            }
        }
        if q(s.last()) {
            assert(q(s[s.len() - 1]));
        }
    }
}

proof fn known_has_series<N>(s: Seq<EntryView<N>>, base: Seq<char>)
    ensures
        known_in(s, base) <==> has_series(s, base),
{
    assert forall|q: spec_fn(EntryView<N>) -> bool|
        #![trigger s.filter(q)]
        (forall|x: EntryView<N>| #[trigger] q(x) <==> x.id.0 == base) implies (s.filter(q).len() > 0
        <==> has_series(s, base)) by {
        filter_finds(s, q);
        if has_series(s, base) {
            let i = choose|i: int| 0 <= i < s.len() && (#[trigger] s[i]).id.0 == base;
            assert(q(s[i]));
        }
        if s.filter(q).len() > 0 {
            let i = choose|i: int| 0 <= i < s.len() && q(#[trigger] s[i]);
            assert(s[i].id.0 == base);
        }
    }
}

// ---- sums over labels ----

/// What the samples that satisfy `p` count, added up.
pub open spec fn counts_where<N: Num>(
    m: Seq<SampleView<N>>,
    p: spec_fn(SampleView<N>) -> bool,
) -> nat
    decreases m.len(),
{
    if m.len() == 0 {
        0
    } else {
        counts_where(m.drop_last(), p) + if p(m.last()) {
            m.last().value.to_count_spec() as nat
        } else {
            0
        }
    }
}

/// Whether the samples that satisfy `p` are whole counts.
pub open spec fn wholes_where<N: Num>(
    m: Seq<SampleView<N>>,
    p: spec_fn(SampleView<N>) -> bool,
) -> bool {
    &&& forall|i: int| 0 <= i < m.len() && p(#[trigger] m[i]) ==> is_whole(m[i].value)
    &&& counts_where(m, p) <= MOST_WHOLE
}

pub(crate) proof fn filter_counts<N: Num>(
    m: Seq<SampleView<N>>,
    q: spec_fn(SampleView<N>) -> bool,
    p: spec_fn(SampleView<N>) -> bool,
)
    ensures
        counts_where(m.filter(q), p) == counts_where(m, |x: SampleView<N>| q(x) && p(x)),
        forall|i: int| 0 <= i < m.filter(q).len() ==> q(#[trigger] m.filter(q)[i]) && m.contains(
            m.filter(q)[i],
        ),
    decreases m.len(),
{
    reveal(Seq::filter);
    if m.len() > 0 {
        let d = m.drop_last();
        filter_counts(d, q, p);
        let (r, v) = (m.filter(q), d.filter(q));
        if q(m.last()) {
            assert(r == v.push(m.last()));
            assert(r.drop_last() =~= v);
        } else {
            assert(r == v);
        }
        assert forall|i: int| 0 <= i < r.len() implies q(#[trigger] r[i]) && m.contains(r[i]) by {
            if i < v.len() {
                assert(r[i] == v[i]);
                let k = choose|k: int| 0 <= k < d.len() && d[k] == v[i];
                assert(m[k] == r[i]);
            } else {
                assert(m[m.len() - 1] == r[i]);
            }
        }
    }
}

pub(crate) proof fn counts_where_same<N: Num>(
    m: Seq<SampleView<N>>,
    p: spec_fn(SampleView<N>) -> bool,
    q: spec_fn(SampleView<N>) -> bool,
)
    requires
        forall|x: SampleView<N>| #[trigger] p(x) <==> q(x),
    ensures
        counts_where(m, p) == counts_where(m, q),
    decreases m.len(),
{
    if m.len() > 0 {
        counts_where_same(m.drop_last(), p, q);
        assert(p(m.last()) <==> q(m.last()));
    }
}

proof fn all_count<N: Num>(s: Seq<SampleView<N>>)
    ensures
        counts_where(s, |x: SampleView<N>| true) == counts_of(s),
    decreases s.len(),
{
    if s.len() > 0 {
        all_count(s.drop_last());
    }
}

/// The sum of a choice of whole counts.
proof fn choice_adds_up<N: Ordered>(
    m: Seq<SampleView<N>>,
    name: Seq<char>,
    q: spec_fn(SampleView<N>) -> bool,
    p: spec_fn(SampleView<N>) -> bool,
)
    requires
        forall|x: SampleView<N>| #[trigger] p(x) <==> x.name == name && q(x),
        wholes_where(m, p),
    ensures
        sum_of(chosen(m, name, q)) == N::of_count_spec(counts_where(m, p) as u64),
        counted(chosen(m, name, q)) == counts_where(m, p),
        chosen(m, name, q).len() > 0 <==> exists|i: int| 0 <= i < m.len() && p(#[trigger] m[i]),
{
    let n = |x: SampleView<N>| x.name == name;
    let all = |x: SampleView<N>| true;
    let own = named(m, name);
    assert(own == m.filter(n));
    let r = chosen(m, name, q);
    let qa = |x: SampleView<N>| q(x) && all(x);
    let nqa = |x: SampleView<N>| n(x) && qa(x);
    filter_counts(own, q, all);
    filter_counts(m, n, qa);
    assert forall|x: SampleView<N>| #[trigger] nqa(x) <==> p(x) by {
        assert(p(x) <==> x.name == name && q(x));
    }
    counts_where_same(m, nqa, p);
    all_count(r);
    assert forall|i: int| 0 <= i < r.len() implies is_whole((#[trigger] r[i]).value)
        && !r[i].value.is_nan_spec() && p(r[i]) && m.contains(r[i]) by {
        assert(own.contains(r[i]));
        let k = choose|k: int| 0 <= k < own.len() && own[k] == r[i];
        assert(n(own[k]) && m.contains(own[k]));
        let j = choose|j: int| 0 <= j < m.len() && m[j] == r[i];
        assert(p(m[j]));
        N::counts_are_numbers(r[i].value.to_count_spec());
        N::nan_spreads(r[i].value, r[i].value);
    }
    whole_sum(r);
    choices(r);
    assert(numeric(r) == r);
    filter_finds(own, q);
    filter_finds(m, n);
    if exists|i: int| 0 <= i < m.len() && p(#[trigger] m[i]) {
        let i = choose|i: int| 0 <= i < m.len() && p(#[trigger] m[i]);
        sample_is_named(m, name, i);
        let k = choose|k: int| 0 <= k < own.len() && own[k] == m[i];
        assert(q(own[k]));
    }
    if r.len() > 0 {
        let j = choose|j: int| 0 <= j < m.len() && m[j] == r[0];
        assert(p(m[j]));
    }
}

/// Whether a sample counts tokens out of the cache of which the source begins with `prefix`.
pub open spec fn is_of_tier<N: Num>(x: SampleView<N>, prefix: Seq<char>) -> bool {
    x.name == "sglang:cached_tokens_total"@ && (x.label("cache_source"@) matches Some(s)
        && has_prefix(s, prefix)) && !x.value.is_nan_spec()
}

/// The tokens out of the cache are told by tier: those of the device, of the host and of the
/// storage, the latter two by the beginning of their source.
pub proof fn tiers_are_told_by_their_source<N: Ordered>(
    t: TrafficPanel<N>,
    m: Seq<SampleView<N>>,
    f: FlowView<N>,
)
    requires
        counters_built(t, m, f),
    ensures
        ({
            let device = |x: SampleView<N>|
                x.name == "sglang:cached_tokens_total"@ && x.label("cache_source"@) == Some(
                    "device"@,
                );
            let host = |x: SampleView<N>| is_of_tier(x, "host"@);
            let storage = |x: SampleView<N>| is_of_tier(x, "storage"@);
            &&& wholes_where(m, device) ==> t.cached_device_total == counts_where(m, device)
            &&& wholes_where(m, host) ==> t.cached_host_total == counts_where(m, host)
            &&& wholes_where(m, storage) ==> t.cached_storage_total == counts_where(m, storage)
        }),
{
    let name = "sglang:cached_tokens_total"@;
    let device = |x: SampleView<N>| x.name == name && x.label("cache_source"@) == Some("device"@);
    let host = |x: SampleView<N>| is_of_tier(x, "host"@);
    let storage = |x: SampleView<N>| is_of_tier(x, "storage"@);
    if wholes_where(m, device) {
        choice_adds_up(
            m,
            name,
            |x: SampleView<N>| labelled(x, "cache_source"@, "device"@),
            device,
        );
    }
    if wholes_where(m, host) {
        tier_adds_up(m, "host"@);
    }
    if wholes_where(m, storage) {
        tier_adds_up(m, "storage"@);
    }
}

proof fn tier_adds_up<N: Ordered>(m: Seq<SampleView<N>>, prefix: Seq<char>)
    requires
        wholes_where(m, |x: SampleView<N>| is_of_tier(x, prefix)),
    ensures
        tier_total(m, prefix) == counts_where(m, |x: SampleView<N>| is_of_tier(x, prefix)),
{
    choice_adds_up(
        m,
        "sglang:cached_tokens_total"@,
        |x: SampleView<N>|
            (x.label("cache_source"@) matches Some(s) && has_prefix(s, prefix))
                && !x.value.is_nan_spec(),
        |x: SampleView<N>| is_of_tier(x, prefix),
    );
}

/// The share of decode passes under a graph is that of the passes whose mode says so among all
/// decode passes, held to the unit; there is none without a decode pass.
pub proof fn graph_share_is_among_decode_passes<N: Ordered>(
    e: EnginePanel<N>,
    was: EnginePanel<N>,
    m: Seq<SampleView<N>>,
    f: FlowView<N>,
)
    requires
        engine_built(e, was, m, f),
    ensures
        ({
            let decode = |x: SampleView<N>|
                x.name == "sglang:cuda_graph_passes_total"@ && (x.label("mode"@) matches Some(t)
                    && has_prefix(t, "decode"@));
            let graph = |x: SampleView<N>|
                x.name == "sglang:cuda_graph_passes_total"@ && (x.label("mode"@) matches Some(t)
                    && has_prefix(t, "decode"@) && has_infix(t, "cuda_graph"@));
            wholes_where(m, decode) && wholes_where(m, graph) ==> e.cg_decode_share == if counts_where(
                m,
                decode,
            ) > 0 {
                Some(
                    unit_spec(
                        N::of_count_spec(counts_where(m, graph) as u64).over_spec(
                            N::of_count_spec(counts_where(m, decode) as u64),
                        ),
                    ),
                )
            } else {
                None
            }
        }),
{
    let name = "sglang:cuda_graph_passes_total"@;
    let decode = |x: SampleView<N>|
        x.name == name && (x.label("mode"@) matches Some(t) && has_prefix(t, "decode"@));
    let graph = |x: SampleView<N>|
        x.name == name && (x.label("mode"@) matches Some(t) && has_prefix(t, "decode"@) && has_infix(
            t,
            "cuda_graph"@,
        ));
    if wholes_where(m, decode) && wholes_where(m, graph) {
        choice_adds_up(m, name, |x: SampleView<N>| decode_pass(x), decode);
        choice_adds_up(m, name, |x: SampleView<N>| graph_pass(x), graph);
        N::counts_are_numbers(0);
        N::counts_are_numbers(counts_where(m, decode) as u64);
        N::nan_spreads(N::zero_spec(), N::zero_spec());
        crate::poll::percentiles::at_most_itself(N::zero_spec());
    }
}

/// The requests in flight are those of all routes but that of the scrapes.
pub proof fn active_requests_leave_out_the_scrapes<N: Ordered>(
    t: TrafficPanel<N>,
    m: Seq<SampleView<N>>,
    f: FlowView<N>,
)
    requires
        counters_built(t, m, f),
    ensures
        ({
            let p = |x: SampleView<N>|
                x.name == "sglang:http_requests_active"@ && x.label("endpoint"@) != Some(
                    "/metrics"@,
                ) && !x.value.is_nan_spec();
            wholes_where(m, p) ==> t.http_active == if exists|i: int|
                0 <= i < m.len() && p(#[trigger] m[i]) {
                Some(counts_where(m, p) as u64)
            } else {
                None
            }
        }),
{
    let name = "sglang:http_requests_active"@;
    let p = |x: SampleView<N>|
        x.name == name && x.label("endpoint"@) != Some("/metrics"@) && !x.value.is_nan_spec();
    if wholes_where(m, p) {
        choice_adds_up(
            m,
            name,
            |x: SampleView<N>| !own_polling(x) && !x.value.is_nan_spec(),
            p,
        );
        N::counts_are_numbers(counts_where(m, p) as u64);
    }
}

}
