//! What a scrape says of each rank.
use crate::model::hist::{Ring, HIST_CAP};
use crate::model::snapshot::{EnginePanel, KvPanel, RankRow};
use crate::num::{or_zero, value_or_zero, Num};
use crate::poll::panels::grown;
use crate::poll::prom::{found, named, refs_view, wants_view, Metrics, SampleView};
use crate::poll::read::{count_of, first_val, read_count, read_first};
use crate::text::{decimal, decimal_text, parse_count, parsed_count};
use vstd::prelude::*;
use vstd::string::*;

verus! {

/// The rank a sample is attributed to.
pub open spec fn rank_of<N>(x: SampleView<N>) -> Option<nat> {
    match x.label("dp_rank"@) {
        Some(t) => parsed_count(t, u32::MAX as nat),
        None => None,
    }
}

/// Ascending ranks with one more; no rank twice.
pub open spec fn with_rank(s: Seq<u32>, r: u32) -> Seq<u32>
    decreases s.len(),
{
    if s.len() == 0 || s.last() < r {
        s.push(r)
    } else if s.last() == r {
        s
    } else {
        with_rank(s.drop_last(), r).push(s.last())
    }
}

/// The ranks that samples are attributed to, ascending.
pub open spec fn ranks_in<N>(s: Seq<SampleView<N>>) -> Seq<u32>
    decreases s.len(),
{
    if s.len() == 0 {
        Seq::empty()
    } else {
        match rank_of(s.last()) {
            Some(r) => with_rank(ranks_in(s.drop_last()), r as u32),
            None => ranks_in(s.drop_last()),
        }
    }
}

/// The ranks a scrape shows, where per-rank rows are trustworthy.
pub open spec fn shown_ranks<N>(m: Seq<SampleView<N>>, per_rank: bool) -> Seq<u32> {
    if per_rank {
        ranks_in(named(m, "sglang:num_running_reqs"@))
    } else {
        Seq::empty()
    }
}

/// Adds a rank to ascending ranks.
fn add_rank(v: &mut Vec<u32>, r: u32)
    ensures
        final(v)@ == with_rank(old(v)@, r),
{
    let ghost all = v@;
    let mut at: usize = v.len();
    assert(all.take(at as int) =~= all);
    assert(with_rank(all, r) =~= with_rank(all.take(at as int), r) + all.skip(at as int));
    while at > 0 && v[at - 1] > r
        invariant
            at <= v@.len(),
            all == v@,
            with_rank(all, r) == with_rank(all.take(at as int), r) + all.skip(at as int),
        decreases at,
    {
        assert(all.take(at as int).drop_last() =~= all.take(at - 1));
        assert(with_rank(all.take(at - 1), r).push(all[at - 1]) + all.skip(at as int)
            =~= with_rank(all.take(at - 1), r) + all.skip(at - 1));
        at -= 1;
    }
    if at > 0 && v[at - 1] == r {
        assert(all.take(at as int) + all.skip(at as int) =~= all);
        return;
    }
    assert(with_rank(all.take(at as int), r) == all.take(at as int).push(r));
    v.insert(at, r);
    assert(v@ =~= all.take(at as int).push(r) + all.skip(at as int));
}

/// The ranks a scrape shows, where per-rank rows are trustworthy.
fn read_ranks<N: Num>(m: &Metrics<N>, per_rank: bool) -> (r: Vec<u32>)
    ensures
        r@ == shown_ranks(m@, per_rank),
{
    let mut out: Vec<u32> = Vec::new();
    if !per_rank {
        return out;
    }
    let v = m.get("sglang:num_running_reqs");
    let ghost all = refs_view(v@);
    let n: usize = v.len();
    let mut i: usize = 0;
    assert(all.take(0) =~= Seq::empty());
    while i < n
        invariant
            i <= n,
            n == v@.len(),
            all == refs_view(v@),
            out@ == ranks_in(all.take(i as int)),
        decreases n - i,
    {
        assert(all.take(i + 1).drop_last() =~= all.take(i as int));
        assert(all[i as int] == v@[i as int]@);
        match v[i].label("dp_rank") {
            Some(t) => match parse_count(t, u32::MAX) {
                Some(r) => {
                    add_rank(&mut out, r);
                },
                None => {},
            },
            None => {},
        }
        i += 1;
    }
    assert(all.take(n as int) =~= all);
    out
}

/// The value of `name` for one rank, where it is a number.
pub open spec fn rank_value<N: Num>(
    m: Seq<SampleView<N>>,
    name: Seq<char>,
    rank: u32,
) -> Option<N> {
    match found(m, name, seq![("dp_rank"@, decimal_text(rank as nat))]) {
        Some(x) => if x.value.is_nan_spec() {
            None
        } else {
            Some(x.value)
        },
        None => None,
    }
}

/// A count of `name` for one rank, nought where there is none.
pub open spec fn rank_count<N: Num>(m: Seq<SampleView<N>>, name: Seq<char>, rank: u32) -> u64 {
    or_zero(rank_value(m, name, rank)).to_count_spec()
}

fn read_rank<N: Num>(m: &Metrics<N>, name: &str, rank: u32) -> (r: Option<N>)
    ensures
        r == rank_value(m@, name@, rank),
{
    let text = decimal(rank as u64);
    let want: [(&str, &str); 1] = [("dp_rank", text.as_str())];
    assert(wants_view(want@) =~= seq![("dp_rank"@, decimal_text(rank as nat))]);
    match m.find(name, want.as_slice()) {
        Some(x) => if x.value.is_nan() {
            None
        } else {
            Some(x.value)
        },
        None => None,
    }
}

fn read_rank_count<N: Num>(m: &Metrics<N>, name: &str, rank: u32) -> (r: u64)
    ensures
        r == rank_count(m@, name@, rank),
{
    value_or_zero(read_rank(m, name, rank)).to_count()
}

/// The first row of a rank.
pub open spec fn row_of<N>(rows: Seq<RankRow<N>>, rank: u32) -> Option<RankRow<N>>
    decreases rows.len(),
{
    if rows.len() == 0 {
        None
    } else if rows[0].dp_rank == rank {
        Some(rows[0])
    } else {
        row_of(rows.drop_first(), rank)
    }
}

/// The row of a rank in a table whose first row is the aggregate.
pub open spec fn own_row<N>(rows: Seq<RankRow<N>>, rank: u32) -> Option<RankRow<N>> {
    if rows.len() == 0 {
        None
    } else {
        row_of(rows.drop_first(), rank)
    }
}

/// The history `new` carries on that of `prior` with one more sample.
pub open spec fn carried<N>(new: Ring<N>, prior: Option<RankRow<N>>, v: N) -> bool {
    match prior {
        Some(row) => grown(new, row.gen_series, v),
        None => new.cap() == HIST_CAP && new@ == seq![v],
    }
}

/// The aggregate row after a scrape. Its history is that of the first row before.
pub open spec fn agg_built<N: Num>(
    r: RankRow<N>,
    was: Seq<RankRow<N>>,
    m: Seq<SampleView<N>>,
    e: EnginePanel<N>,
    k: KvPanel<N>,
) -> bool {
    &&& r.dp_rank == 0
    &&& r.running == count_of(m, "sglang:num_running_reqs"@)
    &&& r.waiting == count_of(m, "sglang:num_queue_reqs"@)
    &&& r.used_tokens == count_of(m, "sglang:num_used_tokens"@)
    &&& r.total_tokens == count_of(m, "sglang:max_total_num_tokens"@)
    &&& r.token_usage == k.token_usage
    &&& r.gen_throughput == e.gen_throughput
    &&& r.cache_hit_rate == k.cache_hit_rate
    &&& r.utilization == e.utilization
    &&& r.spec_accept_length == first_val(m, "sglang:spec_accept_length"@)
    &&& r.spec_accept_rate == first_val(m, "sglang:spec_accept_rate"@)
    &&& carried(
        r.gen_series,
        if was.len() > 0 && was[0].dp_rank == 0 {
            Some(was[0])
        } else {
            None
        },
        r.gen_throughput,
    )
}

/// The row of one rank after a scrape. Its history is that of the rank's own row
/// before, behind the aggregate.
pub open spec fn rank_built<N: Num>(
    r: RankRow<N>,
    rank: u32,
    was: Seq<RankRow<N>>,
    m: Seq<SampleView<N>>,
) -> bool {
    &&& r.dp_rank == rank
    &&& r.running == rank_count(m, "sglang:num_running_reqs"@, rank)
    &&& r.waiting == rank_count(m, "sglang:num_queue_reqs"@, rank)
    &&& r.used_tokens == rank_count(m, "sglang:num_used_tokens"@, rank)
    &&& r.total_tokens == rank_count(m, "sglang:max_total_num_tokens"@, rank)
    &&& r.token_usage == or_zero(rank_value(m, "sglang:token_usage"@, rank))
    &&& r.gen_throughput == or_zero(rank_value(m, "sglang:gen_throughput"@, rank))
    &&& r.cache_hit_rate == or_zero(rank_value(m, "sglang:cache_hit_rate"@, rank))
    &&& r.utilization == rank_value(m, "sglang:utilization"@, rank)
    &&& r.spec_accept_length == rank_value(m, "sglang:spec_accept_length"@, rank)
    &&& r.spec_accept_rate == rank_value(m, "sglang:spec_accept_rate"@, rank)
    &&& carried(r.gen_series, own_row(was, rank), r.gen_throughput)
}

/// The rows after a scrape: the aggregate, then one for each rank it shows.
pub open spec fn rows_built<N: Num>(
    rows: Seq<RankRow<N>>,
    was: Seq<RankRow<N>>,
    m: Seq<SampleView<N>>,
    per_rank: bool,
    e: EnginePanel<N>,
    k: KvPanel<N>,
) -> bool {
    let ranks = shown_ranks(m, per_rank);
    &&& rows.len() == 1 + ranks.len()
    &&& agg_built(rows[0], was, m, e, k)
    &&& forall|i: int|
        0 <= i < ranks.len() ==> rank_built(#[trigger] rows[i + 1], ranks[i], was, m)
}

/// The history of `prior` with one more sample.
fn carry<N: Num>(prior: Option<&RankRow<N>>, v: N) -> (r: Ring<N>)
    ensures
        carried(
            r,
            match prior {
                Some(row) => Some(*row),
                None => None,
            },
            v,
        ),
{
    match prior {
        Some(row) => {
            let mut ring = row.gen_series.clone();
            ring.push(v);
            ring
        },
        None => {
            let mut ring: Ring<N> = Ring::new(HIST_CAP);
            ring.push(v);
            assert(ring@ =~= seq![v]);
            ring
        },
    }
}

/// The row of a rank behind the aggregate.
fn find_row<N>(rows: &Vec<RankRow<N>>, rank: u32) -> (r: Option<&RankRow<N>>)
    ensures
        own_row(rows@, rank) == (match r {
            Some(row) => Some(*row),
            None => None,
        }),
{
    let n: usize = rows.len();
    if n == 0 {
        return None;
    }
    let mut i: usize = 1;
    assert(rows@.skip(1) =~= rows@.drop_first());
    while i < n
        invariant
            i <= n,
            n == rows@.len(),
            0 < n,
            own_row(rows@, rank) == row_of(rows@.skip(i as int), rank),
        decreases n - i,
    {
        assert(rows@.skip(i as int).drop_first() =~= rows@.skip(i + 1));
        if rows[i].dp_rank == rank {
            return Some(&rows[i]);
        }
        i += 1;
    }
    None
}

fn build_agg<N: Num>(
    m: &Metrics<N>,
    was: &Vec<RankRow<N>>,
    e: &EnginePanel<N>,
    k: &KvPanel<N>,
) -> (r: RankRow<N>)
    ensures
        agg_built(r, was@, m@, *e, *k),
{
    let prior = if was.len() > 0 && was[0].dp_rank == 0 {
        Some(&was[0])
    } else {
        None
    };
    RankRow {
        dp_rank: 0,
        running: read_count(m, "sglang:num_running_reqs"),
        waiting: read_count(m, "sglang:num_queue_reqs"),
        used_tokens: read_count(m, "sglang:num_used_tokens"),
        total_tokens: read_count(m, "sglang:max_total_num_tokens"),
        token_usage: k.token_usage,
        gen_throughput: e.gen_throughput,
        cache_hit_rate: k.cache_hit_rate,
        utilization: e.utilization,
        spec_accept_length: read_first(m, "sglang:spec_accept_length"),
        spec_accept_rate: read_first(m, "sglang:spec_accept_rate"),
        gen_series: carry(prior, e.gen_throughput),
    }
}

fn build_rank<N: Num>(m: &Metrics<N>, was: &Vec<RankRow<N>>, rank: u32) -> (r: RankRow<N>)
    ensures
        rank_built(r, rank, was@, m@),
{
    let gen_throughput = value_or_zero(read_rank(m, "sglang:gen_throughput", rank));
    RankRow {
        dp_rank: rank,
        running: read_rank_count(m, "sglang:num_running_reqs", rank),
        waiting: read_rank_count(m, "sglang:num_queue_reqs", rank),
        used_tokens: read_rank_count(m, "sglang:num_used_tokens", rank),
        total_tokens: read_rank_count(m, "sglang:max_total_num_tokens", rank),
        token_usage: value_or_zero(read_rank(m, "sglang:token_usage", rank)),
        gen_throughput,
        cache_hit_rate: value_or_zero(read_rank(m, "sglang:cache_hit_rate", rank)),
        utilization: read_rank(m, "sglang:utilization", rank),
        spec_accept_length: read_rank(m, "sglang:spec_accept_length", rank),
        spec_accept_rate: read_rank(m, "sglang:spec_accept_rate", rank),
        gen_series: carry(find_row(was, rank), gen_throughput),
    }
}

/// One aggregate row and one row per visible rank.
pub fn build_ranks<N: Num>(
    m: &Metrics<N>,
    per_rank: bool,
    e: &EnginePanel<N>,
    k: &KvPanel<N>,
    was: &Vec<RankRow<N>>,
) -> (r: Vec<RankRow<N>>)
    ensures
        rows_built(r@, was@, m@, per_rank, *e, *k),
{
    let ranks = read_ranks(m, per_rank);
    let mut rows: Vec<RankRow<N>> = Vec::new();
    rows.push(build_agg(m, was, e, k));
    let n: usize = ranks.len();
    let mut i: usize = 0;
    while i < n
        invariant
            i <= n,
            n == ranks@.len(),
            rows@.len() == i + 1,
            agg_built(rows@[0], was@, m@, *e, *k),
            forall|j: int|
                0 <= j < i ==> rank_built(#[trigger] rows@[j + 1], ranks@[j], was@, m@),
        decreases n - i,
    {
        rows.push(build_rank(m, was, ranks[i]));
        i += 1;
    }
    rows
}

/// The ranks stand in strictly ascending order.
pub open spec fn ascending(s: Seq<u32>) -> bool {
    forall|i: int, j: int| 0 <= i < j < s.len() ==> s[i] < s[j]
}

proof fn with_rank_ascends(s: Seq<u32>, r: u32)
    requires
        ascending(s),
    ensures
        ascending(with_rank(s, r)),
        with_rank(s, r).len() > 0,
        s.len() > 0 ==> with_rank(s, r).last() == if s.last() < r {
            r
        } else {
            s.last()
        },
        s.len() == 0 ==> with_rank(s, r).last() == r,
    decreases s.len(),
{
    if s.len() > 0 && s.last() > r {
        with_rank_ascends(s.drop_last(), r);
    }
}

/// The rows behind the aggregate stand by ascending rank, each rank once.
pub proof fn rank_rows_ascend<N>(s: Seq<SampleView<N>>)
    ensures
        ascending(ranks_in(s)),
    decreases s.len(),
{
    if s.len() > 0 {
        rank_rows_ascend(s.drop_last());
        if let Some(r) = rank_of(s.last()) {
            with_rank_ascends(ranks_in(s.drop_last()), r as u32);
        }
    }
}

}
