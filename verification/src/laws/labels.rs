//! What labels say: ranks, routes and errors.
use crate::laws::fields::{counts_where, wholes_where};
use crate::model::snapshot::{EnginePanel, KvPanel, RankRow};
use crate::num::{unit_spec, Num, Ordered, MOST_WHOLE};
use crate::poll::panels::bandwidth;
use crate::poll::prom::{named, SampleView};
use crate::poll::ranks::{rank_built, rank_of, ranks_in, rows_built, shown_ranks, with_rank};
use crate::poll::read::{chosen, counted, is_error, labelled, own_polling};
use crate::poll::rate::sum_all;
use crate::poll::traffic::{is_hit, rates_where, route_of, window_share};
use crate::text::{decimal_text, digit_char, digits_count, has_suffix, parsed_count, unsigned};
use vstd::prelude::*;

verus! {

// ---- numbers ----

proof fn digits_stand_for_themselves(d: int)
    requires
        0 <= d < 10,
    ensures
        '0' <= digit_char(d) <= '9',
        digit_char(d) as int - '0' as int == d,
{
}

proof fn decimal_is_counted(n: nat)
    ensures
        digits_count(decimal_text(n)) == Some(n),
        decimal_text(n).len() > 0,
        '0' <= decimal_text(n)[0] <= '9',
    decreases n,
{
    let t = decimal_text(n);
    if n < 10 {
        digits_stand_for_themselves(n as int);
        assert(t.drop_last() =~= Seq::empty());
        assert(digits_count(t.drop_last()) == Some(0nat));
    } else {
        decimal_is_counted(n / 10);
        digits_stand_for_themselves((n % 10) as int);
        assert(t.drop_last() =~= decimal_text(n / 10));
        assert(t[0] == decimal_text(n / 10)[0]);
    }
}

/// A number is read back from its decimal text.
pub proof fn decimals_are_read_back(n: nat, max: nat)
    ensures
        parsed_count(decimal_text(n), max) == if n <= max {
            Some(n)
        } else {
            None
        },
{
    decimal_is_counted(n);
    assert(unsigned(decimal_text(n)) == decimal_text(n));
}

// ---- ranks ----

proof fn with_rank_holds(s: Seq<u32>, r: u32, x: u32)
    ensures
        with_rank(s, r).contains(x) <==> x == r || s.contains(x),
    decreases s.len(),
{
    let w = with_rank(s, r);
    if s.len() == 0 || s.last() < r {
        assert(w == s.push(r));
        assert(w[s.len() as int] == r);
        if s.contains(x) {
            let i = choose|i: int| 0 <= i < s.len() && s[i] == x;
            assert(w[i] == x);
        }
        if w.contains(x) && x != r {
            let i = choose|i: int| 0 <= i < w.len() && w[i] == x;
            assert(s[i] == x);
        }
    } else if s.last() == r {
        assert(s[s.len() - 1] == r);
    } else {
        let d = s.drop_last();
        with_rank_holds(d, r, x);
        let v = with_rank(d, r);
        assert(w == v.push(s.last()));
        assert(w[v.len() as int] == s.last());
        assert(s[s.len() - 1] == s.last());
        if v.contains(x) {
            let i = choose|i: int| 0 <= i < v.len() && v[i] == x;
            assert(w[i] == x);
        }
        if d.contains(x) {
            let i = choose|i: int| 0 <= i < d.len() && d[i] == x;
            assert(s[i] == x);
        }
        if s.contains(x) && x != s.last() {
            let i = choose|i: int| 0 <= i < s.len() && s[i] == x;
            assert(d[i] == x);
        }
        if w.contains(x) && x != s.last() {
            let i = choose|i: int| 0 <= i < w.len() && w[i] == x;
            assert(v[i] == x);
        }
    }
}

proof fn ranks_are_found<N>(s: Seq<SampleView<N>>, r: u32)
    ensures
        ranks_in(s).contains(r) <==> exists|i: int|
            0 <= i < s.len() && rank_of(#[trigger] s[i]) == Some(r as nat),
    decreases s.len(),
{
    if s.len() > 0 {
        let d = s.drop_last();
        ranks_are_found(d, r);
        let last = s[s.len() - 1];
        if exists|i: int| 0 <= i < d.len() && rank_of(#[trigger] d[i]) == Some(r as nat) {
            let i = choose|i: int| 0 <= i < d.len() && rank_of(#[trigger] d[i]) == Some(r as nat);
            assert(s[i] == d[i]);
        }
        if exists|i: int| 0 <= i < s.len() && rank_of(#[trigger] s[i]) == Some(r as nat) {
            let i = choose|i: int| 0 <= i < s.len() && rank_of(#[trigger] s[i]) == Some(r as nat);
            if i < d.len() {
                assert(d[i] == s[i]);
            }
        }
        if let Some(n) = rank_of(last) {
            with_rank_holds(ranks_in(d), n as u32, r);
            assert(n <= u32::MAX);
        }
    }
}

/// Whether a sample of running requests is attributed to the rank.
pub open spec fn runs_on<N>(m: Seq<SampleView<N>>, r: u32) -> bool {
    exists|i: int|
        0 <= i < m.len() && (#[trigger] m[i]).name == "sglang:num_running_reqs"@ && m[i].label(
            "dp_rank"@,
        ) == Some(decimal_text(r as nat))
}

/// Every rank that a sample of running requests is attributed to has a row of its own, where
/// ranks are told apart.
pub proof fn running_ranks_have_rows<N: Num>(
    rows: Seq<RankRow<N>>,
    was: Seq<RankRow<N>>,
    m: Seq<SampleView<N>>,
    e: EnginePanel<N>,
    k: KvPanel<N>,
    r: u32,
)
    requires
        rows_built(rows, was, m, true, e, k),
        runs_on(m, r),
    ensures
        exists|n: int| 1 <= n < rows.len() && (#[trigger] rows[n]).dp_rank == r,
{
    let name = "sglang:num_running_reqs"@;
    let own = named(m, name);
    let i = choose|i: int|
        0 <= i < m.len() && (#[trigger] m[i]).name == name && m[i].label("dp_rank"@) == Some(
            decimal_text(r as nat),
        );
    crate::laws::fields::sample_is_named(m, name, i);
    let j = choose|j: int| 0 <= j < own.len() && own[j] == m[i];
    decimals_are_read_back(r as nat, u32::MAX as nat);
    assert(rank_of(own[j]) == Some(r as nat));
    ranks_are_found(own, r);
    let ranks = shown_ranks(m, true);
    assert(ranks.contains(r));
    let n = choose|n: int| 0 <= n < ranks.len() && ranks[n] == r;
    assert(rank_built(rows[n + 1], ranks[n], was, m));
    assert(rows[n + 1].dp_rank == r);
}

/// Where ranks are not told apart there is the aggregate row alone.
pub proof fn aggregated_ranks_have_one_row<N: Num>(
    rows: Seq<RankRow<N>>,
    was: Seq<RankRow<N>>,
    m: Seq<SampleView<N>>,
    e: EnginePanel<N>,
    k: KvPanel<N>,
)
    requires
        rows_built(rows, was, m, false, e, k),
    ensures
        rows.len() == 1,
{
}

// ---- routes ----

/// A response is an error from the status 400 on.
pub proof fn errors_start_at_four_hundred<N>(x: SampleView<N>, n: nat)
    requires
        x.label("status_code"@) == Some(decimal_text(n)),
        n <= 65535,
    ensures
        is_error(x) <==> n >= 400,
{
    decimals_are_read_back(n, 65535);
}

proof fn counted_where<N: Num>(s: Seq<SampleView<N>>)
    requires
        counts_where(s, |x: SampleView<N>| true) <= MOST_WHOLE,
    ensures
        counted(s) == counts_where(s, |x: SampleView<N>| true),
    decreases s.len(),
{
    if s.len() > 0 {
        counted_where(s.drop_last());
    }
}

/// The requests and the failures of a route are those that its samples count.
pub proof fn routes_count_their_own<N: Ordered>(
    m: Seq<SampleView<N>>,
    rates: Seq<Option<N>>,
    path: Seq<char>,
)
    requires
        path != "/metrics"@,
    ensures
        ({
            let served = |x: SampleView<N>|
                x.name == "sglang:http_requests_total"@ && x.label("endpoint"@) == Some(path);
            let failed = |x: SampleView<N>|
                x.name == "sglang:http_responses_total"@ && x.label("endpoint"@) == Some(path)
                    && is_error(x);
            let r = route_of(m, rates, path);
            &&& r.path == path
            &&& wholes_where(m, served) ==> r.total == counts_where(m, served)
            &&& wholes_where(m, failed) ==> r.err == counts_where(m, failed)
        }),
{
    let served = |x: SampleView<N>|
        x.name == "sglang:http_requests_total"@ && x.label("endpoint"@) == Some(path);
    let failed = |x: SampleView<N>|
        x.name == "sglang:http_responses_total"@ && x.label("endpoint"@) == Some(path) && is_error(
            x,
        );
    let p = |x: SampleView<N>| labelled(x, "endpoint"@, path);
    if wholes_where(m, served) {
        twice_chosen(
            m,
            "sglang:http_requests_total"@,
            |x: SampleView<N>| !own_polling(x),
            p,
            served,
        );
    }
    if wholes_where(m, failed) {
        twice_chosen(
            m,
            "sglang:http_responses_total"@,
            |x: SampleView<N>| !own_polling(x) && is_error(x),
            p,
            failed,
        );
    }
}

proof fn twice_chosen<N: Num>(
    m: Seq<SampleView<N>>,
    name: Seq<char>,
    q: spec_fn(SampleView<N>) -> bool,
    p: spec_fn(SampleView<N>) -> bool,
    all: spec_fn(SampleView<N>) -> bool,
)
    requires
        forall|x: SampleView<N>| #[trigger] all(x) <==> x.name == name && q(x) && p(x),
        counts_where(m, all) <= MOST_WHOLE,
    ensures
        counted(chosen(m, name, q).filter(p)) == counts_where(m, all),
{
    let n = |x: SampleView<N>| x.name == name;
    let yes = |x: SampleView<N>| true;
    let own = named(m, name);
    assert(own == m.filter(n));
    let r = own.filter(q);
    let a = |x: SampleView<N>| p(x) && yes(x);
    let b = |x: SampleView<N>| q(x) && a(x);
    let c = |x: SampleView<N>| n(x) && b(x);
    crate::laws::fields::filter_counts(r, p, yes);
    crate::laws::fields::filter_counts(own, q, a);
    crate::laws::fields::filter_counts(m, n, b);
    assert forall|x: SampleView<N>| #[trigger] c(x) <==> all(x) by {
        assert(all(x) <==> x.name == name && q(x) && p(x));
    }
    crate::laws::fields::counts_where_same(m, c, all);
    counted_where(r.filter(p));
}

// ---- shares ----

/// The share of the window is that of the rates of the hits among all rates, held to the
/// unit; it is known once every one of them is, and something flows.
pub proof fn window_share_is_hits_among_all<N: Num>(s: Seq<SampleView<N>>, rates: Seq<Option<N>>)
    ensures
        ({
            let hits = rates_where(
                s,
                rates,
                |x: SampleView<N>| x.label("mode"@) matches Some(t) && has_suffix(t, "_hit"@),
            );
            sum_all(rates) matches Some(all) ==> sum_all(hits) matches Some(hit) ==> window_share(
                s,
                rates,
            ) == if N::zero_spec().less_spec(all) {
                Some(unit_spec(hit.over_spec(all)))
            } else {
                None
            }
        }),
        sum_all(rates) is None ==> window_share(s, rates) is None,
{
    let p = |x: SampleView<N>| x.label("mode"@) matches Some(t) && has_suffix(t, "_hit"@);
    let q = |x: SampleView<N>| is_hit(x);
    rates_where_same(s, rates, p, q);
}

proof fn rates_where_same<N: Num>(
    s: Seq<SampleView<N>>,
    rates: Seq<Option<N>>,
    p: spec_fn(SampleView<N>) -> bool,
    q: spec_fn(SampleView<N>) -> bool,
)
    requires
        forall|x: SampleView<N>| #[trigger] p(x) <==> q(x),
    ensures
        rates_where(s, rates, p) == rates_where(s, rates, q),
    decreases s.len(),
{
    if s.len() > 0 {
        rates_where_same(s.drop_last(), rates, p, q);
        assert(p(s.last()) <==> q(s.last()));
    }
}

/// The bandwidth of a copy is its bytes over the time that was spent on it, where any was.
pub proof fn bandwidth_is_bytes_over_time<N: Num>(bytes: N, secs: N)
    ensures
        N::zero_spec().less_spec(secs) ==> bandwidth(Some(bytes), Some(secs)) == Some(
            bytes.over_spec(secs),
        ),
        !N::zero_spec().less_spec(secs) ==> bandwidth(Some(bytes), Some(secs)) is None,
        bandwidth(None, Some(secs)) is None,
        bandwidth(Some(bytes), None) is None,
{
}

}
