//! The rows of the rank table stand by the column that is chosen.
use crate::model::snapshot::RankRow;
use crate::num::{at_most, Num, Ordered, MOST_WHOLE};
use crate::poll::percentiles::{at_most_itself, less_is_at_most};
use crate::ui::widgets::table::{order_is_sorted, order_of, order_shows_every_row_once, SortCol};
use vstd::prelude::*;

verus! {

/// A smaller count has a smaller value.
pub(crate) proof fn counts_ascend<N: Ordered>(a: u64, b: u64)
    requires
        a < b <= MOST_WHOLE,
    ensures
        N::of_count_spec(a).less_spec(N::of_count_spec(b)),
        !N::of_count_spec(b).less_spec(N::of_count_spec(a)),
{
    let (x, y) = (N::of_count_spec(a), N::of_count_spec(b));
    let d = (b - a) as u64;
    N::counts_are_numbers(a);
    N::counts_are_numbers(b);
    N::counts_are_numbers(d);
    N::counts_add_up(d, a);
    N::counts_add_up(0, a);
    N::nan_spreads(x, x);
    N::nan_spreads(y, y);
    N::nan_spreads(N::of_count_spec(d), N::of_count_spec(d));
    N::nan_spreads(N::zero_spec(), N::zero_spec());
    if !x.less_spec(y) {
        assert(at_most(y, x));
        N::results_ascend(y, x, x);
        assert(at_most(N::of_count_spec(d), N::zero_spec()));
    }
    less_is_at_most(x, y);
}

/// Whether of two values that stand one behind the other neither is out of place.
pub open spec fn in_place<N: Num>(first: N, second: N, reverse: bool) -> bool {
    if reverse {
        !first.less_spec(second)
    } else {
        !second.less_spec(first)
    }
}

/// Whether of two counts that stand one behind the other neither is out of place.
pub open spec fn count_in_place(first: u64, second: u64, reverse: bool) -> bool {
    if reverse {
        first >= second
    } else {
        first <= second
    }
}

/// The columns of values: behind the aggregate row the rows stand by ascending value of
/// the chosen column, by descending value when reversed. Rows of which a column is not
/// known stand last either way.
pub proof fn rows_stand_by_value<N: Num>(ranks: Seq<RankRow<N>>, reverse: bool, i: int, j: int)
    requires
        ranks.len() <= usize::MAX,
        1 <= i < j < ranks.len(),
        forall|k: int|
            0 <= k < ranks.len() ==> {
                &&& !(#[trigger] ranks[k]).token_usage.is_nan_spec()
                &&& !ranks[k].gen_throughput.is_nan_spec()
                &&& !ranks[k].cache_hit_rate.is_nan_spec()
                &&& ranks[k].utilization matches Some(v) ==> !v.is_nan_spec()
            },
    ensures
        in_place(
            ranks[order_of(ranks, SortCol::Usage, reverse)[i] as int].token_usage,
            ranks[order_of(ranks, SortCol::Usage, reverse)[j] as int].token_usage,
            reverse,
        ),
        in_place(
            ranks[order_of(ranks, SortCol::Gen, reverse)[i] as int].gen_throughput,
            ranks[order_of(ranks, SortCol::Gen, reverse)[j] as int].gen_throughput,
            reverse,
        ),
        in_place(
            ranks[order_of(ranks, SortCol::Hit, reverse)[i] as int].cache_hit_rate,
            ranks[order_of(ranks, SortCol::Hit, reverse)[j] as int].cache_hit_rate,
            reverse,
        ),
        match (
            ranks[order_of(ranks, SortCol::Util, reverse)[i] as int].utilization,
            ranks[order_of(ranks, SortCol::Util, reverse)[j] as int].utilization,
        ) {
            (Some(x), Some(y)) => in_place(x, y, reverse),
            (None, Some(_)) => false,
            _ => true,
        },
{
    assert forall|c: SortCol|
        c == SortCol::Usage || c == SortCol::Gen || c == SortCol::Hit || c
            == SortCol::Util implies #[trigger] crate::ui::widgets::table::all_numbers(
        ranks,
        c,
    ) by {}
    places(ranks, SortCol::Usage, reverse, i, j);
    places(ranks, SortCol::Gen, reverse, i, j);
    places(ranks, SortCol::Hit, reverse, i, j);
    places(ranks, SortCol::Util, reverse, i, j);
}

proof fn places<N: Num>(ranks: Seq<RankRow<N>>, c: SortCol, reverse: bool, i: int, j: int)
    requires
        ranks.len() <= usize::MAX,
        1 <= i < j < ranks.len(),
        crate::ui::widgets::table::all_numbers(ranks, c),
    ensures
        crate::ui::widgets::table::stands_before(
            ranks,
            c,
            reverse,
            order_of(ranks, c, reverse)[i] as int,
            order_of(ranks, c, reverse)[j] as int,
        ),
        forall|x: N, y: N| #[trigger] x.less_spec(y) ==> !y.less_spec(x),
{
    order_is_sorted(ranks, c, reverse);
    order_shows_every_row_once(ranks, c, reverse);
    let o = order_of(ranks, c, reverse);
    let s = o.skip(1);
    assert(s[i - 1] == o[i] && s[j - 1] == o[j]);
    assert forall|x: N, y: N| #[trigger] x.less_spec(y) implies !y.less_spec(x) by {
        N::less_asymmetric(x, y);
    }
}

/// The columns of counts: behind the aggregate row the rows stand by ascending count of
/// the chosen column, by descending count when reversed; rows of one count by their
/// number.
pub proof fn rows_stand_by_count<N: Ordered>(ranks: Seq<RankRow<N>>, reverse: bool, i: int, j: int)
    requires
        ranks.len() <= usize::MAX,
        1 <= i < j < ranks.len(),
        forall|k: int|
            0 <= k < ranks.len() ==> {
                &&& (#[trigger] ranks[k]).running <= MOST_WHOLE
                &&& ranks[k].waiting <= MOST_WHOLE
                &&& ranks[k].used_tokens <= MOST_WHOLE
            },
    ensures
        ({
            let o = order_of(ranks, SortCol::Rank, reverse);
            let (a, b) = (ranks[o[i] as int], ranks[o[j] as int]);
            &&& count_in_place(a.dp_rank as u64, b.dp_rank as u64, reverse)
            &&& a.dp_rank == b.dp_rank ==> o[i] < o[j]
        }),
        ({
            let o = order_of(ranks, SortCol::Run, reverse);
            let (a, b) = (ranks[o[i] as int], ranks[o[j] as int]);
            &&& count_in_place(a.running, b.running, reverse)
            &&& a.running == b.running ==> o[i] < o[j]
        }),
        ({
            let o = order_of(ranks, SortCol::Wait, reverse);
            let (a, b) = (ranks[o[i] as int], ranks[o[j] as int]);
            &&& count_in_place(a.waiting, b.waiting, reverse)
            &&& a.waiting == b.waiting ==> o[i] < o[j]
        }),
        ({
            let o = order_of(ranks, SortCol::Used, reverse);
            let (a, b) = (ranks[o[i] as int], ranks[o[j] as int]);
            &&& count_in_place(a.used_tokens, b.used_tokens, reverse)
            &&& a.used_tokens == b.used_tokens ==> o[i] < o[j]
        }),
{
    assert forall|n: u64| n <= MOST_WHOLE implies !(#[trigger] N::of_count_spec(n)).is_nan_spec() by {
        N::counts_are_numbers(n);
        N::nan_spreads(N::of_count_spec(n), N::of_count_spec(n));
    }
    assert forall|a: u64, b: u64| a < b <= MOST_WHOLE implies #[trigger] N::of_count_spec(
        a,
    ).less_spec(N::of_count_spec(b)) && !N::of_count_spec(b).less_spec(N::of_count_spec(a)) by {
        counts_ascend::<N>(a, b);
    }
    assert forall|a: u64| a <= MOST_WHOLE implies !(#[trigger] N::of_count_spec(a)).less_spec(
        N::of_count_spec(a),
    ) by {
        at_most_itself(N::of_count_spec(a));
    }
    places(ranks, SortCol::Rank, reverse, i, j);
    places(ranks, SortCol::Run, reverse, i, j);
    places(ranks, SortCol::Wait, reverse, i, j);
    places(ranks, SortCol::Used, reverse, i, j);
    every_place_holds_a_row(ranks, SortCol::Rank, reverse, i, j);
    every_place_holds_a_row(ranks, SortCol::Run, reverse, i, j);
    every_place_holds_a_row(ranks, SortCol::Wait, reverse, i, j);
    every_place_holds_a_row(ranks, SortCol::Used, reverse, i, j);
}

proof fn every_place_holds_a_row<N: Num>(
    ranks: Seq<RankRow<N>>,
    c: SortCol,
    reverse: bool,
    i: int,
    j: int,
)
    requires
        ranks.len() <= usize::MAX,
        0 <= i < ranks.len(),
        0 <= j < ranks.len(),
    ensures
        order_of(ranks, c, reverse)[i] < ranks.len(),
        order_of(ranks, c, reverse)[j] < ranks.len(),
{
    order_shows_every_row_once(ranks, c, reverse);
    let o = order_of(ranks, c, reverse);
    assert(o.contains(o[i]) && o.contains(o[j]));
}

}
