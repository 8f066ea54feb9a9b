//! How far meters and graphs rise.
use crate::num::{at_most, ceiling_spec, unit_spec, Num, Ordered, MOST_WHOLE};
use crate::poll::percentiles::{at_most_chains, at_most_itself, less_is_at_most};
use crate::ui::cells::ink;
use crate::ui::theme::Theme;
use crate::ui::widgets::block::steps;
use crate::ui::widgets::meter::{filled, meter_line};
use vstd::prelude::*;

verus! {

/// Values whose whole part and whose rounding ascend with them.
pub trait Rounded: Ordered {
    /// A larger value has no smaller whole part, nor is it rounded to less.
    proof fn wholes_ascend(a: Self, b: Self)
        requires
            at_most(a, b),
        ensures
            a.to_count_spec() <= b.to_count_spec(),
            at_most(a.round_spec(), b.round_spec()),
    ;

    /// A count is rounded to itself.
    proof fn counts_are_round(n: u64)
        requires
            n <= MOST_WHOLE,
        ensures
            Self::of_count_spec(n).round_spec() == Self::of_count_spec(n),
    ;

    /// Nought times or over a value is nought.
    proof fn nought_stays(b: Self)
        requires
            at_most(Self::zero_spec(), b),
            b.is_finite_spec(),
        ensures
            Self::zero_spec().times_spec(b) == Self::zero_spec(),
            Self::zero_spec().less_spec(b) ==> Self::zero_spec().over_spec(b) == Self::zero_spec(),
            Self::zero_spec().round_spec() == Self::zero_spec(),
    ;
}

impl Rounded for i64 {
    proof fn wholes_ascend(a: Self, b: Self) {
    }

    proof fn counts_are_round(n: u64) {
    }

    proof fn nought_stays(b: Self) {
        assert(0 * b == 0);
        if b > 0 {
            assert(0int / (b as int) == 0) by (nonlinear_arith)
                requires
                    b > 0,
            ;
        }
    }
}

// ---- meters ----

proof fn units_ascend<N: Ordered>(a: N, b: N)
    requires
        at_most(a, b),
    ensures
        at_most(unit_spec(a), unit_spec(b)),
        at_most(N::zero_spec(), unit_spec(a)),
        at_most(unit_spec(a), N::of_count_spec(1)),
        unit_spec(a).is_finite_spec(),
{
    let (zero, one) = (N::zero_spec(), N::of_count_spec(1));
    N::counts_are_numbers(0);
    N::counts_are_numbers(1);
    N::nan_spreads(zero, one);
    N::nan_spreads(one, zero);
    at_most_itself(zero);
    at_most_itself(one);
    less_is_at_most(zero, one);
    if a.less_spec(zero) {
        if !b.less_spec(zero) && !one.less_spec(b) {
            assert(at_most(zero, b));
        }
    } else if one.less_spec(a) {
        if b.less_spec(zero) {
            N::less_transitive(b, zero, one);
            N::less_transitive(b, one, a);
        } else if !one.less_spec(b) {
            N::less_splits(one, b, a);
        }
    } else {
        N::between_is_finite(zero, a, one);
        if b.less_spec(zero) {
            N::less_splits(b, a, zero);
        }
    }
}

proof fn ceilings_ascend<N: Rounded>(a: N, b: N, most: u64)
    requires
        at_most(a, b),
    ensures
        ceiling_spec(a, most) <= ceiling_spec(b, most),
{
    N::wholes_ascend(a, b);
    let n = a.to_count_spec();
    if n == b.to_count_spec() && N::of_count_spec(n).less_spec(a) {
        N::less_splits(N::of_count_spec(n), b, a);
    }
}

/// A meter is empty at nought, full from one on, and never gets shorter as the share grows;
/// the cells behind those that are filled have the colour of the ground.
pub proof fn meters_follow_the_share<N: Rounded>(
    a: N,
    b: N,
    width: u64,
    family: Seq<char>,
    th: Theme,
    i: int,
)
    requires
        at_most(a, b),
        width <= MOST_WHOLE,
    ensures
        filled(a, width) <= filled(b, width) <= width,
        at_most(b, N::zero_spec()) ==> filled(b, width) == 0,
        at_most(N::of_count_spec(1), a) ==> filled(a, width) == width,
        meter_line(a, width as nat, family, th).len() == width,
        filled(a, width) <= i < width ==> meter_line(a, width as nat, family, th)[i].style == ink(
            th.color("meter_bg"@),
        ),
{
    let (zero, one, w) = (N::zero_spec(), N::of_count_spec(1), N::of_count_spec(width));
    let (x, y) = (unit_spec(a), unit_spec(b));
    N::counts_are_numbers(0);
    N::counts_are_numbers(1);
    N::counts_are_numbers(width);
    N::nan_spreads(zero, one);
    at_most_itself(zero);
    at_most_itself(one);
    at_most_itself(b);
    units_ascend(a, b);
    units_ascend(b, b);
    N::nan_spreads(x, w);
    N::nan_spreads(y, w);
    N::results_ascend(x, y, w);
    ceilings_ascend(x.times_spec(w), y.times_spec(w), width);
    N::nought_stays(w);
    N::one_is_neutral(w);
    if at_most(b, zero) {
        if one.less_spec(b) {
            N::less_transitive(zero, one, b);
        }
        N::results_ascend(y, zero, w);
        N::nan_spreads(zero, w);
        ceilings_ascend(y.times_spec(w), zero, width);
    }
    if at_most(one, a) {
        if a.less_spec(zero) {
            N::less_transitive(a, zero, one);
        }
        N::results_ascend(one, x, w);
        N::nan_spreads(one, w);
        ceilings_ascend(w, x.times_spec(w), width);
    }
}

// ---- graphs ----

/// A sample at the top of the scale rises all the way, one of nought not at all, and a larger
/// sample never rises less.
pub proof fn graphs_follow_the_samples<N: Rounded>(a: N, b: N, max: N, n: u64)
    requires
        at_most(N::zero_spec(), a),
        at_most(a, b),
        at_most(b, max),
        N::zero_spec().less_spec(max),
        max.is_finite_spec(),
        n <= MOST_WHOLE,
    ensures
        steps(N::zero_spec(), max, n) == 0,
        steps(a, max, n) <= steps(b, max, n) <= n,
        steps(max, max, n) == n,
{
    let (zero, one, w) = (N::zero_spec(), N::of_count_spec(1), N::of_count_spec(n));
    N::counts_are_numbers(0);
    N::counts_are_numbers(1);
    N::counts_are_numbers(n);
    N::counts_are_round(n);
    N::one_is_neutral(max);
    N::one_is_neutral(w);
    less_is_at_most(zero, max);
    N::nought_stays(max);
    N::nought_stays(w);
    at_most_chains(a, b, max);
    at_most_chains(zero, a, b);
    N::between_is_finite(zero, a, max);
    N::between_is_finite(zero, b, max);
    let (x, y) = (a.over_spec(max), b.over_spec(max));
    N::finite_results(a, max);
    N::finite_results(b, max);
    N::finite_results(max, max);
    N::results_ascend(a, b, max);
    N::results_ascend(a, max, max);
    N::results_ascend(b, max, max);
    N::signs_stay(a, max);
    N::signs_stay(b, max);
    N::nan_spreads(one, one);
    N::between_is_finite(zero, x, one);
    N::between_is_finite(zero, y, one);
    N::nan_spreads(x, w);
    N::nan_spreads(y, w);
    N::results_ascend(x, y, w);
    N::wholes_ascend(x.times_spec(w), y.times_spec(w));
    N::wholes_ascend(x.times_spec(w).round_spec(), y.times_spec(w).round_spec());
}

}
