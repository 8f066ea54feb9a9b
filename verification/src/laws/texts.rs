//! How numbers are written.
use crate::binary::{narrowed, nearest, refined};
use crate::laws::order::counts_ascend;
use crate::laws::scales::Rounded;
use crate::num::{Num, Ordered, MOST_WHOLE};
use crate::poll::percentiles::at_most_itself;
use crate::text::{decimal_text, digit_char};
use crate::ui::panels::human::{count_text, duration_text, hundredths_text, pct_text,
    rate_frac_text, rate_text, thousands, two_digits};
use vstd::prelude::*;

verus! {

/// A count below a thousand is written out.
pub proof fn small_counts_are_written_out(v: u64)
    requires
        v < 1000,
    ensures
        count_text(v) == decimal_text(v as nat),
{
    let top: nat = 0x10_0000_0000_0000;
    refining_keeps_the_value(v as nat, 1, top);
    let (m, p) = narrowed(v as nat, 1, 1, top);
    assert(v * p < 1000 * p) by (nonlinear_arith)
        requires
            v < 1000,
            p > 0,
    ;
    assert(thousands(m, p, 0) == (m, p, 0nat));
}

/// A whole number is refined to the same number with more binary places.
proof fn refining_keeps_the_value(a: nat, p: nat, top: nat)
    requires
        p > 0,
    ensures
        refined(a, 1, p, top).0 * p == a * refined(a, 1, p, top).1,
        refined(a, 1, p, top).1 > 0,
    decreases
            if a < top {
                (top - a) as nat
            } else {
                0
            },
{
    let r = refined(a, 1, p, top);
    if a == 0 || a >= 1 * top {
        assert(a / 1 == a && a % 1 == 0);
        assert(nearest(a, 1) == a);
    } else {
        refining_keeps_the_value(2 * a, 2 * p, top);
        assert(r.0 * p == a * r.1) by (nonlinear_arith)
            requires
                r.0 * (2 * p) == (2 * a) * r.1,
        ;
    }
}

// ---- spans of time ----

/// A number below a hundred with two digits.
pub open spec fn in_two(n: nat) -> Seq<char> {
    if n < 10 {
        decimal_text(0) + decimal_text(n)
    } else {
        decimal_text(n)
    }
}

proof fn two_digits_are(n: nat)
    requires
        n < 100,
    ensures
        two_digits(n as int) == in_two(n),
{
    let t = two_digits(n as int);
    if n < 10 {
        assert(t =~= decimal_text(0) + decimal_text(n));
    } else {
        assert(decimal_text(n / 10) == seq![digit_char((n / 10) as int)]);
        assert(t =~= decimal_text(n));
    }
}

/// Whole seconds are written as seconds below a minute, as minutes and seconds below an hour,
/// else as hours and minutes; the parts make up the whole.
pub proof fn durations_make_up_the_seconds<N: Rounded>(h: nat, m: nat, s: nat)
    requires
        m < 60,
        s < 60,
        0 < 3600 * h + 60 * m + s <= MOST_WHOLE,
    ensures
        ({
            let t = duration_text(N::of_count_spec((3600 * h + 60 * m + s) as u64));
            &&& h == 0 && m == 0 ==> t == decimal_text(s) + "s"@
            &&& h == 0 && m > 0 ==> t == decimal_text(m) + "m"@ + in_two(s) + "s"@
            &&& h > 0 ==> t == decimal_text(h) + "h"@ + in_two(m) + "m"@
        }),
{
    let n = (3600 * h + 60 * m + s) as u64;
    N::counts_are_numbers(n);
    N::counts_are_numbers(1);
    N::counts_are_round(n);
    N::nan_spreads(N::of_count_spec(1), N::of_count_spec(1));
    at_most_itself(N::of_count_spec(1));
    if n > 1 {
        counts_ascend::<N>(1, n);
    }
    two_digits_are(s);
    two_digits_are(m);
    if h == 0 {
        assert((n as int) / 60 == m && (n as int) % 60 == s) by (nonlinear_arith)
            requires
                n == 60 * m + s,
                s < 60,
        ;
    } else {
        let r = 60 * m + s;
        assert((n as int) / 3600 == h && (n as int) % 3600 == r) by (nonlinear_arith)
            requires
                n == 3600 * h + r,
                r == 60 * m + s,
                m < 60,
                s < 60,
        ;
        assert((r as int) / 60 == m) by (nonlinear_arith)
            requires
                r == 60 * m + s,
                s < 60,
        ;
    }
}

/// A span below a second is written in milliseconds.
pub proof fn short_spans_are_milliseconds<N: Num>(v: N)
    requires
        v.less_spec(N::of_count_spec(1)),
    ensures
        duration_text(v) == v.times_spec(N::of_count_spec(1000)).round_spec().shown_spec() + "ms"@,
{
}

/// A rate is written as its whole part; one that is below a thousand is written out.
pub proof fn small_rates_are_written_out<N: Ordered>(n: u64)
    requires
        n < 1000,
    ensures
        rate_text(N::of_count_spec(n)) == decimal_text(n as nat),
        pct_text(N::of_count_spec(1)) == N::of_count_spec(100).fixed_spec(0) + "%"@,
{
    N::counts_are_numbers(n);
    small_counts_are_written_out(n);
    N::counts_are_numbers(100);
    N::one_is_neutral(N::of_count_spec(100));
}

/// A rate below a hundred keeps one decimal and is a count from there on; a share is written
/// in hundredths, without a fraction.
pub proof fn rates_and_shares_keep_their_digits<N: Num>(v: N)
    ensures
        v.less_spec(N::of_count_spec(100)) ==> rate_frac_text(v) == v.fixed_spec(1),
        !v.less_spec(N::of_count_spec(100)) ==> rate_frac_text(v) == count_text(v.to_count_spec()),
        rate_text(v) == count_text(v.to_count_spec()),
        pct_text(v) == v.times_spec(N::of_count_spec(100)).fixed_spec(0) + "%"@,
        hundredths_text(v) + "%"@ == pct_text(v),
{
}

}
