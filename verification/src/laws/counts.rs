//! How large counts are written.
use crate::binary::{narrowed, nearest, refined};
use crate::text::{decimal_text, digit_char};
use crate::ui::panels::human::{count_text, places_text, thousands, unit_text};
use vstd::prelude::*;

verus! {

/// How far two numbers lie apart.
pub open spec fn apart(a: int, b: int) -> int {
    if a < b {
        b - a
    } else {
        a - b
    }
}

/// A number of hundredths with a point and two digits behind it.
pub open spec fn in_hundredths(q: nat) -> Seq<char> {
    decimal_text(q / 100) + "."@ + seq![
        digit_char((q / 10 % 10) as int),
        digit_char((q % 10) as int),
    ]
}

/// A number of tenths with a point and one digit behind it.
pub open spec fn in_tenths(q: nat) -> Seq<char> {
    decimal_text(q / 10) + "."@ + seq![digit_char((q % 10) as int)]
}

/// Whether `t` writes `v` in units of `unit`, named `name`, with three digits: two behind the
/// point below ten units, one below a hundred, none from there on. `q` is what is written,
/// without its point: no other number of as many digits lies nearer to `v`.
pub open spec fn writes(t: Seq<char>, v: int, unit: int, name: Seq<char>, q: nat) -> bool {
    if v < 10 * unit {
        t == in_hundredths(q) + name && 2 * apart(q * unit, 100 * v) <= unit
    } else if v < 100 * unit {
        t == in_tenths(q) + name && 2 * apart(q * unit, 10 * v) <= unit
    } else {
        t == decimal_text(q) + name && 2 * apart(q * unit, v) <= unit
    }
}

/// From a thousand on a count is written in thousands, from a million on in millions, in
/// each case the three digits nearest to it.
pub proof fn large_counts_keep_three_digits(v: u64)
    requires
        1000 <= v < 1_000_000_000,
    ensures
        v < 1_000_000 ==> exists|q: nat| writes(count_text(v), v as int, 1000, "k"@, q),
        v >= 1_000_000 ==> exists|q: nat| writes(count_text(v), v as int, 1_000_000, "M"@, q),
{
    let top: nat = 0x10_0000_0000_0000;
    let (m0, p0) = narrowed(v as nat, 1, 1, top);
    let k0 = refining_is_close(v as nat, 1, 1, top);
    assert(m0 == v * p0);
    assert(p0 == k0);
    assert(m0 >= 1000 * p0) by (nonlinear_arith)
        requires
            m0 == v * p0,
            v >= 1000,
            p0 > 0,
    ;
    let (m1, p1) = narrowed(m0, 1000, p0, top);
    let k1 = refining_is_close(m0, 1000, p0, top);
    assert(m0 * k1 == v * p1) by (nonlinear_arith)
        requires
            m0 == v * p0,
            p1 == p0 * k1,
    ;
    assert(p1 > 1_000_000_000) by (nonlinear_arith)
        requires
            v * p1 >= 1000 * 0x10_0000_0000_0000,
            v < 1_000_000_000,
    ;
    assert(2 * apart((m1 * 1000) as int, v * p1) <= 1000);
    if v < 1_000_000 {
        assert(v * p1 <= 999_999 * p1) by (nonlinear_arith)
            requires
                v < 1_000_000,
                p1 > 0,
        ;
        assert(thousands(m1, p1, 1) == (m1, p1, 1nat));
        assert(v == 10_000 ==> v * p1 == 10_000 * p1);
        assert(v == 100_000 ==> v * p1 == 100_000 * p1);
        let q = digits_are_close(v as int, 1000, m1, p1);
        assert(writes(count_text(v), v as int, 1000, "k"@, q));
    } else {
        assert(v * p1 >= 1_000_000 * p1) by (nonlinear_arith)
            requires
                v >= 1_000_000,
                p1 > 0,
        ;
        assert(m1 >= 1000 * p1);
        let (m2, p2) = narrowed(m1, 1000, p1, top);
        assert(v * p1 <= 999_999_999 * p1) by (nonlinear_arith)
            requires
                v <= 999_999_999,
                p1 > 0,
        ;
        assert(m1 < 2 * 1000 * top);
        let k2 = refining_is_close(m1, 1000, p1, top);
        second_division_is_close(v as int, m1 as int, p1 as int, m2 as int, p2 as int, k2 as int);
        assert(thousands(m2, p2, 2) == (m2, p2, 2nat)) by {
            assert(v * p2 <= 999_999_999 * p2) by (nonlinear_arith)
                requires
                    v <= 999_999_999,
                    p2 > 0,
            ;
        }
        assert(thousands(m1, p1, 1) == (m2, p2, 2nat));
        let q = digits_are_close(v as int, 1_000_000, m2, p2);
        assert(writes(count_text(v), v as int, 1_000_000, "M"@, q));
    }
}

/// What two divisions by a thousand are away from the quotient by a million.
proof fn second_division_is_close(v: int, m1: int, p1: int, m2: int, p2: int, k: int)
    requires
        2 * apart(m1 * 1000, v * p1) <= 1000,
        2 * apart(m2 * 1000, m1 * k) <= 1000,
        p2 == p1 * k,
        k > 0,
        p1 > 1_000_000_000,
    ensures
        p2 > 1_000_000_000,
        2 * apart(m2 * 1_000_000, v * p2) <= 1_000_000 + 1000 * k,
        200 * (1_000_000 + 1000 * k) <= p2,
        v == 10_000_000 ==> m2 == 10 * p2,
        v == 100_000_000 ==> m2 == 100 * p2,
{
    assert(p2 >= 1_000_000_001 * k) by (nonlinear_arith)
        requires
            p2 == p1 * k,
            k > 0,
            p1 >= 1_000_000_001,
    ;
    let d = m1 * 1000 - v * p1;
    assert(d * k == m1 * k * 1000 - v * p2) by (nonlinear_arith)
        requires
            d == m1 * 1000 - v * p1,
            p2 == p1 * k,
    ;
    assert(-1000 * k <= 2 * (d * k) <= 1000 * k) by (nonlinear_arith)
        requires
            -1000 <= 2 * d <= 1000,
            k > 0,
    ;
    if v == 10_000_000 {
        assert(m1 == 10_000 * p1);
        assert(m1 * k == 10_000 * p2) by (nonlinear_arith)
            requires
                m1 == 10_000 * p1,
                p2 == p1 * k,
        ;
    }
    if v == 100_000_000 {
        assert(m1 == 100_000 * p1);
        assert(m1 * k == 100_000 * p2) by (nonlinear_arith)
            requires
                m1 == 100_000 * p1,
                p2 == p1 * k,
        ;
    }
}

/// The three digits that are written of `m / p`, where that is nearly `v / unit`.
proof fn digits_are_close(v: int, unit: int, m: nat, p: nat) -> (q: nat)
    requires
        p > 1_000_000_000,
        unit == 1000 || unit == 1_000_000,
        unit <= v < 1000 * unit,
        400 * apart(m * unit, v * p) <= p,
        v == 10 * unit ==> m == 10 * p,
        v == 100 * unit ==> m == 100 * p,
    ensures
        writes(
            if m < 10 * p {
                places_text(nearest(m * 100, p), 2)
            } else if m < 100 * p {
                places_text(nearest(m * 10, p), 1)
            } else {
                places_text(nearest(m, p), 0)
            } + unit_text(
                if unit == 1000 {
                    1
                } else {
                    2
                },
            ),
            v,
            unit,
            if unit == 1000 {
                "k"@
            } else {
                "M"@
            },
            q,
        ),
{
    let f: nat = if m < 10 * p {
        100
    } else if m < 100 * p {
        10
    } else {
        1
    };
    limits_are_kept(v, unit, m as int, p as int, 10);
    limits_are_kept(v, unit, m as int, p as int, 100);
    let q = nearest(m * f, p);
    nearest_is_close(m * f, p);
    let e = m * unit - v * p;
    let d = q * p - m * f;
    let x = q * unit - f * v;
    assert(x * p == d * unit + f * e) by (nonlinear_arith)
        requires
            e == m * unit - v * p,
            d == q * p - m * f,
            x == q * unit - f * v,
    ;
    assert(2 * x <= unit && -2 * x <= unit) by {
        close_enough(x, p as int, d, e, f as int, unit);
    }
    q
}

/// A difference that is at most half a unit, up to less than one.
proof fn close_enough(x: int, p: int, d: int, e: int, f: int, unit: int)
    requires
        p > 0,
        x * p == d * unit + f * e,
        -p <= 2 * d <= p,
        -p <= 400 * e <= p,
        f == 100 || f == 10 || f == 1,
        unit == 1000 || unit == 1_000_000,
    ensures
        -unit <= 2 * x <= unit,
{
    let y = 2 * x;
    assert(y * p == 2 * (x * p)) by (nonlinear_arith)
        requires
            y == 2 * x,
    ;
    assert(-p <= 4 * (f * e) <= p) by {
        if f == 100 {
        } else if f == 10 {
        } else {
        }
    }
    assert(-unit * p <= 2 * (d * unit) <= unit * p) by {
        if unit == 1000 {
        } else {
        }
    }
    assert(-unit - 1 < y < unit + 1) by (nonlinear_arith)
        requires
            p > 0,
            -unit * p - p < y * p < unit * p + p,
    ;
}

/// A limit that the count keeps to is one that the quotient keeps to.
proof fn limits_are_kept(v: int, unit: int, m: int, p: int, n: int)
    requires
        p > 1_000_000_000,
        unit == 1000 || unit == 1_000_000,
        n == 10 || n == 100,
        400 * apart(m * unit, v * p) <= p,
        v == n * unit ==> m == n * p,
    ensures
        m < n * p <==> v < n * unit,
{
    let c = n * unit;
    assert((n * p) * unit == c * p) by (nonlinear_arith)
        requires
            c == n * unit,
    ;
    if v < c {
        assert(v * p <= c * p - p) by (nonlinear_arith)
            requires
                v <= c - 1,
                p > 0,
        ;
        assert(m < n * p) by (nonlinear_arith)
            requires
                m * unit < (n * p) * unit,
                unit > 0,
        ;
    } else if v > c {
        assert(v * p >= c * p + p) by (nonlinear_arith)
            requires
                v >= c + 1,
                p > 0,
        ;
        assert(m >= n * p) by (nonlinear_arith)
            requires
                m * unit > (n * p) * unit,
                unit > 0,
        ;
    }
}

/// The nearest whole number is half of one away at most.
proof fn nearest_is_close(a: nat, b: nat)
    requires
        b > 0,
    ensures
        2 * apart((nearest(a, b) * b) as int, a as int) <= b,
{
    let (q, r) = (a / b, a % b);
    assert(a == q * b + r && 0 <= r < b) by (nonlinear_arith)
        requires
            b > 0,
            q == a / b,
            r == a % b,
    ;
    assert((q + 1) * b == q * b + b) by (nonlinear_arith);
}

/// A quotient is refined by a factor that leaves it with enough digits.
proof fn refining_is_close(a: nat, b: nat, p: nat, top: nat) -> (k: nat)
    requires
        a > 0,
        b > 0,
        p > 0,
        a < 2 * b * top,
    ensures
        k > 0,
        refined(a, b, p, top).1 == p * k,
        a * k >= b * top,
        a * k < 2 * b * top,
        2 * apart((refined(a, b, p, top).0 * b) as int, (a * k) as int) <= b,
    decreases
            if a < b * top {
                (b * top - a) as nat
            } else {
                0
            },
{
    assert(2 * b * top == 2 * (b * top)) by (nonlinear_arith);
    if a >= b * top {
        nearest_is_close(a, b);
        assert(p * 1 == p && a * 1 == a);
        1
    } else {
        let k = refining_is_close(2 * a, b, 2 * p, top);
        assert((2 * p) * k == p * (2 * k) && (2 * a) * k == a * (2 * k)) by (nonlinear_arith);
        2 * k
    }
}

} // verus!
