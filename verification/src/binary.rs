//! Fractions held to a fixed number of binary digits.
//!
//! A fraction `m / p`, `p` a power of two, stands for a binary floating-point
//! number. Each operation computes exactly and then rounds to the nearest such
//! number of the wanted width, ties to an even last digit.
use vstd::prelude::*;

verus! {

/// A fraction `m / p`.
#[derive(Debug, Clone, Copy, PartialEq, Eq, Structural)]
pub struct Fraction {
    pub m: u128,
    pub p: u128,
}

/// The whole number nearest to `a / b`, ties to the even one.
pub open spec fn nearest(a: nat, b: nat) -> nat {
    let q = a / b;
    let r = a % b;
    if 2 * r > b || (2 * r == b && q % 2 == 1) {
        q + 1
    } else {
        q
    }
}

/// The whole number nearest to `a / b`, ties to the even one.
pub fn round_even(a: u128, b: u128) -> (r: u128)
    requires
        0 < b <= 0x4000_0000_0000_0000_0000_0000_0000_0000,
        a <= 0x4000_0000_0000_0000_0000_0000_0000_0000,
    ensures
        r == nearest(a as nat, b as nat),
        r <= a + 1,
{
    let q: u128 = a / b;
    let rest: u128 = a % b;
    assert(q <= a) by (nonlinear_arith)
        requires
            q == a / b,
            b > 0,
    ;
    if 2 * rest > b || (2 * rest == b && q % 2 == 1) {
        q + 1
    } else {
        q
    }
}

/// `(k, c)` doubled until `c` exceeds `a`: the `k` that is reached.
pub open spec fn doubled_past(a: nat, c: nat, k: nat) -> nat
    decreases
            if a >= c {
                (a - c + 1) as nat
            } else {
                0
            },
{
    if c == 0 || a < c {
        k
    } else {
        doubled_past(a, 2 * c, 2 * k)
    }
}

/// `a / (b * p)` doubled in both parts until the quotient `a / b` is at least
/// `top`, and then the nearest whole quotient over `p`.
pub open spec fn refined(a: nat, b: nat, p: nat, top: nat) -> (nat, nat)
    decreases
            if a < b * top {
                (b * top - a) as nat
            } else {
                0
            },
{
    if a == 0 || a >= b * top {
        (nearest(a, b), p)
    } else {
        refined(2 * a, b, 2 * p, top)
    }
}

/// The fraction nearest to `a / (b * p)` among those whose numerator, less its
/// trailing noughts, lies below `2 * top`, for `top` a power of two.
pub open spec fn narrowed(a: nat, b: nat, p: nat, top: nat) -> (nat, nat) {
    if a >= 2 * b * top {
        let k = doubled_past(a, 2 * b * top, 1);
        (nearest(a, b * k) * k, p)
    } else {
        refined(a, b, p, top)
    }
}

/// The fraction nearest to `a / (b * p)` with the digits that `top` allows.
pub fn narrow(a: u128, b: u128, p: u128, top: u128) -> (r: Fraction)
    requires
        0 < b <= 1000,
        0 < p <= 0x1_0000_0000_0000_0000,
        p <= a || a == 0,
        a <= 0x40_0000_0000_0000_0000,
        0 < top <= 0x10_0000_0000_0000,
    ensures
        (r.m as nat, r.p as nat) == narrowed(a as nat, b as nat, p as nat, top as nat),
        r.m <= 2 * a || r.m <= 2 * top,
        0 < r.p <= 0x1_0000_0000_0000_0000,
        r.p == p || r.p <= 2 * (b * top),
{
    assert(0 < 2 * b * top <= 2 * 1000 * 0x10_0000_0000_0000) by (nonlinear_arith)
        requires
            0 < b <= 1000,
            0 < top <= 0x10_0000_0000_0000,
    ;
    let full: u128 = 2 * b * top;
    assert(full == 2 * (b * top)) by (nonlinear_arith)
        requires
            full == 2 * b * top,
    ;
    if a >= full {
        let mut c: u128 = full;
        let mut k: u128 = 1;
        while a >= c
            invariant
                a <= 0x40_0000_0000_0000_0000,
                0 < full,
                0 < k,
                k <= c,
                c <= 2 * a,
                c == full * k,
                doubled_past(a as nat, full as nat, 1) == doubled_past(
                    a as nat,
                    c as nat,
                    k as nat,
                ),
            decreases
                    if a >= c {
                        a - c + 1
                    } else {
                        0
                    },
        {
            assert(full * (2 * k) == 2 * (full * k)) by (nonlinear_arith);
            c = 2 * c;
            k = 2 * k;
        }
        assert(b <= full) by (nonlinear_arith)
            requires
                full == 2 * b * top,
                top > 0,
                b > 0,
        ;
        assert(b * k <= full * k) by (nonlinear_arith)
            requires
                b <= full,
                k > 0,
        ;
        assert(2 * k <= full * k) by (nonlinear_arith)
            requires
                2 <= full,
                k > 0,
        ;
        assert(0 < b * k) by (nonlinear_arith)
            requires
                b > 0,
                k > 0,
        ;
        let bk: u128 = b * k;
        let q: u128 = round_even(a, bk);
        proof {
            // `q * k` is close to `a / b`, and so no larger than twice the limit.
            let ai = a as int;
            let bki = bk as int;
            assert(q <= ai / bki + 1);
            assert((ai / bki) * bki <= ai) by (nonlinear_arith)
                requires
                    bki > 0,
            ;
            assert((ai / bki) * k <= ai) by (nonlinear_arith)
                requires
                    (ai / bki) * bki <= ai,
                    bki == b * k,
                    b >= 1,
                    k > 0,
                    ai / bki >= 0,
            ;
            assert(ai / bki >= 0) by (nonlinear_arith)
                requires
                    ai >= 0,
                    bki > 0,
            ;
            assert(q * k <= (ai / bki) * k + k) by (nonlinear_arith)
                requires
                    q <= ai / bki + 1,
                    k > 0,
            ;
        }
        Fraction { m: q * k, p }
    } else {
        let mut x: u128 = a;
        let mut d: u128 = p;
        assert(b * top <= 1000 * 0x10_0000_0000_0000) by (nonlinear_arith)
            requires
                0 < b <= 1000,
                0 < top <= 0x10_0000_0000_0000,
        ;
        let half: u128 = b * top;
        while x != 0 && x < half
            invariant
                0 < d,
                d <= x || x == 0,
                x < 2 * half || x == 0,
                half == b * top,
                half <= 1000 * 0x10_0000_0000_0000,
                d == p || d <= x,
                x == 0 ==> d == p,
                x == 0 ==> a == 0,
                a == 0 ==> x == 0,
                p <= 0x1_0000_0000_0000_0000,
                refined(a as nat, b as nat, p as nat, top as nat) == refined(
                    x as nat,
                    b as nat,
                    d as nat,
                    top as nat,
                ),
            decreases
                    if x < half {
                        half - x
                    } else {
                        0
                    },
        {
            x = 2 * x;
            d = 2 * d;
        }
        let m: u128 = round_even(x, b);
        proof {
            let xi = x as int;
            let bi = b as int;
            if x == 0 {
                assert(xi / bi == 0 && xi % bi == 0) by (nonlinear_arith)
                    requires
                        xi == 0,
                        bi > 0,
                ;
            } else {
                assert(xi / bi < 2 * top) by (nonlinear_arith)
                    requires
                        xi < 2 * (bi * top),
                        bi > 0,
                ;
            }
        }
        Fraction { m, p: d }
    }
}

/// The decimal places of a fraction: `m / p` in units of `1 / scale`, rounded to
/// the nearest, ties to the even one.
pub fn in_units(f: Fraction, scale: u128) -> (r: u128)
    requires
        0 < f.p <= 0x1_0000_0000_0000_0000,
        f.m <= 0x100_0000_0000_0000_0000,
        scale <= 100,
    ensures
        r == nearest((f.m * scale) as nat, f.p as nat),
        r <= f.m * scale + 1,
{
    assert(f.m * scale <= 0x100_0000_0000_0000_0000 * 100) by (nonlinear_arith)
        requires
            f.m <= 0x100_0000_0000_0000_0000,
            scale <= 100,
    ;
    round_even(f.m * scale, f.p)
}

/// The nearest whole number to `a` whose value, less its trailing noughts, lies
/// below `2 * top`.
pub open spec fn coarsened(a: nat, top: nat) -> nat {
    if a >= 2 * top {
        narrowed(a, 1, 1, top).0
    } else {
        a
    }
}

/// The nearest whole number to `a` with the digits that `top` allows.
pub fn coarsen(a: u128, top: u128) -> (r: u128)
    requires
        a <= 0x40_0000_0000_0000_0000,
        0 < top <= 0x10_0000_0000_0000,
    ensures
        r == coarsened(a as nat, top as nat),
        r <= 2 * a,
{
    if a >= 2 * top {
        narrow(a, 1, 1, top).m
    } else {
        a
    }
}

}
