//! The numbers that readings are made of.
//!
//! Every computation of the library is written against [`Num`], so that what is
//! proved of it does not depend on one representation: each operation is a
//! function of its operands, and the comparisons are the orders described below.
//! Whole numbers ([`i64`]) are one such representation; a binary floating-point
//! type with its NaN and its infinities is another.
use crate::text::{cat, chars_of, decimal, decimal_text, digit_char, run_of};
use vstd::prelude::*;

verus! {

/// The characters of a text.
pub type Text = Seq<char>;

/// A text of decimal digits, signs and points.
pub open spec fn is_number_text(t: Text) -> bool {
    t.len() > 0 && forall|i: int|
        0 <= i < t.len() ==> '0' <= #[trigger] t[i] <= '9' || t[i] == '-' || t[i] == '.'
}

pub trait Num: Copy + Sized {
    spec fn zero_spec() -> Self;

    spec fn lowest_spec() -> Self;

    spec fn epsilon_spec() -> Self;

    spec fn infinity_spec() -> Self;

    spec fn neg_infinity_spec() -> Self;

    spec fn nan_spec() -> Self;

    spec fn of_count_spec(n: u64) -> Self;

    spec fn of_nanos_spec(n: u64) -> Self;

    spec fn read_spec(text: Text) -> Option<Self>;

    spec fn plus_spec(self, other: Self) -> Self;

    spec fn minus_spec(self, other: Self) -> Self;

    spec fn times_spec(self, other: Self) -> Self;

    spec fn over_spec(self, other: Self) -> Self;

    spec fn round_spec(self) -> Self;

    /// The order of the values: irreflexive, transitive, and total among the
    /// values that are not NaN.
    spec fn less_spec(self, other: Self) -> bool;

    /// A total order of the representations, in which every value has its place.
    spec fn below_spec(self, other: Self) -> bool;

    spec fn is_nan_spec(self) -> bool;

    spec fn is_finite_spec(self) -> bool;

    spec fn to_count_spec(self) -> u64;

    spec fn fixed_spec(self, places: u8) -> Text;

    spec fn shown_spec(self) -> Text;

    proof fn less_asymmetric(a: Self, b: Self)
        requires
            a.less_spec(b),
        ensures
            !b.less_spec(a),
    ;

    proof fn less_transitive(a: Self, b: Self, c: Self)
        requires
            a.less_spec(b),
            b.less_spec(c),
        ensures
            a.less_spec(c),
    ;

    /// A value that is not NaN stands on one side of any ordered pair.
    proof fn less_splits(a: Self, b: Self, c: Self)
        requires
            a.less_spec(c),
            !b.is_nan_spec(),
        ensures
            a.less_spec(b) || b.less_spec(c),
    ;

    /// NaN takes no part in the order.
    proof fn less_excludes_nan(a: Self, b: Self)
        requires
            a.less_spec(b),
        ensures
            !a.is_nan_spec(),
            !b.is_nan_spec(),
    ;

    proof fn below_asymmetric(a: Self, b: Self)
        requires
            a.below_spec(b),
        ensures
            !b.below_spec(a),
    ;

    proof fn below_transitive(a: Self, b: Self, c: Self)
        requires
            a.below_spec(b),
            b.below_spec(c),
        ensures
            a.below_spec(c),
    ;

    proof fn below_total(a: Self, b: Self)
        ensures
            a.below_spec(b) || b.below_spec(a) || a == b,
    ;

    /// What the named values are.
    proof fn named_values()
        ensures
            Self::nan_spec().is_nan_spec(),
            Self::zero_spec().is_finite_spec(),
            !Self::infinity_spec().is_finite_spec(),
            !Self::neg_infinity_spec().is_finite_spec(),
    ;

    /// A finite value is read back from its own text.
    proof fn shown_is_read_back(a: Self)
        requires
            a.is_finite_spec(),
        ensures
            is_number_text(a.shown_spec()),
            Self::read_spec(a.shown_spec()) == Some(a),
    ;

    /// Nothing grows beyond itself.
    proof fn no_growth(a: Self)
        ensures
            !Self::zero_spec().less_spec(a.minus_spec(a)),
    ;

    /// Nought.
    fn zero() -> (r: Self)
        ensures
            r == Self::zero_spec(),
    ;

    /// The smallest finite value.
    fn lowest() -> (r: Self)
        ensures
            r == Self::lowest_spec(),
    ;

    /// The smallest positive scale a graph divides by.
    fn epsilon() -> (r: Self)
        ensures
            r == Self::epsilon_spec(),
    ;

    /// The upper edge of an open-ended bucket.
    fn infinity() -> (r: Self)
        ensures
            r == Self::infinity_spec(),
    ;

    fn neg_infinity() -> (r: Self)
        ensures
            r == Self::neg_infinity_spec(),
    ;

    /// "Not a number".
    fn nan() -> (r: Self)
        ensures
            r == Self::nan_spec(),
            r.is_nan_spec(),
    ;

    /// The value of a count.
    fn of_count(n: u64) -> (r: Self)
        ensures
            r == Self::of_count_spec(n),
    ;

    /// A time span given in nanoseconds, as seconds.
    fn of_nanos(n: u64) -> (r: Self)
        ensures
            r == Self::of_nanos_spec(n),
    ;

    /// The value that a decimal numeral stands for.
    fn read(text: &str) -> (r: Option<Self>)
        ensures
            r == Self::read_spec(text@),
    ;

    fn plus(self, other: Self) -> (r: Self)
        ensures
            r == self.plus_spec(other),
    ;

    fn minus(self, other: Self) -> (r: Self)
        ensures
            r == self.minus_spec(other),
    ;

    fn times(self, other: Self) -> (r: Self)
        ensures
            r == self.times_spec(other),
    ;

    fn over(self, other: Self) -> (r: Self)
        ensures
            r == self.over_spec(other),
    ;

    /// The nearest whole value, halves away from nought.
    fn round(self) -> (r: Self)
        ensures
            r == self.round_spec(),
    ;

    fn less(self, other: Self) -> (r: bool)
        ensures
            r == self.less_spec(other),
    ;

    fn below(self, other: Self) -> (r: bool)
        ensures
            r == self.below_spec(other),
    ;

    fn is_nan(self) -> (r: bool)
        ensures
            r == self.is_nan_spec(),
    ;

    fn is_finite(self) -> (r: bool)
        ensures
            r == self.is_finite_spec(),
    ;

    /// The whole part as a count; nought below the range of counts, the largest
    /// count above it.
    fn to_count(self) -> (r: u64)
        ensures
            r == self.to_count_spec(),
    ;

    /// In decimal, with `places` digits after the point.
    fn fixed(self, places: u8) -> (r: String)
        ensures
            r@ == self.fixed_spec(places),
    ;

    /// In decimal, with as many digits as the value needs.
    fn shown(self) -> (r: String)
        ensures
            r@ == self.shown_spec(),
    ;
}

/// Neither is NaN.
pub open spec fn numbers<N: Num>(a: N, b: N) -> bool {
    !a.is_nan_spec() && !b.is_nan_spec()
}

/// Both are numbers, and the first is not the larger one.
pub open spec fn at_most<N: Num>(a: N, b: N) -> bool {
    numbers(a, b) && !b.less_spec(a)
}

/// The largest count up to which every count has a value of its own.
pub const MOST_WHOLE: u64 = 0x20_0000_0000_0000;

/// Numbers whose arithmetic respects their order, as that of whole numbers does and
/// that of floating-point numbers rounded to nearest.
pub trait Ordered: Num {
    /// What is computed from NaN is NaN; a product of finite values is not.
    proof fn nan_spreads(a: Self, b: Self)
        ensures
            a.is_nan_spec() || b.is_nan_spec() ==> {
                &&& a.plus_spec(b).is_nan_spec()
                &&& a.minus_spec(b).is_nan_spec()
                &&& a.times_spec(b).is_nan_spec()
                &&& a.over_spec(b).is_nan_spec()
            },
            a.is_finite_spec() ==> !a.is_nan_spec(),
            a.is_finite_spec() && b.is_finite_spec() ==> !a.times_spec(b).is_nan_spec(),
    ;

    /// A larger operand never gives a smaller result, by however much results are
    /// rounded.
    proof fn results_ascend(a: Self, b: Self, c: Self)
        requires
            at_most(a, b),
        ensures
            numbers(c.plus_spec(a), c.plus_spec(b)) ==> at_most(c.plus_spec(a), c.plus_spec(b)),
            numbers(a.minus_spec(c), b.minus_spec(c)) ==> at_most(a.minus_spec(c), b.minus_spec(c)),
            at_most(Self::zero_spec(), c) && numbers(a.times_spec(c), b.times_spec(c)) ==> at_most(
                a.times_spec(c),
                b.times_spec(c),
            ),
            at_most(Self::zero_spec(), c) && numbers(c.times_spec(a), c.times_spec(b)) ==> at_most(
                c.times_spec(a),
                c.times_spec(b),
            ),
            Self::zero_spec().less_spec(c) && numbers(a.over_spec(c), b.over_spec(c)) ==> at_most(
                a.over_spec(c),
                b.over_spec(c),
            ),
    ;

    /// What is added to, divided or multiplied keeps its sign.
    proof fn signs_stay(a: Self, b: Self)
        ensures
            at_most(a, b) && !b.minus_spec(a).is_nan_spec() ==> at_most(
                Self::zero_spec(),
                b.minus_spec(a),
            ),
            at_most(Self::zero_spec(), b) && !a.plus_spec(b).is_nan_spec() ==> at_most(
                a,
                a.plus_spec(b),
            ),
            at_most(Self::zero_spec(), a) && Self::zero_spec().less_spec(b)
                ==> Self::zero_spec().less_spec(a.plus_spec(b)),
            at_most(Self::zero_spec(), a) && at_most(Self::zero_spec(), b) && !a.times_spec(
                b,
            ).is_nan_spec() ==> at_most(Self::zero_spec(), a.times_spec(b)),
            at_most(Self::zero_spec(), a) && Self::zero_spec().less_spec(b) && !a.over_spec(
                b,
            ).is_nan_spec() ==> at_most(Self::zero_spec(), a.over_spec(b)),
    ;

    /// What is less comes first among the representations too.
    proof fn less_is_below(a: Self, b: Self)
        requires
            a.less_spec(b),
        ensures
            a.below_spec(b),
    ;

    /// Counts are values of their own.
    proof fn counts_are_numbers(a: u64)
        requires
            a <= MOST_WHOLE,
        ensures
            Self::of_count_spec(0) == Self::zero_spec(),
            Self::of_count_spec(a).to_count_spec() == a,
            Self::of_count_spec(a).is_finite_spec(),
            at_most(Self::zero_spec(), Self::of_count_spec(a)),
            0 < a ==> Self::zero_spec().less_spec(Self::of_count_spec(a)),
    ;

    /// Counts are added and subtracted without rounding.
    proof fn counts_add_up(a: u64, b: u64)
        requires
            a + b <= MOST_WHOLE,
        ensures
            Self::of_count_spec(a).plus_spec(Self::of_count_spec(b)) == Self::of_count_spec(
                (a + b) as u64,
            ),
            Self::of_count_spec((a + b) as u64).minus_spec(Self::of_count_spec(b))
                == Self::of_count_spec(a),
    ;

    /// One times a value, and a value divided by itself.
    proof fn one_is_neutral(a: Self)
        requires
            a.is_finite_spec(),
        ensures
            Self::of_count_spec(1).times_spec(a) == a,
            a.times_spec(Self::of_count_spec(1)) == a,
            Self::zero_spec().less_spec(a) ==> a.over_spec(a) == Self::of_count_spec(1),
    ;

    /// Sums, differences and quotients of finite values are numbers.
    proof fn finite_results(a: Self, b: Self)
        requires
            a.is_finite_spec(),
            b.is_finite_spec(),
        ensures
            !a.plus_spec(b).is_nan_spec(),
            !a.minus_spec(b).is_nan_spec(),
            Self::zero_spec().less_spec(b) ==> !a.over_spec(b).is_nan_spec(),
            at_most(Self::zero_spec(), b) ==> at_most(a.minus_spec(b), a),
    ;

    /// What lies between finite values is finite.
    proof fn between_is_finite(a: Self, b: Self, c: Self)
        requires
            at_most(a, b),
            at_most(b, c),
            a.is_finite_spec(),
            c.is_finite_spec(),
        ensures
            b.is_finite_spec(),
    ;

    /// The order of small fractions.
    proof fn fractions_ascend(a: u64, b: u64, c: u64, d: u64)
        requires
            a <= 100,
            0 < b <= 100,
            c <= 100,
            0 < d <= 100,
            a * d <= c * b,
        ensures
            at_most(
                Self::of_count_spec(a).over_spec(Self::of_count_spec(b)),
                Self::of_count_spec(c).over_spec(Self::of_count_spec(d)),
            ),
            at_most(Self::zero_spec(), Self::of_count_spec(a).over_spec(Self::of_count_spec(b))),
            Self::of_count_spec(a).over_spec(Self::of_count_spec(b)).is_finite_spec(),
    ;
}

/// The larger of two values; one that is NaN gives way to the other.
pub open spec fn larger_spec<N: Num>(a: N, b: N) -> N {
    if a.less_spec(b) || a.is_nan_spec() {
        b
    } else {
        a
    }
}

/// The larger of two values; one that is NaN gives way to the other.
pub fn larger<N: Num>(a: N, b: N) -> (r: N)
    ensures
        r == larger_spec(a, b),
{
    if a.less(b) || a.is_nan() {
        b
    } else {
        a
    }
}

/// The value where it is positive, else nought.
pub open spec fn floored_spec<N: Num>(a: N) -> N {
    if N::zero_spec().less_spec(a) {
        a
    } else {
        N::zero_spec()
    }
}

/// The value where it is positive, else nought.
pub fn floored<N: Num>(a: N) -> (r: N)
    ensures
        r == floored_spec(a),
{
    if N::zero().less(a) {
        a
    } else {
        N::zero()
    }
}

/// A value where there is one, else nought.
pub open spec fn or_zero<N: Num>(v: Option<N>) -> N {
    match v {
        Some(v) => v,
        None => N::zero_spec(),
    }
}

/// A value where there is one, else nought.
pub fn value_or_zero<N: Num>(v: Option<N>) -> (r: N)
    ensures
        r == or_zero(v),
{
    match v {
        Some(v) => v,
        None => N::zero(),
    }
}

/// The value held to the unit interval.
pub open spec fn unit_spec<N: Num>(a: N) -> N {
    if a.less_spec(N::zero_spec()) {
        N::zero_spec()
    } else if N::of_count_spec(1).less_spec(a) {
        N::of_count_spec(1)
    } else {
        a
    }
}

/// The value held to the unit interval.
pub fn unit<N: Num>(a: N) -> (r: N)
    ensures
        r == unit_spec(a),
{
    if a.less(N::zero()) {
        N::zero()
    } else if N::of_count(1).less(a) {
        N::of_count(1)
    } else {
        a
    }
}

/// The whole part of a value that is not negative, and one more where something is
/// left over; at most `most`.
pub open spec fn ceiling_spec<N: Num>(a: N, most: u64) -> u64 {
    let n = a.to_count_spec();
    if n >= most {
        most
    } else if N::of_count_spec(n).less_spec(a) {
        (n + 1) as u64
    } else {
        n
    }
}

/// The smallest count that is not below a value; at most `most`.
pub fn ceiling<N: Num>(a: N, most: u64) -> (r: u64)
    ensures
        r == ceiling_spec(a, most),
        r <= most,
{
    let n: u64 = a.to_count();
    if n >= most {
        most
    } else if N::of_count(n).less(a) {
        n + 1
    } else {
        n
    }
}

/// The sum of `s`, added up from nought in order.
pub open spec fn total<N: Num>(s: Seq<N>) -> N
    decreases s.len(),
{
    if s.len() == 0 {
        N::zero_spec()
    } else {
        total(s.drop_last()).plus_spec(s.last())
    }
}

/// The largest of `s`, or `start` where none exceeds it.
pub open spec fn peak_from<N: Num>(s: Seq<N>, start: N) -> N
    decreases s.len(),
{
    if s.len() == 0 {
        start
    } else {
        larger_spec(peak_from(s.drop_last(), start), s.last())
    }
}

/// The largest of `s`, or `start` where none exceeds it.
pub fn peak<N: Num>(s: &Vec<N>, start: N) -> (r: N)
    ensures
        r == peak_from(s@, start),
{
    let mut m = start;
    let mut i: usize = 0;
    while i < s.len()
        invariant
            i <= s@.len(),
            m == peak_from(s@.take(i as int), start),
        decreases s@.len() - i,
    {
        m = larger(m, s[i]);
        i += 1;
        assert(s@.take(i as int).drop_last() =~= s@.take(i - 1));
    }
    assert(s@.take(s@.len() as int) =~= s@);
    m
}

/// A peak that starts from a number is a number, and no value exceeds it.
pub proof fn peak_bounds<N: Num>(s: Seq<N>, start: N)
    requires
        !start.is_nan_spec(),
    ensures
        !peak_from(s, start).is_nan_spec(),
        forall|i: int| 0 <= i < s.len() ==> !peak_from(s, start).less_spec(#[trigger] s[i]),
    decreases s.len(),
{
    if s.len() > 0 {
        let m = peak_from(s.drop_last(), start);
        peak_bounds(s.drop_last(), start);
        if m.less_spec(s.last()) {
            N::less_excludes_nan(m, s.last());
        }
        assert forall|i: int| 0 <= i < s.len() implies !peak_from(s, start).less_spec(
            #[trigger] s[i],
        ) by {
            if i < s.len() - 1 {
                assert(s.drop_last()[i] == s[i]);
                if m.less_spec(s.last()) && s.last().less_spec(s[i]) {
                    N::less_transitive(m, s.last(), s[i]);
                }
            } else if s.last().less_spec(s.last()) {
                N::less_asymmetric(s.last(), s.last());
            }
        }
    }
}

/// `v` held to the range of `i64`, without the smallest, which stands for NaN.
pub open spec fn saturated(v: int) -> i64 {
    if v > i64::MAX {
        i64::MAX
    } else if v <= i64::MIN {
        (i64::MIN + 1) as i64
    } else {
        v as i64
    }
}

/// `v` held to the range of `i64`, without the smallest.
fn saturate(v: i128) -> (r: i64)
    ensures
        r == saturated(v as int),
{
    if v > 0x7fff_ffff_ffff_ffff {
        i64::MAX
    } else if v <= -0x8000_0000_0000_0000 {
        i64::MIN + 1
    } else {
        v as i64
    }
}

/// The number that a run of decimal digits stands for.
pub open spec fn digits_value(s: Seq<char>) -> int
    decreases s.len(),
{
    if s.len() == 0 {
        0
    } else {
        digits_value(s.drop_last()) * 10 + (s.last() as int - '0' as int)
    }
}

/// Decimal digits and nothing else.
pub open spec fn is_numeral(s: Seq<char>) -> bool {
    s.len() > 0 && forall|i: int| 0 <= i < s.len() ==> '0' <= #[trigger] s[i] <= '9'
}

/// The whole number that a numeral stands for, with its sign.
pub open spec fn signed_value(s: Seq<char>) -> Option<int> {
    if s.len() > 0 && s[0] == '-' {
        if is_numeral(s.skip(1)) {
            Some(-digits_value(s.skip(1)))
        } else {
            None
        }
    } else if is_numeral(s) {
        Some(digits_value(s))
    } else {
        None
    }
}

/// A longer numeral never stands for less.
proof fn digits_grow(s: Seq<char>, i: int)
    requires
        forall|j: int| 0 <= j < s.len() ==> '0' <= #[trigger] s[j] <= '9',
        0 <= i <= s.len(),
    ensures
        0 <= digits_value(s.take(i)) <= digits_value(s),
    decreases s.len(),
{
    if s.len() == 0 {
        assert(s.take(i) =~= s);
    } else {
        let d = s.drop_last();
        assert(s.last() == s[s.len() - 1]);
        assert forall|j: int| 0 <= j < d.len() implies '0' <= #[trigger] d[j] <= '9' by {
            assert(d[j] == s[j]);
        }
        if i < s.len() {
            assert(d.take(i) =~= s.take(i));
            digits_grow(d, i);
        } else {
            assert(s.take(i) =~= s);
            digits_grow(d, d.len() as int);
            assert(d.take(d.len() as int) =~= d);
        }
    }
}

/// The digits of a number stand for it.
proof fn decimal_is_read_back(n: nat)
    ensures
        is_numeral(decimal_text(n)),
        digits_value(decimal_text(n)) == n,
    decreases n,
{
    let t = decimal_text(n);
    if n < 10 {
        assert(t.drop_last() =~= Seq::empty());
        assert(digits_value(t.drop_last()) == 0);
        assert(t.last() == digit_char(n as int));
    } else {
        decimal_is_read_back(n / 10);
        let head = decimal_text(n / 10);
        assert(t.drop_last() =~= head);
        assert(t.last() == digit_char((n % 10) as int));
        assert(digits_value(t) == digits_value(head) * 10 + (t.last() as int - '0' as int));
        assert forall|i: int| 0 <= i < t.len() implies '0' <= #[trigger] t[i] <= '9' by {
            if i < head.len() {
                assert(t[i] == head[i]);
            }
        }
    }
}

/// The sign and the decimal digits of a whole number.
pub open spec fn signed_text(v: i64) -> Seq<char> {
    if v.is_nan_spec() {
        "NaN"@
    } else if v < 0 {
        "-"@ + decimal_text((-v) as nat)
    } else {
        decimal_text(v as nat)
    }
}

/// The sign and the decimal digits of a whole number.
fn signed(v: i64) -> (r: String)
    ensures
        r@ == signed_text(v),
{
    if v == i64::MIN {
        "NaN".to_owned()
    } else if v >= 0 {
        decimal(v as u64)
    } else {
        let body = decimal((-v) as u64);
        cat("-", body.as_str())
    }
}

/// The number that the digits from `from` on stand for, where it is finite.
fn read_digits(v: &Vec<char>, from: usize) -> (r: Option<i64>)
    requires
        from <= v@.len(),
    ensures
        r == if is_numeral(v@.skip(from as int)) && digits_value(v@.skip(from as int)) < i64::MAX {
            Some(digits_value(v@.skip(from as int)) as i64)
        } else {
            None
        },
        is_numeral(v@.skip(from as int)) ==> digits_value(v@.skip(from as int)) >= 0,
{
    let ghost body = v@.skip(from as int);
    proof {
        if is_numeral(body) {
            digits_grow(body, 0);
            assert(digits_value(body.take(0)) >= 0);
        }
    }
    if from >= v.len() {
        return None;
    }
    let mut total: i64 = 0;
    let mut i: usize = from;
    assert(body.take(0) =~= Seq::empty());
    while i < v.len()
        invariant
            from <= i <= v@.len(),
            body == v@.skip(from as int),
            0 <= total < i64::MAX,
            total == digits_value(body.take(i - from)),
            forall|j: int| 0 <= j < i - from ==> '0' <= #[trigger] body[j] <= '9',
        decreases v@.len() - i,
    {
        let c = v[i];
        assert(body[i - from] == c);
        if c < '0' || c > '9' {
            return None;
        }
        let next: i128 = total as i128 * 10 + (c as i128 - '0' as i128);
        assert(body.take(i - from + 1).drop_last() =~= body.take(i - from));
        assert(body.take(i - from + 1).last() == c);
        if next >= 0x7fff_ffff_ffff_ffff {
            proof {
                if is_numeral(body) {
                    digits_grow(body, i - from + 1);
                }
            }
            return None;
        }
        total = next as i64;
        i += 1;
    }
    assert(body.take(body.len() as int) =~= body);
    Some(total)
}

/// Either of two whole numbers is NaN.
pub open spec fn either_nan(a: i64, b: i64) -> bool {
    a.is_nan_spec() || b.is_nan_spec()
}

/// Whole numbers: the smallest `i64` stands for NaN, the largest and the second
/// smallest for the infinities. Sums and products are held to that range, quotients
/// rounded down, a quotient by nought is nought; what is computed from NaN is NaN.
impl Num for i64 {
    open spec fn zero_spec() -> Self {
        0
    }

    open spec fn lowest_spec() -> Self {
        (i64::MIN + 2) as i64
    }

    open spec fn epsilon_spec() -> Self {
        1
    }

    open spec fn infinity_spec() -> Self {
        i64::MAX
    }

    open spec fn neg_infinity_spec() -> Self {
        (i64::MIN + 1) as i64
    }

    open spec fn nan_spec() -> Self {
        i64::MIN
    }

    open spec fn of_count_spec(n: u64) -> Self {
        saturated(n as int)
    }

    open spec fn of_nanos_spec(n: u64) -> Self {
        (n / 1_000_000_000) as i64
    }

    open spec fn read_spec(text: Seq<char>) -> Option<Self> {
        match signed_value(text) {
            Some(v) => if i64::MIN + 1 < v < i64::MAX {
                Some(v as i64)
            } else {
                None
            },
            None => None,
        }
    }

    open spec fn plus_spec(self, other: Self) -> Self {
        if either_nan(self, other) {
            Self::nan_spec()
        } else {
            saturated(self + other)
        }
    }

    open spec fn minus_spec(self, other: Self) -> Self {
        if either_nan(self, other) {
            Self::nan_spec()
        } else {
            saturated(self - other)
        }
    }

    open spec fn times_spec(self, other: Self) -> Self {
        if either_nan(self, other) {
            Self::nan_spec()
        } else {
            saturated(self * other)
        }
    }

    open spec fn over_spec(self, other: Self) -> Self {
        if either_nan(self, other) {
            Self::nan_spec()
        } else if other == 0 {
            0
        } else {
            saturated(self as int / other as int)
        }
    }

    open spec fn round_spec(self) -> Self {
        self
    }

    open spec fn less_spec(self, other: Self) -> bool {
        i64::MIN < self < other
    }

    open spec fn below_spec(self, other: Self) -> bool {
        self < other
    }

    open spec fn is_nan_spec(self) -> bool {
        self == i64::MIN
    }

    open spec fn is_finite_spec(self) -> bool {
        i64::MIN + 1 < self < i64::MAX
    }

    open spec fn to_count_spec(self) -> u64 {
        if self < 0 {
            0
        } else {
            self as u64
        }
    }

    open spec fn fixed_spec(self, places: u8) -> Seq<char> {
        if places == 0 {
            signed_text(self)
        } else {
            signed_text(self) + "."@ + Seq::new(places as nat, |i: int| '0')
        }
    }

    open spec fn shown_spec(self) -> Seq<char> {
        signed_text(self)
    }

    proof fn less_asymmetric(a: Self, b: Self) {
    }

    proof fn less_transitive(a: Self, b: Self, c: Self) {
    }

    proof fn less_splits(a: Self, b: Self, c: Self) {
    }

    proof fn less_excludes_nan(a: Self, b: Self) {
    }

    proof fn below_asymmetric(a: Self, b: Self) {
    }

    proof fn below_transitive(a: Self, b: Self, c: Self) {
    }

    proof fn below_total(a: Self, b: Self) {
    }

    proof fn named_values() {
    }

    proof fn shown_is_read_back(a: Self) {
        reveal_strlit("-");
        let t = signed_text(a);
        if a < 0 {
            let body = decimal_text((-a) as nat);
            decimal_is_read_back((-a) as nat);
            assert(t.skip(1) =~= body);
            assert forall|i: int| 0 <= i < t.len() implies '0' <= #[trigger] t[i] <= '9' || t[i]
                == '-' || t[i] == '.' by {
                if i > 0 {
                    assert(t[i] == body[i - 1]);
                }
            }
        } else {
            decimal_is_read_back(a as nat);
        }
    }

    proof fn no_growth(a: Self) {
    }

    fn zero() -> (r: Self) {
        0
    }

    fn lowest() -> (r: Self) {
        i64::MIN + 2
    }

    fn epsilon() -> (r: Self) {
        1
    }

    fn infinity() -> (r: Self) {
        i64::MAX
    }

    fn neg_infinity() -> (r: Self) {
        i64::MIN + 1
    }

    fn nan() -> (r: Self) {
        i64::MIN
    }

    fn of_count(n: u64) -> (r: Self) {
        saturate(n as i128)
    }

    fn of_nanos(n: u64) -> (r: Self) {
        (n / 1_000_000_000) as i64
    }

    fn read(text: &str) -> (r: Option<Self>) {
        let v = chars_of(text);
        if v.len() > 0 && v[0] == '-' {
            match read_digits(&v, 1) {
                Some(n) => Some(-n),
                None => None,
            }
        } else {
            assert(v@.skip(0) =~= v@);
            read_digits(&v, 0)
        }
    }

    fn plus(self, other: Self) -> (r: Self) {
        if self == i64::MIN || other == i64::MIN {
            return i64::MIN;
        }
        saturate(self as i128 + other as i128)
    }

    fn minus(self, other: Self) -> (r: Self) {
        if self == i64::MIN || other == i64::MIN {
            return i64::MIN;
        }
        saturate(self as i128 - other as i128)
    }

    fn times(self, other: Self) -> (r: Self) {
        if self == i64::MIN || other == i64::MIN {
            return i64::MIN;
        }
        assert(-0x4000_0000_0000_0000_0000_0000_0000_0000 <= self * other
            <= 0x4000_0000_0000_0000_0000_0000_0000_0000) by (nonlinear_arith)
            requires
                -0x8000_0000_0000_0000 <= self <= 0x7fff_ffff_ffff_ffff,
                -0x8000_0000_0000_0000 <= other <= 0x7fff_ffff_ffff_ffff,
        ;
        saturate(self as i128 * other as i128)
    }

    fn over(self, other: Self) -> (r: Self) {
        if self == i64::MIN || other == i64::MIN {
            return i64::MIN;
        }
        if other == 0 {
            return 0;
        }
        proof {
            let a = self as int;
            let b = other as int;
            assert(a / b > -0x8000_0000_0000_0000) by (nonlinear_arith)
                requires
                    b != 0,
                    -0x8000_0000_0000_0000 < a <= 0x7fff_ffff_ffff_ffff,
            ;
        }
        match self.checked_div_euclid(other) {
            Some(q) => q,
            None => i64::MAX,
        }
    }

    fn round(self) -> (r: Self) {
        self
    }

    fn less(self, other: Self) -> (r: bool) {
        i64::MIN < self && self < other
    }

    fn below(self, other: Self) -> (r: bool) {
        self < other
    }

    fn is_nan(self) -> (r: bool) {
        self == i64::MIN
    }

    fn is_finite(self) -> (r: bool) {
        i64::MIN + 1 < self && self < i64::MAX
    }

    fn to_count(self) -> (r: u64) {
        if self < 0 {
            0
        } else {
            self as u64
        }
    }

    fn fixed(self, places: u8) -> (r: String) {
        let body = signed(self);
        if places == 0 {
            body
        } else {
            let point = cat(body.as_str(), ".");
            let tail = run_of('0', places as usize);
            cat(point.as_str(), tail.as_str())
        }
    }

    fn shown(self) -> (r: String) {
        signed(self)
    }
}

impl Ordered for i64 {
    proof fn nan_spreads(a: Self, b: Self) {
    }

    proof fn results_ascend(a: Self, b: Self, c: Self) {
        let (x, y, z) = (a as int, b as int, c as int);
        if z >= 0 {
            assert(x * z <= y * z && z * x <= z * y) by (nonlinear_arith)
                requires
                    x <= y,
                    0 <= z,
            ;
        }
        if z > 0 {
            assert(x / z <= y / z) by (nonlinear_arith)
                requires
                    x <= y,
                    0 < z,
            ;
        }
    }

    proof fn signs_stay(a: Self, b: Self) {
        let (x, y) = (a as int, b as int);
        if x >= 0 && y >= 0 {
            assert(x * y >= 0) by (nonlinear_arith)
                requires
                    0 <= x,
                    0 <= y,
            ;
        }
        if x >= 0 && y > 0 {
            assert(x / y >= 0) by (nonlinear_arith)
                requires
                    0 <= x,
                    0 < y,
            ;
        }
    }

    proof fn less_is_below(a: Self, b: Self) {
    }

    proof fn counts_are_numbers(a: u64) {
    }

    proof fn counts_add_up(a: u64, b: u64) {
    }

    proof fn one_is_neutral(a: Self) {
        if a > 0 {
            assert(a as int / a as int == 1) by (nonlinear_arith)
                requires
                    a > 0,
            ;
        }
    }

    proof fn finite_results(a: Self, b: Self) {
    }

    proof fn between_is_finite(a: Self, b: Self, c: Self) {
    }

    proof fn fractions_ascend(a: u64, b: u64, c: u64, d: u64) {
        let (x, y, z, w) = (a as int, b as int, c as int, d as int);
        assert(0 <= x / y <= x) by (nonlinear_arith)
            requires
                0 <= x,
                0 < y,
        ;
        assert(0 <= z / w <= z) by (nonlinear_arith)
            requires
                0 <= z,
                0 < w,
        ;
        let q = x / y;
        assert(q * w <= z) by (nonlinear_arith)
            requires
                x * w <= z * y,
                q == x / y,
                0 <= x,
                0 < y,
                0 < w,
        ;
        assert(q <= z / w) by (nonlinear_arith)
            requires
                q * w <= z,
                0 < w,
        ;
    }
}

}
