use crate::algebraic_extensions::{
    AddIdentity, IsPositive, MulIdentity, MuliplicativeNumeric, Numeric, NumericAddIdentity,
    NumericMulIdentity,
};
use vstd::prelude::*;
use vstd::std_specs::cmp::PartialEqSpec;

verus! {

/// A scalar that is an integer: its operations are those of the integers
/// wherever they may be computed, and the quotient is cut off towards zero.
///
/// The laws of the library that hold exactly are stated for these scalars.
pub trait ExactScalar: Numeric + MuliplicativeNumeric + NumericMulIdentity + IsPositive + PartialEq + Copy {
    /// The integer that the scalar is.
    spec fn as_int(self) -> int;

    /// The operators are functions of their operands, the identities are
    /// zero and one, and minus one is a scalar.
    proof fn lemma_exact()
        ensures
            Self::specified(),
            Self::division_specified(),
            Self::obeys_eq_spec(),
            Self::zero_spec().as_int() == 0,
            Self::one_spec().as_int() == 1,
            Self::is_scalar(-1),
    ;

    /// Different scalars are different integers.
    proof fn lemma_injective(x: Self, y: Self)
        requires
            x.as_int() == y.as_int(),
        ensures
            x == y,
    ;

    /// Two scalars are equal when they are the same integer.
    proof fn lemma_equal(x: Self, y: Self)
        ensures
            x.eq_spec(&y) == (x.as_int() == y.as_int()),
    ;

    proof fn lemma_plus(x: Self, y: Self)
        requires
            x.can_add(y),
        ensures
            x.plus(y).as_int() == x.as_int() + y.as_int(),
    ;

    proof fn lemma_times(x: Self, y: Self)
        requires
            x.can_multiply(y),
        ensures
            x.times(y).as_int() == x.as_int() * y.as_int(),
    ;

    proof fn lemma_negated(x: Self)
        requires
            x.can_negate(),
        ensures
            x.negated().as_int() == -x.as_int(),
    ;

    /// A quotient may be computed by a divisor other than zero only.
    proof fn lemma_over(x: Self, y: Self)
        requires
            x.can_divide(y),
        ensures
            y.as_int() != 0,
            x.over(y).as_int() == truncated_quotient(x.as_int(), y.as_int()),
    ;

    /// Whether an integer is a scalar of this type.
    spec fn is_scalar(i: int) -> bool;

    /// An operation may be computed exactly where its result among the
    /// integers is a scalar; a quotient, where the divisor is not zero
    /// besides.
    proof fn lemma_defined(x: Self, y: Self)
        ensures
            Self::is_scalar(x.as_int()),
            x.can_add(y) == Self::is_scalar(x.as_int() + y.as_int()),
            x.can_multiply(y) == Self::is_scalar(x.as_int() * y.as_int()),
            x.can_negate() == Self::is_scalar(-x.as_int()),
            x.can_divide(y) == (y.as_int() != 0 && Self::is_scalar(
                truncated_quotient(x.as_int(), y.as_int()),
            )),
    ;

    /// Without a tolerance, and under the default tolerance, zero alone
    /// counts as zero.
    proof fn lemma_is_zero(x: Self)
        ensures
            x.is_zero_spec(None) == (x.as_int() == 0),
            x.is_zero_spec(Self::default_threshold_spec()) == (x.as_int() == 0),
    ;

    proof fn lemma_is_positive(x: Self)
        ensures
            x.is_positive_spec() == (x.as_int() > 0),
    ;
}

/// A sum that is a scalar among the integers may be computed and is that
/// scalar.
pub proof fn lemma_sum<T: ExactScalar>(x: T, y: T)
    requires
        T::is_scalar(x.as_int() + y.as_int()),
    ensures
        x.can_add(y),
        x.plus(y).as_int() == x.as_int() + y.as_int(),
{
    T::lemma_defined(x, y);
    T::lemma_plus(x, y);
}

/// A product that is a scalar among the integers may be computed and is that
/// scalar.
pub proof fn lemma_product<T: ExactScalar>(x: T, y: T)
    requires
        T::is_scalar(x.as_int() * y.as_int()),
    ensures
        x.can_multiply(y),
        x.times(y).as_int() == x.as_int() * y.as_int(),
{
    T::lemma_defined(x, y);
    T::lemma_times(x, y);
}

/// A negation that is a scalar among the integers may be computed and is that
/// scalar.
pub proof fn lemma_negation<T: ExactScalar>(x: T)
    requires
        T::is_scalar(-x.as_int()),
    ensures
        x.can_negate(),
        x.negated().as_int() == -x.as_int(),
{
    T::lemma_defined(x, x);
    T::lemma_negated(x);
}

/// A quotient by a divisor other than zero that is a scalar among the
/// integers may be computed and is that scalar.
pub proof fn lemma_quotient<T: ExactScalar>(x: T, y: T)
    requires
        y.as_int() != 0,
        T::is_scalar(truncated_quotient(x.as_int(), y.as_int())),
    ensures
        x.can_divide(y),
        x.over(y).as_int() == truncated_quotient(x.as_int(), y.as_int()),
{
    T::lemma_defined(x, y);
    T::lemma_over(x, y);
}

/// The quotient of two integers, cut off towards zero.
pub open spec fn truncated_quotient(n: int, d: int) -> int {
    if n >= 0 {
        n / d
    } else {
        -((-n) / d)
    }
}

/// A quotient is not greater than its dividend, in absolute value, and is
/// its negation for the divisor minus one only.
pub proof fn lemma_quotient_bounds(m: int, d: int)
    by (nonlinear_arith)
    requires
        m >= 0,
        d != 0,
    ensures
        -m <= m / d <= m,
        m > 0 && d != -1 ==> -m < m / d,
{
}

/// The absolute value of an integer.
pub open spec fn magnitude(i: int) -> int {
    if i >= 0 {
        i
    } else {
        -i
    }
}

/// The quotient that is cut off is the quotient of the absolute values, with
/// the sign of the quotient.
pub proof fn lemma_truncated_quotient_by_magnitudes(n: int, d: int)
    requires
        d != 0,
    ensures
        truncated_quotient(n, d) == if (n >= 0) == (d > 0) {
            magnitude(n) / magnitude(d)
        } else {
            -(magnitude(n) / magnitude(d))
        },
{
    let m = magnitude(n);
    if d < 0 {
        let e = -d;
        vstd::arithmetic::div_mod::lemma_fundamental_div_mod(m, e);
        vstd::arithmetic::div_mod::lemma_mod_bound(m, e);
        let q = m / e;
        let r = m % e;
        assert(m / d == -q) by (nonlinear_arith)
            requires
                m == e * q + r,
                0 <= r < e,
                d == -e,
                e > 0,
        ;
    }
}

/// Multiplying the dividend and the divisor by the same integer other than
/// zero leaves the quotient that is cut off as it is.
pub proof fn lemma_truncated_quotient_scaled(k: int, n: int, d: int)
    requires
        k != 0,
        d != 0,
    ensures
        k * d != 0,
        truncated_quotient(k * n, k * d) == truncated_quotient(n, d),
{
    let kk = magnitude(k);
    let m = magnitude(n);
    let e = magnitude(d);
    assert(k * d != 0 && magnitude(k * n) == kk * m && magnitude(k * d) == kk * e && ((k
        * d > 0) == ((k > 0) == (d > 0))) && (n != 0 ==> ((k * n >= 0) == ((k > 0) == (n >= 0))))
        && (n == 0 ==> k * n == 0)) by (nonlinear_arith)
        requires
            k != 0,
            d != 0,
            kk == magnitude(k),
            m == magnitude(n),
            e == magnitude(d),
    ;
    lemma_truncated_quotient_by_magnitudes(n, d);
    lemma_truncated_quotient_by_magnitudes(k * n, k * d);
    vstd::arithmetic::div_mod::lemma_div_multiples_vanish_quotient(kk, m, e);
    if n == 0 {
        assert(m / e == 0) by (nonlinear_arith)
            requires
                m == 0,
                e > 0,
        ;
    }
}

/// Where the divisor divides the dividend, the quotient that is cut off is
/// the quotient.
pub proof fn lemma_truncated_quotient_exact(q: int, d: int)
    requires
        d != 0,
    ensures
        truncated_quotient(q * d, d) == q,
{
    assert(truncated_quotient(q * d, d) == q) by (nonlinear_arith)
        requires
            d != 0,
    {
        if q * d >= 0 {
            assert((q * d) / d == q);
        } else {
            assert(-(q * d) == (-q) * d);
            assert(((-q) * d) / d == -q);
        }
    }
}

impl ExactScalar for i8 {
    open spec fn as_int(self) -> int {
        self as int
    }

    proof fn lemma_exact() {
    }

    proof fn lemma_injective(x: i8, y: i8) {
    }

    proof fn lemma_equal(x: i8, y: i8) {
    }

    proof fn lemma_plus(x: i8, y: i8) {
    }

    proof fn lemma_times(x: i8, y: i8) {
    }

    proof fn lemma_negated(x: i8) {
    }

    open spec fn is_scalar(i: int) -> bool {
        i8::MIN <= i <= i8::MAX
    }

    proof fn lemma_defined(x: i8, y: i8) {
        if y != 0 {
            if x >= 0 {
                lemma_quotient_bounds(x as int, y as int);
            } else {
                lemma_quotient_bounds(-(x as int), y as int);
            }
        }
    }

    proof fn lemma_over(x: i8, y: i8) {
        if x >= 0 {
            lemma_quotient_bounds(x as int, y as int);
        } else {
            lemma_quotient_bounds(-(x as int), y as int);
        }
    }

    proof fn lemma_is_zero(x: i8) {
    }

    proof fn lemma_is_positive(x: i8) {
    }
}

impl ExactScalar for i16 {
    open spec fn as_int(self) -> int {
        self as int
    }

    proof fn lemma_exact() {
    }

    proof fn lemma_injective(x: i16, y: i16) {
    }

    proof fn lemma_equal(x: i16, y: i16) {
    }

    proof fn lemma_plus(x: i16, y: i16) {
    }

    proof fn lemma_times(x: i16, y: i16) {
    }

    proof fn lemma_negated(x: i16) {
    }

    open spec fn is_scalar(i: int) -> bool {
        i16::MIN <= i <= i16::MAX
    }

    proof fn lemma_defined(x: i16, y: i16) {
        if y != 0 {
            if x >= 0 {
                lemma_quotient_bounds(x as int, y as int);
            } else {
                lemma_quotient_bounds(-(x as int), y as int);
            }
        }
    }

    proof fn lemma_over(x: i16, y: i16) {
        if x >= 0 {
            lemma_quotient_bounds(x as int, y as int);
        } else {
            lemma_quotient_bounds(-(x as int), y as int);
        }
    }

    proof fn lemma_is_zero(x: i16) {
    }

    proof fn lemma_is_positive(x: i16) {
    }
}

impl ExactScalar for i32 {
    open spec fn as_int(self) -> int {
        self as int
    }

    proof fn lemma_exact() {
    }

    proof fn lemma_injective(x: i32, y: i32) {
    }

    proof fn lemma_equal(x: i32, y: i32) {
    }

    proof fn lemma_plus(x: i32, y: i32) {
    }

    proof fn lemma_times(x: i32, y: i32) {
    }

    proof fn lemma_negated(x: i32) {
    }

    open spec fn is_scalar(i: int) -> bool {
        i32::MIN <= i <= i32::MAX
    }

    proof fn lemma_defined(x: i32, y: i32) {
        if y != 0 {
            if x >= 0 {
                lemma_quotient_bounds(x as int, y as int);
            } else {
                lemma_quotient_bounds(-(x as int), y as int);
            }
        }
    }

    proof fn lemma_over(x: i32, y: i32) {
        if x >= 0 {
            lemma_quotient_bounds(x as int, y as int);
        } else {
            lemma_quotient_bounds(-(x as int), y as int);
        }
    }

    proof fn lemma_is_zero(x: i32) {
    }

    proof fn lemma_is_positive(x: i32) {
    }
}

impl ExactScalar for i64 {
    open spec fn as_int(self) -> int {
        self as int
    }

    proof fn lemma_exact() {
    }

    proof fn lemma_injective(x: i64, y: i64) {
    }

    proof fn lemma_equal(x: i64, y: i64) {
    }

    proof fn lemma_plus(x: i64, y: i64) {
    }

    proof fn lemma_times(x: i64, y: i64) {
    }

    proof fn lemma_negated(x: i64) {
    }

    open spec fn is_scalar(i: int) -> bool {
        i64::MIN <= i <= i64::MAX
    }

    proof fn lemma_defined(x: i64, y: i64) {
        if y != 0 {
            if x >= 0 {
                lemma_quotient_bounds(x as int, y as int);
            } else {
                lemma_quotient_bounds(-(x as int), y as int);
            }
        }
    }

    proof fn lemma_over(x: i64, y: i64) {
        if x >= 0 {
            lemma_quotient_bounds(x as int, y as int);
        } else {
            lemma_quotient_bounds(-(x as int), y as int);
        }
    }

    proof fn lemma_is_zero(x: i64) {
    }

    proof fn lemma_is_positive(x: i64) {
    }
}

} // verus!
