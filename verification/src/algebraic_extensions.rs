use std::ops::{Add, Div, Mul, Neg};
use vstd::prelude::*;
use vstd::std_specs::cmp::PartialEqSpec;

verus! {

/// A scalar with an additive identity, a sum, a product and a negation: the
/// operations of a ring, without its axioms.
///
/// The provided functions name, for use in contracts, what the operators
/// compute and when they may be applied.
pub trait Numeric: Sized + AddIdentity + Add<Output = Self> + Mul<Output = Self> + Neg<
    Output = Self,
> {
    /// Whether `+`, `*` and unary `-` of this type are functions of their
    /// operands. The contracts of this library promise a result only for such
    /// scalars.
    open spec fn specified() -> bool {
        &&& <Self as vstd::std_specs::ops::AddSpec>::obeys_add_spec()
        &&& <Self as vstd::std_specs::ops::MulSpec>::obeys_mul_spec()
        &&& <Self as vstd::std_specs::ops::NegSpec>::obeys_neg_spec()
    }

    /// The sum `self + other`.
    open spec fn plus(self, other: Self) -> Self {
        vstd::std_specs::ops::AddSpec::add_spec(self, other)
    }

    /// Whether `self + other` may be computed.
    open spec fn can_add(self, other: Self) -> bool {
        vstd::std_specs::ops::AddSpec::add_req(self, other)
    }

    /// The product `self * other`.
    open spec fn times(self, other: Self) -> Self {
        vstd::std_specs::ops::MulSpec::mul_spec(self, other)
    }

    /// Whether `self * other` may be computed.
    open spec fn can_multiply(self, other: Self) -> bool {
        vstd::std_specs::ops::MulSpec::mul_req(self, other)
    }

    /// The negation `-self`.
    open spec fn negated(self) -> Self {
        vstd::std_specs::ops::NegSpec::neg_spec(self)
    }

    /// Whether `-self` may be computed.
    open spec fn can_negate(self) -> bool {
        vstd::std_specs::ops::NegSpec::neg_req(self)
    }
}

impl<T> Numeric for T where
    T: Sized + AddIdentity + Add<Output = T> + Mul<Output = T> + Neg<Output = T>,
 {
}

/// A type with an additive identity.
pub trait AddIdentity: Sized {
    /// The additive identity.
    spec fn zero_spec() -> Self;

    fn zero() -> (r: Self)
        ensures
            r == Self::zero_spec(),
    ;
}

/// A type in which being zero can be tested, exactly or within a tolerance.
pub trait NumericAddIdentity: AddIdentity {
    /// The type in which a tolerance is given.
    type Tolerance: Copy;

    /// A tolerance is well formed when it is absent or not negative.
    spec fn tolerance_well_formed(numerical_threshold: Option<Self::Tolerance>) -> bool;

    /// Whether `self` counts as zero: with a tolerance, when its absolute value
    /// does not exceed the tolerance; without one, when it is the additive
    /// identity.
    spec fn is_zero_spec(&self, numerical_threshold: Option<Self::Tolerance>) -> bool;

    /// The tolerance that is applied where a caller cannot give one.
    spec fn default_threshold_spec() -> Option<Self::Tolerance>;

    fn default_threshold() -> (r: Option<Self::Tolerance>)
        ensures
            r == Self::default_threshold_spec(),
    ;

    fn is_zero(&self, numerical_threshold: Option<Self::Tolerance>) -> (r: bool)
        ensures
            r == self.is_zero_spec(numerical_threshold),
    ;

    /// The additive identity counts as zero under every well-formed tolerance.
    proof fn lemma_zero_is_zero(numerical_threshold: Option<Self::Tolerance>)
        requires
            Self::tolerance_well_formed(numerical_threshold),
        ensures
            Self::zero_spec().is_zero_spec(numerical_threshold),
    ;

    /// Without a tolerance, the additive identity alone counts as zero.
    proof fn lemma_exactly_zero(&self)
        ensures
            self.is_zero_spec(None) == (*self == Self::zero_spec()),
    ;

    /// The default tolerance is well formed.
    proof fn lemma_default_threshold_well_formed()
        ensures
            Self::tolerance_well_formed(Self::default_threshold_spec()),
    ;
}

/// A type with a multiplicative identity.
pub trait MulIdentity: Sized {
    /// The multiplicative identity.
    spec fn one_spec() -> Self;

    fn one() -> (r: Self)
        ensures
            r == Self::one_spec(),
    ;
}

/// A type in which being one can be tested, exactly or within a tolerance.
pub trait NumericMulIdentity: MulIdentity + NumericAddIdentity {
    /// Whether `self` counts as one: whether its difference from the
    /// multiplicative identity counts as zero.
    spec fn is_one_spec(&self, numerical_threshold: Option<Self::Tolerance>) -> bool;

    fn is_one(&self, numerical_threshold: Option<Self::Tolerance>) -> (r: bool)
        ensures
            r == self.is_one_spec(numerical_threshold),
    ;

    /// The multiplicative identity counts as one under every well-formed
    /// tolerance.
    proof fn lemma_one_is_one(numerical_threshold: Option<Self::Tolerance>)
        requires
            Self::tolerance_well_formed(numerical_threshold),
        ensures
            Self::one_spec().is_one_spec(numerical_threshold),
    ;

    /// Without a tolerance, the multiplicative identity alone counts as one.
    proof fn lemma_exactly_one(&self)
        ensures
            self.is_one_spec(None) == (*self == Self::one_spec()),
    ;
}

/// A type whose values can tell whether they have an inverse.
pub trait NumericInvertible: Sized {
    spec fn is_invertible_spec(&self) -> bool;

    fn is_invertible(&self) -> (r: bool)
        ensures
            r == self.is_invertible_spec(),
    ;
}

/// A type whose values may have an inverse.
pub trait Inverse: Sized {
    type Error;

    /// Whether the inverse may be asked for.
    spec fn inverse_defined(&self) -> bool;

    /// The inverse, or the reason why there is none.
    spec fn inverse_spec(&self) -> Result<Self, Self::Error>;

    fn inverse(&self) -> (r: Result<Self, Self::Error>)
        requires
            self.inverse_defined(),
        ensures
            r == self.inverse_spec(),
    ;
}

/// A scalar with a square root, taken of the absolute value.
pub trait SquareRoot: Sized {
    /// The square root of the absolute value of `self`.
    spec fn square_root_spec(&self) -> Self;

    fn square_root(&self) -> (r: Self)
        ensures
            r == self.square_root_spec(),
    ;
}

/// A scalar that has a sign.
pub trait Signed: Sized {
    /// The sign of `self`, as a scalar.
    spec fn signed_spec(&self) -> Self;

    fn signed(&self) -> (r: Self)
        ensures
            r == self.signed_spec(),
    ;
}

/// A scalar that can tell whether it is strictly positive.
pub trait IsPositive: Sized {
    /// Whether `self` is strictly positive.
    spec fn is_positive_spec(&self) -> bool;

    fn is_positive(&self) -> (r: bool)
        ensures
            r == self.is_positive_spec(),
    ;
}

/// A scalar with a multiplicative identity, a product and a quotient.
///
/// The provided functions name, for use in contracts, what the division
/// computes and when it may be applied.
pub trait MuliplicativeNumeric: Sized + MulIdentity + Mul<Output = Self> + Div<Output = Self> {
    /// Whether `/` of this type is a function of its operands.
    open spec fn division_specified() -> bool {
        <Self as vstd::std_specs::ops::DivSpec>::obeys_div_spec()
    }

    /// The quotient `self / other`.
    open spec fn over(self, other: Self) -> Self {
        vstd::std_specs::ops::DivSpec::div_spec(self, other)
    }

    /// Whether `self / other` may be computed.
    open spec fn can_divide(self, other: Self) -> bool {
        vstd::std_specs::ops::DivSpec::div_req(self, other)
    }
}

impl<T> MuliplicativeNumeric for T where
    T: Sized + MulIdentity + Mul<Output = T> + Div<Output = T>,
 {
}

/// A group in the mathematical sense, but for the associativity law, which
/// `associativity_check` tests on given elements.
pub trait Group: Sized {
    /// Whether `self` and `other` may be combined.
    spec fn combine_defined(&self, other: &Self) -> bool;

    /// The result of the binary operation.
    spec fn combine_spec(&self, other: &Self) -> Self;

    /// The identity element.
    spec fn identity_spec() -> Self;

    /// Whether the inverse of `self` may be computed.
    spec fn inv_defined(&self) -> bool;

    /// The inverse element.
    spec fn inv_spec(&self) -> Self;

    /// The binary operation.
    fn combine(&self, other: &Self) -> (r: Self)
        requires
            self.combine_defined(other),
        ensures
            r == self.combine_spec(other),
    ;

    /// The identity element.
    fn identity() -> (r: Self)
        ensures
            r == Self::identity_spec(),
    ;

    /// The inverse element.
    fn inv(&self) -> (r: Self)
        requires
            self.inv_defined(),
        ensures
            r == self.inv_spec(),
    ;

    /// Tests the associativity law on `self`, `b` and `c`.
    fn associativity_check(&self, b: &Self, c: &Self) -> (r: bool) where Self: PartialEq
        requires
            self.combine_defined(b),
            self.combine_spec(b).combine_defined(c),
            b.combine_defined(c),
            self.combine_defined(&b.combine_spec(c)),
        ensures
            Self::obeys_eq_spec() ==> r == self.combine_spec(b).combine_spec(c).eq_spec(
                &self.combine_spec(&b.combine_spec(c)),
            ),
    {
        let ab_c = self.combine(b).combine(c);
        let a_bc = self.combine(&b.combine(c));
        ab_c == a_bc
    }
}

impl AddIdentity for i8 {
    open spec fn zero_spec() -> i8 {
        0
    }

    fn zero() -> (r: i8) {
        0
    }
}

impl NumericAddIdentity for i8 {
    type Tolerance = i8;

    open spec fn tolerance_well_formed(numerical_threshold: Option<i8>) -> bool {
        match numerical_threshold {
            Some(tolerance) => tolerance >= 0,
            None => true,
        }
    }

    open spec fn is_zero_spec(&self, numerical_threshold: Option<i8>) -> bool {
        match numerical_threshold {
            Some(tolerance) => vstd::math::abs(*self as int) <= tolerance,
            None => *self == 0,
        }
    }

    open spec fn default_threshold_spec() -> Option<i8> {
        Some(0)
    }

    fn default_threshold() -> (r: Option<i8>) {
        Some(0)
    }

    fn is_zero(&self, numerical_threshold: Option<i8>) -> (r: bool) {
        match numerical_threshold {
            Some(tolerance) => tolerance >= 0 && -tolerance <= *self && *self <= tolerance,
            None => *self == 0,
        }
    }

    proof fn lemma_zero_is_zero(numerical_threshold: Option<i8>) {
    }

    proof fn lemma_exactly_zero(&self) {
    }

    proof fn lemma_default_threshold_well_formed() {
    }
}

impl MulIdentity for i8 {
    open spec fn one_spec() -> i8 {
        1
    }

    fn one() -> (r: i8) {
        1
    }
}

impl NumericMulIdentity for i8 {
    open spec fn is_one_spec(&self, numerical_threshold: Option<i8>) -> bool {
        match numerical_threshold {
            Some(tolerance) => vstd::math::abs(*self - 1) <= tolerance,
            None => *self == 1,
        }
    }

    fn is_one(&self, numerical_threshold: Option<i8>) -> (r: bool) {
        match numerical_threshold {
            Some(tolerance) => tolerance >= 0 && 1 - tolerance <= *self && (tolerance == i8::MAX
                || *self <= 1 + tolerance),
            None => *self == 1,
        }
    }

    proof fn lemma_one_is_one(numerical_threshold: Option<i8>) {
    }

    proof fn lemma_exactly_one(&self) {
    }
}

impl IsPositive for i8 {
    open spec fn is_positive_spec(&self) -> bool {
        *self > 0
    }

    fn is_positive(&self) -> (r: bool) {
        *self > 0
    }
}

impl AddIdentity for i16 {
    open spec fn zero_spec() -> i16 {
        0
    }

    fn zero() -> (r: i16) {
        0
    }
}

impl NumericAddIdentity for i16 {
    type Tolerance = i16;

    open spec fn tolerance_well_formed(numerical_threshold: Option<i16>) -> bool {
        match numerical_threshold {
            Some(tolerance) => tolerance >= 0,
            None => true,
        }
    }

    open spec fn is_zero_spec(&self, numerical_threshold: Option<i16>) -> bool {
        match numerical_threshold {
            Some(tolerance) => vstd::math::abs(*self as int) <= tolerance,
            None => *self == 0,
        }
    }

    open spec fn default_threshold_spec() -> Option<i16> {
        Some(0)
    }

    fn default_threshold() -> (r: Option<i16>) {
        Some(0)
    }

    fn is_zero(&self, numerical_threshold: Option<i16>) -> (r: bool) {
        match numerical_threshold {
            Some(tolerance) => tolerance >= 0 && -tolerance <= *self && *self <= tolerance,
            None => *self == 0,
        }
    }

    proof fn lemma_zero_is_zero(numerical_threshold: Option<i16>) {
    }

    proof fn lemma_exactly_zero(&self) {
    }

    proof fn lemma_default_threshold_well_formed() {
    }
}

impl MulIdentity for i16 {
    open spec fn one_spec() -> i16 {
        1
    }

    fn one() -> (r: i16) {
        1
    }
}

impl NumericMulIdentity for i16 {
    open spec fn is_one_spec(&self, numerical_threshold: Option<i16>) -> bool {
        match numerical_threshold {
            Some(tolerance) => vstd::math::abs(*self - 1) <= tolerance,
            None => *self == 1,
        }
    }

    fn is_one(&self, numerical_threshold: Option<i16>) -> (r: bool) {
        match numerical_threshold {
            Some(tolerance) => tolerance >= 0 && 1 - tolerance <= *self && (tolerance == i16::MAX
                || *self <= 1 + tolerance),
            None => *self == 1,
        }
    }

    proof fn lemma_one_is_one(numerical_threshold: Option<i16>) {
    }

    proof fn lemma_exactly_one(&self) {
    }
}

impl IsPositive for i16 {
    open spec fn is_positive_spec(&self) -> bool {
        *self > 0
    }

    fn is_positive(&self) -> (r: bool) {
        *self > 0
    }
}

impl AddIdentity for i32 {
    open spec fn zero_spec() -> i32 {
        0
    }

    fn zero() -> (r: i32) {
        0
    }
}

impl NumericAddIdentity for i32 {
    type Tolerance = i32;

    open spec fn tolerance_well_formed(numerical_threshold: Option<i32>) -> bool {
        match numerical_threshold {
            Some(tolerance) => tolerance >= 0,
            None => true,
        }
    }

    open spec fn is_zero_spec(&self, numerical_threshold: Option<i32>) -> bool {
        match numerical_threshold {
            Some(tolerance) => vstd::math::abs(*self as int) <= tolerance,
            None => *self == 0,
        }
    }

    open spec fn default_threshold_spec() -> Option<i32> {
        Some(0)
    }

    fn default_threshold() -> (r: Option<i32>) {
        Some(0)
    }

    fn is_zero(&self, numerical_threshold: Option<i32>) -> (r: bool) {
        match numerical_threshold {
            Some(tolerance) => tolerance >= 0 && -tolerance <= *self && *self <= tolerance,
            None => *self == 0,
        }
    }

    proof fn lemma_zero_is_zero(numerical_threshold: Option<i32>) {
    }

    proof fn lemma_exactly_zero(&self) {
    }

    proof fn lemma_default_threshold_well_formed() {
    }
}

impl MulIdentity for i32 {
    open spec fn one_spec() -> i32 {
        1
    }

    fn one() -> (r: i32) {
        1
    }
}

impl NumericMulIdentity for i32 {
    open spec fn is_one_spec(&self, numerical_threshold: Option<i32>) -> bool {
        match numerical_threshold {
            Some(tolerance) => vstd::math::abs(*self - 1) <= tolerance,
            None => *self == 1,
        }
    }

    fn is_one(&self, numerical_threshold: Option<i32>) -> (r: bool) {
        match numerical_threshold {
            Some(tolerance) => tolerance >= 0 && 1 - tolerance <= *self && (tolerance == i32::MAX
                || *self <= 1 + tolerance),
            None => *self == 1,
        }
    }

    proof fn lemma_one_is_one(numerical_threshold: Option<i32>) {
    }

    proof fn lemma_exactly_one(&self) {
    }
}

impl IsPositive for i32 {
    open spec fn is_positive_spec(&self) -> bool {
        *self > 0
    }

    fn is_positive(&self) -> (r: bool) {
        *self > 0
    }
}

impl AddIdentity for i64 {
    open spec fn zero_spec() -> i64 {
        0
    }

    fn zero() -> (r: i64) {
        0
    }
}

impl NumericAddIdentity for i64 {
    type Tolerance = i64;

    open spec fn tolerance_well_formed(numerical_threshold: Option<i64>) -> bool {
        match numerical_threshold {
            Some(tolerance) => tolerance >= 0,
            None => true,
        }
    }

    open spec fn is_zero_spec(&self, numerical_threshold: Option<i64>) -> bool {
        match numerical_threshold {
            Some(tolerance) => vstd::math::abs(*self as int) <= tolerance,
            None => *self == 0,
        }
    }

    open spec fn default_threshold_spec() -> Option<i64> {
        Some(0)
    }

    fn default_threshold() -> (r: Option<i64>) {
        Some(0)
    }

    fn is_zero(&self, numerical_threshold: Option<i64>) -> (r: bool) {
        match numerical_threshold {
            Some(tolerance) => tolerance >= 0 && -tolerance <= *self && *self <= tolerance,
            None => *self == 0,
        }
    }

    proof fn lemma_zero_is_zero(numerical_threshold: Option<i64>) {
    }

    proof fn lemma_exactly_zero(&self) {
    }

    proof fn lemma_default_threshold_well_formed() {
    }
}

impl MulIdentity for i64 {
    open spec fn one_spec() -> i64 {
        1
    }

    fn one() -> (r: i64) {
        1
    }
}

impl NumericMulIdentity for i64 {
    open spec fn is_one_spec(&self, numerical_threshold: Option<i64>) -> bool {
        match numerical_threshold {
            Some(tolerance) => vstd::math::abs(*self - 1) <= tolerance,
            None => *self == 1,
        }
    }

    fn is_one(&self, numerical_threshold: Option<i64>) -> (r: bool) {
        match numerical_threshold {
            Some(tolerance) => tolerance >= 0 && 1 - tolerance <= *self && (tolerance == i64::MAX
                || *self <= 1 + tolerance),
            None => *self == 1,
        }
    }

    proof fn lemma_one_is_one(numerical_threshold: Option<i64>) {
    }

    proof fn lemma_exactly_one(&self) {
    }
}

impl IsPositive for i64 {
    open spec fn is_positive_spec(&self) -> bool {
        *self > 0
    }

    fn is_positive(&self) -> (r: bool) {
        *self > 0
    }
}

} // verus!
