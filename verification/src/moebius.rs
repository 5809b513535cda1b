use crate::algebraic_extensions::{
    AddIdentity, Inverse, MulIdentity, MuliplicativeNumeric, Numeric, NumericAddIdentity,
    NumericMulIdentity,
};
use std::ops::{Add, Div, Mul, Neg, Sub};
use vstd::prelude::*;
use vstd::std_specs::cmp::PartialEqSpec;

verus! {

/// The 2x2 matrix `[a, b; c, d]`, which stands for the map
/// `z -> (a*z + b) / (c*z + d)`.
///
/// Any four scalars make a transformation: the type has no invariant.
#[derive(Clone, Copy, Debug, Hash)]
pub struct MoebiusTransformation<T> {
    pub a: T,
    pub b: T,
    pub c: T,
    pub d: T,
}

impl<T> MoebiusTransformation<T> {
    pub fn new(a: T, b: T, c: T, d: T) -> (m: Self)
        ensures
            m == (MoebiusTransformation { a, b, c, d }),
    {
        Self { a, b, c, d }
    }

    /// `a*a + b*b + c*c + d*d`, summed from the left.
    pub open spec fn squared_sum_spec(&self) -> T where T: Numeric {
        self.a.times(self.a).plus(self.b.times(self.b)).plus(self.c.times(self.c)).plus(
            self.d.times(self.d),
        )
    }

    /// Whether every step of `squared_sum` may be computed.
    pub open spec fn squared_sum_defined(&self) -> bool where T: Numeric {
        &&& T::specified()
        &&& self.a.can_multiply(self.a)
        &&& self.b.can_multiply(self.b)
        &&& self.c.can_multiply(self.c)
        &&& self.d.can_multiply(self.d)
        &&& self.a.times(self.a).can_add(self.b.times(self.b))
        &&& self.a.times(self.a).plus(self.b.times(self.b)).can_add(self.c.times(self.c))
        &&& self.a.times(self.a).plus(self.b.times(self.b)).plus(self.c.times(self.c)).can_add(
            self.d.times(self.d),
        )
    }

    /// The square of the length of the matrix in the vector space of 2x2
    /// matrices.
    pub fn squared_sum(&self) -> (r: T) where T: Numeric + Copy
        requires
            self.squared_sum_defined(),
        ensures
            r == self.squared_sum_spec(),
    {
        self.a.mul(self.a).add(self.b.mul(self.b)).add(self.c.mul(self.c)).add(
            self.d.mul(self.d),
        )
    }

    /// `a*d - b*c`, computed as `a*d + (-(b*c))`.
    pub open spec fn determinant_spec(&self) -> T where T: Numeric {
        self.a.times(self.d).plus(self.b.times(self.c).negated())
    }

    /// Whether every step of `determinant` may be computed.
    pub open spec fn determinant_defined(&self) -> bool where T: Numeric {
        &&& T::specified()
        &&& self.a.can_multiply(self.d)
        &&& self.b.can_multiply(self.c)
        &&& self.b.times(self.c).can_negate()
        &&& self.a.times(self.d).can_add(self.b.times(self.c).negated())
    }

    pub fn determinant(&self) -> (r: T) where T: Numeric + Copy
        requires
            self.determinant_defined(),
        ensures
            r == self.determinant_spec(),
    {
        self.a.mul(self.d).add(self.b.mul(self.c).neg())
    }

    /// A transformation is invertible when its determinant does not count as
    /// zero.
    pub open spec fn is_invertible_spec(&self, threshold: Option<T::Tolerance>) -> bool where
        T: Numeric + NumericAddIdentity,
     {
        !self.determinant_spec().is_zero_spec(threshold)
    }

    pub fn is_invertible(&self, threshold: Option<T::Tolerance>) -> (r: bool) where
        T: Numeric + NumericAddIdentity + Copy,

        requires
            self.determinant_defined(),
        ensures
            r == self.is_invertible_spec(threshold),
    {
        !self.determinant().is_zero(threshold)
    }

    /// The adjugate divided by the determinant, entry by entry, where the
    /// transformation is invertible.
    pub open spec fn inverse_spec(&self, threshold: Option<T::Tolerance>) -> Option<Self> where
        T: Numeric + MuliplicativeNumeric + NumericAddIdentity,
     {
        if self.is_invertible_spec(threshold) {
            let det = self.determinant_spec();
            Some(
                MoebiusTransformation {
                    a: self.d.over(det),
                    b: self.b.negated().over(det),
                    c: self.c.negated().over(det),
                    d: self.a.over(det),
                },
            )
        } else {
            None
        }
    }

    /// Whether every step of `inverse` may be computed.
    pub open spec fn inverse_defined(&self, threshold: Option<T::Tolerance>) -> bool where
        T: Numeric + MuliplicativeNumeric + NumericAddIdentity,
     {
        &&& T::division_specified()
        &&& self.determinant_defined()
        &&& self.is_invertible_spec(threshold) ==> {
            let det = self.determinant_spec();
            &&& self.d.can_divide(det)
            &&& self.b.can_negate()
            &&& self.b.negated().can_divide(det)
            &&& self.c.can_negate()
            &&& self.c.negated().can_divide(det)
            &&& self.a.can_divide(det)
        }
    }

    pub fn inverse(&self, threshold: Option<T::Tolerance>) -> (r: Option<Self>) where
        T: Numeric + MuliplicativeNumeric + NumericAddIdentity + Copy,

        requires
            self.inverse_defined(threshold),
        ensures
            r == self.inverse_spec(threshold),
    {
        if self.is_invertible(threshold) {
            let det = self.determinant();
            return Some(
                Self {
                    a: self.d.div(det),
                    b: self.b.neg().div(det),
                    c: self.c.neg().div(det),
                    d: self.a.div(det),
                },
            );
        }
        None
    }
}

impl<T: PartialEq> MoebiusTransformation<T> {
    /// Two transformations are equal when their entries are.
    pub open spec fn equals_spec(&self, other: &Self) -> bool {
        &&& self.a.eq_spec(&other.a)
        &&& self.b.eq_spec(&other.b)
        &&& self.c.eq_spec(&other.c)
        &&& self.d.eq_spec(&other.d)
    }

    /// Whether the two transformations are equal: what `==` computes.
    pub fn equals(&self, other: &Self) -> (r: bool)
        ensures
            T::obeys_eq_spec() ==> r == self.equals_spec(other),
    {
        self.a == other.a && self.b == other.b && self.c == other.c && self.d == other.d
    }
}

impl<T: PartialEq> PartialEq for MoebiusTransformation<T> {
    fn eq(&self, other: &Self) -> (r: bool) {
        self.equals(other)
    }
}

impl<T: PartialEq> vstd::std_specs::cmp::PartialEqSpecImpl for MoebiusTransformation<T> {
    open spec fn obeys_eq_spec() -> bool {
        T::obeys_eq_spec()
    }

    open spec fn eq_spec(&self, other: &Self) -> bool {
        self.equals_spec(other)
    }
}

impl<T: PartialEq> Eq for MoebiusTransformation<T> {

}

/// The matrix `[0, 0; 0, 0]`.
impl<T: AddIdentity> AddIdentity for MoebiusTransformation<T> {
    open spec fn zero_spec() -> Self {
        MoebiusTransformation {
            a: T::zero_spec(),
            b: T::zero_spec(),
            c: T::zero_spec(),
            d: T::zero_spec(),
        }
    }

    fn zero() -> (r: Self) {
        MoebiusTransformation::new(T::zero(), T::zero(), T::zero(), T::zero())
    }
}

impl<T: NumericAddIdentity> NumericAddIdentity for MoebiusTransformation<T> {
    type Tolerance = T::Tolerance;

    open spec fn tolerance_well_formed(numerical_threshold: Option<T::Tolerance>) -> bool {
        T::tolerance_well_formed(numerical_threshold)
    }

    /// A matrix counts as zero when each of its entries does.
    open spec fn is_zero_spec(&self, numerical_threshold: Option<T::Tolerance>) -> bool {
        &&& self.a.is_zero_spec(numerical_threshold)
        &&& self.b.is_zero_spec(numerical_threshold)
        &&& self.c.is_zero_spec(numerical_threshold)
        &&& self.d.is_zero_spec(numerical_threshold)
    }

    open spec fn default_threshold_spec() -> Option<T::Tolerance> {
        T::default_threshold_spec()
    }

    fn default_threshold() -> (r: Option<T::Tolerance>) {
        T::default_threshold()
    }

    fn is_zero(&self, numerical_threshold: Option<T::Tolerance>) -> (r: bool) {
        self.a.is_zero(numerical_threshold) && self.b.is_zero(numerical_threshold)
            && self.c.is_zero(numerical_threshold) && self.d.is_zero(numerical_threshold)
    }

    proof fn lemma_zero_is_zero(numerical_threshold: Option<T::Tolerance>) {
        T::lemma_zero_is_zero(numerical_threshold);
    }

    proof fn lemma_exactly_zero(&self) {
        self.a.lemma_exactly_zero();
        self.b.lemma_exactly_zero();
        self.c.lemma_exactly_zero();
        self.d.lemma_exactly_zero();
    }

    proof fn lemma_default_threshold_well_formed() {
        T::lemma_default_threshold_well_formed();
    }
}

/// The matrix `[1, 0; 0, 1]`.
impl<T: MulIdentity + AddIdentity> MulIdentity for MoebiusTransformation<T> {
    open spec fn one_spec() -> Self {
        MoebiusTransformation {
            a: T::one_spec(),
            b: T::zero_spec(),
            c: T::zero_spec(),
            d: T::one_spec(),
        }
    }

    fn one() -> (r: Self) {
        MoebiusTransformation::new(T::one(), T::zero(), T::zero(), T::one())
    }
}

impl<T: NumericMulIdentity> NumericMulIdentity for MoebiusTransformation<T> {
    /// A matrix counts as the identity when its diagonal entries count as one
    /// and the others as zero.
    open spec fn is_one_spec(&self, numerical_threshold: Option<T::Tolerance>) -> bool {
        &&& self.a.is_one_spec(numerical_threshold)
        &&& self.b.is_zero_spec(numerical_threshold)
        &&& self.c.is_zero_spec(numerical_threshold)
        &&& self.d.is_one_spec(numerical_threshold)
    }

    fn is_one(&self, numerical_threshold: Option<T::Tolerance>) -> (r: bool) {
        self.a.is_one(numerical_threshold) && self.b.is_zero(numerical_threshold)
            && self.c.is_zero(numerical_threshold) && self.d.is_one(numerical_threshold)
    }

    proof fn lemma_one_is_one(numerical_threshold: Option<T::Tolerance>) {
        T::lemma_one_is_one(numerical_threshold);
        T::lemma_zero_is_zero(numerical_threshold);
    }

    proof fn lemma_exactly_one(&self) {
        self.a.lemma_exactly_one();
        self.b.lemma_exactly_zero();
        self.c.lemma_exactly_zero();
        self.d.lemma_exactly_one();
    }
}

impl<T: Numeric> MoebiusTransformation<T> {
    /// The sum, taken entry by entry.
    pub open spec fn sum_spec(self, other: Self) -> Self {
        MoebiusTransformation {
            a: self.a.plus(other.a),
            b: self.b.plus(other.b),
            c: self.c.plus(other.c),
            d: self.d.plus(other.d),
        }
    }

    /// Whether every entry of the sum may be computed.
    pub open spec fn sum_defined(self, other: Self) -> bool {
        &&& self.a.can_add(other.a)
        &&& self.b.can_add(other.b)
        &&& self.c.can_add(other.c)
        &&& self.d.can_add(other.d)
    }

    /// The sum of two matrices: what `+` computes.
    pub fn sum(self, other: Self) -> (r: Self)
        requires
            self.sum_defined(other),
        ensures
            T::specified() ==> r == self.sum_spec(other),
    {
        Self {
            a: self.a.add(other.a),
            b: self.b.add(other.b),
            c: self.c.add(other.c),
            d: self.d.add(other.d),
        }
    }

    /// The negation, taken entry by entry.
    pub open spec fn negation_spec(self) -> Self {
        MoebiusTransformation {
            a: self.a.negated(),
            b: self.b.negated(),
            c: self.c.negated(),
            d: self.d.negated(),
        }
    }

    /// Whether every entry of the negation may be computed.
    pub open spec fn negation_defined(self) -> bool {
        &&& self.a.can_negate()
        &&& self.b.can_negate()
        &&& self.c.can_negate()
        &&& self.d.can_negate()
    }

    /// The negation of a matrix: what unary `-` computes.
    pub fn negation(self) -> (r: Self)
        requires
            self.negation_defined(),
        ensures
            T::specified() ==> r == self.negation_spec(),
    {
        Self { a: self.a.neg(), b: self.b.neg(), c: self.c.neg(), d: self.d.neg() }
    }

    /// The difference: the sum with the negation of `other`.
    pub open spec fn difference_spec(self, other: Self) -> Self {
        self.sum_spec(other.negation_spec())
    }

    /// Whether every step of the difference may be computed.
    pub open spec fn difference_defined(self, other: Self) -> bool {
        &&& T::specified()
        &&& other.negation_defined()
        &&& self.sum_defined(other.negation_spec())
    }

    /// The difference of two matrices: what binary `-` computes.
    pub fn difference(self, other: Self) -> (r: Self)
        requires
            self.difference_defined(other),
        ensures
            r == self.difference_spec(other),
    {
        self.sum(other.negation())
    }

    /// The product of the two matrices, rows by columns: the composition of
    /// the two maps, `other` applied first.
    pub open spec fn product_spec(self, other: Self) -> Self {
        MoebiusTransformation {
            a: self.a.times(other.a).plus(self.b.times(other.c)),
            b: self.a.times(other.b).plus(self.b.times(other.d)),
            c: self.c.times(other.a).plus(self.d.times(other.c)),
            d: self.c.times(other.b).plus(self.d.times(other.d)),
        }
    }

    /// Whether every step of the product may be computed.
    pub open spec fn product_defined(self, other: Self) -> bool {
        &&& T::specified()
        &&& self.a.can_multiply(other.a)
        &&& self.b.can_multiply(other.c)
        &&& self.a.times(other.a).can_add(self.b.times(other.c))
        &&& self.a.can_multiply(other.b)
        &&& self.b.can_multiply(other.d)
        &&& self.a.times(other.b).can_add(self.b.times(other.d))
        &&& self.c.can_multiply(other.a)
        &&& self.d.can_multiply(other.c)
        &&& self.c.times(other.a).can_add(self.d.times(other.c))
        &&& self.c.can_multiply(other.b)
        &&& self.d.can_multiply(other.d)
        &&& self.c.times(other.b).can_add(self.d.times(other.d))
    }

    /// The product of two matrices: what `*` computes between them.
    pub fn product(self, other: Self) -> (r: Self) where T: Copy
        requires
            self.product_defined(other),
        ensures
            r == self.product_spec(other),
    {
        Self {
            a: self.a.mul(other.a).add(self.b.mul(other.c)),
            b: self.a.mul(other.b).add(self.b.mul(other.d)),
            c: self.c.mul(other.a).add(self.d.mul(other.c)),
            d: self.c.mul(other.b).add(self.d.mul(other.d)),
        }
    }

    /// Each entry multiplied by the scalar, the scalar standing on the left.
    pub open spec fn scaled_spec(self, factor: T) -> Self {
        MoebiusTransformation {
            a: factor.times(self.a),
            b: factor.times(self.b),
            c: factor.times(self.c),
            d: factor.times(self.d),
        }
    }

    /// Whether every entry may be multiplied by the scalar.
    pub open spec fn scaled_defined(self, factor: T) -> bool {
        &&& factor.can_multiply(self.a)
        &&& factor.can_multiply(self.b)
        &&& factor.can_multiply(self.c)
        &&& factor.can_multiply(self.d)
    }

    /// The matrix times a scalar: what `*` computes with a scalar on the
    /// right.
    pub fn scaled(self, factor: T) -> (r: Self) where T: Copy
        requires
            self.scaled_defined(factor),
        ensures
            T::specified() ==> r == self.scaled_spec(factor),
    {
        Self {
            a: factor.mul(self.a),
            b: factor.mul(self.b),
            c: factor.mul(self.c),
            d: factor.mul(self.d),
        }
    }
}

impl<T: Numeric> Add for MoebiusTransformation<T> {
    type Output = Self;

    fn add(self, other: Self) -> (r: Self) {
        self.sum(other)
    }
}

impl<T: Numeric> vstd::std_specs::ops::AddSpecImpl for MoebiusTransformation<T> {
    open spec fn obeys_add_spec() -> bool {
        T::specified()
    }

    open spec fn add_req(self, other: Self) -> bool {
        self.sum_defined(other)
    }

    open spec fn add_spec(self, other: Self) -> Self {
        self.sum_spec(other)
    }
}

impl<T: Numeric> Neg for MoebiusTransformation<T> {
    type Output = Self;

    fn neg(self) -> (r: Self) {
        self.negation()
    }
}

impl<T: Numeric> vstd::std_specs::ops::NegSpecImpl for MoebiusTransformation<T> {
    open spec fn obeys_neg_spec() -> bool {
        T::specified()
    }

    open spec fn neg_req(self) -> bool {
        self.negation_defined()
    }

    open spec fn neg_spec(self) -> Self {
        self.negation_spec()
    }
}

impl<T: Numeric> Sub for MoebiusTransformation<T> {
    type Output = Self;

    fn sub(self, other: Self) -> (r: Self) {
        self.difference(other)
    }
}

impl<T: Numeric> vstd::std_specs::ops::SubSpecImpl for MoebiusTransformation<T> {
    open spec fn obeys_sub_spec() -> bool {
        true
    }

    open spec fn sub_req(self, other: Self) -> bool {
        self.difference_defined(other)
    }

    open spec fn sub_spec(self, other: Self) -> Self {
        self.difference_spec(other)
    }
}

impl<T: Numeric + Copy> Mul for MoebiusTransformation<T> {
    type Output = Self;

    fn mul(self, other: Self) -> (r: Self) {
        self.product(other)
    }
}

impl<T: Numeric + Copy> vstd::std_specs::ops::MulSpecImpl for MoebiusTransformation<T> {
    open spec fn obeys_mul_spec() -> bool {
        true
    }

    open spec fn mul_req(self, other: Self) -> bool {
        self.product_defined(other)
    }

    open spec fn mul_spec(self, other: Self) -> Self {
        self.product_spec(other)
    }
}

impl<T: Numeric + Copy> Mul<T> for MoebiusTransformation<T> {
    type Output = Self;

    fn mul(self, rhs: T) -> (r: Self) {
        self.scaled(rhs)
    }
}

impl<T: Numeric + Copy> vstd::std_specs::ops::MulSpecImpl<T> for MoebiusTransformation<T> {
    open spec fn obeys_mul_spec() -> bool {
        T::specified()
    }

    open spec fn mul_req(self, rhs: T) -> bool {
        self.scaled_defined(rhs)
    }

    open spec fn mul_spec(self, rhs: T) -> Self {
        self.scaled_spec(rhs)
    }
}

/// Inversion under the default tolerance, with a reason where it fails.
impl<T: Numeric + MuliplicativeNumeric + NumericAddIdentity + Copy> Inverse for MoebiusTransformation<
    T,
> {
    type Error = &'static str;

    open spec fn inverse_defined(&self) -> bool {
        self.inverse_defined(T::default_threshold_spec())
    }

    open spec fn inverse_spec(&self) -> Result<Self, &'static str> {
        match self.inverse_spec(T::default_threshold_spec()) {
            Some(m) => Ok(m),
            None => Err("Moebius transformation is not invertible. Determinant is zero within the default tolerance"),
        }
    }

    fn inverse(&self) -> (r: Result<Self, &'static str>) {
        if let Some(m) = self.inverse(T::default_threshold()) {
            return Ok(m);
        }
        Err("Moebius transformation is not invertible. Determinant is zero within the default tolerance")
    }
}

} // verus!
