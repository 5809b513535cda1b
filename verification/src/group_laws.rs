use crate::algebraic_extensions::{
    AddIdentity, Group, IsPositive, MulIdentity, MuliplicativeNumeric, Numeric,
    NumericAddIdentity, SquareRoot,
};
use crate::exact::ExactScalar;
use crate::fuchsian_group::SpecialLinearMoebiusTransformation;
use crate::moebius::MoebiusTransformation;
use crate::set_extensions::{SetRestriction, Wrapper};
use vstd::prelude::*;
use vstd::std_specs::cmp::PartialEqSpec;

verus! {

impl MoebiusTransformation<int> {
    /// The product of two matrices of integers.
    pub open spec fn int_product(self, other: Self) -> Self {
        MoebiusTransformation {
            a: self.a * other.a + self.b * other.c,
            b: self.a * other.b + self.b * other.d,
            c: self.c * other.a + self.d * other.c,
            d: self.c * other.b + self.d * other.d,
        }
    }

    /// The determinant of a matrix of integers.
    pub open spec fn int_det(self) -> int {
        self.a * self.d - self.b * self.c
    }

    /// The determinant of a product is the product of the determinants.
    pub proof fn lemma_determinant_of_product(self, other: Self)
        ensures
            self.int_product(other).int_det() == self.int_det() * other.int_det(),
    {
        let a = self.a;
        let b = self.b;
        let c = self.c;
        let d = self.d;
        let p = other.a;
        let q = other.b;
        let r = other.c;
        let s = other.d;
        let x = a * p;
        let y = b * r;
        let z = c * q;
        let w = d * s;
        assert((x + y) * (z + w) == x * z + x * w + y * z + y * w) by (nonlinear_arith);
        let x2 = a * q;
        let y2 = b * s;
        let z2 = c * p;
        let w2 = d * r;
        assert((x2 + y2) * (z2 + w2) == x2 * z2 + x2 * w2 + y2 * z2 + y2 * w2)
            by (nonlinear_arith);
        let u = a * d;
        let v = b * c;
        let g = p * s;
        let h = q * r;
        assert((u - v) * (g - h) == u * g - u * h - v * g + v * h) by (nonlinear_arith);
        assert((a * p) * (c * q) == (a * q) * (c * p)) by (nonlinear_arith);
        assert((b * r) * (d * s) == (b * s) * (d * r)) by (nonlinear_arith);
        assert((a * p) * (d * s) == (a * d) * (p * s)) by (nonlinear_arith);
        assert((b * r) * (c * q) == (b * c) * (q * r)) by (nonlinear_arith);
        assert((a * q) * (d * r) == (a * d) * (q * r)) by (nonlinear_arith);
        assert((b * s) * (c * p) == (b * c) * (p * s)) by (nonlinear_arith);
    }
}

impl<T: ExactScalar> MoebiusTransformation<T> {
    /// The matrix of the integers that the entries are.
    pub open spec fn as_ints(self) -> MoebiusTransformation<int> {
        MoebiusTransformation {
            a: self.a.as_int(),
            b: self.b.as_int(),
            c: self.c.as_int(),
            d: self.d.as_int(),
        }
    }

    /// The determinant `a*d - b*c` of the integers that the entries are.
    pub open spec fn int_determinant(self) -> int {
        self.a.as_int() * self.d.as_int() - self.b.as_int() * self.c.as_int()
    }

    /// Wherever the determinant may be computed, it is the determinant of the
    /// integers that the entries are.
    pub proof fn lemma_determinant_exact(self)
        requires
            self.determinant_defined(),
        ensures
            self.determinant_spec().as_int() == self.int_determinant(),
    {
        T::lemma_times(self.a, self.d);
        T::lemma_times(self.b, self.c);
        T::lemma_negated(self.b.times(self.c));
        T::lemma_plus(self.a.times(self.d), self.b.times(self.c).negated());
    }

    /// Wherever the product may be computed, it is the product of the
    /// matrices of integers.
    pub proof fn lemma_product_exact(self, other: Self)
        requires
            self.product_defined(other),
        ensures
            self.product_spec(other).a.as_int() == self.a.as_int() * other.a.as_int()
                + self.b.as_int() * other.c.as_int(),
            self.product_spec(other).b.as_int() == self.a.as_int() * other.b.as_int()
                + self.b.as_int() * other.d.as_int(),
            self.product_spec(other).c.as_int() == self.c.as_int() * other.a.as_int()
                + self.d.as_int() * other.c.as_int(),
            self.product_spec(other).d.as_int() == self.c.as_int() * other.b.as_int()
                + self.d.as_int() * other.d.as_int(),
    {
        T::lemma_times(self.a, other.a);
        T::lemma_times(self.b, other.c);
        T::lemma_plus(self.a.times(other.a), self.b.times(other.c));
        T::lemma_times(self.a, other.b);
        T::lemma_times(self.b, other.d);
        T::lemma_plus(self.a.times(other.b), self.b.times(other.d));
        T::lemma_times(self.c, other.a);
        T::lemma_times(self.d, other.c);
        T::lemma_plus(self.c.times(other.a), self.d.times(other.c));
        T::lemma_times(self.c, other.b);
        T::lemma_times(self.d, other.d);
        T::lemma_plus(self.c.times(other.b), self.d.times(other.d));
    }

    /// The determinant is multiplicative: the determinant of a product is the
    /// product of the determinants.
    pub proof fn lemma_determinant_multiplicative(self, other: Self)
        requires
            self.product_defined(other),
        ensures
            self.product_spec(other).int_determinant() == self.int_determinant()
                * other.int_determinant(),
    {
        self.lemma_product_exact(other);
        self.as_ints().lemma_determinant_of_product(other.as_ints());
    }

    /// Scaling a matrix by `factor` multiplies its determinant by the square
    /// of `factor`. So the determinant becomes one where the square of the
    /// factor times the determinant is one, which is what normalizing aims
    /// at with the factor `1 / sqrt(determinant)`.
    pub proof fn lemma_scaling_determinant(self, factor: T)
        requires
            self.scaled_defined(factor),
        ensures
            self.scaled_spec(factor).int_determinant() == factor.as_int() * factor.as_int()
                * self.int_determinant(),
    {
        T::lemma_times(factor, self.a);
        T::lemma_times(factor, self.b);
        T::lemma_times(factor, self.c);
        T::lemma_times(factor, self.d);
        let a = self.a.as_int();
        let b = self.b.as_int();
        let c = self.c.as_int();
        let d = self.d.as_int();
        let f = factor.as_int();
        let square = f * f;
        let u = a * d;
        let v = b * c;
        assert((f * a) * (f * d) == (f * f) * (a * d)) by (nonlinear_arith);
        assert((f * b) * (f * c) == (f * f) * (b * c)) by (nonlinear_arith);
        assert(square * (u - v) == square * u - square * v) by (nonlinear_arith);
    }

    /// The condition of the set restriction holds exactly where the
    /// determinant of the integers is one.
    pub proof fn lemma_condition_exact(self)
        requires
            self.determinant_defined(),
        ensures
            self.condition_defined(),
            self.condition_spec() == (self.int_determinant() == 1),
    {
        T::lemma_exact();
        self.lemma_determinant_exact();
        T::lemma_equal(self.determinant_spec(), T::one_spec());
    }

    /// The identity has determinant one.
    pub proof fn lemma_identity_special_linear()
        ensures
            Self::identity_spec().determinant_defined(),
            Self::identity_spec().condition_spec(),
    {
        T::lemma_exact();
        let e = Self::identity_spec();
        T::lemma_defined(e.a, e.a);
        T::lemma_defined(e.b, e.b);
        assert(e.a.as_int() * e.d.as_int() == 1 && e.b.as_int() * e.c.as_int() == 0)
            by (nonlinear_arith)
            requires
                e.a.as_int() == 1,
                e.d.as_int() == 1,
                e.b.as_int() == 0,
                e.c.as_int() == 0,
        ;
        crate::exact::lemma_product(e.a, e.d);
        crate::exact::lemma_product(e.b, e.c);
        crate::exact::lemma_negation(e.b.times(e.c));
        crate::exact::lemma_sum(e.a.times(e.d), e.b.times(e.c).negated());
        e.lemma_condition_exact();
    }

    /// The combination of two transformations with determinant one has
    /// determinant one, as the determinant is multiplicative.
    pub proof fn lemma_combine_special_linear(self, other: Self)
        requires
            self.determinant_defined(),
            other.determinant_defined(),
            self.combine_defined(&other),
            self.combine_spec(&other).determinant_defined(),
            self.condition_spec(),
            other.condition_spec(),
        ensures
            self.combine_spec(&other).condition_spec(),
    {
        self.lemma_condition_exact();
        other.lemma_condition_exact();
        self.lemma_determinant_multiplicative(other);
        self.combine_spec(&other).lemma_condition_exact();
    }

    /// The inverse of a transformation with determinant one has determinant
    /// one.
    pub proof fn lemma_inv_special_linear(self)
        requires
            self.determinant_defined(),
            self.inv_defined(),
            self.inv_spec().determinant_defined(),
            self.condition_spec(),
        ensures
            self.inv_spec().condition_spec(),
    {
        self.lemma_condition_exact();
        T::lemma_negated(self.b);
        T::lemma_negated(self.c);
        let a = self.a.as_int();
        let b = self.b.as_int();
        let c = self.c.as_int();
        let d = self.d.as_int();
        assert(d * a - (-b) * (-c) == a * d - b * c) by (nonlinear_arith);
        self.inv_spec().lemma_condition_exact();
    }

    /// Round trip: a transformation with determinant one, combined with its
    /// inverse on either side, is the identity.
    pub proof fn lemma_inverse_round_trip(self)
        requires
            self.determinant_defined(),
            self.condition_spec(),
            self.inv_defined(),
            self.combine_defined(&self.inv_spec()),
            self.inv_spec().combine_defined(&self),
        ensures
            self.combine_spec(&self.inv_spec()) == Self::identity_spec(),
            self.inv_spec().combine_spec(&self) == Self::identity_spec(),
    {
        T::lemma_exact();
        self.lemma_condition_exact();
        let inverse = self.inv_spec();
        T::lemma_negated(self.b);
        T::lemma_negated(self.c);
        self.lemma_product_exact(inverse);
        inverse.lemma_product_exact(self);
        let a = self.a.as_int();
        let b = self.b.as_int();
        let c = self.c.as_int();
        let d = self.d.as_int();
        assert(a * d + b * (-c) == a * d - b * c && a * (-b) + b * a == 0 && c * d + d * (-c) == 0
            && c * (-b) + d * a == a * d - b * c) by (nonlinear_arith);
        assert(d * a + (-b) * c == a * d - b * c && d * b + (-b) * d == 0 && (-c) * a + a * c == 0
            && (-c) * b + a * d == a * d - b * c) by (nonlinear_arith);
        let right = self.product_spec(inverse);
        T::lemma_injective(right.a, T::one_spec());
        T::lemma_injective(right.b, T::zero_spec());
        T::lemma_injective(right.c, T::zero_spec());
        T::lemma_injective(right.d, T::one_spec());
        let left = inverse.product_spec(self);
        T::lemma_injective(left.a, T::one_spec());
        T::lemma_injective(left.b, T::zero_spec());
        T::lemma_injective(left.c, T::zero_spec());
        T::lemma_injective(left.d, T::one_spec());
    }
}

impl<T: ExactScalar> SpecialLinearMoebiusTransformation<T> {
    /// Round trip: a normalized transformation, which holds a transformation
    /// with determinant one, combined with its inverse on either side, is the
    /// identity.
    pub proof fn lemma_inverse_round_trip(self)
        requires
            self.inner_spec().determinant_defined(),
            self.condition_spec(),
            self.inv_defined(),
            self.combine_defined(&self.inv_spec()),
            self.inv_spec().combine_defined(&self),
        ensures
            self.combine_spec(&self.inv_spec()) == Self::identity_spec(),
            self.inv_spec().combine_spec(&self) == Self::identity_spec(),
    {
        Self::lemma_holding(self.inner_spec().inv_spec());
        self.inner_spec().lemma_inverse_round_trip();
    }
}

impl<T: ExactScalar + SquareRoot> SpecialLinearMoebiusTransformation<T> {
    /// A transformation that is invertible under the tolerance and has a
    /// strictly positive determinant is normalized: to itself, rescaled.
    pub proof fn lemma_positive_determinant_normalized(
        m: MoebiusTransformation<T>,
        numeric_threshold: Option<T::Tolerance>,
    )
        requires
            m.determinant_defined(),
            m.is_invertible_spec(numeric_threshold),
            m.int_determinant() > 0,
        ensures
            Self::normalize_spec(m, numeric_threshold) == Some(
                Self::rescale_spec(m, m.determinant_spec()),
            ),
    {
        m.lemma_determinant_exact();
        T::lemma_is_positive(m.determinant_spec());
    }

    /// A transformation with a negative determinant, which reverses the
    /// orientation, is not normalized, whatever the tolerance.
    pub proof fn lemma_negative_determinant_rejected(
        m: MoebiusTransformation<T>,
        numeric_threshold: Option<T::Tolerance>,
    )
        requires
            m.determinant_defined(),
            m.int_determinant() < 0,
        ensures
            Self::normalize_spec(m, numeric_threshold) is None,
    {
        m.lemma_determinant_exact();
        T::lemma_is_positive(m.determinant_spec());
    }

    /// The determinant of a normalization is one where the factor of the
    /// rescaling, squared, times the determinant is one.
    pub proof fn lemma_normalized_determinant(
        m: MoebiusTransformation<T>,
        numeric_threshold: Option<T::Tolerance>,
    )
        requires
            Self::normalize_defined(m, numeric_threshold),
            Self::normalize_spec(m, numeric_threshold) is Some,
            ({
                let factor = T::one_spec().over(m.determinant_spec().square_root_spec());
                factor.as_int() * factor.as_int() * m.int_determinant() == 1
            }),
        ensures
            Self::normalize_spec(m, numeric_threshold)->0.int_determinant() == 1,
    {
        m.lemma_scaling_determinant(T::one_spec().over(m.determinant_spec().square_root_spec()));
    }
}

} // verus!
