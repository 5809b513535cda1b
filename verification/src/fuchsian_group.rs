use crate::algebraic_extensions::{
    Group, IsPositive, MulIdentity, MuliplicativeNumeric, Numeric, NumericAddIdentity, SquareRoot,
};
use crate::geometry::basics::ComplexPoint;
use crate::group_action::{Action, Determinant, FinitelyGeneratedGroup, SpecialLinear};
use crate::moebius::MoebiusTransformation;
use crate::set_extensions::{SetRestriction, Wrapper};
use std::ops::{Add, Deref, Div, Mul, Neg};
use vstd::prelude::*;
use vstd::std_specs::cmp::PartialEqSpec;

verus! {

impl<T: Numeric + Copy> Determinant<T> for MoebiusTransformation<T> {
    open spec fn det_defined(&self) -> bool {
        self.determinant_defined()
    }

    open spec fn det_spec(&self) -> T {
        self.determinant_spec()
    }

    fn det(&self) -> (r: T) {
        self.determinant()
    }
}

/// The transformations whose determinant equals one, exactly.
impl<T: Numeric + MulIdentity + PartialEq + Copy> SetRestriction for MoebiusTransformation<T> {
    open spec fn condition_defined(&self) -> bool {
        self.determinant_defined() && T::obeys_eq_spec()
    }

    open spec fn condition_spec(&self) -> bool {
        self.determinant_spec().eq_spec(&T::one_spec())
    }

    fn condition(&self) -> (r: bool) {
        self.determinant() == T::one()
    }
}

impl<T: Numeric + MulIdentity + PartialEq + Copy> SpecialLinear<T> for MoebiusTransformation<T> {
    proof fn lemma_condition_is_determinant_one(&self) {
    }
}

/// The multiplicative group of the transformations with determinant one.
///
/// The operations do not look at the determinant: the product of two
/// matrices with determinant one has determinant one, and the inverse of such
/// a matrix is its adjugate `[d, -b; -c, a]`.
impl<T: Numeric + MulIdentity + PartialEq + Copy> Group for MoebiusTransformation<T> {
    open spec fn combine_defined(&self, other: &Self) -> bool {
        self.product_defined(*other)
    }

    open spec fn combine_spec(&self, other: &Self) -> Self {
        self.product_spec(*other)
    }

    open spec fn identity_spec() -> Self {
        Self::one_spec()
    }

    open spec fn inv_defined(&self) -> bool {
        &&& T::specified()
        &&& self.b.can_negate()
        &&& self.c.can_negate()
    }

    open spec fn inv_spec(&self) -> Self {
        MoebiusTransformation {
            a: self.d,
            b: self.b.negated(),
            c: self.c.negated(),
            d: self.a,
        }
    }

    fn combine(&self, other: &Self) -> (r: Self) {
        self.product(*other)
    }

    fn identity() -> (r: Self) {
        Self::one()
    }

    fn inv(&self) -> (r: Self) {
        // The determinant is taken to be one, so that dividing by it is left out.
        MoebiusTransformation::<T> { a: self.d, b: self.b.neg(), c: self.c.neg(), d: self.a }
    }
}

/// A transformation that was normalized: the representative with determinant
/// one of an invertible, orientation-preserving transformation.
///
/// A value is made by `try_from` only, or from such values by the group
/// operations; the transformation that it holds can be read, not changed.
#[derive(Clone, Copy, Debug, Hash)]
pub struct SpecialLinearMoebiusTransformation<T> {
    /// Moebius transformation with determinant one
    m: MoebiusTransformation<T>,
}

impl<T> SpecialLinearMoebiusTransformation<T> {
    /// The value that holds `m`.
    pub closed spec fn holding(m: MoebiusTransformation<T>) -> Self {
        SpecialLinearMoebiusTransformation { m }
    }

    /// The value that holds `m` holds `m`.
    pub proof fn lemma_holding(m: MoebiusTransformation<T>)
        ensures
            Self::holding(m).inner_spec() == m,
    {
    }

    /// A value is the one that holds what it holds.
    pub proof fn lemma_held(self)
        ensures
            Self::holding(self.inner_spec()) == self,
    {
    }

    /// `m`, each entry multiplied by `1 / sqrt(determinant)`.
    pub open spec fn rescale_spec(m: MoebiusTransformation<T>, determinant: T) -> MoebiusTransformation<
        T,
    > where T: Numeric + MuliplicativeNumeric + SquareRoot + Copy {
        m.scaled_spec(T::one_spec().over(determinant.square_root_spec()))
    }

    /// Whether every step of rescaling `m` may be computed.
    pub open spec fn rescale_defined(m: MoebiusTransformation<T>, determinant: T) -> bool where
        T: Numeric + MuliplicativeNumeric + SquareRoot + Copy,
     {
        &&& T::specified()
        &&& T::division_specified()
        &&& T::one_spec().can_divide(determinant.square_root_spec())
        &&& m.scaled_defined(T::one_spec().over(determinant.square_root_spec()))
    }

    fn rescale(&self, positive_determinant: T) -> (r: Self) where
        T: Numeric + MuliplicativeNumeric + SquareRoot + Copy,

        requires
            Self::rescale_defined(self.m, positive_determinant),
        ensures
            r.m == Self::rescale_spec(self.m, positive_determinant),
    {
        let scalar = T::one().div(positive_determinant.square_root());
        Self { m: self.m.scaled(scalar) }
    }

    /// The normalization of `m`: where `m` is invertible under the tolerance
    /// and its determinant is strictly positive, `m` rescaled by
    /// `1 / sqrt(determinant)`; else nothing.
    pub open spec fn normalize_spec(
        m: MoebiusTransformation<T>,
        numeric_threshold: Option<T::Tolerance>,
    ) -> Option<MoebiusTransformation<T>> where
        T: Numeric + MuliplicativeNumeric + NumericAddIdentity + SquareRoot + IsPositive + Copy,
     {
        if m.is_invertible_spec(numeric_threshold) && m.determinant_spec().is_positive_spec() {
            Some(Self::rescale_spec(m, m.determinant_spec()))
        } else {
            None
        }
    }

    /// Whether every step of normalizing `m` may be computed.
    pub open spec fn normalize_defined(
        m: MoebiusTransformation<T>,
        numeric_threshold: Option<T::Tolerance>,
    ) -> bool where
        T: Numeric + MuliplicativeNumeric + NumericAddIdentity + SquareRoot + IsPositive + Copy,
     {
        &&& m.determinant_defined()
        &&& m.is_invertible_spec(numeric_threshold) && m.determinant_spec().is_positive_spec()
            ==> Self::rescale_defined(m, m.determinant_spec())
    }

    /// Normalizes `m` under the given tolerance.
    pub fn try_from(m: MoebiusTransformation<T>, numeric_threshold: Option<T::Tolerance>) -> (r:
        Option<Self>) where
        T: Numeric + MuliplicativeNumeric + NumericAddIdentity + SquareRoot + IsPositive + Copy,

        requires
            Self::normalize_defined(m, numeric_threshold),
        ensures
            match r {
                Some(normalized) => Self::normalize_spec(m, numeric_threshold) == Some(
                    normalized.inner_spec(),
                ),
                None => Self::normalize_spec(m, numeric_threshold) is None,
            },
    {
        if m.is_invertible(numeric_threshold) {
            let determinant = m.determinant();
            if determinant.is_positive() {
                let s = Self { m };
                return Some(s.rescale(determinant));
            }
        }
        None
    }
}

impl<T> Wrapper for SpecialLinearMoebiusTransformation<T> {
    type Inner = MoebiusTransformation<T>;

    closed spec fn inner_spec(&self) -> MoebiusTransformation<T> {
        self.m
    }

    fn inner(&self) -> (r: &MoebiusTransformation<T>) {
        &self.m
    }
}

/// Read access to the transformation held.
impl<T> Deref for SpecialLinearMoebiusTransformation<T> {
    type Target = MoebiusTransformation<T>;

    fn deref(&self) -> (r: &MoebiusTransformation<T>)
        ensures
            *r == self.inner_spec(),
    {
        &self.m
    }
}

impl<T: Numeric + Copy> Determinant<T> for SpecialLinearMoebiusTransformation<T> {
    open spec fn det_defined(&self) -> bool {
        self.inner_spec().determinant_defined()
    }

    open spec fn det_spec(&self) -> T {
        self.inner_spec().determinant_spec()
    }

    fn det(&self) -> (r: T) {
        self.m.determinant()
    }
}

impl<T: PartialEq> PartialEq for SpecialLinearMoebiusTransformation<T> {
    fn eq(&self, other: &Self) -> (r: bool) {
        self.m.equals(&other.m)
    }
}

impl<T: PartialEq> vstd::std_specs::cmp::PartialEqSpecImpl for SpecialLinearMoebiusTransformation<T> {
    open spec fn obeys_eq_spec() -> bool {
        T::obeys_eq_spec()
    }

    /// Two normalized transformations are equal when the transformations that
    /// they hold are.
    open spec fn eq_spec(&self, other: &Self) -> bool {
        self.inner_spec().equals_spec(&other.inner_spec())
    }
}

impl<T: PartialEq> Eq for SpecialLinearMoebiusTransformation<T> {

}

impl<T: Numeric + MulIdentity + PartialEq + Copy> SpecialLinear<T> for SpecialLinearMoebiusTransformation<T> {
    proof fn lemma_condition_is_determinant_one(&self) {
    }
}

/// The group of the normalized transformations: the operations are those of
/// the transformations held, and their results are held again.
impl<T: Numeric + MulIdentity + PartialEq + Copy> Group for SpecialLinearMoebiusTransformation<T> {
    open spec fn combine_defined(&self, other: &Self) -> bool {
        self.inner_spec().product_defined(other.inner_spec())
    }

    open spec fn combine_spec(&self, other: &Self) -> Self {
        Self::holding(self.inner_spec().product_spec(other.inner_spec()))
    }

    open spec fn identity_spec() -> Self {
        Self::holding(MoebiusTransformation::one_spec())
    }

    open spec fn inv_defined(&self) -> bool {
        self.inner_spec().inv_defined()
    }

    open spec fn inv_spec(&self) -> Self {
        Self::holding(self.inner_spec().inv_spec())
    }

    fn combine(&self, other: &Self) -> (r: Self) {
        SpecialLinearMoebiusTransformation { m: self.m.product(other.m) }
    }

    fn identity() -> (r: Self) {
        SpecialLinearMoebiusTransformation { m: MoebiusTransformation::one() }
    }

    fn inv(&self) -> (r: Self) {
        SpecialLinearMoebiusTransformation { m: self.m.inv() }
    }
}

/// A normalized transformation acts as the transformation that it holds.
impl<Space, T> Action<Space> for SpecialLinearMoebiusTransformation<T> where
    MoebiusTransformation<T>: Action<Space>,
 {
    open spec fn map_defined(&self, x: &Space) -> bool {
        self.inner_spec().map_defined(x)
    }

    open spec fn map_spec(&self, x: &Space) -> Space {
        self.inner_spec().map_spec(x)
    }

    fn map(&self, x: &Space) -> (r: Space) {
        self.m.map(x)
    }
}

/// The action of a transformation on the complex plane:
/// `z -> (a*z + b) / (c*z + d)`, the quotient being that of complex numbers.
impl<T> Action<ComplexPoint<T>> for MoebiusTransformation<T> where
    T: Numeric + MuliplicativeNumeric + Copy,
 {
    open spec fn map_defined(&self, x: &ComplexPoint<T>) -> bool {
        &&& T::specified()
        &&& self.a.can_multiply(x.re)
        &&& self.a.times(x.re).can_add(self.b)
        &&& self.a.can_multiply(x.im)
        &&& self.c.can_multiply(x.re)
        &&& self.c.times(x.re).can_add(self.d)
        &&& self.c.can_multiply(x.im)
        &&& (ComplexPoint { re: self.a.times(x.re).plus(self.b), im: self.a.times(x.im) })
            .quotient_defined(
            ComplexPoint { re: self.c.times(x.re).plus(self.d), im: self.c.times(x.im) },
        )
    }

    open spec fn map_spec(&self, x: &ComplexPoint<T>) -> ComplexPoint<T> {
        (ComplexPoint { re: self.a.times(x.re).plus(self.b), im: self.a.times(x.im) })
            .quotient_spec(
            ComplexPoint { re: self.c.times(x.re).plus(self.d), im: self.c.times(x.im) },
        )
    }

    fn map(&self, x: &ComplexPoint<T>) -> (r: ComplexPoint<T>) {
        let nom = ComplexPoint::<T> { re: self.a.mul(x.re).add(self.b), im: self.a.mul(x.im) };
        let denom = ComplexPoint::<T> { re: self.c.mul(x.re).add(self.d), im: self.c.mul(x.im) };
        nom.quotient(denom)
    }
}

/// A finitely generated Fuchsian group: a discrete group of transformations
/// with determinant one, given by its generators in their order.
///
/// The generators are fixed when the group is made: `create_from_valid` keeps
/// the transformations whose determinant equals one exactly, and
/// `create_projected` normalizes each transformation and keeps those for which
/// that succeeds. Transformations that occur twice are kept twice.
pub struct FuchsianGroup<T> {
    generators: Vec<MoebiusTransformation<T>>,
}

impl<T: Numeric + MulIdentity + PartialEq + Copy> FinitelyGeneratedGroup for FuchsianGroup<T> {
    type GroupElement = MoebiusTransformation<T>;

    closed spec fn generators_spec(&self) -> Seq<MoebiusTransformation<T>> {
        self.generators@
    }

    fn generators(&self) -> (r: &[MoebiusTransformation<T>]) {
        self.generators.as_slice()
    }
}

impl<T: Numeric + MulIdentity + PartialEq + Copy> FuchsianGroup<T> {
    /// Whether a transformation has determinant one.
    pub open spec fn valid() -> spec_fn(MoebiusTransformation<T>) -> bool {
        |m: MoebiusTransformation<T>| m.condition_spec()
    }

    /// The normalization under the tolerance `numeric_threshold`.
    pub open spec fn projection(numeric_threshold: Option<T::Tolerance>) -> spec_fn(
        MoebiusTransformation<T>,
    ) -> Option<MoebiusTransformation<T>> where
        T: MuliplicativeNumeric + NumericAddIdentity + SquareRoot + IsPositive,
     {
        |m: MoebiusTransformation<T>|
            SpecialLinearMoebiusTransformation::normalize_spec(m, numeric_threshold)
    }

    /// Whether every generator has determinant one.
    pub open spec fn special_linear(&self) -> bool {
        forall|i: int|
            0 <= i < self.generators_spec().len() ==> (
            #[trigger] self.generators_spec()[i]).condition_spec()
    }

    /// Appends `m` to the generators if its determinant equals one. Whether it
    /// did so is not reported: the result is always `false`.
    pub fn try_push(&mut self, m: MoebiusTransformation<T>) -> (r: bool)
        requires
            m.condition_defined(),
        ensures
            final(self).generators_spec() == (if m.condition_spec() {
                old(self).generators_spec().push(m)
            } else {
                old(self).generators_spec()
            }),
            old(self).special_linear() ==> final(self).special_linear(),
            !r,
    {
        if let Some(slm) = MoebiusTransformation::try_new(m) {
            self.generators.push(slm)
        }
        false
    }

    /// The group generated by the transformations of `raw_generators` whose
    /// determinant equals one, in their order. The others are left out.
    pub fn create_from_valid(raw_generators: Vec<MoebiusTransformation<T>>) -> (r: Self)
        requires
            forall|i: int|
                0 <= i < raw_generators.len() ==> (#[trigger] raw_generators[i]).condition_defined(),
        ensures
            r.generators_spec() == raw_generators@.filter(Self::valid()),
            r.special_linear(),
    {
        let mut generators = Vec::new();
        let mut i: usize = 0;
        while i < raw_generators.len()
            invariant
                i <= raw_generators.len(),
                forall|j: int|
                    0 <= j < raw_generators.len() ==> (
                    #[trigger] raw_generators[j]).condition_defined(),
                generators@ == raw_generators@.take(i as int).filter(Self::valid()),
            decreases raw_generators.len() - i,
        {
            let m = raw_generators[i];
            proof {
                assert(raw_generators@.take(i + 1) == raw_generators@.take(i as int).push(m));
                raw_generators@.take(i as int).lemma_filter_push(m, Self::valid());
            }
            if let Some(slm) = MoebiusTransformation::try_new(m) {
                generators.push(slm)
            }
            i += 1;
        }
        proof {
            assert(raw_generators@.take(i as int) == raw_generators@);
            assert forall|j: int| 0 <= j < generators@.len() implies (
            #[trigger] generators@[j]).condition_spec() by {
                raw_generators@.lemma_filter_pred(Self::valid(), j);
            }
        }
        Self { generators }
    }

    /// The group generated by the normalizations of the transformations of
    /// `raw_generators`, in their order. A transformation that cannot be
    /// normalized, because it is not invertible under the tolerance or
    /// reverses the orientation, is left out.
    pub fn create_projected(
        raw_generators: Vec<MoebiusTransformation<T>>,
        numeric_threshold: Option<T::Tolerance>,
    ) -> (r: Self) where T: MuliplicativeNumeric + NumericAddIdentity + SquareRoot + IsPositive
        requires
            forall|i: int|
                0 <= i < raw_generators.len()
                    ==> SpecialLinearMoebiusTransformation::normalize_defined(
                    #[trigger] raw_generators[i],
                    numeric_threshold,
                ),
        ensures
            r.generators_spec() == raw_generators@.filter_map(Self::projection(numeric_threshold)),
    {
        let mut generators = Vec::new();
        let mut i: usize = 0;
        while i < raw_generators.len()
            invariant
                i <= raw_generators.len(),
                forall|j: int|
                    0 <= j < raw_generators.len()
                        ==> SpecialLinearMoebiusTransformation::normalize_defined(
                        #[trigger] raw_generators[j],
                        numeric_threshold,
                    ),
                generators@ == raw_generators@.take(i as int).filter_map(
                    Self::projection(numeric_threshold),
                ),
            decreases raw_generators.len() - i,
        {
            let m = raw_generators[i];
            proof {
                raw_generators@.lemma_filter_map_take_succ(
                    Self::projection(numeric_threshold),
                    i as int,
                );
            }
            if let Some(slm) = SpecialLinearMoebiusTransformation::try_from(m, numeric_threshold) {
                generators.push(slm.m)
            }
            i += 1;
        }
        proof {
            assert(raw_generators@.take(i as int) == raw_generators@);
        }
        Self { generators }
    }
}

} // verus!
