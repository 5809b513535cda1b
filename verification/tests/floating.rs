//! The library on floating-point scalars: `R32` and `R64` give `f32` and
//! `f64` the scalar traits, with the tolerance taken as an `f64`. What the
//! traits ask for beside the operations says what the operations compute.

use fuchsian::algebraic_extensions::{
    AddIdentity, Group, IsPositive, MulIdentity, NumericAddIdentity, NumericMulIdentity, Signed,
    SquareRoot,
};
use fuchsian::fuchsian_group::{FuchsianGroup, SpecialLinearMoebiusTransformation};
use fuchsian::geometry::basics::{ComplexPoint, Distance, EuclideanCircle, Mid};
use fuchsian::geometry::boundary::BoundaryPoint;
use fuchsian::geometry::geodesics::{Arc, GeodesicBoundary, GeodesicLine};
use fuchsian::geometry::horocycle::{GeometricHorocCycle, TangencyCircle};
use fuchsian::group_action::{
    Action, FinitelyGeneratedGroup, GroupAction, Orbit, PickGeneratorMode, SequentialPicker,
};
use fuchsian::moebius::MoebiusTransformation;
use fuchsian::set_extensions::SetRestriction;
use std::ops::{Add, Div, Mul, Neg, Sub};

const NUMERIC_THRESHOLD: f64 = 1e-16;

#[derive(Clone, Copy, Debug, PartialEq, PartialOrd)]
struct R64(f64);

#[derive(Clone, Copy, Debug, PartialEq, PartialOrd)]
struct R32(f32);

impl Add for R64 {
    type Output = R64;
    fn add(self, other: R64) -> R64 {
        R64(self.0 + other.0)
    }
}

impl Sub for R64 {
    type Output = R64;
    fn sub(self, other: R64) -> R64 {
        R64(self.0 - other.0)
    }
}

impl Mul for R64 {
    type Output = R64;
    fn mul(self, other: R64) -> R64 {
        R64(self.0 * other.0)
    }
}

impl Div for R64 {
    type Output = R64;
    fn div(self, other: R64) -> R64 {
        R64(self.0 / other.0)
    }
}

impl Neg for R64 {
    type Output = R64;
    fn neg(self) -> R64 {
        R64(-self.0)
    }
}

impl AddIdentity for R64 {
    fn zero_spec() -> Self {
        R64(0.0)
    }

    fn zero() -> Self {
        R64(0.0)
    }
}

impl NumericAddIdentity for R64 {
    type Tolerance = f64;

    fn tolerance_well_formed(threshold: Option<f64>) -> bool {
        match threshold {
            Some(tol) => tol >= 0.0,
            None => true,
        }
    }

    fn is_zero_spec(&self, threshold: Option<f64>) -> bool {
        self.is_zero(threshold)
    }

    fn default_threshold_spec() -> Option<f64> {
        Some(NUMERIC_THRESHOLD)
    }

    fn lemma_zero_is_zero(_threshold: Option<f64>) {}

    fn lemma_exactly_zero(&self) {}

    fn lemma_default_threshold_well_formed() {}

    fn default_threshold() -> Option<f64> {
        Some(NUMERIC_THRESHOLD)
    }

    fn is_zero(&self, threshold: Option<f64>) -> bool {
        match threshold {
            Some(tol) => self.0.abs() <= tol,
            None => self.0.abs() == 0.0,
        }
    }
}

impl MulIdentity for R64 {
    fn one_spec() -> Self {
        R64(1.0)
    }

    fn one() -> Self {
        R64(1.0)
    }
}

impl NumericMulIdentity for R64 {
    fn is_one_spec(&self, threshold: Option<f64>) -> bool {
        self.is_one(threshold)
    }

    fn lemma_one_is_one(_threshold: Option<f64>) {}

    fn lemma_exactly_one(&self) {}

    fn is_one(&self, threshold: Option<f64>) -> bool {
        (*self - Self::one()).is_zero(threshold)
    }
}

impl SquareRoot for R64 {
    fn square_root_spec(&self) -> Self {
        self.square_root()
    }

    fn square_root(&self) -> Self {
        R64(self.0.abs().sqrt())
    }
}

impl Signed for R64 {
    fn signed_spec(&self) -> Self {
        self.signed()
    }

    fn signed(&self) -> Self {
        R64(self.0.signum())
    }
}

impl IsPositive for R64 {
    fn is_positive_spec(&self) -> bool {
        self.is_positive()
    }

    fn is_positive(&self) -> bool {
        self.0 > 0.0
    }
}

impl Distance<R64> for R64 {
    fn dist_spec(&self, other: &Self) -> R64 {
        self.dist(other)
    }

    fn dist(&self, other: &Self) -> R64 {
        R64((self.0 - other.0).abs())
    }
}

impl Mid for R64 {
    fn mid_spec(&self, other: &Self) -> Self {
        self.mid(other)
    }

    fn mid(&self, other: &Self) -> Self {
        R64((self.0 + other.0) / 2.0)
    }
}

impl Add for R32 {
    type Output = R32;
    fn add(self, other: R32) -> R32 {
        R32(self.0 + other.0)
    }
}

impl Sub for R32 {
    type Output = R32;
    fn sub(self, other: R32) -> R32 {
        R32(self.0 - other.0)
    }
}

impl Mul for R32 {
    type Output = R32;
    fn mul(self, other: R32) -> R32 {
        R32(self.0 * other.0)
    }
}

impl Div for R32 {
    type Output = R32;
    fn div(self, other: R32) -> R32 {
        R32(self.0 / other.0)
    }
}

impl Neg for R32 {
    type Output = R32;
    fn neg(self) -> R32 {
        R32(-self.0)
    }
}

impl AddIdentity for R32 {
    fn zero_spec() -> Self {
        R32(0.0)
    }

    fn zero() -> Self {
        R32(0.0)
    }
}

impl NumericAddIdentity for R32 {
    type Tolerance = f64;

    fn tolerance_well_formed(threshold: Option<f64>) -> bool {
        match threshold {
            Some(tol) => tol >= 0.0,
            None => true,
        }
    }

    fn is_zero_spec(&self, threshold: Option<f64>) -> bool {
        self.is_zero(threshold)
    }

    fn default_threshold_spec() -> Option<f64> {
        Some(NUMERIC_THRESHOLD)
    }

    fn lemma_zero_is_zero(_threshold: Option<f64>) {}

    fn lemma_exactly_zero(&self) {}

    fn lemma_default_threshold_well_formed() {}

    fn default_threshold() -> Option<f64> {
        Some(NUMERIC_THRESHOLD)
    }

    fn is_zero(&self, threshold: Option<f64>) -> bool {
        match threshold {
            Some(tol) => self.0.abs() as f64 <= tol,
            None => self.0.abs() == 0.0,
        }
    }
}

impl MulIdentity for R32 {
    fn one_spec() -> Self {
        R32(1.0)
    }

    fn one() -> Self {
        R32(1.0)
    }
}

impl NumericMulIdentity for R32 {
    fn is_one_spec(&self, threshold: Option<f64>) -> bool {
        self.is_one(threshold)
    }

    fn lemma_one_is_one(_threshold: Option<f64>) {}

    fn lemma_exactly_one(&self) {}

    fn is_one(&self, threshold: Option<f64>) -> bool {
        (*self - Self::one()).is_zero(threshold)
    }
}

impl SquareRoot for R32 {
    fn square_root_spec(&self) -> Self {
        self.square_root()
    }

    fn square_root(&self) -> Self {
        R32(self.0.abs().sqrt())
    }
}

impl Signed for R32 {
    fn signed_spec(&self) -> Self {
        self.signed()
    }

    fn signed(&self) -> Self {
        R32(self.0.signum())
    }
}

impl IsPositive for R32 {
    fn is_positive_spec(&self) -> bool {
        self.is_positive()
    }

    fn is_positive(&self) -> bool {
        self.0 > 0.0
    }
}

fn m64(a: f64, b: f64, c: f64, d: f64) -> MoebiusTransformation<R64> {
    MoebiusTransformation::<R64>::new(R64(a), R64(b), R64(c), R64(d))
}

fn m32(a: f32, b: f32, c: f32, d: f32) -> MoebiusTransformation<R32> {
    MoebiusTransformation::<R32>::new(R32(a), R32(b), R32(c), R32(d))
}

fn c64(re: f64, im: f64) -> ComplexPoint<R64> {
    ComplexPoint::new(R64(re), R64(im))
}

// ---- transformations

#[test]
fn test_macro() {
    let m = MoebiusTransformation::<i8>::new(1, 2, 3, 4);
    assert_eq!(m.a, 1);
    assert_eq!(m.d, 4);

    let m = MoebiusTransformation::<i64>::new(1, 2, 3, 4);
    assert_eq!(m.a, 1);
    assert_eq!(m.d, 4);

    let m = MoebiusTransformation::<f32>::new(1.0, 2.0, 3.0, 4.0);
    assert_eq!(m.a, 1.0);
    assert_eq!(m.d, 4.0);
}

#[test]
fn test_is_invertible() {
    let m1 = m32(1.0, 2.0, 3.0, 4.0);
    assert_eq!(m1.determinant(), R32(-2.0));
    assert!(m1.is_invertible(None));

    let m2 = m64(1.0, 2.0, 2.0, 4.0);
    assert_eq!(m2.determinant(), R64(0.0));
    assert!(!m2.is_invertible(None));

    let m3 = m64(1.0, 4.0, 0.0, 1.0);
    assert_eq!(m3.determinant(), R64(1.0));
    assert!(m3.is_invertible(None));

    let m4 = MoebiusTransformation::<i8>::new(1, 4, 0, -1);
    assert_eq!(m4.determinant(), -1);
    assert!(m4.is_invertible(None));
}

#[test]
fn test_squared_sum() {
    assert_eq!(MoebiusTransformation::<i32>::new(0, 0, 0, 0).squared_sum(), 0);

    assert_eq!(MoebiusTransformation::<i32>::zero().squared_sum(), 0);

    assert_eq!(m64(1.0, 0.0, 1.0, 0.0).squared_sum(), R64(2.0));

    let m1 = m32(1.0, 2.2, 3.0, 4.0);
    assert_eq!((m1 - m1).squared_sum(), R32(0.0));
}

#[test]
fn test_algebraic_structure() {
    let m = m32(1.0, 2.2, 3.0, 4.0);
    let zero = MoebiusTransformation::<R32>::zero();
    let one = MoebiusTransformation::<R32>::one();
    assert!((m - m).eq(&zero));

    assert!(m + zero == m);
    assert!(zero + m == m);
    assert!(m * zero == zero);
    assert!(zero * m == zero);
    assert!(m * one == m);
    assert!(one * m == m);

    assert!(
        MoebiusTransformation::<i8>::new(1, 1, 0, 0) + MoebiusTransformation::<i8>::new(0, 0, 0, 1)
            - MoebiusTransformation::<i8>::new(0, 1, 0, 0)
            == MoebiusTransformation::<i8>::one()
    );

    let m1 = m64(-1.0, 2.0, -3.0, 4.0);
    let m2 = m64(-5.0, 7.0, 1.0, 5.0);

    assert!(m1 + m2 == m64(-6.0, 9.0, -2.0, 9.0));
    assert!(m1 - m2 == m64(4.0, -5.0, -4.0, -1.0));
    assert!(m1 * m2 == m64(7.0, 3.0, 19.0, -1.0));
}

#[test]
fn test_scalability() {
    assert!(
        MoebiusTransformation::<i8>::new(1, 3, 0, 2) * 3
            == MoebiusTransformation::<i8>::new(3, 9, 0, 6)
    );

    assert!(m32(2.2, 3.4, -1.2, 0.5) * R32(2.0) == m32(4.4, 6.8, -2.4, 1.0));
}

#[test]
fn test_inverse() {
    let m = MoebiusTransformation::<i8>::new(1, 1, 0, 0);
    assert_eq!(m.determinant(), 0);
    assert!(m.inverse(None).is_none());

    let m = m32(1.1, 2.0, -0.5, 3.0);
    assert_eq!(m.determinant(), R32(4.3));
    assert!(m.inverse(None).is_some());
    assert_eq!(
        m.inverse(None).unwrap().determinant(),
        R32(1.0) / m.determinant()
    );

    assert!(m * m.inverse(None).unwrap() == MoebiusTransformation::<R32>::one());
    assert!(m.inverse(None).unwrap() * m == MoebiusTransformation::<R32>::one());

    // numerical check
    let m = m32(1.100000000002, 2.000000000007, 0.000000000005, 3.000000000001);
    assert!(m.inverse(None).is_some());
    assert_eq!(
        m.inverse(None).unwrap().determinant(),
        R32(1.0) / m.determinant()
    );

    let numerical_one = m * m.inverse(None).unwrap();
    assert!(numerical_one.is_one(Some(1e-7)));
    assert!(!numerical_one.is_one(Some(1e-8)));
}

// ---- normalization and the discrete group

#[test]
fn test_projection() {
    // not orientation preserving
    let m1 = m32(1.0, 2.0, 3.0, 4.0);
    assert_eq!(m1.determinant(), R32(-2.0));
    let pm1 = SpecialLinearMoebiusTransformation::try_from(m1, None);
    assert!(pm1.is_none());

    let m2 = m32(-1.0, -2.0, 3.0, 4.0);
    assert_eq!(m2.determinant(), R32(2.0));
    let pm2 = SpecialLinearMoebiusTransformation::try_from(m2, None);
    assert!(pm2.is_some());
    assert!((pm2.unwrap().determinant().0 - 1.0).abs() <= f32::EPSILON);

    // numerical checks
    let m4 = m32(1.100000000002, 2.000000000007, 0.000000000005, 3.000000000001);
    assert_eq!(m4.determinant(), R32(3.3000002));
    let pm4 = SpecialLinearMoebiusTransformation::try_from(m4, None);
    assert!(pm4.is_some());
    assert!((pm4.unwrap().determinant().0 - 1.0).abs() <= f32::EPSILON);

    let m5 = m32(0.0002, -0.0007, 0.005, 0.001);
    assert_eq!(m5.determinant(), R32(3.6999998e-6));
    let pm5 = SpecialLinearMoebiusTransformation::try_from(m5, None);
    assert!(pm5.is_some());
    assert!((pm5.unwrap().determinant().0 - 1.0).abs() <= f32::EPSILON);
}

#[test]
fn test_fuchsian_group() {
    let m1 = m64(1.0, 2.0, 3.0, 4.0);
    let m2 = m64(-1.0, -2.0, 3.0, 4.0);

    let fg = FuchsianGroup::<R64>::create_projected(vec![m1, m2], None);
    assert_eq!(fg.generators().len(), 1);
}

#[test]
fn projection_rescales_by_the_root_of_the_determinant() {
    // determinant 4: every entry is halved
    let fg = FuchsianGroup::<R64>::create_projected(vec![m64(4.0, 0.0, 0.0, 1.0)], None);
    assert_eq!(fg.generators().len(), 1);
    assert!(fg.generators()[0] == m64(2.0, 0.0, 0.0, 0.5));
}

#[test]
fn projection_rejects_within_tolerance() {
    let m = m64(1.0, 0.0, 0.0, 0.001);
    assert!(SpecialLinearMoebiusTransformation::try_from(m, None).is_some());
    assert!(SpecialLinearMoebiusTransformation::try_from(m, Some(0.01)).is_none());
}

// ---- the action on the complex plane

#[test]
fn test_action_real_line() {
    let m = m64(1.0, 2.0, 3.0, 4.0);
    let c = c64(1.0, 0.0);

    let y = m.map(&c);
    assert_eq!(y.re, R64(3.0 / 7.0));
    assert_eq!(y.im, R64(0.0));
}

#[test]
fn test_action_integers() {
    let m = MoebiusTransformation::<i32>::new(0, -1, 1, 0);
    let c = ComplexPoint::new(2, 0);

    let y = m.map(&c);
    assert_eq!(y.re, 0);
    assert_eq!(y.im, 0);

    let m = m32(0.0, -1.0, 1.0, 0.0);
    let c = ComplexPoint::new(R32(2.0), R32(0.0));

    let y = m.map(&c);
    assert_eq!(y.re, R32(-0.5));
    assert_eq!(y.im, R32(0.0));
}

#[test]
fn test_action_complex() {
    let m = m64(1.0, 2.0, 3.0, 4.0);
    let c = c64(1.0, 3.0);

    let y = m.map(&c);
    assert_eq!(y.re, R64(48.0 / 130.0));
    assert_eq!(y.im, R64(-6.0 / 130.0));
}

#[test]
fn test_compatibility() {
    // det == 1
    let g = SpecialLinearMoebiusTransformation::try_from(m64(3.0, 2.0, 4.0, 3.0), None);
    let h = SpecialLinearMoebiusTransformation::try_from(m64(-3.0, 2.0, -5.0, 3.0), None);

    assert!(g.is_some());
    assert!(h.is_some());

    let g = g.unwrap();
    let h = h.unwrap();

    let mut gh = SpecialLinearMoebiusTransformation::<R64>::identity();

    let x = c64(1.0, 3.0);
    let mut c = x.clone();

    for _ in 0..5 {
        gh = gh.combine(&h).combine(&g);
        c = g.map(&c);
        c = h.map(&c);
    }

    let y = gh.map(&x);

    assert!((y.re.0 - c.re.0).abs() <= 1e-15);
    assert!((y.im.0 - c.im.0).abs() <= 1e-15);
}

#[test]
fn test_single_orbit() {
    // det == 1
    let m = m64(3.0, 2.0, 4.0, 3.0);
    let mut c = c64(1.0, 3.0);

    for _ in 0..100 {
        c = m.map(&c);
        assert!(c.im.0 >= 0.0);
    }
}

#[test]
fn test_orbit() {
    let g = m64(3.0, 1.0, 8.0, 3.0);
    let h = m64(-3.0, 2.0, -5.0, 3.0);
    // horocyclic
    let j = m64(1.0, 10.0, 0.0, 1.0);

    let fuchsian_group = FuchsianGroup::create_from_valid(vec![g, h, j]);

    assert_eq!(fuchsian_group.generators().len(), 3);

    let base_point = c64(1.0, 1.0);
    let orbit = Orbit::sample(&fuchsian_group, &base_point, 100, None);

    assert_eq!(orbit.points.len(), 100);

    for p in orbit.points {
        assert!(p.im.0 > 0.0);
    }
}

#[test]
fn test_orbit_modular_group() {
    // the modular group is generated by the transformations z -> z+1 and z -> -1/z,
    // which are the Moebius transformations g = [ 1, 1; 0, 1 ] and h = [ 0, -1; 1, 0 ]

    let g = MoebiusTransformation::<i32>::new(1, 1, 0, 1);
    let h = MoebiusTransformation::<i32>::new(0, -1, 1, 0);

    let fuchsian_group = FuchsianGroup::create_from_valid(vec![g, h]);

    assert_eq!(fuchsian_group.generators().len(), 2);

    let base_point = ComplexPoint::<i32>::new(1, 0);
    let orbit = Orbit::sample(&fuchsian_group, &base_point, 100, None);

    assert_eq!(orbit.points.len(), 100);

    for p in orbit.points {
        assert_eq!(p.im, 0);
    }

    let g = m32(1.0, 1.0, 0.0, 1.0);
    let h = m32(0.0, -1.0, 1.0, 0.0);

    let fuchsian_group = FuchsianGroup::create_from_valid(vec![g, h]);

    assert_eq!(fuchsian_group.generators().len(), 2);

    let base_point = ComplexPoint::<R32>::new(R32(1.0), R32(0.0));
    let orbit = Orbit::sample(&fuchsian_group, &base_point, 100, None);

    assert_eq!(orbit.points.len(), 100);

    for p in orbit.points {
        assert_eq!(p.im.0, 0.0);
        assert_ne!(p.re.0, 0.0);
    }
}

#[test]
fn random_orbit_has_the_length_asked_for() {
    let g = m64(3.0, 1.0, 8.0, 3.0);
    let h = m64(-3.0, 2.0, -5.0, 3.0);
    let fuchsian_group = FuchsianGroup::create_from_valid(vec![g, h]);
    let base_point = c64(1.0, 1.0);
    for n in [0usize, 1, 7, 50] {
        let orbit = Orbit::sample(
            &fuchsian_group,
            &base_point,
            n,
            Some(PickGeneratorMode::Random),
        );
        assert_eq!(orbit.points.len(), n);
    }
}

#[test]
fn random_orbit_of_one_generator_is_the_sequential_one() {
    let j = m64(1.0, 10.0, 0.0, 1.0);
    let fuchsian_group = FuchsianGroup::create_from_valid(vec![j]);
    let base_point = c64(0.0, 1.0);
    let random = Orbit::sample(&fuchsian_group, &base_point, 5, Some(PickGeneratorMode::Random));
    let sequential = Orbit::sample(
        &fuchsian_group,
        &base_point,
        5,
        Some(PickGeneratorMode::Sequential),
    );
    assert!(random.points == sequential.points);
    assert!(random.points[4] == c64(50.0, 1.0));
}

// ---- the action on the boundary

#[test]
fn boundary_test_action_horocyclic() {
    let h = m64(1.0, 10.0, 0.0, 1.0);

    let boundary_infty: BoundaryPoint<R64> = BoundaryPoint::Infinity;
    let boundary_regular = BoundaryPoint::Regular(R64(0.0));

    assert_eq!(h.map(&boundary_infty), BoundaryPoint::Infinity);
    assert_eq!(h.map(&boundary_regular), BoundaryPoint::Regular(R64(10.0)));
}

#[test]
fn boundary_test_action_hyperbolic() {
    let h = m64(5.0, 0.0, 0.0, 0.2);

    // fixed point 1
    let boundary_infty: BoundaryPoint<R64> = BoundaryPoint::Infinity;
    assert_eq!(h.map(&boundary_infty), BoundaryPoint::Infinity);

    // fixed point 2
    let boundary_regular = BoundaryPoint::Regular(R64(0.0));
    assert_eq!(h.map(&boundary_regular), BoundaryPoint::Regular(R64(0.0)));

    // no fixed point
    let boundary_regular = BoundaryPoint::Regular(R64(1.0));
    assert_eq!(h.map(&boundary_regular), BoundaryPoint::Regular(R64(25.0)));
    let boundary_regular = BoundaryPoint::Regular(R64(-1.0));
    assert_eq!(h.map(&boundary_regular), BoundaryPoint::Regular(R64(-25.0)));
}

#[test]
fn test_action_rotation() {
    // no fixed points
    // rotation by pi/2 = 90 [cos(.), -sin(.); sin(.), cos(.)]
    let h = m64(0.0, -1.0, 1.0, 0.0);

    let b = BoundaryPoint::Regular(R64(0.0));
    assert_eq!(h.map(&b), BoundaryPoint::Infinity);

    let b = BoundaryPoint::Infinity;
    assert_eq!(h.map(&b), BoundaryPoint::Regular(R64(0.0)));

    let b = BoundaryPoint::Regular(R64(1.0));
    assert_eq!(h.map(&b), BoundaryPoint::Regular(R64(-1.0)));

    let b = BoundaryPoint::Regular(R64(-1.0));
    assert_eq!(h.map(&b), BoundaryPoint::Regular(R64(1.0)));
}

#[test]
fn boundary_action_sends_a_small_denominator_to_infinity() {
    // c*t + d = 1e-17 counts as zero under the default tolerance
    let h = m64(1.0, 0.0, 1.0, 1e-17);
    let b = BoundaryPoint::Regular(R64(0.0));
    assert_eq!(h.map(&b), BoundaryPoint::Infinity);
}

// ---- geodesics

#[test]
fn create() {
    let g1 = GeodesicBoundary {
        start: BoundaryPoint::Regular(R64(1.0)),
        end: BoundaryPoint::Infinity,
    };
    let l1 = GeodesicLine::Line(R64(1.0_f64));
    assert!(GeodesicLine::from(g1) == l1);

    let g2 = GeodesicBoundary {
        start: BoundaryPoint::Regular(R64(2.0)),
        end: BoundaryPoint::Regular(R64(-2.0)),
    };
    let l2 = GeodesicLine::Arc(Arc {
        center: R64(0.0),
        radius: R64(2.0),
    });
    assert!(GeodesicLine::from(g2) == l2);
}

#[test]
fn hyperbolic_map_geodesic() {
    let sl = SpecialLinearMoebiusTransformation::try_from(m64(2.0, 0.0, 0.0, 0.5), None).unwrap();

    let g = GeodesicBoundary {
        start: BoundaryPoint::Regular(R64(1.0)),
        end: BoundaryPoint::Regular(R64(-1.0)),
    };
    let mg = sl.map(&g);
    let l = GeodesicLine::Arc(Arc {
        center: R64(0.0),
        radius: R64(4.0),
    });
    assert!(GeodesicLine::from(mg) == l);

    let g = GeodesicBoundary {
        start: BoundaryPoint::Infinity,
        end: BoundaryPoint::Regular(R64(-1.0)),
    };
    let mg = sl.map(&g);
    let l = GeodesicLine::Line(R64(-4.0));
    assert!(GeodesicLine::from(mg) == l);
}

#[test]
fn parabolic_map_geodesic() {
    let sl = SpecialLinearMoebiusTransformation::try_from(m64(1.0, 3.0, 0.0, 1.0), None).unwrap();

    let g = GeodesicBoundary {
        start: BoundaryPoint::Regular(R64(1.0)),
        end: BoundaryPoint::Regular(R64(-1.0)),
    };
    let mg = sl.map(&g);
    let l = GeodesicLine::Arc(Arc {
        center: R64(3.0),
        radius: R64(1.0),
    });
    assert!(GeodesicLine::from(mg) == l);

    let g = GeodesicBoundary {
        start: BoundaryPoint::Infinity,
        end: BoundaryPoint::Regular(R64(-1.0)),
    };
    let mg = sl.map(&g);
    let l = GeodesicLine::Line(R64(2.0));
    assert!(GeodesicLine::from(mg) == l);
}

#[test]
fn test_geodesic_orbit_modular_group() {
    // the modular group is generated by the transformations z -> z+1 and z -> -1/z,
    // which are the Moebius transformations g = [ 1, 1; 0, 1 ] and h = [ 0, -1; 1, 0 ]
    let g = m32(1.0, 1.0, 0.0, 1.0);
    let h = m32(0.0, -1.0, 1.0, 0.0);

    let fuchsian_group = FuchsianGroup::create_from_valid(vec![g, h]);

    let geodesic_arc = GeodesicBoundary::try_new(GeodesicBoundary {
        start: BoundaryPoint::Regular(R32(-1.0)),
        end: BoundaryPoint::Regular(R32(1.0)),
    })
    .unwrap();

    let orbit = Orbit::sample(&fuchsian_group, &geodesic_arc, 100, None);

    assert_eq!(orbit.points.len(), 100);
}

#[test]
fn geodesic_with_equal_endpoints_is_refused() {
    let both = GeodesicBoundary::new(
        BoundaryPoint::Regular(R64(1.5)),
        BoundaryPoint::Regular(R64(1.5)),
    );
    assert!(!both.condition());
    assert!(GeodesicBoundary::try_new(both).is_none());
    let infinite: GeodesicBoundary<R64> =
        GeodesicBoundary::new(BoundaryPoint::Infinity, BoundaryPoint::Infinity);
    assert!(GeodesicBoundary::try_new(infinite).is_none());
    let geodesic = GeodesicBoundary::new(BoundaryPoint::Infinity, BoundaryPoint::Regular(R64(1.5)));
    assert!(GeodesicBoundary::try_new(geodesic) == Some(geodesic));
    assert!(
        geodesic.end_points() == (BoundaryPoint::Infinity, BoundaryPoint::Regular(R64(1.5)))
    );
}

#[test]
fn arc_over_a_segment() {
    let arc = Arc::from_antipodal(R64(1.0), R64(4.0));
    assert_eq!(arc.center, R64(2.5));
    assert_eq!(arc.radius, R64(1.5));
}

// ---- horocycles

#[test]
fn horocycle_test_action_horocyclic() {
    let h = m64(1.0, 10.0, 0.0, 1.0);
    let dflt_horocycle = GeometricHorocCycle::default();
    let mapped_hc = h.map(&dflt_horocycle);
    assert_eq!(mapped_hc, dflt_horocycle);

    let h_inv = h.inverse(None).unwrap();
    let remapped_hc = h_inv.map(&mapped_hc);
    assert_eq!(remapped_hc, dflt_horocycle);

    let tang_hc = GeometricHorocCycle::new(BoundaryPoint::Regular(R64(0.0)), R64(1.0));
    let mapped_hc = h.map(&tang_hc);
    assert_eq!(
        mapped_hc,
        GeometricHorocCycle::new(BoundaryPoint::Regular(R64(10.0)), R64(1.0))
    );
}

#[test]
fn test_action_elliptic() {
    let h = m64(0.0, -1.0, 1.0, 0.0);
    let dflt_horocycle = GeometricHorocCycle::default();
    let mapped_hc = h.map(&dflt_horocycle);
    assert_ne!(mapped_hc, dflt_horocycle);
    assert_eq!(mapped_hc.boundary_point(), BoundaryPoint::Regular(R64(0.0)));

    let h_inv = h.inverse(None).unwrap();
    let remapped_hc = h_inv.map(&mapped_hc);
    assert_eq!(remapped_hc, dflt_horocycle);

    let tang_hc = GeometricHorocCycle::new(BoundaryPoint::Regular(R64(0.0)), R64(1.0));
    let mapped_hc = h.map(&tang_hc);
    assert_eq!(mapped_hc, GeometricHorocCycle::default());
}

#[test]
fn horocycle_test_action_hyperbolic() {
    let h = m64(5.0, 0.0, 0.0, 0.2);
    let h_inv = h.inverse(None).unwrap();

    let dflt_horocycle = GeometricHorocCycle::default();
    let mapped_hc = h.map(&dflt_horocycle);
    assert_eq!(mapped_hc, GeometricHorocCycle::Line(R64(25.0)));

    let remapped_hc = h_inv.map(&mapped_hc);
    assert_eq!(
        remapped_hc.boundary_point(),
        dflt_horocycle.boundary_point()
    );
    assert!(
        (remapped_hc.height_or_diameter().0 - dflt_horocycle.height_or_diameter().0).abs()
            <= f64::EPSILON
    );

    let tang_hc = GeometricHorocCycle::new(BoundaryPoint::Regular(R64(0.0)), R64(1.0));
    let mapped_hc = h.map(&tang_hc);
    assert_eq!(mapped_hc.boundary_point(), BoundaryPoint::Regular(R64(0.0)));
    assert!((mapped_hc.height_or_diameter().0 - 25.0).abs() <= 1e-12);

    let remapped_hc = h_inv.map(&mapped_hc);
    assert_eq!(remapped_hc.boundary_point(), BoundaryPoint::Regular(R64(0.0)));
    assert!((remapped_hc.height_or_diameter().0 - 1.0).abs() <= 1e-12);

    let tang_hc = GeometricHorocCycle::new(BoundaryPoint::Regular(R64(1.0)), R64(1.0));
    let mapped_hc = h.map(&tang_hc);
    assert_eq!(mapped_hc.boundary_point(), BoundaryPoint::Regular(R64(25.0)));
    assert_ne!(mapped_hc.height_or_diameter(), R64(25.0));
    let remapped_hc = h_inv.map(&mapped_hc);
    assert_eq!(remapped_hc.boundary_point(), BoundaryPoint::Regular(R64(1.0)));
    assert!((remapped_hc.height_or_diameter().0 - 1.0).abs() <= 1e-12);
}

#[test]
fn horocycle_line_becomes_a_circle() {
    // c != 0: the line at the height 2 becomes the circle at a/c with the diameter 1/(2*c*c)
    let h = m64(3.0, 1.0, 2.0, 1.0);
    let mapped = h.map(&GeometricHorocCycle::new_line(R64(2.0)));
    assert_eq!(
        mapped,
        GeometricHorocCycle::TangencyCircle(TangencyCircle {
            boundary: R64(1.5),
            diameter: R64(0.125),
        })
    );
}

#[test]
fn tangency_circle_as_euclidean_circle() {
    let circle = TangencyCircle {
        boundary: R64(3.0),
        diameter: R64(4.0),
    };
    let euclidean = EuclideanCircle::from(&circle);
    assert!(
        euclidean
            == EuclideanCircle {
                center: c64(3.0, 2.0),
                radius: R64(2.0),
            }
    );
}

// ---- the pickers

#[test]
fn test_sequential_picker() {
    let group_generators = vec![2.0, 0.5];
    let mut picker = SequentialPicker::new(&group_generators, 5);

    assert_eq!(picker.next(), Some(2.0));
    assert_eq!(picker.next(), Some(0.5));
    assert_eq!(picker.next(), Some(2.0));
    assert_eq!(picker.next(), Some(0.5));
    assert_eq!(picker.next(), Some(2.0));
    assert_eq!(picker.next(), None);

    let group_generators = vec![2.0, 0.5, -4.0, -0.25];
    let mut picker = SequentialPicker::new(&group_generators, 5);

    assert_eq!(picker.next(), Some(2.0));
    assert_eq!(picker.next(), Some(0.5));
    assert_eq!(picker.next(), Some(-4.0));
    assert_eq!(picker.next(), Some(-0.25));
    assert_eq!(picker.next(), Some(2.0));
    assert_eq!(picker.next(), None);
}

// ---- the scalar traits on floats, and the laws as tests

#[test]
fn identities_count_as_themselves() {
    for tol in [None, Some(0.0), Some(1e-16), Some(3.0)] {
        assert!(R64::zero().is_zero(tol));
        assert!(R64::one().is_one(tol));
        assert!(R32::zero().is_zero(tol));
        assert!(R32::one().is_one(tol));
        assert!(MoebiusTransformation::<R64>::zero().is_zero(tol));
        assert!(MoebiusTransformation::<R64>::one().is_one(tol));
    }
    assert!(R64(1e-9).is_zero(Some(1e-8)));
    assert!(!R64(1e-9).is_zero(Some(1e-10)));
    assert!(!R64(1e-9).is_zero(None));
    assert_eq!(R64(-9.0).square_root(), R64(3.0));
    assert_eq!(R64(-9.0).signed(), R64(-1.0));
    assert!(!R64(-9.0).is_positive());
}

#[test]
fn inverse_undoes_a_normalized_transformation() {
    let g = SpecialLinearMoebiusTransformation::try_from(m64(3.0, 2.0, 4.0, 3.0), None).unwrap();
    let e = g.combine(&g.inv());
    assert!(e.is_one(Some(1e-12)));
    assert!(e == SpecialLinearMoebiusTransformation::<R64>::identity());
}

#[test]
fn group_action_checks_on_floats() {
    let g = m64(3.0, 2.0, 4.0, 3.0);
    let h = m64(-3.0, 2.0, -5.0, 3.0);
    assert!(g.associativity_check(&h, &g));
    assert!(g.identity_check(&c64(1.0, 3.0)));
    assert!(g.identity_check(&BoundaryPoint::Regular(R64(0.25))));
    assert!(g.identity_check(&BoundaryPoint::<R64>::Infinity));
    assert!(g.identity_check(&GeometricHorocCycle::new_line(R64(2.0))));
    assert!(g.compatibility_check(&h, &BoundaryPoint::Regular(R64(1.0))));
    assert!(g.compatibility_check(&m64(1.0, 2.0, 2.0, 5.0), &BoundaryPoint::<R64>::Infinity));
}
