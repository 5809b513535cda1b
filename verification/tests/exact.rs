//! The library on integer scalars, where every result is exact.

use fuchsian::algebraic_extensions::{
    AddIdentity, Group, Inverse, IsPositive, MulIdentity, NumericAddIdentity, NumericMulIdentity,
};
use fuchsian::fuchsian_group::FuchsianGroup;
use fuchsian::geometry::basics::ComplexPoint;
use fuchsian::geometry::boundary::BoundaryPoint;
use fuchsian::geometry::geodesics::GeodesicBoundary;
use fuchsian::geometry::horocycle::{GeometricHorocCycle, TangencyCircle};
use fuchsian::group_action::{
    Action, Determinant, FinitelyGeneratedGroup, GroupAction, Orbit, PickGeneratorMode,
    RandomPicker, SequentialPicker,
};
use fuchsian::moebius::MoebiusTransformation;
use fuchsian::set_extensions::SetRestriction;
use num_complex::Complex;

fn m(a: i64, b: i64, c: i64, d: i64) -> MoebiusTransformation<i64> {
    MoebiusTransformation::new(a, b, c, d)
}

#[test]
fn test_preserve_determinant() {
    let m1 = MoebiusTransformation::<i8>::new(1, 4, 0, -1);
    assert_eq!(m1.determinant(), -1);
    assert_eq!((m1 * m1).determinant(), 1);

    let m2 = MoebiusTransformation::<i8>::new(1, 4, -2, -1);
    assert_eq!(m2.determinant(), 7);
    assert_eq!((m2 * m2).determinant(), 49);
    assert_eq!((m1 * m2).determinant(), m1.determinant() * m2.determinant());
    assert_eq!((m1 * m2).determinant(), -7);
}

#[test]
fn determinant_and_squared_sum_of_one_two_three_four() {
    assert_eq!(m(1, 2, 3, 4).determinant(), -2);
    assert_eq!(m(-1, -2, 3, 4).determinant(), 2);
    assert_eq!(m(1, 2, 3, 4).squared_sum(), 30);
    assert_eq!(m(1, 2, 3, 4).det(), -2);
}

#[test]
fn zero_test_on_integers() {
    assert!(0i32.is_zero(None));
    assert!(!1i32.is_zero(None));
    assert!(0i32.is_zero(Some(0)));
    assert!(!1i32.is_zero(Some(0)));
    assert!(3i32.is_zero(Some(3)));
    assert!((-3i32).is_zero(Some(3)));
    assert!(!4i32.is_zero(Some(3)));
    assert!(!(-4i32).is_zero(Some(3)));
    // a negative tolerance is met by nothing
    assert!(!0i32.is_zero(Some(-1)));
    // the absolute value of the least integer is above every tolerance
    assert!(!i8::MIN.is_zero(Some(i8::MAX)));
    assert!(i8::MAX.is_zero(Some(i8::MAX)));
    assert!(!i64::MIN.is_zero(Some(i64::MAX)));
    assert_eq!(i16::default_threshold(), Some(0));
    assert_eq!(i64::zero(), 0);
}

#[test]
fn one_test_on_integers() {
    assert!(1i32.is_one(None));
    assert!(!0i32.is_one(None));
    assert!(1i32.is_one(Some(0)));
    assert!(!2i32.is_one(Some(0)));
    assert!(4i32.is_one(Some(3)));
    assert!((-2i32).is_one(Some(3)));
    assert!(!5i32.is_one(Some(3)));
    assert!(!(-3i32).is_one(Some(3)));
    assert!(!1i32.is_one(Some(-1)));
    assert!(i8::MAX.is_one(Some(i8::MAX)));
    assert!((-126i8).is_one(Some(i8::MAX)));
    assert!(!(-127i8).is_one(Some(i8::MAX)));
    assert!(!i8::MIN.is_one(Some(i8::MAX)));
    assert_eq!(i8::one(), 1);
}

#[test]
fn identities_count_as_themselves_on_integers() {
    for tol in [None, Some(0), Some(1), Some(i16::MAX)] {
        assert!(i16::zero().is_zero(tol));
        assert!(i16::one().is_one(tol));
        assert!(MoebiusTransformation::<i16>::zero().is_zero(tol));
        assert!(MoebiusTransformation::<i16>::one().is_one(tol));
    }
    assert!(!MoebiusTransformation::<i16>::one().is_zero(None));
    assert!(!MoebiusTransformation::<i16>::zero().is_one(None));
    assert!(MoebiusTransformation::<i16>::new(1, 2, -2, 0).is_one(Some(2)));
    assert!(!MoebiusTransformation::<i16>::new(1, 3, -2, 0).is_one(Some(2)));
}

#[test]
fn sign_of_integers() {
    assert!(5i64.is_positive());
    assert!(!0i64.is_positive());
    assert!(!(-5i64).is_positive());
    assert!(!i64::MIN.is_positive());
}

#[test]
fn inverse_divides_the_adjugate_by_the_determinant() {
    // determinant -1
    let t = m(1, 2, 1, 1);
    assert!(t.is_invertible(None));
    assert!(t.inverse(None) == Some(m(-1, 2, 1, -1)));
    assert!(t * t.inverse(None).unwrap() == MoebiusTransformation::<i64>::one());
    // the determinant counts as zero within the tolerance 1, not within 0
    assert!(t.inverse(Some(1)).is_none());
    assert!(t.inverse(Some(0)).is_some());
    let inverted: Result<MoebiusTransformation<i64>, &'static str> = Inverse::inverse(&t);
    assert!(inverted == Ok(m(-1, 2, 1, -1)));
    // determinant 2: the quotients of integers are cut off towards zero
    assert!(m(2, 0, 0, 1).inverse(None) == Some(m(0, 0, 0, 1)));
    assert!(m(-3, 0, 0, -4).inverse(None) == Some(m(0, 0, 0, 0)));
}

#[test]
fn inverse_of_a_singular_transformation_fails() {
    let t = m(1, 2, 2, 4);
    assert!(!t.is_invertible(None));
    assert!(t.inverse(None).is_none());
    let inverted: Result<MoebiusTransformation<i64>, &'static str> = Inverse::inverse(&t);
    assert_eq!(
        inverted.err(),
        Some("Moebius transformation is not invertible. Determinant is zero within the default tolerance")
    );
}

#[test]
fn group_operations_on_integers() {
    let g = m(3, 2, 4, 3);
    let h = m(-3, 2, -5, 3);
    assert!(g.combine(&h) == m(-19, 12, -27, 17));
    assert!(g.inv() == m(3, -2, -4, 3));
    assert!(g.combine(&g.inv()) == MoebiusTransformation::<i64>::identity());
    assert!(g.inv().combine(&g) == MoebiusTransformation::<i64>::identity());
    assert!(MoebiusTransformation::<i64>::identity() == m(1, 0, 0, 1));
    assert!(g.associativity_check(&h, &g));
    assert!(g.condition());
    assert!(!m(1, 2, 3, 4).condition());
    assert!(MoebiusTransformation::try_new(g) == Some(g));
    assert!(MoebiusTransformation::try_new(m(2, 0, 0, 2)).is_none());
}

#[test]
fn vector_space_operations_on_integers() {
    let x = m(1, -2, 3, -4);
    let y = m(10, 20, 30, 40);
    assert!(x + y == m(11, 18, 33, 36));
    assert!(-x == m(-1, 2, -3, 4));
    assert!(y - x == m(9, 22, 27, 44));
    assert!(x * 5 == m(5, -10, 15, -20));
    assert!(x * y == m(-50, -60, -90, -100));
    assert!(x != y);
}

#[test]
fn strict_group_keeps_determinant_one_in_order() {
    let group = FuchsianGroup::create_from_valid(vec![
        m(1, 1, 0, 1),
        m(1, 2, 3, 4),
        m(2, 0, 0, 2),
        m(0, -1, 1, 0),
        m(1, 1, 0, 1),
        m(-1, 0, 0, 1),
    ]);
    assert!(group.generators() == [m(1, 1, 0, 1), m(0, -1, 1, 0), m(1, 1, 0, 1)].as_slice());
    let empty = FuchsianGroup::<i64>::create_from_valid(vec![]);
    assert_eq!(empty.generators().len(), 0);
}

#[test]
fn try_push_appends_valid_generators_only() {
    let mut group = FuchsianGroup::create_from_valid(vec![m(1, 1, 0, 1)]);
    assert!(!group.try_push(m(0, -1, 1, 0)));
    assert_eq!(group.generators().len(), 2);
    assert!(!group.try_push(m(1, 2, 3, 4)));
    assert_eq!(group.generators().len(), 2);
    assert!(group.generators()[1] == m(0, -1, 1, 0));
}

#[test]
fn boundary_action_on_integers() {
    let h = m(1, 10, 0, 1);
    assert_eq!(h.map(&BoundaryPoint::Infinity), BoundaryPoint::Infinity);
    assert_eq!(h.map(&BoundaryPoint::Regular(0)), BoundaryPoint::Regular(10));
    let r = m(0, -1, 1, 0);
    assert_eq!(r.map(&BoundaryPoint::Regular(0)), BoundaryPoint::Infinity);
    assert_eq!(r.map(&BoundaryPoint::Infinity), BoundaryPoint::Regular(0));
    assert_eq!(r.map(&BoundaryPoint::Regular(1)), BoundaryPoint::Regular(-1));
    // the quotient of integers is cut off towards zero
    let t = m(1, 0, 0, 2);
    assert_eq!(t.map(&BoundaryPoint::Regular(3)), BoundaryPoint::Regular(1));
    assert_eq!(t.map(&BoundaryPoint::Regular(-3)), BoundaryPoint::Regular(-1));
}

#[test]
fn geodesic_action_on_integers() {
    let h = m(1, 10, 0, 1);
    let g = GeodesicBoundary::new(BoundaryPoint::Infinity, BoundaryPoint::Regular(-4));
    let mapped = h.map(&g);
    assert!(mapped == GeodesicBoundary::new(BoundaryPoint::Infinity, BoundaryPoint::Regular(6)));
    assert!(mapped.condition());
    assert!(mapped != g);
}

#[test]
fn horocycle_action_on_integers() {
    let translation = m(1, 10, 0, 1);
    assert_eq!(
        translation.map(&GeometricHorocCycle::new_line(7)),
        GeometricHorocCycle::Line(7)
    );
    assert_eq!(
        translation.map(&GeometricHorocCycle::new(BoundaryPoint::Regular(2), 5)),
        GeometricHorocCycle::TangencyCircle(TangencyCircle {
            boundary: 12,
            diameter: 5,
        })
    );
    // c = 0 and a != d: the height is multiplied by a*a
    let dilation = m(3, 0, 0, 1);
    assert_eq!(
        dilation.map(&GeometricHorocCycle::new_line(7)),
        GeometricHorocCycle::Line(63)
    );
    // c != 0: the line becomes the circle at a/c with the diameter 1/(t*c*c)
    let rotation = m(0, -1, 1, 0);
    assert_eq!(
        rotation.map(&GeometricHorocCycle::new_line(1)),
        GeometricHorocCycle::TangencyCircle(TangencyCircle {
            boundary: 0,
            diameter: 1,
        })
    );
    // the denominator c*p + d is zero: the circle becomes the line at 1/(w*c*c)
    assert_eq!(
        rotation.map(&GeometricHorocCycle::new(BoundaryPoint::Regular(0), 1)),
        GeometricHorocCycle::Line(1)
    );
    assert_eq!(
        GeometricHorocCycle::<i64>::default(),
        GeometricHorocCycle::Line(1)
    );
    assert_eq!(
        GeometricHorocCycle::new(BoundaryPoint::Regular(2), 5).boundary_point(),
        BoundaryPoint::Regular(2)
    );
    assert_eq!(
        GeometricHorocCycle::new_line(7).boundary_point(),
        BoundaryPoint::Infinity
    );
    assert_eq!(
        GeometricHorocCycle::new(BoundaryPoint::Regular(2), 5).height_or_diameter(),
        5
    );
    assert_eq!(GeometricHorocCycle::new_line(7).height_or_diameter(), 7);
}

#[test]
fn complex_quotient_agrees_with_num_complex() {
    let values: [i64; 7] = [-7, -3, -1, 0, 1, 2, 5];
    for a in values {
        for b in values {
            for c in values {
                for d in values {
                    if c == 0 && d == 0 {
                        continue;
                    }
                    let ours = ComplexPoint::new(a, b) / ComplexPoint::new(c, d);
                    let theirs = Complex::new(a, b) / Complex::new(c, d);
                    assert_eq!((ours.re, ours.im), (theirs.re, theirs.im));
                }
            }
        }
    }
}

#[test]
fn complex_action_agrees_with_num_complex() {
    let t = m(3, 2, 4, 3);
    for re in -4i64..5 {
        for im in -4i64..5 {
            if 4 * re + 3 == 0 && im == 0 {
                continue;
            }
            let ours = t.map(&ComplexPoint::new(re, im));
            let z = Complex::new(re, im);
            let theirs = Complex::new(3 * z.re + 2, 3 * z.im) / Complex::new(4 * z.re + 3, 4 * z.im);
            assert_eq!((ours.re, ours.im), (theirs.re, theirs.im));
        }
    }
}

#[test]
fn identity_acts_as_the_identity() {
    let e = MoebiusTransformation::<i64>::identity();
    for t in [-9i64, -1, 0, 1, 12] {
        assert_eq!(e.map(&BoundaryPoint::Regular(t)), BoundaryPoint::Regular(t));
        assert_eq!(e.map(&GeometricHorocCycle::new_line(t)), GeometricHorocCycle::new_line(t));
        assert_eq!(
            e.map(&GeometricHorocCycle::new(BoundaryPoint::Regular(t), 3)),
            GeometricHorocCycle::new(BoundaryPoint::Regular(t), 3)
        );
        assert!(e.map(&ComplexPoint::new(t, 4)) == ComplexPoint::new(t, 4));
        assert!(e.identity_check(&BoundaryPoint::Regular(t)));
        assert!(e.identity_check(&ComplexPoint::new(t, 4)));
    }
    assert_eq!(e.map(&BoundaryPoint::<i64>::Infinity), BoundaryPoint::Infinity);
    assert!(e.identity_check(&GeodesicBoundary::new(
        BoundaryPoint::Infinity,
        BoundaryPoint::Regular(5i64)
    )));
}

#[test]
fn compatibility_where_the_quotients_are_exact() {
    let g = m(1, 1, 0, 1);
    let h = m(0, -1, 1, 0);
    // h maps 1 to -1, g maps -1 to 0, and the combination maps 1 to 0
    assert!(g.compatibility_check(&h, &BoundaryPoint::Regular(1)));
    assert!(g.compatibility_check(&h, &BoundaryPoint::Infinity));
    assert!(g.compatibility_check(&h, &BoundaryPoint::Regular(0)));
    assert!(h.compatibility_check(&g, &BoundaryPoint::Regular(-1)));
}

#[test]
fn compatibility_fails_where_a_quotient_is_cut_off() {
    // h maps 1 to 2/3, which is cut off to 0
    let g = m(0, -1, 1, 0);
    let h = m(1, 1, 1, 2);
    assert_eq!(h.map(&BoundaryPoint::Regular(1)), BoundaryPoint::Regular(0));
    assert_eq!(g.map(&BoundaryPoint::Regular(0)), BoundaryPoint::Infinity);
    assert_eq!(
        g.combine(&h).map(&BoundaryPoint::Regular(1)),
        BoundaryPoint::Regular(-1)
    );
    assert!(!g.compatibility_check(&h, &BoundaryPoint::Regular(1)));
}

#[test]
fn sequential_orbit_of_the_modular_group() {
    let g = m(1, 1, 0, 1);
    let h = m(0, -1, 1, 0);
    let group = FuchsianGroup::create_from_valid(vec![g, h]);
    // the pool is g, h, g^-1, h^-1
    let orbit = Orbit::sample(
        &group,
        &BoundaryPoint::Regular(1i64),
        6,
        Some(PickGeneratorMode::Sequential),
    );
    assert!(
        orbit.points
            == vec![
                BoundaryPoint::Regular(2),
                BoundaryPoint::Regular(0),
                BoundaryPoint::Regular(-1),
                BoundaryPoint::Regular(1),
                BoundaryPoint::Regular(2),
                BoundaryPoint::Regular(0),
            ]
    );
    let none = Orbit::sample(&group, &BoundaryPoint::Regular(1i64), 0, None);
    assert_eq!(none.points.len(), 0);
}

#[test]
fn orbit_of_a_single_generator_never_goes_back() {
    let group = FuchsianGroup::create_from_valid(vec![m(1, 1, 0, 1)]);
    for mode in [
        None,
        Some(PickGeneratorMode::Sequential),
        Some(PickGeneratorMode::Random),
    ] {
        let orbit = Orbit::sample(&group, &BoundaryPoint::Regular(0i64), 4, mode);
        assert!(
            orbit.points
                == vec![
                    BoundaryPoint::Regular(1),
                    BoundaryPoint::Regular(2),
                    BoundaryPoint::Regular(3),
                    BoundaryPoint::Regular(4),
                ]
        );
    }
}

#[test]
fn random_orbit_moves_by_an_element_of_the_pool() {
    let g = m(1, 1, 0, 1);
    let h = m(1, 3, 0, 1);
    let group = FuchsianGroup::create_from_valid(vec![g, h]);
    let orbit = Orbit::sample(
        &group,
        &BoundaryPoint::Regular(0i64),
        200,
        Some(PickGeneratorMode::Random),
    );
    assert_eq!(orbit.points.len(), 200);
    let mut last = 0i64;
    let mut steps = [0usize; 4];
    for p in orbit.points {
        let now = match p {
            BoundaryPoint::Regular(t) => t,
            BoundaryPoint::Infinity => panic!("a translation keeps the real line"),
        };
        match now - last {
            1 => steps[0] += 1,
            3 => steps[1] += 1,
            -1 => steps[2] += 1,
            -3 => steps[3] += 1,
            other => panic!("a step of {} is by no element of the pool", other),
        }
        last = now;
    }
    // each of the four elements is picked at some time in 200 draws
    assert!(steps.iter().all(|&n| n > 0));
}

#[test]
fn sequential_picker_counts_round_the_pool() {
    let pool = vec![7u8];
    let mut picker = SequentialPicker::new(&pool, 3);
    assert_eq!(picker.next(), Some(7));
    assert_eq!(picker.next(), Some(7));
    assert_eq!(picker.next(), Some(7));
    assert_eq!(picker.next(), None);
    assert_eq!(picker.next(), None);
    let empty: Vec<u8> = vec![];
    let mut picker = SequentialPicker::new(&empty, 0);
    assert_eq!(picker.next(), None);
}

#[test]
fn random_picker_picks_from_the_pool() {
    let pool = vec![10u32, 20, 30];
    let mut picker = RandomPicker::new(&pool, 50);
    let mut seen = [false; 3];
    for _ in 0..50 {
        match picker.next() {
            Some(10) => seen[0] = true,
            Some(20) => seen[1] = true,
            Some(30) => seen[2] = true,
            other => panic!("{:?} is not in the pool", other),
        }
    }
    assert_eq!(picker.next(), None);
    assert!(seen.iter().any(|&s| s));
    let mut picker = RandomPicker::new(&pool, 2);
    assert_eq!(picker.pick(2), Some(30));
    assert_eq!(picker.pick(0), Some(10));
    assert_eq!(picker.pick(1), None);
}

#[test]
fn default_mode_is_sequential() {
    assert!(PickGeneratorMode::default() == PickGeneratorMode::Sequential);
    assert!(PickGeneratorMode::Random != PickGeneratorMode::Sequential);
}

#[test]
fn mode_names() {
    assert!(PickGeneratorMode::from_name("random") == Some(PickGeneratorMode::Random));
    assert!(PickGeneratorMode::from_name("sequential") == Some(PickGeneratorMode::Sequential));
    assert!(PickGeneratorMode::from_name("  Random\n") == Some(PickGeneratorMode::Random));
    assert!(PickGeneratorMode::from_name("\tSEQUENTIAL ") == Some(PickGeneratorMode::Sequential));
    assert!(PickGeneratorMode::from_name("").is_none());
    assert!(PickGeneratorMode::from_name("   ").is_none());
    assert!(PickGeneratorMode::from_name("randomly").is_none());
    assert!(PickGeneratorMode::from_name("ran dom").is_none());
    assert!(PickGeneratorMode::from_name("sequentia").is_none());
    assert!(PickGeneratorMode::from_name("random sequential").is_none());
    assert!(PickGeneratorMode::from_name("r\u{e4}ndom").is_none());
}

#[test]
fn compatibility_on_the_complex_plane() {
    let g = m(1, 1, 0, 1);
    let h = m(0, -1, 1, 0);
    // h maps i to i, exactly
    assert!(h.map(&ComplexPoint::new(0, 1)) == ComplexPoint::new(0, 1));
    assert!(g.compatibility_check(&h, &ComplexPoint::new(0, 1)));
    assert!(g.compatibility_check(&h, &ComplexPoint::new(1, 0)));
    assert!(h.compatibility_check(&g, &ComplexPoint::new(-1, 1)));
    // h maps 1 + i to (-1 + i) / 2, which is cut off to 0
    assert!(h.map(&ComplexPoint::new(1, 1)) == ComplexPoint::new(0, 0));
    assert!(!g.compatibility_check(&h, &ComplexPoint::new(1, 1)));
}

#[test]
fn compatibility_on_horocycles() {
    let g = m(1, 1, 0, 1);
    let h = m(0, -1, 1, 0);
    let line = GeometricHorocCycle::new_line(1i64);
    // h maps the line at the height 1 to the circle at 0 with the diameter 1, exactly
    assert_eq!(
        h.map(&line),
        GeometricHorocCycle::new(BoundaryPoint::Regular(0), 1)
    );
    assert!(g.compatibility_check(&h, &line));
    assert!(h.compatibility_check(&g, &line));
    let circle = GeometricHorocCycle::new(BoundaryPoint::Regular(0i64), 1);
    assert!(g.compatibility_check(&h, &circle));
    assert!(h.compatibility_check(&g, &circle));
    assert!(h.compatibility_check(&h, &circle));
    // the diameter 1 / (2*1*1) of the image of the line at the height 2 is cut off to 0
    let high = GeometricHorocCycle::new_line(2i64);
    assert_eq!(
        h.map(&high),
        GeometricHorocCycle::new(BoundaryPoint::Regular(0), 0)
    );
}

#[test]
fn geodesics_stay_geodesics() {
    let geodesic = GeodesicBoundary::new(BoundaryPoint::Regular(0i64), BoundaryPoint::Infinity);
    assert!(geodesic.condition());
    // the quotients of these are exact at both endpoints
    for t in [m(0, -1, 1, 0), m(1, 1, 0, 1), m(2, 1, 1, 1), m(-1, 0, 0, -1)] {
        assert!(t.map(&geodesic).condition());
    }
    assert!(
        m(0, -1, 1, 0).map(&geodesic)
            == GeodesicBoundary::new(BoundaryPoint::Infinity, BoundaryPoint::Regular(0))
    );
    // 2/3 and 3/4 are both cut off to 0
    assert!(!m(3, 2, 4, 3).map(&geodesic).condition());
    // after a translation, whose quotients are exact, every transformation is compatible
    for t in [m(0, -1, 1, 0), m(1, 1, 0, 1), m(3, 2, 4, 3), m(2, 1, 1, 1)] {
        assert!(t.compatibility_check(&m(1, 1, 0, 1), &geodesic));
    }
}

#[test]
fn determinant_is_multiplicative() {
    let g = m(3, -2, 5, 7);
    let h = m(-4, 1, 2, 6);
    assert_eq!((g * h).determinant(), g.determinant() * h.determinant());
    assert_eq!((g * 3).determinant(), 9 * g.determinant());
}
