use crate::algebraic_extensions::{
    AddIdentity, Group, MulIdentity, MuliplicativeNumeric, Numeric, NumericAddIdentity,
};
use crate::exact::ExactScalar;
use crate::geometry::basics::ComplexPoint;
use crate::geometry::boundary::BoundaryPoint;
use crate::geometry::geodesics::GeodesicBoundary;
use crate::geometry::horocycle::{GeometricHorocCycle, TangencyCircle};
use crate::group_action::Action;
use crate::moebius::MoebiusTransformation;
use crate::set_extensions::SetRestriction;
use vstd::prelude::*;
use vstd::std_specs::cmp::PartialEqSpec;

verus! {

impl<T: ExactScalar> MoebiusTransformation<T> {
    /// With the second row of the identity, `c*t + d` may be computed and is
    /// one; with its first row, `a*t + b` may be computed and is `t`; and the
    /// quotient of the two may be computed and is `t`.
    proof fn lemma_identity_at(t: T)
        ensures
            ({
                let e = Self::identity_spec();
                let denom = e.c.times(t).plus(e.d);
                let num = e.a.times(t).plus(e.b);
                &&& e.c.can_multiply(t)
                &&& e.c.times(t).as_int() == 0
                &&& e.c.times(t).can_add(e.d)
                &&& denom.as_int() == 1
                &&& !denom.is_zero_spec(T::default_threshold_spec())
                &&& e.a.can_multiply(t)
                &&& e.a.times(t).as_int() == t.as_int()
                &&& e.a.times(t).can_add(e.b)
                &&& num.as_int() == t.as_int()
                &&& num.can_divide(denom)
                &&& num.over(denom) == t
            }),
    {
        T::lemma_exact();
        let e = Self::identity_spec();
        T::lemma_defined(e.c, e.c);
        T::lemma_defined(e.d, e.d);
        T::lemma_defined(t, t);
        assert(e.c.as_int() * t.as_int() == 0) by (nonlinear_arith)
            requires
                e.c.as_int() == 0,
        ;
        crate::exact::lemma_product(e.c, t);
        crate::exact::lemma_sum(e.c.times(t), e.d);
        let denom = e.c.times(t).plus(e.d);
        T::lemma_is_zero(denom);
        assert(e.a.as_int() * t.as_int() == t.as_int()) by (nonlinear_arith)
            requires
                e.a.as_int() == 1,
        ;
        crate::exact::lemma_product(e.a, t);
        crate::exact::lemma_sum(e.a.times(t), e.b);
        let num = e.a.times(t).plus(e.b);
        crate::exact::lemma_quotient(num, denom);
        T::lemma_injective(num.over(denom), t);
    }

    /// The identity may be applied to every boundary point and maps it to
    /// itself.
    pub proof fn lemma_identity_on_boundary(x: BoundaryPoint<T>)
        ensures
            Self::identity_spec().map_defined(&x),
            Self::identity_spec().map_spec(&x) == x,
    {
        T::lemma_exact();
        T::lemma_is_zero(Self::identity_spec().c);
        match x {
            BoundaryPoint::Infinity => {},
            BoundaryPoint::Regular(t) => {
                Self::lemma_identity_at(t);
            },
        }
    }

    /// The identity may be applied to every geodesic and maps it to itself.
    pub proof fn lemma_identity_on_geodesics(x: GeodesicBoundary<T>)
        ensures
            Self::identity_spec().map_defined(&x),
            Self::identity_spec().map_spec(&x) == x,
    {
        Self::lemma_identity_on_boundary(x.start);
        Self::lemma_identity_on_boundary(x.end);
    }

    /// The identity may be applied to every point of the complex plane and
    /// maps it to itself.
    pub proof fn lemma_identity_on_complex_plane(x: ComplexPoint<T>)
        ensures
            Self::identity_spec().map_defined(&x),
            Self::identity_spec().map_spec(&x) == x,
    {
        T::lemma_exact();
        let e = Self::identity_spec();
        Self::lemma_identity_at(x.re);
        Self::lemma_identity_at(x.im);
        let nom = ComplexPoint { re: e.a.times(x.re).plus(e.b), im: e.a.times(x.im) };
        let denom = ComplexPoint { re: e.c.times(x.re).plus(e.d), im: e.c.times(x.im) };
        T::lemma_defined(e.c, e.c);
        T::lemma_defined(e.d, e.d);
        T::lemma_defined(x.re, x.re);
        T::lemma_defined(x.im, x.im);
        assert(denom.re.as_int() * denom.re.as_int() == 1 && denom.im.as_int() * denom.im.as_int()
            == 0 && nom.re.as_int() * denom.re.as_int() == x.re.as_int() && nom.im.as_int()
            * denom.im.as_int() == 0 && nom.im.as_int() * denom.re.as_int() == x.im.as_int()
            && nom.re.as_int() * denom.im.as_int() == 0) by (nonlinear_arith)
            requires
                denom.re.as_int() == 1,
                denom.im.as_int() == 0,
                nom.re.as_int() == x.re.as_int(),
                nom.im.as_int() == x.im.as_int(),
        ;
        crate::exact::lemma_product(denom.re, denom.re);
        crate::exact::lemma_product(denom.im, denom.im);
        crate::exact::lemma_sum(denom.re.times(denom.re), denom.im.times(denom.im));
        let norm_sqr = denom.norm_sqr_spec();
        crate::exact::lemma_product(nom.re, denom.re);
        crate::exact::lemma_product(nom.im, denom.im);
        crate::exact::lemma_sum(nom.re.times(denom.re), nom.im.times(denom.im));
        crate::exact::lemma_product(nom.im, denom.re);
        crate::exact::lemma_product(nom.re, denom.im);
        crate::exact::lemma_negation(nom.re.times(denom.im));
        crate::exact::lemma_sum(nom.im.times(denom.re), nom.re.times(denom.im).negated());
        let re = nom.re.times(denom.re).plus(nom.im.times(denom.im));
        let im = nom.im.times(denom.re).plus(nom.re.times(denom.im).negated());
        crate::exact::lemma_quotient(re, norm_sqr);
        crate::exact::lemma_quotient(im, norm_sqr);
        T::lemma_injective(re.over(norm_sqr), x.re);
        T::lemma_injective(im.over(norm_sqr), x.im);
    }

    /// The identity may be applied to every horocycle and maps it to itself.
    pub proof fn lemma_identity_on_horocycles(x: GeometricHorocCycle<T>)
        ensures
            Self::identity_spec().map_defined(&x),
            Self::identity_spec().map_spec(&x) == x,
    {
        T::lemma_exact();
        let e = Self::identity_spec();
        T::lemma_is_zero(e.c);
        T::lemma_defined(e.c, e.c);
        T::lemma_defined(e.d, e.d);
        match x {
            GeometricHorocCycle::Line(t) => {
                crate::exact::lemma_negation(e.d);
                crate::exact::lemma_sum(e.a, e.d.negated());
                T::lemma_is_zero(e.a.plus(e.d.negated()));
            },
            GeometricHorocCycle::TangencyCircle(circle) => {
                let p = circle.boundary;
                let w = circle.diameter;
                Self::lemma_identity_at(p);
                let denom = e.c.times(p).plus(e.d);
                assert(denom.as_int() * denom.as_int() == 1) by (nonlinear_arith)
                    requires
                        denom.as_int() == 1,
                ;
                crate::exact::lemma_product(denom, denom);
                T::lemma_defined(w, w);
                crate::exact::lemma_quotient(w, denom.times(denom));
                T::lemma_injective(w.over(denom.times(denom)), w);
            },
        }
    }
}

impl<T: ExactScalar> MoebiusTransformation<T> {
    /// The numerator `a*t + b` of the integers.
    pub open spec fn int_numerator_at(self, t: int) -> int {
        self.a.as_int() * t + self.b.as_int()
    }

    /// The denominator `c*t + d` of the integers.
    pub open spec fn int_denominator_at(self, t: int) -> int {
        self.c.as_int() * t + self.d.as_int()
    }

    /// Whether the quotient that the action on the boundary computes at `x` is
    /// exact: the quotient, times the divisor, is the dividend. Where no
    /// quotient is computed, because the image is the point at infinity, this
    /// holds.
    pub open spec fn divides_at(self, x: BoundaryPoint<T>) -> bool {
        match x {
            BoundaryPoint::Infinity => self.c.as_int() != 0 ==> crate::exact::truncated_quotient(
                self.a.as_int(),
                self.c.as_int(),
            ) * self.c.as_int() == self.a.as_int(),
            BoundaryPoint::Regular(t) => {
                let n = self.int_numerator_at(t.as_int());
                let d = self.int_denominator_at(t.as_int());
                d != 0 ==> crate::exact::truncated_quotient(n, d) * d == n
            },
        }
    }

    /// Wherever the numerator may be computed, it is the one of the integers.
    proof fn lemma_numerator_exact(self, t: T)
        requires
            self.a.can_multiply(t),
            self.a.times(t).can_add(self.b),
        ensures
            self.a.times(t).plus(self.b).as_int() == self.int_numerator_at(t.as_int()),
    {
        T::lemma_times(self.a, t);
        T::lemma_plus(self.a.times(t), self.b);
    }

    /// Wherever the denominator may be computed, it is the one of the
    /// integers.
    proof fn lemma_denominator_exact(self, t: T)
        requires
            self.c.can_multiply(t),
            self.c.times(t).can_add(self.d),
        ensures
            self.c.times(t).plus(self.d).as_int() == self.int_denominator_at(t.as_int()),
    {
        T::lemma_times(self.c, t);
        T::lemma_plus(self.c.times(t), self.d);
    }

    /// Two fractions of which one is the other, with numerator and
    /// denominator multiplied by `k`, give the same boundary point.
    proof fn lemma_same_fraction(num: T, den: T, scaled_num: T, scaled_den: T, k: int)
        requires
            k != 0,
            scaled_num.as_int() == k * num.as_int(),
            scaled_den.as_int() == k * den.as_int(),
            den.as_int() != 0 ==> num.can_divide(den) && scaled_num.can_divide(scaled_den),
        ensures
            (den.as_int() == 0) == (scaled_den.as_int() == 0),
            den.as_int() != 0 ==> num.over(den) == scaled_num.over(scaled_den),
    {
        assert((den.as_int() == 0) == (k * den.as_int() == 0)) by (nonlinear_arith)
            requires
                k != 0,
        ;
        if den.as_int() != 0 {
            T::lemma_over(num, den);
            T::lemma_over(scaled_num, scaled_den);
            crate::exact::lemma_truncated_quotient_scaled(k, num.as_int(), den.as_int());
            T::lemma_injective(num.over(den), scaled_num.over(scaled_den));
        }
    }

    /// Where `h` maps `x` to the point at infinity, `self` after `h` and the
    /// product of the two map `x` to the same point. `n` is the numerator of
    /// `h` at `x`, which is not zero, as the denominator is.
    proof fn lemma_compatible_through_infinity(self, h: Self, x: BoundaryPoint<T>, n: int)
        requires
            n != 0,
            h.map_spec(&x) is Infinity,
            self.map_defined(&BoundaryPoint::Infinity),
            self.combine_defined(&h),
            self.combine_spec(&h).map_defined(&x),
            match x {
                BoundaryPoint::Infinity => {
                    &&& self.combine_spec(&h).a.as_int() == n * self.a.as_int()
                    &&& self.combine_spec(&h).c.as_int() == n * self.c.as_int()
                },
                BoundaryPoint::Regular(t) => {
                    &&& self.combine_spec(&h).int_numerator_at(t.as_int()) == n * self.a.as_int()
                    &&& self.combine_spec(&h).int_denominator_at(t.as_int()) == n * self.c.as_int()
                },
            },
        ensures
            self.map_spec(&BoundaryPoint::Infinity) == self.combine_spec(&h).map_spec(&x),
    {
        T::lemma_exact();
        let gh = self.combine_spec(&h);
        T::lemma_is_zero(self.c);
        match x {
            BoundaryPoint::Infinity => {
                T::lemma_is_zero(gh.c);
                assert((self.c.as_int() == 0) == (n * self.c.as_int() == 0)) by (nonlinear_arith)
                    requires
                        n != 0,
                ;
                Self::lemma_same_fraction(self.a, self.c, gh.a, gh.c, n);
            },
            BoundaryPoint::Regular(t) => {
                gh.lemma_denominator_exact(t);
                let den = gh.c.times(t).plus(gh.d);
                T::lemma_is_zero(den);
                assert((self.c.as_int() == 0) == (n * self.c.as_int() == 0)) by (nonlinear_arith)
                    requires
                        n != 0,
                ;
                if self.c.as_int() != 0 {
                    gh.lemma_numerator_exact(t);
                    let num = gh.a.times(t).plus(gh.b);
                    Self::lemma_same_fraction(self.a, self.c, num, den, n);
                }
            },
        }
    }

    /// Where `h` maps `x` to the regular point `u`, exactly, `self` after `h`
    /// and the product of the two map `x` to the same point. `k` is the
    /// denominator of `h` at `x`, which is not zero.
    proof fn lemma_compatible_through_regular(self, h: Self, x: BoundaryPoint<T>, u: T, k: int)
        requires
            k != 0,
            h.map_spec(&x) == BoundaryPoint::Regular(u),
            self.map_defined(&BoundaryPoint::Regular(u)),
            self.combine_defined(&h),
            self.combine_spec(&h).map_defined(&x),
            match x {
                BoundaryPoint::Infinity => {
                    &&& self.combine_spec(&h).a.as_int() == k * self.int_numerator_at(u.as_int())
                    &&& self.combine_spec(&h).c.as_int() == k * self.int_denominator_at(
                        u.as_int(),
                    )
                },
                BoundaryPoint::Regular(t) => {
                    &&& self.combine_spec(&h).int_numerator_at(t.as_int()) == k
                        * self.int_numerator_at(u.as_int())
                    &&& self.combine_spec(&h).int_denominator_at(t.as_int()) == k
                        * self.int_denominator_at(u.as_int())
                },
            },
        ensures
            self.map_spec(&BoundaryPoint::Regular(u)) == self.combine_spec(&h).map_spec(&x),
    {
        T::lemma_exact();
        let gh = self.combine_spec(&h);
        self.lemma_denominator_exact(u);
        let g_den = self.c.times(u).plus(self.d);
        T::lemma_is_zero(g_den);
        assert((g_den.as_int() == 0) == (k * g_den.as_int() == 0)) by (nonlinear_arith)
            requires
                k != 0,
        ;
        match x {
            BoundaryPoint::Infinity => {
                T::lemma_is_zero(gh.c);
                if g_den.as_int() != 0 {
                    self.lemma_numerator_exact(u);
                    let g_num = self.a.times(u).plus(self.b);
                    Self::lemma_same_fraction(g_num, g_den, gh.a, gh.c, k);
                }
            },
            BoundaryPoint::Regular(t) => {
                gh.lemma_denominator_exact(t);
                let den = gh.c.times(t).plus(gh.d);
                T::lemma_is_zero(den);
                if g_den.as_int() != 0 {
                    self.lemma_numerator_exact(u);
                    let g_num = self.a.times(u).plus(self.b);
                    gh.lemma_numerator_exact(t);
                    let num = gh.a.times(t).plus(gh.b);
                    Self::lemma_same_fraction(g_num, g_den, num, den, k);
                }
            },
        }
    }

    /// Compatibility on the boundary: mapping by `h` and then by `self` is
    /// mapping by the combination of `self` and `h`, where `h` is invertible
    /// and the quotient that `h` computes is exact.
    ///
    /// Where that quotient is cut off, the two may differ.
    pub proof fn lemma_compatible_on_boundary(self, h: Self, x: BoundaryPoint<T>)
        requires
            h.map_defined(&x),
            self.map_defined(&h.map_spec(&x)),
            self.combine_defined(&h),
            self.combine_spec(&h).map_defined(&x),
            h.int_determinant() != 0,
            h.divides_at(x),
        ensures
            self.map_spec(&h.map_spec(&x)) == self.combine_spec(&h).map_spec(&x),
    {
        T::lemma_exact();
        self.lemma_product_exact(h);
        let gh = self.combine_spec(&h);
        let a = self.a.as_int();
        let b = self.b.as_int();
        let c = self.c.as_int();
        let d = self.d.as_int();
        let p = h.a.as_int();
        let q = h.b.as_int();
        let r = h.c.as_int();
        let s = h.d.as_int();
        match x {
            BoundaryPoint::Infinity => {
                T::lemma_is_zero(h.c);
                if r == 0 {
                    assert(p != 0 && a * p + b * r == p * a && c * p + d * r == p * c)
                        by (nonlinear_arith)
                        requires
                            p * s - q * r != 0,
                            r == 0,
                    ;
                    self.lemma_compatible_through_infinity(h, x, p);
                } else {
                    T::lemma_over(h.a, h.c);
                    let u = h.a.over(h.c);
                    let ui = u.as_int();
                    assert(a * p + b * r == r * (a * ui + b) && c * p + d * r == r * (c * ui + d))
                        by (nonlinear_arith)
                        requires
                            ui * r == p,
                    ;
                    self.lemma_compatible_through_regular(h, x, u, r);
                }
            },
            BoundaryPoint::Regular(t) => {
                let ti = t.as_int();
                h.lemma_denominator_exact(t);
                let h_den = h.c.times(t).plus(h.d);
                T::lemma_is_zero(h_den);
                let n = p * ti + q;
                let k = r * ti + s;
                lemma_rows_compose(a, b, p, q, r, s, ti);
                lemma_rows_compose(c, d, p, q, r, s, ti);
                lemma_determinant_at(p, q, r, s, ti);
                if k == 0 {
                    assert(n != 0 && a * n + b * k == n * a && c * n + d * k == n * c)
                        by (nonlinear_arith)
                        requires
                            p * k - n * r != 0,
                            k == 0,
                    ;
                    self.lemma_compatible_through_infinity(h, x, n);
                } else {
                    h.lemma_numerator_exact(t);
                    let h_num = h.a.times(t).plus(h.b);
                    T::lemma_over(h_num, h_den);
                    let u = h_num.over(h_den);
                    let ui = u.as_int();
                    assert(a * n + b * k == k * (a * ui + b) && c * n + d * k == k * (c * ui + d))
                        by (nonlinear_arith)
                        requires
                            ui * k == n,
                    ;
                    self.lemma_compatible_through_regular(h, x, u, k);
                }
            },
        }
    }

    /// Two boundary points are equal for `==` exactly where they are the
    /// same.
    pub proof fn lemma_boundary_equality_exact(x: BoundaryPoint<T>, y: BoundaryPoint<T>)
        ensures
            x.equals_spec(&y) == (x == y),
    {
        match (x, y) {
            (BoundaryPoint::Regular(t1), BoundaryPoint::Regular(t2)) => {
                T::lemma_equal(t1, t2);
                if t1.as_int() == t2.as_int() {
                    T::lemma_injective(t1, t2);
                }
            },
            _ => {},
        }
    }

    /// The action on the boundary of an invertible transformation is
    /// injective where its quotients are exact: two points with the same
    /// image are the same.
    pub proof fn lemma_injective_on_boundary(self, x: BoundaryPoint<T>, y: BoundaryPoint<T>)
        requires
            self.map_defined(&x),
            self.map_defined(&y),
            self.int_determinant() != 0,
            self.divides_at(x),
            self.divides_at(y),
            self.map_spec(&x) == self.map_spec(&y),
        ensures
            x == y,
    {
        T::lemma_exact();
        T::lemma_is_zero(self.c);
        let p = self.a.as_int();
        let q = self.b.as_int();
        let r = self.c.as_int();
        let s = self.d.as_int();
        match (x, y) {
            (BoundaryPoint::Infinity, BoundaryPoint::Infinity) => {},
            (BoundaryPoint::Infinity, BoundaryPoint::Regular(t)) => {
                self.lemma_one_image_of_infinity(t);
            },
            (BoundaryPoint::Regular(t), BoundaryPoint::Infinity) => {
                self.lemma_one_image_of_infinity(t);
            },
            (BoundaryPoint::Regular(t1), BoundaryPoint::Regular(t2)) => {
                let i1 = t1.as_int();
                let i2 = t2.as_int();
                self.lemma_denominator_exact(t1);
                self.lemma_denominator_exact(t2);
                let den1 = self.c.times(t1).plus(self.d);
                let den2 = self.c.times(t2).plus(self.d);
                T::lemma_is_zero(den1);
                T::lemma_is_zero(den2);
                let k1 = r * i1 + s;
                let k2 = r * i2 + s;
                let n1 = p * i1 + q;
                let n2 = p * i2 + q;
                lemma_determinant_at(p, q, r, s, i1);
                lemma_determinant_at(p, q, r, s, i2);
                if k1 == 0 {
                    assert(i1 == i2) by (nonlinear_arith)
                        requires
                            r * i1 + s == 0,
                            r * i2 + s == 0,
                            p * s - q * r != 0,
                    {
                        assert(r * (i1 - i2) == 0);
                        if r == 0 {
                            assert(s == 0);
                            assert(p * s - q * r == 0);
                        }
                    }
                } else {
                    self.lemma_numerator_exact(t1);
                    self.lemma_numerator_exact(t2);
                    let num1 = self.a.times(t1).plus(self.b);
                    let num2 = self.a.times(t2).plus(self.b);
                    T::lemma_over(num1, den1);
                    T::lemma_over(num2, den2);
                    let u = num1.over(den1).as_int();
                    assert(i1 == i2) by (nonlinear_arith)
                        requires
                            u * k1 == n1,
                            u * k2 == n2,
                            k1 == r * i1 + s,
                            k2 == r * i2 + s,
                            n1 == p * i1 + q,
                            n2 == p * i2 + q,
                            p * k1 - n1 * r != 0,
                    {
                        assert((p - u * r) * i1 + (q - u * s) == n1 - u * k1);
                        assert((p - u * r) * i2 + (q - u * s) == n2 - u * k2);
                        assert((p - u * r) * (i1 - i2) == 0);
                        assert(p * k1 - n1 * r == k1 * (p - u * r));
                        assert(p - u * r != 0);
                    }
                }
                T::lemma_injective(t1, t2);
            },
        }
    }

    /// The image of a regular point under an invertible transformation is
    /// not the image of the point at infinity, where the quotients are exact.
    proof fn lemma_one_image_of_infinity(self, t: T)
        requires
            self.map_defined(&BoundaryPoint::Infinity),
            self.map_defined(&BoundaryPoint::Regular(t)),
            self.int_determinant() != 0,
            self.divides_at(BoundaryPoint::Infinity),
            self.divides_at(BoundaryPoint::Regular(t)),
        ensures
            self.map_spec(&BoundaryPoint::Infinity) != self.map_spec(&BoundaryPoint::Regular(t)),
    {
        T::lemma_exact();
        T::lemma_is_zero(self.c);
        let p = self.a.as_int();
        let q = self.b.as_int();
        let r = self.c.as_int();
        let s = self.d.as_int();
        let i = t.as_int();
        self.lemma_denominator_exact(t);
        let den = self.c.times(t).plus(self.d);
        T::lemma_is_zero(den);
        let k = r * i + s;
        let n = p * i + q;
        lemma_determinant_at(p, q, r, s, i);
        if r == 0 {
            assert(k != 0) by (nonlinear_arith)
                requires
                    k == r * i + s,
                    r == 0,
                    p * s - q * r != 0,
            {
                if s == 0 {
                    assert(p * s - q * r == 0);
                }
            }
        } else if k != 0 {
            T::lemma_over(self.a, self.c);
            self.lemma_numerator_exact(t);
            let num = self.a.times(t).plus(self.b);
            T::lemma_over(num, den);
            let u0 = self.a.over(self.c).as_int();
            let u = num.over(den).as_int();
            if u0 == u {
                assert(p * k - n * r == 0) by (nonlinear_arith)
                    requires
                        u * r == p,
                        u * k == n,
                {
                    assert(p * k == (u * r) * k);
                    assert(n * r == (u * k) * r);
                }
            }
        }
    }

    /// An invertible transformation maps geodesics to geodesics, where its
    /// quotients are exact: the images of two endpoints that differ differ.
    pub proof fn lemma_geodesics_stay_geodesics(self, x: GeodesicBoundary<T>)
        requires
            self.map_defined(&x),
            self.int_determinant() != 0,
            self.divides_at(x.start),
            self.divides_at(x.end),
            x.condition_spec(),
        ensures
            self.map_spec(&x).condition_spec(),
    {
        Self::lemma_boundary_equality_exact(x.start, x.end);
        Self::lemma_boundary_equality_exact(self.map_spec(&x.start), self.map_spec(&x.end));
        if self.map_spec(&x.start) == self.map_spec(&x.end) {
            self.lemma_injective_on_boundary(x.start, x.end);
        }
    }

    /// Compatibility on the geodesics: mapping by `h` and then by `self` is
    /// mapping by the combination of `self` and `h`, where `h` is invertible
    /// and the quotients that `h` computes at the two endpoints are exact.
    pub proof fn lemma_compatible_on_geodesics(self, h: Self, x: GeodesicBoundary<T>)
        requires
            h.map_defined(&x),
            self.map_defined(&h.map_spec(&x)),
            self.combine_defined(&h),
            self.combine_spec(&h).map_defined(&x),
            h.int_determinant() != 0,
            h.divides_at(x.start),
            h.divides_at(x.end),
        ensures
            self.map_spec(&h.map_spec(&x)) == self.combine_spec(&h).map_spec(&x),
    {
        self.lemma_compatible_on_boundary(h, x.start);
        self.lemma_compatible_on_boundary(h, x.end);
    }
}

/// A row `(a, b)` of the left matrix, applied to the numerator and the
/// denominator of the right matrix at `t`, is the row of the product applied
/// at `t`.
proof fn lemma_rows_compose(a: int, b: int, p: int, q: int, r: int, s: int, t: int)
    ensures
        (a * p + b * r) * t + (a * q + b * s) == a * (p * t + q) + b * (r * t + s),
{
    assert((a * p + b * r) * t == (a * p) * t + (b * r) * t) by (nonlinear_arith);
    assert((a * p) * t == a * (p * t)) by (nonlinear_arith);
    assert((b * r) * t == b * (r * t)) by (nonlinear_arith);
    assert(a * (p * t + q) == a * (p * t) + a * q) by (nonlinear_arith);
    assert(b * (r * t + s) == b * (r * t) + b * s) by (nonlinear_arith);
}

/// The determinant, in terms of the numerator and the denominator at `t`.
proof fn lemma_determinant_at(p: int, q: int, r: int, s: int, t: int)
    ensures
        p * s - q * r == p * (r * t + s) - (p * t + q) * r,
{
    assert(p * (r * t + s) == p * (r * t) + p * s) by (nonlinear_arith);
    assert((p * t + q) * r == (p * t) * r + q * r) by (nonlinear_arith);
    assert(p * (r * t) == (p * t) * r) by (nonlinear_arith);
}

/// The real part of the product of `x1 + i x2` and `d1 + i d2`, times the real
/// part of the product of `y1 + i y2` and `d1 + i d2`, and so on: the
/// numerators and the square of the norm of a quotient of complex numbers
/// take the factor `d1*d1 + d2*d2` where the dividend and the divisor are
/// both multiplied by `d1 + i d2`.
proof fn lemma_common_factor(x1: int, x2: int, y1: int, y2: int, d1: int, d2: int)
    ensures
        (x1 * d1 - x2 * d2) * (y1 * d1 - y2 * d2) + (x1 * d2 + x2 * d1) * (y1 * d2 + y2 * d1) == (
        d1 * d1 + d2 * d2) * (x1 * y1 + x2 * y2),
        (x1 * d2 + x2 * d1) * (y1 * d1 - y2 * d2) - (x1 * d1 - x2 * d2) * (y1 * d2 + y2 * d1) == (
        d1 * d1 + d2 * d2) * (x2 * y1 - x1 * y2),
{
    let p = x1 * d1;
    let q = x2 * d2;
    let r = y1 * d1;
    let s = y2 * d2;
    let t = x1 * d2;
    let u = x2 * d1;
    let v = y1 * d2;
    let w = y2 * d1;
    assert((p - q) * (r - s) == p * r - p * s - q * r + q * s) by (nonlinear_arith);
    assert((t + u) * (v + w) == t * v + t * w + u * v + u * w) by (nonlinear_arith);
    assert((t + u) * (r - s) == t * r - t * s + u * r - u * s) by (nonlinear_arith);
    assert((p - q) * (v + w) == p * v + p * w - q * v - q * w) by (nonlinear_arith);
    let n = d1 * d1;
    let m = d2 * d2;
    let a = x1 * y1;
    let b = x2 * y2;
    let c = x2 * y1;
    let e = x1 * y2;
    assert((n + m) * (a + b) == n * a + n * b + m * a + m * b) by (nonlinear_arith);
    assert((n + m) * (c - e) == n * c - n * e + m * c - m * e) by (nonlinear_arith);
    assert((x1 * d1) * (y1 * d1) == (d1 * d1) * (x1 * y1)) by (nonlinear_arith);
    assert((x2 * d2) * (y2 * d2) == (d2 * d2) * (x2 * y2)) by (nonlinear_arith);
    assert((x1 * d2) * (y1 * d2) == (d2 * d2) * (x1 * y1)) by (nonlinear_arith);
    assert((x2 * d1) * (y2 * d1) == (d1 * d1) * (x2 * y2)) by (nonlinear_arith);
    assert((x1 * d1) * (y2 * d2) == (x1 * d2) * (y2 * d1)) by (nonlinear_arith);
    assert((x2 * d2) * (y1 * d1) == (x2 * d1) * (y1 * d2)) by (nonlinear_arith);
    assert((x2 * d1) * (y1 * d1) == (d1 * d1) * (x2 * y1)) by (nonlinear_arith);
    assert((x1 * d2) * (y2 * d2) == (d2 * d2) * (x1 * y2)) by (nonlinear_arith);
    assert((x1 * d1) * (y2 * d1) == (d1 * d1) * (x1 * y2)) by (nonlinear_arith);
    assert((x2 * d2) * (y1 * d2) == (d2 * d2) * (x2 * y1)) by (nonlinear_arith);
    assert((x1 * d2) * (y1 * d1) == (x1 * d1) * (y1 * d2)) by (nonlinear_arith);
    assert((x2 * d1) * (y2 * d2) == (x2 * d2) * (y2 * d1)) by (nonlinear_arith);
}

/// Where a quotient of complex numbers is exact, the dividend is the product
/// of the quotient and the divisor.
proof fn lemma_exact_complex_quotient(n1: int, n2: int, d1: int, d2: int, u1: int, u2: int)
    requires
        d1 * d1 + d2 * d2 != 0,
        u1 * (d1 * d1 + d2 * d2) == n1 * d1 + n2 * d2,
        u2 * (d1 * d1 + d2 * d2) == n2 * d1 - n1 * d2,
    ensures
        n1 == u1 * d1 - u2 * d2,
        n2 == u1 * d2 + u2 * d1,
{
    let m = d1 * d1 + d2 * d2;
    let re = n1 * d1 + n2 * d2;
    let im = n2 * d1 - n1 * d2;
    assert(m * (u1 * d1 - u2 * d2) == (u1 * m) * d1 - (u2 * m) * d2) by (nonlinear_arith);
    assert(m * (u1 * d2 + u2 * d1) == (u1 * m) * d2 + (u2 * m) * d1) by (nonlinear_arith);
    assert(re * d1 == (n1 * d1) * d1 + (n2 * d2) * d1) by (nonlinear_arith)
        requires
            re == n1 * d1 + n2 * d2,
    ;
    assert(im * d2 == (n2 * d1) * d2 - (n1 * d2) * d2) by (nonlinear_arith)
        requires
            im == n2 * d1 - n1 * d2,
    ;
    assert(re * d2 == (n1 * d1) * d2 + (n2 * d2) * d2) by (nonlinear_arith)
        requires
            re == n1 * d1 + n2 * d2,
    ;
    assert(im * d1 == (n2 * d1) * d1 - (n1 * d2) * d1) by (nonlinear_arith)
        requires
            im == n2 * d1 - n1 * d2,
    ;
    assert((n2 * d2) * d1 == (n2 * d1) * d2) by (nonlinear_arith);
    assert((n1 * d1) * d2 == (n1 * d2) * d1) by (nonlinear_arith);
    assert(m * n1 == (n1 * d1) * d1 + (n1 * d2) * d2) by (nonlinear_arith)
        requires
            m == d1 * d1 + d2 * d2,
    ;
    assert(m * n2 == (n2 * d1) * d1 + (n2 * d2) * d2) by (nonlinear_arith)
        requires
            m == d1 * d1 + d2 * d2,
    ;
    let left1 = u1 * d1 - u2 * d2;
    let left2 = u1 * d2 + u2 * d1;
    assert(left1 == n1) by (nonlinear_arith)
        requires
            m != 0,
            m * left1 == m * n1,
    ;
    assert(left2 == n2) by (nonlinear_arith)
        requires
            m != 0,
            m * left2 == m * n2,
    ;
}

impl<T: ExactScalar> ComplexPoint<T> {
    /// The numerator of the real part of a quotient, among the integers.
    pub open spec fn int_quotient_re(self, other: Self) -> int {
        self.re.as_int() * other.re.as_int() + self.im.as_int() * other.im.as_int()
    }

    /// The numerator of the imaginary part of a quotient, among the integers.
    pub open spec fn int_quotient_im(self, other: Self) -> int {
        self.im.as_int() * other.re.as_int() - self.re.as_int() * other.im.as_int()
    }

    /// The square of the norm, among the integers.
    pub open spec fn int_norm_sqr(self) -> int {
        self.re.as_int() * self.re.as_int() + self.im.as_int() * self.im.as_int()
    }

    /// Whether the quotient of `self` by `other` is exact: each of its parts,
    /// times the square of the norm of `other`, is its numerator.
    pub open spec fn divides(self, other: Self) -> bool {
        &&& crate::exact::truncated_quotient(self.int_quotient_re(other), other.int_norm_sqr())
            * other.int_norm_sqr() == self.int_quotient_re(other)
        &&& crate::exact::truncated_quotient(self.int_quotient_im(other), other.int_norm_sqr())
            * other.int_norm_sqr() == self.int_quotient_im(other)
    }

    /// Wherever the quotient may be computed, the divisor is not zero and the
    /// parts of the quotient are the quotients of the integers, cut off
    /// towards zero.
    pub proof fn lemma_quotient_exact(self, other: Self)
        requires
            self.quotient_defined(other),
        ensures
            other.int_norm_sqr() != 0,
            self.quotient_spec(other).re.as_int() == crate::exact::truncated_quotient(
                self.int_quotient_re(other),
                other.int_norm_sqr(),
            ),
            self.quotient_spec(other).im.as_int() == crate::exact::truncated_quotient(
                self.int_quotient_im(other),
                other.int_norm_sqr(),
            ),
    {
        T::lemma_times(other.re, other.re);
        T::lemma_times(other.im, other.im);
        T::lemma_plus(other.re.times(other.re), other.im.times(other.im));
        T::lemma_times(self.re, other.re);
        T::lemma_times(self.im, other.im);
        T::lemma_plus(self.re.times(other.re), self.im.times(other.im));
        T::lemma_times(self.im, other.re);
        T::lemma_times(self.re, other.im);
        T::lemma_negated(self.re.times(other.im));
        T::lemma_plus(self.im.times(other.re), self.re.times(other.im).negated());
        let norm_sqr = other.norm_sqr_spec();
        T::lemma_over(self.re.times(other.re).plus(self.im.times(other.im)), norm_sqr);
        T::lemma_over(
            self.im.times(other.re).plus(self.re.times(other.im).negated()),
            norm_sqr,
        );
    }
}

impl<T: ExactScalar> MoebiusTransformation<T> {
    /// The numerator `a*z + b` that the action computes at `z`.
    pub open spec fn numerator_at(self, z: ComplexPoint<T>) -> ComplexPoint<T> {
        ComplexPoint { re: self.a.times(z.re).plus(self.b), im: self.a.times(z.im) }
    }

    /// The denominator `c*z + d` that the action computes at `z`.
    pub open spec fn denominator_at(self, z: ComplexPoint<T>) -> ComplexPoint<T> {
        ComplexPoint { re: self.c.times(z.re).plus(self.d), im: self.c.times(z.im) }
    }

    /// Wherever the action on the complex plane may be computed, the
    /// numerator and the denominator are those of the integers.
    proof fn lemma_parts_exact(self, z: ComplexPoint<T>)
        requires
            self.map_defined(&z),
        ensures
            self.map_spec(&z) == self.numerator_at(z).quotient_spec(self.denominator_at(z)),
            self.numerator_at(z).quotient_defined(self.denominator_at(z)),
            self.numerator_at(z).re.as_int() == self.int_numerator_at(z.re.as_int()),
            self.numerator_at(z).im.as_int() == self.a.as_int() * z.im.as_int(),
            self.denominator_at(z).re.as_int() == self.int_denominator_at(z.re.as_int()),
            self.denominator_at(z).im.as_int() == self.c.as_int() * z.im.as_int(),
    {
        self.lemma_numerator_exact(z.re);
        self.lemma_denominator_exact(z.re);
        T::lemma_times(self.a, z.im);
        T::lemma_times(self.c, z.im);
    }

    /// Compatibility on the complex plane: mapping by `h` and then by `self`
    /// is mapping by the combination of `self` and `h`, where the quotient of
    /// complex numbers that `h` computes is exact.
    ///
    /// Where that quotient is cut off, the two may differ.
    pub proof fn lemma_compatible_on_complex_plane(self, h: Self, z: ComplexPoint<T>)
        requires
            h.map_defined(&z),
            self.map_defined(&h.map_spec(&z)),
            self.combine_defined(&h),
            self.combine_spec(&h).map_defined(&z),
            h.numerator_at(z).divides(h.denominator_at(z)),
        ensures
            self.map_spec(&h.map_spec(&z)) == self.combine_spec(&h).map_spec(&z),
    {
        T::lemma_exact();
        self.lemma_product_exact(h);
        let gh = self.combine_spec(&h);
        let a = self.a.as_int();
        let b = self.b.as_int();
        let c = self.c.as_int();
        let d = self.d.as_int();
        let p = h.a.as_int();
        let q = h.b.as_int();
        let r = h.c.as_int();
        let s = h.d.as_int();
        let x = z.re.as_int();
        let y = z.im.as_int();
        // h at z
        h.lemma_parts_exact(z);
        let h_num = h.numerator_at(z);
        let h_den = h.denominator_at(z);
        h_num.lemma_quotient_exact(h_den);
        let u = h.map_spec(&z);
        let n1 = h_num.re.as_int();
        let n2 = h_num.im.as_int();
        let d1 = h_den.re.as_int();
        let d2 = h_den.im.as_int();
        let m = d1 * d1 + d2 * d2;
        let u1 = u.re.as_int();
        let u2 = u.im.as_int();
        lemma_exact_complex_quotient(n1, n2, d1, d2, u1, u2);
        // self at the image
        self.lemma_parts_exact(u);
        let g_num = self.numerator_at(u);
        let g_den = self.denominator_at(u);
        g_num.lemma_quotient_exact(g_den);
        let x1 = g_num.re.as_int();
        let x2 = g_num.im.as_int();
        let y1 = g_den.re.as_int();
        let y2 = g_den.im.as_int();
        // the combination at z
        gh.lemma_parts_exact(z);
        let num = gh.numerator_at(z);
        let den = gh.denominator_at(z);
        num.lemma_quotient_exact(den);
        lemma_rows_compose(a, b, p, q, r, s, x);
        lemma_rows_compose(c, d, p, q, r, s, x);
        assert((a * p + b * r) * y == a * (p * y) + b * (r * y) && (c * p + d * r) * y == c * (p
            * y) + d * (r * y)) by {
            assert((a * p + b * r) * y == (a * p) * y + (b * r) * y) by (nonlinear_arith);
            assert((a * p) * y == a * (p * y)) by (nonlinear_arith);
            assert((b * r) * y == b * (r * y)) by (nonlinear_arith);
            assert((c * p + d * r) * y == (c * p) * y + (d * r) * y) by (nonlinear_arith);
            assert((c * p) * y == c * (p * y)) by (nonlinear_arith);
            assert((d * r) * y == d * (r * y)) by (nonlinear_arith);
        }
        // the numerator and the denominator of the combination are those of
        // `self` at the image, times the denominator of `h`
        assert(a * n1 + b * d1 == x1 * d1 - x2 * d2 && a * n2 + b * d2 == x1 * d2 + x2 * d1) by {
            assert(a * (u1 * d1 - u2 * d2) == (a * u1) * d1 - (a * u2) * d2) by (nonlinear_arith);
            assert(a * (u1 * d2 + u2 * d1) == (a * u1) * d2 + (a * u2) * d1) by (nonlinear_arith);
            assert((a * u1 + b) * d1 == (a * u1) * d1 + b * d1) by (nonlinear_arith);
            assert((a * u1 + b) * d2 == (a * u1) * d2 + b * d2) by (nonlinear_arith);
        }
        assert(c * n1 + d * d1 == y1 * d1 - y2 * d2 && c * n2 + d * d2 == y1 * d2 + y2 * d1) by {
            assert(c * (u1 * d1 - u2 * d2) == (c * u1) * d1 - (c * u2) * d2) by (nonlinear_arith);
            assert(c * (u1 * d2 + u2 * d1) == (c * u1) * d2 + (c * u2) * d1) by (nonlinear_arith);
            assert((c * u1 + d) * d1 == (c * u1) * d1 + d * d1) by (nonlinear_arith);
            assert((c * u1 + d) * d2 == (c * u1) * d2 + d * d2) by (nonlinear_arith);
        }
        lemma_common_factor(x1, x2, y1, y2, d1, d2);
        lemma_common_factor(y1, y2, y1, y2, d1, d2);
        crate::exact::lemma_truncated_quotient_scaled(m, g_num.int_quotient_re(g_den), g_den.int_norm_sqr());
        crate::exact::lemma_truncated_quotient_scaled(m, g_num.int_quotient_im(g_den), g_den.int_norm_sqr());
        T::lemma_injective(self.map_spec(&u).re, gh.map_spec(&z).re);
        T::lemma_injective(self.map_spec(&u).im, gh.map_spec(&z).im);
    }
}

/// Two integers whose product is one are both one or both minus one.
proof fn lemma_units(x: int, y: int)
    by (nonlinear_arith)
    requires
        x * y == 1,
    ensures
        x == y,
        x == 1 || x == -1,
        x * x == 1,
{
}

/// Where `w` times `t*r*r` is one, `r*r` is one and `t` is `w`, a unit.
proof fn lemma_unit_over_square(w: int, t: int, r: int)
    requires
        w * ((t * r) * r) == 1,
    ensures
        r * r == 1,
        t == w,
        w * w == 1,
        (t * r) * r == w,
{
    lemma_units(w, (t * r) * r);
    assert((t * r) * r == t * (r * r)) by (nonlinear_arith);
    assert(r * r >= 0) by (nonlinear_arith);
    if w == 1 {
        lemma_units(t, r * r);
    } else {
        assert((-t) * (r * r) == 1) by (nonlinear_arith)
            requires
                t * (r * r) == -1,
        ;
        lemma_units(-t, r * r);
    }
}

impl MoebiusTransformation<int> {
    /// The image of a horocycle among the integers, the quotients cut off
    /// towards zero.
    pub open spec fn horocycle_image(self, x: GeometricHorocCycle<int>) -> GeometricHorocCycle<int> {
        match x {
            GeometricHorocCycle::Line(t) => {
                if self.c == 0 {
                    if self.a - self.d == 0 {
                        GeometricHorocCycle::Line(t)
                    } else {
                        GeometricHorocCycle::Line((self.a * self.a) * t)
                    }
                } else {
                    GeometricHorocCycle::TangencyCircle(
                        TangencyCircle {
                            boundary: crate::exact::truncated_quotient(self.a, self.c),
                            diameter: crate::exact::truncated_quotient(1, (t * self.c) * self.c),
                        },
                    )
                }
            },
            GeometricHorocCycle::TangencyCircle(circle) => {
                let denom = self.c * circle.boundary + self.d;
                if denom == 0 {
                    GeometricHorocCycle::Line(
                        crate::exact::truncated_quotient(1, (circle.diameter * self.c) * self.c),
                    )
                } else {
                    GeometricHorocCycle::TangencyCircle(
                        TangencyCircle {
                            boundary: crate::exact::truncated_quotient(
                                self.a * circle.boundary + self.b,
                                denom,
                            ),
                            diameter: crate::exact::truncated_quotient(
                                circle.diameter,
                                denom * denom,
                            ),
                        },
                    )
                }
            },
        }
    }

    /// Whether no quotient of the image of a horocycle has the divisor zero.
    pub open spec fn horocycle_image_defined(self, x: GeometricHorocCycle<int>) -> bool {
        match x {
            GeometricHorocCycle::Line(t) => self.c != 0 ==> (t * self.c) * self.c != 0,
            GeometricHorocCycle::TangencyCircle(circle) => {
                let denom = self.c * circle.boundary + self.d;
                denom == 0 ==> (circle.diameter * self.c) * self.c != 0
            },
        }
    }

    /// Whether every quotient of the image of a horocycle is exact: the
    /// quotient, times the divisor, is the dividend.
    pub open spec fn divides_horocycle(self, x: GeometricHorocCycle<int>) -> bool {
        match x {
            GeometricHorocCycle::Line(t) => self.c != 0 ==> {
                &&& crate::exact::truncated_quotient(self.a, self.c) * self.c == self.a
                &&& crate::exact::truncated_quotient(1, (t * self.c) * self.c) * ((t * self.c)
                    * self.c) == 1
            },
            GeometricHorocCycle::TangencyCircle(circle) => {
                let denom = self.c * circle.boundary + self.d;
                if denom == 0 {
                    crate::exact::truncated_quotient(1, (circle.diameter * self.c) * self.c) * ((
                    circle.diameter * self.c) * self.c) == 1
                } else {
                    &&& crate::exact::truncated_quotient(self.a * circle.boundary + self.b, denom)
                        * denom == self.a * circle.boundary + self.b
                    &&& crate::exact::truncated_quotient(circle.diameter, denom * denom) * (denom
                        * denom) == circle.diameter
                }
            },
        }
    }

    /// The image of the line at the height `t` under `self` after `h` is its
    /// image under the product, where both have determinant one and the
    /// quotients of `h` are exact.
    proof fn lemma_compatible_on_lines(self, h: Self, t: int)
        requires
            self.int_det() == 1,
            h.int_det() == 1,
            h.divides_horocycle(GeometricHorocCycle::Line(t)),
            h.horocycle_image_defined(GeometricHorocCycle::Line(t)),
            self.horocycle_image_defined(h.horocycle_image(GeometricHorocCycle::Line(t))),
            self.int_product(h).horocycle_image_defined(GeometricHorocCycle::Line(t)),
        ensures
            self.horocycle_image(h.horocycle_image(GeometricHorocCycle::Line(t)))
                == self.int_product(h).horocycle_image(GeometricHorocCycle::Line(t)),
    {
        let a = self.a;
        let b = self.b;
        let c = self.c;
        let d = self.d;
        let p = h.a;
        let q = h.b;
        let r = h.c;
        let s = h.d;
        let gh = self.int_product(h);
        self.lemma_determinant_of_product(h);
        if r == 0 {
            // `h` keeps the line: its diagonal entries are the same unit
            assert(p * s == 1) by (nonlinear_arith)
                requires
                    p * s - q * r == 1,
                    r == 0,
            ;
            lemma_units(p, s);
            assert(gh.c == p * c && gh.a == p * a && gh.d == c * q + d * s) by (nonlinear_arith)
                requires
                    gh.c == c * p + d * r,
                    gh.a == a * p + b * r,
                    gh.d == c * q + d * s,
                    r == 0,
            ;
            if c == 0 {
                assert(a * d == 1) by (nonlinear_arith)
                    requires
                        a * d - b * c == 1,
                        c == 0,
                ;
                lemma_units(a, d);
                assert(gh.c == 0 && gh.a - gh.d == 0) by (nonlinear_arith)
                    requires
                        gh.c == p * c,
                        gh.a == p * a,
                        gh.d == c * q + d * s,
                        c == 0,
                        a == d,
                        p == s,
                ;
            } else {
                assert(gh.c != 0 && (t * gh.c) * gh.c == (t * c) * c) by (nonlinear_arith)
                    requires
                        gh.c == p * c,
                        c != 0,
                        p * p == 1,
                ;
                crate::exact::lemma_truncated_quotient_scaled(p, a, c);
            }
        } else {
            // `h` maps the line to the circle at `touch` with the diameter
            // `w`; the quotients are exact, so that `r` and `w` are units
            let touch = crate::exact::truncated_quotient(p, r);
            let w = crate::exact::truncated_quotient(1, (t * r) * r);
            lemma_unit_over_square(w, t, r);
            let den = c * touch + d;
            assert(gh.c == r * den && gh.a == r * (a * touch + b)) by (nonlinear_arith)
                requires
                    gh.c == c * p + d * r,
                    gh.a == a * p + b * r,
                    touch * r == p,
                    den == c * touch + d,
            ;
            if den == 0 {
                assert(gh.c == 0) by (nonlinear_arith)
                    requires
                        gh.c == r * den,
                        den == 0,
                ;
                assert(gh.a * gh.d == 1) by (nonlinear_arith)
                    requires
                        gh.a * gh.d - gh.b * gh.c == 1,
                        gh.c == 0,
                ;
                lemma_units(gh.a, gh.d);
                assert(c * (-(a * touch + b)) == 1) by (nonlinear_arith)
                    requires
                        a * d - b * c == 1,
                        c * touch + d == 0,
                ;
                lemma_units(c, -(a * touch + b));
                assert((w * c) * c == w) by (nonlinear_arith)
                    requires
                        c * c == 1,
                ;
            } else {
                assert(gh.c != 0) by (nonlinear_arith)
                    requires
                        gh.c == r * den,
                        den != 0,
                        r != 0,
                ;
                crate::exact::lemma_truncated_quotient_scaled(r, a * touch + b, den);
                assert((t * gh.c) * gh.c == w * (den * den)) by (nonlinear_arith)
                    requires
                        gh.c == r * den,
                        (t * r) * r == w,
                {
                    assert((t * (r * den)) * (r * den) == ((t * r) * r) * (den * den));
                }
                assert(den * den != 0) by (nonlinear_arith)
                    requires
                        den != 0,
                ;
                crate::exact::lemma_truncated_quotient_scaled(w, w, den * den);
                assert(w * w == 1);
            }
        }
    }

    /// The image of a tangency circle under `self` after `h` is its image
    /// under the product, where both have determinant one and the quotients
    /// of `h` are exact.
    proof fn lemma_compatible_on_circles(self, h: Self, circle: TangencyCircle<int>)
        requires
            self.int_det() == 1,
            h.int_det() == 1,
            h.divides_horocycle(GeometricHorocCycle::TangencyCircle(circle)),
            h.horocycle_image_defined(GeometricHorocCycle::TangencyCircle(circle)),
            self.horocycle_image_defined(
                h.horocycle_image(GeometricHorocCycle::TangencyCircle(circle)),
            ),
            self.int_product(h).horocycle_image_defined(
                GeometricHorocCycle::TangencyCircle(circle),
            ),
        ensures
            self.horocycle_image(h.horocycle_image(GeometricHorocCycle::TangencyCircle(circle)))
                == self.int_product(h).horocycle_image(GeometricHorocCycle::TangencyCircle(circle)),
    {
        let a = self.a;
        let b = self.b;
        let c = self.c;
        let d = self.d;
        let p = h.a;
        let q = h.b;
        let r = h.c;
        let s = h.d;
        let gh = self.int_product(h);
        let touch = circle.boundary;
        let width = circle.diameter;
        let n = p * touch + q;
        let k = r * touch + s;
        self.lemma_determinant_of_product(h);
        lemma_rows_compose(a, b, p, q, r, s, touch);
        lemma_rows_compose(c, d, p, q, r, s, touch);
        lemma_determinant_at(p, q, r, s, touch);
        let gh_den = gh.c * touch + gh.d;
        let gh_num = gh.a * touch + gh.b;
        assert(gh_den == c * n + d * k && gh_num == a * n + b * k);
        assert(p * k - n * r == 1);
        if k == 0 {
            // `h` maps the circle to a line: its denominator is zero, so that its
            // numerator and `r` are units
            assert((-n) * r == 1) by (nonlinear_arith)
                requires
                    p * k - n * r == 1,
                    k == 0,
            ;
            lemma_units(-n, r);
            assert(n * n == (-n) * (-n)) by (nonlinear_arith);
            let height = crate::exact::truncated_quotient(1, (width * r) * r);
            lemma_unit_over_square(height, width, r);
            assert(gh_den == n * c && gh_num == n * a) by (nonlinear_arith)
                requires
                    gh_den == c * n + d * k,
                    gh_num == a * n + b * k,
                    k == 0,
            ;
            if c == 0 {
                // `self` keeps the line, and the product maps the circle to it
                assert(a * d == 1) by (nonlinear_arith)
                    requires
                        a * d - b * c == 1,
                        c == 0,
                ;
                lemma_units(a, d);
                assert(gh_den == 0 && (width * gh.c) * gh.c == width) by (nonlinear_arith)
                    requires
                        gh_den == n * c,
                        gh.c == c * p + d * r,
                        c == 0,
                        d * d == 1,
                        r * r == 1,
                {
                    assert(gh.c == d * r);
                    assert((width * (d * r)) * (d * r) == width * ((d * d) * (r * r)));
                }
            } else {
                // `self` maps the line to a circle, and so does the product
                assert(gh_den != 0 && gh_den * gh_den == c * c) by (nonlinear_arith)
                    requires
                        gh_den == n * c,
                        c != 0,
                        n * n == 1,
                {
                    assert((n * c) * (n * c) == (n * n) * (c * c));
                }
                crate::exact::lemma_truncated_quotient_scaled(n, a, c);
                assert(c * c != 0 && (height * c) * c == height * (c * c)) by (nonlinear_arith)
                    requires
                        c != 0,
                ;
                crate::exact::lemma_truncated_quotient_scaled(width, 1, width * (c * c));
                assert(width * (width * (c * c)) == c * c) by (nonlinear_arith)
                    requires
                        width * width == 1,
                ;
            }
        } else {
            // `h` maps the circle to the circle at `image` with the diameter
            // `narrowed`, and the denominator of the product is `k` times the
            // one of `self` at `image`
            let image = crate::exact::truncated_quotient(n, k);
            let narrowed = crate::exact::truncated_quotient(width, k * k);
            let den = c * image + d;
            assert(gh_den == k * den && gh_num == k * (a * image + b)) by (nonlinear_arith)
                requires
                    gh_den == c * n + d * k,
                    gh_num == a * n + b * k,
                    image * k == n,
                    den == c * image + d,
            ;
            if den == 0 {
                assert(gh_den == 0) by (nonlinear_arith)
                    requires
                        gh_den == k * den,
                        den == 0,
                ;
                assert(c * (-(a * image + b)) == 1) by (nonlinear_arith)
                    requires
                        a * d - b * c == 1,
                        c * image + d == 0,
                ;
                lemma_units(c, -(a * image + b));
                assert(k * (p - image * r) == 1) by (nonlinear_arith)
                    requires
                        p * k - n * r == 1,
                        image * k == n,
                ;
                lemma_units(k, p - image * r);
                assert(gh.c == c * k) by (nonlinear_arith)
                    requires
                        gh.c == c * p + d * r,
                        c * image + d == 0,
                        k == p - image * r,
                ;
                assert((width * gh.c) * gh.c == width && (narrowed * c) * c == narrowed && narrowed == width)
                    by (nonlinear_arith)
                    requires
                        gh.c == c * k,
                        c * c == 1,
                        k * k == 1,
                        narrowed * (k * k) == width,
                {
                    assert((width * (c * k)) * (c * k) == width * ((c * c) * (k * k)));
                }
            } else {
                assert(gh_den != 0 && gh_den * gh_den == (k * k) * (den * den) && k * k != 0 && den
                    * den != 0) by (nonlinear_arith)
                    requires
                        gh_den == k * den,
                        den != 0,
                        k != 0,
                {
                    assert((k * den) * (k * den) == (k * k) * (den * den));
                }
                crate::exact::lemma_truncated_quotient_scaled(k, a * image + b, den);
                crate::exact::lemma_truncated_quotient_scaled(k * k, narrowed, den * den);
                assert((k * k) * narrowed == width) by (nonlinear_arith)
                    requires
                        narrowed * (k * k) == width,
                ;
            }
        }
    }
}

impl<T: ExactScalar> GeometricHorocCycle<T> {
    /// The horocycle of the integers that the parameters are.
    pub open spec fn as_ints(self) -> GeometricHorocCycle<int> {
        match self {
            GeometricHorocCycle::Line(t) => GeometricHorocCycle::Line(t.as_int()),
            GeometricHorocCycle::TangencyCircle(circle) => GeometricHorocCycle::TangencyCircle(
                TangencyCircle {
                    boundary: circle.boundary.as_int(),
                    diameter: circle.diameter.as_int(),
                },
            ),
        }
    }

    /// Different horocycles are different among the integers.
    pub proof fn lemma_as_ints_injective(self, other: Self)
        requires
            self.as_ints() == other.as_ints(),
        ensures
            self == other,
    {
        match (self, other) {
            (GeometricHorocCycle::Line(t), GeometricHorocCycle::Line(s)) => {
                T::lemma_injective(t, s);
            },
            (
                GeometricHorocCycle::TangencyCircle(t),
                GeometricHorocCycle::TangencyCircle(s),
            ) => {
                T::lemma_injective(t.boundary, s.boundary);
                T::lemma_injective(t.diameter, s.diameter);
            },
            _ => {},
        }
    }
}

impl<T: ExactScalar> MoebiusTransformation<T> {
    /// Wherever the action on the horocycles may be computed, no divisor is
    /// zero and the image is the one among the integers.
    pub proof fn lemma_horocycle_image_exact(self, x: GeometricHorocCycle<T>)
        requires
            self.map_defined(&x),
        ensures
            self.as_ints().horocycle_image_defined(x.as_ints()),
            self.map_spec(&x).as_ints() == self.as_ints().horocycle_image(x.as_ints()),
    {
        T::lemma_exact();
        T::lemma_is_zero(self.c);
        match x {
            GeometricHorocCycle::Line(t) => {
                if self.c.as_int() == 0 {
                    T::lemma_negated(self.d);
                    T::lemma_plus(self.a, self.d.negated());
                    T::lemma_is_zero(self.a.plus(self.d.negated()));
                    if self.a.as_int() - self.d.as_int() != 0 {
                        T::lemma_times(self.a, self.a);
                        T::lemma_times(self.a.times(self.a), t);
                    }
                } else {
                    T::lemma_times(t, self.c);
                    T::lemma_times(t.times(self.c), self.c);
                    T::lemma_over(T::one_spec(), t.times(self.c).times(self.c));
                    T::lemma_over(self.a, self.c);
                }
            },
            GeometricHorocCycle::TangencyCircle(circle) => {
                self.lemma_denominator_exact(circle.boundary);
                let denom = self.c.times(circle.boundary).plus(self.d);
                T::lemma_is_zero(denom);
                if denom.as_int() == 0 {
                    T::lemma_times(circle.diameter, self.c);
                    T::lemma_times(circle.diameter.times(self.c), self.c);
                    T::lemma_over(T::one_spec(), circle.diameter.times(self.c).times(self.c));
                } else {
                    T::lemma_times(denom, denom);
                    T::lemma_over(circle.diameter, denom.times(denom));
                    self.lemma_numerator_exact(circle.boundary);
                    T::lemma_over(self.a.times(circle.boundary).plus(self.b), denom);
                }
            },
        }
    }

    /// Compatibility on the horocycles: mapping by `h` and then by `self` is
    /// mapping by the combination of `self` and `h`, where both have
    /// determinant one and every quotient that `h` computes is exact.
    ///
    /// Where a quotient is cut off, the two may differ.
    pub proof fn lemma_compatible_on_horocycles(self, h: Self, x: GeometricHorocCycle<T>)
        requires
            h.map_defined(&x),
            self.map_defined(&h.map_spec(&x)),
            self.combine_defined(&h),
            self.combine_spec(&h).map_defined(&x),
            self.int_determinant() == 1,
            h.int_determinant() == 1,
            h.as_ints().divides_horocycle(x.as_ints()),
        ensures
            self.map_spec(&h.map_spec(&x)) == self.combine_spec(&h).map_spec(&x),
    {
        let gh = self.combine_spec(&h);
        self.lemma_product_exact(h);
        assert(gh.as_ints() == self.as_ints().int_product(h.as_ints()));
        h.lemma_horocycle_image_exact(x);
        self.lemma_horocycle_image_exact(h.map_spec(&x));
        gh.lemma_horocycle_image_exact(x);
        match x.as_ints() {
            GeometricHorocCycle::Line(t) => {
                self.as_ints().lemma_compatible_on_lines(h.as_ints(), t);
            },
            GeometricHorocCycle::TangencyCircle(circle) => {
                self.as_ints().lemma_compatible_on_circles(h.as_ints(), circle);
            },
        }
        self.map_spec(&h.map_spec(&x)).lemma_as_ints_injective(gh.map_spec(&x));
    }
}

} // verus!
