use crate::algebraic_extensions::{MuliplicativeNumeric, Numeric};
use std::ops::{Add, Div, Mul, Neg};
use vstd::prelude::*;
use vstd::std_specs::cmp::PartialEqSpec;

verus! {

/// A distance between two values of a type, in the scalars `T`.
pub trait Distance<T>: Sized {
    /// The distance from `self` to `other`.
    spec fn dist_spec(&self, other: &Self) -> T;

    fn dist(&self, other: &Self) -> (r: T)
        ensures
            r == self.dist_spec(other),
    ;
}

/// A type in which two values have a point half way between them.
pub trait Mid: Sized {
    /// The point half way between `self` and `other`.
    spec fn mid_spec(&self, other: &Self) -> Self;

    fn mid(&self, other: &Self) -> (r: Self)
        ensures
            r == self.mid_spec(other),
    ;
}

/// A point of the complex plane, given by its real and its imaginary part.
#[derive(Clone, Copy, Debug, Hash)]
pub struct ComplexPoint<T> {
    pub re: T,
    pub im: T,
}

impl<T> ComplexPoint<T> {
    pub fn new(re: T, im: T) -> (z: Self)
        ensures
            z == (ComplexPoint { re, im }),
    {
        ComplexPoint { re, im }
    }
}

impl<T: PartialEq> ComplexPoint<T> {
    /// Two points are equal when both of their parts are.
    pub open spec fn equals_spec(&self, other: &Self) -> bool {
        self.re.eq_spec(&other.re) && self.im.eq_spec(&other.im)
    }

    /// Whether the two points are equal: what `==` computes.
    pub fn equals(&self, other: &Self) -> (r: bool)
        ensures
            T::obeys_eq_spec() ==> r == self.equals_spec(other),
    {
        self.re == other.re && self.im == other.im
    }
}

impl<T: PartialEq> PartialEq for ComplexPoint<T> {
    fn eq(&self, other: &Self) -> (r: bool) {
        self.equals(other)
    }
}

impl<T: PartialEq> vstd::std_specs::cmp::PartialEqSpecImpl for ComplexPoint<T> {
    open spec fn obeys_eq_spec() -> bool {
        T::obeys_eq_spec()
    }

    open spec fn eq_spec(&self, other: &Self) -> bool {
        self.equals_spec(other)
    }
}

impl<T: PartialEq> Eq for ComplexPoint<T> {

}

impl<T: Numeric + MuliplicativeNumeric + Copy> ComplexPoint<T> {
    /// `re*re + im*im`, the square of the distance from the origin.
    pub open spec fn norm_sqr_spec(self) -> T {
        self.re.times(self.re).plus(self.im.times(self.im))
    }

    /// The quotient of two complex numbers: with `n = c*c + d*d`,
    /// `(a + ib) / (c + id) = (a*c + b*d) / n + i (b*c - a*d) / n`,
    /// the difference computed as `b*c + (-(a*d))`.
    pub open spec fn quotient_spec(self, other: Self) -> Self {
        let norm_sqr = other.norm_sqr_spec();
        ComplexPoint {
            re: self.re.times(other.re).plus(self.im.times(other.im)).over(norm_sqr),
            im: self.im.times(other.re).plus(self.re.times(other.im).negated()).over(norm_sqr),
        }
    }

    /// Whether every step of the quotient may be computed.
    pub open spec fn quotient_defined(self, other: Self) -> bool {
        let norm_sqr = other.norm_sqr_spec();
        let re = self.re.times(other.re).plus(self.im.times(other.im));
        let im = self.im.times(other.re).plus(self.re.times(other.im).negated());
        &&& T::specified()
        &&& T::division_specified()
        &&& other.re.can_multiply(other.re)
        &&& other.im.can_multiply(other.im)
        &&& other.re.times(other.re).can_add(other.im.times(other.im))
        &&& self.re.can_multiply(other.re)
        &&& self.im.can_multiply(other.im)
        &&& self.re.times(other.re).can_add(self.im.times(other.im))
        &&& self.im.can_multiply(other.re)
        &&& self.re.can_multiply(other.im)
        &&& self.re.times(other.im).can_negate()
        &&& self.im.times(other.re).can_add(self.re.times(other.im).negated())
        &&& re.can_divide(norm_sqr)
        &&& im.can_divide(norm_sqr)
    }

    /// The quotient of two complex numbers: what `/` computes.
    pub fn quotient(self, other: Self) -> (r: Self)
        requires
            self.quotient_defined(other),
        ensures
            r == self.quotient_spec(other),
    {
        let norm_sqr = other.re.mul(other.re).add(other.im.mul(other.im));
        let re = self.re.mul(other.re).add(self.im.mul(other.im));
        let im = self.im.mul(other.re).add(self.re.mul(other.im).neg());
        ComplexPoint { re: re.div(norm_sqr), im: im.div(norm_sqr) }
    }
}

impl<T: Numeric + MuliplicativeNumeric + Copy> Div for ComplexPoint<T> {
    type Output = Self;

    fn div(self, other: Self) -> (r: Self) {
        self.quotient(other)
    }
}

impl<T: Numeric + MuliplicativeNumeric + Copy> vstd::std_specs::ops::DivSpecImpl for ComplexPoint<T> {
    open spec fn obeys_div_spec() -> bool {
        true
    }

    open spec fn div_req(self, other: Self) -> bool {
        self.quotient_defined(other)
    }

    open spec fn div_spec(self, other: Self) -> Self {
        self.quotient_spec(other)
    }
}

/// A Euclidean circle in the complex plane.
#[derive(Clone, Copy, Debug)]
pub struct EuclideanCircle<T> {
    pub center: ComplexPoint<T>,
    pub radius: T,
}

impl<T: PartialEq> PartialEq for EuclideanCircle<T> {
    fn eq(&self, other: &Self) -> (r: bool) {
        self.center.equals(&other.center) && self.radius == other.radius
    }
}

impl<T: PartialEq> vstd::std_specs::cmp::PartialEqSpecImpl for EuclideanCircle<T> {
    open spec fn obeys_eq_spec() -> bool {
        T::obeys_eq_spec()
    }

    /// Two circles are equal when their centers and their radii are.
    open spec fn eq_spec(&self, other: &Self) -> bool {
        self.center.equals_spec(&other.center) && self.radius.eq_spec(&other.radius)
    }
}

impl<T: PartialEq> Eq for EuclideanCircle<T> {

}

/// A curve that can be handed out as a polyline in the plane.
pub trait Drawable2d<T> {
    /// The points of a polyline along the curve, found with
    /// `n_curve_points` steps.
    fn draw(&self, n_curve_points: usize) -> Vec<(T, T)>;
}

} // verus!
