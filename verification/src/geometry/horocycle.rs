use super::basics::{ComplexPoint, EuclideanCircle, Mid};
use super::boundary::BoundaryPoint;
use crate::algebraic_extensions::{
    AddIdentity, MulIdentity, MuliplicativeNumeric, Numeric, NumericAddIdentity,
};
use crate::group_action::Action;
use crate::moebius::MoebiusTransformation;
use std::ops::{Add, Div, Mul, Neg};
use vstd::prelude::*;
use vstd::std_specs::cmp::PartialEqSpec;

verus! {

/// A horocycle of the upper half plane, in one of its two shapes:
/// - the line `Im(z) = t`, parallel to the real axis at the height `t`, or
/// - a Euclidean circle that touches the real axis.
#[derive(Clone, Copy, Debug)]
pub enum GeometricHorocCycle<T> {
    /// A circle that touches the real axis.
    TangencyCircle(TangencyCircle<T>),
    /// The line at the given height, which touches the boundary at infinity.
    Line(T),
}

/// A circle that touches the real axis at `boundary` and has the given
/// `diameter`.
#[derive(Clone, Copy, Debug)]
pub struct TangencyCircle<T> {
    /// The point of the real axis that the circle touches.
    pub boundary: T,
    pub diameter: T,
}

impl<T: PartialEq> TangencyCircle<T> {
    /// Two circles are equal when they touch at equal points and have equal
    /// diameters.
    pub open spec fn equals_spec(&self, other: &Self) -> bool {
        self.boundary.eq_spec(&other.boundary) && self.diameter.eq_spec(&other.diameter)
    }

    /// Whether the two circles are equal: what `==` computes.
    pub fn equals(&self, other: &Self) -> (r: bool)
        ensures
            T::obeys_eq_spec() ==> r == self.equals_spec(other),
    {
        self.boundary == other.boundary && self.diameter == other.diameter
    }
}

impl<T: PartialEq> PartialEq for TangencyCircle<T> {
    fn eq(&self, other: &Self) -> (r: bool) {
        self.equals(other)
    }
}

impl<T: PartialEq> vstd::std_specs::cmp::PartialEqSpecImpl for TangencyCircle<T> {
    open spec fn obeys_eq_spec() -> bool {
        T::obeys_eq_spec()
    }

    open spec fn eq_spec(&self, other: &Self) -> bool {
        self.equals_spec(other)
    }
}

impl<T: PartialEq> Eq for TangencyCircle<T> {

}

impl<T: PartialEq> PartialEq for GeometricHorocCycle<T> {
    fn eq(&self, other: &Self) -> (r: bool) {
        match (self, other) {
            (GeometricHorocCycle::Line(t), GeometricHorocCycle::Line(s)) => *t == *s,
            (GeometricHorocCycle::TangencyCircle(t), GeometricHorocCycle::TangencyCircle(s)) => {
                t.equals(s)
            },
            _ => false,
        }
    }
}

impl<T: PartialEq> vstd::std_specs::cmp::PartialEqSpecImpl for GeometricHorocCycle<T> {
    open spec fn obeys_eq_spec() -> bool {
        T::obeys_eq_spec()
    }

    /// Two horocycles are equal when they have the same shape and equal
    /// parameters.
    open spec fn eq_spec(&self, other: &Self) -> bool {
        match (self, other) {
            (GeometricHorocCycle::Line(t), GeometricHorocCycle::Line(s)) => t.eq_spec(s),
            (
                GeometricHorocCycle::TangencyCircle(t),
                GeometricHorocCycle::TangencyCircle(s),
            ) => t.equals_spec(s),
            _ => false,
        }
    }
}

impl<T: PartialEq> Eq for GeometricHorocCycle<T> {

}

impl<T> GeometricHorocCycle<T> {
    /// The horocycle that touches the boundary at `boundary`: the line at the
    /// height `height_or_diam` for the point at infinity, else the circle of
    /// the diameter `height_or_diam`. The sign of `height_or_diam` is not
    /// looked at.
    pub open spec fn new_spec(boundary: BoundaryPoint<T>, height_or_diam: T) -> Self {
        match boundary {
            BoundaryPoint::Infinity => GeometricHorocCycle::Line(height_or_diam),
            BoundaryPoint::Regular(t) => GeometricHorocCycle::TangencyCircle(
                TangencyCircle { boundary: t, diameter: height_or_diam },
            ),
        }
    }

    pub fn new(boundary: BoundaryPoint<T>, height_or_diam: T) -> (r: Self)
        ensures
            r == Self::new_spec(boundary, height_or_diam),
    {
        match boundary {
            BoundaryPoint::Infinity => GeometricHorocCycle::Line(height_or_diam),
            BoundaryPoint::Regular(t) => GeometricHorocCycle::TangencyCircle(
                TangencyCircle { boundary: t, diameter: height_or_diam },
            ),
        }
    }

    pub fn new_line(t: T) -> (r: Self)
        ensures
            r == GeometricHorocCycle::Line(t),
    {
        Self::new(BoundaryPoint::Infinity, t)
    }

    /// The boundary point that the horocycle touches.
    pub open spec fn boundary_point_spec(&self) -> BoundaryPoint<T> {
        match self {
            GeometricHorocCycle::Line(_) => BoundaryPoint::Infinity,
            GeometricHorocCycle::TangencyCircle(circle) => BoundaryPoint::Regular(circle.boundary),
        }
    }

    pub fn boundary_point(&self) -> (r: BoundaryPoint<T>) where T: Copy
        ensures
            r == self.boundary_point_spec(),
    {
        match self {
            Self::Line(_) => BoundaryPoint::Infinity,
            Self::TangencyCircle(circle) => BoundaryPoint::Regular(circle.boundary),
        }
    }

    /// The height of a line, the diameter of a circle.
    pub open spec fn height_or_diameter_spec(&self) -> T {
        match self {
            GeometricHorocCycle::Line(t) => *t,
            GeometricHorocCycle::TangencyCircle(circle) => circle.diameter,
        }
    }

    pub fn height_or_diameter(&self) -> (r: T) where T: Copy
        ensures
            r == self.height_or_diameter_spec(),
    {
        match self {
            GeometricHorocCycle::Line(t) => *t,
            GeometricHorocCycle::TangencyCircle(circle) => circle.diameter,
        }
    }
}

/// The line at the height one.
impl<T: MulIdentity> Default for GeometricHorocCycle<T> {
    fn default() -> (r: Self)
        ensures
            r == GeometricHorocCycle::Line(T::one_spec()),
    {
        GeometricHorocCycle::Line(MulIdentity::one())
    }
}

impl<T: Copy + Mid + AddIdentity> EuclideanCircle<T> {
    /// The Euclidean circle that a tangency circle is: its radius is half way
    /// between zero and the diameter, its center lies above the touchpoint at
    /// the height of the radius.
    pub open spec fn from_spec(circle: &TangencyCircle<T>) -> Self {
        let radius = T::zero_spec().mid_spec(&circle.diameter);
        EuclideanCircle { center: ComplexPoint { re: circle.boundary, im: radius }, radius }
    }

    pub fn from(circle: &TangencyCircle<T>) -> (r: Self)
        ensures
            r == Self::from_spec(circle),
    {
        let zero: T = AddIdentity::zero();
        let radius = zero.mid(&circle.diameter);
        let center = ComplexPoint::<T>::new(circle.boundary, radius);
        EuclideanCircle { center, radius }
    }
}

/// The action of a transformation on the horocycles. With the entries
/// `a, b, c, d`, and "zero" meaning what counts as zero under the default
/// tolerance of the scalars:
/// - the line at the height `t` stays where `c` and `a - d` are zero, becomes
///   the line at the height `a*a*t` where only `c` is zero, and else the
///   circle that touches at `a / c` with the diameter `1 / (t*c*c)`;
/// - the circle that touches at `p` with the diameter `w` becomes the line at
///   the height `1 / (w*c*c)` where `c*p + d` is zero, and else the circle that
///   touches at `(a*p + b) / (c*p + d)` with the diameter `w / (c*p + d)^2`.
impl<T> Action<GeometricHorocCycle<T>> for MoebiusTransformation<T> where
    T: Numeric + MuliplicativeNumeric + NumericAddIdentity + Copy,
 {
    open spec fn map_defined(&self, x: &GeometricHorocCycle<T>) -> bool {
        &&& T::specified()
        &&& T::division_specified()
        &&& match x {
            GeometricHorocCycle::Line(t) => {
                if self.c.is_zero_spec(T::default_threshold_spec()) {
                    &&& self.d.can_negate()
                    &&& self.a.can_add(self.d.negated())
                    &&& !self.a.plus(self.d.negated()).is_zero_spec(T::default_threshold_spec())
                        ==> {
                        &&& self.a.can_multiply(self.a)
                        &&& self.a.times(self.a).can_multiply(*t)
                    }
                } else {
                    &&& t.can_multiply(self.c)
                    &&& t.times(self.c).can_multiply(self.c)
                    &&& T::one_spec().can_divide(t.times(self.c).times(self.c))
                    &&& self.a.can_divide(self.c)
                }
            },
            GeometricHorocCycle::TangencyCircle(circle) => {
                let denom = self.c.times(circle.boundary).plus(self.d);
                &&& self.c.can_multiply(circle.boundary)
                &&& self.c.times(circle.boundary).can_add(self.d)
                &&& if denom.is_zero_spec(T::default_threshold_spec()) {
                    &&& circle.diameter.can_multiply(self.c)
                    &&& circle.diameter.times(self.c).can_multiply(self.c)
                    &&& T::one_spec().can_divide(circle.diameter.times(self.c).times(self.c))
                } else {
                    &&& denom.can_multiply(denom)
                    &&& circle.diameter.can_divide(denom.times(denom))
                    &&& self.a.can_multiply(circle.boundary)
                    &&& self.a.times(circle.boundary).can_add(self.b)
                    &&& self.a.times(circle.boundary).plus(self.b).can_divide(denom)
                }
            },
        }
    }

    open spec fn map_spec(&self, x: &GeometricHorocCycle<T>) -> GeometricHorocCycle<T> {
        match x {
            GeometricHorocCycle::Line(t) => {
                if self.c.is_zero_spec(T::default_threshold_spec()) {
                    if self.a.plus(self.d.negated()).is_zero_spec(T::default_threshold_spec()) {
                        GeometricHorocCycle::Line(*t)
                    } else {
                        GeometricHorocCycle::Line(self.a.times(self.a).times(*t))
                    }
                } else {
                    GeometricHorocCycle::TangencyCircle(
                        TangencyCircle {
                            boundary: self.a.over(self.c),
                            diameter: T::one_spec().over(t.times(self.c).times(self.c)),
                        },
                    )
                }
            },
            GeometricHorocCycle::TangencyCircle(circle) => {
                let denom = self.c.times(circle.boundary).plus(self.d);
                if denom.is_zero_spec(T::default_threshold_spec()) {
                    GeometricHorocCycle::Line(
                        T::one_spec().over(circle.diameter.times(self.c).times(self.c)),
                    )
                } else {
                    GeometricHorocCycle::TangencyCircle(
                        TangencyCircle {
                            boundary: self.a.times(circle.boundary).plus(self.b).over(denom),
                            diameter: circle.diameter.over(denom.times(denom)),
                        },
                    )
                }
            },
        }
    }

    fn map(&self, x: &GeometricHorocCycle<T>) -> (r: GeometricHorocCycle<T>) {
        match x {
            GeometricHorocCycle::Line(t) => {
                if self.c.is_zero(T::default_threshold()) {
                    // the point at infinity is a fixed point
                    if self.a.add(self.d.neg()).is_zero(T::default_threshold()) {
                        GeometricHorocCycle::Line(*t)
                    } else {
                        let height = self.a.mul(self.a).mul(*t);
                        GeometricHorocCycle::Line(height)
                    }
                } else {
                    let one: T = MulIdentity::one();
                    let diameter = one.div(t.mul(self.c).mul(self.c));
                    let circle = TangencyCircle { boundary: self.a.div(self.c), diameter };
                    GeometricHorocCycle::TangencyCircle(circle)
                }
            },
            GeometricHorocCycle::TangencyCircle(circle) => {
                let denom = self.c.mul(circle.boundary).add(self.d);
                if denom.is_zero(T::default_threshold()) {
                    let h = circle.diameter.mul(self.c).mul(self.c);
                    let one: T = MulIdentity::one();
                    GeometricHorocCycle::Line(one.div(h))
                } else {
                    let diameter = circle.diameter.div(denom.mul(denom));
                    let boundary = self.a.mul(circle.boundary).add(self.b).div(denom);
                    let circle = TangencyCircle { boundary, diameter };
                    GeometricHorocCycle::TangencyCircle(circle)
                }
            },
        }
    }
}

} // verus!
