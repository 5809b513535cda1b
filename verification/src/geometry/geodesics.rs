use super::basics::{Distance, Mid};
use super::boundary::BoundaryPoint;
use crate::group_action::Action;
use crate::moebius::MoebiusTransformation;
use crate::set_extensions::SetRestriction;
use vstd::prelude::*;
use vstd::std_specs::cmp::PartialEqSpec;

verus! {

/// An oriented geodesic of the hyperbolic upper half plane, given by its two
/// endpoints on the boundary, from `start` to `end`.
///
/// The endpoints of a geodesic are distinct. `new` does not look at them:
/// the set restriction of this type is the test, and `try_new` hands out
/// geodesics only.
#[derive(Clone, Copy, Debug)]
pub struct GeodesicBoundary<T> {
    pub start: BoundaryPoint<T>,
    pub end: BoundaryPoint<T>,
}

impl<T> GeodesicBoundary<T> {
    pub fn new(start: BoundaryPoint<T>, end: BoundaryPoint<T>) -> (r: Self)
        ensures
            r == (GeodesicBoundary { start, end }),
    {
        Self { start, end }
    }
}

/// The pairs of boundary points whose two points differ.
impl<T: PartialEq> SetRestriction for GeodesicBoundary<T> {
    open spec fn condition_defined(&self) -> bool {
        T::obeys_eq_spec()
    }

    open spec fn condition_spec(&self) -> bool {
        !self.start.equals_spec(&self.end)
    }

    fn condition(&self) -> (r: bool) {
        match (&self.start, &self.end) {
            (BoundaryPoint::Infinity, BoundaryPoint::Infinity) => false,
            (BoundaryPoint::Regular(s), BoundaryPoint::Regular(e)) => !(*s == *e),
            _ => true,
        }
    }
}

impl<T: PartialEq> PartialEq for GeodesicBoundary<T> {
    fn eq(&self, other: &Self) -> (r: bool) {
        self.start.equals(&other.start) && self.end.equals(&other.end)
    }
}

impl<T: PartialEq> vstd::std_specs::cmp::PartialEqSpecImpl for GeodesicBoundary<T> {
    open spec fn obeys_eq_spec() -> bool {
        T::obeys_eq_spec()
    }

    /// Two oriented geodesics are equal when they start at equal points and
    /// end at equal points.
    open spec fn eq_spec(&self, other: &Self) -> bool {
        self.start.equals_spec(&other.start) && self.end.equals_spec(&other.end)
    }
}

impl<T: PartialEq> Eq for GeodesicBoundary<T> {

}

impl<T: PartialEq> GeodesicBoundary<T> {
    pub fn end_points(&self) -> (r: (BoundaryPoint<T>, BoundaryPoint<T>)) where T: Copy
        ensures
            r == (self.start, self.end),
    {
        (self.start, self.end)
    }
}

/// The action of a transformation on the geodesics: each endpoint is mapped
/// by the action on the boundary.
impl<T> Action<GeodesicBoundary<T>> for MoebiusTransformation<T> where
    MoebiusTransformation<T>: Action<BoundaryPoint<T>>,
 {
    open spec fn map_defined(&self, x: &GeodesicBoundary<T>) -> bool {
        self.map_defined(&x.start) && self.map_defined(&x.end)
    }

    open spec fn map_spec(&self, x: &GeodesicBoundary<T>) -> GeodesicBoundary<T> {
        GeodesicBoundary { start: self.map_spec(&x.start), end: self.map_spec(&x.end) }
    }

    fn map(&self, x: &GeodesicBoundary<T>) -> (r: GeodesicBoundary<T>) {
        GeodesicBoundary { start: self.map(&x.start), end: self.map(&x.end) }
    }
}

/// A geodesic as a curve of the upper half plane.
#[derive(Clone, Copy, Debug)]
pub enum GeodesicLine<T> {
    /// A half circle with its center on the real axis.
    Arc(Arc<T>),
    /// A half line perpendicular to the real axis, through the given point
    /// of it.
    Line(T),
}

/// A half circle with its center on the real axis.
#[derive(Clone, Copy, Debug)]
pub struct Arc<T> {
    pub center: T,
    pub radius: T,
}

impl<T: PartialEq> Arc<T> {
    /// Two arcs are equal when their centers and their radii are.
    pub open spec fn equals_spec(&self, other: &Self) -> bool {
        self.center.eq_spec(&other.center) && self.radius.eq_spec(&other.radius)
    }

    /// Whether the two arcs are equal: what `==` computes.
    pub fn equals(&self, other: &Self) -> (r: bool)
        ensures
            T::obeys_eq_spec() ==> r == self.equals_spec(other),
    {
        self.center == other.center && self.radius == other.radius
    }
}

impl<T: PartialEq> PartialEq for Arc<T> {
    fn eq(&self, other: &Self) -> (r: bool) {
        self.equals(other)
    }
}

impl<T: PartialEq> vstd::std_specs::cmp::PartialEqSpecImpl for Arc<T> {
    open spec fn obeys_eq_spec() -> bool {
        T::obeys_eq_spec()
    }

    open spec fn eq_spec(&self, other: &Self) -> bool {
        self.equals_spec(other)
    }
}

impl<T: PartialEq> Eq for Arc<T> {

}

impl<T: PartialEq> PartialEq for GeodesicLine<T> {
    fn eq(&self, other: &Self) -> (r: bool) {
        match (self, other) {
            (GeodesicLine::Line(t1), GeodesicLine::Line(t2)) => *t1 == *t2,
            (GeodesicLine::Arc(a1), GeodesicLine::Arc(a2)) => *a1 == *a2,
            _ => false,
        }
    }
}

impl<T: PartialEq> vstd::std_specs::cmp::PartialEqSpecImpl for GeodesicLine<T> {
    open spec fn obeys_eq_spec() -> bool {
        T::obeys_eq_spec()
    }

    /// Two curves are equal when they have the same shape and equal
    /// parameters.
    open spec fn eq_spec(&self, other: &Self) -> bool {
        match (self, other) {
            (GeodesicLine::Line(t1), GeodesicLine::Line(t2)) => t1.eq_spec(t2),
            (GeodesicLine::Arc(a1), GeodesicLine::Arc(a2)) => a1.equals_spec(a2),
            _ => false,
        }
    }
}

impl<T> Arc<T> {
    /// The half circle over the segment from `near` to `far`: its center is the
    /// point half way between them, its radius the distance from `near` to the
    /// center.
    pub open spec fn from_antipodal_spec(near: T, far: T) -> Self where T: Distance<T> + Mid {
        Arc { center: near.mid_spec(&far), radius: near.dist_spec(&near.mid_spec(&far)) }
    }

    pub fn from_antipodal(near: T, far: T) -> (r: Self) where T: Distance<T> + Mid
        ensures
            r == Self::from_antipodal_spec(near, far),
    {
        let center = near.mid(&far);
        let radius = near.dist(&center);
        Self { center, radius }
    }
}

impl<T: Distance<T> + Mid> GeodesicLine<T> {
    /// The curve between two boundary points: the half line through the one
    /// that is regular where the other is the point at infinity, the half
    /// circle over the segment between them where both are regular.
    pub open spec fn from_spec(gb: GeodesicBoundary<T>) -> Self {
        match (gb.start, gb.end) {
            (BoundaryPoint::Infinity, BoundaryPoint::Regular(t)) => GeodesicLine::Line(t),
            (BoundaryPoint::Regular(t), BoundaryPoint::Infinity) => GeodesicLine::Line(t),
            (BoundaryPoint::Regular(s), BoundaryPoint::Regular(e)) => GeodesicLine::Arc(
                Arc::from_antipodal_spec(s, e),
            ),
            (BoundaryPoint::Infinity, BoundaryPoint::Infinity) => arbitrary(),
        }
    }

    /// The curve that a geodesic is. The endpoints of a geodesic differ, so
    /// they are not both the point at infinity.
    pub fn from(gb: GeodesicBoundary<T>) -> (r: Self)
        requires
            !(gb.start is Infinity && gb.end is Infinity),
        ensures
            r == Self::from_spec(gb),
    {
        match (gb.start, gb.end) {
            (BoundaryPoint::Infinity, BoundaryPoint::Regular(t)) => GeodesicLine::Line(t),
            (BoundaryPoint::Regular(t), BoundaryPoint::Infinity) => GeodesicLine::Line(t),
            (BoundaryPoint::Regular(s), BoundaryPoint::Regular(e)) => {
                let arc = Arc::from_antipodal(s, e);
                GeodesicLine::Arc(arc)
            },
            (BoundaryPoint::Infinity, BoundaryPoint::Infinity) => unreached(),
        }
    }
}

} // verus!
