use crate::algebraic_extensions::{MuliplicativeNumeric, Numeric, NumericAddIdentity};
use crate::group_action::Action;
use crate::moebius::MoebiusTransformation;
use std::ops::{Add, Div, Mul};
use vstd::prelude::*;
use vstd::std_specs::cmp::PartialEqSpec;

verus! {

/// A point of the boundary of the hyperbolic upper half plane: a real number,
/// or the point at infinity.
#[derive(Clone, Copy, Debug)]
pub enum BoundaryPoint<T> {
    Infinity,
    Regular(T),
}

impl<T: PartialEq> BoundaryPoint<T> {
    /// The point at infinity equals itself only; two regular points are equal
    /// when their values are.
    pub open spec fn equals_spec(&self, other: &Self) -> bool {
        match (self, other) {
            (BoundaryPoint::Infinity, BoundaryPoint::Infinity) => true,
            (BoundaryPoint::Regular(t1), BoundaryPoint::Regular(t2)) => t1.eq_spec(t2),
            _ => false,
        }
    }

    /// Whether the two points are equal: what `==` computes.
    pub fn equals(&self, other: &Self) -> (r: bool)
        ensures
            T::obeys_eq_spec() ==> r == self.equals_spec(other),
    {
        match (self, other) {
            (BoundaryPoint::Infinity, BoundaryPoint::Infinity) => true,
            (BoundaryPoint::Regular(t1), BoundaryPoint::Regular(t2)) => *t1 == *t2,
            _ => false,
        }
    }
}

impl<T: PartialEq> PartialEq for BoundaryPoint<T> {
    fn eq(&self, other: &Self) -> (r: bool) {
        self.equals(other)
    }
}

impl<T: PartialEq> vstd::std_specs::cmp::PartialEqSpecImpl for BoundaryPoint<T> {
    open spec fn obeys_eq_spec() -> bool {
        T::obeys_eq_spec()
    }

    open spec fn eq_spec(&self, other: &Self) -> bool {
        self.equals_spec(other)
    }
}

impl<T: PartialEq> Eq for BoundaryPoint<T> {

}

/// The action of a transformation on the boundary: `t -> (a*t + b) / (c*t + d)`,
/// where infinity goes to `a / c` and a point whose denominator counts as zero
/// goes to infinity. Whether a value counts as zero is decided under the
/// default tolerance of the scalars.
impl<T> Action<BoundaryPoint<T>> for MoebiusTransformation<T> where
    T: Numeric + MuliplicativeNumeric + NumericAddIdentity + Copy,
 {
    open spec fn map_defined(&self, x: &BoundaryPoint<T>) -> bool {
        &&& T::specified()
        &&& T::division_specified()
        &&& match x {
            BoundaryPoint::Infinity => !self.c.is_zero_spec(T::default_threshold_spec())
                ==> self.a.can_divide(self.c),
            BoundaryPoint::Regular(t) => {
                let denom = self.c.times(*t).plus(self.d);
                &&& self.c.can_multiply(*t)
                &&& self.c.times(*t).can_add(self.d)
                &&& !denom.is_zero_spec(T::default_threshold_spec()) ==> {
                    &&& self.a.can_multiply(*t)
                    &&& self.a.times(*t).can_add(self.b)
                    &&& self.a.times(*t).plus(self.b).can_divide(denom)
                }
            },
        }
    }

    open spec fn map_spec(&self, x: &BoundaryPoint<T>) -> BoundaryPoint<T> {
        match x {
            BoundaryPoint::Infinity => {
                if self.c.is_zero_spec(T::default_threshold_spec()) {
                    BoundaryPoint::Infinity
                } else {
                    BoundaryPoint::Regular(self.a.over(self.c))
                }
            },
            BoundaryPoint::Regular(t) => {
                let denom = self.c.times(*t).plus(self.d);
                if denom.is_zero_spec(T::default_threshold_spec()) {
                    BoundaryPoint::Infinity
                } else {
                    BoundaryPoint::Regular(self.a.times(*t).plus(self.b).over(denom))
                }
            },
        }
    }

    fn map(&self, x: &BoundaryPoint<T>) -> (r: BoundaryPoint<T>) {
        match x {
            BoundaryPoint::Infinity => {
                if self.c.is_zero(T::default_threshold()) {
                    BoundaryPoint::Infinity
                } else {
                    BoundaryPoint::Regular(self.a.div(self.c))
                }
            },
            BoundaryPoint::Regular(t) => {
                let denom = self.c.mul(*t).add(self.d);
                if denom.is_zero(T::default_threshold()) {
                    BoundaryPoint::Infinity
                } else {
                    BoundaryPoint::Regular(self.a.mul(*t).add(self.b).div(denom))
                }
            },
        }
    }
}

} // verus!
