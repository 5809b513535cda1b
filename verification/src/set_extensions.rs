use vstd::prelude::*;

verus! {

/// The restriction of a set `S` to the subset of the elements that satisfy a
/// condition: every element made by `try_new` satisfies it.
pub trait SetRestriction: Sized {
    /// Whether the condition may be decided for `self`.
    spec fn condition_defined(&self) -> bool;

    /// Whether `self` belongs to the subset.
    spec fn condition_spec(&self) -> bool;

    fn condition(&self) -> (r: bool)
        requires
            self.condition_defined(),
        ensures
            r == self.condition_spec(),
    ;

    /// Hands `s` back if and only if it satisfies the condition.
    fn try_new(s: Self) -> (r: Option<Self>)
        requires
            s.condition_defined(),
        ensures
            r == (if s.condition_spec() {
                Some(s)
            } else {
                None
            }),
    {
        if s.condition() {
            Some(s)
        } else {
            None
        }
    }
}

/// A type that holds one value of the type `Inner` and gives read access to it.
pub trait Wrapper: Sized {
    type Inner;

    /// The value held.
    spec fn inner_spec(&self) -> Self::Inner;

    fn inner(&self) -> (r: &Self::Inner)
        ensures
            *r == self.inner_spec(),
    ;
}

/// A wrapper satisfies the condition of what it holds.
impl<M, S> SetRestriction for M where M: Wrapper<Inner = S>, S: SetRestriction {
    open spec fn condition_defined(&self) -> bool {
        self.inner_spec().condition_defined()
    }

    open spec fn condition_spec(&self) -> bool {
        self.inner_spec().condition_spec()
    }

    fn condition(&self) -> (r: bool) {
        self.inner().condition()
    }
}

} // verus!
