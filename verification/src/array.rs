//! Fixed-size arrays and vectors of models under one interface.
use crate::linear_algebra::Vector;
use crate::Model;
use vstd::prelude::*;

verus! {

/// A row of elements, and the vector type that holds one number for each of them.
pub trait Array {
    /// Element type of the array
    type Element;

    /// Corresponding Vector type with same dimension
    type Vector: Vector;

    /// The elements, in order.
    open spec fn items(&self) -> Seq<Self::Element> {
        arbitrary()
    }

    /// Number of elements within the array. A zero vector of the corresponding type
    /// can be had for this number, and has this dimension.
    fn length(&self) -> (n: usize)
        ensures
            n == self.items().len(),
            Self::Vector::admits(n),
            Self::Vector::zero_dimension(n) == n,
    ;

    /// Access element by immutable reference
    fn at_ref(&self, index: usize) -> (element: &Self::Element)
        requires
            index < self.items().len(),
        ensures
            *element == self.items()[index as int],
    ;

    /// Access element by mutable reference
    fn at_mut(&mut self, index: usize) -> (element: &mut Self::Element)
        requires
            index < old(self).items().len(),
        ensures
            *element == old(self).items()[index as int],
            final(self).items() == old(self).items().update(index as int, *final(element)),
    ;
}

impl<T: Model, const N: usize> Array for [T; N] {
    type Element = T;

    type Vector = [T::Scalar; N];

    open spec fn items(&self) -> Seq<T> {
        self@
    }

    fn length(&self) -> (n: usize) {
        N
    }

    fn at_ref(&self, index: usize) -> (element: &T) {
        &self[index]
    }

    fn at_mut(&mut self, index: usize) -> (element: &mut T) {
        &mut self[index]
    }
}

impl<T: Model> Array for Vec<T> {
    type Element = T;

    type Vector = Vec<T::Scalar>;

    open spec fn items(&self) -> Seq<T> {
        self@
    }

    fn length(&self) -> (n: usize) {
        self.len()
    }

    fn at_ref(&self, index: usize) -> (element: &T) {
        &self[index]
    }

    fn at_mut(&mut self, index: usize) -> (element: &mut T) {
        &mut self[index]
    }
}

} // verus!
