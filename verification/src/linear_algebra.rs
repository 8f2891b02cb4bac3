//! Vectors of numbers, of a dimension fixed by the type or chosen at run time.
use crate::scalar::{zero, zeros, Scalar};
use vstd::prelude::*;

verus! {

/// A tuple of numbers: the projections of a vector along orthogonal base vectors.
pub trait Vector: Clone {
    /// The type of the numbers.
    type Scalar: Scalar;

    /// The projections, in the order of the base vectors.
    open spec fn entries(&self) -> Seq<Self::Scalar> {
        arbitrary()
    }

    /// Whether `zero` accepts `dimension`.
    open spec fn admits(dimension: usize) -> bool {
        arbitrary()
    }

    /// The dimension of the vector that `zero` returns for `dimension`.
    open spec fn zero_dimension(dimension: usize) -> nat {
        arbitrary()
    }

    /// The scalar product of two vectors of this type, from their projections.
    open spec fn dot_spec(a: Seq<Self::Scalar>, b: Seq<Self::Scalar>) -> Self::Scalar {
        arbitrary()
    }

    /// Returns a vector with every projection zero.
    ///
    /// A type that knows its dimension need not be told; one that does not takes it
    /// from `dimension`.
    fn zero(dimension: usize) -> (v: Self)
        requires
            Self::admits(dimension),
        ensures
            v.entries() == zeros::<Self::Scalar>(Self::zero_dimension(dimension)),
    ;

    /// The number of projections: `at` and `at_mut` take indices below it.
    fn dimension(&self) -> (n: usize)
        ensures
            n == self.entries().len(),
    ;

    /// The projection along the `i`-th base vector.
    fn at(&self, i: usize) -> (x: Self::Scalar)
        requires
            i < self.entries().len(),
        ensures
            x == self.entries()[i as int],
    ;

    /// Mutable access to the projection along the `i`-th base vector.
    fn at_mut(&mut self, i: usize) -> (x: &mut Self::Scalar)
        requires
            i < old(self).entries().len(),
        ensures
            *x == old(self).entries()[i as int],
            final(self).entries() == old(self).entries().update(i as int, *final(x)),
    ;

    /// The scalar product of `self` and `other`, which must be of one dimension.
    fn dot(&self, other: &Self) -> (r: Self::Scalar)
        requires
            self.entries().len() == other.entries().len(),
        ensures
            r == Self::dot_spec(self.entries(), other.entries()),
    ;
}

/// The sum of the first `n` products of corresponding entries of `a` and `b`,
/// added one after the other to zero.
pub open spec fn dot_prefix<S: Scalar>(a: Seq<S>, b: Seq<S>, n: nat) -> S
    decreases n,
{
    if n == 0 {
        zero::<S>()
    } else {
        dot_prefix(a, b, (n - 1) as nat).add_spec(a[n - 1].mul_spec(b[n - 1]))
    }
}

/// The scalar product of two sequences of one length: the products of their
/// corresponding entries, added in order to zero.
pub open spec fn dot_product<S: Scalar>(a: Seq<S>, b: Seq<S>) -> S {
    dot_prefix(a, b, a.len())
}

/// Computes the scalar product of two slices of one length.
pub fn dot_of_slices<S: Scalar>(a: &[S], b: &[S]) -> (r: S)
    requires
        a@.len() == b@.len(),
    ensures
        r == dot_product(a@, b@),
{
    let n = a.len();
    let mut result = S::from_count(0);
    let mut i: usize = 0;
    while i < n
        invariant
            i <= n,
            n == a@.len(),
            n == b@.len(),
            result == dot_prefix(a@, b@, i as nat),
        decreases n - i,
    {
        result = result.add(a[i].mul(b[i]));
        i += 1;
    }
    result
}

/// A number is a vector of dimension one.
impl<S: Scalar> Vector for S {
    type Scalar = S;

    open spec fn entries(&self) -> Seq<S> {
        seq![*self]
    }

    open spec fn admits(dimension: usize) -> bool {
        dimension == 1
    }

    open spec fn zero_dimension(dimension: usize) -> nat {
        1
    }

    open spec fn dot_spec(a: Seq<S>, b: Seq<S>) -> S {
        a[0].mul_spec(b[0])
    }

    fn zero(dimension: usize) -> (v: Self) {
        let v = S::from_count(0);
        assert(seq![v] =~= zeros::<S>(1));
        v
    }

    fn dimension(&self) -> (n: usize) {
        1
    }

    fn at(&self, i: usize) -> (x: S) {
        *self
    }

    fn at_mut(&mut self, i: usize) -> (x: &mut S) {
        proof {
            assert(seq![*final(self)] =~= seq![*old(self)].update(0, *final(self)));
        }
        self
    }

    fn dot(&self, other: &Self) -> (r: S) {
        self.mul(*other)
    }
}

/// A vector whose dimension is chosen at run time.
impl<S: Scalar> Vector for Vec<S> {
    type Scalar = S;

    open spec fn entries(&self) -> Seq<S> {
        self@
    }

    open spec fn admits(dimension: usize) -> bool {
        true
    }

    open spec fn zero_dimension(dimension: usize) -> nat {
        dimension as nat
    }

    open spec fn dot_spec(a: Seq<S>, b: Seq<S>) -> S {
        dot_product(a, b)
    }

    fn zero(dimension: usize) -> (v: Self) {
        let z = S::from_count(0);
        let mut v: Vec<S> = Vec::new();
        let mut i: usize = 0;
        while i < dimension
            invariant
                i <= dimension,
                z == zero::<S>(),
                v@ == zeros::<S>(i as nat),
            decreases dimension - i,
        {
            v.push(z);
            i += 1;
            assert(v@ =~= zeros::<S>(i as nat));
        }
        v
    }

    fn dimension(&self) -> (n: usize) {
        self.len()
    }

    fn at(&self, i: usize) -> (x: S) {
        self[i]
    }

    fn at_mut(&mut self, i: usize) -> (x: &mut S) {
        &mut self[i]
    }

    fn dot(&self, other: &Self) -> (r: S) {
        dot_of_slices(self.as_slice(), other.as_slice())
    }
}

/// A vector whose dimension is fixed by its type.
impl<S: Scalar, const N: usize> Vector for [S; N] {
    type Scalar = S;

    open spec fn entries(&self) -> Seq<S> {
        self@
    }

    open spec fn admits(dimension: usize) -> bool {
        true
    }

    open spec fn zero_dimension(dimension: usize) -> nat {
        N as nat
    }

    open spec fn dot_spec(a: Seq<S>, b: Seq<S>) -> S {
        dot_product(a, b)
    }

    fn zero(dimension: usize) -> (v: Self) {
        let v = [S::from_count(0);N];
        assert(v@ =~= zeros::<S>(N as nat));
        v
    }

    fn dimension(&self) -> (n: usize) {
        N
    }

    fn at(&self, i: usize) -> (x: S) {
        self[i]
    }

    fn at_mut(&mut self, i: usize) -> (x: &mut S) {
        &mut self[i]
    }

    fn dot(&self, other: &Self) -> (r: S) {
        dot_of_slices(self.as_slice(), other.as_slice())
    }
}

/// A vector type whose dimension is known from the type alone.
pub trait FixDimension: Vector {
    /// The dimension of every vector of the type.
    open spec fn fixed_dimension() -> nat {
        arbitrary()
    }

    /// Returns the vector with every projection zero.
    fn origin() -> (v: Self)
        ensures
            v.entries() == zeros::<Self::Scalar>(Self::fixed_dimension()),
    ;
}

impl<S: Scalar> FixDimension for S {
    open spec fn fixed_dimension() -> nat {
        1
    }

    fn origin() -> (v: Self) {
        let v = S::from_count(0);
        assert(seq![v] =~= zeros::<S>(1));
        v
    }
}

impl<S: Scalar, const N: usize> FixDimension for [S; N] {
    open spec fn fixed_dimension() -> nat {
        N as nat
    }

    fn origin() -> (v: Self) {
        let v = [S::from_count(0);N];
        assert(v@ =~= zeros::<S>(N as nat));
        v
    }
}

} // verus!
