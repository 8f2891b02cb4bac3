//! The numbers the library computes with.
use vstd::prelude::*;

verus! {

/// A number type that models, costs and teachers compute with.
///
/// Every operation is total: it accepts all values and returns a value, however
/// meaningless (dividing by zero included). Every operation is also a function of
/// its arguments: the `*_spec` function beside each method names the value that the
/// method returns, and the library's contracts are terms over these names. Nothing
/// else is assumed of them, no law of arithmetic in particular, so rounding
/// arithmetic is as welcome as exact arithmetic.
///
/// An implementation outside verified code only writes the executable methods and
/// owes that each of them returns the same value for the same arguments. Numbers can
/// be printed, so that what is made of them can be.
pub trait Scalar: Copy + core::fmt::Debug {
    /// The number that stands for a count of `n` things.
    open spec fn count_spec(n: nat) -> Self {
        arbitrary()
    }

    /// The sum `self + rhs`.
    open spec fn add_spec(self, rhs: Self) -> Self {
        arbitrary()
    }

    /// The difference `self - rhs`.
    open spec fn sub_spec(self, rhs: Self) -> Self {
        arbitrary()
    }

    /// The product `self * rhs`.
    open spec fn mul_spec(self, rhs: Self) -> Self {
        arbitrary()
    }

    /// The quotient `self / rhs`.
    open spec fn div_spec(self, rhs: Self) -> Self {
        arbitrary()
    }

    /// The negation `-self`.
    open spec fn neg_spec(self) -> Self {
        arbitrary()
    }

    /// The absolute value of `self`.
    open spec fn abs_spec(self) -> Self {
        arbitrary()
    }

    /// The square root of `self`.
    open spec fn sqrt_spec(self) -> Self {
        arbitrary()
    }

    /// The exponential function at `self`.
    open spec fn exp_spec(self) -> Self {
        arbitrary()
    }

    /// The natural logarithm of `self`.
    open spec fn ln_spec(self) -> Self {
        arbitrary()
    }

    /// Whether `self` is strictly less than `rhs`.
    open spec fn lt_spec(self, rhs: Self) -> bool {
        arbitrary()
    }

    /// Converts a count to a number.
    fn from_count(n: usize) -> (r: Self)
        ensures
            r == Self::count_spec(n as nat),
    ;

    /// Adds `rhs` to `self`.
    fn add(self, rhs: Self) -> (r: Self)
        ensures
            r == self.add_spec(rhs),
    ;

    /// Subtracts `rhs` from `self`.
    fn sub(self, rhs: Self) -> (r: Self)
        ensures
            r == self.sub_spec(rhs),
    ;

    /// Multiplies `self` by `rhs`.
    fn mul(self, rhs: Self) -> (r: Self)
        ensures
            r == self.mul_spec(rhs),
    ;

    /// Divides `self` by `rhs`.
    fn div(self, rhs: Self) -> (r: Self)
        ensures
            r == self.div_spec(rhs),
    ;

    /// Negates `self`.
    fn neg(self) -> (r: Self)
        ensures
            r == self.neg_spec(),
    ;

    /// Returns the absolute value of `self`.
    fn abs(self) -> (r: Self)
        ensures
            r == self.abs_spec(),
    ;

    /// Returns the square root of `self`.
    fn sqrt(self) -> (r: Self)
        ensures
            r == self.sqrt_spec(),
    ;

    /// Returns the exponential function at `self`.
    fn exp(self) -> (r: Self)
        ensures
            r == self.exp_spec(),
    ;

    /// Returns the natural logarithm of `self`.
    fn ln(self) -> (r: Self)
        ensures
            r == self.ln_spec(),
    ;

    /// Tells whether `self` is strictly less than `rhs`.
    fn lt(self, rhs: Self) -> (b: bool)
        ensures
            b == self.lt_spec(rhs),
    ;
}

/// The number zero.
pub open spec fn zero<S: Scalar>() -> S {
    S::count_spec(0)
}

/// The number one.
pub open spec fn one<S: Scalar>() -> S {
    S::count_spec(1)
}

/// The number two.
pub open spec fn two<S: Scalar>() -> S {
    S::count_spec(2)
}

/// A sequence of `n` zeros.
pub open spec fn zeros<S: Scalar>(n: nat) -> Seq<S> {
    Seq::new(n, |i: int| zero::<S>())
}

} // verus!
