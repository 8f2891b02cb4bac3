//! The cost functions: squared error, absolute error, and negative log-likelihood.
use crate::scalar::{one, two, zero, Scalar};
use crate::Cost;
use vstd::prelude::*;

verus! {

/// The cost `(prediction - truth)^2`.
///
/// A constant model that minimizes it predicts the mean.
pub struct LeastSquares;

impl<S: Scalar> Cost<S, S> for LeastSquares {
    /// Twice the error.
    open spec fn outer_derivative_spec(&self, prediction: S, truth: S) -> S {
        two::<S>().mul_spec(prediction.sub_spec(truth))
    }

    /// The error times itself.
    open spec fn cost_spec(&self, prediction: S, truth: S) -> S {
        prediction.sub_spec(truth).mul_spec(prediction.sub_spec(truth))
    }

    fn outer_derivative(&self, prediction: &S, truth: S) -> (d: S) {
        let error = prediction.sub(truth);
        S::from_count(2).mul(error)
    }

    fn cost(&self, prediction: S, truth: S) -> (c: S) {
        let error = prediction.sub(truth);
        error.mul(error)
    }
}

/// The cost `|prediction - truth|`.
///
/// A constant model that minimizes it predicts the median.
pub struct LeastAbsoluteDeviation;

/// The sign of `error` as a number: one if it is above zero, minus one if it is below
/// zero, and zero otherwise, so that a prediction that meets the truth is left alone.
pub open spec fn sign<S: Scalar>(error: S) -> S {
    if zero::<S>().lt_spec(error) {
        one::<S>()
    } else if error.lt_spec(zero::<S>()) {
        one::<S>().neg_spec()
    } else {
        zero::<S>()
    }
}

impl<S: Scalar> Cost<S, S> for LeastAbsoluteDeviation {
    /// The sign of the error.
    open spec fn outer_derivative_spec(&self, prediction: S, truth: S) -> S {
        sign(prediction.sub_spec(truth))
    }

    /// The absolute value of the error.
    open spec fn cost_spec(&self, prediction: S, truth: S) -> S {
        prediction.sub_spec(truth).abs_spec()
    }

    fn outer_derivative(&self, prediction: &S, truth: S) -> (d: S) {
        let error = prediction.sub(truth);
        let zero = S::from_count(0);
        if zero.lt(error) {
            S::from_count(1)
        } else if error.lt(zero) {
            S::from_count(1).neg()
        } else {
            zero
        }
    }

    fn cost(&self, prediction: S, truth: S) -> (c: S) {
        prediction.sub(truth).abs()
    }
}

/// The negative logarithm of the likelihood, for predictions that are probabilities.
///
/// Nothing is done about a prediction of exactly zero or one, where a division by
/// zero or the logarithm of zero occurs: the result is what the numbers make of it.
pub struct MaxLikelihood;

/// For a truth that is itself a probability.
impl<S: Scalar> Cost<S, S> for MaxLikelihood {
    /// `(1 - truth) / (1 - prediction) - truth / prediction`
    open spec fn outer_derivative_spec(&self, prediction: S, truth: S) -> S {
        one::<S>().sub_spec(truth).div_spec(one::<S>().sub_spec(prediction)).sub_spec(
            truth.div_spec(prediction),
        )
    }

    /// `-truth * ln(prediction) - (1 - truth) * ln(1 - prediction)`
    open spec fn cost_spec(&self, prediction: S, truth: S) -> S {
        truth.neg_spec().mul_spec(prediction.ln_spec()).sub_spec(
            one::<S>().sub_spec(truth).mul_spec(one::<S>().sub_spec(prediction).ln_spec()),
        )
    }

    fn outer_derivative(&self, prediction: &S, truth: S) -> (d: S) {
        let one = S::from_count(1);
        one.sub(truth).div(one.sub(*prediction)).sub(truth.div(*prediction))
    }

    fn cost(&self, prediction: S, truth: S) -> (c: S) {
        let one = S::from_count(1);
        truth.neg().mul(prediction.ln()).sub(one.sub(truth).mul(one.sub(prediction).ln()))
    }
}

/// For a truth that is a label.
impl<S: Scalar> Cost<bool, S> for MaxLikelihood {
    /// `1 / -prediction` where the label holds, else `1 / (1 - prediction)`
    open spec fn outer_derivative_spec(&self, prediction: S, truth: bool) -> S {
        one::<S>().div_spec(
            if truth {
                prediction.neg_spec()
            } else {
                one::<S>().sub_spec(prediction)
            },
        )
    }

    /// `-ln(prediction)` where the label holds, else `-ln(1 - prediction)`
    open spec fn cost_spec(&self, prediction: S, truth: bool) -> S {
        (if truth {
            prediction
        } else {
            one::<S>().sub_spec(prediction)
        }).ln_spec().neg_spec()
    }

    fn outer_derivative(&self, prediction: &S, truth: bool) -> (d: S) {
        let one = S::from_count(1);
        let denominator = if truth {
            prediction.neg()
        } else {
            one.sub(*prediction)
        };
        one.div(denominator)
    }

    fn cost(&self, prediction: S, truth: bool) -> (c: S) {
        let likelihood = if truth {
            prediction
        } else {
            S::from_count(1).sub(prediction)
        };
        likelihood.ln().neg()
    }
}

} // verus!
