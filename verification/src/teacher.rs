//! The teachers: gradient descent, plain and with annealing, momentum, Nesterov's
//! accelerated descent, and Adagrad.
use crate::linear_algebra::Vector;
use crate::scalar::{zeros, Scalar};
use crate::training::{annealed_learning_rate, annealed_rate};
use crate::{Cost, Model, Teacher};
use vstd::prelude::*;

verus! {

/// The prediction of a model of the given shape and coefficients for `features`,
/// where predictions are numbers.
pub open spec fn prediction_at<M: Model>(
    shape: M::Shape,
    coefficients: Seq<M::Scalar>,
    features: &M::Features,
) -> M::Scalar {
    M::predict_at(shape, coefficients, features)[0]
}

/// The derivative of the cost by the coefficient of index `index` (chain rule):
/// `outer`, the derivative of the cost by the prediction, times the derivative of
/// the prediction by that coefficient, taken at a model of the given shape and
/// coefficients.
pub open spec fn cost_gradient<M: Model>(
    outer: M::Scalar,
    shape: M::Shape,
    coefficients: Seq<M::Scalar>,
    index: int,
    features: &M::Features,
) -> M::Scalar {
    outer.mul_spec(M::gradient_at(shape, coefficients, index, features)[0])
}

/// Value of the gradient of the cost function by one coefficient, from the
/// derivative of the model by that coefficient.
fn gradient<S: Scalar, Y, C: Cost<Y, S>>(
    cost: &C,
    prediction: S,
    truth: Y,
    derivative_of_model: S,
) -> (g: S)
    ensures
        g == cost.outer_derivative_spec(prediction, truth).mul_spec(derivative_of_model),
{
    cost.outer_derivative(&prediction, truth).mul(derivative_of_model)
}

/// The coefficients after gradient descent at the given rate has gone through the
/// first `upto` of them, in order. Each is lowered by the rate times the derivative
/// of the cost by it, taken at the coefficients as they stand by then.
pub open spec fn descended<M: Model>(
    outer: M::Scalar,
    shape: M::Shape,
    features: &M::Features,
    rate: M::Scalar,
    coefficients: Seq<M::Scalar>,
    upto: nat,
) -> Seq<M::Scalar>
    decreases upto,
{
    if upto == 0 {
        coefficients
    } else {
        let i = upto - 1;
        let c = descended::<M>(outer, shape, features, rate, coefficients, i as nat);
        c.update(i, c[i].sub_spec(rate.mul_spec(cost_gradient::<M>(outer, shape, c, i, features))))
    }
}

/// The gradient of the cost as gradient descent at the given rate meets it: the
/// derivative of the cost by every coefficient, each taken at the coefficients as
/// they stand once the descent has gone through the coefficients before it.
pub open spec fn descent_gradients<M: Model>(
    outer: M::Scalar,
    shape: M::Shape,
    features: &M::Features,
    rate: M::Scalar,
    coefficients: Seq<M::Scalar>,
) -> Seq<M::Scalar> {
    Seq::new(
        coefficients.len(),
        |i: int|
            cost_gradient::<M>(
                outer,
                shape,
                descended::<M>(outer, shape, features, rate, coefficients, i as nat),
                i,
                features,
            ),
    )
}

/// The gradient has one entry for every coefficient, and gradient descent lowers
/// every coefficient that it has gone through by the rate times its entry of the
/// gradient, once, and leaves the others as they are.
pub proof fn lemma_descended_entry<M: Model>(
    outer: M::Scalar,
    shape: M::Shape,
    features: &M::Features,
    rate: M::Scalar,
    coefficients: Seq<M::Scalar>,
    upto: nat,
    index: int,
)
    requires
        upto <= coefficients.len(),
        0 <= index < coefficients.len(),
    ensures
        descent_gradients::<M>(outer, shape, features, rate, coefficients).len()
            == coefficients.len(),
        descended::<M>(outer, shape, features, rate, coefficients, upto).len()
            == coefficients.len(),
        descended::<M>(outer, shape, features, rate, coefficients, upto)[index] == if index
            < upto {
            coefficients[index].sub_spec(
                rate.mul_spec(
                    descent_gradients::<M>(outer, shape, features, rate, coefficients)[index],
                ),
            )
        } else {
            coefficients[index]
        },
    decreases upto,
{
    if upto > 0 {
        let before = (upto - 1) as nat;
        lemma_descended_entry::<M>(outer, shape, features, rate, coefficients, before, index);
        lemma_descended_entry::<M>(
            outer,
            shape,
            features,
            rate,
            coefficients,
            before,
            before as int,
        );
    }
}

/// The coefficients of a model of the given shape after one event of gradient
/// descent at the given rate. The prediction at which the cost is derived is made
/// once, from the coefficients before the event.
pub open spec fn descent<M: Model>(
    outer: spec_fn(M::Scalar) -> M::Scalar,
    shape: M::Shape,
    features: &M::Features,
    rate: M::Scalar,
    coefficients: Seq<M::Scalar>,
) -> Seq<M::Scalar> {
    descended::<M>(
        outer(prediction_at::<M>(shape, coefficients, features)),
        shape,
        features,
        rate,
        coefficients,
        coefficients.len(),
    )
}

/// Lowers every coefficient of `model`, in order, by `rate` times the derivative of
/// the cost by it.
fn descend<M, Y, C>(
    model: &mut M,
    cost: &C,
    prediction: M::Scalar,
    truth: Y,
    features: &M::Features,
    rate: M::Scalar,
) where M: Model<Target = <M as Model>::Scalar>, C: Cost<Y, M::Scalar>, Y: Copy
    requires
        old(model).valid(),
        M::accepts(old(model).shape(), old(model).coefficients().len(), features),
    ensures
        final(model).valid(),
        final(model).shape() == old(model).shape(),
        final(model).coefficients() == descended::<M>(
            cost.outer_derivative_spec(prediction, truth),
            old(model).shape(),
            features,
            rate,
            old(model).coefficients(),
            old(model).coefficients().len(),
        ),
        final(model).coefficients().len() == old(model).coefficients().len(),
{
    let n = model.num_coefficients();
    let mut ci: usize = 0;
    while ci < n
        invariant
            ci <= n,
            n == old(model).coefficients().len(),
            model.valid(),
            model.shape() == old(model).shape(),
            model.coefficients().len() == n,
            M::accepts(model.shape(), n as nat, features),
            model.coefficients() == descended::<M>(
                cost.outer_derivative_spec(prediction, truth),
                old(model).shape(),
                features,
                rate,
                old(model).coefficients(),
                ci as nat,
            ),
        decreases n - ci,
    {
        let slope = model.gradient(ci, features);
        assert(slope == slope.entries()[0]);
        let step = rate.mul(gradient(cost, prediction, truth, slope));
        let c = model.coefficient(ci);
        *c = c.sub(step);
        ci += 1;
    }
}

/// Gradient descent
///
/// Simplest possible implementation of gradient descent with fixed learning rate
pub struct GradientDescent<S> {
    /// Defines how fast the coefficients of the trained `Model` will change
    pub learning_rate: S,
}

impl<M> Teacher<M> for GradientDescent<M::Scalar> where
    M: Model<Target = <M as Model>::Scalar>,
 {
    type Training = ();

    open spec fn fresh(&self, training: &(), model: &M) -> bool {
        true
    }

    open spec fn fits(&self, training: &(), model: &M) -> bool {
        true
    }

    open spec fn capacity(&self, training: &()) -> nat {
        usize::MAX as nat
    }

    open spec fn taught(
        &self,
        before: ((), M),
        outer: spec_fn(M::Scalar) -> M::Scalar,
        features: &M::Features,
        after: ((), M),
    ) -> bool {
        &&& after.1.shape() == before.1.shape()
        &&& after.1.coefficients() == descent::<M>(
            outer,
            before.1.shape(),
            features,
            self.learning_rate,
            before.1.coefficients(),
        )
    }

    fn new_training(&self, model: &M) -> (training: ()) {
        ()
    }

    fn teach_event<Y, C>(
        &self,
        training: &mut (),
        model: &mut M,
        cost: &C,
        features: &M::Features,
        truth: Y,
    ) where C: Cost<Y, M::Scalar>, Y: Copy {
        let prediction = model.predict(features);
        assert(prediction == prediction.entries()[0]);
        descend(model, cost, prediction, truth, features, self.learning_rate);
    }
}

/// Gradient descent with annealing learning rate
///
/// For the event after `n` others the learning rate is `l0 / (1 + n / t)`.
pub struct GradientDescentAl<S> {
    /// Start learning rate
    pub l0: S,
    /// Smaller t will decrease the learning rate faster
    ///
    /// After t events the learning rate will be a half of `l0`, after two t events
    /// a third of `l0`, and so on.
    pub t: S,
}

impl<M> Teacher<M> for GradientDescentAl<M::Scalar> where
    M: Model<Target = <M as Model>::Scalar>,
 {
    /// The number of events taught so far.
    type Training = usize;

    open spec fn fresh(&self, training: &usize, model: &M) -> bool {
        *training == 0
    }

    open spec fn fits(&self, training: &usize, model: &M) -> bool {
        true
    }

    open spec fn capacity(&self, training: &usize) -> nat {
        (usize::MAX - *training) as nat
    }

    open spec fn taught(
        &self,
        before: (usize, M),
        outer: spec_fn(M::Scalar) -> M::Scalar,
        features: &M::Features,
        after: (usize, M),
    ) -> bool {
        &&& after.0 == before.0 + 1
        &&& after.1.shape() == before.1.shape()
        &&& after.1.coefficients() == descent::<M>(
            outer,
            before.1.shape(),
            features,
            annealed_rate(before.0 as nat, self.l0, self.t),
            before.1.coefficients(),
        )
    }

    fn new_training(&self, model: &M) -> (training: usize) {
        0
    }

    fn teach_event<Y, C>(
        &self,
        num_events: &mut usize,
        model: &mut M,
        cost: &C,
        features: &M::Features,
        truth: Y,
    ) where C: Cost<Y, M::Scalar>, Y: Copy {
        let prediction = model.predict(features);
        assert(prediction == prediction.entries()[0]);
        let learning_rate = annealed_learning_rate(*num_events, self.l0, self.t);
        descend(model, cost, prediction, truth, features, learning_rate);
        *num_events += 1;
    }
}

/// Returns a vector of `n` times `value`.
fn filled<S: Scalar>(n: usize, value: S) -> (v: Vec<S>)
    ensures
        v@ == Seq::new(n as nat, |i: int| value),
{
    let mut v: Vec<S> = Vec::with_capacity(n);
    let mut i: usize = 0;
    while i < n
        invariant
            i <= n,
            v@ == Seq::new(i as nat, |j: int| value),
        decreases n - i,
    {
        v.push(value);
        i += 1;
        assert(v@ =~= Seq::new(i as nat, |j: int| value));
    }
    v
}

/// The coefficients and their velocities after descent with momentum has gone
/// through the first `upto` coefficients, in order. The velocity of each becomes
/// `inertia` times what it was, less `rate` times the derivative of the cost by the
/// coefficient, taken at the coefficients as they stand by then; the coefficient
/// then moves by its new velocity.
pub open spec fn momentum_swept<M: Model>(
    outer: M::Scalar,
    shape: M::Shape,
    features: &M::Features,
    rate: M::Scalar,
    inertia: M::Scalar,
    coefficients: Seq<M::Scalar>,
    velocity: Seq<M::Scalar>,
    upto: nat,
) -> (Seq<M::Scalar>, Seq<M::Scalar>)
    decreases upto,
{
    if upto == 0 {
        (coefficients, velocity)
    } else {
        let i = upto - 1;
        let (c, v) = momentum_swept::<M>(
            outer,
            shape,
            features,
            rate,
            inertia,
            coefficients,
            velocity,
            i as nat,
        );
        let moved = inertia.mul_spec(v[i]).sub_spec(
            rate.mul_spec(cost_gradient::<M>(outer, shape, c, i, features)),
        );
        (c.update(i, c[i].add_spec(moved)), v.update(i, moved))
    }
}

/// The gradient of the cost as descent with momentum meets it: the derivative of the
/// cost by every coefficient, each taken at the coefficients as they stand once the
/// descent has gone through the coefficients before it.
pub open spec fn momentum_gradients<M: Model>(
    outer: M::Scalar,
    shape: M::Shape,
    features: &M::Features,
    rate: M::Scalar,
    inertia: M::Scalar,
    coefficients: Seq<M::Scalar>,
    velocity: Seq<M::Scalar>,
) -> Seq<M::Scalar> {
    Seq::new(
        coefficients.len(),
        |i: int|
            cost_gradient::<M>(
                outer,
                shape,
                momentum_swept::<M>(
                    outer,
                    shape,
                    features,
                    rate,
                    inertia,
                    coefficients,
                    velocity,
                    i as nat,
                ).0,
                i,
                features,
            ),
    )
}

/// The gradient has one entry for every coefficient, and so has the velocity, before
/// and after. The velocity of every coefficient that the descent has gone through
/// is `inertia` times what it was, less `rate` times its entry of the gradient, and
/// the coefficient is what it was plus that velocity; the others are as they were.
pub proof fn lemma_momentum_swept_entry<M: Model>(
    outer: M::Scalar,
    shape: M::Shape,
    features: &M::Features,
    rate: M::Scalar,
    inertia: M::Scalar,
    coefficients: Seq<M::Scalar>,
    velocity: Seq<M::Scalar>,
    upto: nat,
    index: int,
)
    requires
        upto <= coefficients.len(),
        velocity.len() == coefficients.len(),
        0 <= index < coefficients.len(),
    ensures
        ({
            let gradients = momentum_gradients::<M>(
                outer,
                shape,
                features,
                rate,
                inertia,
                coefficients,
                velocity,
            );
            let (c, v) = momentum_swept::<M>(
                outer,
                shape,
                features,
                rate,
                inertia,
                coefficients,
                velocity,
                upto,
            );
            &&& gradients.len() == coefficients.len()
            &&& c.len() == coefficients.len()
            &&& v.len() == coefficients.len()
            &&& v[index] == if index < upto {
                inertia.mul_spec(velocity[index]).sub_spec(rate.mul_spec(gradients[index]))
            } else {
                velocity[index]
            }
            &&& c[index] == if index < upto {
                coefficients[index].add_spec(v[index])
            } else {
                coefficients[index]
            }
        }),
    decreases upto,
{
    if upto > 0 {
        let before = (upto - 1) as nat;
        lemma_momentum_swept_entry::<M>(
            outer,
            shape,
            features,
            rate,
            inertia,
            coefficients,
            velocity,
            before,
            index,
        );
        lemma_momentum_swept_entry::<M>(
            outer,
            shape,
            features,
            rate,
            inertia,
            coefficients,
            velocity,
            before,
            before as int,
        );
    }
}

/// Gradient descent with annealing learning rate and momentum
///
/// For the event after `n` others the learning rate is `l0 / (1 + n / t)`.
pub struct Momentum<S> {
    /// Start learning rate
    pub l0: S,
    /// Smaller t will decrease the learning rate faster
    ///
    /// After t events the learning rate will be a half of `l0`, after two t events
    /// a third of `l0`, and so on.
    pub t: S,
    /// To simulate friction, please select a value smaller than 1 (recommended)
    pub inertia: S,
}

impl<M> Teacher<M> for Momentum<M::Scalar> where M: Model<Target = <M as Model>::Scalar> {
    /// The number of events taught so far, and the velocity of each coefficient.
    type Training = (usize, Vec<M::Scalar>);

    open spec fn fresh(&self, training: &(usize, Vec<M::Scalar>), model: &M) -> bool {
        &&& training.0 == 0
        &&& training.1@ == zeros::<M::Scalar>(model.coefficients().len())
    }

    open spec fn fits(&self, training: &(usize, Vec<M::Scalar>), model: &M) -> bool {
        training.1@.len() == model.coefficients().len()
    }

    open spec fn capacity(&self, training: &(usize, Vec<M::Scalar>)) -> nat {
        (usize::MAX - training.0) as nat
    }

    open spec fn taught(
        &self,
        before: ((usize, Vec<M::Scalar>), M),
        outer: spec_fn(M::Scalar) -> M::Scalar,
        features: &M::Features,
        after: ((usize, Vec<M::Scalar>), M),
    ) -> bool {
        let shape = before.1.shape();
        let coefficients = before.1.coefficients();
        &&& after.0.0 == before.0.0 + 1
        &&& after.1.shape() == shape
        &&& (after.1.coefficients(), after.0.1@) == momentum_swept::<M>(
            outer(prediction_at::<M>(shape, coefficients, features)),
            shape,
            features,
            annealed_rate(before.0.0 as nat, self.l0, self.t),
            self.inertia,
            coefficients,
            before.0.1@,
            coefficients.len(),
        )
    }

    fn new_training(&self, model: &M) -> (training: (usize, Vec<M::Scalar>)) {
        let velocity = filled(model.num_coefficients(), M::Scalar::from_count(0));
        assert(velocity@ =~= zeros::<M::Scalar>(model.coefficients().len()));
        (0, velocity)
    }

    fn teach_event<Y, C>(
        &self,
        training: &mut (usize, Vec<M::Scalar>),
        model: &mut M,
        cost: &C,
        features: &M::Features,
        truth: Y,
    ) where C: Cost<Y, M::Scalar>, Y: Copy {
        let prediction = model.predict(features);
        assert(prediction == prediction.entries()[0]);
        let learning_rate = annealed_learning_rate(training.0, self.l0, self.t);
        let ghost outer = cost.outer_derivative_spec(prediction, truth);
        let n = model.num_coefficients();
        let mut ci: usize = 0;
        while ci < n
            invariant
                ci <= n,
                n == old(model).coefficients().len(),
                model.valid(),
                model.shape() == old(model).shape(),
                model.coefficients().len() == n,
                training.1@.len() == n,
                training.0 == old(training).0,
                M::accepts(model.shape(), n as nat, features),
                outer == cost.outer_derivative_spec(prediction, truth),
                (model.coefficients(), training.1@) == momentum_swept::<M>(
                    outer,
                    old(model).shape(),
                    features,
                    learning_rate,
                    self.inertia,
                    old(model).coefficients(),
                    old(training).1@,
                    ci as nat,
                ),
            decreases n - ci,
        {
            let slope = model.gradient(ci, features);
            assert(slope == slope.entries()[0]);
            let moved = self.inertia.mul(training.1[ci]).sub(
                learning_rate.mul(gradient(cost, prediction, truth, slope)),
            );
            training.1[ci] = moved;
            let c = model.coefficient(ci);
            *c = c.add(moved);
            ci += 1;
        }
        training.0 += 1;
    }
}

/// The coefficients after the velocity of each of the first `upto` has been added
/// to it.
pub open spec fn advanced<S: Scalar>(coefficients: Seq<S>, velocity: Seq<S>, upto: nat) -> Seq<S>
    decreases upto,
{
    if upto == 0 {
        coefficients
    } else {
        let i = upto - 1;
        let c = advanced(coefficients, velocity, i as nat);
        c.update(i, c[i].add_spec(velocity[i]))
    }
}

/// The coefficients and their velocities after the second pass of Nesterov's
/// descent has gone through the first `upto` coefficients, in order. Each
/// coefficient moves by minus `rate` times the derivative of the cost by it, taken
/// at the coefficients as they stand by then; its velocity becomes `inertia` times
/// what it was, plus that move.
pub open spec fn nesterov_swept<M: Model>(
    outer: M::Scalar,
    shape: M::Shape,
    features: &M::Features,
    rate: M::Scalar,
    inertia: M::Scalar,
    coefficients: Seq<M::Scalar>,
    velocity: Seq<M::Scalar>,
    upto: nat,
) -> (Seq<M::Scalar>, Seq<M::Scalar>)
    decreases upto,
{
    if upto == 0 {
        (coefficients, velocity)
    } else {
        let i = upto - 1;
        let (c, v) = nesterov_swept::<M>(
            outer,
            shape,
            features,
            rate,
            inertia,
            coefficients,
            velocity,
            i as nat,
        );
        let delta = rate.neg_spec().mul_spec(cost_gradient::<M>(outer, shape, c, i, features));
        (c.update(i, c[i].add_spec(delta)), v.update(i, inertia.mul_spec(v[i]).add_spec(delta)))
    }
}

/// Looking ahead adds to every coefficient gone through its velocity, once, and
/// leaves the others as they are.
pub proof fn lemma_advanced_entry<S: Scalar>(
    coefficients: Seq<S>,
    velocity: Seq<S>,
    upto: nat,
    index: int,
)
    requires
        upto <= coefficients.len(),
        0 <= index < coefficients.len(),
    ensures
        advanced(coefficients, velocity, upto).len() == coefficients.len(),
        advanced(coefficients, velocity, upto)[index] == if index < upto {
            coefficients[index].add_spec(velocity[index])
        } else {
            coefficients[index]
        },
    decreases upto,
{
    if upto > 0 {
        let before = (upto - 1) as nat;
        lemma_advanced_entry(coefficients, velocity, before, index);
        lemma_advanced_entry(coefficients, velocity, before, before as int);
    }
}

/// The gradient of the cost as the second pass of Nesterov's descent meets it: the
/// derivative of the cost by every coefficient, each taken at the coefficients as
/// they stand once the pass has gone through the coefficients before it.
pub open spec fn nesterov_gradients<M: Model>(
    outer: M::Scalar,
    shape: M::Shape,
    features: &M::Features,
    rate: M::Scalar,
    inertia: M::Scalar,
    coefficients: Seq<M::Scalar>,
    velocity: Seq<M::Scalar>,
) -> Seq<M::Scalar> {
    Seq::new(
        coefficients.len(),
        |i: int|
            cost_gradient::<M>(
                outer,
                shape,
                nesterov_swept::<M>(
                    outer,
                    shape,
                    features,
                    rate,
                    inertia,
                    coefficients,
                    velocity,
                    i as nat,
                ).0,
                i,
                features,
            ),
    )
}

/// The gradient has one entry for every coefficient, and so has the velocity, before
/// and after. Every coefficient that the second pass has gone through has moved by
/// minus `rate` times its entry of the gradient, and its velocity is `inertia` times
/// what it was plus that move; the others are as they were.
pub proof fn lemma_nesterov_swept_entry<M: Model>(
    outer: M::Scalar,
    shape: M::Shape,
    features: &M::Features,
    rate: M::Scalar,
    inertia: M::Scalar,
    coefficients: Seq<M::Scalar>,
    velocity: Seq<M::Scalar>,
    upto: nat,
    index: int,
)
    requires
        upto <= coefficients.len(),
        velocity.len() == coefficients.len(),
        0 <= index < coefficients.len(),
    ensures
        ({
            let gradients = nesterov_gradients::<M>(
                outer,
                shape,
                features,
                rate,
                inertia,
                coefficients,
                velocity,
            );
            let (c, v) = nesterov_swept::<M>(
                outer,
                shape,
                features,
                rate,
                inertia,
                coefficients,
                velocity,
                upto,
            );
            let delta = rate.neg_spec().mul_spec(gradients[index]);
            &&& gradients.len() == coefficients.len()
            &&& c.len() == coefficients.len()
            &&& v.len() == coefficients.len()
            &&& c[index] == if index < upto {
                coefficients[index].add_spec(delta)
            } else {
                coefficients[index]
            }
            &&& v[index] == if index < upto {
                inertia.mul_spec(velocity[index]).add_spec(delta)
            } else {
                velocity[index]
            }
        }),
    decreases upto,
{
    if upto > 0 {
        let before = (upto - 1) as nat;
        lemma_nesterov_swept_entry::<M>(
            outer,
            shape,
            features,
            rate,
            inertia,
            coefficients,
            velocity,
            before,
            index,
        );
        lemma_nesterov_swept_entry::<M>(
            outer,
            shape,
            features,
            rate,
            inertia,
            coefficients,
            velocity,
            before,
            before as int,
        );
    }
}

/// Nesterov accelerated gradient descent
///
/// An event is taught in two passes over the coefficients. The first moves every
/// coefficient by the velocity it has. The second moves each by minus the learning
/// rate times the derivative of the cost by it, and blends that move into its
/// velocity. The cost is derived at the prediction made before the first pass; the
/// prediction is derived by a coefficient as the model stands when the second pass
/// comes to that coefficient.
pub struct Nesterov<S> {
    /// Start learning rate
    pub l0: S,
    /// Smaller t will decrease the learning rate faster
    ///
    /// After t events the learning rate will be a half of `l0`, after two t events
    /// a third of `l0`, and so on.
    pub t: S,
    /// To simulate friction, please select a value smaller than 1 (recommended)
    pub inertia: S,
}

impl<M> Teacher<M> for Nesterov<M::Scalar> where M: Model<Target = <M as Model>::Scalar> {
    /// The number of events taught so far, and the velocity of each coefficient.
    type Training = (usize, Vec<M::Scalar>);

    open spec fn fresh(&self, training: &(usize, Vec<M::Scalar>), model: &M) -> bool {
        &&& training.0 == 0
        &&& training.1@ == zeros::<M::Scalar>(model.coefficients().len())
    }

    open spec fn fits(&self, training: &(usize, Vec<M::Scalar>), model: &M) -> bool {
        training.1@.len() == model.coefficients().len()
    }

    open spec fn capacity(&self, training: &(usize, Vec<M::Scalar>)) -> nat {
        (usize::MAX - training.0) as nat
    }

    open spec fn taught(
        &self,
        before: ((usize, Vec<M::Scalar>), M),
        outer: spec_fn(M::Scalar) -> M::Scalar,
        features: &M::Features,
        after: ((usize, Vec<M::Scalar>), M),
    ) -> bool {
        let shape = before.1.shape();
        let coefficients = before.1.coefficients();
        &&& after.0.0 == before.0.0 + 1
        &&& after.1.shape() == shape
        &&& (after.1.coefficients(), after.0.1@) == nesterov_swept::<M>(
            outer(prediction_at::<M>(shape, coefficients, features)),
            shape,
            features,
            annealed_rate(before.0.0 as nat, self.l0, self.t),
            self.inertia,
            advanced(coefficients, before.0.1@, coefficients.len()),
            before.0.1@,
            coefficients.len(),
        )
    }

    fn new_training(&self, model: &M) -> (training: (usize, Vec<M::Scalar>)) {
        let velocity = filled(model.num_coefficients(), M::Scalar::from_count(0));
        assert(velocity@ =~= zeros::<M::Scalar>(model.coefficients().len()));
        (0, velocity)
    }

    fn teach_event<Y, C>(
        &self,
        training: &mut (usize, Vec<M::Scalar>),
        model: &mut M,
        cost: &C,
        features: &M::Features,
        truth: Y,
    ) where C: Cost<Y, M::Scalar>, Y: Copy {
        let prediction = model.predict(features);
        assert(prediction == prediction.entries()[0]);
        let learning_rate = annealed_learning_rate(training.0, self.l0, self.t);
        let ghost outer = cost.outer_derivative_spec(prediction, truth);
        let n = model.num_coefficients();
        let mut ci: usize = 0;
        while ci < n
            invariant
                ci <= n,
                n == old(model).coefficients().len(),
                model.valid(),
                model.shape() == old(model).shape(),
                model.coefficients().len() == n,
                *training == *old(training),
                training.1@.len() == n,
                model.coefficients() == advanced(
                    old(model).coefficients(),
                    old(training).1@,
                    ci as nat,
                ),
            decreases n - ci,
        {
            let velocity = training.1[ci];
            let c = model.coefficient(ci);
            *c = c.add(velocity);
            ci += 1;
        }
        let ghost ahead = model.coefficients();
        let mut ci: usize = 0;
        while ci < n
            invariant
                ci <= n,
                n == old(model).coefficients().len(),
                model.valid(),
                model.shape() == old(model).shape(),
                model.coefficients().len() == n,
                training.1@.len() == n,
                training.0 == old(training).0,
                M::accepts(model.shape(), n as nat, features),
                outer == cost.outer_derivative_spec(prediction, truth),
                (model.coefficients(), training.1@) == nesterov_swept::<M>(
                    outer,
                    old(model).shape(),
                    features,
                    learning_rate,
                    self.inertia,
                    ahead,
                    old(training).1@,
                    ci as nat,
                ),
            decreases n - ci,
        {
            let slope = model.gradient(ci, features);
            assert(slope == slope.entries()[0]);
            let delta = learning_rate.neg().mul(gradient(cost, prediction, truth, slope));
            let c = model.coefficient(ci);
            *c = c.add(delta);
            training.1[ci] = self.inertia.mul(training.1[ci]).add(delta);
            ci += 1;
        }
        training.0 += 1;
    }
}

/// The coefficients and the sums of squared gradients after Adagrad has gone
/// through the first `upto` coefficients, in order. Each coefficient moves by minus
/// `rate` times the derivative of the cost by it, taken at the coefficients as they
/// stand by then, over the square root of the sum kept for it; the square of that
/// derivative is then added to the sum.
pub open spec fn adagrad_swept<M: Model>(
    outer: M::Scalar,
    shape: M::Shape,
    features: &M::Features,
    rate: M::Scalar,
    coefficients: Seq<M::Scalar>,
    squares: Seq<M::Scalar>,
    upto: nat,
) -> (Seq<M::Scalar>, Seq<M::Scalar>)
    decreases upto,
{
    if upto == 0 {
        (coefficients, squares)
    } else {
        let i = upto - 1;
        let (c, s) = adagrad_swept::<M>(
            outer,
            shape,
            features,
            rate,
            coefficients,
            squares,
            i as nat,
        );
        let g = cost_gradient::<M>(outer, shape, c, i, features);
        let delta = rate.neg_spec().mul_spec(g).div_spec(s[i].sqrt_spec());
        (c.update(i, c[i].add_spec(delta)), s.update(i, s[i].add_spec(g.mul_spec(g))))
    }
}

/// The gradient of the cost as Adagrad meets it: the derivative of the cost by every
/// coefficient, each taken at the coefficients as they stand once Adagrad has gone
/// through the coefficients before it.
pub open spec fn adagrad_gradients<M: Model>(
    outer: M::Scalar,
    shape: M::Shape,
    features: &M::Features,
    rate: M::Scalar,
    coefficients: Seq<M::Scalar>,
    squares: Seq<M::Scalar>,
) -> Seq<M::Scalar> {
    Seq::new(
        coefficients.len(),
        |i: int|
            cost_gradient::<M>(
                outer,
                shape,
                adagrad_swept::<M>(
                    outer,
                    shape,
                    features,
                    rate,
                    coefficients,
                    squares,
                    i as nat,
                ).0,
                i,
                features,
            ),
    )
}

/// The gradient has one entry for every coefficient, and so have the sums of
/// squares, before and after. Every coefficient that Adagrad has gone through has
/// moved by minus `rate` times its entry of the gradient over the square root of
/// the sum that was kept for it, and the square of the entry has been added to that
/// sum; the others are as they were.
pub proof fn lemma_adagrad_swept_entry<M: Model>(
    outer: M::Scalar,
    shape: M::Shape,
    features: &M::Features,
    rate: M::Scalar,
    coefficients: Seq<M::Scalar>,
    squares: Seq<M::Scalar>,
    upto: nat,
    index: int,
)
    requires
        upto <= coefficients.len(),
        squares.len() == coefficients.len(),
        0 <= index < coefficients.len(),
    ensures
        ({
            let gradients = adagrad_gradients::<M>(
                outer,
                shape,
                features,
                rate,
                coefficients,
                squares,
            );
            let (c, s) = adagrad_swept::<M>(
                outer,
                shape,
                features,
                rate,
                coefficients,
                squares,
                upto,
            );
            &&& gradients.len() == coefficients.len()
            &&& c.len() == coefficients.len()
            &&& s.len() == coefficients.len()
            &&& c[index] == if index < upto {
                coefficients[index].add_spec(
                    rate.neg_spec().mul_spec(gradients[index]).div_spec(
                        squares[index].sqrt_spec(),
                    ),
                )
            } else {
                coefficients[index]
            }
            &&& s[index] == if index < upto {
                squares[index].add_spec(gradients[index].mul_spec(gradients[index]))
            } else {
                squares[index]
            }
        }),
    decreases upto,
{
    if upto > 0 {
        let before = (upto - 1) as nat;
        lemma_adagrad_swept_entry::<M>(
            outer,
            shape,
            features,
            rate,
            coefficients,
            squares,
            before,
            index,
        );
        lemma_adagrad_swept_entry::<M>(
            outer,
            shape,
            features,
            rate,
            coefficients,
            squares,
            before,
            before as int,
        );
    }
}

/// Adagard learning algorithm
///
/// Adagard divides the learning rate through the square root of the square sum of
/// gradients for each coefficient. In effect the learning rate is smaller for
/// frequent and larger for infrequent features.
pub struct Adagard<S> {
    /// The larger this parameter is, the more the coefficients will change with each iteration
    pub learning_rate: S,
    /// Small smoothing term, to avoid division by zero in first iteration
    pub epsilon: S,
}

impl<M> Teacher<M> for Adagard<M::Scalar> where M: Model<Target = <M as Model>::Scalar> {
    /// The sum of the squared gradients of each coefficient, begun at `epsilon`.
    type Training = Vec<M::Scalar>;

    open spec fn fresh(&self, training: &Vec<M::Scalar>, model: &M) -> bool {
        training@ == Seq::new(model.coefficients().len(), |i: int| self.epsilon)
    }

    open spec fn fits(&self, training: &Vec<M::Scalar>, model: &M) -> bool {
        training@.len() == model.coefficients().len()
    }

    open spec fn capacity(&self, training: &Vec<M::Scalar>) -> nat {
        usize::MAX as nat
    }

    open spec fn taught(
        &self,
        before: (Vec<M::Scalar>, M),
        outer: spec_fn(M::Scalar) -> M::Scalar,
        features: &M::Features,
        after: (Vec<M::Scalar>, M),
    ) -> bool {
        let shape = before.1.shape();
        let coefficients = before.1.coefficients();
        &&& after.1.shape() == shape
        &&& (after.1.coefficients(), after.0@) == adagrad_swept::<M>(
            outer(prediction_at::<M>(shape, coefficients, features)),
            shape,
            features,
            self.learning_rate,
            coefficients,
            before.0@,
            coefficients.len(),
        )
    }

    fn new_training(&self, model: &M) -> (training: Vec<M::Scalar>) {
        filled(model.num_coefficients(), self.epsilon)
    }

    fn teach_event<Y, C>(
        &self,
        squared_gradients: &mut Vec<M::Scalar>,
        model: &mut M,
        cost: &C,
        features: &M::Features,
        truth: Y,
    ) where C: Cost<Y, M::Scalar>, Y: Copy {
        let prediction = model.predict(features);
        assert(prediction == prediction.entries()[0]);
        let ghost outer = cost.outer_derivative_spec(prediction, truth);
        let n = model.num_coefficients();
        let mut ci: usize = 0;
        while ci < n
            invariant
                ci <= n,
                n == old(model).coefficients().len(),
                model.valid(),
                model.shape() == old(model).shape(),
                model.coefficients().len() == n,
                squared_gradients@.len() == n,
                M::accepts(model.shape(), n as nat, features),
                outer == cost.outer_derivative_spec(prediction, truth),
                (model.coefficients(), squared_gradients@) == adagrad_swept::<M>(
                    outer,
                    old(model).shape(),
                    features,
                    self.learning_rate,
                    old(model).coefficients(),
                    old(squared_gradients)@,
                    ci as nat,
                ),
            decreases n - ci,
        {
            let slope = model.gradient(ci, features);
            assert(slope == slope.entries()[0]);
            let gradient = gradient(cost, prediction, truth, slope);
            let delta = self.learning_rate.neg().mul(gradient).div(squared_gradients[ci].sqrt());
            let c = model.coefficient(ci);
            *c = c.add(delta);
            squared_gradients[ci] = squared_gradients[ci].add(gradient.mul(gradient));
            ci += 1;
        }
    }
}

} // verus!
