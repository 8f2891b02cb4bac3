//! Online supervised learning: models, cost functions and the teachers that fit one
//! to the other, event by event.
//!
//! A [`Model`] predicts a target from features and a handful of coefficients, a
//! [`Cost`] says how far a prediction is off the truth, and a [`Teacher`] changes the
//! coefficients after every event so that the cost gets smaller. Any model goes with
//! any cost and any teacher. [`learn_history`] takes a model through a whole history
//! of events.
//!
//! The library does no arithmetic of its own. It computes with the numbers of a type
//! that its user chooses, through [`scalar::Scalar`], and its contracts say which
//! operations it applies to which numbers in which order: what comes of that is what
//! the numbers make of it.
//!
//! The specification functions of the traits here have a body that says nothing
//! (`arbitrary()`): an implementation in verified code gives them the meaning that
//! its methods are then held to, and one outside verified code leaves them alone.
use crate::linear_algebra::Vector;
use crate::scalar::Scalar;
use vstd::prelude::*;
use vstd::std_specs::iter::IteratorSpec;

pub mod array;
pub mod cost;
pub mod crisp;
pub mod linear_algebra;
pub mod model;
pub mod scalar;
pub mod teacher;
pub mod training;

verus! {

/// A predictor with adjustable coefficients.
///
/// A model is its coefficients and its shape: whatever else the predictions depend
/// on, which teaching leaves alone. What a model predicts and how the prediction
/// responds to each coefficient are functions of shape, coefficients and features,
/// so that a contract can speak of the model as it stood between two updates.
pub trait Model {
    /// The type of the coefficients.
    type Scalar: Scalar;

    /// The input from which a target is predicted.
    type Features;

    /// The prediction: a number for regressors and binary classifiers, a vector with
    /// one entry a class for classifiers of several classes.
    type Target: Vector<Scalar = Self::Scalar>;

    /// What the model holds besides its coefficients.
    type Shape;

    /// Whether the model can be used at all.
    open spec fn valid(&self) -> bool {
        arbitrary()
    }

    /// The shape of the model.
    open spec fn shape(&self) -> Self::Shape {
        arbitrary()
    }

    /// The coefficients, by index.
    open spec fn coefficients(&self) -> Seq<Self::Scalar> {
        arbitrary()
    }

    /// Whether a model of the given shape and the given number of coefficients can
    /// take `features`.
    open spec fn accepts(shape: Self::Shape, count: nat, features: &Self::Features) -> bool {
        arbitrary()
    }

    /// The entries of the target that a model of the given shape and coefficients
    /// predicts for `features`.
    open spec fn predict_at(
        shape: Self::Shape,
        coefficients: Seq<Self::Scalar>,
        features: &Self::Features,
    ) -> Seq<Self::Scalar> {
        arbitrary()
    }

    /// The entries of the derivative of the prediction by the coefficient of index
    /// `coefficient`, for a model of the given shape and coefficients at `features`.
    open spec fn gradient_at(
        shape: Self::Shape,
        coefficients: Seq<Self::Scalar>,
        coefficient: int,
        features: &Self::Features,
    ) -> Seq<Self::Scalar> {
        arbitrary()
    }

    /// The number of coefficients, which never changes.
    fn num_coefficients(&self) -> (n: usize)
        requires
            self.valid(),
        ensures
            n == self.coefficients().len(),
    ;

    /// Mutable access to the coefficient of index `coefficient`.
    fn coefficient(&mut self, coefficient: usize) -> (c: &mut Self::Scalar)
        requires
            old(self).valid(),
            coefficient < old(self).coefficients().len(),
        ensures
            *c == old(self).coefficients()[coefficient as int],
            final(self).coefficients() == old(self).coefficients().update(
                coefficient as int,
                *final(c),
            ),
            final(self).shape() == old(self).shape(),
            final(self).valid(),
    ;

    /// Predicts the target for `features`.
    fn predict(&self, features: &Self::Features) -> (y: Self::Target)
        requires
            self.valid(),
            Self::accepts(self.shape(), self.coefficients().len(), features),
        ensures
            y.entries() == Self::predict_at(self.shape(), self.coefficients(), features),
    ;

    /// The derivative of the prediction for `features` by the coefficient of index
    /// `coefficient`.
    fn gradient(&self, coefficient: usize, features: &Self::Features) -> (d: Self::Target)
        requires
            self.valid(),
            coefficient < self.coefficients().len(),
            Self::accepts(self.shape(), self.coefficients().len(), features),
        ensures
            d.entries() == Self::gradient_at(
                self.shape(),
                self.coefficients(),
                coefficient as int,
                features,
            ),
    ;
}

/// A cost function, whose value the training is meant to make small.
///
/// `Truth` is what was observed, `Target` the type of the predictions that are held
/// against it.
pub trait Cost<Truth, Target> {
    /// The derivative of the cost by the prediction.
    open spec fn outer_derivative_spec(&self, prediction: Target, truth: Truth) -> Target {
        arbitrary()
    }

    /// The value of the cost.
    open spec fn cost_spec(&self, prediction: Target, truth: Truth) -> Target {
        arbitrary()
    }

    /// The outer derivative of the cost function with respect to the prediction.
    fn outer_derivative(&self, prediction: &Target, truth: Truth) -> (d: Target)
        ensures
            d == self.outer_derivative_spec(*prediction, truth),
    ;

    /// Value of the cost function.
    fn cost(&self, prediction: Target, truth: Truth) -> (c: Target)
        ensures
            c == self.cost_spec(prediction, truth),
    ;
}

/// The derivative of `cost` by the prediction, as a function of the prediction, for
/// an event whose truth is `truth`.
pub open spec fn outer_derivative_for<Truth, Target, C: Cost<Truth, Target>>(
    cost: &C,
    truth: Truth,
) -> spec_fn(Target) -> Target {
    |prediction: Target| cost.outer_derivative_spec(prediction, truth)
}

/// An algorithm that adapts the coefficients of a model, one event at a time.
///
/// What changes during a run besides the model is kept in a training state, which
/// the teacher makes for the model and then takes along from event to event.
pub trait Teacher<M: Model> {
    /// Contains state which changes during the training, but is not part of the expertise
    type Training;

    /// Whether `training` is the state that a run on `model` starts from.
    open spec fn fresh(&self, training: &Self::Training, model: &M) -> bool {
        arbitrary()
    }

    /// Whether `training` is a state for `model`: whether what it keeps for every
    /// coefficient is there for every coefficient of `model`.
    open spec fn fits(&self, training: &Self::Training, model: &M) -> bool {
        arbitrary()
    }

    /// The number of events that `training` can still count.
    open spec fn capacity(&self, training: &Self::Training) -> nat {
        arbitrary()
    }

    /// Whether teaching an event with the given features leads from the training
    /// state and model `before` to the training state and model `after`, where
    /// `outer` is the derivative of the cost by the prediction, as a function of the
    /// prediction, for the truth of the event.
    open spec fn taught(
        &self,
        before: (Self::Training, M),
        outer: spec_fn(M::Target) -> M::Target,
        features: &M::Features,
        after: (Self::Training, M),
    ) -> bool {
        arbitrary()
    }

    /// Creates an instance holding all mutable state of the algorithm
    fn new_training(&self, model: &M) -> (training: Self::Training)
        requires
            model.valid(),
        ensures
            self.fresh(&training, model),
            self.fits(&training, model),
            self.capacity(&training) == usize::MAX,
    ;

    /// Changes `model`s coefficients so they minimize the `cost` function (hopefully)
    fn teach_event<Y, C>(
        &self,
        training: &mut Self::Training,
        model: &mut M,
        cost: &C,
        features: &M::Features,
        truth: Y,
    ) where C: Cost<Y, M::Target>, Y: Copy
        requires
            old(model).valid(),
            M::accepts(old(model).shape(), old(model).coefficients().len(), features),
            self.fits(old(training), old(model)),
            self.capacity(old(training)) >= 1,
        ensures
            final(model).valid(),
            final(model).shape() == old(model).shape(),
            final(model).coefficients().len() == old(model).coefficients().len(),
            self.fits(final(training), final(model)),
            self.capacity(final(training)) >= self.capacity(old(training)) - 1,
            self.taught(
                (*old(training), *old(model)),
                outer_derivative_for(cost, truth),
                features,
                (*final(training), *final(model)),
            ),
    ;
}

/// Turns a prediction into a decision of the type of the truth it was trained on.
pub trait Crisp {
    /// The crisp type of the prediction.
    type Truth;

    /// The decision.
    open spec fn crisp_spec(&self) -> Self::Truth {
        arbitrary()
    }

    /// Return crisp prediction
    fn crisp(&self) -> (truth: Self::Truth)
        ensures
            truth == self.crisp_spec(),
    ;
}

/// Whether teaching `events` in order, each under `cost`, leads from the training
/// state and model `before` to the training state and model `after`.
pub open spec fn learned<M, C, T, Truth>(
    teacher: &T,
    cost: &C,
    before: (T::Training, M),
    events: Seq<(M::Features, Truth)>,
    after: (T::Training, M),
) -> bool where M: Model, C: Cost<Truth, M::Target>, T: Teacher<M>
    decreases events.len(),
{
    if events.len() == 0 {
        after == before
    } else {
        exists|between: (T::Training, M)|
            {
                &&& learned(teacher, cost, before, events.drop_last(), between)
                &&& #[trigger] teacher.taught(
                    between,
                    outer_derivative_for(cost, events.last().1),
                    &events.last().0,
                    after,
                )
            }
    }
}

/// Teaching one more event after others is teaching them all.
pub proof fn lemma_learned_one_more<M, C, T, Truth>(
    teacher: &T,
    cost: &C,
    before: (T::Training, M),
    events: Seq<(M::Features, Truth)>,
    between: (T::Training, M),
    after: (T::Training, M),
) where M: Model, C: Cost<Truth, M::Target>, T: Teacher<M>
    requires
        events.len() > 0,
        learned(teacher, cost, before, events.drop_last(), between),
        teacher.taught(
            between,
            outer_derivative_for(cost, events.last().1),
            &events.last().0,
            after,
        ),
    ensures
        learned(teacher, cost, before, events, after),
{
}

/// Teaches `model` all events in `history`
///
/// One training state is made for the model, and every event that `history` yields
/// is taught with it, in the order in which it comes and as it comes, until there is
/// none left.
pub fn learn_history<M, C, T, H, Truth>(teacher: &T, cost: &C, model: &mut M, history: H) where
    M: Model,
    C: Cost<Truth, M::Target>,
    T: Teacher<M>,
    H: Iterator<Item = (M::Features, Truth)>,
    Truth: Copy,

    requires
        old(model).valid(),
        history.obeys_prophetic_iter_laws(),
        history.decrease() is Some,
        history.remaining().len() <= usize::MAX,
        forall|i: int|
            0 <= i < history.remaining().len() ==> M::accepts(
                old(model).shape(),
                old(model).coefficients().len(),
                &(#[trigger] history.remaining()[i]).0,
            ),
    ensures
        final(model).valid(),
        final(model).shape() == old(model).shape(),
        final(model).coefficients().len() == old(model).coefficients().len(),
        exists|begun: T::Training, ended: T::Training|
            {
                &&& teacher.fresh(&begun, old(model))
                &&& #[trigger] learned(
                    teacher,
                    cost,
                    (begun, *old(model)),
                    history.remaining(),
                    (ended, *final(model)),
                )
            },
{
    let mut history = history;
    let ghost events = history.remaining();
    let mut training = teacher.new_training(model);
    let ghost begun = training;
    let ghost mut done: nat = 0;
    loop
        invariant
            history.obeys_prophetic_iter_laws(),
            history.decrease() is Some,
            done <= events.len() <= usize::MAX,
            history.remaining() == events.skip(done as int),
            model.valid(),
            model.shape() == old(model).shape(),
            model.coefficients().len() == old(model).coefficients().len(),
            forall|i: int|
                0 <= i < events.len() ==> M::accepts(
                    old(model).shape(),
                    old(model).coefficients().len(),
                    &(#[trigger] events[i]).0,
                ),
            teacher.fits(&training, model),
            teacher.capacity(&training) >= usize::MAX - done,
            learned(teacher, cost, (begun, *old(model)), events.take(done as int), (training, *model)),
        ensures
            done == events.len(),
            model.valid(),
            model.shape() == old(model).shape(),
            model.coefficients().len() == old(model).coefficients().len(),
            learned(teacher, cost, (begun, *old(model)), events.take(done as int), (training, *model)),
        decreases history.decrease()->0,
    {
        let ghost between = (training, *model);
        match history.next() {
            Some((features, truth)) => {
                assert(events[done as int] == (features, truth));
                teacher.teach_event(&mut training, model, cost, &features, truth);
                proof {
                    let taken = events.take((done + 1) as int);
                    assert(taken.drop_last() =~= events.take(done as int));
                    assert(taken.last() == events[done as int]);
                    lemma_learned_one_more(
                        teacher,
                        cost,
                        (begun, *old(model)),
                        taken,
                        between,
                        (training, *model),
                    );
                    done = done + 1;
                }
            },
            None => {
                break ;
            },
        }
    }
    assert(events.take(done as int) =~= events);
}

} // verus!
