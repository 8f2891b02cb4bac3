//! The learning rate that teachers share.
use crate::scalar::{one, Scalar};
use vstd::prelude::*;

verus! {

/// The learning rate after `num_events` events: `start / (1 + num_events / t)`.
///
/// It is `start` at first, half of it after `t` events, a third of it after twice
/// `t` events, and so on.
pub open spec fn annealed_rate<S: Scalar>(num_events: nat, start: S, t: S) -> S {
    start.div_spec(one::<S>().add_spec(S::count_spec(num_events).div_spec(t)))
}

/// Calculates annealed learning rate
///
/// Smaller `t` will decrease the learning rate faster
pub fn annealed_learning_rate<S: Scalar>(num_events: usize, start: S, t: S) -> (rate: S)
    ensures
        rate == annealed_rate(num_events as nat, start, t),
{
    start.div(S::from_count(1).add(S::from_count(num_events).div(t)))
}

} // verus!
