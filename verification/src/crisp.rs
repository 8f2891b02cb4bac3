//! Decisions from predictions: a label from a probability, a class from a score for
//! each class.
use crate::scalar::{one, two, Scalar};
use crate::Crisp;
use vstd::prelude::*;

verus! {

/// The threshold above which a probability counts as a yes: one half.
pub open spec fn threshold<S: Scalar>() -> S {
    one::<S>().div_spec(two::<S>())
}

/// A probability is a yes if it is above one half.
impl<S: Scalar> Crisp for S {
    type Truth = bool;

    open spec fn crisp_spec(&self) -> bool {
        threshold::<S>().lt_spec(*self)
    }

    fn crisp(&self) -> (truth: bool) {
        S::from_count(1).div(S::from_count(2)).lt(*self)
    }
}

/// The index of the greatest of the first `n` of `scores`: the index that is left
/// when the scores are gone through in order and an index is dropped for a later
/// one only where the later score is strictly greater. Zero where there is no score.
pub open spec fn first_maximum<S: Scalar>(scores: Seq<S>, n: nat) -> nat
    decreases n,
{
    if n <= 1 {
        0
    } else {
        let best = first_maximum(scores, (n - 1) as nat);
        if scores[best as int].lt_spec(scores[n - 1]) {
            (n - 1) as nat
        } else {
            best
        }
    }
}

/// Whether "less than" orders the first `n` of `scores` as numbers are ordered: no
/// score is less than itself; a score less than one that is less than a third is
/// less than the third; and of two scores of which the first is less than the
/// second, every score is greater than the first or less than the second.
pub open spec fn ordered<S: Scalar>(scores: Seq<S>, n: nat) -> bool {
    &&& forall|i: int| 0 <= i < n ==> !(#[trigger] scores[i]).lt_spec(scores[i])
    &&& forall|i: int, j: int, k: int|
        0 <= i < n && 0 <= j < n && 0 <= k < n && (#[trigger] scores[i].lt_spec(scores[j]))
            && (#[trigger] scores[j].lt_spec(scores[k])) ==> scores[i].lt_spec(scores[k])
    &&& forall|i: int, j: int, k: int|
        0 <= i < n && 0 <= j < n && 0 <= k < n && (#[trigger] scores[i].lt_spec(scores[j]))
            ==> scores[i].lt_spec(scores[k]) || (#[trigger] scores[k].lt_spec(scores[j]))
}

/// Where the scores are ordered as numbers are, the index found is that of a
/// greatest score, and the first such: no score is greater than the one found, and
/// every score before it is less.
pub proof fn lemma_first_maximum_is_greatest<S: Scalar>(scores: Seq<S>, n: nat)
    requires
        0 < n <= scores.len(),
        ordered(scores, n),
    ensures
        first_maximum(scores, n) < n,
        forall|j: int|
            0 <= j < n ==> !scores[first_maximum(scores, n) as int].lt_spec(#[trigger] scores[j]),
        forall|j: int|
            0 <= j < first_maximum(scores, n) ==> (#[trigger] scores[j]).lt_spec(
                scores[first_maximum(scores, n) as int],
            ),
    decreases n,
{
    if n > 1 {
        let m = (n - 1) as nat;
        lemma_first_maximum_is_greatest(scores, m);
        let best = first_maximum(scores, m) as int;
        let last = n - 1;
        if scores[best].lt_spec(scores[last]) {
            assert forall|j: int| 0 <= j < n implies !scores[last].lt_spec(
                #[trigger] scores[j],
            ) by {
                if j < last && scores[last].lt_spec(scores[j]) {
                    assert(scores[best].lt_spec(scores[j]));
                }
            }
            assert forall|j: int| 0 <= j < last implies (#[trigger] scores[j]).lt_spec(
                scores[last],
            ) by {
                assert(scores[best].lt_spec(scores[j]) || scores[j].lt_spec(scores[last]));
            }
        }
    }
}

/// Returns the index of the greatest score, the first of them where several are
/// equal, and zero where there is no score.
pub fn index_of_maximum<S: Scalar>(scores: &[S]) -> (index: usize)
    ensures
        index == first_maximum(scores@, scores@.len()),
        scores@.len() > 0 ==> index < scores@.len(),
{
    let n = scores.len();
    if n == 0 {
        return 0;
    }
    let mut best: usize = 0;
    let mut i: usize = 1;
    while i < n
        invariant
            1 <= i <= n,
            n == scores@.len(),
            best < i,
            best == first_maximum(scores@, i as nat),
        decreases n - i,
    {
        if scores[best].lt(scores[i]) {
            best = i;
        }
        i += 1;
    }
    best
}

/// The class of the greatest score.
impl<S: Scalar, const N: usize> Crisp for [S; N] {
    type Truth = usize;

    open spec fn crisp_spec(&self) -> usize {
        first_maximum(self@, N as nat) as usize
    }

    fn crisp(&self) -> (truth: usize) {
        index_of_maximum(self.as_slice())
    }
}

/// The class of the greatest score.
impl<S: Scalar> Crisp for Vec<S> {
    type Truth = usize;

    open spec fn crisp_spec(&self) -> usize {
        first_maximum(self@, self@.len()) as usize
    }

    fn crisp(&self) -> (truth: usize) {
        index_of_maximum(self.as_slice())
    }
}

} // verus!
