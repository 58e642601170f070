use super::node::{Node, UNSCORED};
use vstd::prelude::*;

verus! {

/// What a run found: the best fitness seen, the node that had it and its
/// output, and the best fitness so far after each generation that ran.
pub struct AlgenResult<OutputData, Solution> {
    pub score: i64,
    pub output: Option<OutputData>,
    pub node: Option<Node<Solution>>,
    pub best_scores: Vec<i64>,
}

impl<OutputData, Solution> AlgenResult<OutputData, Solution> {
    /// The best node and its output are recorded together, and only once
    /// some node outscored `UNSCORED`; the history of best fitness never
    /// decreases and ends at the best fitness.
    pub open spec fn is_consistent(&self) -> bool {
        &&& (self.node is Some <==> self.score > UNSCORED)
        &&& (self.output is Some <==> self.node is Some)
        &&& (self.node matches Some(n) ==> n.score == self.score)
        &&& forall|i: int, j: int|
            0 <= i < j < self.best_scores.len() ==> self.best_scores@[i] <= self.best_scores@[j]
        &&& (self.best_scores.len() > 0 ==> self.best_scores@.last() == self.score)
        &&& (self.best_scores.len() == 0 ==> self.score == UNSCORED)
    }

    /// The termination predicate was asked about the best node and its
    /// output and answered `true`.
    pub open spec fn stopped_by<P: Fn(i64, &Solution, &OutputData) -> bool>(
        &self,
        predicate: Option<P>,
    ) -> bool {
        &&& predicate is Some
        &&& self.node is Some
        &&& self.output is Some
        &&& predicate->Some_0.ensures(
            (self.score, &self.node->Some_0.solution, &self.output->Some_0),
            true,
        )
    }

    /// `asked` holds, for each generation that ran, the best solution and
    /// output so far that the termination predicate was asked about, if it
    /// was asked: exactly when there is a predicate and a best node. Every
    /// question but the one of the last generation was answered `false`,
    /// and that one too unless the run stopped on it.
    pub open spec fn asked_in_turn<P: Fn(i64, &Solution, &OutputData) -> bool>(
        &self,
        predicate: Option<P>,
        asked: Seq<Option<(Solution, OutputData)>>,
        stopped: bool,
    ) -> bool {
        &&& asked.len() == self.best_scores.len()
        &&& forall|g: int|
            0 <= g < asked.len() ==> ((#[trigger] asked[g]) is Some <==> predicate is Some
                && self.best_scores@[g] > UNSCORED)
        &&& forall|g: int|
            0 <= g < asked.len() && (g + 1 < asked.len() || !stopped) ==> (#[trigger] asked[g]
                matches Some(q) ==> predicate->Some_0.ensures(
                (self.best_scores@[g], &q.0, &q.1),
                false,
            ))
    }
}

} // verus!
