use vstd::prelude::*;

verus! {

/// The fitness a node carries before it has ever been scored; no score is
/// below it.
pub const UNSCORED: i64 = i64::MIN;

/// One candidate solution of a genetic run: an identifier, a genome and the
/// fitness it was last given (higher is better).
pub struct Node<Solution> {
    pub id: usize,
    pub solution: Solution,
    pub score: i64,
}

impl<Solution> Node<Solution> {
    /// A node that has not been scored yet.
    pub fn unscored(id: usize, solution: Solution) -> (r: Self)
        ensures
            r.id == id,
            r.solution == solution,
            r.score == UNSCORED,
    {
        Node { id, solution, score: UNSCORED }
    }
}

/// `copy` is `source` duplicated through `Clone`: identifier and fitness
/// kept, genome cloned.
pub open spec fn is_copy_of<Solution: Clone>(copy: Node<Solution>, source: Node<Solution>) -> bool {
    &&& copy.id == source.id
    &&& copy.score == source.score
    &&& cloned(source.solution, copy.solution)
}

impl<Solution: Clone> Clone for Node<Solution> {
    fn clone(&self) -> (r: Self)
        ensures
            is_copy_of(r, *self),
    {
        Node { id: self.id, solution: self.solution.clone(), score: self.score }
    }
}

} // verus!
