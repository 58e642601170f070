use super::node::Node;
use super::test_parameters::TestParameters;
use rand::rngs::StdRng;
use vstd::prelude::*;

verus! {

/// The problem being solved: how a random solution is made, how a solution
/// is applied to the input to produce an output, and how two solutions are
/// recombined into the next generation.
pub trait Algorithm<InputData, OutputData, Solution, FeatureFlags> {
    /// Applies the node's solution (the chromosome) to the input. Given the
    /// input "ELWWO" and the solution [3, -7, -11, -11, 0] as character
    /// shifts, the output would be "HELLO", which the `Analyzer` then scores.
    /// It must not depend on anything but its arguments.
    fn output(
        &self,
        node: &Node<Solution>,
        input: &InputData,
        params: &TestParameters<FeatureFlags>,
    ) -> OutputData;

    /// Allocates a randomized, unscored node.
    fn allocate_node(
        &self,
        input: &InputData,
        params: &TestParameters<FeatureFlags>,
        rng: &mut StdRng,
    ) -> Node<Solution>;

    /// Produces an unscored offspring of two nodes, at a minimum by
    /// crossover (each genome element taken from one parent, with a bias
    /// given by `crossover_factor`) followed by mutation (each element
    /// replaced with probability `mutation_factor`).
    fn combine_node(
        &self,
        left: Node<Solution>,
        right: Node<Solution>,
        params: &TestParameters<FeatureFlags>,
        rng: &mut StdRng,
    ) -> Node<Solution>;
}

} // verus!
