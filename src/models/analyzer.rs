use super::test_parameters::TestParameters;
use vstd::prelude::*;

verus! {

/// Scores the output of an algorithm: the higher, the better.
pub trait Analyzer<InputData, OutputData, FeatureFlags> {
    fn evaluate(&self, attempt: &OutputData, params: &TestParameters<FeatureFlags>) -> i64;
}

} // verus!
