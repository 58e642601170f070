pub mod algen_result;
pub mod algorithm;
pub mod analyzer;
pub mod node;
pub mod test_parameters;
