use std::time::Instant;
use vstd::prelude::*;

verus! {

/// What one generation of a run looked like.
pub struct IterationTelemetry<OutputType> {
    /// Which generation this record refers to.
    pub generation: usize,
    /// How many solutions exist in the population.
    pub generation_size: usize,
    /// How much time it took to evaluate all solutions.
    pub total_compute_time_ms: u128,
    /// How much time it took to produce the next generation through
    /// recombination.
    pub total_recombination_time_ms: u128,
    /// How much time it took to process the entire generation.
    pub total_generation_time: u128,
    /// The best fitness of this generation.
    pub best_score: i64,
    /// The output of the best solution of this generation.
    pub best_solution: Option<OutputType>,
}

/// Receives one record per completed generation.
pub trait TelemetrySink<OutputType> {
    fn record(&mut self, telemetry: IterationTelemetry<OutputType>);
}

/// A sink that drops every record.
pub struct NoTelemetry;

impl<OutputType> TelemetrySink<OutputType> for NoTelemetry {
    fn record(&mut self, telemetry: IterationTelemetry<OutputType>) {
    }
}

#[verifier::external_type_specification]
#[verifier::external_body]
pub struct ExInstant(Instant);

/// Relies on `Instant::now`: the current instant of a monotonic clock.
#[verifier::external_body]
pub(crate) fn now() -> Instant {
    Instant::now()
}

/// Relies on `Instant::elapsed` and `Duration::as_millis`: the whole
/// milliseconds since `start`.
#[verifier::external_body]
pub(crate) fn millis_since(start: &Instant) -> u128 {
    start.elapsed().as_millis()
}

} // verus!
