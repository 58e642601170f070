//! Algen is a genetic algorithm runner. A problem supplies an `Algorithm`
//! (how a genome is allocated, decoded and recombined) and an `Analyzer`
//! (how a decoded output is scored); `run_algorithm` then evolves a
//! population generation by generation:
//!
//! - create an initial population,
//! - score every node,
//! - keep the best and the worst nodes unchanged,
//! - fill the rest of the next generation by tournament selection and
//!   recombination,
//!
//! until the termination predicate holds or the generation budget is spent.
pub mod math;
pub mod models;
pub mod population;
mod random;
pub mod telemetry;

use crate::models::algen_result::AlgenResult;
use crate::models::algorithm::Algorithm;
use crate::models::analyzer::Analyzer;
use crate::models::node::{Node, UNSCORED};
use crate::models::test_parameters::{ConfigError, TestParameters};
use crate::population::{best_index, next_generation};
use crate::telemetry::{millis_since, now, IterationTelemetry, TelemetrySink};
use rand::rngs::StdRng;
use rayon::iter::{IntoParallelRefMutIterator, ParallelIterator};
use vstd::prelude::*;

verus! {

/// Scores one node: decodes it, evaluates the output, stores the fitness on
/// the node and returns the output. Nothing but the fitness changes.
pub fn score_node<I, O, S, F, A: Algorithm<I, O, S, F>, Z: Analyzer<I, O, F>>(
    algo: &A,
    analyzer: &Z,
    node: &mut Node<S>,
    input: &I,
    params: &TestParameters<F>,
) -> (out: O)
    ensures
        final(node).id == old(node).id,
        final(node).solution == old(node).solution,
{
    let out = algo.output(node, input, params);
    node.score = analyzer.evaluate(&out, params);
    out
}

/// Relies on rayon's `par_iter_mut().map(..).collect()` on a `Vec`: the
/// closure runs once on each element, and the collected outputs keep the
/// order of the elements. The closure is `score_node`, which changes only
/// the fitness of its node.
#[verifier::external_body]
fn evaluate_population<I: Sync, O: Send, S: Send, F: Sync, A, Z>(
    population: &mut Vec<Node<S>>,
    input: &I,
    params: &TestParameters<F>,
    algo: &A,
    analyzer: &Z,
) -> (outputs: Vec<O>)
    where
        A: Algorithm<I, O, S, F> + Sync,
        Z: Analyzer<I, O, F> + Sync,
    ensures
        outputs.len() == old(population).len(),
        final(population).len() == old(population).len(),
        forall|i: int|
            0 <= i < old(population).len() ==> {
                &&& (#[trigger] final(population)@[i]).id == old(population)@[i].id
                &&& final(population)@[i].solution == old(population)@[i].solution
            },
{
    population.par_iter_mut().map(|node| score_node(algo, analyzer, node, input, params)).collect()
}

/// Runs a genetic search. The parameters are checked first; then an
/// initial population is allocated and, for each generation, every node is
/// scored in parallel, the best node so far is updated, the next generation
/// is built (`next_generation`), a telemetry record is sent and the
/// termination predicate, if any, is asked about the best node so far. A
/// `true` answer ends the run after that generation.
pub fn run_algorithm<I, O, S, F, A, Z, T, P>(
    params: &TestParameters<F>,
    input_data: &I,
    algo: &A,
    analyzer: &Z,
    on_generation_complete: Option<P>,
    rng: &mut StdRng,
    telemetry: &mut T,
) -> (r: Result<AlgenResult<O, S>, ConfigError>)
    where
        I: Send + Sync,
        O: Clone + Send + Sync,
        S: Clone + Send + Sync,
        F: Send + Sync,
        A: Algorithm<I, O, S, F> + Sync,
        Z: Analyzer<I, O, F> + Sync,
        T: TelemetrySink<O>,
        P: Fn(i64, &S, &O) -> bool,
    requires
        on_generation_complete matches Some(p) ==> forall|score: i64, s: &S, o: &O|
            p.requires((score, s, o)),
    ensures
        r is Err <==> !params.is_valid(),
        r matches Err(e) ==> params.check() == Err::<(), ConfigError>(e),
        r matches Ok(res) ==> {
            &&& res.is_consistent()
            &&& res.best_scores.len() <= params.generations
            &&& res.best_scores.len() < params.generations ==> res.stopped_by(on_generation_complete)
            &&& exists|asked: Seq<Option<(S, O)>>, stopped: bool|
                #[trigger] res.asked_in_turn(on_generation_complete, asked, stopped) && (stopped
                    ==> res.stopped_by(on_generation_complete))
        },
{
    match params.validate() {
        Err(e) => {
            return Err(e);
        },
        Ok(()) => {},
    }
    let n = params.population;
    let mut population: Vec<Node<S>> = Vec::new();
    let mut k: usize = 0;
    while k < n
        invariant
            k <= n,
            population.len() == k,
        decreases n - k,
    {
        population.push(algo.allocate_node(input_data, params, rng));
        k = k + 1;
    }
    let mut best: AlgenResult<O, S> = AlgenResult {
        score: UNSCORED,
        output: None,
        node: None,
        best_scores: Vec::new(),
    };
    let mut generation: usize = 0;
    let mut stop = false;
    let ghost mut asked: Seq<Option<(S, O)>> = Seq::empty();
    while generation < params.generations && !stop
        invariant
            params.is_valid(),
            n == params.population,
            population.len() == n,
            generation <= params.generations,
            best.best_scores.len() == generation,
            best.is_consistent(),
            stop ==> best.stopped_by(on_generation_complete),
            best.asked_in_turn(on_generation_complete, asked, stop),
            on_generation_complete matches Some(p) ==> forall|score: i64, s: &S, o: &O|
                p.requires((score, s, o)),
        decreases params.generations - generation,
    {
        let generation_start = now();
        let outputs = evaluate_population(&mut population, input_data, params, algo, analyzer);
        let compute_time = millis_since(&generation_start);
        let ghost prior = best.best_scores@;
        let (generation_score, generation_output) = match best_index(&population) {
            Some(w) => {
                proof {
                    crate::population::lemma_best_of_bounds(population@);
                }
                if population[w].score > best.score {
                    best.score = population[w].score;
                    best.node = Some(population[w].clone());
                    best.output = Some(outputs[w].clone());
                }
                (population[w].score, Some(outputs[w].clone()))
            },
            None => (UNSCORED, None),
        };
        best.best_scores.push(best.score);
        proof {
            assert(best.best_scores@.drop_last() == prior);
        }
        let recombination_start = now();
        population = next_generation(&population, params, algo, rng);
        let recombination_time = millis_since(&recombination_start);
        let generation_time = millis_since(&generation_start);
        telemetry.record(
            IterationTelemetry {
                generation,
                generation_size: n,
                total_compute_time_ms: compute_time,
                total_recombination_time_ms: recombination_time,
                total_generation_time: generation_time,
                best_score: generation_score,
                best_solution: generation_output,
            },
        );
        let ghost before = asked;
        match &on_generation_complete {
            Some(p) => match (&best.node, &best.output) {
                (Some(node), Some(output)) => {
                    stop = p(best.score, &node.solution, output);
                    proof {
                        asked = asked.push(Some((node.solution, *output)));
                    }
                },
                _ => {
                    proof {
                        asked = asked.push(None);
                    }
                },
            },
            None => {
                proof {
                    asked = asked.push(None);
                }
            },
        }
        proof {
            assert forall|g: int| 0 <= g < asked.len() - 1 implies #[trigger] asked[g] == before[g] by {}
            assert(best.best_scores@[generation as int] == best.score);
        }
        generation = generation + 1;
    }
    Ok(best)
}

} // verus!
