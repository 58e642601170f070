use algen::math::{draw_picks, tournament_pick, tournament_selection};
use algen::models::algen_result::AlgenResult;
use algen::models::algorithm::Algorithm;
use algen::models::analyzer::Analyzer;
use algen::models::node::{Node, UNSCORED};
use algen::models::test_parameters::{ConfigError, Ratio, TestParameters};
use algen::population::{best_index, next_generation, rank_by_fitness};
use algen::run_algorithm;
use algen::telemetry::{IterationTelemetry, NoTelemetry, TelemetrySink};
use rand::rngs::StdRng;
use rand::{Rng, SeedableRng};

const TARGET: [i32; 8] = [1, 3, 0, 2, 2, 1, 3, 0];
const SCALE: i64 = 1_000_000;

struct Offsets;

impl Algorithm<Vec<i32>, Vec<i32>, Vec<i32>, ()> for Offsets {
    fn output(&self, node: &Node<Vec<i32>>, input: &Vec<i32>, _params: &TestParameters<()>) -> Vec<i32> {
        input.iter().zip(node.solution.iter()).map(|(a, b)| a + b).collect()
    }

    fn allocate_node(&self, input: &Vec<i32>, _params: &TestParameters<()>, rng: &mut StdRng) -> Node<Vec<i32>> {
        let genome = (0..input.len()).map(|_| rng.gen_range(0..4)).collect();
        Node::unscored(0, genome)
    }

    fn combine_node(
        &self,
        left: Node<Vec<i32>>,
        right: Node<Vec<i32>>,
        params: &TestParameters<()>,
        rng: &mut StdRng,
    ) -> Node<Vec<i32>> {
        let cross = params.crossover_factor.numer as f64 / params.crossover_factor.denom as f64;
        let mutate = params.mutation_factor.numer as f64 / params.mutation_factor.denom as f64;
        let mut genome = Vec::new();
        for i in 0..left.solution.len() {
            let mut value = if rng.gen_bool(cross) { left.solution[i] } else { right.solution[i] };
            if rng.gen_bool(mutate) {
                value = rng.gen_range(0..4);
            }
            genome.push(value);
        }
        Node::unscored(0, genome)
    }
}

struct MatchShare;

impl Analyzer<Vec<i32>, Vec<i32>, ()> for MatchShare {
    fn evaluate(&self, attempt: &Vec<i32>, _params: &TestParameters<()>) -> i64 {
        let hits = attempt.iter().zip(TARGET.iter()).filter(|(a, b)| a == b).count() as i64;
        hits * SCALE / TARGET.len() as i64
    }
}

#[derive(Default)]
struct Recorder {
    records: Vec<(usize, usize, i64)>,
}

impl TelemetrySink<Vec<i32>> for Recorder {
    fn record(&mut self, telemetry: IterationTelemetry<Vec<i32>>) {
        self.records.push((telemetry.generation, telemetry.generation_size, telemetry.best_score));
    }
}

fn params(generations: usize, population: usize) -> TestParameters<()> {
    TestParameters {
        generations,
        population,
        elitism_factor: Ratio::new(1, 5),
        crossover_factor: Ratio::new(1, 2),
        mutation_factor: Ratio::new(1, 10),
        tournament_size: 5,
        feature_flag: (),
    }
}

fn node(id: usize, score: i64) -> Node<Vec<i32>> {
    Node { id, solution: vec![id as i32], score }
}

fn never(_score: i64, _s: &Vec<i32>, _o: &Vec<i32>) -> bool {
    false
}

fn always(_score: i64, _s: &Vec<i32>, _o: &Vec<i32>) -> bool {
    true
}

fn run(
    p: &TestParameters<()>,
    seed: u64,
    stop: fn(i64, &Vec<i32>, &Vec<i32>) -> bool,
    sink: &mut Recorder,
) -> Result<AlgenResult<Vec<i32>, Vec<i32>>, ConfigError> {
    let mut rng = StdRng::seed_from_u64(seed);
    let input = vec![0; TARGET.len()];
    run_algorithm(p, &input, &Offsets, &MatchShare, Some(stop), &mut rng, sink)
}

#[test]
fn it_works() {}

#[test]
fn tournament_pick_keeps_first_of_equals() {
    let nodes = vec![node(0, 5), node(1, 9), node(2, 9), node(3, 1)];
    assert_eq!(tournament_pick(&nodes, &vec![3, 2, 1, 0]), Some(2));
    assert_eq!(tournament_pick(&nodes, &vec![0, 3]), Some(0));
    assert_eq!(tournament_pick(&nodes, &vec![3]), Some(3));
    assert_eq!(tournament_pick(&nodes, &vec![]), None);
}

#[test]
fn tournament_pick_takes_unscored_first_pick() {
    let nodes = vec![node(0, UNSCORED), node(1, UNSCORED)];
    assert_eq!(tournament_pick(&nodes, &vec![1, 0]), Some(1));
}

#[test]
fn full_tournament_finds_unique_best() {
    let nodes = vec![node(0, 4), node(1, -2), node(2, 17), node(3, 16), node(4, 0)];
    assert_eq!(tournament_pick(&nodes, &vec![0, 1, 2, 3, 4]), Some(2));
    assert_eq!(tournament_pick(&nodes, &vec![4, 3, 2, 2, 0]), Some(2));
}

#[test]
fn tournament_selection_empty_cases() {
    let mut rng = StdRng::seed_from_u64(7);
    let empty: Vec<Node<Vec<i32>>> = Vec::new();
    assert!(tournament_selection(&empty, &params(1, 1), &mut rng).is_none());
    let mut zero = params(1, 3);
    zero.tournament_size = 0;
    assert!(tournament_selection(&vec![node(0, 1)], &zero, &mut rng).is_none());
}

#[test]
fn tournament_selection_returns_a_member() {
    let mut rng = StdRng::seed_from_u64(11);
    let nodes = vec![node(0, 3), node(1, 8), node(2, 5)];
    for _ in 0..50 {
        let won = tournament_selection(&nodes, &params(1, 3), &mut rng).unwrap();
        assert!(nodes.iter().any(|n| n.id == won.id && n.score == won.score && n.solution == won.solution));
    }
    let single = vec![node(4, 2)];
    let won = tournament_selection(&single, &params(1, 1), &mut rng).unwrap();
    assert_eq!(won.id, 4);
}

#[test]
fn draw_picks_stay_in_range() {
    let mut rng = StdRng::seed_from_u64(3);
    let picks = draw_picks(4, 200, &mut rng);
    assert_eq!(picks.len(), 200);
    assert!(picks.iter().all(|&p| p < 4));
    assert!(picks.iter().any(|&p| p != picks[0]));
}

#[test]
fn ranking_orders_by_fitness() {
    let nodes = vec![node(0, 2), node(1, 7), node(2, -1), node(3, 5)];
    assert_eq!(rank_by_fitness(&nodes), vec![1, 3, 0, 2]);
    let empty: Vec<Node<Vec<i32>>> = Vec::new();
    assert!(rank_by_fitness(&empty).is_empty());
}

#[test]
fn best_index_first_strict_maximum() {
    let nodes = vec![node(0, 2), node(1, 7), node(2, 7), node(3, 5)];
    assert_eq!(best_index(&nodes), Some(1));
    let unscored = vec![node(0, UNSCORED), node(1, UNSCORED)];
    assert_eq!(best_index(&unscored), None);
    let empty: Vec<Node<Vec<i32>>> = Vec::new();
    assert_eq!(best_index(&empty), None);
}

#[test]
fn elite_pair_count() {
    let mut p = params(1, 5000);
    p.elitism_factor = Ratio::new(5, 100);
    assert_eq!(p.elite_pairs(), 125);
    p.elitism_factor = Ratio::new(1, 1);
    p.population = 5;
    assert_eq!(p.elite_pairs(), 2);
    p.elitism_factor = Ratio::new(0, 1);
    assert_eq!(p.elite_pairs(), 0);
    p.elitism_factor = Ratio::new(1, 5);
    p.population = 50;
    assert_eq!(p.elite_pairs(), 5);
}

#[test]
fn validate_reports_each_error() {
    assert_eq!(params(1, 4).validate(), Ok(()));
    let mut p = params(1, 4);
    p.mutation_factor = Ratio::new(3, 2);
    assert_eq!(p.validate(), Err(ConfigError::InvalidFactor));
    p.mutation_factor = Ratio::new(1, 0);
    assert_eq!(p.validate(), Err(ConfigError::InvalidFactor));
    assert_eq!(params(1, 0).validate(), Err(ConfigError::EmptyPopulation));
    assert_eq!(params(1, 1).validate(), Err(ConfigError::TooSmallForElitism));
    let mut q = params(1, 1);
    q.elitism_factor = Ratio::new(0, 3);
    assert_eq!(q.validate(), Ok(()));
    let mut t = params(1, 4);
    t.tournament_size = 0;
    assert_eq!(t.validate(), Err(ConfigError::EmptyTournament));
}

#[test]
fn next_generation_keeps_size_and_elites() {
    let mut rng = StdRng::seed_from_u64(5);
    let scores = [4, 9, 1, 7, 3, 8, 2, 6, 5, 0];
    let nodes: Vec<Node<Vec<i32>>> = scores.iter().enumerate().map(|(i, &s)| node(i, s)).collect();
    let mut p = params(1, 10);
    p.elitism_factor = Ratio::new(2, 5);
    let next = next_generation(&nodes, &p, &Offsets, &mut rng);
    assert_eq!(next.len(), 10);
    let expected = [(1, 9), (9, 0), (5, 8), (2, 1)];
    for (k, &(id, score)) in expected.iter().enumerate() {
        assert_eq!(next[k].id, id);
        assert_eq!(next[k].score, score);
        assert_eq!(next[k].solution, vec![id as i32]);
    }
    for child in &next[4..] {
        assert_eq!(child.score, UNSCORED);
    }
}

#[test]
fn next_generation_odd_size_without_elitism() {
    let mut rng = StdRng::seed_from_u64(9);
    let nodes: Vec<Node<Vec<i32>>> = (0..7).map(|i| node(i, i as i64)).collect();
    let mut p = params(1, 7);
    p.elitism_factor = Ratio::new(0, 1);
    let next = next_generation(&nodes, &p, &Offsets, &mut rng);
    assert_eq!(next.len(), 7);
    assert!(next.iter().all(|n| n.score == UNSCORED));
}

#[test]
fn end_to_end_reaches_target() {
    let mut sink = Recorder::default();
    let result = run(&params(20, 50), 42, never, &mut sink).unwrap();
    assert_eq!(result.best_scores.len(), 20);
    assert!(result.best_scores.windows(2).all(|w| w[0] <= w[1]));
    assert_eq!(result.score, SCALE);
    assert_eq!(*result.best_scores.last().unwrap(), SCALE);
    assert_eq!(result.output.unwrap(), TARGET.to_vec());
    assert_eq!(result.node.unwrap().score, SCALE);
    assert_eq!(sink.records.len(), 20);
    for (g, record) in sink.records.iter().enumerate() {
        assert_eq!(record.0, g);
        assert_eq!(record.1, 50);
        assert!(record.2 <= result.best_scores[g]);
    }
}

#[test]
fn best_never_regresses() {
    let mut sink = Recorder::default();
    let result = run(&params(12, 20), 3, never, &mut sink).unwrap();
    for (g, record) in sink.records.iter().enumerate() {
        let so_far = sink.records[..=g].iter().map(|r| r.2).max().unwrap();
        assert_eq!(result.best_scores[g], so_far);
        assert!(record.2 <= result.best_scores[g]);
    }
}

#[test]
fn seeded_runs_are_identical() {
    let mut first = Recorder::default();
    let mut second = Recorder::default();
    let a = run(&params(10, 30), 1234, never, &mut first).unwrap();
    let b = run(&params(10, 30), 1234, never, &mut second).unwrap();
    assert_eq!(a.best_scores, b.best_scores);
    assert_eq!(a.score, b.score);
    assert_eq!(a.output, b.output);
    assert_eq!(first.records, second.records);
}

#[test]
fn early_stop_after_first_generation() {
    let mut sink = Recorder::default();
    let result = run(&params(10, 30), 8, always, &mut sink).unwrap();
    assert_eq!(result.best_scores.len(), 1);
    assert_eq!(sink.records.len(), 1);
    assert!(result.node.is_some());
}

#[test]
fn stop_when_target_found() {
    fn found(score: i64, _s: &Vec<i32>, _o: &Vec<i32>) -> bool {
        score == SCALE
    }
    let mut sink = Recorder::default();
    let result = run(&params(200, 50), 42, found, &mut sink).unwrap();
    let k = result.best_scores.len();
    assert!(k < 200);
    assert_eq!(result.best_scores[k - 1], SCALE);
    assert!(result.best_scores[..k - 1].iter().all(|&s| s < SCALE));
    assert_eq!(sink.records.len(), k);
}

#[test]
fn empty_population_is_rejected() {
    let mut sink = Recorder::default();
    assert_eq!(run(&params(5, 0), 1, never, &mut sink).err(), Some(ConfigError::EmptyPopulation));
    assert!(sink.records.is_empty());
}

#[test]
fn invalid_configurations_are_rejected() {
    let mut sink = Recorder::default();
    assert_eq!(run(&params(5, 1), 1, never, &mut sink).err(), Some(ConfigError::TooSmallForElitism));
    let mut p = params(5, 4);
    p.tournament_size = 0;
    assert_eq!(run(&p, 1, never, &mut sink).err(), Some(ConfigError::EmptyTournament));
    p.tournament_size = 2;
    p.elitism_factor = Ratio::new(2, 1);
    assert_eq!(run(&p, 1, never, &mut sink).err(), Some(ConfigError::InvalidFactor));
}

#[test]
fn zero_generations_finds_nothing() {
    let mut sink = Recorder::default();
    let result = run(&params(0, 10), 1, never, &mut sink).unwrap();
    assert_eq!(result.score, UNSCORED);
    assert!(result.node.is_none() && result.output.is_none());
    assert!(result.best_scores.is_empty());
}

#[test]
fn no_predicate_and_no_telemetry() {
    let mut rng = StdRng::seed_from_u64(2);
    let input = vec![0; TARGET.len()];
    let result = run_algorithm(
        &params(3, 10),
        &input,
        &Offsets,
        &MatchShare,
        None::<fn(i64, &Vec<i32>, &Vec<i32>) -> bool>,
        &mut rng,
        &mut NoTelemetry,
    )
    .unwrap();
    assert_eq!(result.best_scores.len(), 3);
    assert!(result.score > UNSCORED);
}
