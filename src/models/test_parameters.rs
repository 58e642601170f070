use vstd::prelude::*;

verus! {

/// An exact fraction `numer / denom`, used for the factors of a run.
#[derive(Clone, Copy, Debug, PartialEq, Eq, Structural)]
pub struct Ratio {
    pub numer: u32,
    pub denom: u32,
}

impl Ratio {
    /// A fraction in `[0, 1]` with a nonzero denominator.
    pub open spec fn is_unit(self) -> bool {
        self.denom > 0 && self.numer <= self.denom
    }

    pub fn new(numer: u32, denom: u32) -> (r: Self)
        ensures
            r.numer == numer,
            r.denom == denom,
    {
        Ratio { numer, denom }
    }

    pub fn is_valid(&self) -> (r: bool)
        ensures
            r == self.is_unit(),
    {
        self.denom > 0 && self.numer <= self.denom
    }

    pub fn is_zero(&self) -> (r: bool)
        ensures
            r == (self.numer == 0),
    {
        self.numer == 0
    }
}

/// Why a set of parameters cannot drive a run.
#[derive(Clone, Copy, Debug, PartialEq, Eq, Structural)]
pub enum ConfigError {
    /// A factor is not a fraction in `[0, 1]`.
    InvalidFactor,
    /// The population is empty.
    EmptyPopulation,
    /// Elitism is nonzero but the population has fewer than two nodes.
    TooSmallForElitism,
    /// Tournaments would sample no node.
    EmptyTournament,
}

/// The parameters of a genetic run.
pub struct TestParameters<FeatureFlags> {
    /// The total amount of generations to produce in the run.
    pub generations: usize,
    /// How many solutions exist per generation.
    pub population: usize,
    /// The share of the population kept unchanged because it is among the
    /// best (or worst) solutions.
    pub elitism_factor: Ratio,
    /// The probability of crossover favoring one parent over the other;
    /// its meaning belongs to the `Algorithm`.
    pub crossover_factor: Ratio,
    /// The probability of mutation of one genome element; its meaning
    /// belongs to the `Algorithm`.
    pub mutation_factor: Ratio,
    /// How many nodes each tournament samples.
    pub tournament_size: usize,
    /// Problem-specific flags, opaque to the runner.
    pub feature_flag: FeatureFlags,
}

impl<FeatureFlags> TestParameters<FeatureFlags> {
    /// The verdict on these parameters: the first problem found, checking
    /// the factors, then the population size, then the tournament size.
    pub open spec fn check(&self) -> Result<(), ConfigError> {
        if !(self.elitism_factor.is_unit() && self.crossover_factor.is_unit()
            && self.mutation_factor.is_unit()) {
            Err(ConfigError::InvalidFactor)
        } else if self.population == 0 {
            Err(ConfigError::EmptyPopulation)
        } else if self.population < 2 && self.elitism_factor.numer != 0 {
            Err(ConfigError::TooSmallForElitism)
        } else if self.tournament_size == 0 {
            Err(ConfigError::EmptyTournament)
        } else {
            Ok(())
        }
    }

    pub open spec fn is_valid(&self) -> bool {
        self.check() is Ok
    }

    /// How many (best, worst) pairs are kept each generation:
    /// `floor(elitism_factor * 0.5 * population)`.
    pub open spec fn spec_elite_pairs(&self) -> int {
        (self.elitism_factor.numer * self.population) as int / (2 * self.elitism_factor.denom) as int
    }

    pub fn validate(&self) -> (r: Result<(), ConfigError>)
        ensures
            r == self.check(),
    {
        if !(self.elitism_factor.is_valid() && self.crossover_factor.is_valid()
            && self.mutation_factor.is_valid()) {
            Err(ConfigError::InvalidFactor)
        } else if self.population == 0 {
            Err(ConfigError::EmptyPopulation)
        } else if self.population < 2 && !self.elitism_factor.is_zero() {
            Err(ConfigError::TooSmallForElitism)
        } else if self.tournament_size == 0 {
            Err(ConfigError::EmptyTournament)
        } else {
            Ok(())
        }
    }

    /// The number of elite pairs; twice it never exceeds the population.
    pub fn elite_pairs(&self) -> (r: usize)
        requires
            self.elitism_factor.is_unit(),
        ensures
            r == self.spec_elite_pairs(),
            2 * r <= self.population,
    {
        let numer = self.elitism_factor.numer as u128;
        let denom = self.elitism_factor.denom as u128;
        let n = self.population as u128;
        proof {
            assert(numer * n <= denom * n) by (nonlinear_arith)
                requires numer <= denom;
            assert(denom * n <= 0x1_0000_0000 * 0x1_0000_0000_0000_0000) by (nonlinear_arith)
                requires denom < 0x1_0000_0000, n < 0x1_0000_0000_0000_0000;
        }
        let pairs = (numer * n) / (2 * denom);
        proof {
            let q = (numer * n) as int / (2 * denom) as int;
            assert(q * (2 * denom) <= numer * n) by (nonlinear_arith)
                requires q == (numer * n) as int / (2 * denom) as int, denom > 0;
            assert(2 * q <= n) by (nonlinear_arith)
                requires q * (2 * denom) <= numer * n, numer <= denom, denom > 0, q >= 0;
        }
        pairs as usize
    }
}

} // verus!
