//! Settings of the iterative solvers.

use vstd::prelude::*;

use crate::decimal::{Decimal, DecimalModel};

verus! {

/// Settings that the numerical algorithms read.
#[derive(Clone, Copy, Debug)]
pub struct Config {
    /// Convergence threshold of the iterative solvers.
    pub eps: Decimal,
    /// Maximum number of iterations of a solver.
    pub max_iterations: u32,
    /// Initial guess of a solver.
    pub guess: Decimal,
    /// Whether date calculations count business days only.
    pub business_days_only: bool,
    /// Whether compounding is periodic.
    pub periodic_compound: bool,
}

/// The default threshold, `1e-12`.
pub open spec fn default_eps() -> DecimalModel {
    DecimalModel { mantissa: 1, scale: 12 }
}

/// The default guess, `0.1`.
pub open spec fn default_guess() -> DecimalModel {
    DecimalModel { mantissa: 1, scale: 1 }
}

/// The default settings: threshold `1e-12`, 1000 iterations, guess `0.1`,
/// calendar days, periodic compounding.
pub open spec fn is_default_config(c: Config) -> bool {
    &&& c.eps@ == default_eps()
    &&& c.max_iterations == 1000
    &&& c.guess@ == default_guess()
    &&& !c.business_days_only
    &&& c.periodic_compound
}

impl Default for Config {
    fn default() -> (c: Config)
        ensures
            is_default_config(c),
    {
        Config {
            eps: Decimal::new(1, 12),
            max_iterations: 1000,
            guess: Decimal::new(1, 1),
            business_days_only: false,
            periodic_compound: true,
        }
    }
}

impl Config {
    /// The default settings.
    pub fn new() -> (c: Config)
        ensures
            is_default_config(c),
    {
        Config::default()
    }

    /// A builder that starts from no explicit settings.
    pub fn builder() -> (b: ConfigBuilder)
        ensures
            b == ConfigBuilder::empty_spec(),
    {
        ConfigBuilder::new()
    }

    /// The same settings with threshold `eps`.
    pub fn with_eps(self, eps: Decimal) -> (c: Config)
        ensures
            c == (Config { eps, ..self }),
    {
        Config { eps, ..self }
    }

    /// The same settings with at most `max_iterations` iterations.
    pub fn with_max_iterations(self, max_iterations: u32) -> (c: Config)
        ensures
            c == (Config { max_iterations, ..self }),
    {
        Config { max_iterations, ..self }
    }

    /// The same settings with initial guess `guess`.
    pub fn with_guess(self, guess: Decimal) -> (c: Config)
        ensures
            c == (Config { guess, ..self }),
    {
        Config { guess, ..self }
    }

    /// The same settings with the business-days flag set to `business_days_only`.
    pub fn with_business_days_only(self, business_days_only: bool) -> (c: Config)
        ensures
            c == (Config { business_days_only, ..self }),
    {
        Config { business_days_only, ..self }
    }

    /// The same settings with the periodic-compounding flag set to `periodic_compound`.
    pub fn with_periodic_compound(self, periodic_compound: bool) -> (c: Config)
        ensures
            c == (Config { periodic_compound, ..self }),
    {
        Config { periodic_compound, ..self }
    }
}

/// Builds a [`Config`]; every setting left unset takes its default.
#[derive(Clone, Copy, Debug)]
pub struct ConfigBuilder {
    eps: Option<Decimal>,
    max_iterations: Option<u32>,
    guess: Option<Decimal>,
    business_days_only: Option<bool>,
    periodic_compound: Option<bool>,
}

/// `v` when set, else `d`.
pub open spec fn or_default<T>(v: Option<T>, d: T) -> T {
    match v {
        Some(x) => x,
        None => d,
    }
}

impl ConfigBuilder {
    /// A builder with nothing set.
    pub closed spec fn empty_spec() -> ConfigBuilder {
        ConfigBuilder {
            eps: None,
            max_iterations: None,
            guess: None,
            business_days_only: None,
            periodic_compound: None,
        }
    }

    /// The threshold that was set, if any.
    pub closed spec fn eps_set(self) -> Option<Decimal> {
        self.eps
    }

    /// The iteration limit that was set, if any.
    pub closed spec fn max_iterations_set(self) -> Option<u32> {
        self.max_iterations
    }

    /// The guess that was set, if any.
    pub closed spec fn guess_set(self) -> Option<Decimal> {
        self.guess
    }

    /// The business-days flag that was set, if any.
    pub closed spec fn business_days_only_set(self) -> Option<bool> {
        self.business_days_only
    }

    /// The periodic-compounding flag that was set, if any.
    pub closed spec fn periodic_compound_set(self) -> Option<bool> {
        self.periodic_compound
    }

    /// A builder with nothing set.
    pub fn new() -> (b: ConfigBuilder)
        ensures
            b == ConfigBuilder::empty_spec(),
            b.eps_set() is None,
            b.max_iterations_set() is None,
            b.guess_set() is None,
            b.business_days_only_set() is None,
            b.periodic_compound_set() is None,
    {
        ConfigBuilder {
            eps: None,
            max_iterations: None,
            guess: None,
            business_days_only: None,
            periodic_compound: None,
        }
    }

    /// Sets the convergence threshold.
    pub fn eps(self, eps: Decimal) -> (b: ConfigBuilder)
        ensures
            b.eps_set() == Some(eps),
            b.max_iterations_set() == self.max_iterations_set(),
            b.guess_set() == self.guess_set(),
            b.business_days_only_set() == self.business_days_only_set(),
            b.periodic_compound_set() == self.periodic_compound_set(),
    {
        ConfigBuilder { eps: Some(eps), ..self }
    }

    /// Sets the iteration limit.
    pub fn max_iterations(self, max_iterations: u32) -> (b: ConfigBuilder)
        ensures
            b.eps_set() == self.eps_set(),
            b.max_iterations_set() == Some(max_iterations),
            b.guess_set() == self.guess_set(),
            b.business_days_only_set() == self.business_days_only_set(),
            b.periodic_compound_set() == self.periodic_compound_set(),
    {
        ConfigBuilder { max_iterations: Some(max_iterations), ..self }
    }

    /// Sets the initial guess.
    pub fn guess(self, guess: Decimal) -> (b: ConfigBuilder)
        ensures
            b.eps_set() == self.eps_set(),
            b.max_iterations_set() == self.max_iterations_set(),
            b.guess_set() == Some(guess),
            b.business_days_only_set() == self.business_days_only_set(),
            b.periodic_compound_set() == self.periodic_compound_set(),
    {
        ConfigBuilder { guess: Some(guess), ..self }
    }

    /// Sets the business-days flag.
    pub fn business_days_only(self, business_days_only: bool) -> (b: ConfigBuilder)
        ensures
            b.eps_set() == self.eps_set(),
            b.max_iterations_set() == self.max_iterations_set(),
            b.guess_set() == self.guess_set(),
            b.business_days_only_set() == Some(business_days_only),
            b.periodic_compound_set() == self.periodic_compound_set(),
    {
        ConfigBuilder { business_days_only: Some(business_days_only), ..self }
    }

    /// Sets the periodic-compounding flag.
    pub fn periodic_compound(self, periodic_compound: bool) -> (b: ConfigBuilder)
        ensures
            b.eps_set() == self.eps_set(),
            b.max_iterations_set() == self.max_iterations_set(),
            b.guess_set() == self.guess_set(),
            b.business_days_only_set() == self.business_days_only_set(),
            b.periodic_compound_set() == Some(periodic_compound),
    {
        ConfigBuilder { periodic_compound: Some(periodic_compound), ..self }
    }

    /// The configuration: each setting as set, or its default.
    pub fn build(self) -> (c: Config)
        ensures
            match self.eps_set() {
                Some(e) => c.eps == e,
                None => c.eps@ == default_eps(),
            },
            c.max_iterations == or_default(self.max_iterations_set(), 1000),
            match self.guess_set() {
                Some(g) => c.guess == g,
                None => c.guess@ == default_guess(),
            },
            c.business_days_only == or_default(self.business_days_only_set(), false),
            c.periodic_compound == or_default(self.periodic_compound_set(), true),
    {
        let default = Config::default();
        Config {
            eps: match self.eps {
                Some(e) => e,
                None => default.eps,
            },
            max_iterations: match self.max_iterations {
                Some(m) => m,
                None => default.max_iterations,
            },
            guess: match self.guess {
                Some(g) => g,
                None => default.guess,
            },
            business_days_only: match self.business_days_only {
                Some(b) => b,
                None => default.business_days_only,
            },
            periodic_compound: match self.periodic_compound {
                Some(p) => p,
                None => default.periodic_compound,
            },
        }
    }
}

impl Default for ConfigBuilder {
    fn default() -> (b: ConfigBuilder)
        ensures
            b == ConfigBuilder::empty_spec(),
    {
        ConfigBuilder::new()
    }
}

} // verus!
