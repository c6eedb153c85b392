//! Simulation configuration and the error taxonomy.

use vstd::prelude::*;

verus! {

/// The two ways the library can fail.
#[derive(Clone, Copy, Debug, PartialEq, Eq, Structural)]
pub enum Error {
    /// Rejected parameters: fewer than 3 doors, zero trials, or a host
    /// who would open so many doors that no genuine switch remains.
    InvalidConfiguration,
    /// A door draw was requested while every door was excluded.
    ExhaustedCandidates,
}

/// Parameters of one simulation run, immutable once validated.
#[derive(Clone, Copy, Debug)]
pub struct Config {
    /// Total number of doors, at least 3.
    pub doors: u32,
    /// Number of independent trials, at least 1.
    pub trials: u32,
    /// Number of doors the host opens; `opened + 1 < doors` so that the
    /// contestant is always left a genuine second choice.
    pub opened: u32,
}

impl Config {
    /// The configuration invariant: every trial can run to completion.
    pub open spec fn valid(self) -> bool {
        self.doors >= 3 && self.trials >= 1 && self.opened + 1 < self.doors
    }

    /// Validates the parameters; accepts exactly the valid configurations.
    pub fn new(doors: u32, trials: u32, opened: u32) -> (res: Result<Config, Error>)
        ensures
            match res {
                Ok(c) => c.doors == doors && c.trials == trials && c.opened == opened && c.valid(),
                Err(e) => e == Error::InvalidConfiguration && !(Config {
                    doors,
                    trials,
                    opened,
                }).valid(),
            },
    {
        if doors >= 3 && trials >= 1 && opened < doors - 1 {
            Ok(Config { doors, trials, opened })
        } else {
            Err(Error::InvalidConfiguration)
        }
    }
}

} // verus!
