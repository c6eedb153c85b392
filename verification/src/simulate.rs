//! The simulation driver: independent trials and their tally.

use crate::config::Config;
use crate::config::Error;
use crate::rational::Rational;
use crate::rng::Gna;
use crate::trial::run_trial;
use vstd::prelude::*;

verus! {

/// The outcome of a whole simulation run: win counts for the two
/// strategies over `trials` trials.
#[derive(Clone, Copy, Debug, PartialEq, Eq, Structural)]
pub struct Tally {
    /// Trials won by keeping the original pick.
    pub stay_wins: u32,
    /// Trials won by switching doors.
    pub switch_wins: u32,
    /// Number of trials run.
    pub trials: u32,
}

/// Runs `config.trials` independent trials and counts the wins of
/// each strategy.  The outcomes of one trial are mutually exclusive,
/// so the two counts together never exceed the number of trials; when
/// the host opens all doors but two, every round is won by exactly
/// one strategy, so the counts sum to the trial count.
pub fn simulate(gna: &mut Gna, config: &Config) -> (t: Tally)
    requires
        config.valid(),
    ensures
        t.trials == config.trials,
        t.stay_wins + t.switch_wins <= t.trials,
        config.doors == config.opened + 2 ==> t.stay_wins + t.switch_wins == t.trials,
{
    let mut stay: u32 = 0;
    let mut switch: u32 = 0;
    let mut i: u32 = 0;
    while i < config.trials
        invariant
            config.valid(),
            i <= config.trials,
            stay + switch <= i,
            config.doors == config.opened + 2 ==> stay + switch == i,
        decreases config.trials - i,
    {
        let (sans, avec) = run_trial(gna, config);
        if sans {
            stay += 1;
        }
        if avec {
            switch += 1;
        }
        i += 1;
    }
    Tally { stay_wins: stay, switch_wins: switch, trials: config.trials }
}

/// Validates the parameters and runs the whole simulation: accepts
/// exactly the valid configurations, and rejects the rest before any
/// trial runs.
pub fn run_simulation(gna: &mut Gna, doors: u32, trials: u32, opened: u32) -> (res: Result<
    Tally,
    Error,
>)
    ensures
        match res {
            Ok(t) => (Config { doors, trials, opened }).valid() && t.trials == trials
                && t.stay_wins + t.switch_wins <= t.trials && (doors == opened + 2
                ==> t.stay_wins + t.switch_wins == t.trials),
            Err(e) => e == Error::InvalidConfiguration && !(Config {
                doors,
                trials,
                opened,
            }).valid(),
        },
{
    let config = match Config::new(doors, trials, opened) {
        Ok(c) => c,
        Err(e) => {
            return Err(e);
        },
    };
    Ok(simulate(gna, &config))
}

/// The empirical win rates of a tally, as exact rationals
/// `wins / trials`; each lies in `[0, 1]`.
pub fn empirical_rates(t: &Tally) -> (r: (Rational, Rational))
    requires
        t.trials >= 1,
        t.stay_wins + t.switch_wins <= t.trials,
    ensures
        r.0.wf(),
        r.0.spec_num() == t.stay_wins,
        r.0.spec_den() == t.trials,
        r.1.wf(),
        r.1.spec_num() == t.switch_wins,
        r.1.spec_den() == t.trials,
        r.0.spec_num() <= r.0.spec_den(),
        r.1.spec_num() <= r.1.spec_den(),
{
    let stay = Rational::new(t.stay_wins as u64, t.trials as u64);
    let switch = Rational::new(t.switch_wins as u64, t.trials as u64);
    (stay, switch)
}

} // verus!
