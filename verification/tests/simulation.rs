use montyhall::config::Config;
use montyhall::config::Error;
use montyhall::rng::Gna;
use montyhall::simulate::empirical_rates;
use montyhall::simulate::run_simulation;
use montyhall::simulate::simulate;
use montyhall::trial::run_trial;
use montyhall::trial::Jeu;

#[test]
fn staying_and_switching_never_both_win() {
    // with 3 doors exactly one strategy wins each round
    let mut jeu = Jeu::new(3);
    for _ in 0..1000 {
        let (sans, avec) = jeu.tour();
        assert!(sans != avec);
    }
    let mut gna = Gna::new();
    let config = Config::new(6, 1, 3).unwrap();
    for _ in 0..1000 {
        let (sans, avec) = run_trial(&mut gna, &config);
        assert!(!(sans && avec));
    }
    // host opens all doors but two: the switch is forced, so again
    // exactly one strategy wins
    let config = Config::new(6, 1, 4).unwrap();
    for _ in 0..1000 {
        let (sans, avec) = run_trial(&mut gna, &config);
        assert!(sans != avec);
    }
}

#[test]
fn invalid_configurations_are_rejected() {
    assert_eq!(Config::new(3, 100, 2).unwrap_err(), Error::InvalidConfiguration);
    assert_eq!(Config::new(3, 0, 1).unwrap_err(), Error::InvalidConfiguration);
    assert_eq!(Config::new(2, 100, 0).unwrap_err(), Error::InvalidConfiguration);
    let mut gna = Gna::new();
    assert_eq!(run_simulation(&mut gna, 3, 100, 2), Err(Error::InvalidConfiguration));
    assert_eq!(run_simulation(&mut gna, 3, 0, 1), Err(Error::InvalidConfiguration));
    let c = Config::new(3, 100, 1).unwrap();
    assert_eq!((c.doors, c.trials, c.opened), (3, 100, 1));
}

#[test]
fn classical_game_converges_to_one_third_and_two_thirds() {
    let mut gna = Gna::new();
    let tally = run_simulation(&mut gna, 3, 100000, 1).unwrap();
    assert_eq!(tally.trials, 100000);
    // every classical round is won by exactly one strategy
    assert_eq!(tally.stay_wins + tally.switch_wins, tally.trials);
    let stay_rate = f64::from(tally.stay_wins) / f64::from(tally.trials);
    let switch_rate = f64::from(tally.switch_wins) / f64::from(tally.trials);
    assert!((stay_rate - 0.3333).abs() < 0.01, "stay rate {stay_rate}");
    assert!((switch_rate - 0.6667).abs() < 0.01, "switch rate {switch_rate}");
}

#[test]
fn tally_counts_bound_the_trials() {
    let mut gna = Gna::new();
    let config = Config::new(5, 2000, 2).unwrap();
    let tally = simulate(&mut gna, &config);
    assert_eq!(tally.trials, 2000);
    assert!(tally.stay_wins <= 2000);
    assert!(tally.switch_wins <= 2000);
    assert!(tally.stay_wins + tally.switch_wins <= 2000);
}

#[test]
fn empirical_rates_are_exact_fractions_of_the_tally() {
    let mut gna = Gna::new();
    let config = Config::new(4, 100, 1).unwrap();
    let mut tally = simulate(&mut gna, &config);
    let (stay, switch) = empirical_rates(&tally);
    assert_eq!(stay.num(), u64::from(tally.stay_wins));
    assert_eq!(stay.den(), 100);
    assert_eq!(switch.num(), u64::from(tally.switch_wins));
    assert_eq!(switch.den(), 100);
    tally.stay_wins = 1;
    tally.switch_wins = 2;
    tally.trials = 4;
    let (stay, switch) = empirical_rates(&tally);
    assert_eq!((stay.num(), stay.den()), (1, 4));
    assert_eq!((switch.num(), switch.den()), (2, 4));
}

#[test]
fn host_opening_no_door_still_plays_a_fair_round() {
    // with no door opened the switch is a blind re-pick among the
    // other doors; the round must still be well formed and exclusive
    let mut gna = Gna::new();
    let config = Config::new(3, 1, 0).unwrap();
    for _ in 0..500 {
        let (sans, avec) = run_trial(&mut gna, &config);
        assert!(!(sans && avec));
    }
}
