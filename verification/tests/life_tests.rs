use aging_sim::config::SimulationConfig;
use aging_sim::life::advance_units;
use aging_sim::life::health_loss;
use aging_sim::life::run_life;
use aging_sim::life::simulate_one_life;
use aging_sim::life::simulate_one_life_logged;
use aging_sim::life::AGE_START_UNITS;
use aging_sim::life::DAILY_UNITS;
use aging_sim::life::HALF_INCREMENT_UNITS;
use aging_sim::life::QUARTER_INCREMENT_UNITS;
use aging_sim::life::UNITS_PER_INCREMENT;

fn base_config() -> SimulationConfig {
    SimulationConfig {
        starting_health: 10,
        death_threshold: 4,
        roll_bonus: 0,
        has_longevity: false,
        has_self_destruct: false,
    }
}

/// Simple deterministic generator of plausible roll sequences.
fn pseudo_rolls(seed: u64, n: usize) -> Vec<u8> {
    let mut state = seed;
    let mut rolls = Vec::with_capacity(n);
    for _ in 0..n {
        state = state.wrapping_mul(6364136223846793005).wrapping_add(1442695040888963407);
        rolls.push(3 + ((state >> 33) % 16) as u8);
    }
    rolls
}

#[test]
fn normal_rule_losses() {
    let c = base_config();
    // Rolls of 17 and 18 always cost two points.
    assert_eq!(health_loss(&c, 10, 18), 2);
    assert_eq!(health_loss(&c, 10, 17), 2);
    // Failure by more than nine costs two points.
    assert_eq!(health_loss(&c, 6, 16), 2);
    // An ordinary failure costs one.
    assert_eq!(health_loss(&c, 10, 11), 1);
    assert_eq!(health_loss(&c, 6, 15), 1);
    // A success costs nothing.
    assert_eq!(health_loss(&c, 10, 10), 0);
    assert_eq!(health_loss(&c, 10, 3), 0);
}

#[test]
fn longevity_rule_losses() {
    let mut c = base_config();
    c.has_longevity = true;
    // An 18 always costs one point, never two.
    assert_eq!(health_loss(&c, 10, 18), 1);
    // A 17 costs one point only against a modified health below 17.
    assert_eq!(health_loss(&c, 10, 17), 1);
    assert_eq!(health_loss(&c, 17, 17), 0);
    c.roll_bonus = 7;
    assert_eq!(health_loss(&c, 10, 17), 0);
    // Anything below 17 costs nothing under longevity.
    c.roll_bonus = 0;
    assert_eq!(health_loss(&c, 5, 16), 0);
    assert_eq!(health_loss(&c, 5, 3), 0);
}

#[test]
fn roll_bonus_shifts_failure_line() {
    let mut c = base_config();
    c.roll_bonus = 5;
    // Effective health 15: a 15 succeeds, a 16 fails by one point.
    assert_eq!(health_loss(&c, 10, 15), 0);
    assert_eq!(health_loss(&c, 10, 16), 1);
}

#[test]
fn advance_brackets() {
    assert_eq!(advance_units(false, AGE_START_UNITS), UNITS_PER_INCREMENT);
    assert_eq!(advance_units(false, 70 * UNITS_PER_INCREMENT - 1), UNITS_PER_INCREMENT);
    assert_eq!(advance_units(false, 70 * UNITS_PER_INCREMENT), HALF_INCREMENT_UNITS);
    assert_eq!(advance_units(false, 90 * UNITS_PER_INCREMENT - 1), HALF_INCREMENT_UNITS);
    assert_eq!(advance_units(false, 90 * UNITS_PER_INCREMENT), QUARTER_INCREMENT_UNITS);
    assert_eq!(advance_units(true, AGE_START_UNITS), DAILY_UNITS);
    assert_eq!(advance_units(true, 95 * UNITS_PER_INCREMENT), DAILY_UNITS);
}

#[test]
fn worst_rolls_die_on_schedule() {
    // Three all-18 rolls drain health 10 -> 8 -> 6 -> 4: dead at the third
    // check, after two full-increment advances.
    let c = base_config();
    let age = run_life(&c, &vec![18, 18, 18]).expect("three worst rolls kill");
    assert_eq!(age, AGE_START_UNITS + 2 * UNITS_PER_INCREMENT);
    // The worst-case bound: starting_health - death_threshold checks always
    // suffice, whatever follows in the sequence.
    let age = run_life(&c, &vec![18; 6]).expect("six worst rolls kill");
    assert_eq!(age, AGE_START_UNITS + 2 * UNITS_PER_INCREMENT);
}

#[test]
fn successful_rolls_never_kill() {
    let c = base_config();
    assert_eq!(run_life(&c, &vec![3; 10_000]), None);
}

#[test]
fn self_destruct_daily_cadence() {
    // A self-destructing subject advances four units (one day) per check:
    // dead at the third check, it has aged exactly two days.
    let mut c = base_config();
    c.has_self_destruct = true;
    let age = run_life(&c, &vec![18, 18, 18]).expect("three worst rolls kill");
    assert_eq!(age, AGE_START_UNITS + 2 * DAILY_UNITS);
    // Random trials: every death age is the start plus a whole number of
    // days, and the checks made are 365 times the years lived past start.
    for _ in 0..50 {
        let age = simulate_one_life(&c);
        assert_eq!((age - AGE_START_UNITS) % DAILY_UNITS, 0);
    }
}

#[test]
fn age_never_below_start() {
    let configs = [
        base_config(),
        SimulationConfig {
            starting_health: 14,
            death_threshold: 2,
            roll_bonus: 5,
            has_longevity: true,
            has_self_destruct: false,
        },
        SimulationConfig {
            starting_health: 3,
            death_threshold: 10,
            roll_bonus: -4,
            has_longevity: false,
            has_self_destruct: true,
        },
    ];
    for c in configs {
        for _ in 0..200 {
            assert!(simulate_one_life(&c) >= AGE_START_UNITS);
        }
    }
}

#[test]
fn longevity_never_dies_younger_on_same_rolls() {
    let normal = base_config();
    let mut longevity = base_config();
    longevity.has_longevity = true;
    for seed in 1..=20u64 {
        let rolls = pseudo_rolls(seed, 200_000);
        let age_normal = run_life(&normal, &rolls).expect("normal run dies");
        let age_longevity = run_life(&longevity, &rolls).expect("longevity run dies");
        assert!(age_longevity >= age_normal);
    }
}

#[test]
fn logged_trace_describes_the_run() {
    let mut c = base_config();
    c.roll_bonus = 2;
    let (age, trace) = simulate_one_life_logged(&c);
    assert!(!trace.is_empty());
    assert_eq!(trace[0].age_units, AGE_START_UNITS);
    assert_eq!(trace.last().unwrap().age_units, age);
    // The records chain as one health trajectory: the first check starts
    // from the configured health, each later one from the health the
    // previous check left.
    assert_eq!(trace[0].health + trace[0].loss as i16, c.starting_health as i16);
    let mut prev_age = AGE_START_UNITS;
    let mut prev_health = c.starting_health as i16;
    for rec in &trace {
        assert!((3..=18).contains(&rec.roll));
        assert!(rec.loss <= 2);
        assert_eq!(rec.health + rec.loss as i16, prev_health);
        assert_eq!(rec.effective, rec.health as i32 + 2);
        assert!(rec.age_units >= prev_age);
        prev_age = rec.age_units;
        prev_health = rec.health;
    }
    assert!(trace.last().unwrap().health <= c.death_threshold as i16);
}
