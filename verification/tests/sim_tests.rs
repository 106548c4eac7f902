use aging_sim::config::roll_bonus_from;
use aging_sim::config::SimulationConfig;
use aging_sim::life::AGE_START_UNITS;
use aging_sim::sim::run_simulation;
use aging_sim::sim::run_trials;
use aging_sim::sim::run_trials_parallel;
use aging_sim::stats::SimError;

#[test]
fn bonus_derivation() {
    // Technology level 8, no flat modifier: bonus 5.
    assert_eq!(roll_bonus_from(8, 0, false), 5);
    // Self-destruct costs a flat three points.
    assert_eq!(roll_bonus_from(8, 0, true), 2);
    assert_eq!(roll_bonus_from(3, -2, false), -2);
    assert_eq!(roll_bonus_from(0, -5, true), -11);
}

#[test]
fn zero_iterations_raise_empty_result_set() {
    let c = SimulationConfig {
        starting_health: 10,
        death_threshold: 4,
        roll_bonus: 5,
        has_longevity: false,
        has_self_destruct: false,
    };
    assert_eq!(run_simulation(&c, 0), Err(SimError::EmptyResultSet));
}

#[test]
fn drivers_collect_one_age_per_trial() {
    let c = SimulationConfig {
        starting_health: 12,
        death_threshold: 3,
        roll_bonus: 1,
        has_longevity: false,
        has_self_destruct: false,
    };
    let sequential = run_trials(&c, 100);
    assert_eq!(sequential.len(), 100);
    for &age in &sequential {
        assert!(age >= AGE_START_UNITS);
    }
    let parallel = run_trials_parallel(&c, 1000);
    assert_eq!(parallel.len(), 1000);
    for &age in &parallel {
        assert!(age >= AGE_START_UNITS);
    }
}

#[test]
fn end_to_end_distribution_is_nondegenerate() {
    // Health 10, dead at 4, bonus 5, normal rules, run at scale: the median
    // death age must sit strictly above the starting age and the spread
    // must be real.
    let c = SimulationConfig {
        starting_health: 10,
        death_threshold: 4,
        roll_bonus: 5,
        has_longevity: false,
        has_self_destruct: false,
    };
    let s = run_simulation(&c, 100_000).expect("non-empty run");
    assert_eq!(s.count, 100_000);
    assert!(s.min >= AGE_START_UNITS);
    assert!(s.median_times_two > 2 * AGE_START_UNITS);
    assert!(s.variance_num > 0);
    assert!(s.max >= s.min);
    assert!(s.median_times_two >= 2 * s.min as u64);
    assert!(s.median_times_two <= 2 * s.max as u64);
}

#[test]
fn longevity_shifts_the_distribution_up() {
    // With longevity only 18s (and low-health 17s) cost health, so at scale
    // its mean death age clearly exceeds the normal rule's.
    let normal = SimulationConfig {
        starting_health: 10,
        death_threshold: 4,
        roll_bonus: 0,
        has_longevity: false,
        has_self_destruct: false,
    };
    let longevity = SimulationConfig { has_longevity: true, ..normal };
    let s_normal = run_simulation(&normal, 20_000).expect("non-empty run");
    let s_longevity = run_simulation(&longevity, 20_000).expect("non-empty run");
    let mean_normal = s_normal.sum as f64 / s_normal.count as f64;
    let mean_longevity = s_longevity.sum as f64 / s_longevity.count as f64;
    assert!(mean_longevity > mean_normal);
}
