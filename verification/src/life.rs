//! The aging state machine: one simulated life.
//!
//! A life starts at fifty increments of age with the configured health and
//! repeatedly makes an aging roll.  A failed roll costs health; when health
//! falls to the death threshold the life ends and its age is the trial's
//! result.  Between rolls the age advances by a full, half or quarter
//! increment depending on the age bracket, or by one day for a
//! self-destructing subject.
//!
//! The transition rules live in the spec functions `loss_spec` and
//! `advance_spec`; `health_after` and `age_after` fold them over a sequence
//! of rolls, and the executable machine is proved to follow that model
//! exactly.  The lemmas at the end state the rule set's laws: age never
//! falls below its start, health never rises, a run of worst-case rolls
//! dies within `starting_health - death_threshold` checks, a
//! self-destructing subject ages by exactly one day per check, and enabling
//! longevity never brings death earlier on the same rolls.

use crate::config::SimulationConfig;
use crate::roll::roll_3d6;
use vstd::prelude::*;

verus! {

/// Age units in one aging increment: a unit is a quarter of a day, so the
/// daily, quarter-, half- and full-increment cadences are all whole units.
pub const UNITS_PER_INCREMENT: u64 = 1460;

/// Age units in one day of a 365-day year.
pub const DAILY_UNITS: u64 = 4;

/// Age units in half an increment.
pub const HALF_INCREMENT_UNITS: u64 = 730;

/// Age units in a quarter increment.
pub const QUARTER_INCREMENT_UNITS: u64 = 365;

/// Age at which aging rolls begin: fifty increments.
pub const AGE_START_UNITS: u64 = 50 * UNITS_PER_INCREMENT;

/// From seventy increments of age, checks advance age by half an increment.
pub const HALF_BRACKET_UNITS: u64 = 70 * UNITS_PER_INCREMENT;

/// From ninety increments of age, checks advance age by a quarter increment.
pub const QUARTER_BRACKET_UNITS: u64 = 90 * UNITS_PER_INCREMENT;

/// Horizon of the simulation: a trial still alive at this age (about 2.9
/// million increments, unreachable in practice) is reported as it stands.
pub const AGE_UNITS_CAP: u64 = 4294967295;

/// Health lost to one aging roll.
///
/// Under longevity only a roll of 18, or of 17 against a modified health
/// below 17, costs health, and only one point.  Under the normal rule a
/// roll of 17 or 18, or a failure by more than 9, costs two points, and any
/// other failed roll one.
pub open spec fn loss_spec(longevity: bool, bonus: int, health: int, roll: int) -> int
    recommends
        3 <= roll <= 18,
{
    if longevity {
        if roll == 18 || (roll == 17 && health + bonus < 17) {
            1
        } else {
            0
        }
    } else if roll > 16 || roll > health + bonus + 9 {
        2
    } else if roll > health + bonus {
        1
    } else {
        0
    }
}

/// Age units gained after a survived check: one day for a self-destructing
/// subject, else a full, half or quarter increment by age bracket.
pub open spec fn advance_spec(self_destruct: bool, age_units: int) -> int {
    if self_destruct {
        DAILY_UNITS as int
    } else if age_units < HALF_BRACKET_UNITS as int {
        UNITS_PER_INCREMENT as int
    } else if age_units < QUARTER_BRACKET_UNITS as int {
        HALF_INCREMENT_UNITS as int
    } else {
        QUARTER_INCREMENT_UNITS as int
    }
}

/// Health remaining after the first `k` rolls of `rolls` have been applied.
pub open spec fn health_after(c: SimulationConfig, rolls: Seq<u8>, k: int) -> int
    decreases k,
{
    if k <= 0 {
        c.starting_health as int
    } else {
        let h = health_after(c, rolls, k - 1);
        h - loss_spec(c.has_longevity, c.roll_bonus as int, h, rolls[k - 1] as int)
    }
}

/// Age in units after `k` survived checks.  The cadence depends only on the
/// current age, so this is independent of the rolls.
pub open spec fn age_after(self_destruct: bool, k: int) -> int
    decreases k,
{
    if k <= 0 {
        AGE_START_UNITS as int
    } else {
        let a = age_after(self_destruct, k - 1);
        a + advance_spec(self_destruct, a)
    }
}

/// The check of roll `k` (counting from 1) finds the subject dead.
pub open spec fn dead_at(c: SimulationConfig, rolls: Seq<u8>, k: int) -> bool {
    health_after(c, rolls, k) <= c.death_threshold as int
}

/// Every roll of the sequence is a possible 3d6 value.
pub open spec fn rolls_valid(rolls: Seq<u8>) -> bool {
    forall|i: int| 0 <= i < rolls.len() ==> 3 <= #[trigger] rolls[i] <= 18
}

/// Roll `k` is the first whose check finds the subject dead.
pub open spec fn first_death(c: SimulationConfig, rolls: Seq<u8>, k: int) -> bool {
    &&& 1 <= k <= rolls.len()
    &&& dead_at(c, rolls, k)
    &&& forall|j: int| 1 <= j < k ==> !dead_at(c, rolls, j)
}

/// Some sequence of 3d6 rolls kills the subject exactly at age `age`.
pub open spec fn death_age_reachable(c: SimulationConfig, age: u64) -> bool {
    exists|rolls: Seq<u8>|
        {
            &&& #[trigger] rolls_valid(rolls)
            &&& first_death(c, rolls, rolls.len() as int)
            &&& age as int == age_after(c.has_self_destruct, rolls.len() - 1)
        }
}

/// Some sequence of 3d6 rolls leaves the subject alive at exactly age
/// `age` with the next advance overshooting the horizon: the state of a
/// trial that outlived the simulation.
pub open spec fn alive_at_horizon(c: SimulationConfig, age: u64) -> bool {
    exists|rolls: Seq<u8>|
        {
            &&& #[trigger] rolls_valid(rolls)
            &&& forall|j: int| 1 <= j <= rolls.len() ==> !dead_at(c, rolls, j)
            &&& age as int == age_after(c.has_self_destruct, rolls.len() as int)
            &&& age as int + advance_spec(c.has_self_destruct, age as int) > AGE_UNITS_CAP as int
        }
}

/// What one trial may report: a reachable death age, or — beyond any
/// practically reachable age — the age of a run that survived every check
/// up to the horizon.  Either way the age belongs to an actual run of the
/// rule set.
pub open spec fn trial_outcome(c: SimulationConfig, age: u64) -> bool {
    &&& AGE_START_UNITS <= age <= AGE_UNITS_CAP
    &&& (death_age_reachable(c, age) || alive_at_horizon(c, age))
}

/// Health lost to the roll `roll` at the given current health.
pub fn health_loss(c: &SimulationConfig, health: i16, roll: u8) -> (r: u8)
    requires
        3 <= roll <= 18,
    ensures
        r as int == loss_spec(c.has_longevity, c.roll_bonus as int, health as int, roll as int),
        r <= 2,
{
    let effective: i32 = health as i32 + c.roll_bonus as i32;
    if c.has_longevity {
        if roll == 18 || (roll == 17 && effective < 17) {
            1
        } else {
            0
        }
    } else if roll > 16 || roll as i32 > effective + 9 {
        2
    } else if roll as i32 > effective {
        1
    } else {
        0
    }
}

/// Age units gained after a survived check at age `age_units`.
pub fn advance_units(self_destruct: bool, age_units: u64) -> (r: u64)
    ensures
        r as int == advance_spec(self_destruct, age_units as int),
        DAILY_UNITS <= r <= UNITS_PER_INCREMENT,
{
    if self_destruct {
        DAILY_UNITS
    } else if age_units < HALF_BRACKET_UNITS {
        UNITS_PER_INCREMENT
    } else if age_units < QUARTER_BRACKET_UNITS {
        HALF_INCREMENT_UNITS
    } else {
        QUARTER_INCREMENT_UNITS
    }
}

/// Age after `k` checks stays between its start and `k` full increments
/// above it.
pub proof fn lemma_age_after_bounds(self_destruct: bool, k: int)
    requires
        0 <= k,
    ensures
        AGE_START_UNITS as int <= age_after(self_destruct, k),
        age_after(self_destruct, k) <= AGE_START_UNITS as int + (UNITS_PER_INCREMENT as int) * k,
    decreases k,
{
    if k > 0 {
        lemma_age_after_bounds(self_destruct, k - 1);
    }
}

/// Age never decreases as checks pass.
pub proof fn lemma_age_after_monotone(self_destruct: bool, j: int, k: int)
    requires
        0 <= j <= k,
    ensures
        age_after(self_destruct, j) <= age_after(self_destruct, k),
    decreases k,
{
    if j < k {
        lemma_age_after_monotone(self_destruct, j, k - 1);
        lemma_age_after_bounds(self_destruct, k - 1);
    }
}

/// The health trajectory depends only on the rolls already made: extending
/// the roll sequence does not change it.
pub proof fn lemma_health_after_prefix(
    c: SimulationConfig,
    rolls: Seq<u8>,
    ext: Seq<u8>,
    k: int,
)
    requires
        0 <= k <= rolls.len(),
        rolls.len() <= ext.len(),
        forall|i: int| 0 <= i < rolls.len() ==> rolls[i] == ext[i],
    ensures
        health_after(c, ext, k) == health_after(c, rolls, k),
    decreases k,
{
    if k > 0 {
        lemma_health_after_prefix(c, rolls, ext, k - 1);
    }
}

/// Simulate one life: roll until the death check fails, then report the
/// age reached, in units.  The result is the death age of some sequence of
/// 3d6 rolls — or, beyond any practically reachable age, the age at which
/// the trial hit the horizon.
pub fn simulate_one_life(c: &SimulationConfig) -> (r: u64)
    ensures
        trial_outcome(*c, r),
{
    let mut health: i16 = c.starting_health as i16;
    let mut age: u64 = AGE_START_UNITS;
    let ghost mut rolls: Seq<u8> = Seq::empty();
    loop
        invariant
            rolls_valid(rolls),
            health as int == health_after(*c, rolls, rolls.len() as int),
            0 <= health <= 255,
            forall|j: int| 1 <= j <= rolls.len() ==> !dead_at(*c, rolls, j),
            age as int == age_after(c.has_self_destruct, rolls.len() as int),
            AGE_START_UNITS <= age <= AGE_UNITS_CAP,
        decreases AGE_UNITS_CAP - age,
    {
        let roll = roll_3d6();
        let loss = health_loss(c, health, roll);
        let ghost prev = rolls;
        proof {
            rolls = rolls.push(roll);
            assert forall|i: int| 0 <= i < rolls.len() implies 3 <= #[trigger] rolls[i] <= 18 by {
                if i < prev.len() {
                    assert(rolls[i] == prev[i]);
                } else {
                    assert(rolls[i] == roll);
                }
            }
            assert(rolls_valid(rolls));
            assert forall|j: int| 0 <= j <= prev.len() implies health_after(*c, rolls, j)
                == health_after(*c, prev, j) by {
                lemma_health_after_prefix(*c, prev, rolls, j);
            }
            assert(rolls[rolls.len() - 1] == roll);
            assert(health_after(*c, rolls, rolls.len() as int) == health_after(
                *c,
                prev,
                prev.len() as int,
            ) - loss_spec(
                c.has_longevity,
                c.roll_bonus as int,
                health_after(*c, prev, prev.len() as int),
                roll as int,
            ));
        }
        health = health - loss as i16;
        if health <= c.death_threshold as i16 {
            proof {
                let k = rolls.len() as int;
                assert(health as int == health_after(*c, rolls, k));
                assert(dead_at(*c, rolls, k));
                assert forall|j: int| 1 <= j < k implies !dead_at(*c, rolls, j) by {
                    assert(!dead_at(*c, prev, j));
                    assert(health_after(*c, rolls, j) == health_after(*c, prev, j)) by {
                        lemma_health_after_prefix(*c, prev, rolls, j);
                    }
                }
                assert(first_death(*c, rolls, k));
                assert(age as int == age_after(c.has_self_destruct, k - 1));
                assert(death_age_reachable(*c, age));
            }
            return age;
        }
        proof {
            let k = rolls.len() as int;
            assert forall|j: int| 1 <= j <= k implies !dead_at(*c, rolls, j) by {
                if j < k {
                    assert(!dead_at(*c, prev, j));
                    assert(health_after(*c, rolls, j) == health_after(*c, prev, j)) by {
                        lemma_health_after_prefix(*c, prev, rolls, j);
                    }
                } else {
                    assert(health as int == health_after(*c, rolls, k));
                }
            }
        }
        let adv = advance_units(c.has_self_destruct, age);
        if adv > AGE_UNITS_CAP - age {
            proof {
                assert(rolls_valid(prev));
                assert(age as int == age_after(c.has_self_destruct, prev.len() as int));
                assert(age as int + advance_spec(c.has_self_destruct, age as int)
                    > AGE_UNITS_CAP as int);
                assert(alive_at_horizon(*c, age));
            }
            return age;
        }
        age = age + adv;
    }
}

/// One aging check, as a verbose trial log reports it: the health left
/// after the roll's loss, the modified health the next comparison will
/// use, the age at the check in units, the roll made, and the health lost
/// to it.
#[derive(Clone, Copy, Debug, PartialEq, Eq, Structural)]
pub struct RollRecord {
    /// Health after the loss was applied.
    pub health: i16,
    /// Health plus the roll bonus, after the loss was applied.
    pub effective: i32,
    /// Age at the check, in units.
    pub age_units: u64,
    /// The 3d6 roll.
    pub roll: u8,
    /// Health lost to the roll.
    pub loss: u8,
}

/// Simulate one life and also return the record of every check, for a
/// verbose trial log.  The records are a pure side channel: the reported
/// age is a trial outcome exactly as for `simulate_one_life`, there is one
/// record per check in order, and the reported age is the age of the last
/// check.  The records chain as the health trajectory of one run: the
/// first check starts from the configured health, each later check starts
/// from the health the previous one left, and the last check found the
/// subject dead — unless the run outlived the horizon.
pub fn simulate_one_life_logged(c: &SimulationConfig) -> (r: (u64, Vec<RollRecord>))
    ensures
        trial_outcome(*c, r.0),
        r.1@.len() >= 1,
        r.0 == r.1@.last().age_units,
        r.1@[0].health as int + r.1@[0].loss as int == c.starting_health as int,
        forall|i: int|
            1 <= i < r.1@.len() ==> (#[trigger] r.1@[i]).health as int + r.1@[i].loss as int
                == r.1@[i - 1].health as int,
        r.1@.last().health as int <= c.death_threshold as int || alive_at_horizon(*c, r.0),
        forall|i: int|
            0 <= i < r.1@.len() ==> {
                &&& 3 <= (#[trigger] r.1@[i]).roll <= 18
                &&& r.1@[i].loss as int == loss_spec(
                    c.has_longevity,
                    c.roll_bonus as int,
                    r.1@[i].health as int + r.1@[i].loss as int,
                    r.1@[i].roll as int,
                )
                &&& r.1@[i].effective as int == r.1@[i].health as int + c.roll_bonus as int
                &&& r.1@[i].age_units as int == age_after(c.has_self_destruct, i)
            },
{
    let mut health: i16 = c.starting_health as i16;
    let mut age: u64 = AGE_START_UNITS;
    let mut trace: Vec<RollRecord> = Vec::new();
    let ghost mut rolls: Seq<u8> = Seq::empty();
    loop
        invariant
            rolls_valid(rolls),
            health as int == health_after(*c, rolls, rolls.len() as int),
            0 <= health <= 255,
            forall|j: int| 1 <= j <= rolls.len() ==> !dead_at(*c, rolls, j),
            age as int == age_after(c.has_self_destruct, rolls.len() as int),
            AGE_START_UNITS <= age <= AGE_UNITS_CAP,
            trace@.len() == rolls.len(),
            forall|i: int|
                0 <= i < trace@.len() ==> {
                    &&& 3 <= (#[trigger] trace@[i]).roll <= 18
                    &&& trace@[i].loss as int == loss_spec(
                        c.has_longevity,
                        c.roll_bonus as int,
                        trace@[i].health as int + trace@[i].loss as int,
                        trace@[i].roll as int,
                    )
                    &&& trace@[i].effective as int == trace@[i].health as int + c.roll_bonus as int
                    &&& trace@[i].age_units as int == age_after(c.has_self_destruct, i)
                },
            forall|i: int|
                0 <= i < trace@.len() ==> (#[trigger] trace@[i]).health as int + trace@[i].loss
                    as int == health_after(*c, rolls, i) && trace@[i].health as int
                    == health_after(*c, rolls, i + 1),
        decreases AGE_UNITS_CAP - age,
    {
        let roll = roll_3d6();
        let loss = health_loss(c, health, roll);
        let ghost prev = rolls;
        proof {
            rolls = rolls.push(roll);
            assert forall|i: int| 0 <= i < rolls.len() implies 3 <= #[trigger] rolls[i] <= 18 by {
                if i < prev.len() {
                    assert(rolls[i] == prev[i]);
                } else {
                    assert(rolls[i] == roll);
                }
            }
            assert(rolls_valid(rolls));
            assert forall|j: int| 0 <= j <= prev.len() implies health_after(*c, rolls, j)
                == health_after(*c, prev, j) by {
                lemma_health_after_prefix(*c, prev, rolls, j);
            }
            assert(rolls[rolls.len() - 1] == roll);
            assert(health_after(*c, rolls, rolls.len() as int) == health_after(
                *c,
                prev,
                prev.len() as int,
            ) - loss_spec(
                c.has_longevity,
                c.roll_bonus as int,
                health_after(*c, prev, prev.len() as int),
                roll as int,
            ));
        }
        health = health - loss as i16;
        let rec = RollRecord {
            health,
            effective: health as i32 + c.roll_bonus as i32,
            age_units: age,
            roll,
            loss,
        };
        let ghost prev_trace = trace@;
        trace.push(rec);
        proof {
            let k = rolls.len() as int;
            assert(health as int == health_after(*c, rolls, k));
            assert(rec.health as int + rec.loss as int == health_after(*c, rolls, k - 1));
            assert forall|i: int|
                0 <= i < trace@.len() implies ((#[trigger] trace@[i]).health as int
                + trace@[i].loss as int == health_after(*c, rolls, i) && trace@[i].health as int
                == health_after(*c, rolls, i + 1)) by {
                if i < k - 1 {
                    assert(trace@[i] == prev_trace[i]);
                    assert(health_after(*c, rolls, i) == health_after(*c, prev, i));
                    assert(health_after(*c, rolls, i + 1) == health_after(*c, prev, i + 1));
                } else {
                    assert(trace@[i] == rec);
                }
            }
            assert(trace@[0].health as int + trace@[0].loss as int == c.starting_health as int);
            assert forall|i: int|
                1 <= i < trace@.len() implies (#[trigger] trace@[i]).health as int
                + trace@[i].loss as int == trace@[i - 1].health as int by {
                assert(trace@[i].health as int + trace@[i].loss as int == health_after(
                    *c,
                    rolls,
                    i,
                ));
                assert(trace@[i - 1].health as int == health_after(*c, rolls, i));
            }
        }
        if health <= c.death_threshold as i16 {
            proof {
                let k = rolls.len() as int;
                assert(health as int == health_after(*c, rolls, k));
                assert(dead_at(*c, rolls, k));
                assert forall|j: int| 1 <= j < k implies !dead_at(*c, rolls, j) by {
                    assert(!dead_at(*c, prev, j));
                    assert(health_after(*c, rolls, j) == health_after(*c, prev, j)) by {
                        lemma_health_after_prefix(*c, prev, rolls, j);
                    }
                }
                assert(first_death(*c, rolls, k));
                assert(age as int == age_after(c.has_self_destruct, k - 1));
                assert(death_age_reachable(*c, age));
                assert(trace@.last() == rec);
                assert(trace@.last().health as int <= c.death_threshold as int);
            }
            return (age, trace);
        }
        proof {
            let k = rolls.len() as int;
            assert forall|j: int| 1 <= j <= k implies !dead_at(*c, rolls, j) by {
                if j < k {
                    assert(!dead_at(*c, prev, j));
                    assert(health_after(*c, rolls, j) == health_after(*c, prev, j)) by {
                        lemma_health_after_prefix(*c, prev, rolls, j);
                    }
                } else {
                    assert(health as int == health_after(*c, rolls, k));
                }
            }
        }
        let adv = advance_units(c.has_self_destruct, age);
        if adv > AGE_UNITS_CAP - age {
            proof {
                assert(trace@.last() == rec);
                assert(rolls_valid(prev));
                assert(age as int == age_after(c.has_self_destruct, prev.len() as int));
                assert(age as int + advance_spec(c.has_self_destruct, age as int)
                    > AGE_UNITS_CAP as int);
                assert(alive_at_horizon(*c, age));
            }
            return (age, trace);
        }
        age = age + adv;
    }
}

/// Run one life against a fixed, finite sequence of rolls.  Returns the
/// death age if the rolls kill the subject, `None` if the subject outlives
/// them.  The length bound keeps the age far below the horizon.
pub fn run_life(c: &SimulationConfig, rolls: &Vec<u8>) -> (r: Option<u64>)
    requires
        rolls_valid(rolls@),
        rolls@.len() <= 2000000,
    ensures
        match r {
            Some(age) => exists|k: int|
                #[trigger] first_death(*c, rolls@, k) && age as int == age_after(
                    c.has_self_destruct,
                    k - 1,
                ),
            None => forall|j: int| 1 <= j <= rolls@.len() ==> !dead_at(*c, rolls@, j),
        },
{
    let n = rolls.len();
    let mut health: i16 = c.starting_health as i16;
    let mut age: u64 = AGE_START_UNITS;
    let mut i: usize = 0;
    while i < n
        invariant
            n == rolls@.len(),
            rolls_valid(rolls@),
            i <= n,
            health as int == health_after(*c, rolls@, i as int),
            0 <= health <= 255,
            forall|j: int| 1 <= j <= i ==> !dead_at(*c, rolls@, j),
            age as int == age_after(c.has_self_destruct, i as int),
            rolls@.len() <= 2000000,
        decreases n - i,
    {
        let roll = rolls[i];
        let loss = health_loss(c, health, roll);
        health = health - loss as i16;
        if health <= c.death_threshold as i16 {
            proof {
                assert(first_death(*c, rolls@, i + 1));
            }
            return Some(age);
        }
        let adv = advance_units(c.has_self_destruct, age);
        proof {
            lemma_age_after_bounds(c.has_self_destruct, i + 1);
        }
        age = age + adv;
        i = i + 1;
    }
    None
}

/// Age at death never falls below the age at which aging rolls begin.
pub proof fn lemma_death_age_at_least_start(c: SimulationConfig, age: u64)
    requires
        death_age_reachable(c, age),
    ensures
        age >= AGE_START_UNITS,
{
    let rolls = choose|rolls: Seq<u8>|
        {
            &&& #[trigger] rolls_valid(rolls)
            &&& first_death(c, rolls, rolls.len() as int)
            &&& age as int == age_after(c.has_self_destruct, rolls.len() - 1)
        };
    lemma_age_after_bounds(c.has_self_destruct, rolls.len() - 1);
}

/// Health never rises: each check leaves health at or below what it was.
pub proof fn lemma_health_never_increases(c: SimulationConfig, rolls: Seq<u8>, k: int)
    requires
        1 <= k,
    ensures
        health_after(c, rolls, k) <= health_after(c, rolls, k - 1),
{
}

/// Checks the run has to make before dying, when every roll is a worst
/// case: one point of health above the threshold per check, at least one.
pub open spec fn worst_case_checks(c: SimulationConfig) -> int {
    if c.starting_health > c.death_threshold {
        c.starting_health as int - c.death_threshold as int
    } else {
        1
    }
}

/// Against all-18 rolls, health drops by at least one point per check.
pub proof fn lemma_worst_rolls_drain_health(c: SimulationConfig, rolls: Seq<u8>, k: int)
    requires
        0 <= k <= rolls.len(),
        forall|i: int| 0 <= i < rolls.len() ==> rolls[i] == 18,
    ensures
        health_after(c, rolls, k) <= c.starting_health as int - k,
    decreases k,
{
    if k > 0 {
        lemma_worst_rolls_drain_health(c, rolls, k - 1);
    }
}

/// Wherever a death check succeeds, some earlier (or that same) check was
/// the first to succeed.
pub proof fn lemma_first_death_exists(c: SimulationConfig, rolls: Seq<u8>, k: int)
    requires
        1 <= k <= rolls.len(),
        dead_at(c, rolls, k),
    ensures
        exists|j: int| 1 <= j <= k && #[trigger] first_death(c, rolls, j),
    decreases k,
{
    if forall|j: int| 1 <= j < k ==> !#[trigger] dead_at(c, rolls, j) {
        assert(first_death(c, rolls, k));
    } else {
        let j0 = choose|j: int| 1 <= j < k && #[trigger] dead_at(c, rolls, j);
        lemma_first_death_exists(c, rolls, j0);
    }
}

/// Bounded termination: a sequence of worst-case rolls kills the subject
/// within `worst_case_checks(c)` checks, however the configuration is set.
/// (An arbitrary roll sequence need not terminate — a run of successful
/// rolls leaves health untouched — but each failed check strictly drains
/// health, which is what this bound captures.)
pub proof fn lemma_bounded_termination(c: SimulationConfig, rolls: Seq<u8>)
    requires
        rolls.len() >= worst_case_checks(c),
        forall|i: int| 0 <= i < rolls.len() ==> rolls[i] == 18,
    ensures
        exists|j: int| 1 <= j <= worst_case_checks(c) && #[trigger] first_death(c, rolls, j),
{
    lemma_worst_rolls_drain_health(c, rolls, worst_case_checks(c));
    lemma_first_death_exists(c, rolls, worst_case_checks(c));
}

/// A self-destructing subject ages by exactly one day per surviving check:
/// after `k` checks its age is the start plus `k` days, so the number of
/// checks made is always 365 times the years lived past the start.
pub proof fn lemma_self_destruct_daily_cadence(k: int)
    requires
        0 <= k,
    ensures
        age_after(true, k) == AGE_START_UNITS as int + (DAILY_UNITS as int) * k,
    decreases k,
{
    if k > 0 {
        lemma_self_destruct_daily_cadence(k - 1);
    }
}

/// One roll under longevity never leaves health lower than the same roll
/// under the normal rule, started from no-lower health.
pub proof fn lemma_longevity_loss_lenient(bonus: int, h_long: int, h_norm: int, roll: int)
    requires
        h_long >= h_norm,
    ensures
        h_long - loss_spec(true, bonus, h_long, roll) >= h_norm - loss_spec(
            false,
            bonus,
            h_norm,
            roll,
        ),
{
}

/// Along any shared roll sequence, the longevity run's health never falls
/// below the normal run's.
pub proof fn lemma_longevity_health_ge(
    c_norm: SimulationConfig,
    c_long: SimulationConfig,
    rolls: Seq<u8>,
    k: int,
)
    requires
        0 <= k,
        !c_norm.has_longevity,
        c_long.has_longevity,
        c_long.starting_health == c_norm.starting_health,
        c_long.roll_bonus == c_norm.roll_bonus,
    ensures
        health_after(c_long, rolls, k) >= health_after(c_norm, rolls, k),
    decreases k,
{
    if k > 0 {
        lemma_longevity_health_ge(c_norm, c_long, rolls, k - 1);
        lemma_longevity_loss_lenient(
            c_norm.roll_bonus as int,
            health_after(c_long, rolls, k - 1),
            health_after(c_norm, rolls, k - 1),
            rolls[k - 1] as int,
        );
    }
}

/// Longevity never hastens death: on the same rolls, the longevity run
/// survives at least as many checks as the normal run and dies no younger.
pub proof fn lemma_longevity_never_hastens_death(
    c_norm: SimulationConfig,
    c_long: SimulationConfig,
    rolls: Seq<u8>,
    k_norm: int,
    k_long: int,
)
    requires
        !c_norm.has_longevity,
        c_long.has_longevity,
        c_long.starting_health == c_norm.starting_health,
        c_long.death_threshold == c_norm.death_threshold,
        c_long.roll_bonus == c_norm.roll_bonus,
        c_long.has_self_destruct == c_norm.has_self_destruct,
        first_death(c_norm, rolls, k_norm),
        first_death(c_long, rolls, k_long),
    ensures
        k_long >= k_norm,
        age_after(c_long.has_self_destruct, k_long - 1) >= age_after(
            c_norm.has_self_destruct,
            k_norm - 1,
        ),
{
    if k_long < k_norm {
        lemma_longevity_health_ge(c_norm, c_long, rolls, k_long);
        assert(dead_at(c_norm, rolls, k_long));
        assert(false);
    }
    lemma_age_after_monotone(c_norm.has_self_destruct, k_norm - 1, k_long - 1);
}

} // verus!
