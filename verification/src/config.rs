//! The resolved configuration a simulation runs under.

use vstd::prelude::*;

verus! {

/// Fully-resolved parameters of one simulation run.  Built once, never
/// mutated; every trial reads the same value.
#[derive(Clone, Copy, Debug, PartialEq, Eq, Structural)]
pub struct SimulationConfig {
    /// Baseline health stat a life starts with.
    pub starting_health: u8,
    /// Health value at or below which the subject is dead.
    pub death_threshold: u8,
    /// Net modifier added to health when a roll is compared against it.
    pub roll_bonus: i16,
    /// Selects the lenient failure rule: only rolls of 18, or of 17 against
    /// a modified health below 17, cost health, and never more than one.
    pub has_longevity: bool,
    /// Selects daily aging checks instead of the bracketed cadence.
    pub has_self_destruct: bool,
}

/// Net roll bonus from a medical technology level `tl`, a flat modifier
/// `add`, and the flat penalty a self-destructing subject suffers.
pub fn roll_bonus_from(tl: u8, add: i8, self_destruct: bool) -> (r: i16)
    ensures
        r == add + tl - 3 - (if self_destruct {
            3int
        } else {
            0int
        }),
{
    let penalty: i16 = if self_destruct {
        3
    } else {
        0
    };
    add as i16 + tl as i16 - 3 - penalty
}

} // verus!
