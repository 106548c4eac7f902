//! The weighted 3d6 roll sampler.
//!
//! Summing three fair six-sided dice gives each value `v` in `3..=18` a
//! probability of `roll_weight(v) / 216`.  Instead of summing three draws,
//! the sampler draws one uniform index in `0..216` and maps it through the
//! cumulative weight table; `lemma_roll_of_index_matches_weights` proves
//! that exactly `roll_weight(v)` of the 216 indices map to each value `v`,
//! so the two procedures are distributionally identical.

use rand::Rng;
use vstd::prelude::*;
use vstd::set_lib::lemma_int_range;
use vstd::set_lib::set_int_range;
use vstd::assert_sets_equal;

verus! {

/// Number of ordered outcomes of three six-sided dice.
pub const DICE_OUTCOMES: u8 = 216;

/// Unnormalized weight of the 3d6 value `v`: the number of ordered dice
/// triples that sum to `v`, out of 216.
pub open spec fn roll_weight(v: int) -> int
    recommends
        3 <= v <= 18,
{
    if v == 3 || v == 18 {
        1
    } else if v == 4 || v == 17 {
        3
    } else if v == 5 || v == 16 {
        6
    } else if v == 6 || v == 15 {
        10
    } else if v == 7 || v == 14 {
        15
    } else if v == 8 || v == 13 {
        21
    } else if v == 9 || v == 12 {
        25
    } else {
        27
    }
}

/// Total weight of the 3d6 values below `v`: the start of `v`'s slot range
/// in the cumulative table.
pub open spec fn weight_below(v: int) -> int
    recommends
        3 <= v <= 18,
{
    if v <= 3 {
        0
    } else if v == 4 {
        1
    } else if v == 5 {
        4
    } else if v == 6 {
        10
    } else if v == 7 {
        20
    } else if v == 8 {
        35
    } else if v == 9 {
        56
    } else if v == 10 {
        81
    } else if v == 11 {
        108
    } else if v == 12 {
        135
    } else if v == 13 {
        160
    } else if v == 14 {
        181
    } else if v == 15 {
        196
    } else if v == 16 {
        206
    } else if v == 17 {
        212
    } else {
        215
    }
}

/// The 3d6 value whose cumulative slot range contains the uniform index
/// `i`: value `v` owns indices `weight_below(v) <= i < weight_below(v) +
/// roll_weight(v)`.
pub open spec fn roll_of_index(i: int) -> int
    recommends
        0 <= i < 216,
{
    if i < 1 {
        3
    } else if i < 4 {
        4
    } else if i < 10 {
        5
    } else if i < 20 {
        6
    } else if i < 35 {
        7
    } else if i < 56 {
        8
    } else if i < 81 {
        9
    } else if i < 108 {
        10
    } else if i < 135 {
        11
    } else if i < 160 {
        12
    } else if i < 181 {
        13
    } else if i < 196 {
        14
    } else if i < 206 {
        15
    } else if i < 212 {
        16
    } else if i < 215 {
        17
    } else {
        18
    }
}

/// Exactly `roll_weight(v)` of the 216 uniform indices map to the roll
/// value `v`, so a uniform index drawn from `0..216` and mapped through
/// `roll_of_index` reproduces the 3d6 probability mass function exactly.
pub proof fn lemma_roll_of_index_matches_weights(v: int)
    requires
        3 <= v <= 18,
    ensures
        Set::new(|i: int| 0 <= i < 216 && roll_of_index(i) == v).finite(),
        Set::new(|i: int| 0 <= i < 216 && roll_of_index(i) == v).len() == roll_weight(v),
{
    let slots = Set::new(|i: int| 0 <= i < 216 && roll_of_index(i) == v);
    let lo = weight_below(v);
    let hi = weight_below(v) + roll_weight(v);
    assert_sets_equal!(slots == set_int_range(lo, hi));
    lemma_int_range(lo, hi);
}

/// Relies on `rand::thread_rng` and `rand::Rng::gen_range`: `gen_range`
/// returns a value of the given non-empty range, uniformly distributed;
/// only membership in the range is stated.
#[verifier::external_body]
fn sample_below(bound: u8) -> (r: u8)
    requires
        bound > 0,
    ensures
        r < bound,
{
    rand::thread_rng().gen_range(0..bound)
}

/// The 3d6 value owning the uniform index `i` in the cumulative weight
/// table.
pub fn roll_from_index(i: u8) -> (r: u8)
    requires
        i < 216,
    ensures
        r as int == roll_of_index(i as int),
        3 <= r <= 18,
{
    if i < 1 {
        3
    } else if i < 4 {
        4
    } else if i < 10 {
        5
    } else if i < 20 {
        6
    } else if i < 35 {
        7
    } else if i < 56 {
        8
    } else if i < 81 {
        9
    } else if i < 108 {
        10
    } else if i < 135 {
        11
    } else if i < 160 {
        12
    } else if i < 181 {
        13
    } else if i < 196 {
        14
    } else if i < 206 {
        15
    } else if i < 212 {
        16
    } else if i < 215 {
        17
    } else {
        18
    }
}

/// Draw one 3d6 aging roll: a value in `3..=18` with the exact weighted
/// distribution of three summed dice.
pub fn roll_3d6() -> (r: u8)
    ensures
        3 <= r <= 18,
{
    roll_from_index(sample_below(DICE_OUTCOMES))
}

} // verus!
