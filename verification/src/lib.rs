//! Monte Carlo estimation of age-at-death under a tabletop aging-roll rule
//! set.
//!
//! A simulated life starts at fifty aging increments and repeatedly makes a
//! 3d6 aging roll; failed rolls drain health until it falls to the death
//! threshold.  Many independent lives are simulated in parallel and their
//! death ages are reduced to exact summary statistics.
//!
//! Ages are measured in integer *units* of a quarter-day of one aging
//! increment (1 increment = 1460 units), so every cadence the rules use —
//! full, half and quarter increments as well as the daily checks of a
//! self-destructing subject — advances age by an exact integer.  Converting
//! units back to years (multiplying by the real-valued increment length) is
//! left to the caller.

pub mod config;
pub mod life;
pub mod roll;
pub mod sim;
pub mod stats;
