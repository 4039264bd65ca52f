//! A turn-based duel between two combatants: accuracy, critical hits, dodges and
//! exponential armour mitigation, resolved attack by attack until one side has no
//! hit points left.
//!
//! Every real-valued quantity (armour, damage, probabilities, rates) is a
//! fixed-point number: an `i64` counting millionths, so `math::UNIT` stands for
//! `1.0`. Hit points are whole numbers.

pub mod chance;
pub mod exp;
pub mod game_mechanics;
pub mod math;
pub mod mobs;
pub mod player;
pub mod spatial;
pub mod traits;
