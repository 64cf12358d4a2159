//! Discounted counterfactual regret minimisation for two-player zero-sum
//! games of imperfect information, with sharded regret tables.

pub mod cfr;
pub mod game;
pub mod numeric;
pub mod regret;
pub mod rng;
