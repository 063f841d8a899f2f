//! Environments for semantic fuzzing: two flask-alchemy puzzles and the
//! bookkeeping of a poisoned-creature game, with the rules of each proved
//! against their specifications.

pub mod outcome;
pub mod alchemist;
pub mod marauder;
pub mod deal;
pub mod game;
