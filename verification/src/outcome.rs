//! What an environment hands back after a step, and what an oracle decides.
use vstd::prelude::*;

verus! {

/// The answer of a step: the observation that follows it, and whether the
/// action could not be carried out at all.
pub struct StepResult<S> {
    pub next_state: S,
    pub is_invalid: bool,
}

/// What an oracle makes of the last step. Every oracle of this crate rewards a
/// holding run with nothing, so `Hold` carries no reward.
#[derive(Clone, Copy, Debug, PartialEq, Eq, Structural)]
pub enum OracleStatus {
    /// The step reached the bug the environment hides.
    Violated,
    /// The step asked for something the environment cannot do.
    Invalid,
    /// Nothing to report.
    Hold,
}

} // verus!
