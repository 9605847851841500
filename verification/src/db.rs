//! The state that survives from one round to the next.

use vstd::prelude::*;

verus! {

/// Cursor value of a relay that has never run: the next round only looks up
/// the newest post and delivers nothing.
pub const UNINITIALIZED: i64 = -1;

/// The fetch cursor: the integer id of the newest post already handled.
#[derive(Debug, Clone, Copy, PartialEq, Eq, Structural)]
pub struct State {
    pub min_id: i64,
}

impl State {
    /// The state of a relay whose cursor stands at `min_id`.
    pub fn new(min_id: i64) -> (state: Self)
        ensures
            state.min_id == min_id,
    {
        Self { min_id }
    }

    /// Whether the cursor is the sentinel of a relay that has never run.
    pub open spec fn is_uninitialized(self) -> bool {
        self.min_id < 0
    }

    /// Whether the next round fast-forwards to the newest post without
    /// delivering anything.
    pub fn fast_forward(&self) -> (ff: bool)
        ensures
            ff == self.is_uninitialized(),
    {
        self.min_id < 0
    }
}

impl Default for State {
    fn default() -> (state: Self)
        ensures
            state.min_id == UNINITIALIZED,
    {
        Self { min_id: UNINITIALIZED }
    }
}

} // verus!
