use vstd::prelude::*;

verus! {

/// What one side does in a turn.
#[derive(Debug, Clone, Copy, PartialEq, Eq)]
pub enum Action {
    UseMove { move_index: usize },
    Switch { target_index: usize },
    Pass,
}

} // verus!
