//! Size-based file rotation: a pure planner for the rename scheme that
//! shifts rotated files up by one slot, and the state machine of the
//! streaming writer that decides when a rotation is due.
pub mod config;
pub mod plan;
pub mod writer;

use vstd::prelude::*;

verus! {

} // verus!
