use vstd::prelude::*;

pub mod executor;
pub mod keyboard;

verus! {

/// Identity of a spawned task; never reused within a run.
#[derive(Clone, Copy, Debug, PartialEq, Eq, PartialOrd, Ord, Hash, Structural)]
pub struct TaskId {
    pub id: u64,
}

} // verus!
