use vstd::prelude::*;

verus! {

/// The unrecoverable conditions of the kernel core; each one halts the machine.
#[derive(Clone, Copy, Debug, PartialEq, Eq, Structural)]
pub enum FatalError {
    /// The heap could not serve a request of `size` bytes aligned to `align`.
    AllocationFailed { size: usize, align: usize },
}

/// What a failed heap allocation of the given layout amounts to: a fatal error
/// that names the layout, for the handler to report before halting.
pub fn alloc_error_handler(size: usize, align: usize) -> (e: FatalError)
    ensures
        e == (FatalError::AllocationFailed { size, align }),
{
    FatalError::AllocationFailed { size, align }
}

} // verus!
