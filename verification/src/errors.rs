use vstd::prelude::*;

verus! {

/// The errors that kernel routines report.
#[derive(Clone, Copy, Debug, PartialEq, Eq, Structural)]
pub enum KernelError {
    BufferOverflow,
    NotFound,
    StackTooSmall,
    DoesNotExist,
    LimitExceeded,
    AccessDenied,
}

} // verus!
