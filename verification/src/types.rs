use vstd::prelude::*;

verus! {

/// A task's id, which is also its priority (higher runs first).
pub type TaskId = u32;

/// A set of tasks: bit `t` stands for task `t`.
pub type BooleanVector = u32;

/// Index of an event in the event table.
pub type EventId = usize;

/// Index of a message in the messaging tables.
pub type MessageId = usize;

/// Index of a semaphore in the semaphore table.
pub type SemaphoreId = usize;

} // verus!
