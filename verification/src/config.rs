use vstd::prelude::*;

verus! {

/// Number of task slots; a task's id is its priority, 0 being the idle task.
pub const MAX_TASKS: usize = 32;

/// Depth of the priority-inheritance stack, i.e. how many resources may be
/// held at the same time.
pub const MAX_RESOURCES: usize = 32;

/// Number of slots in the event table.
pub const EVENT_NO: usize = 32;

/// Number of slots in each per-period event index table.
pub const EVENT_INDEX_TABLE_COUNT: usize = 32;

/// Number of semaphores (and therefore of messages) that can be created.
pub const MESSAGE_COUNT: usize = 32;

/// Smallest stack, in words, that can hold an initial exception frame.
pub const MIN_STACK_SIZE: usize = 32;

/// Capacity, in words, of a message buffer.
pub const MAX_BUFFER_SIZE: usize = 32;

/// Event opcode bit: signal the event's semaphore.
pub const OPCODE_SIGNAL: u8 = 1;

/// Event opcode bit: broadcast the event's message.
pub const OPCODE_SEND_MSG: u8 = 2;

/// Event opcode bit: release the event's tasks.
pub const OPCODE_RELEASE: u8 = 4;

/// Event opcode bit: enable the event's successor.
pub const OPCODE_ENABLE_EVENT: u8 = 8;

} // verus!
