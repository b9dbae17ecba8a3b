//! A small real-time kernel core for single-core microcontrollers: a
//! priority-based task scheduler driven by bit vectors, binary semaphores,
//! messages, timed events, resources guarded by the priority ceiling
//! protocol, a clock, a deadline monitor and an event log.
//!
//! Every component here is a plain value. The board support around it holds
//! the global instances inside critical sections, raises the PendSV and SVC
//! exceptions and performs the context switches that the scheduler decides.
pub mod config;
pub mod errors;
pub mod types;
pub mod bits;
pub mod helper;
pub mod scheduler;
pub mod time;
pub mod semaphores;
pub mod messaging;
pub mod message_buffers;
pub mod event_manager;
pub mod events;
pub mod kernel;
pub mod resource;
pub mod tasks;
pub mod timer;
pub mod task_monitor;
pub mod logging;
