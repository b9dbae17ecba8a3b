//! The kernel log: a queue of timestamped kernel events, drained in
//! the order they were reported.
use vstd::prelude::*;

use crate::types::{BooleanVector, EventId, MessageId, SemaphoreId, TaskId};

verus! {

/// What happened.
#[derive(Clone, Copy, Debug, PartialEq, Eq, Structural)]
pub enum LogEventType {
    ReleaseTasks(BooleanVector),
    BlockTasks(BooleanVector),
    UnblockTasks(BooleanVector),
    TaskExit(TaskId),
    ResourceLock(TaskId),
    ResourceUnlock(TaskId),
    MessageBroadcast(MessageId),
    MessageRecieve(MessageId),
    SemaphoreSignal(SemaphoreId),
    SemaphoreReset(SemaphoreId),
    TimerEvent(EventId),
}

/// A log entry: what happened and when.
#[derive(Clone, Copy, Debug, PartialEq, Eq, Structural)]
pub struct LogEvent {
    pub event_type: LogEventType,
    pub timestamp: u32,
}

impl LogEvent {
    /// The entry for `event_type` at `timestamp`.
    pub fn new(event_type: LogEventType, timestamp: u32) -> (e: Self)
        ensures
            e == (LogEvent { event_type, timestamp }),
    {
        Self { event_type, timestamp }
    }
}

/// The queue of entries not yet processed.
pub struct Logger {
    queue: Vec<LogEvent>,
}

impl View for Logger {
    type V = Seq<LogEvent>;

    closed spec fn view(&self) -> Seq<LogEvent> {
        self.queue@
    }
}

impl Logger {
    /// An empty log.
    pub fn new() -> (l: Self)
        ensures
            l@ == Seq::<LogEvent>::empty(),
    {
        Self { queue: Vec::new() }
    }

    /// Appends `event`.
    pub fn push(&mut self, event: LogEvent)
        ensures
            final(self)@ == old(self)@.push(event),
    {
        self.queue.push(event);
    }

    /// Removes and returns the oldest entry.
    pub fn pop(&mut self) -> (event: Option<LogEvent>)
        ensures
            old(self)@.len() == 0 ==> event is None && final(self)@ == old(self)@,
            old(self)@.len() > 0 ==> event == Some(old(self)@[0]) && final(self)@ == old(self)@.drop_first(),
    {
        if self.queue.len() == 0 {
            None
        } else {
            let e = self.queue.remove(0);
            assert(self.queue@ =~= old(self)@.drop_first());
            Some(e)
        }
    }
}

/// Records that `event_type` happened at `timestamp`.
pub fn report(logger: &mut Logger, event_type: LogEventType, timestamp: u32)
    ensures
        final(logger)@ == old(logger)@.push(LogEvent { event_type, timestamp }),
{
    logger.push(LogEvent::new(event_type, timestamp));
}

/// Hands every pending entry to `handler`, oldest first, and empties the log.
pub fn process<F>(logger: &mut Logger, handler: F) where F: Fn(LogEvent)
    requires
        forall|e: LogEvent| handler.requires((e,)),
    ensures
        final(logger)@ == Seq::<LogEvent>::empty(),
        forall|i: int| 0 <= i < old(logger)@.len() ==> handler.ensures((#[trigger] old(logger)@[i],), ()),
{
    let ghost init = logger@;
    let ghost mut k: int = 0;
    while logger.len() > 0
        invariant
            forall|e: LogEvent| handler.requires((e,)),
            0 <= k <= init.len(),
            logger@ == init.skip(k),
            forall|i: int| 0 <= i < k ==> handler.ensures((#[trigger] init[i],), ()),
        decreases logger@.len(),
    {
        if let Some(event) = logger.pop() {
            handler(event);
            proof {
                assert(event == init[k]);
                k = k + 1;
                assert(logger@ =~= init.skip(k));
            }
        }
    }
}

impl Logger {
    /// The number of pending entries.
    pub fn len(&self) -> (n: usize)
        ensures
            n == self@.len(),
    {
        self.queue.len()
    }
}

} // verus!
