//! Messages: a value that a task broadcasts to a set of receiver tasks, each
//! of which may read it once per broadcast.
use vstd::prelude::*;

use crate::bits;
use crate::config::MESSAGE_COUNT;
use crate::errors::KernelError;
use crate::scheduler::Scheduler;
use crate::semaphores;
use crate::semaphores::{SemaphoreControlBlock, SemaphoresTable};
use crate::types::{BooleanVector, MessageId};

verus! {

/// The control block of a message: who receives it.
#[derive(Clone, Copy, Debug, PartialEq, Eq, Structural)]
pub struct MCB {
    pub receivers: BooleanVector,
}

/// The message tables: message `i` uses control block `i` and semaphore `i`.
pub struct MessagingManager {
    pub mcb_table: Vec<Option<MCB>>,
    pub scb_table: SemaphoresTable,
}

impl MessagingManager {
    /// Control block `i` exists exactly when semaphore `i` does.
    pub open spec fn wf(&self) -> bool {
        &&& self.mcb_table@.len() == MESSAGE_COUNT
        &&& self.scb_table.wf()
        &&& forall|i: int|
            0 <= i < MESSAGE_COUNT ==> (#[trigger] self.mcb_table@[i] is Some <==> i
                < self.scb_table.count())
    }

    /// Broadcasting `msg_id` does not panic: it is out of range or created.
    pub open spec fn can_broadcast(&self, msg_id: MessageId) -> bool {
        msg_id < MESSAGE_COUNT ==> self.mcb_table@[msg_id as int] is Some
    }

    /// No message created yet.
    pub fn new() -> (m: Self)
        ensures
            m.wf(),
            m.scb_table.count() == 0,
    {
        let mut mcb_table: Vec<Option<MCB>> = Vec::new();
        let mut i: usize = 0;
        while i < MESSAGE_COUNT
            invariant
                i <= MESSAGE_COUNT,
                mcb_table@.len() == i,
                forall|j: int| 0 <= j < i ==> mcb_table@[j] is None,
            decreases MESSAGE_COUNT - i,
        {
            mcb_table.push(None);
            i += 1;
        }
        Self { mcb_table, scb_table: SemaphoresTable::new() }
    }

    /// Signals the receivers of message `msg_id` and returns the tasks to
    /// notify; `NotFound` when the id is out of range.
    pub fn broadcast(&mut self, msg_id: MessageId) -> (res: Result<BooleanVector, KernelError>)
        requires
            old(self).wf(),
            old(self).can_broadcast(msg_id),
        ensures
            final(self).wf(),
            final(self).mcb_table == old(self).mcb_table,
            final(self).scb_table.count() == old(self).scb_table.count(),
            msg_id >= MESSAGE_COUNT ==> res == Err::<BooleanVector, KernelError>(KernelError::NotFound)
                && final(self).scb_table@ == old(self).scb_table@,
            msg_id < MESSAGE_COUNT ==> {
                let sem = old(self).scb_table@[msg_id as int]->Some_0;
                let mcb = old(self).mcb_table@[msg_id as int]->Some_0;
                &&& res == Ok::<BooleanVector, KernelError>(sem.tasks)
                &&& final(self).scb_table@ == old(self).scb_table@.update(
                    msg_id as int,
                    Some(sem.signalled(mcb.receivers)),
                )
            },
    {
        if msg_id >= self.mcb_table.len() {
            return Err(KernelError::NotFound);
        }
        let mcb = self.mcb_table[msg_id].unwrap();
        let mask = self.scb_table.signal_and_release(msg_id, mcb.receivers)?;
        Ok(mask)
    }

    /// Tells whether task `curr_pid` has an unread broadcast of message
    /// `msg_id`, and marks it read.
    pub fn receive(&mut self, msg_id: MessageId, curr_pid: usize) -> (received: bool)
        requires
            old(self).wf(),
            msg_id < MESSAGE_COUNT,
            curr_pid < 32,
        ensures
            final(self).wf(),
            final(self).mcb_table == old(self).mcb_table,
            final(self).scb_table.count() == old(self).scb_table.count(),
            match old(self).scb_table@[msg_id as int] {
                Some(sem) => received == bits::has_task(sem.flags, curr_pid as u32)
                    && final(self).scb_table@ == old(self).scb_table@.update(
                    msg_id as int,
                    Some(sem.reset(curr_pid as u32)),
                ),
                None => !received && final(self).scb_table@ == old(self).scb_table@,
            },
    {
        match self.scb_table.test_and_reset(msg_id, curr_pid as u32) {
            Ok(res) if res == true => true,
            _ => false,
        }
    }

    /// Creates a message notifying `tasks_mask` and received by
    /// `receivers_mask`, and returns its id; `LimitExceeded` when full.
    pub fn create(&mut self, tasks_mask: BooleanVector, receivers_mask: BooleanVector) -> (res: Result<
        MessageId,
        KernelError,
    >)
        requires
            old(self).wf(),
        ensures
            final(self).wf(),
            old(self).scb_table.count() >= MESSAGE_COUNT ==> res == Err::<MessageId, KernelError>(
                KernelError::LimitExceeded,
            ) && final(self).mcb_table@ == old(self).mcb_table@ && final(self).scb_table@ == old(self).scb_table@ && final(self).scb_table.count() == old(self).scb_table.count(),
            old(self).scb_table.count() < MESSAGE_COUNT ==> {
                let id = old(self).scb_table.count();
                &&& res == Ok::<MessageId, KernelError>(id as usize)
                &&& final(self).scb_table.count() == id + 1
                &&& final(self).scb_table@ == old(self).scb_table@.update(
                    id as int,
                    Some(SemaphoreControlBlock { flags: 0, tasks: tasks_mask }),
                )
                &&& final(self).mcb_table@ == old(self).mcb_table@.update(
                    id as int,
                    Some(MCB { receivers: receivers_mask }),
                )
            },
    {
        let msg_id = self.scb_table.add_semaphore(tasks_mask)?;
        self.mcb_table.set(msg_id, Some(MCB { receivers: receivers_mask }));
        Ok(msg_id)
    }
}

/// After a broadcast every receiver has the message to read; reading it
/// consumes it for that receiver alone.
pub proof fn lemma_broadcast_then_receive(
    sem: SemaphoreControlBlock,
    mcb: MCB,
    receiver: u32,
    other: u32,
)
    requires
        receiver < 32,
        other < 32,
        other != receiver,
        bits::has_task(mcb.receivers, receiver),
    ensures
        bits::has_task(sem.signalled(mcb.receivers).flags, receiver),
        !bits::has_task(sem.signalled(mcb.receivers).reset(receiver).flags, receiver),
        bits::has_task(sem.signalled(mcb.receivers).reset(receiver).flags, other)
            == bits::has_task(sem.signalled(mcb.receivers).flags, other),
{
    semaphores::lemma_signal_then_test(sem, mcb.receivers, receiver, other);
}

/// A value shared through the messaging tables under the id `id`.
pub struct Message<T> {
    inner: T,
    id: MessageId,
}

impl<T> Message<T> {
    /// The value that receivers read.
    pub closed spec fn value(&self) -> T {
        self.inner
    }

    /// The message's id.
    pub closed spec fn spec_id(&self) -> MessageId {
        self.id
    }

    /// Wraps `val` as message `id`.
    pub fn new(val: T, id: MessageId) -> (m: Self)
        ensures
            m.value() == val,
            m.spec_id() == id,
    {
        Self { inner: val, id }
    }

    /// The message's id.
    pub fn get_id(&self) -> (id: MessageId)
        ensures
            id == self.spec_id(),
    {
        self.id
    }

    /// Replaces the value with `msg` when one is given, signals the receivers
    /// and releases the tasks to notify.
    pub fn broadcast(
        &mut self,
        manager: &mut MessagingManager,
        scheduler: &mut Scheduler,
        msg: Option<T>,
    ) -> (res: Result<(), KernelError>)
        requires
            old(manager).wf(),
            old(manager).can_broadcast(old(self).spec_id()),
        ensures
            final(self).spec_id() == old(self).spec_id(),
            final(self).value() == match msg {
                Some(v) => v,
                None => old(self).value(),
            },
            final(manager).wf(),
            final(manager).mcb_table == old(manager).mcb_table,
            final(manager).scb_table.count() == old(manager).scb_table.count(),
            old(self).spec_id() >= MESSAGE_COUNT ==> res == Err::<(), KernelError>(
                KernelError::NotFound,
            ) && final(manager).scb_table@ == old(manager).scb_table@ && *final(scheduler) == *old(scheduler),
            old(self).spec_id() < MESSAGE_COUNT ==> {
                let id = old(self).spec_id() as int;
                let sem = old(manager).scb_table@[id]->Some_0;
                let mcb = old(manager).mcb_table@[id]->Some_0;
                &&& res == Ok::<(), KernelError>(())
                &&& final(manager).scb_table@ == old(manager).scb_table@.update(
                    id,
                    Some(sem.signalled(mcb.receivers)),
                )
                &&& *final(scheduler) == old(scheduler).released(sem.tasks)
            },
    {
        if let Some(msg) = msg {
            self.inner = msg;
        }
        let mask = manager.broadcast(self.id)?;
        scheduler.release(mask);
        Ok(())
    }

    /// The value, when the running task has an unread broadcast of it (which
    /// is then marked read); `None` otherwise.
    pub fn receive(&self, manager: &mut MessagingManager, scheduler: &Scheduler) -> (res: Option<&T>)
        requires
            old(manager).wf(),
            scheduler.wf(),
            self.spec_id() < MESSAGE_COUNT,
        ensures
            final(manager).wf(),
            final(manager).mcb_table == old(manager).mcb_table,
            final(manager).scb_table.count() == old(manager).scb_table.count(),
            match old(manager).scb_table@[self.spec_id() as int] {
                Some(sem) => {
                    &&& bits::has_task(sem.flags, scheduler.curr_tid as u32) ==> res == Some(
                        &self.value(),
                    )
                    &&& !bits::has_task(sem.flags, scheduler.curr_tid as u32) ==> res is None
                    &&& final(manager).scb_table@ == old(manager).scb_table@.update(
                        self.spec_id() as int,
                        Some(sem.reset(scheduler.curr_tid as u32)),
                    )
                },
                None => res is None && final(manager).scb_table@ == old(manager).scb_table@,
            },
    {
        if manager.receive(self.id, scheduler.curr_tid) {
            Some(&self.inner)
        } else {
            None
        }
    }
}

/// Broadcasts message `msg_id` and releases the tasks it notifies.
pub fn broadcast(manager: &mut MessagingManager, scheduler: &mut Scheduler, msg_id: MessageId) -> (res:
    Result<(), KernelError>)
    requires
        old(manager).wf(),
        old(manager).can_broadcast(msg_id),
    ensures
        final(manager).wf(),
        final(manager).mcb_table == old(manager).mcb_table,
        final(manager).scb_table.count() == old(manager).scb_table.count(),
        msg_id >= MESSAGE_COUNT ==> res == Err::<(), KernelError>(KernelError::NotFound) && final(manager).scb_table@ == old(manager).scb_table@ && *final(scheduler) == *old(scheduler),
        msg_id < MESSAGE_COUNT ==> {
            let sem = old(manager).scb_table@[msg_id as int]->Some_0;
            let mcb = old(manager).mcb_table@[msg_id as int]->Some_0;
            &&& res == Ok::<(), KernelError>(())
            &&& final(manager).scb_table@ == old(manager).scb_table@.update(
                msg_id as int,
                Some(sem.signalled(mcb.receivers)),
            )
            &&& *final(scheduler) == old(scheduler).released(sem.tasks)
        },
{
    let mask = manager.broadcast(msg_id)?;
    scheduler.release(mask);
    Ok(())
}

/// Creates a message holding `msg`, notifying `notify_tasks_mask` and
/// received by `receivers_mask`; only privileged code may (`AccessDenied`
/// otherwise), and `LimitExceeded` when the tables are full.
pub fn new<T>(
    manager: &mut MessagingManager,
    privileged: bool,
    notify_tasks_mask: BooleanVector,
    receivers_mask: BooleanVector,
    msg: T,
) -> (res: Result<Message<T>, KernelError>)
    requires
        old(manager).wf(),
    ensures
        final(manager).wf(),
        !privileged || old(manager).scb_table.count() >= MESSAGE_COUNT ==> {
            &&& res matches Err(e) && e == (if !privileged {
                KernelError::AccessDenied
            } else {
                KernelError::LimitExceeded
            })
            &&& final(manager).mcb_table@ == old(manager).mcb_table@
            &&& final(manager).scb_table@ == old(manager).scb_table@
            &&& final(manager).scb_table.count() == old(manager).scb_table.count()
        },
        privileged && old(manager).scb_table.count() < MESSAGE_COUNT ==> {
            let id = old(manager).scb_table.count();
            &&& res matches Ok(m) && m.spec_id() == id && m.value() == msg
            &&& final(manager).scb_table.count() == id + 1
            &&& final(manager).scb_table@ == old(manager).scb_table@.update(
                id as int,
                Some(SemaphoreControlBlock { flags: 0, tasks: notify_tasks_mask }),
            )
            &&& final(manager).mcb_table@ == old(manager).mcb_table@.update(
                id as int,
                Some(MCB { receivers: receivers_mask }),
            )
        },
{
    if !privileged {
        return Err(KernelError::AccessDenied);
    }
    let msg_id = manager.create(notify_tasks_mask, receivers_mask)?;
    Ok(Message::new(msg, msg_id))
}

} // verus!
