//! Binary semaphores with one flag per task, their table, and the kernel
//! routines that signal and test them.
use vstd::prelude::*;

use crate::bits;
use crate::config::MESSAGE_COUNT;
use crate::errors::KernelError;
use crate::scheduler::Scheduler;
use crate::types::{BooleanVector, SemaphoreId};

verus! {

/// A semaphore: a flag per task, and the tasks to release when it is signalled.
#[derive(Clone, Copy, Debug, PartialEq, Eq, Structural)]
pub struct SemaphoreControlBlock {
    /// Task `t` has a pending signal.
    pub flags: BooleanVector,
    /// The tasks released on every signal.
    pub tasks: BooleanVector,
}

impl SemaphoreControlBlock {
    /// The semaphore after the tasks of `tasks_mask` are signalled.
    pub open spec fn signalled(self, tasks_mask: u32) -> SemaphoreControlBlock {
        SemaphoreControlBlock { flags: self.flags | tasks_mask, ..self }
    }

    /// The semaphore after task `tid` consumed its signal, if it had one.
    pub open spec fn reset(self, tid: u32) -> SemaphoreControlBlock {
        if bits::has_task(self.flags, tid) {
            SemaphoreControlBlock { flags: self.flags & !(1u32 << tid), ..self }
        } else {
            self
        }
    }

    /// A semaphore with no pending signal that releases `tasks` when signalled.
    pub fn new(tasks: BooleanVector) -> (s: Self)
        ensures
            s == (SemaphoreControlBlock { flags: 0, tasks }),
    {
        Self { flags: 0, tasks }
    }

    /// Raises the flags of the tasks of `tasks_mask` and returns the tasks to release.
    pub fn signal_and_release(&mut self, tasks_mask: BooleanVector) -> (released: BooleanVector)
        ensures
            *final(self) == old(self).signalled(tasks_mask),
            released == old(self).tasks,
    {
        self.flags = self.flags | tasks_mask;
        self.tasks
    }

    /// Tells whether task `curr_tid` had a pending signal, and consumes it.
    pub fn test_and_reset(&mut self, curr_tid: u32) -> (signalled: bool)
        requires
            curr_tid < 32,
        ensures
            signalled == bits::has_task(old(self).flags, curr_tid),
            *final(self) == old(self).reset(curr_tid),
    {
        let curr_tid_mask: u32 = 1u32 << curr_tid;
        proof {
            bits::lemma_single_bit_test();
        }
        if self.flags & curr_tid_mask == curr_tid_mask {
            self.flags = self.flags & !curr_tid_mask;
            true
        } else {
            false
        }
    }
}

/// A signal raised for a task is seen by its next test and consumed by it;
/// the flags of the other tasks are left as they were.
pub proof fn lemma_signal_then_test(s: SemaphoreControlBlock, tasks_mask: u32, tid: u32, other: u32)
    requires
        tid < 32,
        other < 32,
        other != tid,
        bits::has_task(tasks_mask, tid),
    ensures
        bits::has_task(s.signalled(tasks_mask).flags, tid),
        !bits::has_task(s.signalled(tasks_mask).reset(tid).flags, tid),
        bits::has_task(s.signalled(tasks_mask).reset(tid).flags, other) == bits::has_task(
            s.signalled(tasks_mask).flags,
            other,
        ),
        s.signalled(tasks_mask).reset(tid).tasks == s.tasks,
{
    bits::lemma_has_task_ops();
}

/// Signalling only adds pending signals: afterwards a task has one exactly when
/// it had one before or is among the signalled tasks, so an earlier signal
/// is never lost; the tasks to release are unchanged, signalling no task
/// changes nothing, and two signals in turn are one signal of both sets.
pub proof fn lemma_signal_adds_flags(s: SemaphoreControlBlock, a: u32, b: u32)
    ensures
        forall|t: u32|
            t < 32 ==> (#[trigger] bits::has_task(s.signalled(a).flags, t) <==> bits::has_task(
                s.flags,
                t,
            ) || bits::has_task(a, t)),
        s.signalled(a).tasks == s.tasks,
        s.signalled(0) == s,
        s.signalled(a).signalled(b) == s.signalled(a | b),
{
    bits::lemma_has_task_ops();
    assert forall|t: u32| t < 32 implies (bits::has_task(s.flags | 0u32, t) <==> bits::has_task(
        s.flags,
        t,
    )) by {}
    bits::lemma_same_members_equal(s.flags | 0u32, s.flags);
    let x = (s.flags | a) | b;
    let y = s.flags | (a | b);
    assert forall|t: u32| t < 32 implies (bits::has_task(x, t) <==> bits::has_task(y, t)) by {}
    bits::lemma_same_members_equal(x, y);
}

/// The table of semaphores, filled in creation order.
pub struct SemaphoresTable {
    table: Vec<Option<SemaphoreControlBlock>>,
    curr: usize,
}

impl View for SemaphoresTable {
    type V = Seq<Option<SemaphoreControlBlock>>;

    closed spec fn view(&self) -> Seq<Option<SemaphoreControlBlock>> {
        self.table@
    }
}

impl SemaphoresTable {
    /// Number of semaphores created.
    pub closed spec fn count(&self) -> nat {
        self.curr as nat
    }

    /// The slots below `count` hold the semaphores, the others are empty.
    pub open spec fn wf(&self) -> bool {
        &&& self@.len() == MESSAGE_COUNT
        &&& self.count() <= MESSAGE_COUNT
        &&& forall|i: int| 0 <= i < MESSAGE_COUNT ==> (#[trigger] self@[i] is Some <==> i < self.count())
    }

    /// An empty table.
    pub fn new() -> (t: Self)
        ensures
            t.wf(),
            t.count() == 0,
    {
        let mut table: Vec<Option<SemaphoreControlBlock>> = Vec::new();
        let mut i: usize = 0;
        while i < MESSAGE_COUNT
            invariant
                i <= MESSAGE_COUNT,
                table@.len() == i,
                forall|j: int| 0 <= j < i ==> table@[j] is None,
            decreases MESSAGE_COUNT - i,
        {
            table.push(None);
            i += 1;
        }
        Self { table, curr: 0 }
    }

    /// Creates a semaphore releasing `task_mask` in the next slot and returns
    /// its id; `LimitExceeded` when the table is full.
    pub fn add_semaphore(&mut self, task_mask: BooleanVector) -> (res: Result<SemaphoreId, KernelError>)
        requires
            old(self).wf(),
        ensures
            final(self).wf(),
            old(self).count() >= MESSAGE_COUNT ==> res == Err::<SemaphoreId, KernelError>(
                KernelError::LimitExceeded,
            ) && final(self)@ == old(self)@ && final(self).count() == old(self).count(),
            old(self).count() < MESSAGE_COUNT ==> res == Ok::<SemaphoreId, KernelError>(
                old(self).count() as usize,
            ) && final(self).count() == old(self).count() + 1 && final(self)@ == old(self)@.update(
                old(self).count() as int,
                Some(SemaphoreControlBlock { flags: 0, tasks: task_mask }),
            ),
    {
        if self.curr >= MESSAGE_COUNT {
            return Err(KernelError::LimitExceeded);
        }
        let id = self.curr;
        self.curr += 1;
        self.table.set(id, Some(SemaphoreControlBlock::new(task_mask)));
        Ok(id)
    }

    /// Signals the tasks of `tasks_mask` on semaphore `sem_id` and returns the
    /// tasks it releases; `NotFound` when the semaphore was not created.
    pub fn signal_and_release(&mut self, sem_id: SemaphoreId, tasks_mask: BooleanVector) -> (res:
        Result<BooleanVector, KernelError>)
        requires
            old(self).wf(),
            sem_id < MESSAGE_COUNT,
        ensures
            final(self).wf(),
            final(self).count() == old(self).count(),
            match old(self)@[sem_id as int] {
                Some(sem) => res == Ok::<BooleanVector, KernelError>(sem.tasks) && final(self)@
                    == old(self)@.update(sem_id as int, Some(sem.signalled(tasks_mask))),
                None => res == Err::<BooleanVector, KernelError>(KernelError::NotFound)
                    && final(self)@ == old(self)@,
            },
    {
        match self.table[sem_id] {
            Some(mut sem) => {
                let released = sem.signal_and_release(tasks_mask);
                self.table.set(sem_id, Some(sem));
                Ok(released)
            },
            None => Err(KernelError::NotFound),
        }
    }

    /// Tells whether task `curr_pid` has a pending signal on semaphore
    /// `sem_id`, and consumes it; `NotFound` when the semaphore was not created.
    pub fn test_and_reset(&mut self, sem_id: SemaphoreId, curr_pid: u32) -> (res: Result<bool, KernelError>)
        requires
            old(self).wf(),
            sem_id < MESSAGE_COUNT,
            curr_pid < 32,
        ensures
            final(self).wf(),
            final(self).count() == old(self).count(),
            match old(self)@[sem_id as int] {
                Some(sem) => res == Ok::<bool, KernelError>(bits::has_task(sem.flags, curr_pid))
                    && final(self)@ == old(self)@.update(sem_id as int, Some(sem.reset(curr_pid))),
                None => res == Err::<bool, KernelError>(KernelError::NotFound) && final(self)@
                    == old(self)@,
            },
    {
        match self.table[sem_id] {
            Some(mut sem) => {
                let signalled = sem.test_and_reset(curr_pid);
                self.table.set(sem_id, Some(sem));
                Ok(signalled)
            },
            None => Err(KernelError::NotFound),
        }
    }
}

/// Signals the tasks of `tasks_mask` on semaphore `sem_id` and releases the
/// semaphore's tasks on the scheduler.
pub fn signal_and_release(
    table: &mut SemaphoresTable,
    scheduler: &mut Scheduler,
    sem_id: SemaphoreId,
    tasks_mask: BooleanVector,
) -> (res: Result<(), KernelError>)
    requires
        old(table).wf(),
        sem_id < MESSAGE_COUNT,
    ensures
        final(table).wf(),
        final(table).count() == old(table).count(),
        match old(table)@[sem_id as int] {
            Some(sem) => res == Ok::<(), KernelError>(()) && final(table)@ == old(table)@.update(
                sem_id as int,
                Some(sem.signalled(tasks_mask)),
            ) && *final(scheduler) == old(scheduler).released(sem.tasks),
            None => res == Err::<(), KernelError>(KernelError::NotFound) && final(table)@ == old(table)@ && *final(scheduler) == *old(scheduler),
        },
{
    let mask = table.signal_and_release(sem_id, tasks_mask)?;
    scheduler.release(mask);
    Ok(())
}

/// Tells whether the running task has a pending signal on semaphore
/// `sem_id`, and consumes it.
pub fn test_and_reset(table: &mut SemaphoresTable, scheduler: &Scheduler, sem_id: SemaphoreId) -> (res:
    Result<bool, KernelError>)
    requires
        old(table).wf(),
        scheduler.wf(),
        sem_id < MESSAGE_COUNT,
    ensures
        final(table).wf(),
        final(table).count() == old(table).count(),
        match old(table)@[sem_id as int] {
            Some(sem) => res == Ok::<bool, KernelError>(
                bits::has_task(sem.flags, scheduler.curr_tid as u32),
            ) && final(table)@ == old(table)@.update(
                sem_id as int,
                Some(sem.reset(scheduler.curr_tid as u32)),
            ),
            None => res == Err::<bool, KernelError>(KernelError::NotFound) && final(table)@ == old(table)@,
        },
{
    let curr_tid = scheduler.curr_tid as u32;
    table.test_and_reset(sem_id, curr_tid)
}

/// Creates a semaphore releasing `tasks_mask`; only privileged code may
/// (`AccessDenied` otherwise).
pub fn new(table: &mut SemaphoresTable, privileged: bool, tasks_mask: BooleanVector) -> (res: Result<
    SemaphoreId,
    KernelError,
>)
    requires
        old(table).wf(),
    ensures
        final(table).wf(),
        !privileged ==> res == Err::<SemaphoreId, KernelError>(KernelError::AccessDenied)
            && final(table)@ == old(table)@ && final(table).count() == old(table).count(),
        privileged && old(table).count() >= MESSAGE_COUNT ==> res == Err::<SemaphoreId, KernelError>(
            KernelError::LimitExceeded,
        ) && final(table)@ == old(table)@ && final(table).count() == old(table).count(),
        privileged && old(table).count() < MESSAGE_COUNT ==> res == Ok::<SemaphoreId, KernelError>(
            old(table).count() as usize,
        ) && final(table).count() == old(table).count() + 1 && final(table)@ == old(table)@.update(
            old(table).count() as int,
            Some(SemaphoreControlBlock { flags: 0, tasks: tasks_mask }),
        ),
{
    if !privileged {
        return Err(KernelError::AccessDenied);
    }
    table.add_semaphore(tasks_mask)
}

} // verus!
