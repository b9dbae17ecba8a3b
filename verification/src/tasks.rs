//! Kernel routines for task management over the scheduler.
use vstd::prelude::*;

use crate::config::{MAX_TASKS, MIN_STACK_SIZE};
use crate::errors::KernelError;
use crate::scheduler::{Dispatch, Scheduler, TaskControlBlock};
use crate::scheduler;
use crate::types::{BooleanVector, TaskId};

verus! {

/// What `schedule` does with the scheduler.
pub open spec fn scheduled(s: Scheduler, privileged: bool) -> Scheduler {
    if s.is_preemptive && privileged {
        s.preempted()
    } else {
        s
    }
}

/// What `schedule` answers: nothing to do when preemption is off; the SVC
/// round trip when called without privileges; otherwise a preemption point.
pub open spec fn schedule_result(s: Scheduler, privileged: bool) -> Result<Dispatch, KernelError> {
    if !s.is_preemptive {
        Ok(Dispatch::Stay)
    } else if !privileged {
        Ok(Dispatch::Supervisor)
    } else {
        s.preempt_result()
    }
}

/// Creates the idle task: priority 0, run when no other task is ready.
pub fn init(scheduler: &mut Scheduler, idle_stack: &mut [u32], stack_base: usize, idle_pc: u32) -> (res:
    Result<(), KernelError>)
    requires
        old(scheduler).wf(),
        stack_base + 4 * old(idle_stack)@.len() <= usize::MAX,
    ensures
        final(scheduler).wf(),
        old(idle_stack)@.len() < MIN_STACK_SIZE ==> res == Err::<(), KernelError>(
            KernelError::StackTooSmall,
        ) && *final(scheduler) == *old(scheduler) && final(idle_stack)@ == old(idle_stack)@,
        old(idle_stack)@.len() >= MIN_STACK_SIZE ==> {
            &&& res == Ok::<(), KernelError>(())
            &&& final(idle_stack)@ == scheduler::initial_frame(old(idle_stack)@, idle_pc, 0)
            &&& *final(scheduler) == (Scheduler {
                task_control_blocks: final(scheduler).task_control_blocks,
                ..*old(scheduler)
            })
            &&& final(scheduler).task_control_blocks@ == old(scheduler).task_control_blocks@.update(
                0,
                Some(
                    TaskControlBlock { sp: scheduler::initial_sp(stack_base, old(idle_stack)@.len()) },
                ),
            )
        },
{
    scheduler.create_task(0, idle_stack, stack_base, idle_pc, 0)
}

/// Starts scheduling and takes the first preemption point.
pub fn start_kernel(scheduler: &mut Scheduler) -> (res: Result<Dispatch, KernelError>)
    requires
        old(scheduler).wf(),
    ensures
        *final(scheduler) == (Scheduler { is_running: true, ..*old(scheduler) }).preempted(),
        res == (Scheduler { is_running: true, ..*old(scheduler) }).preempt_result(),
{
    scheduler.start()
}

/// Creates a task of priority `priority` on `stack` (see
/// `Scheduler::create_task`); only privileged code may (`AccessDenied`
/// otherwise).
pub fn create_task(
    scheduler: &mut Scheduler,
    privileged: bool,
    priority: TaskId,
    stack: &mut [u32],
    stack_base: usize,
    pc: u32,
    arg: u32,
) -> (res: Result<(), KernelError>)
    requires
        old(scheduler).wf(),
        stack_base + 4 * old(stack)@.len() <= usize::MAX,
    ensures
        final(scheduler).wf(),
        !privileged ==> res == Err::<(), KernelError>(KernelError::AccessDenied) && *final(scheduler) == *old(scheduler) && final(stack)@ == old(stack)@,
        privileged && old(stack)@.len() < MIN_STACK_SIZE ==> res == Err::<(), KernelError>(
            KernelError::StackTooSmall,
        ) && *final(scheduler) == *old(scheduler) && final(stack)@ == old(stack)@,
        privileged && old(stack)@.len() >= MIN_STACK_SIZE ==> {
            &&& final(stack)@ == scheduler::initial_frame(old(stack)@, pc, arg)
            &&& priority >= MAX_TASKS ==> res == Err::<(), KernelError>(KernelError::DoesNotExist)
                && *final(scheduler) == *old(scheduler)
            &&& priority < MAX_TASKS ==> res == Ok::<(), KernelError>(()) && *final(scheduler) == (
            Scheduler { task_control_blocks: final(scheduler).task_control_blocks, ..*old(scheduler) })
                && final(scheduler).task_control_blocks@ == old(scheduler).task_control_blocks@.update(
                priority as int,
                Some(TaskControlBlock { sp: scheduler::initial_sp(stack_base, old(stack)@.len()) }),
            )
        },
{
    if !privileged {
        return Err(KernelError::AccessDenied);
    }
    scheduler.create_task(priority as usize, stack, stack_base, pc, arg)
}

/// Decides what the CPU does at a scheduling point: nothing when preemption
/// is off; an SVC round trip when called without privileges; otherwise a
/// preemption point.
pub fn schedule(scheduler: &mut Scheduler, privileged: bool) -> (res: Result<Dispatch, KernelError>)
    requires
        old(scheduler).wf(),
    ensures
        *final(scheduler) == scheduled(*old(scheduler), privileged),
        res == schedule_result(*old(scheduler), privileged),
{
    if !scheduler.is_preemptive {
        return Ok(Dispatch::Stay);
    }
    if !privileged {
        return Ok(Dispatch::Supervisor);
    }
    scheduler.preempt()
}

/// A preemption point (see `Scheduler::preempt`).
pub fn preempt(scheduler: &mut Scheduler) -> (res: Result<Dispatch, KernelError>)
    requires
        old(scheduler).wf(),
    ensures
        *final(scheduler) == old(scheduler).preempted(),
        res == old(scheduler).preempt_result(),
{
    scheduler.preempt()
}

/// The running task.
pub fn get_curr_tid(scheduler: &Scheduler) -> (tid: TaskId)
    requires
        scheduler.wf(),
    ensures
        tid == scheduler.curr_tid,
{
    scheduler.curr_tid as TaskId
}

/// Blocks the tasks of `tasks_mask`.
pub fn block_tasks(scheduler: &mut Scheduler, tasks_mask: BooleanVector)
    ensures
        *final(scheduler) == old(scheduler).blocked(tasks_mask),
{
    scheduler.block_tasks(tasks_mask)
}

/// Unblocks the tasks of `tasks_mask`.
pub fn unblock_tasks(scheduler: &mut Scheduler, tasks_mask: BooleanVector)
    ensures
        *final(scheduler) == old(scheduler).unblocked(tasks_mask),
{
    scheduler.unblock_tasks(tasks_mask)
}

/// Marks the running task as finished and reaches a scheduling point.
pub fn task_exit(scheduler: &mut Scheduler, privileged: bool) -> (res: Result<Dispatch, KernelError>)
    requires
        old(scheduler).wf(),
    ensures
        *final(scheduler) == scheduled(old(scheduler).exited(), privileged),
        res == schedule_result(old(scheduler).exited(), privileged),
{
    scheduler.exit_current();
    schedule(scheduler, privileged)
}

/// Releases the tasks of `tasks_mask`: they become ready unless blocked.
pub fn release(scheduler: &mut Scheduler, tasks_mask: BooleanVector)
    ensures
        *final(scheduler) == old(scheduler).released(tasks_mask),
{
    scheduler.release(tasks_mask)
}

/// Re-enables preemption once every `disable_preemption` has been matched.
pub fn enable_preemption(scheduler: &mut Scheduler)
    requires
        old(scheduler).preempt_disable_count > 0,
    ensures
        *final(scheduler) == old(scheduler).preemption_enabled(),
{
    scheduler.enable_preemption()
}

/// Disables preemption until the matching `enable_preemption`.
pub fn disable_preemption(scheduler: &mut Scheduler)
    requires
        old(scheduler).preempt_disable_count < u32::MAX,
    ensures
        *final(scheduler) == old(scheduler).preemption_disabled(),
{
    scheduler.disable_preemption()
}

} // verus!
