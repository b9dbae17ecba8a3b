//! The priority scheduler: which tasks exist, are ready or blocked, which one
//! runs, and when the running task has to be switched out.
use vstd::prelude::*;

use crate::bits;
use crate::config::{MAX_TASKS, MIN_STACK_SIZE};
use crate::errors::KernelError;
use crate::helper;
use crate::helper::get_msb;
use crate::types::BooleanVector;

verus! {

/// Initial program status register of a new task: only the Thumb bit set.
pub const INITIAL_XPSR: u32 = 0x0100_0000;

/// The saved context of a task: the address its stack pointer is restored from.
#[derive(Clone, Copy, Debug, PartialEq, Eq, Structural)]
pub struct TaskControlBlock {
    pub sp: usize,
}

/// What the CPU has to do after a scheduling decision.
#[derive(Clone, Copy, Debug, PartialEq, Eq, Structural)]
pub enum Dispatch {
    /// Keep running the current task.
    Stay,
    /// Save the context of `prev` (none before the first switch), restore that
    /// of `next`, by pending the PendSV exception.
    Switch { prev: Option<usize>, next: usize },
    /// The caller is unprivileged: raise the SVC exception, whose handler
    /// schedules again with privileges.
    Supervisor,
}

/// The scheduler state.
pub struct Scheduler {
    /// The running task.
    pub curr_tid: usize,
    /// Scheduling has started.
    pub is_running: bool,
    /// One slot per priority; `Some` once a task was created there.
    pub task_control_blocks: Vec<Option<TaskControlBlock>>,
    /// Tasks that may not run (e.g. while a resource they need is held).
    pub blocked_tasks: BooleanVector,
    /// Tasks that are released and have not finished.
    pub active_tasks: BooleanVector,
    /// A ready higher-priority task preempts the running one.
    pub is_preemptive: bool,
    /// The first context switch has happened.
    pub started: bool,
    /// Nesting depth of `disable_preemption`.
    pub preempt_disable_count: u32,
}

impl Scheduler {
    /// The invariant of every scheduler that the kernel builds.
    pub open spec fn wf(&self) -> bool {
        &&& self.task_control_blocks@.len() == MAX_TASKS
        &&& self.curr_tid < MAX_TASKS
        &&& self.is_preemptive == (self.preempt_disable_count == 0)
    }

    /// Task `t` is released, unfinished and not blocked.
    pub open spec fn is_ready(&self, t: u32) -> bool {
        bits::has_task(self.active_tasks, t) && !bits::has_task(self.blocked_tasks, t)
    }

    /// The ready set.
    pub open spec fn ready_tasks(&self) -> u32 {
        self.active_tasks & !self.blocked_tasks
    }

    /// The task that should run: the highest-priority ready task, or the idle
    /// task 0 when none is ready.
    pub open spec fn next_tid(&self) -> nat {
        helper::msb(self.ready_tasks())
    }

    /// The scheduler after the tasks of `mask` are released.
    pub open spec fn released(self, mask: u32) -> Scheduler {
        Scheduler { active_tasks: self.active_tasks | mask, ..self }
    }

    /// The scheduler after the tasks of `mask` are blocked.
    pub open spec fn blocked(self, mask: u32) -> Scheduler {
        Scheduler { blocked_tasks: self.blocked_tasks | mask, ..self }
    }

    /// The scheduler after the tasks of `mask` are unblocked.
    pub open spec fn unblocked(self, mask: u32) -> Scheduler {
        Scheduler { blocked_tasks: self.blocked_tasks & !mask, ..self }
    }

    /// The scheduler after the running task finished.
    pub open spec fn exited(self) -> Scheduler {
        Scheduler { active_tasks: self.active_tasks & !(1u32 << (self.curr_tid as u32)), ..self }
    }

    /// The scheduler after one more `disable_preemption`.
    pub open spec fn preemption_disabled(self) -> Scheduler {
        Scheduler {
            preempt_disable_count: (self.preempt_disable_count + 1) as u32,
            is_preemptive: false,
            ..self
        }
    }

    /// The scheduler after one `enable_preemption`.
    pub open spec fn preemption_enabled(self) -> Scheduler {
        Scheduler {
            preempt_disable_count: (self.preempt_disable_count - 1) as u32,
            is_preemptive: if self.preempt_disable_count - 1 == 0 {
                true
            } else {
                self.is_preemptive
            },
            ..self
        }
    }

    /// A switch to `next_tid` is due: scheduling runs and another task should run.
    pub open spec fn switch_due(&self) -> bool {
        self.is_running && self.curr_tid != self.next_tid()
    }

    /// The scheduler after a preemption point.
    pub open spec fn preempted(self) -> Scheduler {
        if self.switch_due() {
            Scheduler { started: true, curr_tid: self.next_tid() as usize, ..self }
        } else {
            self
        }
    }

    /// What a preemption point answers.
    pub open spec fn preempt_result(self) -> Result<Dispatch, KernelError> {
        if self.switch_due() {
            if self.task_control_blocks@[self.next_tid() as int] is Some {
                Ok(
                    Dispatch::Switch {
                        prev: if self.started {
                            Some(self.curr_tid)
                        } else {
                            None
                        },
                        next: self.next_tid() as usize,
                    },
                )
            } else {
                Err(KernelError::DoesNotExist)
            }
        } else {
            Ok(Dispatch::Stay)
        }
    }

    /// A scheduler with no task created, the idle task 0 active, nothing
    /// blocked, preemption enabled, and scheduling not yet started.
    pub fn new() -> (s: Self)
        ensures
            s.wf(),
            s.curr_tid == 0,
            !s.is_running,
            forall|i: int| 0 <= i < MAX_TASKS ==> s.task_control_blocks@[i] is None,
            s.blocked_tasks == 0,
            s.active_tasks == 1,
            s.is_preemptive,
            !s.started,
            s.preempt_disable_count == 0,
    {
        let mut tcbs: Vec<Option<TaskControlBlock>> = Vec::new();
        let mut i: usize = 0;
        while i < MAX_TASKS
            invariant
                i <= MAX_TASKS,
                tcbs@.len() == i,
                forall|j: int| 0 <= j < i ==> tcbs@[j] is None,
            decreases MAX_TASKS - i,
        {
            tcbs.push(None);
            i += 1;
        }
        Scheduler {
            curr_tid: 0,
            is_running: false,
            task_control_blocks: tcbs,
            blocked_tasks: 0,
            active_tasks: 1,
            is_preemptive: true,
            started: false,
            preempt_disable_count: 0,
        }
    }

    /// The task that should run now: the highest-priority ready task, or 0.
    pub fn get_next_tid(&self) -> (tid: usize)
        ensures
            tid == self.next_tid(),
            tid < MAX_TASKS,
    {
        let mask = self.active_tasks & !self.blocked_tasks;
        get_msb(&mask)
    }

    /// Releases the tasks of `tasks_mask`: they become active.
    pub fn release(&mut self, tasks_mask: BooleanVector)
        ensures
            *final(self) == old(self).released(tasks_mask),
    {
        self.active_tasks = self.active_tasks | tasks_mask;
    }

    /// Blocks the tasks of `tasks_mask`.
    pub fn block_tasks(&mut self, tasks_mask: BooleanVector)
        ensures
            *final(self) == old(self).blocked(tasks_mask),
    {
        self.blocked_tasks = self.blocked_tasks | tasks_mask;
    }

    /// Unblocks the tasks of `tasks_mask`.
    pub fn unblock_tasks(&mut self, tasks_mask: BooleanVector)
        ensures
            *final(self) == old(self).unblocked(tasks_mask),
    {
        self.blocked_tasks = self.blocked_tasks & !tasks_mask;
    }

    /// Marks the running task as finished.
    pub fn exit_current(&mut self)
        requires
            old(self).wf(),
        ensures
            *final(self) == old(self).exited(),
    {
        let mask: u32 = 1u32 << (self.curr_tid as u32);
        self.active_tasks = self.active_tasks & !mask;
    }

    /// One more level of non-preemptive execution.
    pub fn disable_preemption(&mut self)
        requires
            old(self).preempt_disable_count < u32::MAX,
        ensures
            *final(self) == old(self).preemption_disabled(),
    {
        self.preempt_disable_count = self.preempt_disable_count + 1;
        self.is_preemptive = false;
    }

    /// One level less of non-preemptive execution; preemption resumes when
    /// the count reaches 0.
    pub fn enable_preemption(&mut self)
        requires
            old(self).preempt_disable_count > 0,
        ensures
            *final(self) == old(self).preemption_enabled(),
    {
        self.preempt_disable_count = self.preempt_disable_count - 1;
        if self.preempt_disable_count == 0 {
            self.is_preemptive = true;
        }
    }

    /// A preemption point: when scheduling runs and the highest-priority ready
    /// task is not the running one, it becomes the running task and the switch
    /// is returned (an error when no task was created at its priority).
    pub fn preempt(&mut self) -> (res: Result<Dispatch, KernelError>)
        requires
            old(self).wf(),
        ensures
            *final(self) == old(self).preempted(),
            res == old(self).preempt_result(),
    {
        let next_tid = self.get_next_tid();
        let curr_tid = self.curr_tid;
        if self.is_running && curr_tid != next_tid {
            let prev = if self.started {
                Some(curr_tid)
            } else {
                self.started = true;
                None
            };
            self.curr_tid = next_tid;
            match self.task_control_blocks[next_tid] {
                Some(_) => Ok(Dispatch::Switch { prev, next: next_tid }),
                None => Err(KernelError::DoesNotExist),
            }
        } else {
            Ok(Dispatch::Stay)
        }
    }

    /// Scheduling starts, and the first preemption point is taken.
    pub fn start(&mut self) -> (res: Result<Dispatch, KernelError>)
        requires
            old(self).wf(),
        ensures
            *final(self) == (Scheduler { is_running: true, ..*old(self) }).preempted(),
            res == (Scheduler { is_running: true, ..*old(self) }).preempt_result(),
    {
        self.is_running = true;
        self.preempt()
    }

    /// Creates the task of priority `priority` on `stack`, whose first word is
    /// at address `stack_base`: the initial exception frame (status register,
    /// entry point `pc`, argument `arg`) is written at the top of the stack
    /// and the task's stack pointer is set 16 words below its end.
    pub fn create_task(
        &mut self,
        priority: usize,
        stack: &mut [u32],
        stack_base: usize,
        pc: u32,
        arg: u32,
    ) -> (res: Result<(), KernelError>)
        requires
            old(self).wf(),
            stack_base + 4 * old(stack)@.len() <= usize::MAX,
        ensures
            final(self).wf(),
            old(stack)@.len() < MIN_STACK_SIZE ==> {
                &&& res == Err::<(), KernelError>(KernelError::StackTooSmall)
                &&& *final(self) == *old(self)
                &&& final(stack)@ == old(stack)@
            },
            old(stack)@.len() >= MIN_STACK_SIZE ==> {
                &&& final(stack)@ == initial_frame(old(stack)@, pc, arg)
                &&& priority >= MAX_TASKS ==> res == Err::<(), KernelError>(
                    KernelError::DoesNotExist,
                ) && *final(self) == *old(self)
                &&& priority < MAX_TASKS ==> res == Ok::<(), KernelError>(()) && *final(self) == (
                Scheduler {
                    task_control_blocks: final(self).task_control_blocks,
                    ..*old(self)
                }) && final(self).task_control_blocks@ == old(self).task_control_blocks@.update(
                    priority as int,
                    Some(TaskControlBlock { sp: initial_sp(stack_base, old(stack)@.len()) }),
                )
            },
    {
        if stack.len() < MIN_STACK_SIZE {
            return Err(KernelError::StackTooSmall);
        }
        let idx = stack.len() - 1;
        stack[idx] = INITIAL_XPSR;
        stack[idx - 1] = pc;
        stack[idx - 7] = arg;
        let sp = stack_base + 4 * (stack.len() - 16);
        if priority >= MAX_TASKS {
            return Err(KernelError::DoesNotExist);
        }
        self.task_control_blocks.set(priority, Some(TaskControlBlock { sp }));
        Ok(())
    }
}

/// The task that should run is ready whenever any task is, and no ready task
/// has a higher priority; with nothing ready it is the idle task 0.
pub proof fn lemma_next_task_is_highest_ready(s: Scheduler)
    ensures
        s.next_tid() < MAX_TASKS,
        s.ready_tasks() != 0 ==> s.is_ready(s.next_tid() as u32),
        s.ready_tasks() == 0 ==> s.next_tid() == 0,
        forall|t: u32| s.next_tid() < t < 32 ==> !#[trigger] s.is_ready(t),
{
    helper::lemma_msb(s.ready_tasks());
    bits::lemma_has_task_ops();
    assert forall|t: u32| s.next_tid() < t < 32 implies !#[trigger] s.is_ready(t) by {
        assert(!bits::has_task(s.ready_tasks(), t));
    }
    if s.ready_tasks() != 0 {
        assert(bits::has_task(s.ready_tasks(), s.next_tid() as u32));
    }
}

/// Unblocking the tasks that were just blocked restores the scheduler, when
/// none of them was blocked before.
pub proof fn lemma_unblock_undoes_block(s: Scheduler, mask: u32)
    requires
        s.blocked_tasks & mask == 0,
    ensures
        s.blocked(mask).unblocked(mask) == s,
{
    bits::lemma_has_task_ops();
    let b = (s.blocked_tasks | mask) & !mask;
    assert forall|t: u32| t < 32 implies (bits::has_task(b, t) <==> bits::has_task(
        s.blocked_tasks,
        t,
    )) by {
        assert(!bits::has_task(s.blocked_tasks & mask, t));
    }
    bits::lemma_same_members_equal(b, s.blocked_tasks);
}

/// Re-enabling preemption after disabling it restores the scheduler.
pub proof fn lemma_enable_undoes_disable(s: Scheduler)
    requires
        s.wf(),
        s.preempt_disable_count < u32::MAX,
    ensures
        s.preemption_disabled().preemption_enabled() == s,
{
}

/// Every operation keeps the scheduler invariant; in particular preemption is
/// on exactly when no `disable_preemption` is pending.
pub proof fn lemma_operations_keep_wf(s: Scheduler, mask: u32)
    requires
        s.wf(),
    ensures
        s.released(mask).wf(),
        s.blocked(mask).wf(),
        s.unblocked(mask).wf(),
        s.exited().wf(),
        s.preempt_disable_count < u32::MAX ==> s.preemption_disabled().wf(),
        s.preempt_disable_count > 0 ==> s.preemption_enabled().wf(),
        s.preempted().wf(),
{
    helper::lemma_msb(s.ready_tasks());
}

/// After a preemption point of a running scheduler, the running task is the
/// highest-priority ready task, and the ready set is unchanged.
pub proof fn lemma_preempt_runs_next(s: Scheduler)
    requires
        s.wf(),
        s.is_running,
    ensures
        s.preempted().curr_tid == s.next_tid(),
        s.preempted().ready_tasks() == s.ready_tasks(),
        s.preempted().is_running,
{
    helper::lemma_msb(s.ready_tasks());
}

/// A due switch to a created task is answered with that task as `next`. Before
/// the first switch no task's context is saved (`prev` is none); from then on
/// the running task, whichever it is (the idle task 0 too), is named as
/// `prev`, so its context is saved. The first switch starts scheduling, and
/// the task switched to runs, so the next due switch names it as `prev`.
pub proof fn lemma_switch_names_running_task(s: Scheduler)
    requires
        s.wf(),
    ensures
        s.started && s.switch_due() && s.task_control_blocks@[s.next_tid() as int] is Some
            ==> s.preempt_result() == Ok::<Dispatch, KernelError>(
            Dispatch::Switch { prev: Some(s.curr_tid), next: s.next_tid() as usize },
        ),
        !s.started && s.switch_due() && s.task_control_blocks@[s.next_tid() as int] is Some
            ==> s.preempt_result() == Ok::<Dispatch, KernelError>(
            Dispatch::Switch { prev: None, next: s.next_tid() as usize },
        ),
        s.switch_due() ==> s.preempted().started && s.preempted().curr_tid == s.next_tid(),
        s.switch_due() ==> ({
            let s1 = s.preempted();
            s1.switch_due() && s1.task_control_blocks@[s1.next_tid() as int] is Some ==> s1.preempt_result()
                == Ok::<Dispatch, KernelError>(
                Dispatch::Switch { prev: Some(s.next_tid() as usize), next: s1.next_tid() as usize },
            )
        }),
        !s.switch_due() ==> s.preempt_result() == Ok::<Dispatch, KernelError>(Dispatch::Stay)
            && s.preempted() == s,
{
    helper::lemma_msb(s.ready_tasks());
}

/// A released task is active, a finished one is not, and the other tasks
/// keep their state.
pub proof fn lemma_release_and_exit(s: Scheduler, mask: u32, t: u32)
    requires
        s.wf(),
        t < 32,
    ensures
        bits::has_task(mask, t) ==> bits::has_task(s.released(mask).active_tasks, t),
        !bits::has_task(mask, t) ==> (bits::has_task(s.released(mask).active_tasks, t)
            == bits::has_task(s.active_tasks, t)),
        !bits::has_task(s.exited().active_tasks, s.curr_tid as u32),
        t != s.curr_tid ==> (bits::has_task(s.exited().active_tasks, t) == bits::has_task(
            s.active_tasks,
            t,
        )),
{
    bits::lemma_has_task_ops();
}

/// The stack after a task's initial exception frame is written at its top.
pub open spec fn initial_frame(stack: Seq<u32>, pc: u32, arg: u32) -> Seq<u32> {
    stack.update(stack.len() - 1, INITIAL_XPSR).update(stack.len() - 2, pc).update(
        stack.len() - 8,
        arg,
    )
}

/// Where a new task's stack pointer starts: 16 words below the end of the stack.
pub open spec fn initial_sp(stack_base: usize, len: nat) -> usize {
    (stack_base + 4 * (len - 16)) as usize
}

} // verus!
