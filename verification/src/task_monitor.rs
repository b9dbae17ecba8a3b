//! Task deadlines: a task may be given a deadline, and a sweep reports the
//! tasks whose deadline has passed.
use vstd::prelude::*;

use crate::bits;
use crate::config::MAX_TASKS;
use crate::types::{BooleanVector, TaskId};

verus! {

/// The deadline of each task, as a timer count, if it has one.
pub struct TaskMonitor {
    deadlines: Vec<Option<u32>>,
}

impl View for TaskMonitor {
    type V = Seq<Option<u32>>;

    closed spec fn view(&self) -> Seq<Option<u32>> {
        self.deadlines@
    }
}

/// Task `t`'s deadline is before `now`.
pub open spec fn missed(deadlines: Seq<Option<u32>>, t: int, now: u32) -> bool {
    match deadlines[t] {
        Some(d) => d < now,
        None => false,
    }
}

impl TaskMonitor {
    /// One slot per task.
    pub open spec fn wf(&self) -> bool {
        self@.len() == MAX_TASKS
    }

    /// No deadline.
    pub fn new() -> (m: Self)
        ensures
            m.wf(),
            forall|i: int| 0 <= i < MAX_TASKS ==> m@[i] is None,
    {
        let mut deadlines: Vec<Option<u32>> = Vec::new();
        let mut i: usize = 0;
        while i < MAX_TASKS
            invariant
                i <= MAX_TASKS,
                deadlines@.len() == i,
                forall|j: int| 0 <= j < i ==> deadlines@[j] is None,
            decreases MAX_TASKS - i,
        {
            deadlines.push(None);
            i += 1;
        }
        Self { deadlines }
    }

    /// Task `tid` must finish by the timer count `deadline`.
    pub fn set_deadline(&mut self, tid: TaskId, deadline: u32)
        requires
            old(self).wf(),
            tid < MAX_TASKS,
        ensures
            final(self)@ == old(self)@.update(tid as int, Some(deadline)),
    {
        self.deadlines.set(tid as usize, Some(deadline));
    }

    /// Task `tid` has no deadline any more.
    pub fn clear_deadline(&mut self, tid: TaskId)
        requires
            old(self).wf(),
            tid < MAX_TASKS,
        ensures
            final(self)@ == old(self)@.update(tid as int, None),
    {
        self.deadlines.set(tid as usize, None);
    }

    /// The tasks whose deadline is before `now`; their deadlines are cleared,
    /// so that each miss is reported once.
    pub fn sweep_deadlines(&mut self, now: u32) -> (missed_tasks: BooleanVector)
        requires
            old(self).wf(),
        ensures
            final(self).wf(),
            forall|t: u32|
                t < 32 ==> (#[trigger] bits::has_task(missed_tasks, t) <==> missed(
                    old(self)@,
                    t as int,
                    now,
                )),
            forall|i: int|
                0 <= i < MAX_TASKS ==> #[trigger] final(self)@[i] == if missed(old(self)@, i, now) {
                    None
                } else {
                    old(self)@[i]
                },
    {
        let mut mask: u32 = 0;
        let mut tid: usize = 0;
        proof {
            bits::lemma_has_task_ops();
        }
        while tid < MAX_TASKS
            invariant
                tid <= MAX_TASKS,
                self.wf(),
                forall|t: u32|
                    t < 32 ==> (#[trigger] bits::has_task(mask, t) <==> (t < tid && missed(
                        old(self)@,
                        t as int,
                        now,
                    ))),
                forall|i: int|
                    0 <= i < MAX_TASKS ==> #[trigger] self@[i] == if i < tid && missed(
                        old(self)@,
                        i,
                        now,
                    ) {
                        None
                    } else {
                        old(self)@[i]
                    },
            decreases MAX_TASKS - tid,
        {
            proof {
                bits::lemma_has_task_ops();
            }
            if let Some(deadline) = self.deadlines[tid] {
                if deadline < now {
                    mask = mask | (1u32 << (tid as u32));
                    self.deadlines.set(tid, None);
                }
            }
            tid += 1;
        }
        mask
    }
}

/// Gives task `tid` a deadline `deadline` timer counts after `now`.
pub fn set_deadline(monitor: &mut TaskMonitor, now: u32, tid: TaskId, deadline: u32)
    requires
        old(monitor).wf(),
        tid < MAX_TASKS,
        now + deadline <= u32::MAX,
    ensures
        final(monitor)@ == old(monitor)@.update(tid as int, Some((now + deadline) as u32)),
{
    monitor.set_deadline(tid, now + deadline);
}

/// Removes task `tid`'s deadline.
pub fn clear_deadline(monitor: &mut TaskMonitor, tid: TaskId)
    requires
        old(monitor).wf(),
        tid < MAX_TASKS,
    ensures
        final(monitor)@ == old(monitor)@.update(tid as int, None),
{
    monitor.clear_deadline(tid);
}

/// Reports, once, the tasks whose deadline is before `now`.
pub fn sweep_deadlines(monitor: &mut TaskMonitor, now: u32) -> (missed_tasks: BooleanVector)
    requires
        old(monitor).wf(),
    ensures
        final(monitor).wf(),
        forall|t: u32|
            t < 32 ==> (#[trigger] bits::has_task(missed_tasks, t) <==> missed(
                old(monitor)@,
                t as int,
                now,
            )),
        forall|i: int|
            0 <= i < MAX_TASKS ==> #[trigger] final(monitor)@[i] == if missed(old(monitor)@, i, now) {
                None
            } else {
                old(monitor)@[i]
            },
{
    monitor.sweep_deadlines(now)
}

} // verus!
