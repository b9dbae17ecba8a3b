//! Resources shared under the priority ceiling protocol: while a task holds a
//! resource, every task of priority up to the resource's ceiling (but the
//! holder) is blocked, so neither data races nor deadlocks can arise.
use vstd::prelude::*;

use crate::bits;
use crate::config::MAX_RESOURCES;
use crate::errors::KernelError;
use crate::helper;
use crate::helper::get_msb;
use crate::scheduler::{Dispatch, Scheduler};
use crate::tasks;
use crate::types::{BooleanVector, TaskId};

verus! {

/// A held resource on the lock stack: its ceiling, and the tasks that its
/// lock blocked which were not blocked before (those its unlock unblocks).
#[derive(Clone, Copy, Debug, PartialEq, Eq, Structural)]
pub struct PiEntry {
    pub ceiling: TaskId,
    pub blocked: BooleanVector,
}

/// The stack of the resources currently held, the last locked on top.
pub struct PiStack {
    pi_stack: Vec<PiEntry>,
    top: usize,
    system_ceiling: i32,
}

/// The ceiling that a stack of held resources imposes: that of the last
/// one, or -1.
pub open spec fn ceiling_of(stack: Seq<PiEntry>) -> i32 {
    if stack.len() == 0 {
        -1i32
    } else {
        stack.last().ceiling as i32
    }
}

impl View for PiStack {
    type V = Seq<PiEntry>;

    closed spec fn view(&self) -> Seq<PiEntry> {
        self.pi_stack@.take(self.top as int)
    }
}

impl PiStack {
    /// The ceiling of the resource locked last, or -1 when none is held.
    pub closed spec fn spec_system_ceiling(&self) -> i32 {
        self.system_ceiling
    }

    /// The ceiling of the resource locked last, or -1 when none is held.
    pub fn system_ceiling(&self) -> (c: i32)
        ensures
            c == self.spec_system_ceiling(),
    {
        self.system_ceiling
    }

    /// Held ceilings are task ids, the stack fits, and `system_ceiling` is
    /// the ceiling of the stack.
    pub open spec fn wf(&self) -> bool {
        &&& self@.len() <= MAX_RESOURCES
        &&& forall|i: int| 0 <= i < self@.len() ==> #[trigger] self@[i].ceiling < 32
        &&& self.spec_system_ceiling() == ceiling_of(self@)
    }

    /// The storage holds `MAX_RESOURCES` slots.
    pub closed spec fn storage_wf(&self) -> bool {
        &&& self.pi_stack@.len() == MAX_RESOURCES
        &&& self.top <= MAX_RESOURCES
    }

    /// The invariant, with the storage constraint that only this module reads.
    pub open spec fn valid(&self) -> bool {
        self.wf() && self.storage_wf()
    }

    /// No resource held.
    pub fn new() -> (s: Self)
        ensures
            s.valid(),
            s@ == Seq::<PiEntry>::empty(),
            s.spec_system_ceiling() == -1,
    {
        let mut pi_stack: Vec<PiEntry> = Vec::new();
        let mut i: usize = 0;
        while i < MAX_RESOURCES
            invariant
                i <= MAX_RESOURCES,
                pi_stack@.len() == i,
            decreases MAX_RESOURCES - i,
        {
            pi_stack.push(PiEntry { ceiling: 0, blocked: 0 });
            i += 1;
        }
        let s = PiStack { pi_stack, top: 0, system_ceiling: -1 };
        assert(s@ =~= Seq::<PiEntry>::empty());
        s
    }

    /// Pushes a held resource of ceiling `ceiling` whose lock blocked
    /// `blocked`; its ceiling becomes the system ceiling. `LimitExceeded`
    /// when the stack is full.
    pub fn push_stack(&mut self, ceiling: TaskId, blocked: BooleanVector) -> (res: Result<(), KernelError>)
        requires
            old(self).valid(),
            ceiling < 32,
        ensures
            final(self).valid(),
            old(self)@.len() >= MAX_RESOURCES ==> res == Err::<(), KernelError>(
                KernelError::LimitExceeded,
            ) && final(self)@ == old(self)@ && final(self).spec_system_ceiling() == old(self).spec_system_ceiling(),
            old(self)@.len() < MAX_RESOURCES ==> res == Ok::<(), KernelError>(()) && final(self)@
                == old(self)@.push(PiEntry { ceiling, blocked }) && final(self).spec_system_ceiling()
                == ceiling as i32,
    {
        if self.top >= MAX_RESOURCES {
            return Err(KernelError::LimitExceeded);
        }
        let ghost before = self@;
        self.pi_stack.set(self.top, PiEntry { ceiling, blocked });
        self.top += 1;
        self.system_ceiling = ceiling as i32;
        assert(self@ =~= before.push(PiEntry { ceiling, blocked }));
        Ok(())
    }

    /// Pops and returns the resource locked last; the one below gives the
    /// system ceiling (-1 when none is left). `NotFound` when the stack is
    /// empty.
    pub fn pop_stack(&mut self) -> (res: Result<PiEntry, KernelError>)
        requires
            old(self).valid(),
        ensures
            final(self).valid(),
            old(self)@.len() == 0 ==> res == Err::<PiEntry, KernelError>(KernelError::NotFound)
                && final(self)@ == old(self)@ && final(self).spec_system_ceiling() == old(self).spec_system_ceiling(),
            old(self)@.len() > 0 ==> res == Ok::<PiEntry, KernelError>(old(self)@.last()) && final(self)@ == old(self)@.drop_last() && final(self).spec_system_ceiling() == ceiling_of(
                old(self)@.drop_last(),
            ),
    {
        if self.top == 0 {
            return Err(KernelError::NotFound);
        }
        let ghost before = self@;
        let entry = self.pi_stack[self.top - 1];
        self.top -= 1;
        assert(self@ =~= before.drop_last());
        if self.top == 0 {
            self.system_ceiling = -1;
        } else {
            assert(self@.last() == self.pi_stack@[self.top - 1]);
            self.system_ceiling = self.pi_stack[self.top - 1].ceiling as i32;
        }
        Ok(entry)
    }
}

/// The tasks of priority up to `ceiling`.
pub open spec fn pi_mask(ceiling: u32) -> u32 {
    if ceiling < 31 {
        ((1u32 << (ceiling + 1) as u32) - 1) as u32
    } else {
        0xffff_ffffu32
    }
}

/// `pi_mask(c)` holds exactly the tasks of priority at most `c`.
pub proof fn lemma_pi_mask_members(c: u32)
    requires
        c < 32,
    ensures
        forall|t: u32| t < 32 ==> (#[trigger] bits::has_task(pi_mask(c), t) <==> t <= c),
{
    bits::lemma_has_task_ops();
    if c < 31 {
        lemma_low_mask(c);
    }
}

proof fn lemma_low_mask(c: u32)
    by (bit_vector)
    requires
        c < 31,
    ensures
        forall|t: u32|
            t < 32 ==> (#[trigger] bits::has_task(((1u32 << (c + 1) as u32) - 1) as u32, t) <==> t <= c),
{
}

/// The dispatch of a scheduling point, or `Stay` when it failed.
pub open spec fn dispatch_or_stay(r: Result<Dispatch, KernelError>) -> Dispatch {
    match r {
        Ok(d) => d,
        Err(_) => Dispatch::Stay,
    }
}

/// A value that tasks access only under the priority ceiling protocol.
pub struct Resource<T> {
    ceiling: TaskId,
    tasks_mask: BooleanVector,
    inner: T,
}

impl<T> Resource<T> {
    /// The highest priority among the tasks allowed to access the resource.
    pub closed spec fn spec_ceiling(&self) -> TaskId {
        self.ceiling
    }

    /// The tasks allowed to access the resource.
    pub closed spec fn spec_tasks_mask(&self) -> BooleanVector {
        self.tasks_mask
    }

    /// The guarded value.
    pub closed spec fn value(&self) -> T {
        self.inner
    }

    /// The ceiling is the highest priority of the allowed tasks.
    pub open spec fn wf(&self) -> bool {
        &&& self.spec_ceiling() < 32
        &&& self.spec_ceiling() == helper::msb(self.spec_tasks_mask())
    }

    /// The tasks that a lock by `curr_tid` blocks: those up to the ceiling,
    /// but the holder.
    pub open spec fn lock_mask(&self, curr_tid: u32) -> u32 {
        pi_mask(self.spec_ceiling()) & !(1u32 << curr_tid)
    }

    /// The scheduler after this resource is locked by task `curr_tid`.
    pub open spec fn locked_by(&self, scheduler: Scheduler, curr_tid: u32) -> Scheduler {
        scheduler.blocked(self.lock_mask(curr_tid))
    }

    /// The tasks that a lock by `curr_tid` newly blocks in `scheduler`; the
    /// matching unlock unblocks exactly these.
    pub open spec fn newly_blocked(&self, scheduler: Scheduler, curr_tid: u32) -> u32 {
        self.lock_mask(curr_tid) & !scheduler.blocked_tasks
    }

    /// Guards `val` for the tasks of `tasks_mask` and task 0 (interrupt
    /// handlers and privileged code); the ceiling is the highest of them.
    pub fn new(val: T, tasks_mask: BooleanVector) -> (r: Self)
        ensures
            r.wf(),
            r.spec_tasks_mask() == tasks_mask | 1,
            r.spec_ceiling() == helper::msb(tasks_mask | 1),
            r.value() == val,
    {
        let tasks_mask = tasks_mask | 1;
        let ceiling = get_msb(&tasks_mask) as TaskId;
        Self { inner: val, tasks_mask, ceiling }
    }

    /// The tasks of priority up to `ceiling`.
    fn get_pi_mask(ceiling: TaskId) -> (mask: u32)
        ensures
            mask == pi_mask(ceiling),
    {
        if ceiling < 31 {
            assert((1u32 << (ceiling + 1)) >= 1) by (bit_vector)
                requires
                    ceiling < 31,
            ;
            (1u32 << (ceiling + 1)) - 1
        } else {
            0xffff_ffff
        }
    }

    /// Locks the resource for task `curr_tid`: `AccessDenied` when the task
    /// may not access it or when its ceiling does not exceed the system
    /// ceiling; otherwise the resource is pushed on the lock stack
    /// (`LimitExceeded` when it is full), its ceiling becomes the system
    /// ceiling, and the other tasks up to the ceiling are blocked.
    pub fn lock(&self, pi_stack: &mut PiStack, scheduler: &mut Scheduler, curr_tid: u32) -> (res:
        Result<&T, KernelError>)
        requires
            self.wf(),
            old(pi_stack).valid(),
            curr_tid < 32,
        ensures
            final(pi_stack).valid(),
            !bits::has_task(self.spec_tasks_mask(), curr_tid) || self.spec_ceiling() as i32 <= old(pi_stack).spec_system_ceiling() ==> res == Err::<&T, KernelError>(KernelError::AccessDenied)
                && final(pi_stack)@ == old(pi_stack)@ && final(pi_stack).spec_system_ceiling()
                == old(pi_stack).spec_system_ceiling() && *final(scheduler) == *old(scheduler),
            bits::has_task(self.spec_tasks_mask(), curr_tid) && self.spec_ceiling() as i32 > old(pi_stack).spec_system_ceiling() && old(pi_stack)@.len() >= MAX_RESOURCES ==> res == Err::<
                &T,
                KernelError,
            >(KernelError::LimitExceeded) && final(pi_stack)@ == old(pi_stack)@ && final(pi_stack).spec_system_ceiling() == old(pi_stack).spec_system_ceiling() && *final(scheduler)
                == *old(scheduler),
            bits::has_task(self.spec_tasks_mask(), curr_tid) && self.spec_ceiling() as i32 > old(pi_stack).spec_system_ceiling() && old(pi_stack)@.len() < MAX_RESOURCES ==> {
                &&& res == Ok::<&T, KernelError>(&self.value())
                &&& final(pi_stack)@ == old(pi_stack)@.push(
                    PiEntry {
                        ceiling: self.spec_ceiling(),
                        blocked: self.newly_blocked(*old(scheduler), curr_tid),
                    },
                )
                &&& final(pi_stack).spec_system_ceiling() == self.spec_ceiling() as i32
                &&& *final(scheduler) == self.locked_by(*old(scheduler), curr_tid)
            },
    {
        let ceiling = self.ceiling;
        let pid_mask: u32 = 1u32 << curr_tid;
        proof {
            bits::lemma_single_bit_test();
        }
        if self.tasks_mask & pid_mask != pid_mask {
            return Err(KernelError::AccessDenied);
        }
        if ceiling as i32 > pi_stack.system_ceiling {
            let mask = Self::get_pi_mask(ceiling) & !pid_mask;
            pi_stack.push_stack(ceiling, mask & !scheduler.blocked_tasks)?;
            scheduler.block_tasks(mask);
            return Ok(&self.inner);
        }
        Err(KernelError::AccessDenied)
    }

    /// Unlocks the resource when it is the one locked last: it is popped, the
    /// tasks its lock newly blocked are unblocked, and a scheduling point
    /// follows (its dispatch is returned; `Stay` when the preemption point
    /// failed). Otherwise nothing changes.
    pub fn unlock(&self, pi_stack: &mut PiStack, scheduler: &mut Scheduler, privileged: bool) -> (res:
        Result<Dispatch, KernelError>)
        requires
            self.wf(),
            old(pi_stack).valid(),
            old(scheduler).wf(),
        ensures
            final(pi_stack).valid(),
            final(scheduler).wf(),
            self.spec_ceiling() as i32 == old(pi_stack).spec_system_ceiling() ==> {
                let restored = old(scheduler).unblocked(old(pi_stack)@.last().blocked);
                &&& final(pi_stack)@ == old(pi_stack)@.drop_last()
                &&& final(pi_stack).spec_system_ceiling() == ceiling_of(old(pi_stack)@.drop_last())
                &&& *final(scheduler) == tasks::scheduled(restored, privileged)
                &&& res == Ok::<Dispatch, KernelError>(
                    dispatch_or_stay(tasks::schedule_result(restored, privileged)),
                )
            },
            self.spec_ceiling() as i32 != old(pi_stack).spec_system_ceiling() ==> final(pi_stack)@
                == old(pi_stack)@ && final(pi_stack).spec_system_ceiling() == old(pi_stack).spec_system_ceiling() && *final(scheduler) == *old(scheduler) && res == Ok::<
                Dispatch,
                KernelError,
            >(Dispatch::Stay),
    {
        if self.ceiling as i32 == pi_stack.system_ceiling {
            let entry = pi_stack.pop_stack()?;
            scheduler.unblock_tasks(entry.blocked);
            proof {
                crate::scheduler::lemma_operations_keep_wf(*old(scheduler), entry.blocked);
            }
            let dispatch = match tasks::schedule(scheduler, privileged) {
                Ok(d) => d,
                Err(_) => Dispatch::Stay,
            };
            proof {
                crate::scheduler::lemma_operations_keep_wf(
                    old(scheduler).unblocked(entry.blocked),
                    0,
                );
            }
            return Ok(dispatch);
        }
        Ok(Dispatch::Stay)
    }

    /// Runs `handler` on the value inside a lock/unlock pair for task
    /// `curr_tid`, and returns its result with the dispatch of the
    /// scheduling point that follows the unlock; the errors are those of
    /// `lock`. The lock stack and the blocked tasks come out as they went in.
    pub fn acquire<F, R>(
        &self,
        pi_stack: &mut PiStack,
        scheduler: &mut Scheduler,
        curr_tid: u32,
        privileged: bool,
        handler: F,
    ) -> (res: Result<(R, Dispatch), KernelError>) where F: Fn(&T) -> R
        requires
            self.wf(),
            old(pi_stack).valid(),
            old(scheduler).wf(),
            curr_tid < 32,
            handler.requires((&self.value(),)),
        ensures
            final(pi_stack).valid(),
            !bits::has_task(self.spec_tasks_mask(), curr_tid) || self.spec_ceiling() as i32 <= old(pi_stack).spec_system_ceiling() ==> res is Err && res->Err_0 == KernelError::AccessDenied
                && final(pi_stack)@ == old(pi_stack)@ && final(pi_stack).spec_system_ceiling()
                == old(pi_stack).spec_system_ceiling() && *final(scheduler) == *old(scheduler),
            bits::has_task(self.spec_tasks_mask(), curr_tid) && self.spec_ceiling() as i32 > old(pi_stack).spec_system_ceiling() && old(pi_stack)@.len() >= MAX_RESOURCES ==> res is Err
                && res->Err_0 == KernelError::LimitExceeded && final(pi_stack)@ == old(pi_stack)@
                && final(pi_stack).spec_system_ceiling() == old(pi_stack).spec_system_ceiling()
                && *final(scheduler) == *old(scheduler),
            bits::has_task(self.spec_tasks_mask(), curr_tid) && self.spec_ceiling() as i32 > old(pi_stack).spec_system_ceiling() && old(pi_stack)@.len() < MAX_RESOURCES ==> {
                &&& res is Ok
                &&& handler.ensures((&self.value(),), res->Ok_0.0)
                &&& res->Ok_0.1 == dispatch_or_stay(
                    tasks::schedule_result(*old(scheduler), privileged),
                )
                &&& final(pi_stack)@ == old(pi_stack)@
                &&& final(pi_stack).spec_system_ceiling() == old(pi_stack).spec_system_ceiling()
                &&& *final(scheduler) == tasks::scheduled(*old(scheduler), privileged)
            },
    {
        let value = self.lock(pi_stack, scheduler, curr_tid)?;
        let ghost pushed = pi_stack@;
        proof {
            lemma_unlock_undoes_lock(*self, *old(scheduler), curr_tid);
            crate::scheduler::lemma_operations_keep_wf(*old(scheduler), self.lock_mask(curr_tid));
            assert(pushed.last().blocked == self.newly_blocked(*old(scheduler), curr_tid));
        }
        let res = handler(value);
        let dispatch = self.unlock(pi_stack, scheduler, privileged)?;
        proof {
            assert(pushed.drop_last() =~= old(pi_stack)@);
        }
        Ok((res, dispatch))
    }

    /// The value itself, for privileged code only (`AccessDenied` otherwise).
    pub fn access(&self, privileged: bool) -> (res: Result<&T, KernelError>)
        ensures
            privileged ==> res == Ok::<&T, KernelError>(&self.value()),
            !privileged ==> res == Err::<&T, KernelError>(KernelError::AccessDenied),
    {
        if !privileged {
            return Err(KernelError::AccessDenied);
        }
        Ok(&self.inner)
    }
}

/// Guards `resource` for the tasks of `tasks_mask` (and task 0); only
/// privileged code may create resources (`AccessDenied` otherwise).
pub fn create<T>(privileged: bool, resource: T, tasks_mask: BooleanVector) -> (res: Result<
    Resource<T>,
    KernelError,
>)
    ensures
        !privileged ==> res is Err && res->Err_0 == KernelError::AccessDenied,
        privileged ==> (res matches Ok(r) && r.wf() && r.spec_tasks_mask() == tasks_mask | 1
            && r.spec_ceiling() == helper::msb(tasks_mask | 1) && r.value() == resource),
{
    if !privileged {
        return Err(KernelError::AccessDenied);
    }
    Ok(Resource::new(resource, tasks_mask))
}

/// The held ceilings increase strictly from the bottom of the stack up.
pub open spec fn strictly_increasing(stack: Seq<PiEntry>) -> bool {
    forall|i: int, j: int| 0 <= i < j < stack.len() ==> stack[i].ceiling < stack[j].ceiling
}

/// A lock pushes only a ceiling above the system ceiling, and an unlock pops:
/// both keep the held ceilings strictly increasing, so resources are always
/// released in the reverse order of their locking.
pub proof fn lemma_lock_nesting(stack: Seq<PiEntry>, e: PiEntry)
    requires
        strictly_increasing(stack),
        e.ceiling < 32,
        forall|i: int| 0 <= i < stack.len() ==> #[trigger] stack[i].ceiling < 32,
    ensures
        e.ceiling as i32 > ceiling_of(stack) ==> strictly_increasing(stack.push(e)),
        stack.len() > 0 ==> strictly_increasing(stack.drop_last()),
        ceiling_of(stack.push(e)) == e.ceiling as i32,
{
    if e.ceiling as i32 > ceiling_of(stack) {
        let p = stack.push(e);
        assert forall|i: int, j: int| 0 <= i < j < p.len() implies p[i].ceiling < p[j].ceiling by {
            if j == stack.len() {
                assert(stack.last().ceiling < 32);
                assert(stack[i].ceiling <= stack.last().ceiling);
                assert(p[j] == e);
                assert(p[i] == stack[i]);
            } else {
                assert(p[i] == stack[i]);
                assert(p[j] == stack[j]);
            }
        }
    }
    if stack.len() > 0 {
        let d = stack.drop_last();
        assert forall|i: int, j: int| 0 <= i < j < d.len() implies d[i].ceiling < d[j].ceiling by {
            assert(d[i] == stack[i]);
            assert(d[j] == stack[j]);
        }
    }
}

/// The ceiling of a resource is the highest priority among the tasks
/// allowed to use it, and task 0 is always allowed.
pub proof fn lemma_ceiling_is_highest_user<T>(r: Resource<T>)
    requires
        r.wf(),
        bits::has_task(r.spec_tasks_mask(), 0),
    ensures
        bits::has_task(r.spec_tasks_mask(), r.spec_ceiling()),
        forall|t: u32| r.spec_ceiling() < t < 32 ==> !#[trigger] bits::has_task(r.spec_tasks_mask(), t),
{
    helper::lemma_msb(r.spec_tasks_mask());
    if r.spec_tasks_mask() == 0 {
        bits::lemma_has_task_ops();
    }
}

/// While a resource is held by `curr_tid`, no other task of priority up to
/// its ceiling is ready, so the task chosen to run is the holder or a task
/// above the ceiling.
pub proof fn lemma_lock_excludes_contenders<T>(r: Resource<T>, s: Scheduler, curr_tid: u32)
    requires
        r.wf(),
        curr_tid < 32,
    ensures
        forall|t: u32|
            t < 32 && t <= r.spec_ceiling() && t != curr_tid ==> !#[trigger] r.locked_by(
                s,
                curr_tid,
            ).is_ready(t),
        r.locked_by(s, curr_tid).ready_tasks() != 0 ==> r.locked_by(s, curr_tid).next_tid()
            == curr_tid || r.locked_by(s, curr_tid).next_tid() > r.spec_ceiling(),
{
    bits::lemma_has_task_ops();
    lemma_pi_mask_members(r.spec_ceiling());
    let l = r.locked_by(s, curr_tid);
    crate::scheduler::lemma_next_task_is_highest_ready(l);
    assert forall|t: u32| t < 32 && t <= r.spec_ceiling() && t != curr_tid implies !#[trigger] l.is_ready(t) by {
        assert(bits::has_task(pi_mask(r.spec_ceiling()), t));
        assert(!bits::has_task(1u32 << curr_tid, t));
        assert(bits::has_task(pi_mask(r.spec_ceiling()) & !(1u32 << curr_tid), t));
    }
}

/// Unlocking a resource unblocks exactly what its lock newly blocked, so
/// the blocked set comes back to what it was before the lock, whatever an
/// enclosing lock had blocked.
pub proof fn lemma_unlock_undoes_lock<T>(r: Resource<T>, s: Scheduler, curr_tid: u32)
    requires
        r.wf(),
        curr_tid < 32,
    ensures
        r.locked_by(s, curr_tid).unblocked(r.newly_blocked(s, curr_tid)) == s,
{
    bits::lemma_has_task_ops();
    let m = r.lock_mask(curr_tid);
    let b = (s.blocked_tasks | m) & !(m & !s.blocked_tasks);
    assert forall|t: u32| t < 32 implies (bits::has_task(b, t) <==> bits::has_task(
        s.blocked_tasks,
        t,
    )) by {
        assert(bits::has_task(m & !s.blocked_tasks, t) == (bits::has_task(m, t)
            && !bits::has_task(s.blocked_tasks, t)));
    }
    bits::lemma_same_members_equal(b, s.blocked_tasks);
}

} // verus!
