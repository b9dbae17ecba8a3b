//! The kernel state that the timer interrupt drives, and one timer tick over
//! it: scheduling point, timer, event sweeps with the actions of the events
//! that fire, clock, and deadline sweep.
use vstd::prelude::*;

use crate::config::MESSAGE_COUNT;
use crate::event_manager;
use crate::event_manager::{Event, EventAction, EventManager, EventTableType};
use crate::events;
use crate::messaging::{MCB, MessagingManager};
use crate::resource;
use crate::scheduler::{Dispatch, Scheduler};
use crate::semaphores::{SemaphoreControlBlock, SemaphoresTable};
use crate::task_monitor;
use crate::task_monitor::TaskMonitor;
use crate::tasks;
use crate::time::{TickType, Time};
use crate::timer;
use crate::types::BooleanVector;

verus! {

/// The components that a timer tick reads and changes.
pub struct Kernel {
    pub scheduler: Scheduler,
    pub semaphores: SemaphoresTable,
    pub messages: MessagingManager,
    pub events: EventManager,
    pub time: Time,
    pub timer: u32,
    pub monitor: TaskMonitor,
}

/// Why a tick cannot complete: the original would index out of bounds or
/// overflow at that point.
#[derive(Clone, Copy, Debug, PartialEq, Eq, Structural)]
pub enum TickFault {
    /// The timer count is at its maximum.
    TimerOverflow,
    /// A clock field would overflow.
    ClockOverflow,
    /// A firing event names a successor, semaphore or message outside its table.
    EventOutOfRange,
}

/// What a completed tick leaves to the CPU: the dispatch of its scheduling
/// point, and the tasks that missed their deadline.
#[derive(Clone, Copy, Debug, PartialEq, Eq, Structural)]
pub struct TickOutcome {
    pub dispatch: Dispatch,
    pub missed: BooleanVector,
}

/// The semaphores, the message semaphores and the scheduler, which firings change.
pub type ActParts = (Seq<Option<SemaphoreControlBlock>>, Seq<Option<SemaphoreControlBlock>>, Scheduler);

/// The event table with the parts that firings change.
pub type TickParts = (
    Seq<Event>,
    Seq<Option<SemaphoreControlBlock>>,
    Seq<Option<SemaphoreControlBlock>>,
    Scheduler,
);

/// The parts after `action` is performed (see `events::perform_action`).
pub open spec fn act(st: ActParts, mcbs: Seq<Option<MCB>>, action: EventAction) -> ActParts {
    (
        events::signal_effect(st.0, action.signal),
        events::broadcast_effect(st.1, mcbs, action.broadcast),
        events::released_opt(
            events::released_opt(
                events::released_opt(st.2, events::signal_release(st.0, action.signal)),
                events::broadcast_release(st.1, action.broadcast),
            ),
            action.release,
        ),
    )
}

/// The parts after `actions` are performed in order.
pub open spec fn act_all(st: ActParts, mcbs: Seq<Option<MCB>>, actions: Seq<EventAction>) -> ActParts
    decreases actions.len(),
{
    if actions.len() == 0 {
        st
    } else {
        act(act_all(st, mcbs, actions.drop_last()), mcbs, actions.last())
    }
}

/// `action` names a semaphore slot and, if any, a created message.
pub open spec fn action_ok(action: EventAction, mcbs: Seq<Option<MCB>>) -> bool {
    &&& action.signal matches Some(sig) ==> sig.semaphore < MESSAGE_COUNT
    &&& action.broadcast matches Some(m) ==> (m < MESSAGE_COUNT ==> mcbs[m as int] is Some)
}

/// Every action of `actions` can be performed.
pub open spec fn actions_ok(actions: Seq<EventAction>, mcbs: Seq<Option<MCB>>) -> bool {
    forall|i: int| 0 <= i < actions.len() ==> #[trigger] action_ok(actions[i], mcbs)
}

/// The parts after period `period`'s list is swept and the firings'
/// actions performed; `None` where the sweep or an action would leave a table.
pub open spec fn sweep_period(
    st: TickParts,
    lists: EventManager,
    mcbs: Seq<Option<MCB>>,
    period: EventTableType,
) -> Option<TickParts> {
    let ids = lists.index_table(period).table@;
    if !event_manager::sweep_safe(st.0, ids) {
        None
    } else {
        let actions = event_manager::sweep_actions(st.0, ids);
        if !actions_ok(actions, mcbs) {
            None
        } else {
            let a = act_all((st.1, st.2, st.3), mcbs, actions);
            Some((event_manager::swept(st.0, ids), a.0, a.1, a.2))
        }
    }
}

/// The parts after the lists of `periods` are swept in order.
pub open spec fn sweep_periods(
    st: TickParts,
    lists: EventManager,
    mcbs: Seq<Option<MCB>>,
    periods: Seq<EventTableType>,
) -> Option<TickParts>
    decreases periods.len(),
{
    if periods.len() == 0 {
        Some(st)
    } else {
        match sweep_periods(st, lists, mcbs, periods.drop_last()) {
            Some(s) => sweep_period(s, lists, mcbs, periods.last()),
            None => None,
        }
    }
}

/// A sweep that fails on a prefix of the periods fails on all of them.
proof fn lemma_sweep_periods_fail(
    st: TickParts,
    lists: EventManager,
    mcbs: Seq<Option<MCB>>,
    periods: Seq<EventTableType>,
    j: int,
)
    requires
        0 <= j <= periods.len(),
        sweep_periods(st, lists, mcbs, periods.take(j)) is None,
    ensures
        sweep_periods(st, lists, mcbs, periods) is None,
    decreases periods.len(),
{
    if j == periods.len() {
        assert(periods.take(j) =~= periods);
    } else {
        assert(periods.drop_last().take(j) =~= periods.take(j));
        lemma_sweep_periods_fail(st, lists, mcbs, periods.drop_last(), j);
    }
}

/// The event table and changed parts after a tick's sweeps: the 10 ms list
/// before the clock moves, then the lists of the periods that the clock
/// completes; `None` where the original would leave a table.
pub open spec fn tick_sweeps(k: Kernel) -> Option<TickParts> {
    let st0 = (
        k.events.event_table@,
        k.semaphores@,
        k.messages.scb_table@,
        tasks::scheduled(k.scheduler, true),
    );
    let mcbs = k.messages.mcb_table@;
    match sweep_period(st0, k.events, mcbs, EventTableType::MilliSec) {
        Some(st1) => sweep_periods(
            st1,
            k.events,
            mcbs,
            events::periods_for_tick(k.time.tick_type()).drop_first(),
        ),
        None => None,
    }
}

/// The parts after period `period`'s list is swept, starting from `st` where
/// the earlier sweeps succeeded.
pub open spec fn then_sweep(
    st: Option<TickParts>,
    lists: EventManager,
    mcbs: Seq<Option<MCB>>,
    period: EventTableType,
) -> Option<TickParts> {
    match st {
        Some(s) => sweep_period(s, lists, mcbs, period),
        None => None,
    }
}

/// A tick sweeps the 10 ms list, then the list of every period that its
/// clock step completes, shortest first: a tick that completes an hour (or a
/// day) sweeps the second, minute and hour lists; one that completes a
/// minute the second and minute lists; one that completes a second the
/// second list; any other tick only the 10 ms list.
pub proof fn lemma_tick_sweeps_completed_periods(k: Kernel)
    ensures
        ({
            let st0 = (
                k.events.event_table@,
                k.semaphores@,
                k.messages.scb_table@,
                tasks::scheduled(k.scheduler, true),
            );
            let mcbs = k.messages.mcb_table@;
            let ms = sweep_period(st0, k.events, mcbs, EventTableType::MilliSec);
            let sec = then_sweep(ms, k.events, mcbs, EventTableType::Sec);
            let min = then_sweep(sec, k.events, mcbs, EventTableType::Min);
            let hour = then_sweep(min, k.events, mcbs, EventTableType::Hour);
            &&& (k.time.tick_type() == TickType::Hour || k.time.tick_type() == TickType::Day)
                ==> tick_sweeps(k) == hour
            &&& k.time.tick_type() == TickType::Min ==> tick_sweeps(k) == min
            &&& k.time.tick_type() == TickType::Sec ==> tick_sweeps(k) == sec
            &&& k.time.tick_type() == TickType::MilliSec10 ==> tick_sweeps(k) == ms
        }),
{
    let st0 = (
        k.events.event_table@,
        k.semaphores@,
        k.messages.scb_table@,
        tasks::scheduled(k.scheduler, true),
    );
    let mcbs = k.messages.mcb_table@;
    let rest = events::periods_for_tick(k.time.tick_type()).drop_first();
    let s1 = seq![EventTableType::Sec];
    let s2 = seq![EventTableType::Sec, EventTableType::Min];
    let s3 = seq![EventTableType::Sec, EventTableType::Min, EventTableType::Hour];
    assert(s1.drop_last() =~= Seq::<EventTableType>::empty());
    assert(s2.drop_last() =~= s1);
    assert(s3.drop_last() =~= s2);
    if let Some(st1) = sweep_period(st0, k.events, mcbs, EventTableType::MilliSec) {
        assert(sweep_periods(st1, k.events, mcbs, Seq::<EventTableType>::empty()) == Some(st1));
        assert(sweep_periods(st1, k.events, mcbs, s1) == then_sweep(
            Some(st1),
            k.events,
            mcbs,
            EventTableType::Sec,
        ));
        assert(sweep_periods(st1, k.events, mcbs, s2) == then_sweep(
            sweep_periods(st1, k.events, mcbs, s1),
            k.events,
            mcbs,
            EventTableType::Min,
        ));
        assert(sweep_periods(st1, k.events, mcbs, s3) == then_sweep(
            sweep_periods(st1, k.events, mcbs, s2),
            k.events,
            mcbs,
            EventTableType::Hour,
        ));
        match k.time.tick_type() {
            TickType::Hour | TickType::Day => {
                assert(rest =~= s3);
            },
            TickType::Min => {
                assert(rest =~= s2);
            },
            TickType::Sec => {
                assert(rest =~= s1);
            },
            TickType::MilliSec10 => {
                assert(rest =~= Seq::<EventTableType>::empty());
            },
        }
    }
}

/// Performing an action keeps every active task active and activates the
/// tasks that it releases.
pub proof fn lemma_act_keeps_active(st: ActParts, mcbs: Seq<Option<MCB>>, action: EventAction, t: u32)
    requires
        t < 32,
    ensures
        crate::bits::has_task(st.2.active_tasks, t) ==> crate::bits::has_task(
            act(st, mcbs, action).2.active_tasks,
            t,
        ),
        action.release matches Some(m) && crate::bits::has_task(m, t) ==> crate::bits::has_task(
            act(st, mcbs, action).2.active_tasks,
            t,
        ),
{
    crate::bits::lemma_has_task_ops();
}

/// Performing actions keeps every active task active.
proof fn lemma_act_all_keeps_active(
    st: ActParts,
    mcbs: Seq<Option<MCB>>,
    actions: Seq<EventAction>,
    t: u32,
)
    requires
        t < 32,
        crate::bits::has_task(st.2.active_tasks, t),
    ensures
        crate::bits::has_task(act_all(st, mcbs, actions).2.active_tasks, t),
    decreases actions.len(),
{
    if actions.len() > 0 {
        lemma_act_all_keeps_active(st, mcbs, actions.drop_last(), t);
        lemma_act_keeps_active(act_all(st, mcbs, actions.drop_last()), mcbs, actions.last(), t);
    }
}

/// When the event listed at position `i` fires as the sweep reaches it and
/// its opcode releases task `t`, performing the sweep's actions leaves `t`
/// active.
proof fn lemma_sweep_actions_release(
    st: ActParts,
    mcbs: Seq<Option<MCB>>,
    events: Seq<Event>,
    ids: Seq<Option<usize>>,
    i: int,
    t: u32,
)
    requires
        t < 32,
        0 <= i < ids.len(),
        ids[i] is Some,
        event_manager::fires(event_manager::swept(events, ids.take(i))[ids[i]->Some_0 as int]),
        event_manager::swept(events, ids.take(i))[ids[i]->Some_0 as int].opcode
            & crate::config::OPCODE_RELEASE == crate::config::OPCODE_RELEASE,
        crate::bits::has_task(event_manager::swept(events, ids.take(i))[ids[i]->Some_0 as int].tasks, t),
    ensures
        crate::bits::has_task(
            act_all(st, mcbs, event_manager::sweep_actions(events, ids)).2.active_tasks,
            t,
        ),
    decreases ids.len(),
{
    let rest = ids.drop_last();
    let acts = event_manager::sweep_actions(events, rest);
    let before = event_manager::swept(events, rest);
    if i == ids.len() - 1 {
        assert(rest =~= ids.take(i));
        let e = before[ids[i]->Some_0 as int];
        event_manager::lemma_actions_follow_opcode_bits(e);
        assert(event_manager::sweep_actions(events, ids) == acts.push(event_manager::actions_of(e)));
        assert(acts.push(event_manager::actions_of(e)).drop_last() =~= acts);
        lemma_act_keeps_active(act_all(st, mcbs, acts), mcbs, event_manager::actions_of(e), t);
    } else {
        assert(rest.take(i) =~= ids.take(i));
        assert(rest[i] == ids[i]);
        lemma_sweep_actions_release(st, mcbs, events, rest, i, t);
        if let Some(id) = ids.last() {
            if event_manager::fires(before[id as int]) {
                let x = event_manager::actions_of(before[id as int]);
                assert(event_manager::sweep_actions(events, ids) == acts.push(x));
                assert(acts.push(x).drop_last() =~= acts);
                lemma_act_keeps_active(act_all(st, mcbs, acts), mcbs, x, t);
            }
        }
    }
}

/// A tick that completes an hour (or a day) fires the hour list's events
/// that are due: an enabled event with its counter run out, listed in the
/// hour list and in no other list (and not earlier in the hour list), whose
/// opcode releases task `t`, leaves `t` active after the tick's sweeps.
pub proof fn lemma_hour_tick_fires_hour_events(k: Kernel, i: int, t: u32)
    requires
        k.wf(),
        k.time.tick_type() == TickType::Hour || k.time.tick_type() == TickType::Day,
        tick_sweeps(k) is Some,
        t < 32,
        0 <= i < k.events.hr_event_table.table@.len(),
        k.events.hr_event_table.table@[i] is Some,
        ({
            let id = k.events.hr_event_table.table@[i]->Some_0;
            let e = k.events.event_table@[id as int];
            &&& forall|j: int|
                0 <= j < k.events.ms_event_table.table@.len()
                    ==> #[trigger] k.events.ms_event_table.table@[j] != Some(id)
            &&& forall|j: int|
                0 <= j < k.events.sec_event_table.table@.len()
                    ==> #[trigger] k.events.sec_event_table.table@[j] != Some(id)
            &&& forall|j: int|
                0 <= j < k.events.min_event_table.table@.len()
                    ==> #[trigger] k.events.min_event_table.table@[j] != Some(id)
            &&& forall|j: int| 0 <= j < i ==> #[trigger] k.events.hr_event_table.table@[j] != Some(id)
            &&& e.is_enabled
            &&& e.counter == 0
            &&& e.opcode & crate::config::OPCODE_RELEASE == crate::config::OPCODE_RELEASE
            &&& crate::bits::has_task(e.tasks, t)
        }),
    ensures
        crate::bits::has_task(tick_sweeps(k)->Some_0.3.active_tasks, t),
{
    lemma_tick_sweeps_completed_periods(k);
    let lists = k.events;
    let mcbs = k.messages.mcb_table@;
    let st0 = (
        k.events.event_table@,
        k.semaphores@,
        k.messages.scb_table@,
        tasks::scheduled(k.scheduler, true),
    );
    let hr = lists.hr_event_table.table@;
    let id = hr[i]->Some_0;
    let s1 = sweep_period(st0, lists, mcbs, EventTableType::MilliSec)->Some_0;
    let s2 = sweep_period(s1, lists, mcbs, EventTableType::Sec)->Some_0;
    let s3 = sweep_period(s2, lists, mcbs, EventTableType::Min)->Some_0;
    assert(id < k.events.event_table@.len());
    event_manager::lemma_swept_keeps_unlisted(st0.0, lists.ms_event_table.table@, id as int);
    event_manager::lemma_swept_keeps_unlisted(s1.0, lists.sec_event_table.table@, id as int);
    event_manager::lemma_swept_keeps_unlisted(s2.0, lists.min_event_table.table@, id as int);
    let pre = hr.take(i);
    event_manager::lemma_sweep_safe_prefix(s3.0, hr, i);
    assert forall|j: int| 0 <= j < pre.len() && #[trigger] pre[j] is Some implies pre[j]->Some_0
        < s3.0.len() by {
        assert(pre[j] == hr[j]);
    }
    assert forall|j: int| 0 <= j < pre.len() implies #[trigger] pre[j] != Some(id) by {
        assert(pre[j] == hr[j]);
    }
    event_manager::lemma_swept_keeps_unlisted(s3.0, pre, id as int);
    lemma_sweep_actions_release((s3.1, s3.2, s3.3), mcbs, s3.0, hr, i, t);
}

impl Kernel {
    /// Every component keeps its invariant.
    pub open spec fn wf(&self) -> bool {
        &&& self.scheduler.wf()
        &&& self.semaphores.wf()
        &&& self.messages.wf()
        &&& self.events.wf()
        &&& self.monitor.wf()
    }

    /// The event table with the parts that firings change.
    pub open spec fn parts(&self) -> TickParts {
        (self.events.event_table@, self.semaphores@, self.messages.scb_table@, self.scheduler)
    }

    /// Everything that a tick leaves alone is as in `other`.
    pub open spec fn same_frame(&self, other: &Kernel) -> bool {
        &&& self.events.same_lists(&other.events)
        &&& self.messages.mcb_table == other.messages.mcb_table
        &&& self.semaphores.count() == other.semaphores.count()
        &&& self.messages.scb_table.count() == other.messages.scb_table.count()
    }

    /// A kernel with no task, semaphore, message, event or deadline, at time 0.
    pub fn new() -> (k: Self)
        ensures
            k.wf(),
            k.timer == 0,
            k.time == (Time { m_sec_10: 0, sec: 0, min: 0, hour: 0, day: 0 }),
    {
        Kernel {
            scheduler: Scheduler::new(),
            semaphores: SemaphoresTable::new(),
            messages: MessagingManager::new(),
            events: EventManager::new(),
            time: Time::new(),
            timer: 0,
            monitor: TaskMonitor::new(),
        }
    }

    /// Performs `actions` in order; when one of them names a semaphore slot
    /// or a message that does not exist, none is performed and `false` is
    /// returned.
    pub fn perform_actions(&mut self, actions: &Vec<EventAction>) -> (ok: bool)
        requires
            old(self).wf(),
        ensures
            final(self).wf(),
            final(self).same_frame(old(self)),
            final(self).events == old(self).events,
            final(self).time == old(self).time,
            final(self).timer == old(self).timer,
            final(self).monitor == old(self).monitor,
            ok == actions_ok(actions@, old(self).messages.mcb_table@),
            ok ==> {
                let a = act_all(
                    (old(self).semaphores@, old(self).messages.scb_table@, old(self).scheduler),
                    old(self).messages.mcb_table@,
                    actions@,
                );
                &&& final(self).semaphores@ == a.0
                &&& final(self).messages.scb_table@ == a.1
                &&& final(self).scheduler == a.2
            },
            !ok ==> final(self).parts() == old(self).parts(),
    {
        let mut i: usize = 0;
        while i < actions.len()
            invariant
                i <= actions@.len(),
                *self == *old(self),
                old(self).wf(),
                forall|j: int| 0 <= j < i ==> #[trigger] action_ok(actions@[j], self.messages.mcb_table@),
            decreases actions@.len() - i,
        {
            let action = actions[i];
            if let Some(sig) = action.signal {
                if sig.semaphore >= MESSAGE_COUNT {
                    assert(!action_ok(actions@[i as int], self.messages.mcb_table@));
                    return false;
                }
            }
            if let Some(m) = action.broadcast {
                if m < MESSAGE_COUNT && self.messages.mcb_table[m].is_none() {
                    assert(!action_ok(actions@[i as int], self.messages.mcb_table@));
                    return false;
                }
            }
            i += 1;
        }
        let ghost st0 = (self.semaphores@, self.messages.scb_table@, self.scheduler);
        let ghost mcbs = self.messages.mcb_table@;
        let mut k: usize = 0;
        while k < actions.len()
            invariant
                k <= actions@.len(),
                actions_ok(actions@, mcbs),
                self.wf(),
                self.same_frame(old(self)),
                self.events == old(self).events,
                self.time == old(self).time,
                self.timer == old(self).timer,
                self.monitor == old(self).monitor,
                mcbs == old(self).messages.mcb_table@,
                st0 == (old(self).semaphores@, old(self).messages.scb_table@, old(self).scheduler),
                (self.semaphores@, self.messages.scb_table@, self.scheduler) == act_all(
                    st0,
                    mcbs,
                    actions@.take(k as int),
                ),
            decreases actions@.len() - k,
        {
            let action = actions[k];
            assert(action_ok(actions@[k as int], mcbs));
            events::perform_action(action, &mut self.semaphores, &mut self.messages, &mut self.scheduler);
            proof {
                assert(actions@.take(k as int + 1).drop_last() =~= actions@.take(k as int));
                assert(actions@.take(k as int + 1).last() == action);
                crate::scheduler::lemma_operations_keep_wf(self.scheduler, 0);
            }
            k += 1;
        }
        assert(actions@.take(actions@.len() as int) =~= actions@);
        true
    }

    /// Sweeps period `period`'s list and performs the actions of the events
    /// that fire; `false` where the original would leave a table (then
    /// nothing is promised of the parts but their invariants).
    pub fn sweep_and_act(&mut self, period: EventTableType) -> (ok: bool)
        requires
            old(self).wf(),
        ensures
            final(self).wf(),
            final(self).same_frame(old(self)),
            final(self).time == old(self).time,
            final(self).timer == old(self).timer,
            final(self).monitor == old(self).monitor,
            ok == sweep_period(old(self).parts(), old(self).events, old(self).messages.mcb_table@, period) is Some,
            ok ==> final(self).parts() == sweep_period(
                old(self).parts(),
                old(self).events,
                old(self).messages.mcb_table@,
                period,
            )->Some_0,
    {
        if !self.events.sweep_is_safe(period) {
            return false;
        }
        let actions = self.events.sweep(period);
        proof {
            assert(self.events.index_table(period) == old(self).events.index_table(period));
        }
        self.perform_actions(&actions)
    }

    /// One timer tick. Unless the timer or the clock would overflow
    /// (`TimerOverflow`, `ClockOverflow`, nothing changed), it takes a
    /// scheduling point, counts the tick, sweeps the 10 ms list, moves the
    /// clock, sweeps the lists of the periods that the clock completed
    /// (`EventOutOfRange` where a firing would leave a table), and sweeps the
    /// deadlines against the new timer count.
    pub fn sys_tick(&mut self) -> (res: Result<TickOutcome, TickFault>)
        requires
            old(self).wf(),
        ensures
            final(self).wf(),
            final(self).same_frame(old(self)),
            old(self).timer == u32::MAX ==> res == Err::<TickOutcome, TickFault>(
                TickFault::TimerOverflow,
            ) && *final(self) == *old(self),
            old(self).timer < u32::MAX && !old(self).time.tick_fits() ==> res == Err::<
                TickOutcome,
                TickFault,
            >(TickFault::ClockOverflow) && *final(self) == *old(self),
            old(self).timer < u32::MAX && old(self).time.tick_fits() ==> {
                &&& tick_sweeps(*old(self)) is None ==> res == Err::<TickOutcome, TickFault>(
                    TickFault::EventOutOfRange,
                )
                &&& tick_sweeps(*old(self)) is Some ==> {
                    let now = (old(self).timer + 1) as u32;
                    &&& res is Ok
                    &&& res->Ok_0.dispatch == resource::dispatch_or_stay(
                        tasks::schedule_result(old(self).scheduler, true),
                    )
                    &&& final(self).parts() == tick_sweeps(*old(self))->Some_0
                    &&& final(self).time == old(self).time.ticked()
                    &&& final(self).timer == now
                    &&& forall|t: u32|
                        t < 32 ==> (#[trigger] crate::bits::has_task(res->Ok_0.missed, t)
                            <==> task_monitor::missed(old(self).monitor@, t as int, now))
                    &&& forall|i: int|
                        0 <= i < crate::config::MAX_TASKS ==> #[trigger] final(self).monitor@[i]
                            == if task_monitor::missed(old(self).monitor@, i, now) {
                            None
                        } else {
                            old(self).monitor@[i]
                        }
                }
            },
    {
        if self.timer == u32::MAX {
            return Err(TickFault::TimerOverflow);
        }
        if !self.time.can_tick() {
            return Err(TickFault::ClockOverflow);
        }
        let dispatch = match tasks::schedule(&mut self.scheduler, true) {
            Ok(d) => d,
            Err(_) => Dispatch::Stay,
        };
        proof {
            crate::scheduler::lemma_operations_keep_wf(old(self).scheduler, 0);
        }
        timer::update_time(&mut self.timer);
        let ghost k0 = *self;
        assert(k0.parts() == (
            old(self).events.event_table@,
            old(self).semaphores@,
            old(self).messages.scb_table@,
            tasks::scheduled(old(self).scheduler, true),
        ));
        if !self.sweep_and_act(EventTableType::MilliSec) {
            return Err(TickFault::EventOutOfRange);
        }
        let ghost st1 = self.parts();
        let tick = self.time.tick();
        let periods = events::sweeps_for_tick(tick);
        let ghost rest = periods@.drop_first();
        let mut j: usize = 1;
        while j < periods.len()
            invariant
                1 <= j <= periods@.len(),
                periods@.len() >= 1,
                old(self).timer < u32::MAX,
                old(self).time.tick_fits(),
                rest == periods@.drop_first(),
                periods@ == events::periods_for_tick(old(self).time.tick_type()),
                self.wf(),
                self.same_frame(old(self)),
                self.events.same_lists(&old(self).events),
                self.messages.mcb_table == old(self).messages.mcb_table,
                self.time == old(self).time.ticked(),
                self.timer == (old(self).timer + 1) as u32,
                self.monitor == old(self).monitor,
                sweep_periods(st1, old(self).events, old(self).messages.mcb_table@, rest.take(j - 1))
                    == Some(self.parts()),
                tick_sweeps(*old(self)) == sweep_periods(
                    st1,
                    old(self).events,
                    old(self).messages.mcb_table@,
                    rest,
                ),
            decreases periods@.len() - j,
        {
            let period = periods[j];
            proof {
                assert(rest.take(j as int).drop_last() =~= rest.take(j - 1));
                assert(rest.take(j as int).last() == period);
                assert(self.events.index_table(period) == old(self).events.index_table(period));
            }
            if !self.sweep_and_act(period) {
                proof {
                    lemma_sweep_periods_fail(
                        st1,
                        old(self).events,
                        old(self).messages.mcb_table@,
                        rest,
                        j as int,
                    );
                }
                return Err(TickFault::EventOutOfRange);
            }
            j += 1;
        }
        assert(rest.take(periods@.len() - 1) =~= rest);
        let now = timer::get_time(&self.timer);
        let missed = task_monitor::sweep_deadlines(&mut self.monitor, now);
        Ok(TickOutcome { dispatch, missed })
    }
}

} // verus!
