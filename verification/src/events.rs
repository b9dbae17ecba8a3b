//! Kernel routines over the event manager: creation and configuration, which
//! only privileged code may perform, enabling, and the periodic sweeps.
use vstd::prelude::*;

use crate::config::{EVENT_NO, MESSAGE_COUNT};
use crate::errors::KernelError;
use crate::event_manager;
use crate::event_manager::{
    Event, EventAction, EventManager, EventTableType, EventType, SemaphoreSignal,
};
use crate::messaging;
use crate::messaging::{MCB, MessagingManager};
use crate::scheduler::Scheduler;
use crate::semaphores;
use crate::semaphores::{SemaphoreControlBlock, SemaphoresTable};
use crate::time::TickType;
use crate::types::{BooleanVector, EventId, MessageId, SemaphoreId};

verus! {

/// Sweeps the events of period `event_type` and returns the actions of
/// those that fired.
pub fn sweep_event_table(manager: &mut EventManager, event_type: EventTableType) -> (actions: Vec<
    EventAction,
>)
    requires
        old(manager).wf(),
        event_manager::sweep_safe(
            old(manager).event_table@,
            old(manager).index_table(event_type).table@,
        ),
    ensures
        final(manager).wf(),
        final(manager).same_lists(old(manager)),
        final(manager).event_table@ == event_manager::swept(
            old(manager).event_table@,
            old(manager).index_table(event_type).table@,
        ),
        actions@ == event_manager::sweep_actions(
            old(manager).event_table@,
            old(manager).index_table(event_type).table@,
        ),
{
    manager.sweep(event_type)
}

/// The periods whose lists a clock tick completing `tick` sweeps: the 10 ms
/// list always, then the second, minute and hour lists when the tick
/// completed a second, a minute or an hour (a completed day completes all
/// three).
pub open spec fn periods_for_tick(tick: TickType) -> Seq<EventTableType> {
    match tick {
        TickType::Hour | TickType::Day => seq![
            EventTableType::MilliSec,
            EventTableType::Sec,
            EventTableType::Min,
            EventTableType::Hour,
        ],
        TickType::Min => seq![EventTableType::MilliSec, EventTableType::Sec, EventTableType::Min],
        TickType::Sec => seq![EventTableType::MilliSec, EventTableType::Sec],
        _ => seq![EventTableType::MilliSec],
    }
}

/// The lists that a clock tick completing `tick` sweeps, in sweep order.
pub fn sweeps_for_tick(tick: TickType) -> (periods: Vec<EventTableType>)
    ensures
        periods@ == periods_for_tick(tick),
{
    let mut periods: Vec<EventTableType> = Vec::new();
    periods.push(EventTableType::MilliSec);
    match tick {
        TickType::Hour | TickType::Day => {
            periods.push(EventTableType::Sec);
            periods.push(EventTableType::Min);
            periods.push(EventTableType::Hour);
        },
        TickType::Min => {
            periods.push(EventTableType::Sec);
            periods.push(EventTableType::Min);
        },
        TickType::Sec => {
            periods.push(EventTableType::Sec);
        },
        _ => {},
    }
    proof {
        assert(periods@ =~= periods_for_tick(tick));
    }
    periods
}

/// Sweeps event `event_id` once and returns its actions if it fired.
pub fn dispatch_event(manager: &mut EventManager, event_id: EventId) -> (res: Option<EventAction>)
    requires
        old(manager).wf(),
        event_id < EVENT_NO,
        event_manager::event_safe(old(manager).event_table@, event_id as int),
    ensures
        final(manager).wf(),
        final(manager).same_lists(old(manager)),
        final(manager).event_table@ == event_manager::executed(
            old(manager).event_table@,
            event_id as int,
        ),
        event_manager::fires(old(manager).event_table@[event_id as int]) ==> res == Some(
            event_manager::actions_of(old(manager).event_table@[event_id as int]),
        ),
        !event_manager::fires(old(manager).event_table@[event_id as int]) ==> res is None,
{
    manager.execute_event(event_id)
}

/// Enables event `event_id`; `NotFound` when no such event was created.
pub fn enable(manager: &mut EventManager, event_id: EventId) -> (res: Result<(), KernelError>)
    requires
        old(manager).wf(),
    ensures
        final(manager).wf(),
        final(manager).same_lists(old(manager)),
        event_id >= old(manager).curr ==> res == Err::<(), KernelError>(KernelError::NotFound)
            && final(manager).event_table@ == old(manager).event_table@,
        event_id < old(manager).curr ==> res == Ok::<(), KernelError>(()) && final(manager).event_table@ == old(manager).event_table@.update(
            event_id as int,
            Event { is_enabled: true, ..old(manager).event_table@[event_id as int] },
        ),
{
    if event_id >= manager.curr {
        return Err(KernelError::NotFound);
    }
    manager.enable_event(event_id);
    Ok(())
}

/// Disables event `event_id`; `NotFound` when no such event was created.
pub fn disable(manager: &mut EventManager, event_id: EventId) -> (res: Result<(), KernelError>)
    requires
        old(manager).wf(),
    ensures
        final(manager).wf(),
        final(manager).same_lists(old(manager)),
        event_id >= old(manager).curr ==> res == Err::<(), KernelError>(KernelError::NotFound)
            && final(manager).event_table@ == old(manager).event_table@,
        event_id < old(manager).curr ==> res == Ok::<(), KernelError>(()) && final(manager).event_table@ == old(manager).event_table@.update(
            event_id as int,
            Event { is_enabled: false, ..old(manager).event_table@[event_id as int] },
        ),
{
    if event_id >= manager.curr {
        return Err(KernelError::NotFound);
    }
    manager.disable_event(event_id);
    Ok(())
}

/// Creates an event swept at period `event_counter_type`; only privileged
/// code may (`AccessDenied` otherwise), and `LimitExceeded` when the event
/// table is full.
pub fn new(
    manager: &mut EventManager,
    privileged: bool,
    is_enabled: bool,
    event_type: EventType,
    threshold: u8,
    event_counter_type: EventTableType,
) -> (res: Result<EventId, KernelError>)
    requires
        old(manager).wf(),
    ensures
        final(manager).wf(),
        !privileged ==> res == Err::<EventId, KernelError>(KernelError::AccessDenied) && *final(manager) == *old(manager),
        privileged && old(manager).curr >= EVENT_NO ==> res == Err::<EventId, KernelError>(
            KernelError::LimitExceeded,
        ) && *final(manager) == *old(manager),
        privileged && old(manager).curr < EVENT_NO ==> {
            &&& res == Ok::<EventId, KernelError>(old(manager).curr)
            &&& final(manager).curr == old(manager).curr + 1
            &&& final(manager).event_table@ == old(manager).event_table@.update(
                old(manager).curr as int,
                event_manager::fresh_event(is_enabled, event_type, threshold),
            )
            &&& final(manager).index_table(event_counter_type).table@ == old(manager).index_table(
                event_counter_type,
            ).table@.update(
                old(manager).index_table(event_counter_type).curr as int,
                Some(old(manager).curr),
            )
            &&& final(manager).index_table(event_counter_type).curr == old(manager).index_table(
                event_counter_type,
            ).curr + 1
            &&& forall|t: EventTableType|
                t != event_counter_type ==> #[trigger] final(manager).index_table(t) == old(manager).index_table(t)
        },
{
    if !privileged {
        return Err(KernelError::AccessDenied);
    }
    if manager.curr >= EVENT_NO {
        return Err(KernelError::LimitExceeded);
    }
    Ok(manager.create(is_enabled, event_type, threshold, event_counter_type))
}

/// Makes event `event_id` signal `tasks_mask` on semaphore `sem`; only
/// privileged code may (`AccessDenied` otherwise).
pub fn set_semaphore(
    manager: &mut EventManager,
    privileged: bool,
    event_id: EventId,
    sem: SemaphoreId,
    tasks_mask: BooleanVector,
) -> (res: Result<(), KernelError>)
    requires
        old(manager).wf(),
        event_id < EVENT_NO,
    ensures
        final(manager).wf(),
        final(manager).same_lists(old(manager)),
        !privileged ==> res == Err::<(), KernelError>(KernelError::AccessDenied) && final(manager).event_table@ == old(manager).event_table@,
        privileged ==> res == Ok::<(), KernelError>(()) && final(manager).event_table@ == old(manager).event_table@.update(
            event_id as int,
            Event {
                opcode: old(manager).event_table@[event_id as int].opcode | crate::config::OPCODE_SIGNAL,
                semaphore: sem,
                tasks: old(manager).event_table@[event_id as int].tasks | tasks_mask,
                ..old(manager).event_table@[event_id as int]
            },
        ),
{
    if !privileged {
        return Err(KernelError::AccessDenied);
    }
    manager.set_semaphore(event_id, sem, tasks_mask);
    Ok(())
}

/// Makes event `event_id` release `tasks`; only privileged code may
/// (`AccessDenied` otherwise).
pub fn set_tasks(manager: &mut EventManager, privileged: bool, event_id: EventId, tasks: BooleanVector) -> (res:
    Result<(), KernelError>)
    requires
        old(manager).wf(),
        event_id < EVENT_NO,
    ensures
        final(manager).wf(),
        final(manager).same_lists(old(manager)),
        !privileged ==> res == Err::<(), KernelError>(KernelError::AccessDenied) && final(manager).event_table@ == old(manager).event_table@,
        privileged ==> res == Ok::<(), KernelError>(()) && final(manager).event_table@ == old(manager).event_table@.update(
            event_id as int,
            Event {
                opcode: old(manager).event_table@[event_id as int].opcode | crate::config::OPCODE_RELEASE,
                tasks,
                ..old(manager).event_table@[event_id as int]
            },
        ),
{
    if !privileged {
        return Err(KernelError::AccessDenied);
    }
    manager.set_tasks(event_id, tasks);
    Ok(())
}

/// Makes event `event_id` broadcast message `msg_id`; only privileged code
/// may (`AccessDenied` otherwise).
pub fn set_msg(manager: &mut EventManager, privileged: bool, event_id: EventId, msg_id: MessageId) -> (res:
    Result<(), KernelError>)
    requires
        old(manager).wf(),
        event_id < EVENT_NO,
    ensures
        final(manager).wf(),
        final(manager).same_lists(old(manager)),
        !privileged ==> res == Err::<(), KernelError>(KernelError::AccessDenied) && final(manager).event_table@ == old(manager).event_table@,
        privileged ==> res == Ok::<(), KernelError>(()) && final(manager).event_table@ == old(manager).event_table@.update(
            event_id as int,
            Event {
                opcode: old(manager).event_table@[event_id as int].opcode | crate::config::OPCODE_SEND_MSG,
                msg_index: msg_id,
                ..old(manager).event_table@[event_id as int]
            },
        ),
{
    if !privileged {
        return Err(KernelError::AccessDenied);
    }
    manager.set_msg(event_id, msg_id);
    Ok(())
}

/// Makes event `event_id` enable event `next` when it fires; only
/// privileged code may (`AccessDenied` otherwise).
pub fn set_next_event(manager: &mut EventManager, privileged: bool, event_id: EventId, next: EventId) -> (res:
    Result<(), KernelError>)
    requires
        old(manager).wf(),
        event_id < EVENT_NO,
    ensures
        final(manager).wf(),
        final(manager).same_lists(old(manager)),
        !privileged ==> res == Err::<(), KernelError>(KernelError::AccessDenied) && final(manager).event_table@ == old(manager).event_table@,
        privileged ==> res == Ok::<(), KernelError>(()) && final(manager).event_table@ == old(manager).event_table@.update(
            event_id as int,
            Event {
                opcode: old(manager).event_table@[event_id as int].opcode
                    | crate::config::OPCODE_ENABLE_EVENT,
                next_event: next,
                ..old(manager).event_table@[event_id as int]
            },
        ),
{
    if !privileged {
        return Err(KernelError::AccessDenied);
    }
    manager.set_next_event(event_id, next);
    Ok(())
}

/// The scheduler after the tasks of `mask`, if any, are released.
pub open spec fn released_opt(s: Scheduler, mask: Option<BooleanVector>) -> Scheduler {
    match mask {
        Some(m) => s.released(m),
        None => s,
    }
}

/// The semaphore table after `signal`, if any, is raised; a signal on a
/// semaphore that was not created changes nothing.
pub open spec fn signal_effect(
    table: Seq<Option<SemaphoreControlBlock>>,
    signal: Option<SemaphoreSignal>,
) -> Seq<Option<SemaphoreControlBlock>> {
    match signal {
        Some(sig) => match table[sig.semaphore as int] {
            Some(sem) => table.update(sig.semaphore as int, Some(sem.signalled(sig.tasks))),
            None => table,
        },
        None => table,
    }
}

/// The tasks that raising `signal` releases.
pub open spec fn signal_release(
    table: Seq<Option<SemaphoreControlBlock>>,
    signal: Option<SemaphoreSignal>,
) -> Option<BooleanVector> {
    match signal {
        Some(sig) => match table[sig.semaphore as int] {
            Some(sem) => Some(sem.tasks),
            None => None,
        },
        None => None,
    }
}

/// The message semaphores after message `msg`, if any, is broadcast; an id
/// out of range changes nothing.
pub open spec fn broadcast_effect(
    scbs: Seq<Option<SemaphoreControlBlock>>,
    mcbs: Seq<Option<MCB>>,
    msg: Option<MessageId>,
) -> Seq<Option<SemaphoreControlBlock>> {
    match msg {
        Some(id) => if id < MESSAGE_COUNT {
            scbs.update(id as int, Some(scbs[id as int]->Some_0.signalled(mcbs[id as int]->Some_0.receivers)))
        } else {
            scbs
        },
        None => scbs,
    }
}

/// The tasks that broadcasting message `msg` notifies.
pub open spec fn broadcast_release(
    scbs: Seq<Option<SemaphoreControlBlock>>,
    msg: Option<MessageId>,
) -> Option<BooleanVector> {
    match msg {
        Some(id) => if id < MESSAGE_COUNT {
            Some(scbs[id as int]->Some_0.tasks)
        } else {
            None
        },
        None => None,
    }
}

/// Performs what a firing asks, in this order: signal the semaphore and
/// release its tasks, broadcast the message and release the tasks it
/// notifies, release the event's tasks. Errors of the first two (a
/// semaphore not created, a message id out of range) are ignored.
pub fn perform_action(
    action: EventAction,
    semaphore_table: &mut SemaphoresTable,
    messages: &mut MessagingManager,
    scheduler: &mut Scheduler,
)
    requires
        old(semaphore_table).wf(),
        old(messages).wf(),
        action.signal matches Some(sig) ==> sig.semaphore < MESSAGE_COUNT,
        action.broadcast matches Some(m) ==> old(messages).can_broadcast(m),
    ensures
        final(semaphore_table).wf(),
        final(semaphore_table).count() == old(semaphore_table).count(),
        final(semaphore_table)@ == signal_effect(old(semaphore_table)@, action.signal),
        final(messages).wf(),
        final(messages).mcb_table == old(messages).mcb_table,
        final(messages).scb_table.count() == old(messages).scb_table.count(),
        final(messages).scb_table@ == broadcast_effect(
            old(messages).scb_table@,
            old(messages).mcb_table@,
            action.broadcast,
        ),
        *final(scheduler) == released_opt(
            released_opt(
                released_opt(
                    *old(scheduler),
                    signal_release(old(semaphore_table)@, action.signal),
                ),
                broadcast_release(old(messages).scb_table@, action.broadcast),
            ),
            action.release,
        ),
{
    if let Some(signal) = action.signal {
        let _ = semaphores::signal_and_release(
            semaphore_table,
            scheduler,
            signal.semaphore,
            signal.tasks,
        );
    }
    if let Some(msg_id) = action.broadcast {
        let _ = messaging::broadcast(messages, scheduler, msg_id);
    }
    if let Some(tasks_mask) = action.release {
        scheduler.release(tasks_mask);
    }
}

} // verus!
