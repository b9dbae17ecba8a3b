//! Timed events: counters swept once per period (10 ms, second, minute or
//! hour) that, on expiry, signal a semaphore, broadcast a message, release
//! tasks and enable a successor event.
use vstd::prelude::*;

use crate::config::{
    EVENT_INDEX_TABLE_COUNT, EVENT_NO, OPCODE_ENABLE_EVENT, OPCODE_RELEASE, OPCODE_SEND_MSG,
    OPCODE_SIGNAL,
};
use crate::time::TickType;
use crate::types::{BooleanVector, EventId, MessageId, SemaphoreId};

verus! {

/// A free-running event reloads its counter after firing; an on/off event
/// disables itself.
#[derive(Clone, Copy, Debug, PartialEq, Eq, Structural)]
pub enum EventType {
    FreeRunning,
    OnOff,
}

/// The period at which an event's counter is swept.
#[derive(Clone, Copy, Debug, PartialEq, Eq, Structural)]
pub enum EventTableType {
    MilliSec,
    Sec,
    Min,
    Hour,
}

/// An event.
#[derive(Clone, Copy, Debug, PartialEq, Eq, Structural)]
pub struct Event {
    pub is_enabled: bool,
    pub event_type: EventType,
    /// Number of sweeps to skip between firings.
    pub threshold: u8,
    /// Sweeps left before the next firing.
    pub counter: u8,
    /// Which of the `OPCODE_*` actions a firing performs.
    pub opcode: u8,
    pub semaphore: SemaphoreId,
    pub tasks: BooleanVector,
    pub msg_index: MessageId,
    pub next_event: EventId,
}

/// A signal to raise: the tasks `tasks` on semaphore `semaphore`.
#[derive(Clone, Copy, Debug, PartialEq, Eq, Structural)]
pub struct SemaphoreSignal {
    pub semaphore: SemaphoreId,
    pub tasks: BooleanVector,
}

/// What a firing asks of the rest of the kernel.
#[derive(Clone, Copy, Debug, PartialEq, Eq, Structural)]
pub struct EventAction {
    /// Signal these tasks on this semaphore.
    pub signal: Option<SemaphoreSignal>,
    /// Broadcast this message.
    pub broadcast: Option<MessageId>,
    /// Release these tasks.
    pub release: Option<BooleanVector>,
}

/// The list of events swept at one period, in creation order.
pub struct EventIndexTable {
    pub table: Vec<Option<usize>>,
    pub curr: usize,
}

/// The event table and the four period lists.
pub struct EventManager {
    pub event_table: Vec<Event>,
    pub curr: usize,
    pub ms_event_table: EventIndexTable,
    pub sec_event_table: EventIndexTable,
    pub min_event_table: EventIndexTable,
    pub hr_event_table: EventIndexTable,
}

/// The event that `create` stores.
pub open spec fn fresh_event(is_enabled: bool, event_type: EventType, threshold: u8) -> Event {
    Event {
        is_enabled,
        event_type,
        threshold,
        counter: 0,
        opcode: 0,
        semaphore: 0,
        tasks: 0,
        msg_index: 0,
        next_event: 0,
    }
}

/// A created event is enabled exactly when asked, has the given type and
/// threshold, and fires at its first sweep exactly when it is enabled; it
/// holds no action yet, so that firing asks nothing of the kernel, and a
/// disabled one is left as it is by every sweep.
pub proof fn lemma_created_event(is_enabled: bool, event_type: EventType, threshold: u8)
    ensures
        fresh_event(is_enabled, event_type, threshold).is_enabled == is_enabled,
        fresh_event(is_enabled, event_type, threshold).event_type == event_type,
        fresh_event(is_enabled, event_type, threshold).threshold == threshold,
        fresh_event(is_enabled, event_type, threshold).counter == 0,
        fires(fresh_event(is_enabled, event_type, threshold)) == is_enabled,
        actions_of(fresh_event(is_enabled, event_type, threshold)) == (EventAction {
            signal: None,
            broadcast: None,
            release: None,
        }),
        !is_enabled ==> stepped(fresh_event(is_enabled, event_type, threshold)) == fresh_event(
            is_enabled,
            event_type,
            threshold,
        ),
{
    lemma_opcode_bits();
    assert(0u8 & OPCODE_SIGNAL != OPCODE_SIGNAL);
    assert(0u8 & OPCODE_SEND_MSG != OPCODE_SEND_MSG);
    assert(0u8 & OPCODE_RELEASE != OPCODE_RELEASE);
}

/// The event fires at this sweep.
pub open spec fn fires(e: Event) -> bool {
    e.is_enabled && e.counter == 0
}

/// The event after one sweep of its counter.
pub open spec fn stepped(e: Event) -> Event {
    if !e.is_enabled {
        e
    } else if e.counter == 0 {
        if e.event_type == EventType::FreeRunning {
            Event { counter: e.threshold, ..e }
        } else {
            Event { is_enabled: false, ..e }
        }
    } else {
        Event { counter: (e.counter - 1) as u8, ..e }
    }
}

/// The opcode holds the action bit `op`.
pub open spec fn has_op(e: Event, op: u8) -> bool {
    e.opcode & op == op
}

/// The actions of a firing of `e`.
pub open spec fn actions_of(e: Event) -> EventAction {
    EventAction {
        signal: if has_op(e, OPCODE_SIGNAL) {
            Some(SemaphoreSignal { semaphore: e.semaphore, tasks: e.tasks })
        } else {
            None
        },
        broadcast: if has_op(e, OPCODE_SEND_MSG) {
            Some(e.msg_index)
        } else {
            None
        },
        release: if has_op(e, OPCODE_RELEASE) {
            Some(e.tasks)
        } else {
            None
        },
    }
}

/// The event table after one sweep of event `id`: its counter moves and, when
/// it fires with the enable opcode, its successor is enabled.
pub open spec fn executed(events: Seq<Event>, id: int) -> Seq<Event> {
    let e = events[id];
    let after = events.update(id, stepped(e));
    if fires(e) && has_op(e, OPCODE_ENABLE_EVENT) {
        after.update(e.next_event as int, Event { is_enabled: true, ..after[e.next_event as int] })
    } else {
        after
    }
}

/// The event table after the events listed in `ids` are swept in order.
pub open spec fn swept(events: Seq<Event>, ids: Seq<Option<usize>>) -> Seq<Event>
    decreases ids.len(),
{
    if ids.len() == 0 {
        events
    } else {
        let before = swept(events, ids.drop_last());
        match ids.last() {
            Some(id) => executed(before, id as int),
            None => before,
        }
    }
}

/// The actions of the firings while the events listed in `ids` are swept.
pub open spec fn sweep_actions(events: Seq<Event>, ids: Seq<Option<usize>>) -> Seq<EventAction>
    decreases ids.len(),
{
    if ids.len() == 0 {
        Seq::empty()
    } else {
        let before = swept(events, ids.drop_last());
        let acts = sweep_actions(events, ids.drop_last());
        match ids.last() {
            Some(id) => if fires(before[id as int]) {
                acts.push(actions_of(before[id as int]))
            } else {
                acts
            },
            None => acts,
        }
    }
}

/// Sweeping event `id` stays within the table: when it fires with the
/// enable opcode, its successor is a slot of the table.
pub open spec fn event_safe(events: Seq<Event>, id: int) -> bool {
    fires(events[id]) && has_op(events[id], OPCODE_ENABLE_EVENT) ==> events[id].next_event
        < events.len()
}

/// Sweeping the events listed in `ids`, in order, stays within the table.
pub open spec fn sweep_safe(events: Seq<Event>, ids: Seq<Option<usize>>) -> bool
    decreases ids.len(),
{
    if ids.len() == 0 {
        true
    } else {
        &&& sweep_safe(events, ids.drop_last())
        &&& match ids.last() {
            Some(id) => event_safe(swept(events, ids.drop_last()), id as int),
            None => true,
        }
    }
}

/// A safe sweep of a list is safe on every prefix of it.
pub proof fn lemma_sweep_safe_prefix(events: Seq<Event>, ids: Seq<Option<usize>>, i: int)
    requires
        sweep_safe(events, ids),
        0 <= i <= ids.len(),
    ensures
        sweep_safe(events, ids.take(i)),
    decreases ids.len(),
{
    if i == ids.len() {
        assert(ids.take(i) =~= ids);
    } else {
        lemma_sweep_safe_prefix(events, ids.drop_last(), i);
        assert(ids.drop_last().take(i) =~= ids.take(i));
    }
}

/// Sweeping a list that does not name event `id` leaves that event as it was,
/// but that it may be enabled as the successor of a firing event.
pub proof fn lemma_swept_keeps_unlisted(events: Seq<Event>, ids: Seq<Option<usize>>, id: int)
    requires
        sweep_safe(events, ids),
        forall|k: int|
            0 <= k < ids.len() && #[trigger] ids[k] is Some ==> ids[k]->Some_0 < events.len(),
        forall|k: int| 0 <= k < ids.len() ==> #[trigger] ids[k] != Some(id as usize),
        0 <= id < events.len(),
    ensures
        swept(events, ids).len() == events.len(),
        swept(events, ids)[id] == (Event { is_enabled: swept(events, ids)[id].is_enabled, ..events[id] }),
        events[id].is_enabled ==> swept(events, ids)[id].is_enabled,
    decreases ids.len(),
{
    if ids.len() > 0 {
        let rest = ids.drop_last();
        assert forall|k: int| 0 <= k < rest.len() && #[trigger] rest[k] is Some implies rest[k]->Some_0
            < events.len() by {
            assert(rest[k] == ids[k]);
        }
        assert forall|k: int| 0 <= k < rest.len() implies #[trigger] rest[k] != Some(id as usize) by {
            assert(rest[k] == ids[k]);
        }
        lemma_swept_keeps_unlisted(events, rest, id);
        let before = swept(events, rest);
        if let Some(j) = ids.last() {
            assert(ids[ids.len() - 1] == Some(j));
            assert(j < events.len());
            assert(j != id);
            let e = before[j as int];
            let after = before.update(j as int, stepped(e));
            assert(after[id] == before[id]);
            if fires(e) && has_op(e, OPCODE_ENABLE_EVENT) {
                assert(event_safe(before, j as int));
            }
        }
    }
}

/// Setting an action bit in an opcode makes the action part of it and keeps
/// the other action bits as they were.
pub proof fn lemma_opcode_bits()
    by (bit_vector)
    ensures
        forall|o: u8, p: u8| #[trigger] ((o | p) & p) == p,
        forall|o: u8, p: u8, q: u8|
            p & q == 0 ==> ((#[trigger] ((o | p) & q) == q) <==> (o & q) == q),
        forall|p: u8| p != 0 ==> #[trigger] (0u8 & p) != p,
        OPCODE_SIGNAL & OPCODE_SEND_MSG == 0,
        OPCODE_SIGNAL & OPCODE_RELEASE == 0,
        OPCODE_SIGNAL & OPCODE_ENABLE_EVENT == 0,
        OPCODE_SEND_MSG & OPCODE_RELEASE == 0,
        OPCODE_SEND_MSG & OPCODE_ENABLE_EVENT == 0,
        OPCODE_RELEASE & OPCODE_ENABLE_EVENT == 0,
{
}

/// Each action of a firing is governed by its own opcode bit alone: the
/// signal bit raises the event's tasks on its semaphore, the message bit
/// broadcasts its message, the release bit releases its tasks, whatever the
/// other bits hold; in particular the enable bit, which enables the
/// successor, takes none of them away.
pub proof fn lemma_actions_follow_opcode_bits(e: Event)
    ensures
        actions_of(e).signal == if e.opcode & OPCODE_SIGNAL == OPCODE_SIGNAL {
            Some(SemaphoreSignal { semaphore: e.semaphore, tasks: e.tasks })
        } else {
            None::<SemaphoreSignal>
        },
        actions_of(e).broadcast == if e.opcode & OPCODE_SEND_MSG == OPCODE_SEND_MSG {
            Some(e.msg_index)
        } else {
            None::<MessageId>
        },
        actions_of(e).release == if e.opcode & OPCODE_RELEASE == OPCODE_RELEASE {
            Some(e.tasks)
        } else {
            None::<BooleanVector>
        },
        actions_of(Event { opcode: e.opcode | OPCODE_ENABLE_EVENT, ..e }) == actions_of(e),
        actions_of(Event { opcode: e.opcode & !OPCODE_ENABLE_EVENT, ..e }) == actions_of(e),
{
    lemma_enable_bit_apart(e.opcode);
}

/// Setting or clearing the enable bit of an opcode keeps its other action bits.
proof fn lemma_enable_bit_apart(o: u8)
    by (bit_vector)
    ensures
        ((o | OPCODE_ENABLE_EVENT) & OPCODE_SIGNAL == OPCODE_SIGNAL) == (o & OPCODE_SIGNAL == OPCODE_SIGNAL),
        ((o | OPCODE_ENABLE_EVENT) & OPCODE_SEND_MSG == OPCODE_SEND_MSG) == (o & OPCODE_SEND_MSG == OPCODE_SEND_MSG),
        ((o | OPCODE_ENABLE_EVENT) & OPCODE_RELEASE == OPCODE_RELEASE) == (o & OPCODE_RELEASE == OPCODE_RELEASE),
        ((o & !OPCODE_ENABLE_EVENT) & OPCODE_SIGNAL == OPCODE_SIGNAL) == (o & OPCODE_SIGNAL == OPCODE_SIGNAL),
        ((o & !OPCODE_ENABLE_EVENT) & OPCODE_SEND_MSG == OPCODE_SEND_MSG) == (o & OPCODE_SEND_MSG == OPCODE_SEND_MSG),
        ((o & !OPCODE_ENABLE_EVENT) & OPCODE_RELEASE == OPCODE_RELEASE) == (o & OPCODE_RELEASE == OPCODE_RELEASE),
{
}

/// The event after `k` sweeps.
pub open spec fn stepped_n(e: Event, k: nat) -> Event
    decreases k,
{
    if k == 0 {
        e
    } else {
        stepped(stepped_n(e, (k - 1) as nat))
    }
}

/// An enabled free-running event fires, then stays silent for `threshold`
/// sweeps, then fires again: it fires once every `threshold + 1` sweeps.
pub proof fn lemma_free_running_period(e: Event)
    requires
        e.is_enabled,
        e.event_type == EventType::FreeRunning,
        e.counter == 0,
    ensures
        fires(e),
        forall|k: nat| 1 <= k <= e.threshold ==> !fires(#[trigger] stepped_n(e, k)),
        fires(stepped_n(e, e.threshold as nat + 1)),
        stepped_n(e, e.threshold as nat + 1) == e,
{
    assert forall|k: nat| 1 <= k <= e.threshold + 1 implies #[trigger] stepped_n(e, k) == (Event {
        counter: (e.threshold - (k - 1)) as u8,
        ..e
    }) by {
        lemma_free_running_countdown(e, k);
    }
    assert(stepped_n(e, e.threshold as nat + 1) == (Event {
        counter: (e.threshold - e.threshold) as u8,
        ..e
    }));
}

proof fn lemma_free_running_countdown(e: Event, k: nat)
    requires
        e.is_enabled,
        e.event_type == EventType::FreeRunning,
        e.counter == 0,
        1 <= k <= e.threshold + 1,
    ensures
        stepped_n(e, k) == (Event { counter: (e.threshold - (k - 1)) as u8, ..e }),
    decreases k,
{
    if k > 1 {
        lemma_free_running_countdown(e, (k - 1) as nat);
    } else {
        assert(stepped_n(e, 0) == e);
    }
}

/// An on/off event fires at most once: after it fires it is disabled and
/// sweeping leaves it so.
pub proof fn lemma_on_off_fires_once(e: Event)
    requires
        e.event_type == EventType::OnOff,
        fires(e),
    ensures
        !stepped(e).is_enabled,
        !fires(stepped(e)),
        stepped(stepped(e)) == stepped(e),
{
}

/// The event table after event `id` is swept `k` times in a row.
pub open spec fn executed_n(events: Seq<Event>, id: int, k: nat) -> Seq<Event>
    decreases k,
{
    if k == 0 {
        events
    } else {
        executed(executed_n(events, id, (k - 1) as nat), id)
    }
}

/// Sweeping one event without the enable opcode `k` times moves only that
/// event, by `k` steps.
pub proof fn lemma_executed_n(events: Seq<Event>, id: int, k: nat)
    requires
        0 <= id < events.len(),
        !has_op(events[id], OPCODE_ENABLE_EVENT),
    ensures
        executed_n(events, id, k) == events.update(id, stepped_n(events[id], k)),
    decreases k,
{
    if k == 0 {
        assert(events.update(id, events[id]) =~= events);
    } else {
        lemma_executed_n(events, id, (k - 1) as nat);
        let before = executed_n(events, id, (k - 1) as nat);
        assert(before[id] == stepped_n(events[id], (k - 1) as nat));
        assert(before[id].opcode == events[id].opcode) by {
            lemma_stepped_n_keeps_opcode(events[id], (k - 1) as nat);
        }
        assert(executed_n(events, id, k) =~= events.update(id, stepped_n(events[id], k)));
    }
}

proof fn lemma_stepped_n_keeps_opcode(e: Event, k: nat)
    ensures
        stepped_n(e, k).opcode == e.opcode,
    decreases k,
{
    if k > 0 {
        lemma_stepped_n_keeps_opcode(e, (k - 1) as nat);
    }
}

/// Over `threshold + 1` consecutive sweeps of an enabled free-running event
/// (without the enable opcode) whose counter is 0, `execute_event` fires on
/// the first sweep only, and the table then is as it was: the event fires
/// once every `threshold + 1` sweeps.
pub proof fn lemma_free_running_sweeps(events: Seq<Event>, id: int)
    requires
        0 <= id < events.len(),
        events[id].is_enabled,
        events[id].event_type == EventType::FreeRunning,
        events[id].counter == 0,
        !has_op(events[id], OPCODE_ENABLE_EVENT),
    ensures
        fires(executed_n(events, id, 0)[id]),
        forall|k: nat|
            1 <= k <= events[id].threshold ==> !fires(#[trigger] executed_n(events, id, k)[id]),
        executed_n(events, id, events[id].threshold as nat + 1) == events,
{
    let e = events[id];
    lemma_free_running_period(e);
    lemma_executed_n(events, id, 0);
    assert forall|k: nat| 1 <= k <= e.threshold implies !fires(
        #[trigger] executed_n(events, id, k)[id],
    ) by {
        lemma_executed_n(events, id, k);
        assert(!fires(stepped_n(e, k)));
    }
    lemma_executed_n(events, id, e.threshold as nat + 1);
    assert(events.update(id, e) =~= events);
}

impl EventIndexTable {
    /// The entries below `curr` are event ids, the others are empty.
    pub open spec fn wf(&self) -> bool {
        &&& self.table@.len() == EVENT_INDEX_TABLE_COUNT
        &&& self.curr <= EVENT_INDEX_TABLE_COUNT
        &&& forall|i: int|
            0 <= i < EVENT_INDEX_TABLE_COUNT ==> (#[trigger] self.table@[i] is Some <==> i
                < self.curr)
    }

    /// Every listed event is below `n`.
    pub open spec fn ids_below(&self, n: nat) -> bool {
        forall|i: int|
            0 <= i < self.table@.len() && #[trigger] self.table@[i] is Some ==> self.table@[i]->Some_0
                < n
    }

    /// An empty list.
    pub fn new() -> (t: Self)
        ensures
            t.wf(),
            t.curr == 0,
    {
        let mut table: Vec<Option<usize>> = Vec::new();
        let mut i: usize = 0;
        while i < EVENT_INDEX_TABLE_COUNT
            invariant
                i <= EVENT_INDEX_TABLE_COUNT,
                table@.len() == i,
                forall|j: int| 0 <= j < i ==> table@[j] is None,
            decreases EVENT_INDEX_TABLE_COUNT - i,
        {
            table.push(None);
            i += 1;
        }
        Self { table, curr: 0 }
    }

    /// Appends event `id` to the list.
    pub fn add(&mut self, id: EventId)
        requires
            old(self).wf(),
            old(self).curr < EVENT_INDEX_TABLE_COUNT,
        ensures
            final(self).wf(),
            final(self).curr == old(self).curr + 1,
            final(self).table@ == old(self).table@.update(old(self).curr as int, Some(id)),
    {
        self.table.set(self.curr, Some(id));
        self.curr += 1;
    }
}

impl EventManager {
    /// The list swept at period `t`.
    pub open spec fn index_table(&self, t: EventTableType) -> EventIndexTable {
        match t {
            EventTableType::MilliSec => self.ms_event_table,
            EventTableType::Sec => self.sec_event_table,
            EventTableType::Min => self.min_event_table,
            EventTableType::Hour => self.hr_event_table,
        }
    }

    /// The invariant of the event manager: every created event is listed in
    /// exactly one period list.
    pub open spec fn wf(&self) -> bool {
        &&& self.event_table@.len() == EVENT_NO
        &&& self.curr <= EVENT_NO
        &&& self.ms_event_table.wf()
        &&& self.sec_event_table.wf()
        &&& self.min_event_table.wf()
        &&& self.hr_event_table.wf()
        &&& self.ms_event_table.curr + self.sec_event_table.curr + self.min_event_table.curr
            + self.hr_event_table.curr == self.curr
        &&& self.ms_event_table.ids_below(self.curr as nat)
        &&& self.sec_event_table.ids_below(self.curr as nat)
        &&& self.min_event_table.ids_below(self.curr as nat)
        &&& self.hr_event_table.ids_below(self.curr as nat)
    }

    /// Everything but the event table is as in `other`.
    pub open spec fn same_lists(&self, other: &EventManager) -> bool {
        &&& self.curr == other.curr
        &&& self.ms_event_table == other.ms_event_table
        &&& self.sec_event_table == other.sec_event_table
        &&& self.min_event_table == other.min_event_table
        &&& self.hr_event_table == other.hr_event_table
    }

    /// No event.
    pub fn new() -> (m: Self)
        ensures
            m.wf(),
            m.curr == 0,
            forall|i: int| 0 <= i < EVENT_NO ==> m.event_table@[i] == fresh_event(
                false,
                EventType::FreeRunning,
                0,
            ),
    {
        let mut event_table: Vec<Event> = Vec::new();
        let mut i: usize = 0;
        while i < EVENT_NO
            invariant
                i <= EVENT_NO,
                event_table@.len() == i,
                forall|j: int| 0 <= j < i ==> event_table@[j] == fresh_event(
                    false,
                    EventType::FreeRunning,
                    0,
                ),
            decreases EVENT_NO - i,
        {
            event_table.push(
                Event {
                    is_enabled: false,
                    event_type: EventType::FreeRunning,
                    threshold: 0,
                    counter: 0,
                    opcode: 0,
                    semaphore: 0,
                    tasks: 0,
                    msg_index: 0,
                    next_event: 0,
                },
            );
            i += 1;
        }
        Self {
            event_table,
            curr: 0,
            ms_event_table: EventIndexTable::new(),
            sec_event_table: EventIndexTable::new(),
            min_event_table: EventIndexTable::new(),
            hr_event_table: EventIndexTable::new(),
        }
    }

    /// Sweeps event `event_id` once: an enabled event whose counter is 0
    /// fires (a free-running one reloads its counter with its threshold, an
    /// on/off one disables itself) and its actions are returned; an enabled
    /// event with a positive counter counts down.
    pub fn execute_event(&mut self, event_id: EventId) -> (res: Option<EventAction>)
        requires
            old(self).wf(),
            event_id < EVENT_NO,
            event_safe(old(self).event_table@, event_id as int),
        ensures
            final(self).wf(),
            final(self).same_lists(old(self)),
            final(self).event_table@ == executed(old(self).event_table@, event_id as int),
            fires(old(self).event_table@[event_id as int]) ==> res == Some(
                actions_of(old(self).event_table@[event_id as int]),
            ),
            !fires(old(self).event_table@[event_id as int]) ==> res is None,
    {
        let event = self.event_table[event_id];
        if event.is_enabled {
            if event.counter == 0 {
                if event.event_type == EventType::FreeRunning {
                    let mut e = event;
                    e.counter = event.threshold;
                    self.event_table.set(event_id, e);
                } else {
                    self.disable_event(event_id);
                }
                return Some(self.execute_opcode(event_id));
            } else {
                let mut e = event;
                e.counter = event.counter - 1;
                self.event_table.set(event_id, e);
            }
        }
        None
    }

    /// Sweeps, in list order, every event listed for period `event_type`,
    /// and returns the actions of those that fired, in firing order.
    pub fn sweep(&mut self, event_type: EventTableType) -> (actions: Vec<EventAction>)
        requires
            old(self).wf(),
            sweep_safe(old(self).event_table@, old(self).index_table(event_type).table@),
        ensures
            final(self).wf(),
            final(self).same_lists(old(self)),
            final(self).event_table@ == swept(
                old(self).event_table@,
                old(self).index_table(event_type).table@,
            ),
            actions@ == sweep_actions(
                old(self).event_table@,
                old(self).index_table(event_type).table@,
            ),
    {
        let ghost events0 = self.event_table@;
        let ghost ids = self.index_table(event_type).table@;
        let mut actions: Vec<EventAction> = Vec::new();
        let mut i: usize = 0;
        while i < EVENT_INDEX_TABLE_COUNT
            invariant
                self.wf(),
                self.same_lists(old(self)),
                i <= EVENT_INDEX_TABLE_COUNT,
                ids == old(self).index_table(event_type).table@,
                ids.len() == EVENT_INDEX_TABLE_COUNT,
                events0 == old(self).event_table@,
                sweep_safe(events0, ids),
                self.event_table@ == swept(events0, ids.take(i as int)),
                actions@ == sweep_actions(events0, ids.take(i as int)),
            decreases EVENT_INDEX_TABLE_COUNT - i,
        {
            let entry = match event_type {
                EventTableType::MilliSec => self.ms_event_table.table[i],
                EventTableType::Sec => self.sec_event_table.table[i],
                EventTableType::Min => self.min_event_table.table[i],
                EventTableType::Hour => self.hr_event_table.table[i],
            };
            assert(entry == ids[i as int]);
            proof {
                assert(ids.take(i as int + 1).drop_last() =~= ids.take(i as int));
                assert(ids.take(i as int + 1).last() == ids[i as int]);
                lemma_sweep_safe_prefix(events0, ids, i as int + 1);
            }
            if let Some(event_id) = entry {
                assert(self.index_table(event_type).ids_below(self.curr as nat));
                assert(event_id < EVENT_NO);
                if let Some(action) = self.execute_event(event_id) {
                    actions.push(action);
                }
            }
            i += 1;
        }
        assert(ids.take(EVENT_INDEX_TABLE_COUNT as int) =~= ids);
        actions
    }

    /// Whether sweeping period `event_type` now stays within the table, i.e.
    /// whether `sweep` may be called: the sweep is simulated on a copy of
    /// the event table.
    pub fn sweep_is_safe(&self, event_type: EventTableType) -> (safe: bool)
        requires
            self.wf(),
        ensures
            safe == sweep_safe(self.event_table@, self.index_table(event_type).table@),
    {
        let ghost events0 = self.event_table@;
        let ghost ids = self.index_table(event_type).table@;
        let mut copy: Vec<Event> = Vec::new();
        let mut j: usize = 0;
        while j < EVENT_NO
            invariant
                j <= EVENT_NO,
                self.event_table@ == events0,
                events0.len() == EVENT_NO,
                copy@ == events0.take(j as int),
            decreases EVENT_NO - j,
        {
            copy.push(self.event_table[j]);
            j += 1;
            assert(copy@ =~= events0.take(j as int));
        }
        assert(copy@ =~= events0);
        let mut sim = EventManager {
            event_table: copy,
            curr: 0,
            ms_event_table: EventIndexTable::new(),
            sec_event_table: EventIndexTable::new(),
            min_event_table: EventIndexTable::new(),
            hr_event_table: EventIndexTable::new(),
        };
        let mut i: usize = 0;
        while i < EVENT_INDEX_TABLE_COUNT
            invariant
                self.wf(),
                sim.wf(),
                i <= EVENT_INDEX_TABLE_COUNT,
                ids == self.index_table(event_type).table@,
                ids.len() == EVENT_INDEX_TABLE_COUNT,
                events0 == self.event_table@,
                sim.event_table@ == swept(events0, ids.take(i as int)),
                sweep_safe(events0, ids.take(i as int)),
            decreases EVENT_INDEX_TABLE_COUNT - i,
        {
            let entry = match event_type {
                EventTableType::MilliSec => self.ms_event_table.table[i],
                EventTableType::Sec => self.sec_event_table.table[i],
                EventTableType::Min => self.min_event_table.table[i],
                EventTableType::Hour => self.hr_event_table.table[i],
            };
            assert(entry == ids[i as int]);
            proof {
                assert(ids.take(i as int + 1).drop_last() =~= ids.take(i as int));
                assert(ids.take(i as int + 1).last() == ids[i as int]);
            }
            if let Some(event_id) = entry {
                assert(self.index_table(event_type).ids_below(self.curr as nat));
                let e = sim.event_table[event_id];
                if e.is_enabled && e.counter == 0 && e.opcode & OPCODE_ENABLE_EVENT
                    == OPCODE_ENABLE_EVENT && e.next_event >= EVENT_NO {
                    proof {
                        if sweep_safe(events0, ids) {
                            lemma_sweep_safe_prefix(events0, ids, i as int + 1);
                        }
                    }
                    return false;
                }
                let _ = sim.execute_event(event_id);
            }
            i += 1;
        }
        assert(ids.take(EVENT_INDEX_TABLE_COUNT as int) =~= ids);
        true
    }

    /// Creates an event in the next slot, lists it for period
    /// `event_counter_type`, and returns its id.
    pub fn create(
        &mut self,
        is_enabled: bool,
        event_type: EventType,
        threshold: u8,
        event_counter_type: EventTableType,
    ) -> (id: EventId)
        requires
            old(self).wf(),
            old(self).curr < EVENT_NO,
        ensures
            final(self).wf(),
            id == old(self).curr,
            final(self).curr == old(self).curr + 1,
            final(self).event_table@ == old(self).event_table@.update(
                id as int,
                fresh_event(is_enabled, event_type, threshold),
            ),
            final(self).index_table(event_counter_type).table@ == old(self).index_table(
                event_counter_type,
            ).table@.update(old(self).index_table(event_counter_type).curr as int, Some(id)),
            final(self).index_table(event_counter_type).curr == old(self).index_table(
                event_counter_type,
            ).curr + 1,
            forall|t: EventTableType|
                t != event_counter_type ==> #[trigger] final(self).index_table(t) == old(self).index_table(t),
    {
        let id = self.curr;
        self.event_table.set(
            id,
            Event {
                is_enabled,
                event_type,
                threshold,
                counter: 0,
                opcode: 0,
                semaphore: 0,
                tasks: 0,
                msg_index: 0,
                next_event: 0,
            },
        );
        match event_counter_type {
            EventTableType::Hour => self.hr_event_table.add(id),
            EventTableType::MilliSec => self.ms_event_table.add(id),
            EventTableType::Min => self.min_event_table.add(id),
            EventTableType::Sec => self.sec_event_table.add(id),
        };
        self.curr += 1;
        id
    }

    /// Makes event `event_id` signal `tasks_mask` (added to the tasks it
    /// already names) on semaphore `sem`.
    pub fn set_semaphore(&mut self, event_id: EventId, sem: SemaphoreId, tasks_mask: BooleanVector)
        requires
            old(self).wf(),
            event_id < EVENT_NO,
        ensures
            final(self).wf(),
            final(self).same_lists(old(self)),
            final(self).event_table@ == old(self).event_table@.update(
                event_id as int,
                Event {
                    opcode: old(self).event_table@[event_id as int].opcode | OPCODE_SIGNAL,
                    semaphore: sem,
                    tasks: old(self).event_table@[event_id as int].tasks | tasks_mask,
                    ..old(self).event_table@[event_id as int]
                },
            ),
    {
        let mut e = self.event_table[event_id];
        e.opcode = e.opcode | OPCODE_SIGNAL;
        e.semaphore = sem;
        e.tasks = e.tasks | tasks_mask;
        self.event_table.set(event_id, e);
    }

    /// Makes event `event_id` release `tasks_mask`.
    pub fn set_tasks(&mut self, event_id: EventId, tasks_mask: BooleanVector)
        requires
            old(self).wf(),
            event_id < EVENT_NO,
        ensures
            final(self).wf(),
            final(self).same_lists(old(self)),
            final(self).event_table@ == old(self).event_table@.update(
                event_id as int,
                Event {
                    opcode: old(self).event_table@[event_id as int].opcode | OPCODE_RELEASE,
                    tasks: tasks_mask,
                    ..old(self).event_table@[event_id as int]
                },
            ),
    {
        let mut e = self.event_table[event_id];
        e.opcode = e.opcode | OPCODE_RELEASE;
        e.tasks = tasks_mask;
        self.event_table.set(event_id, e);
    }

    /// Makes event `event_id` broadcast message `msg_id`.
    pub fn set_msg(&mut self, event_id: EventId, msg_id: MessageId)
        requires
            old(self).wf(),
            event_id < EVENT_NO,
        ensures
            final(self).wf(),
            final(self).same_lists(old(self)),
            final(self).event_table@ == old(self).event_table@.update(
                event_id as int,
                Event {
                    opcode: old(self).event_table@[event_id as int].opcode | OPCODE_SEND_MSG,
                    msg_index: msg_id,
                    ..old(self).event_table@[event_id as int]
                },
            ),
    {
        let mut e = self.event_table[event_id];
        e.opcode = e.opcode | OPCODE_SEND_MSG;
        e.msg_index = msg_id;
        self.event_table.set(event_id, e);
    }

    /// Makes event `event_id` enable event `next` when it fires.
    pub fn set_next_event(&mut self, event_id: EventId, next: EventId)
        requires
            old(self).wf(),
            event_id < EVENT_NO,
        ensures
            final(self).wf(),
            final(self).same_lists(old(self)),
            final(self).event_table@ == old(self).event_table@.update(
                event_id as int,
                Event {
                    opcode: old(self).event_table@[event_id as int].opcode | OPCODE_ENABLE_EVENT,
                    next_event: next,
                    ..old(self).event_table@[event_id as int]
                },
            ),
    {
        let mut e = self.event_table[event_id];
        e.opcode = e.opcode | OPCODE_ENABLE_EVENT;
        e.next_event = next;
        self.event_table.set(event_id, e);
    }

    /// Performs the opcode of event `event_id` that stays within the event
    /// table (enabling the successor) and returns the others.
    fn execute_opcode(&mut self, event_id: EventId) -> (res: EventAction)
        requires
            old(self).event_table@.len() == EVENT_NO,
            event_id < EVENT_NO,
            has_op(old(self).event_table@[event_id as int], OPCODE_ENABLE_EVENT) ==> old(
                self,
            ).event_table@[event_id as int].next_event < EVENT_NO,
        ensures
            res == actions_of(old(self).event_table@[event_id as int]),
            final(self).same_lists(old(self)),
            has_op(old(self).event_table@[event_id as int], OPCODE_ENABLE_EVENT) ==> final(self).event_table@ == old(self).event_table@.update(
                old(self).event_table@[event_id as int].next_event as int,
                Event {
                    is_enabled: true,
                    ..old(self).event_table@[old(self).event_table@[event_id as int].next_event as int]
                },
            ),
            !has_op(old(self).event_table@[event_id as int], OPCODE_ENABLE_EVENT) ==> final(self).event_table@ == old(self).event_table@,
    {
        let event = self.event_table[event_id];
        let signal = if event.opcode & OPCODE_SIGNAL == OPCODE_SIGNAL {
            Some(SemaphoreSignal { semaphore: event.semaphore, tasks: event.tasks })
        } else {
            None
        };
        let broadcast = if event.opcode & OPCODE_SEND_MSG == OPCODE_SEND_MSG {
            Some(event.msg_index)
        } else {
            None
        };
        let release = if event.opcode & OPCODE_RELEASE == OPCODE_RELEASE {
            Some(event.tasks)
        } else {
            None
        };
        if event.opcode & OPCODE_ENABLE_EVENT == OPCODE_ENABLE_EVENT {
            self.enable_next(event_id);
        }
        EventAction { signal, broadcast, release }
    }

    /// Enables event `event_id`.
    pub fn enable_event(&mut self, event_id: EventId)
        requires
            old(self).event_table@.len() == EVENT_NO,
            event_id < EVENT_NO,
        ensures
            old(self).wf() ==> final(self).wf(),
            final(self).same_lists(old(self)),
            final(self).event_table@ == old(self).event_table@.update(
                event_id as int,
                Event { is_enabled: true, ..old(self).event_table@[event_id as int] },
            ),
    {
        let mut e = self.event_table[event_id];
        e.is_enabled = true;
        self.event_table.set(event_id, e);
    }

    /// Disables event `event_id`.
    pub fn disable_event(&mut self, event_id: EventId)
        requires
            old(self).event_table@.len() == EVENT_NO,
            event_id < EVENT_NO,
        ensures
            old(self).wf() ==> final(self).wf(),
            final(self).same_lists(old(self)),
            final(self).event_table@ == old(self).event_table@.update(
                event_id as int,
                Event { is_enabled: false, ..old(self).event_table@[event_id as int] },
            ),
    {
        let mut e = self.event_table[event_id];
        e.is_enabled = false;
        self.event_table.set(event_id, e);
    }

    /// Enables the successor of event `event_id`.
    pub fn enable_next(&mut self, event_id: EventId)
        requires
            old(self).event_table@.len() == EVENT_NO,
            event_id < EVENT_NO,
            old(self).event_table@[event_id as int].next_event < EVENT_NO,
        ensures
            old(self).wf() ==> final(self).wf(),
            final(self).same_lists(old(self)),
            final(self).event_table@ == old(self).event_table@.update(
                old(self).event_table@[event_id as int].next_event as int,
                Event {
                    is_enabled: true,
                    ..old(self).event_table@[old(self).event_table@[event_id as int].next_event as int]
                },
            ),
    {
        let event = self.event_table[event_id];
        assert(event.next_event < EVENT_NO);
        self.enable_event(event.next_event);
    }
}

} // verus!
