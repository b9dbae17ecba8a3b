use harsark::errors::KernelError;
use harsark::event_manager::{
    EventAction, EventIndexTable, EventManager, EventTableType, EventType, SemaphoreSignal,
};
use harsark::events;
use harsark::time::TickType;

fn release_of(tasks: u32) -> EventAction {
    EventAction { signal: None, broadcast: None, release: Some(tasks) }
}

#[test]
fn index_table_appends_in_order() {
    let mut t = EventIndexTable::new();
    t.add(4);
    t.add(2);
    assert_eq!(t.curr, 2);
    assert_eq!(t.table[0], Some(4));
    assert_eq!(t.table[1], Some(2));
    assert_eq!(t.table[2], None);
}

#[test]
fn create_lists_event_in_its_period() {
    let mut m = EventManager::new();
    assert_eq!(m.create(true, EventType::FreeRunning, 2, EventTableType::Sec), 0);
    assert_eq!(m.create(false, EventType::OnOff, 0, EventTableType::MilliSec), 1);
    assert_eq!(m.curr, 2);
    assert_eq!(m.sec_event_table.table[0], Some(0));
    assert_eq!(m.ms_event_table.table[0], Some(1));
    assert_eq!(m.min_event_table.curr, 0);
    assert!(m.event_table[0].is_enabled);
    assert_eq!(m.event_table[0].threshold, 2);
    assert_eq!(m.event_table[0].counter, 0);
}

#[test]
fn free_running_event_fires_every_threshold_plus_one_sweeps() {
    let mut m = EventManager::new();
    let e = m.create(true, EventType::FreeRunning, 2, EventTableType::Sec);
    m.set_tasks(e, 0b110);
    let mut fired = Vec::new();
    for i in 0..7 {
        let acts = m.sweep(EventTableType::Sec);
        if !acts.is_empty() {
            assert_eq!(acts, vec![release_of(0b110)]);
            fired.push(i);
        }
    }
    assert_eq!(fired, vec![0, 3, 6]);
    assert!(m.sweep(EventTableType::MilliSec).is_empty());
}

#[test]
fn on_off_event_fires_once() {
    let mut m = EventManager::new();
    let e = m.create(true, EventType::OnOff, 5, EventTableType::MilliSec);
    m.set_msg(e, 3);
    let acts = m.sweep(EventTableType::MilliSec);
    assert_eq!(acts, vec![EventAction { signal: None, broadcast: Some(3), release: None }]);
    assert!(!m.event_table[e].is_enabled);
    assert!(m.sweep(EventTableType::MilliSec).is_empty());
    assert!(m.sweep(EventTableType::MilliSec).is_empty());
}

#[test]
fn firing_enables_successor() {
    let mut m = EventManager::new();
    let first = m.create(true, EventType::OnOff, 0, EventTableType::Min);
    let second = m.create(false, EventType::OnOff, 0, EventTableType::Min);
    m.set_next_event(first, second);
    m.set_semaphore(second, 4, 0b10);
    m.set_semaphore(second, 4, 0b100);
    let acts = m.sweep(EventTableType::Min);
    assert_eq!(
        acts,
        vec![
            EventAction { signal: None, broadcast: None, release: None },
            EventAction {
                signal: Some(SemaphoreSignal { semaphore: 4, tasks: 0b110 }),
                broadcast: None,
                release: None
            },
        ]
    );
    assert!(!m.event_table[first].is_enabled);
    assert!(!m.event_table[second].is_enabled);
    assert!(m.sweep(EventTableType::Min).is_empty());
}

#[test]
fn disabled_event_keeps_counter() {
    let mut m = EventManager::new();
    let e = m.create(false, EventType::FreeRunning, 3, EventTableType::Hour);
    m.set_tasks(e, 1);
    assert_eq!(m.execute_event(e), None);
    assert_eq!(m.event_table[e].counter, 0);
    m.enable_event(e);
    assert_eq!(m.execute_event(e), Some(release_of(1)));
    assert_eq!(m.event_table[e].counter, 3);
    assert_eq!(m.execute_event(e), None);
    assert_eq!(m.event_table[e].counter, 2);
    m.disable_event(e);
    assert!(!m.event_table[e].is_enabled);
}

#[test]
fn set_tasks_overwrites_and_combines_actions() {
    let mut m = EventManager::new();
    let e = m.create(true, EventType::FreeRunning, 0, EventTableType::Sec);
    m.set_tasks(e, 0b10);
    m.set_tasks(e, 0b100);
    m.set_msg(e, 7);
    assert_eq!(m.event_table[e].opcode, 4 | 2);
    assert_eq!(
        m.execute_event(e),
        Some(EventAction { signal: None, broadcast: Some(7), release: Some(0b100) })
    );
}

#[test]
fn kernel_event_routines() {
    let mut m = EventManager::new();
    assert_eq!(
        events::new(&mut m, false, true, EventType::FreeRunning, 1, EventTableType::Sec),
        Err(KernelError::AccessDenied)
    );
    let e = events::new(&mut m, true, false, EventType::FreeRunning, 1, EventTableType::Sec).unwrap();
    assert_eq!(events::enable(&mut m, e), Ok(()));
    assert!(m.event_table[e].is_enabled);
    assert_eq!(events::disable(&mut m, e), Ok(()));
    assert!(!m.event_table[e].is_enabled);
    assert_eq!(events::enable(&mut m, 9), Err(KernelError::NotFound));
    assert_eq!(events::disable(&mut m, 9), Err(KernelError::NotFound));
    assert_eq!(events::set_tasks(&mut m, false, e, 1), Err(KernelError::AccessDenied));
    assert_eq!(events::set_tasks(&mut m, true, e, 1), Ok(()));
    assert_eq!(events::set_msg(&mut m, false, e, 1), Err(KernelError::AccessDenied));
    assert_eq!(events::set_semaphore(&mut m, false, e, 1, 1), Err(KernelError::AccessDenied));
    assert_eq!(events::set_next_event(&mut m, false, e, 0), Err(KernelError::AccessDenied));
    assert_eq!(events::enable(&mut m, e), Ok(()));
    assert_eq!(events::dispatch_event(&mut m, e), Some(release_of(1)));
    assert_eq!(events::sweep_event_table(&mut m, EventTableType::Sec), Vec::new());
    assert_eq!(events::sweep_event_table(&mut m, EventTableType::Sec), vec![release_of(1)]);
    for _ in 1..32 {
        events::new(&mut m, true, false, EventType::OnOff, 0, EventTableType::Hour).unwrap();
    }
    assert_eq!(
        events::new(&mut m, true, false, EventType::OnOff, 0, EventTableType::Hour),
        Err(KernelError::LimitExceeded)
    );
}

#[test]
fn periods_swept_per_tick() {
    assert_eq!(events::sweeps_for_tick(TickType::MilliSec10), vec![EventTableType::MilliSec]);
    assert_eq!(events::sweeps_for_tick(TickType::Sec), vec![EventTableType::MilliSec, EventTableType::Sec]);
    assert_eq!(events::sweeps_for_tick(TickType::Min), vec![EventTableType::MilliSec, EventTableType::Sec, EventTableType::Min]);
    assert_eq!(events::sweeps_for_tick(TickType::Hour), vec![EventTableType::MilliSec, EventTableType::Sec, EventTableType::Min, EventTableType::Hour]);
    assert_eq!(events::sweeps_for_tick(TickType::Day), vec![EventTableType::MilliSec, EventTableType::Sec, EventTableType::Min, EventTableType::Hour]);
}

#[test]
fn successor_out_of_range_is_stored_and_detected() {
    let mut m = EventManager::new();
    let e = m.create(true, EventType::OnOff, 0, EventTableType::Sec);
    assert!(m.sweep_is_safe(EventTableType::Sec));
    assert_eq!(events::set_next_event(&mut m, true, e, 40), Ok(()));
    assert_eq!(m.event_table[e].next_event, 40);
    assert!(!m.sweep_is_safe(EventTableType::Sec));
    assert!(m.sweep_is_safe(EventTableType::Min));
    m.disable_event(e);
    assert!(m.sweep_is_safe(EventTableType::Sec));
}

#[test]
fn safety_check_follows_the_sweep() {
    let mut m = EventManager::new();
    let first = m.create(true, EventType::OnOff, 0, EventTableType::Sec);
    let second = m.create(false, EventType::OnOff, 0, EventTableType::Sec);
    m.set_next_event(first, second);
    m.set_next_event(second, 99);
    assert!(!m.sweep_is_safe(EventTableType::Sec));
    m.set_next_event(second, 0);
    assert!(m.sweep_is_safe(EventTableType::Sec));
}

#[test]
fn actions_reach_semaphores_messages_and_scheduler() {
    let mut sems = harsark::semaphores::SemaphoresTable::new();
    let mut msgs = harsark::messaging::MessagingManager::new();
    let mut s = harsark::scheduler::Scheduler::new();
    let sem = sems.add_semaphore(0b10).unwrap();
    let msg = msgs.create(0b100, 0b1000).unwrap();
    let action = EventAction {
        signal: Some(SemaphoreSignal { semaphore: sem, tasks: 0b1000 }),
        broadcast: Some(msg),
        release: Some(0b1_0000),
    };
    events::perform_action(action, &mut sems, &mut msgs, &mut s);
    assert_eq!(s.active_tasks, 0b1_0111);
    assert_eq!(sems.test_and_reset(sem, 3), Ok(true));
    assert!(msgs.receive(msg, 3));
    let missing = EventAction {
        signal: Some(SemaphoreSignal { semaphore: 7, tasks: 1 }),
        broadcast: Some(40),
        release: None,
    };
    events::perform_action(missing, &mut sems, &mut msgs, &mut s);
    assert_eq!(s.active_tasks, 0b1_0111);
}
