use harsark::logging::{self, LogEvent, LogEventType, Logger};
use harsark::task_monitor::{self, TaskMonitor};
use std::cell::RefCell;

#[test]
fn missed_deadlines_reported_once() {
    let mut m = TaskMonitor::new();
    task_monitor::set_deadline(&mut m, 10, 1, 5);
    task_monitor::set_deadline(&mut m, 10, 2, 20);
    task_monitor::set_deadline(&mut m, 10, 3, 0);
    assert_eq!(task_monitor::sweep_deadlines(&mut m, 10), 0);
    assert_eq!(task_monitor::sweep_deadlines(&mut m, 16), 0b1010);
    assert_eq!(task_monitor::sweep_deadlines(&mut m, 16), 0);
    task_monitor::clear_deadline(&mut m, 2);
    assert_eq!(task_monitor::sweep_deadlines(&mut m, 100), 0);
}

#[test]
fn log_drains_in_order() {
    let mut l = Logger::new();
    logging::report(&mut l, LogEventType::ReleaseTasks(0b10), 1);
    logging::report(&mut l, LogEventType::TaskExit(1), 2);
    let seen = RefCell::new(Vec::new());
    logging::process(&mut l, |e| seen.borrow_mut().push(e));
    assert_eq!(
        seen.into_inner(),
        vec![
            LogEvent { event_type: LogEventType::ReleaseTasks(0b10), timestamp: 1 },
            LogEvent { event_type: LogEventType::TaskExit(1), timestamp: 2 },
        ]
    );
    assert_eq!(l.len(), 0);
    assert_eq!(l.pop(), None);
    let count = RefCell::new(0);
    logging::process(&mut l, |_| *count.borrow_mut() += 1);
    assert_eq!(count.into_inner(), 0);
}

#[test]
fn log_keeps_every_entry() {
    let mut l = Logger::new();
    for i in 0..100 {
        logging::report(&mut l, LogEventType::BlockTasks(i), i);
    }
    assert_eq!(l.len(), 100);
    assert_eq!(l.pop(), Some(LogEvent::new(LogEventType::BlockTasks(0), 0)));
    l.push(LogEvent::new(LogEventType::TaskExit(3), 7));
    assert_eq!(l.len(), 100);
}
