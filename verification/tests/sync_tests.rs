use harsark::errors::KernelError;
use harsark::messaging::{self, MessagingManager, MCB};
use harsark::scheduler::Scheduler;
use harsark::semaphores::{self, SemaphoreControlBlock, SemaphoresTable};

#[test]
fn semaphore_signal_then_test_consumes() {
    let mut sem = SemaphoreControlBlock::new(0b100);
    assert_eq!(sem.signal_and_release(0b110), 0b100);
    assert_eq!(sem.flags, 0b110);
    assert!(sem.test_and_reset(2));
    assert!(!sem.test_and_reset(2));
    assert!(sem.test_and_reset(1));
    assert!(!sem.test_and_reset(3));
    assert_eq!(sem.flags, 0);
}

#[test]
fn semaphore_table_ids_and_errors() {
    let mut table = SemaphoresTable::new();
    assert_eq!(table.add_semaphore(0b10), Ok(0));
    assert_eq!(table.add_semaphore(0b100), Ok(1));
    assert_eq!(table.signal_and_release(1, 0b1000), Ok(0b100));
    assert_eq!(table.test_and_reset(1, 3), Ok(true));
    assert_eq!(table.test_and_reset(1, 3), Ok(false));
    assert_eq!(table.test_and_reset(0, 3), Ok(false));
    assert_eq!(table.signal_and_release(5, 1), Err(KernelError::NotFound));
    assert_eq!(table.test_and_reset(5, 1), Err(KernelError::NotFound));
    for i in 2..32 {
        assert_eq!(table.add_semaphore(0), Ok(i));
    }
    assert_eq!(table.add_semaphore(0), Err(KernelError::LimitExceeded));
}

#[test]
fn semaphore_routines_release_tasks() {
    let mut table = SemaphoresTable::new();
    let mut s = Scheduler::new();
    assert_eq!(semaphores::new(&mut table, false, 0b10), Err(KernelError::AccessDenied));
    let id = semaphores::new(&mut table, true, 0b10).unwrap();
    assert_eq!(semaphores::signal_and_release(&mut table, &mut s, id, 0b1000), Ok(()));
    assert_eq!(s.active_tasks, 0b11);
    s.curr_tid = 3;
    assert_eq!(semaphores::test_and_reset(&mut table, &s, id), Ok(true));
    assert_eq!(semaphores::test_and_reset(&mut table, &s, id), Ok(false));
    assert_eq!(semaphores::signal_and_release(&mut table, &mut s, 7, 1), Err(KernelError::NotFound));
}

#[test]
fn message_broadcast_then_receive_once() {
    let mut m = MessagingManager::new();
    let id = m.create(0b100, 0b110).unwrap();
    assert_eq!(id, 0);
    assert_eq!(m.mcb_table[0], Some(MCB { receivers: 0b110 }));
    assert_eq!(m.broadcast(id), Ok(0b100));
    assert!(m.receive(id, 1));
    assert!(!m.receive(id, 1));
    assert!(m.receive(id, 2));
    assert!(!m.receive(id, 3));
    assert_eq!(m.broadcast(40), Err(KernelError::NotFound));
    assert!(!m.receive(5, 1));
}

#[test]
fn messages_carry_values() {
    let mut m = MessagingManager::new();
    let mut s = Scheduler::new();
    assert!(matches!(
        messaging::new(&mut m, false, 0b100, 0b100, [9u32, 10]),
        Err(KernelError::AccessDenied)
    ));
    let mut msg = messaging::new(&mut m, true, 0b100, 0b100, [9u32, 10]).unwrap();
    assert_eq!(msg.get_id(), 0);
    s.curr_tid = 2;
    assert_eq!(msg.receive(&mut m, &s), None);
    assert_eq!(msg.broadcast(&mut m, &mut s, Some([4, 5])), Ok(()));
    assert_eq!(s.active_tasks, 0b101);
    assert_eq!(msg.receive(&mut m, &s), Some(&[4u32, 5]));
    assert_eq!(msg.receive(&mut m, &s), None);
    assert_eq!(messaging::broadcast(&mut m, &mut s, 0), Ok(()));
    assert_eq!(msg.receive(&mut m, &s), Some(&[4u32, 5]));
    assert_eq!(msg.broadcast(&mut m, &mut s, None), Ok(()));
    assert_eq!(msg.receive(&mut m, &s), Some(&[4u32, 5]));
    s.curr_tid = 1;
    assert_eq!(msg.receive(&mut m, &s), None);
}

#[test]
fn message_table_fills_up() {
    let mut m = MessagingManager::new();
    for i in 0..32 {
        assert_eq!(m.create(0, 0), Ok(i));
    }
    assert_eq!(m.create(0, 0), Err(KernelError::LimitExceeded));
}
