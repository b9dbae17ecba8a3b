use harsark::errors::KernelError;
use harsark::message_buffers::{MessagingManager, TCB};

#[test]
fn tcb_starts_empty() {
    let t = TCB::new();
    assert_eq!(t.msg_size, 0);
    assert_eq!(t.dest_buffer, vec![0u32; 32]);
}

#[test]
fn receivers_read_their_own_copy() {
    let mut m = MessagingManager::new();
    let id = m.create(0b1000, 0b0110, vec![7, 8, 9]).unwrap();
    assert_eq!(id, 0);
    assert_eq!(m.receive(id, 1), None);
    assert_eq!(m.broadcast(id), Ok(0b1000));
    assert_eq!(m.receive(id, 1), Some(&[7u32, 8, 9][..]));
    assert_eq!(m.receive(id, 1), None);
    assert_eq!(m.tcb_table[2].msg_size, 3);
    assert_eq!(m.tcb_table[2].dest_buffer[..4], [7, 8, 9, 0]);
    assert_eq!(m.receive(id, 2), Some(&[7u32, 8, 9][..]));
    assert_eq!(m.tcb_table[3].msg_size, 0);
    assert_eq!(m.receive(id, 3), None);
}

#[test]
fn idle_task_never_gets_a_copy() {
    let mut m = MessagingManager::new();
    let id = m.create(0, 0b1, vec![5]).unwrap();
    assert_eq!(m.broadcast(id), Ok(0));
    assert_eq!(m.receive(id, 0), Some(&[][..]));
    assert_eq!(m.tcb_table[0].msg_size, 0);
}

#[test]
fn buffered_message_errors() {
    let mut m = MessagingManager::new();
    assert_eq!(m.create(0, 0, vec![0; 33]), Err(KernelError::BufferOverflow));
    assert_eq!(m.broadcast(0), Err(KernelError::NotFound));
    assert_eq!(m.broadcast(32), Err(KernelError::NotFound));
    for i in 0..32 {
        assert_eq!(m.create(0, 0, vec![]), Ok(i));
    }
    assert_eq!(m.create(0, 0, vec![1]), Err(KernelError::LimitExceeded));
}
