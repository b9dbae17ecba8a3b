use harsark::errors::KernelError;
use harsark::helper::{generate_task_mask, get_msb};
use harsark::scheduler::{Dispatch, Scheduler, TaskControlBlock, INITIAL_XPSR};
use harsark::tasks;

fn new_stack() -> Vec<u32> {
    vec![0u32; 64]
}

#[test]
fn task_mask_lists_members() {
    assert_eq!(generate_task_mask(&[1, 2, 3]), 0b1110);
    assert_eq!(generate_task_mask(&[]), 0);
    assert_eq!(generate_task_mask(&[31, 0, 31]), 0x8000_0001);
}

#[test]
fn msb_finds_highest_task() {
    assert_eq!(get_msb(&0), 0);
    assert_eq!(get_msb(&1), 0);
    assert_eq!(get_msb(&0b1010), 3);
    assert_eq!(get_msb(&0x8000_0000), 31);
    assert_eq!(get_msb(&0xffff_ffff), 31);
}

#[test]
fn new_scheduler_state() {
    let s = Scheduler::new();
    assert_eq!(s.curr_tid, 0);
    assert!(!s.is_running);
    assert_eq!(s.active_tasks, 1);
    assert_eq!(s.blocked_tasks, 0);
    assert!(s.is_preemptive);
    assert_eq!(s.preempt_disable_count, 0);
    assert_eq!(s.task_control_blocks.len(), 32);
    assert!(s.task_control_blocks.iter().all(|t| t.is_none()));
}

#[test]
fn release_block_unblock_and_next_task() {
    let mut s = Scheduler::new();
    tasks::release(&mut s, 0b1110);
    assert_eq!(s.active_tasks, 0b1111);
    assert_eq!(s.get_next_tid(), 3);
    tasks::block_tasks(&mut s, 0b1000);
    assert_eq!(s.get_next_tid(), 2);
    tasks::unblock_tasks(&mut s, 0b1000);
    assert_eq!(s.blocked_tasks, 0);
    assert_eq!(s.get_next_tid(), 3);
}

#[test]
fn next_task_is_idle_when_nothing_ready() {
    let mut s = Scheduler::new();
    tasks::block_tasks(&mut s, 1);
    assert_eq!(s.get_next_tid(), 0);
}

#[test]
fn create_task_writes_initial_frame() {
    let mut s = Scheduler::new();
    let mut stack = new_stack();
    let r = tasks::create_task(&mut s, true, 3, &mut stack, 0x2000_0000, 0x0800_1234, 77);
    assert_eq!(r, Ok(()));
    assert_eq!(stack[63], INITIAL_XPSR);
    assert_eq!(stack[62], 0x0800_1234);
    assert_eq!(stack[56], 77);
    assert_eq!(stack[0], 0);
    assert_eq!(s.task_control_blocks[3], Some(TaskControlBlock { sp: 0x2000_0000 + 4 * 48 }));
}

#[test]
fn create_task_errors() {
    let mut s = Scheduler::new();
    let mut small = vec![0u32; 31];
    assert_eq!(
        tasks::create_task(&mut s, true, 1, &mut small, 0, 1, 0),
        Err(KernelError::StackTooSmall)
    );
    assert!(small.iter().all(|w| *w == 0));
    let mut stack = new_stack();
    assert_eq!(
        tasks::create_task(&mut s, true, 32, &mut stack, 0, 1, 0),
        Err(KernelError::DoesNotExist)
    );
    assert_eq!(stack[63], INITIAL_XPSR);
    let mut stack2 = new_stack();
    assert_eq!(
        tasks::create_task(&mut s, false, 1, &mut stack2, 0, 1, 0),
        Err(KernelError::AccessDenied)
    );
    assert!(stack2.iter().all(|w| *w == 0));
    assert!(s.task_control_blocks.iter().all(|t| t.is_none()));
}

#[test]
fn init_creates_idle_task() {
    let mut s = Scheduler::new();
    let mut stack = new_stack();
    assert_eq!(tasks::init(&mut s, &mut stack, 0x100, 0x42), Ok(()));
    assert_eq!(s.task_control_blocks[0], Some(TaskControlBlock { sp: 0x100 + 4 * 48 }));
    assert_eq!(stack[62], 0x42);
    assert_eq!(stack[56], 0);
}

fn kernel_with_tasks(prios: &[u32]) -> Scheduler {
    let mut s = Scheduler::new();
    let mut idle = new_stack();
    tasks::init(&mut s, &mut idle, 0x1000, 1).unwrap();
    for p in prios {
        let mut st = new_stack();
        tasks::create_task(&mut s, true, *p, &mut st, 0x2000 * (*p as usize), 2, 0).unwrap();
    }
    s
}

#[test]
fn preempt_before_start_stays() {
    let mut s = kernel_with_tasks(&[1, 2]);
    tasks::release(&mut s, 0b110);
    assert_eq!(tasks::preempt(&mut s), Ok(Dispatch::Stay));
    assert_eq!(s.curr_tid, 0);
}

#[test]
fn start_then_exit_switches_down_priorities() {
    let mut s = kernel_with_tasks(&[1, 2]);
    tasks::release(&mut s, 0b110);
    assert_eq!(tasks::start_kernel(&mut s), Ok(Dispatch::Switch { prev: None, next: 2 }));
    assert!(s.started);
    assert_eq!(tasks::get_curr_tid(&s), 2);
    assert_eq!(tasks::task_exit(&mut s, true), Ok(Dispatch::Switch { prev: Some(2), next: 1 }));
    assert_eq!(s.active_tasks, 0b011);
    assert_eq!(tasks::task_exit(&mut s, true), Ok(Dispatch::Switch { prev: Some(1), next: 0 }));
    assert_eq!(s.active_tasks, 0b001);
    assert_eq!(tasks::schedule(&mut s, true), Ok(Dispatch::Stay));
}

#[test]
fn preempt_to_missing_task_is_an_error() {
    let mut s = kernel_with_tasks(&[1]);
    tasks::release(&mut s, 0b100);
    assert_eq!(tasks::start_kernel(&mut s), Err(KernelError::DoesNotExist));
    assert_eq!(s.curr_tid, 2);
    assert!(s.started);
}

#[test]
fn schedule_without_privileges_asks_for_supervisor_call() {
    let mut s = kernel_with_tasks(&[1]);
    s.is_running = true;
    tasks::release(&mut s, 0b10);
    assert_eq!(tasks::schedule(&mut s, false), Ok(Dispatch::Supervisor));
    assert_eq!(s.curr_tid, 0);
    assert_eq!(tasks::schedule(&mut s, true), Ok(Dispatch::Switch { prev: None, next: 1 }));
}

#[test]
fn preemption_nesting() {
    let mut s = kernel_with_tasks(&[1]);
    s.is_running = true;
    tasks::disable_preemption(&mut s);
    tasks::disable_preemption(&mut s);
    assert!(!s.is_preemptive);
    tasks::release(&mut s, 0b10);
    assert_eq!(tasks::schedule(&mut s, true), Ok(Dispatch::Stay));
    tasks::enable_preemption(&mut s);
    assert!(!s.is_preemptive);
    assert_eq!(s.preempt_disable_count, 1);
    tasks::enable_preemption(&mut s);
    assert!(s.is_preemptive);
    assert_eq!(s.preempt_disable_count, 0);
    assert_eq!(tasks::schedule(&mut s, true), Ok(Dispatch::Switch { prev: None, next: 1 }));
}

#[test]
fn unblock_after_block_restores() {
    let mut s = Scheduler::new();
    tasks::block_tasks(&mut s, 0b100);
    let before = s.blocked_tasks;
    tasks::block_tasks(&mut s, 0b1010);
    tasks::unblock_tasks(&mut s, 0b1010);
    assert_eq!(s.blocked_tasks, before);
}

#[test]
fn exit_clears_only_current_task() {
    let mut s = Scheduler::new();
    tasks::release(&mut s, 0b1110);
    s.curr_tid = 2;
    s.exit_current();
    assert_eq!(s.active_tasks, 0b1011);
}
