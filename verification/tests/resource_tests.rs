use harsark::errors::KernelError;
use harsark::resource::{PiEntry, PiStack, Resource};
use harsark::scheduler::{Dispatch, Scheduler};

#[test]
fn ceiling_is_highest_user_and_idle_task_may_use() {
    let r = Resource::new([1u32, 2, 3], 0b0110);
    let mut pi = PiStack::new();
    let mut s = Scheduler::new();
    assert_eq!(r.acquire(&mut pi, &mut s, 0, true, |v| v[0]), Ok((1, Dispatch::Stay)));
    assert_eq!(r.acquire(&mut pi, &mut s, 1, true, |v| v[1]), Ok((2, Dispatch::Stay)));
    assert_eq!(r.acquire(&mut pi, &mut s, 3, true, |v| v[2]), Err(KernelError::AccessDenied));
}

#[test]
fn lock_blocks_tasks_up_to_ceiling_but_holder() {
    let r = Resource::new(5u32, 0b0110);
    let mut pi = PiStack::new();
    let mut s = Scheduler::new();
    assert_eq!(r.lock(&mut pi, &mut s, 1), Ok(&5));
    assert_eq!(s.blocked_tasks, 0b0101);
    assert_eq!(pi.system_ceiling(), 2);
    assert_eq!(r.unlock(&mut pi, &mut s, true), Ok(Dispatch::Stay));
    assert_eq!(s.blocked_tasks, 0);
    assert_eq!(pi.system_ceiling(), -1);
}

#[test]
fn nested_locks_need_higher_ceilings() {
    let low = Resource::new(1u32, 0b0010);
    let high = Resource::new(2u32, 0b1010);
    let mut pi = PiStack::new();
    let mut s = Scheduler::new();
    assert_eq!(low.lock(&mut pi, &mut s, 1), Ok(&1));
    assert_eq!(high.lock(&mut pi, &mut s, 1), Ok(&2));
    assert_eq!(pi.system_ceiling(), 3);
    assert_eq!(low.lock(&mut pi, &mut s, 1), Err(KernelError::AccessDenied));
    assert_eq!(low.unlock(&mut pi, &mut s, true), Ok(Dispatch::Stay));
    assert_eq!(pi.system_ceiling(), 3);
    assert_eq!(high.unlock(&mut pi, &mut s, true), Ok(Dispatch::Stay));
    assert_eq!(pi.system_ceiling(), 1);
    assert_eq!(low.unlock(&mut pi, &mut s, true), Ok(Dispatch::Stay));
    assert_eq!(pi.system_ceiling(), -1);
    assert_eq!(s.blocked_tasks, 0);
}

#[test]
fn inner_unlock_keeps_outer_blocking() {
    let outer = Resource::new(1u32, 0b0100);
    let inner = Resource::new(2u32, 0b1100);
    let mut pi = PiStack::new();
    let mut s = Scheduler::new();
    assert_eq!(outer.lock(&mut pi, &mut s, 2), Ok(&1));
    assert_eq!(s.blocked_tasks, 0b0011);
    let res = inner.acquire(&mut pi, &mut s, 2, true, |v| *v + 1);
    assert_eq!(res, Ok((3, Dispatch::Stay)));
    assert_eq!(s.blocked_tasks, 0b0011);
    assert_eq!(pi.system_ceiling(), 2);
    assert_eq!(outer.unlock(&mut pi, &mut s, true), Ok(Dispatch::Stay));
    assert_eq!(s.blocked_tasks, 0);
}

#[test]
fn acquire_restores_tasks_blocked_before() {
    let r = Resource::new(vec![7u32], 0b0100);
    let mut pi = PiStack::new();
    let mut s = Scheduler::new();
    s.blocked_tasks = 0b0011;
    assert_eq!(r.acquire(&mut pi, &mut s, 2, true, |v| v.len()), Ok((1, Dispatch::Stay)));
    assert_eq!(s.blocked_tasks, 0b0011);
    assert_eq!(pi.system_ceiling(), -1);
}

#[test]
fn unlock_reaches_a_scheduling_point() {
    let r = Resource::new(0u32, 0b0010);
    let mut pi = PiStack::new();
    let mut s = Scheduler::new();
    let mut idle = vec![0u32; 64];
    let mut st = vec![0u32; 64];
    harsark::tasks::init(&mut s, &mut idle, 0x1000, 1).unwrap();
    harsark::tasks::create_task(&mut s, true, 1, &mut st, 0x2000, 2, 0).unwrap();
    s.is_running = true;
    assert_eq!(r.lock(&mut pi, &mut s, 0), Ok(&0));
    s.release(0b10);
    assert_eq!(s.get_next_tid(), 0);
    assert_eq!(r.unlock(&mut pi, &mut s, true), Ok(Dispatch::Switch { prev: None, next: 1 }));
    assert_eq!(s.curr_tid, 1);
    assert_eq!(r.lock(&mut pi, &mut s, 1), Ok(&0));
    assert_eq!(r.unlock(&mut pi, &mut s, false), Ok(Dispatch::Supervisor));
}

#[test]
fn access_needs_privileges() {
    let r = Resource::new(3u8, 0);
    assert_eq!(r.access(true), Ok(&3));
    assert_eq!(r.access(false), Err(KernelError::AccessDenied));
}

#[test]
fn pi_stack_bounds() {
    let mut pi = PiStack::new();
    assert_eq!(pi.pop_stack(), Err(KernelError::NotFound));
    for c in 0..32 {
        assert_eq!(pi.push_stack(c, c), Ok(()));
        assert_eq!(pi.system_ceiling(), c as i32);
    }
    assert_eq!(pi.push_stack(5, 0), Err(KernelError::LimitExceeded));
    assert_eq!(pi.system_ceiling(), 31);
    assert_eq!(pi.pop_stack(), Ok(PiEntry { ceiling: 31, blocked: 31 }));
    assert_eq!(pi.system_ceiling(), 30);
}

#[test]
fn create_needs_privileges() {
    assert!(matches!(harsark::resource::create(false, 1u8, 0b10), Err(KernelError::AccessDenied)));
    let r = harsark::resource::create(true, 1u8, 0b10).unwrap();
    let mut pi = PiStack::new();
    let mut s = Scheduler::new();
    assert_eq!(r.lock(&mut pi, &mut s, 1), Ok(&1));
    assert_eq!(pi.system_ceiling(), 1);
    assert_eq!(s.blocked_tasks, 0b01);
}

#[test]
fn holder_runs_unless_a_task_above_the_ceiling_is_ready() {
    let r = Resource::new(0u32, 0b1010);
    let mut pi = PiStack::new();
    let mut s = Scheduler::new();
    s.release(0b1111);
    assert_eq!(r.lock(&mut pi, &mut s, 1), Ok(&0));
    assert_eq!(s.get_next_tid(), 1);
    s.release(0b10_0000);
    assert_eq!(s.get_next_tid(), 5);
    assert_eq!(r.unlock(&mut pi, &mut s, true), Ok(Dispatch::Stay));
    assert_eq!(s.blocked_tasks, 0);
}
